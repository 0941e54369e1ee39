use caching_proxy::cache::{
    blob_file_name, check_etag, lookup, put_in_cache, CacheError, CacheRecord, CacheStore,
    CachedEntry,
};
use caching_proxy::message::Header;

fn header(name: &str, value: &str) -> Header {
    Header { name: name.to_string(), value: value.as_bytes().to_vec() }
}

fn entry(last_modified: &str, etag: &str) -> CachedEntry {
    CachedEntry { last_modified: last_modified.to_string(), etag: etag.to_string() }
}

#[test]
fn response_with_both_validators_is_stored() {
    let headers = vec![
        header("content-type", "text/plain"),
        header("etag", "\"abc123\""),
        header("last-modified", "Mon, 01 Jan 2024 00:00:00 GMT"),
    ];
    let plan = put_in_cache(&headers, "http://example.test/a.txt", &b"hello".to_vec())
        .unwrap()
        .unwrap();
    assert_eq!(plan.key, "http://example.test/a.txt");
    assert_eq!(plan.file, "abc123");
    assert_eq!(plan.body, b"hello".to_vec());
    assert_eq!(plan.entry, entry("Mon, 01 Jan 2024 00:00:00 GMT", "\"abc123\""));
}

#[test]
fn header_names_match_in_any_case() {
    let headers = vec![header("ETag", "\"v1\""), header("Last-Modified", "yesterday")];
    let plan = put_in_cache(&headers, "k", &Vec::new()).unwrap().unwrap();
    assert_eq!(plan.entry, entry("yesterday", "\"v1\""));
    assert_eq!(plan.file, "v1");
}

#[test]
fn first_of_repeated_validators_counts() {
    let headers = vec![
        header("etag", "\"one\""),
        header("etag", "\"two\""),
        header("last-modified", "a"),
        header("last-modified", "b"),
    ];
    let plan = put_in_cache(&headers, "k", &Vec::new()).unwrap().unwrap();
    assert_eq!(plan.entry, entry("a", "\"one\""));
}

#[test]
fn response_without_etag_is_not_stored() {
    let headers = vec![header("last-modified", "Mon, 01 Jan 2024 00:00:00 GMT")];
    assert_eq!(put_in_cache(&headers, "k", &b"x".to_vec()), Ok(None));
}

#[test]
fn response_without_last_modified_is_not_stored() {
    let headers = vec![header("etag", "\"abc\"")];
    assert_eq!(put_in_cache(&headers, "k", &b"x".to_vec()), Ok(None));
    assert_eq!(put_in_cache(&Vec::new(), "k", &b"x".to_vec()), Ok(None));
}

#[test]
fn unsafe_etag_is_rejected() {
    for tag in ["W/\"abc\"", "a%b", "a;b", "a\\b", "a/b", "../x"] {
        let headers = vec![header("etag", tag), header("last-modified", "x")];
        assert_eq!(put_in_cache(&headers, "k", &Vec::new()), Err(CacheError::InvalidEtag));
    }
    assert_eq!(CacheError::InvalidEtag.message(), "Invalid etag type");
}

#[test]
fn unsafe_etag_without_last_modified_is_only_skipped() {
    let headers = vec![header("etag", "W/\"abc\"")];
    assert_eq!(put_in_cache(&headers, "k", &Vec::new()), Ok(None));
}

#[test]
fn validator_that_is_no_visible_text_reads_as_empty() {
    let headers = vec![
        Header { name: "etag".to_string(), value: vec![b'a', 0xff, b'b'] },
        Header { name: "last-modified".to_string(), value: vec![b'x', 0x01] },
    ];
    let plan = put_in_cache(&headers, "k", &Vec::new()).unwrap().unwrap();
    assert_eq!(plan.entry, entry("", ""));
    assert_eq!(plan.file, "");
}

#[test]
fn etag_check_names_the_unsafe_characters() {
    assert!(check_etag("\"abc-123_x.y\""));
    assert!(check_etag(""));
    assert!(check_etag("w"));
    assert!(!check_etag("W"));
    assert!(!check_etag("%"));
    assert!(!check_etag(";"));
    assert!(!check_etag("\\"));
    assert!(!check_etag("/"));
}

#[test]
fn blob_name_drops_every_quote() {
    assert_eq!(blob_file_name("\"abc123\""), "abc123");
    assert_eq!(blob_file_name("a\"b\"c"), "abc");
    assert_eq!(blob_file_name("plain"), "plain");
    assert_eq!(blob_file_name("\"\""), "");
    assert_eq!(blob_file_name(""), "");
}

#[test]
fn new_store_is_empty() {
    let store = CacheStore::new();
    assert_eq!(store.len(), 0);
    assert_eq!(store.get("k"), None);
    assert!(store.snapshot().is_empty());
}

#[test]
fn later_write_replaces_earlier() {
    let mut store = CacheStore::new();
    store.insert("k".to_string(), entry("old", "\"1\""));
    store.insert("other".to_string(), entry("x", "\"9\""));
    store.insert("k".to_string(), entry("new", "\"2\""));
    assert_eq!(store.len(), 2);
    assert_eq!(store.get("k"), Some(entry("new", "\"2\"")));
    assert_eq!(store.get("other"), Some(entry("x", "\"9\"")));
    assert_eq!(store.get("missing"), None);
}

#[test]
fn records_are_loaded_in_order() {
    let store = CacheStore::from_records(vec![
        CacheRecord { key: "a".to_string(), entry: entry("1", "\"a1\"") },
        CacheRecord { key: "b".to_string(), entry: entry("2", "\"b1\"") },
        CacheRecord { key: "a".to_string(), entry: entry("3", "\"a2\"") },
    ]);
    assert_eq!(store.len(), 2);
    assert_eq!(store.get("a"), Some(entry("3", "\"a2\"")));
    assert_eq!(store.get("b"), Some(entry("2", "\"b1\"")));
}

#[test]
fn snapshot_holds_each_key_once() {
    let mut store = CacheStore::new();
    store.insert("a".to_string(), entry("1", "\"x\""));
    store.insert("b".to_string(), entry("2", "\"y\""));
    store.insert("a".to_string(), entry("3", "\"z\""));
    let mut snapshot = store.snapshot();
    snapshot.sort_by(|l, r| l.key.cmp(&r.key));
    assert_eq!(
        snapshot,
        vec![
            CacheRecord { key: "a".to_string(), entry: entry("3", "\"z\"") },
            CacheRecord { key: "b".to_string(), entry: entry("2", "\"y\"") },
        ]
    );
    let again = CacheStore::from_records(snapshot);
    assert_eq!(again.get("a"), store.get("a"));
    assert_eq!(again.get("b"), store.get("b"));
}

#[test]
fn stored_response_is_found_again() {
    let headers = vec![header("etag", "\"abc123\""), header("last-modified", "Mon")];
    let body = vec![0u8, 1, 2, 255, 10, 13];
    let plan = put_in_cache(&headers, "http://example.test/a", &body).unwrap().unwrap();
    let mut store = CacheStore::new();
    store.record(&plan);
    let (found, file) = store.check_cache_hit("http://example.test/a").unwrap();
    assert_eq!(file, plan.file);
    assert_eq!(found, plan.entry);
    let hit = lookup(&store, "http://example.test/a", Some(plan.body.clone()));
    assert_eq!(hit, Some((entry("Mon", "\"abc123\""), body)));
}

#[test]
fn missing_blob_is_a_miss() {
    let mut store = CacheStore::new();
    store.insert("k".to_string(), entry("Mon", "\"abc\""));
    assert_eq!(lookup(&store, "k", None), None);
}

#[test]
fn missing_entry_is_a_miss() {
    let store = CacheStore::new();
    assert_eq!(store.check_cache_hit("k"), None);
    assert_eq!(lookup(&store, "k", Some(b"stray".to_vec())), None);
}

#[test]
fn entry_with_unsafe_etag_is_a_miss() {
    let mut store = CacheStore::new();
    store.insert("k".to_string(), entry("Mon", "../../etc/passwd"));
    assert_eq!(store.check_cache_hit("k"), None);
    assert_eq!(lookup(&store, "k", Some(b"secret".to_vec())), None);
}
