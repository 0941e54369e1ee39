use caching_proxy::blacklist::Blacklist;

fn banned(entries: &[&str]) -> Blacklist {
    let list: Vec<String> = entries.iter().map(|e| e.to_string()).collect();
    Blacklist::from_entries(&list)
}

#[test]
fn prefix_entry_bans_the_whole_tree() {
    let list = banned(&["http://site/"]);
    assert!(list.is_blacklisted("http://site/"));
    assert!(list.is_blacklisted("http://site/a"));
    assert!(list.is_blacklisted("http://site/a/b/c.html"));
}

#[test]
fn prefix_must_end_at_a_segment() {
    let list = banned(&["http://site/ab"]);
    assert!(list.is_blacklisted("http://site/ab"));
    assert!(!list.is_blacklisted("http://site/abc"));
    assert!(!list.is_blacklisted("http://site/ab/c"));
    assert!(!list.is_blacklisted("http://site/a"));
}

#[test]
fn entry_without_trailing_slash_does_not_ban_the_tree() {
    let list = banned(&["http://site"]);
    assert!(list.is_blacklisted("http://site"));
    assert!(!list.is_blacklisted("http://site/"));
    assert!(!list.is_blacklisted("http://site/a"));
}

#[test]
fn other_sites_pass() {
    let list = banned(&["http://site/", "http://other/x/"]);
    assert!(!list.is_blacklisted("http://else/"));
    assert!(!list.is_blacklisted("http://other/"));
    assert!(list.is_blacklisted("http://other/x/y"));
}

#[test]
fn empty_url_is_never_banned() {
    let list = banned(&["", "/"]);
    assert!(!list.is_blacklisted(""));
    assert!(list.is_blacklisted("/"));
    assert!(list.is_blacklisted("/a"));
}

#[test]
fn empty_blacklist_bans_nothing() {
    let list = Blacklist::empty();
    assert!(!list.is_blacklisted("http://site/"));
    assert!(!list.is_blacklisted(""));
}

#[test]
fn blacklist_file_is_a_json_array() {
    let list = Blacklist::from_json(Some(b"[\"http://a/\", \"http://b/c/\"]"));
    assert!(list.is_blacklisted("http://a/x"));
    assert!(list.is_blacklisted("http://b/c/d"));
    assert!(!list.is_blacklisted("http://b/"));
}

#[test]
fn blacklist_file_may_name_an_entry_twice() {
    let list = Blacklist::from_json(Some(b"[\"http://a/\", \"http://a/\"]"));
    assert!(list.is_blacklisted("http://a/"));
}

#[test]
fn blacklist_file_with_escapes_is_decoded() {
    let list = Blacklist::from_json(Some(b"[\"http:\\/\\/a\\/\\u0062\"]"));
    assert!(list.is_blacklisted("http://a/b"));
    assert!(!list.is_blacklisted("http:\\/\\/a\\/\\u0062"));
}

#[test]
fn broken_blacklist_file_bans_nothing() {
    for text in [&b"not json"[..], b"{\"a\": 1}", b"[1, 2]", b"[\"http://a/\"", b"", b"[\"http://a/\"] x"] {
        let list = Blacklist::from_json(Some(text));
        assert!(!list.is_blacklisted("http://a/"));
    }
}

#[test]
fn missing_blacklist_file_bans_nothing() {
    let list = Blacklist::from_json(None);
    assert!(!list.is_blacklisted("http://a/"));
}
