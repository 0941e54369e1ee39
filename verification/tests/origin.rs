use caching_proxy::blacklist::Blacklist;
use caching_proxy::cache::{CacheStore, CachedEntry};
use caching_proxy::handler::{handle_connection, Step};
use caching_proxy::message::{Header, ProxyRequest};
use caching_proxy::origin::{
    create_request, header_value_of, host_field_value, origin_address, RequestError, Target,
};

fn header(name: &str, value: &str) -> Header {
    Header { name: name.to_string(), value: value.as_bytes().to_vec() }
}

fn target(host: Option<&str>, port: Option<u16>, text: &str) -> Target {
    Target { host: host.map(|h| h.to_string()), port, text: text.to_string() }
}

/// What the handler makes of a `GET` for `uri`: the address it connects to
/// and the request it sends, or the status with which it refuses.
fn forwarded(uri: &str) -> Result<(String, ProxyRequest), u16> {
    let request = ProxyRequest {
        method: "GET".to_string(),
        uri: uri.to_string(),
        headers: Vec::new(),
        body: Vec::new(),
    };
    match handle_connection(request, "", &Blacklist::empty(), &CacheStore::new()) {
        Step::Forward { address, outbound, .. } => Ok((address, outbound)),
        Step::Respond { response, .. } => Err(response.status),
        other => panic!("unexpected step {:?}", other),
    }
}

#[test]
fn absolute_url_is_taken_apart() {
    let (address, outbound) = forwarded("http://example.test:8080/a/b.txt?x=1").unwrap();
    assert_eq!(address, "example.test:8080");
    assert_eq!(outbound.uri, "http://example.test:8080/a/b.txt?x=1");
    assert_eq!(outbound.headers, vec![header("host", "example.test:8080")]);
}

#[test]
fn url_without_port_has_none() {
    let (address, outbound) = forwarded("http://example.test/a.txt").unwrap();
    assert_eq!(address, "example.test:80");
    assert_eq!(outbound.uri, "http://example.test/a.txt");
    assert_eq!(outbound.headers, vec![header("host", "example.test")]);
}

#[test]
fn url_without_path_is_written_with_a_slash() {
    let (address, outbound) = forwarded("http://example.test").unwrap();
    assert_eq!(address, "example.test:80");
    assert_eq!(outbound.uri, "http://example.test/");
}

#[test]
fn host_alone_is_a_target() {
    let (address, outbound) = forwarded("example.test:8443").unwrap();
    assert_eq!(address, "example.test:8443");
    assert_eq!(outbound.uri, "example.test:8443");
}

#[test]
fn user_info_is_no_part_of_the_host() {
    let (address, outbound) = forwarded("http://user:pw@example.test:81/x").unwrap();
    assert_eq!(address, "example.test:81");
    assert_eq!(outbound.headers, vec![header("host", "example.test:81")]);
    assert_eq!(forwarded("http://user@/x"), Err(404));
}

#[test]
fn text_that_is_no_uri_has_no_target() {
    assert_eq!(forwarded(""), Err(404));
    assert_eq!(forwarded("http://exa mple.test/"), Err(404));
    assert_eq!(forwarded("http://example.test/a b"), Err(404));
}

#[test]
fn address_takes_the_default_port() {
    assert_eq!(origin_address(&target(Some("example.test"), None, "x")), "example.test:80");
    assert_eq!(origin_address(&target(Some("example.test"), Some(8080), "x")), "example.test:8080");
    assert_eq!(origin_address(&target(None, None, "/a")), ":80");
    assert_eq!(origin_address(&target(Some("h"), Some(0), "x")), "h:0");
    assert_eq!(origin_address(&target(Some("h"), Some(65535), "x")), "h:65535");
}

#[test]
fn host_field_names_the_port_only_where_the_url_does() {
    assert_eq!(host_field_value(&target(Some("example.test"), None, "x")), "example.test");
    assert_eq!(host_field_value(&target(Some("example.test"), Some(81), "x")), "example.test:81");
    assert_eq!(host_field_value(&target(None, None, "x")), "");
}

#[test]
fn header_value_must_be_printable() {
    assert_eq!(header_value_of("abc def\t!"), Some(b"abc def\t!".to_vec()));
    assert_eq!(header_value_of(""), Some(Vec::new()));
    assert_eq!(header_value_of("caf\u{e9}"), Some("caf\u{e9}".as_bytes().to_vec()));
    assert_eq!(header_value_of("a\nb"), None);
    assert_eq!(header_value_of("a\u{7f}"), None);
    assert_eq!(header_value_of("\u{0}"), None);
}

fn request() -> ProxyRequest {
    ProxyRequest {
        method: "GET".to_string(),
        uri: "http://example.test/a.txt".to_string(),
        headers: vec![
            header("Host", "proxy.local:8080"),
            header("accept", "*/*"),
            header("host", "again"),
            header("user-agent", "test"),
        ],
        body: b"payload".to_vec(),
    }
}

#[test]
fn plain_request_copies_headers_and_overrides_host() {
    let t = target(Some("example.test"), None, "http://example.test/a.txt");
    let out = create_request(&request(), &t, None).unwrap();
    assert_eq!(out.method, "GET");
    assert_eq!(out.uri, "http://example.test/a.txt");
    assert_eq!(out.body, b"payload".to_vec());
    assert_eq!(
        out.headers,
        vec![header("host", "example.test"), header("accept", "*/*"), header("user-agent", "test")]
    );
}

#[test]
fn host_field_carries_an_explicit_port() {
    let t = target(Some("example.test"), Some(8081), "http://example.test:8081/");
    let out = create_request(&request(), &t, None).unwrap();
    assert_eq!(out.headers[0], header("host", "example.test:8081"));
    assert_eq!(out.uri, "http://example.test:8081/");
}

#[test]
fn cached_entry_makes_the_request_conditional() {
    let t = target(Some("example.test"), None, "http://example.test/a.txt");
    let entry = CachedEntry {
        last_modified: "Mon, 01 Jan 2024 00:00:00 GMT".to_string(),
        etag: "\"abc123\"".to_string(),
    };
    let out = create_request(&request(), &t, Some(&entry)).unwrap();
    assert_eq!(
        out.headers,
        vec![
            header("host", "example.test"),
            header("accept", "*/*"),
            header("user-agent", "test"),
            header("if-modified-since", "Mon, 01 Jan 2024 00:00:00 GMT"),
            header("if-none-match", "\"abc123\""),
        ]
    );
}

#[test]
fn validator_with_a_line_break_makes_no_request() {
    let t = target(Some("example.test"), None, "http://example.test/a.txt");
    let bad_tag = CachedEntry { last_modified: "Mon".to_string(), etag: "a\r\nx: y".to_string() };
    assert_eq!(create_request(&request(), &t, Some(&bad_tag)), Err(RequestError::InvalidHeaderValue));
    let bad_date = CachedEntry { last_modified: "M\non".to_string(), etag: "\"a\"".to_string() };
    assert_eq!(create_request(&request(), &t, Some(&bad_date)), Err(RequestError::InvalidHeaderValue));
    assert_eq!(RequestError::InvalidHeaderValue.message(), "failed to parse header value");
}

#[test]
fn host_that_cannot_be_a_header_value_makes_no_request() {
    let t = target(Some("bad\nhost"), None, "x");
    assert_eq!(create_request(&request(), &t, None), Err(RequestError::InvalidHeaderValue));
}
