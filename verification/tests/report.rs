use caching_proxy::report::{
    format_error, log_file_name, log_request, render_error_page, status_line, LogRecord,
};

#[test]
fn status_shows_number_and_reason() {
    assert_eq!(status_line(404), "404 Not Found");
    assert_eq!(status_line(403), "403 Forbidden");
    assert_eq!(status_line(407), "407 Proxy Authentication Required");
    assert_eq!(status_line(200), "200 OK");
}

#[test]
fn status_without_a_reason_is_marked_unknown() {
    assert_eq!(status_line(299), "299 <unknown status code>");
}

#[test]
fn number_that_is_no_status_is_shown_bare() {
    assert_eq!(status_line(99), "99");
    assert_eq!(status_line(0), "0");
    assert_eq!(status_line(1000), "1000");
}

#[test]
fn error_page_is_the_html_document() {
    let page = format_error(404, "Invalid request target");
    let expected = "<!DOCTYPE html>
    <html lang=\"en\">
      <head>
        <meta charset=\"utf-8\">
        <title>404 Not Found</title>
      </head>
      <body>
        <h1>Oops, 404 Not Found</h1>
        <p>Invalid request target</p>
      </body>
    </html>";
    assert_eq!(page, expected);
}

#[test]
fn error_page_takes_any_status_text() {
    let page = render_error_page("S", "M");
    assert!(page.starts_with("<!DOCTYPE html>\n    <html lang=\"en\">"));
    assert!(page.contains("<title>S</title>"));
    assert!(page.contains("<h1>Oops, S</h1>"));
    assert!(page.contains("<p>M</p>"));
    assert!(page.ends_with("</body>\n    </html>"));
}

#[test]
fn log_line_has_time_method_status_url() {
    let record = LogRecord {
        method: "GET".to_string(),
        status: 200,
        url: "http://example.test/a.txt".to_string(),
    };
    assert_eq!(log_request(1704067200123, &record), "1704067200123 GET 200 http://example.test/a.txt\n");
    assert_eq!(log_request(0, &record), "0 GET 200 http://example.test/a.txt\n");
}

#[test]
fn log_file_is_named_by_the_start_time() {
    assert_eq!(log_file_name(1704067200), "proxy_session_1704067200.log");
    assert_eq!(log_file_name(0), "proxy_session_0.log");
}
