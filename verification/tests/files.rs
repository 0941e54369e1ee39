use caching_proxy::files::{
    check_file, content_length, ends_head, find_path, format_file_head, format_file_request,
    format_not_found, parse_number, process_request, split_words, FileError, FileMeta,
    MAX_FILE_SIZE_BYTES,
};
use caching_proxy::text::chars_of;

fn lines(text: &[&str]) -> Vec<String> {
    text.iter().map(|l| l.to_string()).collect()
}

fn word_strings(line: &str) -> Vec<String> {
    split_words(line).iter().map(|w| w.iter().collect()).collect()
}

#[test]
fn words_are_split_at_any_whitespace() {
    assert_eq!(word_strings("GET /x HTTP/1.1"), vec!["GET", "/x", "HTTP/1.1"]);
    assert_eq!(word_strings("  a\t\tb\r\n"), vec!["a", "b"]);
    assert_eq!(word_strings("a\u{a0}b\u{3000}c\u{2003}d"), vec!["a", "b", "c", "d"]);
    assert_eq!(word_strings("one"), vec!["one"]);
    assert!(word_strings("").is_empty());
    assert!(word_strings(" \r\n").is_empty());
    for line in ["GET /x HTTP/1.1", "  a\t\tb\r\n", "a\u{a0}b\u{3000}c\u{2003}d\u{85}e\u{1680}f\u{200b}g", ""] {
        let expected: Vec<String> = line.split_whitespace().map(|w| w.to_string()).collect();
        assert_eq!(word_strings(line), expected);
    }
}

#[test]
fn request_names_the_file() {
    assert_eq!(
        process_request(&lines(&["GET /files?path=/tmp/a.txt HTTP/1.1", "Host: x"])),
        Ok("/tmp/a.txt".to_string())
    );
}

#[test]
fn request_path_is_decoded() {
    assert_eq!(
        process_request(&lines(&["GET /files?path=my%20file+1.txt HTTP/1.0"])),
        Ok("my file 1.txt".to_string())
    );
}

#[test]
fn first_path_of_the_query_counts() {
    assert_eq!(
        process_request(&lines(&["GET /files?x=1&path=a&path=b HTTP/1.1"])),
        Ok("a".to_string())
    );
}

#[test]
fn request_line_may_come_late() {
    assert_eq!(
        process_request(&lines(&["Host: x", "GET /files?path=a HTTP/1.1"])),
        Ok("a".to_string())
    );
}

#[test]
fn line_without_a_path_key_is_passed_over() {
    assert_eq!(
        process_request(&lines(&["GET /files?other=1 HTTP/1.1", "GET /files?path=b HTTP/1.1"])),
        Ok("b".to_string())
    );
    assert_eq!(
        process_request(&lines(&["GET /files?other=1 HTTP/1.1"])),
        Err(FileError::InvalidRequest)
    );
}

#[test]
fn path_outside_files_is_refused() {
    assert_eq!(
        process_request(&lines(&["GET /other?path=a HTTP/1.1", "GET /files?path=b HTTP/1.1"])),
        Err(FileError::InvalidPath)
    );
    assert_eq!(process_request(&lines(&["GET /files HTTP/1.1"])), Err(FileError::InvalidPath));
}

#[test]
fn request_without_a_request_line_is_refused() {
    assert_eq!(process_request(&lines(&[])), Err(FileError::InvalidRequest));
    assert_eq!(
        process_request(&lines(&["POST /files?path=a HTTP/1.1"])),
        Err(FileError::InvalidRequest)
    );
    assert_eq!(
        process_request(&lines(&["GET /files?path=a HTTP/2"])),
        Err(FileError::InvalidRequest)
    );
    assert_eq!(
        process_request(&lines(&["GET /files?path=a b HTTP/1.1"])),
        Err(FileError::InvalidRequest)
    );
    assert_eq!(process_request(&lines(&["get /files?path=a HTTP/1.1"])), Err(FileError::InvalidRequest));
}

#[test]
fn query_pairs_settle_the_path() {
    let pair = |k: &str, v: &str| (k.to_string(), v.to_string());
    assert_eq!(find_path(None), Some(Err(FileError::InvalidPath)));
    assert_eq!(find_path(Some(vec![])), None);
    assert_eq!(find_path(Some(vec![pair("a", "1"), pair("Path", "2")])), None);
    assert_eq!(
        find_path(Some(vec![pair("a", "1"), pair("path", "2"), pair("path", "3")])),
        Some(Ok("2".to_string()))
    );
}

#[test]
fn only_a_small_regular_file_is_served() {
    assert_eq!(check_file(None), Err(FileError::InvalidFilePath));
    assert_eq!(check_file(Some(FileMeta { is_file: false, len: 0 })), Err(FileError::NotAFile));
    assert_eq!(
        check_file(Some(FileMeta { is_file: false, len: MAX_FILE_SIZE_BYTES + 1 })),
        Err(FileError::NotAFile)
    );
    assert_eq!(
        check_file(Some(FileMeta { is_file: true, len: MAX_FILE_SIZE_BYTES + 1 })),
        Err(FileError::TooBig)
    );
    assert_eq!(check_file(Some(FileMeta { is_file: true, len: MAX_FILE_SIZE_BYTES })), Ok(()));
    assert_eq!(check_file(Some(FileMeta { is_file: true, len: 0 })), Ok(()));
    assert_eq!(MAX_FILE_SIZE_BYTES, 1u64 << 20);
}

#[test]
fn errors_have_their_messages() {
    assert_eq!(FileError::InvalidPath.message(), "Invalid request path");
    assert_eq!(FileError::InvalidFilePath.message(), "Invalid filepath");
    assert_eq!(FileError::NotAFile.message(), "Not a file");
    assert_eq!(FileError::TooBig.message(), "File too big");
    assert_eq!(FileError::InvalidRequest.message(), "Invalid request");
    assert_eq!(FileError::CannotGetFile.message(), "Cannot get file");
}

#[test]
fn not_found_answer_carries_the_page_and_its_length() {
    let content = "<!DOCTYPE html>
    <html lang=\"en\">
      <head>
        <meta charset=\"utf-8\">
        <title>NOT FOUND</title>
      </head>
      <body>
        <h1>Oops, 404 NOT FOUND!</h1>
        <p>Not a file</p>
      </body>
    </html>";
    let expected = format!("HTTP/1.1 404 NOT FOUND\r\nContent-Length: {}\r\n\r\n{}", content.len(), content);
    assert_eq!(format_not_found("Not a file"), expected);
}

#[test]
fn not_found_length_counts_bytes() {
    let response = format_not_found("\u{e9}\u{4e16}");
    let (head, page) = response.split_once("\r\n\r\n").unwrap();
    assert_eq!(head, format!("HTTP/1.1 404 NOT FOUND\r\nContent-Length: {}", page.len()));
    assert!(page.contains("<p>\u{e9}\u{4e16}</p>"));
}

#[test]
fn file_head_names_the_length() {
    assert_eq!(format_file_head(5), "HTTP/1.1 200 OK\r\nContent-Length: 5\r\n\r\n");
    assert_eq!(format_file_head(0), "HTTP/1.1 200 OK\r\nContent-Length: 0\r\n\r\n");
}

#[test]
fn file_request_names_the_file() {
    assert_eq!(format_file_request("/tmp/a.txt"), "GET /files?path=/tmp/a.txt HTTP/1.1\r\n\r\n");
}

#[test]
fn numbers_are_read_as_std_reads_them() {
    assert_eq!(parse_number(&chars_of("0")), Some(0));
    assert_eq!(parse_number(&chars_of("42")), Some(42));
    assert_eq!(parse_number(&chars_of("+42")), Some(42));
    assert_eq!(parse_number(&chars_of("007")), Some(7));
    assert_eq!(parse_number(&chars_of("18446744073709551615")), Some(u64::MAX));
    assert_eq!(parse_number(&chars_of("18446744073709551616")), None);
    assert_eq!(parse_number(&chars_of("99999999999999999999999")), None);
    assert_eq!(parse_number(&chars_of("")), None);
    assert_eq!(parse_number(&chars_of("+")), None);
    assert_eq!(parse_number(&chars_of("-1")), None);
    assert_eq!(parse_number(&chars_of("++1")), None);
    assert_eq!(parse_number(&chars_of("1+")), None);
    assert_eq!(parse_number(&chars_of("12a")), None);
    assert_eq!(parse_number(&chars_of(" 1")), None);
    assert_eq!(parse_number(&chars_of("\u{661}")), None);
    for text in ["0", "42", "+42", "007", "18446744073709551615", "18446744073709551616", "", "+", "-1", "1+", "12a"] {
        assert_eq!(parse_number(&chars_of(text)), text.parse::<u64>().ok());
    }
}

#[test]
fn answer_head_gives_the_length() {
    assert_eq!(
        content_length(&lines(&["HTTP/1.1 200 OK\r\n", "Content-Length: 5\r\n", "\r\n"])),
        Ok(5)
    );
}

#[test]
fn answer_without_a_status_line_counts_as_ok() {
    assert_eq!(content_length(&lines(&["Content-Length: 12\r\n"])), Ok(12));
}

#[test]
fn answer_with_another_status_carries_no_file() {
    assert_eq!(
        content_length(&lines(&["HTTP/1.1 404 NOT FOUND\r\n", "Content-Length: 5\r\n", "\r\n"])),
        Err(FileError::CannotGetFile)
    );
    assert_eq!(
        content_length(&lines(&["HTTP/1.1\r\n", "Content-Length: 5\r\n"])),
        Err(FileError::CannotGetFile)
    );
}

#[test]
fn answer_without_a_length_carries_no_file() {
    assert_eq!(content_length(&lines(&["HTTP/1.1 200 OK\r\n", "\r\n"])), Err(FileError::CannotGetFile));
    assert_eq!(content_length(&lines(&[])), Err(FileError::CannotGetFile));
    assert_eq!(
        content_length(&lines(&["HTTP/1.1 200 OK\r\n", "Content-Length: five\r\n"])),
        Err(FileError::CannotGetFile)
    );
    assert_eq!(
        content_length(&lines(&["HTTP/1.1 200 OK\r\n", "Content-Length:\r\n"])),
        Err(FileError::CannotGetFile)
    );
}

#[test]
fn later_length_replaces_earlier() {
    assert_eq!(
        content_length(&lines(&["Content-Length: 5\r\n", "Content-Length: 7\r\n"])),
        Ok(7)
    );
    assert_eq!(
        content_length(&lines(&["Content-Length: 5\r\n", "Content-Length: x\r\n"])),
        Err(FileError::CannotGetFile)
    );
}

#[test]
fn lines_behind_the_head_are_not_read() {
    assert_eq!(
        content_length(&lines(&["Content-Length: 5\r\n", "\r\n", "Content-Length: 9\r\n"])),
        Ok(5)
    );
    assert_eq!(
        content_length(&lines(&["Content-Length: 5\r\n", "   ", "HTTP/1.1 500 X\r\n"])),
        Ok(5)
    );
}

#[test]
fn head_ends_at_a_line_without_words() {
    assert!(ends_head(""));
    assert!(ends_head("\r\n"));
    assert!(ends_head(" \t "));
    assert!(!ends_head("a"));
    assert!(!ends_head("Content-Length: 5\r\n"));
}
