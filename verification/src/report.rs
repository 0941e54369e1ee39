//! What the proxy writes itself: the error page and the line of the session
//! log.

use vstd::prelude::*;
use crate::text::{decimal, push_decimal, push_str, string_of};

verus! {

/// What `hyper::StatusCode` prints for `code`: the number and the canonical
/// reason phrase, or `None` where `code` is no status code.
pub uninterp spec fn status_display(code: u16) -> Option<Seq<char>>;

/// The text of a string that may be missing.
pub open spec fn optional_text(s: Option<String>) -> Option<Seq<char>> {
    match s {
        Some(s) => Some(s@),
        None => None,
    }
}

/// Makes a `hyper::StatusCode` of `code` (`from_u16`) and prints it
/// (`Display`). Trusted: the result is
/// the named function of the code; nothing more is claimed.
#[verifier::external_body]
fn display_status(code: u16) -> (r: Option<String>)
    ensures
        optional_text(r) == status_display(code),
{
    match hyper::StatusCode::from_u16(code) {
        Ok(status) => Some(status.to_string()),
        Err(_) => None,
    }
}

/// The status as the error page shows it: number and reason phrase, the bare
/// number where `code` is no status code.
pub open spec fn status_text(code: u16) -> Seq<char> {
    match status_display(code) {
        Some(text) => text,
        None => decimal(code as nat),
    }
}

/// The status as the error page shows it.
pub fn status_line(code: u16) -> (s: String)
    ensures
        s@ == status_text(code),
{
    match display_status(code) {
        Some(text) => text,
        None => {
            let mut out: Vec<char> = Vec::new();
            push_decimal(&mut out, code as u64);
            assert(out@ =~= decimal(code as nat));
            string_of(&out)
        },
    }
}

/// The error page up to the title.
pub open spec fn page_head() -> Seq<char> {
    "<!DOCTYPE html>\n    <html lang=\"en\">\n      <head>\n        <meta charset=\"utf-8\">\n        <title>"@
}

/// The error page between the title and the heading.
pub open spec fn page_middle() -> Seq<char> {
    "</title>\n      </head>\n      <body>\n        <h1>Oops, "@
}

/// The error page between the heading and the message.
pub open spec fn page_lead() -> Seq<char> {
    "</h1>\n        <p>"@
}

/// The end of the error page.
pub open spec fn page_tail() -> Seq<char> {
    "</p>\n      </body>\n    </html>"@
}

/// The error page: an HTML document with the status as its title and heading
/// and the message below.
pub open spec fn error_page(status: Seq<char>, message: Seq<char>) -> Seq<char> {
    page_head() + status + page_middle() + status + page_lead() + message + page_tail()
}

/// Writes the error page for a status that is already in words.
pub fn render_error_page(status: &str, message: &str) -> (page: String)
    ensures
        page@ == error_page(status@, message@),
{
    let mut out: Vec<char> = Vec::new();
    push_str(
        &mut out,
        "<!DOCTYPE html>\n    <html lang=\"en\">\n      <head>\n        <meta charset=\"utf-8\">\n        <title>",
    );
    push_str(&mut out, status);
    push_str(&mut out, "</title>\n      </head>\n      <body>\n        <h1>Oops, ");
    push_str(&mut out, status);
    push_str(&mut out, "</h1>\n        <p>");
    push_str(&mut out, message);
    push_str(&mut out, "</p>\n      </body>\n    </html>");
    assert(out@ =~= error_page(status@, message@));
    string_of(&out)
}

/// Writes the error page for status `code` with `message`.
pub fn format_error(code: u16, message: &str) -> (page: String)
    ensures
        page@ == error_page(status_text(code), message@),
{
    let status = status_line(code);
    render_error_page(status.as_str(), message)
}

/// What the session log keeps of one completed request.
#[derive(Debug, Clone, PartialEq, Eq)]
pub struct LogRecord {
    pub method: String,
    pub status: u16,
    pub url: String,
}

/// What a `LogRecord` holds.
pub struct LogRecordView {
    pub method: Seq<char>,
    pub status: u16,
    pub url: Seq<char>,
}

impl View for LogRecord {
    type V = LogRecordView;

    open spec fn view(&self) -> LogRecordView {
        LogRecordView { method: self.method@, status: self.status, url: self.url@ }
    }
}

/// The line of the session log for one request: the time in milliseconds
/// since the epoch, the method, the status number and the URL, with one space
/// between them and a line feed at the end.
pub open spec fn log_line(epoch_ms: u64, record: LogRecordView) -> Seq<char> {
    decimal(epoch_ms as nat) + seq![' '] + record.method + seq![' '] + decimal(
        record.status as nat,
    ) + seq![' '] + record.url + seq!['\n']
}

/// Writes the log line of `record` for the time `epoch_ms`.
pub fn log_request(epoch_ms: u64, record: &LogRecord) -> (line: String)
    ensures
        line@ == log_line(epoch_ms, record@),
{
    let mut out: Vec<char> = Vec::new();
    push_decimal(&mut out, epoch_ms);
    out.push(' ');
    push_str(&mut out, record.method.as_str());
    out.push(' ');
    push_decimal(&mut out, record.status as u64);
    out.push(' ');
    push_str(&mut out, record.url.as_str());
    out.push('\n');
    assert(out@ =~= log_line(epoch_ms, record@));
    string_of(&out)
}

/// The name of the session log for a process started `epoch_secs` seconds
/// after the epoch.
pub open spec fn log_name(epoch_secs: u64) -> Seq<char> {
    "proxy_session_"@ + decimal(epoch_secs as nat) + ".log"@
}

/// The name of the session log.
pub fn log_file_name(epoch_secs: u64) -> (name: String)
    ensures
        name@ == log_name(epoch_secs),
{
    let mut out: Vec<char> = Vec::new();
    push_str(&mut out, "proxy_session_");
    push_decimal(&mut out, epoch_secs);
    push_str(&mut out, ".log");
    assert(out@ =~= log_name(epoch_secs));
    string_of(&out)
}

} // verus!
