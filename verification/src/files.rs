//! The file-serving peers: a server that hands out single files and the
//! client that asks for them. This module reads and writes their messages; it
//! opens no socket and no file.

use vstd::prelude::*;
use vstd::utf8::encode_utf8;
use crate::text::{
    chars_of, decimal, has_prefix_at, push_chars, push_decimal, push_str, same_chars, same_text,
    string_of, texts,
};

verus! {

/// What the `url` crate makes of the query of `url`: `None` where `url` does
/// not parse as a URL, else the pairs of key and value of its query, decoded,
/// in order.
pub uninterp spec fn url_query_pairs(url: Seq<char>) -> Option<Seq<(Seq<char>, Seq<char>)>>;

/// The texts of a list of pairs.
pub open spec fn pair_texts(pairs: Seq<(String, String)>) -> Seq<(Seq<char>, Seq<char>)> {
    pairs.map_values(|p: (String, String)| (p.0@, p.1@))
}

/// The texts of a list of pairs that may be missing.
pub open spec fn optional_pairs(pairs: Option<Vec<(String, String)>>) -> Option<
    Seq<(Seq<char>, Seq<char>)>,
> {
    match pairs {
        Some(list) => Some(pair_texts(list@)),
        None => None,
    }
}

/// Parses `url` with `url::Url::parse` and collects the pairs that
/// `Url::query_pairs` yields. Trusted: the result is the named function of the
/// text; nothing more is claimed.
#[verifier::external_body]
fn query_pairs(url: &str) -> (r: Option<Vec<(String, String)>>)
    ensures
        optional_pairs(r) == url_query_pairs(url@),
{
    match url::Url::parse(url) {
        Ok(parsed) => Some(
            parsed.query_pairs().map(|(key, value)| (key.into_owned(), value.into_owned())).collect(),
        ),
        Err(_) => None,
    }
}

/// Why a file is not served, or was not received.
#[derive(Debug, Clone, Copy, PartialEq, Eq)]
pub enum FileError {
    /// The request line names no path under `/files?`, or one that is no URL.
    InvalidPath,
    /// There is nothing at the path.
    InvalidFilePath,
    /// What is at the path is no regular file.
    NotAFile,
    /// The file is larger than the server hands out.
    TooBig,
    /// No line of the request asks for a file.
    InvalidRequest,
    /// The server did not send the file.
    CannotGetFile,
}

/// An error in words.
pub open spec fn message_of(e: FileError) -> Seq<char> {
    match e {
        FileError::InvalidPath => "Invalid request path"@,
        FileError::InvalidFilePath => "Invalid filepath"@,
        FileError::NotAFile => "Not a file"@,
        FileError::TooBig => "File too big"@,
        FileError::InvalidRequest => "Invalid request"@,
        FileError::CannotGetFile => "Cannot get file"@,
    }
}

impl FileError {
    /// The error in words.
    pub fn message(&self) -> (s: String)
        ensures
            s@ == message_of(*self),
    {
        match self {
            FileError::InvalidPath => "Invalid request path".to_owned(),
            FileError::InvalidFilePath => "Invalid filepath".to_owned(),
            FileError::NotAFile => "Not a file".to_owned(),
            FileError::TooBig => "File too big".to_owned(),
            FileError::InvalidRequest => "Invalid request".to_owned(),
            FileError::CannotGetFile => "Cannot get file".to_owned(),
        }
    }
}

/// A character that separates words: one with the Unicode property
/// White_Space.
pub open spec fn is_space(c: char) -> bool {
    ||| ('\u{9}' <= c && c <= '\u{d}')
    ||| c == ' '
    ||| c == '\u{85}'
    ||| c == '\u{a0}'
    ||| c == '\u{1680}'
    ||| ('\u{2000}' <= c && c <= '\u{200a}')
    ||| c == '\u{2028}'
    ||| c == '\u{2029}'
    ||| c == '\u{202f}'
    ||| c == '\u{205f}'
    ||| c == '\u{3000}'
}

/// `is_space`, computed.
pub fn is_space_char(c: char) -> (b: bool)
    ensures
        b == is_space(c),
{
    ('\u{9}' <= c && c <= '\u{d}') || c == ' ' || c == '\u{85}' || c == '\u{a0}' || c
        == '\u{1680}' || ('\u{2000}' <= c && c <= '\u{200a}') || c == '\u{2028}' || c
        == '\u{2029}' || c == '\u{202f}' || c == '\u{205f}' || c == '\u{3000}'
}

/// The number of characters of `s` before its first space.
pub open spec fn word_len(s: Seq<char>) -> nat
    decreases s.len(),
{
    if s.len() == 0 || is_space(s[0]) {
        0
    } else {
        1 + word_len(s.drop_first())
    }
}

/// The words of `s`: its longest runs of characters that are no spaces, in
/// order.
pub open spec fn words(s: Seq<char>) -> Seq<Seq<char>>
    decreases s.len(),
{
    if s.len() == 0 {
        Seq::empty()
    } else if is_space(s[0]) {
        words(s.drop_first())
    } else {
        let n = word_len(s) as int;
        if 0 < n <= s.len() {
            seq![s.take(n)] + words(s.skip(n))
        } else {
            Seq::empty()
        }
    }
}

/// What a list of character rows holds.
pub open spec fn rows(v: Seq<Vec<char>>) -> Seq<Seq<char>> {
    v.map_values(|r: Vec<char>| r@)
}

/// The place of the first space of `chars` at or behind `from`, or the length
/// of `chars` where there is none.
fn word_end(chars: &Vec<char>, from: usize) -> (end: usize)
    requires
        from <= chars@.len(),
    ensures
        from <= end <= chars@.len(),
        end - from == word_len(chars@.skip(from as int)),
{
    let mut end: usize = from;
    while end < chars.len() && !is_space_char(chars[end])
        invariant
            from <= end <= chars@.len(),
            word_len(chars@.skip(from as int)) == (end - from) + word_len(chars@.skip(end as int)),
        decreases chars@.len() - end,
    {
        proof {
            assert(chars@.skip(end as int).drop_first() =~= chars@.skip(end + 1));
        }
        end += 1;
    }
    end
}

/// Splits a line into its words.
pub fn split_words(line: &str) -> (r: Vec<Vec<char>>)
    ensures
        rows(r@) == words(line@),
{
    let chars = chars_of(line);
    let mut out: Vec<Vec<char>> = Vec::new();
    let mut i: usize = 0;
    proof {
        assert(chars@.skip(0) =~= chars@);
        assert(rows(out@) + words(chars@) =~= words(chars@));
    }
    while i < chars.len()
        invariant
            i <= chars@.len(),
            words(chars@) == rows(out@) + words(chars@.skip(i as int)),
        decreases chars@.len() - i,
    {
        let ghost rest = chars@.skip(i as int);
        if is_space_char(chars[i]) {
            proof {
                assert(rest.drop_first() =~= chars@.skip(i + 1));
            }
            i += 1;
        } else {
            let end = word_end(&chars, i);
            let mut word: Vec<char> = Vec::new();
            let mut k: usize = i;
            while k < end
                invariant
                    i <= k <= end <= chars@.len(),
                    word@ == chars@.subrange(i as int, k as int),
                decreases end - k,
            {
                word.push(chars[k]);
                k += 1;
            }
            let ghost before = out@;
            proof {
                assert(word_len(rest) >= 1);
                assert(rest.take(end - i) =~= word@);
                assert(rest.skip(end - i) =~= chars@.skip(end as int));
            }
            out.push(word);
            proof {
                assert(rows(out@) =~= rows(before) + seq![word@]);
                assert(rows(out@) + words(chars@.skip(end as int)) =~= rows(before) + (seq![word@]
                    + words(chars@.skip(end as int))));
            }
            i = end;
        }
    }
    proof {
        assert(rows(out@) + words(chars@.skip(i as int)) =~= rows(out@));
    }
    out
}

/// The words make a request line: `GET`, a path and a version of HTTP 1.
pub open spec fn is_request_line(w: Seq<Seq<char>>) -> bool {
    w.len() == 3 && w[0] == "GET"@ && "HTTP/1."@.is_prefix_of(w[2])
}

/// The value of the first pair whose key is `path`.
pub open spec fn path_value(pairs: Seq<(Seq<char>, Seq<char>)>) -> Option<Seq<char>>
    decreases pairs.len(),
{
    if pairs.len() == 0 {
        None
    } else if pairs[0].0 == "path"@ {
        Some(pairs[0].1)
    } else {
        path_value(pairs.drop_first())
    }
}

/// What the query of a request path asks for: `queried` is what the path's
/// query was read as. A path that is no URL is refused; a query without a
/// `path` settles nothing.
pub open spec fn query_outcome(queried: Option<Seq<(Seq<char>, Seq<char>)>>) -> Option<
    Result<Seq<char>, FileError>,
> {
    match queried {
        None => Some(Err(FileError::InvalidPath)),
        Some(pairs) => match path_value(pairs) {
            Some(value) => Some(Ok(value)),
            None => None,
        },
    }
}

/// What one line of a request settles: nothing where it is no request line;
/// a refusal where its path does not begin with `/files?`; else what its query
/// asks for.
pub open spec fn line_outcome(line: Seq<char>) -> Option<Result<Seq<char>, FileError>> {
    let w = words(line);
    if !is_request_line(w) {
        None
    } else if !"/files?"@.is_prefix_of(w[1]) {
        Some(Err(FileError::InvalidPath))
    } else {
        query_outcome(url_query_pairs("http://0.0.0.0"@ + w[1]))
    }
}

/// The file that a request asks for: what its first line that settles it
/// says; a request in which no line does is refused.
pub open spec fn request_outcome(lines: Seq<Seq<char>>) -> Result<Seq<char>, FileError>
    decreases lines.len(),
{
    if lines.len() == 0 {
        Err(FileError::InvalidRequest)
    } else {
        match line_outcome(lines[0]) {
            Some(r) => r,
            None => request_outcome(lines.drop_first()),
        }
    }
}

/// The view of a result that holds a text.
pub open spec fn text_result(r: Result<String, FileError>) -> Result<Seq<char>, FileError> {
    match r {
        Ok(s) => Ok(s@),
        Err(e) => Err(e),
    }
}

/// The view of what a line may settle.
pub open spec fn settled(r: Option<Result<String, FileError>>) -> Option<
    Result<Seq<char>, FileError>,
> {
    match r {
        Some(r) => Some(text_result(r)),
        None => None,
    }
}

/// Reads the answer off the pairs of a query, as `query_outcome` says.
pub fn find_path(queried: Option<Vec<(String, String)>>) -> (r: Option<Result<String, FileError>>)
    ensures
        settled(r) == query_outcome(optional_pairs(queried)),
{
    let pairs = match queried {
        Some(pairs) => pairs,
        None => {
            return Some(Err(FileError::InvalidPath));
        },
    };
    let mut i: usize = 0;
    proof {
        assert(pair_texts(pairs@).skip(0) =~= pair_texts(pairs@));
    }
    while i < pairs.len()
        invariant
            i <= pairs@.len(),
            optional_pairs(queried) == Some(pair_texts(pairs@)),
            path_value(pair_texts(pairs@)) == path_value(pair_texts(pairs@).skip(i as int)),
        decreases pairs@.len() - i,
    {
        proof {
            let rest = pair_texts(pairs@).skip(i as int);
            assert(rest[0] == (pairs@[i as int].0@, pairs@[i as int].1@));
            assert(rest.drop_first() =~= pair_texts(pairs@).skip(i + 1));
        }
        if same_text(pairs[i].0.as_str(), "path") {
            return Some(Ok(pairs[i].1.clone()));
        }
        i += 1;
    }
    None
}

/// Reads one line of a request, as `line_outcome` says.
fn read_line(line: &str) -> (r: Option<Result<String, FileError>>)
    ensures
        settled(r) == line_outcome(line@),
{
    let w = split_words(line);
    if w.len() != 3 {
        return None;
    }
    let get = chars_of("GET");
    let version = chars_of("HTTP/1.");
    proof {
        assert(w@[2]@.skip(0) =~= w@[2]@);
        assert(w@[1]@.skip(0) =~= w@[1]@);
        assert(rows(w@)[0] == w@[0]@);
        assert(rows(w@)[1] == w@[1]@);
        assert(rows(w@)[2] == w@[2]@);
    }
    if !same_chars(&w[0], &get) || !has_prefix_at(&w[2], 0, &version) {
        return None;
    }
    let prefix = chars_of("/files?");
    if !has_prefix_at(&w[1], 0, &prefix) {
        return Some(Err(FileError::InvalidPath));
    }
    let mut url: Vec<char> = Vec::new();
    push_str(&mut url, "http://0.0.0.0");
    push_chars(&mut url, &w[1]);
    let text = string_of(&url);
    find_path(query_pairs(text.as_str()))
}

/// Finds the file that a request asks for, as `request_outcome` says. `request`
/// holds the lines of the request's head.
pub fn process_request(request: &Vec<String>) -> (r: Result<String, FileError>)
    ensures
        text_result(r) == request_outcome(texts(request@)),
{
    let ghost lines = texts(request@);
    let mut i: usize = 0;
    proof {
        assert(lines.skip(0) =~= lines);
    }
    while i < request.len()
        invariant
            i <= request@.len(),
            lines == texts(request@),
            request_outcome(lines) == request_outcome(lines.skip(i as int)),
        decreases request@.len() - i,
    {
        proof {
            assert(lines.skip(i as int)[0] == request@[i as int]@);
            assert(lines.skip(i as int).drop_first() =~= lines.skip(i + 1));
        }
        match read_line(request[i].as_str()) {
            Some(r) => {
                return r;
            },
            None => {},
        }
        i += 1;
    }
    Err(FileError::InvalidRequest)
}

/// The largest file, in bytes, that the server hands out.
pub const MAX_FILE_SIZE_BYTES: u64 = 1048576;

/// What the file system says of a path.
#[derive(Debug, Clone, Copy, PartialEq, Eq)]
pub struct FileMeta {
    pub is_file: bool,
    pub len: u64,
}

/// Whether what is at a path is served: `meta` is what the file system says
/// of it, `None` where it says nothing.
pub open spec fn file_outcome(meta: Option<FileMeta>) -> Result<(), FileError> {
    match meta {
        None => Err(FileError::InvalidFilePath),
        Some(m) => if !m.is_file {
            Err(FileError::NotAFile)
        } else if m.len > MAX_FILE_SIZE_BYTES {
            Err(FileError::TooBig)
        } else {
            Ok(())
        },
    }
}

/// Decides whether what is at a path is served, as `file_outcome` says.
pub fn check_file(meta: Option<FileMeta>) -> (r: Result<(), FileError>)
    ensures
        r == file_outcome(meta),
{
    match meta {
        None => Err(FileError::InvalidFilePath),
        Some(m) => if !m.is_file {
            Err(FileError::NotAFile)
        } else if m.len > MAX_FILE_SIZE_BYTES {
            Err(FileError::TooBig)
        } else {
            Ok(())
        },
    }
}

/// The page that tells a client why it gets no file.
pub open spec fn not_found_page(message: Seq<char>) -> Seq<char> {
    "<!DOCTYPE html>\n    <html lang=\"en\">\n      <head>\n        <meta charset=\"utf-8\">\n        <title>NOT FOUND</title>\n      </head>\n      <body>\n        <h1>Oops, 404 NOT FOUND!</h1>\n        <p>"@
        + message + "</p>\n      </body>\n    </html>"@
}

/// The whole answer of the server where it sends no file: status line, the
/// length of the page in bytes, an empty line, the page.
pub open spec fn not_found_response(message: Seq<char>) -> Seq<char> {
    "HTTP/1.1 404 NOT FOUND\r\nContent-Length: "@ + decimal(
        encode_utf8(not_found_page(message)).len(),
    ) + "\r\n\r\n"@ + not_found_page(message)
}

/// Writes the answer of the server where it sends no file.
pub fn format_not_found(message: &str) -> (response: String)
    ensures
        response@ == not_found_response(message@),
{
    let mut page: Vec<char> = Vec::new();
    push_str(
        &mut page,
        "<!DOCTYPE html>\n    <html lang=\"en\">\n      <head>\n        <meta charset=\"utf-8\">\n        <title>NOT FOUND</title>\n      </head>\n      <body>\n        <h1>Oops, 404 NOT FOUND!</h1>\n        <p>",
    );
    push_str(&mut page, message);
    push_str(&mut page, "</p>\n      </body>\n    </html>");
    assert(page@ =~= not_found_page(message@));
    let content = string_of(&page);
    let length: usize = content.as_str().as_bytes().len();
    let mut out: Vec<char> = Vec::new();
    push_str(&mut out, "HTTP/1.1 404 NOT FOUND\r\nContent-Length: ");
    push_decimal(&mut out, length as u64);
    push_str(&mut out, "\r\n\r\n");
    push_str(&mut out, content.as_str());
    assert(out@ =~= not_found_response(message@));
    string_of(&out)
}

/// The head of the answer that carries a file of `len` bytes.
pub open spec fn file_head(len: u64) -> Seq<char> {
    "HTTP/1.1 200 OK\r\nContent-Length: "@ + decimal(len as nat) + "\r\n\r\n"@
}

/// Writes the head of the answer that carries a file of `len` bytes.
pub fn format_file_head(len: u64) -> (head: String)
    ensures
        head@ == file_head(len),
{
    let mut out: Vec<char> = Vec::new();
    push_str(&mut out, "HTTP/1.1 200 OK\r\nContent-Length: ");
    push_decimal(&mut out, len);
    push_str(&mut out, "\r\n\r\n");
    assert(out@ =~= file_head(len));
    string_of(&out)
}

/// The request by which the client asks for the file `filename`.
pub open spec fn file_request(filename: Seq<char>) -> Seq<char> {
    "GET /files?path="@ + filename + " HTTP/1.1\r\n\r\n"@
}

/// Writes the request for the file `filename`.
pub fn format_file_request(filename: &str) -> (request: String)
    ensures
        request@ == file_request(filename@),
{
    let mut out: Vec<char> = Vec::new();
    push_str(&mut out, "GET /files?path=");
    push_str(&mut out, filename);
    push_str(&mut out, " HTTP/1.1\r\n\r\n");
    assert(out@ =~= file_request(filename@));
    string_of(&out)
}

/// The character is a decimal digit.
pub open spec fn is_digit(c: char) -> bool {
    '0' <= c && c <= '9'
}

/// The number that a digit writes, 0 for any other character.
pub open spec fn digit_of(c: char) -> nat {
    if is_digit(c) {
        (c as u8 - 48) as nat
    } else {
        0
    }
}

/// The number that a row of digits writes.
pub open spec fn digits_value(s: Seq<char>) -> nat
    decreases s.len(),
{
    if s.len() == 0 {
        0
    } else {
        digits_value(s.drop_last()) * 10 + digit_of(s.last())
    }
}

/// Every character of `s` is a digit.
pub open spec fn all_digits(s: Seq<char>) -> bool {
    forall|i: int| 0 <= i < s.len() ==> is_digit(#[trigger] s[i])
}

/// The number that `s` writes: digits, with or without a `+` before them,
/// that stay within 64 bits. Anything else writes no number.
pub open spec fn parsed_number(s: Seq<char>) -> Option<u64> {
    let digits = if s.len() > 0 && s[0] == '+' {
        s.skip(1)
    } else {
        s
    };
    if digits.len() > 0 && all_digits(digits) && digits_value(digits) <= u64::MAX {
        Some(digits_value(digits) as u64)
    } else {
        None
    }
}

/// A row of digits writes no less than any of its beginnings.
proof fn lemma_value_grows(s: Seq<char>, k: int)
    requires
        0 <= k <= s.len(),
    ensures
        digits_value(s.take(k)) <= digits_value(s),
    decreases s.len() - k,
{
    if k < s.len() {
        lemma_value_grows(s, k + 1);
        assert(s.take(k + 1).drop_last() =~= s.take(k));
    } else {
        assert(s.take(k) =~= s);
    }
}

/// Reads a number, as `parsed_number` says.
pub fn parse_number(text: &Vec<char>) -> (r: Option<u64>)
    ensures
        r == parsed_number(text@),
{
    let n: usize = text.len();
    let start: usize = if n > 0 && text[0] == '+' {
        1
    } else {
        0
    };
    if start == n {
        return None;
    }
    let ghost digits = text@.skip(start as int);
    proof {
        assert(text@.skip(0) =~= text@);
    }
    let mut acc: u64 = 0;
    let mut i: usize = start;
    proof {
        assert(digits.take(0) =~= Seq::<char>::empty());
    }
    while i < n
        invariant
            n == text@.len(),
            start <= i <= n,
            start < n,
            digits == text@.skip(start as int),
            digits == if text@.len() > 0 && text@[0] == '+' {
                text@.skip(1)
            } else {
                text@
            },
            forall|j: int| 0 <= j < i - start ==> is_digit(#[trigger] digits[j]),
            acc == digits_value(digits.take(i - start)),
        decreases n - i,
    {
        let c = text[i];
        if !('0' <= c && c <= '9') {
            assert(!is_digit(digits[i - start]));
            return None;
        }
        let d: u64 = (c as u8 - 48) as u64;
        proof {
            assert(digits.take(i - start + 1).drop_last() =~= digits.take(i - start));
            assert(digits.take(i - start + 1).last() == c);
            assert(digits_value(digits.take(i - start + 1)) == acc * 10 + d);
        }
        if acc > (u64::MAX - d) / 10 {
            proof {
                lemma_value_grows(digits, i - start + 1);
            }
            return None;
        }
        acc = acc * 10 + d;
        i += 1;
    }
    proof {
        assert(digits.take(n - start) =~= digits);
    }
    Some(acc)
}

/// What the client knows of an answer's head: its status and the length of
/// the body that follows.
pub struct Head {
    pub status: Vec<char>,
    pub length: Option<u64>,
}

/// What a `Head` holds.
pub struct HeadView {
    pub status: Seq<char>,
    pub length: Option<u64>,
}

impl View for Head {
    type V = HeadView;

    open spec fn view(&self) -> HeadView {
        HeadView { status: self.status@, length: self.length }
    }
}

/// What the client takes an answer for before it has read a line of it.
pub open spec fn first_head() -> HeadView {
    HeadView { status: "200"@, length: None }
}

/// What the client knows once it has read one more line: a line that begins
/// with `HTTP/1.1` gives the status, its second word, `404` where it has none;
/// a line that begins with `Content-Length:` gives the length, its last word
/// read as a number.
pub open spec fn head_after(head: HeadView, line: Seq<char>) -> HeadView {
    let w = words(line);
    if "HTTP/1.1"@.is_prefix_of(line) {
        HeadView {
            status: if w.len() >= 2 {
                w[1]
            } else {
                "404"@
            },
            length: head.length,
        }
    } else if "Content-Length:"@.is_prefix_of(line) {
        HeadView {
            status: head.status,
            length: if w.len() > 0 {
                parsed_number(w.last())
            } else {
                None
            },
        }
    } else {
        head
    }
}

/// What the client knows once it has read `lines`: the head ends before the
/// first line without a word.
pub open spec fn head_of(head: HeadView, lines: Seq<Seq<char>>) -> HeadView
    decreases lines.len(),
{
    if lines.len() == 0 || words(lines[0]).len() == 0 {
        head
    } else {
        head_of(head_after(head, lines[0]), lines.drop_first())
    }
}

/// The length of the file that follows a head: the one it names, where its
/// status is `200`. Any other head carries no file.
pub open spec fn length_outcome(lines: Seq<Seq<char>>) -> Result<u64, FileError> {
    head_outcome(head_of(first_head(), lines))
}

/// The length that a head names, where its status is `200`.
pub open spec fn head_outcome(head: HeadView) -> Result<u64, FileError> {
    if head.status == "200"@ && head.length is Some {
        Ok(head.length->0)
    } else {
        Err(FileError::CannotGetFile)
    }
}

/// Reads the length off a head, as `head_outcome` says.
pub fn length_of(head: &Head) -> (r: Result<u64, FileError>)
    ensures
        r == head_outcome(head@),
{
    let ok = chars_of("200");
    if same_chars(&head.status, &ok) {
        match head.length {
            Some(n) => Ok(n),
            None => Err(FileError::CannotGetFile),
        }
    } else {
        Err(FileError::CannotGetFile)
    }
}

/// Whether `line` ends the head of an answer: it has no word.
pub fn ends_head(line: &str) -> (b: bool)
    ensures
        b == (words(line@).len() == 0),
{
    let w = split_words(line);
    w.len() == 0
}

/// Reads the head of an answer, as `length_outcome` says. `lines` holds the
/// lines of the answer in order; those behind the head are not looked at.
pub fn content_length(lines: &Vec<String>) -> (r: Result<u64, FileError>)
    ensures
        r == length_outcome(texts(lines@)),
{
    let ghost all = texts(lines@);
    let version = chars_of("HTTP/1.1");
    let field = chars_of("Content-Length:");
    let mut head = Head { status: chars_of("200"), length: None };
    let mut i: usize = 0;
    proof {
        assert(all.skip(0) =~= all);
    }
    while i < lines.len()
        invariant
            i <= lines@.len(),
            all == texts(lines@),
            version@ == "HTTP/1.1"@,
            field@ == "Content-Length:"@,
            head_of(first_head(), all) == head_of(head@, all.skip(i as int)),
        decreases lines@.len() - i,
    {
        proof {
            assert(all.skip(i as int)[0] == lines@[i as int]@);
            assert(all.skip(i as int).drop_first() =~= all.skip(i + 1));
        }
        let line = chars_of(lines[i].as_str());
        let mut w = split_words(lines[i].as_str());
        if w.len() == 0 {
            return length_of(&head);
        }
        proof {
            assert(line@.skip(0) =~= line@);
            assert(rows(w@).last() == w@.last()@);
            if w@.len() >= 2 {
                assert(rows(w@)[1] == w@[1]@);
            }
        }
        if has_prefix_at(&line, 0, &version) {
            if w.len() >= 2 {
                head.status = w.swap_remove(1);
            } else {
                head.status = chars_of("404");
            }
        } else if has_prefix_at(&line, 0, &field) {
            head.length = parse_number(&w[w.len() - 1]);
        }
        i += 1;
    }
    length_of(&head)
}

} // verus!
