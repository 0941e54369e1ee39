//! The origin forwarder's decisions: where a request goes and what is sent
//! there. Opening the connection and sending is the caller's part.

use vstd::prelude::*;
use vstd::string::StringSliceAdditionalSpecFns;
use vstd::slice::slice_to_vec;
use vstd::utf8::{encode_utf8, is_ascii_chars, is_ascii_chars_encode_utf8};
use crate::cache::{entry_of, CachedEntry, CachedEntryView};
use crate::message::{
    copy_bytes, copy_header, header_value, header_views, is_visible_byte, value_text, Header,
    HeaderView, ProxyRequest, ProxyRequestView,
};
use crate::text::{
    chars_of, decimal, eq_ignoring_case, push_decimal, push_str, same_ignoring_case, string_of,
};

verus! {

/// What `hyper::Uri` makes of `text`: `None` where it does not parse as a URI,
/// else the host (where the URI has an authority), the port (where the
/// authority names one) and the URI written out again.
pub uninterp spec fn uri_parts(text: Seq<char>) -> Option<
    (Option<Seq<char>>, Option<u16>, Seq<char>),
>;

/// A request target, taken apart.
#[derive(Debug, Clone, PartialEq, Eq)]
pub struct Target {
    pub host: Option<String>,
    pub port: Option<u16>,
    pub text: String,
}

/// What a `Target` holds.
pub struct TargetView {
    pub host: Option<Seq<char>>,
    pub port: Option<u16>,
    pub text: Seq<char>,
}

impl View for Target {
    type V = TargetView;

    open spec fn view(&self) -> TargetView {
        TargetView {
            host: match self.host {
                Some(h) => Some(h@),
                None => None,
            },
            port: self.port,
            text: self.text@,
        }
    }
}

/// The parts of a target that may be missing.
pub open spec fn parts_of(t: Option<Target>) -> Option<
    (Option<Seq<char>>, Option<u16>, Seq<char>),
> {
    match t {
        Some(t) => Some((t@.host, t@.port, t@.text)),
        None => None,
    }
}

/// The target that `text` names, where it names one.
pub open spec fn target_of(text: Seq<char>) -> Option<TargetView> {
    match uri_parts(text) {
        Some((host, port, text)) => Some(TargetView { host, port, text }),
        None => None,
    }
}

/// Parses `text` with `hyper::Uri` (`FromStr`) and reads the result's `host`,
/// `port_u16` and `Display` into a `Target`; a text that does not parse gives
/// `None`. Trusted: the result is the named function of the text; nothing more
/// is claimed.
#[verifier::external_body]
pub(crate) fn parse_uri(text: &str) -> (r: Option<Target>)
    ensures
        parts_of(r) == uri_parts(text@),
{
    match text.parse::<hyper::Uri>() {
        Ok(uri) => Some(
            Target {
                host: uri.host().map(str::to_owned),
                port: uri.port_u16(),
                text: uri.to_string(),
            },
        ),
        Err(_) => None,
    }
}

/// The port that is taken where a target names none.
pub const DEFAULT_PORT: u16 = 80;

/// The host of a target, empty where it has none.
pub open spec fn host_of(target: TargetView) -> Seq<char> {
    match target.host {
        Some(h) => h,
        None => Seq::empty(),
    }
}

/// The port of a target, the default where it names none.
pub open spec fn port_of(target: TargetView) -> u16 {
    match target.port {
        Some(p) => p,
        None => DEFAULT_PORT,
    }
}

/// The address to connect to for a target: host, colon, port.
pub open spec fn address_of(target: TargetView) -> Seq<char> {
    host_of(target) + seq![':'] + decimal(port_of(target) as nat)
}

/// The value of the `Host` field for a target: the host, and the port behind a
/// colon where the target names one.
pub open spec fn host_field(target: TargetView) -> Seq<char> {
    match target.port {
        Some(p) => host_of(target) + seq![':'] + decimal(p as nat),
        None => host_of(target),
    }
}

/// The address to connect to for `target`.
pub fn origin_address(target: &Target) -> (address: String)
    ensures
        address@ == address_of(target@),
{
    let mut out: Vec<char> = Vec::new();
    match &target.host {
        Some(h) => {
            push_str(&mut out, h.as_str());
        },
        None => {},
    }
    out.push(':');
    let port: u16 = match target.port {
        Some(p) => p,
        None => DEFAULT_PORT,
    };
    push_decimal(&mut out, port as u64);
    assert(out@ =~= address_of(target@));
    string_of(&out)
}

/// The value of the `Host` field for `target`.
pub fn host_field_value(target: &Target) -> (value: String)
    ensures
        value@ == host_field(target@),
{
    let mut out: Vec<char> = Vec::new();
    match &target.host {
        Some(h) => {
            push_str(&mut out, h.as_str());
        },
        None => {},
    }
    match target.port {
        Some(p) => {
            out.push(':');
            push_decimal(&mut out, p as u64);
        },
        None => {},
    }
    assert(out@ =~= host_field(target@));
    string_of(&out)
}

/// A byte that may stand in a header value.
pub open spec fn is_value_byte(b: u8) -> bool {
    (b >= 32 && b != 127) || b == 9
}

/// Every byte of `bytes` may stand in a header value.
pub open spec fn is_header_value(bytes: Seq<u8>) -> bool {
    forall|i: int| 0 <= i < bytes.len() ==> is_value_byte(#[trigger] bytes[i])
}

/// The bytes of `text` where they make a header value, `None` otherwise.
pub fn header_value_of(text: &str) -> (r: Option<Vec<u8>>)
    ensures
        match r {
            Some(v) => is_header_value(text.spec_bytes()) && v@ == text.spec_bytes(),
            None => !is_header_value(text.spec_bytes()),
        },
{
    let bytes = slice_to_vec(text.as_bytes());
    let mut i: usize = 0;
    while i < bytes.len()
        invariant
            i <= bytes@.len(),
            bytes@ == text.spec_bytes(),
            forall|j: int| 0 <= j < i ==> is_value_byte(#[trigger] bytes@[j]),
        decreases bytes@.len() - i,
    {
        let b: u8 = bytes[i];
        if !((b >= 32 && b != 127) || b == 9) {
            return None;
        }
        i += 1;
    }
    Some(bytes)
}

/// Why no outbound request could be made.
#[derive(Debug, PartialEq, Eq, Clone, Copy)]
pub enum RequestError {
    /// A validator of the cached entry cannot stand in a header value.
    InvalidHeaderValue,
}

impl RequestError {
    /// The error in words.
    pub fn message(&self) -> (s: String)
        ensures
            s@ == "failed to parse header value"@,
    {
        "failed to parse header value".to_owned()
    }
}

/// The field is a `Host` field.
pub open spec fn is_host(h: HeaderView) -> bool {
    same_ignoring_case(h.name, "host"@)
}

/// The header fields sent to the origin: a `host` field with value `host`,
/// the client's fields but for its `Host` fields, and, where validators are
/// given, `if-modified-since` and `if-none-match` with them.
pub open spec fn outbound_headers(
    client: Seq<HeaderView>,
    host: Seq<u8>,
    validators: Option<(Seq<u8>, Seq<u8>)>,
) -> Seq<HeaderView> {
    let kept = client.filter(|h: HeaderView| !is_host(h));
    let first = seq![HeaderView { name: "host"@, value: host }];
    match validators {
        Some((last_modified, etag)) => first + kept + seq![
            HeaderView { name: "if-modified-since"@, value: last_modified },
            HeaderView { name: "if-none-match"@, value: etag },
        ],
        None => first + kept,
    }
}

/// The validators of a cached entry as header values.
pub open spec fn validators_of(entry: Option<CachedEntryView>) -> Option<(Seq<u8>, Seq<u8>)> {
    match entry {
        Some(e) => Some((encode_utf8(e.last_modified), encode_utf8(e.etag))),
        None => None,
    }
}

/// The request sent to the origin for `request`, resolved to `target`, with
/// the cached `entry` where there is one: method and body as the client sent
/// them, the target's URI, the headers of `outbound_headers`. It cannot be made
/// where the host or a validator cannot stand in a header value.
pub open spec fn request_outcome(
    request: ProxyRequestView,
    target: TargetView,
    entry: Option<CachedEntryView>,
) -> Result<ProxyRequestView, RequestError> {
    let host = encode_utf8(host_field(target));
    let validators = validators_of(entry);
    let fits = is_header_value(host) && match validators {
        Some((last_modified, etag)) => is_header_value(last_modified) && is_header_value(etag),
        None => true,
    };
    if fits {
        Ok(
            ProxyRequestView {
                method: request.method,
                uri: target.text,
                headers: outbound_headers(request.headers, host, validators),
                body: request.body,
            },
        )
    } else {
        Err(RequestError::InvalidHeaderValue)
    }
}

/// The view of what `create_request` returns.
pub open spec fn request_view(r: Result<ProxyRequest, RequestError>) -> Result<
    ProxyRequestView,
    RequestError,
> {
    match r {
        Ok(request) => Ok(request@),
        Err(e) => Err(e),
    }
}

/// Appends to `out` the fields of `client` that are no `Host` fields.
fn push_kept(out: &mut Vec<Header>, client: &Vec<Header>)
    ensures
        header_views(final(out)@) == header_views(old(out)@) + header_views(client@).filter(
            |h: HeaderView| !is_host(h),
        ),
{
    let host = chars_of("host");
    let ghost keep = |h: HeaderView| !is_host(h);
    let mut i: usize = 0;
    proof {
        reveal(Seq::filter);
        assert(header_views(client@).take(0).filter(keep) =~= Seq::empty());
        assert(header_views(out@) =~= header_views(old(out)@) + Seq::empty());
    }
    while i < client.len()
        invariant
            i <= client@.len(),
            host@ == "host"@,
            keep == |h: HeaderView| !is_host(h),
            header_views(out@) == header_views(old(out)@) + header_views(client@).take(
                i as int,
            ).filter(keep),
        decreases client@.len() - i,
    {
        let ghost before = out@;
        proof {
            reveal(Seq::filter);
            assert(header_views(client@).take(i + 1).drop_last() =~= header_views(client@).take(
                i as int,
            ));
            assert(header_views(client@).take(i + 1).last() == client@[i as int]@);
        }
        let name = chars_of(client[i].name.as_str());
        if !eq_ignoring_case(&name, &host) {
            out.push(copy_header(&client[i]));
            assert(header_views(out@) =~= header_views(before).push(client@[i as int]@));
        }
        i += 1;
    }
    assert(header_views(client@).take(client@.len() as int) =~= header_views(client@));
}

/// Builds the request that goes to the origin, as `request_outcome` says.
pub fn create_request(request: &ProxyRequest, target: &Target, entry: Option<&CachedEntry>) -> (r:
    Result<ProxyRequest, RequestError>)
    ensures
        request_view(r) == request_outcome(
            request@,
            target@,
            match entry {
                Some(e) => Some(e@),
                None => None,
            },
        ),
{
    let host_text = host_field_value(target);
    let host = match header_value_of(host_text.as_str()) {
        Some(v) => v,
        None => {
            return Err(RequestError::InvalidHeaderValue);
        },
    };
    let mut headers: Vec<Header> = Vec::new();
    headers.push(Header { name: "host".to_owned(), value: host });
    assert(header_views(headers@) =~= seq![
        HeaderView { name: "host"@, value: encode_utf8(host_field(target@)) },
    ]);
    push_kept(&mut headers, &request.headers);
    match entry {
        Some(e) => {
            let last_modified = match header_value_of(e.last_modified.as_str()) {
                Some(v) => v,
                None => {
                    return Err(RequestError::InvalidHeaderValue);
                },
            };
            let etag = match header_value_of(e.etag.as_str()) {
                Some(v) => v,
                None => {
                    return Err(RequestError::InvalidHeaderValue);
                },
            };
            let ghost before = headers@;
            headers.push(Header { name: "if-modified-since".to_owned(), value: last_modified });
            headers.push(Header { name: "if-none-match".to_owned(), value: etag });
            assert(header_views(headers@) =~= header_views(before) + seq![
                HeaderView { name: "if-modified-since"@, value: encode_utf8(e@.last_modified) },
                HeaderView { name: "if-none-match"@, value: encode_utf8(e@.etag) },
            ]);
        },
        None => {},
    }
    Ok(
        ProxyRequest {
            method: request.method.clone(),
            uri: target.text.clone(),
            headers,
            body: copy_bytes(&request.body),
        },
    )
}

/// A validator goes back to the origin as it came: a header value of visible
/// ASCII, read as text and written as a header value again, is the same bytes
/// and can stand in a header value.
pub proof fn lemma_validator_round_trip(value: Seq<u8>)
    requires
        forall|i: int| 0 <= i < value.len() ==> is_visible_byte(#[trigger] value[i]),
    ensures
        encode_utf8(value_text(value)) == value,
        is_header_value(encode_utf8(value_text(value))),
{
    let text = value_text(value);
    assert(is_ascii_chars(text));
    is_ascii_chars_encode_utf8(text);
    assert forall|i: int| 0 <= i < value.len() implies encode_utf8(text)[i] == value[i] by {
        assert(text[i] as u8 == encode_utf8(text)[i]);
        assert(is_visible_byte(value[i]));
    }
    assert(encode_utf8(text) =~= value);
}

/// What the cache store records of a response can always be sent back: the
/// validators of a stored entry can stand in a header value, so that a request
/// for a cached URL is never refused on their account.
pub proof fn lemma_stored_validators_fit(headers: Seq<HeaderView>)
    ensures
        is_header_value(encode_utf8(entry_of(headers).last_modified)),
        is_header_value(encode_utf8(entry_of(headers).etag)),
{
    lemma_text_fits(header_value(headers, "last-modified"@)->0);
    lemma_text_fits(header_value(headers, "etag"@)->0);
}

/// A header value read as text can stand in a header value.
proof fn lemma_text_fits(value: Seq<u8>)
    ensures
        is_header_value(encode_utf8(value_text(value))),
{
    if forall|i: int| 0 <= i < value.len() ==> is_visible_byte(#[trigger] value[i]) {
        lemma_validator_round_trip(value);
    } else {
        assert(value_text(value) =~= Seq::<char>::empty());
        assert(is_ascii_chars(value_text(value)));
        is_ascii_chars_encode_utf8(value_text(value));
    }
}

} // verus!
