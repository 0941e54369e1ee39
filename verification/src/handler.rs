//! The request handler: what becomes of one client request, step by step.
//!
//! The handler never touches a socket or a file. Each function takes what has
//! happened so far and says what is to be done next: read a blob, forward a
//! request to an origin, follow a redirect, or respond to the client. The
//! caller does that and comes back with the result.

use vstd::prelude::*;
use vstd::slice::slice_to_vec;
use vstd::utf8::encode_utf8;
use crate::blacklist::{blacklisted, Blacklist};
use crate::cache::{
    blob_wanted, put_in_cache, store_outcome, CacheStore, CachedEntry, CachedEntryView, StorePlan,
    StorePlanView,
};
use crate::message::{
    find_header, header_value, header_views, text_of_value, value_text, Header, HeaderView,
    ProxyRequest, ProxyRequestView, Response, ResponseView,
};
use crate::origin::{
    address_of, create_request, origin_address, parse_uri, request_outcome, target_of, Target,
    TargetView,
};
use crate::report::{error_page, format_error, status_text, LogRecord, LogRecordView};
use crate::text::{
    chars_of, decimal, decimal_string, has_prefix_at, push_chars, push_str, same_text,
    string_between, string_of,
};

verus! {

/// The number of redirects that are followed for one client request.
pub const MAX_REDIRECTS: usize = 10;

/// What the proxy does with a request method.
#[derive(Debug, Clone, Copy, PartialEq, Eq)]
pub enum Method {
    Get,
    Post,
    Connect,
    Other,
}

/// The kind of the method named `name`.
pub open spec fn method_of(name: Seq<char>) -> Method {
    if name == "GET"@ {
        Method::Get
    } else if name == "POST"@ {
        Method::Post
    } else if name == "CONNECT"@ {
        Method::Connect
    } else {
        Method::Other
    }
}

/// The kind of the method named `name`.
pub fn classify_method(name: &str) -> (m: Method)
    ensures
        m == method_of(name@),
{
    if same_text(name, "GET") {
        Method::Get
    } else if same_text(name, "POST") {
        Method::Post
    } else if same_text(name, "CONNECT") {
        Method::Connect
    } else {
        Method::Other
    }
}

/// The target begins with a slash: it names no origin by itself.
pub open spec fn is_relative(uri: Seq<char>) -> bool {
    uri.len() > 0 && uri[0] == '/'
}

/// The number of characters of `s` before its first slash.
pub open spec fn segment_len(s: Seq<char>) -> nat
    decreases s.len(),
{
    if s.len() == 0 || s[0] == '/' {
        0
    } else {
        1 + segment_len(s.drop_first())
    }
}

/// `path` without one slash at its start and without `http://` behind that.
pub open spec fn bare(path: Seq<char>) -> Seq<char> {
    let p = if is_relative(path) {
        path.skip(1)
    } else {
        path
    };
    if "http://"@.is_prefix_of(p) {
        p.skip("http://"@.len() as int)
    } else {
        p
    }
}

/// The origin that a referring page was fetched from: the first segment of the
/// referer behind the proxy's own address. Empty where the referer does not
/// begin with that address, or where the address is empty.
pub open spec fn referring_origin(referer: Seq<char>, server: Seq<char>) -> Seq<char> {
    if server.len() > 0 && server.is_prefix_of(referer) {
        let rest = bare(referer.skip(server.len() as int));
        rest.take(segment_len(rest) as int)
    } else {
        Seq::empty()
    }
}

/// The absolute URL that a request target stands for. A target that is not
/// relative is taken as it is. A relative one is put behind the origin that
/// the referer names, where it names one; otherwise its own first segment is
/// taken for the origin.
pub open spec fn resolved(uri: Seq<char>, referer: Option<Seq<char>>, server: Seq<char>) -> Seq<
    char,
> {
    if !is_relative(uri) {
        uri
    } else if referer is Some && referring_origin(referer->0, server).len() > 0 {
        "http://"@ + referring_origin(referer->0, server) + uri
    } else {
        "http://"@ + bare(uri)
    }
}

/// The characters of `chars` from `from` on, without one slash at the start
/// and without `http://` behind that.
fn bare_from(chars: &Vec<char>, from: usize) -> (start: usize)
    requires
        from <= chars@.len(),
    ensures
        from <= start <= chars@.len(),
        chars@.skip(start as int) == bare(chars@.skip(from as int)),
{
    let scheme = chars_of("http://");
    let mut start: usize = from;
    if start < chars.len() && chars[start] == '/' {
        start += 1;
    }
    proof {
        let path = chars@.skip(from as int);
        if is_relative(path) {
            assert(path.skip(1) =~= chars@.skip(start as int));
        }
    }
    if has_prefix_at(chars, start, &scheme) {
        let ghost p = chars@.skip(start as int);
        proof {
            assert(scheme@.len() <= p.len());
            assert(p.skip(scheme@.len() as int) =~= chars@.skip(start + scheme@.len()));
        }
        start += scheme.len();
    }
    start
}

/// The place of the first slash of `chars` at or behind `from`, or the length
/// of `chars` where there is none.
fn segment_end(chars: &Vec<char>, from: usize) -> (end: usize)
    requires
        from <= chars@.len(),
    ensures
        from <= end <= chars@.len(),
        end - from == segment_len(chars@.skip(from as int)),
{
    let mut end: usize = from;
    while end < chars.len() && chars[end] != '/'
        invariant
            from <= end <= chars@.len(),
            segment_len(chars@.skip(from as int)) == (end - from) + segment_len(
                chars@.skip(end as int),
            ),
        decreases chars@.len() - end,
    {
        proof {
            assert(chars@.skip(end as int).drop_first() =~= chars@.skip(end + 1));
        }
        end += 1;
    }
    end
}

/// Resolves a request target, as `resolved` says.
pub fn resolve_target(uri: &str, referer: Option<&str>, server: &str) -> (url: String)
    ensures
        url@ == resolved(
            uri@,
            match referer {
                Some(r) => Some(r@),
                None => None,
            },
            server@,
        ),
{
    let target = chars_of(uri);
    if !(target.len() > 0 && target[0] == '/') {
        return uri.to_owned();
    }
    let mut out: Vec<char> = Vec::new();
    push_str(&mut out, "http://");
    match referer {
        Some(r) => {
            let page = chars_of(r);
            let own = chars_of(server);
            if own.len() > 0 && has_prefix_at(&page, 0, &own) {
                assert(page@.skip(0) =~= page@);
                let start = bare_from(&page, own.len());
                let end = segment_end(&page, start);
                proof {
                    let rest = bare(r@.skip(server@.len() as int));
                    assert(rest.take(segment_len(rest) as int) =~= page@.subrange(
                        start as int,
                        end as int,
                    ));
                }
                if end > start {
                    let origin = string_between(&page, start, end);
                    push_str(&mut out, origin.as_str());
                    push_chars(&mut out, &target);
                    return string_of(&out);
                }
            } else {
                assert(page@.skip(0) =~= page@);
            }
        },
        None => {},
    }
    let start = bare_from(&target, 0);
    assert(target@.skip(0) =~= target@);
    let rest = string_between(&target, start, target.len());
    push_str(&mut out, rest.as_str());
    string_of(&out)
}

/// One client request on its way: the request as it was read, the URL that it
/// was resolved to (which the session log names), the number of redirects
/// followed so far, and the target that is fetched now.
#[derive(Debug, Clone, PartialEq, Eq)]
pub struct Job {
    pub request: ProxyRequest,
    pub url: String,
    pub hops: usize,
    pub target: Target,
}

/// What a `Job` holds.
pub struct JobView {
    pub request: ProxyRequestView,
    pub url: Seq<char>,
    pub hops: usize,
    pub target: TargetView,
}

impl View for Job {
    type V = JobView;

    open spec fn view(&self) -> JobView {
        JobView {
            request: self.request@,
            url: self.url@,
            hops: self.hops,
            target: self.target@,
        }
    }
}

/// A job that waits for the blob of its cached entry to be read.
#[derive(Debug, Clone, PartialEq, Eq)]
pub struct PendingBlob {
    pub job: Job,
    pub entry: CachedEntry,
}

/// What a `PendingBlob` holds.
pub struct PendingBlobView {
    pub job: JobView,
    pub entry: CachedEntryView,
}

impl View for PendingBlob {
    type V = PendingBlobView;

    open spec fn view(&self) -> PendingBlobView {
        PendingBlobView { job: self.job@, entry: self.entry@ }
    }
}

/// A job that waits for its origin to answer; `cached` is the entry and body
/// that the answer may confirm.
#[derive(Debug, Clone, PartialEq, Eq)]
pub struct PendingOrigin {
    pub job: Job,
    pub cached: Option<(CachedEntry, Vec<u8>)>,
}

/// What a cached entry with its body holds.
pub open spec fn cached_view(cached: Option<(CachedEntry, Vec<u8>)>) -> Option<
    (CachedEntryView, Seq<u8>),
> {
    match cached {
        Some((entry, body)) => Some((entry@, body@)),
        None => None,
    }
}

/// What a `PendingOrigin` holds.
pub struct PendingOriginView {
    pub job: JobView,
    pub cached: Option<(CachedEntryView, Seq<u8>)>,
}

impl View for PendingOrigin {
    type V = PendingOriginView;

    open spec fn view(&self) -> PendingOriginView {
        PendingOriginView { job: self.job@, cached: cached_view(self.cached) }
    }
}

/// What is to be done next for a client request.
#[derive(Debug, Clone, PartialEq, Eq)]
#[allow(inconsistent_fields)]
pub enum Step {
    /// Read the blob file `file` and hand what was read to `on_blob`.
    ReadBlob { file: String, pending: PendingBlob },
    /// Connect to `address`, send `outbound`, and hand the outcome to
    /// `on_origin`.
    Forward { address: String, outbound: ProxyRequest, pending: PendingOrigin },
    /// Follow a redirect: hand `job` to `send_request`.
    Redirect { job: Job },
    /// Send `response` to the client; write `log` to the session log where
    /// there is one.
    Respond { response: Response, log: Option<LogRecord> },
}

/// What a `Step` holds.
#[allow(inconsistent_fields)]
pub enum StepView {
    ReadBlob { file: Seq<char>, pending: PendingBlobView },
    Forward { address: Seq<char>, outbound: ProxyRequestView, pending: PendingOriginView },
    Redirect { job: JobView },
    Respond { response: ResponseView, log: Option<LogRecordView> },
}

impl View for Step {
    type V = StepView;

    open spec fn view(&self) -> StepView {
        match *self {
            Step::ReadBlob { file, pending } => StepView::ReadBlob {
                file: file@,
                pending: pending@,
            },
            Step::Forward { address, outbound, pending } => StepView::Forward {
                address: address@,
                outbound: outbound@,
                pending: pending@,
            },
            Step::Redirect { job } => StepView::Redirect { job: job@ },
            Step::Respond { response, log } => StepView::Respond {
                response: response@,
                log: match log {
                    Some(record) => Some(record@),
                    None => None,
                },
            },
        }
    }
}

/// How forwarding a request ended: with the origin's response, or with the
/// message of the error that stopped it.
#[derive(Debug, Clone, PartialEq, Eq)]
pub enum OriginOutcome {
    Replied(Response),
    Failed(String),
}

/// What an `OriginOutcome` holds.
pub enum OriginOutcomeView {
    Replied(ResponseView),
    Failed(Seq<char>),
}

impl View for OriginOutcome {
    type V = OriginOutcomeView;

    open spec fn view(&self) -> OriginOutcomeView {
        match *self {
            OriginOutcome::Replied(response) => OriginOutcomeView::Replied(response@),
            OriginOutcome::Failed(message) => OriginOutcomeView::Failed(message@),
        }
    }
}

/// The response that reports an error to the client: the status, the error
/// page as body, and the body's length in a `content-length` field.
pub open spec fn error_response(code: u16, message: Seq<char>) -> ResponseView {
    let body = encode_utf8(error_page(status_text(code), message));
    ResponseView {
        status: code,
        headers: seq![
            HeaderView { name: "content-length"@, value: encode_utf8(decimal(body.len())) },
        ],
        body,
    }
}

/// The step that ends a request with an error.
pub open spec fn refusal(code: u16, message: Seq<char>) -> StepView {
    StepView::Respond { response: error_response(code, message), log: None }
}

/// Makes the error response for status `code` with `message`.
pub fn make_error_response(code: u16, message: &str) -> (response: Response)
    ensures
        response@ == error_response(code, message@),
{
    let page = format_error(code, message);
    let body = slice_to_vec(page.as_str().as_bytes());
    let length = decimal_string(body.len() as u64);
    let value = slice_to_vec(length.as_str().as_bytes());
    let mut headers: Vec<Header> = Vec::new();
    headers.push(Header { name: "content-length".to_owned(), value });
    assert(header_views(headers@) =~= seq![
        HeaderView {
            name: "content-length"@,
            value: encode_utf8(decimal(encode_utf8(page@).len())),
        },
    ]);
    Response { status: code, headers, body }
}

/// What the session log gets for a job that ended with `status`, the status
/// that the client sees.
pub open spec fn log_of(job: JobView, status: u16) -> LogRecordView {
    LogRecordView { method: job.request.method, status, url: job.url }
}

/// What becomes of a job once its cached entry is known: the request for the
/// origin is built and goes out, or cannot be built, which ends the job with
/// `404`.
pub open spec fn send_step(job: JobView, cached: Option<(CachedEntryView, Seq<u8>)>) -> StepView {
    let entry = match cached {
        Some((entry, _)) => Some(entry),
        None => None,
    };
    match request_outcome(job.request, job.target, entry) {
        Ok(outbound) => StepView::Forward {
            address: address_of(job.target),
            outbound,
            pending: PendingOriginView { job, cached },
        },
        Err(_) => refusal(404, "failed to parse header value"@),
    }
}

/// What becomes of a job at its start: a blacklisted URL ends it with `403`
/// before anything else happens; a URL with a cached entry has its blob read;
/// any other goes to the origin at once.
pub open spec fn forward_step(
    job: JobView,
    banned: Set<Seq<char>>,
    entries: Map<Seq<char>, CachedEntryView>,
) -> StepView {
    if blacklisted(banned, job.target.text) {
        refusal(403, "This site is blacklisted"@)
    } else {
        match blob_wanted(entries, job.target.text) {
            Some(file) => StepView::ReadBlob {
                file,
                pending: PendingBlobView { job, entry: entries[job.target.text] },
            },
            None => send_step(job, None),
        }
    }
}

/// What becomes of a job once its blob was read, or could not be read: a blob
/// that could not be read is a miss.
pub open spec fn blob_step(pending: PendingBlobView, blob: Option<Seq<u8>>) -> StepView {
    send_step(
        pending.job,
        match blob {
            Some(body) => Some((pending.entry, body)),
            None => None,
        },
    )
}

/// The referer that a request names, as text.
pub open spec fn referer_of(headers: Seq<HeaderView>) -> Option<Seq<char>> {
    match header_value(headers, "referer"@) {
        Some(value) => Some(value_text(value)),
        None => None,
    }
}

/// What becomes of a request as it arrives: `CONNECT` is refused with `407`,
/// a method other than `GET` and `POST` with an empty `404`, a target that is
/// no URL with `404`; else the job starts.
pub open spec fn begin_step(
    request: ProxyRequestView,
    server: Seq<char>,
    banned: Set<Seq<char>>,
    entries: Map<Seq<char>, CachedEntryView>,
) -> StepView {
    match method_of(request.method) {
        Method::Connect => refusal(407, "HTTPS is not supported"@),
        Method::Other => StepView::Respond {
            response: ResponseView { status: 404, headers: Seq::empty(), body: Seq::empty() },
            log: None,
        },
        _ => {
            let url = resolved(request.uri, referer_of(request.headers), server);
            match target_of(url) {
                Some(target) => forward_step(
                    JobView { request, url: target.text, hops: 0, target },
                    banned,
                    entries,
                ),
                None => refusal(404, "Invalid request target"@),
            }
        },
    }
}

/// The status sends the client elsewhere.
pub open spec fn is_redirect(status: u16) -> bool {
    status == 301 || status == 302
}

/// The target that a redirecting response names in its `Location` field.
pub open spec fn location_of(headers: Seq<HeaderView>) -> Option<TargetView> {
    match header_value(headers, "location"@) {
        Some(value) => target_of(value_text(value)),
        None => None,
    }
}

/// The body of a cached response, empty where there is none.
pub open spec fn body_of(cached: Option<(CachedEntryView, Seq<u8>)>) -> Seq<u8> {
    match cached {
        Some((_, body)) => body,
        None => Seq::empty(),
    }
}

/// What is stored of a response: the plan of the cache store, nothing where
/// the store refuses the response.
pub open spec fn stored(response: ResponseView, key: Seq<char>) -> Option<StorePlanView> {
    match store_outcome(response.headers, key, response.body) {
        Ok(plan) => plan,
        Err(_) => None,
    }
}

/// What becomes of a job once its origin answered or failed, and what is
/// stored of the answer.
///
/// A failure ends the job with `404` and the failure's message. `304` for a
/// job with a cached body ends it with `200` and that body. Any other answer is
/// offered to the cache store; where it redirects, names a target and fewer
/// than `MAX_REDIRECTS` redirects were followed, the job goes on to that target,
/// else the answer is the response.
pub open spec fn origin_step(pending: PendingOriginView, outcome: OriginOutcomeView) -> (
    Option<StorePlanView>,
    StepView,
) {
    let job = pending.job;
    match outcome {
        OriginOutcomeView::Failed(message) => (None, refusal(404, message)),
        OriginOutcomeView::Replied(response) => {
            if response.status == 304 && pending.cached is Some {
                (
                    None,
                    StepView::Respond {
                        response: ResponseView {
                            status: 200,
                            headers: Seq::empty(),
                            body: body_of(pending.cached),
                        },
                        log: Some(log_of(job, 200)),
                    },
                )
            } else {
                let next = if is_redirect(response.status) && job.hops < MAX_REDIRECTS
                    && location_of(response.headers) is Some {
                    StepView::Redirect {
                        job: JobView {
                            request: job.request,
                            url: job.url,
                            hops: (job.hops + 1) as usize,
                            target: location_of(response.headers)->0,
                        },
                    }
                } else {
                    StepView::Respond { response, log: Some(log_of(job, response.status)) }
                };
                (stored(response, job.target.text), next)
            }
        },
    }
}

/// Starts or continues a job: checks the blacklist, then the cache store, as
/// `forward_step` says.
pub fn send_request(job: Job, blacklist: &Blacklist, cache: &CacheStore) -> (step: Step)
    ensures
        step@ == forward_step(job@, blacklist@, cache@),
{
    if blacklist.is_blacklisted(job.target.text.as_str()) {
        return Step::Respond {
            response: make_error_response(403, "This site is blacklisted"),
            log: None,
        };
    }
    match cache.check_cache_hit(job.target.text.as_str()) {
        Some((entry, file)) => Step::ReadBlob { file, pending: PendingBlob { job, entry } },
        None => forward(job, None),
    }
}

/// Builds the request for the origin, as `send_step` says.
fn forward(job: Job, cached: Option<(CachedEntry, Vec<u8>)>) -> (step: Step)
    ensures
        step@ == send_step(job@, cached_view(cached)),
{
    let built = match &cached {
        Some(pair) => create_request(&job.request, &job.target, Some(&pair.0)),
        None => create_request(&job.request, &job.target, None),
    };
    match built {
        Ok(outbound) => {
            let address = origin_address(&job.target);
            Step::Forward { address, outbound, pending: PendingOrigin { job, cached } }
        },
        Err(e) => Step::Respond {
            response: make_error_response(404, e.message().as_str()),
            log: None,
        },
    }
}

/// Goes on with a job whose blob was read: `blob` is what the file held,
/// `None` where it could not be read.
pub fn on_blob(pending: PendingBlob, blob: Option<Vec<u8>>) -> (step: Step)
    ensures
        step@ == blob_step(
            pending@,
            match blob {
                Some(body) => Some(body@),
                None => None,
            },
        ),
{
    let PendingBlob { job, entry } = pending;
    match blob {
        Some(body) => forward(job, Some((entry, body))),
        None => forward(job, None),
    }
}

/// Takes a request as it arrives, as `begin_step` says. `server` is the
/// proxy's own address as it stands at the start of a referer.
pub fn handle_connection(
    request: ProxyRequest,
    server: &str,
    blacklist: &Blacklist,
    cache: &CacheStore,
) -> (step: Step)
    ensures
        step@ == begin_step(request@, server@, blacklist@, cache@),
{
    match classify_method(request.method.as_str()) {
        Method::Connect => Step::Respond {
            response: make_error_response(407, "HTTPS is not supported"),
            log: None,
        },
        Method::Other => {
            let response = Response { status: 404, headers: Vec::new(), body: Vec::new() };
            assert(header_views(response.headers@) =~= Seq::empty());
            Step::Respond { response, log: None }
        },
        _ => {
            let url = match find_header(&request.headers, "referer") {
                Some(value) => {
                    let referer = text_of_value(value);
                    resolve_target(request.uri.as_str(), Some(referer.as_str()), server)
                },
                None => resolve_target(request.uri.as_str(), None, server),
            };
            match parse_uri(url.as_str()) {
                Some(target) => {
                    let url = target.text.clone();
                    send_request(Job { request, url, hops: 0, target }, blacklist, cache)
                },
                None => Step::Respond {
                    response: make_error_response(404, "Invalid request target"),
                    log: None,
                },
            }
        },
    }
}

/// Goes on with a job whose origin answered or failed, as `origin_step` says.
/// The first part of the result is what the caller stores before it takes the
/// step: it writes the plan's body to the plan's file and then records the plan
/// in the cache store.
pub fn on_origin(pending: PendingOrigin, outcome: OriginOutcome) -> (r: (Option<StorePlan>, Step))
    ensures
        match r.0 {
            Some(plan) => Some(plan@),
            None => None,
        } == origin_step(pending@, outcome@).0,
        r.1@ == origin_step(pending@, outcome@).1,
{
    let PendingOrigin { job, cached } = pending;
    let response = match outcome {
        OriginOutcome::Failed(message) => {
            return (
                None,
                Step::Respond { response: make_error_response(404, message.as_str()), log: None },
            );
        },
        OriginOutcome::Replied(response) => response,
    };
    if response.status == 304 {
        match cached {
            Some((_entry, body)) => {
                let fresh = Response { status: 200, headers: Vec::new(), body };
                assert(header_views(fresh.headers@) =~= Seq::empty());
                let log = LogRecord {
                    method: job.request.method.clone(),
                    status: 200,
                    url: job.url.clone(),
                };
                return (None, Step::Respond { response: fresh, log: Some(log) });
            },
            None => {},
        }
    }
    let plan = match put_in_cache(&response.headers, job.target.text.as_str(), &response.body) {
        Ok(plan) => plan,
        Err(_) => None,
    };
    if (response.status == 301 || response.status == 302) && job.hops < MAX_REDIRECTS {
        match find_header(&response.headers, "location") {
            Some(value) => {
                let location = text_of_value(value);
                match parse_uri(location.as_str()) {
                    Some(target) => {
                        let Job { request, url, hops, target: _ } = job;
                        let next = Job { request, url, hops: hops + 1, target };
                        return (plan, Step::Redirect { job: next });
                    },
                    None => {},
                }
            },
            None => {},
        }
    }
    let log = LogRecord {
        method: job.request.method.clone(),
        status: response.status,
        url: job.url.clone(),
    };
    (plan, Step::Respond { response, log: Some(log) })
}

/// A job for a blacklisted URL ends with `403` at once: no blob is read and
/// nothing is sent to an origin, whatever the cache store holds.
pub proof fn lemma_blacklisted_is_refused(
    job: JobView,
    banned: Set<Seq<char>>,
    entries: Map<Seq<char>, CachedEntryView>,
)
    requires
        blacklisted(banned, job.target.text),
    ensures
        forward_step(job, banned, entries) == refusal(403, "This site is blacklisted"@),
        refusal(403, "This site is blacklisted"@) matches StepView::Respond { response, log }
            && response.status == 403 && log is None,
{
}

/// Nothing is read or sent for a blacklisted URL: a job that has a blob read or
/// a request forwarded was found clear of the blacklist, and it is that job
/// which goes on.
pub proof fn lemma_only_cleared_urls_are_fetched(
    job: JobView,
    banned: Set<Seq<char>>,
    entries: Map<Seq<char>, CachedEntryView>,
)
    ensures
        forward_step(job, banned, entries) is Respond || !blacklisted(banned, job.target.text),
        forward_step(job, banned, entries) !is Redirect,
        forward_step(job, banned, entries) is ReadBlob ==> forward_step(
            job,
            banned,
            entries,
        )->ReadBlob_pending.job == job,
        forward_step(job, banned, entries) is Forward ==> forward_step(
            job,
            banned,
            entries,
        )->Forward_pending == (PendingOriginView { job, cached: None }),
{
}

/// A `GET` or `POST` request whose target resolves to a blacklisted URL is
/// answered with `403`, and no origin is contacted for it.
pub proof fn lemma_blacklisted_request_is_refused(
    request: ProxyRequestView,
    server: Seq<char>,
    banned: Set<Seq<char>>,
    entries: Map<Seq<char>, CachedEntryView>,
)
    requires
        method_of(request.method) == Method::Get || method_of(request.method) == Method::Post,
        target_of(resolved(request.uri, referer_of(request.headers), server)) matches Some(target)
            && blacklisted(banned, target.text),
    ensures
        begin_step(request, server, banned, entries) == refusal(403, "This site is blacklisted"@),
{
}

/// An answer that carries both validators, with a tag that is fit for a file
/// name, is stored under the job's URL, unless it is a `304` that confirms a
/// cached body. Once the plan's blob is written and the plan is recorded, a
/// lookup of that URL finds the stored metadata and the answer's body.
pub proof fn lemma_fresh_answer_is_cached(
    pending: PendingOriginView,
    response: ResponseView,
    entries: Map<Seq<char>, CachedEntryView>,
    blobs: crate::cache::Blobs,
)
    requires
        !(response.status == 304 && pending.cached is Some),
        crate::cache::is_storable(response.headers),
        crate::cache::etag_is_safe(crate::cache::entry_of(response.headers).etag),
    ensures
        origin_step(pending, OriginOutcomeView::Replied(response)).0 is Some,
        ({
            let plan = origin_step(pending, OriginOutcomeView::Replied(response)).0->0;
            &&& plan.key == pending.job.target.text
            &&& plan.body == response.body
            &&& crate::cache::found(
                entries.insert(plan.key, plan.entry),
                blobs.insert(plan.file, plan.body),
                pending.job.target.text,
            ) == Some((crate::cache::entry_of(response.headers), response.body))
        }),
{
}

/// A job for a URL that has a cached entry and blob has that blob read and is
/// then sent to the origin with the entry's validators in `if-modified-since`
/// and `if-none-match`, the last two fields of the request. It holds of a URL
/// that is not blacklisted and of validators that can stand in a header value.
pub proof fn lemma_cached_url_is_revalidated(
    job: JobView,
    banned: Set<Seq<char>>,
    entries: Map<Seq<char>, CachedEntryView>,
    blobs: crate::cache::Blobs,
)
    requires
        !blacklisted(banned, job.target.text),
        crate::cache::found(entries, blobs, job.target.text) is Some,
        request_outcome(job.request, job.target, Some(entries[job.target.text])) is Ok,
    ensures
        ({
            let entry = entries[job.target.text];
            let file = crate::cache::blob_name(entry.etag);
            let pending = PendingBlobView { job, entry };
            let outbound = request_outcome(job.request, job.target, Some(entry))->Ok_0;
            &&& forward_step(job, banned, entries) == (StepView::ReadBlob { file, pending })
            &&& blobs.contains_key(file)
            &&& blob_step(pending, Some(blobs[file])) == (StepView::Forward {
                address: address_of(job.target),
                outbound,
                pending: PendingOriginView { job, cached: Some((entry, blobs[file])) },
            })
            &&& outbound.headers.len() >= 2
            &&& outbound.headers.skip(outbound.headers.len() - 2) == seq![
                HeaderView { name: "if-modified-since"@, value: encode_utf8(entry.last_modified) },
                HeaderView { name: "if-none-match"@, value: encode_utf8(entry.etag) },
            ]
        }),
{
    let entry = entries[job.target.text];
    let outbound = request_outcome(job.request, job.target, Some(entry))->Ok_0;
    assert(outbound.headers.skip(outbound.headers.len() - 2) =~= seq![
        HeaderView { name: "if-modified-since"@, value: encode_utf8(entry.last_modified) },
        HeaderView { name: "if-none-match"@, value: encode_utf8(entry.etag) },
    ]);
}

/// Where the origin answers `304` to a job with a cached body, the client gets
/// status `200` and exactly that body, and nothing is stored.
pub proof fn lemma_not_modified_serves_cached_body(
    pending: PendingOriginView,
    response: ResponseView,
)
    requires
        response.status == 304,
        pending.cached is Some,
    ensures
        origin_step(pending, OriginOutcomeView::Replied(response)).0 is None,
        origin_step(pending, OriginOutcomeView::Replied(response)).1 == (StepView::Respond {
            response: ResponseView {
                status: 200,
                headers: Seq::empty(),
                body: body_of(pending.cached),
            },
            log: Some(log_of(pending.job, 200)),
        }),
{
}

/// Redirects are counted and bounded: a job that goes on to another target
/// carries the same request, has followed one redirect more, and never more
/// than `MAX_REDIRECTS`.
pub proof fn lemma_redirects_are_bounded(pending: PendingOriginView, outcome: OriginOutcomeView)
    requires
        origin_step(pending, outcome).1 is Redirect,
    ensures
        ({
            let job = origin_step(pending, outcome).1->job;
            &&& job.hops == pending.job.hops + 1
            &&& job.hops <= MAX_REDIRECTS
            &&& job.request == pending.job.request
            &&& job.url == pending.job.url
        }),
{
}

/// A job that has followed `MAX_REDIRECTS` redirects ends with the origin's
/// answer as it is, a redirect too: the chain is not followed further and is no
/// error.
pub proof fn lemma_last_answer_is_final(pending: PendingOriginView, response: ResponseView)
    requires
        pending.job.hops >= MAX_REDIRECTS,
        !(response.status == 304 && pending.cached is Some),
    ensures
        origin_step(pending, OriginOutcomeView::Replied(response)).1 == (StepView::Respond {
            response,
            log: Some(log_of(pending.job, response.status)),
        }),
{
}

/// The redirects that a job may still follow.
pub open spec fn redirects_left(job: JobView) -> nat {
    if job.hops < MAX_REDIRECTS {
        (MAX_REDIRECTS - job.hops) as nat
    } else {
        0
    }
}

/// The most steps that can still follow `step` before the client gets its
/// response.
pub open spec fn steps_left(step: StepView) -> nat {
    match step {
        StepView::Redirect { job } => 3 * redirects_left(job) + 3,
        StepView::ReadBlob { pending, .. } => 3 * redirects_left(pending.job) + 2,
        StepView::Forward { pending, .. } => 3 * redirects_left(pending.job) + 1,
        StepView::Respond { .. } => 0,
    }
}

/// Every request comes to its response: whatever the blacklist, the cache
/// store, the blob files and the origins do, each step leaves fewer steps to
/// take than the one before it. A request is forwarded at most once more than
/// `MAX_REDIRECTS` times.
pub proof fn lemma_each_step_nears_the_response(
    step: StepView,
    banned: Set<Seq<char>>,
    entries: Map<Seq<char>, CachedEntryView>,
    blob: Option<Seq<u8>>,
    outcome: OriginOutcomeView,
)
    ensures
        step matches StepView::Redirect { job } ==> steps_left(forward_step(job, banned, entries))
            < steps_left(step),
        step matches StepView::ReadBlob { pending, .. } ==> steps_left(blob_step(pending, blob))
            < steps_left(step),
        step matches StepView::Forward { pending, .. } ==> steps_left(
            origin_step(pending, outcome).1,
        ) < steps_left(step),
        steps_left(step) <= 3 * MAX_REDIRECTS + 3,
{
}

/// A request as it arrives is at most `3 * MAX_REDIRECTS + 2` steps from its
/// response.
pub proof fn lemma_first_step_is_bounded(
    request: ProxyRequestView,
    server: Seq<char>,
    banned: Set<Seq<char>>,
    entries: Map<Seq<char>, CachedEntryView>,
)
    ensures
        steps_left(begin_step(request, server, banned, entries)) <= 3 * MAX_REDIRECTS + 2,
        begin_step(request, server, banned, entries) !is Redirect,
{
}

} // verus!
