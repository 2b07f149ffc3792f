//! What the proxy decides about a request: whether it is let through, what is sent
//! upstream, and what is answered.
//!
//! A request goes through three decisions. [`ProxyState::receive`] looks at its head and
//! either answers it at once or gives the route to the upstream service;
//! [`Route::request`] takes the body that was read and gives the request to send;
//! [`relay`] and [`Route::unreachable`] turn what came back into the answer. Reading and
//! sending is up to the caller.
//!
//! Header names are held in lower case, as HTTP libraries hand them out.

use vstd::prelude::*;

use crate::config::Config;
#[allow(unused_imports)]
use crate::config::ConfigView;
use crate::json::{quote, strip_unsupported};
#[allow(unused_imports)]
use crate::json::{
    has_member, has_unsupported, json_members, quoted, quoted_told_apart, stripped, supported,
    supported_stays,
};
use crate::text::{
    copy_texts, decimal_text, join, list_has, same_text, strip_prefix, trim_end_slashes,
};
#[allow(unused_imports)]
use crate::text::{
    after_prefix, decimal, end_slashes_gone, only_prefix_comes_off, opt_text, texts,
    without_end_slashes,
};
use vstd::slice::slice_to_vec;
#[allow(unused_imports)]
use vstd::utf8::{
    encode_utf8, encode_utf8_decode_utf8, is_ascii_chars, is_ascii_chars_encode_utf8,
};

verus! {

/// The largest request body, in bytes, that is read before a request is forwarded.
pub const MAX_BODY_BYTES: usize = 67_108_864;

/// A header of a request or of an answer.
#[derive(Debug)]
pub struct Header {
    pub name: String,
    pub value: Vec<u8>,
}

/// A header as mathematical values.
pub struct HeaderView {
    pub name: Seq<char>,
    pub value: Seq<u8>,
}

impl View for Header {
    type V = HeaderView;

    open spec fn view(&self) -> HeaderView {
        HeaderView { name: self.name@, value: self.value@ }
    }
}

/// The headers that a list holds.
pub open spec fn headers_of(list: Seq<Header>) -> Seq<HeaderView> {
    list.map_values(|h: Header| h@)
}

/// A header whose value is a text.
pub open spec fn text_header(name: Seq<char>, value: Seq<char>) -> HeaderView {
    HeaderView { name, value: encode_utf8(value) }
}

/// An answer that the proxy gives by itself.
#[derive(Debug)]
pub struct Reply {
    pub status: u16,
    pub headers: Vec<Header>,
    pub body: Vec<u8>,
}

/// An answer as mathematical values.
pub struct ReplyView {
    pub status: u16,
    pub headers: Seq<HeaderView>,
    pub body: Seq<u8>,
}

impl View for Reply {
    type V = ReplyView;

    open spec fn view(&self) -> ReplyView {
        ReplyView { status: self.status, headers: headers_of(self.headers@), body: self.body@ }
    }
}

/// The status and the headers of an answer whose body is streamed from upstream.
#[derive(Debug)]
pub struct ReplyHead {
    pub status: u16,
    pub headers: Vec<Header>,
}

/// The head of a request.
#[derive(Debug)]
pub struct RequestHead {
    pub method: String,
    /// The path with the query, where the request has one.
    pub path_and_query: Option<String>,
    pub headers: Vec<Header>,
}

/// The head of a request as mathematical values.
pub struct RequestHeadView {
    pub method: Seq<char>,
    pub path_and_query: Option<Seq<char>>,
    pub headers: Seq<HeaderView>,
}

impl View for RequestHead {
    type V = RequestHeadView;

    open spec fn view(&self) -> RequestHeadView {
        RequestHeadView {
            method: self.method@,
            path_and_query: opt_text(self.path_and_query),
            headers: headers_of(self.headers@),
        }
    }
}

/// The way of an admitted request to the upstream service.
#[derive(Debug)]
pub struct Route {
    pub method: String,
    /// The URL to send the request to.
    pub url: String,
    /// The headers of the request as it came in.
    pub headers: Vec<Header>,
    /// The base URL of the upstream service, as it is set.
    pub upstream: String,
}

/// A route as mathematical values.
pub struct RouteView {
    pub method: Seq<char>,
    pub url: Seq<char>,
    pub headers: Seq<HeaderView>,
    pub upstream: Seq<char>,
}

impl View for Route {
    type V = RouteView;

    open spec fn view(&self) -> RouteView {
        RouteView {
            method: self.method@,
            url: self.url@,
            headers: headers_of(self.headers@),
            upstream: self.upstream@,
        }
    }
}

/// A request to send upstream.
#[derive(Debug)]
pub struct UpstreamRequest {
    pub method: String,
    pub url: String,
    pub headers: Vec<Header>,
    pub body: Vec<u8>,
}

/// A request to send upstream, as mathematical values.
pub struct UpstreamRequestView {
    pub method: Seq<char>,
    pub url: Seq<char>,
    pub headers: Seq<HeaderView>,
    pub body: Seq<u8>,
}

impl View for UpstreamRequest {
    type V = UpstreamRequestView;

    open spec fn view(&self) -> UpstreamRequestView {
        UpstreamRequestView {
            method: self.method@,
            url: self.url@,
            headers: headers_of(self.headers@),
            body: self.body@,
        }
    }
}

/// What becomes of a request once its head is known.
#[derive(Debug)]
pub enum Admission {
    /// It is answered at once.
    Answer(Reply),
    /// Its body is read, and it is forwarded.
    Forward(Route),
}

/// An admission as mathematical values.
pub enum AdmissionView {
    Answer(ReplyView),
    Forward(RouteView),
}

impl View for Admission {
    type V = AdmissionView;

    open spec fn view(&self) -> AdmissionView {
        match self {
            Admission::Answer(reply) => AdmissionView::Answer(reply@),
            Admission::Forward(route) => AdmissionView::Forward(route@),
        }
    }
}

/// The settings that a running proxy works with.
#[derive(Debug)]
pub struct ProxyState {
    pub upstream_url: String,
    pub tokens: Vec<String>,
    pub require_auth: bool,
}

/// The settings of a running proxy as mathematical values.
pub struct ProxyStateView {
    pub upstream_url: Seq<char>,
    pub tokens: Seq<Seq<char>>,
    pub require_auth: bool,
}

impl View for ProxyState {
    type V = ProxyStateView;

    open spec fn view(&self) -> ProxyStateView {
        ProxyStateView {
            upstream_url: self.upstream_url@,
            tokens: texts(self.tokens@),
            require_auth: self.require_auth,
        }
    }
}

// ── Answers ──────────────────────────────────────────────────────────────────

/// The headers by which every origin may use what is answered.
pub open spec fn cors_headers() -> Seq<HeaderView> {
    seq![
        text_header("access-control-allow-origin"@, "*"@),
        text_header("access-control-allow-headers"@, "authorization, content-type"@),
        text_header("access-control-allow-methods"@, "GET, POST, PUT, DELETE, OPTIONS"@),
    ]
}

/// The answer to a preflight request.
pub open spec fn preflight() -> ReplyView {
    ReplyView {
        status: 200,
        headers: cors_headers().push(text_header("access-control-max-age"@, "86400"@)),
        body: Seq::empty(),
    }
}

/// The JSON text that reports an error.
pub open spec fn error_text(code: Seq<char>, message: Seq<char>) -> Seq<char> {
    "{\"error\":{\"code\":"@ + quoted(code) + ",\"message\":"@ + quoted(message)
        + ",\"type\":\"invalid_request_error\"}}"@
}

/// The answer that reports an error.
pub open spec fn error_reply(status: u16, code: Seq<char>, message: Seq<char>) -> ReplyView {
    ReplyView {
        status,
        headers: seq![
            text_header("content-type"@, "application/json"@),
            text_header("access-control-allow-origin"@, "*"@),
        ],
        body: encode_utf8(error_text(code, message)),
    }
}

/// The answer to a request that carries no valid token.
pub open spec fn refusal() -> ReplyView {
    error_reply(
        401,
        "invalid_api_key"@,
        "Invalid or missing API key. Provide a valid sk-... token."@,
    )
}

/// The answer where there is no upstream URL, which is so while no model is served.
pub open spec fn no_model() -> ReplyView {
    error_reply(503, "no_model_loaded"@, "No model loaded"@)
}

/// The answer to a request whose body could not be read.
pub open spec fn body_failure() -> ReplyView {
    error_reply(400, "bad_request"@, "Failed to read request body"@)
}

/// The answer where the upstream service could not be reached.
pub open spec fn upstream_failure(upstream: Seq<char>, error: Seq<char>) -> ReplyView {
    error_reply(
        502,
        "upstream_error"@,
        "Cannot reach Foundry Local at "@ + upstream + ": "@ + error,
    )
}

fn header(name: &str, value: &str) -> (r: Header)
    ensures
        r@ == text_header(name@, value@),
{
    Header { name: name.to_owned(), value: value.as_bytes_vec() }
}

/// Adds the headers by which every origin may use what is answered.
fn push_cors_headers(headers: &mut Vec<Header>)
    ensures
        headers_of(final(headers)@) == headers_of(old(headers)@) + cors_headers(),
{
    let ghost before = headers_of(headers@);
    headers.push(header("access-control-allow-origin", "*"));
    headers.push(header("access-control-allow-headers", "authorization, content-type"));
    headers.push(header("access-control-allow-methods", "GET, POST, PUT, DELETE, OPTIONS"));
    proof {
        assert(headers_of(headers@) =~= before + cors_headers());
    }
}

fn preflight_response() -> (r: Reply)
    ensures
        r@ == preflight(),
{
    let mut headers: Vec<Header> = Vec::new();
    push_cors_headers(&mut headers);
    headers.push(header("access-control-max-age", "86400"));
    let r = Reply { status: 200, headers, body: Vec::new() };
    proof {
        assert(r@.headers =~= preflight().headers);
    }
    r
}

/// Builds the answer that reports an error.
pub fn error_response(status: u16, code: &str, message: &str) -> (r: Reply)
    ensures
        r@ == error_reply(status, code@, message@),
{
    let mut text = "{\"error\":{\"code\":".to_owned();
    text.append(quote(code).as_str());
    text.append(",\"message\":");
    text.append(quote(message).as_str());
    text.append(",\"type\":\"invalid_request_error\"}}");
    let mut headers: Vec<Header> = Vec::new();
    headers.push(header("content-type", "application/json"));
    headers.push(header("access-control-allow-origin", "*"));
    let r = Reply { status, headers, body: text.as_str().as_bytes_vec() };
    proof {
        assert(r@.headers =~= error_reply(status, code@, message@).headers);
    }
    r
}

// ── Admission ────────────────────────────────────────────────────────────────

/// The value of the first header of that name.
pub open spec fn first_value(headers: Seq<HeaderView>, name: Seq<char>) -> Option<Seq<u8>>
    decreases headers.len(),
{
    if headers.len() == 0 {
        None
    } else if headers[0].name == name {
        Some(headers[0].value)
    } else {
        first_value(headers.drop_first(), name)
    }
}

/// Whether a byte is visible ASCII, a space or a tab.
pub open spec fn is_visible(b: u8) -> bool {
    32 <= b <= 126 || b == 9
}

/// The text of a header value, or `None` where it holds anything but visible ASCII, spaces
/// and tabs.
pub open spec fn value_text(value: Seq<u8>) -> Option<Seq<char>> {
    if forall|i: int| 0 <= i < value.len() ==> is_visible(#[trigger] value[i]) {
        Some(Seq::new(value.len(), |i: int| value[i] as char))
    } else {
        None
    }
}

/// The bearer token that a request carries.
pub open spec fn bearer_token(headers: Seq<HeaderView>) -> Option<Seq<char>> {
    match first_value(headers, "authorization"@) {
        Some(value) => match value_text(value) {
            Some(text) => after_prefix(text, "Bearer "@),
            None => None,
        },
        None => None,
    }
}

impl ProxyStateView {
    /// The settings that a proxy started with `config` works with.
    pub open spec fn of(config: ConfigView) -> ProxyStateView {
        ProxyStateView {
            upstream_url: config.upstream_url,
            tokens: config.tokens,
            require_auth: config.require_auth,
        }
    }

    /// Whether a request with these headers is let through.
    pub open spec fn authorizes(self, headers: Seq<HeaderView>) -> bool {
        self.require_auth ==> (bearer_token(headers) matches Some(token) && self.tokens.contains(
            token,
        ))
    }

    /// The URL that a request for `path_and_query` is forwarded to.
    pub open spec fn target(self, path_and_query: Option<Seq<char>>) -> Seq<char> {
        without_end_slashes(self.upstream_url) + (match path_and_query {
            Some(p) => p,
            None => "/"@,
        })
    }

    /// What becomes of a request.
    pub open spec fn admission(self, head: RequestHeadView) -> AdmissionView {
        if head.method == "OPTIONS"@ {
            AdmissionView::Answer(preflight())
        } else if !self.authorizes(head.headers) {
            AdmissionView::Answer(refusal())
        } else if self.upstream_url.len() == 0 {
            AdmissionView::Answer(no_model())
        } else {
            AdmissionView::Forward(
                RouteView {
                    method: head.method,
                    url: self.target(head.path_and_query),
                    headers: head.headers,
                    upstream: self.upstream_url,
                },
            )
        }
    }
}

/// Finds the value of the first header of that name.
fn find_header<'a>(headers: &'a Vec<Header>, name: &str) -> (r: Option<&'a Vec<u8>>)
    ensures
        (match r {
            Some(v) => Some(v@),
            None => None,
        }) == first_value(headers_of(headers@), name@),
{
    let mut i: usize = 0;
    proof {
        assert(headers_of(headers@).skip(0) =~= headers_of(headers@));
    }
    while i < headers.len()
        invariant
            i <= headers@.len(),
            first_value(headers_of(headers@), name@) == first_value(
                headers_of(headers@).skip(i as int),
                name@,
            ),
        decreases headers@.len() - i,
    {
        proof {
            let rest = headers_of(headers@).skip(i as int);
            assert(rest[0] == headers@[i as int]@);
            assert(rest.drop_first() =~= headers_of(headers@).skip(i + 1));
        }
        if same_text(headers[i].name.as_str(), name) {
            return Some(&headers[i].value);
        }
        i = i + 1;
    }
    None
}

/// Reads a header value as text.
pub fn header_text(value: &Vec<u8>) -> (r: Option<String>)
    ensures
        opt_text(r) == value_text(value@),
{
    let mut text = String::new();
    let mut i: usize = 0;
    while i < value.len()
        invariant
            i <= value@.len(),
            text@.len() == i,
            forall|j: int| 0 <= j < i ==> is_visible(#[trigger] value@[j]),
            forall|j: int| 0 <= j < i ==> #[trigger] text@[j] == value@[j] as char,
        decreases value@.len() - i,
    {
        let b = value[i];
        if !((32 <= b && b <= 126) || b == 9) {
            proof {
                assert(!is_visible(value@[i as int]));
            }
            return None;
        }
        text.push(b as char);
        i = i + 1;
    }
    proof {
        assert(text@ =~= Seq::new(value@.len(), |j: int| value@[j] as char));
    }
    Some(text)
}

/// Reads the bearer token that a request carries.
pub fn token_of(headers: &Vec<Header>) -> (r: Option<String>)
    ensures
        opt_text(r) == bearer_token(headers_of(headers@)),
{
    match find_header(headers, "authorization") {
        Some(value) => match header_text(value) {
            Some(text) => strip_prefix(text.as_str(), "Bearer "),
            None => None,
        },
        None => None,
    }
}

impl ProxyState {
    /// The settings for a proxy that is started with `config`; later changes of `config`
    /// do not reach it.
    pub fn new(config: &Config) -> (r: ProxyState)
        ensures
            r@ == ProxyStateView::of(config@),
    {
        ProxyState {
            upstream_url: config.upstream_url.clone(),
            tokens: copy_texts(&config.tokens),
            require_auth: config.require_auth,
        }
    }

    /// Whether a request with these headers is let through.
    pub fn is_authorized(&self, headers: &Vec<Header>) -> (r: bool)
        ensures
            r == self@.authorizes(headers_of(headers@)),
    {
        if !self.require_auth {
            return true;
        }
        match token_of(headers) {
            Some(token) => list_has(&self.tokens, token.as_str()),
            None => false,
        }
    }

    /// Decides what becomes of a request: a preflight request is answered, a request
    /// without a valid token is refused where tokens are required, and every other one is
    /// forwarded where there is an upstream URL to forward it to.
    pub fn receive(&self, head: RequestHead) -> (r: Admission)
        ensures
            r@ == self@.admission(head@),
            r matches Admission::Forward(route) ==> {
                let path = match head.path_and_query {
                    Some(p) => p@,
                    None => "/"@,
                };
                let n = route.url@.len() - path.len();
                &&& 0 <= n <= self.upstream_url@.len()
                &&& route.url@.skip(n) == path
                &&& route.url@.take(n) == self.upstream_url@.take(n)
                &&& forall|k: int|
                    n <= k < self.upstream_url@.len() ==> (#[trigger] self.upstream_url@[k]) == '/'
                &&& route.method == head.method
                &&& route.headers == head.headers
                &&& route.upstream@ == self.upstream_url@
            },
    {
        proof {
            reveal_strlit("/");
            assert("/"@ =~= seq!['/']);
            request_goes_to_its_path(
                self@,
                head@,
                match head@.path_and_query {
                    Some(p) => p,
                    None => "/"@,
                },
            );
        }
        if same_text(head.method.as_str(), "OPTIONS") {
            return Admission::Answer(preflight_response());
        }
        if !self.is_authorized(&head.headers) {
            return Admission::Answer(
                error_response(
                    401,
                    "invalid_api_key",
                    "Invalid or missing API key. Provide a valid sk-... token.",
                ),
            );
        }
        if self.upstream_url.as_str().is_empty() {
            return Admission::Answer(error_response(503, "no_model_loaded", "No model loaded"));
        }
        let base = trim_end_slashes(self.upstream_url.as_str());
        let url = match &head.path_and_query {
            Some(p) => join(base.as_str(), p.as_str()),
            None => join(base.as_str(), "/"),
        };
        Admission::Forward(
            Route {
                method: head.method,
                url,
                headers: head.headers,
                upstream: self.upstream_url.clone(),
            },
        )
    }
}

/// The text that tells why the proxy could not listen on an address.
pub open spec fn bind_failure_text(addr: Seq<char>, error: Seq<char>) -> Seq<char> {
    "Failed to bind "@ + addr + ": "@ + error
}

/// The text that tells why the proxy could not go on serving.
pub open spec fn serve_failure_text(error: Seq<char>) -> Seq<char> {
    "Server error: "@ + error
}

/// Why the proxy could not listen on an address.
pub fn bind_failure(addr: &str, error: &str) -> (r: String)
    ensures
        r@ == bind_failure_text(addr@, error@),
{
    let mut r = join("Failed to bind ", addr);
    r.append(": ");
    r.append(error);
    r
}

/// Why the proxy could not go on serving.
pub fn serve_failure(error: &str) -> (r: String)
    ensures
        r@ == serve_failure_text(error@),
{
    join("Server error: ", error)
}

// ── Forwarding ───────────────────────────────────────────────────────────────

/// The characters that a method may hold.
pub open spec fn is_token_char(c: char) -> bool {
    ||| '0' <= c <= '9'
    ||| 'A' <= c <= 'Z'
    ||| 'a' <= c <= 'z'
    ||| c == '!'
    ||| '#' <= c <= '\''
    ||| c == '*'
    ||| c == '+'
    ||| c == '-'
    ||| c == '.'
    ||| '^' <= c <= '`'
    ||| c == '|'
    ||| c == '~'
}

/// Whether a text is an HTTP method: not empty, and of token characters only.
pub open spec fn is_method(s: Seq<char>) -> bool {
    s.len() > 0 && forall|i: int| 0 <= i < s.len() ==> is_token_char(#[trigger] s[i])
}

/// Calls `reqwest::Method::from_bytes` and takes the text of the method that comes out,
/// which is the one that went in. It fails on what is no method.
#[verifier::external_body]
fn parse_method(s: &str) -> (r: Option<String>)
    ensures
        opt_text(r) == (if is_method(s@) {
            Some(s@)
        } else {
            None
        }),
{
    match reqwest::Method::from_bytes(s.as_bytes()) {
        Ok(m) => Some(m.as_str().to_owned()),
        Err(_) => None,
    }
}

/// Whether a header is passed on to the upstream service.
pub open spec fn is_forwarded(h: HeaderView) -> bool {
    h.name != "authorization"@ && h.name != "host"@
}

/// The headers that are passed on to the upstream service, in their order.
pub open spec fn forwarded(headers: Seq<HeaderView>) -> Seq<HeaderView> {
    headers.filter(|h: HeaderView| is_forwarded(h))
}

/// A header of a request whose body has become `length` bytes long.
pub open spec fn with_length(h: HeaderView, length: nat) -> HeaderView {
    if h.name == "content-length"@ {
        text_header(h.name, decimal(length))
    } else {
        h
    }
}

impl RouteView {
    /// The request that is sent upstream with a body; `changed` says that this is not the
    /// body that came in.
    pub open spec fn sent_with(self, body: Seq<u8>, changed: bool) -> UpstreamRequestView {
        UpstreamRequestView {
            method: if is_method(self.method) {
                self.method
            } else {
                "GET"@
            },
            url: self.url,
            headers: if changed {
                forwarded(self.headers).map_values(|h: HeaderView| with_length(h, body.len()))
            } else {
                forwarded(self.headers)
            },
            body,
        }
    }

    /// The request that is sent upstream for a body that came in.
    pub open spec fn sent(self, body: Seq<u8>) -> UpstreamRequestView {
        self.sent_with(stripped(body), has_unsupported(body))
    }
}

/// Picks the headers that are passed on to the upstream service.
pub fn keep_forwarded(headers: &Vec<Header>) -> (r: Vec<Header>)
    ensures
        headers_of(r@) == forwarded(headers_of(headers@)),
{
    let ghost all = headers_of(headers@);
    let ghost keep = |h: HeaderView| is_forwarded(h);
    let mut r: Vec<Header> = Vec::new();
    let mut i: usize = 0;
    proof {
        assert(all.take(0).filter(keep) =~= Seq::empty()) by {
            reveal(Seq::filter);
        }
        assert(headers_of(r@) =~= Seq::empty());
    }
    while i < headers.len()
        invariant
            i <= headers@.len(),
            all == headers_of(headers@),
            keep == (|h: HeaderView| is_forwarded(h)),
            headers_of(r@) == all.take(i as int).filter(keep),
        decreases headers@.len() - i,
    {
        let ghost before = r@;
        proof {
            reveal(Seq::filter);
            assert(all.take(i + 1).drop_last() =~= all.take(i as int));
            assert(all.take(i + 1).last() == headers@[i as int]@);
        }
        let name = headers[i].name.as_str();
        if !same_text(name, "authorization") && !same_text(name, "host") {
            r.push(copy_header(&headers[i]));
            proof {
                assert(headers_of(r@) =~= headers_of(before).push(headers@[i as int]@));
            }
        }
        i = i + 1;
    }
    proof {
        assert(all.take(i as int) =~= all);
    }
    r
}

fn copy_header(h: &Header) -> (r: Header)
    ensures
        r@ == h@,
{
    Header { name: h.name.clone(), value: slice_to_vec(h.value.as_slice()) }
}

/// Makes the length in the headers that of the body.
fn set_length(headers: &Vec<Header>, length: usize) -> (r: Vec<Header>)
    ensures
        headers_of(r@) == headers_of(headers@).map_values(
            |h: HeaderView| with_length(h, length as nat),
        ),
{
    let mut r: Vec<Header> = Vec::new();
    let mut i: usize = 0;
    while i < headers.len()
        invariant
            i <= headers@.len(),
            r@.len() == i,
            forall|j: int| 0 <= j < i ==> (#[trigger] r@[j])@ == with_length(
                headers@[j]@,
                length as nat,
            ),
        decreases headers@.len() - i,
    {
        if same_text(headers[i].name.as_str(), "content-length") {
            let digits = decimal_text(length as u64);
            r.push(header("content-length", digits.as_str()));
        } else {
            r.push(copy_header(&headers[i]));
        }
        i = i + 1;
    }
    proof {
        assert(headers_of(r@) =~= headers_of(headers@).map_values(
            |h: HeaderView| with_length(h, length as nat),
        ));
    }
    r
}

impl Route {
    /// The request to send upstream for the body that was read, or the answer where it
    /// could not be read (`None`). The body that is sent reads as the body that was read,
    /// without the field that the upstream service does not understand.
    pub fn request(&self, body: Option<Vec<u8>>) -> (r: Result<UpstreamRequest, Reply>)
        ensures
            match body {
                Some(b) => r matches Ok(q) && q@ == self@.sent(b@) && json_members(q.body@) == (
                match json_members(b@) {
                    Some(list) => Some(supported(list)),
                    None => None,
                }) && !has_unsupported(q.body@),
                None => r matches Err(reply) && reply@ == body_failure(),
            },
    {
        let body = match body {
            Some(b) => b,
            None => {
                return Err(error_response(400, "bad_request", "Failed to read request body"));
            },
        };
        match strip_unsupported(body.as_slice()) {
            Some(out) => Ok(self.request_with(out, true)),
            None => {
                proof {
                    if let Some(list) = json_members(body@) {
                        supported_stays(list);
                    }
                }
                Ok(self.request_with(body, false))
            },
        }
    }

    /// The request to send upstream with this body; `changed` says that it is not the body
    /// that came in, so that the length in the headers is put right.
    pub fn request_with(&self, body: Vec<u8>, changed: bool) -> (r: UpstreamRequest)
        ensures
            r@ == self@.sent_with(body@, changed),
    {
        let method = match parse_method(self.method.as_str()) {
            Some(m) => m,
            None => "GET".to_owned(),
        };
        let kept = keep_forwarded(&self.headers);
        let headers = if changed {
            set_length(&kept, body.len())
        } else {
            kept
        };
        UpstreamRequest { method, url: self.url.clone(), headers, body }
    }

    /// The answer where sending upstream failed with `error`.
    pub fn unreachable(&self, error: &str) -> (r: Reply)
        ensures
            r@ == upstream_failure(self@.upstream, error@),
    {
        let mut message = join("Cannot reach Foundry Local at ", self.upstream.as_str());
        message.append(": ");
        message.append(error);
        error_response(502, "upstream_error", message.as_str())
    }
}

// ── Relaying ─────────────────────────────────────────────────────────────────

/// The status that is relayed: the one that came back, or 500 where that is none.
pub open spec fn relayed_status(status: u16) -> u16 {
    if 100 <= status <= 999 {
        status
    } else {
        500
    }
}

/// Whether a header of the upstream service is passed back. Those that belong to the
/// connection are not, nor those that the proxy sets itself.
pub open spec fn is_relayed(h: HeaderView) -> bool {
    &&& h.name != "transfer-encoding"@
    &&& h.name != "connection"@
    &&& h.name != "keep-alive"@
    &&& h.name != "access-control-allow-origin"@
    &&& h.name != "access-control-allow-headers"@
    &&& h.name != "access-control-allow-methods"@
}

/// The headers of the answer to a request that was forwarded.
pub open spec fn relayed(headers: Seq<HeaderView>) -> Seq<HeaderView> {
    headers.filter(|h: HeaderView| is_relayed(h)) + cors_headers()
}

fn passes_back(name: &str) -> (r: bool)
    ensures
        forall|h: HeaderView| h.name == name@ ==> r == #[trigger] is_relayed(h),
{
    !(same_text(name, "transfer-encoding") || same_text(name, "connection") || same_text(
        name,
        "keep-alive",
    ) || same_text(name, "access-control-allow-origin") || same_text(
        name,
        "access-control-allow-headers",
    ) || same_text(name, "access-control-allow-methods"))
}

/// The head of the answer to a request that was forwarded; the body that came back is
/// streamed after it.
pub fn relay(status: u16, headers: &Vec<Header>) -> (r: ReplyHead)
    ensures
        r.status == relayed_status(status),
        100 <= status <= 999 ==> r.status == status,
        status < 100 || status > 999 ==> r.status == 500,
        headers_of(r.headers@) == relayed(headers_of(headers@)),
{
    let ghost all = headers_of(headers@);
    let ghost keep = |h: HeaderView| is_relayed(h);
    let mut out: Vec<Header> = Vec::new();
    let mut i: usize = 0;
    proof {
        assert(all.take(0).filter(keep) =~= Seq::empty()) by {
            reveal(Seq::filter);
        }
        assert(headers_of(out@) =~= Seq::empty());
    }
    while i < headers.len()
        invariant
            i <= headers@.len(),
            all == headers_of(headers@),
            keep == (|h: HeaderView| is_relayed(h)),
            headers_of(out@) == all.take(i as int).filter(keep),
        decreases headers@.len() - i,
    {
        let ghost before = out@;
        proof {
            reveal(Seq::filter);
            assert(all.take(i + 1).drop_last() =~= all.take(i as int));
            assert(all.take(i + 1).last() == headers@[i as int]@);
        }
        let passes = passes_back(headers[i].name.as_str());
        assert(passes == is_relayed(headers@[i as int]@));
        if passes {
            out.push(copy_header(&headers[i]));
            proof {
                assert(headers_of(out@) =~= headers_of(before).push(headers@[i as int]@));
            }
        }
        i = i + 1;
    }
    proof {
        assert(all.take(i as int) =~= all);
    }
    push_cors_headers(&mut out);
    let status: u16 = if 100 <= status && status <= 999 {
        status
    } else {
        500
    };
    ReplyHead { status, headers: out }
}

// ── Laws ─────────────────────────────────────────────────────────────────────

/// A preflight request is answered as such whatever the settings are, with or without a
/// token.
pub proof fn preflight_needs_no_token(state: ProxyStateView, head: RequestHeadView)
    requires
        head.method == "OPTIONS"@,
    ensures
        state.admission(head) == AdmissionView::Answer(preflight()),
{
}

/// Where tokens are required, every request but a preflight request that does not carry
/// one of them is refused and never forwarded.
pub proof fn unknown_token_is_refused(state: ProxyStateView, head: RequestHeadView)
    requires
        state.require_auth,
        head.method != "OPTIONS"@,
        bearer_token(head.headers) matches Some(t) ==> !state.tokens.contains(t),
    ensures
        state.admission(head) == AdmissionView::Answer(refusal()),
        refusal().status == 401,
{
}

/// Where tokens are required and there are none, every request but a preflight request is
/// refused.
pub proof fn no_tokens_refuse_all(state: ProxyStateView, head: RequestHeadView)
    requires
        state.require_auth,
        state.tokens.len() == 0,
        head.method != "OPTIONS"@,
    ensures
        state.admission(head) == AdmissionView::Answer(refusal()),
{
}

/// While there is no upstream URL, no request is forwarded: one that would be let through is
/// told that no model is loaded.
pub proof fn nothing_is_forwarded_without_url(state: ProxyStateView, head: RequestHeadView)
    requires
        state.upstream_url.len() == 0,
    ensures
        state.admission(head) is Answer,
        head.method != "OPTIONS"@ && state.authorizes(head.headers) ==> state.admission(head)
            == AdmissionView::Answer(no_model()),
        no_model().status == 503,
{
}

/// Where no tokens are required and there is an upstream URL, every request but a preflight
/// request is forwarded.
pub proof fn open_proxy_forwards_all(state: ProxyStateView, head: RequestHeadView)
    requires
        state.upstream_url.len() > 0,
        !state.require_auth,
        head.method != "OPTIONS"@,
    ensures
        state.admission(head) is Forward,
{
}

/// The value of the `authorization` header that presents a token reads as `Bearer ` and
/// the token.
pub proof fn presented_token_reads_back(token: Seq<char>)
    requires
        forall|i: int|
            0 <= i < token.len() ==> (' ' <= #[trigger] token[i] <= '~' || token[i] == '\u{9}'),
    ensures
        value_text(encode_utf8("Bearer "@ + token)) == Some("Bearer "@ + token),
        after_prefix("Bearer "@ + token, "Bearer "@) == Some(token),
{
    reveal_strlit("Bearer ");
    let text = "Bearer "@ + token;
    let value = encode_utf8(text);
    assert(is_ascii_chars(text)) by {
        assert forall|i: int| 0 <= i < text.len() implies '\0' <= #[trigger] text[i]
            <= '\u{7f}' by {
            if i >= 7 {
                assert(text[i] == token[i - 7]);
            }
        }
    }
    is_ascii_chars_encode_utf8(text);
    assert forall|i: int| 0 <= i < value.len() implies is_visible(#[trigger] value[i]) && value[i]
        as char == text[i] by {
        assert(value[i] == text[i] as u8);
        if i >= 7 {
            assert(text[i] == token[i - 7]);
        }
    }
    assert(Seq::new(value.len(), |i: int| value[i] as char) =~= text);
    assert(text.take(7) =~= "Bearer "@);
    assert(text.skip(7) =~= token);
}

/// Where there is an upstream URL, a request that presents one of the tokens is forwarded,
/// where that token can stand in a header: to the path that it asks for, under that URL.
pub proof fn listed_token_is_admitted(
    state: ProxyStateView,
    head: RequestHeadView,
    token: Seq<char>,
)
    requires
        state.upstream_url.len() > 0,
        head.method != "OPTIONS"@,
        state.tokens.contains(token),
        forall|i: int|
            0 <= i < token.len() ==> (' ' <= #[trigger] token[i] <= '~' || token[i] == '\u{9}'),
        first_value(head.headers, "authorization"@) == Some(encode_utf8("Bearer "@ + token)),
    ensures
        state.authorizes(head.headers),
        state.admission(head) matches AdmissionView::Forward(route) && route.url == state.target(
            head.path_and_query,
        ),
{
    presented_token_reads_back(token);
}

/// Slashes at the end of the upstream URL make no difference to where requests go.
pub proof fn end_slash_makes_no_difference(
    state: ProxyStateView,
    slashed: ProxyStateView,
    path: Option<Seq<char>>,
)
    requires
        slashed.upstream_url == state.upstream_url.push('/'),
    ensures
        slashed.target(path) == state.target(path),
{
    assert(slashed.upstream_url.drop_last() =~= state.upstream_url);
}

/// Whether a header of that name is in the list.
pub open spec fn has_header(headers: Seq<HeaderView>, name: Seq<char>) -> bool {
    exists|i: int| 0 <= i < headers.len() && (#[trigger] headers[i]).name == name
}

/// What a filter keeps meets its condition and was there before.
proof fn filter_keeps(list: Seq<HeaderView>, keep: spec_fn(HeaderView) -> bool)
    ensures
        forall|i: int|
            0 <= i < list.filter(keep).len() ==> keep(#[trigger] list.filter(keep)[i])
                && list.contains(list.filter(keep)[i]),
        forall|i: int|
            0 <= i < list.len() && keep(list[i]) ==> list.filter(keep).contains(#[trigger] list[i]),
    decreases list.len(),
{
    reveal(Seq::filter);
    if list.len() > 0 {
        let front = list.drop_last();
        filter_keeps(front, keep);
        assert forall|i: int| 0 <= i < list.filter(keep).len() implies keep(
            #[trigger] list.filter(keep)[i],
        ) && list.contains(list.filter(keep)[i]) by {
            if i < front.filter(keep).len() {
                let h = front.filter(keep)[i];
                assert(list.filter(keep)[i] == h);
                let j = choose|j: int| 0 <= j < front.len() && front[j] == h;
                assert(list[j] == h);
            } else {
                assert(list.filter(keep)[i] == list[list.len() - 1]);
            }
        }
        assert forall|i: int| 0 <= i < list.len() && keep(list[i]) implies list.filter(
            keep,
        ).contains(#[trigger] list[i]) by {
            if i < front.len() {
                assert(front[i] == list[i]);
                assert(front.filter(keep).contains(front[i]));
                let j = choose|j: int|
                    0 <= j < front.filter(keep).len() && front.filter(keep)[j] == list[i];
                assert(list.filter(keep)[j] == list[i]);
            } else {
                assert(list.filter(keep)[list.filter(keep).len() - 1] == list[i]);
            }
        }
    }
}

/// The token of a client, and the host that it asked for, are never sent upstream.
pub proof fn credentials_stay(route: RouteView, body: Seq<u8>)
    ensures
        !has_header(route.sent(body).headers, "authorization"@),
        !has_header(route.sent(body).headers, "host"@),
{
    reveal_strlit("authorization");
    reveal_strlit("host");
    reveal_strlit("content-length");
    let keep = |h: HeaderView| is_forwarded(h);
    filter_keeps(route.headers, keep);
    let sent = route.sent(body).headers;
    assert forall|i: int| 0 <= i < sent.len() implies (#[trigger] sent[i]).name
        != "authorization"@ && sent[i].name != "host"@ by {
        let h = forwarded(route.headers)[i];
        assert(keep(h));
        assert(sent[i].name == h.name);
    }
}

/// Every other header is sent upstream as it came, but for the length of a body that is
/// not sent as it came.
pub proof fn other_headers_are_sent(route: RouteView, body: Seq<u8>, i: int)
    requires
        0 <= i < route.headers.len(),
        route.headers[i].name != "authorization"@,
        route.headers[i].name != "host"@,
        route.headers[i].name != "content-length"@ || !has_unsupported(body),
    ensures
        route.sent(body).headers.contains(route.headers[i]),
{
    let keep = |h: HeaderView| is_forwarded(h);
    filter_keeps(route.headers, keep);
    let h = route.headers[i];
    assert(keep(h));
    assert(forwarded(route.headers).contains(h));
    let j = choose|j: int|
        0 <= j < forwarded(route.headers).len() && forwarded(route.headers)[j] == h;
    assert(route.sent(body).headers[j] == h);
}

/// Whether every `content-length` in the headers is that of a body of `length` bytes.
pub open spec fn tells_length(headers: Seq<HeaderView>, length: nat) -> bool {
    forall|i: int|
        0 <= i < headers.len() && (#[trigger] headers[i]).name == "content-length"@
            ==> headers[i].value == encode_utf8(decimal(length))
}

/// Where a request tells the length of its body, so does the request that is sent
/// upstream.
pub proof fn length_stays_true(route: RouteView, body: Seq<u8>)
    requires
        tells_length(route.headers, body.len()),
    ensures
        tells_length(route.sent(body).headers, route.sent(body).body.len()),
{
    let keep = |h: HeaderView| is_forwarded(h);
    filter_keeps(route.headers, keep);
    let sent = route.sent(body).headers;
    assert forall|i: int| 0 <= i < sent.len() && (#[trigger] sent[i]).name
        == "content-length"@ implies sent[i].value == encode_utf8(
        decimal(route.sent(body).body.len()),
    ) by {
        let h = forwarded(route.headers)[i];
        assert(route.headers.contains(h));
        let j = choose|j: int| 0 <= j < route.headers.len() && route.headers[j] == h;
        assert(route.headers[j].name == h.name);
    }
}

/// The answer to a forwarded request allows every origin exactly once, whatever the
/// upstream service said about origins, and has no header of the upstream connection.
pub proof fn relayed_headers_are_sound(headers: Seq<HeaderView>)
    ensures
        ({
            let kept = headers.filter(|h: HeaderView| is_relayed(h));
            &&& relayed(headers) == kept + cors_headers()
            &&& !has_header(kept, "access-control-allow-origin"@)
            &&& !has_header(kept, "access-control-allow-headers"@)
            &&& !has_header(kept, "access-control-allow-methods"@)
            &&& !has_header(relayed(headers), "transfer-encoding"@)
            &&& !has_header(relayed(headers), "connection"@)
            &&& !has_header(relayed(headers), "keep-alive"@)
        }),
{
    reveal_strlit("access-control-allow-origin");
    reveal_strlit("access-control-allow-headers");
    reveal_strlit("access-control-allow-methods");
    reveal_strlit("transfer-encoding");
    reveal_strlit("connection");
    reveal_strlit("keep-alive");
    let keep = |h: HeaderView| is_relayed(h);
    filter_keeps(headers, keep);
    let kept = headers.filter(keep);
    let all = relayed(headers);
    assert forall|i: int| 0 <= i < kept.len() implies is_relayed(#[trigger] kept[i]) by {
        assert(keep(kept[i]));
    }
    assert forall|i: int| 0 <= i < all.len() implies (#[trigger] all[i]).name
        != "transfer-encoding"@ && all[i].name != "connection"@ && all[i].name
        != "keep-alive"@ by {
        if i < kept.len() {
            assert(all[i] == kept[i]);
        } else {
            let h = cors_headers()[i - kept.len()];
            assert(all[i] == h);
            assert(h.name.len() > 20);
        }
    }
}

/// Every other header of the upstream service is passed back as it came.
pub proof fn other_headers_are_relayed(headers: Seq<HeaderView>, i: int)
    requires
        0 <= i < headers.len(),
        is_relayed(headers[i]),
    ensures
        relayed(headers).contains(headers[i]),
{
    let keep = |h: HeaderView| is_relayed(h);
    filter_keeps(headers, keep);
    assert(keep(headers[i]));
    let kept = headers.filter(keep);
    let j = choose|j: int| 0 <= j < kept.len() && kept[j] == headers[i];
    assert(relayed(headers)[j] == headers[i]);
}

/// Whatever becomes of a request, every origin may read the answer.
pub proof fn every_answer_allows_every_origin(
    status: u16,
    code: Seq<char>,
    message: Seq<char>,
    headers: Seq<HeaderView>,
)
    ensures
        preflight().headers.contains(text_header("access-control-allow-origin"@, "*"@)),
        error_reply(status, code, message).headers.contains(
            text_header("access-control-allow-origin"@, "*"@),
        ),
        relayed(headers).contains(text_header("access-control-allow-origin"@, "*"@)),
{
    let origin = text_header("access-control-allow-origin"@, "*"@);
    assert(preflight().headers[0] == origin);
    assert(error_reply(status, code, message).headers[1] == origin);
    let n = headers.filter(|h: HeaderView| is_relayed(h)).len();
    assert(cors_headers()[0] == origin);
    assert(relayed(headers)[n as int] == origin);
}

/// A header that is the first of its name is found, wherever it stands.
pub proof fn first_header_is_found(headers: Seq<HeaderView>, name: Seq<char>, i: int)
    requires
        0 <= i < headers.len(),
        headers[i].name == name,
        forall|k: int| 0 <= k < i ==> (#[trigger] headers[k]).name != name,
    ensures
        first_value(headers, name) == Some(headers[i].value),
    decreases i,
{
    if i > 0 {
        let rest = headers.drop_first();
        assert(headers[0].name != name);
        assert forall|k: int| 0 <= k < i - 1 implies (#[trigger] rest[k]).name != name by {
            assert(rest[k] == headers[k + 1]);
        }
        first_header_is_found(rest, name, i - 1);
    }
}

/// A header that is not there is not found.
pub proof fn absent_header_is_not_found(headers: Seq<HeaderView>, name: Seq<char>)
    requires
        forall|k: int| 0 <= k < headers.len() ==> (#[trigger] headers[k]).name != name,
    ensures
        first_value(headers, name) is None,
    decreases headers.len(),
{
    if headers.len() > 0 {
        let rest = headers.drop_first();
        assert forall|k: int| 0 <= k < rest.len() implies (#[trigger] rest[k]).name != name by {
            assert(rest[k] == headers[k + 1]);
        }
        absent_header_is_not_found(rest, name);
        assert(headers[0].name != name);
    }
}

/// Where a header of that name is among the first `n`, one of them is the first of its name.
proof fn first_of_its_name(headers: Seq<HeaderView>, name: Seq<char>, n: int) -> (i: int)
    requires
        0 <= n <= headers.len(),
    ensures
        -1 <= i < n,
        i >= 0 ==> headers[i].name == name,
        i >= 0 ==> forall|k: int| 0 <= k < i ==> (#[trigger] headers[k]).name != name,
        i < 0 ==> forall|k: int| 0 <= k < n ==> (#[trigger] headers[k]).name != name,
    decreases n,
{
    if n == 0 {
        -1
    } else {
        let i = first_of_its_name(headers, name, n - 1);
        if i >= 0 {
            i
        } else if headers[n - 1].name == name {
            n - 1
        } else {
            -1
        }
    }
}

/// A header value of visible ASCII, spaces and tabs reads as the text with these characters;
/// any other byte makes it no text.
pub proof fn only_visible_values_are_text(value: Seq<u8>, i: int)
    ensures
        0 <= i < value.len() && value[i] != 9 && (value[i] < 32 || value[i] > 126) ==> value_text(
            value,
        ) is None,
        value_text(value) is None ==> exists|k: int|
            0 <= k < value.len() && (#[trigger] value[k]) != 9 && (value[k] < 32 || value[k] > 126),
        value_text(value) matches Some(text) ==> value == encode_utf8(text) && (forall|k: int|
            0 <= k < text.len() ==> (' ' <= #[trigger] text[k] <= '~' || text[k] == '\u{9}')),
{
    if 0 <= i < value.len() && value[i] != 9 && (value[i] < 32 || value[i] > 126) {
        assert(!is_visible(value[i]));
    }
    if let Some(text) = value_text(value) {
        assert forall|k: int| 0 <= k < text.len() implies (' ' <= #[trigger] text[k] <= '~'
            || text[k] == '\u{9}') && text[k] as u8 == value[k] by {
            assert(is_visible(value[k]));
        }
        assert(is_ascii_chars(text));
        is_ascii_chars_encode_utf8(text);
        assert forall|k: int| 0 <= k < value.len() implies value[k] == encode_utf8(text)[k] by {
            assert(text[k] as u8 == value[k]);
        }
        assert(value =~= encode_utf8(text));
    } else {
        let k = choose|k: int| 0 <= k < value.len() && !is_visible(#[trigger] value[k]);
        assert(value[k] != 9 && (value[k] < 32 || value[k] > 126));
    }
}

/// Whether a request presents a token: its first header of the name `authorization` stands at
/// `i`, and has `Bearer ` and the token for its value.
pub open spec fn presents(headers: Seq<HeaderView>, i: int, token: Seq<char>) -> bool {
    &&& 0 <= i < headers.len()
    &&& headers[i].name == "authorization"@
    &&& forall|k: int| 0 <= k < i ==> (#[trigger] headers[k]).name != "authorization"@
    &&& headers[i].value == encode_utf8("Bearer "@ + token)
    &&& forall|k: int|
        0 <= k < token.len() ==> (' ' <= #[trigger] token[k] <= '~' || token[k] == '\u{9}')
}

/// A request that presents a listed token is forwarded, wherever among its headers the token
/// stands and whatever the others are.
pub proof fn presented_token_is_admitted(
    state: ProxyStateView,
    head: RequestHeadView,
    i: int,
    j: int,
)
    requires
        0 <= j < state.tokens.len(),
        presents(head.headers, i, state.tokens[j]),
        state.upstream_url.len() > 0,
        head.method != "OPTIONS"@,
    ensures
        state.authorizes(head.headers),
        state.admission(head) is Forward,
{
    first_header_is_found(head.headers, "authorization"@, i);
    assert(state.tokens.contains(state.tokens[j]));
    listed_token_is_admitted(state, head, state.tokens[j]);
}

/// Where tokens are required, a request is let through only if it presents one that is listed.
pub proof fn admitted_request_presents_a_token(state: ProxyStateView, headers: Seq<HeaderView>)
    requires
        state.require_auth,
        state.authorizes(headers),
    ensures
        exists|i: int, j: int|
            0 <= j < state.tokens.len() && #[trigger] presents(headers, i, state.tokens[j]),
{
    let i = first_of_its_name(headers, "authorization"@, headers.len() as int);
    if i < 0 {
        absent_header_is_not_found(headers, "authorization"@);
    } else {
        first_header_is_found(headers, "authorization"@, i);
        let value = headers[i].value;
        let token = bearer_token(headers).unwrap();
        let text = value_text(value).unwrap();
        only_visible_values_are_text(value, 0);
        only_prefix_comes_off(text, "Bearer "@);
        let n = "Bearer "@.len();
        assert forall|k: int| 0 <= k < token.len() implies (' ' <= #[trigger] token[k] <= '~'
            || token[k] == '\u{9}') by {
            assert(text[n + k] == token[k]);
        }
        let j = choose|j: int| 0 <= j < state.tokens.len() && state.tokens[j] == token;
        assert(presents(headers, i, state.tokens[j]));
    }
}

/// Where tokens are required, every request but a preflight request that presents none that is
/// listed is answered 401.
pub proof fn request_without_listed_token_is_refused(state: ProxyStateView, head: RequestHeadView)
    requires
        state.require_auth,
        head.method != "OPTIONS"@,
        forall|i: int, j: int|
            0 <= j < state.tokens.len() && 0 <= i < head.headers.len() ==> !#[trigger] presents(
                head.headers,
                i,
                state.tokens[j],
            ),
    ensures
        state.admission(head) matches AdmissionView::Answer(reply) && reply.status == 401
            && reply.body == encode_utf8(
            error_text(
                "invalid_api_key"@,
                "Invalid or missing API key. Provide a valid sk-... token."@,
            ),
        ),
{
    if state.authorizes(head.headers) {
        admitted_request_presents_a_token(state, head.headers);
        let (i, j) = choose|i: int, j: int|
            0 <= j < state.tokens.len() && #[trigger] presents(head.headers, i, state.tokens[j]);
        assert(presents(head.headers, i, state.tokens[j]));
    }
}

/// Whether a request is let through depends on its authorization headers alone: one that has
/// another name may be added anywhere.
pub proof fn other_headers_do_not_matter(
    state: ProxyStateView,
    before: Seq<HeaderView>,
    h: HeaderView,
    after: Seq<HeaderView>,
)
    requires
        h.name != "authorization"@,
    ensures
        state.authorizes(before.push(h) + after) == state.authorizes(before + after),
{
    let name = "authorization"@;
    let few = before + after;
    let more = before.push(h) + after;
    let i = first_of_its_name(few, name, few.len() as int);
    if i < 0 {
        absent_header_is_not_found(few, name);
        assert forall|k: int| 0 <= k < more.len() implies (#[trigger] more[k]).name != name by {
            if k < before.len() {
                assert(more[k] == few[k]);
            } else if k > before.len() {
                assert(more[k] == few[k - 1]);
            }
        }
        absent_header_is_not_found(more, name);
    } else {
        first_header_is_found(few, name, i);
        let at = if i < before.len() {
            i
        } else {
            i + 1
        };
        assert(more[at] == few[i]);
        assert forall|k: int| 0 <= k < at implies (#[trigger] more[k]).name != name by {
            if k < before.len() {
                assert(more[k] == few[k]);
            } else if k > before.len() {
                assert(more[k] == few[k - 1]);
            }
        }
        first_header_is_found(more, name, at);
    }
}

/// A request that is forwarded goes to the path and query that it asks for, or to `/` where it
/// names none: its URL ends in exactly that. What comes before is the upstream URL but for the
/// slashes at its end. Method and headers are handed on as they came.
pub proof fn request_goes_to_its_path(
    state: ProxyStateView,
    head: RequestHeadView,
    path: Seq<char>,
)
    requires
        head.path_and_query == Some(path) || (head.path_and_query is None && path == seq!['/']),
    ensures
        state.admission(head) matches AdmissionView::Forward(route) ==> {
            let n = route.url.len() - path.len();
            &&& 0 <= n <= state.upstream_url.len()
            &&& route.url.skip(n) == path
            &&& route.url.take(n) == state.upstream_url.take(n)
            &&& n > 0 ==> route.url[n - 1] != '/'
            &&& forall|k: int|
                n <= k < state.upstream_url.len() ==> (#[trigger] state.upstream_url[k]) == '/'
            &&& route.method == head.method
            &&& route.headers == head.headers
            &&& route.upstream == state.upstream_url
        },
{
    reveal_strlit("/");
    assert("/"@ =~= seq!['/']);
    if let AdmissionView::Forward(route) = state.admission(head) {
        let base = without_end_slashes(state.upstream_url);
        end_slashes_gone(state.upstream_url);
        let n = base.len() as int;
        assert(route.url == base + path);
        assert(route.url.skip(n) =~= path);
        assert(route.url.take(n) =~= base);
        if n > 0 {
            assert(route.url[n - 1] == base.last());
        }
    }
}

/// A request is forwarded exactly where it is no preflight request, there is an upstream URL,
/// and either no token is required or it is let through.
pub proof fn forwarded_exactly_when_allowed(state: ProxyStateView, head: RequestHeadView)
    ensures
        state.admission(head) is Forward <==> head.method != "OPTIONS"@ && state.upstream_url.len()
            > 0 && (!state.require_auth || state.authorizes(head.headers)),
        head.method == "OPTIONS"@ ==> (state.admission(head) matches AdmissionView::Answer(reply)
            && reply.status == 200 && reply.body.len() == 0),
        !state.require_auth ==> state.authorizes(head.headers),
{
}

/// The answer to a preflight request allows every origin, the headers and the methods that
/// clients use, for a day.
pub proof fn preflight_allows_what_clients_use()
    ensures
        preflight().status == 200,
        preflight().body.len() == 0,
        preflight().headers == seq![
            text_header("access-control-allow-origin"@, "*"@),
            text_header("access-control-allow-headers"@, "authorization, content-type"@),
            text_header("access-control-allow-methods"@, "GET, POST, PUT, DELETE, OPTIONS"@),
            text_header("access-control-max-age"@, "86400"@),
        ],
{
    assert(preflight().headers =~= seq![
        text_header("access-control-allow-origin"@, "*"@),
        text_header("access-control-allow-headers"@, "authorization, content-type"@),
        text_header("access-control-allow-methods"@, "GET, POST, PUT, DELETE, OPTIONS"@),
        text_header("access-control-max-age"@, "86400"@),
    ]);
}

/// The answer that reports an error has the status, and tells the code and the message, that it
/// is made for; it says that it is JSON and that every origin may read it.
pub proof fn error_is_reported(status: u16, code: Seq<char>, message: Seq<char>)
    ensures
        error_reply(status, code, message).status == status,
        error_reply(status, code, message).headers.len() == 2,
        error_reply(status, code, message).headers[0] == text_header(
            "content-type"@,
            "application/json"@,
        ),
        error_reply(status, code, message).headers[1] == text_header(
            "access-control-allow-origin"@,
            "*"@,
        ),
        error_reply(status, code, message).body == encode_utf8(
            "{\"error\":{\"code\":"@ + quoted(code) + ",\"message\":"@ + quoted(message)
                + ",\"type\":\"invalid_request_error\"}}"@,
        ),
{
}

/// Two errors that read the same are the same: no code and no message is lost or changed.
pub proof fn errors_are_told_apart(
    status: u16,
    code: Seq<char>,
    first: Seq<char>,
    second: Seq<char>,
)
    requires
        error_reply(status, code, first).body == error_reply(status, code, second).body,
    ensures
        first == second,
{
    let a = error_text(code, first);
    let b = error_text(code, second);
    encode_utf8_decode_utf8(a);
    encode_utf8_decode_utf8(b);
    let before = "{\"error\":{\"code\":"@ + quoted(code) + ",\"message\":"@;
    let after = ",\"type\":\"invalid_request_error\"}}"@;
    let n = before.len() as int;
    let m = after.len() as int;
    assert(a.subrange(n, a.len() - m) =~= quoted(first));
    assert(b.subrange(n, b.len() - m) =~= quoted(second));
    quoted_told_apart(first, second);
}

/// Each failure has its own status and code. Where the upstream service could not be reached,
/// the answer tells its URL, as it is set, and the reason.
pub proof fn failures_have_their_status(upstream: Seq<char>, error: Seq<char>)
    ensures
        refusal() == error_reply(
            401,
            "invalid_api_key"@,
            "Invalid or missing API key. Provide a valid sk-... token."@,
        ),
        body_failure() == error_reply(400, "bad_request"@, "Failed to read request body"@),
        no_model() == error_reply(503, "no_model_loaded"@, "No model loaded"@),
        upstream_failure(upstream, error) == error_reply(
            502,
            "upstream_error"@,
            "Cannot reach Foundry Local at "@ + upstream + ": "@ + error,
        ),
{
}

/// A method may be made of every visible ASCII character but the delimiters of HTTP.
pub proof fn delimiters_are_in_no_method(c: char)
    ensures
        is_token_char(c) <==> '!' <= c && c <= '~' && c != '"' && c != '(' && c != ')' && c != ','
            && c != '/' && c != ':' && c != ';' && c != '<' && c != '=' && c != '>' && c != '?' && c
            != '@' && c != '[' && c != '\\' && c != ']' && c != '{' && c != '}',
{
}

/// A request is sent with its own method where that is one, else with `GET`; to the URL of its
/// route; and with the body that is given.
pub proof fn method_and_url_are_sent(route: RouteView, body: Seq<u8>, changed: bool)
    ensures
        route.sent_with(body, changed).url == route.url,
        route.sent_with(body, changed).body == body,
        route.method.len() > 0 && (forall|i: int|
            0 <= i < route.method.len() ==> is_token_char(#[trigger] route.method[i]))
            ==> route.sent_with(body, changed).method == route.method,
        route.method.len() == 0 ==> route.sent_with(body, changed).method == "GET"@,
        (exists|i: int| 0 <= i < route.method.len() && !is_token_char(#[trigger] route.method[i]))
            ==> route.sent_with(body, changed).method == "GET"@,
{
}

/// Headers are sent one for one and in their order, but for the token and the host; only the
/// length is put right, and only for a body that was changed.
pub proof fn headers_are_sent_in_order(
    route: RouteView,
    more: RouteView,
    h: HeaderView,
    body: Seq<u8>,
    changed: bool,
)
    requires
        more.headers == route.headers.push(h),
    ensures
        ({
            let few = route.sent_with(body, changed).headers;
            let all = more.sent_with(body, changed).headers;
            if h.name == "authorization"@ || h.name == "host"@ {
                all == few
            } else if h.name == "content-length"@ && changed {
                all == few.push(text_header("content-length"@, decimal(body.len())))
            } else {
                all == few.push(h)
            }
        }),
        route.headers.len() == 0 ==> route.sent_with(body, changed).headers.len() == 0,
{
    reveal(Seq::filter);
    let keep = |h: HeaderView| is_forwarded(h);
    let length = |h: HeaderView| with_length(h, body.len());
    assert(more.headers.drop_last() =~= route.headers);
    let few = forwarded(route.headers);
    assert(keep(h) == is_forwarded(h));
    if is_forwarded(h) {
        assert(forwarded(more.headers) == few.push(h));
        assert(few.push(h).map_values(length) =~= few.map_values(length).push(with_length(h, body.len())));
    }
}

/// A body without the field that the upstream service does not understand is sent byte for
/// byte, and its headers say the same of it.
pub proof fn other_bodies_are_sent_unchanged(route: RouteView, body: Seq<u8>)
    requires
        json_members(body) matches Some(list) ==> (forall|i: int|
            0 <= i < list.len() ==> (#[trigger] list[i]).0 != "max_completion_tokens"@),
    ensures
        route.sent(body) == route.sent_with(body, false),
{
    if let Some(list) = json_members(body) {
        assert(!has_member(list, "max_completion_tokens"@));
    }
}

/// A body with that field is not sent as it came, and its headers tell the new length.
pub proof fn changed_bodies_are_sent_as_such(route: RouteView, body: Seq<u8>, i: int)
    requires
        json_members(body) matches Some(list) && 0 <= i < list.len() && list[i].0
            == "max_completion_tokens"@,
    ensures
        route.sent(body) == route.sent_with(route.sent(body).body, true),
{
    assert(has_member(json_members(body).unwrap(), "max_completion_tokens"@));
}

/// The status of the upstream service is relayed as it is; where it is none, 500 is.
pub proof fn status_is_relayed(status: u16)
    ensures
        100 <= status <= 999 ==> relayed_status(status) == status,
        status < 100 || status > 999 ==> relayed_status(status) == 500,
{
}

/// Headers are relayed one for one and in their order, but for three of the connection and
/// three about origins; the three about origins that the proxy sets come last.
pub proof fn headers_are_relayed_in_order(headers: Seq<HeaderView>, h: HeaderView)
    ensures
        ({
            let own = seq![
                text_header("access-control-allow-origin"@, "*"@),
                text_header("access-control-allow-headers"@, "authorization, content-type"@),
                text_header("access-control-allow-methods"@, "GET, POST, PUT, DELETE, OPTIONS"@),
            ];
            let n = relayed(headers).len() - 3;
            &&& n >= 0
            &&& relayed(headers) == relayed(headers).take(n) + own
            &&& headers.len() == 0 ==> n == 0
            &&& relayed(headers.push(h)) == if h.name == "transfer-encoding"@ || h.name
                == "connection"@ || h.name == "keep-alive"@ || h.name
                == "access-control-allow-origin"@ || h.name == "access-control-allow-headers"@
                || h.name == "access-control-allow-methods"@ {
                relayed(headers)
            } else {
                relayed(headers).take(n).push(h) + own
            }
        }),
{
    reveal(Seq::filter);
    let keep = |h: HeaderView| is_relayed(h);
    assert(headers.push(h).drop_last() =~= headers);
    assert(keep(h) == is_relayed(h));
    let kept = headers.filter(keep);
    let n = relayed(headers).len() - 3;
    let own = seq![
        text_header("access-control-allow-origin"@, "*"@),
        text_header("access-control-allow-headers"@, "authorization, content-type"@),
        text_header("access-control-allow-methods"@, "GET, POST, PUT, DELETE, OPTIONS"@),
    ];
    assert(cors_headers() =~= own);
    assert(relayed(headers).take(n) =~= kept);
    assert(relayed(headers) =~= kept + own);
}

/// A proxy works with the settings that it was started with.
pub proof fn proxy_has_its_settings(config: ConfigView)
    ensures
        ProxyStateView::of(config).upstream_url == config.upstream_url,
        ProxyStateView::of(config).tokens == config.tokens,
        ProxyStateView::of(config).require_auth == config.require_auth,
        MAX_BODY_BYTES == 64 * 1024 * 1024,
{
}

/// The views of headers and of what is made of them have every part as it is.
pub proof fn messages_are_whole(
    h: Header,
    list: Seq<Header>,
    name: Seq<char>,
    value: Seq<char>,
    i: int,
)
    ensures
        h@.name == h.name@,
        h@.value == h.value@,
        headers_of(list).len() == list.len(),
        0 <= i < list.len() ==> headers_of(list)[i] == list[i]@,
        text_header(name, value).name == name,
        text_header(name, value).value == encode_utf8(value),
{
}

/// The views of requests, routes, answers and settings have every part as it is.
pub proof fn requests_are_whole(
    head: RequestHead,
    route: Route,
    request: UpstreamRequest,
    reply: Reply,
    state: ProxyState,
)
    ensures
        head@.method == head.method@,
        head.path_and_query matches Some(p) ==> head@.path_and_query == Some(p@),
        head.path_and_query is None ==> head@.path_and_query is None,
        head@.headers == headers_of(head.headers@),
        route@.method == route.method@,
        route@.url == route.url@,
        route@.headers == headers_of(route.headers@),
        route@.upstream == route.upstream@,
        request@.method == request.method@,
        request@.url == request.url@,
        request@.headers == headers_of(request.headers@),
        request@.body == request.body@,
        reply@.status == reply.status,
        reply@.headers == headers_of(reply.headers@),
        reply@.body == reply.body@,
        state@.upstream_url == state.upstream_url@,
        state@.tokens == texts(state.tokens@),
        state@.require_auth == state.require_auth,
        Admission::Answer(reply)@ == AdmissionView::Answer(reply@),
        Admission::Forward(route)@ == AdmissionView::Forward(route@),
{
}

/// What keeps the proxy from serving is told with the reason at the end, and with the address
/// where it is about one.
pub proof fn failures_to_serve_tell_the_reason(addr: Seq<char>, error: Seq<char>)
    ensures
        ({
            let bind = bind_failure_text(addr, error);
            let serve = serve_failure_text(error);
            let n = addr.len() as int;
            &&& bind.len() == 15 + addr.len() + 2 + error.len()
            &&& bind.take(15) == "Failed to bind "@
            &&& bind.subrange(15, 15 + n) == addr
            &&& bind.subrange(15 + n, 17 + n) == ": "@
            &&& bind.skip(17 + n) == error
            &&& serve.take(14) == "Server error: "@
            &&& serve.skip(14) == error
        }),
{
    reveal_strlit("Failed to bind ");
    reveal_strlit(": ");
    reveal_strlit("Server error: ");
    let bind = bind_failure_text(addr, error);
    let serve = serve_failure_text(error);
    let n = addr.len() as int;
    assert(bind.take(15) =~= "Failed to bind "@);
    assert(bind.subrange(15, 15 + n) =~= addr);
    assert(bind.subrange(15 + n, 17 + n) =~= ": "@);
    assert(bind.skip(17 + n) =~= error);
    assert(serve.take(14) =~= "Server error: "@);
    assert(serve.skip(14) =~= error);
}

} // verus!
