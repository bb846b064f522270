//! The decisions of `fetch()`: which URLs may be fetched, the blocking
//! rules, request interception, CORS, redirects, and the JSON replies handed
//! back to the page.
//!
//! The network work (sending requests, reading responses) is the caller's;
//! it hands the results to these functions and acts on what they return.

use vstd::prelude::*;
use crate::glob::{is_blocked, url_is_blocked};
use crate::textmap::{collect_headers, object_json, pairs_view, put_all, TextMap};
use crate::state::{fetch_request_id, ObscuraState};
use crate::text::{
    chars_of, dec, json_quote, lowercase_of, push_dec, push_json_string, push_str, same_text,
    string_from, to_lowercase,
};
use crate::urlops::or_empty;
use crate::weburl::{
    url_host_of, url_host_str_of, url_join, url_join_result, url_parse, url_parse_result,
    url_port_of, url_scheme_of, UrlHost, UrlRecord, WebUrl,
};

verus! {

// ---------------------------------------------------------------------------
// Which URLs may be fetched
// ---------------------------------------------------------------------------

/// The message for a scheme other than http, https and file.
pub open spec fn scheme_error(scheme: Seq<char>) -> Seq<char> {
    "Forbidden URL scheme '"@ + scheme + "' - only http, https, and file are allowed"@
}

/// The verdict on fetching the URL `href`. Only http, https
/// and file URLs may be fetched. Unless the URL is a file URL or private
/// networks are allowed, an IP host that the address check forbids
/// (`ip_forbidden`) is refused, and so is a domain that is `localhost`,
/// ends in `.localhost`, or is `127.0.0.1` or `::1` once lowercased.
pub open spec fn fetch_url_verdict(href: UrlRecord, allow_private: bool, ip_forbidden: bool) -> Result<(), Seq<char>> {
    let scheme = url_scheme_of(href);
    if scheme != "http"@ && scheme != "https"@ && scheme != "file"@ {
        Err(scheme_error(scheme))
    } else if scheme == "file"@ || allow_private {
        Ok(())
    } else {
        match url_host_of(href) {
            Some((kind, text)) => if kind == 4 && ip_forbidden {
                Err("Access to private/internal IP address "@ + text + " is not allowed"@)
            } else if kind == 6 && ip_forbidden {
                Err("Access to private/internal IPv6 address "@ + text + " is not allowed"@)
            } else if kind == 0 && is_local_name(lowercase_of(text)) {
                Err("Access to localhost domain '"@ + text + "' is not allowed"@)
            } else {
                Ok(())
            },
            None => Ok(()),
        }
    }
}

/// A host name that names this machine.
pub open spec fn is_local_name(lower: Seq<char>) -> bool {
    lower == "localhost"@ || (lower.len() >= 10 && lower.subrange(lower.len() - 10, lower.len() as int)
        == ".localhost"@) || lower == "127.0.0.1"@ || lower == "::1"@
}

/// The views of a verdict.
pub open spec fn verdict_view(r: Result<(), String>) -> Result<(), Seq<char>> {
    match r {
        Ok(()) => Ok(()),
        Err(e) => Err(e@),
    }
}

/// Whether `s` ends with `suffix`.
fn ends_with_text(s: &Vec<char>, suffix: &str) -> (r: bool)
    ensures
        r == (s@.len() >= suffix@.len() && s@.subrange(s@.len() - suffix@.len(), s@.len() as int) == suffix@),
{
    let t = chars_of(suffix);
    if s.len() < t.len() {
        return false;
    }
    let off = s.len() - t.len();
    let mut i: usize = 0;
    while i < t.len()
        invariant
            t@ == suffix@,
            off + t.len() == s.len(),
            i <= t.len(),
            forall|k: int| 0 <= k < i ==> s@[off + k] == t@[k],
        decreases t.len() - i,
    {
        if s[off + i] != t[i] {
            assert(s@.subrange(off as int, s@.len() as int)[i as int] == s@[off + i]);
            return false;
        }
        i = i + 1;
    }
    assert(s@.subrange(off as int, s@.len() as int) =~= t@);
    true
}

/// Decides whether the URL `u` may be fetched (see `fetch_url_verdict`).
/// `allow_private` says whether private networks are allowed;
/// `ip_forbidden` is the address check's answer for the URL's host where it
/// is an IP address (see `fetch_host_address`).
pub fn validate_fetch_url(u: &WebUrl, allow_private: bool, ip_forbidden: bool) -> (r: Result<(), String>)
    ensures
        verdict_view(r) == fetch_url_verdict(u@, allow_private, ip_forbidden),
{
    proof {
        reveal_strlit("http");
        reveal_strlit("https");
        reveal_strlit("file");
    }
    let scheme = u.scheme();
    let is_file = same_text(scheme.as_str(), "file");
    if !same_text(scheme.as_str(), "http") && !same_text(scheme.as_str(), "https") && !is_file {
        let mut m = string_from("Forbidden URL scheme '");
        push_str(&mut m, scheme.as_str());
        push_str(&mut m, "' - only http, https, and file are allowed");
        return Err(m);
    }
    if is_file || allow_private {
        return Ok(());
    }
    match u.host() {
        Some(UrlHost::Ipv4(ip)) => {
            if ip_forbidden {
                let mut m = string_from("Access to private/internal IP address ");
                push_str(&mut m, ip.as_str());
                push_str(&mut m, " is not allowed");
                return Err(m);
            }
            Ok(())
        },
        Some(UrlHost::Ipv6(ip)) => {
            if ip_forbidden {
                let mut m = string_from("Access to private/internal IPv6 address ");
                push_str(&mut m, ip.as_str());
                push_str(&mut m, " is not allowed");
                return Err(m);
            }
            Ok(())
        },
        Some(UrlHost::Domain(d)) => {
            let lower = to_lowercase(d.as_str());
            let lc = chars_of(lower.as_str());
            proof {
                reveal_strlit("localhost");
                reveal_strlit(".localhost");
                reveal_strlit("127.0.0.1");
                reveal_strlit("::1");
            }
            let local = same_text(lower.as_str(), "localhost") || ends_with_text(&lc, ".localhost")
                || same_text(lower.as_str(), "127.0.0.1") || same_text(lower.as_str(), "::1");
            if local {
                let mut m = string_from("Access to localhost domain '");
                push_str(&mut m, d.as_str());
                push_str(&mut m, "' is not allowed");
                return Err(m);
            }
            Ok(())
        },
        None => Ok(()),
    }
}

/// The address to hand to the address check for `url`: the text of its
/// host where the URL parses and its host is an IP address.
pub fn fetch_host_address(url: &str) -> (r: Option<String>)
    ensures
        match r {
            Some(a) => match url_parse_result(url@) {
                Some(h) => url_host_of(h) == Some((4u8, a@)) || url_host_of(h) == Some((6u8, a@)),
                None => false,
            },
            None => match url_parse_result(url@) {
                Some(h) => match url_host_of(h) {
                    Some((k, _)) => k != 4 && k != 6,
                    None => true,
                },
                None => true,
            },
        },
{
    match url_parse(url) {
        Ok(u) => match u.host() {
            Some(UrlHost::Ipv4(ip)) => Some(ip),
            Some(UrlHost::Ipv6(ip)) => Some(ip),
            _ => None,
        },
        Err(_) => None,
    }
}

/// The verdict on a URL given as text: a URL that does not parse is not
/// judged here (the request itself fails later).
pub open spec fn fetch_text_verdict(url: Seq<char>, allow_private: bool, ip_forbidden: bool) -> Result<(), Seq<char>> {
    match url_parse_result(url) {
        Some(h) => fetch_url_verdict(h, allow_private, ip_forbidden),
        None => Ok(()),
    }
}

/// `validate_fetch_url` on `url` where it parses; `Ok` where it does not.
pub fn check_fetch_url(url: &str, allow_private: bool, ip_forbidden: bool) -> (r: Result<(), String>)
    ensures
        verdict_view(r) == fetch_text_verdict(url@, allow_private, ip_forbidden),
{
    match url_parse(url) {
        Ok(u) => validate_fetch_url(&u, allow_private, ip_forbidden),
        Err(_) => Ok(()),
    }
}

// ---------------------------------------------------------------------------
// Replies handed back to the page (keys in sorted order, as `serde_json`
// writes an object)
// ---------------------------------------------------------------------------

/// The reply for a request that is not made: status 0, empty body, no
/// headers, `blocked`, and the reason where there is one.
pub open spec fn blocked_json(url: Seq<char>, error: Option<Seq<char>>) -> Seq<char> {
    match error {
        Some(e) => "{\"blocked\":true,\"body\":\"\",\"error\":"@ + json_quote(e)
            + ",\"headers\":{},\"status\":0,\"url\":"@ + json_quote(url) + "}"@,
        None => "{\"blocked\":true,\"body\":\"\",\"headers\":{},\"status\":0,\"url\":"@ + json_quote(url)
            + "}"@,
    }
}

/// The reply for a request answered by the interceptor.
pub open spec fn fulfilled_json(status: u16, headers: Seq<(Seq<char>, Seq<char>)>, body: Seq<char>, url: Seq<char>) -> Seq<char> {
    "{\"body\":"@ + json_quote(body) + ",\"headers\":"@ + object_json(headers) + ",\"status\":"@
        + dec(status as nat) + ",\"url\":"@ + json_quote(url) + "}"@
}

/// The CORS error text for a response whose allowed origin does not admit
/// the page's origin.
pub open spec fn cors_error_text(page_origin: Seq<char>, allowed: Seq<char>) -> Seq<char> {
    "CORS error: Origin '"@ + page_origin + "' not in Access-Control-Allow-Origin '"@ + allowed + "'"@
}

/// The reply for a response that CORS keeps from the page.
pub open spec fn cors_blocked_json(url: Seq<char>, page_origin: Seq<char>, allowed: Seq<char>) -> Seq<char> {
    "{\"body\":\"\",\"corsBlocked\":true,\"corsError\":"@ + json_quote(cors_error_text(page_origin, allowed))
        + ",\"headers\":{},\"status\":0,\"url\":"@ + json_quote(url) + "}"@
}

/// The reply for a response the page receives.
pub open spec fn response_json(
    status: u16,
    body: Seq<char>,
    body_base64: Seq<char>,
    request_id: Seq<char>,
    url: Seq<char>,
    headers: Seq<(Seq<char>, Seq<char>)>,
) -> Seq<char> {
    "{\"body\":"@ + json_quote(body) + ",\"bodyBase64\":"@ + json_quote(body_base64) + ",\"headers\":"@
        + object_json(headers) + ",\"requestId\":"@ + json_quote(request_id) + ",\"status\":"@ + dec(
        status as nat,
    ) + ",\"url\":"@ + json_quote(url) + "}"@
}

/// The blocked reply for `url`, with `error` where given.
pub fn blocked_reply(url: &str, error: Option<&str>) -> (r: String)
    ensures
        r@ == blocked_json(url@, match error {
            Some(e) => Some(e@),
            None => None,
        }),
{
    match error {
        Some(e) => {
            let mut out = string_from("{\"blocked\":true,\"body\":\"\",\"error\":");
            push_json_string(&mut out, e);
            push_str(&mut out, ",\"headers\":{},\"status\":0,\"url\":");
            push_json_string(&mut out, url);
            push_str(&mut out, "}");
            out
        },
        None => {
            let mut out = string_from("{\"blocked\":true,\"body\":\"\",\"headers\":{},\"status\":0,\"url\":");
            push_json_string(&mut out, url);
            push_str(&mut out, "}");
            out
        },
    }
}

/// The reply for a request the interceptor answered with `status`,
/// `headers` and `body`.
pub fn fulfilled_reply(status: u16, headers: &TextMap, body: &str, url: &str) -> (r: String)
    ensures
        r@ == fulfilled_json(status, headers@, body@, url@),
{
    let mut out = string_from("{\"body\":");
    push_json_string(&mut out, body);
    push_str(&mut out, ",\"headers\":");
    let h = headers.to_json();
    push_str(&mut out, h.as_str());
    push_str(&mut out, ",\"status\":");
    push_dec(&mut out, status as u64);
    push_str(&mut out, ",\"url\":");
    push_json_string(&mut out, url);
    push_str(&mut out, "}");
    out
}

/// The reply for a response that CORS keeps from the page.
pub fn cors_blocked_reply(url: &str, page_origin: &str, allowed: &str) -> (r: String)
    ensures
        r@ == cors_blocked_json(url@, page_origin@, allowed@),
{
    let mut e = string_from("CORS error: Origin '");
    push_str(&mut e, page_origin);
    push_str(&mut e, "' not in Access-Control-Allow-Origin '");
    push_str(&mut e, allowed);
    push_str(&mut e, "'");
    let mut out = string_from("{\"body\":\"\",\"corsBlocked\":true,\"corsError\":");
    push_json_string(&mut out, e.as_str());
    push_str(&mut out, ",\"headers\":{},\"status\":0,\"url\":");
    push_json_string(&mut out, url);
    push_str(&mut out, "}");
    out
}

/// The reply for a response the page receives.
pub fn response_reply(
    status: u16,
    body: &str,
    body_base64: &str,
    request_id: &str,
    url: &str,
    headers: &TextMap,
) -> (r: String)
    ensures
        r@ == response_json(status, body@, body_base64@, request_id@, url@, headers@),
{
    let mut out = string_from("{\"body\":");
    push_json_string(&mut out, body);
    push_str(&mut out, ",\"bodyBase64\":");
    push_json_string(&mut out, body_base64);
    push_str(&mut out, ",\"headers\":");
    let h = headers.to_json();
    push_str(&mut out, h.as_str());
    push_str(&mut out, ",\"requestId\":");
    push_json_string(&mut out, request_id);
    push_str(&mut out, ",\"status\":");
    push_dec(&mut out, status as u64);
    push_str(&mut out, ",\"url\":");
    push_json_string(&mut out, url);
    push_str(&mut out, "}");
    out
}

// ---------------------------------------------------------------------------
// Admission and interception
// ---------------------------------------------------------------------------

/// The id an intercepted request is announced under.
pub open spec fn intercept_request_id(counter: u64) -> Seq<char> {
    "intercept-"@ + dec((counter + 1) as nat)
}

/// Law: intercepted requests are announced as `intercept-N` with `N` one
/// above the counter, buffered bodies are kept as `fetch-N`, and the two
/// kinds of id never collide.
pub proof fn law_request_ids(counter: u64, n: nat)
    ensures
        intercept_request_id(counter) == "intercept-"@ + dec((counter + 1) as nat),
        fetch_request_id(n) == "fetch-"@ + dec(n),
        intercept_request_id(counter) != fetch_request_id(n),
{
    reveal_strlit("intercept-");
    reveal_strlit("fetch-");
    assert(intercept_request_id(counter)[0] == 'i');
    assert(fetch_request_id(n)[0] == 'f');
}

/// How a fetch starts.
pub enum FetchStart {
    /// A blocking rule applies: this reply goes back at once.
    Blocked(String),
    /// The request goes ahead; where interception is on, it is first handed
    /// to the interceptor under this id.
    Proceed { intercept_id: Option<String> },
}

/// Admits a fetch of `url`. A request that one of the page's blocking rules
/// applies to is answered with the blocked reply and leaves no trace;
/// otherwise the URL is recorded as fetched and, where interception is
/// enabled and an interceptor is attached, an intercept id is given (the
/// counter is read, not advanced).
pub fn begin_fetch(state: &mut ObscuraState, url: &str, has_interceptor: bool) -> (r: FetchStart)
    requires
        old(state).intercept_enabled && has_interceptor ==> old(state).intercept_counter < u64::MAX,
    ensures
        *final(state) == (ObscuraState { fetched_urls: final(state).fetched_urls, ..*old(state) }),
        final(state).wf() == old(state).wf(),
        if is_blocked(old(state).blocked_urls@.map_values(|s: String| s@), url@) {
            &&& r matches FetchStart::Blocked(j) && j@ == blocked_json(url@, None)
            &&& final(state).fetched_urls == old(state).fetched_urls
        } else {
            &&& r matches FetchStart::Proceed { intercept_id } && match intercept_id {
                Some(id) => old(state).intercept_enabled && has_interceptor && id@ == intercept_request_id(
                    old(state).intercept_counter,
                ),
                None => !(old(state).intercept_enabled && has_interceptor),
            }
            &&& final(state).fetched_urls@.map_values(|s: String| s@) == old(state).fetched_urls@.map_values(
                |s: String| s@,
            ).push(url@)
        },
{
    if url_is_blocked(&state.blocked_urls, url) {
        return FetchStart::Blocked(blocked_reply(url, None));
    }
    state.record_fetched_url(url);
    if state.intercept_enabled && has_interceptor {
        let mut id = string_from("intercept-");
        push_dec(&mut id, state.intercept_counter + 1);
        FetchStart::Proceed { intercept_id: Some(id) }
    } else {
        FetchStart::Proceed { intercept_id: None }
    }
}

/// How the interceptor answered an intercepted request.
#[derive(Debug)]
#[allow(inconsistent_fields)]
pub enum InterceptResolution {
    /// Go ahead, replacing what is given.
    Continue {
        url: Option<String>,
        method: Option<String>,
        headers: Option<Vec<(String, String)>>,
        body: Option<String>,
    },
    /// Answer the page with this response.
    Fulfill { status: u16, headers: Vec<(String, String)>, body: String },
    /// Fail the request.
    Fail { reason: String },
}

/// What follows an interceptor's answer.
#[allow(inconsistent_fields)]
pub enum InterceptStep {
    /// This reply goes back to the page.
    Reply(String),
    /// The request goes ahead with these replacements.
    Continue {
        url: Option<String>,
        method: Option<String>,
        headers: Option<Vec<(String, String)>>,
        body: Option<String>,
    },
}

/// Acts on the interceptor's answer for the request to `url`: a fulfilled
/// request is answered with the given status, headers and body; a failed one
/// with the blocked reply carrying the reason; a continued one goes ahead.
pub fn intercept_step(resolution: InterceptResolution, url: &str) -> (r: InterceptStep)
    ensures
        match resolution {
            InterceptResolution::Fulfill { status, headers, body } => r matches InterceptStep::Reply(j)
                && j@ == fulfilled_json(status, put_all(Seq::empty(), pairs_view(headers@)), body@, url@),
            InterceptResolution::Fail { reason } => r matches InterceptStep::Reply(j) && j@ == blocked_json(
                url@,
                Some(reason@),
            ),
            InterceptResolution::Continue { url: u, method, headers, body } => r == (InterceptStep::Continue {
                url: u,
                method,
                headers,
                body,
            }),
        },
{
    match resolution {
        InterceptResolution::Fulfill { status, headers, body } => {
            let h = collect_headers(&headers);
            InterceptStep::Reply(fulfilled_reply(status, &h, body.as_str(), url))
        },
        InterceptResolution::Fail { reason } => InterceptStep::Reply(blocked_reply(url, Some(reason.as_str()))),
        InterceptResolution::Continue { url, method, headers, body } => InterceptStep::Continue {
            url,
            method,
            headers,
            body,
        },
    }
}

/// The reply for a request whose URL the interceptor rewrote to `new_url`,
/// where that URL may not be fetched.
pub open spec fn rewrite_verdict(new_url: Seq<char>, allow_private: bool, ip_forbidden: bool) -> Option<Seq<char>> {
    match fetch_text_verdict(new_url, allow_private, ip_forbidden) {
        Ok(()) => None,
        Err(reason) => Some(blocked_json(new_url, Some("Intercept rewrite to forbidden URL blocked: "@ + reason))),
    }
}

/// Checks a URL the interceptor rewrote the request to: the blocked reply
/// where it may not be fetched, nothing where it may.
pub fn check_rewrite(new_url: &str, allow_private: bool, ip_forbidden: bool) -> (r: Option<String>)
    ensures
        match r {
            Some(j) => rewrite_verdict(new_url@, allow_private, ip_forbidden) == Some(j@),
            None => rewrite_verdict(new_url@, allow_private, ip_forbidden) is None,
        },
{
    match check_fetch_url(new_url, allow_private, ip_forbidden) {
        Ok(()) => None,
        Err(reason) => {
            let mut e = string_from("Intercept rewrite to forbidden URL blocked: ");
            push_str(&mut e, reason.as_str());
            Some(blocked_reply(new_url, Some(e.as_str())))
        },
    }
}

// ---------------------------------------------------------------------------
// Origins, methods and CORS
// ---------------------------------------------------------------------------

/// The origin of the request URL: `scheme://host`, with `:port` where the
/// URL has an explicit port; empty where the URL does not parse.
pub open spec fn request_origin_text(url: Seq<char>) -> Seq<char> {
    match url_parse_result(url) {
        Some(h) => url_scheme_of(h) + "://"@ + or_empty(url_host_str_of(h)) + match url_port_of(h) {
            Some(p) => seq![':'] + dec(p as nat),
            None => Seq::empty(),
        },
        None => Seq::empty(),
    }
}

/// The origin of a request to `url`.
pub fn request_origin(url: &str) -> (r: String)
    ensures
        r@ == request_origin_text(url@),
{
    match url_parse(url) {
        Ok(u) => {
            let mut out = u.scheme();
            push_str(&mut out, "://");
            match u.host_str() {
                Some(h) => push_str(&mut out, h.as_str()),
                None => {},
            }
            match u.port() {
                Some(p) => {
                    out.push(':');
                    push_dec(&mut out, p as u64);
                },
                None => {},
            }
            out
        },
        Err(_) => String::new(),
    }
}

/// The page's origin: the one the page gave, or the request's own where it
/// gave none.
pub open spec fn page_origin_text(url: Seq<char>, origin: Seq<char>) -> Seq<char> {
    if origin.len() == 0 {
        request_origin_text(url)
    } else {
        origin
    }
}

/// A request is cross-origin when the page's origin is known and differs
/// from the request's.
pub open spec fn is_cross_origin(url: Seq<char>, origin: Seq<char>) -> bool {
    page_origin_text(url, origin).len() > 0 && request_origin_text(url) != page_origin_text(url, origin)
}

/// The page's origin for a request to `url` from a page that gave `origin`,
/// and whether the request is cross-origin.
pub fn cors_context(url: &str, origin: &str) -> (r: (String, bool))
    ensures
        r.0@ == page_origin_text(url@, origin@),
        r.1 == is_cross_origin(url@, origin@),
{
    let req = request_origin(url);
    let page = if origin.is_empty() {
        req.clone()
    } else {
        string_from(origin)
    };
    let cross = !page.as_str().is_empty() && !same_text(req.as_str(), page.as_str());
    (page, cross)
}

/// A char that may stand in an HTTP method (a `tchar` of RFC 9110).
pub open spec fn is_tchar(c: char) -> bool {
    ('0' <= c <= '9') || ('a' <= c <= 'z') || ('A' <= c <= 'Z') || c == '!' || c == '#' || c == '$'
        || c == '%' || c == '&' || c == '\'' || c == '*' || c == '+' || c == '-' || c == '.' || c == '^'
        || c == '_' || c == '`' || c == '|' || c == '~'
}

/// A valid HTTP method: one or more `tchar`s.
pub open spec fn is_method_token(s: Seq<char>) -> bool {
    s.len() > 0 && forall|i: int| 0 <= i < s.len() ==> is_tchar(#[trigger] s[i])
}

/// `reqwest::Method::from_str`: the method parses exactly when it is a
/// token, and its `as_str` is then the text it was parsed from (standard
/// methods are matched case-sensitively, any other token is kept as given).
#[verifier::external_body]
fn parse_http_method(s: &str) -> (r: Option<String>)
    ensures
        r is Some <==> is_method_token(s@),
        r matches Some(m) ==> m@ == s@,
{
    match s.parse::<reqwest::Method>() {
        Ok(m) => Some(m.as_str().to_string()),
        Err(_) => None,
    }
}

/// The method the request is sent with: the page's method where it is a
/// valid method, `GET` otherwise.
pub open spec fn effective_method_text(method: Seq<char>) -> Seq<char> {
    if is_method_token(method) {
        method
    } else {
        "GET"@
    }
}

/// The method a request given `method` is sent with.
pub fn effective_method(method: &str) -> (r: String)
    ensures
        r@ == effective_method_text(method@),
{
    match parse_http_method(method) {
        Some(m) => m,
        None => string_from("GET"),
    }
}

/// A header name a simple CORS request may carry (compared lowercased).
pub open spec fn is_simple_header(lower: Seq<char>) -> bool {
    lower == "accept"@ || lower == "accept-language"@ || lower == "content-language"@ || lower == "content-type"@
}

/// Whether a cross-origin request in `cors` mode needs a preflight: its
/// method is not GET, HEAD or POST, or it carries a header other than the
/// simple ones.
pub open spec fn needs_preflight_spec(cross: bool, mode: Seq<char>, method: Seq<char>, names: Seq<Seq<char>>) -> bool {
    cross && mode == "cors"@ && ((method != "GET"@ && method != "HEAD"@ && method != "POST"@) || exists|i: int|
        0 <= i < names.len() && !is_simple_header(lowercase_of(#[trigger] names[i])))
}

/// Law: a cross-origin `cors` request goes without a preflight exactly when
/// it is simple: its method is GET, HEAD or POST and every header name,
/// lowercased, is `accept`, `accept-language`, `content-language` or
/// `content-type`. Same-origin requests and other modes never need one.
pub proof fn law_preflight_only_for_unsimple_requests(cross: bool, mode: Seq<char>, method: Seq<char>, names: Seq<Seq<char>>)
    ensures
        (method == "GET"@ || method == "HEAD"@ || method == "POST"@) && (forall|i: int| 0 <= i < names.len() ==> {
            let l = lowercase_of(#[trigger] names[i]);
            l == "accept"@ || l == "accept-language"@ || l == "content-language"@ || l == "content-type"@
        }) ==> !needs_preflight_spec(cross, mode, method, names),
        cross && mode == "cors"@ && method != "GET"@ && method != "HEAD"@ && method != "POST"@
            ==> needs_preflight_spec(cross, mode, method, names),
        (cross && mode == "cors"@ && exists|i: int| 0 <= i < names.len() && {
            let l = lowercase_of(#[trigger] names[i]);
            l != "accept"@ && l != "accept-language"@ && l != "content-language"@ && l != "content-type"@
        }) ==> needs_preflight_spec(cross, mode, method, names),
        !cross || mode != "cors"@ ==> !needs_preflight_spec(cross, mode, method, names),
{
}

/// Whether the request needs a CORS preflight; `method` is the effective
/// method and `names` the names of the headers it carries.
pub fn needs_preflight(cross: bool, mode: &str, method: &str, names: &Vec<String>) -> (r: bool)
    ensures
        r == needs_preflight_spec(cross, mode@, method@, names@.map_values(|s: String| s@)),
{
    if !cross || !same_text(mode, "cors") {
        return false;
    }
    if !same_text(method, "GET") && !same_text(method, "HEAD") && !same_text(method, "POST") {
        return true;
    }
    let ghost views = names@.map_values(|s: String| s@);
    let mut i: usize = 0;
    while i < names.len()
        invariant
            i <= names.len(),
            views == names@.map_values(|s: String| s@),
            cross,
            mode@ == "cors"@,
            forall|j: int| 0 <= j < i ==> is_simple_header(lowercase_of(#[trigger] views[j])),
        decreases names.len() - i,
    {
        let lower = to_lowercase(names[i].as_str());
        assert(views[i as int] == names@[i as int]@);
        let simple = same_text(lower.as_str(), "accept") || same_text(lower.as_str(), "accept-language")
            || same_text(lower.as_str(), "content-language") || same_text(lower.as_str(), "content-type");
        if !simple {
            assert(!is_simple_header(lowercase_of(views[i as int])));
            assert(exists|j: int| 0 <= j < views.len() && !is_simple_header(lowercase_of(#[trigger] views[j])));
            return true;
        }
        i = i + 1;
    }
    false
}

/// The names joined with `, `.
pub open spec fn joined_names(names: Seq<Seq<char>>) -> Seq<char>
    decreases names.len(),
{
    if names.len() == 0 {
        Seq::empty()
    } else if names.len() == 1 {
        names[0]
    } else {
        joined_names(names.drop_last()) + ", "@ + names.last()
    }
}

/// The value of the preflight's `Access-Control-Request-Headers`.
pub fn preflight_header_list(names: &Vec<String>) -> (r: String)
    ensures
        r@ == joined_names(names@.map_values(|s: String| s@)),
{
    let ghost views = names@.map_values(|s: String| s@);
    let mut out = String::new();
    let mut i: usize = 0;
    while i < names.len()
        invariant
            i <= names.len(),
            views == names@.map_values(|s: String| s@),
            out@ == joined_names(views.subrange(0, i as int)),
        decreases names.len() - i,
    {
        proof {
            let p = views.subrange(0, i + 1);
            assert(p.drop_last() =~= views.subrange(0, i as int));
            assert(p.last() == names@[i as int]@);
        }
        if i > 0 {
            push_str(&mut out, ", ");
        }
        push_str(&mut out, names[i].as_str());
        i = i + 1;
    }
    assert(views.subrange(0, views.len() as int) =~= views);
    out
}

/// Whether the answer to the OPTIONS request admits the page: its allowed
/// origin must be `*` or the page's origin; a missing header admits none.
pub open spec fn preflight_verdict(page_origin: Seq<char>, allowed: Seq<char>) -> Result<(), Seq<char>> {
    if allowed == "*"@ || allowed == page_origin {
        Ok(())
    } else {
        Err("CORS preflight: Origin '"@ + page_origin + "' not allowed by Access-Control-Allow-Origin '"@ + allowed
            + "'"@)
    }
}

/// The views of an optional header value, a missing one read as empty.
pub open spec fn header_or_empty(v: Option<&str>) -> Seq<char> {
    match v {
        Some(s) => s@,
        None => Seq::empty(),
    }
}

/// Checks the preflight response's `Access-Control-Allow-Origin`.
pub fn check_preflight(page_origin: &str, allowed: Option<&str>) -> (r: Result<(), String>)
    ensures
        verdict_view(r) == preflight_verdict(page_origin@, header_or_empty(allowed)),
{
    let a: &str = match allowed {
        Some(v) => v,
        None => "",
    };
    proof {
        reveal_strlit("");
    }
    assert(a@ == header_or_empty(allowed));
    if same_text(a, "*") || same_text(a, page_origin) {
        Ok(())
    } else {
        let mut m = string_from("CORS preflight: Origin '");
        push_str(&mut m, page_origin);
        push_str(&mut m, "' not allowed by Access-Control-Allow-Origin '");
        push_str(&mut m, a);
        push_str(&mut m, "'");
        Err(m)
    }
}

/// The response check for a cross-origin request in `cors` mode: the
/// CORS-blocked reply where the response's allowed origin is neither `*` nor
/// the page's origin.
pub open spec fn cors_response_verdict(cross: bool, mode: Seq<char>, page_origin: Seq<char>, allowed: Seq<char>, url: Seq<char>) -> Option<Seq<char>> {
    if cross && mode == "cors"@ && allowed != "*"@ && allowed != page_origin {
        Some(cors_blocked_json(url, page_origin, allowed))
    } else {
        None
    }
}

/// Checks a response against CORS.
pub fn check_cors_response(cross: bool, mode: &str, page_origin: &str, allowed: Option<&str>, url: &str) -> (r: Option<String>)
    ensures
        match r {
            Some(j) => cors_response_verdict(cross, mode@, page_origin@, header_or_empty(allowed), url@) == Some(j@),
            None => cors_response_verdict(cross, mode@, page_origin@, header_or_empty(allowed), url@) is None,
        },
{
    let a: &str = match allowed {
        Some(v) => v,
        None => "",
    };
    proof {
        reveal_strlit("");
    }
    assert(a@ == header_or_empty(allowed));
    if cross && same_text(mode, "cors") && !same_text(a, "*") && !same_text(a, page_origin) {
        Some(cors_blocked_reply(url, page_origin, a))
    } else {
        None
    }
}

/// Whether the request needs the default `User-Agent`: none of its header
/// names is `user-agent` in any ASCII case.
pub fn needs_default_user_agent(names: &Vec<String>) -> (r: bool)
    ensures
        r == forall|i: int| 0 <= i < names@.len() ==> !crate::text::eq_ignore_ascii_case(#[trigger] names@[i]@, "user-agent"@),
{
    let ua = chars_of("user-agent");
    let mut i: usize = 0;
    while i < names.len()
        invariant
            i <= names.len(),
            ua@ == "user-agent"@,
            forall|j: int| 0 <= j < i ==> !crate::text::eq_ignore_ascii_case(#[trigger] names@[j]@, "user-agent"@),
        decreases names.len() - i,
    {
        let n = chars_of(names[i].as_str());
        if crate::text::eq_ignore_ascii_case_exec(&n, &ua) {
            return false;
        }
        i = i + 1;
    }
    true
}

// ---------------------------------------------------------------------------
// Redirects
// ---------------------------------------------------------------------------

/// How many redirects a fetch follows.
pub const FETCH_REDIRECT_LIMIT: usize = 10;

/// A redirection status (3xx).
pub fn is_redirection(status: u16) -> (r: bool)
    ensures
        r == (300 <= status <= 399),
{
    300 <= status && status <= 399
}

/// The URL a redirect from `current_url` to `location` leads to.
pub fn redirect_target(current_url: &str, location: &str) -> (r: Option<WebUrl>)
    ensures
        match r {
            Some(u) => match url_parse_result(current_url@) {
                Some(h) => url_join_result(h, location@) == Some(u@),
                None => false,
            },
            None => match url_parse_result(current_url@) {
                Some(h) => url_join_result(h, location@) is None,
                None => true,
            },
        },
{
    match url_parse(current_url) {
        Ok(base) => match url_join(&base, location) {
            Ok(u) => Some(u),
            Err(_) => None,
        },
        Err(_) => None,
    }
}

/// The address of the host of `u` where it is an IP address.
pub fn url_host_address(u: &WebUrl) -> (r: Option<String>)
    ensures
        match r {
            Some(a) => url_host_of(u@) == Some((4u8, a@)) || url_host_of(u@) == Some((6u8, a@)),
            None => match url_host_of(u@) {
                Some((k, _)) => k != 4 && k != 6,
                None => true,
            },
        },
{
    match u.host() {
        Some(UrlHost::Ipv4(ip)) => Some(ip),
        Some(UrlHost::Ipv6(ip)) => Some(ip),
        _ => None,
    }
}

/// What follows a redirect.
#[allow(inconsistent_fields)]
pub enum RedirectStep {
    /// The redirect is refused: this reply goes back to the page.
    Blocked(String),
    /// The request goes on to `url` with `method`, without its body where
    /// `clear_body`; `followed` redirects have now been followed.
    Follow { url: String, method: String, clear_body: bool, followed: usize },
}

/// A status after which the next request is a GET without a body.
pub open spec fn redirect_drops_body(status: u16) -> bool {
    status == 301 || status == 302 || status == 303
}

/// Law: after a 301, 302 or 303 the next request is a GET without a body;
/// after any other status the method and the body are kept.
pub proof fn law_redirect_method_change(status: u16)
    ensures
        status == 301 || status == 302 || status == 303 ==> redirect_drops_body(status),
        status != 301 && status != 302 && status != 303 ==> !redirect_drops_body(status),
{
}

/// Law: which URLs may be fetched. Only the schemes http, https and file
/// are fetched; a file URL, or any URL where private networks are allowed,
/// is never refused for its host; otherwise an IPv4 or IPv6 host that the
/// address check forbids is refused, and so is a domain that names this
/// machine (`localhost`, any `*.localhost`, `127.0.0.1` or `::1`, in any
/// case), while any other host is fetched.
pub proof fn law_fetch_url_verdict(u: UrlRecord, allow_private: bool, ip_forbidden: bool)
    ensures
        url_scheme_of(u) != "http"@ && url_scheme_of(u) != "https"@ && url_scheme_of(u) != "file"@
            ==> fetch_url_verdict(u, allow_private, ip_forbidden) == Err::<(), Seq<char>>(scheme_error(url_scheme_of(u))),
        url_scheme_of(u) == "file"@ ==> fetch_url_verdict(u, allow_private, ip_forbidden) is Ok,
        (url_scheme_of(u) == "http"@ || url_scheme_of(u) == "https"@) && allow_private
            ==> fetch_url_verdict(u, allow_private, ip_forbidden) is Ok,
        (url_scheme_of(u) == "http"@ || url_scheme_of(u) == "https"@) && !allow_private && ip_forbidden
            && url_host_of(u) is Some && (url_host_of(u).unwrap().0 == 4 || url_host_of(u).unwrap().0 == 6)
            ==> fetch_url_verdict(u, allow_private, ip_forbidden) is Err,
        (url_scheme_of(u) == "http"@ || url_scheme_of(u) == "https"@) && !ip_forbidden
            && url_host_of(u) is Some && (url_host_of(u).unwrap().0 == 4 || url_host_of(u).unwrap().0 == 6)
            ==> fetch_url_verdict(u, allow_private, ip_forbidden) is Ok,
        (url_scheme_of(u) == "http"@ || url_scheme_of(u) == "https"@) && !allow_private
            && url_host_of(u) is Some && url_host_of(u).unwrap().0 == 0 ==> (fetch_url_verdict(u, allow_private, ip_forbidden) is Err <==> {
                let l = lowercase_of(url_host_of(u).unwrap().1);
                l == "localhost"@ || l == "127.0.0.1"@ || l == "::1"@ || (l.len() >= 10 && l.subrange(l.len() - 10, l.len() as int) == ".localhost"@)
            }),
        (url_scheme_of(u) == "http"@ || url_scheme_of(u) == "https"@) && url_host_of(u) is None
            ==> fetch_url_verdict(u, allow_private, ip_forbidden) is Ok,
{
    reveal_strlit("http");
    reveal_strlit("https");
    reveal_strlit("file");
    assert("http"@ != "file"@ && "https"@ != "file"@ && "http"@ != "https"@) by {
        assert("http"@.len() == 4 && "file"@.len() == 4 && "https"@.len() == 5);
        assert("http"@[0] != "file"@[0]);
    }
}

/// Law: a response to a cross-origin `cors` request is kept from the page
/// unless its allowed origin is `*` or the page's own origin; responses to
/// same-origin requests and to other modes always reach the page.
pub proof fn law_cors_response(cross: bool, mode: Seq<char>, page_origin: Seq<char>, allowed: Seq<char>, url: Seq<char>)
    ensures
        !cross || mode != "cors"@ ==> cors_response_verdict(cross, mode, page_origin, allowed, url) is None,
        allowed == "*"@ || allowed == page_origin ==> cors_response_verdict(cross, mode, page_origin, allowed, url) is None,
        cross && mode == "cors"@ && allowed != "*"@ && allowed != page_origin ==> cors_response_verdict(
            cross, mode, page_origin, allowed, url) == Some(cors_blocked_json(url, page_origin, allowed)),
{
}

/// Law: a preflight admits the page exactly when the answer's allowed
/// origin is `*` or the page's own origin.
pub proof fn law_preflight_verdict(page_origin: Seq<char>, allowed: Seq<char>)
    ensures
        preflight_verdict(page_origin, allowed) is Ok <==> (allowed == "*"@ || allowed == page_origin),
{
}

/// Law: a request is sent with the page's own method where that is a valid
/// HTTP method (one or more token chars, case kept), and with GET where it
/// is not (for instance an empty method, or one with a space).
pub proof fn law_effective_method(method: Seq<char>)
    ensures
        is_method_token(method) ==> effective_method_text(method) == method,
        method.len() == 0 ==> effective_method_text(method) == "GET"@,
        (exists|i: int| 0 <= i < method.len() && method[i] == ' ') ==> effective_method_text(method) == "GET"@,
{
    if exists|i: int| 0 <= i < method.len() && method[i] == ' ' {
        let i = choose|i: int| 0 <= i < method.len() && method[i] == ' ';
        assert(!is_tchar(method[i]));
    }
}

/// Law: at most ten redirects are followed.
pub proof fn law_redirect_limit()
    ensures
        FETCH_REDIRECT_LIMIT == 10,
{
}

/// Decides on a redirect to `next` after `followed` earlier ones, from a
/// response with `status` to a request made with `method`. A target that
/// may not be fetched is refused; so is the redirect past the limit; after
/// 301, 302 and 303 the request becomes a GET without a body.
pub fn redirect_step(next: &WebUrl, allow_private: bool, ip_forbidden: bool, followed: usize, status: u16, method: &str) -> (r: RedirectStep)
    requires
        followed < usize::MAX,
    ensures
        match fetch_url_verdict(next@, allow_private, ip_forbidden) {
            Err(reason) => r matches RedirectStep::Blocked(j) && j@ == blocked_json(
                next@.href,
                Some("Redirect to forbidden URL blocked: "@ + reason),
            ),
            Ok(()) => if followed + 1 > FETCH_REDIRECT_LIMIT {
                r matches RedirectStep::Blocked(j) && j@ == blocked_json(next@.href, Some("Too many redirects (>10)"@))
            } else {
                r matches RedirectStep::Follow { url, method: m, clear_body, followed: f } && url@ == next@.href && f
                    == followed + 1 && clear_body == redirect_drops_body(status) && m@ == if redirect_drops_body(
                    status,
                ) {
                    "GET"@
                } else {
                    method@
                }
            },
        },
{
    let next_url = next.href();
    match validate_fetch_url(next, allow_private, ip_forbidden) {
        Err(reason) => {
            let mut e = string_from("Redirect to forbidden URL blocked: ");
            push_str(&mut e, reason.as_str());
            return RedirectStep::Blocked(blocked_reply(next_url.as_str(), Some(e.as_str())));
        },
        Ok(()) => {},
    }
    let f = followed + 1;
    if f > FETCH_REDIRECT_LIMIT {
        return RedirectStep::Blocked(blocked_reply(next_url.as_str(), Some("Too many redirects (>10)")));
    }
    if status == 301 || status == 302 || status == 303 {
        RedirectStep::Follow { url: next_url, method: string_from("GET"), clear_body: true, followed: f }
    } else {
        RedirectStep::Follow { url: next_url, method: string_from(method), clear_body: false, followed: f }
    }
}

// ---------------------------------------------------------------------------
// Completion
// ---------------------------------------------------------------------------

/// A buffer limit read from its setting: the setting's value where it is a
/// `usize` as `str::parse` reads one, `default` where it is unset or is not.
pub fn buffer_limit(setting: Option<&str>, default: usize) -> (r: usize)
    ensures
        r == match setting {
            Some(v) => match crate::text::parse_unsigned(v@, usize::MAX as nat) {
                Some(n) => n,
                None => default as nat,
            },
            None => default as nat,
        },
{
    match setting {
        Some(v) => {
            let cs = chars_of(v);
            assert(cs@.subrange(0, cs@.len() as int) =~= cs@);
            match crate::text::parse_unsigned_exec(&cs, 0, cs.len(), usize::MAX as u64) {
                Some(n) => n as usize,
                None => default,
            }
        },
        None => default,
    }
}

/// How many response bodies the network inspector keeps by default.
pub const DEFAULT_BODY_BUFFER_ENTRIES: usize = 128;

/// The largest response body, in bytes, that is kept by default (2 MiB).
pub const DEFAULT_BODY_BUFFER_BYTES: usize = 2097152;

/// How many response bodies are kept, read from the
/// `OBSCURA_NETWORK_BODY_BUFFER_ENTRIES` setting (128 where it is unset or
/// not a number).
pub fn response_body_entry_limit(setting: Option<&str>) -> (r: usize)
    ensures
        r == match setting {
            Some(v) => match crate::text::parse_unsigned(v@, usize::MAX as nat) {
                Some(n) => n,
                None => 128,
            },
            None => 128,
        },
{
    buffer_limit(setting, DEFAULT_BODY_BUFFER_ENTRIES)
}

/// The largest response body kept, in bytes, read from the
/// `OBSCURA_NETWORK_BODY_BUFFER_BYTES` setting (2 MiB where it is unset or
/// not a number).
pub fn response_body_byte_limit(setting: Option<&str>) -> (r: usize)
    ensures
        r == match setting {
            Some(v) => match crate::text::parse_unsigned(v@, usize::MAX as nat) {
                Some(n) => n,
                None => 2097152,
            },
            None => 2097152,
        },
{
    buffer_limit(setting, DEFAULT_BODY_BUFFER_BYTES)
}

/// Completes a fetch whose response came with `status`, `header_pairs`
/// (in the order received) and the raw `bytes`: the body is buffered for
/// the network inspector under the next request id (within the limits, see
/// `ObscuraState::store_response_body`), and the reply carries the body as
/// text and as base64, that id, the requested `url` and the headers (a later
/// value for a name replacing an earlier one).
pub fn finish_fetch(
    state: &mut ObscuraState,
    status: u16,
    header_pairs: &Vec<(String, String)>,
    bytes: &[u8],
    url: &str,
    max_entries: usize,
    max_bytes: usize,
) -> (r: String)
    requires
        old(state).wf(),
        old(state).network_response_body_counter < u64::MAX,
    ensures
        final(state).wf(),
        final(state).network_response_body_counter == old(state).network_response_body_counter + 1,
        r@ == response_json(
            status,
            crate::codec::utf8_lossy_of(bytes@),
            crate::codec::base64_encoded(bytes@),
            fetch_request_id(final(state).network_response_body_counter as nat),
            url@,
            put_all(Seq::empty(), pairs_view(header_pairs@)),
        ),
        max_entries > 0 && max_bytes > 0 && bytes@.len() <= max_bytes ==> final(state).body_of(
            fetch_request_id(final(state).network_response_body_counter as nat),
        ) == Some((crate::codec::utf8_lossy_of(bytes@), false)),
        if max_entries > 0 && max_bytes > 0 && bytes@.len() <= max_bytes {
            final(state).bodies() == old(state).bodies().push((
                fetch_request_id(final(state).network_response_body_counter as nat),
                crate::codec::utf8_lossy_of(bytes@),
                false,
            )).skip(crate::state::evicted(old(state).bodies().len() + 1, max_entries as nat))
        } else {
            final(state).bodies() == old(state).bodies()
        },
        *final(state) == (ObscuraState {
            network_response_bodies: final(state).network_response_bodies,
            network_response_body_counter: final(state).network_response_body_counter,
            ..*old(state)
        }),
{
    let body = crate::codec::utf8_lossy(bytes);
    let body_base64 = crate::codec::base64_encode(bytes);
    let id = state.store_response_body(body.as_str(), bytes.len(), max_entries, max_bytes);
    let headers = collect_headers(header_pairs);
    response_reply(status, body.as_str(), body_base64.as_str(), id.as_str(), url, &headers)
}

/// The fetch timeout in milliseconds read from its setting: the setting's
/// value where it is a `u64` as `str::parse` reads one, 30 000 otherwise.
pub fn fetch_timeout_ms(setting: Option<&str>) -> (r: u64)
    ensures
        r == match setting {
            Some(v) => match crate::text::parse_unsigned(v@, u64::MAX as nat) {
                Some(n) => n,
                None => 30000,
            },
            None => 30000,
        },
{
    match setting {
        Some(v) => {
            let cs = chars_of(v);
            assert(cs@.subrange(0, cs@.len() as int) =~= cs@);
            match crate::text::parse_unsigned_exec(&cs, 0, cs.len(), u64::MAX) {
                Some(n) => n,
                None => 30000,
            }
        },
        None => 30000,
    }
}

} // verus!
