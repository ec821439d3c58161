//! Reverse proxy decisions: the upstream URL of a request, which headers
//! cross the proxy, and the retry policy of idempotent requests.
use crate::config::RouteDef;
use crate::utils::error::AppError;
use crate::utils::text::{
    ascii_lower, concat2, eq_ignore_case, is_prefix, push_char, push_str, starts_with, str_eq, trim_end,
    trim_end_char,
};
use crate::utils::time::Duration;
use crate::server::mapping::key_pos;
use vstd::prelude::*;

verus! {

/// The path sent upstream: the request path, or, when the route strips its
/// prefix, what follows the route path (nothing if the request path does
/// not start with it).
pub open spec fn upstream_path(route: RouteDef, path: Seq<char>) -> Seq<char> {
    if route.config.strip_prefix {
        if is_prefix(route.path@, path) {
            path.subrange(route.path@.len() as int, path.len() as int)
        } else {
            Seq::empty()
        }
    } else {
        path
    }
}

/// The upstream URL of a request: the upstream without trailing `/`, the
/// upstream path, and `?query` when there is a query.
pub open spec fn upstream_url_spec(upstream: Seq<char>, route: RouteDef, path: Seq<char>, query: Option<Seq<char>>) -> Seq<char> {
    trim_end(upstream, '/') + upstream_path(route, path) + match query {
        Some(q) => seq!['?'] + q,
        None => Seq::empty(),
    }
}

/// Builds the upstream URL of a request on `path` with query `query`.
pub fn upstream_url(upstream: &str, route: &RouteDef, path: &str, query: Option<&str>) -> (u: String)
    ensures
        u@ == upstream_url_spec(
            upstream@,
            *route,
            path@,
            match query {
                Some(q) => Some(q@),
                None => None,
            },
        ),
{
    let mut u = trim_end_char(upstream, '/');
    if route.config.strip_prefix {
        if starts_with(path, route.path.as_str()) {
            let v = crate::utils::text::chars_of(path);
            let n = crate::utils::text::chars_of(route.path.as_str()).len();
            let rest = crate::utils::text::slice_chars(&v, n, v.len());
            push_str(&mut u, crate::utils::text::string_from_chars(&rest).as_str());
        }
    } else {
        push_str(&mut u, path);
    }
    let ghost head = u@;
    match query {
        Some(q) => {
            push_char(&mut u, '?');
            push_str(&mut u, q);
            assert(u@ =~= head + (seq!['?'] + q@));
        },
        None => {
            assert(u@ =~= head + Seq::<char>::empty());
        },
    }
    u
}

/// The refusal of a request to an upstream whose breaker is open.
pub fn breaker_open_error(upstream: &str) -> (e: AppError)
    ensures
        e.status == 503,
        e.message@ == "上游熔断中: "@ + upstream@,
{
    AppError::new(503, concat2("上游熔断中: ", upstream))
}

/// Request headers the proxy does not forward: hop-by-hop headers and those
/// it sets itself (host, authorization, cookie, content-length).
pub open spec fn skipped_request_header(name: Seq<char>) -> bool {
    name == "host"@ || name == "authorization"@ || name == "cookie"@ || name == "content-length"@
        || name == "connection"@ || name == "keep-alive"@ || name == "proxy-connection"@ || name
        == "te"@ || name == "trailer"@ || name == "transfer-encoding"@ || name == "upgrade"@
}

/// Response headers the proxy does not pass back: hop-by-hop headers.
pub open spec fn skipped_response_header(name: Seq<char>) -> bool {
    name == "connection"@ || name == "transfer-encoding"@ || name == "keep-alive"@ || name
        == "upgrade"@
}

/// Whether a request header (by its lower-case name) is forwarded upstream.
pub fn forwards_request_header(name: &str) -> (b: bool)
    ensures
        b == !skipped_request_header(name@),
{
    !(str_eq(name, "host") || str_eq(name, "authorization") || str_eq(name, "cookie") || str_eq(
        name,
        "content-length",
    ) || str_eq(name, "connection") || str_eq(name, "keep-alive") || str_eq(
        name,
        "proxy-connection",
    ) || str_eq(name, "te") || str_eq(name, "trailer") || str_eq(name, "transfer-encoding")
        || str_eq(name, "upgrade"))
}

/// Whether a response header (by its lower-case name) is passed back to the client.
pub fn forwards_response_header(name: &str) -> (b: bool)
    ensures
        b == !skipped_response_header(name@),
{
    !(str_eq(name, "connection") || str_eq(name, "transfer-encoding") || str_eq(name, "keep-alive")
        || str_eq(name, "upgrade"))
}

/// The headers forwarded upstream from the request's (name, value) pairs, in
/// order: a header the proxy sets itself or a hop-by-hop header is dropped.
pub open spec fn forwarded_headers(pairs: Seq<(String, String)>) -> Seq<(Seq<char>, Seq<char>)>
    decreases pairs.len(),
{
    if pairs.len() == 0 {
        Seq::empty()
    } else {
        let prev = forwarded_headers(pairs.drop_last());
        if skipped_request_header(pairs.last().0@) {
            prev
        } else {
            prev.push((pairs.last().0@, pairs.last().1@))
        }
    }
}

/// Filters the request headers to forward.
pub fn passthrough_headers(headers: &Vec<(String, String)>) -> (r: Vec<(String, String)>)
    ensures
        crate::utils::pairs::pair_views(r@) == forwarded_headers(headers@),
{
    let mut out: Vec<(String, String)> = Vec::new();
    let mut i: usize = 0;
    while i < headers.len()
        invariant
            i <= headers.len(),
            crate::utils::pairs::pair_views(out@) == forwarded_headers(headers@.take(i as int)),
        decreases headers.len() - i,
    {
        assert(headers@.take(i + 1).drop_last() =~= headers@.take(i as int));
        if forwards_request_header(headers[i].0.as_str()) {
            let ghost before = out@;
            out.push((headers[i].0.clone(), headers[i].1.clone()));
            assert(crate::utils::pairs::pair_views(out@) =~= crate::utils::pairs::pair_views(before).push(
                (headers@[i as int].0@, headers@[i as int].1@),
            ));
        }
        i += 1;
    }
    assert(headers@.take(headers.len() as int) =~= headers@);
    out
}

/// Whether a method is retried on failure: only `GET` and `HEAD` are.
pub fn is_idempotent(method: &str) -> (b: bool)
    ensures
        b == (method@ == "GET"@ || method@ == "HEAD"@),
{
    str_eq(method, "GET") || str_eq(method, "HEAD")
}

/// The wait before retry number `attempt` (from 1): the back-off doubled
/// for each earlier retry, or `None` when that overflows.
pub fn retry_delay(backoff: Duration, attempt: u32) -> (d: Option<Duration>)
    requires
        1 <= attempt <= 32,
    ensures
        match d {
            Some(x) => x.spec_nanos() == backoff.spec_nanos() * vstd::arithmetic::power2::pow2(
                (attempt - 1) as nat,
            ),
            None => backoff.spec_nanos() * vstd::arithmetic::power2::pow2((attempt - 1) as nat)
                > u128::MAX,
        },
{
    let mut factor: u32 = 1;
    let mut k: u32 = 1;
    proof {
        vstd::arithmetic::power2::lemma2_to64();
    }
    while k < attempt
        invariant
            1 <= k <= attempt <= 32,
            factor == vstd::arithmetic::power2::pow2((k - 1) as nat),
        decreases attempt - k,
    {
        proof {
            vstd::arithmetic::power2::lemma_pow2_unfold(k as nat);
            vstd::arithmetic::power2::lemma_pow2_strictly_increases((k - 1) as nat, 31);
            vstd::arithmetic::power2::lemma2_to64();
        }
        factor = factor * 2;
        k += 1;
    }
    backoff.checked_mul(factor)
}

/// What an attempt at an upstream came to.
#[derive(Debug, Clone, Copy, PartialEq, Eq, Structural)]
pub enum AttemptResult {
    /// The upstream answered with this status.
    Answered(u16),
    /// The request did not get an answer.
    TransportError,
}

/// What the proxy does after an attempt.
#[derive(Debug, Clone, Copy, PartialEq, Eq, Structural)]
pub enum AttemptNext {
    /// Hand the answer to the client.
    Deliver,
    /// Try again (after the back-off).
    Retry,
    /// Give up with a bad-gateway error.
    Fail,
}

/// The decision after attempt `attempt` (from 0) of at most `max_retries`
/// retries: a server error (5xx) or a transport error counts as a breaker
/// failure, anything else as a success; an idempotent request is retried
/// while retries remain; a final server error is delivered as it is, a
/// final transport error fails.
pub open spec fn attempt_spec(result: AttemptResult, attempt: u32, max_retries: u32, idempotent: bool) -> (bool, AttemptNext) {
    match result {
        AttemptResult::Answered(status) => if 500 <= status <= 599 {
            (false, if idempotent && attempt < max_retries { AttemptNext::Retry } else { AttemptNext::Deliver })
        } else {
            (true, AttemptNext::Deliver)
        },
        AttemptResult::TransportError => (
            false,
            if idempotent && attempt < max_retries {
                AttemptNext::Retry
            } else {
                AttemptNext::Fail
            },
        ),
    }
}

/// Decides after an attempt: whether it counts as a success for the
/// upstream's breaker, and what to do next.
pub fn after_attempt(result: AttemptResult, attempt: u32, max_retries: u32, idempotent: bool) -> (r: (bool, AttemptNext))
    ensures
        r == attempt_spec(result, attempt, max_retries, idempotent),
{
    let retry = idempotent && attempt < max_retries;
    match result {
        AttemptResult::Answered(status) => {
            if 500 <= status && status <= 599 {
                (false, if retry { AttemptNext::Retry } else { AttemptNext::Deliver })
            } else {
                (true, AttemptNext::Deliver)
            }
        },
        AttemptResult::TransportError => (false, if retry { AttemptNext::Retry } else { AttemptNext::Fail }),
    }
}

/// A request is never retried past its budget, and a non-idempotent one never.
pub proof fn law_retry_bounded(result: AttemptResult, attempt: u32, max_retries: u32, idempotent: bool)
    ensures
        attempt_spec(result, attempt, max_retries, idempotent).1 == AttemptNext::Retry ==> idempotent
            && attempt < max_retries,
{
}

/// After an upstream answers 401 to a request that carried a token, the
/// proxy refreshes the session and tries once more; the retry's answer is
/// delivered unless it is a 401 again, in which case the first answer is.
pub fn retry_after_unauthorized(status: u16, had_token: bool) -> (b: bool)
    ensures
        b == (status == 401 && had_token),
{
    status == 401 && had_token
}

/// Where the bearer token of a proxied request comes from.
#[derive(Debug, Clone, Copy, PartialEq, Eq, Structural)]
pub enum AuthSource {
    /// The route needs no authentication: no token.
    NoToken,
    /// A token exchanged for the upstream (RFC 8693).
    Exchange,
    /// The session's own access token; a request without one is refused.
    SessionToken,
}

/// Where a route's bearer token comes from: none when it needs no
/// authentication, an exchanged one when it configures a token exchange,
/// else the session's access token.
pub fn auth_source(route: &RouteDef) -> (s: AuthSource)
    ensures
        !route.auth_required ==> s == AuthSource::NoToken,
        route.auth_required && route.config.token_exchange is Some ==> s == AuthSource::Exchange,
        route.auth_required && route.config.token_exchange is None ==> s == AuthSource::SessionToken,
{
    if !route.auth_required {
        AuthSource::NoToken
    } else if route.config.token_exchange.is_some() {
        AuthSource::Exchange
    } else {
        AuthSource::SessionToken
    }
}

/// The refusal of an authenticated route without a session token: 401.
pub fn missing_session_error() -> (e: AppError)
    ensures
        e.status == 401,
        e.message@ == "未登录或会话已过期"@,
{
    AppError::unauthorized("未登录或会话已过期")
}

/// A proxied request streams its answer (`sse` mode); every other mode
/// (`http`, `auto`, anything else) is one request and one answer.
pub fn streams(route: &RouteDef) -> (b: bool)
    ensures
        b == (route.config.proxy_mode@ == "sse"@),
{
    str_eq(route.config.proxy_mode.as_str(), "sse")
}

} // verus!
