//! Decisions of the business port: which upstreams the readiness probe
//! checks and how it sums them up, the security headers of a response
//! (with per-path CSP overrides), the upstream of a WebSocket route, and
//! where an unmatched request goes.
use crate::config::{HealthConfig, RouteDef, RouteType, SecurityHeadersConfig};
use crate::server::mapping::{ins, obj_insert};
use crate::server::proxy::upstream_path;
use crate::utils::error::AppError;
use crate::utils::json::{entry_models, Json, Value};
use crate::utils::text::{
    replace_all, replace_str,
    chars_of, concat2, decimal_text, format_u64, is_prefix, push_str, starts_with, str_eq, string_from_chars,
    trim_end, trim_end_char,
};
use crate::utils::pairs::pair_views;
use vstd::prelude::*;

verus! {

/// `a` comes strictly before `b` in code-point order.
pub open spec fn text_lt(a: Seq<char>, b: Seq<char>) -> bool
    decreases a.len(),
{
    if a.len() == 0 {
        b.len() > 0
    } else if b.len() == 0 {
        false
    } else if a[0] != b[0] {
        a[0] < b[0]
    } else {
        text_lt(a.drop_first(), b.drop_first())
    }
}

proof fn lemma_text_lt_total(a: Seq<char>, b: Seq<char>)
    ensures
        a != b ==> (text_lt(a, b) || text_lt(b, a)),
        !(text_lt(a, b) && text_lt(b, a)),
        !text_lt(a, a),
    decreases a.len(),
{
    if a.len() > 0 && b.len() > 0 && a[0] == b[0] {
        lemma_text_lt_total(a.drop_first(), b.drop_first());
        if a != b {
            assert(a.drop_first() != b.drop_first()) by {
                if a.drop_first() == b.drop_first() {
                    assert(a =~= seq![a[0]] + a.drop_first());
                    assert(b =~= seq![b[0]] + b.drop_first());
                }
            }
        }
    } else if a.len() > 0 && b.len() > 0 {
    } else if a.len() == 0 && b.len() == 0 {
        assert(a =~= b);
    }
    if a.len() > 0 {
        lemma_text_lt_total(a.drop_first(), a.drop_first());
    }
}

proof fn lemma_text_lt_trans(a: Seq<char>, b: Seq<char>, c: Seq<char>)
    requires
        text_lt(a, b),
        text_lt(b, c),
    ensures
        text_lt(a, c),
    decreases a.len(),
{
    if a.len() > 0 && b.len() > 0 && c.len() > 0 && a[0] == b[0] && b[0] == c[0] {
        lemma_text_lt_trans(a.drop_first(), b.drop_first(), c.drop_first());
    }
}

fn text_less(a: &str, b: &str) -> (r: bool)
    ensures
        r == text_lt(a@, b@),
{
    let x = chars_of(a);
    let y = chars_of(b);
    let mut i: usize = 0;
    assert(x@.skip(0) =~= x@ && y@.skip(0) =~= y@);
    while i < x.len() && i < y.len() && x[i] == y[i]
        invariant
            x@ == a@,
            y@ == b@,
            i <= x.len(),
            i <= y.len(),
            text_lt(a@, b@) == text_lt(x@.skip(i as int), y@.skip(i as int)),
        decreases x.len() - i,
    {
        assert(x@.skip(i as int).drop_first() =~= x@.skip(i + 1));
        assert(y@.skip(i as int).drop_first() =~= y@.skip(i + 1));
        i += 1;
    }
    if i == x.len() {
        i < y.len()
    } else if i == y.len() {
        false
    } else {
        x[i] < y[i]
    }
}

/// A strictly increasing list of texts.
pub open spec fn strictly_sorted(v: Seq<Seq<char>>) -> bool {
    forall|i: int, j: int| 0 <= i < j < v.len() ==> text_lt(v[i], v[j])
}

/// The upstreams of the proxy routes, each without trailing `/`.
pub open spec fn proxy_upstream(r: RouteDef) -> Option<Seq<char>> {
    if r.route_type == RouteType::Proxy {
        match r.config.upstream {
            Some(u) => Some(trim_end(u@, '/')),
            None => None,
        }
    } else {
        None
    }
}

/// `x` is the text of one of `v`.
pub open spec fn holds_text(v: Seq<String>, x: Seq<char>) -> bool {
    exists|i: int| 0 <= i < v.len() && #[trigger] v[i]@ == x
}

/// One of the first `n` routes is a proxy to upstream `u`.
pub open spec fn proxies(routes: Seq<RouteDef>, n: int, u: Seq<char>) -> bool {
    exists|j: int| 0 <= j < n && #[trigger] proxy_upstream(routes[j]) == Some(u)
}

/// The upstreams the readiness probe checks: the configured list, or, when
/// that is empty, each distinct upstream of the proxy routes in sorted order.
pub open spec fn readiness_upstreams_ok(health: HealthConfig, routes: Seq<RouteDef>, r: Seq<String>) -> bool {
    if health.upstreams@.len() > 0 {
        r.map_values(|s: String| s@) == health.upstreams@.map_values(|s: String| s@)
    } else {
        &&& strictly_sorted(r.map_values(|s: String| s@))
        &&& forall|u: Seq<char>|
            #![trigger holds_text(r, u)]
            #![trigger proxies(routes, routes.len() as int, u)]
            holds_text(r, u) <==> proxies(routes, routes.len() as int, u)
    }
}

/// Inserts `u` into a strictly increasing list, unless it is there.
fn insert_sorted(v: &mut Vec<String>, u: String)
    requires
        strictly_sorted(old(v)@.map_values(|s: String| s@)),
    ensures
        strictly_sorted(final(v)@.map_values(|s: String| s@)),
        forall|x: Seq<char>|
            #![trigger holds_text(final(v)@, x)]
            #![trigger holds_text(old(v)@, x)]
            holds_text(final(v)@, x) <==> (x == u@ || holds_text(old(v)@, x)),
{
    let ghost old_v = v@;
    let mut i: usize = 0;
    while i < v.len() && text_less(v[i].as_str(), u.as_str())
        invariant
            i <= v.len(),
            v@ == old_v,
            forall|j: int| 0 <= j < i ==> text_lt(#[trigger] v@[j]@, u@),
        decreases v.len() - i,
    {
        i += 1;
    }
    if i < v.len() && str_eq(v[i].as_str(), u.as_str()) {
        assert(holds_text(v@, u@)) by {
            assert(v@[i as int]@ == u@);
        }
        return;
    }
    proof {
        if i < v.len() {
            lemma_text_lt_total(v@[i as int]@, u@);
        }
    }
    let ghost ov = old_v.map_values(|s: String| s@);
    proof {
        assert forall|k: int| i <= k < ov.len() implies text_lt(u@, #[trigger] ov[k]) by {
            if k > i {
                lemma_text_lt_trans(u@, ov[i as int], ov[k]);
            }
        }
    }
    v.insert(i, u);
    proof {
        let nv = v@.map_values(|s: String| s@);
        assert forall|a: int, b: int| 0 <= a < b < nv.len() implies text_lt(nv[a], nv[b]) by {
            if b < i {
                assert(nv[a] == ov[a] && nv[b] == ov[b]);
            } else if a < i && b == i {
                assert(nv[a] == ov[a]);
            } else if a < i && b > i {
                assert(nv[a] == ov[a]);
                assert(nv[b] == ov[b - 1]);
                lemma_text_lt_trans(nv[a], u@, nv[b]);
            } else if a == i {
                assert(nv[b] == ov[b - 1]);
            } else {
                assert(nv[a] == ov[a - 1]);
                assert(nv[b] == ov[b - 1]);
            }
        }
        assert(old_v == old(v)@);
        assert forall|x: Seq<char>| holds_text(v@, x) <==> (x == u@ || holds_text(old(v)@, x)) by {
            if holds_text(old_v, x) {
                let k: int = choose|k: int| 0 <= k < old_v.len() && #[trigger] old_v[k]@ == x;
                if k < i {
                    assert(v@[k]@ == x);
                } else {
                    assert(v@[k + 1]@ == x);
                }
            }
            if x == u@ {
                assert(v@[i as int]@ == x);
            }
            if holds_text(v@, x) {
                let k: int = choose|k: int| 0 <= k < v@.len() && #[trigger] v@[k]@ == x;
                if k < i {
                    assert(old_v[k]@ == x);
                } else if k > i {
                    assert(old_v[k - 1]@ == x);
                }
            }
        }
    }
}

/// The upstreams the readiness probe checks.
pub fn readiness_upstreams(health: &HealthConfig, routes: &Vec<RouteDef>) -> (r: Vec<String>)
    ensures
        readiness_upstreams_ok(*health, routes@, r@),
{
    if health.upstreams.len() > 0 {
        let mut out: Vec<String> = Vec::new();
        let mut i: usize = 0;
        while i < health.upstreams.len()
            invariant
                i <= health.upstreams.len(),
                out@.map_values(|s: String| s@) == health.upstreams@.take(i as int).map_values(|s: String| s@),
            decreases health.upstreams.len() - i,
        {
            let ghost before = out@;
            out.push(health.upstreams[i].clone());
            assert(out@ =~= before.push(health.upstreams@[i as int]));
            assert(out@.map_values(|s: String| s@) =~= before.map_values(|s: String| s@).push(health.upstreams@[i as int]@));
            assert(health.upstreams@.take(i + 1).map_values(|s: String| s@) =~= health.upstreams@.take(i as int).map_values(|s: String| s@).push(health.upstreams@[i as int]@));
            i += 1;
        }
        assert(health.upstreams@.take(health.upstreams.len() as int) =~= health.upstreams@);
        return out;
    }
    let mut out: Vec<String> = Vec::new();
    let mut i: usize = 0;
    while i < routes.len()
        invariant
            i <= routes.len(),
            strictly_sorted(out@.map_values(|s: String| s@)),
            forall|u: Seq<char>|
                #![trigger holds_text(out@, u)]
                #![trigger proxies(routes@, i as int, u)]
                holds_text(out@, u) <==> proxies(routes@, i as int, u),
        decreases routes.len() - i,
    {
        let r = &routes[i];
        let ghost before = out@;
        let ghost pu = proxy_upstream(routes@[i as int]);
        if r.route_type == RouteType::Proxy && r.config.upstream.is_some() {
            let t = trim_end_char(r.config.upstream.as_ref().unwrap().as_str(), '/');
            assert(pu == Some(t@));
            insert_sorted(&mut out, t);
        } else {
            assert(pu is None);
        }
        assert forall|x: Seq<char>| holds_text(out@, x) <==> (pu == Some(x) || holds_text(before, x)) by {}
        assert forall|x: Seq<char>| holds_text(out@, x) <==> proxies(routes@, i + 1, x) by {
            if proxies(routes@, i + 1, x) {
                let j: int = choose|j: int| 0 <= j < i + 1 && #[trigger] proxy_upstream(routes@[j]) == Some(x);
                if j < i {
                    assert(proxies(routes@, i as int, x));
                }
            }
            if proxies(routes@, i as int, x) {
                let j: int = choose|j: int| 0 <= j < i && #[trigger] proxy_upstream(routes@[j]) == Some(x);
                assert(proxy_upstream(routes@[j]) == Some(x));
            }
            if pu == Some(x) {
                assert(proxy_upstream(routes@[i as int]) == Some(x));
            }
        }
        i += 1;
    }
    out
}

/// The URL probed for an upstream: the upstream without trailing `/`, then the probe path.
pub fn probe_url(upstream: &str, probe_path: &str) -> (u: String)
    ensures
        u@ == trim_end(upstream@, '/') + probe_path@,
{
    let mut u = trim_end_char(upstream, '/');
    push_str(&mut u, probe_path);
    u
}

/// Whether a probe answer shows the upstream reachable: a success or a 404.
pub fn probe_reachable(status: u16) -> (b: bool)
    ensures
        b == ((200 <= status < 300) || status == 404),
{
    (200 <= status && status < 300) || status == 404
}

/// The result of probing one upstream: `{"reachable", "latency_ms"[, "error"]}`.
pub fn probe_entry(reachable: bool, latency_ms: u64, error: Option<String>) -> (v: Value)
    ensures
        v.model() == Json::Object({
            let base = ins(
                ins(Seq::empty(), "reachable"@, Json::Bool(reachable)),
                "latency_ms"@,
                Json::Number(decimal_text(latency_ms as nat)),
            );
            match error {
                Some(e) => ins(base, "error"@, Json::Str(e@)),
                None => base,
            }
        }),
{
    let mut es: Vec<(String, Value)> = Vec::new();
    assert(entry_models(es@) =~= Seq::<(Seq<char>, Json)>::empty());
    obj_insert(&mut es, "reachable".to_owned(), Value::Bool(reachable));
    obj_insert(&mut es, "latency_ms".to_owned(), Value::Number(format_u64(latency_ms)));
    if let Some(e) = error {
        obj_insert(&mut es, "error".to_owned(), Value::String(e));
    }
    Value::Object(es)
}

/// The readiness answer: 200 `no_upstreams_configured`, 200 `ready`, 200
/// `degraded` (when allowed), or 503 `not_ready`.
pub fn readiness_summary(n_upstreams: usize, all_reachable: bool, allow_degraded: bool) -> (r: (u16, &'static str))
    ensures
        r.0 == if n_upstreams == 0 || all_reachable || allow_degraded {
            200u16
        } else {
            503u16
        },
        r.1@ == if n_upstreams == 0 {
            "no_upstreams_configured"@
        } else if all_reachable {
            "ready"@
        } else if allow_degraded {
            "degraded"@
        } else {
            "not_ready"@
        },
{
    if n_upstreams == 0 {
        (200, "no_upstreams_configured")
    } else if all_reachable {
        (200, "ready")
    } else if allow_degraded {
        (200, "degraded")
    } else {
        (503, "not_ready")
    }
}

/// The byte length of a text.
pub open spec fn byte_len(s: Seq<char>) -> int {
    (vstd::utf8::encode_utf8(s).len() as usize) as int
}

/// The CSP override chosen for `path`: among those whose prefix starts the
/// path, the one with the longest prefix (the last of those if several are as long).
pub open spec fn chosen_override(sec: SecurityHeadersConfig, path: Seq<char>, i: int) -> bool {
    let os = sec.csp_overrides@;
    &&& 0 <= i < os.len()
    &&& is_prefix(os[i].path_prefix@, path)
    &&& forall|j: int| 0 <= j < os.len() && is_prefix(#[trigger] os[j].path_prefix@, path) ==> byte_len(
        os[j].path_prefix@,
    ) <= byte_len(os[i].path_prefix@)
    &&& forall|j: int| i < j < os.len() && is_prefix(#[trigger] os[j].path_prefix@, path) ==> byte_len(
        os[j].path_prefix@,
    ) < byte_len(os[i].path_prefix@)
}

/// The Content-Security-Policy of a response to `path`: that of the chosen
/// override if one is chosen, else the global one.
pub open spec fn csp_spec(sec: SecurityHeadersConfig, path: Seq<char>) -> Seq<char> {
    if exists|i: int| chosen_override(sec, path, i) {
        sec.csp_overrides@[choose|i: int| chosen_override(sec, path, i)].content_security_policy@
    } else {
        sec.content_security_policy@
    }
}

/// At most one override is chosen for a path.
pub proof fn lemma_chosen_override_unique(sec: SecurityHeadersConfig, path: Seq<char>, i: int, k: int)
    requires
        chosen_override(sec, path, i),
        chosen_override(sec, path, k),
    ensures
        i == k,
{
    let os = sec.csp_overrides@;
    assert(is_prefix(os[k].path_prefix@, path));
    assert(is_prefix(os[i].path_prefix@, path));
}

/// The Content-Security-Policy of a response to `path`: that of the chosen
/// override, else the global one.
pub fn csp_for_path<'a>(sec: &'a SecurityHeadersConfig, path: &str) -> (s: &'a str)
    ensures
        s@ == csp_spec(*sec, path@),
        (exists|i: int| chosen_override(*sec, path@, i) && s@ == sec.csp_overrides@[i].content_security_policy@)
            || ((forall|j: int| 0 <= j < sec.csp_overrides@.len() ==> !is_prefix(
            #[trigger] sec.csp_overrides@[j].path_prefix@,
            path@,
        )) && s@ == sec.content_security_policy@),
{
    let os = &sec.csp_overrides;
    let mut best: Option<usize> = None;
    let mut best_len: usize = 0;
    let mut i: usize = 0;
    while i < os.len()
        invariant
            i <= os.len(),
            os@ == sec.csp_overrides@,
            match best {
                Some(b) => {
                    &&& b < i
                    &&& is_prefix(os@[b as int].path_prefix@, path@)
                    &&& best_len == byte_len(os@[b as int].path_prefix@)
                    &&& forall|j: int| 0 <= j < i && is_prefix(#[trigger] os@[j].path_prefix@, path@)
                        ==> byte_len(os@[j].path_prefix@) <= best_len
                    &&& forall|j: int| b < j < i && is_prefix(#[trigger] os@[j].path_prefix@, path@)
                        ==> byte_len(os@[j].path_prefix@) < best_len
                },
                None => forall|j: int| 0 <= j < i ==> !is_prefix(#[trigger] os@[j].path_prefix@, path@),
            },
        decreases os.len() - i,
    {
        if starts_with(path, os[i].path_prefix.as_str()) {
            let len = os[i].path_prefix.as_str().len();
            let take = match best {
                Some(_) => len >= best_len,
                None => true,
            };
            if take {
                best = Some(i);
                best_len = len;
            }
        }
        i += 1;
    }
    match best {
        Some(b) => {
            assert(chosen_override(*sec, path@, b as int));
            proof {
                let c = choose|i: int| chosen_override(*sec, path@, i);
                lemma_chosen_override_unique(*sec, path@, b as int, c);
            }
            os[b].content_security_policy.as_str()
        },
        None => {
            assert(!exists|i: int| chosen_override(*sec, path@, i));
            sec.content_security_policy.as_str()
        },
    }
}

/// One header when `on`, none otherwise.
pub open spec fn opt_header(on: bool, name: Seq<char>, value: Seq<char>) -> Seq<(Seq<char>, Seq<char>)> {
    if on {
        seq![(name, value)]
    } else {
        Seq::empty()
    }
}

/// The security headers of a response to `path`, in order: CSP (when a
/// global policy is set), `x-frame-options`, `x-content-type-options`,
/// HSTS (when its max-age is positive) and `referrer-policy`, each only
/// when set.
pub open spec fn security_headers_spec(sec: SecurityHeadersConfig, path: Seq<char>) -> Seq<(Seq<char>, Seq<char>)> {
    opt_header(sec.content_security_policy@.len() > 0, "content-security-policy"@, csp_spec(sec, path))
        + opt_header(sec.x_frame_options@.len() > 0, "x-frame-options"@, sec.x_frame_options@)
        + opt_header(sec.x_content_type_options@.len() > 0, "x-content-type-options"@, sec.x_content_type_options@)
        + opt_header(
        sec.hsts_max_age > 0,
        "strict-transport-security"@,
        "max-age="@ + decimal_text(sec.hsts_max_age as nat),
    ) + opt_header(sec.referrer_policy@.len() > 0, "referrer-policy"@, sec.referrer_policy@)
}

fn push_header_if(out: &mut Vec<(String, String)>, on: bool, name: &str, value: &str)
    ensures
        pair_views(final(out)@) == pair_views(old(out)@) + opt_header(on, name@, value@),
{
    let ghost before = out@;
    if on {
        out.push((name.to_owned(), value.to_owned()));
        assert(pair_views(out@) =~= pair_views(before) + opt_header(on, name@, value@));
    } else {
        assert(pair_views(out@) =~= pair_views(before) + opt_header(on, name@, value@));
    }
}

/// The security headers of a response to `path`.
pub fn security_headers(sec: &SecurityHeadersConfig, path: &str) -> (r: Vec<(String, String)>)
    ensures
        pair_views(r@) == security_headers_spec(*sec, path@),
{
    let mut out: Vec<(String, String)> = Vec::new();
    assert(pair_views(out@) =~= Seq::<(Seq<char>, Seq<char>)>::empty());
    let csp_on = !sec.content_security_policy.as_str().is_empty();
    push_header_if(&mut out, csp_on, "content-security-policy", csp_for_path(sec, path));
    push_header_if(&mut out, !sec.x_frame_options.as_str().is_empty(), "x-frame-options", sec.x_frame_options.as_str());
    push_header_if(
        &mut out,
        !sec.x_content_type_options.as_str().is_empty(),
        "x-content-type-options",
        sec.x_content_type_options.as_str(),
    );
    let hsts = concat2("max-age=", format_u64(sec.hsts_max_age as u64).as_str());
    push_header_if(&mut out, sec.hsts_max_age > 0, "strict-transport-security", hsts.as_str());
    push_header_if(&mut out, !sec.referrer_policy.as_str().is_empty(), "referrer-policy", sec.referrer_policy.as_str());
    assert(Seq::<(Seq<char>, Seq<char>)>::empty() + opt_header(
        sec.content_security_policy@.len() > 0,
        "content-security-policy"@,
        csp_spec(*sec, path@),
    ) =~= opt_header(sec.content_security_policy@.len() > 0, "content-security-policy"@, csp_spec(*sec, path@)));
    out
}

/// The upstream URL of a WebSocket route for a request on `path`: the
/// route's upstream without trailing `/`, with `http://` turned into `ws://`
/// and `https://` into `wss://`, then the upstream path.
pub open spec fn ws_url_spec(upstream: Seq<char>, route: RouteDef, path: Seq<char>) -> Seq<char> {
    replace_all(replace_all(trim_end(upstream, '/'), "http://"@, "ws://"@), "https://"@, "wss://"@)
        + upstream_path(route, path)
}

/// The upstream URL a WebSocket request on `path` is tunnelled to; a route
/// without an upstream cannot serve it.
pub fn ws_upstream_url(route: &RouteDef, path: &str) -> (r: Result<String, AppError>)
    ensures
        match route.config.upstream {
            Some(u) => r matches Ok(s) && s@ == ws_url_spec(u@, *route, path@),
            None => r matches Err(e) && e.status == 400 && e.message@ == "WebSocket 路由缺少 upstream"@,
        },
{
    let upstream = match &route.config.upstream {
        Some(u) => trim_end_char(u.as_str(), '/'),
        None => {
            return Err(AppError::bad_request("WebSocket 路由缺少 upstream"));
        },
    };
    proof {
        reveal_strlit("http://");
        reveal_strlit("https://");
    }
    let a = replace_str(upstream.as_str(), "http://", "ws://");
    let mut b = replace_str(a.as_str(), "https://", "wss://");
    let full = crate::server::proxy::upstream_url("", route, path, None);
    assert(trim_end(""@, '/') =~= Seq::<char>::empty()) by {
        reveal_strlit("");
    }
    push_str(&mut b, full.as_str());
    assert(b@ =~= ws_url_spec(route.config.upstream->0@, *route, path@));
    Ok(b)
}

/// Where a request that no fixed route serves goes.
#[derive(Debug, Clone, Copy, PartialEq, Eq, Structural)]
pub enum Fallback {
    /// The matched route at this position.
    Route(usize),
    /// A 404: an API path without a route.
    ApiNotFound,
    /// The single-page application.
    Spa,
}

/// Routes a request that no fixed handler serves: to the route chosen for
/// it, else a 404 under `/api/`, else the single-page application.
pub fn fallback_target(routes: &Vec<RouteDef>, method: &str, path: &str) -> (f: Fallback)
    ensures
        match f {
            Fallback::Route(i) => crate::server::route_dispatcher::chosen_route(routes@, method@, path@, i as int),
            Fallback::ApiNotFound => (forall|j: int| 0 <= j < routes@.len() ==> !crate::server::route_dispatcher::route_matches(
                #[trigger] routes@[j],
                method@,
                path@,
            )) && is_prefix("/api/"@, path@),
            Fallback::Spa => (forall|j: int| 0 <= j < routes@.len() ==> !crate::server::route_dispatcher::route_matches(
                #[trigger] routes@[j],
                method@,
                path@,
            )) && !is_prefix("/api/"@, path@),
        },
{
    match crate::server::route_dispatcher::match_route_index(routes, method, path) {
        Some(i) => Fallback::Route(i),
        None => {
            if starts_with(path, "/api/") {
                Fallback::ApiNotFound
            } else {
                Fallback::Spa
            }
        },
    }
}

/// The index page of the single-page application directory.
pub fn spa_index_path(dir: &str) -> (p: String)
    ensures
        p@ == trim_end(dir@, '/') + "/index.html"@,
{
    let mut p = trim_end_char(dir, '/');
    push_str(&mut p, "/index.html");
    p
}

/// Whether cross-origin requests are allowed from anywhere: when set so,
/// or when no origin is listed.
pub fn cors_permissive(cors: &crate::config::CorsConfig) -> (b: bool)
    ensures
        b == (cors.permissive || cors.allowed_origins@.len() == 0),
{
    cors.permissive || cors.allowed_origins.len() == 0
}

} // verus!
