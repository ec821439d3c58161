use bff::config::{
    CorsConfig, CspOverrideConfig, HealthConfig, InputMapping, OutputMapping, RouteDef, RouteType, RouteTypeConfig,
    SecurityHeadersConfig, StepConfig, TokenExchangeConfig,
};
use bff::server::business::{
    cors_permissive, csp_for_path, fallback_target, probe_entry, probe_reachable, probe_url, readiness_summary,
    readiness_upstreams, security_headers, spa_index_path, ws_upstream_url, Fallback,
};
use bff::server::proxy::{
    after_attempt, auth_source, breaker_open_error, forwards_request_header, forwards_response_header,
    is_idempotent, missing_session_error, passthrough_headers, retry_after_unauthorized, retry_delay, streams,
    upstream_url, AttemptNext, AttemptResult, AuthSource,
};
use bff::server::route_dispatcher::{
    body_object, inputs_to_string_map, match_route, match_route_index, pipeline_label, query_object,
    script_source, static_response, value_text, ScriptSource,
};
use bff::utils::json::{to_json_text, Value};
use bff::utils::time::Duration;

fn s(t: &str) -> Value {
    Value::String(t.to_string())
}

fn obj(entries: Vec<(&str, Value)>) -> Value {
    Value::Object(entries.into_iter().map(|(k, v)| (k.to_string(), v)).collect())
}

fn route(path: &str, methods: &[&str], t: RouteType) -> RouteDef {
    RouteDef {
        path: path.into(),
        methods: methods.iter().map(|m| m.to_string()).collect(),
        description: String::new(),
        auth_required: false,
        route_type: t,
        config: RouteTypeConfig::default(),
        input_mapping: InputMapping::default(),
        output_mapping: OutputMapping::default(),
    }
}

fn proxy_route(path: &str, upstream: &str, strip: bool) -> RouteDef {
    let mut r = route(path, &[], RouteType::Proxy);
    r.config.upstream = Some(upstream.into());
    r.config.strip_prefix = strip;
    r
}

#[test]
fn upstream_urls() {
    let keep = proxy_route("/api/users", "http://users:8080/", false);
    assert_eq!(upstream_url("http://users:8080/", &keep, "/api/users/1", Some("a=1")), "http://users:8080/api/users/1?a=1");
    let strip = proxy_route("/api/users", "http://users:8080", true);
    assert_eq!(upstream_url("http://users:8080", &strip, "/api/users/1", None), "http://users:8080/1");
    assert_eq!(upstream_url("http://users:8080", &strip, "/other", None), "http://users:8080");
    let e = breaker_open_error("http://users:8080");
    assert_eq!((e.status, e.message.as_str()), (503, "上游熔断中: http://users:8080"));
}

#[test]
fn headers_across_the_proxy() {
    assert!(forwards_request_header("content-type"));
    assert!(forwards_request_header("x-custom"));
    assert!(!forwards_request_header("authorization"));
    assert!(!forwards_request_header("cookie"));
    assert!(!forwards_request_header("host"));
    assert!(forwards_response_header("content-type"));
    assert!(!forwards_response_header("transfer-encoding"));
    let hs = vec![
        ("content-type".to_string(), "application/json".to_string()),
        ("cookie".to_string(), "sid=1".to_string()),
        ("x-trace".to_string(), "t".to_string()),
        ("connection".to_string(), "keep-alive".to_string()),
    ];
    assert_eq!(
        passthrough_headers(&hs),
        vec![
            ("content-type".to_string(), "application/json".to_string()),
            ("x-trace".to_string(), "t".to_string())
        ]
    );
}

#[test]
fn retry_policy() {
    assert!(is_idempotent("GET") && is_idempotent("HEAD"));
    assert!(!is_idempotent("POST") && !is_idempotent("get"));
    let backoff = Duration::from_millis(100);
    assert_eq!(retry_delay(backoff, 1).unwrap().as_millis(), 100);
    assert_eq!(retry_delay(backoff, 3).unwrap().as_millis(), 400);
    assert!(retry_delay(Duration::from_nanos(u128::MAX), 2).is_none());
    assert_eq!(after_attempt(AttemptResult::Answered(503), 0, 2, true), (false, AttemptNext::Retry));
    assert_eq!(after_attempt(AttemptResult::Answered(503), 2, 2, true), (false, AttemptNext::Deliver));
    assert_eq!(after_attempt(AttemptResult::Answered(503), 0, 2, false), (false, AttemptNext::Deliver));
    assert_eq!(after_attempt(AttemptResult::Answered(404), 0, 2, true), (true, AttemptNext::Deliver));
    assert_eq!(after_attempt(AttemptResult::TransportError, 0, 2, true), (false, AttemptNext::Retry));
    assert_eq!(after_attempt(AttemptResult::TransportError, 1, 1, true), (false, AttemptNext::Fail));
    assert!(retry_after_unauthorized(401, true));
    assert!(!retry_after_unauthorized(401, false));
    assert!(!retry_after_unauthorized(403, true));
}

#[test]
fn token_sources_and_modes() {
    let mut r = proxy_route("/api", "http://u", false);
    assert_eq!(auth_source(&r), AuthSource::NoToken);
    r.auth_required = true;
    assert_eq!(auth_source(&r), AuthSource::SessionToken);
    r.config.token_exchange = Some(TokenExchangeConfig::default());
    assert_eq!(auth_source(&r), AuthSource::Exchange);
    let e = missing_session_error();
    assert_eq!((e.status, e.message.as_str()), (401, "未登录或会话已过期"));
    assert!(!streams(&r));
    r.config.proxy_mode = "sse".into();
    assert!(streams(&r));
}

#[test]
fn route_matching_prefers_longest_path() {
    let routes = vec![
        route("/api", &[], RouteType::Proxy),
        route("/api/users", &["get"], RouteType::Pipeline),
        route("/api/users", &["POST"], RouteType::Script),
    ];
    assert_eq!(match_route_index(&routes, "GET", "/api/users/7"), Some(1));
    assert_eq!(match_route_index(&routes, "POST", "/api/users"), Some(2));
    assert_eq!(match_route_index(&routes, "DELETE", "/api/users"), Some(0));
    assert_eq!(match_route_index(&routes, "GET", "/other"), None);
    assert_eq!(match_route(&routes, "GET", "/api/x").unwrap().path, "/api");
    assert_eq!(fallback_target(&routes, "GET", "/api/users"), Fallback::Route(1));
    assert_eq!(fallback_target(&vec![], "GET", "/api/users"), Fallback::ApiNotFound);
    assert_eq!(fallback_target(&vec![], "GET", "/app/page"), Fallback::Spa);
}

#[test]
fn request_inputs() {
    assert_eq!(to_json_text(&query_object("a=1&b=x%20y&a=2")), r#"{"a":"2","b":"x y"}"#);
    assert_eq!(to_json_text(&query_object("")), "{}");
    let mut r = route("/p", &[], RouteType::Pipeline);
    assert_eq!(to_json_text(&body_object(&r, Some(obj(vec![("x", s("1"))])))), "{}");
    r.input_mapping.from_body = vec![("x".into(), "x".into())];
    assert_eq!(to_json_text(&body_object(&r, Some(obj(vec![("x", s("1"))])))), r#"{"x":"1"}"#);
    assert_eq!(to_json_text(&body_object(&r, None)), "{}");
    let inputs = obj(vec![("a", s("t")), ("n", Value::Number("5".into())), ("o", obj(vec![("k", Value::Bool(true))]))]);
    assert_eq!(
        inputs_to_string_map(&inputs),
        vec![
            ("a".to_string(), "t".to_string()),
            ("n".to_string(), "5".to_string()),
            ("o".to_string(), r#"{"k":true}"#.to_string())
        ]
    );
    assert_eq!(value_text(&Value::Null), "null");
    assert!(inputs_to_string_map(&s("x")).is_empty());
}

#[test]
fn script_and_static_routes() {
    let mut r = route("/s", &[], RouteType::Script);
    assert!(script_source(&r).is_err());
    r.config.script_inline = Some("1 + 1".into());
    assert!(matches!(script_source(&r), Ok(ScriptSource::Inline(t)) if t == "1 + 1"));
    r.config.script = Some("named".into());
    assert!(matches!(script_source(&r), Ok(ScriptSource::Named(n)) if n == "named"));
    assert_eq!(pipeline_label(&r), "inline");

    let mut st = route("/static", &[], RouteType::Static);
    let (status, body) = static_response(&st).unwrap();
    assert_eq!((status, to_json_text(&body)), (200, "null".to_string()));
    st.config.status = Some(201);
    st.config.body = Some(obj(vec![("ok", Value::Bool(true))]));
    let (status, body) = static_response(&st).unwrap();
    assert_eq!((status, to_json_text(&body)), (201, r#"{"ok":true}"#.to_string()));
    st.config.status = Some(42);
    let e = static_response(&st).unwrap_err();
    assert_eq!((e.status, e.message.as_str()), (500, "非法状态码"));
}

#[test]
fn readiness_pieces() {
    let health = HealthConfig {
        upstreams: vec![],
        probe_timeout: Duration::from_secs(2),
        allow_degraded: false,
        probe_path: "/health".into(),
    };
    let routes = vec![
        proxy_route("/b", "http://b:1/", false),
        proxy_route("/a", "http://a:1", false),
        proxy_route("/a2", "http://a:1", false),
        route("/p", &[], RouteType::Pipeline),
    ];
    assert_eq!(readiness_upstreams(&health, &routes), vec!["http://a:1".to_string(), "http://b:1".to_string()]);
    let listed = HealthConfig { upstreams: vec!["http://z".into()], ..health.clone() };
    assert_eq!(readiness_upstreams(&listed, &routes), vec!["http://z".to_string()]);
    assert_eq!(probe_url("http://a:1/", "/health"), "http://a:1/health");
    assert!(probe_reachable(204) && probe_reachable(404) && !probe_reachable(500) && !probe_reachable(301));
    assert_eq!(to_json_text(&probe_entry(true, 12, None)), r#"{"reachable":true,"latency_ms":12}"#);
    assert_eq!(
        to_json_text(&probe_entry(false, 3, Some("refused".into()))),
        r#"{"reachable":false,"latency_ms":3,"error":"refused"}"#
    );
    assert_eq!(readiness_summary(0, false, false), (200, "no_upstreams_configured"));
    assert_eq!(readiness_summary(2, true, false), (200, "ready"));
    assert_eq!(readiness_summary(2, false, true), (200, "degraded"));
    assert_eq!(readiness_summary(2, false, false), (503, "not_ready"));
}

#[test]
fn security_and_spa() {
    let sec = SecurityHeadersConfig {
        content_security_policy: "default-src 'self'".into(),
        x_frame_options: "DENY".into(),
        x_content_type_options: "nosniff".into(),
        hsts_max_age: 31536000,
        referrer_policy: "no-referrer".into(),
        csp_overrides: vec![
            CspOverrideConfig { path_prefix: "/editor".into(), content_security_policy: "A".into() },
            CspOverrideConfig { path_prefix: "/editor/monaco".into(), content_security_policy: "B".into() },
        ],
    };
    assert_eq!(csp_for_path(&sec, "/editor/x"), "A");
    assert_eq!(csp_for_path(&sec, "/editor/monaco/w.js"), "B");
    assert_eq!(csp_for_path(&sec, "/"), "default-src 'self'");
    let hs = security_headers(&sec, "/editor/monaco");
    assert_eq!(
        hs,
        vec![
            ("content-security-policy".to_string(), "B".to_string()),
            ("x-frame-options".to_string(), "DENY".to_string()),
            ("x-content-type-options".to_string(), "nosniff".to_string()),
            ("strict-transport-security".to_string(), "max-age=31536000".to_string()),
            ("referrer-policy".to_string(), "no-referrer".to_string()),
        ]
    );
    let quiet = SecurityHeadersConfig { hsts_max_age: 0, x_frame_options: String::new(), ..sec.clone() };
    assert_eq!(security_headers(&quiet, "/").len(), 3);
    assert_eq!(spa_index_path("./dist/"), "./dist/index.html");
    assert!(cors_permissive(&CorsConfig { allowed_origins: vec![], permissive: false }));
    assert!(!cors_permissive(&CorsConfig { allowed_origins: vec!["http://a".into()], permissive: false }));
}

#[test]
fn test_ws_url_strip_prefix_false() {
    // The WebSocket route of the sample configuration: `/ws` to the fake service, path kept.
    let mut ws_route = proxy_route("/ws", "http://localhost:9091", false);
    ws_route.config.proxy_mode = "websocket".into();
    assert!(!ws_route.config.strip_prefix);
    assert_eq!(ws_route.config.proxy_mode, "websocket");
    assert_eq!(ws_upstream_url(&ws_route, "/ws/clock").unwrap(), "ws://localhost:9091/ws/clock");
}

#[test]
fn ws_urls_switch_scheme_and_strip() {
    let tls = proxy_route("/ws", "https://secure:443/", true);
    assert_eq!(ws_upstream_url(&tls, "/ws/clock").unwrap(), "wss://secure:443/clock");
    let mut none = proxy_route("/ws", "http://x", false);
    none.config.upstream = None;
    let e = ws_upstream_url(&none, "/ws").unwrap_err();
    assert_eq!((e.status, e.message.as_str()), (400, "WebSocket 路由缺少 upstream"));
}

#[test]
fn test_sse_url_strip_prefix_false() {
    // The SSE route of the sample configuration: `/sse` to the fake service, path kept.
    let mut sse_route = proxy_route("/sse", "http://localhost:9091", false);
    sse_route.config.proxy_mode = "sse".into();
    assert!(!sse_route.config.strip_prefix);
    assert_eq!(sse_route.config.proxy_mode, "sse");
    assert!(streams(&sse_route));
    assert_eq!(upstream_url("http://localhost:9091", &sse_route, "/sse/clock", None), "http://localhost:9091/sse/clock");
}

#[test]
fn step_config_default_is_get() {
    assert_eq!(StepConfig::default().method, "GET");
}
