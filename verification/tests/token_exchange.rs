use bff::config::{TokenExchangeAuthMethod, TokenExchangeConfig};
use bff::server::token_exchange::{
    cache_key, cache_ttl_for, classify_error, effective_ttl, exchange_request, interpret_response,
    lock_key, token_endpoint_source, EndpointSource, ExchangeError, TokenExchangeResult,
};
use bff::utils::json::Value;
use bff::utils::time::Duration;

fn obj(entries: Vec<(&str, Value)>) -> Value {
    Value::Object(entries.into_iter().map(|(k, v)| (k.to_string(), v)).collect())
}

fn s(t: &str) -> Value {
    Value::String(t.to_string())
}

fn cfg_with(audience: &str, scope: &str) -> TokenExchangeConfig {
    TokenExchangeConfig {
        client_id: "bff".into(),
        audience: vec![audience.into()],
        scope: scope.into(),
        ..Default::default()
    }
}

#[test]
fn test_cache_key_changes_with_config_and_subject() {
    let cfg_a = cfg_with("admin-api", "admin.api");
    let cfg_b = cfg_with("other-api", "other.api");
    let k1 = cache_key("sid", &cfg_a, "subject-1");
    let k2 = cache_key("sid", &cfg_b, "subject-1");
    let k3 = cache_key("sid", &cfg_a, "subject-2");
    let k4 = cache_key("sid", &cfg_a, "subject-1");
    assert_ne!(k1, k2, "audience/scope 不同应产生不同键");
    assert_ne!(k1, k3, "subject token 不同应产生不同键");
    assert_eq!(k1, k4);
    assert!(k1.starts_with("bff:token_exchange:"), "键应带前缀: {}", k1);
}

#[test]
fn test_effective_ttl_caps() {
    assert_eq!(effective_ttl(Duration::from_secs(300), Some(60)), Duration::from_secs(30));
    assert_eq!(effective_ttl(Duration::from_secs(20), Some(3600)), Duration::from_secs(20));
    assert_eq!(effective_ttl(Duration::from_secs(600), None), Duration::from_secs(300));
    assert_eq!(effective_ttl(Duration::from_secs(300), Some(10)), Duration::from_secs(1));
}

#[test]
fn test_fingerprint_distinguishes_routes() {
    let a = TokenExchangeConfig {
        audience: vec!["admin-api".into()],
        scope: "admin.api".into(),
        ..Default::default()
    };
    let b = TokenExchangeConfig {
        audience: vec!["admin-api".into()],
        scope: "other.api".into(),
        ..Default::default()
    };
    assert_ne!(a.fingerprint(), b.fingerprint());
}

#[test]
fn fingerprint_joins_fields() {
    let mut c = cfg_with("a", "s");
    c.audience.push("b".into());
    c.token_endpoint = Some("http://idp/token".into());
    assert_eq!(
        c.fingerprint(),
        "http://idp/token|bff|a,b|s|urn:ietf:params:oauth:token-type:access_token"
    );
}

#[test]
fn cache_key_shape() {
    let k = cache_key("sess", &cfg_with("x", "y"), "tok");
    let parts: Vec<&str> = k.split(':').collect();
    assert_eq!(parts[0], "bff");
    assert_eq!(parts[1], "token_exchange");
    assert_eq!(parts[2], "sess");
    assert_eq!(parts[3].len(), 16);
    assert_eq!(parts[4].len(), 16);
    assert!(parts[3].chars().all(|c| c.is_ascii_hexdigit() && !c.is_ascii_uppercase()));
    assert_eq!(lock_key(&k), format!("bff:token_exchange_lock:{}", k));
}

#[test]
fn subject_fingerprint_is_sha256_prefix() {
    let k = cache_key("s", &cfg_with("x", "y"), "abc");
    // SHA-256("abc") = ba7816bf8f01cfea414140de5dae2223...
    assert!(k.ends_with(":ba7816bf8f01cfea"), "{}", k);
}

#[test]
fn effective_ttl_zero_cache_ttl_floors_at_one_second() {
    assert_eq!(effective_ttl(Duration::zero(), None), Duration::from_secs(1));
    assert_eq!(effective_ttl(Duration::from_millis(500), None), Duration::from_millis(500));
}

#[test]
fn classify_error_by_code_and_status() {
    assert!(matches!(classify_error(400, "invalid_grant", "d".into()), Err(ExchangeError::InvalidSubject)));
    assert!(matches!(classify_error(400, "invalid_token", "d".into()), Err(ExchangeError::InvalidSubject)));
    assert!(matches!(classify_error(400, "access_denied", "d".into()), Err(ExchangeError::Denied(x)) if x == "d"));
    assert!(matches!(classify_error(400, "invalid_scope", "d".into()), Err(ExchangeError::Denied(_))));
    assert!(matches!(classify_error(401, "invalid_client", "d".into()), Err(ExchangeError::ClientConfig(_))));
    assert!(matches!(classify_error(400, "unsupported_grant_type", "d".into()), Err(ExchangeError::Upstream(_))));
    assert!(matches!(classify_error(503, "", "d".into()), Err(ExchangeError::Upstream(_))));
    assert!(matches!(classify_error(401, "", "d".into()), Err(ExchangeError::ClientConfig(_))));
    assert!(matches!(classify_error(418, "weird", "d".into()), Err(ExchangeError::ClientConfig(_))));
}

#[test]
fn error_answers() {
    assert_eq!(ExchangeError::InvalidSubject.into_app_error().status, 401);
    assert_eq!(ExchangeError::Denied("x".into()).into_app_error().status, 401);
    assert_eq!(ExchangeError::ClientConfig("x".into()).into_app_error().status, 500);
    assert_eq!(ExchangeError::Upstream("x".into()).into_app_error().status, 502);
    assert_eq!(ExchangeError::Upstream("x".into()).metric_label(), "upstream");
    assert!(ExchangeError::InvalidSubject.is_retryable());
    assert!(!ExchangeError::Denied("x".into()).is_retryable());
}

#[test]
fn interpret_success_and_failures() {
    let ok = obj(vec![
        ("access_token", s("exchanged-token-1")),
        ("token_type", s("Bearer")),
        ("expires_in", Value::Number("3600".into())),
        ("scope", s("admin.api")),
    ]);
    let r = interpret_response(200, &ok).unwrap();
    assert_eq!(r.access_token, "exchanged-token-1");
    assert_eq!(r.expires_in, Some(3600));
    assert_eq!(r.scope.as_deref(), Some("admin.api"));

    let no_token = obj(vec![("token_type", s("Bearer"))]);
    assert!(matches!(interpret_response(200, &no_token), Err(ExchangeError::ClientConfig(_))));

    let mac = obj(vec![("access_token", s("t")), ("token_type", s("mac"))]);
    assert!(matches!(interpret_response(200, &mac), Err(ExchangeError::ClientConfig(m)) if m.ends_with("mac")));

    let bad_issued = obj(vec![
        ("access_token", s("t")),
        ("token_type", s("bearer")),
        ("issued_token_type", s("jwt")),
    ]);
    assert!(matches!(interpret_response(200, &bad_issued), Err(ExchangeError::ClientConfig(_))));

    let denied = obj(vec![("error", s("access_denied")), ("error_description", s("user lacks permission"))]);
    assert!(matches!(interpret_response(400, &denied), Err(ExchangeError::Denied(d)) if d == "user lacks permission"));

    assert!(matches!(interpret_response(500, &Value::Null), Err(ExchangeError::Upstream(_))));
}

#[test]
fn exchange_request_forms() {
    let mut cfg = cfg_with("admin-api", "admin.api");
    cfg.client_secret = "bff-secret".into();
    let basic = exchange_request(&cfg, "http://idp/token", "subject");
    assert_eq!(basic.endpoint, "http://idp/token");
    let keys: Vec<&str> = basic.form.iter().map(|(k, _)| k.as_str()).collect();
    assert_eq!(
        keys,
        vec!["grant_type", "subject_token", "subject_token_type", "audience", "scope", "requested_token_type"]
    );
    assert_eq!(basic.form[0].1, "urn:ietf:params:oauth:grant-type:token-exchange");
    assert_eq!(basic.form[1].1, "subject");
    assert_eq!(basic.basic_auth, Some(("bff".to_string(), "bff-secret".to_string())));

    cfg.client_auth_method = TokenExchangeAuthMethod::ClientSecretPost;
    let post = exchange_request(&cfg, "http://idp/token", "subject");
    assert!(post.basic_auth.is_none());
    assert_eq!(post.form[post.form.len() - 2], ("client_id".to_string(), "bff".to_string()));
    assert_eq!(post.form[post.form.len() - 1], ("client_secret".to_string(), "bff-secret".to_string()));

    let mut public = cfg_with("a", "");
    public.client_auth_method = TokenExchangeAuthMethod::ClientSecretBasic;
    let p = exchange_request(&public, "e", "s");
    assert!(p.basic_auth.is_none());
    assert!(!p.form.iter().any(|(k, _)| k == "scope"));
}

#[test]
fn cache_only_successes() {
    let ok: Result<TokenExchangeResult, ExchangeError> = Ok(TokenExchangeResult {
        access_token: "t".into(),
        expires_in: Some(60),
        scope: None,
    });
    assert_eq!(cache_ttl_for(Duration::from_secs(300), &ok), Some(Duration::from_secs(30)));
    let err: Result<TokenExchangeResult, ExchangeError> = Err(ExchangeError::InvalidSubject);
    assert_eq!(cache_ttl_for(Duration::from_secs(300), &err), None);
}

#[test]
fn endpoint_source_prefers_configured() {
    let mut cfg = cfg_with("a", "b");
    cfg.token_endpoint = Some("http://idp/token".into());
    assert!(matches!(token_endpoint_source(&cfg, None, &vec![]), Ok(EndpointSource::Configured(e)) if e == "http://idp/token"));
    cfg.token_endpoint = None;
    assert!(matches!(token_endpoint_source(&cfg, None, &vec![]), Err(ExchangeError::ClientConfig(_))));
    assert!(matches!(token_endpoint_source(&cfg, Some("mock"), &vec![]), Err(ExchangeError::ClientConfig(m)) if m.ends_with("mock")));
    let p = bff::config::OidcProviderConfig {
        id: "mock".into(),
        display_name: "Mock".into(),
        issuer_url: "http://idp".into(),
        client_id: "bff".into(),
        client_secret: String::new(),
        callback_path: "/auth/callback".into(),
        scopes: vec!["openid".into()],
        insecure_skip_id_token_verification: false,
        refresh_skew_secs: 60,
    };
    assert!(matches!(token_endpoint_source(&cfg, Some("mock"), &vec![p]), Ok(EndpointSource::Discover { issuer_url }) if issuer_url == "http://idp"));
}
