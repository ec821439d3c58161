use bff::oidc::handlers::{
    base_url_from, check_unverified_claims, decode_jwt_payload_unverified, jwt_payload_segment,
    logout_url, select_provider, urlencoding, validate_redirect,
};
use bff::oidc::tokens::{flow_key, session_key, StoredTokens, TokenError};
use bff::config::OidcProviderConfig;
use bff::utils::crypto::init;
use bff::utils::json::Value;

#[test]
fn test_validate_redirect() {
    assert!(validate_redirect("/"));
    assert!(validate_redirect("/admin/sessions"));
    assert!(validate_redirect("/api/users"));
    assert!(!validate_redirect("//evil.com"));
    assert!(!validate_redirect("//evil.com/admin"));
    assert!(!validate_redirect("http://evil.com"));
    assert!(!validate_redirect("https://evil.com"));
    assert!(!validate_redirect("evil.com"));
    assert!(!validate_redirect("../admin"));
    assert!(!validate_redirect("\\evil.com"));
    assert!(!validate_redirect("\\\\evil.com"));
    assert!(validate_redirect("/admin/sessions?tab=1"));
    assert!(!validate_redirect("/\\evil.com"));
    assert!(validate_redirect("/a\\b"));
    assert!(!validate_redirect(""));
}

fn provider(id: &str) -> OidcProviderConfig {
    OidcProviderConfig {
        id: id.into(),
        display_name: id.into(),
        issuer_url: format!("http://{}/", id),
        client_id: "bff".into(),
        client_secret: String::new(),
        callback_path: "/auth/callback".into(),
        scopes: vec!["openid".into()],
        insecure_skip_id_token_verification: false,
        refresh_skew_secs: 60,
    }
}

#[test]
fn select_provider_rules() {
    let none: Vec<OidcProviderConfig> = vec![];
    assert_eq!(select_provider(&none, None).unwrap_err().status, 400);
    let one = vec![provider("a")];
    assert_eq!(select_provider(&one, None).unwrap().id, "a");
    let two = vec![provider("a"), provider("b")];
    assert_eq!(select_provider(&two, None).unwrap_err().status, 400);
    assert_eq!(select_provider(&two, Some("b")).unwrap().id, "b");
    let e = select_provider(&two, Some("c")).unwrap_err();
    assert_eq!(e.status, 404);
    assert_eq!(e.message, "OIDC provider 不存在: c");
}

#[test]
fn base_url_and_logout() {
    assert_eq!(base_url_from(Some("localhost:8080"), 8080), "http://localhost:8080");
    assert_eq!(base_url_from(None, 8080), "http://127.0.0.1:8080");
    assert_eq!(
        logout_url("http://idp/", "http://app/", None),
        "http://idp/connect/logout?post_logout_redirect_uri=http%3A%2F%2Fapp%2F"
    );
    assert_eq!(
        logout_url("http://idp", "http://app", Some("a.b")),
        "http://idp/connect/logout?post_logout_redirect_uri=http%3A%2F%2Fapp%2F&id_token_hint=a.b"
    );
    assert_eq!(urlencoding("a b/é"), "a%20b%2F%C3%A9");
}

#[test]
fn keys() {
    assert_eq!(session_key("mock"), "oidc:mock:tokens");
    assert_eq!(flow_key("mock"), "oidc:mock:flow");
}

#[test]
fn jwt_payload() {
    assert_eq!(jwt_payload_segment("h.p.s").as_deref(), Some("p"));
    assert_eq!(jwt_payload_segment("h.p").as_deref(), Some("p"));
    assert_eq!(jwt_payload_segment("nodot"), None);
    // {"a":1} base64url-encoded without padding.
    assert_eq!(decode_jwt_payload_unverified("x.eyJhIjoxfQ.y").unwrap(), b"{\"a\":1}".to_vec());
    assert_eq!(decode_jwt_payload_unverified("nodot").unwrap_err().status, 401);
    assert_eq!(decode_jwt_payload_unverified("x.@@@.y").unwrap_err().status, 401);
}

fn claims(nonce: &str, exp: &str, sub: Option<&str>) -> Value {
    let mut es = vec![
        ("nonce".to_string(), Value::String(nonce.into())),
        ("exp".to_string(), Value::Number(exp.into())),
    ];
    if let Some(s) = sub {
        es.push(("sub".to_string(), Value::String(s.into())));
    }
    Value::Object(es)
}

#[test]
fn unverified_claims() {
    assert_eq!(check_unverified_claims(&claims("n", "200", Some("u")), "n", 100).unwrap(), "u");
    assert_eq!(check_unverified_claims(&claims("x", "200", Some("u")), "n", 100).unwrap_err().message, "nonce 校验失败");
    assert_eq!(check_unverified_claims(&claims("n", "50", Some("u")), "n", 100).unwrap_err().message, "id_token 已过期");
    assert_eq!(check_unverified_claims(&claims("n", "200", None), "n", 100).unwrap_err().message, "id_token 缺少 sub");
    assert_eq!(check_unverified_claims(&claims("n", "-5", Some("u")), "n", -10).unwrap(), "u");
}

#[test]
fn stored_tokens_read_back() {
    let c = init("my-super-secret-key-for-testing", "abcdefghijklmnop").unwrap();
    let t = StoredTokens::new_at(&c, "mock", "user-1", "access-1", Some("refresh-1"), None, 3600, 1000).unwrap();
    assert_eq!(t.expires_at, 4600);
    assert_eq!(t.access_token(&c).unwrap(), "access-1");
    assert_eq!(t.refresh_token(&c).unwrap().as_deref(), Some("refresh-1"));
    assert_eq!(t.id_token(&c).unwrap(), None);
    assert!(!t.is_expiring_at(60, 1000));
    assert!(t.is_expiring_at(60, 4540));
    assert!(!t.is_expiring_at(60, 4539));
    assert!(t.is_expiring_at(0, 4600));
    let other = init("another-secret-key-for", "1234567890123456").unwrap();
    assert!(matches!(t.access_token(&other), Err(TokenError::Crypto(_))));
    let saturated = StoredTokens::new_at(&c, "p", "s", "a", None, None, i64::MAX, 10).unwrap();
    assert_eq!(saturated.expires_at, i64::MAX);
}

#[test]
fn unix_time_readings() {
    assert_eq!(bff::oidc::tokens::unix_time_of(None), 0);
    assert_eq!(bff::oidc::tokens::unix_time_of(Some(1_700_000_000)), 1_700_000_000);
    assert!(bff::oidc::tokens::now_unix() > 0);
}
