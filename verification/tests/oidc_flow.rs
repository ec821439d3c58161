use bff::config::OidcProviderConfig;
use bff::middleware::token_refresh::{refresh_action_at, starts_with_any, RefreshAction};
use bff::oidc::flow::{
    callback_params, check_flow, landing, login_options, popup_close_html, refresh_lock_key, refreshed_meanwhile,
    session_info, token_lifetime, AuthFlow, CallbackQuery, Landing, LoginQuery,
};
use bff::oidc::tokens::StoredTokens;
use bff::utils::crypto::init;

fn provider(id: &str, skew: u64) -> OidcProviderConfig {
    OidcProviderConfig {
        id: id.into(),
        display_name: id.into(),
        issuer_url: "http://idp.example".into(),
        client_id: "bff".into(),
        client_secret: "s".into(),
        callback_path: "/auth/callback".into(),
        scopes: vec!["openid".into()],
        insecure_skip_id_token_verification: false,
        refresh_skew_secs: skew,
    }
}

fn query(provider: Option<&str>, code: Option<&str>, state: Option<&str>) -> CallbackQuery {
    CallbackQuery {
        provider: provider.map(String::from),
        code: code.map(String::from),
        state: state.map(String::from),
        error: None,
        error_description: None,
    }
}

fn flow(state: &str, redirect: Option<&str>, popup: bool) -> AuthFlow {
    AuthFlow {
        state: state.into(),
        nonce: "n".into(),
        pkce_verifier: "v".into(),
        redirect_after_login: redirect.map(String::from),
        popup,
    }
}

#[test]
fn login_keeps_only_same_origin_targets() {
    let q = LoginQuery { provider: None, redirect: Some("/app?x=1".into()), popup: None };
    assert_eq!(login_options(&q), (Some("/app?x=1".to_string()), false));
    let q = LoginQuery { provider: None, redirect: Some("//evil.com".into()), popup: Some(true) };
    assert_eq!(login_options(&q), (None, true));
    let q = LoginQuery { provider: None, redirect: Some("http://evil.com".into()), popup: Some(false) };
    assert_eq!(login_options(&q), (None, false));
}

#[test]
fn callback_checks_in_order() {
    let ps = vec![provider("a", 60), provider("b", 60)];
    let mut q = query(Some("b"), Some("c1"), Some("s1"));
    let p = callback_params(&q, &ps).unwrap();
    assert_eq!((p.provider, p.code.as_str(), p.state.as_str()), (1, "c1", "s1"));

    q.error = Some("access_denied".into());
    q.error_description = Some("user said no".into());
    let e = callback_params(&q, &ps).unwrap_err();
    assert_eq!((e.status, e.message.as_str()), (401, "IdP 返回错误: access_denied user said no"));
    q.error_description = None;
    assert_eq!(callback_params(&q, &ps).unwrap_err().message, "IdP 返回错误: access_denied ");

    let e = callback_params(&query(Some("zz"), Some("c"), Some("s")), &ps).unwrap_err();
    assert_eq!((e.status, e.message.as_str()), (404, "OIDC provider 不存在: zz"));
    let e = callback_params(&query(None, Some("c"), Some("s")), &ps).unwrap_err();
    assert_eq!((e.status, e.message.as_str()), (400, "存在多个 provider，请通过 ?provider= 指定"));
    let e = callback_params(&query(None, Some("c"), Some("s")), &vec![]).unwrap_err();
    assert_eq!((e.status, e.message.as_str()), (400, "未配置任何 OIDC provider"));
    let e = callback_params(&query(Some("a"), None, Some("s")), &ps).unwrap_err();
    assert_eq!((e.status, e.message.as_str()), (400, "缺少 code"));
    let e = callback_params(&query(Some("a"), Some("c"), None), &ps).unwrap_err();
    assert_eq!((e.status, e.message.as_str()), (400, "缺少 state"));
    let single = vec![provider("only", 60)];
    assert_eq!(callback_params(&query(None, Some("c"), Some("s")), &single).unwrap().provider, 0);
}

#[test]
fn callback_state_must_match_the_flow() {
    assert!(check_flow(Some(&flow("abc", None, false)), "abc").is_ok());
    let e = check_flow(Some(&flow("abc", None, false)), "abd").unwrap_err();
    assert_eq!((e.status, e.message.as_str()), (401, "state 校验失败（CSRF 防护）"));
    let e = check_flow(None, "abc").unwrap_err();
    assert_eq!((e.status, e.message.as_str()), (401, "授权流程不存在或已过期"));
}

#[test]
fn completed_login_lands() {
    assert!(matches!(landing(&flow("s", Some("/x"), true)), Landing::PopupPage));
    match landing(&flow("s", Some("/x"), false)) {
        Landing::Redirect(t) => assert_eq!(t, "/x"),
        Landing::PopupPage => panic!("expected a redirect"),
    }
    match landing(&flow("s", None, false)) {
        Landing::Redirect(t) => assert_eq!(t, "/"),
        Landing::PopupPage => panic!("expected a redirect"),
    }
    assert!(popup_close_html().contains("postMessage('oidc-done'"));
}

#[test]
fn session_bookkeeping() {
    assert_eq!(token_lifetime(Some(120)), 120);
    assert_eq!(token_lifetime(None), 3600);
    assert_eq!(token_lifetime(Some(u64::MAX)), -1);
    assert_eq!(refresh_lock_key(Some("sid")), "bff:refresh_lock:sid");
    assert_eq!(refresh_lock_key(None), "bff:refresh_lock:unknown");
    let info = session_info("sid", "mock", "user-1", 1700);
    assert_eq!((info.id.as_str(), info.provider.as_str(), info.sub.as_str()), ("sid", "mock", "user-1"));
    assert_eq!((info.created_at, info.last_seen), (1700, 1700));
}

#[test]
fn refresh_decisions() {
    let c = init("my-super-secret-key-for-testing", "abcdefghijklmnop").unwrap();
    let providers = vec![provider("mock", 60)];
    let skip = vec!["/static/".to_string()];
    let with_refresh = StoredTokens::new_at(&c, "mock", "u", "a", Some("r"), None, 3600, 1000).unwrap();
    let without_refresh = StoredTokens::new_at(&c, "mock", "u", "a", None, None, 3600, 1000).unwrap();
    // Fresh token: passes.
    assert_eq!(refresh_action_at("/api/x", &skip, Some(&with_refresh), &providers, 2000), RefreshAction::Pass);
    // Inside the skew window: refreshed in the background, if it can be.
    assert_eq!(
        refresh_action_at("/api/x", &skip, Some(&with_refresh), &providers, 4550),
        RefreshAction::RefreshInBackground
    );
    assert_eq!(refresh_action_at("/api/x", &skip, Some(&without_refresh), &providers, 4550), RefreshAction::Pass);
    // Expired: refreshed first.
    assert_eq!(refresh_action_at("/api/x", &skip, Some(&with_refresh), &providers, 4600), RefreshAction::RefreshNow);
    // Skipped paths and anonymous requests pass.
    assert_eq!(refresh_action_at("/static/a.js", &skip, Some(&with_refresh), &providers, 9999), RefreshAction::Pass);
    assert_eq!(refresh_action_at("/api/x", &skip, None, &providers, 9999), RefreshAction::Pass);
    assert!(starts_with_any(&skip, "/static/x"));
    assert!(!starts_with_any(&skip, "/stat"));
    // Another request refreshed the tokens meanwhile.
    assert!(refreshed_meanwhile(Some(&with_refresh), 60, 2000));
    assert!(!refreshed_meanwhile(Some(&with_refresh), 60, 4550));
    assert!(!refreshed_meanwhile(None, 60, 2000));
}
