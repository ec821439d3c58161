use bff::config::validate::{ConfigIssue, ProviderSlot, TokenTypeField};
use bff::config::{
    AppConfig, BffSecretConfig, OidcProviderConfig, PipelineDef, RouteDef, RouteType, RouteTypeConfig,
    StepConfig, StepDef, StepType, StrategyDef, TokenExchangeConfig, InputMapping, OutputMapping,
};
use bff::config::env::{env_var_name, resolve_env_or_default};
use bff::utils::time::Duration;

fn base() -> AppConfig {
    AppConfig::with_secret(BffSecretConfig {
        secret: "change-me-in-production".into(),
        salt: "default-salt-at-least-16-bytes".into(),
    })
}

fn route(path: &str, t: RouteType) -> RouteDef {
    RouteDef {
        path: path.into(),
        methods: vec![],
        description: String::new(),
        auth_required: false,
        route_type: t,
        config: RouteTypeConfig::default(),
        input_mapping: InputMapping::default(),
        output_mapping: OutputMapping::default(),
    }
}

fn provider(id: &str, secret: &str) -> OidcProviderConfig {
    OidcProviderConfig {
        id: id.into(),
        display_name: id.into(),
        issuer_url: "http://idp.example".into(),
        client_id: "bff".into(),
        client_secret: secret.into(),
        callback_path: "/auth/callback".into(),
        scopes: vec!["openid".into()],
        insecure_skip_id_token_verification: false,
        refresh_skew_secs: 60,
    }
}

fn exchange(secret: &str) -> TokenExchangeConfig {
    TokenExchangeConfig { client_id: "bff".into(), client_secret: secret.into(), ..Default::default() }
}

#[test]
fn default_config_is_valid() {
    assert!(base().validate().is_ok());
}

#[test]
fn validate_secret_rules() {
    let mut c = base();
    c.bff_secret.secret = String::new();
    assert_eq!(c.validate(), Err(ConfigIssue::EmptySecret));
    let mut c = base();
    c.bff_secret.salt = "short".into();
    assert_eq!(c.validate(), Err(ConfigIssue::ShortSalt));
}

#[test]
fn validate_server_rules() {
    let mut c = base();
    c.provider.cache = "redis".into();
    assert_eq!(c.validate(), Err(ConfigIssue::UnsupportedProvider { slot: ProviderSlot::Cache }));
    let mut c = base();
    c.server.admin_port = c.server.business_port;
    assert_eq!(c.validate(), Err(ConfigIssue::PortConflict));
    let mut c = base();
    c.session.same_site = "strict".into();
    assert_eq!(c.validate(), Err(ConfigIssue::InvalidSameSite));
    let mut c = base();
    c.admin.auth_token = String::new();
    assert_eq!(c.validate(), Err(ConfigIssue::EmptyAdminToken));
    let mut c = base();
    c.rate_limit.per_second = 0;
    assert_eq!(c.validate(), Err(ConfigIssue::ZeroRateLimit));
}

#[test]
fn validate_auth_rate_rules() {
    let mut c = base();
    c.auth_rate_limit.enabled = true;
    c.auth_rate_limit.paths = vec![];
    assert_eq!(c.validate(), Err(ConfigIssue::EmptyAuthPaths));
    c.auth_rate_limit.paths = vec!["/login".into(), "oauth".into()];
    assert_eq!(c.validate(), Err(ConfigIssue::AuthPathNotAbsolute { index: 1 }));
}

#[test]
fn validate_oidc_and_routes() {
    let mut c = base();
    c.oidc.providers = vec![provider("a", ""), provider("", "")];
    assert_eq!(c.validate(), Err(ConfigIssue::EmptyProviderId { index: 1 }));
    let mut c = base();
    let mut p = provider("a", "");
    p.issuer_url = "not a url".into();
    c.oidc.providers = vec![p];
    assert_eq!(c.validate(), Err(ConfigIssue::InvalidIssuerUrl { index: 0 }));

    let mut c = base();
    c.routes = vec![route("/ok", RouteType::Static), route("api", RouteType::Static)];
    assert_eq!(c.validate(), Err(ConfigIssue::RoutePathNotAbsolute { index: 1 }));
    let mut c = base();
    c.routes = vec![route("/p", RouteType::Proxy)];
    assert_eq!(c.validate(), Err(ConfigIssue::MissingUpstream { index: 0 }));
    c.routes[0].config.upstream = Some("http://up:9000".into());
    assert!(c.validate().is_ok());
    c.routes[0].config.token_exchange = Some(exchange("s"));
    assert_eq!(c.validate(), Err(ConfigIssue::ExchangeWithoutAuth { index: 0 }));
    c.routes[0].auth_required = true;
    assert!(c.validate().is_ok());
    c.routes[0].config.token_exchange.as_mut().unwrap().requested_token_type = "jwt".into();
    assert_eq!(
        c.validate(),
        Err(ConfigIssue::InvalidTokenType { index: 0, field: TokenTypeField::RequestedTokenType })
    );
}

#[test]
fn validate_pipelines_and_limits() {
    let mut c = base();
    let step = StepDef {
        id: "a".into(),
        step_type: StepType::Script,
        depends_on: vec!["missing".into()],
        config: StepConfig::default(),
    };
    c.pipelines = vec![("p".into(), PipelineDef { strategy: StrategyDef::default(), steps: vec![step] })];
    assert_eq!(c.validate(), Err(ConfigIssue::InvalidPipeline { index: 0 }));
    let mut c = base();
    let mut step = StepDef { id: "a".into(), step_type: StepType::Script, depends_on: vec![], config: StepConfig::default() };
    step.config.timeout = Some(Duration::from_secs(301));
    c.pipelines = vec![("p".into(), PipelineDef { strategy: StrategyDef::default(), steps: vec![step] })];
    assert_eq!(c.validate(), Err(ConfigIssue::StepTimeoutTooLong { pipeline: 0, step: 0 }));

    let mut c = base();
    c.circuit_breaker.failure_threshold = 0;
    assert_eq!(c.validate(), Err(ConfigIssue::ZeroBreakerThreshold));
    let mut c = base();
    c.scripting.max_duration = Duration::from_secs(31);
    assert_eq!(c.validate(), Err(ConfigIssue::ScriptTimeoutTooLong));
    let mut c = base();
    c.body_limit.max_bytes = 100 * 1024 * 1024 + 1;
    assert_eq!(c.validate(), Err(ConfigIssue::BodyLimitTooLarge));
    let mut c = base();
    c.health.upstreams = vec!["::bad::".into()];
    assert_eq!(c.validate(), Err(ConfigIssue::InvalidHealthUpstream { index: 0 }));
    let mut c = base();
    c.health.probe_timeout = Duration::from_millis(99);
    assert_eq!(c.validate(), Err(ConfigIssue::ProbeTimeoutTooShort));
}

#[test]
fn export_masks_secrets() {
    let mut c = base();
    c.oidc.providers = vec![provider("a", "real"), provider("b", "")];
    c.admin.auth_token = "test-admin-token".into();
    let mut r = route("/ex", RouteType::Proxy);
    r.config.token_exchange = Some(exchange("real-secret-value"));
    c.routes = vec![r];
    let e = c.sanitized();
    assert_eq!(e.oidc.providers[0].client_secret, "***");
    assert_eq!(e.oidc.providers[1].client_secret, "");
    assert_eq!(e.admin.auth_token, "***");
    assert_eq!(e.routes[0].config.token_exchange.as_ref().unwrap().client_secret, "***");
    assert_eq!(e.oidc.providers[0].id, "a");
}

#[test]
fn import_restores_secret_from_live_route() {
    let mut live = base();
    let mut r = route("/ex", RouteType::Proxy);
    r.config.token_exchange = Some(exchange("real-secret-value"));
    live.routes = vec![r];
    let mut imported = live.clone().sanitized();
    imported.merge_sensitive_secrets(&live);
    assert_eq!(
        imported.routes[0].config.token_exchange.as_ref().unwrap().client_secret,
        "real-secret-value"
    );
    // A route whose live counterpart is missing keeps the sentinel.
    let mut other = live.clone().sanitized();
    other.routes[0].path = "/elsewhere".into();
    other.merge_sensitive_secrets(&live);
    assert_eq!(other.routes[0].config.token_exchange.as_ref().unwrap().client_secret, "***");
}

#[test]
fn import_restores_admin_token_and_client_secrets() {
    let mut live = base();
    live.admin.auth_token = "live-admin-token".into();
    live.oidc.providers = vec![provider("p", "client-secret-c"), provider("q", "")];
    let mut imported = live.clone().sanitized();
    assert_eq!(imported.admin.auth_token, "***");
    imported.merge_sensitive_secrets(&live);
    assert_eq!(imported.admin.auth_token, "live-admin-token");
    assert_eq!(imported.oidc.providers[0].client_secret, "client-secret-c");
    assert_eq!(imported.oidc.providers[1].client_secret, "");
    // A provider unknown to the live configuration keeps the sentinel.
    let mut other = live.clone().sanitized();
    other.oidc.providers[0].id = "new".into();
    other.merge_sensitive_secrets(&live);
    assert_eq!(other.oidc.providers[0].client_secret, "***");
    // An explicit new secret is taken as it is.
    let mut fresh = live.clone().sanitized();
    fresh.admin.auth_token = "rotated".into();
    fresh.merge_sensitive_secrets(&live);
    assert_eq!(fresh.admin.auth_token, "rotated");
}

#[test]
fn app_config_default() {
    let c = AppConfig::default();
    assert_eq!(c.bff_secret.secret, "change-me-in-production");
    assert_eq!(c.bff_secret.salt, "default-salt-at-least-16-bytes");
    assert_eq!(c.server.business_port, 8080);
    assert_eq!(c.admin.auth_token, "changeme");
    assert!(c.validate().is_ok());
    let s = BffSecretConfig::default();
    assert_eq!((s.secret.as_str(), s.salt.as_str()), ("change-me-in-production", "default-salt-at-least-16-bytes"));
}

#[test]
fn env_expressions() {
    assert_eq!(env_var_name("${BFF_SECRET:change-me}").as_deref(), Some("BFF_SECRET"));
    assert_eq!(env_var_name("plain"), None);
    assert_eq!(resolve_env_or_default("${X:fallback}", None), "fallback");
    assert_eq!(resolve_env_or_default("${X:fallback}", Some("set")), "set");
    assert_eq!(resolve_env_or_default("literal", Some("set")), "literal");
}

#[test]
fn route_type_config_default() {
    let rtc = RouteTypeConfig::default();
    assert!(rtc.upstream.is_none());
    assert!(!rtc.strip_prefix);
    assert_eq!(rtc.circuit_breaker_threshold, 0);
    assert!(rtc.pipeline.is_none());
    assert!(rtc.pipeline_inline.is_none());
    assert!(rtc.script.is_none());
    assert!(rtc.script_inline.is_none());
    assert!(rtc.status.is_none());
    assert!(rtc.body.is_none());
    assert!(rtc.headers.is_none());
    assert_eq!(rtc.proxy_mode, "http");
}

#[test]
fn input_mapping_defaults() {
    let im = InputMapping::default();
    assert!(im.from_query.is_empty());
    assert!(im.from_body.is_empty());
    assert!(im.from_path.is_empty());
    assert!(im.from_header.is_empty());
    assert!(im.defaults.is_empty());
}

#[test]
fn output_mapping_defaults() {
    let om = OutputMapping::default();
    assert!(om.wrap.is_none());
    assert!(om.status_map.is_empty());
    assert!(om.rename.is_empty());
    assert!(om.pick.is_empty());
}
