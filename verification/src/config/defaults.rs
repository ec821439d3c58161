//! The value each configuration field takes when it is absent.
use super::{
    AdminConfig, AppConfig, AuthRateLimitConfig, BffSecretConfig, BodyLimitConfig,
    CircuitBreakerConfig, CorsConfig, HealthConfig, HttpClientConfig, InputMapping,
    IpRateLimitBucket, OidcSection, OutputMapping, ProviderConfig, RateLimitConfig,
    RouteTypeConfig, ScriptingConfig, SecurityHeadersConfig, ServerConfig, SessionConfig,
    SpaConfig, StepConfig, StrategyDef, TokenExchangeAuthMethod, TokenExchangeConfig,
    TokenRefreshConfig,
};
use crate::utils::time::{nanos_per_sec, Duration};
use vstd::prelude::*;

verus! {

/// A string equal to a literal.
fn lit(s: &str) -> (r: String)
    ensures
        r@ == s@,
{
    s.to_owned()
}

pub fn default_business_port() -> (p: u16)
    ensures
        p == 8080,
{
    8080
}

pub fn default_admin_port() -> (p: u16)
    ensures
        p == 8443,
{
    8443
}

pub fn default_retry_backoff() -> (d: Duration)
    ensures
        d.spec_nanos() == 100_000_000,
{
    Duration::from_millis(100)
}

pub fn default_connect_timeout() -> (d: Duration)
    ensures
        d.spec_nanos() == 5 * nanos_per_sec(),
{
    Duration::from_secs(5)
}

pub fn default_pool_max_idle() -> (n: usize)
    ensures
        n == 32,
{
    32
}

pub fn default_pool_idle_timeout() -> (d: Duration)
    ensures
        d.spec_nanos() == 90 * nanos_per_sec(),
{
    Duration::from_secs(90)
}

pub fn default_rate_per_second() -> (n: u64)
    ensures
        n == 50,
{
    50
}

pub fn default_rate_burst() -> (n: u32)
    ensures
        n == 500,
{
    500
}

pub fn default_auth_rate_log() -> (b: bool)
    ensures
        b,
{
    true
}

pub fn default_auth_rate_per_second() -> (n: u64)
    ensures
        n == 5,
{
    5
}

pub fn default_auth_rate_burst() -> (n: u32)
    ensures
        n == 20,
{
    20
}

pub fn default_csp() -> (s: String)
    ensures
        s@ == "default-src 'self'; script-src 'self'; style-src 'self' 'unsafe-inline'"@,
{
    lit("default-src 'self'; script-src 'self'; style-src 'self' 'unsafe-inline'")
}

pub fn default_frame_options() -> (s: String)
    ensures
        s@ == "DENY"@,
{
    lit("DENY")
}

pub fn default_content_type_options() -> (s: String)
    ensures
        s@ == "nosniff"@,
{
    lit("nosniff")
}

/// HSTS is off by default (TLS ends at the load balancer).
pub fn default_hsts_max_age() -> (n: u32)
    ensures
        n == 0,
{
    0
}

pub fn default_referrer_policy() -> (s: String)
    ensures
        s@ == "strict-origin-when-cross-origin"@,
{
    lit("strict-origin-when-cross-origin")
}

/// 10 MiB.
pub fn default_body_limit() -> (n: usize)
    ensures
        n == 10 * 1024 * 1024,
{
    10 * 1024 * 1024
}

pub fn default_cb_failure_threshold() -> (n: u32)
    ensures
        n == 5,
{
    5
}

pub fn default_cb_open_duration() -> (d: Duration)
    ensures
        d.spec_nanos() == 30 * nanos_per_sec(),
{
    Duration::from_secs(30)
}

pub fn default_script_max_duration() -> (d: Duration)
    ensures
        d.spec_nanos() == 2 * nanos_per_sec(),
{
    Duration::from_secs(2)
}

pub fn default_probe_timeout() -> (d: Duration)
    ensures
        d.spec_nanos() == 2 * nanos_per_sec(),
{
    Duration::from_secs(2)
}

pub fn default_probe_path() -> (s: String)
    ensures
        s@ == "/"@,
{
    lit("/")
}

pub fn default_provider_kind() -> (s: String)
    ensures
        s@ == "memory"@,
{
    lit("memory")
}

pub fn default_cookie_name() -> (s: String)
    ensures
        s@ == "BFF_SESSION"@,
{
    lit("BFF_SESSION")
}

pub fn default_true() -> (b: bool)
    ensures
        b,
{
    true
}

pub fn default_same_site() -> (s: String)
    ensures
        s@ == "Strict"@,
{
    lit("Strict")
}

pub fn default_ip_whitelist() -> (v: Vec<String>)
    ensures
        v.len() == 2,
        v[0]@ == "127.0.0.1"@,
        v[1]@ == "::1"@,
{
    let mut v = Vec::new();
    v.push(lit("127.0.0.1"));
    v.push(lit("::1"));
    v
}

pub fn default_auth_mode() -> (s: String)
    ensures
        s@ == "token"@,
{
    lit("token")
}

pub fn default_auth_token() -> (s: String)
    ensures
        s@ == "changeme"@,
{
    lit("changeme")
}

pub fn default_test_rate_limit() -> (n: u32)
    ensures
        n == 10,
{
    10
}

pub fn default_spa_dir() -> (s: String)
    ensures
        s@ == "frontend/dist"@,
{
    lit("frontend/dist")
}

pub fn default_callback_path() -> (s: String)
    ensures
        s@ == "/auth/callback"@,
{
    lit("/auth/callback")
}

pub fn default_scopes() -> (v: Vec<String>)
    ensures
        v.len() == 1,
        v[0]@ == "openid"@,
{
    let mut v = Vec::new();
    v.push(lit("openid"));
    v
}

pub fn default_refresh_skew() -> (n: u64)
    ensures
        n == 60,
{
    60
}

pub fn default_token_refresh_skip_prefixes() -> (v: Vec<String>)
    ensures
        v.len() == 8,
        v[0]@ == "/login"@,
        v[1]@ == "/auth/callback"@,
        v[2]@ == "/logout"@,
        v[3]@ == "/live"@,
        v[4]@ == "/ready"@,
        v[5]@ == "/assets"@,
        v[6]@ == "/ws"@,
        v[7]@ == "/sse"@,
{
    let mut v = Vec::new();
    v.push(lit("/login"));
    v.push(lit("/auth/callback"));
    v.push(lit("/logout"));
    v.push(lit("/live"));
    v.push(lit("/ready"));
    v.push(lit("/assets"));
    v.push(lit("/ws"));
    v.push(lit("/sse"));
    v
}

pub fn default_strategy_timeout() -> (d: Duration)
    ensures
        d.spec_nanos() == 10 * nanos_per_sec(),
{
    Duration::from_secs(10)
}

pub fn default_error_handling() -> (s: String)
    ensures
        s@ == "fail_fast"@,
{
    lit("fail_fast")
}

pub fn default_step_method() -> (s: String)
    ensures
        s@ == "GET"@,
{
    lit("GET")
}

pub fn default_proxy_mode() -> (s: String)
    ensures
        s@ == "http"@,
{
    lit("http")
}

pub fn default_subject_token_type() -> (s: String)
    ensures
        s@ == "urn:ietf:params:oauth:token-type:access_token"@,
{
    lit("urn:ietf:params:oauth:token-type:access_token")
}

pub fn default_exchange_cache_ttl() -> (d: Duration)
    ensures
        d.spec_nanos() == 30 * nanos_per_sec(),
{
    Duration::from_secs(30)
}

impl Default for ServerConfig {
    fn default() -> (r: Self)
        ensures
            r.business_port == 8080,
            r.admin_port == 8443,
    {
        ServerConfig { business_port: default_business_port(), admin_port: default_admin_port() }
    }
}

impl Default for HttpClientConfig {
    fn default() -> (r: Self)
        ensures
            r.connect_timeout.spec_nanos() == 5 * nanos_per_sec(),
            r.timeout is None,
            r.pool_max_idle_per_host == 32,
            r.pool_idle_timeout.spec_nanos() == 90 * nanos_per_sec(),
            r.client_cert_path is None,
            r.client_key_path is None,
            r.ca_cert_path is None,
            r.retry_max_attempts == 0,
            r.retry_backoff.spec_nanos() == 100_000_000,
    {
        HttpClientConfig {
            connect_timeout: default_connect_timeout(),
            timeout: None,
            pool_max_idle_per_host: default_pool_max_idle(),
            pool_idle_timeout: default_pool_idle_timeout(),
            client_cert_path: None,
            client_key_path: None,
            ca_cert_path: None,
            retry_max_attempts: 0,
            retry_backoff: default_retry_backoff(),
        }
    }
}

impl Default for RateLimitConfig {
    fn default() -> (r: Self)
        ensures
            r.per_second == 50,
            r.burst_size == 500,
            r.skip_path_prefixes@.len() == 0,
    {
        RateLimitConfig {
            per_second: default_rate_per_second(),
            burst_size: default_rate_burst(),
            skip_path_prefixes: Vec::new(),
        }
    }
}

impl Default for IpRateLimitBucket {
    fn default() -> (r: Self)
        ensures
            r.per_second == 5,
            r.burst_size == 20,
    {
        IpRateLimitBucket {
            per_second: default_auth_rate_per_second(),
            burst_size: default_auth_rate_burst(),
        }
    }
}

impl Default for AuthRateLimitConfig {
    fn default() -> (r: Self)
        ensures
            !r.enabled,
            r.trusted_proxies == 0,
            r.per_ip.per_second == 5,
            r.per_ip.burst_size == 20,
            r.paths@.len() == 0,
            r.log_over_limit,
    {
        AuthRateLimitConfig {
            enabled: false,
            trusted_proxies: 0,
            per_ip: IpRateLimitBucket::default(),
            paths: Vec::new(),
            log_over_limit: default_auth_rate_log(),
        }
    }
}

impl Default for CorsConfig {
    fn default() -> (r: Self)
        ensures
            r.allowed_origins@.len() == 0,
            !r.permissive,
    {
        CorsConfig { allowed_origins: Vec::new(), permissive: false }
    }
}

impl Default for SecurityHeadersConfig {
    fn default() -> (r: Self)
        ensures
            r.content_security_policy@
                == "default-src 'self'; script-src 'self'; style-src 'self' 'unsafe-inline'"@,
            r.x_frame_options@ == "DENY"@,
            r.x_content_type_options@ == "nosniff"@,
            r.hsts_max_age == 0,
            r.referrer_policy@ == "strict-origin-when-cross-origin"@,
            r.csp_overrides@.len() == 0,
    {
        SecurityHeadersConfig {
            content_security_policy: default_csp(),
            x_frame_options: default_frame_options(),
            x_content_type_options: default_content_type_options(),
            hsts_max_age: default_hsts_max_age(),
            referrer_policy: default_referrer_policy(),
            csp_overrides: Vec::new(),
        }
    }
}

impl Default for BodyLimitConfig {
    fn default() -> (r: Self)
        ensures
            r.max_bytes == 10 * 1024 * 1024,
    {
        BodyLimitConfig { max_bytes: default_body_limit() }
    }
}

impl Default for CircuitBreakerConfig {
    fn default() -> (r: Self)
        ensures
            r.failure_threshold == 5,
            r.open_duration.spec_nanos() == 30 * nanos_per_sec(),
    {
        CircuitBreakerConfig {
            failure_threshold: default_cb_failure_threshold(),
            open_duration: default_cb_open_duration(),
        }
    }
}

impl Default for ScriptingConfig {
    fn default() -> (r: Self)
        ensures
            r.max_duration.spec_nanos() == 2 * nanos_per_sec(),
    {
        ScriptingConfig { max_duration: default_script_max_duration() }
    }
}

impl Default for HealthConfig {
    fn default() -> (r: Self)
        ensures
            r.upstreams@.len() == 0,
            r.probe_timeout.spec_nanos() == 2 * nanos_per_sec(),
            !r.allow_degraded,
            r.probe_path@ == "/"@,
    {
        HealthConfig {
            upstreams: Vec::new(),
            probe_timeout: default_probe_timeout(),
            allow_degraded: false,
            probe_path: default_probe_path(),
        }
    }
}

impl Default for ProviderConfig {
    fn default() -> (r: Self)
        ensures
            r.session_store@ == "memory"@,
            r.cache@ == "memory"@,
            r.lock@ == "memory"@,
            r.redis_url@.len() == 0,
    {
        ProviderConfig {
            session_store: default_provider_kind(),
            cache: default_provider_kind(),
            lock: default_provider_kind(),
            redis_url: String::new(),
        }
    }
}

impl Default for SessionConfig {
    /// Secure cookies by default.
    fn default() -> (r: Self)
        ensures
            r.cookie_name@ == "BFF_SESSION"@,
            r.secure,
            r.http_only,
            r.same_site@ == "Strict"@,
    {
        SessionConfig {
            cookie_name: default_cookie_name(),
            secure: true,
            http_only: true,
            same_site: default_same_site(),
        }
    }
}

impl Default for AdminConfig {
    fn default() -> (r: Self)
        ensures
            r.ip_whitelist.len() == 2,
            r.ip_whitelist[0]@ == "127.0.0.1"@,
            r.ip_whitelist[1]@ == "::1"@,
            r.auth_mode@ == "token"@,
            r.auth_token@ == "changeme"@,
            r.enable_test_endpoints,
            r.test_endpoint_rate_limit == 10,
    {
        AdminConfig {
            ip_whitelist: default_ip_whitelist(),
            auth_mode: default_auth_mode(),
            auth_token: default_auth_token(),
            enable_test_endpoints: true,
            test_endpoint_rate_limit: default_test_rate_limit(),
        }
    }
}

impl Default for SpaConfig {
    fn default() -> (r: Self)
        ensures
            r.dir@ == "frontend/dist"@,
    {
        SpaConfig { dir: default_spa_dir() }
    }
}

impl Default for OidcSection {
    fn default() -> (r: Self)
        ensures
            r.providers@.len() == 0,
    {
        OidcSection { providers: Vec::new() }
    }
}

impl Default for TokenRefreshConfig {
    fn default() -> (r: Self)
        ensures
            r.skip_prefixes.len() == 8,
            r.skip_prefixes[0]@ == "/login"@,
            r.skip_prefixes[7]@ == "/sse"@,
    {
        TokenRefreshConfig { skip_prefixes: default_token_refresh_skip_prefixes() }
    }
}

impl Default for StrategyDef {
    fn default() -> (r: Self)
        ensures
            r.timeout.spec_nanos() == 10 * nanos_per_sec(),
            r.error_handling@ == "fail_fast"@,
    {
        StrategyDef { timeout: default_strategy_timeout(), error_handling: default_error_handling() }
    }
}

impl Default for StepConfig {
    fn default() -> (r: Self)
        ensures
            r.url is None,
            r.method@ == "GET"@,
            r.timeout is None,
            r.cache_ttl is None,
            r.headers@.len() == 0,
            r.body is None,
            r.script is None,
    {
        StepConfig {
            url: None,
            method: default_step_method(),
            timeout: None,
            cache_ttl: None,
            headers: Vec::new(),
            body: None,
            script: None,
        }
    }
}

impl Default for TokenExchangeAuthMethod {
    fn default() -> (r: Self)
        ensures
            r == TokenExchangeAuthMethod::ClientSecretBasic,
    {
        TokenExchangeAuthMethod::ClientSecretBasic
    }
}

impl Default for TokenExchangeConfig {
    fn default() -> (r: Self)
        ensures
            r.token_endpoint is None,
            r.client_id@.len() == 0,
            r.client_secret@.len() == 0,
            r.client_auth_method == TokenExchangeAuthMethod::ClientSecretBasic,
            r.subject_token_type@ == "urn:ietf:params:oauth:token-type:access_token"@,
            r.audience@.len() == 0,
            r.scope@.len() == 0,
            r.requested_token_type@ == "urn:ietf:params:oauth:token-type:access_token"@,
            r.actor_token_type@.len() == 0,
            r.cache_ttl.spec_nanos() == 30 * nanos_per_sec(),
    {
        TokenExchangeConfig {
            token_endpoint: None,
            client_id: String::new(),
            client_secret: String::new(),
            client_auth_method: TokenExchangeAuthMethod::ClientSecretBasic,
            subject_token_type: default_subject_token_type(),
            audience: Vec::new(),
            scope: String::new(),
            requested_token_type: default_subject_token_type(),
            actor_token_type: String::new(),
            cache_ttl: default_exchange_cache_ttl(),
        }
    }
}

impl Default for RouteTypeConfig {
    fn default() -> (r: Self)
        ensures
            r.upstream is None,
            !r.strip_prefix,
            r.circuit_breaker_threshold == 0,
            r.proxy_mode@ == "http"@,
            r.token_exchange is None,
            r.pipeline is None,
            r.pipeline_inline is None,
            r.script is None,
            r.script_inline is None,
            r.status is None,
            r.body is None,
            r.headers is None,
    {
        RouteTypeConfig {
            upstream: None,
            strip_prefix: false,
            circuit_breaker_threshold: 0,
            proxy_mode: default_proxy_mode(),
            token_exchange: None,
            pipeline: None,
            pipeline_inline: None,
            script: None,
            script_inline: None,
            status: None,
            body: None,
            headers: None,
        }
    }
}

impl Default for InputMapping {
    fn default() -> (r: Self)
        ensures
            r.from_query@.len() == 0,
            r.from_body@.len() == 0,
            r.from_path@.len() == 0,
            r.from_header@.len() == 0,
            r.from_session@.len() == 0,
            r.from_env@.len() == 0,
            r.defaults@.len() == 0,
    {
        InputMapping {
            from_query: Vec::new(),
            from_body: Vec::new(),
            from_path: Vec::new(),
            from_header: Vec::new(),
            from_session: Vec::new(),
            from_env: Vec::new(),
            defaults: Vec::new(),
        }
    }
}

impl Default for OutputMapping {
    fn default() -> (r: Self)
        ensures
            r.wrap is None,
            r.status_map@.len() == 0,
            r.rename@.len() == 0,
            r.pick@.len() == 0,
    {
        OutputMapping { wrap: None, status_map: Vec::new(), rename: Vec::new(), pick: Vec::new() }
    }
}

impl AppConfig {
    /// A configuration holding the given key material and the default of every other field.
    pub fn with_secret(bff_secret: BffSecretConfig) -> (r: AppConfig)
        ensures
            r.bff_secret == bff_secret,
            r.server.business_port == 8080,
            r.server.admin_port == 8443,
            r.pipelines@.len() == 0,
            r.routes@.len() == 0,
            r.oidc.providers@.len() == 0,
            r.provider.session_store@ == "memory"@,
            r.provider.cache@ == "memory"@,
            r.provider.lock@ == "memory"@,
            r.session.same_site@ == "Strict"@,
            r.admin.auth_mode@ == "token"@,
            r.admin.auth_token@ == "changeme"@,
            r.rate_limit.per_second == 50,
            !r.auth_rate_limit.enabled,
            r.circuit_breaker.failure_threshold == 5,
            r.scripting.max_duration.spec_nanos() == 2 * nanos_per_sec(),
            r.body_limit.max_bytes == 10 * 1024 * 1024,
            r.health.upstreams@.len() == 0,
            r.health.probe_timeout.spec_nanos() == 2 * nanos_per_sec(),
    {
        AppConfig {
            server: ServerConfig::default(),
            provider: ProviderConfig::default(),
            session: SessionConfig::default(),
            admin: AdminConfig::default(),
            spa: SpaConfig::default(),
            oidc: OidcSection::default(),
            token_refresh: TokenRefreshConfig::default(),
            bff_secret,
            http_client: HttpClientConfig::default(),
            rate_limit: RateLimitConfig::default(),
            auth_rate_limit: AuthRateLimitConfig::default(),
            cors: CorsConfig::default(),
            security_headers: SecurityHeadersConfig::default(),
            body_limit: BodyLimitConfig::default(),
            circuit_breaker: CircuitBreakerConfig::default(),
            scripting: ScriptingConfig::default(),
            health: HealthConfig::default(),
            pipelines: Vec::new(),
            routes: Vec::new(),
        }
    }
}

impl Default for BffSecretConfig {
    /// The fallbacks written in `${BFF_SECRET:change-me-in-production}` and
    /// `${BFF_SECRET_SALT:default-salt-at-least-16-bytes}`; the variables
    /// themselves are read where the configuration is loaded.
    fn default() -> (r: Self)
        ensures
            r.secret@ == "change-me-in-production"@,
            r.salt@ == "default-salt-at-least-16-bytes"@,
    {
        BffSecretConfig { secret: lit("change-me-in-production"), salt: lit("default-salt-at-least-16-bytes") }
    }
}

impl Default for AppConfig {
    /// Every section at its default.
    fn default() -> (r: Self)
        ensures
            r.bff_secret.secret@ == "change-me-in-production"@,
            r.bff_secret.salt@ == "default-salt-at-least-16-bytes"@,
            r.server.business_port == 8080,
            r.server.admin_port == 8443,
            r.pipelines@.len() == 0,
            r.routes@.len() == 0,
            r.oidc.providers@.len() == 0,
            r.provider.session_store@ == "memory"@,
            r.provider.cache@ == "memory"@,
            r.provider.lock@ == "memory"@,
            r.session.same_site@ == "Strict"@,
            r.admin.auth_mode@ == "token"@,
            r.admin.auth_token@ == "changeme"@,
            r.rate_limit.per_second == 50,
            !r.auth_rate_limit.enabled,
            r.circuit_breaker.failure_threshold == 5,
            r.scripting.max_duration.spec_nanos() == 2 * nanos_per_sec(),
            r.body_limit.max_bytes == 10 * 1024 * 1024,
            r.health.upstreams@.len() == 0,
            r.health.probe_timeout.spec_nanos() == 2 * nanos_per_sec(),
    {
        AppConfig::with_secret(BffSecretConfig::default())
    }
}

} // verus!
