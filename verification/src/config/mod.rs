//! Configuration model: every section of the gateway's settings, the
//! defaults each field takes when it is absent, and the operations that
//! act on a whole configuration (validation, export masking, secret merge).
use crate::utils::json::Value;
use crate::utils::text::{push_char, push_str};
use crate::utils::time::{nanos_per_sec, Duration};
use vstd::prelude::*;

pub mod defaults;
pub mod env;
pub mod secrets;
pub mod validate;
pub mod issue_text;

verus! {

/// Key/value text pairs (ordered; lookups take the first matching key).
pub type StringPairs = Vec<(String, String)>;

/// Encryption key material for sensitive session fields.
#[derive(Debug, Clone)]
pub struct BffSecretConfig {
    /// Master secret.
    pub secret: String,
    /// Argon2id salt.
    pub salt: String,
}

/// Listening ports.
#[derive(Debug, Clone)]
pub struct ServerConfig {
    pub business_port: u16,
    pub admin_port: u16,
}

/// Outbound HTTP client settings.
#[derive(Debug, Clone)]
pub struct HttpClientConfig {
    pub connect_timeout: Duration,
    pub timeout: Option<Duration>,
    pub pool_max_idle_per_host: usize,
    pub pool_idle_timeout: Duration,
    pub client_cert_path: Option<String>,
    pub client_key_path: Option<String>,
    pub ca_cert_path: Option<String>,
    /// Retries for idempotent proxy requests (0 = none).
    pub retry_max_attempts: u32,
    /// Initial retry back-off.
    pub retry_backoff: Duration,
}

/// Global rate limit.
#[derive(Debug, Clone)]
pub struct RateLimitConfig {
    pub per_second: u64,
    pub burst_size: u32,
    /// Path prefixes that never consume global rate-limit tokens.
    pub skip_path_prefixes: Vec<String>,
}

/// Per-IP limit for authentication endpoints.
#[derive(Debug, Clone)]
pub struct AuthRateLimitConfig {
    pub enabled: bool,
    /// Number of trusted proxies on the right of `X-Forwarded-For` (0 = ignore the header).
    pub trusted_proxies: usize,
    pub per_ip: IpRateLimitBucket,
    /// Path prefixes that are counted.
    pub paths: Vec<String>,
    pub log_over_limit: bool,
}

/// A token bucket setting.
#[derive(Debug, Clone)]
pub struct IpRateLimitBucket {
    pub per_second: u64,
    pub burst_size: u32,
}

/// Cross-origin settings.
#[derive(Debug, Clone)]
pub struct CorsConfig {
    pub allowed_origins: Vec<String>,
    pub permissive: bool,
}

/// A Content-Security-Policy that replaces the global one under a path prefix.
#[derive(Debug, Clone)]
pub struct CspOverrideConfig {
    pub path_prefix: String,
    pub content_security_policy: String,
}

/// Security response headers.
#[derive(Debug, Clone)]
pub struct SecurityHeadersConfig {
    pub content_security_policy: String,
    pub x_frame_options: String,
    pub x_content_type_options: String,
    /// `Strict-Transport-Security` max-age in seconds (0 = not sent).
    pub hsts_max_age: u32,
    pub referrer_policy: String,
    /// Per-path CSP overrides (longest matching prefix wins).
    pub csp_overrides: Vec<CspOverrideConfig>,
}

/// Request body size limit.
#[derive(Debug, Clone)]
pub struct BodyLimitConfig {
    pub max_bytes: usize,
}

/// Circuit breaker settings.
#[derive(Debug, Clone)]
pub struct CircuitBreakerConfig {
    pub failure_threshold: u32,
    pub open_duration: Duration,
}

/// Script engine settings.
#[derive(Debug, Clone)]
pub struct ScriptingConfig {
    pub max_duration: Duration,
}

/// Readiness probe settings.
#[derive(Debug, Clone)]
pub struct HealthConfig {
    pub upstreams: Vec<String>,
    pub probe_timeout: Duration,
    pub allow_degraded: bool,
    pub probe_path: String,
}

/// Pluggable provider kinds.
#[derive(Debug, Clone)]
pub struct ProviderConfig {
    pub session_store: String,
    pub cache: String,
    pub lock: String,
    pub redis_url: String,
}

/// Session cookie settings.
#[derive(Debug, Clone)]
pub struct SessionConfig {
    pub cookie_name: String,
    pub secure: bool,
    pub http_only: bool,
    pub same_site: String,
}

/// Admin port settings.
#[derive(Debug, Clone)]
pub struct AdminConfig {
    pub ip_whitelist: Vec<String>,
    /// `token` or `none`.
    pub auth_mode: String,
    pub auth_token: String,
    pub enable_test_endpoints: bool,
    pub test_endpoint_rate_limit: u32,
}

/// Single-page application assets.
#[derive(Debug, Clone)]
pub struct SpaConfig {
    pub dir: String,
}

/// OIDC providers.
#[derive(Debug, Clone)]
pub struct OidcSection {
    pub providers: Vec<OidcProviderConfig>,
}

/// One OIDC provider.
#[derive(Debug, Clone)]
pub struct OidcProviderConfig {
    pub id: String,
    pub display_name: String,
    pub issuer_url: String,
    pub client_id: String,
    pub client_secret: String,
    pub callback_path: String,
    pub scopes: Vec<String>,
    pub insecure_skip_id_token_verification: bool,
    pub refresh_skew_secs: u64,
}

/// Token refresh middleware settings.
#[derive(Debug, Clone)]
pub struct TokenRefreshConfig {
    pub skip_prefixes: Vec<String>,
}

/// An orchestration pipeline.
#[derive(Debug, Clone)]
pub struct PipelineDef {
    pub strategy: StrategyDef,
    pub steps: Vec<StepDef>,
}

/// Pipeline execution strategy.
#[derive(Debug, Clone)]
pub struct StrategyDef {
    pub timeout: Duration,
    /// `fail_fast` or `continue`.
    pub error_handling: String,
}

/// One pipeline step.
#[derive(Debug, Clone)]
pub struct StepDef {
    pub id: String,
    pub step_type: StepType,
    pub depends_on: Vec<String>,
    pub config: StepConfig,
}

/// Kind of a pipeline step.
#[derive(Debug, Clone, Copy, PartialEq, Eq, Structural)]
pub enum StepType {
    HttpRequest,
    Script,
}

/// Settings of one step.
#[derive(Debug, Clone)]
pub struct StepConfig {
    pub url: Option<String>,
    pub method: String,
    pub timeout: Option<Duration>,
    pub cache_ttl: Option<Duration>,
    pub headers: StringPairs,
    pub body: Option<String>,
    pub script: Option<String>,
}

/// Client authentication of a token exchange request.
#[derive(Debug, Clone, Copy, PartialEq, Eq, Structural)]
pub enum TokenExchangeAuthMethod {
    ClientSecretBasic,
    ClientSecretPost,
}

/// RFC 8693 token exchange settings of a proxy route.
#[derive(Debug, Clone)]
pub struct TokenExchangeConfig {
    pub token_endpoint: Option<String>,
    pub client_id: String,
    pub client_secret: String,
    pub client_auth_method: TokenExchangeAuthMethod,
    pub subject_token_type: String,
    pub audience: Vec<String>,
    pub scope: String,
    pub requested_token_type: String,
    pub actor_token_type: String,
    pub cache_ttl: Duration,
}

/// A route.
#[derive(Debug, Clone)]
pub struct RouteDef {
    pub path: String,
    pub methods: Vec<String>,
    pub description: String,
    pub auth_required: bool,
    pub route_type: RouteType,
    pub config: RouteTypeConfig,
    pub input_mapping: InputMapping,
    pub output_mapping: OutputMapping,
}

/// Kind of a route.
#[derive(Debug, Clone, Copy, PartialEq, Eq, Structural)]
pub enum RouteType {
    Proxy,
    Pipeline,
    Script,
    Static,
}

/// Type-specific settings of a route.
#[derive(Debug, Clone)]
pub struct RouteTypeConfig {
    pub upstream: Option<String>,
    pub strip_prefix: bool,
    pub circuit_breaker_threshold: u32,
    /// `http`, `sse`, `websocket` or `auto`.
    pub proxy_mode: String,
    pub token_exchange: Option<TokenExchangeConfig>,
    pub pipeline: Option<String>,
    pub pipeline_inline: Option<PipelineDef>,
    pub script: Option<String>,
    pub script_inline: Option<String>,
    pub status: Option<u16>,
    pub body: Option<Value>,
    pub headers: Option<StringPairs>,
}

/// Where each input of a route comes from.
#[derive(Debug, Clone)]
pub struct InputMapping {
    pub from_query: StringPairs,
    pub from_body: StringPairs,
    pub from_path: StringPairs,
    pub from_header: StringPairs,
    pub from_session: StringPairs,
    pub from_env: StringPairs,
    pub defaults: Vec<(String, Value)>,
}

/// How a route's output is reshaped.
#[derive(Debug, Clone)]
pub struct OutputMapping {
    pub wrap: Option<String>,
    pub status_map: Vec<(String, u16)>,
    /// Pairs of (new name, original name).
    pub rename: StringPairs,
    pub pick: Vec<String>,
}

/// The whole configuration.
#[derive(Debug, Clone)]
pub struct AppConfig {
    pub server: ServerConfig,
    pub provider: ProviderConfig,
    pub session: SessionConfig,
    pub admin: AdminConfig,
    pub spa: SpaConfig,
    pub oidc: OidcSection,
    pub token_refresh: TokenRefreshConfig,
    pub bff_secret: BffSecretConfig,
    pub http_client: HttpClientConfig,
    pub rate_limit: RateLimitConfig,
    pub auth_rate_limit: AuthRateLimitConfig,
    pub cors: CorsConfig,
    pub security_headers: SecurityHeadersConfig,
    pub body_limit: BodyLimitConfig,
    pub circuit_breaker: CircuitBreakerConfig,
    pub scripting: ScriptingConfig,
    pub health: HealthConfig,
    /// Named pipelines (names are distinct).
    pub pipelines: Vec<(String, PipelineDef)>,
    pub routes: Vec<RouteDef>,
}

/// The marker that replaces a secret on export.
pub open spec fn secret_sentinel() -> Seq<char> {
    seq!['*', '*', '*']
}

/// The marker that replaces a secret on export.
pub fn secret_sentinel_string() -> (s: String)
    ensures
        s@ == secret_sentinel(),
{
    let mut s = String::new();
    push_char(&mut s, '*');
    push_char(&mut s, '*');
    push_char(&mut s, '*');
    s
}

/// `parts` joined with `sep` between neighbours.
pub open spec fn join_with(parts: Seq<Seq<char>>, sep: Seq<char>) -> Seq<char>
    decreases parts.len(),
{
    if parts.len() == 0 {
        Seq::empty()
    } else if parts.len() == 1 {
        parts[0]
    } else {
        join_with(parts.drop_last(), sep) + sep + parts.last()
    }
}

/// The views of a list of strings.
pub open spec fn views(v: Seq<String>) -> Seq<Seq<char>> {
    v.map_values(|s: String| s@)
}

/// `parts` joined with `sep`.
pub fn join_strings(parts: &Vec<String>, sep: &str) -> (s: String)
    ensures
        s@ == join_with(views(parts@), sep@),
{
    let mut s = String::new();
    for i in 0..parts.len()
        invariant
            s@ == join_with(views(parts@.take(i as int)), sep@),
    {
        assert(views(parts@.take(i + 1)).drop_last() =~= views(parts@.take(i as int)));
        assert(views(parts@.take(i + 1)).last() == parts@[i as int]@);
        if i > 0 {
            push_str(&mut s, sep);
        } else {
            assert(views(parts@.take(0)) =~= Seq::<Seq<char>>::empty());
        }
        push_str(&mut s, parts[i].as_str());
    }
    assert(parts@.take(parts.len() as int) =~= parts@);
    s
}

/// The fingerprint text of a token-exchange configuration.
pub open spec fn fingerprint_spec(c: TokenExchangeConfig) -> Seq<char> {
    let ep = match c.token_endpoint {
        Some(e) => e@,
        None => Seq::empty(),
    };
    ep + seq!['|'] + c.client_id@ + seq!['|'] + join_with(views(c.audience@), seq![','])
        + seq!['|'] + c.scope@ + seq!['|'] + c.requested_token_type@
}

impl TokenExchangeConfig {
    /// Cache-key fingerprint: `token_endpoint|client_id|audience(,)|scope|requested_token_type`.
    pub fn fingerprint(&self) -> (s: String)
        ensures
            s@ == fingerprint_spec(*self),
    {
        let mut s = String::new();
        match &self.token_endpoint {
            Some(e) => push_str(&mut s, e.as_str()),
            None => {},
        }
        push_char(&mut s, '|');
        push_str(&mut s, self.client_id.as_str());
        push_char(&mut s, '|');
        let mut comma = String::new();
        push_char(&mut comma, ',');
        let joined = join_strings(&self.audience, comma.as_str());
        push_str(&mut s, joined.as_str());
        push_char(&mut s, '|');
        push_str(&mut s, self.scope.as_str());
        push_char(&mut s, '|');
        push_str(&mut s, self.requested_token_type.as_str());
        assert(s@ =~= fingerprint_spec(*self));
        s
    }
}

} // verus!
