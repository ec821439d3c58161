//! Whole-configuration validation. The rules are checked in a fixed order
//! and the first one that fails is reported, with the position of the
//! offending entry in the list it belongs to.
use crate::config::{
    AppConfig, OidcProviderConfig, PipelineDef, RouteDef, RouteType, StepDef,
};
use crate::orchestration::dag::{acyclic, deps_resolve, ids_valid, validate_pipeline};
use crate::utils::text::{is_prefix, starts_with, starts_with_c, starts_with_char, str_eq};
use crate::utils::time::{nanos_per_sec, Duration};
use crate::utils::urls::{is_valid_url, url_parses};
use vstd::prelude::*;

verus! {

/// One of the pluggable provider kinds.
#[derive(Debug, Clone, Copy, PartialEq, Eq, Structural)]
pub enum ProviderSlot {
    SessionStore,
    Cache,
    Lock,
}

/// One of the two token-type fields of a token exchange.
#[derive(Debug, Clone, Copy, PartialEq, Eq, Structural)]
pub enum TokenTypeField {
    SubjectTokenType,
    RequestedTokenType,
}

/// The first rule a configuration breaks. Each index points into the list
/// the rule is about (auth paths, OIDC providers, pipelines, a pipeline's
/// steps, routes, health upstreams).
#[derive(Debug, Clone, Copy, PartialEq, Eq, Structural)]
pub enum ConfigIssue {
    /// `bff_secret.secret` is empty.
    EmptySecret,
    /// `bff_secret.salt` is shorter than 16 bytes.
    ShortSalt,
    /// A provider kind other than `memory`.
    UnsupportedProvider { slot: ProviderSlot },
    /// The business port is 0 or equals the admin port.
    PortConflict,
    /// `session.same_site` is not `Strict`, `Lax` or `None`.
    InvalidSameSite,
    /// Token authentication without a token.
    EmptyAdminToken,
    /// `rate_limit.per_second` is 0.
    ZeroRateLimit,
    /// `auth_rate_limit.per_ip.per_second` is 0 while enabled.
    ZeroAuthRatePerSecond,
    /// `auth_rate_limit.per_ip.burst_size` is 0 while enabled.
    ZeroAuthBurst,
    /// `auth_rate_limit.paths` is empty while enabled.
    EmptyAuthPaths,
    /// An auth rate-limit path does not start with `/`.
    AuthPathNotAbsolute { index: usize },
    /// An OIDC provider without an id.
    EmptyProviderId { index: usize },
    /// An OIDC provider whose issuer URL does not parse.
    InvalidIssuerUrl { index: usize },
    /// An OIDC provider without a client id.
    EmptyProviderClientId { index: usize },
    /// A pipeline whose steps do not form a valid graph.
    InvalidPipeline { index: usize },
    /// A step timeout above 300 s.
    StepTimeoutTooLong { pipeline: usize, step: usize },
    /// A route path that does not start with `/`.
    RoutePathNotAbsolute { index: usize },
    /// A proxy route without an upstream.
    MissingUpstream { index: usize },
    /// A proxy route whose upstream URL does not parse.
    InvalidUpstream { index: usize },
    /// A token exchange whose endpoint URL does not parse.
    InvalidTokenEndpoint { index: usize },
    /// A token exchange without a client id.
    EmptyExchangeClientId { index: usize },
    /// A token exchange with a zero cache TTL.
    ZeroExchangeCacheTtl { index: usize },
    /// A token-type field that is not a token-type URN.
    InvalidTokenType { index: usize, field: TokenTypeField },
    /// A token exchange on a route that does not require authentication.
    ExchangeWithoutAuth { index: usize },
    /// `circuit_breaker.failure_threshold` is 0.
    ZeroBreakerThreshold,
    /// `scripting.max_duration` above 30 s.
    ScriptTimeoutTooLong,
    /// `body_limit.max_bytes` above 100 MiB.
    BodyLimitTooLarge,
    /// A health upstream URL that does not parse.
    InvalidHealthUpstream { index: usize },
    /// `health.probe_timeout` below 100 ms.
    ProbeTimeoutTooShort,
}

/// `a` if it holds an issue, else `b`.
pub open spec fn either(a: Option<ConfigIssue>, b: Option<ConfigIssue>) -> Option<ConfigIssue> {
    if a is Some {
        a
    } else {
        b
    }
}

/// `issue` when `broken` holds.
pub open spec fn flag(broken: bool, issue: ConfigIssue) -> Option<ConfigIssue> {
    if broken {
        Some(issue)
    } else {
        None
    }
}

/// The prefix every token-type URN starts with.
pub open spec fn token_type_urn() -> Seq<char> {
    "urn:ietf:params:oauth:token-type:"@
}

/// Secret and salt.
pub open spec fn secret_issue(c: AppConfig) -> Option<ConfigIssue> {
    either(
        flag(c.bff_secret.secret@.len() == 0, ConfigIssue::EmptySecret),
        flag(
            (vstd::utf8::encode_utf8(c.bff_secret.salt@).len() as usize) < 16,
            ConfigIssue::ShortSalt,
        ),
    )
}

/// Provider kinds (only `memory` is supported).
pub open spec fn provider_issue(c: AppConfig) -> Option<ConfigIssue> {
    either(
        flag(
            c.provider.session_store@ != "memory"@,
            ConfigIssue::UnsupportedProvider { slot: ProviderSlot::SessionStore },
        ),
        either(
            flag(
                c.provider.cache@ != "memory"@,
                ConfigIssue::UnsupportedProvider { slot: ProviderSlot::Cache },
            ),
            flag(
                c.provider.lock@ != "memory"@,
                ConfigIssue::UnsupportedProvider { slot: ProviderSlot::Lock },
            ),
        ),
    )
}

/// Ports, cookie policy, admin token and global rate.
pub open spec fn server_issue(c: AppConfig) -> Option<ConfigIssue> {
    either(
        flag(
            !(c.server.business_port > 0 && c.server.business_port != c.server.admin_port),
            ConfigIssue::PortConflict,
        ),
        either(
            flag(
                !(c.session.same_site@ == "Strict"@ || c.session.same_site@ == "Lax"@
                    || c.session.same_site@ == "None"@),
                ConfigIssue::InvalidSameSite,
            ),
            either(
                flag(
                    c.admin.auth_mode@ == "token"@ && c.admin.auth_token@.len() == 0,
                    ConfigIssue::EmptyAdminToken,
                ),
                flag(c.rate_limit.per_second == 0, ConfigIssue::ZeroRateLimit),
            ),
        ),
    )
}

/// The first auth rate-limit path, from `i` on, that does not start with `/`.
pub open spec fn auth_path_issue(paths: Seq<String>, i: int) -> Option<ConfigIssue>
    decreases paths.len() - i,
{
    if i < 0 || i >= paths.len() {
        None
    } else {
        either(
            flag(
                !starts_with_c(paths[i]@, '/'),
                ConfigIssue::AuthPathNotAbsolute { index: i as usize },
            ),
            auth_path_issue(paths, i + 1),
        )
    }
}

/// The per-IP limit of authentication endpoints.
pub open spec fn auth_rate_issue(c: AppConfig) -> Option<ConfigIssue> {
    if !c.auth_rate_limit.enabled {
        None
    } else {
        either(
            flag(c.auth_rate_limit.per_ip.per_second == 0, ConfigIssue::ZeroAuthRatePerSecond),
            either(
                flag(c.auth_rate_limit.per_ip.burst_size == 0, ConfigIssue::ZeroAuthBurst),
                either(
                    flag(c.auth_rate_limit.paths@.len() == 0, ConfigIssue::EmptyAuthPaths),
                    auth_path_issue(c.auth_rate_limit.paths@, 0),
                ),
            ),
        )
    }
}

/// One OIDC provider, at position `i`.
pub open spec fn oidc_provider_issue(p: OidcProviderConfig, i: int) -> Option<ConfigIssue> {
    either(
        flag(p.id@.len() == 0, ConfigIssue::EmptyProviderId { index: i as usize }),
        either(
            flag(!url_parses(p.issuer_url@), ConfigIssue::InvalidIssuerUrl { index: i as usize }),
            flag(p.client_id@.len() == 0, ConfigIssue::EmptyProviderClientId { index: i as usize }),
        ),
    )
}

/// The first OIDC provider issue from position `i` on.
pub open spec fn oidc_issue(ps: Seq<OidcProviderConfig>, i: int) -> Option<ConfigIssue>
    decreases ps.len() - i,
{
    if i < 0 || i >= ps.len() {
        None
    } else {
        either(oidc_provider_issue(ps[i], i), oidc_issue(ps, i + 1))
    }
}

/// The first step, from `j` on, of pipeline `p` whose timeout exceeds 300 s.
pub open spec fn step_timeout_issue(steps: Seq<StepDef>, p: int, j: int) -> Option<ConfigIssue>
    decreases steps.len() - j,
{
    if j < 0 || j >= steps.len() {
        None
    } else {
        either(
            flag(
                steps[j].config.timeout matches Some(t) && t.spec_nanos() > 300 * nanos_per_sec(),
                ConfigIssue::StepTimeoutTooLong { pipeline: p as usize, step: j as usize },
            ),
            step_timeout_issue(steps, p, j + 1),
        )
    }
}

/// One pipeline, at position `i`.
pub open spec fn pipeline_issue(def: PipelineDef, i: int) -> Option<ConfigIssue> {
    either(
        flag(
            !(ids_valid(def.steps@) && deps_resolve(def.steps@) && acyclic(def.steps@)),
            ConfigIssue::InvalidPipeline { index: i as usize },
        ),
        step_timeout_issue(def.steps@, i, 0),
    )
}

/// The first pipeline issue from position `i` on.
pub open spec fn pipelines_issue(ps: Seq<(String, PipelineDef)>, i: int) -> Option<ConfigIssue>
    decreases ps.len() - i,
{
    if i < 0 || i >= ps.len() {
        None
    } else {
        either(pipeline_issue(ps[i].1, i), pipelines_issue(ps, i + 1))
    }
}

/// The upstream of a proxy route, at position `i`.
pub open spec fn upstream_issue(r: RouteDef, i: int) -> Option<ConfigIssue> {
    if r.route_type == RouteType::Proxy {
        match r.config.upstream {
            None => Some(ConfigIssue::MissingUpstream { index: i as usize }),
            Some(u) => flag(!url_parses(u@), ConfigIssue::InvalidUpstream { index: i as usize }),
        }
    } else {
        None
    }
}

/// The token exchange of the route at position `i`.
pub open spec fn exchange_issue(r: RouteDef, i: int) -> Option<ConfigIssue> {
    match r.config.token_exchange {
        None => None,
        Some(te) => either(
            match te.token_endpoint {
                Some(ep) => flag(
                    !url_parses(ep@),
                    ConfigIssue::InvalidTokenEndpoint { index: i as usize },
                ),
                None => None,
            },
            either(
                flag(
                    te.client_id@.len() == 0,
                    ConfigIssue::EmptyExchangeClientId { index: i as usize },
                ),
                either(
                    flag(
                        te.cache_ttl.spec_nanos() == 0,
                        ConfigIssue::ZeroExchangeCacheTtl { index: i as usize },
                    ),
                    either(
                        flag(
                            !is_prefix(token_type_urn(), te.subject_token_type@),
                            ConfigIssue::InvalidTokenType {
                                index: i as usize,
                                field: TokenTypeField::SubjectTokenType,
                            },
                        ),
                        either(
                            flag(
                                !is_prefix(token_type_urn(), te.requested_token_type@),
                                ConfigIssue::InvalidTokenType {
                                    index: i as usize,
                                    field: TokenTypeField::RequestedTokenType,
                                },
                            ),
                            flag(
                                !r.auth_required,
                                ConfigIssue::ExchangeWithoutAuth { index: i as usize },
                            ),
                        ),
                    ),
                ),
            ),
        ),
    }
}

/// One route, at position `i`.
pub open spec fn route_issue(r: RouteDef, i: int) -> Option<ConfigIssue> {
    either(
        flag(
            !starts_with_c(r.path@, '/'),
            ConfigIssue::RoutePathNotAbsolute { index: i as usize },
        ),
        either(upstream_issue(r, i), exchange_issue(r, i)),
    )
}

/// The first route issue from position `i` on.
pub open spec fn routes_issue(rs: Seq<RouteDef>, i: int) -> Option<ConfigIssue>
    decreases rs.len() - i,
{
    if i < 0 || i >= rs.len() {
        None
    } else {
        either(route_issue(rs[i], i), routes_issue(rs, i + 1))
    }
}

/// The first health upstream, from `i` on, whose URL does not parse.
pub open spec fn health_issue(us: Seq<String>, i: int) -> Option<ConfigIssue>
    decreases us.len() - i,
{
    if i < 0 || i >= us.len() {
        None
    } else {
        either(
            flag(!url_parses(us[i]@), ConfigIssue::InvalidHealthUpstream { index: i as usize }),
            health_issue(us, i + 1),
        )
    }
}

/// Breaker threshold, script and body limits, health probing.
pub open spec fn limits_issue(c: AppConfig) -> Option<ConfigIssue> {
    either(
        flag(c.circuit_breaker.failure_threshold == 0, ConfigIssue::ZeroBreakerThreshold),
        either(
            flag(
                c.scripting.max_duration.spec_nanos() > 30 * nanos_per_sec(),
                ConfigIssue::ScriptTimeoutTooLong,
            ),
            either(
                flag(c.body_limit.max_bytes > 100 * 1024 * 1024, ConfigIssue::BodyLimitTooLarge),
                either(
                    health_issue(c.health.upstreams@, 0),
                    flag(
                        c.health.probe_timeout.spec_nanos() < 100_000_000,
                        ConfigIssue::ProbeTimeoutTooShort,
                    ),
                ),
            ),
        ),
    )
}

/// The first rule that `c` breaks, in the order the rules are checked.
pub open spec fn first_issue(c: AppConfig) -> Option<ConfigIssue> {
    either(
        secret_issue(c),
        either(
            provider_issue(c),
            either(
                server_issue(c),
                either(
                    auth_rate_issue(c),
                    either(
                        oidc_issue(c.oidc.providers@, 0),
                        either(
                            pipelines_issue(c.pipelines@, 0),
                            either(routes_issue(c.routes@, 0), limits_issue(c)),
                        ),
                    ),
                ),
            ),
        ),
    )
}

/// A configuration that breaks no rule.
pub open spec fn config_valid(c: AppConfig) -> bool {
    first_issue(c) is None
}

fn check_secret(c: &AppConfig) -> (r: Option<ConfigIssue>)
    ensures
        r == secret_issue(*c),
{
    if c.bff_secret.secret.as_str().is_empty() {
        return Some(ConfigIssue::EmptySecret);
    }
    if c.bff_secret.salt.as_str().len() < 16 {
        return Some(ConfigIssue::ShortSalt);
    }
    None
}

fn check_providers(c: &AppConfig) -> (r: Option<ConfigIssue>)
    ensures
        r == provider_issue(*c),
{
    if !str_eq(c.provider.session_store.as_str(), "memory") {
        return Some(ConfigIssue::UnsupportedProvider { slot: ProviderSlot::SessionStore });
    }
    if !str_eq(c.provider.cache.as_str(), "memory") {
        return Some(ConfigIssue::UnsupportedProvider { slot: ProviderSlot::Cache });
    }
    if !str_eq(c.provider.lock.as_str(), "memory") {
        return Some(ConfigIssue::UnsupportedProvider { slot: ProviderSlot::Lock });
    }
    None
}

fn check_server(c: &AppConfig) -> (r: Option<ConfigIssue>)
    ensures
        r == server_issue(*c),
{
    if !(c.server.business_port > 0 && c.server.business_port != c.server.admin_port) {
        return Some(ConfigIssue::PortConflict);
    }
    let ss = c.session.same_site.as_str();
    if !(str_eq(ss, "Strict") || str_eq(ss, "Lax") || str_eq(ss, "None")) {
        return Some(ConfigIssue::InvalidSameSite);
    }
    if str_eq(c.admin.auth_mode.as_str(), "token") && c.admin.auth_token.as_str().is_empty() {
        return Some(ConfigIssue::EmptyAdminToken);
    }
    if c.rate_limit.per_second == 0 {
        return Some(ConfigIssue::ZeroRateLimit);
    }
    None
}

fn check_auth_rate(c: &AppConfig) -> (r: Option<ConfigIssue>)
    ensures
        r == auth_rate_issue(*c),
{
    let a = &c.auth_rate_limit;
    if !a.enabled {
        return None;
    }
    if a.per_ip.per_second == 0 {
        return Some(ConfigIssue::ZeroAuthRatePerSecond);
    }
    if a.per_ip.burst_size == 0 {
        return Some(ConfigIssue::ZeroAuthBurst);
    }
    if a.paths.len() == 0 {
        return Some(ConfigIssue::EmptyAuthPaths);
    }
    check_auth_paths(&a.paths)
}

fn check_auth_paths(paths: &Vec<String>) -> (r: Option<ConfigIssue>)
    ensures
        r == auth_path_issue(paths@, 0),
{
    let mut i: usize = 0;
    while i < paths.len()
        invariant
            i <= paths.len(),
            auth_path_issue(paths@, 0) == auth_path_issue(paths@, i as int),
        decreases paths.len() - i,
    {
        if !starts_with_char(paths[i].as_str(), '/') {
            return Some(ConfigIssue::AuthPathNotAbsolute { index: i });
        }
        i += 1;
    }
    None
}

fn check_oidc(ps: &Vec<OidcProviderConfig>) -> (r: Option<ConfigIssue>)
    ensures
        r == oidc_issue(ps@, 0),
{
    let mut i: usize = 0;
    while i < ps.len()
        invariant
            i <= ps.len(),
            oidc_issue(ps@, 0) == oidc_issue(ps@, i as int),
        decreases ps.len() - i,
    {
        let p = &ps[i];
        if p.id.as_str().is_empty() {
            return Some(ConfigIssue::EmptyProviderId { index: i });
        }
        if !is_valid_url(p.issuer_url.as_str()) {
            return Some(ConfigIssue::InvalidIssuerUrl { index: i });
        }
        if p.client_id.as_str().is_empty() {
            return Some(ConfigIssue::EmptyProviderClientId { index: i });
        }
        i += 1;
    }
    None
}

fn check_step_timeouts(steps: &Vec<StepDef>, p: usize) -> (r: Option<ConfigIssue>)
    ensures
        r == step_timeout_issue(steps@, p as int, 0),
{
    let limit = Duration::from_secs(300);
    let mut j: usize = 0;
    while j < steps.len()
        invariant
            j <= steps.len(),
            limit.spec_nanos() == 300 * nanos_per_sec(),
            step_timeout_issue(steps@, p as int, 0) == step_timeout_issue(steps@, p as int, j as int),
        decreases steps.len() - j,
    {
        match &steps[j].config.timeout {
            Some(t) => {
                if limit.lt(t) {
                    return Some(ConfigIssue::StepTimeoutTooLong { pipeline: p, step: j });
                }
            },
            None => {},
        }
        j += 1;
    }
    None
}

fn check_pipelines(ps: &Vec<(String, PipelineDef)>) -> (r: Option<ConfigIssue>)
    ensures
        r == pipelines_issue(ps@, 0),
{
    let mut i: usize = 0;
    while i < ps.len()
        invariant
            i <= ps.len(),
            pipelines_issue(ps@, 0) == pipelines_issue(ps@, i as int),
        decreases ps.len() - i,
    {
        let (name, def) = &ps[i];
        if validate_pipeline(name.as_str(), def).is_err() {
            return Some(ConfigIssue::InvalidPipeline { index: i });
        }
        match check_step_timeouts(&def.steps, i) {
            Some(e) => {
                return Some(e);
            },
            None => {},
        }
        i += 1;
    }
    None
}

fn check_route(r: &RouteDef, i: usize) -> (res: Option<ConfigIssue>)
    ensures
        res == route_issue(*r, i as int),
{
    if !starts_with_char(r.path.as_str(), '/') {
        return Some(ConfigIssue::RoutePathNotAbsolute { index: i });
    }
    if r.route_type == RouteType::Proxy {
        match &r.config.upstream {
            None => {
                return Some(ConfigIssue::MissingUpstream { index: i });
            },
            Some(u) => {
                if !is_valid_url(u.as_str()) {
                    return Some(ConfigIssue::InvalidUpstream { index: i });
                }
            },
        }
    }
    match &r.config.token_exchange {
        None => None,
        Some(te) => {
            match &te.token_endpoint {
                Some(ep) => {
                    if !is_valid_url(ep.as_str()) {
                        return Some(ConfigIssue::InvalidTokenEndpoint { index: i });
                    }
                },
                None => {},
            }
            if te.client_id.as_str().is_empty() {
                return Some(ConfigIssue::EmptyExchangeClientId { index: i });
            }
            if te.cache_ttl.as_nanos() == 0 {
                return Some(ConfigIssue::ZeroExchangeCacheTtl { index: i });
            }
            let urn = "urn:ietf:params:oauth:token-type:";
            if !starts_with(te.subject_token_type.as_str(), urn) {
                return Some(
                    ConfigIssue::InvalidTokenType {
                        index: i,
                        field: TokenTypeField::SubjectTokenType,
                    },
                );
            }
            if !starts_with(te.requested_token_type.as_str(), urn) {
                return Some(
                    ConfigIssue::InvalidTokenType {
                        index: i,
                        field: TokenTypeField::RequestedTokenType,
                    },
                );
            }
            if !r.auth_required {
                return Some(ConfigIssue::ExchangeWithoutAuth { index: i });
            }
            None
        },
    }
}

fn check_routes(rs: &Vec<RouteDef>) -> (r: Option<ConfigIssue>)
    ensures
        r == routes_issue(rs@, 0),
{
    let mut i: usize = 0;
    while i < rs.len()
        invariant
            i <= rs.len(),
            routes_issue(rs@, 0) == routes_issue(rs@, i as int),
        decreases rs.len() - i,
    {
        match check_route(&rs[i], i) {
            Some(e) => {
                return Some(e);
            },
            None => {},
        }
        i += 1;
    }
    None
}

fn check_limits(c: &AppConfig) -> (r: Option<ConfigIssue>)
    ensures
        r == limits_issue(*c),
{
    if c.circuit_breaker.failure_threshold == 0 {
        return Some(ConfigIssue::ZeroBreakerThreshold);
    }
    if Duration::from_secs(30).lt(&c.scripting.max_duration) {
        return Some(ConfigIssue::ScriptTimeoutTooLong);
    }
    if c.body_limit.max_bytes > 100 * 1024 * 1024 {
        return Some(ConfigIssue::BodyLimitTooLarge);
    }
    if let Some(e) = check_health_urls(&c.health.upstreams) {
        return Some(e);
    }
    if c.health.probe_timeout.lt(&Duration::from_millis(100)) {
        return Some(ConfigIssue::ProbeTimeoutTooShort);
    }
    None
}

fn check_health_urls(us: &Vec<String>) -> (r: Option<ConfigIssue>)
    ensures
        r == health_issue(us@, 0),
{
    let mut i: usize = 0;
    while i < us.len()
        invariant
            i <= us.len(),
            health_issue(us@, 0) == health_issue(us@, i as int),
        decreases us.len() - i,
    {
        if !is_valid_url(us[i].as_str()) {
            return Some(ConfigIssue::InvalidHealthUpstream { index: i });
        }
        i += 1;
    }
    None
}

impl AppConfig {
    /// Checks every rule of a configuration, in order, and reports the first
    /// one broken: `Ok(())` exactly when none is.
    pub fn validate(&self) -> (r: Result<(), ConfigIssue>)
        ensures
            r == match first_issue(*self) {
                None => Ok(()),
                Some(e) => Err(e),
            },
            r is Ok <==> config_valid(*self),
    {
        if let Some(e) = check_secret(self) {
            return Err(e);
        }
        if let Some(e) = check_providers(self) {
            return Err(e);
        }
        if let Some(e) = check_server(self) {
            return Err(e);
        }
        if let Some(e) = check_auth_rate(self) {
            return Err(e);
        }
        if let Some(e) = check_oidc(&self.oidc.providers) {
            return Err(e);
        }
        if let Some(e) = check_pipelines(&self.pipelines) {
            return Err(e);
        }
        if let Some(e) = check_routes(&self.routes) {
            return Err(e);
        }
        if let Some(e) = check_limits(self) {
            return Err(e);
        }
        Ok(())
    }
}

proof fn lemma_either_none(a: Option<ConfigIssue>, b: Option<ConfigIssue>)
    ensures
        either(a, b) is None <==> (a is None && b is None),
{
}

proof fn lemma_routes_issue_none(rs: Seq<RouteDef>, k: int, i: int)
    requires
        0 <= k <= i < rs.len(),
        routes_issue(rs, k) is None,
    ensures
        route_issue(rs[i], i) is None,
    decreases i - k,
{
    lemma_either_none(route_issue(rs[k], k), routes_issue(rs, k + 1));
    if k < i {
        lemma_routes_issue_none(rs, k + 1, i);
    }
}

/// A valid configuration's routes are well formed: every path is absolute,
/// and every proxy route has an upstream that parses as a URL.
pub proof fn law_valid_config_routes(c: AppConfig)
    requires
        config_valid(c),
    ensures
        forall|i: int| 0 <= i < c.routes@.len() ==> starts_with_c((#[trigger] c.routes@[i]).path@, '/'),
        forall|i: int|
            0 <= i < c.routes@.len() && (#[trigger] c.routes@[i]).route_type == RouteType::Proxy
                ==> (c.routes@[i].config.upstream matches Some(u) && url_parses(u@)),
{
    lemma_either_none(secret_issue(c), either(provider_issue(c), either(server_issue(c), either(auth_rate_issue(c),
        either(oidc_issue(c.oidc.providers@, 0), either(pipelines_issue(c.pipelines@, 0), either(routes_issue(c.routes@, 0),
        limits_issue(c))))))));
    lemma_either_none(provider_issue(c), either(server_issue(c), either(auth_rate_issue(c),
        either(oidc_issue(c.oidc.providers@, 0), either(pipelines_issue(c.pipelines@, 0), either(routes_issue(c.routes@, 0),
        limits_issue(c)))))));
    lemma_either_none(server_issue(c), either(auth_rate_issue(c),
        either(oidc_issue(c.oidc.providers@, 0), either(pipelines_issue(c.pipelines@, 0), either(routes_issue(c.routes@, 0),
        limits_issue(c))))));
    lemma_either_none(auth_rate_issue(c),
        either(oidc_issue(c.oidc.providers@, 0), either(pipelines_issue(c.pipelines@, 0), either(routes_issue(c.routes@, 0),
        limits_issue(c)))));
    lemma_either_none(oidc_issue(c.oidc.providers@, 0), either(pipelines_issue(c.pipelines@, 0), either(routes_issue(c.routes@, 0),
        limits_issue(c))));
    lemma_either_none(pipelines_issue(c.pipelines@, 0), either(routes_issue(c.routes@, 0), limits_issue(c)));
    lemma_either_none(routes_issue(c.routes@, 0), limits_issue(c));
    assert forall|i: int| 0 <= i < c.routes@.len() implies {
        &&& starts_with_c((#[trigger] c.routes@[i]).path@, '/')
        &&& c.routes@[i].route_type == RouteType::Proxy ==> (c.routes@[i].config.upstream matches Some(u) && url_parses(u@))
    } by {
        let r = c.routes@[i];
        lemma_routes_issue_none(c.routes@, 0, i);
        lemma_either_none(
            flag(!starts_with_c(r.path@, '/'), ConfigIssue::RoutePathNotAbsolute { index: i as usize }),
            either(upstream_issue(r, i), exchange_issue(r, i)),
        );
        lemma_either_none(upstream_issue(r, i), exchange_issue(r, i));
    }
}

} // verus!
