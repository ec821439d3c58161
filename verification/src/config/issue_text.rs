//! The text a configuration issue is reported with, naming the offending
//! value of the configuration it was found in.
use crate::config::validate::{ConfigIssue, ProviderSlot, TokenTypeField};
use crate::config::{AppConfig, RouteDef};
use crate::utils::text::{concat2, decimal_text, format_u64, push_str};
use vstd::prelude::*;

verus! {

/// The text of the `i`-th of a list of strings, empty out of range.
pub open spec fn text_at(v: Seq<String>, i: int) -> Seq<char> {
    if 0 <= i < v.len() {
        v[i]@
    } else {
        Seq::empty()
    }
}

/// The `i`-th route, if there is one.
pub open spec fn route_at(c: AppConfig, i: int) -> Option<RouteDef> {
    if 0 <= i < c.routes@.len() {
        Some(c.routes@[i])
    } else {
        None
    }
}

/// The text of an optional string, empty when absent.
pub open spec fn opt_text(t: Option<String>) -> Seq<char> {
    match t {
        Some(s) => s@,
        None => Seq::empty(),
    }
}

/// The configured kind of a provider slot.
pub open spec fn slot_kind(c: AppConfig, slot: ProviderSlot) -> Seq<char> {
    match slot {
        ProviderSlot::SessionStore => c.provider.session_store@,
        ProviderSlot::Cache => c.provider.cache@,
        ProviderSlot::Lock => c.provider.lock@,
    }
}

/// The id of the `i`-th OIDC provider, empty out of range.
pub open spec fn provider_id_at(c: AppConfig, i: int) -> Seq<char> {
    if 0 <= i < c.oidc.providers@.len() {
        c.oidc.providers@[i].id@
    } else {
        Seq::empty()
    }
}

/// The name of the `i`-th pipeline, empty out of range.
pub open spec fn pipeline_name_at(c: AppConfig, i: int) -> Seq<char> {
    if 0 <= i < c.pipelines@.len() {
        c.pipelines@[i].0@
    } else {
        Seq::empty()
    }
}

/// The id of step `s` of pipeline `p`, empty out of range.
pub open spec fn step_id_at(c: AppConfig, p: int, s: int) -> Seq<char> {
    if 0 <= p < c.pipelines@.len() && 0 <= s < c.pipelines@[p].1.steps@.len() {
        c.pipelines@[p].1.steps@[s].id@
    } else {
        Seq::empty()
    }
}

/// The configured token endpoint of the `i`-th route's exchange, empty when absent.
pub open spec fn token_endpoint_at(c: AppConfig, i: int) -> Seq<char> {
    match route_at(c, i) {
        Some(r) => match r.config.token_exchange {
            Some(te) => opt_text(te.token_endpoint),
            None => Seq::empty(),
        },
        None => Seq::empty(),
    }
}

/// The name and value of a token-type field of the `i`-th route's exchange.
pub open spec fn token_type_at(c: AppConfig, i: int, field: TokenTypeField) -> (Seq<char>, Seq<char>) {
    let name = match field {
        TokenTypeField::SubjectTokenType => "subject_token_type"@,
        TokenTypeField::RequestedTokenType => "requested_token_type"@,
    };
    let value = match route_at(c, i) {
        Some(r) => match r.config.token_exchange {
            Some(te) => match field {
                TokenTypeField::SubjectTokenType => te.subject_token_type@,
                TokenTypeField::RequestedTokenType => te.requested_token_type@,
            },
            None => Seq::empty(),
        },
        None => Seq::empty(),
    };
    (name, value)
}

/// `routes[i]` followed by `rest`.
pub open spec fn routes_prefix(i: usize, rest: Seq<char>) -> Seq<char> {
    "routes["@ + decimal_text(i as nat) + rest
}

/// The text an issue is reported with.
pub open spec fn issue_text(issue: ConfigIssue, c: AppConfig) -> Seq<char> {
    match issue {
        ConfigIssue::EmptySecret => "bff_secret.secret 不能为空"@,
        ConfigIssue::ShortSalt => "bff_secret.salt 长度不足（需要 ≥16 字节，当前 "@ + decimal_text(
            (vstd::utf8::encode_utf8(c.bff_secret.salt@).len() as usize) as nat,
        ) + " 字节）"@,
        ConfigIssue::UnsupportedProvider { slot } => "POC 阶段仅支持 memory provider，收到: "@ + slot_kind(c, slot),
        ConfigIssue::PortConflict => "业务端口与管理端口不能相同"@,
        ConfigIssue::InvalidSameSite => "session.same_site 无效: "@ + c.session.same_site@ + "（期望 Strict/Lax/None）"@,
        ConfigIssue::EmptyAdminToken => "admin.auth_token 不能为空（auth_mode = token）"@,
        ConfigIssue::ZeroRateLimit => "rate_limit.per_second 必须 > 0"@,
        ConfigIssue::ZeroAuthRatePerSecond => "auth_rate_limit.per_ip.per_second 必须 > 0"@,
        ConfigIssue::ZeroAuthBurst => "auth_rate_limit.per_ip.burst_size 必须 > 0"@,
        ConfigIssue::EmptyAuthPaths => "auth_rate_limit.enabled = true 时 paths 不能为空"@,
        ConfigIssue::AuthPathNotAbsolute { index } => "auth_rate_limit.paths 条目必须以 / 开头: "@ + text_at(
            c.auth_rate_limit.paths@,
            index as int,
        ),
        ConfigIssue::EmptyProviderId { .. } => "OIDC provider id 不能为空"@,
        ConfigIssue::InvalidIssuerUrl { index } => "OIDC provider "@ + provider_id_at(c, index as int) + " issuer_url 非法"@,
        ConfigIssue::EmptyProviderClientId { index } => "OIDC provider "@ + provider_id_at(c, index as int)
            + " client_id 不能为空"@,
        ConfigIssue::InvalidPipeline { index } => "pipeline ["@ + pipeline_name_at(c, index as int) + "] 非法"@,
        ConfigIssue::StepTimeoutTooLong { pipeline, step } => "pipeline ["@ + pipeline_name_at(c, pipeline as int)
            + "] step ["@ + step_id_at(c, pipeline as int, step as int) + "] timeout 不能超过 300s"@,
        ConfigIssue::RoutePathNotAbsolute { index } => routes_prefix(
            index,
            "] path 必须以 / 开头: "@ + match route_at(c, index as int) {
                Some(r) => r.path@,
                None => Seq::empty(),
            },
        ),
        ConfigIssue::MissingUpstream { index } => routes_prefix(index, "] proxy 类型必须配置 upstream"@),
        ConfigIssue::InvalidUpstream { index } => routes_prefix(
            index,
            "] upstream URL 非法: "@ + match route_at(c, index as int) {
                Some(r) => opt_text(r.config.upstream),
                None => Seq::empty(),
            },
        ),
        ConfigIssue::InvalidTokenEndpoint { index } => routes_prefix(
            index,
            "] token_exchange.token_endpoint URL 非法: "@ + token_endpoint_at(c, index as int),
        ),
        ConfigIssue::EmptyExchangeClientId { index } => routes_prefix(index, "] token_exchange.client_id 不能为空"@),
        ConfigIssue::ZeroExchangeCacheTtl { index } => routes_prefix(index, "] token_exchange.cache_ttl 必须 > 0"@),
        ConfigIssue::InvalidTokenType { index, field } => routes_prefix(
            index,
            "] token_exchange."@ + token_type_at(c, index as int, field).0 + " 必须为合法的 token-type URN 前缀: "@
                + token_type_at(c, index as int, field).1,
        ),
        ConfigIssue::ExchangeWithoutAuth { index } => routes_prefix(
            index,
            "] 配置 token_exchange 要求 auth_required: true"@,
        ),
        ConfigIssue::ZeroBreakerThreshold => "circuit_breaker.failure_threshold 必须 > 0"@,
        ConfigIssue::ScriptTimeoutTooLong => "scripting.max_duration 不能超过 30s"@,
        ConfigIssue::BodyLimitTooLarge => "body_limit.max_bytes 不能超过 100 MiB"@,
        ConfigIssue::InvalidHealthUpstream { index } => "health.upstreams["@ + decimal_text(index as nat)
            + "] URL 非法: "@ + text_at(c.health.upstreams@, index as int),
        ConfigIssue::ProbeTimeoutTooShort => "health.probe_timeout 必须 >= 100ms"@,
    }
}

fn text_or_empty(v: &Vec<String>, i: usize) -> (s: String)
    ensures
        s@ == text_at(v@, i as int),
{
    if i < v.len() {
        v[i].clone()
    } else {
        String::new()
    }
}

fn route_text(index: usize, head: &str, tail: &str) -> (s: String)
    ensures
        s@ == routes_prefix(index, head@ + tail@),
{
    let mut s = concat2("routes[", format_u64(index as u64).as_str());
    push_str(&mut s, head);
    push_str(&mut s, tail);
    s
}

fn route_field(c: &AppConfig, index: usize, which: u8) -> (s: String)
    ensures
        which == 0 ==> s@ == match route_at(*c, index as int) {
            Some(r) => r.path@,
            None => Seq::empty(),
        },
        which == 1 ==> s@ == match route_at(*c, index as int) {
            Some(r) => opt_text(r.config.upstream),
            None => Seq::empty(),
        },
        which == 2 ==> s@ == token_endpoint_at(*c, index as int),
{
    if index >= c.routes.len() {
        return String::new();
    }
    let r = &c.routes[index];
    if which == 0 {
        r.path.clone()
    } else if which == 1 {
        match &r.config.upstream {
            Some(u) => u.clone(),
            None => String::new(),
        }
    } else if which == 2 {
        match &r.config.token_exchange {
            Some(te) => match &te.token_endpoint {
                Some(ep) => ep.clone(),
                None => String::new(),
            },
            None => String::new(),
        }
    } else {
        String::new()
    }
}

fn token_type_value(c: &AppConfig, index: usize, field: TokenTypeField) -> (s: String)
    ensures
        s@ == token_type_at(*c, index as int, field).1,
{
    if index >= c.routes.len() {
        return String::new();
    }
    match &c.routes[index].config.token_exchange {
        Some(te) => match field {
            TokenTypeField::SubjectTokenType => te.subject_token_type.clone(),
            TokenTypeField::RequestedTokenType => te.requested_token_type.clone(),
        },
        None => String::new(),
    }
}

fn provider_id(c: &AppConfig, i: usize) -> (s: String)
    ensures
        s@ == provider_id_at(*c, i as int),
{
    if i < c.oidc.providers.len() {
        c.oidc.providers[i].id.clone()
    } else {
        String::new()
    }
}

fn pipeline_name(c: &AppConfig, i: usize) -> (s: String)
    ensures
        s@ == pipeline_name_at(*c, i as int),
{
    if i < c.pipelines.len() {
        c.pipelines[i].0.clone()
    } else {
        String::new()
    }
}

fn step_id(c: &AppConfig, p: usize, st: usize) -> (s: String)
    ensures
        s@ == step_id_at(*c, p as int, st as int),
{
    if p < c.pipelines.len() && st < c.pipelines[p].1.steps.len() {
        c.pipelines[p].1.steps[st].id.clone()
    } else {
        String::new()
    }
}

fn wrap3(a: &str, b: &str, c: &str) -> (s: String)
    ensures
        s@ == a@ + b@ + c@,
{
    let mut s = concat2(a, b);
    push_str(&mut s, c);
    s
}

impl ConfigIssue {
    /// The text this issue is reported with, naming the offending value of `c`.
    pub fn message(&self, c: &AppConfig) -> (s: String)
        ensures
            s@ == issue_text(*self, *c),
    {
        proof {
            reveal_strlit("");
        }
        match *self {
            ConfigIssue::EmptySecret => "bff_secret.secret 不能为空".to_owned(),
            ConfigIssue::ShortSalt => {
                let n = c.bff_secret.salt.as_str().len();
                wrap3("bff_secret.salt 长度不足（需要 ≥16 字节，当前 ", format_u64(n as u64).as_str(), " 字节）")
            },
            ConfigIssue::UnsupportedProvider { slot } => {
                let kind = match slot {
                    ProviderSlot::SessionStore => c.provider.session_store.as_str(),
                    ProviderSlot::Cache => c.provider.cache.as_str(),
                    ProviderSlot::Lock => c.provider.lock.as_str(),
                };
                concat2("POC 阶段仅支持 memory provider，收到: ", kind)
            },
            ConfigIssue::PortConflict => "业务端口与管理端口不能相同".to_owned(),
            ConfigIssue::InvalidSameSite => wrap3(
                "session.same_site 无效: ",
                c.session.same_site.as_str(),
                "（期望 Strict/Lax/None）",
            ),
            ConfigIssue::EmptyAdminToken => "admin.auth_token 不能为空（auth_mode = token）".to_owned(),
            ConfigIssue::ZeroRateLimit => "rate_limit.per_second 必须 > 0".to_owned(),
            ConfigIssue::ZeroAuthRatePerSecond => "auth_rate_limit.per_ip.per_second 必须 > 0".to_owned(),
            ConfigIssue::ZeroAuthBurst => "auth_rate_limit.per_ip.burst_size 必须 > 0".to_owned(),
            ConfigIssue::EmptyAuthPaths => "auth_rate_limit.enabled = true 时 paths 不能为空".to_owned(),
            ConfigIssue::AuthPathNotAbsolute { index } => concat2(
                "auth_rate_limit.paths 条目必须以 / 开头: ",
                text_or_empty(&c.auth_rate_limit.paths, index).as_str(),
            ),
            ConfigIssue::EmptyProviderId { .. } => "OIDC provider id 不能为空".to_owned(),
            ConfigIssue::InvalidIssuerUrl { index } => wrap3(
                "OIDC provider ",
                provider_id(c, index).as_str(),
                " issuer_url 非法",
            ),
            ConfigIssue::EmptyProviderClientId { index } => wrap3(
                "OIDC provider ",
                provider_id(c, index).as_str(),
                " client_id 不能为空",
            ),
            ConfigIssue::InvalidPipeline { index } => wrap3("pipeline [", pipeline_name(c, index).as_str(), "] 非法"),
            ConfigIssue::StepTimeoutTooLong { pipeline, step } => {
                let mut s = wrap3("pipeline [", pipeline_name(c, pipeline).as_str(), "] step [");
                push_str(&mut s, step_id(c, pipeline, step).as_str());
                push_str(&mut s, "] timeout 不能超过 300s");
                s
            },
            ConfigIssue::RoutePathNotAbsolute { index } => route_text(index,
                "] path 必须以 / 开头: ",
                route_field(c, index, 0).as_str(),
            ),
            ConfigIssue::MissingUpstream { index } => route_text(index, "] proxy 类型必须配置 upstream", ""),
            ConfigIssue::InvalidUpstream { index } => route_text(index,
                "] upstream URL 非法: ",
                route_field(c, index, 1).as_str(),
            ),
            ConfigIssue::InvalidTokenEndpoint { index } => route_text(index,
                "] token_exchange.token_endpoint URL 非法: ",
                route_field(c, index, 2).as_str(),
            ),
            ConfigIssue::EmptyExchangeClientId { index } => route_text(index,
                "] token_exchange.client_id 不能为空",
                "",
            ),
            ConfigIssue::ZeroExchangeCacheTtl { index } => route_text(index,
                "] token_exchange.cache_ttl 必须 > 0",
                "",
            ),
            ConfigIssue::InvalidTokenType { index, field } => {
                let name = match field {
                    TokenTypeField::SubjectTokenType => "subject_token_type",
                    TokenTypeField::RequestedTokenType => "requested_token_type",
                };
                let mut head = concat2("] token_exchange.", name);
                push_str(&mut head, " 必须为合法的 token-type URN 前缀: ");
                route_text(index, head.as_str(), token_type_value(c, index, field).as_str())
            },
            ConfigIssue::ExchangeWithoutAuth { index } => route_text(index,
                "] 配置 token_exchange 要求 auth_required: true",
                "",
            ),
            ConfigIssue::ZeroBreakerThreshold => "circuit_breaker.failure_threshold 必须 > 0".to_owned(),
            ConfigIssue::ScriptTimeoutTooLong => "scripting.max_duration 不能超过 30s".to_owned(),
            ConfigIssue::BodyLimitTooLarge => "body_limit.max_bytes 不能超过 100 MiB".to_owned(),
            ConfigIssue::InvalidHealthUpstream { index } => {
                let mut s = wrap3("health.upstreams[", format_u64(index as u64).as_str(), "] URL 非法: ");
                push_str(&mut s, text_or_empty(&c.health.upstreams, index).as_str());
                s
            },
            ConfigIssue::ProbeTimeoutTooShort => "health.probe_timeout 必须 >= 100ms".to_owned(),
        }
    }
}

} // verus!
