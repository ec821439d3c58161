//! RFC 8693 token exchange: the session's access token is traded at the
//! authorization server for a token aimed at the upstream resource.
//!
//! This module builds the exchange request, interprets the token endpoint's
//! answer, classifies its errors, and computes the cache key and lifetime of
//! a successful exchange; the HTTP call, the cache and the session live with
//! the caller.
use crate::config::{fingerprint_spec, OidcProviderConfig, TokenExchangeAuthMethod, TokenExchangeConfig};
use crate::oidc::handlers::{find_provider, provider_at};
use crate::utils::digest::{hex_lower, hex_prefix, sha256, sha256_digest};
use crate::utils::error::AppError;
use crate::utils::pairs::pair_views;
use crate::utils::json::{get_str, get_u64, str_member, u64_member, Json, Value};
use crate::utils::text::{
    concat2, eq_ignore_ascii_case, eq_ignore_case, is_prefix, push_char, push_str, starts_with, str_eq,
};
use crate::utils::time::{nanos_per_sec, Duration};
use vstd::prelude::*;

verus! {

/// What a successful exchange yields.
#[derive(Debug, Clone)]
pub struct TokenExchangeResult {
    pub access_token: String,
    pub expires_in: Option<u64>,
    pub scope: Option<String>,
}

/// Why an exchange failed.
#[derive(Debug, Clone)]
pub enum ExchangeError {
    /// `invalid_grant` / `invalid_token`: the subject token is stale; worth one retry after a refresh.
    InvalidSubject,
    /// `access_denied` / `invalid_scope`: refused for good.
    Denied(String),
    /// A client-side misconfiguration or a malformed answer.
    ClientConfig(String),
    /// The token endpoint failed.
    Upstream(String),
}

/// The kind of an exchange error.
#[derive(Debug, Clone, Copy, PartialEq, Eq, Structural)]
pub enum ExchangeErrorKind {
    InvalidSubject,
    Denied,
    ClientConfig,
    Upstream,
}

impl ExchangeError {
    /// The kind of this error.
    pub open spec fn kind(self) -> ExchangeErrorKind {
        match self {
            ExchangeError::InvalidSubject => ExchangeErrorKind::InvalidSubject,
            ExchangeError::Denied(_) => ExchangeErrorKind::Denied,
            ExchangeError::ClientConfig(_) => ExchangeErrorKind::ClientConfig,
            ExchangeError::Upstream(_) => ExchangeErrorKind::Upstream,
        }
    }

    /// The detail text of this error (empty for a stale subject).
    pub open spec fn detail(self) -> Seq<char> {
        match self {
            ExchangeError::InvalidSubject => Seq::empty(),
            ExchangeError::Denied(d) => d@,
            ExchangeError::ClientConfig(d) => d@,
            ExchangeError::Upstream(d) => d@,
        }
    }

    /// The metrics label of this error.
    pub fn metric_label(&self) -> (s: &'static str)
        ensures
            s@ == match self.kind() {
                ExchangeErrorKind::InvalidSubject => "invalid_subject"@,
                ExchangeErrorKind::Denied => "denied"@,
                ExchangeErrorKind::ClientConfig => "client_config"@,
                ExchangeErrorKind::Upstream => "upstream"@,
            },
    {
        match self {
            ExchangeError::InvalidSubject => "invalid_subject",
            ExchangeError::Denied(_) => "denied",
            ExchangeError::ClientConfig(_) => "client_config",
            ExchangeError::Upstream(_) => "upstream",
        }
    }

    /// The answer given to the client: 401 for a stale or refused subject,
    /// 500 for a misconfiguration, 502 for a failing token endpoint.
    pub fn into_app_error(self) -> (e: AppError)
        ensures
            e.status == match self.kind() {
                ExchangeErrorKind::InvalidSubject => 401u16,
                ExchangeErrorKind::Denied => 401u16,
                ExchangeErrorKind::ClientConfig => 500u16,
                ExchangeErrorKind::Upstream => 502u16,
            },
            e.message@ == match self.kind() {
                ExchangeErrorKind::InvalidSubject => "令牌交换失败：会话令牌已失效"@,
                ExchangeErrorKind::Denied => "令牌交换被拒绝"@,
                ExchangeErrorKind::ClientConfig => "令牌交换配置错误"@,
                ExchangeErrorKind::Upstream => "令牌交换服务暂不可用"@,
            },
    {
        match self {
            ExchangeError::InvalidSubject => AppError::unauthorized("令牌交换失败：会话令牌已失效"),
            ExchangeError::Denied(_) => AppError::unauthorized("令牌交换被拒绝"),
            ExchangeError::ClientConfig(_) => AppError::internal("令牌交换配置错误"),
            ExchangeError::Upstream(_) => AppError::bad_gateway("令牌交换服务暂不可用"),
        }
    }

    /// Whether the exchange is worth retrying once after refreshing the session.
    pub fn is_retryable(&self) -> (b: bool)
        ensures
            b == (self.kind() == ExchangeErrorKind::InvalidSubject),
    {
        match self {
            ExchangeError::InvalidSubject => true,
            _ => false,
        }
    }
}

/// The view of an exchange outcome: the result's fields, or the error's kind and detail.
pub open spec fn outcome_view(r: Result<TokenExchangeResult, ExchangeError>) -> Result<
    (Seq<char>, Option<u64>, Option<Seq<char>>),
    (ExchangeErrorKind, Seq<char>),
> {
    match r {
        Ok(t) => Ok(
            (
                t.access_token@,
                t.expires_in,
                match t.scope {
                    Some(s) => Some(s@),
                    None => None,
                },
            ),
        ),
        Err(e) => Err((e.kind(), e.detail())),
    }
}

/// The kind of error an error answer with `status` and error code `code` means.
pub open spec fn classify_kind(status: u16, code: Seq<char>) -> ExchangeErrorKind {
    if code == "invalid_grant"@ || code == "invalid_token"@ {
        ExchangeErrorKind::InvalidSubject
    } else if code == "access_denied"@ || code == "invalid_scope"@ {
        ExchangeErrorKind::Denied
    } else if code == "invalid_client"@ || code == "invalid_request"@ || code
        == "unauthorized_client"@ {
        ExchangeErrorKind::ClientConfig
    } else if code == "unsupported_grant_type"@ {
        ExchangeErrorKind::Upstream
    } else if 500 <= status <= 599 {
        ExchangeErrorKind::Upstream
    } else {
        ExchangeErrorKind::ClientConfig
    }
}

/// The error for an error answer with `status`, error code `code` and description `desc`.
pub open spec fn classify_spec(status: u16, code: Seq<char>, desc: Seq<char>) -> (ExchangeErrorKind, Seq<char>) {
    let k = classify_kind(status, code);
    (
        k,
        if k == ExchangeErrorKind::InvalidSubject {
            Seq::empty()
        } else {
            desc
        },
    )
}

/// Classifies an error answer of the token endpoint by its error code, and
/// by its HTTP status when the code is not a standard one.
pub fn classify_error(status: u16, code: &str, desc: String) -> (r: Result<TokenExchangeResult, ExchangeError>)
    ensures
        outcome_view(r) == Err::<(Seq<char>, Option<u64>, Option<Seq<char>>), _>(
            classify_spec(status, code@, desc@),
        ),
{
    if str_eq(code, "invalid_grant") || str_eq(code, "invalid_token") {
        Err(ExchangeError::InvalidSubject)
    } else if str_eq(code, "access_denied") || str_eq(code, "invalid_scope") {
        Err(ExchangeError::Denied(desc))
    } else if str_eq(code, "invalid_client") || str_eq(code, "invalid_request") || str_eq(
        code,
        "unauthorized_client",
    ) {
        Err(ExchangeError::ClientConfig(desc))
    } else if str_eq(code, "unsupported_grant_type") {
        Err(ExchangeError::Upstream(desc))
    } else if 500 <= status && status <= 599 {
        Err(ExchangeError::Upstream(desc))
    } else {
        Err(ExchangeError::ClientConfig(desc))
    }
}

/// The prefix of every token-type URN.
pub open spec fn token_type_urn() -> Seq<char> {
    "urn:ietf:params:oauth:token-type:"@
}

/// `t`, or the empty text.
pub open spec fn or_empty(t: Option<Seq<char>>) -> Seq<char> {
    match t {
        Some(s) => s,
        None => Seq::empty(),
    }
}

/// What the answer (`status`, JSON `body`) of the token endpoint means.
pub open spec fn interpret_spec(status: u16, body: Json) -> Result<
    (Seq<char>, Option<u64>, Option<Seq<char>>),
    (ExchangeErrorKind, Seq<char>),
> {
    if !(200 <= status < 300) {
        Err(
            classify_spec(
                status,
                or_empty(str_member(body, "error"@)),
                or_empty(str_member(body, "error_description"@)),
            ),
        )
    } else {
        match str_member(body, "access_token"@) {
            None => Err((ExchangeErrorKind::ClientConfig, "响应缺少 access_token"@)),
            Some(at) => {
                let tt = or_empty(str_member(body, "token_type"@));
                let issued = or_empty(str_member(body, "issued_token_type"@));
                if !eq_ignore_case(tt, "bearer"@) {
                    Err((ExchangeErrorKind::ClientConfig, "仅接受 Bearer token_type，收到: "@ + tt))
                } else if issued.len() > 0 && !is_prefix(token_type_urn(), issued) {
                    Err((ExchangeErrorKind::ClientConfig, "issued_token_type 非法: "@ + issued))
                } else {
                    Ok((at, u64_member(body, "expires_in"@), str_member(body, "scope"@)))
                }
            },
        }
    }
}

fn str_or_empty(s: Option<&str>) -> (r: String)
    ensures
        r@ == or_empty(
            match s {
                Some(t) => Some(t@),
                None => None,
            },
        ),
{
    match s {
        Some(t) => t.to_owned(),
        None => String::new(),
    }
}

/// Interprets the answer of the token endpoint: an error status is
/// classified; a success must carry an `access_token`, a `Bearer`
/// `token_type` and, if any, a token-type URN as `issued_token_type`.
pub fn interpret_response(status: u16, body: &Value) -> (r: Result<TokenExchangeResult, ExchangeError>)
    ensures
        outcome_view(r) == interpret_spec(status, body.model()),
{
    if !(200 <= status && status < 300) {
        let code = str_or_empty(get_str(body, "error"));
        let desc = str_or_empty(get_str(body, "error_description"));
        return classify_error(status, code.as_str(), desc);
    }
    let access_token = match get_str(body, "access_token") {
        Some(t) => t.to_owned(),
        None => {
            return Err(ExchangeError::ClientConfig("响应缺少 access_token".to_owned()));
        },
    };
    let token_type = str_or_empty(get_str(body, "token_type"));
    if !eq_ignore_ascii_case(token_type.as_str(), "bearer") {
        return Err(
            ExchangeError::ClientConfig(
                concat2("仅接受 Bearer token_type，收到: ", token_type.as_str()),
            ),
        );
    }
    let issued = str_or_empty(get_str(body, "issued_token_type"));
    if !issued.as_str().is_empty() && !starts_with(
        issued.as_str(),
        "urn:ietf:params:oauth:token-type:",
    ) {
        return Err(ExchangeError::ClientConfig(concat2("issued_token_type 非法: ", issued.as_str())));
    }
    let expires_in = get_u64(body, "expires_in");
    let scope = match get_str(body, "scope") {
        Some(s) => Some(s.to_owned()),
        None => None,
    };
    Ok(TokenExchangeResult { access_token, expires_in, scope })
}

/// The HTTP request of one exchange: a form POSTed to `endpoint`, with
/// HTTP basic client authentication when `basic_auth` is set.
#[derive(Debug, Clone)]
pub struct ExchangeRequest {
    pub endpoint: String,
    pub form: Vec<(String, String)>,
    pub basic_auth: Option<(String, String)>,
}

/// One `audience` form field per audience.
pub open spec fn audience_fields(aud: Seq<String>) -> Seq<(Seq<char>, Seq<char>)> {
    aud.map_values(|a: String| ("audience"@, a@))
}

/// The form fields of an exchange of `subject` under `cfg`, in order.
pub open spec fn exchange_form_spec(cfg: TokenExchangeConfig, subject: Seq<char>) -> Seq<(Seq<char>, Seq<char>)> {
    seq![
        ("grant_type"@, "urn:ietf:params:oauth:grant-type:token-exchange"@),
        ("subject_token"@, subject),
        ("subject_token_type"@, cfg.subject_token_type@),
    ] + audience_fields(cfg.audience@) + (if cfg.scope@.len() > 0 {
        seq![("scope"@, cfg.scope@)]
    } else {
        Seq::empty()
    }) + seq![("requested_token_type"@, cfg.requested_token_type@)] + (if cfg.client_auth_method
        == TokenExchangeAuthMethod::ClientSecretPost {
        seq![("client_id"@, cfg.client_id@), ("client_secret"@, cfg.client_secret@)]
    } else {
        Seq::empty()
    })
}

fn pair(k: &str, v: &str) -> (p: (String, String))
    ensures
        p.0@ == k@,
        p.1@ == v@,
{
    (k.to_owned(), v.to_owned())
}

/// The request that exchanges `subject_token` at `token_endpoint` under
/// `cfg`: the RFC 8693 form (client credentials in the form for
/// `client_secret_post`), and basic authentication for
/// `client_secret_basic` with a non-empty secret (an empty secret is a
/// public client). No actor token is sent.
pub fn exchange_request(cfg: &TokenExchangeConfig, token_endpoint: &str, subject_token: &str) -> (r: ExchangeRequest)
    ensures
        r.endpoint@ == token_endpoint@,
        pair_views(r.form@) == exchange_form_spec(*cfg, subject_token@),
        match r.basic_auth {
            Some((id, secret)) => cfg.client_auth_method == TokenExchangeAuthMethod::ClientSecretBasic
                && cfg.client_secret@.len() > 0 && id@ == cfg.client_id@ && secret@ == cfg.client_secret@,
            None => !(cfg.client_auth_method == TokenExchangeAuthMethod::ClientSecretBasic
                && cfg.client_secret@.len() > 0),
        },
{
    let mut form: Vec<(String, String)> = Vec::new();
    form.push(pair("grant_type", "urn:ietf:params:oauth:grant-type:token-exchange"));
    form.push(pair("subject_token", subject_token));
    form.push(pair("subject_token_type", cfg.subject_token_type.as_str()));
    let ghost head = pair_views(form@);
    assert(head == seq![
        ("grant_type"@, "urn:ietf:params:oauth:grant-type:token-exchange"@),
        ("subject_token"@, subject_token@),
        ("subject_token_type"@, cfg.subject_token_type@),
    ]);
    let mut i: usize = 0;
    while i < cfg.audience.len()
        invariant
            i <= cfg.audience.len(),
            pair_views(form@) == head + audience_fields(cfg.audience@.take(i as int)),
        decreases cfg.audience.len() - i,
    {
        let ghost before = form@;
        let p = pair("audience", cfg.audience[i].as_str());
        form.push(p);
        assert(pair_views(form@) =~= pair_views(before).push((p.0@, p.1@)));
        assert(audience_fields(cfg.audience@.take(i + 1)) =~= audience_fields(
            cfg.audience@.take(i as int),
        ).push(("audience"@, cfg.audience@[i as int]@)));
        assert(pair_views(form@) =~= head + audience_fields(cfg.audience@.take(i + 1)));
        i += 1;
    }
    assert(cfg.audience@.take(cfg.audience.len() as int) =~= cfg.audience@);
    if !cfg.scope.as_str().is_empty() {
        form.push(pair("scope", cfg.scope.as_str()));
    }
    form.push(pair("requested_token_type", cfg.requested_token_type.as_str()));
    let post = cfg.client_auth_method == TokenExchangeAuthMethod::ClientSecretPost;
    if post {
        form.push(pair("client_id", cfg.client_id.as_str()));
        form.push(pair("client_secret", cfg.client_secret.as_str()));
    }
    assert(pair_views(form@) =~= exchange_form_spec(*cfg, subject_token@));
    let basic_auth = if cfg.client_auth_method == TokenExchangeAuthMethod::ClientSecretBasic
        && !cfg.client_secret.as_str().is_empty() {
        Some((cfg.client_id.clone(), cfg.client_secret.clone()))
    } else {
        None
    };
    ExchangeRequest { endpoint: token_endpoint.to_owned(), form, basic_auth }
}

/// The prefix of every exchange cache key.
pub open spec fn cache_prefix() -> Seq<char> {
    "bff:token_exchange:"@
}

/// The first 16 hexadecimal digits of the SHA-256 of a text's UTF-8 bytes.
pub open spec fn short_fingerprint(text: Seq<char>) -> Seq<char> {
    hex_lower(sha256_digest(vstd::utf8::encode_utf8(text)).take(8))
}

/// The cache key of an exchange: session id, configuration fingerprint and subject fingerprint.
pub open spec fn cache_key_spec(session_id: Seq<char>, cfg: TokenExchangeConfig, subject: Seq<char>) -> Seq<char> {
    cache_prefix() + session_id + seq![':'] + short_fingerprint(fingerprint_spec(cfg)) + seq![':']
        + short_fingerprint(subject)
}

fn short_sha(text: &str) -> (s: String)
    ensures
        s@ == short_fingerprint(text@),
{
    let d = sha256(text.as_bytes());
    hex_prefix(&d, 8)
}

/// The cache key `bff:token_exchange:{session}:{config fp}:{subject fp}`,
/// where each fingerprint is the first 16 hex digits of a SHA-256: two routes
/// that differ in audience or scope, or a refreshed subject token, get
/// different keys.
pub fn cache_key(session_id: &str, cfg: &TokenExchangeConfig, subject_token: &str) -> (k: String)
    ensures
        k@ == cache_key_spec(session_id@, *cfg, subject_token@),
{
    let fp = cfg.fingerprint();
    let cfg_fp = short_sha(fp.as_str());
    let sub_fp = short_sha(subject_token);
    let mut k = "bff:token_exchange:".to_owned();
    push_str(&mut k, session_id);
    push_char(&mut k, ':');
    push_str(&mut k, cfg_fp.as_str());
    push_char(&mut k, ':');
    push_str(&mut k, sub_fp.as_str());
    k
}

/// The single-flight lock key of an exchange cache key.
pub fn lock_key(cache_key: &str) -> (k: String)
    ensures
        k@ == "bff:token_exchange_lock:"@ + cache_key@,
{
    concat2("bff:token_exchange_lock:", cache_key)
}

/// Every cache key starts with the exchange prefix.
pub proof fn law_cache_key_prefixed(session_id: Seq<char>, cfg: TokenExchangeConfig, subject: Seq<char>)
    ensures
        is_prefix(cache_prefix(), cache_key_spec(session_id, cfg, subject)),
{
    let k = cache_key_spec(session_id, cfg, subject);
    assert(k.subrange(0, cache_prefix().len() as int) =~= cache_prefix());
}

/// The lifetime of a cached exchange, in nanoseconds:
/// `min(cache_ttl, expires_in - 30 s, 300 s)`, at least 1 s.
pub open spec fn effective_ttl_spec(cache_ttl: int, expires_in: Option<u64>) -> int {
    let t1: int = match expires_in {
        Some(e) => {
            let capped: int = if e * nanos_per_sec() >= 30 * nanos_per_sec() {
                e * nanos_per_sec() - 30 * nanos_per_sec()
            } else {
                0
            };
            if capped < cache_ttl {
                capped
            } else {
                cache_ttl
            }
        },
        None => cache_ttl,
    };
    let t2: int = if t1 > 300 * nanos_per_sec() {
        300 * nanos_per_sec()
    } else {
        t1
    };
    if t2 <= 0 {
        nanos_per_sec()
    } else {
        t2
    }
}

/// How long a successful exchange stays cached: the configured TTL, cut to
/// the token's remaining life less 30 s, cut to the cache's 300 s ceiling,
/// and never below 1 s.
pub fn effective_ttl(cache_ttl: Duration, expires_in: Option<u64>) -> (d: Duration)
    ensures
        d.spec_nanos() == effective_ttl_spec(cache_ttl.spec_nanos(), expires_in),
{
    let mut ttl = cache_ttl;
    if let Some(exp) = expires_in {
        let capped = Duration::from_secs(exp).saturating_sub(Duration::from_secs(30));
        if capped.lt(&ttl) {
            ttl = capped;
        }
    }
    let max = Duration::from_secs(300);
    if max.lt(&ttl) {
        ttl = max;
    }
    if ttl.le(&Duration::zero()) {
        ttl = Duration::from_secs(1);
    }
    ttl
}

/// The cached lifetime of an exchange outcome: successes are cached for
/// their effective TTL, failures are not cached.
pub fn cache_ttl_for(cache_ttl: Duration, outcome: &Result<TokenExchangeResult, ExchangeError>) -> (r: Option<Duration>)
    ensures
        match outcome {
            Ok(t) => r matches Some(d) && d.spec_nanos() == effective_ttl_spec(cache_ttl.spec_nanos(), t.expires_in),
            Err(_) => r is None,
        },
{
    match outcome {
        Ok(t) => Some(effective_ttl(cache_ttl, t.expires_in)),
        Err(_) => None,
    }
}

/// A cached exchange never outlives the cache's ceiling, and is never cached for no time.
pub proof fn law_effective_ttl_bounds(cache_ttl: int, expires_in: Option<u64>)
    ensures
        0 < effective_ttl_spec(cache_ttl, expires_in) <= 300 * nanos_per_sec(),
{
}

/// A cached exchange never outlives the configured TTL (when it is at least
/// the 1 s floor) nor the token's remaining life less 30 s (when that is positive).
pub proof fn law_effective_ttl_caps(cache_ttl: int, expires_in: Option<u64>)
    ensures
        cache_ttl >= nanos_per_sec() ==> effective_ttl_spec(cache_ttl, expires_in) <= cache_ttl,
        (expires_in matches Some(e) && e > 30) ==> effective_ttl_spec(cache_ttl, expires_in) <= (expires_in->0 - 30) * nanos_per_sec(),
{
}

/// Where the token endpoint of an exchange comes from.
#[derive(Debug, Clone)]
pub enum EndpointSource {
    /// The endpoint configured on the route.
    Configured(String),
    /// To be discovered from the OIDC issuer of the session's provider.
    Discover { issuer_url: String },
}

/// Where to get the token endpoint: the configured one; else the issuer of
/// the provider the session logged in with (`session_provider`), for
/// discovery. Without a session provider, or when no provider has that id,
/// the exchange cannot proceed.
pub fn token_endpoint_source(
    cfg: &TokenExchangeConfig,
    session_provider: Option<&str>,
    providers: &Vec<OidcProviderConfig>,
) -> (r: Result<EndpointSource, ExchangeError>)
    ensures
        match cfg.token_endpoint {
            Some(ep) => r matches Ok(EndpointSource::Configured(e)) && e@ == ep@,
            None => match session_provider {
                None => r matches Err(e) && e.kind() == ExchangeErrorKind::ClientConfig
                    && e.detail() == "无法解析会话 provider"@,
                Some(id) => match provider_at(providers@, id@, 0) {
                    None => r matches Err(e) && e.kind() == ExchangeErrorKind::ClientConfig
                        && e.detail() == "provider 不存在: "@ + id@,
                    Some(j) => r matches Ok(EndpointSource::Discover { issuer_url })
                        && issuer_url@ == providers@[j].issuer_url@,
                },
            },
        },
{
    if let Some(ep) = &cfg.token_endpoint {
        return Ok(EndpointSource::Configured(ep.clone()));
    }
    let id = match session_provider {
        Some(id) => id,
        None => {
            return Err(ExchangeError::ClientConfig("无法解析会话 provider".to_owned()));
        },
    };
    match find_provider(providers, id) {
        Some(j) => Ok(EndpointSource::Discover { issuer_url: providers[j].issuer_url.clone() }),
        None => Err(ExchangeError::ClientConfig(concat2("provider 不存在: ", id))),
    }
}

} // verus!
