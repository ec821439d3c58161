//! The authorization-code login flow: what a login request asks for, the
//! checks of the identity provider's callback, where the browser lands
//! afterwards, and the bookkeeping of a signed-in session.
use crate::config::OidcProviderConfig;
use crate::oidc::handlers::{provider_at, same_origin_path, select_provider, validate_redirect};
use crate::oidc::tokens::{expiring_at, StoredTokens};
use crate::utils::error::AppError;
use crate::utils::text::{concat2, push_str, str_eq};
use vstd::prelude::*;

verus! {

/// The query of a login or logout request.
#[derive(Debug, Clone)]
pub struct LoginQuery {
    pub provider: Option<String>,
    pub redirect: Option<String>,
    pub popup: Option<bool>,
}

/// The query of the identity provider's callback.
#[derive(Debug, Clone)]
pub struct CallbackQuery {
    pub provider: Option<String>,
    pub code: Option<String>,
    pub state: Option<String>,
    pub error: Option<String>,
    pub error_description: Option<String>,
}

/// A login in progress, kept in the session until the callback.
#[derive(Debug, Clone)]
pub struct AuthFlow {
    pub state: String,
    pub nonce: String,
    pub pkce_verifier: String,
    pub redirect_after_login: Option<String>,
    pub popup: bool,
}

/// A signed-in session as the admin port lists it.
#[derive(Debug, Clone)]
pub struct SessionInfo {
    pub id: String,
    pub provider: String,
    pub sub: String,
    pub created_at: i64,
    pub last_seen: i64,
}

/// Where to go after a login: the requested target when it stays on this
/// origin, else nowhere in particular.
pub open spec fn login_redirect_spec(redirect: Option<String>) -> Option<Seq<char>> {
    match redirect {
        Some(r) => if same_origin_path(r@) {
            Some(r@)
        } else {
            None
        },
        None => None,
    }
}

/// The target a login returns to (kept only when it stays on this origin)
/// and whether it runs in a popup (no by default).
pub fn login_options(q: &LoginQuery) -> (r: (Option<String>, bool))
    ensures
        match r.0 {
            Some(t) => login_redirect_spec(q.redirect) == Some(t@),
            None => login_redirect_spec(q.redirect) is None,
        },
        r.1 == match q.popup {
            Some(b) => b,
            None => false,
        },
{
    let redirect = match &q.redirect {
        Some(r) => if validate_redirect(r.as_str()) {
            Some(r.clone())
        } else {
            None
        },
        None => None,
    };
    let popup = match q.popup {
        Some(b) => b,
        None => false,
    };
    (redirect, popup)
}

/// What a callback carries once its first checks pass: the provider's
/// position, the authorization code and the state.
#[derive(Debug)]
pub struct CallbackParams {
    pub provider: usize,
    pub code: String,
    pub state: String,
}

/// The checks of a callback before the login flow is read back: an error
/// reported by the identity provider (401), the provider (as at login), the
/// code and the state (400 when missing), in that order.
pub fn callback_params(q: &CallbackQuery, providers: &Vec<OidcProviderConfig>) -> (r: Result<CallbackParams, AppError>)
    ensures
        match q.error {
            Some(err) => r matches Err(e) && e.status == 401 && e.message@ == "IdP 返回错误: "@ + err@ + " "@
                + match q.error_description {
                Some(d) => d@,
                None => Seq::<char>::empty(),
            },
            None => match r {
                Ok(p) => p.provider < providers@.len() && match q.provider {
                    Some(id) => provider_at(providers@, id@, 0) == Some(p.provider as int),
                    None => providers@.len() == 1 && p.provider == 0,
                } && q.code == Some(p.code) && q.state == Some(p.state),
                Err(e) => (match q.provider {
                    Some(id) => provider_at(providers@, id@, 0) is None && e.status == 404 && e.message@
                        == "OIDC provider 不存在: "@ + id@,
                    None => providers@.len() != 1 && e.status == 400,
                }) || (q.code is None && e.status == 400 && e.message@ == "缺少 code"@) || (q.code is Some
                    && q.state is None && e.status == 400 && e.message@ == "缺少 state"@),
            },
        },
        q.error is None ==> ((r is Ok) == (match q.provider {
            Some(id) => provider_at(providers@, id@, 0) is Some,
            None => providers@.len() == 1,
        } && q.code is Some && q.state is Some)),
{
    match &q.error {
        Some(err) => {
            let mut msg = concat2("IdP 返回错误: ", err.as_str());
            push_str(&mut msg, " ");
            match &q.error_description {
                Some(d) => push_str(&mut msg, d.as_str()),
                None => {},
            }
            return Err(AppError::unauthorized(msg.as_str()));
        },
        None => {},
    }
    let provider: usize = match &q.provider {
        Some(id) => match crate::oidc::handlers::find_provider(providers, id.as_str()) {
            Some(j) => j,
            None => {
                return Err(AppError::new(404, concat2("OIDC provider 不存在: ", id.as_str())));
            },
        },
        None => {
            if providers.len() == 1 {
                0
            } else {
                return match select_provider(providers, None) {
                    Ok(_) => Err(AppError::bad_request("未配置任何 OIDC provider")),
                    Err(e) => Err(e),
                };
            }
        },
    };
    let code = match &q.code {
        Some(c) => c.clone(),
        None => {
            return Err(AppError::bad_request("缺少 code"));
        },
    };
    let state = match &q.state {
        Some(s) => s.clone(),
        None => {
            return Err(AppError::bad_request("缺少 state"));
        },
    };
    Ok(CallbackParams { provider, code, state })
}

/// The check of the login flow read back from the session: it must be
/// there (401 otherwise) and carry the state the callback returned (401
/// otherwise, against cross-site request forgery).
pub fn check_flow(flow: Option<&AuthFlow>, state: &str) -> (r: Result<(), AppError>)
    ensures
        match flow {
            None => r matches Err(e) && e.status == 401 && e.message@ == "授权流程不存在或已过期"@,
            Some(f) => if f.state@ == state@ {
                r is Ok
            } else {
                r matches Err(e) && e.status == 401 && e.message@ == "state 校验失败（CSRF 防护）"@
            },
        },
{
    match flow {
        None => Err(AppError::unauthorized("授权流程不存在或已过期")),
        Some(f) => {
            if str_eq(f.state.as_str(), state) {
                Ok(())
            } else {
                Err(AppError::unauthorized("state 校验失败（CSRF 防护）"))
            }
        },
    }
}

/// Where the browser lands once a login completes.
#[derive(Debug)]
pub enum Landing {
    /// A page that tells the opening window and closes itself.
    PopupPage,
    /// A redirect to the given path.
    Redirect(String),
}

/// Where a completed login lands: the closing page in popup mode, else the
/// target kept at login, else `/`.
pub fn landing(flow: &AuthFlow) -> (l: Landing)
    ensures
        flow.popup ==> l is PopupPage,
        !flow.popup ==> (l matches Landing::Redirect(t) && t@ == match flow.redirect_after_login {
            Some(r) => r@,
            None => "/"@,
        }),
{
    if flow.popup {
        Landing::PopupPage
    } else {
        match &flow.redirect_after_login {
            Some(r) => Landing::Redirect(r.clone()),
            None => Landing::Redirect("/".to_owned()),
        }
    }
}

/// The page a popup login closes with: it posts `oidc-done` to the window
/// that opened it, then closes.
pub open spec fn popup_close_spec() -> Seq<char> {
    "<!DOCTYPE html>\n<html><body>\n<script>\ntry { window.opener && window.opener.postMessage('oidc-done', window.location.origin); } catch(e) {}\nwindow.close();\n</script>\n<p>登录完成，窗口即将关闭...</p>\n</body></html>"@
}

/// The page a popup login closes with.
pub fn popup_close_html() -> (h: &'static str)
    ensures
        h@ == popup_close_spec(),
{
    "<!DOCTYPE html>\n<html><body>\n<script>\ntry { window.opener && window.opener.postMessage('oidc-done', window.location.origin); } catch(e) {}\nwindow.close();\n</script>\n<p>登录完成，窗口即将关闭...</p>\n</body></html>"
}

/// The lifetime of fresh tokens, in seconds: what the provider said (as a
/// signed 64-bit number, as the seconds of its duration cast), else an hour.
pub fn token_lifetime(expires_in_secs: Option<u64>) -> (t: i64)
    ensures
        t == match expires_in_secs {
            Some(s) => s as i64,
            None => 3600,
        },
{
    match expires_in_secs {
        Some(s) => #[verifier::truncate] (s as i64),
        None => 3600,
    }
}

/// The lock key of a session's token refresh: `bff:refresh_lock:{id}`,
/// with `unknown` for a session without an id.
pub fn refresh_lock_key(session_id: Option<&str>) -> (k: String)
    ensures
        k@ == "bff:refresh_lock:"@ + match session_id {
            Some(id) => id@,
            None => "unknown"@,
        },
{
    match session_id {
        Some(id) => concat2("bff:refresh_lock:", id),
        None => concat2("bff:refresh_lock:", "unknown"),
    }
}

/// Whether the tokens found after taking the refresh lock make the refresh
/// unnecessary: they are there and outside the refresh window.
pub fn refreshed_meanwhile(current: Option<&StoredTokens>, skew_secs: u64, now: i64) -> (b: bool)
    ensures
        b == match current {
            Some(t) => !expiring_at(t.expires_at, skew_secs, now),
            None => false,
        },
{
    match current {
        Some(t) => !t.is_expiring_at(skew_secs, now),
        None => false,
    }
}

/// The record of a session that has just signed in at `now`.
pub fn session_info(id: &str, provider: &str, sub: &str, now: i64) -> (s: SessionInfo)
    ensures
        s.id@ == id@,
        s.provider@ == provider@,
        s.sub@ == sub@,
        s.created_at == now,
        s.last_seen == now,
{
    SessionInfo { id: id.to_owned(), provider: provider.to_owned(), sub: sub.to_owned(), created_at: now, last_seen: now }
}

} // verus!
