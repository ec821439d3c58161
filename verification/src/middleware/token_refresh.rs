//! Token refresh by stale-while-revalidate: a token outside its refresh
//! window passes as it is; one inside the window but still valid passes
//! while a refresh runs in the background; an expired one is refreshed
//! before the request goes on.
use crate::config::OidcProviderConfig;
use crate::oidc::handlers::{find_provider, provider_at};
use crate::oidc::tokens::{expiring_at, now_unix, StoredTokens};
use crate::utils::text::{is_prefix, starts_with};
use vstd::prelude::*;

verus! {

/// What to do about the session's tokens before a request goes on.
#[derive(Debug, Clone, Copy, PartialEq, Eq, Structural)]
pub enum RefreshAction {
    /// Let the request through with the tokens as they are.
    Pass,
    /// Refresh the tokens, waiting for the outcome, then let the request through.
    RefreshNow,
    /// Let the request through and refresh the tokens in the background.
    RefreshInBackground,
}

/// `path` starts with one of `prefixes`.
pub open spec fn under_any(prefixes: Seq<String>, path: Seq<char>) -> bool {
    exists|i: int| 0 <= i < prefixes.len() && is_prefix(#[trigger] prefixes[i]@, path)
}

/// Whether `path` starts with one of `prefixes`.
pub fn starts_with_any(prefixes: &Vec<String>, path: &str) -> (b: bool)
    ensures
        b == under_any(prefixes@, path@),
{
    let mut i: usize = 0;
    while i < prefixes.len()
        invariant
            i <= prefixes.len(),
            forall|j: int| 0 <= j < i ==> !is_prefix(#[trigger] prefixes@[j]@, path@),
        decreases prefixes.len() - i,
    {
        if starts_with(path, prefixes[i].as_str()) {
            return true;
        }
        i += 1;
    }
    false
}

/// The refresh window of a provider: its `refresh_skew_secs`, 60 s when unknown.
pub open spec fn skew_for(providers: Seq<OidcProviderConfig>, provider: Seq<char>) -> u64 {
    match provider_at(providers, provider, 0) {
        Some(j) => providers[j].refresh_skew_secs,
        None => 60,
    }
}

/// The tokens behind an optional reference.
pub open spec fn token_opt(tokens: Option<&StoredTokens>) -> Option<StoredTokens> {
    match tokens {
        Some(t) => Some(*t),
        None => None,
    }
}

/// What to do for a request on `path` at `now` with the session's tokens.
pub open spec fn refresh_action_spec(
    path: Seq<char>,
    skip_prefixes: Seq<String>,
    tokens: Option<StoredTokens>,
    providers: Seq<OidcProviderConfig>,
    now: i64,
) -> RefreshAction {
    if under_any(skip_prefixes, path) {
        RefreshAction::Pass
    } else {
        match tokens {
            None => RefreshAction::Pass,
            Some(t) => if expiring_at(t.expires_at, 0, now) {
                RefreshAction::RefreshNow
            } else if expiring_at(t.expires_at, skew_for(providers, t.provider@), now)
                && t.refresh_token_enc is Some {
                RefreshAction::RefreshInBackground
            } else {
                RefreshAction::Pass
            },
        }
    }
}

/// Decides, at `now`, what to do about the session's tokens before a request on `path`.
pub fn refresh_action_at(
    path: &str,
    skip_prefixes: &Vec<String>,
    tokens: Option<&StoredTokens>,
    providers: &Vec<OidcProviderConfig>,
    now: i64,
) -> (a: RefreshAction)
    ensures
        a == refresh_action_spec(path@, skip_prefixes@, token_opt(tokens), providers@, now),
{
    if starts_with_any(skip_prefixes, path) {
        return RefreshAction::Pass;
    }
    match tokens {
        None => RefreshAction::Pass,
        Some(t) => {
            let skew: u64 = match find_provider(providers, t.provider.as_str()) {
                Some(j) => providers[j].refresh_skew_secs,
                None => 60,
            };
            if t.is_expiring_at(0, now) {
                RefreshAction::RefreshNow
            } else if t.is_expiring_at(skew, now) && t.refresh_token_enc.is_some() {
                RefreshAction::RefreshInBackground
            } else {
                RefreshAction::Pass
            }
        },
    }
}

/// Decides, now, what to do about the session's tokens before a request on `path`.
pub fn refresh_action(
    path: &str,
    skip_prefixes: &Vec<String>,
    tokens: Option<&StoredTokens>,
    providers: &Vec<OidcProviderConfig>,
) -> (a: RefreshAction)
    ensures
        exists|now: i64|
            a == #[trigger] refresh_action_spec(path@, skip_prefixes@, token_opt(tokens), providers@, now),
{
    refresh_action_at(path, skip_prefixes, tokens, providers, now_unix())
}

/// An expired token is never passed on as it is: outside the skipped
/// paths, it is refreshed before the request goes on.
pub proof fn law_expired_refreshed_first(
    path: Seq<char>,
    skip_prefixes: Seq<String>,
    t: StoredTokens,
    providers: Seq<OidcProviderConfig>,
    now: i64,
)
    requires
        !under_any(skip_prefixes, path),
        t.expires_at <= now,
    ensures
        refresh_action_spec(path, skip_prefixes, Some(t), providers, now) == RefreshAction::RefreshNow,
{
}

/// A token outside its provider's refresh window is passed on and not refreshed.
pub proof fn law_fresh_not_refreshed(
    path: Seq<char>,
    skip_prefixes: Seq<String>,
    t: StoredTokens,
    providers: Seq<OidcProviderConfig>,
    now: i64,
)
    requires
        t.expires_at - skew_for(providers, t.provider@) > now,
    ensures
        refresh_action_spec(path, skip_prefixes, Some(t), providers, now) == RefreshAction::Pass,
{
}

/// A still-valid token inside the refresh window is refreshed in the
/// background only when there is a refresh token to refresh it with.
pub proof fn law_background_needs_refresh_token(
    path: Seq<char>,
    skip_prefixes: Seq<String>,
    t: StoredTokens,
    providers: Seq<OidcProviderConfig>,
    now: i64,
)
    ensures
        refresh_action_spec(path, skip_prefixes, Some(t), providers, now)
            == RefreshAction::RefreshInBackground ==> t.refresh_token_enc is Some && t.expires_at > now,
{
}

} // verus!
