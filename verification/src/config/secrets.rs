//! Secrets on export and import: an exported configuration carries a
//! sentinel in place of every non-empty secret, and an imported one gets
//! its secrets (OIDC client secrets, the admin token, token-exchange client
//! secrets) back from the live configuration wherever it still carries the
//! sentinel: an imported sentinel never overwrites a live secret.
use crate::config::{
    secret_sentinel, secret_sentinel_string, AdminConfig, AppConfig, OidcProviderConfig,
    OidcSection, RouteDef, RouteTypeConfig, TokenExchangeConfig,
};
use crate::oidc::handlers::{find_provider, lemma_provider_found, provider_at};
use crate::utils::text::str_eq;
use vstd::prelude::*;

verus! {

/// A secret as exported: the sentinel when non-empty.
pub open spec fn masked(s: Seq<char>) -> Seq<char> {
    if s.len() == 0 {
        s
    } else {
        secret_sentinel()
    }
}

/// `b` is `a` with its client secret masked.
pub open spec fn provider_masked(a: OidcProviderConfig, b: OidcProviderConfig) -> bool {
    &&& b.client_secret@ == masked(a.client_secret@)
    &&& b == OidcProviderConfig { client_secret: b.client_secret, ..a }
}

/// `b` is `a` with the token-exchange client secret, if any, masked.
pub open spec fn route_masked(a: RouteDef, b: RouteDef) -> bool {
    &&& match (a.config.token_exchange, b.config.token_exchange) {
        (None, None) => true,
        (Some(x), Some(y)) => y.client_secret@ == masked(x.client_secret@) && y
            == TokenExchangeConfig { client_secret: y.client_secret, ..x },
        _ => false,
    }
    &&& b == RouteDef {
        config: RouteTypeConfig { token_exchange: b.config.token_exchange, ..a.config },
        ..a
    }
}

/// `b` is the export form of `a`: provider secrets, the admin token and
/// token-exchange secrets masked, everything else as it was.
pub open spec fn sanitized_from(a: AppConfig, b: AppConfig) -> bool {
    &&& b.oidc.providers@.len() == a.oidc.providers@.len()
    &&& forall|i: int|
        0 <= i < a.oidc.providers@.len() ==> provider_masked(
            a.oidc.providers@[i],
            #[trigger] b.oidc.providers@[i],
        )
    &&& b.admin.auth_token@ == masked(a.admin.auth_token@)
    &&& b.routes@.len() == a.routes@.len()
    &&& forall|i: int| 0 <= i < a.routes@.len() ==> route_masked(a.routes@[i], #[trigger] b.routes@[i])
    &&& b == AppConfig {
        oidc: OidcSection { providers: b.oidc.providers },
        admin: AdminConfig { auth_token: b.admin.auth_token, ..a.admin },
        routes: b.routes,
        ..a
    }
}

/// The first position, from `k` on, of a route with path `path` that has a token exchange.
pub open spec fn exchange_route_at(rs: Seq<RouteDef>, path: Seq<char>, k: int) -> Option<int>
    decreases rs.len() - k,
{
    if k < 0 || k >= rs.len() {
        None
    } else if rs[k].path@ == path && rs[k].config.token_exchange is Some {
        Some(k)
    } else {
        exchange_route_at(rs, path, k + 1)
    }
}

proof fn lemma_exchange_route_found(rs: Seq<RouteDef>, path: Seq<char>, k: int)
    ensures
        exchange_route_at(rs, path, k) matches Some(j) ==> k <= j < rs.len() && rs[j].path@ == path
            && rs[j].config.token_exchange is Some,
    decreases rs.len() - k,
{
    if 0 <= k < rs.len() {
        lemma_exchange_route_found(rs, path, k + 1);
    }
}

/// The client secret a token exchange of route `r` takes on import from the
/// live routes `live`: a sentinel is replaced by the secret of the first live
/// route with the same path and a token exchange, unless that one is a sentinel too.
pub open spec fn restored_secret(r: RouteDef, te: TokenExchangeConfig, live: Seq<RouteDef>) -> Seq<char> {
    if te.client_secret@ == secret_sentinel() {
        match exchange_route_at(live, r.path@, 0) {
            Some(j) => {
                let ex = live[j].config.token_exchange->0.client_secret@;
                if ex != secret_sentinel() {
                    ex
                } else {
                    te.client_secret@
                }
            },
            None => te.client_secret@,
        }
    } else {
        te.client_secret@
    }
}

/// `b` is route `a` after its secret was restored from `live`.
pub open spec fn route_restored(a: RouteDef, b: RouteDef, live: Seq<RouteDef>) -> bool {
    &&& match (a.config.token_exchange, b.config.token_exchange) {
        (None, None) => true,
        (Some(x), Some(y)) => y.client_secret@ == restored_secret(a, x, live) && y
            == TokenExchangeConfig { client_secret: y.client_secret, ..x },
        _ => false,
    }
    &&& b == RouteDef {
        config: RouteTypeConfig { token_exchange: b.config.token_exchange, ..a.config },
        ..a
    }
}

/// A secret as imported over the live secret `current`: a sentinel gives way
/// to the live secret unless that is a sentinel as well.
pub open spec fn restored_text(imported: Seq<char>, current: Seq<char>) -> Seq<char> {
    if imported == secret_sentinel() && current != secret_sentinel() {
        current
    } else {
        imported
    }
}

/// The client secret an imported provider takes from the live providers
/// `live`: restored from the first live provider with the same id, if any.
pub open spec fn restored_client_secret(p: OidcProviderConfig, live: Seq<OidcProviderConfig>) -> Seq<char> {
    match provider_at(live, p.id@, 0) {
        Some(j) => restored_text(p.client_secret@, live[j].client_secret@),
        None => p.client_secret@,
    }
}

/// `b` is provider `a` after its client secret was restored from `live`.
pub open spec fn provider_restored(a: OidcProviderConfig, b: OidcProviderConfig, live: Seq<OidcProviderConfig>) -> bool {
    &&& b.client_secret@ == restored_client_secret(a, live)
    &&& b == OidcProviderConfig { client_secret: b.client_secret, ..a }
}

/// `b` is the imported `a` after restoring secrets from `live`: each OIDC
/// client secret, the admin token and each token-exchange client secret.
pub open spec fn merged_from(a: AppConfig, live: AppConfig, b: AppConfig) -> bool {
    &&& b.oidc.providers@.len() == a.oidc.providers@.len()
    &&& forall|i: int|
        0 <= i < a.oidc.providers@.len() ==> provider_restored(
            a.oidc.providers@[i],
            #[trigger] b.oidc.providers@[i],
            live.oidc.providers@,
        )
    &&& b.admin.auth_token@ == restored_text(a.admin.auth_token@, live.admin.auth_token@)
    &&& b.routes@.len() == a.routes@.len()
    &&& forall|i: int|
        0 <= i < a.routes@.len() ==> route_restored(a.routes@[i], #[trigger] b.routes@[i], live.routes@)
    &&& b == AppConfig {
        oidc: OidcSection { providers: b.oidc.providers },
        admin: AdminConfig { auth_token: b.admin.auth_token, ..a.admin },
        routes: b.routes,
        ..a
    }
}

fn mask_providers(v: Vec<OidcProviderConfig>) -> (out: Vec<OidcProviderConfig>)
    ensures
        out@.len() == v@.len(),
        forall|i: int| 0 <= i < v@.len() ==> provider_masked(v@[i], #[trigger] out@[i]),
{
    let ghost orig = v@;
    let mut v = v;
    let mut out: Vec<OidcProviderConfig> = Vec::new();
    while v.len() > 0
        invariant
            out@.len() + v@.len() == orig.len(),
            v@ == orig.subrange(out@.len() as int, orig.len() as int),
            forall|j: int| 0 <= j < out@.len() ==> provider_masked(orig[j], #[trigger] out@[j]),
        decreases v.len(),
    {
        let mut p = v.remove(0);
        assert(p == orig[out@.len() as int]);
        if !p.client_secret.as_str().is_empty() {
            p.client_secret = secret_sentinel_string();
        }
        out.push(p);
    }
    out
}

fn mask_routes(v: Vec<RouteDef>) -> (out: Vec<RouteDef>)
    ensures
        out@.len() == v@.len(),
        forall|i: int| 0 <= i < v@.len() ==> route_masked(v@[i], #[trigger] out@[i]),
{
    let ghost orig = v@;
    let mut v = v;
    let mut out: Vec<RouteDef> = Vec::new();
    while v.len() > 0
        invariant
            out@.len() + v@.len() == orig.len(),
            v@ == orig.subrange(out@.len() as int, orig.len() as int),
            forall|j: int| 0 <= j < out@.len() ==> route_masked(orig[j], #[trigger] out@[j]),
        decreases v.len(),
    {
        let mut r = v.remove(0);
        assert(r == orig[out@.len() as int]);
        let te_opt = r.config.token_exchange.take();
        r.config.token_exchange = match te_opt {
            Some(te) => {
                let mut te = te;
                if !te.client_secret.as_str().is_empty() {
                    te.client_secret = secret_sentinel_string();
                }
                Some(te)
            },
            None => None,
        };
        out.push(r);
    }
    out
}

/// The position of the first route with path `path` that has a token exchange.
fn find_exchange_route(rs: &Vec<RouteDef>, path: &str) -> (r: Option<usize>)
    ensures
        match r {
            Some(j) => j < rs@.len() && exchange_route_at(rs@, path@, 0) == Some(j as int),
            None => exchange_route_at(rs@, path@, 0) is None,
        },
{
    let mut k: usize = 0;
    while k < rs.len()
        invariant
            k <= rs.len(),
            exchange_route_at(rs@, path@, 0) == exchange_route_at(rs@, path@, k as int),
        decreases rs.len() - k,
    {
        if str_eq(rs[k].path.as_str(), path) && rs[k].config.token_exchange.is_some() {
            return Some(k);
        }
        k += 1;
    }
    None
}

/// Route `r` with its token-exchange secret restored from `live`.
fn restore_one(r: RouteDef, live: &Vec<RouteDef>, sentinel: &String) -> (out: RouteDef)
    requires
        sentinel@ == secret_sentinel(),
    ensures
        route_restored(r, out, live@),
{
    let mut r = r;
    let ghost r0 = r;
    let te_opt = r.config.token_exchange.take();
    match te_opt {
        Some(te) => {
            let ghost te0 = te;
            let mut te = te;
            if te.client_secret == *sentinel {
                match find_exchange_route(live, r.path.as_str()) {
                    Some(j) => {
                        proof {
                            lemma_exchange_route_found(live@, r.path@, 0);
                        }
                        match &live[j].config.token_exchange {
                            Some(ex) => {
                                if !(ex.client_secret == *sentinel) {
                                    te.client_secret = ex.client_secret.clone();
                                }
                            },
                            None => {},
                        }
                    },
                    None => {},
                }
            }
            assert(te.client_secret@ == restored_secret(r0, te0, live@));
            r.config.token_exchange = Some(te);
        },
        None => {
            r.config.token_exchange = None;
        },
    }
    r
}

fn restore_routes(v: Vec<RouteDef>, live: &Vec<RouteDef>) -> (out: Vec<RouteDef>)
    ensures
        out@.len() == v@.len(),
        forall|i: int| 0 <= i < v@.len() ==> route_restored(v@[i], #[trigger] out@[i], live@),
{
    let ghost orig = v@;
    let sentinel = secret_sentinel_string();
    let mut v = v;
    let mut out: Vec<RouteDef> = Vec::new();
    while v.len() > 0
        invariant
            out@.len() + v@.len() == orig.len(),
            v@ == orig.subrange(out@.len() as int, orig.len() as int),
            sentinel@ == secret_sentinel(),
            forall|j: int| 0 <= j < out@.len() ==> route_restored(orig[j], #[trigger] out@[j], live@),
        decreases v.len(),
    {
        let mut r = v.remove(0);
        assert(r == orig[out@.len() as int]);
        let r = restore_one(r, live, &sentinel);
        out.push(r);
    }
    out
}

/// A secret as imported over `current`.
fn restore_text(imported: String, current: &String, sentinel: &String) -> (out: String)
    requires
        sentinel@ == secret_sentinel(),
    ensures
        out@ == restored_text(imported@, current@),
{
    if imported == *sentinel && !(*current == *sentinel) {
        current.clone()
    } else {
        imported
    }
}

fn restore_providers(v: Vec<OidcProviderConfig>, live: &Vec<OidcProviderConfig>) -> (out: Vec<OidcProviderConfig>)
    ensures
        out@.len() == v@.len(),
        forall|i: int| 0 <= i < v@.len() ==> provider_restored(v@[i], #[trigger] out@[i], live@),
{
    let ghost orig = v@;
    let sentinel = secret_sentinel_string();
    let mut v = v;
    let mut out: Vec<OidcProviderConfig> = Vec::new();
    while v.len() > 0
        invariant
            out@.len() + v@.len() == orig.len(),
            v@ == orig.subrange(out@.len() as int, orig.len() as int),
            sentinel@ == secret_sentinel(),
            forall|j: int| 0 <= j < out@.len() ==> provider_restored(orig[j], #[trigger] out@[j], live@),
        decreases v.len(),
    {
        let mut p = v.remove(0);
        assert(p == orig[out@.len() as int]);
        let ghost p0 = p;
        match find_provider(live, p.id.as_str()) {
            Some(j) => {
                let mut secret = String::new();
                std::mem::swap(&mut secret, &mut p.client_secret);
                p.client_secret = restore_text(secret, &live[j].client_secret, &sentinel);
            },
            None => {},
        }
        assert(provider_restored(p0, p, live@));
        out.push(p);
    }
    out
}

impl AppConfig {
    /// The export form of this configuration: every non-empty OIDC client
    /// secret, admin token and token-exchange client secret replaced by the
    /// sentinel `***`, all else kept.
    pub fn sanitized(self) -> (r: AppConfig)
        ensures
            sanitized_from(self, r),
    {
        let mut c = self;
        let mut providers: Vec<OidcProviderConfig> = Vec::new();
        std::mem::swap(&mut providers, &mut c.oidc.providers);
        c.oidc.providers = mask_providers(providers);
        if !c.admin.auth_token.as_str().is_empty() {
            c.admin.auth_token = secret_sentinel_string();
        }
        let mut routes: Vec<RouteDef> = Vec::new();
        std::mem::swap(&mut routes, &mut c.routes);
        c.routes = mask_routes(routes);
        c
    }

    /// On import: a secret that is the sentinel never overwrites a live one.
    /// An OIDC client secret is taken from the first provider of `existing`
    /// with the same id, the admin token from `existing`'s, and a
    /// token-exchange client secret from the first route of `existing` with
    /// the same path and a token exchange; each only when that live secret
    /// is not the sentinel as well.
    pub fn merge_sensitive_secrets(&mut self, existing: &AppConfig)
        ensures
            merged_from(*old(self), *existing, *final(self)),
    {
        let sentinel = secret_sentinel_string();
        let mut providers: Vec<OidcProviderConfig> = Vec::new();
        std::mem::swap(&mut providers, &mut self.oidc.providers);
        self.oidc.providers = restore_providers(providers, &existing.oidc.providers);
        let mut token = String::new();
        std::mem::swap(&mut token, &mut self.admin.auth_token);
        self.admin.auth_token = restore_text(token, &existing.admin.auth_token, &sentinel);
        let mut routes: Vec<RouteDef> = Vec::new();
        std::mem::swap(&mut routes, &mut self.routes);
        self.routes = restore_routes(routes, &existing.routes);
    }
}

/// No secret survives export: each secret of the exported form is empty or the sentinel.
pub proof fn law_export_hides_secrets(a: AppConfig, b: AppConfig)
    requires
        sanitized_from(a, b),
    ensures
        forall|i: int|
            0 <= i < b.oidc.providers@.len() ==> {
                let s = #[trigger] b.oidc.providers@[i].client_secret@;
                s.len() == 0 || s == secret_sentinel()
            },
        b.admin.auth_token@.len() == 0 || b.admin.auth_token@ == secret_sentinel(),
        forall|i: int|
            0 <= i < b.routes@.len() && (#[trigger] b.routes@[i]).config.token_exchange is Some ==> {
                let s = b.routes@[i].config.token_exchange->0.client_secret@;
                s.len() == 0 || s == secret_sentinel()
            },
{
    assert forall|i: int| 0 <= i < b.oidc.providers@.len() implies {
        let s = #[trigger] b.oidc.providers@[i].client_secret@;
        s.len() == 0 || s == secret_sentinel()
    } by {
        assert(provider_masked(a.oidc.providers@[i], b.oidc.providers@[i]));
    }
    assert forall|i: int|
        0 <= i < b.routes@.len() && (#[trigger] b.routes@[i]).config.token_exchange is Some implies {
        let s = b.routes@[i].config.token_exchange->0.client_secret@;
        s.len() == 0 || s == secret_sentinel()
    } by {
        assert(route_masked(a.routes@[i], b.routes@[i]));
    }
}

/// Each route with a token exchange is the first such route with its path.
pub open spec fn exchange_paths_distinct(rs: Seq<RouteDef>) -> bool {
    forall|i: int|
        0 <= i < rs.len() && (#[trigger] rs[i]).config.token_exchange is Some ==> exchange_route_at(
            rs,
            rs[i].path@,
            0,
        ) == Some(i)
}

/// Exporting a configuration and importing the export back over it restores
/// the admin token, and every token-exchange client secret when no two
/// routes with a token exchange share a path.
pub proof fn law_export_import_restores_secrets(live: AppConfig, exported: AppConfig, imported: AppConfig)
    requires
        sanitized_from(live, exported),
        merged_from(exported, live, imported),
        exchange_paths_distinct(live.routes@),
    ensures
        imported.admin.auth_token@ == live.admin.auth_token@,
        imported.routes@.len() == live.routes@.len(),
        forall|i: int|
            0 <= i < live.routes@.len() ==> {
                let a = live.routes@[i];
                let b = #[trigger] imported.routes@[i];
                &&& (a.config.token_exchange is Some <==> b.config.token_exchange is Some)
                &&& a.config.token_exchange is Some ==> b.config.token_exchange->0.client_secret@
                    == a.config.token_exchange->0.client_secret@
                &&& b.path == a.path
            },
{
    assert forall|i: int| 0 <= i < live.routes@.len() implies {
        let a = live.routes@[i];
        let b = #[trigger] imported.routes@[i];
        &&& (a.config.token_exchange is Some <==> b.config.token_exchange is Some)
        &&& a.config.token_exchange is Some ==> b.config.token_exchange->0.client_secret@
            == a.config.token_exchange->0.client_secret@
        &&& b.path == a.path
    } by {
        let a = live.routes@[i];
        let e = exported.routes@[i];
        assert(route_masked(a, e));
        assert(route_restored(e, imported.routes@[i], live.routes@));
        if a.config.token_exchange is Some {
            assert(live.routes@[i].config.token_exchange is Some);
            assert(exchange_route_at(live.routes@, a.path@, 0) == Some(i));
        }
    }
}

/// Each provider is the first with its id.
pub open spec fn provider_ids_distinct(ps: Seq<OidcProviderConfig>) -> bool {
    forall|i: int| 0 <= i < ps.len() ==> provider_at(ps, (#[trigger] ps[i]).id@, 0) == Some(i)
}

/// Exporting a configuration and importing the export back over it restores
/// every OIDC client secret, when no two providers share an id.
pub proof fn law_export_import_restores_client_secrets(live: AppConfig, exported: AppConfig, imported: AppConfig)
    requires
        sanitized_from(live, exported),
        merged_from(exported, live, imported),
        provider_ids_distinct(live.oidc.providers@),
    ensures
        imported.oidc.providers@.len() == live.oidc.providers@.len(),
        forall|i: int|
            0 <= i < live.oidc.providers@.len() ==> {
                let a = live.oidc.providers@[i];
                let b = #[trigger] imported.oidc.providers@[i];
                b.id == a.id && b.client_secret@ == a.client_secret@
            },
{
    assert forall|i: int| 0 <= i < live.oidc.providers@.len() implies {
        let a = live.oidc.providers@[i];
        let b = #[trigger] imported.oidc.providers@[i];
        b.id == a.id && b.client_secret@ == a.client_secret@
    } by {
        let a = live.oidc.providers@[i];
        let e = exported.oidc.providers@[i];
        assert(provider_masked(a, e));
        assert(provider_restored(e, imported.oidc.providers@[i], live.oidc.providers@));
        assert(provider_at(live.oidc.providers@, a.id@, 0) == Some(i));
    }
}

} // verus!
