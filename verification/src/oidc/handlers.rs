//! OIDC login helpers: provider selection, redirect validation, the base
//! URL callbacks are built on, the RP-initiated logout URL, and the claims
//! check of an ID token read without signature verification.
use crate::config::OidcProviderConfig;
use crate::utils::error::AppError;
use crate::utils::json::{get_i64, get_str, i64_member, str_member, Value};
use crate::utils::template::pct_encode;
use crate::utils::text::{
    chars_of, concat2, decimal_text, first_index, format_u64, lemma_first_index, push_char,
    push_str, slice_chars, starts_with_c, str_eq, string_from_chars, trim_end, trim_end_char,
};
use vstd::prelude::*;

verus! {

/// The first provider, from position `i` on, with id `id`.
pub open spec fn provider_at(ps: Seq<OidcProviderConfig>, id: Seq<char>, i: int) -> Option<int>
    decreases ps.len() - i,
{
    if i < 0 || i >= ps.len() {
        None
    } else if ps[i].id@ == id {
        Some(i)
    } else {
        provider_at(ps, id, i + 1)
    }
}

pub(crate) proof fn lemma_provider_found(ps: Seq<OidcProviderConfig>, id: Seq<char>, i: int)
    ensures
        provider_at(ps, id, i) matches Some(j) ==> i <= j < ps.len() && ps[j].id@ == id,
    decreases ps.len() - i,
{
    if 0 <= i < ps.len() {
        lemma_provider_found(ps, id, i + 1);
    }
}

/// The position of the first provider with id `id`.
pub fn find_provider(ps: &Vec<OidcProviderConfig>, id: &str) -> (r: Option<usize>)
    ensures
        match r {
            Some(j) => j < ps@.len() && provider_at(ps@, id@, 0) == Some(j as int),
            None => provider_at(ps@, id@, 0) is None,
        },
{
    let mut i: usize = 0;
    while i < ps.len()
        invariant
            i <= ps.len(),
            provider_at(ps@, id@, 0) == provider_at(ps@, id@, i as int),
        decreases ps.len() - i,
    {
        if str_eq(ps[i].id.as_str(), id) {
            return Some(i);
        }
        i += 1;
    }
    None
}

/// Picks the provider of a login: the one with id `id`, or, without an id,
/// the only one configured.
pub fn select_provider<'a>(providers: &'a Vec<OidcProviderConfig>, id: Option<&str>) -> (r: Result<&'a OidcProviderConfig, AppError>)
    ensures
        match id {
            Some(i) => match provider_at(providers@, i@, 0) {
                Some(j) => r matches Ok(p) && *p == providers@[j],
                None => r matches Err(e) && e.status == 404 && e.message@ == "OIDC provider 不存在: "@ + i@,
            },
            None => if providers@.len() == 1 {
                r matches Ok(p) && *p == providers@[0]
            } else if providers@.len() == 0 {
                r matches Err(e) && e.status == 400 && e.message@ == "未配置任何 OIDC provider"@
            } else {
                r matches Err(e) && e.status == 400 && e.message@
                    == "存在多个 provider，请通过 ?provider= 指定"@
            },
        },
{
    match id {
        Some(i) => match find_provider(providers, i) {
            Some(j) => Ok(&providers[j]),
            None => Err(AppError::new(404, concat2("OIDC provider 不存在: ", i))),
        },
        None => {
            if providers.len() == 1 {
                Ok(&providers[0])
            } else if providers.len() == 0 {
                Err(AppError::bad_request("未配置任何 OIDC provider"))
            } else {
                Err(AppError::bad_request("存在多个 provider，请通过 ?provider= 指定"))
            }
        },
    }
}

/// A post-login redirect target that stays on this origin: an absolute
/// path, not a protocol-relative `//host` nor `/\host`, which browsers read
/// the same way.
pub open spec fn same_origin_path(r: Seq<char>) -> bool {
    starts_with_c(r, '/') && !(r.len() >= 2 && (r[1] == '/' || r[1] == '\\'))
}

/// Whether a post-login redirect target stays on this origin.
pub fn validate_redirect(redirect: &str) -> (b: bool)
    ensures
        b == same_origin_path(redirect@),
{
    let v = chars_of(redirect);
    v.len() > 0 && v[0] == '/' && !(v.len() >= 2 && (v[1] == '/' || v[1] == '\\'))
}

/// The base URL of this service as the client reached it: `http://{host}`,
/// or the loopback address and business port without a `Host` header.
pub fn base_url_from(host: Option<&str>, business_port: u16) -> (s: String)
    ensures
        s@ == match host {
            Some(h) => "http://"@ + h@,
            None => "http://127.0.0.1:"@ + decimal_text(business_port as nat),
        },
{
    match host {
        Some(h) => concat2("http://", h),
        None => {
            let port = format_u64(business_port as u64);
            concat2("http://127.0.0.1:", port.as_str())
        },
    }
}

/// Percent-encodes the UTF-8 bytes of `s` for a query value: ASCII letters,
/// digits and `-_.~` stay, every other byte becomes `%XX`.
pub fn urlencoding(s: &str) -> (r: String)
    ensures
        r@ == pct_encode(vstd::utf8::encode_utf8(s@)),
{
    let bytes = s.as_bytes();
    let mut r = String::new();
    let mut i: usize = 0;
    while i < bytes.len()
        invariant
            i <= bytes@.len(),
            bytes@ == vstd::utf8::encode_utf8(s@),
            r@ == pct_encode(bytes@.take(i as int)),
        decreases bytes.len() - i,
    {
        let b = bytes[i];
        assert(bytes@.take(i + 1).drop_last() =~= bytes@.take(i as int));
        if (65 <= b && b <= 90) || (97 <= b && b <= 122) || (48 <= b && b <= 57) || b == 45 || b
            == 95 || b == 46 || b == 126 {
            push_char(&mut r, b as char);
        } else {
            push_char(&mut r, '%');
            push_char(&mut r, upper_hex_char(b / 16));
            push_char(&mut r, upper_hex_char(b % 16));
        }
        i += 1;
    }
    assert(bytes@.take(bytes@.len() as int) =~= bytes@);
    r
}

fn upper_hex_char(n: u8) -> (c: char)
    requires
        n < 16,
    ensures
        c == crate::utils::template::upper_hex(n as int),
{
    if n < 10 {
        crate::utils::text::char_from_ascii(48 + n as u32)
    } else {
        crate::utils::text::char_from_ascii(55 + n as u32)
    }
}

/// The RP-initiated logout URL of an issuer: its `/connect/logout` endpoint,
/// sending the user back to this service's root, with the ID token as hint
/// when there is one.
pub open spec fn logout_url_spec(issuer_url: Seq<char>, base_url: Seq<char>, hint: Option<Seq<char>>) -> Seq<char> {
    let back = trim_end(base_url, '/') + seq!['/'];
    trim_end(issuer_url, '/') + "/connect/logout?post_logout_redirect_uri="@ + pct_encode(
        vstd::utf8::encode_utf8(back),
    ) + match hint {
        Some(h) => "&id_token_hint="@ + pct_encode(vstd::utf8::encode_utf8(h)),
        None => Seq::empty(),
    }
}

/// Builds the RP-initiated logout URL.
pub fn logout_url(issuer_url: &str, base_url: &str, id_token_hint: Option<&str>) -> (u: String)
    ensures
        u@ == logout_url_spec(
            issuer_url@,
            base_url@,
            match id_token_hint {
                Some(h) => Some(h@),
                None => None,
            },
        ),
{
    let mut back = trim_end_char(base_url, '/');
    push_char(&mut back, '/');
    assert(back@ =~= trim_end(base_url@, '/') + seq!['/']);
    let mut u = trim_end_char(issuer_url, '/');
    push_str(&mut u, "/connect/logout?post_logout_redirect_uri=");
    let eb = urlencoding(back.as_str());
    push_str(&mut u, eb.as_str());
    let ghost head = u@;
    match id_token_hint {
        Some(h) => {
            push_str(&mut u, "&id_token_hint=");
            let eh = urlencoding(h);
            push_str(&mut u, eh.as_str());
            assert(u@ =~= head + ("&id_token_hint="@ + eh@));
        },
        None => {
            assert(u@ =~= head + Seq::<char>::empty());
        },
    }
    u
}

/// The second `.`-separated segment of a JWT (its payload), if there is one.
pub open spec fn jwt_payload_spec(jwt: Seq<char>) -> Option<Seq<char>> {
    match first_index(jwt, '.') {
        None => None,
        Some(i) => {
            let rest = jwt.subrange(i + 1, jwt.len() as int);
            match first_index(rest, '.') {
                None => Some(rest),
                Some(j) => Some(rest.subrange(0, j)),
            }
        },
    }
}

/// The payload segment of a JWT (`jwt.split('.').nth(1)`).
pub fn jwt_payload_segment(jwt: &str) -> (r: Option<String>)
    ensures
        match r {
            Some(s) => jwt_payload_spec(jwt@) == Some(s@),
            None => jwt_payload_spec(jwt@) is None,
        },
{
    let v = chars_of(jwt);
    proof {
        lemma_first_index(v@, '.');
    }
    match crate::utils::text::find_char(&v, '.') {
        None => None,
        Some(i) => {
            assert(i < v.len());
            let rest = slice_chars(&v, i + 1, v.len());
            proof {
                lemma_first_index(rest@, '.');
            }
            match crate::utils::text::find_char(&rest, '.') {
                None => Some(string_from_chars(&rest)),
                Some(j) => Some(string_from_chars(&slice_chars(&rest, 0, j))),
            }
        },
    }
}

/// The payload bytes of a JWT read without verifying its signature: the
/// base64url-decoded second segment.
pub fn decode_jwt_payload_unverified(jwt: &str) -> (r: Result<Vec<u8>, AppError>)
    ensures
        match jwt_payload_spec(jwt@) {
            None => r matches Err(e) && e.status == 401 && e.message@ == "id_token 格式非法"@,
            Some(seg) => match crate::utils::crypto::b64url_decode(seg) {
                None => r matches Err(e) && e.status == 401 && e.message@ == "id_token 解码失败"@,
                Some(b) => r matches Ok(v) && v@ == b,
            },
        },
{
    let seg = match jwt_payload_segment(jwt) {
        Some(s) => s,
        None => {
            return Err(AppError::unauthorized("id_token 格式非法"));
        },
    };
    match crate::utils::crypto::b64_decode(seg.as_str()) {
        Some(b) => Ok(b),
        None => Err(AppError::unauthorized("id_token 解码失败")),
    }
}

/// The outcome of checking the claims of an unverified ID token at `now`.
pub open spec fn claims_check_spec(claims: crate::utils::json::Json, expected_nonce: Seq<char>, now: i64) -> Result<Seq<char>, (u16, Seq<char>)> {
    let nonce = match str_member(claims, "nonce"@) {
        Some(n) => n,
        None => Seq::empty(),
    };
    let exp: i64 = match i64_member(claims, "exp"@) {
        Some(e) => e,
        None => 0,
    };
    if nonce != expected_nonce {
        Err((401u16, "nonce 校验失败"@))
    } else if exp < now {
        Err((401u16, "id_token 已过期"@))
    } else {
        match str_member(claims, "sub"@) {
            Some(sub) => Ok(sub),
            None => Err((401u16, "id_token 缺少 sub"@)),
        }
    }
}

/// Checks the claims of an ID token read without signature verification:
/// the nonce must be the one sent, the token unexpired at `now` (a missing
/// `exp` counts as expired), and a subject present, which is returned.
pub fn check_unverified_claims(claims: &Value, expected_nonce: &str, now: i64) -> (r: Result<String, AppError>)
    ensures
        match claims_check_spec(claims.model(), expected_nonce@, now) {
            Ok(sub) => r matches Ok(s) && s@ == sub,
            Err((status, msg)) => r matches Err(e) && e.status == status && e.message@ == msg,
        },
{
    let nonce = match get_str(claims, "nonce") {
        Some(n) => n.to_owned(),
        None => String::new(),
    };
    if !str_eq(nonce.as_str(), expected_nonce) {
        return Err(AppError::unauthorized("nonce 校验失败"));
    }
    let exp: i64 = match get_i64(claims, "exp") {
        Some(e) => e,
        None => 0,
    };
    if exp < now {
        return Err(AppError::unauthorized("id_token 已过期"));
    }
    match get_str(claims, "sub") {
        Some(s) => Ok(s.to_owned()),
        None => Err(AppError::unauthorized("id_token 缺少 sub")),
    }
}

} // verus!
