//! The request guards of the admin port and the lookup of its embedded UI:
//! which API requests carry the admin token, which test endpoints are
//! closed, and which asset and media type a UI path is served with.
use crate::utils::text::{
    chars_of, ends_with, is_prefix, is_suffix, slice_chars, starts_with, str_eq, string_from_chars,
};
use crate::utils::split::{trim_start, trim_start_chars};
use vstd::prelude::*;

verus! {

/// A request passes admin authentication: it is not an API request
/// (`/admin/api/…`), or authentication is off (`none`), or it carries the
/// token in `X-Admin-Token` or as `Authorization: Bearer <token>`.
pub open spec fn authorized_spec(
    path: Seq<char>,
    auth_mode: Seq<char>,
    token: Seq<char>,
    x_admin_token: Option<Seq<char>>,
    authorization: Option<Seq<char>>,
) -> bool {
    ||| !is_prefix("/admin/api/"@, path)
    ||| auth_mode == "none"@
    ||| x_admin_token == Some(token)
    ||| (authorization matches Some(a) && is_prefix("Bearer "@, a) && a.subrange(
        "Bearer "@.len() as int,
        a.len() as int,
    ) == token)
}

/// Whether an admin request may go on, given its path, the configured
/// mode and token, and the text of its `X-Admin-Token` and `Authorization`
/// headers (each `None` when absent or not visible ASCII).
pub fn admin_authorized(
    path: &str,
    auth_mode: &str,
    token: &str,
    x_admin_token: Option<&str>,
    authorization: Option<&str>,
) -> (b: bool)
    ensures
        b == authorized_spec(
            path@,
            auth_mode@,
            token@,
            match x_admin_token {
                Some(t) => Some(t@),
                None => None,
            },
            match authorization {
                Some(a) => Some(a@),
                None => None,
            },
        ),
{
    if !starts_with(path, "/admin/api/") {
        return true;
    }
    if str_eq(auth_mode, "none") {
        return true;
    }
    let by_header = match x_admin_token {
        Some(t) => str_eq(t, token),
        None => false,
    };
    if by_header {
        return true;
    }
    match authorization {
        Some(a) => {
            if !starts_with(a, "Bearer ") {
                return false;
            }
            let v = chars_of(a);
            let prefix = chars_of("Bearer ");
            proof {
                reveal_strlit("Bearer ");
            }
            let rest = string_from_chars(&slice_chars(&v, prefix.len(), v.len()));
            str_eq(rest.as_str(), token)
        },
        None => false,
    }
}

/// A test endpoint: a path ending in `/eval` or `/test`.
pub open spec fn is_test_endpoint(path: Seq<char>) -> bool {
    is_suffix("/eval"@, path) || is_suffix("/test"@, path)
}

/// Whether a request is refused because test endpoints are disabled.
pub fn test_endpoint_blocked(path: &str, enable_test_endpoints: bool) -> (b: bool)
    ensures
        b == (is_test_endpoint(path@) && !enable_test_endpoints),
{
    (ends_with(path, "/eval") || ends_with(path, "/test")) && !enable_test_endpoints
}

/// The asset a UI path asks for: the path without its leading slashes, or
/// `index.html` when nothing is left.
pub open spec fn ui_asset_spec(path: Seq<char>) -> Seq<char> {
    let p = trim_start(path, '/');
    if p.len() == 0 {
        "index.html"@
    } else {
        p
    }
}

/// The asset a UI path asks for.
pub fn ui_asset_path(path: &str) -> (r: String)
    ensures
        r@ == ui_asset_spec(path@),
{
    let p = trim_start_chars(&chars_of(path), '/');
    if p.len() == 0 {
        "index.html".to_owned()
    } else {
        string_from_chars(&p)
    }
}

/// The text after the last `.` of a path, or all of it without one.
pub open spec fn extension(path: Seq<char>) -> Seq<char>
    decreases path.len(),
{
    if path.len() == 0 {
        path
    } else if path.last() == '.' {
        Seq::empty()
    } else {
        extension(path.drop_last()).push(path.last())
    }
}

/// The media type an embedded UI asset is served with, by its extension.
pub open spec fn mime_spec(path: Seq<char>) -> Seq<char> {
    let e = extension(path);
    if e == "html"@ {
        "text/html; charset=utf-8"@
    } else if e == "js"@ {
        "application/javascript"@
    } else if e == "css"@ {
        "text/css"@
    } else if e == "json"@ {
        "application/json"@
    } else if e == "svg"@ {
        "image/svg+xml"@
    } else if e == "png"@ {
        "image/png"@
    } else {
        "application/octet-stream"@
    }
}

fn extension_of(path: &str) -> (r: String)
    ensures
        r@ == extension(path@),
{
    let v = chars_of(path);
    let mut k: usize = v.len();
    assert(v@.take(k as int) =~= v@);
    while k > 0 && v[k - 1] != '.'
        invariant
            k <= v.len(),
            extension(v@) == extension(v@.take(k as int)) + v@.subrange(k as int, v@.len() as int),
        decreases k,
    {
        let ghost t = v@.take(k as int);
        assert(t.drop_last() =~= v@.take(k - 1));
        assert(v@.subrange(k - 1, v@.len() as int) =~= seq![t.last()] + v@.subrange(k as int, v@.len() as int));
        assert(extension(t) == extension(t.drop_last()).push(t.last()));
        assert(extension(t.drop_last()).push(t.last()) + v@.subrange(k as int, v@.len() as int) =~= extension(
            v@.take(k - 1),
        ) + v@.subrange(k - 1, v@.len() as int));
        k -= 1;
    }
    if k > 0 {
        assert(extension(v@.take(k as int)) =~= Seq::<char>::empty());
    } else {
        assert(v@.take(0) =~= Seq::<char>::empty());
    }
    assert(extension(v@.take(k as int)) + v@.subrange(k as int, v@.len() as int) =~= v@.subrange(
        k as int,
        v@.len() as int,
    ));
    string_from_chars(&slice_chars(&v, k, v.len()))
}

/// The media type of an embedded UI asset.
pub fn mime_for(path: &str) -> (m: &'static str)
    ensures
        m@ == mime_spec(path@),
{
    let e = extension_of(path);
    let e = e.as_str();
    if str_eq(e, "html") {
        "text/html; charset=utf-8"
    } else if str_eq(e, "js") {
        "application/javascript"
    } else if str_eq(e, "css") {
        "text/css"
    } else if str_eq(e, "json") {
        "application/json"
    } else if str_eq(e, "svg") {
        "image/svg+xml"
    } else if str_eq(e, "png") {
        "image/png"
    } else {
        "application/octet-stream"
    }
}

} // verus!
