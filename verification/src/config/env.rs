//! `${VAR:default}` expressions in configuration values.
use crate::utils::text::{chars_of, find_char, first_index, slice_chars, string_from_chars};
use vstd::prelude::*;

verus! {

/// `raw` has the shape `${...}`.
pub open spec fn is_env_expr(raw: Seq<char>) -> bool {
    raw.len() >= 3 && raw[0] == '$' && raw[1] == '{' && raw.last() == '}'
}

/// The text between `${` and `}`.
pub open spec fn env_inner(raw: Seq<char>) -> Seq<char> {
    raw.subrange(2, raw.len() - 1)
}

/// The name of the variable an expression refers to.
pub open spec fn env_var_spec(raw: Seq<char>) -> Option<Seq<char>> {
    if !is_env_expr(raw) {
        None
    } else {
        let inner = env_inner(raw);
        match first_index(inner, ':') {
            Some(k) => Some(inner.subrange(0, k)),
            None => Some(inner),
        }
    }
}

/// The value of an expression given the variable's value (`None` = unset).
pub open spec fn resolve_spec(raw: Seq<char>, env_value: Option<Seq<char>>) -> Seq<char> {
    if !is_env_expr(raw) {
        raw
    } else {
        let inner = env_inner(raw);
        match env_value {
            Some(v) => v,
            None => match first_index(inner, ':') {
                Some(k) => inner.subrange(k + 1, inner.len() as int),
                None => raw,
            },
        }
    }
}

/// The name of the environment variable a `${VAR}` / `${VAR:default}` expression
/// refers to; `None` for plain text.
pub fn env_var_name(raw: &str) -> (r: Option<String>)
    ensures
        match r {
            Some(n) => env_var_spec(raw@) == Some(n@),
            None => env_var_spec(raw@) is None,
        },
{
    let v = chars_of(raw);
    let n: usize = v.len();
    if !(n >= 3 && v[0] == '$' && v[1] == '{' && v[n - 1] == '}') {
        return None;
    }
    let inner = slice_chars(&v, 2, n - 1);
    match find_char(&inner, ':') {
        Some(k) => Some(string_from_chars(&slice_chars(&inner, 0, k))),
        None => Some(string_from_chars(&inner)),
    }
}

/// Resolves a `${VAR:default}` expression: the variable's value when it is
/// set, else the default after `:`, else (no default) the raw text; plain text
/// is returned unchanged. `env_value` is the variable's value (`None` = unset).
pub fn resolve_env_or_default(raw: &str, env_value: Option<&str>) -> (r: String)
    ensures
        r@ == resolve_spec(raw@, match env_value {
            Some(v) => Some(v@),
            None => None,
        }),
{
    let v = chars_of(raw);
    let n: usize = v.len();
    if !(n >= 3 && v[0] == '$' && v[1] == '{' && v[n - 1] == '}') {
        return raw.to_owned();
    }
    if let Some(val) = env_value {
        return val.to_owned();
    }
    let inner = slice_chars(&v, 2, n - 1);
    match find_char(&inner, ':') {
        Some(k) => string_from_chars(&slice_chars(&inner, k + 1, inner.len())),
        None => raw.to_owned(),
    }
}

} // verus!
