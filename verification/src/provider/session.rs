//! Settings of the session cookie.
use crate::utils::text::{ascii_lower, str_eq, to_ascii_lower};
use crate::utils::text::concat2;
use vstd::prelude::*;

verus! {

/// The `SameSite` attribute of the session cookie.
#[derive(Debug, Clone, Copy, PartialEq, Eq, Structural)]
pub enum SameSite {
    Lax,
    Strict,
    /// `SameSite=None`: the cookie goes with cross-site requests too.
    AllSites,
}

/// The `SameSite` setting a configured text stands for, compared without
/// ASCII case; the complaint names the lower-cased text otherwise.
pub open spec fn same_site_spec(text: Seq<char>) -> Result<SameSite, Seq<char>> {
    let t = text.map_values(|c: char| ascii_lower(c));
    if t == "lax"@ {
        Ok(SameSite::Lax)
    } else if t == "strict"@ {
        Ok(SameSite::Strict)
    } else if t == "none"@ {
        Ok(SameSite::AllSites)
    } else {
        Err("非法 same_site 配置: "@ + t)
    }
}

/// Reads the configured `same_site` of the session cookie.
pub fn parse_same_site(text: &str) -> (r: Result<SameSite, String>)
    ensures
        match r {
            Ok(s) => same_site_spec(text@) == Ok::<SameSite, Seq<char>>(s),
            Err(m) => same_site_spec(text@) == Err::<SameSite, Seq<char>>(m@),
        },
{
    let t = to_ascii_lower(text);
    if str_eq(t.as_str(), "lax") {
        Ok(SameSite::Lax)
    } else if str_eq(t.as_str(), "strict") {
        Ok(SameSite::Strict)
    } else if str_eq(t.as_str(), "none") {
        Ok(SameSite::AllSites)
    } else {
        Err(concat2("非法 same_site 配置: ", t.as_str()))
    }
}

} // verus!
