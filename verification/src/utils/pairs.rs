//! Lookups in ordered lists of (key, value) text pairs.
use crate::utils::text::str_eq;
use vstd::prelude::*;

verus! {

/// The views of a list of text pairs.
pub open spec fn pair_views(v: Seq<(String, String)>) -> Seq<(Seq<char>, Seq<char>)> {
    v.map_values(|p: (String, String)| (p.0@, p.1@))
}

/// The value of the first pair, from position `i` on, whose key is `key`.
pub open spec fn pair_lookup(ps: Seq<(String, String)>, key: Seq<char>, i: int) -> Option<Seq<char>>
    decreases ps.len() - i,
{
    if i < 0 || i >= ps.len() {
        None
    } else if ps[i].0@ == key {
        Some(ps[i].1@)
    } else {
        pair_lookup(ps, key, i + 1)
    }
}

/// The value under `key` (the first pair with that key).
pub fn pairs_get<'a>(ps: &'a Vec<(String, String)>, key: &str) -> (r: Option<&'a String>)
    ensures
        match r {
            Some(v) => pair_lookup(ps@, key@, 0) == Some(v@),
            None => pair_lookup(ps@, key@, 0) is None,
        },
{
    let mut i: usize = 0;
    while i < ps.len()
        invariant
            i <= ps.len(),
            pair_lookup(ps@, key@, 0) == pair_lookup(ps@, key@, i as int),
        decreases ps.len() - i,
    {
        if str_eq(ps[i].0.as_str(), key) {
            return Some(&ps[i].1);
        }
        i += 1;
    }
    None
}

} // verus!
