//! Whether a text is an absolute URL, as the `url` crate parses it.
use vstd::prelude::*;

verus! {

/// Whether `url::Url::parse` accepts the text `s`.
pub uninterp spec fn url_parses(s: Seq<char>) -> bool;

/// Whether `s` parses as an absolute URL (`url::Url::parse(s).is_ok()`).
/// The outcome is named, not described: WHATWG URL parsing is the `url`
/// crate's own and depends on the text alone.
#[verifier::external_body]
pub fn is_valid_url(s: &str) -> (b: bool)
    ensures
        b == url_parses(s@),
{
    url::Url::parse(s).is_ok()
}

} // verus!
