//! The global rate limit and the path prefixes it leaves alone (static
//! assets of the single-page app, which cost bandwidth only).
use crate::middleware::token_refresh::{starts_with_any, under_any};
use vstd::prelude::*;

verus! {

/// The global limit: one token back every `per_second` seconds, bursts of
/// `burst_size`, and the path prefixes that spend no token.
#[derive(Debug, Clone)]
pub struct RateLimitSkipState {
    pub per_second: u64,
    pub burst_size: u32,
    pub skip_prefixes: Vec<String>,
}

/// The global limit with its skipped prefixes; the period and the burst
/// must both be non-zero.
pub fn rate_limit_skip_state(per_second: u64, burst_size: u32, skip_prefixes: Vec<String>) -> (s: RateLimitSkipState)
    requires
        per_second > 0,
        burst_size > 0,
    ensures
        s.per_second == per_second,
        s.burst_size == burst_size,
        s.skip_prefixes@ == skip_prefixes@,
{
    RateLimitSkipState { per_second, burst_size, skip_prefixes }
}

impl RateLimitSkipState {
    /// Whether a request for `path` bypasses the global limit: it starts
    /// with one of the skipped prefixes.
    pub fn skips(&self, path: &str) -> (b: bool)
        ensures
            b == under_any(self.skip_prefixes@, path@),
    {
        starts_with_any(&self.skip_prefixes, path)
    }
}

} // verus!
