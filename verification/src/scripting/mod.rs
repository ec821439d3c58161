//! The limits of the script sandbox: how long a script may run, how many
//! operations it may take, when its progress is checked against the clock,
//! and the hard limit on the whole evaluation.
use crate::utils::time::{nanos_per_sec, Duration};
use vstd::prelude::*;

verus! {

/// The most operations a script may take.
pub const MAX_OPERATIONS: u64 = 1_000_000;

/// The clock is read once every this many operations.
pub const PROGRESS_CHECK_EVERY: u64 = 10_000;

/// A script engine configuration: how long one evaluation may run.
#[derive(Debug, Clone, Copy)]
pub struct ScriptEngine {
    max_duration: Duration,
}

impl ScriptEngine {
    /// How long one evaluation may run.
    pub closed spec fn max_duration_spec(self) -> Duration {
        self.max_duration
    }

    /// An engine whose scripts may run for 2 seconds.
    pub fn new() -> (e: ScriptEngine)
        ensures
            e.max_duration_spec().spec_nanos() == 2 * nanos_per_sec(),
    {
        ScriptEngine { max_duration: Duration::from_secs(2) }
    }

    /// An engine whose scripts may run for `max_duration`.
    pub fn new_with_max_duration(max_duration: Duration) -> (e: ScriptEngine)
        ensures
            e.max_duration_spec() == max_duration,
    {
        ScriptEngine { max_duration }
    }

    /// How long one evaluation may run.
    pub fn max_duration(&self) -> (d: Duration)
        ensures
            d == self.max_duration_spec(),
    {
        self.max_duration
    }

    /// The hard limit of one evaluation, after which it is abandoned: the
    /// run limit plus 3 seconds.
    pub fn hard_limit(&self) -> (d: Duration)
        requires
            self.max_duration_spec().spec_nanos() + 3 * nanos_per_sec() <= u128::MAX,
        ensures
            d.spec_nanos() == self.max_duration_spec().spec_nanos() + 3 * nanos_per_sec(),
    {
        Duration::from_nanos(self.max_duration.as_nanos() + 3_000_000_000)
    }
}

impl Default for ScriptEngine {
    fn default() -> (e: ScriptEngine)
        ensures
            e.max_duration_spec().spec_nanos() == 2 * nanos_per_sec(),
    {
        ScriptEngine::new()
    }
}

/// Whether a running script is stopped at its `ops`-th operation: on every
/// `PROGRESS_CHECK_EVERY`-th operation the elapsed time is compared with
/// the limit, and the script stops once it is over.
pub fn should_interrupt(ops: u64, elapsed: Duration, max_duration: Duration) -> (b: bool)
    ensures
        b == (ops % PROGRESS_CHECK_EVERY == 0 && elapsed.spec_nanos() > max_duration.spec_nanos()),
{
    ops % PROGRESS_CHECK_EVERY == 0 && max_duration.lt(&elapsed)
}

} // verus!
