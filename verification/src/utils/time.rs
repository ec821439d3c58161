//! A span of time counted in nanoseconds.
use vstd::prelude::*;

verus! {

/// Number of nanoseconds in one second.
pub open spec fn nanos_per_sec() -> int {
    1_000_000_000
}

/// A non-negative span of time, held as a whole number of nanoseconds.
#[derive(Clone, Copy, Debug, PartialEq, Eq, Structural)]
pub struct Duration {
    nanos: u128,
}

impl Duration {
    /// The length of this span in nanoseconds.
    pub closed spec fn spec_nanos(self) -> int {
        self.nanos as int
    }

    /// The empty span.
    pub fn zero() -> (d: Duration)
        ensures
            d.spec_nanos() == 0,
    {
        Duration { nanos: 0 }
    }

    /// A span of `secs` whole seconds.
    pub fn from_secs(secs: u64) -> (d: Duration)
        ensures
            d.spec_nanos() == secs * nanos_per_sec(),
    {
        Duration { nanos: secs as u128 * 1_000_000_000 }
    }

    /// A span of `millis` milliseconds.
    pub fn from_millis(millis: u64) -> (d: Duration)
        ensures
            d.spec_nanos() == millis * 1_000_000,
    {
        Duration { nanos: millis as u128 * 1_000_000 }
    }

    /// A span of `nanos` nanoseconds.
    pub fn from_nanos(nanos: u128) -> (d: Duration)
        ensures
            d.spec_nanos() == nanos,
    {
        Duration { nanos }
    }

    /// The length of this span in nanoseconds.
    pub fn as_nanos(&self) -> (n: u128)
        ensures
            n == self.spec_nanos(),
    {
        self.nanos
    }

    /// The length of this span in whole milliseconds (rounded down).
    pub fn as_millis(&self) -> (n: u128)
        ensures
            n == self.spec_nanos() / 1_000_000,
    {
        self.nanos / 1_000_000
    }

    /// `self - other`, or the empty span when `other` is longer.
    pub fn saturating_sub(&self, other: Duration) -> (d: Duration)
        ensures
            d.spec_nanos() == if self.spec_nanos() >= other.spec_nanos() {
                self.spec_nanos() - other.spec_nanos()
            } else {
                0
            },
    {
        if self.nanos >= other.nanos {
            Duration { nanos: self.nanos - other.nanos }
        } else {
            Duration { nanos: 0 }
        }
    }

    /// `self * factor`, or `None` when the product does not fit.
    pub fn checked_mul(&self, factor: u32) -> (d: Option<Duration>)
        ensures
            match d {
                Some(p) => p.spec_nanos() == self.spec_nanos() * factor,
                None => self.spec_nanos() * factor > u128::MAX,
            },
    {
        match self.nanos.checked_mul(factor as u128) {
            Some(n) => Some(Duration { nanos: n }),
            None => None,
        }
    }

    /// Whether `self` is strictly shorter than `other`.
    pub fn lt(&self, other: &Duration) -> (b: bool)
        ensures
            b == (self.spec_nanos() < other.spec_nanos()),
    {
        self.nanos < other.nanos
    }

    /// Whether `self` is no longer than `other`.
    pub fn le(&self, other: &Duration) -> (b: bool)
        ensures
            b == (self.spec_nanos() <= other.spec_nanos()),
    {
        self.nanos <= other.nanos
    }
}

/// A span is never negative and fits in a `u128` of nanoseconds.
pub proof fn lemma_nanos_bounds(d: Duration)
    ensures
        0 <= d.spec_nanos() <= u128::MAX,
{
}

/// A point on the process's monotonic clock.
#[verifier::external_type_specification]
#[verifier::external_body]
pub struct ExInstant(std::time::Instant);

/// The current point on the monotonic clock (`std::time::Instant::now`).
/// Nothing is stated of it: it depends on when the call is made.
#[verifier::external_body]
pub fn instant_now() -> (t: std::time::Instant) {
    std::time::Instant::now()
}

/// The time elapsed since `origin` (`std::time::Instant::elapsed`), in nanoseconds.
/// Nothing is stated of the value: it depends on when the call is made.
#[verifier::external_body]
pub fn elapsed_since(origin: &std::time::Instant) -> (d: Duration) {
    Duration { nanos: origin.elapsed().as_nanos() }
}

} // verus!
