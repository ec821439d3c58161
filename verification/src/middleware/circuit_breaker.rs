//! Per-upstream circuit breaker: consecutive failures past a threshold open
//! the breaker, which then refuses calls until a cool-down has passed; the
//! next call is let through half-open, and its outcome closes or reopens it.
//!
//! Instants are measured as the time elapsed since the registry was made.
use crate::utils::text::str_eq;
use crate::utils::time::{elapsed_since, instant_now, nanos_per_sec, Duration};
use vstd::prelude::*;

verus! {

/// State of one breaker.
#[derive(Debug, Clone, Copy, PartialEq, Eq, Structural)]
pub enum BreakerState {
    Closed,
    Open,
    HalfOpen,
}

/// One upstream's breaker.
#[derive(Debug, Clone, Copy, PartialEq, Eq, Structural)]
pub struct Breaker {
    pub state: BreakerState,
    pub failures: u32,
    /// When the breaker last opened.
    pub opened_at: Option<Duration>,
}

/// A closed breaker with no failures.
pub open spec fn fresh_breaker() -> Breaker {
    Breaker { state: BreakerState::Closed, failures: 0, opened_at: None }
}

/// Time from `from` to `to`, zero when `to` comes first.
pub open spec fn elapsed(from: Duration, to: Duration) -> int {
    if to.spec_nanos() >= from.spec_nanos() {
        to.spec_nanos() - from.spec_nanos()
    } else {
        0
    }
}

/// The breaker after a call was checked at `now`, and whether the call may proceed.
pub open spec fn allow_step(b: Breaker, now: Duration, cool_down: Duration) -> (Breaker, bool) {
    match b.state {
        BreakerState::Closed | BreakerState::HalfOpen => (b, true),
        BreakerState::Open => match b.opened_at {
            Some(t) => if elapsed(t, now) >= cool_down.spec_nanos() {
                (Breaker { state: BreakerState::HalfOpen, ..b }, true)
            } else {
                (b, false)
            },
            None => (b, false),
        },
    }
}

/// The breaker after a successful call.
pub open spec fn success_step(b: Breaker) -> Breaker {
    fresh_breaker()
}

/// The failure count after one more failure: a half-open breaker jumps to
/// the threshold; the count stops at `u32::MAX`.
pub open spec fn failures_after(b: Breaker, threshold: u32) -> u32 {
    if b.state == BreakerState::HalfOpen {
        threshold
    } else if b.failures == u32::MAX {
        u32::MAX
    } else {
        (b.failures + 1) as u32
    }
}

/// The breaker after a failed call at `now`.
pub open spec fn failure_step(b: Breaker, threshold: u32, now: Duration) -> Breaker {
    let f = failures_after(b, threshold);
    if f >= threshold {
        Breaker { state: BreakerState::Open, failures: f, opened_at: Some(now) }
    } else {
        Breaker { failures: f, ..b }
    }
}

/// The breaker after failures at each of the instants of `times`, in order.
pub open spec fn failures_at(b: Breaker, threshold: u32, times: Seq<Duration>) -> Breaker
    decreases times.len(),
{
    if times.len() == 0 {
        b
    } else {
        failure_step(failures_at(b, threshold, times.drop_last()), threshold, times.last())
    }
}

/// The breaker recorded for `key`, or a fresh one.
pub open spec fn breaker_in(entries: Seq<(String, Breaker)>, key: Seq<char>) -> Breaker {
    if exists|i: int| 0 <= i < entries.len() && #[trigger] entries[i].0@ == key {
        entries[choose|i: int| 0 <= i < entries.len() && #[trigger] entries[i].0@ == key].1
    } else {
        fresh_breaker()
    }
}

/// No key occurs twice.
pub open spec fn keys_distinct(entries: Seq<(String, Breaker)>) -> bool {
    forall|i: int, j: int|
        0 <= i < entries.len() && 0 <= j < entries.len() && i != j ==> entries[i].0@ != entries[j].0@
}

proof fn lemma_breaker_at(entries: Seq<(String, Breaker)>, i: int, key: Seq<char>)
    requires
        keys_distinct(entries),
        0 <= i < entries.len(),
        entries[i].0@ == key,
    ensures
        breaker_in(entries, key) == entries[i].1,
{
    let c: int = choose|c: int| 0 <= c < entries.len() && #[trigger] entries[c].0@ == key;
    assert(entries[c].0@ == key);
}

proof fn lemma_breaker_absent(entries: Seq<(String, Breaker)>, key: Seq<char>)
    requires
        forall|i: int| 0 <= i < entries.len() ==> entries[i].0@ != key,
    ensures
        breaker_in(entries, key) == fresh_breaker(),
{
}

/// Breakers of all upstreams, with a shared threshold and cool-down.
#[derive(Debug)]
pub struct CircuitBreakerRegistry {
    entries: Vec<(String, Breaker)>,
    failure_threshold: u32,
    open_duration: Duration,
    origin: std::time::Instant,
}

impl CircuitBreakerRegistry {
    #[verifier::type_invariant]
    spec fn inv(self) -> bool {
        keys_distinct(self.entries@)
    }

    /// The breaker of `key`.
    pub closed spec fn breaker(self, key: Seq<char>) -> Breaker {
        breaker_in(self.entries@, key)
    }

    /// Consecutive failures that open a breaker.
    pub closed spec fn threshold(self) -> u32 {
        self.failure_threshold
    }

    /// Cool-down before an open breaker lets a call through.
    pub closed spec fn cool_down(self) -> Duration {
        self.open_duration
    }

    /// A registry with threshold 5 and a 30 s cool-down.
    pub fn new() -> (r: Self)
        ensures
            r.threshold() == 5,
            r.cool_down().spec_nanos() == 30 * nanos_per_sec(),
            forall|k: Seq<char>| #[trigger] r.breaker(k) == fresh_breaker(),
    {
        Self::new_with_config(5, Duration::from_secs(30))
    }

    /// A registry with the given threshold and cool-down.
    pub fn new_with_config(failure_threshold: u32, open_duration: Duration) -> (r: Self)
        ensures
            r.threshold() == failure_threshold,
            r.cool_down() == open_duration,
            forall|k: Seq<char>| #[trigger] r.breaker(k) == fresh_breaker(),
    {
        CircuitBreakerRegistry {
            entries: Vec::new(),
            failure_threshold,
            open_duration,
            origin: instant_now(),
        }
    }

    /// The position of `key`, if recorded.
    fn position(&self, key: &str) -> (r: Option<usize>)
        ensures
            match r {
                Some(i) => i < self.entries.len() && self.entries@[i as int].0@ == key@
                    && self.breaker(key@) == self.entries@[i as int].1,
                None => self.breaker(key@) == fresh_breaker() && forall|i: int|
                    0 <= i < self.entries.len() ==> self.entries@[i].0@ != key@,
            },
    {
        proof {
            use_type_invariant(self);
        }
        let mut i: usize = 0;
        while i < self.entries.len()
            invariant
                i <= self.entries.len(),
                keys_distinct(self.entries@),
                forall|j: int| 0 <= j < i ==> self.entries@[j].0@ != key@,
            decreases self.entries.len() - i,
        {
            if str_eq(self.entries[i].0.as_str(), key) {
                proof {
                    lemma_breaker_at(self.entries@, i as int, key@);
                }
                return Some(i);
            }
            i += 1;
        }
        proof {
            lemma_breaker_absent(self.entries@, key@);
        }
        None
    }

    /// Replaces the breaker of `key`.
    fn store(&mut self, key: &str, b: Breaker)
        ensures
            final(self).breaker(key@) == b,
            forall|k: Seq<char>| k != key@ ==> #[trigger] final(self).breaker(k) == old(self).breaker(k),
            final(self).threshold() == old(self).threshold(),
            final(self).cool_down() == old(self).cool_down(),
    {
        proof {
            use_type_invariant(&*self);
        }
        let ghost old_entries = self.entries@;
        let pos = self.position(key);
        let mut entries: Vec<(String, Breaker)> = Vec::new();
        std::mem::swap(&mut entries, &mut self.entries);
        let ghost at: int;
        match pos {
            Some(i) => {
                let name = entries[i].0.clone();
                entries.set(i, (name, b));
                proof {
                    at = i as int;
                }
            },
            None => {
                entries.push((key.to_string(), b));
                proof {
                    at = old_entries.len() as int;
                }
            },
        }
        let ghost new_entries = entries@;
        assert(new_entries.len() >= old_entries.len());
        assert(forall|x: int| 0 <= x < new_entries.len() && x != at ==> new_entries[x] == old_entries[x]);
        assert(new_entries[at].0@ == key@ && new_entries[at].1 == b);
        assert(keys_distinct(new_entries)) by {
            assert forall|x: int, y: int|
                0 <= x < new_entries.len() && 0 <= y < new_entries.len() && x != y
                implies new_entries[x].0@ != new_entries[y].0@ by {
                if x != at && y != at {
                    assert(new_entries[x] == old_entries[x]);
                    assert(new_entries[y] == old_entries[y]);
                } else if x == at {
                    assert(new_entries[y] == old_entries[y]);
                } else {
                    assert(new_entries[x] == old_entries[x]);
                }
            }
        }
        self.entries = entries;
        proof {
            lemma_breaker_at(new_entries, at, key@);
            assert forall|k: Seq<char>| k != key@ implies #[trigger] breaker_in(new_entries, k)
                == breaker_in(old_entries, k) by {
                if exists|i: int| 0 <= i < old_entries.len() && #[trigger] old_entries[i].0@ == k {
                    let i: int = choose|i: int| 0 <= i < old_entries.len() && #[trigger] old_entries[i].0@ == k;
                    lemma_breaker_at(old_entries, i, k);
                    assert(i != at);
                    assert(new_entries[i] == old_entries[i]);
                    lemma_breaker_at(new_entries, i, k);
                } else {
                    assert forall|i: int| 0 <= i < new_entries.len() implies new_entries[i].0@ != k by {
                        if i != at {
                            assert(new_entries[i] == old_entries[i]);
                        }
                    }
                    lemma_breaker_absent(new_entries, k);
                }
            }
        }
    }

    /// Checks a call to `upstream` at instant `now`: an open breaker refuses it
    /// until the cool-down has passed, then lets it through half-open.
    pub fn allow_at(&mut self, upstream: &str, now: Duration) -> (r: bool)
        ensures
            (final(self).breaker(upstream@), r) == allow_step(
                old(self).breaker(upstream@),
                now,
                old(self).cool_down(),
            ),
            forall|k: Seq<char>| k != upstream@ ==> #[trigger] final(self).breaker(k) == old(self).breaker(k),
            final(self).threshold() == old(self).threshold(),
            final(self).cool_down() == old(self).cool_down(),
    {
        let b = self.current(upstream);
        let (next, ok) = match b.state {
            BreakerState::Closed | BreakerState::HalfOpen => (b, true),
            BreakerState::Open => match b.opened_at {
                Some(t) => {
                    if self.open_duration.le(&now.saturating_sub(t)) {
                        (Breaker { state: BreakerState::HalfOpen, ..b }, true)
                    } else {
                        (b, false)
                    }
                },
                None => (b, false),
            },
        };
        self.store(upstream, next);
        ok
    }

    /// Checks a call to `upstream` now.
    pub fn allow(&mut self, upstream: &str) -> (r: bool)
        ensures
            exists|now: Duration| #![auto]
                (final(self).breaker(upstream@), r) == allow_step(
                    old(self).breaker(upstream@),
                    now,
                    old(self).cool_down(),
                ),
            forall|k: Seq<char>| k != upstream@ ==> #[trigger] final(self).breaker(k) == old(self).breaker(k),
            final(self).threshold() == old(self).threshold(),
            final(self).cool_down() == old(self).cool_down(),
    {
        let now = elapsed_since(&self.origin);
        self.allow_at(upstream, now)
    }

    /// Records a successful call: the breaker closes and its count resets.
    pub fn record_success(&mut self, upstream: &str)
        ensures
            final(self).breaker(upstream@) == success_step(old(self).breaker(upstream@)),
            forall|k: Seq<char>| k != upstream@ ==> #[trigger] final(self).breaker(k) == old(self).breaker(k),
            final(self).threshold() == old(self).threshold(),
            final(self).cool_down() == old(self).cool_down(),
    {
        self.store(upstream, Breaker { state: BreakerState::Closed, failures: 0, opened_at: None });
    }

    /// Records a failed call at instant `now` against `threshold`.
    fn fail_with(&mut self, upstream: &str, threshold: u32, now: Duration)
        ensures
            final(self).breaker(upstream@) == failure_step(old(self).breaker(upstream@), threshold, now),
            forall|k: Seq<char>| k != upstream@ ==> #[trigger] final(self).breaker(k) == old(self).breaker(k),
            final(self).threshold() == old(self).threshold(),
            final(self).cool_down() == old(self).cool_down(),
    {
        let b = self.current(upstream);
        let failures: u32 = if b.state == BreakerState::HalfOpen {
            threshold
        } else {
            b.failures.saturating_add(1)
        };
        let next = if failures >= threshold {
            Breaker { state: BreakerState::Open, failures, opened_at: Some(now) }
        } else {
            Breaker { failures, ..b }
        };
        self.store(upstream, next);
    }

    /// Records a failed call at instant `now`: at the threshold (or on any
    /// failure while half-open) the breaker opens at `now`.
    pub fn record_failure_at(&mut self, upstream: &str, now: Duration)
        ensures
            final(self).breaker(upstream@) == failure_step(old(self).breaker(upstream@), old(self).threshold(), now),
            forall|k: Seq<char>| k != upstream@ ==> #[trigger] final(self).breaker(k) == old(self).breaker(k),
            final(self).threshold() == old(self).threshold(),
            final(self).cool_down() == old(self).cool_down(),
    {
        let threshold = self.failure_threshold;
        self.fail_with(upstream, threshold, now)
    }

    /// Checks a call at instant `now` on a route whose own breaker threshold
    /// is `route_threshold`: a route with threshold 0 never trips, so its
    /// call goes through and no breaker changes; any other route is checked
    /// as `allow_at` does.
    pub fn allow_route_at(&mut self, upstream: &str, route_threshold: u32, now: Duration) -> (r: bool)
        ensures
            route_threshold == 0 ==> r && forall|k: Seq<char>| #[trigger] final(self).breaker(k) == old(self).breaker(k),
            route_threshold > 0 ==> (final(self).breaker(upstream@), r) == allow_step(
                old(self).breaker(upstream@),
                now,
                old(self).cool_down(),
            ),
            forall|k: Seq<char>| k != upstream@ ==> #[trigger] final(self).breaker(k) == old(self).breaker(k),
            final(self).threshold() == old(self).threshold(),
            final(self).cool_down() == old(self).cool_down(),
    {
        if route_threshold == 0 {
            return true;
        }
        self.allow_at(upstream, now)
    }

    /// Checks a call now on a route whose own breaker threshold is
    /// `route_threshold` (0 = never trips).
    pub fn allow_route(&mut self, upstream: &str, route_threshold: u32) -> (r: bool)
        ensures
            route_threshold == 0 ==> r && forall|k: Seq<char>| #[trigger] final(self).breaker(k) == old(self).breaker(k),
            route_threshold > 0 ==> exists|now: Duration| #![auto]
                (final(self).breaker(upstream@), r) == allow_step(
                    old(self).breaker(upstream@),
                    now,
                    old(self).cool_down(),
                ),
            forall|k: Seq<char>| k != upstream@ ==> #[trigger] final(self).breaker(k) == old(self).breaker(k),
            final(self).threshold() == old(self).threshold(),
            final(self).cool_down() == old(self).cool_down(),
    {
        let now = elapsed_since(&self.origin);
        self.allow_route_at(upstream, route_threshold, now)
    }

    /// Records a failed call at instant `now` on a route whose own breaker
    /// threshold is `route_threshold`: with 0 the route never trips and no
    /// breaker changes; otherwise the breaker opens once that many
    /// consecutive failures (or one while half-open) have been recorded.
    pub fn record_route_failure_at(&mut self, upstream: &str, route_threshold: u32, now: Duration)
        ensures
            route_threshold == 0 ==> forall|k: Seq<char>| #[trigger] final(self).breaker(k) == old(self).breaker(k),
            route_threshold > 0 ==> final(self).breaker(upstream@) == failure_step(
                old(self).breaker(upstream@),
                route_threshold,
                now,
            ),
            forall|k: Seq<char>| k != upstream@ ==> #[trigger] final(self).breaker(k) == old(self).breaker(k),
            final(self).threshold() == old(self).threshold(),
            final(self).cool_down() == old(self).cool_down(),
    {
        if route_threshold == 0 {
            return;
        }
        self.fail_with(upstream, route_threshold, now)
    }

    /// Records a failed call now on a route whose own breaker threshold is
    /// `route_threshold` (0 = never trips).
    pub fn record_route_failure(&mut self, upstream: &str, route_threshold: u32)
        ensures
            route_threshold == 0 ==> forall|k: Seq<char>| #[trigger] final(self).breaker(k) == old(self).breaker(k),
            route_threshold > 0 ==> exists|now: Duration| #![auto]
                final(self).breaker(upstream@) == failure_step(old(self).breaker(upstream@), route_threshold, now),
            forall|k: Seq<char>| k != upstream@ ==> #[trigger] final(self).breaker(k) == old(self).breaker(k),
            final(self).threshold() == old(self).threshold(),
            final(self).cool_down() == old(self).cool_down(),
    {
        let now = elapsed_since(&self.origin);
        self.record_route_failure_at(upstream, route_threshold, now)
    }

    /// Records a failed call now.
    pub fn record_failure(&mut self, upstream: &str)
        ensures
            exists|now: Duration| #![auto]
                final(self).breaker(upstream@) == failure_step(old(self).breaker(upstream@), old(self).threshold(), now),
            forall|k: Seq<char>| k != upstream@ ==> #[trigger] final(self).breaker(k) == old(self).breaker(k),
            final(self).threshold() == old(self).threshold(),
            final(self).cool_down() == old(self).cool_down(),
    {
        let now = elapsed_since(&self.origin);
        self.record_failure_at(upstream, now)
    }

    /// The state of `upstream`'s breaker (closed if it was never used).
    pub fn state_of(&self, upstream: &str) -> (s: BreakerState)
        ensures
            s == self.breaker(upstream@).state,
    {
        self.current(upstream).state
    }

    /// The breaker of `upstream`, fresh if none is recorded.
    fn current(&self, upstream: &str) -> (b: Breaker)
        ensures
            b == self.breaker(upstream@),
    {
        match self.position(upstream) {
            Some(i) => self.entries[i].1,
            None => Breaker { state: BreakerState::Closed, failures: 0, opened_at: None },
        }
    }
}

/// A success closes any breaker and clears its count and opening time.
pub proof fn law_success_closes(b: Breaker)
    ensures
        success_step(b) == fresh_breaker(),
        success_step(b).state == BreakerState::Closed,
{
}

/// From a fresh breaker with threshold `t >= 1`, fewer than `t` consecutive
/// failures keep it closed with that many failures counted, and the `t`-th
/// failure opens it at the instant of that failure.
pub proof fn law_threshold_failures_open(threshold: u32, times: Seq<Duration>)
    requires
        threshold >= 1,
        times.len() <= threshold,
    ensures
        times.len() < threshold ==> failures_at(fresh_breaker(), threshold, times) == (Breaker {
            state: BreakerState::Closed,
            failures: times.len() as u32,
            opened_at: None,
        }),
        times.len() == threshold ==> failures_at(fresh_breaker(), threshold, times) == (Breaker {
            state: BreakerState::Open,
            failures: threshold,
            opened_at: Some(times.last()),
        }),
    decreases times.len(),
{
    if times.len() > 0 {
        law_threshold_failures_open(threshold, times.drop_last());
    }
}

/// An open breaker refuses every call before its cool-down has passed, and stays as it is.
pub proof fn law_open_refuses_during_cool_down(b: Breaker, now: Duration, cool_down: Duration)
    requires
        b.state == BreakerState::Open,
        b.opened_at is Some,
        elapsed(b.opened_at->0, now) < cool_down.spec_nanos(),
    ensures
        allow_step(b, now, cool_down) == (b, false),
{
}

/// Once the cool-down has passed, an open breaker lets one call through and turns half-open.
pub proof fn law_half_open_after_cool_down(b: Breaker, now: Duration, cool_down: Duration)
    requires
        b.state == BreakerState::Open,
        b.opened_at is Some,
        elapsed(b.opened_at->0, now) >= cool_down.spec_nanos(),
    ensures
        allow_step(b, now, cool_down).1,
        allow_step(b, now, cool_down).0.state == BreakerState::HalfOpen,
        allow_step(b, now, cool_down).0.failures == b.failures,
{
}

/// A failure while half-open reopens the breaker at once, from the instant of the failure.
pub proof fn law_half_open_failure_reopens(b: Breaker, threshold: u32, now: Duration)
    requires
        b.state == BreakerState::HalfOpen,
    ensures
        failure_step(b, threshold, now).state == BreakerState::Open,
        failure_step(b, threshold, now).opened_at == Some(now),
{
}

/// A closed or half-open breaker lets every call through, unchanged.
pub proof fn law_closed_allows(b: Breaker, now: Duration, cool_down: Duration)
    requires
        b.state != BreakerState::Open,
    ensures
        allow_step(b, now, cool_down) == (b, true),
{
}

} // verus!
