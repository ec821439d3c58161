//! Per-entry lifetimes of the in-memory cache. The cache itself expires
//! entries after its default lifetime; an entry stored with another
//! (non-zero) lifetime is recorded here with the moment it was stored, and
//! a read past that lifetime drops it.
use crate::utils::text::str_eq;
use crate::utils::time::{elapsed_since, instant_now, Duration};
use vstd::prelude::*;

verus! {

/// The first position, from `i` on, of key `k`.
pub open spec fn key_index(v: Seq<(Seq<char>, Duration)>, k: Seq<char>, i: int) -> Option<int>
    decreases v.len() - i,
{
    if i < 0 || i >= v.len() {
        None
    } else if v[i].0 == k {
        Some(i)
    } else {
        key_index(v, k, i + 1)
    }
}

/// The lifetime recorded for `k`.
pub open spec fn ttl_for(v: Seq<(Seq<char>, Duration)>, k: Seq<char>) -> Option<Duration> {
    match key_index(v, k, 0) {
        Some(j) => Some(v[j].1),
        None => None,
    }
}

/// The records after recording lifetime `ttl` for `k`: in place of its
/// record, or added at the end.
pub open spec fn set_ttl(v: Seq<(Seq<char>, Duration)>, k: Seq<char>, ttl: Duration) -> Seq<(Seq<char>, Duration)> {
    match key_index(v, k, 0) {
        Some(j) => v.update(j, (k, ttl)),
        None => v.push((k, ttl)),
    }
}

/// The records without the record of `k`.
pub open spec fn drop_ttl(v: Seq<(Seq<char>, Duration)>, k: Seq<char>) -> Seq<(Seq<char>, Duration)> {
    match key_index(v, k, 0) {
        Some(j) => v.remove(j),
        None => v,
    }
}

/// No key is recorded twice.
pub open spec fn distinct_keys(v: Seq<(Seq<char>, Duration)>) -> bool {
    forall|i: int, j: int| 0 <= i < j < v.len() ==> v[i].0 != v[j].0
}

/// Whether a lifetime given when storing differs from the cache's default
/// and is not zero, and so is recorded.
pub open spec fn records(ttl: Duration, default_ttl: Duration) -> bool {
    ttl.spec_nanos() != default_ttl.spec_nanos() && ttl.spec_nanos() > 0
}

proof fn lemma_key_index(v: Seq<(Seq<char>, Duration)>, k: Seq<char>, i: int)
    requires
        0 <= i,
    ensures
        match key_index(v, k, i) {
            Some(p) => i <= p < v.len() && v[p].0 == k && forall|j: int| i <= j < p ==> v[j].0 != k,
            None => forall|j: int| i <= j < v.len() ==> v[j].0 != k,
        },
    decreases v.len() - i,
{
    if i < v.len() && v[i].0 != k {
        lemma_key_index(v, k, i + 1);
    }
}

proof fn lemma_key_index_is(v: Seq<(Seq<char>, Duration)>, k: Seq<char>, p: int)
    requires
        0 <= p < v.len(),
        v[p].0 == k,
        forall|j: int| 0 <= j < p ==> v[j].0 != k,
    ensures
        key_index(v, k, 0) == Some(p),
{
    lemma_key_index(v, k, 0);
}

proof fn lemma_key_index_none(v: Seq<(Seq<char>, Duration)>, k: Seq<char>)
    requires
        forall|j: int| 0 <= j < v.len() ==> v[j].0 != k,
    ensures
        key_index(v, k, 0) is None,
{
    lemma_key_index(v, k, 0);
}

/// A recorded lifetime reads back; recording one key leaves the others as
/// they were and keeps keys distinct.
pub proof fn law_set_reads_back(v: Seq<(Seq<char>, Duration)>, k: Seq<char>, ttl: Duration, other: Seq<char>)
    ensures
        ttl_for(set_ttl(v, k, ttl), k) == Some(ttl),
        other != k ==> ttl_for(set_ttl(v, k, ttl), other) == ttl_for(v, other),
        distinct_keys(v) ==> distinct_keys(set_ttl(v, k, ttl)),
{
    let r = set_ttl(v, k, ttl);
    lemma_key_index(v, k, 0);
    lemma_key_index(v, other, 0);
    lemma_key_index(r, k, 0);
    lemma_key_index(r, other, 0);
    match key_index(v, k, 0) {
        Some(p) => {
            lemma_key_index_is(r, k, p);
            if other != k {
                match key_index(v, other, 0) {
                    Some(q) => lemma_key_index_is(r, other, q),
                    None => lemma_key_index_none(r, other),
                }
            }
        },
        None => {
            lemma_key_index_is(r, k, v.len() as int);
            if other != k {
                match key_index(v, other, 0) {
                    Some(q) => lemma_key_index_is(r, other, q),
                    None => lemma_key_index_none(r, other),
                }
            }
        },
    }
}

/// Dropping a key's record forgets it (keys being distinct) and leaves the
/// other keys as they were.
pub proof fn law_drop_forgets(v: Seq<(Seq<char>, Duration)>, k: Seq<char>, other: Seq<char>)
    ensures
        distinct_keys(v) ==> ttl_for(drop_ttl(v, k), k) is None,
        other != k ==> ttl_for(drop_ttl(v, k), other) == ttl_for(v, other),
        distinct_keys(v) ==> distinct_keys(drop_ttl(v, k)),
{
    let r = drop_ttl(v, k);
    lemma_key_index(v, k, 0);
    lemma_key_index(v, other, 0);
    match key_index(v, k, 0) {
        Some(p) => {
            assert forall|j: int| 0 <= j < r.len() implies r[j] == (if j < p {
                v[j]
            } else {
                v[j + 1]
            }) by {}
            if distinct_keys(v) {
                assert forall|j: int| 0 <= j < r.len() implies r[j].0 != k by {
                    if j >= p {
                        assert(v[j + 1].0 != v[p].0);
                    }
                }
                lemma_key_index_none(r, k);
            }
            if other != k {
                match key_index(v, other, 0) {
                    Some(q) => {
                        if q < p {
                            lemma_key_index_is(r, other, q);
                        } else {
                            assert(q != p);
                            lemma_key_index_is(r, other, q - 1);
                        }
                    },
                    None => lemma_key_index_none(r, other),
                }
            }
        },
        None => {},
    }
}

/// A recorded lifetime followed by dropping the key leaves nothing recorded
/// for it.
pub proof fn law_set_then_drop(v: Seq<(Seq<char>, Duration)>, k: Seq<char>, ttl: Duration)
    requires
        distinct_keys(v),
    ensures
        ttl_for(drop_ttl(set_ttl(v, k, ttl), k), k) is None,
{
    law_set_reads_back(v, k, ttl, k);
    law_drop_forgets(set_ttl(v, k, ttl), k, k);
}

/// A record of `k` has run out once `elapsed` has passed since it was
/// stored: it is recorded and its lifetime is no longer than `elapsed`.
pub open spec fn expiry_spec(v: Seq<(Seq<char>, Duration)>, k: Seq<char>, elapsed: Duration) -> bool {
    match ttl_for(v, k) {
        Some(t) => t.spec_nanos() <= elapsed.spec_nanos(),
        None => false,
    }
}

/// An entry stored with a recorded lifetime `ttl` has not run out before
/// `ttl` has elapsed and has run out from then on; other keys keep their
/// expiry; once the key is dropped it never counts as run out.
pub proof fn law_entry_expires_after_its_ttl(
    v: Seq<(Seq<char>, Duration)>,
    k: Seq<char>,
    ttl: Duration,
    other: Seq<char>,
    elapsed: Duration,
)
    requires
        distinct_keys(v),
    ensures
        expiry_spec(set_ttl(v, k, ttl), k, elapsed) == (ttl.spec_nanos() <= elapsed.spec_nanos()),
        other != k ==> expiry_spec(set_ttl(v, k, ttl), other, elapsed) == expiry_spec(v, other, elapsed),
        !expiry_spec(drop_ttl(set_ttl(v, k, ttl), k), k, elapsed),
{
    law_set_reads_back(v, k, ttl, other);
    law_set_then_drop(v, k, ttl);
}

/// The per-entry lifetimes recorded beside the cache.
#[derive(Debug)]
pub struct EntryTtls {
    default_ttl: Duration,
    entries: Vec<(String, std::time::Instant, Duration)>,
}

impl EntryTtls {
    #[verifier::type_invariant]
    spec fn inv(self) -> bool {
        distinct_keys(self.view_entries())
    }

    /// The recorded keys with their lifetimes, in order.
    pub closed spec fn view_entries(self) -> Seq<(Seq<char>, Duration)> {
        self.entries@.map_values(|e: (String, std::time::Instant, Duration)| (e.0@, e.2))
    }

    /// The cache's default lifetime.
    pub closed spec fn default_spec(self) -> Duration {
        self.default_ttl
    }

    /// Nothing recorded, beside a cache whose default lifetime is `default_ttl`.
    pub fn new(default_ttl: Duration) -> (t: EntryTtls)
        ensures
            t.view_entries().len() == 0,
            t.default_spec() == default_ttl,
    {
        let t = EntryTtls { default_ttl, entries: Vec::new() };
        assert(t.view_entries() =~= Seq::<(Seq<char>, Duration)>::empty());
        t
    }

    fn position(&self, key: &str) -> (r: Option<usize>)
        ensures
            match r {
                Some(j) => j < self.entries@.len() && key_index(self.view_entries(), key@, 0) == Some(j as int),
                None => key_index(self.view_entries(), key@, 0) is None,
            },
    {
        let ghost v = self.view_entries();
        let mut i: usize = 0;
        while i < self.entries.len()
            invariant
                i <= self.entries.len(),
                v == self.view_entries(),
                v.len() == self.entries@.len(),
                key_index(v, key@, 0) == key_index(v, key@, i as int),
            decreases self.entries.len() - i,
        {
            assert(v[i as int].0 == self.entries@[i as int].0@);
            if str_eq(self.entries[i].0.as_str(), key) {
                return Some(i);
            }
            i += 1;
        }
        None
    }

    /// Notes that `key` was stored with lifetime `ttl`: a lifetime other than
    /// the default and not zero is recorded, from now on; any other leaves
    /// the records as they are.
    pub fn on_set(&mut self, key: &str, ttl: Duration)
        ensures
            final(self).default_spec() == old(self).default_spec(),
            records(ttl, old(self).default_spec()) ==> final(self).view_entries() == set_ttl(
                old(self).view_entries(),
                key@,
                ttl,
            ),
            !records(ttl, old(self).default_spec()) ==> final(self).view_entries() == old(self).view_entries(),
    {
        proof {
            use_type_invariant(&*self);
        }
        if ttl.as_nanos() == self.default_ttl.as_nanos() || ttl.as_nanos() == 0 {
            return;
        }
        let ghost v = self.view_entries();
        let now = instant_now();
        proof {
            law_set_reads_back(v, key@, ttl, key@);
        }
        let pos = self.position(key);
        let mut entries: Vec<(String, std::time::Instant, Duration)> = Vec::new();
        std::mem::swap(&mut entries, &mut self.entries);
        match pos {
            Some(j) => {
                entries.set(j, (key.to_owned(), now, ttl));
                assert(entries@.map_values(|e: (String, std::time::Instant, Duration)| (e.0@, e.2)) =~= v.update(
                    j as int,
                    (key@, ttl),
                ));
            },
            None => {
                entries.push((key.to_owned(), now, ttl));
                assert(entries@.map_values(|e: (String, std::time::Instant, Duration)| (e.0@, e.2)) =~= v.push(
                    (key@, ttl),
                ));
            },
        }
        self.entries = entries;
    }

    /// Whether the record of `key` has run out: it is recorded and its
    /// lifetime is no longer than the time elapsed since it was stored. That
    /// elapsed time is read from the clock, so it is not named: the result
    /// is what `expiry_spec` gives for the records and some elapsed time.
    pub fn expired(&self, key: &str) -> (b: bool)
        ensures
            exists|elapsed: Duration| b == #[trigger] expiry_spec(self.view_entries(), key@, elapsed),
    {
        match self.position(key) {
            Some(j) => {
                let elapsed = elapsed_since(&self.entries[j].1);
                let b = self.entries[j].2.le(&elapsed);
                assert(self.view_entries()[j as int].1 == self.entries@[j as int].2);
                assert(b == expiry_spec(self.view_entries(), key@, elapsed));
                b
            },
            None => {
                let z = Duration::zero();
                assert(!expiry_spec(self.view_entries(), key@, z));
                false
            },
        }
    }

    /// Forgets the record of `key`.
    pub fn remove(&mut self, key: &str)
        ensures
            final(self).default_spec() == old(self).default_spec(),
            final(self).view_entries() == drop_ttl(old(self).view_entries(), key@),
            ttl_for(final(self).view_entries(), key@) is None,
    {
        proof {
            use_type_invariant(&*self);
            law_drop_forgets(self.view_entries(), key@, key@);
        }
        match self.position(key) {
            Some(j) => {
                let ghost before = self.entries@;
                let mut entries: Vec<(String, std::time::Instant, Duration)> = Vec::new();
                std::mem::swap(&mut entries, &mut self.entries);
                entries.remove(j);
                assert(entries@.map_values(|e: (String, std::time::Instant, Duration)| (e.0@, e.2)) =~= before.map_values(
                    |e: (String, std::time::Instant, Duration)| (e.0@, e.2),
                ).remove(j as int));
                self.entries = entries;
            },
            None => {},
        }
    }
}

} // verus!
