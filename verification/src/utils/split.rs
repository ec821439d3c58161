//! Substring search, splitting on a separator and trimming a repeated
//! character, over character vectors and their `Seq<char>` views.
use crate::utils::text::trim_end;
use vstd::prelude::*;

verus! {

/// The first position at which the non-empty `pat` occurs in `s`.
pub open spec fn first_occ(s: Seq<char>, pat: Seq<char>) -> Option<int>
    decreases s.len(),
{
    if pat.len() == 0 || s.len() < pat.len() {
        None
    } else if s.subrange(0, pat.len() as int) == pat {
        Some(0)
    } else {
        match first_occ(s.drop_first(), pat) {
            Some(i) => Some(i + 1),
            None => None,
        }
    }
}

/// Where `first_occ` points, `pat` occurs.
pub proof fn lemma_first_occ(s: Seq<char>, pat: Seq<char>)
    ensures
        match first_occ(s, pat) {
            Some(i) => 0 <= i && i + pat.len() <= s.len() && s.subrange(i, i + pat.len()) == pat,
            None => true,
        },
    decreases s.len(),
{
    if pat.len() > 0 && s.len() >= pat.len() && s.subrange(0, pat.len() as int) != pat {
        lemma_first_occ(s.drop_first(), pat);
        match first_occ(s.drop_first(), pat) {
            Some(i) => {
                assert(s.subrange(i + 1, i + 1 + pat.len()) =~= s.drop_first().subrange(i, i + pat.len()));
            },
            None => {},
        }
    }
}

/// The pieces of `s` between the occurrences of the non-empty `pat`,
/// found left to right without overlaps (`str::split` with a text).
pub open spec fn split_str(s: Seq<char>, pat: Seq<char>) -> Seq<Seq<char>>
    decreases s.len(),
{
    match first_occ(s, pat) {
        Some(i) => if pat.len() > 0 && 0 <= i && i + pat.len() <= s.len() {
            seq![s.subrange(0, i)] + split_str(s.subrange(i + pat.len(), s.len() as int), pat)
        } else {
            seq![s]
        },
        None => seq![s],
    }
}

/// `s` with every leading `c` removed.
pub open spec fn trim_start(s: Seq<char>, c: char) -> Seq<char>
    decreases s.len(),
{
    if s.len() > 0 && s[0] == c {
        trim_start(s.drop_first(), c)
    } else {
        s
    }
}

/// Whether `p` occurs in `s` at position `at`.
pub fn occurs_at(s: &Vec<char>, at: usize, p: &Vec<char>) -> (b: bool)
    requires
        at <= s.len(),
    ensures
        b == (at + p@.len() <= s@.len() && s@.subrange(at as int, at + p@.len()) == p@),
{
    if p.len() > s.len() - at {
        return false;
    }
    let mut k: usize = 0;
    while k < p.len()
        invariant
            at + p.len() <= s.len(),
            k <= p.len(),
            forall|m: int| 0 <= m < k ==> s@[at + m] == p@[m],
        decreases p.len() - k,
    {
        if s[at + k] != p[k] {
            assert(s@.subrange(at as int, at + p@.len())[k as int] != p@[k as int]);
            return false;
        }
        k += 1;
    }
    assert(s@.subrange(at as int, at + p@.len()) =~= p@);
    true
}

/// The first position, at or after `from`, at which the non-empty `p` occurs in `s`.
pub fn find_str(s: &Vec<char>, from: usize, p: &Vec<char>) -> (r: Option<usize>)
    requires
        from <= s.len(),
        p.len() > 0,
    ensures
        match r {
            Some(i) => from <= i && first_occ(s@.subrange(from as int, s@.len() as int), p@) == Some(i - from),
            None => first_occ(s@.subrange(from as int, s@.len() as int), p@) is None,
        },
{
    let mut i: usize = from;
    while i < s.len()
        invariant
            from <= i <= s.len(),
            p@.len() > 0,
            first_occ(s@.subrange(from as int, s@.len() as int), p@) == match first_occ(
                s@.subrange(i as int, s@.len() as int),
                p@,
            ) {
                Some(j) => Some(j + (i - from)),
                None => None::<int>,
            },
        decreases s.len() - i,
    {
        let ghost rest = s@.subrange(i as int, s@.len() as int);
        if occurs_at(s, i, p) {
            assert(rest.subrange(0, p@.len() as int) =~= s@.subrange(i as int, i + p@.len()));
            return Some(i);
        }
        if p.len() > s.len() - i {
            return None;
        }
        assert(rest.subrange(0, p@.len() as int) =~= s@.subrange(i as int, i + p@.len()));
        assert(rest.drop_first() =~= s@.subrange(i + 1, s@.len() as int));
        i += 1;
    }
    assert(s@.subrange(i as int, s@.len() as int).len() == 0);
    None
}

/// The pieces of `s` between the occurrences of the non-empty `p`.
pub fn split_chars(s: &Vec<char>, p: &Vec<char>) -> (r: Vec<Vec<char>>)
    requires
        p.len() > 0,
    ensures
        r@.map_values(|v: Vec<char>| v@) == split_str(s@, p@),
{
    let mut out: Vec<Vec<char>> = Vec::new();
    let mut from: usize = 0;
    assert(s@.subrange(0, s@.len() as int) =~= s@);
    loop
        invariant
            from <= s.len(),
            p@.len() > 0,
            out@.map_values(|v: Vec<char>| v@) + split_str(s@.subrange(from as int, s@.len() as int), p@) == split_str(
                s@,
                p@,
            ),
        decreases s.len() - from,
    {
        let ghost rest = s@.subrange(from as int, s@.len() as int);
        let ghost before = out@;
        proof {
            lemma_first_occ(rest, p@);
        }
        match find_str(s, from, p) {
            None => {
                let piece = crate::utils::text::slice_chars(s, from, s.len());
                out.push(piece);
                assert(split_str(rest, p@) == seq![rest]);
                assert(out@.map_values(|v: Vec<char>| v@) =~= before.map_values(|v: Vec<char>| v@).push(rest));
                assert(out@.map_values(|v: Vec<char>| v@) =~= before.map_values(|v: Vec<char>| v@) + split_str(rest, p@));
                return out;
            },
            Some(i) => {
                let piece = crate::utils::text::slice_chars(s, from, i);
                out.push(piece);
                let next = i + p.len();
                assert(rest.subrange(0, i - from) =~= s@.subrange(from as int, i as int));
                assert(rest.subrange(i - from + p@.len(), rest.len() as int) =~= s@.subrange(next as int, s@.len() as int));
                assert(split_str(rest, p@) == seq![s@.subrange(from as int, i as int)] + split_str(
                    s@.subrange(next as int, s@.len() as int),
                    p@,
                ));
                assert(out@.map_values(|v: Vec<char>| v@) =~= before.map_values(|v: Vec<char>| v@).push(
                    s@.subrange(from as int, i as int),
                ));
                assert(out@.map_values(|v: Vec<char>| v@) + split_str(s@.subrange(next as int, s@.len() as int), p@)
                    =~= before.map_values(|v: Vec<char>| v@) + split_str(rest, p@));
                from = next;
            },
        }
    }
}

/// `v` with every leading `c` removed.
pub fn trim_start_chars(v: &Vec<char>, c: char) -> (r: Vec<char>)
    ensures
        r@ == trim_start(v@, c),
{
    let mut k: usize = 0;
    assert(v@.subrange(0, v@.len() as int) =~= v@);
    while k < v.len() && v[k] == c
        invariant
            k <= v.len(),
            trim_start(v@.subrange(k as int, v@.len() as int), c) == trim_start(v@, c),
        decreases v.len() - k,
    {
        assert(v@.subrange(k as int, v@.len() as int).drop_first() =~= v@.subrange(k + 1, v@.len() as int));
        k += 1;
    }
    crate::utils::text::slice_chars(v, k, v.len())
}

/// `v` with every trailing `c` removed.
pub fn trim_end_chars(v: &Vec<char>, c: char) -> (r: Vec<char>)
    ensures
        r@ == trim_end(v@, c),
{
    let mut n: usize = v.len();
    assert(v@.take(n as int) =~= v@);
    while n > 0 && v[n - 1] == c
        invariant
            n <= v.len(),
            trim_end(v@.take(n as int), c) == trim_end(v@, c),
        decreases n,
    {
        assert(v@.take(n as int).drop_last() =~= v@.take(n - 1));
        n -= 1;
    }
    assert(v@.take(n as int) =~= v@.subrange(0, n as int));
    crate::utils::text::slice_chars(v, 0, n)
}

} // verus!
