//! Per-IP limiting of authentication endpoints: when it applies, which
//! configured path prefix a request counts against, the client address
//! behind trusted proxies, and the keys a bucket is stored under.
use crate::config::AuthRateLimitConfig;
use crate::middleware::ip_whitelist::{host_parse, parse_host, IpAddress};
use crate::utils::text::{chars_of, concat2, is_prefix, push_char, push_str, slice_chars, starts_with, string_from_chars};
use vstd::prelude::*;

verus! {

/// The limiter applies: enabled, with paths and a non-zero rate and burst.
pub fn limiter_active(rl: &AuthRateLimitConfig) -> (b: bool)
    ensures
        b == (rl.enabled && rl.paths@.len() > 0 && rl.per_ip.per_second > 0 && rl.per_ip.burst_size > 0),
{
    rl.enabled && rl.paths.len() > 0 && rl.per_ip.per_second > 0 && rl.per_ip.burst_size > 0
}

/// The byte length of a text.
pub open spec fn byte_len(s: Seq<char>) -> int {
    (vstd::utf8::encode_utf8(s).len() as usize) as int
}

/// Prefix `i` is the one a request on `path` counts against: it starts the
/// path, none that does is longer, and none after it is as long.
pub open spec fn chosen_prefix(paths: Seq<String>, path: Seq<char>, i: int) -> bool {
    &&& 0 <= i < paths.len()
    &&& is_prefix(paths[i]@, path)
    &&& forall|j: int| 0 <= j < paths.len() && is_prefix(#[trigger] paths[j]@, path) ==> byte_len(paths[j]@)
        <= byte_len(paths[i]@)
    &&& forall|j: int| i < j < paths.len() && is_prefix(#[trigger] paths[j]@, path) ==> byte_len(paths[j]@)
        < byte_len(paths[i]@)
}

/// The position of the configured prefix a request on `path` counts against, if any.
pub fn matched_prefix(paths: &Vec<String>, path: &str) -> (r: Option<usize>)
    ensures
        match r {
            Some(i) => chosen_prefix(paths@, path@, i as int),
            None => forall|j: int| 0 <= j < paths@.len() ==> !is_prefix(#[trigger] paths@[j]@, path@),
        },
{
    let mut best: Option<usize> = None;
    let mut best_len: usize = 0;
    let mut i: usize = 0;
    while i < paths.len()
        invariant
            i <= paths.len(),
            match best {
                Some(b) => {
                    &&& b < i
                    &&& is_prefix(paths@[b as int]@, path@)
                    &&& best_len == byte_len(paths@[b as int]@)
                    &&& forall|j: int| 0 <= j < i && is_prefix(#[trigger] paths@[j]@, path@) ==> byte_len(
                        paths@[j]@,
                    ) <= best_len
                    &&& forall|j: int| b < j < i && is_prefix(#[trigger] paths@[j]@, path@) ==> byte_len(
                        paths@[j]@,
                    ) < best_len
                },
                None => forall|j: int| 0 <= j < i ==> !is_prefix(#[trigger] paths@[j]@, path@),
            },
        decreases paths.len() - i,
    {
        if starts_with(path, paths[i].as_str()) {
            let len = paths[i].as_str().len();
            let take = match best {
                Some(_) => len >= best_len,
                None => true,
            };
            if take {
                best = Some(i);
                best_len = len;
            }
        }
        i += 1;
    }
    match best {
        Some(b) => {
            assert(chosen_prefix(paths@, path@, b as int));
            Some(b)
        },
        None => None,
    }
}

/// The client address of a request: without trusted proxies, the peer;
/// behind `trusted` proxies, the entry of `X-Forwarded-For` just left of
/// the trusted ones, when the header lists more entries than that; else the peer.
pub open spec fn client_ip_spec(xff: Option<Seq<IpAddress>>, peer: Option<IpAddress>, trusted: usize) -> Option<IpAddress> {
    if trusted == 0 {
        peer
    } else {
        match xff {
            Some(ips) => if ips.len() > trusted {
                Some(ips[ips.len() - trusted - 1])
            } else {
                peer
            },
            None => peer,
        }
    }
}

/// Picks the client address of a request from the valid `X-Forwarded-For`
/// entries (`None` without any), the peer address and the number of trusted proxies.
pub fn client_ip(xff: Option<&Vec<IpAddress>>, peer: Option<IpAddress>, trusted: usize) -> (r: Option<IpAddress>)
    ensures
        r == client_ip_spec(
            match xff {
                Some(v) => Some(v@),
                None => None,
            },
            peer,
            trusted,
        ),
{
    if trusted == 0 {
        return peer;
    }
    match xff {
        Some(ips) => {
            if ips.len() > trusted {
                Some(ips[ips.len() - trusted - 1])
            } else {
                peer
            }
        },
        None => peer,
    }
}

/// Whether a character is Unicode white space.
pub uninterp spec fn white_space(c: char) -> bool;

/// Unicode white space (`char::is_whitespace`): the `White_Space` property, named.
#[verifier::external_body]
fn is_white_space(c: char) -> (b: bool)
    ensures
        b == white_space(c),
{
    c.is_whitespace()
}

/// A text without white space at either end.
pub open spec fn trimmed(s: Seq<char>) -> Seq<char>
    decreases s.len(),
{
    if s.len() > 0 && white_space(s[0]) {
        trimmed(s.drop_first())
    } else if s.len() > 0 && white_space(s.last()) {
        trimmed(s.drop_last())
    } else {
        s
    }
}

/// The pieces of a text between commas.
pub open spec fn comma_pieces(s: Seq<char>) -> Seq<Seq<char>>
    decreases s.len(),
{
    match crate::utils::text::first_index(s, ',') {
        None => seq![s],
        Some(i) => if 0 <= i < s.len() {
            seq![s.subrange(0, i)] + comma_pieces(s.subrange(i + 1, s.len() as int))
        } else {
            seq![s]
        },
    }
}

fn trim_chars(v: &Vec<char>) -> (r: String)
    ensures
        r@ == trimmed(v@),
{
    let mut lo: usize = 0;
    let mut hi: usize = v.len();
    assert(v@.subrange(0, v@.len() as int) =~= v@);
    while lo < hi && is_white_space(v[lo])
        invariant
            lo <= hi <= v.len(),
            hi == v.len(),
            trimmed(v@) == trimmed(v@.subrange(lo as int, hi as int)),
        decreases hi - lo,
    {
        assert(v@.subrange(lo as int, hi as int).drop_first() =~= v@.subrange(lo + 1, hi as int));
        lo += 1;
    }
    while lo < hi && is_white_space(v[hi - 1])
        invariant
            lo <= hi <= v.len(),
            lo == hi || !white_space(v@[lo as int]),
            trimmed(v@) == trimmed(v@.subrange(lo as int, hi as int)),
        decreases hi - lo,
    {
        assert(v@.subrange(lo as int, hi as int).drop_last() =~= v@.subrange(lo as int, hi - 1));
        hi -= 1;
    }
    string_from_chars(&slice_chars(v, lo, hi))
}

/// The entries of an `X-Forwarded-For` value: the comma-separated pieces,
/// each trimmed of white space.
pub fn xff_entries(header: &str) -> (r: Vec<String>)
    ensures
        r@.map_values(|s: String| s@) == comma_pieces(header@).map_values(|p: Seq<char>| trimmed(p)),
{
    let mut rest = chars_of(header);
    let mut out: Vec<String> = Vec::new();
    loop
        invariant
            out@.map_values(|s: String| s@) + comma_pieces(rest@).map_values(|p: Seq<char>| trimmed(p))
                == comma_pieces(header@).map_values(|p: Seq<char>| trimmed(p)),
        decreases rest.len(),
    {
        proof {
            crate::utils::text::lemma_first_index(rest@, ',');
        }
        let ghost before = out@;
        match crate::utils::text::find_char(&rest, ',') {
            None => {
                let t = trim_chars(&rest);
                out.push(t);
                assert(comma_pieces(rest@) =~= seq![rest@]);
                assert(out@.map_values(|s: String| s@) =~= before.map_values(|s: String| s@) + comma_pieces(
                    rest@,
                ).map_values(|p: Seq<char>| trimmed(p)));
                return out;
            },
            Some(i) => {
                let piece = slice_chars(&rest, 0, i);
                let t = trim_chars(&piece);
                out.push(t);
                let next = slice_chars(&rest, i + 1, rest.len());
                assert(comma_pieces(rest@) == seq![rest@.subrange(0, i as int)] + comma_pieces(next@));
                assert(comma_pieces(rest@).map_values(|p: Seq<char>| trimmed(p)) =~= seq![trimmed(piece@)]
                    + comma_pieces(next@).map_values(|p: Seq<char>| trimmed(p)));
                assert(out@.map_values(|s: String| s@) =~= before.map_values(|s: String| s@).push(trimmed(piece@)));
                assert(out@.map_values(|s: String| s@) + comma_pieces(next@).map_values(|p: Seq<char>| trimmed(p))
                    =~= before.map_values(|s: String| s@) + comma_pieces(rest@).map_values(|p: Seq<char>| trimmed(p)));
                rest = next;
            },
        }
    }
}

/// The addresses among the texts, in order, skipping those that do not parse.
pub open spec fn parsed_hosts(ps: Seq<Seq<char>>) -> Seq<IpAddress>
    decreases ps.len(),
{
    if ps.len() == 0 {
        seq![]
    } else {
        let rest = parsed_hosts(ps.drop_last());
        match host_parse(ps.last()) {
            Some(ip) => rest.push(ip),
            None => rest,
        }
    }
}

/// The valid addresses of an `X-Forwarded-For` value.
pub open spec fn xff_hosts(header: Seq<char>) -> Seq<IpAddress> {
    parsed_hosts(comma_pieces(header).map_values(|p: Seq<char>| trimmed(p)))
}

/// The valid addresses of an `X-Forwarded-For` value, in order; `None`
/// when it holds none.
pub fn parse_xff(header: &str) -> (r: Option<Vec<IpAddress>>)
    ensures
        match r {
            Some(v) => v@ == xff_hosts(header@) && v@.len() > 0,
            None => xff_hosts(header@).len() == 0,
        },
{
    let entries = xff_entries(header);
    let ghost ps = entries@.map_values(|s: String| s@);
    let mut ips: Vec<IpAddress> = Vec::new();
    let mut i: usize = 0;
    while i < entries.len()
        invariant
            i <= entries.len(),
            ps == entries@.map_values(|s: String| s@),
            ips@ == parsed_hosts(ps.subrange(0, i as int)),
        decreases entries.len() - i,
    {
        assert(ps.subrange(0, i + 1).drop_last() =~= ps.subrange(0, i as int));
        match parse_host(entries[i].as_str()) {
            Some(ip) => ips.push(ip),
            None => {},
        }
        i += 1;
    }
    assert(ps.subrange(0, entries@.len() as int) =~= ps);
    if ips.len() == 0 {
        None
    } else {
        Some(ips)
    }
}

/// The cache key of a bucket: `bff:iprl:{prefix}:{ip}`.
pub fn bucket_key(prefix: &str, ip: &str) -> (k: String)
    ensures
        k@ == "bff:iprl:"@ + prefix@ + seq![':'] + ip@,
{
    let mut k = concat2("bff:iprl:", prefix);
    push_char(&mut k, ':');
    push_str(&mut k, ip);
    k
}

/// The lock key of a bucket: `bff:iprl:lock:{prefix}:{ip}`.
pub fn bucket_lock_key(prefix: &str, ip: &str) -> (k: String)
    ensures
        k@ == "bff:iprl:lock:"@ + prefix@ + seq![':'] + ip@,
{
    let mut k = concat2("bff:iprl:lock:", prefix);
    push_char(&mut k, ':');
    push_str(&mut k, ip);
    k
}

/// Without trusted proxies the forwarded header is never believed.
pub proof fn law_untrusted_header_ignored(xff: Option<Seq<IpAddress>>, peer: Option<IpAddress>)
    ensures
        client_ip_spec(xff, peer, 0) == peer,
{
}

/// Behind trusted proxies, the address chosen is one the header lists, or the peer.
pub proof fn law_client_from_header_or_peer(xff: Option<Seq<IpAddress>>, peer: Option<IpAddress>, trusted: usize)
    ensures
        client_ip_spec(xff, peer, trusted) == peer || (xff matches Some(ips) && ips.contains(
            client_ip_spec(xff, peer, trusted)->0,
        )),
{
    match xff {
        Some(ips) => {
            if trusted > 0 && ips.len() > trusted {
                assert(ips[ips.len() - trusted - 1] == client_ip_spec(xff, peer, trusted)->0);
            }
        },
        None => {},
    }
}

/// Behind `trusted > 0` proxies, when the header lists more entries than
/// that, the client is the last entry before the trusted proxies: drop the
/// `trusted` right-most entries and take the last one left.
pub proof fn law_client_left_of_trusted_proxies(ips: Seq<IpAddress>, peer: Option<IpAddress>, trusted: usize)
    requires
        trusted > 0,
        ips.len() > trusted,
    ensures
        client_ip_spec(Some(ips), peer, trusted) == Some(ips.subrange(0, ips.len() - trusted).last()),
        ips.subrange(0, ips.len() - trusted) + ips.subrange(ips.len() - trusted, ips.len() as int) == ips,
{
    assert(ips.subrange(0, ips.len() - trusted) + ips.subrange(ips.len() - trusted, ips.len() as int) =~= ips);
}

} // verus!
