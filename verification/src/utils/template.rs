//! URL templates: each `{name}` placeholder is replaced by the
//! percent-encoded value of its parameter.
use crate::utils::pairs::{pair_lookup, pairs_get};
use crate::utils::text::{
    find_char, first_index, lemma_first_index, push_char, push_str, slice_chars, string_from_chars,
};
use vstd::prelude::*;

verus! {

/// A byte left as it is in a URL path segment: an ASCII letter or digit, `-`, `_`, `.` or `~`.
pub open spec fn unreserved(b: u8) -> bool {
    (65 <= b <= 90) || (97 <= b <= 122) || (48 <= b <= 57) || b == 45 || b == 95 || b == 46
        || b == 126
}

/// The upper-case hexadecimal digit for `n < 16`.
pub open spec fn upper_hex(n: int) -> char {
    if n < 10 {
        (48 + n) as char
    } else {
        (55 + n) as char
    }
}

/// `%XX` for a byte, with upper-case hexadecimal digits.
pub open spec fn escaped_byte(b: u8) -> Seq<char> {
    seq!['%', upper_hex(b as int / 16), upper_hex(b as int % 16)]
}

/// A byte as it appears in an encoded path segment.
pub open spec fn pct_byte(b: u8) -> Seq<char> {
    if unreserved(b) {
        seq![b as char]
    } else {
        escaped_byte(b)
    }
}

/// Percent-encoding of a byte string for a URL path segment (a space becomes `%20`).
pub open spec fn pct_encode(bytes: Seq<u8>) -> Seq<char>
    decreases bytes.len(),
{
    if bytes.len() == 0 {
        Seq::empty()
    } else {
        pct_encode(bytes.drop_last()) + pct_byte(bytes.last())
    }
}

/// The percent-encoding `%XX` of one byte (`percent_encoding::percent_encode_byte`),
/// which the crate documents and tests as `format!("%{:02X}", byte)`.
#[verifier::external_body]
fn percent_encode_byte(b: u8) -> (s: &'static str)
    ensures
        s@ == escaped_byte(b),
{
    percent_encoding::percent_encode_byte(b)
}

/// Percent-encodes the UTF-8 bytes of `s` for a URL path segment: ASCII
/// letters, digits and `-_.~` stay, every other byte becomes `%XX`.
pub fn urlencoding(s: &str) -> (r: String)
    ensures
        r@ == pct_encode(vstd::utf8::encode_utf8(s@)),
{
    let bytes = s.as_bytes();
    let mut r = String::new();
    let mut i: usize = 0;
    while i < bytes.len()
        invariant
            i <= bytes@.len(),
            bytes@ == vstd::utf8::encode_utf8(s@),
            r@ == pct_encode(bytes@.take(i as int)),
        decreases bytes.len() - i,
    {
        let b = bytes[i];
        assert(bytes@.take(i + 1).drop_last() =~= bytes@.take(i as int));
        if (65 <= b && b <= 90) || (97 <= b && b <= 122) || (48 <= b && b <= 57) || b == 45 || b
            == 95 || b == 46 || b == 126 {
            push_char(&mut r, b as char);
        } else {
            push_str(&mut r, percent_encode_byte(b));
        }
        i += 1;
    }
    assert(bytes@.take(bytes@.len() as int) =~= bytes@);
    r
}

/// The text a placeholder `{key}` renders to.
pub open spec fn placeholder(params: Seq<(String, String)>, key: Seq<char>) -> Seq<char> {
    match pair_lookup(params, key, 0) {
        Some(v) => pct_encode(vstd::utf8::encode_utf8(v)),
        None => pct_encode(vstd::utf8::encode_utf8(seq!['{'] + key + seq!['}'])),
    }
}

/// `t` with each complete `{key}` replaced, left to right: by the encoded
/// parameter `key`, or, without one, by the encoded placeholder itself. An
/// unclosed `{` and all that follows it are kept as they are.
pub open spec fn render_spec(t: Seq<char>, params: Seq<(String, String)>) -> Seq<char>
    decreases t.len(),
{
    match first_index(t, '{') {
        None => t,
        Some(start) => {
            let after = t.subrange(start + 1, t.len() as int);
            match first_index(after, '}') {
                None => t,
                Some(end) => {
                    if 0 <= start < t.len() && 0 <= end < after.len() {
                        t.subrange(0, start) + placeholder(params, after.subrange(0, end))
                            + render_spec(after.subrange(end + 1, after.len() as int), params)
                    } else {
                        t
                    }
                },
            }
        },
    }
}

/// Replaces every `{name}` of `template` by the percent-encoded value of
/// parameter `name`; a placeholder without a parameter is kept, itself
/// percent-encoded, so that no raw brace reaches the output.
pub fn render(template: &str, params: &Vec<(String, String)>) -> (out: String)
    ensures
        out@ == render_spec(template@, params@),
{
    let mut out = String::new();
    let mut rest: Vec<char> = crate::utils::text::chars_of(template);
    while rest.len() > 0
        invariant
            out@ + render_spec(rest@, params@) == render_spec(template@, params@),
        decreases rest.len(),
    {
        proof {
            lemma_first_index(rest@, '{');
        }
        let ghost rest0 = rest@;
        let ghost out0 = out@;
        match find_char(&rest, '{') {
            None => {
                push_str(&mut out, string_from_chars(&rest).as_str());
                rest = Vec::new();
                assert(render_spec(rest@, params@) =~= Seq::<char>::empty());
                assert(out@ + render_spec(rest@, params@) =~= out0 + render_spec(rest0, params@));
            },
            Some(start) => {
                let after = slice_chars(&rest, start + 1, rest.len());
                proof {
                    lemma_first_index(after@, '}');
                }
                match find_char(&after, '}') {
                    None => {
                        push_str(&mut out, string_from_chars(&rest).as_str());
                        rest = Vec::new();
                        assert(render_spec(rest@, params@) =~= Seq::<char>::empty());
                        assert(out@ + render_spec(rest@, params@) =~= out0 + render_spec(rest0, params@));
                    },
                    Some(end) => {
                        let head = slice_chars(&rest, 0, start);
                        let key_chars = slice_chars(&after, 0, end);
                        let key = string_from_chars(&key_chars);
                        push_str(&mut out, string_from_chars(&head).as_str());
                        let enc = match pairs_get(params, key.as_str()) {
                            Some(v) => urlencoding(v.as_str()),
                            None => {
                                let mut braced = String::new();
                                push_char(&mut braced, '{');
                                push_str(&mut braced, key.as_str());
                                push_char(&mut braced, '}');
                                assert(braced@ =~= seq!['{'] + key@ + seq!['}']);
                                urlencoding(braced.as_str())
                            },
                        };
                        assert(enc@ == placeholder(params@, key@));
                        push_str(&mut out, enc.as_str());
                        let next = slice_chars(&after, end + 1, after.len());
                        assert(out@ =~= out0 + rest0.subrange(0, start as int) + placeholder(params@, key@));
                        assert(render_spec(rest0, params@) == rest0.subrange(0, start as int)
                            + placeholder(params@, key@) + render_spec(next@, params@));
                        assert(out@ + render_spec(next@, params@) =~= out0 + render_spec(rest0, params@));
                        rest = next;
                    },
                }
            },
        }
    }
    assert(render_spec(rest@, params@) =~= Seq::<char>::empty());
    assert(out@ =~= out@ + Seq::<char>::empty());
    out
}

/// Text without a `{` renders as itself.
pub proof fn law_render_plain_text(t: Seq<char>, params: Seq<(String, String)>)
    requires
        forall|j: int| 0 <= j < t.len() ==> t[j] != '{',
    ensures
        render_spec(t, params) == t,
{
    crate::utils::text::lemma_first_index_none(t, '{');
}

/// Text around a placeholder is kept as it is: `a{k}b` with a parameter `k`
/// of value `v` (and no `{` in `a`, no `}` in `k`) renders as `a`, then `v`
/// percent-encoded, then `b` rendered; `b` without a `{` stays as it is.
pub proof fn law_render_keeps_surrounding_text(
    a: Seq<char>,
    k: Seq<char>,
    b: Seq<char>,
    params: Seq<(String, String)>,
    v: Seq<char>,
)
    requires
        forall|j: int| 0 <= j < a.len() ==> a[j] != '{',
        forall|j: int| 0 <= j < k.len() ==> k[j] != '}',
        pair_lookup(params, k, 0) == Some(v),
    ensures
        render_spec(a + seq!['{'] + k + seq!['}'] + b, params) == a + pct_encode(vstd::utf8::encode_utf8(v))
            + render_spec(b, params),
        (forall|j: int| 0 <= j < b.len() ==> b[j] != '{') ==> render_spec(a + seq!['{'] + k + seq!['}'] + b, params)
            == a + pct_encode(vstd::utf8::encode_utf8(v)) + b,
{
    let t = a + seq!['{'] + k + seq!['}'] + b;
    let tail = k + seq!['}'] + b;
    assert(t =~= a + seq!['{'] + tail);
    crate::utils::text::lemma_first_index_after(a, '{', tail);
    let after = t.subrange(a.len() as int + 1, t.len() as int);
    assert(after =~= tail);
    crate::utils::text::lemma_first_index_after(k, '}', b);
    assert(t.subrange(0, a.len() as int) =~= a);
    assert(after.subrange(0, k.len() as int) =~= k);
    assert(after.subrange(k.len() as int + 1, after.len() as int) =~= b);
    if forall|j: int| 0 <= j < b.len() ==> b[j] != '{' {
        law_render_plain_text(b, params);
    }
}

} // verus!
