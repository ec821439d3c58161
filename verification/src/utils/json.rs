//! A JSON document held as plain values, with its mathematical model.
use crate::utils::digest::hex_digit;
use crate::utils::text::{char_from_ascii, chars_of, i64_text, parse_i64, parse_u64, push_char, push_str, u64_text};
use vstd::prelude::*;

verus! {

/// A JSON value. Numbers are kept as their canonical decimal text; an object
/// is a list of (key, value) entries in which no key occurs twice.
#[derive(Debug)]
pub enum Value {
    Null,
    Bool(bool),
    Number(String),
    String(String),
    Array(Vec<Value>),
    Object(Vec<(String, Value)>),
}

/// The mathematical model of a JSON value.
pub enum Json {
    Null,
    Bool(bool),
    Number(Seq<char>),
    Str(Seq<char>),
    Array(Seq<Json>),
    Object(Seq<(Seq<char>, Json)>),
}

/// Models of a sequence of values.
pub open spec fn models(s: Seq<Value>) -> Seq<Json>
    decreases s,
{
    if s.len() == 0 {
        Seq::empty()
    } else {
        models(s.subrange(0, s.len() - 1)).push(s[s.len() - 1].model())
    }
}

/// Models of a sequence of object entries.
pub open spec fn entry_models(s: Seq<(String, Value)>) -> Seq<(Seq<char>, Json)>
    decreases s,
{
    if s.len() == 0 {
        Seq::empty()
    } else {
        entry_models(s.subrange(0, s.len() - 1)).push((s[s.len() - 1].0@, s[s.len() - 1].1.model()))
    }
}

impl Value {
    /// The model of this value.
    pub open spec fn model(self) -> Json
        decreases self,
    {
        match self {
            Value::Null => Json::Null,
            Value::Bool(b) => Json::Bool(b),
            Value::Number(n) => Json::Number(n@),
            Value::String(s) => Json::Str(s@),
            Value::Array(items) => Json::Array(models(items@)),
            Value::Object(entries) => Json::Object(entry_models(entries@)),
        }
    }
}


/// The model of each element of a sequence of values.
pub proof fn lemma_models(s: Seq<Value>)
    ensures
        models(s).len() == s.len(),
        forall|i: int| 0 <= i < s.len() ==> #[trigger] models(s)[i] == s[i].model(),
    decreases s.len(),
{
    if s.len() > 0 {
        lemma_models(s.subrange(0, s.len() - 1));
        assert forall|i: int| 0 <= i < s.len() implies #[trigger] models(s)[i] == s[i].model() by {
            if i < s.len() - 1 {
                assert(s.subrange(0, s.len() - 1)[i] == s[i]);
            }
        }
    }
}

/// The model of each entry of a sequence of object entries.
pub proof fn lemma_entry_models(s: Seq<(String, Value)>)
    ensures
        entry_models(s).len() == s.len(),
        forall|i: int|
            0 <= i < s.len() ==> #[trigger] entry_models(s)[i] == (s[i].0@, s[i].1.model()),
    decreases s.len(),
{
    if s.len() > 0 {
        lemma_entry_models(s.subrange(0, s.len() - 1));
        assert forall|i: int| 0 <= i < s.len() implies #[trigger] entry_models(s)[i] == (
            s[i].0@,
            s[i].1.model(),
        ) by {
            if i < s.len() - 1 {
                assert(s.subrange(0, s.len() - 1)[i] == s[i]);
            }
        }
    }
}

/// Two sequences of values with pointwise equal models have equal models.
pub proof fn lemma_models_ext(a: Seq<Value>, b: Seq<Value>)
    requires
        a.len() == b.len(),
        forall|i: int| 0 <= i < a.len() ==> #[trigger] a[i].model() == b[i].model(),
    ensures
        models(a) == models(b),
{
    lemma_models(a);
    lemma_models(b);
    assert(models(a) =~= models(b));
}

/// Two sequences of entries with pointwise equal models have equal models.
pub proof fn lemma_entry_models_ext(a: Seq<(String, Value)>, b: Seq<(String, Value)>)
    requires
        a.len() == b.len(),
        forall|i: int|
            0 <= i < a.len() ==> (#[trigger] a[i]).0@ == b[i].0@ && a[i].1.model() == b[i].1.model(),
    ensures
        entry_models(a) == entry_models(b),
{
    lemma_entry_models(a);
    lemma_entry_models(b);
    assert(entry_models(a) =~= entry_models(b));
}

impl Value {
    /// A copy of this value with the same model.
    pub fn deep_copy(&self) -> (r: Value)
        ensures
            r.model() == self.model(),
        decreases self,
    {
        match self {
            Value::Null => Value::Null,
            Value::Bool(b) => Value::Bool(*b),
            Value::Number(n) => Value::Number(n.clone()),
            Value::String(t) => Value::String(t.clone()),
            Value::Array(items) => {
                let mut out: Vec<Value> = Vec::new();
                for i in 0..items.len()
                    invariant
                        *self is Array,
                        self->Array_0 == *items,
                        out.len() == i,
                        forall|j: int| 0 <= j < i ==> #[trigger] out@[j].model() == items@[j].model(),
                {
                    proof {
                        assert(*self is Array);
                        assert(self->Array_0 == *items);
                        assert(decreases_to!(*self => self->Array_0));
                        assert(decreases_to!(*items => items[i as int]));
                        assert(decreases_to!(*self => items[i as int]));
                    }
                    let c = items[i].deep_copy();
                    out.push(c);
                }
                proof {
                    lemma_models_ext(out@, items@);
                }
                Value::Array(out)
            },
            Value::Object(entries) => {
                let mut out: Vec<(String, Value)> = Vec::new();
                for i in 0..entries.len()
                    invariant
                        *self is Object,
                        self->Object_0 == *entries,
                        out.len() == i,
                        forall|j: int| 0 <= j < i ==> (#[trigger] out@[j]).0@ == entries@[j].0@,
                        forall|j: int| 0 <= j < i ==> (#[trigger] out@[j]).1.model() == entries@[j].1.model(),
                {
                    proof {
                        assert(decreases_to!(*self => self->Object_0));
                        assert(decreases_to!(*entries => entries[i as int]));
                        assert(decreases_to!(entries[i as int] => entries[i as int].1));
                        assert(decreases_to!(*self => entries[i as int].1));
                    }
                    let e = &entries[i];
                    let k = e.0.clone();
                    let v = e.1.deep_copy();
                    out.push((k, v));
                }
                proof {
                    lemma_entry_models_ext(out@, entries@);
                }
                Value::Object(out)
            },
        }
    }
}

impl Clone for Value {
    fn clone(&self) -> (r: Self)
        ensures
            r.model() == self.model(),
    {
        self.deep_copy()
    }
}

/// The first entry value under `key`, from position `i` on.
pub open spec fn lookup_from(es: Seq<(Seq<char>, Json)>, key: Seq<char>, i: int) -> Option<Json>
    decreases es.len() - i,
{
    if i < 0 || i >= es.len() {
        None
    } else if es[i].0 == key {
        Some(es[i].1)
    } else {
        lookup_from(es, key, i + 1)
    }
}

/// The member `key` of an object (`None` for other values).
pub open spec fn json_get(j: Json, key: Seq<char>) -> Option<Json> {
    match j {
        Json::Object(es) => lookup_from(es, key, 0),
        _ => None,
    }
}

/// The text of a string member `key`, if there is one.
pub open spec fn str_member(j: Json, key: Seq<char>) -> Option<Seq<char>> {
    match json_get(j, key) {
        Some(Json::Str(s)) => Some(s),
        _ => None,
    }
}

/// The `u64` value of a member `key`, if it is a number that is one.
pub open spec fn u64_member(j: Json, key: Seq<char>) -> Option<u64> {
    match json_get(j, key) {
        Some(Json::Number(t)) => u64_text(t),
        _ => None,
    }
}

impl Value {
    /// The member `key` of an object; `None` for a missing key or a value
    /// that is not an object.
    pub fn get(&self, key: &str) -> (r: Option<&Value>)
        ensures
            match r {
                Some(v) => json_get(self.model(), key@) == Some(v.model()),
                None => json_get(self.model(), key@) is None,
            },
    {
        match self {
            Value::Object(entries) => {
                proof {
                    lemma_entry_models(entries@);
                }
                let ghost es = entry_models(entries@);
                let mut i: usize = 0;
                while i < entries.len()
                    invariant
                        i <= entries.len(),
                        es == entry_models(entries@),
                        self.model() == Json::Object(es),
                        es.len() == entries.len(),
                        forall|j: int| 0 <= j < entries.len() ==> #[trigger] es[j] == (entries@[j].0@, entries@[j].1.model()),
                        lookup_from(es, key@, 0) == lookup_from(es, key@, i as int),
                    decreases entries.len() - i,
                {
                    if crate::utils::text::str_eq(entries[i].0.as_str(), key) {
                        return Some(&entries[i].1);
                    }
                    i += 1;
                }
                None
            },
            _ => None,
        }
    }

    /// The text of a string value.
    pub fn as_str(&self) -> (r: Option<&str>)
        ensures
            match r {
                Some(s) => self.model() == Json::Str(s@),
                None => !(self.model() is Str),
            },
    {
        match self {
            Value::String(s) => Some(s.as_str()),
            _ => None,
        }
    }

    /// The value of a number that is a `u64`.
    pub fn as_u64(&self) -> (r: Option<u64>)
        ensures
            r == match self.model() {
                Json::Number(t) => u64_text(t),
                _ => None,
            },
    {
        match self {
            Value::Number(n) => parse_u64(n.as_str()),
            _ => None,
        }
    }
}

/// The `i64` value of a member `key`, if it is a number that is one.
pub open spec fn i64_member(j: Json, key: Seq<char>) -> Option<i64> {
    match json_get(j, key) {
        Some(Json::Number(t)) => i64_text(t),
        _ => None,
    }
}

/// The `i64` member `key` of `v`.
pub fn get_i64(v: &Value, key: &str) -> (r: Option<i64>)
    ensures
        r == i64_member(v.model(), key@),
{
    match v.get(key) {
        Some(m) => match m {
            Value::Number(n) => parse_i64(n.as_str()),
            _ => None,
        },
        None => None,
    }
}

/// The text of the string member `key` of `v`.
pub fn get_str<'a>(v: &'a Value, key: &str) -> (r: Option<&'a str>)
    ensures
        match r {
            Some(s) => str_member(v.model(), key@) == Some(s@),
            None => str_member(v.model(), key@) is None,
        },
{
    match v.get(key) {
        Some(m) => m.as_str(),
        None => None,
    }
}

/// The `u64` member `key` of `v`.
pub fn get_u64(v: &Value, key: &str) -> (r: Option<u64>)
    ensures
        r == u64_member(v.model(), key@),
{
    match v.get(key) {
        Some(m) => m.as_u64(),
        None => None,
    }
}

/// A character as it appears inside a JSON string: `"` and `\` escaped,
/// `\b \t \n \f \r` by their short forms, other control characters as
/// `\u00xx` (lower-case hex), everything else as it is.
pub open spec fn escape_char(c: char) -> Seq<char> {
    if c == '"' {
        seq!['\\', '"']
    } else if c == '\\' {
        seq!['\\', '\\']
    } else if c == '\u{8}' {
        seq!['\\', 'b']
    } else if c == '\t' {
        seq!['\\', 't']
    } else if c == '\n' {
        seq!['\\', 'n']
    } else if c == '\u{c}' {
        seq!['\\', 'f']
    } else if c == '\r' {
        seq!['\\', 'r']
    } else if (c as u32) < 0x20 {
        seq!['\\', 'u', '0', '0', hex_digit((c as u32) as int / 16), hex_digit((c as u32) as int % 16)]
    } else {
        seq![c]
    }
}

/// The escaped characters of a text.
pub open spec fn escape_text(s: Seq<char>) -> Seq<char>
    decreases s.len(),
{
    if s.len() == 0 {
        Seq::empty()
    } else {
        escape_text(s.drop_last()) + escape_char(s.last())
    }
}

/// A JSON string literal.
pub open spec fn quoted(s: Seq<char>) -> Seq<char> {
    seq!['"'] + escape_text(s) + seq!['"']
}

/// The compact JSON text of a value (no spaces; object members in order).
pub open spec fn json_text(j: Json) -> Seq<char>
    decreases j,
{
    match j {
        Json::Null => seq!['n', 'u', 'l', 'l'],
        Json::Bool(b) => if b {
            seq!['t', 'r', 'u', 'e']
        } else {
            seq!['f', 'a', 'l', 's', 'e']
        },
        Json::Number(t) => t,
        Json::Str(s) => quoted(s),
        Json::Array(items) => seq!['['] + items_text(items) + seq![']'],
        Json::Object(es) => seq!['{'] + members_text(es) + seq!['}'],
    }
}

/// The texts of array items, separated by commas.
pub open spec fn items_text(items: Seq<Json>) -> Seq<char>
    decreases items,
{
    if items.len() == 0 {
        Seq::empty()
    } else if items.len() == 1 {
        json_text(items[0])
    } else {
        items_text(items.subrange(0, items.len() - 1)) + seq![','] + json_text(items[items.len() - 1])
    }
}

/// The texts of object members (`"key":value`), separated by commas.
pub open spec fn members_text(es: Seq<(Seq<char>, Json)>) -> Seq<char>
    decreases es,
{
    if es.len() == 0 {
        Seq::empty()
    } else if es.len() == 1 {
        quoted(es[0].0) + seq![':'] + json_text(es[0].1)
    } else {
        members_text(es.subrange(0, es.len() - 1)) + seq![','] + quoted(es[es.len() - 1].0) + seq![':']
            + json_text(es[es.len() - 1].1)
    }
}

fn push_escaped(out: &mut String, s: &str)
    ensures
        final(out)@ == old(out)@ + escape_text(s@),
{
    let v = chars_of(s);
    let ghost start = out@;
    let mut i: usize = 0;
    while i < v.len()
        invariant
            i <= v.len(),
            v@ == s@,
            out@ == start + escape_text(v@.take(i as int)),
        decreases v.len() - i,
    {
        let c = v[i];
        assert(v@.take(i + 1).drop_last() =~= v@.take(i as int));
        let ghost before = out@;
        if c == '"' {
            push_char(out, '\\');
            push_char(out, '"');
        } else if c == '\\' {
            push_char(out, '\\');
            push_char(out, '\\');
        } else if c == '\u{8}' {
            push_char(out, '\\');
            push_char(out, 'b');
        } else if c == '\t' {
            push_char(out, '\\');
            push_char(out, 't');
        } else if c == '\n' {
            push_char(out, '\\');
            push_char(out, 'n');
        } else if c == '\u{c}' {
            push_char(out, '\\');
            push_char(out, 'f');
        } else if c == '\r' {
            push_char(out, '\\');
            push_char(out, 'r');
        } else if (c as u32) < 0x20 {
            let n = c as u32;
            push_char(out, '\\');
            push_char(out, 'u');
            push_char(out, '0');
            push_char(out, '0');
            push_char(out, lower_hex(n / 16));
            push_char(out, lower_hex(n % 16));
        } else {
            push_char(out, c);
        }
        assert(out@ =~= before + escape_char(c));
        i += 1;
    }
    assert(v@.take(v.len() as int) =~= v@);
}

fn lower_hex(n: u32) -> (c: char)
    requires
        n < 16,
    ensures
        c == hex_digit(n as int),
{
    if n < 10 {
        char_from_ascii(48 + n)
    } else {
        char_from_ascii(87 + n)
    }
}

fn push_quoted(out: &mut String, s: &str)
    ensures
        final(out)@ == old(out)@ + quoted(s@),
{
    let ghost start = out@;
    push_char(out, '"');
    push_escaped(out, s);
    push_char(out, '"');
    assert(out@ =~= start + quoted(s@));
}

/// Appends the compact JSON text of `v`.
pub fn push_json_text(out: &mut String, v: &Value)
    ensures
        final(out)@ == old(out)@ + json_text(v.model()),
    decreases v,
{
    let ghost start = out@;
    match v {
        Value::Null => {
            push_str(out, "null");
            proof {
                reveal_strlit("null");
            }
            assert(out@ =~= start + json_text(v.model()));
        },
        Value::Bool(b) => {
            if *b {
                push_str(out, "true");
                proof {
                    reveal_strlit("true");
                }
            } else {
                push_str(out, "false");
                proof {
                    reveal_strlit("false");
                }
            }
            assert(out@ =~= start + json_text(v.model()));
        },
        Value::Number(n) => {
            push_str(out, n.as_str());
        },
        Value::String(t) => {
            push_quoted(out, t.as_str());
        },
        Value::Array(items) => {
            proof {
                lemma_models(items@);
            }
            push_char(out, '[');
            let ghost open = out@;
            let mut i: usize = 0;
            while i < items.len()
                invariant
                    *v is Array,
                    v->Array_0 == *items,
                    i <= items.len(),
                    models(items@).len() == items.len(),
                    forall|j: int| 0 <= j < items.len() ==> #[trigger] models(items@)[j] == items@[j].model(),
                    out@ == open + items_text(models(items@).subrange(0, i as int)),
                decreases items.len() - i,
            {
                proof {
                    assert(decreases_to!(*v => v->Array_0));
                    assert(decreases_to!(*items => items[i as int]));
                }
                let ghost sub = models(items@).subrange(0, i + 1);
                assert(sub.subrange(0, i as int) =~= models(items@).subrange(0, i as int));
                if i > 0 {
                    push_char(out, ',');
                }
                push_json_text(out, &items[i]);
                assert(sub[i as int] == items@[i as int].model());
                assert(out@ =~= open + items_text(sub));
                i += 1;
            }
            assert(models(items@).subrange(0, items.len() as int) =~= models(items@));
            push_char(out, ']');
            assert(out@ =~= start + json_text(v.model()));
        },
        Value::Object(entries) => {
            proof {
                lemma_entry_models(entries@);
            }
            push_char(out, '{');
            let ghost open = out@;
            let mut i: usize = 0;
            while i < entries.len()
                invariant
                    *v is Object,
                    v->Object_0 == *entries,
                    i <= entries.len(),
                    entry_models(entries@).len() == entries.len(),
                    forall|j: int| 0 <= j < entries.len() ==> #[trigger] entry_models(entries@)[j] == (
                        entries@[j].0@,
                        entries@[j].1.model(),
                    ),
                    out@ == open + members_text(entry_models(entries@).subrange(0, i as int)),
                decreases entries.len() - i,
            {
                proof {
                    assert(decreases_to!(*v => v->Object_0));
                    assert(decreases_to!(*entries => entries[i as int]));
                    assert(decreases_to!(entries[i as int] => entries[i as int].1));
                }
                let ghost sub = entry_models(entries@).subrange(0, i + 1);
                assert(sub.subrange(0, i as int) =~= entry_models(entries@).subrange(0, i as int));
                if i > 0 {
                    push_char(out, ',');
                }
                push_quoted(out, entries[i].0.as_str());
                push_char(out, ':');
                push_json_text(out, &entries[i].1);
                assert(sub[i as int] == (entries@[i as int].0@, entries@[i as int].1.model()));
                assert(out@ =~= open + members_text(sub));
                i += 1;
            }
            assert(entry_models(entries@).subrange(0, entries.len() as int) =~= entry_models(entries@));
            push_char(out, '}');
            assert(out@ =~= start + json_text(v.model()));
        },
    }
}

/// The compact JSON text of `v` (as `serde_json` writes it).
pub fn to_json_text(v: &Value) -> (s: String)
    ensures
        s@ == json_text(v.model()),
{
    let mut s = String::new();
    push_json_text(&mut s, v);
    assert(s@ =~= json_text(v.model()));
    s
}

} // verus!
