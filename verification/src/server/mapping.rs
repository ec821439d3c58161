//! Input and output mapping of routes.
//!
//! Inputs are gathered from several sources by priority (defaults < env <
//! session < header < body < query), each target taking a value found at a
//! dotted path of its source. Outputs are reshaped by pick, then rename,
//! then wrap.
use crate::config::{InputMapping, OutputMapping};
use crate::utils::json::{json_get, 
    entry_models, lemma_entry_models, lookup_from, Json, Value,
};
use crate::utils::text::{chars_of, find_char, first_index, lemma_first_index, slice_chars, str_eq, string_from_chars};
use vstd::prelude::*;

verus! {

/// The first position, from `i` on, of an entry with key `k`.
pub open spec fn key_pos(es: Seq<(Seq<char>, Json)>, k: Seq<char>, i: int) -> Option<int>
    decreases es.len() - i,
{
    if i < 0 || i >= es.len() {
        None
    } else if es[i].0 == k {
        Some(i)
    } else {
        key_pos(es, k, i + 1)
    }
}

/// Object entries after setting `k` to `v`: an entry with that key is
/// replaced in place, else one is added at the end.
pub open spec fn ins(es: Seq<(Seq<char>, Json)>, k: Seq<char>, v: Json) -> Seq<(Seq<char>, Json)> {
    match key_pos(es, k, 0) {
        Some(i) => es.update(i, (k, v)),
        None => es.push((k, v)),
    }
}

/// The value under `k` in object entries.
pub open spec fn get_entry(es: Seq<(Seq<char>, Json)>, k: Seq<char>) -> Option<Json> {
    match key_pos(es, k, 0) {
        Some(i) => Some(es[i].1),
        None => None,
    }
}

/// No key occurs twice.
pub open spec fn keys_unique(es: Seq<(Seq<char>, Json)>) -> bool {
    forall|i: int, j: int| 0 <= i < j < es.len() ==> es[i].0 != es[j].0
}

proof fn lemma_key_pos(es: Seq<(Seq<char>, Json)>, k: Seq<char>, i: int)
    requires
        0 <= i,
    ensures
        match key_pos(es, k, i) {
            Some(p) => i <= p < es.len() && es[p].0 == k && forall|j: int| i <= j < p ==> es[j].0 != k,
            None => forall|j: int| i <= j < es.len() ==> es[j].0 != k,
        },
    decreases es.len() - i,
{
    if i < es.len() && es[i].0 != k {
        lemma_key_pos(es, k, i + 1);
    }
}

proof fn lemma_key_pos_is(es: Seq<(Seq<char>, Json)>, k: Seq<char>, p: int)
    requires
        0 <= p < es.len(),
        es[p].0 == k,
        forall|j: int| 0 <= j < p ==> es[j].0 != k,
    ensures
        key_pos(es, k, 0) == Some(p),
{
    lemma_key_pos(es, k, 0);
}

/// Setting a key makes it read back, leaves other keys as they were, and keeps keys unique.
pub proof fn lemma_ins(es: Seq<(Seq<char>, Json)>, k: Seq<char>, v: Json, k2: Seq<char>)
    ensures
        get_entry(ins(es, k, v), k) == Some(v),
        k2 != k ==> get_entry(ins(es, k, v), k2) == get_entry(es, k2),
        keys_unique(es) ==> keys_unique(ins(es, k, v)),
{
    lemma_key_pos(es, k, 0);
    lemma_key_pos(es, k2, 0);
    let r = ins(es, k, v);
    lemma_key_pos(r, k, 0);
    lemma_key_pos(r, k2, 0);
    match key_pos(es, k, 0) {
        Some(p) => {
            lemma_key_pos_is(r, k, p);
            if k2 != k {
                match key_pos(es, k2, 0) {
                    Some(q) => {
                        lemma_key_pos_is(r, k2, q);
                    },
                    None => {},
                }
            }
        },
        None => {
            lemma_key_pos_is(r, k, es.len() as int);
            if k2 != k {
                match key_pos(es, k2, 0) {
                    Some(q) => {
                        lemma_key_pos_is(r, k2, q);
                    },
                    None => {},
                }
            }
        },
    }
}

/// The text of `path` before its first `.` (all of it without one).
pub open spec fn first_segment(path: Seq<char>) -> Seq<char> {
    match first_index(path, '.') {
        Some(i) => path.subrange(0, i),
        None => path,
    }
}

/// The value reached from `cur` along the `.`-separated segments of
/// `path`: each segment looks up a key of an object (a missing key gives
/// `null`); a segment applied to anything but an object gives `null`.
pub open spec fn walk(cur: Json, path: Seq<char>) -> Json
    decreases path.len(),
{
    match cur {
        Json::Object(es) => {
            let next = match lookup_from(es, first_segment(path), 0) {
                Some(v) => v,
                None => Json::Null,
            };
            match first_index(path, '.') {
                None => next,
                Some(i) => if 0 <= i < path.len() {
                    walk(next, path.subrange(i + 1, path.len() as int))
                } else {
                    Json::Null
                },
            }
        },
        _ => Json::Null,
    }
}

/// The value at `path` in `src`: `.` is the whole source.
pub open spec fn extract_spec(src: Json, path: Seq<char>) -> Json {
    if path == seq!['.'] {
        src
    } else {
        walk(src, path)
    }
}

/// The value at `path` in `source` (`.` for the whole source, `a.b.c`
/// for a nested member; `null` where the path leads nowhere).
pub fn extract_json_path(source: &Value, path: &str) -> (r: Value)
    ensures
        r.model() == extract_spec(source.model(), path@),
{
    let p = chars_of(path);
    if p.len() == 1 && p[0] == '.' {
        assert(p@ =~= seq!['.']);
        return source.deep_copy();
    }
    let null = Value::Null;
    let mut current: &Value = source;
    let mut rest: Vec<char> = p;
    assert(extract_spec(source.model(), path@) == walk(source.model(), path@));
    loop
        invariant
            walk(current.model(), rest@) == extract_spec(source.model(), path@),
            null.model() == Json::Null,
        decreases rest.len(),
    {
        match current {
            Value::Object(entries) => {
                proof {
                    lemma_first_index(rest@, '.');
                    lemma_entry_models(entries@);
                }
                let cut = find_char(&rest, '.');
                let seg_chars = match cut {
                    Some(i) => slice_chars(&rest, 0, i),
                    None => slice_chars(&rest, 0, rest.len()),
                };
                assert(seg_chars@ =~= first_segment(rest@));
                let seg = string_from_chars(&seg_chars);
                let next: &Value = match current.get(seg.as_str()) {
                    Some(v) => v,
                    None => &null,
                };
                assert(current.model() == Json::Object(entry_models(entries@)));
                assert(next.model() == match lookup_from(entry_models(entries@), first_segment(rest@), 0) {
                    Some(v) => v,
                    None => Json::Null,
                });
                match cut {
                    None => {
                        return next.deep_copy();
                    },
                    Some(i) => {
                        assert(i < rest.len());
                        let tail = slice_chars(&rest, i + 1, rest.len());
                        assert(walk(current.model(), rest@) == walk(next.model(), tail@));
                        rest = tail;
                        current = next;
                    },
                }
            },
            _ => {
                return Value::Null;
            },
        }
    }
}

/// Inserts `(k, v)` into object entries: an entry with key `k` is replaced in place, else one is appended.
pub fn obj_insert(out: &mut Vec<(String, Value)>, k: String, v: Value)
    ensures
        entry_models(final(out)@) == ins(entry_models(old(out)@), k@, v.model()),
{
    proof {
        lemma_entry_models(out@);
    }
    let ghost es = entry_models(out@);
    let mut i: usize = 0;
    while i < out.len()
        invariant
            i <= out.len(),
            es == entry_models(out@),
            out@ == old(out)@,
            es.len() == out.len(),
            forall|j: int| 0 <= j < out.len() ==> #[trigger] es[j] == (out@[j].0@, out@[j].1.model()),
            key_pos(es, k@, 0) == key_pos(es, k@, i as int),
        decreases out.len() - i,
    {
        if str_eq(out[i].0.as_str(), k.as_str()) {
            let ghost before = out@;
            out.set(i, (k, v));
            proof {
                lemma_entry_models(out@);
                assert(entry_models(out@) =~= es.update(i as int, (k@, v.model()))) by {
                    assert forall|j: int| 0 <= j < out@.len() implies #[trigger] entry_models(out@)[j]
                        == es.update(i as int, (k@, v.model()))[j] by {
                        if j != i {
                            assert(out@[j] == before[j]);
                        }
                    }
                }
            }
            return;
        }
        i += 1;
    }
    let ghost before = out@;
    out.push((k, v));
    proof {
        lemma_entry_models(out@);
        assert(entry_models(out@) =~= es.push((k@, v.model()))) by {
            assert forall|j: int| 0 <= j < out@.len() implies #[trigger] entry_models(out@)[j]
                == es.push((k@, v.model()))[j] by {
                if j < before.len() {
                    assert(out@[j] == before[j]);
                }
            }
        }
    }
}

/// The entries after inserting each default, in order.
pub open spec fn defaults_spec(acc: Seq<(Seq<char>, Json)>, ds: Seq<(String, Value)>) -> Seq<(Seq<char>, Json)>
    decreases ds.len(),
{
    if ds.len() == 0 {
        acc
    } else {
        ins(defaults_spec(acc, ds.drop_last()), ds.last().0@, ds.last().1.model())
    }
}

/// The entries after applying each (target, path) pair of a source, in
/// order: a target takes the value at its path unless that is `null`.
pub open spec fn source_spec(acc: Seq<(Seq<char>, Json)>, pairs: Seq<(String, String)>, src: Json) -> Seq<(Seq<char>, Json)>
    decreases pairs.len(),
{
    if pairs.len() == 0 {
        acc
    } else {
        let prev = source_spec(acc, pairs.drop_last(), src);
        let v = extract_spec(src, pairs.last().1@);
        if v is Null {
            prev
        } else {
            ins(prev, pairs.last().0@, v)
        }
    }
}

/// The merged inputs, as object entries.
pub open spec fn merge_spec(m: InputMapping, query: Json, body: Json, header: Json, session: Json, env: Json) -> Seq<(Seq<char>, Json)> {
    let d = defaults_spec(Seq::empty(), m.defaults@);
    let e = source_spec(d, m.from_env@, env);
    let s = source_spec(e, m.from_session@, session);
    let h = source_spec(s, m.from_header@, header);
    let b = source_spec(h, m.from_body@, body);
    source_spec(b, m.from_query@, query)
}

/// Inserts each of the given entries, in order, a later one replacing an earlier one of the same key.
pub fn apply_entries(out: &mut Vec<(String, Value)>, ds: &Vec<(String, Value)>)
    ensures
        entry_models(final(out)@) == defaults_spec(entry_models(old(out)@), ds@),
{
    let ghost start = entry_models(out@);
    let mut i: usize = 0;
    while i < ds.len()
        invariant
            i <= ds.len(),
            entry_models(out@) == defaults_spec(start, ds@.take(i as int)),
        decreases ds.len() - i,
    {
        assert(ds@.take(i + 1).drop_last() =~= ds@.take(i as int));
        let k = ds[i].0.clone();
        let v = ds[i].1.deep_copy();
        obj_insert(out, k, v);
        i += 1;
    }
    assert(ds@.take(ds.len() as int) =~= ds@);
}

fn apply_source(out: &mut Vec<(String, Value)>, pairs: &Vec<(String, String)>, src: &Value)
    ensures
        entry_models(final(out)@) == source_spec(entry_models(old(out)@), pairs@, src.model()),
{
    let ghost start = entry_models(out@);
    let mut i: usize = 0;
    while i < pairs.len()
        invariant
            i <= pairs.len(),
            entry_models(out@) == source_spec(start, pairs@.take(i as int), src.model()),
        decreases pairs.len() - i,
    {
        assert(pairs@.take(i + 1).drop_last() =~= pairs@.take(i as int));
        let v = extract_json_path(src, pairs[i].1.as_str());
        match v {
            Value::Null => {},
            _ => {
                obj_insert(out, pairs[i].0.clone(), v);
            },
        }
        i += 1;
    }
    assert(pairs@.take(pairs.len() as int) =~= pairs@);
}

/// Gathers the inputs of a route: defaults first, then each source from
/// env to query, a later source overriding an earlier one for the same target.
pub fn merge_inputs(
    mapping: &InputMapping,
    query_json: &Value,
    body_json: &Value,
    header_json: &Value,
    session_json: &Value,
    env_json: &Value,
) -> (r: Value)
    ensures
        r.model() == Json::Object(
            merge_spec(
                *mapping,
                query_json.model(),
                body_json.model(),
                header_json.model(),
                session_json.model(),
                env_json.model(),
            ),
        ),
{
    let mut out: Vec<(String, Value)> = Vec::new();
    assert(entry_models(out@) =~= Seq::<(Seq<char>, Json)>::empty());
    apply_entries(&mut out, &mapping.defaults);
    apply_source(&mut out, &mapping.from_env, env_json);
    apply_source(&mut out, &mapping.from_session, session_json);
    apply_source(&mut out, &mapping.from_header, header_json);
    apply_source(&mut out, &mapping.from_body, body_json);
    apply_source(&mut out, &mapping.from_query, query_json);
    Value::Object(out)
}

/// The value a source gives target `t`: that of the last pair for `t`
/// whose path leads to something other than `null`.
pub open spec fn source_value(pairs: Seq<(String, String)>, src: Json, t: Seq<char>) -> Option<Json>
    decreases pairs.len(),
{
    if pairs.len() == 0 {
        None
    } else {
        let v = extract_spec(src, pairs.last().1@);
        if pairs.last().0@ == t && !(v is Null) {
            Some(v)
        } else {
            source_value(pairs.drop_last(), src, t)
        }
    }
}

/// The default of target `t`: that of its last entry.
pub open spec fn default_value(ds: Seq<(String, Value)>, t: Seq<char>) -> Option<Json>
    decreases ds.len(),
{
    if ds.len() == 0 {
        None
    } else if ds.last().0@ == t {
        Some(ds.last().1.model())
    } else {
        default_value(ds.drop_last(), t)
    }
}

/// `a`, else `b`.
pub open spec fn or_else(a: Option<Json>, b: Option<Json>) -> Option<Json> {
    if a is Some {
        a
    } else {
        b
    }
}

proof fn lemma_source_spec(acc: Seq<(Seq<char>, Json)>, pairs: Seq<(String, String)>, src: Json, t: Seq<char>)
    ensures
        get_entry(source_spec(acc, pairs, src), t) == or_else(source_value(pairs, src, t), get_entry(acc, t)),
        keys_unique(acc) ==> keys_unique(source_spec(acc, pairs, src)),
    decreases pairs.len(),
{
    if pairs.len() > 0 {
        lemma_source_spec(acc, pairs.drop_last(), src, t);
        let prev = source_spec(acc, pairs.drop_last(), src);
        let v = extract_spec(src, pairs.last().1@);
        lemma_ins(prev, pairs.last().0@, v, t);
    }
}

pub proof fn lemma_defaults_spec(acc: Seq<(Seq<char>, Json)>, ds: Seq<(String, Value)>, t: Seq<char>)
    ensures
        get_entry(defaults_spec(acc, ds), t) == or_else(default_value(ds, t), get_entry(acc, t)),
        keys_unique(acc) ==> keys_unique(defaults_spec(acc, ds)),
    decreases ds.len(),
{
    if ds.len() > 0 {
        lemma_defaults_spec(acc, ds.drop_last(), t);
        lemma_ins(defaults_spec(acc, ds.drop_last()), ds.last().0@, ds.last().1.model(), t);
    }
}

/// The priority of input sources: a target takes its value from the query
/// if the query gives one, else from the body, the headers, the session,
/// the environment, and last from its default. The merged object never
/// holds a key twice.
pub proof fn law_input_priority(
    m: InputMapping,
    query: Json,
    body: Json,
    header: Json,
    session: Json,
    env: Json,
    t: Seq<char>,
)
    ensures
        get_entry(merge_spec(m, query, body, header, session, env), t) == or_else(
            source_value(m.from_query@, query, t),
            or_else(
                source_value(m.from_body@, body, t),
                or_else(
                    source_value(m.from_header@, header, t),
                    or_else(
                        source_value(m.from_session@, session, t),
                        or_else(source_value(m.from_env@, env, t), default_value(m.defaults@, t)),
                    ),
                ),
            ),
        ),
        keys_unique(merge_spec(m, query, body, header, session, env)),
{
    let e0 = Seq::<(Seq<char>, Json)>::empty();
    let d = defaults_spec(e0, m.defaults@);
    let e = source_spec(d, m.from_env@, env);
    let s = source_spec(e, m.from_session@, session);
    let h = source_spec(s, m.from_header@, header);
    let b = source_spec(h, m.from_body@, body);
    lemma_key_pos(e0, t, 0);
    lemma_defaults_spec(e0, m.defaults@, t);
    lemma_source_spec(d, m.from_env@, env, t);
    lemma_source_spec(e, m.from_session@, session, t);
    lemma_source_spec(s, m.from_header@, header, t);
    lemma_source_spec(h, m.from_body@, body, t);
    lemma_source_spec(b, m.from_query@, query, t);
}

/// `k` is one of the texts of `list`.
pub open spec fn listed(list: Seq<String>, k: Seq<char>) -> bool {
    exists|i: int| 0 <= i < list.len() && #[trigger] list[i]@ == k
}

/// The entries whose key is listed, in order.
pub open spec fn pick_spec(es: Seq<(Seq<char>, Json)>, pick: Seq<String>) -> Seq<(Seq<char>, Json)>
    decreases es.len(),
{
    if es.len() == 0 {
        Seq::empty()
    } else {
        let prev = pick_spec(es.drop_last(), pick);
        if listed(pick, es.last().0) {
            prev.push(es.last())
        } else {
            prev
        }
    }
}

/// The name key `k` is renamed to: the new name of the last rename pair
/// (new name, original name) whose original is `k`, else `k` itself.
pub open spec fn rename_to(rename: Seq<(String, String)>, k: Seq<char>) -> Seq<char>
    decreases rename.len(),
{
    if rename.len() == 0 {
        k
    } else if rename.last().1@ == k {
        rename.last().0@
    } else {
        rename_to(rename.drop_last(), k)
    }
}

/// The entries renamed, inserted in order (a later entry wins a clash).
pub open spec fn renamed_spec(es: Seq<(Seq<char>, Json)>, rename: Seq<(String, String)>) -> Seq<(Seq<char>, Json)>
    decreases es.len(),
{
    if es.len() == 0 {
        Seq::empty()
    } else {
        ins(renamed_spec(es.drop_last(), rename), rename_to(rename, es.last().0), es.last().1)
    }
}

/// The output after pick, rename and wrap. Pick and rename act on objects only.
pub open spec fn output_spec(m: OutputMapping, v: Json) -> Json {
    let v1 = if m.pick@.len() > 0 {
        match v {
            Json::Object(es) => Json::Object(pick_spec(es, m.pick@)),
            _ => v,
        }
    } else {
        v
    };
    let v2 = if m.rename@.len() > 0 {
        match v1 {
            Json::Object(es) => Json::Object(renamed_spec(es, m.rename@)),
            _ => v1,
        }
    } else {
        v1
    };
    match m.wrap {
        Some(w) => Json::Object(seq![(w@, v2)]),
        None => v2,
    }
}

fn is_listed(list: &Vec<String>, k: &str) -> (b: bool)
    ensures
        b == listed(list@, k@),
{
    let mut i: usize = 0;
    while i < list.len()
        invariant
            i <= list.len(),
            forall|j: int| 0 <= j < i ==> list@[j]@ != k@,
        decreases list.len() - i,
    {
        if str_eq(list[i].as_str(), k) {
            return true;
        }
        i += 1;
    }
    false
}

fn rename_target(rename: &Vec<(String, String)>, k: &String) -> (r: String)
    ensures
        r@ == rename_to(rename@, k@),
{
    let mut i: usize = rename.len();
    assert(rename@.take(i as int) =~= rename@);
    while i > 0
        invariant
            i <= rename.len(),
            rename_to(rename@, k@) == rename_to(rename@.take(i as int), k@),
        decreases i,
    {
        assert(rename@.take(i as int).drop_last() =~= rename@.take(i - 1));
        if str_eq(rename[i - 1].1.as_str(), k.as_str()) {
            return rename[i - 1].0.clone();
        }
        i -= 1;
    }
    k.clone()
}

fn pick_entries(entries: &Vec<(String, Value)>, pick: &Vec<String>) -> (r: Vec<(String, Value)>)
    ensures
        entry_models(r@) == pick_spec(entry_models(entries@), pick@),
{
    proof {
        lemma_entry_models(entries@);
    }
    let ghost es = entry_models(entries@);
    let mut out: Vec<(String, Value)> = Vec::new();
    let mut i: usize = 0;
    assert(entry_models(out@) =~= Seq::<(Seq<char>, Json)>::empty());
    while i < entries.len()
        invariant
            i <= entries.len(),
            es == entry_models(entries@),
            es.len() == entries.len(),
            forall|j: int| 0 <= j < entries.len() ==> #[trigger] es[j] == (entries@[j].0@, entries@[j].1.model()),
            entry_models(out@) == pick_spec(es.take(i as int), pick@),
        decreases entries.len() - i,
    {
        assert(es.take(i + 1).drop_last() =~= es.take(i as int));
        if is_listed(pick, entries[i].0.as_str()) {
            let ghost before = out@;
            out.push((entries[i].0.clone(), entries[i].1.deep_copy()));
            proof {
                lemma_entry_models(before);
                lemma_entry_models(out@);
                assert(entry_models(out@) =~= entry_models(before).push(es[i as int])) by {
                    assert forall|j: int| 0 <= j < out@.len() implies #[trigger] entry_models(out@)[j]
                        == entry_models(before).push(es[i as int])[j] by {
                        if j < before.len() {
                            assert(out@[j] == before[j]);
                        }
                    }
                }
            }
        }
        i += 1;
    }
    assert(es.take(entries.len() as int) =~= es);
    out
}

fn rename_entries(entries: &Vec<(String, Value)>, rename: &Vec<(String, String)>) -> (r: Vec<(String, Value)>)
    ensures
        entry_models(r@) == renamed_spec(entry_models(entries@), rename@),
{
    proof {
        lemma_entry_models(entries@);
    }
    let ghost es = entry_models(entries@);
    let mut out: Vec<(String, Value)> = Vec::new();
    let mut i: usize = 0;
    assert(entry_models(out@) =~= Seq::<(Seq<char>, Json)>::empty());
    while i < entries.len()
        invariant
            i <= entries.len(),
            es == entry_models(entries@),
            es.len() == entries.len(),
            forall|j: int| 0 <= j < entries.len() ==> #[trigger] es[j] == (entries@[j].0@, entries@[j].1.model()),
            entry_models(out@) == renamed_spec(es.take(i as int), rename@),
        decreases entries.len() - i,
    {
        assert(es.take(i + 1).drop_last() =~= es.take(i as int));
        let k = rename_target(rename, &entries[i].0);
        obj_insert(&mut out, k, entries[i].1.deep_copy());
        i += 1;
    }
    assert(es.take(entries.len() as int) =~= es);
    out
}

/// Reshapes a route's output: keeps only the picked keys (if any are
/// listed), renames keys (pairs of new name and original name), then wraps
/// the result under the wrap key (if set).
pub fn apply_output_mapping(mapping: &OutputMapping, value: Value) -> (r: Value)
    ensures
        r.model() == output_spec(*mapping, value.model()),
{
    let mut value = value;
    if mapping.pick.len() > 0 {
        let picked = match &value {
            Value::Object(entries) => Some(pick_entries(entries, &mapping.pick)),
            _ => None,
        };
        if let Some(es) = picked {
            value = Value::Object(es);
        }
    }
    if mapping.rename.len() > 0 {
        let renamed = match &value {
            Value::Object(entries) => Some(rename_entries(entries, &mapping.rename)),
            _ => None,
        };
        if let Some(es) = renamed {
            value = Value::Object(es);
        }
    }
    match &mapping.wrap {
        Some(w) => {
            let mut es: Vec<(String, Value)> = Vec::new();
            es.push((w.clone(), value));
            proof {
                lemma_entry_models(es@);
            }
            assert(entry_models(es@) =~= seq![(w@, es@[0].1.model())]);
            Value::Object(es)
        },
        None => value,
    }
}

/// An output mapping with nothing to pick, rename or wrap leaves the output as it is.
pub proof fn law_output_identity(m: OutputMapping, v: Json)
    requires
        m.pick@.len() == 0,
        m.rename@.len() == 0,
        m.wrap is None,
    ensures
        output_spec(m, v) == v,
{
}

/// Picking keeps exactly the listed entries of an object, in their order.
pub proof fn law_pick_keeps_listed(es: Seq<(Seq<char>, Json)>, pick: Seq<String>, k: Seq<char>, v: Json)
    ensures
        pick_spec(es, pick).contains((k, v)) <==> es.contains((k, v)) && listed(pick, k),
    decreases es.len(),
{
    if es.len() > 0 {
        law_pick_keeps_listed(es.drop_last(), pick, k, v);
        let prev = pick_spec(es.drop_last(), pick);
        assert(es =~= es.drop_last().push(es.last()));
        if es.contains((k, v)) {
            let i = choose|i: int| 0 <= i < es.len() && es[i] == (k, v);
            if i < es.len() - 1 {
                assert(es.drop_last()[i] == (k, v));
            }
        }
        if listed(pick, es.last().0) {
            if prev.push(es.last()).contains((k, v)) {
                let i = choose|i: int| 0 <= i < prev.push(es.last()).len() && prev.push(es.last())[i] == (k, v);
                if i < prev.len() {
                    assert(prev[i] == (k, v));
                }
            }
            if es.drop_last().contains((k, v)) && listed(pick, k) {
                let i = choose|i: int| 0 <= i < prev.len() && prev[i] == (k, v);
                assert(prev.push(es.last())[i] == (k, v));
            }
            assert(prev.push(es.last())[prev.len() as int] == es.last());
        }
    }
}

/// Renaming never leaves a key twice in an object.
pub proof fn law_rename_unique(es: Seq<(Seq<char>, Json)>, rename: Seq<(String, String)>)
    ensures
        keys_unique(renamed_spec(es, rename)),
    decreases es.len(),
{
    if es.len() > 0 {
        law_rename_unique(es.drop_last(), rename);
        lemma_ins(renamed_spec(es.drop_last(), rename), rename_to(rename, es.last().0), es.last().1, seq![]);
    }
}

/// The member `k` of `cur`, `null` when `cur` is not an object or has no such member.
pub open spec fn member_or_null(cur: Json, k: Seq<char>) -> Json {
    match json_get(cur, k) {
        Some(v) => v,
        None => Json::Null,
    }
}

/// A dotted path follows every segment: a segment `k` without `.` reads the
/// member `k`, and `k.rest` reads `rest` inside the member `k`. So `a.b.c`
/// reaches the member `c` of the member `b` of the member `a` (the path `.`
/// alone stands for the whole source).
pub proof fn law_path_follows_every_segment(cur: Json, k: Seq<char>, rest: Seq<char>)
    requires
        forall|j: int| 0 <= j < k.len() ==> k[j] != '.',
    ensures
        walk(cur, k) == member_or_null(cur, k),
        walk(cur, k + seq!['.'] + rest) == walk(member_or_null(cur, k), rest),
        k != seq!['.'] ==> extract_spec(cur, k) == member_or_null(cur, k),
        k.len() + rest.len() > 0 ==> extract_spec(cur, k + seq!['.'] + rest) == walk(member_or_null(cur, k), rest),
{
    crate::utils::text::lemma_first_index_none(k, '.');
    crate::utils::text::lemma_first_index_after(k, '.', rest);
    let p = k + seq!['.'] + rest;
    assert(p.subrange(0, k.len() as int) =~= k);
    assert(p.subrange(k.len() as int + 1, p.len() as int) =~= rest);
    if k.len() + rest.len() > 0 {
        assert(p.len() > 1);
        assert(p != seq!['.']);
    }
}

} // verus!
