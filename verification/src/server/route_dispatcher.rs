//! Route dispatch: which route serves a request, and the pieces of a
//! request each kind of route works from (inputs, pipeline, script, static answer).
use crate::config::{PipelineDef, RouteDef};
use crate::oidc::tokens::{token_text, StoredTokens};
use crate::server::mapping::{ins, merge_inputs, merge_spec, obj_insert};
use crate::utils::crypto::Cipher;
use crate::utils::error::AppError;
use crate::utils::json::{entry_models, json_text, lemma_entry_models, to_json_text, Json, Value};
use crate::utils::pairs::pair_views;
use crate::utils::text::{concat2, eq_ignore_ascii_case, eq_ignore_case, is_prefix, starts_with, str_eq};
use vstd::prelude::*;

verus! {

/// Route `r` serves `method` on `path`: its path is a prefix of the
/// request path, and it lists no methods or lists `method` (in any case).
pub open spec fn route_matches(r: RouteDef, method: Seq<char>, path: Seq<char>) -> bool {
    &&& is_prefix(r.path@, path)
    &&& (r.methods@.len() == 0 || exists|i: int|
        0 <= i < r.methods@.len() && eq_ignore_case(#[trigger] r.methods@[i]@, method))
}

/// The length in bytes of a route's path.
pub open spec fn path_bytes(r: RouteDef) -> int {
    (vstd::utf8::encode_utf8(r.path@).len() as usize) as int
}

/// Route `i` is the one chosen for the request: it matches, no matching
/// route has a longer path, and none after it has one as long.
pub open spec fn chosen_route(routes: Seq<RouteDef>, method: Seq<char>, path: Seq<char>, i: int) -> bool {
    &&& 0 <= i < routes.len()
    &&& route_matches(routes[i], method, path)
    &&& forall|j: int|
        0 <= j < routes.len() && route_matches(#[trigger] routes[j], method, path) ==> path_bytes(routes[j])
            <= path_bytes(routes[i])
    &&& forall|j: int|
        i < j < routes.len() && route_matches(#[trigger] routes[j], method, path) ==> path_bytes(routes[j])
            < path_bytes(routes[i])
}

fn method_listed(methods: &Vec<String>, method: &str) -> (b: bool)
    ensures
        b == exists|i: int| 0 <= i < methods@.len() && eq_ignore_case(#[trigger] methods@[i]@, method@),
{
    let mut i: usize = 0;
    while i < methods.len()
        invariant
            i <= methods.len(),
            forall|j: int| 0 <= j < i ==> !eq_ignore_case(#[trigger] methods@[j]@, method@),
        decreases methods.len() - i,
    {
        if eq_ignore_ascii_case(methods[i].as_str(), method) {
            return true;
        }
        i += 1;
    }
    false
}

fn matches(r: &RouteDef, method: &str, path: &str) -> (b: bool)
    ensures
        b == route_matches(*r, method@, path@),
{
    starts_with(path, r.path.as_str()) && (r.methods.len() == 0 || method_listed(&r.methods, method))
}

/// The position of the route serving `method` on `path`: among the routes whose path
/// prefixes the request path and whose methods allow it, the one with the
/// longest path (the last of those if several are as long).
pub fn match_route_index(routes: &Vec<RouteDef>, method: &str, path: &str) -> (r: Option<usize>)
    ensures
        match r {
            Some(i) => chosen_route(routes@, method@, path@, i as int),
            None => forall|j: int| 0 <= j < routes@.len() ==> !route_matches(#[trigger] routes@[j], method@, path@),
        },
{
    let mut best: Option<usize> = None;
    let mut best_len: usize = 0;
    let mut i: usize = 0;
    while i < routes.len()
        invariant
            i <= routes.len(),
            match best {
                Some(b) => {
                    &&& b < i
                    &&& route_matches(routes@[b as int], method@, path@)
                    &&& best_len == path_bytes(routes@[b as int])
                    &&& forall|j: int| 0 <= j < i && route_matches(#[trigger] routes@[j], method@, path@)
                        ==> path_bytes(routes@[j]) <= best_len
                    &&& forall|j: int| b < j < i && route_matches(#[trigger] routes@[j], method@, path@)
                        ==> path_bytes(routes@[j]) < best_len
                },
                None => forall|j: int| 0 <= j < i ==> !route_matches(#[trigger] routes@[j], method@, path@),
            },
        decreases routes.len() - i,
    {
        if matches(&routes[i], method, path) {
            let len = routes[i].path.as_str().len();
            let take = match best {
                Some(_) => len >= best_len,
                None => true,
            };
            if take {
                best = Some(i);
                best_len = len;
            }
        }
        i += 1;
    }
    match best {
        Some(b) => {
            assert(chosen_route(routes@, method@, path@, b as int));
            Some(b)
        },
        None => None,
    }
}

/// The route serving `method` on `path`: among the routes whose path
/// prefixes the request path and whose methods allow it, the one with the
/// longest path (the last of those if several are as long).
pub fn match_route<'a>(routes: &'a Vec<RouteDef>, method: &str, path: &str) -> (r: Option<&'a RouteDef>)
    ensures
        match r {
            Some(route) => exists|i: int| chosen_route(routes@, method@, path@, i) && *route == routes@[i],
            None => forall|j: int| 0 <= j < routes@.len() ==> !route_matches(#[trigger] routes@[j], method@, path@),
        },
{
    match match_route_index(routes, method, path) {
        Some(i) => Some(&routes[i]),
        None => None,
    }
}

/// Object entries from text pairs, inserted in order (a later pair wins a clash).
pub open spec fn text_object(pairs: Seq<(Seq<char>, Seq<char>)>) -> Seq<(Seq<char>, Json)>
    decreases pairs.len(),
{
    if pairs.len() == 0 {
        Seq::empty()
    } else {
        ins(text_object(pairs.drop_last()), pairs.last().0, Json::Str(pairs.last().1))
    }
}

/// A JSON object of text values from (name, value) pairs.
pub fn pairs_object(pairs: &Vec<(String, String)>) -> (r: Value)
    ensures
        r.model() == Json::Object(text_object(pair_views(pairs@))),
{
    let mut out: Vec<(String, Value)> = Vec::new();
    assert(entry_models(out@) =~= Seq::<(Seq<char>, Json)>::empty());
    let mut i: usize = 0;
    while i < pairs.len()
        invariant
            i <= pairs.len(),
            entry_models(out@) == text_object(pair_views(pairs@.take(i as int))),
        decreases pairs.len() - i,
    {
        assert(pair_views(pairs@.take(i + 1)).drop_last() =~= pair_views(pairs@.take(i as int)));
        obj_insert(&mut out, pairs[i].0.clone(), Value::String(pairs[i].1.clone()));
        i += 1;
    }
    assert(pairs@.take(pairs.len() as int) =~= pairs@);
    Value::Object(out)
}

/// The (name, value) pairs `application/x-www-form-urlencoded` bytes decode to.
pub uninterp spec fn form_pairs(bytes: Seq<u8>) -> Seq<(Seq<char>, Seq<char>)>;

/// Decodes a query string (`url::form_urlencoded::parse`): names and values
/// percent-decoded, `+` read as a space. The pairs are named, not described.
#[verifier::external_body]
fn parse_form(query: &str) -> (r: Vec<(String, String)>)
    ensures
        pair_views(r@) == form_pairs(vstd::utf8::encode_utf8(query@)),
{
    let mut out = Vec::new();
    for (k, v) in url::form_urlencoded::parse(query.as_bytes()) {
        out.push((k.into_owned(), v.into_owned()));
    }
    out
}

/// The query parameters as a JSON object of texts (a repeated name keeps its last value).
pub fn query_object(query: &str) -> (r: Value)
    ensures
        r.model() == Json::Object(text_object(form_pairs(vstd::utf8::encode_utf8(query@)))),
{
    pairs_object(&parse_form(query))
}

/// The body source of a route's inputs: the parsed JSON body when the
/// route maps anything from the body, else an empty object (as it is when
/// the body does not parse).
pub fn body_object(route: &RouteDef, parsed: Option<Value>) -> (r: Value)
    ensures
        r.model() == if route.input_mapping.from_body@.len() == 0 {
            Json::Object(Seq::empty())
        } else {
            match parsed {
                Some(v) => v.model(),
                None => Json::Object(Seq::empty()),
            }
        },
{
    let empty: Vec<(String, Value)> = Vec::new();
    assert(entry_models(empty@) =~= Seq::<(Seq<char>, Json)>::empty());
    if route.input_mapping.from_body.len() == 0 {
        return Value::Object(empty);
    }
    match parsed {
        Some(v) => v,
        None => Value::Object(empty),
    }
}

/// The inputs of a pipeline or script route: its input mapping applied to
/// the query string, the parsed body, the request headers, the session
/// context and the environment.
pub fn extract_inputs(
    route: &RouteDef,
    query: &str,
    parsed_body: Option<Value>,
    headers: &Vec<(String, String)>,
    session_json: &Value,
    env_json: &Value,
) -> (r: Value)
    ensures
        r.model() == Json::Object(
            merge_spec(
                route.input_mapping,
                Json::Object(text_object(form_pairs(vstd::utf8::encode_utf8(query@)))),
                if route.input_mapping.from_body@.len() == 0 {
                    Json::Object(Seq::empty())
                } else {
                    match parsed_body {
                        Some(v) => v.model(),
                        None => Json::Object(Seq::empty()),
                    }
                },
                Json::Object(text_object(pair_views(headers@))),
                session_json.model(),
                env_json.model(),
            ),
        ),
{
    let q = query_object(query);
    let b = body_object(route, parsed_body);
    let h = pairs_object(headers);
    merge_inputs(&route.input_mapping, &q, &b, &h, session_json, env_json)
}

/// The session context of a request: subject, provider and (when it
/// decrypts) access token of the logged-in user; empty without a login.
pub open spec fn session_context_spec(tokens: Option<StoredTokens>, key: Seq<u8>) -> Seq<(Seq<char>, Json)> {
    match tokens {
        None => Seq::empty(),
        Some(t) => {
            let base = ins(ins(Seq::empty(), "sub"@, Json::Str(t.sub@)), "provider"@, Json::Str(t.provider@));
            match token_text(key, t.access_token_enc@) {
                Ok(at) => ins(base, "access_token"@, Json::Str(at)),
                Err(_) => base,
            }
        },
    }
}

/// Builds the session context object of a request.
pub fn session_context(tokens: Option<&StoredTokens>, cipher: &Cipher) -> (r: Value)
    ensures
        r.model() == Json::Object(
            session_context_spec(
                match tokens {
                    Some(t) => Some(*t),
                    None => None,
                },
                cipher.key_bytes(),
            ),
        ),
{
    let mut out: Vec<(String, Value)> = Vec::new();
    assert(entry_models(out@) =~= Seq::<(Seq<char>, Json)>::empty());
    match tokens {
        None => Value::Object(out),
        Some(t) => {
            obj_insert(&mut out, "sub".to_owned(), Value::String(t.sub.clone()));
            obj_insert(&mut out, "provider".to_owned(), Value::String(t.provider.clone()));
            match t.access_token(cipher) {
                Ok(at) => {
                    obj_insert(&mut out, "access_token".to_owned(), Value::String(at));
                },
                Err(_) => {},
            }
            Value::Object(out)
        },
    }
}

/// The first pipeline, from position `i` on, named `name`.
pub open spec fn pipeline_at(ps: Seq<(String, PipelineDef)>, name: Seq<char>, i: int) -> Option<int>
    decreases ps.len() - i,
{
    if i < 0 || i >= ps.len() {
        None
    } else if ps[i].0@ == name {
        Some(i)
    } else {
        pipeline_at(ps, name, i + 1)
    }
}

/// The pipeline of the given name; 404 when there is none.
pub fn find_pipeline<'a>(pipelines: &'a Vec<(String, PipelineDef)>, name: &str) -> (r: Result<&'a PipelineDef, AppError>)
    ensures
        match pipeline_at(pipelines@, name@, 0) {
            Some(j) => r matches Ok(d) && *d == pipelines@[j].1,
            None => r matches Err(e) && e.status == 404 && e.message@ == "pipeline 不存在: "@ + name@,
        },
{
    let mut i: usize = 0;
    while i < pipelines.len()
        invariant
            i <= pipelines.len(),
            pipeline_at(pipelines@, name@, 0) == pipeline_at(pipelines@, name@, i as int),
        decreases pipelines.len() - i,
    {
        if str_eq(pipelines[i].0.as_str(), name) {
            return Ok(&pipelines[i].1);
        }
        i += 1;
    }
    Err(AppError::not_found(concat2("pipeline 不存在: ", name).as_str()))
}

/// The pipeline a pipeline route runs: the named one, else the inline one.
pub fn pipeline_for<'a>(route: &'a RouteDef, pipelines: &'a Vec<(String, PipelineDef)>) -> (r: Result<&'a PipelineDef, AppError>)
    ensures
        match route.config.pipeline {
            Some(name) => match pipeline_at(pipelines@, name@, 0) {
                Some(j) => r matches Ok(d) && *d == pipelines@[j].1,
                None => r matches Err(e) && e.status == 404 && e.message@ == "pipeline 不存在: "@ + name@,
            },
            None => match route.config.pipeline_inline {
                Some(d) => r matches Ok(x) && *x == d,
                None => r matches Err(e) && e.status == 400 && e.message@
                    == "pipeline 路由缺少 pipeline 或 pipeline_inline"@,
            },
        },
{
    match &route.config.pipeline {
        Some(name) => find_pipeline(pipelines, name.as_str()),
        None => match &route.config.pipeline_inline {
            Some(d) => Ok(d),
            None => Err(AppError::bad_request("pipeline 路由缺少 pipeline 或 pipeline_inline")),
        },
    }
}

/// The name a pipeline run is reported under: the pipeline's, or `inline`.
pub fn pipeline_label(route: &RouteDef) -> (s: &str)
    ensures
        s@ == match route.config.pipeline {
            Some(n) => n@,
            None => "inline"@,
        },
{
    match &route.config.pipeline {
        Some(n) => n.as_str(),
        None => "inline",
    }
}

/// Where a script route's script comes from.
#[derive(Debug, Clone)]
pub enum ScriptSource {
    /// A registered script, by name (else read from `config/scripts/{name}`).
    Named(String),
    /// The route's inline script text.
    Inline(String),
}

/// The script a script route runs.
pub fn script_source(route: &RouteDef) -> (r: Result<ScriptSource, AppError>)
    ensures
        match route.config.script {
            Some(n) => r matches Ok(ScriptSource::Named(x)) && x@ == n@,
            None => match route.config.script_inline {
                Some(t) => r matches Ok(ScriptSource::Inline(x)) && x@ == t@,
                None => r matches Err(e) && e.status == 400 && e.message@
                    == "script 路由缺少 script 或 script_inline"@,
            },
        },
{
    match &route.config.script {
        Some(n) => Ok(ScriptSource::Named(n.clone())),
        None => match &route.config.script_inline {
            Some(t) => Ok(ScriptSource::Inline(t.clone())),
            None => Err(AppError::bad_request("script 路由缺少 script 或 script_inline")),
        },
    }
}

/// The answer of a static route: its status (200 by default; an HTTP
/// status must lie in 100..=999) and its body (`null` by default).
pub fn static_response(route: &RouteDef) -> (r: Result<(u16, Value), AppError>)
    ensures
        ({
            let status: u16 = match route.config.status {
                Some(s) => s,
                None => 200,
            };
            if 100 <= status <= 999 {
                r matches Ok((s, b)) && s == status && b.model() == match route.config.body {
                    Some(v) => v.model(),
                    None => Json::Null,
                }
            } else {
                r matches Err(e) && e.status == 500 && e.message@ == "非法状态码"@
            }
        }),
{
    let status: u16 = match route.config.status {
        Some(s) => s,
        None => 200,
    };
    if !(100 <= status && status <= 999) {
        return Err(AppError::internal("非法状态码"));
    }
    let body = match &route.config.body {
        Some(v) => v.deep_copy(),
        None => Value::Null,
    };
    Ok((status, body))
}

/// A parameter value as text: a string as it is, anything else as its JSON text.
pub open spec fn text_of(j: Json) -> Seq<char> {
    match j {
        Json::Str(s) => s,
        _ => json_text(j),
    }
}

/// The text parameters of an input object: each member as text; nothing for a non-object.
pub open spec fn string_params(j: Json) -> Seq<(Seq<char>, Seq<char>)> {
    match j {
        Json::Object(es) => es.map_values(|e: (Seq<char>, Json)| (e.0, text_of(e.1))),
        _ => Seq::empty(),
    }
}

/// A value as a text parameter.
pub fn value_text(v: &Value) -> (s: String)
    ensures
        s@ == text_of(v.model()),
{
    match v {
        Value::String(t) => t.clone(),
        _ => to_json_text(v),
    }
}

/// The inputs of a route as text parameters of a pipeline.
pub fn inputs_to_string_map(inputs: &Value) -> (r: Vec<(String, String)>)
    ensures
        pair_views(r@) == string_params(inputs.model()),
{
    let mut out: Vec<(String, String)> = Vec::new();
    match inputs {
        Value::Object(entries) => {
            proof {
                lemma_entry_models(entries@);
            }
            let ghost es = entry_models(entries@);
            let mut i: usize = 0;
            while i < entries.len()
                invariant
                    i <= entries.len(),
                    es == entry_models(entries@),
                    es.len() == entries.len(),
                    forall|j: int| 0 <= j < entries.len() ==> #[trigger] es[j] == (entries@[j].0@, entries@[j].1.model()),
                    pair_views(out@) == es.take(i as int).map_values(|e: (Seq<char>, Json)| (e.0, text_of(e.1))),
                decreases entries.len() - i,
            {
                let ghost before = out@;
                let t = value_text(&entries[i].1);
                out.push((entries[i].0.clone(), t));
                assert(pair_views(out@) =~= pair_views(before).push((es[i as int].0, text_of(es[i as int].1))));
                assert(es.take(i + 1).map_values(|e: (Seq<char>, Json)| (e.0, text_of(e.1))) =~= es.take(
                    i as int,
                ).map_values(|e: (Seq<char>, Json)| (e.0, text_of(e.1))).push((es[i as int].0, text_of(es[i as int].1))));
                i += 1;
            }
            assert(es.take(entries.len() as int) =~= es);
            out
        },
        _ => {
            assert(pair_views(out@) =~= Seq::<(Seq<char>, Seq<char>)>::empty());
            out
        },
    }
}

} // verus!
