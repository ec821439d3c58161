//! The decisions of the admin configuration endpoints: reading an uploaded
//! configuration (raw or as a multipart file field), updating providers,
//! pipelines and routes, and the inputs and answer of a script evaluation.
use crate::config::{OidcProviderConfig, PipelineDef, RouteDef};
use crate::orchestration::dag::{pipeline_error_text, validate_pipeline};
use crate::server::mapping::{apply_entries, defaults_spec, get_entry, lemma_defaults_spec, or_else, default_value};
use crate::oidc::handlers::{find_provider, provider_at};
use crate::server::route_dispatcher::pipeline_at;
use crate::utils::error::AppError;
use crate::utils::json::{entry_models, lemma_entry_models, Json, Value};
use crate::utils::pairs::{pair_lookup, pairs_get};
use crate::utils::split::{find_str, first_occ, lemma_first_occ, split_chars, split_str, trim_end_chars, trim_start, trim_start_chars};
use crate::utils::text::{
    chars_of, concat2, decimal_text, format_u64, is_prefix, push_str, seq_starts_with, slice_chars, starts_with,
    str_eq, string_from_chars, string_from_utf8, trim_end,
};
use vstd::prelude::*;

verus! {

/// The content of the first file part among multipart parts: a part, once
/// stripped of leading CRs and then LFs, that is neither empty nor a closing
/// `--`, and holds a blank line; its content follows that line, without
/// trailing CRs and then LFs.
pub open spec fn multipart_file(parts: Seq<Seq<char>>) -> Option<Seq<char>>
    decreases parts.len(),
{
    if parts.len() == 0 {
        None
    } else {
        let p = trim_start(trim_start(parts[0], '\r'), '\n');
        if p.len() == 0 || is_prefix("--"@, p) {
            multipart_file(parts.drop_first())
        } else {
            match first_occ(p, "\r\n\r\n"@) {
                Some(i) => Some(trim_end(trim_end(p.subrange(i + 4, p.len() as int), '\r'), '\n')),
                None => multipart_file(parts.drop_first()),
            }
        }
    }
}

/// The configuration text of an upload, or the complaint about it: for a
/// `multipart/form-data` upload, the boundary follows `boundary=` in the
/// content type and the text is the first file part between boundaries;
/// otherwise the body itself. Either way the body must be UTF-8.
pub open spec fn upload_text(content_type: Seq<char>, body: Seq<u8>) -> Result<Seq<char>, Seq<char>> {
    if is_prefix("multipart/form-data"@, content_type) {
        let pieces = split_str(content_type, "boundary="@);
        if pieces.len() < 2 {
            Err("multipart 缺少 boundary"@)
        } else if !vstd::utf8::valid_utf8(body) {
            Err("body 非 UTF-8"@)
        } else {
            match multipart_file(split_str(vstd::utf8::decode_utf8(body), "--"@ + pieces[1]).drop_first()) {
                Some(c) => Ok(c),
                None => Err("multipart 中未找到文件内容"@),
            }
        }
    } else if vstd::utf8::valid_utf8(body) {
        Ok(vstd::utf8::decode_utf8(body))
    } else {
        Err("body 非 UTF-8"@)
    }
}

fn utf8_text(body: Vec<u8>) -> (r: Result<String, AppError>)
    ensures
        match r {
            Ok(s) => vstd::utf8::valid_utf8(body@) && s@ == vstd::utf8::decode_utf8(body@),
            Err(e) => !vstd::utf8::valid_utf8(body@) && e.status == 400 && e.message@ == "body 非 UTF-8"@,
        },
{
    match string_from_utf8(body) {
        Some(s) => Ok(s),
        None => Err(AppError::bad_request("body 非 UTF-8")),
    }
}

/// The configuration text of an import request, from its content type
/// (empty when absent) and body; every refusal is a 400.
pub fn extract_yaml(content_type: &str, body: Vec<u8>) -> (r: Result<String, AppError>)
    ensures
        match r {
            Ok(s) => upload_text(content_type@, body@) == Ok::<Seq<char>, Seq<char>>(s@),
            Err(e) => e.status == 400 && upload_text(content_type@, body@) == Err::<Seq<char>, Seq<char>>(
                e.message@,
            ),
        },
{
    if !starts_with(content_type, "multipart/form-data") {
        return utf8_text(body);
    }
    let ct = chars_of(content_type);
    let key = chars_of("boundary=");
    proof {
        reveal_strlit("boundary=");
    }
    let pieces = split_chars(&ct, &key);
    if pieces.len() < 2 {
        return Err(AppError::bad_request("multipart 缺少 boundary"));
    }
    let ghost bytes = body@;
    let text = match utf8_text(body) {
        Ok(t) => t,
        Err(e) => {
            return Err(e);
        },
    };
    let boundary = string_from_chars(&pieces[1]);
    let delim = chars_of(concat2("--", boundary.as_str()).as_str());
    proof {
        reveal_strlit("--");
        reveal_strlit("\r\n\r\n");
        assert(pieces@.map_values(|v: Vec<char>| v@)[1] == pieces@[1]@);
    }
    let parts = split_chars(&chars_of(text.as_str()), &delim);
    let ghost views = parts@.map_values(|v: Vec<char>| v@);
    let sep = chars_of("\r\n\r\n");
    let dashes = chars_of("--");
    assert(views.len() >= 1);
    assert(views.subrange(1, views.len() as int) =~= views.drop_first());
    assert(upload_text(content_type@, bytes) == match multipart_file(views.drop_first()) {
        Some(c) => Ok::<Seq<char>, Seq<char>>(c),
        None => Err::<Seq<char>, Seq<char>>("multipart 中未找到文件内容"@),
    });
    let mut j: usize = 1;
    while j < parts.len()
        invariant
            1 <= j <= parts.len(),
            views == parts@.map_values(|v: Vec<char>| v@),
            sep@ == "\r\n\r\n"@,
            sep@.len() == 4,
            dashes@ == "--"@,
            bytes == body@,
            upload_text(content_type@, bytes) == match multipart_file(views.drop_first()) {
                Some(c) => Ok::<Seq<char>, Seq<char>>(c),
                None => Err::<Seq<char>, Seq<char>>("multipart 中未找到文件内容"@),
            },
            multipart_file(views.subrange(j as int, views.len() as int)) == multipart_file(views.drop_first()),
        decreases parts.len() - j,
    {
        let ghost rest = views.subrange(j as int, views.len() as int);
        assert(rest[0] == parts@[j as int]@);
        assert(rest.drop_first() =~= views.subrange(j + 1, views.len() as int));
        let lead = trim_start_chars(&parts[j], '\r');
        let part = trim_start_chars(&lead, '\n');
        if part.len() > 0 && !seq_starts_with(&part, &dashes) {
            proof {
                lemma_first_occ(part@, sep@);
            }
            match find_str(&part, 0, &sep) {
                Some(i) => {
                    assert(part@.subrange(0, part@.len() as int) =~= part@);
                    let body_chars = slice_chars(&part, i + 4, part.len());
                    let t1 = trim_end_chars(&body_chars, '\r');
                    let t2 = trim_end_chars(&t1, '\n');
                    return Ok(string_from_chars(&t2));
                },
                None => {
                    assert(part@.subrange(0, part@.len() as int) =~= part@);
                },
            }
        }
        j += 1;
    }
    assert(views.subrange(j as int, views.len() as int) =~= Seq::<Seq<char>>::empty());
    Err(AppError::bad_request("multipart 中未找到文件内容"))
}

/// Puts `provider`, under the id `id`, in place of the first provider with
/// that id, or adds it at the end.
pub fn upsert_provider(providers: &mut Vec<OidcProviderConfig>, id: String, provider: OidcProviderConfig)
    ensures
        ({
            let p = OidcProviderConfig { id: id, ..provider };
            match provider_at(old(providers)@, id@, 0) {
                Some(i) => final(providers)@ == old(providers)@.update(i, p),
                None => final(providers)@ == old(providers)@.push(p),
            }
        }),
{
    let ghost expected = OidcProviderConfig { id: id, ..provider };
    let mut provider = provider;
    provider.id = id;
    assert(provider == expected);
    match find_provider(providers, provider.id.as_str()) {
        Some(i) => providers.set(i, provider),
        None => providers.push(provider),
    }
}

/// The `name` of a pipeline creation request; 400 without one.
pub fn pipeline_name(query: &Vec<(String, String)>) -> (r: Result<String, AppError>)
    ensures
        match pair_lookup(query@, "name"@, 0) {
            Some(n) => r matches Ok(s) && s@ == n,
            None => r matches Err(e) && e.status == 400 && e.message@ == "缺少 ?name="@,
        },
{
    match pairs_get(query, "name") {
        Some(n) => Ok(n.clone()),
        None => Err(AppError::bad_request("缺少 ?name=")),
    }
}

/// Stores a pipeline under `name`, replacing one of that name, once it is
/// valid; a pipeline that does not layer is refused with 422.
pub fn store_pipeline(pipelines: &mut Vec<(String, PipelineDef)>, name: String, def: PipelineDef) -> (r: Result<
    (),
    AppError,
>)
    ensures
        match validate_pipeline_result(name@, def) {
            Some(msg) => r matches Err(e) && e.status == 422 && e.message@ == msg && final(pipelines)@ == old(
                pipelines,
            )@,
            None => r is Ok && match pipeline_at(old(pipelines)@, name@, 0) {
                Some(j) => final(pipelines)@ == old(pipelines)@.update(j, (name, def)),
                None => final(pipelines)@ == old(pipelines)@.push((name, def)),
            },
        },
{
    match validate_pipeline(name.as_str(), &def) {
        Err(e) => {
            return Err(AppError::unprocessable(e.message().as_str()));
        },
        Ok(()) => {},
    }
    let mut i: usize = 0;
    while i < pipelines.len()
        invariant
            i <= pipelines.len(),
            pipelines@ == old(pipelines)@,
            validate_pipeline_result(name@, def) is None,
            pipeline_at(pipelines@, name@, 0) == pipeline_at(pipelines@, name@, i as int),
        decreases pipelines.len() - i,
    {
        if str_eq(pipelines[i].0.as_str(), name.as_str()) {
            pipelines.set(i, (name, def));
            return Ok(());
        }
        i += 1;
    }
    pipelines.push((name, def));
    Ok(())
}

/// The complaint about a pipeline definition, if any: it must have
/// distinct non-empty step ids, dependencies that name steps, and no cycle.
pub open spec fn validate_pipeline_result(name: Seq<char>, def: PipelineDef) -> Option<Seq<char>> {
    if crate::orchestration::dag::ids_valid(def.steps@) && crate::orchestration::dag::deps_resolve(def.steps@)
        && crate::orchestration::dag::acyclic(def.steps@) {
        None
    } else {
        Some("pipeline ["@ + name + "] 非法"@)
    }
}

/// Removes the pipeline named `name`; 404 when there is none.
pub fn remove_pipeline(pipelines: &mut Vec<(String, PipelineDef)>, name: &str) -> (r: Result<(), AppError>)
    ensures
        match pipeline_at(old(pipelines)@, name@, 0) {
            Some(j) => r is Ok && final(pipelines)@ == old(pipelines)@.remove(j),
            None => r matches Err(e) && e.status == 404 && e.message@ == "pipeline 不存在: "@ + name@
                && final(pipelines)@ == old(pipelines)@,
        },
{
    let mut i: usize = 0;
    while i < pipelines.len()
        invariant
            i <= pipelines.len(),
            pipelines@ == old(pipelines)@,
            pipeline_at(pipelines@, name@, 0) == pipeline_at(pipelines@, name@, i as int),
        decreases pipelines.len() - i,
    {
        if str_eq(pipelines[i].0.as_str(), name) {
            pipelines.remove(i);
            return Ok(());
        }
        i += 1;
    }
    Err(AppError::not_found(concat2("pipeline 不存在: ", name).as_str()))
}

/// The text of an uploaded script; 400 when it is not UTF-8.
pub fn script_text(body: Vec<u8>) -> (r: Result<String, AppError>)
    ensures
        match r {
            Ok(s) => vstd::utf8::valid_utf8(body@) && s@ == vstd::utf8::decode_utf8(body@),
            Err(e) => !vstd::utf8::valid_utf8(body@) && e.status == 400 && e.message@ == "脚本必须为 UTF-8 文本"@,
        },
{
    match string_from_utf8(body) {
        Some(s) => Ok(s),
        None => Err(AppError::bad_request("脚本必须为 UTF-8 文本")),
    }
}

/// The script an evaluation runs: the one given, else the one stored under
/// its name; 404 when neither is there.
pub fn eval_script_text(given: Option<String>, stored: Option<&String>, name: &str) -> (r: Result<String, AppError>)
    ensures
        match given {
            Some(s) => r == Ok::<String, AppError>(s),
            None => match stored {
                Some(s) => r matches Ok(t) && t@ == s@,
                None => r matches Err(e) && e.status == 404 && e.message@ == "脚本不存在: "@ + name@,
            },
        },
{
    match given {
        Some(s) => Ok(s),
        None => match stored {
            Some(s) => Ok(s.clone()),
            None => Err(AppError::not_found(concat2("脚本不存在: ", name).as_str())),
        },
    }
}

/// What a script evaluation runs on.
#[derive(Debug)]
pub enum EvalInputs {
    /// The merged object, and whether a session or an environment object
    /// went into it.
    Merged { inputs: Value, session_injected: bool, env_injected: bool },
    /// Inputs that are neither an object nor null, passed on as they are.
    Raw(Value),
}

/// The members of a value if it is an object.
pub open spec fn members(v: Option<Value>) -> Seq<(String, Value)> {
    match v {
        Some(Value::Object(es)) => es@,
        _ => Seq::empty(),
    }
}

/// The merged inputs of an evaluation: the session's members, then the
/// environment's, then the explicit inputs', each later one overriding.
pub open spec fn eval_merge_spec(inputs: Value, session: Option<Value>, env: Option<Value>) -> Seq<(Seq<char>, Json)> {
    defaults_spec(defaults_spec(defaults_spec(Seq::empty(), members(session)), members(env)), members(Some(inputs)))
}

/// Gathers what an evaluation runs on: explicit inputs that are neither an
/// object nor null go on as they are; otherwise the session object, the
/// environment object and the input object are merged, later overriding earlier.
pub fn eval_inputs(inputs: Value, session: Option<Value>, env: Option<Value>) -> (r: EvalInputs)
    ensures
        match inputs {
            Value::Object(_) | Value::Null => r matches EvalInputs::Merged { inputs: m, session_injected, env_injected }
                && m.model() == Json::Object(eval_merge_spec(inputs, session, env))
                && session_injected == (session matches Some(Value::Object(_)))
                && env_injected == (env matches Some(Value::Object(_))),
            _ => r matches EvalInputs::Raw(v) && v.model() == inputs.model(),
        },
{
    match &inputs {
        Value::Object(_) | Value::Null => {},
        _ => {
            return EvalInputs::Raw(inputs);
        },
    }
    let mut out: Vec<(String, Value)> = Vec::new();
    assert(entry_models(out@) =~= Seq::<(Seq<char>, Json)>::empty());
    let mut session_injected = false;
    let mut env_injected = false;
    match &session {
        Some(Value::Object(es)) => {
            apply_entries(&mut out, es);
            session_injected = true;
        },
        _ => {},
    }
    match &env {
        Some(Value::Object(es)) => {
            apply_entries(&mut out, es);
            env_injected = true;
        },
        _ => {},
    }
    match &inputs {
        Value::Object(es) => apply_entries(&mut out, es),
        _ => {},
    }
    EvalInputs::Merged { inputs: Value::Object(out), session_injected, env_injected }
}

/// In an evaluation, a key takes its value from the explicit inputs when
/// they hold it, else from the environment, else from the session.
pub proof fn law_eval_input_priority(inputs: Value, session: Option<Value>, env: Option<Value>, k: Seq<char>)
    ensures
        get_entry(eval_merge_spec(inputs, session, env), k) == or_else(
            default_value(members(Some(inputs)), k),
            or_else(default_value(members(env), k), default_value(members(session), k)),
        ),
{
    let e0 = Seq::<(Seq<char>, Json)>::empty();
    let s = defaults_spec(e0, members(session));
    let e = defaults_spec(s, members(env));
    lemma_defaults_spec(e0, members(session), k);
    lemma_defaults_spec(s, members(env), k);
    lemma_defaults_spec(e, members(Some(inputs)), k);
    assert(get_entry(e0, k) is None);
}

/// The answer of an evaluation: its result, and which simulated sources went in.
pub open spec fn eval_response_spec(result: Json, session_injected: bool, env_injected: bool) -> Json {
    Json::Object(
        seq![
            ("result"@, result),
            (
                "debug"@,
                Json::Object(
                    seq![("session_injected"@, Json::Bool(session_injected)), ("env_injected"@, Json::Bool(env_injected))],
                ),
            ),
        ],
    )
}

/// Assembles the answer of an evaluation.
pub fn eval_response(result: Value, session_injected: bool, env_injected: bool) -> (v: Value)
    ensures
        v.model() == eval_response_spec(result.model(), session_injected, env_injected),
{
    let ghost rm = result.model();
    let mut debug: Vec<(String, Value)> = Vec::new();
    debug.push(("session_injected".to_owned(), Value::Bool(session_injected)));
    debug.push(("env_injected".to_owned(), Value::Bool(env_injected)));
    proof {
        lemma_entry_models(debug@);
    }
    let debug_value = Value::Object(debug);
    assert(debug_value.model() == Json::Object(
        seq![("session_injected"@, Json::Bool(session_injected)), ("env_injected"@, Json::Bool(env_injected))],
    )) by {
        assert(entry_models(debug@) =~= seq![("session_injected"@, Json::Bool(session_injected)), ("env_injected"@, Json::Bool(env_injected))]);
    }
    let mut es: Vec<(String, Value)> = Vec::new();
    es.push(("result".to_owned(), result));
    es.push(("debug".to_owned(), debug_value));
    proof {
        lemma_entry_models(es@);
    }
    let v = Value::Object(es);
    assert(entry_models(es@) =~= eval_response_spec(rm, session_injected, env_injected)->Object_0);
    v
}

/// The first route, from position `i` on, whose path is empty.
pub open spec fn empty_path_at(routes: Seq<RouteDef>, i: int) -> Option<int>
    decreases routes.len() - i,
{
    if i < 0 || i >= routes.len() {
        None
    } else if routes[i].path@.len() == 0 {
        Some(i)
    } else {
        empty_path_at(routes, i + 1)
    }
}

/// Checks a full replacement of the routes: each needs a path; the first
/// without one is refused with 400, naming its position.
pub fn check_route_paths(routes: &Vec<RouteDef>) -> (r: Result<(), AppError>)
    ensures
        match empty_path_at(routes@, 0) {
            Some(i) => r matches Err(e) && e.status == 400 && e.message@ == "routes["@ + decimal_text(i as nat)
                + "].path 不能为空"@,
            None => r is Ok,
        },
{
    let mut i: usize = 0;
    while i < routes.len()
        invariant
            i <= routes.len(),
            empty_path_at(routes@, 0) == empty_path_at(routes@, i as int),
        decreases routes.len() - i,
    {
        if chars_of(routes[i].path.as_str()).len() == 0 {
            let mut msg = concat2("routes[", format_u64(i as u64).as_str());
            push_str(&mut msg, "].path 不能为空");
            return Err(AppError::bad_request(msg.as_str()));
        }
        i += 1;
    }
    Ok(())
}

/// The route kinds the admin UI offers.
pub open spec fn route_types_spec() -> Json {
    Json::Object(
        seq![
            (
                "types"@,
                Json::Array(seq![Json::Str("proxy"@), Json::Str("pipeline"@), Json::Str("script"@), Json::Str("static"@)]),
            ),
        ],
    )
}

/// The list of route kinds: `{"types": ["proxy", "pipeline", "script", "static"]}`.
pub fn route_types() -> (v: Value)
    ensures
        v.model() == route_types_spec(),
{
    let mut items: Vec<Value> = Vec::new();
    items.push(Value::String("proxy".to_owned()));
    items.push(Value::String("pipeline".to_owned()));
    items.push(Value::String("script".to_owned()));
    items.push(Value::String("static".to_owned()));
    proof {
        crate::utils::json::lemma_models(items@);
    }
    let arr = Value::Array(items);
    assert(crate::utils::json::models(items@) =~= seq![Json::Str("proxy"@), Json::Str("pipeline"@), Json::Str("script"@), Json::Str("static"@)]);
    let mut es: Vec<(String, Value)> = Vec::new();
    es.push(("types".to_owned(), arr));
    proof {
        lemma_entry_models(es@);
    }
    let v = Value::Object(es);
    assert(entry_models(es@) =~= route_types_spec()->Object_0);
    v
}

/// A short status answer: `{"status": status}`, with `"name": name` when given.
pub open spec fn status_body_spec(status: Seq<char>, name: Option<Seq<char>>) -> Json {
    Json::Object(
        match name {
            Some(n) => seq![("status"@, Json::Str(status)), ("name"@, Json::Str(n))],
            None => seq![("status"@, Json::Str(status))],
        },
    )
}

/// A short status answer of an admin endpoint.
pub fn status_body(status: &str, name: Option<&str>) -> (v: Value)
    ensures
        v.model() == status_body_spec(
            status@,
            match name {
                Some(n) => Some(n@),
                None => None,
            },
        ),
{
    let mut es: Vec<(String, Value)> = Vec::new();
    es.push(("status".to_owned(), Value::String(status.to_owned())));
    match name {
        Some(n) => es.push(("name".to_owned(), Value::String(n.to_owned()))),
        None => {},
    }
    proof {
        lemma_entry_models(es@);
    }
    let v = Value::Object(es);
    assert(entry_models(es@) =~= status_body_spec(
        status@,
        match name {
            Some(n) => Some(n@),
            None => None,
        },
    )->Object_0);
    v
}

} // verus!
