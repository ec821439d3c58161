//! One pipeline step: the plan of an HTTP step (method, rendered URL,
//! headers and body, cache key, timeout), the answer of a step in dry-run
//! mode, the inputs a script step sees, and when an HTTP answer is cached.
use crate::config::StepConfig;
use crate::server::mapping::{ins, obj_insert};
use crate::utils::json::{entry_models, Json, Value};
use crate::utils::template::{render, render_spec};
use crate::utils::text::{concat2, push_char, push_str};
use crate::utils::time::{nanos_per_sec, Duration};
use vstd::prelude::*;

verus! {

/// What a step produced: an HTTP status and a JSON body.
#[derive(Debug, Clone)]
pub struct StepOutput {
    pub status: u16,
    pub body: Value,
}

/// The Unicode upper-casing of a text.
pub uninterp spec fn unicode_upper(s: Seq<char>) -> Seq<char>;

/// Unicode upper-casing (`str::to_uppercase`). The mapping is named, not described.
#[verifier::external_body]
fn to_uppercase(s: &str) -> (r: String)
    ensures
        r@ == unicode_upper(s@),
{
    s.to_uppercase()
}

/// The request an HTTP step makes.
#[derive(Debug, Clone)]
pub struct HttpStepPlan {
    /// The method, upper-cased.
    pub method: String,
    /// The URL template rendered with the step parameters.
    pub url: String,
    /// The key the answer is cached under.
    pub cache_key: String,
    /// The headers, each value rendered with the parameters.
    pub headers: Vec<(String, String)>,
    /// The body, rendered with the parameters (sent as JSON).
    pub body: Option<String>,
    /// How long to wait for the answer.
    pub timeout: Duration,
}

/// Headers with each value rendered.
pub open spec fn rendered_headers(hs: Seq<(String, String)>, params: Seq<(String, String)>) -> Seq<(Seq<char>, Seq<char>)> {
    hs.map_values(|h: (String, String)| (h.0@, render_spec(h.1@, params)))
}

/// The plan of an HTTP step with parameters `params`; a step without a URL
/// cannot run.
pub fn http_plan(config: &StepConfig, params: &Vec<(String, String)>) -> (r: Result<HttpStepPlan, String>)
    ensures
        match config.url {
            None => r matches Err(e) && e@ == "http_request 缺少 url"@,
            Some(tpl) => r matches Ok(p) && {
                &&& p.method@ == unicode_upper(config.method@)
                &&& p.url@ == render_spec(tpl@, params@)
                &&& p.cache_key@ == "pipeline:http:"@ + p.method@ + seq![':'] + p.url@
                &&& crate::utils::pairs::pair_views(p.headers@) == rendered_headers(config.headers@, params@)
                &&& match config.body {
                    Some(b) => p.body matches Some(x) && x@ == render_spec(b@, params@),
                    None => p.body is None,
                }
                &&& p.timeout.spec_nanos() == match config.timeout {
                    Some(t) => t.spec_nanos(),
                    None => 3 * nanos_per_sec(),
                }
            },
        },
{
    let tpl = match &config.url {
        Some(t) => t,
        None => {
            return Err("http_request 缺少 url".to_owned());
        },
    };
    let url = render(tpl.as_str(), params);
    let method = to_uppercase(config.method.as_str());
    let mut cache_key = concat2("pipeline:http:", method.as_str());
    push_char(&mut cache_key, ':');
    push_str(&mut cache_key, url.as_str());
    let mut headers: Vec<(String, String)> = Vec::new();
    let mut i: usize = 0;
    while i < config.headers.len()
        invariant
            i <= config.headers.len(),
            crate::utils::pairs::pair_views(headers@) == rendered_headers(
                config.headers@.take(i as int),
                params@,
            ),
        decreases config.headers.len() - i,
    {
        let ghost before = headers@;
        let v = render(config.headers[i].1.as_str(), params);
        headers.push((config.headers[i].0.clone(), v));
        assert(rendered_headers(config.headers@.take(i + 1), params@) =~= rendered_headers(
            config.headers@.take(i as int),
            params@,
        ).push((config.headers@[i as int].0@, render_spec(config.headers@[i as int].1@, params@))));
        assert(crate::utils::pairs::pair_views(headers@) =~= crate::utils::pairs::pair_views(before).push(
            (config.headers@[i as int].0@, render_spec(config.headers@[i as int].1@, params@)),
        ));
        i += 1;
    }
    assert(config.headers@.take(config.headers.len() as int) =~= config.headers@);
    let body = match &config.body {
        Some(b) => Some(render(b.as_str(), params)),
        None => None,
    };
    let timeout = match &config.timeout {
        Some(t) => *t,
        None => Duration::from_secs(3),
    };
    Ok(HttpStepPlan { method, url, cache_key, headers, body, timeout })
}

/// Whether an HTTP step's answer with `status` is cached: when the step has
/// a cache TTL and the status is a success (2xx).
pub fn caches_answer(config: &StepConfig, status: u16) -> (b: bool)
    ensures
        b == (config.cache_ttl is Some && 200 <= status < 300),
{
    config.cache_ttl.is_some() && 200 <= status && status < 300
}

/// The answer of an HTTP step in dry-run mode: `200 {"dry_run": true, "url": <url or null>}`.
pub fn dry_run_output(config: &StepConfig) -> (o: StepOutput)
    ensures
        o.status == 200,
        o.body.model() == Json::Object(
            ins(
                ins(Seq::empty(), "dry_run"@, Json::Bool(true)),
                "url"@,
                match config.url {
                    Some(u) => Json::Str(u@),
                    None => Json::Null,
                },
            ),
        ),
{
    let mut es: Vec<(String, Value)> = Vec::new();
    assert(entry_models(es@) =~= Seq::<(Seq<char>, Json)>::empty());
    obj_insert(&mut es, "dry_run".to_owned(), Value::Bool(true));
    let url = match &config.url {
        Some(u) => Value::String(u.clone()),
        None => Value::Null,
    };
    obj_insert(&mut es, "url".to_owned(), url);
    StepOutput { status: 200, body: Value::Object(es) }
}

/// The JSON form of a step output: `{"status": <status>, "body": <body>}`.
pub open spec fn output_json(status: u16, body: Json) -> Json {
    Json::Object(
        ins(
            ins(Seq::empty(), "status"@, Json::Number(crate::utils::text::decimal_text(status as nat))),
            "body"@,
            body,
        ),
    )
}

/// The inputs a script step sees: each finished step's output under its
/// id, then each parameter, as text, under its name unless a step of that
/// name already is there.
pub open spec fn script_inputs_spec(results: Seq<(String, StepOutput)>, params: Seq<(String, String)>) -> Seq<(Seq<char>, Json)>
    decreases results.len() + params.len(),
{
    if params.len() > 0 {
        let prev = script_inputs_spec(results, params.drop_last());
        if crate::server::mapping::key_pos(prev, params.last().0@, 0) is Some {
            prev
        } else {
            prev.push((params.last().0@, Json::Str(params.last().1@)))
        }
    } else if results.len() > 0 {
        let prev = script_inputs_spec(results.drop_last(), params);
        ins(prev, results.last().0@, output_json(results.last().1.status, results.last().1.body.model()))
    } else {
        Seq::empty()
    }
}

fn output_value(o: &StepOutput) -> (v: Value)
    ensures
        v.model() == output_json(o.status, o.body.model()),
{
    let mut es: Vec<(String, Value)> = Vec::new();
    assert(entry_models(es@) =~= Seq::<(Seq<char>, Json)>::empty());
    obj_insert(&mut es, "status".to_owned(), Value::Number(crate::utils::text::format_u64(o.status as u64)));
    obj_insert(&mut es, "body".to_owned(), o.body.deep_copy());
    Value::Object(es)
}

/// Builds the inputs of a script step from the outputs of the steps run so
/// far and the pipeline parameters.
pub fn script_inputs(results: &Vec<(String, StepOutput)>, params: &Vec<(String, String)>) -> (v: Value)
    ensures
        v.model() == Json::Object(script_inputs_spec(results@, params@)),
{
    let mut es: Vec<(String, Value)> = Vec::new();
    assert(entry_models(es@) =~= Seq::<(Seq<char>, Json)>::empty());
    let mut i: usize = 0;
    while i < results.len()
        invariant
            i <= results.len(),
            entry_models(es@) == script_inputs_spec(results@.take(i as int), Seq::empty()),
        decreases results.len() - i,
    {
        assert(results@.take(i + 1).drop_last() =~= results@.take(i as int));
        let v = output_value(&results[i].1);
        obj_insert(&mut es, results[i].0.clone(), v);
        i += 1;
    }
    assert(results@.take(results.len() as int) =~= results@);
    assert(params@.take(0) =~= Seq::<(String, String)>::empty());
    let mut j: usize = 0;
    while j < params.len()
        invariant
            j <= params.len(),
            entry_models(es@) == script_inputs_spec(results@, params@.take(j as int)),
        decreases params.len() - j,
    {
        assert(params@.take(j + 1).drop_last() =~= params@.take(j as int));
        if !has_key(&es, params[j].0.as_str()) {
            let ghost before = es@;
            es.push((params[j].0.clone(), Value::String(params[j].1.clone())));
            proof {
                crate::utils::json::lemma_entry_models(before);
                crate::utils::json::lemma_entry_models(es@);
                assert(entry_models(es@) =~= entry_models(before).push(
                    (params@[j as int].0@, Json::Str(params@[j as int].1@)),
                )) by {
                    assert forall|x: int| 0 <= x < es@.len() implies #[trigger] entry_models(es@)[x]
                        == entry_models(before).push((params@[j as int].0@, Json::Str(params@[j as int].1@)))[x] by {
                        if x < before.len() {
                            assert(es@[x] == before[x]);
                        }
                    }
                }
            }
        }
        j += 1;
    }
    assert(params@.take(params.len() as int) =~= params@);
    Value::Object(es)
}

/// Whether object entries hold the key `k`.
fn has_key(es: &Vec<(String, Value)>, k: &str) -> (b: bool)
    ensures
        b == crate::server::mapping::key_pos(entry_models(es@), k@, 0) is Some,
{
    proof {
        crate::utils::json::lemma_entry_models(es@);
    }
    let ghost m = entry_models(es@);
    let mut i: usize = 0;
    while i < es.len()
        invariant
            i <= es.len(),
            m == entry_models(es@),
            m.len() == es.len(),
            forall|j: int| 0 <= j < es.len() ==> #[trigger] m[j] == (es@[j].0@, es@[j].1.model()),
            crate::server::mapping::key_pos(m, k@, 0) == crate::server::mapping::key_pos(m, k@, i as int),
        decreases es.len() - i,
    {
        if crate::utils::text::str_eq(es[i].0.as_str(), k) {
            return true;
        }
        i += 1;
    }
    false
}

} // verus!
