//! The decisions of the admin runtime endpoints: the parameters of a
//! pipeline test run, the per-step details it reports, the body and the
//! whole answer it gives, its timeout, and the answer to revoking a session.
use crate::config::{PipelineDef, StepType};
use crate::orchestration::dag::{dag_error_text, DagError};
use crate::orchestration::executor::{find_last_script, last_script, result_index, result_pos};
use crate::orchestration::step::{script_inputs, script_inputs_spec, StepOutput};
use crate::server::route_dispatcher::{string_params, value_text};
use crate::utils::error::AppError;
use crate::utils::json::{entry_models, lemma_entry_models, Json, Value};
use crate::utils::pairs::pair_views;
use crate::utils::text::{concat2, decimal_text, format_u64, str_eq};
use crate::utils::time::Duration;
use vstd::prelude::*;

verus! {

/// Some pair has key `k`.
pub open spec fn has_key(ps: Seq<(Seq<char>, Seq<char>)>, k: Seq<char>) -> bool {
    exists|i: int| 0 <= i < ps.len() && (#[trigger] ps[i]).0 == k
}

/// `ps` with each pair of `more` added, in order, whose key it does not
/// hold yet (a map's `entry(k).or_insert(v)`).
pub open spec fn add_missing(ps: Seq<(Seq<char>, Seq<char>)>, more: Seq<(Seq<char>, Seq<char>)>) -> Seq<
    (Seq<char>, Seq<char>),
>
    decreases more.len(),
{
    if more.len() == 0 {
        ps
    } else {
        let next = if has_key(ps, more[0].0) {
            ps
        } else {
            ps.push(more[0])
        };
        add_missing(next, more.drop_first())
    }
}

/// The text members of a simulated session or environment: those of an
/// object, nothing otherwise.
pub open spec fn object_params(j: Option<Json>) -> Seq<(Seq<char>, Seq<char>)> {
    match j {
        Some(Json::Object(es)) => string_params(Json::Object(es)),
        _ => Seq::empty(),
    }
}

/// The parameters of a test run: those given, then the simulated
/// session's members, then the environment's, each only under a name not
/// taken yet.
pub open spec fn test_params_spec(params: Seq<(Seq<char>, Seq<char>)>, session: Option<Json>, env: Option<Json>) -> Seq<
    (Seq<char>, Seq<char>),
> {
    add_missing(add_missing(params, object_params(session)), object_params(env))
}

/// The value of the first pair with key `k`.
pub open spec fn first_value(ps: Seq<(Seq<char>, Seq<char>)>, k: Seq<char>) -> Option<Seq<char>>
    decreases ps.len(),
{
    if ps.len() == 0 {
        None
    } else if ps[0].0 == k {
        Some(ps[0].1)
    } else {
        first_value(ps.drop_first(), k)
    }
}

proof fn lemma_first_value_has_key(ps: Seq<(Seq<char>, Seq<char>)>, k: Seq<char>)
    ensures
        (first_value(ps, k) is Some) == has_key(ps, k),
    decreases ps.len(),
{
    if ps.len() > 0 {
        lemma_first_value_has_key(ps.drop_first(), k);
        if has_key(ps, k) && ps[0].0 != k {
            let i = choose|i: int| 0 <= i < ps.len() && (#[trigger] ps[i]).0 == k;
            assert(ps.drop_first()[i - 1].0 == k);
        }
        if has_key(ps.drop_first(), k) {
            let i = choose|i: int| 0 <= i < ps.drop_first().len() && (#[trigger] ps.drop_first()[i]).0 == k;
            assert(ps[i + 1].0 == k);
        }
    }
}

proof fn lemma_first_value_push(ps: Seq<(Seq<char>, Seq<char>)>, x: (Seq<char>, Seq<char>), k: Seq<char>)
    ensures
        first_value(ps.push(x), k) == match first_value(ps, k) {
            Some(v) => Some(v),
            None => if x.0 == k {
                Some(x.1)
            } else {
                None
            },
        },
    decreases ps.len(),
{
    if ps.len() > 0 {
        assert(ps.push(x).drop_first() =~= ps.drop_first().push(x));
        assert(ps.push(x)[0] == ps[0]);
        lemma_first_value_push(ps.drop_first(), x, k);
    } else {
        assert(ps.push(x).drop_first() =~= Seq::<(Seq<char>, Seq<char>)>::empty());
        assert(first_value(ps.push(x).drop_first(), k) is None);
        assert(ps.push(x)[0] == x);
    }
}

proof fn lemma_add_missing(ps: Seq<(Seq<char>, Seq<char>)>, more: Seq<(Seq<char>, Seq<char>)>, k: Seq<char>)
    ensures
        first_value(add_missing(ps, more), k) == match first_value(ps, k) {
            Some(v) => Some(v),
            None => first_value(more, k),
        },
    decreases more.len(),
{
    if more.len() > 0 {
        let next = if has_key(ps, more[0].0) {
            ps
        } else {
            ps.push(more[0])
        };
        lemma_add_missing(next, more.drop_first(), k);
        lemma_first_value_has_key(ps, more[0].0);
        lemma_first_value_has_key(ps, k);
        if !has_key(ps, more[0].0) {
            lemma_first_value_push(ps, more[0], k);
        } else if more[0].0 == k {
            assert(first_value(ps, k) is Some);
        }
    }
}

/// A test run reads a parameter from what was given first, then from the
/// simulated session, then from the environment: what is given explicitly
/// is never overridden.
pub proof fn law_test_params_priority(
    params: Seq<(Seq<char>, Seq<char>)>,
    session: Option<Json>,
    env: Option<Json>,
    k: Seq<char>,
)
    ensures
        first_value(test_params_spec(params, session, env), k) == match first_value(params, k) {
            Some(v) => Some(v),
            None => match first_value(object_params(session), k) {
                Some(v) => Some(v),
                None => first_value(object_params(env), k),
            },
        },
{
    lemma_add_missing(params, object_params(session), k);
    lemma_add_missing(add_missing(params, object_params(session)), object_params(env), k);
}

fn holds_key(ps: &Vec<(String, String)>, k: &str) -> (b: bool)
    ensures
        b == has_key(pair_views(ps@), k@),
{
    let mut i: usize = 0;
    while i < ps.len()
        invariant
            i <= ps.len(),
            forall|j: int| 0 <= j < i ==> (#[trigger] pair_views(ps@)[j]).0 != k@,
        decreases ps.len() - i,
    {
        if str_eq(ps[i].0.as_str(), k) {
            assert(pair_views(ps@)[i as int].0 == k@);
            return true;
        }
        i += 1;
    }
    false
}

/// Adds the text members of an object that `out` does not hold yet.
fn add_object_members(out: &mut Vec<(String, String)>, v: &Value)
    ensures
        pair_views(final(out)@) == add_missing(pair_views(old(out)@), object_params(Some(v.model()))),
{
    match v {
        Value::Object(entries) => {
            proof {
                lemma_entry_models(entries@);
            }
            let ghost es = entry_models(entries@);
            let ghost more = string_params(v.model());
            assert(more =~= es.map_values(|e: (Seq<char>, Json)| (e.0, crate::server::route_dispatcher::text_of(e.1))));
            assert(more.subrange(0, more.len() as int) =~= more);
            let mut i: usize = 0;
            while i < entries.len()
                invariant
                    i <= entries.len(),
                    es == entry_models(entries@),
                    es.len() == entries.len(),
                    more.len() == entries.len(),
                    forall|j: int| 0 <= j < entries.len() ==> #[trigger] es[j] == (entries@[j].0@, entries@[j].1.model()),
                    forall|j: int| 0 <= j < entries.len() ==> #[trigger] more[j] == (es[j].0, crate::server::route_dispatcher::text_of(es[j].1)),
                    add_missing(pair_views(out@), more.subrange(i as int, more.len() as int)) == add_missing(
                        pair_views(old(out)@),
                        more,
                    ),
                decreases entries.len() - i,
            {
                let ghost rest = more.subrange(i as int, more.len() as int);
                assert(rest.drop_first() =~= more.subrange(i + 1, more.len() as int));
                let key = entries[i].0.as_str();
                if !holds_key(out, key) {
                    let ghost before = out@;
                    let t = value_text(&entries[i].1);
                    out.push((entries[i].0.clone(), t));
                    assert(pair_views(out@) =~= pair_views(before).push(rest[0]));
                }
                i += 1;
            }
            assert(more.subrange(entries.len() as int, more.len() as int) =~= Seq::<(Seq<char>, Seq<char>)>::empty());
        },
        _ => {},
    }
}

/// The parameters of a pipeline test run (those given, then the simulated
/// session's members, then the environment's, none overriding a name
/// already there) and whether a session was simulated: a session object.
pub fn test_params(params: &Vec<(String, String)>, session: &Option<Value>, env: &Option<Value>) -> (r: (
    Vec<(String, String)>,
    bool,
))
    ensures
        pair_views(r.0@) == test_params_spec(
            pair_views(params@),
            match session {
                Some(s) => Some(s.model()),
                None => None,
            },
            match env {
                Some(e) => Some(e.model()),
                None => None,
            },
        ),
        r.1 == (session matches Some(s) && s is Object),
{
    let mut out: Vec<(String, String)> = Vec::new();
    let mut i: usize = 0;
    while i < params.len()
        invariant
            i <= params.len(),
            out@ == params@.take(i as int),
        decreases params.len() - i,
    {
        out.push((params[i].0.clone(), params[i].1.clone()));
        assert(out@ =~= params@.take(i + 1));
        i += 1;
    }
    assert(params@.take(params.len() as int) =~= params@);
    let mut injected = false;
    match session {
        Some(s) => {
            add_object_members(&mut out, s);
            injected = s.is_object();
        },
        None => {},
    }
    match env {
        Some(e) => add_object_members(&mut out, e),
        None => {},
    }
    (out, injected)
}

impl Value {
    /// Whether this value is an object.
    pub fn is_object(&self) -> (b: bool)
        ensures
            b == (*self is Object),
    {
        match self {
            Value::Object(_) => true,
            _ => false,
        }
    }
}

/// The answer to a test run of a pipeline that does not layer: 422 with
/// the reason.
pub fn layering_error(e: &DagError) -> (r: AppError)
    ensures
        r.status == 422,
        r.message@ == "pipeline 定义非法: "@ + dag_error_text(*e),
{
    AppError::unprocessable(concat2("pipeline 定义非法: ", e.message().as_str()).as_str())
}

/// A step in a test run counts as skipped when the run is dry and the step
/// is an HTTP request.
pub fn marks_dry_run(dry_run: bool, step_type: StepType) -> (b: bool)
    ensures
        b == (dry_run && step_type == StepType::HttpRequest),
{
    dry_run && step_type == StepType::HttpRequest
}

/// The detail a test run reports of a step: its id, status and duration,
/// and `dry_run: true` when it was skipped.
pub open spec fn step_detail_spec(id: Seq<char>, status: u16, duration_ms: u64, dry_run: bool) -> Json {
    let base = seq![
        ("id"@, Json::Str(id)),
        ("status"@, Json::Number(decimal_text(status as nat))),
        ("duration_ms"@, Json::Number(decimal_text(duration_ms as nat))),
    ];
    Json::Object(
        if dry_run {
            base.push(("dry_run"@, Json::Bool(true)))
        } else {
            base
        },
    )
}

/// The detail of one step of a test run.
pub fn step_detail(id: &str, status: u16, duration_ms: u64, dry_run: bool) -> (v: Value)
    ensures
        v.model() == step_detail_spec(id@, status, duration_ms, dry_run),
{
    let mut es: Vec<(String, Value)> = Vec::new();
    es.push(("id".to_owned(), Value::String(id.to_owned())));
    es.push(("status".to_owned(), Value::Number(format_u64(status as u64))));
    es.push(("duration_ms".to_owned(), Value::Number(format_u64(duration_ms))));
    if dry_run {
        es.push(("dry_run".to_owned(), Value::Bool(true)));
    }
    proof {
        lemma_entry_models(es@);
    }
    let v = Value::Object(es);
    assert(v.model() == Json::Object(entry_models(es@)));
    assert(entry_models(es@) =~= (if dry_run {
        seq![
            ("id"@, Json::Str(id@)),
            ("status"@, Json::Number(decimal_text(status as nat))),
            ("duration_ms"@, Json::Number(decimal_text(duration_ms as nat))),
        ].push(("dry_run"@, Json::Bool(true)))
    } else {
        seq![
            ("id"@, Json::Str(id@)),
            ("status"@, Json::Number(decimal_text(status as nat))),
            ("duration_ms"@, Json::Number(decimal_text(duration_ms as nat))),
        ]
    }));
    v
}

/// The body a test run answers with: the output body of the pipeline's
/// last script step when it ran, else every output, as `{status, body}`,
/// under its step id.
pub open spec fn test_body_spec(def: PipelineDef, results: Seq<(String, StepOutput)>) -> Json {
    match last_script(def.steps@) {
        Some(i) => match result_pos(results, def.steps@[i].id@, 0) {
            Some(j) => results[j].1.body.model(),
            None => Json::Object(script_inputs_spec(results, Seq::empty())),
        },
        None => Json::Object(script_inputs_spec(results, Seq::empty())),
    }
}

/// The body of a test run.
pub fn test_body(def: &PipelineDef, results: &Vec<(String, StepOutput)>) -> (v: Value)
    ensures
        v.model() == test_body_spec(*def, results@),
{
    let found: Option<usize> = match find_last_script(&def.steps) {
        Some(i) => result_index(results, def.steps[i].id.as_str()),
        None => None,
    };
    match found {
        Some(j) => results[j].1.body.deep_copy(),
        None => {
            let none: Vec<(String, String)> = Vec::new();
            assert(none@ =~= Seq::<(String, String)>::empty());
            script_inputs(results, &none)
        },
    }
}

/// The answer of a test run.
pub open spec fn test_response_spec(body: Json, steps: Seq<Json>, total_ms: u64, injected: bool) -> Json {
    Json::Object(
        seq![
            ("status"@, Json::Number(decimal_text(200))),
            ("body"@, body),
            ("steps"@, Json::Array(steps)),
            ("total_duration_ms"@, Json::Number(decimal_text(total_ms as nat))),
            ("session_injected"@, Json::Bool(injected)),
        ],
    )
}

/// Assembles the answer of a test run from its body, the step details,
/// the total duration and whether a session was simulated.
pub fn test_response(body: Value, steps: Vec<Value>, total_ms: u64, injected: bool) -> (v: Value)
    ensures
        v.model() == test_response_spec(body.model(), crate::utils::json::models(steps@), total_ms, injected),
{
    let ghost bm = body.model();
    let ghost sm = crate::utils::json::models(steps@);
    let steps_value = Value::Array(steps);
    assert(steps_value.model() == Json::Array(sm));
    let mut es: Vec<(String, Value)> = Vec::new();
    es.push(("status".to_owned(), Value::Number(format_u64(200))));
    es.push(("body".to_owned(), body));
    es.push(("steps".to_owned(), steps_value));
    es.push(("total_duration_ms".to_owned(), Value::Number(format_u64(total_ms))));
    es.push(("session_injected".to_owned(), Value::Bool(injected)));
    proof {
        lemma_entry_models(es@);
    }
    let v = Value::Object(es);
    assert(entry_models(es@) =~= seq![
        ("status"@, Json::Number(decimal_text(200))),
        ("body"@, bm),
        ("steps"@, Json::Array(sm)),
        ("total_duration_ms"@, Json::Number(decimal_text(total_ms as nat))),
        ("session_injected"@, Json::Bool(injected)),
    ]);
    v
}

/// What `humantime::parse_duration` makes of a text: nanoseconds, or the
/// text of its error.
pub uninterp spec fn humantime_parse(text: Seq<char>) -> Result<int, Seq<char>>;

/// Parses a human-readable duration (`humantime::parse_duration`), giving
/// its error's text on failure. The grammar is humantime's, left to
/// `humantime_parse`.
#[verifier::external_body]
fn parse_human_duration(text: &str) -> (r: Result<Duration, String>)
    ensures
        match r {
            Ok(d) => humantime_parse(text@) == Ok::<int, Seq<char>>(d.spec_nanos()),
            Err(e) => humantime_parse(text@) == Err::<int, Seq<char>>(e@),
        },
{
    match humantime::parse_duration(text) {
        Ok(d) => Ok(Duration::from_nanos(d.as_nanos())),
        Err(e) => Err(e.to_string()),
    }
}

/// The time limit of a test run: the override when one is given (a
/// humantime text; 400 when it does not parse), else the pipeline's.
pub fn test_timeout(timeout_override: Option<&str>, def: &PipelineDef) -> (r: Result<Duration, AppError>)
    ensures
        match timeout_override {
            None => r == Ok::<Duration, AppError>(def.strategy.timeout),
            Some(t) => match humantime_parse(t@) {
                Ok(n) => r matches Ok(d) && d.spec_nanos() == n,
                Err(m) => r matches Err(e) && e.status == 400 && e.message@ == "非法超时值: "@ + m,
            },
        },
{
    match timeout_override {
        None => Ok(def.strategy.timeout),
        Some(t) => match parse_human_duration(t) {
            Ok(d) => Ok(d),
            Err(m) => Err(AppError::bad_request(concat2("非法超时值: ", m.as_str()).as_str())),
        },
    }
}

/// The answer to revoking a session: `{"status": "deleted"}` when it was
/// held, else 404.
pub fn session_deleted(removed: bool, session_id: &str) -> (r: Result<Value, AppError>)
    ensures
        removed ==> (r matches Ok(v) && v.model() == Json::Object(seq![("status"@, Json::Str("deleted"@))])),
        !removed ==> (r matches Err(e) && e.status == 404 && e.message@ == "会话不存在: "@ + session_id@),
{
    if removed {
        let mut es: Vec<(String, Value)> = Vec::new();
        es.push(("status".to_owned(), Value::String("deleted".to_owned())));
        proof {
            lemma_entry_models(es@);
        }
        let v = Value::Object(es);
        assert(entry_models(es@) =~= seq![("status"@, Json::Str("deleted"@))]);
        Ok(v)
    } else {
        Err(AppError::not_found(concat2("会话不存在: ", session_id).as_str()))
    }
}

} // verus!
