//! The bookkeeping of a pipeline run: the outputs and failures of its
//! steps as they finish, the fail-fast decision, and the answer the run
//! gives once every layer is done.
use crate::config::{PipelineDef, StepDef, StepType};
use crate::orchestration::step::StepOutput;
use crate::server::mapping::{ins, obj_insert};
use crate::utils::error::AppError;
use crate::utils::json::{entry_models, models, Json, Value};
use crate::utils::text::{concat2, contains_str, has_substring, push_str, str_eq};
use crate::utils::time::{nanos_per_sec, Duration};
use vstd::prelude::*;

verus! {

/// The error a failed step turns into: a timeout (a message mentioning
/// `超时`) is a gateway timeout, anything else a bad gateway.
pub fn classify_step_error(msg: &str) -> (e: AppError)
    ensures
        e.status == if has_substring(msg@, "超时"@) {
            504u16
        } else {
            502u16
        },
        e.message@ == msg@,
{
    if contains_str(msg, "超时") {
        AppError::gateway_timeout(msg)
    } else {
        AppError::bad_gateway(msg)
    }
}

/// The answer when a whole pipeline run outlasts its time limit: a gateway
/// timeout naming the pipeline and, when given, the limit's text.
pub fn pipeline_timeout_error(name: &str, limit: Option<&str>) -> (e: AppError)
    ensures
        e.status == 504,
        e.message@ == "pipeline ["@ + name@ + "] 整体超时"@ + match limit {
            Some(l) => "（"@ + l@ + "）"@,
            None => ""@,
        },
{
    proof {
        reveal_strlit("");
    }
    let mut m = concat2("pipeline [", name);
    push_str(&mut m, "] 整体超时");
    match limit {
        Some(l) => {
            push_str(&mut m, "（");
            push_str(&mut m, l);
            push_str(&mut m, "）");
        },
        None => {},
    }
    AppError::gateway_timeout(m.as_str())
}

/// The timeout of a step: its own, else the executor's default.
pub fn step_timeout(step: &StepDef, default_timeout: Duration) -> (d: Duration)
    ensures
        d == match step.config.timeout {
            Some(t) => t,
            None => default_timeout,
        },
{
    match &step.config.timeout {
        Some(t) => *t,
        None => default_timeout,
    }
}

/// The first position, from `i` on, of the output of step `id`.
pub open spec fn result_pos(rs: Seq<(String, StepOutput)>, id: Seq<char>, i: int) -> Option<int>
    decreases rs.len() - i,
{
    if i < 0 || i >= rs.len() {
        None
    } else if rs[i].0@ == id {
        Some(i)
    } else {
        result_pos(rs, id, i + 1)
    }
}

/// The position of the last script step of a pipeline.
pub open spec fn last_script(steps: Seq<StepDef>) -> Option<int>
    decreases steps.len(),
{
    if steps.len() == 0 {
        None
    } else if steps.last().step_type == StepType::Script {
        Some(steps.len() - 1)
    } else {
        last_script(steps.drop_last())
    }
}

/// The aggregate of a run without a script answer: each output's body under
/// its step id, and, when steps failed, their ids under `_failed_steps`
/// with `_partial` set.
pub open spec fn aggregate_spec(results: Seq<(String, StepOutput)>, failed: Seq<String>) -> Seq<(Seq<char>, Json)>
    decreases results.len(),
{
    if results.len() == 0 {
        if failed.len() == 0 {
            Seq::empty()
        } else {
            ins(
                ins(
                    Seq::empty(),
                    "_failed_steps"@,
                    Json::Array(failed.map_values(|f: String| Json::Str(f@))),
                ),
                "_partial"@,
                Json::Bool(true),
            )
        }
    } else {
        let prev = aggregate_spec(results.drop_last(), Seq::empty());
        let with_last = ins(prev, results.last().0@, results.last().1.body.model());
        if failed.len() == 0 {
            with_last
        } else {
            ins(
                ins(with_last, "_failed_steps"@, Json::Array(failed.map_values(|f: String| Json::Str(f@)))),
                "_partial"@,
                Json::Bool(true),
            )
        }
    }
}

/// The answer of a finished run: the output of the last script step of
/// the pipeline if it has one, else the aggregate with status 200. A status
/// outside 100..=999 is answered as 200.
pub open spec fn finish_spec(steps: Seq<StepDef>, results: Seq<(String, StepOutput)>, failed: Seq<String>) -> (Json, u16) {
    let (body, status) = match last_script(steps) {
        Some(i) => match result_pos(results, steps[i].id@, 0) {
            Some(j) => (results[j].1.body.model(), results[j].1.status),
            None => (Json::Object(aggregate_spec(results, failed)), 200u16),
        },
        None => (Json::Object(aggregate_spec(results, failed)), 200u16),
    };
    (body, if 100 <= status <= 999 { status } else { 200u16 })
}

/// The answer of a pipeline run.
#[derive(Debug)]
pub struct PipelineResult {
    pub body: Value,
    pub status: u16,
    /// The steps that failed (under the continue strategy).
    pub failed_steps: Vec<String>,
}

/// A pipeline run in progress.
#[derive(Debug)]
pub struct PipelineRun {
    /// The outputs of the steps that succeeded, by step id.
    pub results: Vec<(String, StepOutput)>,
    /// The ids of the steps that failed, in order.
    pub failed: Vec<String>,
    /// Whether the first failure ends the run.
    pub fail_fast: bool,
}

impl PipelineRun {
    /// A run of `def` with nothing finished yet; it fails fast when the
    /// pipeline's error handling is `fail_fast`.
    pub fn new(def: &PipelineDef) -> (r: PipelineRun)
        ensures
            r.results@.len() == 0,
            r.failed@.len() == 0,
            r.fail_fast == (def.strategy.error_handling@ == "fail_fast"@),
    {
        PipelineRun {
            results: Vec::new(),
            failed: Vec::new(),
            fail_fast: str_eq(def.strategy.error_handling.as_str(), "fail_fast"),
        }
    }

    /// Records the output of a step that succeeded (replacing an earlier one of the same id).
    pub fn record_success(&mut self, id: String, out: StepOutput)
        ensures
            final(self).failed == old(self).failed,
            final(self).fail_fast == old(self).fail_fast,
            final(self).results@ == match result_pos(old(self).results@, id@, 0) {
                Some(j) => old(self).results@.update(j, (id, out)),
                None => old(self).results@.push((id, out)),
            },
    {
        let mut i: usize = 0;
        while i < self.results.len()
            invariant
                i <= self.results.len(),
                self.results@ == old(self).results@,
                self.failed == old(self).failed,
                self.fail_fast == old(self).fail_fast,
                result_pos(self.results@, id@, 0) == result_pos(self.results@, id@, i as int),
            decreases self.results.len() - i,
        {
            if str_eq(self.results[i].0.as_str(), id.as_str()) {
                self.results.set(i, (id, out));
                return;
            }
            i += 1;
        }
        self.results.push((id, out));
    }

    /// Records a failed step; under fail-fast the run ends with the step's
    /// error, classified.
    pub fn record_failure(&mut self, id: String, msg: &str) -> (r: Option<AppError>)
        ensures
            final(self).failed@ == old(self).failed@.push(id),
            final(self).results == old(self).results,
            final(self).fail_fast == old(self).fail_fast,
            match r {
                Some(e) => old(self).fail_fast && e.message@ == msg@ && e.status == if has_substring(
                    msg@,
                    "超时"@,
                ) {
                    504u16
                } else {
                    502u16
                },
                None => !old(self).fail_fast,
            },
    {
        self.failed.push(id);
        if self.fail_fast {
            Some(classify_step_error(msg))
        } else {
            None
        }
    }

    /// The answer of the run once every layer is done.
    pub fn finish(&self, def: &PipelineDef) -> (r: PipelineResult)
        ensures
            (r.body.model(), r.status) == finish_spec(def.steps@, self.results@, self.failed@),
            r.failed_steps@ == self.failed@,
    {
        let found: Option<usize> = match find_last_script(&def.steps) {
            Some(i) => result_index(&self.results, def.steps[i].id.as_str()),
            None => None,
        };
        let (body, status) = match found {
            Some(j) => (self.results[j].1.body.deep_copy(), self.results[j].1.status),
            None => (self.aggregate(), 200u16),
        };
        let status: u16 = if 100 <= status && status <= 999 {
            status
        } else {
            200
        };
        PipelineResult { body, status, failed_steps: clone_ids(&self.failed) }
    }

    fn aggregate(&self) -> (v: Value)
        ensures
            v.model() == Json::Object(aggregate_spec(self.results@, self.failed@)),
    {
        let mut es: Vec<(String, Value)> = Vec::new();
        assert(entry_models(es@) =~= Seq::<(Seq<char>, Json)>::empty());
        let mut i: usize = 0;
        while i < self.results.len()
            invariant
                i <= self.results.len(),
                entry_models(es@) == aggregate_spec(self.results@.take(i as int), Seq::empty()),
            decreases self.results.len() - i,
        {
            assert(self.results@.take(i + 1).drop_last() =~= self.results@.take(i as int));
            obj_insert(&mut es, self.results[i].0.clone(), self.results[i].1.body.deep_copy());
            i += 1;
        }
        assert(self.results@.take(self.results.len() as int) =~= self.results@);
        if self.failed.len() > 0 {
            let mut ids: Vec<Value> = Vec::new();
            let mut j: usize = 0;
            while j < self.failed.len()
                invariant
                    j <= self.failed.len(),
                    models(ids@) == self.failed@.take(j as int).map_values(|f: String| Json::Str(f@)),
                decreases self.failed.len() - j,
            {
                let ghost before = ids@;
                ids.push(Value::String(self.failed[j].clone()));
                proof {
                    crate::utils::json::lemma_models(before);
                    crate::utils::json::lemma_models(ids@);
                    assert(models(ids@) =~= models(before).push(Json::Str(self.failed@[j as int]@))) by {
                        assert forall|x: int| 0 <= x < ids@.len() implies #[trigger] models(ids@)[x]
                            == models(before).push(Json::Str(self.failed@[j as int]@))[x] by {
                            if x < before.len() {
                                assert(ids@[x] == before[x]);
                            }
                        }
                    }
                    assert(self.failed@.take(j + 1).map_values(|f: String| Json::Str(f@)) =~= self.failed@.take(
                        j as int,
                    ).map_values(|f: String| Json::Str(f@)).push(Json::Str(self.failed@[j as int]@)));
                }
                j += 1;
            }
            assert(self.failed@.take(self.failed.len() as int) =~= self.failed@);
            obj_insert(&mut es, "_failed_steps".to_owned(), Value::Array(ids));
            obj_insert(&mut es, "_partial".to_owned(), Value::Bool(true));
        }
        Value::Object(es)
    }
}

/// The position of the last script step among `steps`.
pub fn find_last_script(steps: &Vec<StepDef>) -> (r: Option<usize>)
    ensures
        match r {
            Some(i) => i < steps@.len() && last_script(steps@) == Some(i as int),
            None => last_script(steps@) is None,
        },
{
    let mut k: usize = steps.len();
    assert(steps@.take(k as int) =~= steps@);
    while k > 0
        invariant
            k <= steps.len(),
            last_script(steps@) == last_script(steps@.take(k as int)),
        decreases k,
    {
        assert(steps@.take(k as int).drop_last() =~= steps@.take(k - 1));
        if steps[k - 1].step_type == StepType::Script {
            return Some(k - 1);
        }
        k -= 1;
    }
    assert(steps@.take(0) =~= Seq::<StepDef>::empty());
    None
}

/// The position of the output of step `id` among `results`.
pub fn result_index(results: &Vec<(String, StepOutput)>, id: &str) -> (r: Option<usize>)
    ensures
        match r {
            Some(j) => j < results@.len() && result_pos(results@, id@, 0) == Some(j as int),
            None => result_pos(results@, id@, 0) is None,
        },
{
    let mut i: usize = 0;
    while i < results.len()
        invariant
            i <= results.len(),
            result_pos(results@, id@, 0) == result_pos(results@, id@, i as int),
        decreases results.len() - i,
    {
        if str_eq(results[i].0.as_str(), id) {
            return Some(i);
        }
        i += 1;
    }
    None
}

fn clone_ids(v: &Vec<String>) -> (r: Vec<String>)
    ensures
        r@ == v@,
{
    let mut r: Vec<String> = Vec::new();
    let mut i: usize = 0;
    while i < v.len()
        invariant
            i <= v.len(),
            r@ == v@.take(i as int),
        decreases v.len() - i,
    {
        r.push(v[i].clone());
        assert(r@ =~= v@.take(i + 1));
        i += 1;
    }
    assert(v@.take(v.len() as int) =~= v@);
    r
}

/// The script step whose output answers a run is the last script step of
/// the pipeline: it is a script step and no script step comes after it;
/// there is none exactly when the pipeline has no script step.
pub proof fn law_answer_from_last_script_step(steps: Seq<StepDef>)
    ensures
        match last_script(steps) {
            Some(i) => 0 <= i < steps.len() && steps[i].step_type == StepType::Script && forall|j: int|
                i < j < steps.len() ==> (#[trigger] steps[j]).step_type != StepType::Script,
            None => forall|j: int| 0 <= j < steps.len() ==> (#[trigger] steps[j]).step_type != StepType::Script,
        },
    decreases steps.len(),
{
    if steps.len() > 0 && steps.last().step_type != StepType::Script {
        let d = steps.drop_last();
        law_answer_from_last_script_step(d);
        assert forall|j: int| 0 <= j < d.len() implies #[trigger] steps[j] == d[j] by {}
        match last_script(d) {
            Some(i) => {
                assert forall|j: int| i < j < steps.len() implies (#[trigger] steps[j]).step_type != StepType::Script by {
                    if j < d.len() {
                        assert(steps[j] == d[j]);
                    }
                }
            },
            None => {
                assert forall|j: int| 0 <= j < steps.len() implies (#[trigger] steps[j]).step_type != StepType::Script by {
                    if j < d.len() {
                        assert(steps[j] == d[j]);
                    }
                }
            },
        }
    }
}

} // verus!
