use bff::config::{PipelineDef, StepConfig, StepDef, StepType, StrategyDef};
use bff::orchestration::executor::{
    classify_step_error, find_last_script, result_index, step_timeout, PipelineRun,
};
use bff::orchestration::step::{caches_answer, dry_run_output, http_plan, script_inputs, StepOutput};
use bff::utils::json::{to_json_text, Value};
use bff::utils::time::Duration;

fn s(t: &str) -> Value {
    Value::String(t.to_string())
}

fn step(id: &str, t: StepType) -> StepDef {
    StepDef { id: id.into(), step_type: t, depends_on: vec![], config: StepConfig::default() }
}

fn def(steps: Vec<StepDef>, handling: &str) -> PipelineDef {
    PipelineDef {
        strategy: StrategyDef { timeout: Duration::from_secs(10), error_handling: handling.into() },
        steps,
    }
}

fn params(p: &[(&str, &str)]) -> Vec<(String, String)> {
    p.iter().map(|(k, v)| (k.to_string(), v.to_string())).collect()
}

#[test]
fn http_step_plans() {
    let mut c = StepConfig::default();
    assert_eq!(http_plan(&c, &params(&[])).unwrap_err(), "http_request 缺少 url");
    c.url = Some("http://svc/users/{id}?q={q}".into());
    c.method = "post".into();
    c.headers = params(&[("x-user", "{id}")]);
    c.body = Some("id={id}".into());
    let p = http_plan(&c, &params(&[("id", "7"), ("q", "a b")])).unwrap();
    assert_eq!(p.method, "POST");
    assert_eq!(p.url, "http://svc/users/7?q=a%20b");
    assert_eq!(p.cache_key, "pipeline:http:POST:http://svc/users/7?q=a%20b");
    assert_eq!(p.headers, params(&[("x-user", "7")]));
    assert_eq!(p.body.as_deref(), Some("id=7"));
    assert_eq!(p.timeout.as_millis(), 3000);
    c.timeout = Some(Duration::from_millis(250));
    assert_eq!(http_plan(&c, &params(&[])).unwrap().timeout.as_millis(), 250);
    assert!(!caches_answer(&c, 200));
    c.cache_ttl = Some(Duration::from_secs(5));
    assert!(caches_answer(&c, 204) && !caches_answer(&c, 500));
    let d = dry_run_output(&c);
    assert_eq!((d.status, to_json_text(&d.body)), (200, r#"{"dry_run":true,"url":"http://svc/users/{id}?q={q}"}"#.to_string()));
}

#[test]
fn script_inputs_hold_outputs_then_params() {
    let results = vec![("a".to_string(), StepOutput { status: 200, body: s("x") })];
    let v = script_inputs(&results, &params(&[("a", "shadowed"), ("p", "1")]));
    assert_eq!(to_json_text(&v), r#"{"a":{"status":200,"body":"x"},"p":"1"}"#);
}

#[test]
fn step_errors_and_timeouts() {
    let e = classify_step_error("step [a] 超时");
    assert_eq!(e.status, 504);
    let e = classify_step_error("boom");
    assert_eq!((e.status, e.message.as_str()), (502, "boom"));
    let mut st = step("a", StepType::HttpRequest);
    assert_eq!(step_timeout(&st, Duration::from_secs(30)).as_millis(), 30_000);
    st.config.timeout = Some(Duration::from_secs(1));
    assert_eq!(step_timeout(&st, Duration::from_secs(30)).as_millis(), 1000);
}

#[test]
fn runs_answer_with_last_script_or_aggregate() {
    let d = def(vec![step("h", StepType::HttpRequest), step("s", StepType::Script), step("h2", StepType::HttpRequest)], "fail_fast");
    assert_eq!(find_last_script(&d.steps), Some(1));
    let mut run = PipelineRun::new(&d);
    assert!(run.fail_fast);
    run.record_success("h".into(), StepOutput { status: 200, body: s("first") });
    run.record_success("h".into(), StepOutput { status: 200, body: s("again") });
    assert_eq!(run.results.len(), 1);
    run.record_success("s".into(), StepOutput { status: 201, body: s("script") });
    assert_eq!(result_index(&run.results, "s"), Some(1));
    let r = run.finish(&d);
    assert_eq!((r.status, to_json_text(&r.body)), (201, r#""script""#.to_string()));
    let e = run.record_failure("h2".into(), "upstream 超时").unwrap();
    assert_eq!(e.status, 504);

    let only_http = def(vec![step("h", StepType::HttpRequest), step("g", StepType::HttpRequest)], "continue");
    let mut run = PipelineRun::new(&only_http);
    assert!(!run.fail_fast);
    run.record_success("h".into(), StepOutput { status: 200, body: s("x") });
    assert!(run.record_failure("g".into(), "boom").is_none());
    let r = run.finish(&only_http);
    assert_eq!(r.status, 200);
    assert_eq!(to_json_text(&r.body), r#"{"h":"x","_failed_steps":["g"],"_partial":true}"#);
    assert_eq!(r.failed_steps, vec!["g".to_string()]);
}

#[test]
fn whole_run_timeout_answer() {
    let e = bff::orchestration::executor::pipeline_timeout_error("p", None);
    assert_eq!((e.status, e.message.as_str()), (504, "pipeline [p] 整体超时"));
    let e = bff::orchestration::executor::pipeline_timeout_error("p", Some("30s"));
    assert_eq!(e.message, "pipeline [p] 整体超时（30s）");
}
