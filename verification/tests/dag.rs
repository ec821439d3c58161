use bff::config::{PipelineDef, StepConfig, StepDef, StepType, StrategyDef};
use bff::orchestration::dag::{build_layers, validate_pipeline, DagError, PipelineError};

fn step(id: &str, deps: &[&str]) -> StepDef {
    StepDef {
        id: id.into(),
        step_type: StepType::Script,
        depends_on: deps.iter().map(|s| s.to_string()).collect(),
        config: StepConfig::default(),
    }
}

fn def(steps: Vec<StepDef>) -> PipelineDef {
    PipelineDef { strategy: StrategyDef::default(), steps }
}

#[test]
fn layers_parallel_roots() {
    let d = def(vec![step("a", &[]), step("b", &[]), step("c", &["a", "b"])]);
    let layers = build_layers(&d).unwrap();
    assert_eq!(layers.len(), 2);
    assert_eq!(layers[0].len(), 2);
    assert_eq!(layers[1], vec![2]);
}

#[test]
fn rejects_cycle() {
    let d = def(vec![step("a", &["b"]), step("b", &["a"])]);
    assert!(build_layers(&d).is_err());
}

#[test]
fn rejects_missing_dep() {
    let d = def(vec![step("a", &["nope"])]);
    assert!(build_layers(&d).is_err());
}

#[test]
fn layer_errors_name_the_step() {
    assert!(matches!(build_layers(&def(vec![step("", &[])])), Err(DagError::EmptyStepId)));
    assert!(matches!(build_layers(&def(vec![step("a", &[]), step("a", &[])])), Err(DagError::DuplicateStepId(x)) if x == "a"));
    assert!(matches!(
        build_layers(&def(vec![step("a", &["nope"])])),
        Err(DagError::MissingDependency { step, dep }) if step == "a" && dep == "nope"
    ));
    assert!(matches!(build_layers(&def(vec![step("a", &["a"])])), Err(DagError::Cycle)));
}

#[test]
fn chain_layers_one_by_one() {
    let d = def(vec![step("c", &["b"]), step("b", &["a"]), step("a", &[])]);
    let layers = build_layers(&d).unwrap();
    assert_eq!(layers, vec![vec![2], vec![1], vec![0]]);
}

#[test]
fn validate_pipeline_reports_name() {
    assert!(validate_pipeline("p", &def(vec![step("a", &[])])).is_ok());
    assert!(matches!(
        validate_pipeline("p", &def(vec![step("a", &["x"])])),
        Err(PipelineError::Invalid { pipeline, .. }) if pipeline == "p"
    ));
}
