use bff::config::validate::ConfigIssue;
use bff::config::{AppConfig, BffSecretConfig, PipelineDef, RouteDef, RouteType, RouteTypeConfig, InputMapping, OutputMapping, StepConfig, StepDef, StepType, StrategyDef};
use bff::orchestration::dag::{build_layers, validate_pipeline, DagError, PipelineError};
use bff::utils::crypto::{init, CryptoError};

fn base() -> AppConfig {
    AppConfig::with_secret(BffSecretConfig {
        secret: "change-me-in-production".into(),
        salt: "default-salt-at-least-16-bytes".into(),
    })
}

fn step(id: &str, deps: &[&str]) -> StepDef {
    StepDef {
        id: id.into(),
        step_type: StepType::Script,
        depends_on: deps.iter().map(|d| d.to_string()).collect(),
        config: StepConfig::default(),
    }
}

fn def(steps: Vec<StepDef>) -> PipelineDef {
    PipelineDef { strategy: StrategyDef::default(), steps }
}

#[test]
fn config_issue_short_salt_names_length() {
    let mut c = base();
    c.bff_secret.salt = "short".into();
    let issue = c.validate().unwrap_err();
    assert_eq!(issue, ConfigIssue::ShortSalt);
    assert_eq!(issue.message(&c), "bff_secret.salt 长度不足（需要 ≥16 字节，当前 5 字节）");
}

#[test]
fn config_issue_fixed_texts() {
    let c = base();
    assert_eq!(ConfigIssue::EmptySecret.message(&c), "bff_secret.secret 不能为空");
    assert_eq!(ConfigIssue::PortConflict.message(&c), "业务端口与管理端口不能相同");
    assert_eq!(ConfigIssue::ZeroRateLimit.message(&c), "rate_limit.per_second 必须 > 0");
}

#[test]
fn config_issue_route_names_index_and_value() {
    let mut c = base();
    c.routes.push(RouteDef {
        path: "api".into(),
        methods: vec![],
        description: String::new(),
        auth_required: false,
        route_type: RouteType::Static,
        config: RouteTypeConfig::default(),
        input_mapping: InputMapping::default(),
        output_mapping: OutputMapping::default(),
    });
    let issue = c.validate().unwrap_err();
    assert_eq!(issue.message(&c), "routes[0] path 必须以 / 开头: api");
}

#[test]
fn crypto_error_texts() {
    assert_eq!(CryptoError::ShortSalt { bytes: 5 }.message(), "bff_secret.salt 长度不足（5 字节，需要 ≥16 字节）");
    assert_eq!(CryptoError::Decrypt.message(), "解密失败");
    let e = init("", "default-salt-at-least-16-bytes").unwrap_err();
    assert_eq!(e.message(), "bff_secret.secret 为空，拒绝使用弱密钥");
}

#[test]
fn dag_error_texts() {
    let e = build_layers(&def(vec![step("a", &["b"])])).unwrap_err();
    assert_eq!(e.message(), "step [a] 依赖了不存在的 step [b]");
    let e = build_layers(&def(vec![step("a", &["a"])])).unwrap_err();
    assert_eq!(e.message(), "pipeline 存在循环依赖");
    assert_eq!(DagError::DuplicateStepId("x".into()).message(), "step id 重复: x");
}

#[test]
fn pipeline_error_texts() {
    let e = validate_pipeline("p", &def(vec![step("a", &["x"])])).unwrap_err();
    assert_eq!(e.message(), "pipeline [p] 非法");
    // A pipeline without steps still layers (into one empty layer).
    assert!(validate_pipeline("q", &def(vec![])).is_ok());
    let e = PipelineError::Empty { pipeline: "q".into() };
    assert_eq!(e.message(), "pipeline [q] 没有任何 step");
}
