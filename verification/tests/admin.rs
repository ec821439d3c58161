use bff::admin::config_api::{
    check_route_paths, eval_inputs, eval_response, eval_script_text, extract_yaml, pipeline_name, remove_pipeline,
    route_types, script_text, status_body, store_pipeline, upsert_provider, EvalInputs,
};
use bff::admin::guard::{admin_authorized, mime_for, test_endpoint_blocked, ui_asset_path};
use bff::admin::runtime::{
    layering_error, marks_dry_run, session_deleted, step_detail, test_body, test_params, test_response, test_timeout,
};
use bff::config::{
    InputMapping, OidcProviderConfig, OutputMapping, PipelineDef, RouteDef, RouteType, RouteTypeConfig, StepConfig,
    StepDef, StepType, StrategyDef,
};
use bff::orchestration::dag::DagError;
use bff::orchestration::step::StepOutput;
use bff::utils::json::{to_json_text, Value};

fn s(t: &str) -> Value {
    Value::String(t.to_string())
}

fn obj(entries: Vec<(&str, Value)>) -> Value {
    Value::Object(entries.into_iter().map(|(k, v)| (k.to_string(), v)).collect())
}

fn text(v: &Value) -> String {
    to_json_text(v)
}

fn pairs(p: &[(&str, &str)]) -> Vec<(String, String)> {
    p.iter().map(|(k, v)| (k.to_string(), v.to_string())).collect()
}

fn step(id: &str, t: StepType, deps: &[&str]) -> StepDef {
    StepDef {
        id: id.into(),
        step_type: t,
        depends_on: deps.iter().map(|d| d.to_string()).collect(),
        config: StepConfig::default(),
    }
}

fn pipeline(steps: Vec<StepDef>) -> PipelineDef {
    PipelineDef { strategy: StrategyDef::default(), steps }
}

fn provider(id: &str, name: &str) -> OidcProviderConfig {
    OidcProviderConfig {
        id: id.into(),
        display_name: name.into(),
        issuer_url: "http://idp.example".into(),
        client_id: "bff".into(),
        client_secret: "s".into(),
        callback_path: "/auth/callback".into(),
        scopes: vec!["openid".into()],
        insecure_skip_id_token_verification: false,
        refresh_skew_secs: 60,
    }
}

fn route(path: &str) -> RouteDef {
    RouteDef {
        path: path.into(),
        methods: vec![],
        description: String::new(),
        auth_required: false,
        route_type: RouteType::Proxy,
        config: RouteTypeConfig::default(),
        input_mapping: InputMapping::default(),
        output_mapping: OutputMapping::default(),
    }
}

#[test]
fn raw_yaml_upload_is_the_body() {
    let r = extract_yaml("application/yaml", b"server:\n  business_port: 1\n".to_vec()).unwrap();
    assert_eq!(r, "server:\n  business_port: 1\n");
    let r = extract_yaml("", b"a: 1".to_vec()).unwrap();
    assert_eq!(r, "a: 1");
    let e = extract_yaml("text/plain", vec![0xff, 0xfe]).unwrap_err();
    assert_eq!((e.status, e.message.as_str()), (400, "body 非 UTF-8"));
}

#[test]
fn multipart_upload_takes_first_file_part() {
    let body = "--XYZ\r\nContent-Disposition: form-data; name=\"file\"; filename=\"c.yaml\"\r\n\r\nserver:\n  a: 1\r\n--XYZ--\r\n";
    let r = extract_yaml("multipart/form-data; boundary=XYZ", body.as_bytes().to_vec()).unwrap();
    // The content keeps the CR of its final CRLF: trailing CRs go first, then trailing LFs.
    assert_eq!(r, "server:\n  a: 1\r");
}

#[test]
fn multipart_upload_refusals() {
    let e = extract_yaml("multipart/form-data", b"x".to_vec()).unwrap_err();
    assert_eq!((e.status, e.message.as_str()), (400, "multipart 缺少 boundary"));
    let e = extract_yaml("multipart/form-data; boundary=B", vec![0xc3]).unwrap_err();
    assert_eq!((e.status, e.message.as_str()), (400, "body 非 UTF-8"));
    let e = extract_yaml("multipart/form-data; boundary=B", b"--B\r\nno blank line\r\n--B--".to_vec()).unwrap_err();
    assert_eq!((e.status, e.message.as_str()), (400, "multipart 中未找到文件内容"));
}

#[test]
fn provider_upsert_replaces_or_appends() {
    let mut ps = vec![provider("a", "A"), provider("b", "B")];
    upsert_provider(&mut ps, "b".into(), provider("ignored", "B2"));
    assert_eq!(ps.len(), 2);
    assert_eq!(ps[1].id, "b");
    assert_eq!(ps[1].display_name, "B2");
    upsert_provider(&mut ps, "c".into(), provider("x", "C"));
    assert_eq!(ps.len(), 3);
    assert_eq!(ps[2].id, "c");
}

#[test]
fn pipeline_creation_and_removal() {
    assert_eq!(pipeline_name(&pairs(&[("name", "p1")])).unwrap(), "p1");
    let e = pipeline_name(&pairs(&[("other", "x")])).unwrap_err();
    assert_eq!((e.status, e.message.as_str()), (400, "缺少 ?name="));

    let mut ps: Vec<(String, PipelineDef)> = Vec::new();
    store_pipeline(&mut ps, "p1".into(), pipeline(vec![step("a", StepType::Script, &[])])).unwrap();
    store_pipeline(&mut ps, "p1".into(), pipeline(vec![step("b", StepType::Script, &[])])).unwrap();
    assert_eq!(ps.len(), 1);
    assert_eq!(ps[0].1.steps[0].id, "b");
    let e = store_pipeline(&mut ps, "bad".into(), pipeline(vec![step("a", StepType::Script, &["a"])])).unwrap_err();
    assert_eq!((e.status, e.message.as_str()), (422, "pipeline [bad] 非法"));
    assert_eq!(ps.len(), 1);

    let e = remove_pipeline(&mut ps, "nope").unwrap_err();
    assert_eq!((e.status, e.message.as_str()), (404, "pipeline 不存在: nope"));
    remove_pipeline(&mut ps, "p1").unwrap();
    assert!(ps.is_empty());
}

#[test]
fn scripts_and_evaluation_inputs() {
    assert_eq!(script_text(b"1 + 1".to_vec()).unwrap(), "1 + 1");
    let e = script_text(vec![0x80]).unwrap_err();
    assert_eq!((e.status, e.message.as_str()), (400, "脚本必须为 UTF-8 文本"));

    assert_eq!(eval_script_text(Some("a".into()), None, "n").unwrap(), "a");
    let stored = "b".to_string();
    assert_eq!(eval_script_text(None, Some(&stored), "n").unwrap(), "b");
    let e = eval_script_text(None, None, "n").unwrap_err();
    assert_eq!((e.status, e.message.as_str()), (404, "脚本不存在: n"));

    let session = obj(vec![("sub", s("u1")), ("role", s("viewer"))]);
    let env = obj(vec![("role", s("admin")), ("region", s("eu"))]);
    let inputs = obj(vec![("region", s("us"))]);
    match eval_inputs(inputs, Some(session), Some(env)) {
        EvalInputs::Merged { inputs, session_injected, env_injected } => {
            assert_eq!(text(&inputs), r#"{"sub":"u1","role":"admin","region":"us"}"#);
            assert!(session_injected && env_injected);
        },
        EvalInputs::Raw(_) => panic!("expected merged inputs"),
    }
    match eval_inputs(Value::Null, None, Some(s("not an object"))) {
        EvalInputs::Merged { inputs, session_injected, env_injected } => {
            assert_eq!(text(&inputs), "{}");
            assert!(!session_injected && !env_injected);
        },
        EvalInputs::Raw(_) => panic!("expected merged inputs"),
    }
    match eval_inputs(Value::Array(vec![s("x")]), Some(obj(vec![])), None) {
        EvalInputs::Raw(v) => assert_eq!(text(&v), r#"["x"]"#),
        EvalInputs::Merged { .. } => panic!("expected raw inputs"),
    }
    let r = eval_response(s("ok"), true, false);
    assert_eq!(text(&r), r#"{"result":"ok","debug":{"session_injected":true,"env_injected":false}}"#);
}

#[test]
fn route_replacement_checks_paths() {
    assert!(check_route_paths(&vec![route("/a"), route("/b")]).is_ok());
    let e = check_route_paths(&vec![route("/a"), route(""), route("")]).unwrap_err();
    assert_eq!((e.status, e.message.as_str()), (400, "routes[1].path 不能为空"));
    assert_eq!(text(&route_types()), r#"{"types":["proxy","pipeline","script","static"]}"#);
    assert_eq!(text(&status_body("created", Some("p"))), r#"{"status":"created","name":"p"}"#);
    assert_eq!(text(&status_body("applied", None)), r#"{"status":"applied"}"#);
}

#[test]
fn admin_token_guard() {
    assert!(admin_authorized("/index.html", "token", "t", None, None));
    assert!(admin_authorized("/admin/api/health", "none", "t", None, None));
    assert!(admin_authorized("/admin/api/health", "token", "t", Some("t"), None));
    assert!(admin_authorized("/admin/api/health", "token", "t", None, Some("Bearer t")));
    assert!(!admin_authorized("/admin/api/health", "token", "t", Some("x"), Some("Bearer x")));
    assert!(!admin_authorized("/admin/api/health", "token", "t", None, Some("bearer t")));
    assert!(!admin_authorized("/admin/api/health", "token", "t", None, None));
}

#[test]
fn test_endpoint_guard_and_ui_assets() {
    assert!(test_endpoint_blocked("/admin/api/scripts/a/eval", false));
    assert!(test_endpoint_blocked("/admin/api/pipelines/p/test", false));
    assert!(!test_endpoint_blocked("/admin/api/pipelines/p/test", true));
    assert!(!test_endpoint_blocked("/admin/api/pipelines", false));
    assert_eq!(ui_asset_path("/"), "index.html");
    assert_eq!(ui_asset_path("//assets/app.js"), "assets/app.js");
    assert_eq!(mime_for("index.html"), "text/html; charset=utf-8");
    assert_eq!(mime_for("assets/app.min.js"), "application/javascript");
    assert_eq!(mime_for("a.css"), "text/css");
    assert_eq!(mime_for("logo.svg"), "image/svg+xml");
    assert_eq!(mime_for("README"), "application/octet-stream");
    assert_eq!(mime_for("archive.tar.gz"), "application/octet-stream");
}

#[test]
fn test_run_parameters_keep_explicit_values() {
    let params = pairs(&[("user", "explicit")]);
    let session = Some(obj(vec![("user", s("from-session")), ("n", Value::Number("3".into()))]));
    let env = Some(obj(vec![("n", s("9")), ("region", s("eu"))]));
    let (merged, injected) = test_params(&params, &session, &env);
    assert!(injected);
    assert_eq!(merged, pairs(&[("user", "explicit"), ("n", "3"), ("region", "eu")]));
    let (merged, injected) = test_params(&params, &Some(s("x")), &None);
    assert!(!injected);
    assert_eq!(merged, params);
}

#[test]
fn test_run_details_and_answer() {
    assert!(marks_dry_run(true, StepType::HttpRequest));
    assert!(!marks_dry_run(true, StepType::Script));
    assert!(!marks_dry_run(false, StepType::HttpRequest));
    assert_eq!(text(&step_detail("a", 200, 12, false)), r#"{"id":"a","status":200,"duration_ms":12}"#);
    assert_eq!(text(&step_detail("b", 200, 0, true)), r#"{"id":"b","status":200,"duration_ms":0,"dry_run":true}"#);

    let def = pipeline(vec![step("h", StepType::HttpRequest, &[]), step("s", StepType::Script, &["h"])]);
    let results = vec![
        ("h".to_string(), StepOutput { status: 200, body: obj(vec![("x", s("1"))]) }),
        ("s".to_string(), StepOutput { status: 200, body: s("final") }),
    ];
    assert_eq!(text(&test_body(&def, &results)), r#""final""#);
    let only_http = pipeline(vec![step("h", StepType::HttpRequest, &[])]);
    assert_eq!(
        text(&test_body(&only_http, &results[..1].to_vec())),
        r#"{"h":{"status":200,"body":{"x":"1"}}}"#
    );
    let answer = test_response(s("final"), vec![step_detail("s", 200, 1, false)], 5, true);
    assert_eq!(
        text(&answer),
        r#"{"status":200,"body":"final","steps":[{"id":"s","status":200,"duration_ms":1}],"total_duration_ms":5,"session_injected":true}"#
    );
}

#[test]
fn test_run_timeout_and_errors() {
    let def = pipeline(vec![]);
    let d = test_timeout(None, &def).unwrap();
    assert_eq!(d.as_nanos(), def.strategy.timeout.as_nanos());
    assert_eq!(test_timeout(Some("5s"), &def).unwrap().as_nanos(), 5_000_000_000);
    assert_eq!(test_timeout(Some("1m 30s"), &def).unwrap().as_nanos(), 90_000_000_000);
    let e = test_timeout(Some("soon"), &def).unwrap_err();
    assert_eq!(e.status, 400);
    assert!(e.message.starts_with("非法超时值: "));
    assert!(e.message.len() > "非法超时值: ".len());

    let e = layering_error(&DagError::Cycle);
    assert_eq!((e.status, e.message.as_str()), (422, "pipeline 定义非法: pipeline 存在循环依赖"));
    let e = layering_error(&DagError::MissingDependency { step: "a".into(), dep: "b".into() });
    assert_eq!(e.message, "pipeline 定义非法: step [a] 依赖了不存在的 step [b]");

    assert_eq!(text(&session_deleted(true, "s1").unwrap()), r#"{"status":"deleted"}"#);
    let e = session_deleted(false, "s1").unwrap_err();
    assert_eq!((e.status, e.message.as_str()), (404, "会话不存在: s1"));
}
