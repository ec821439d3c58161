use bff::config::{InputMapping, OutputMapping};
use bff::server::mapping::{apply_output_mapping, extract_json_path, merge_inputs};
use bff::utils::json::Value;

fn s(t: &str) -> Value {
    Value::String(t.to_string())
}

fn num(t: &str) -> Value {
    Value::Number(t.to_string())
}

fn obj(entries: Vec<(&str, Value)>) -> Value {
    Value::Object(entries.into_iter().map(|(k, v)| (k.to_string(), v)).collect())
}

fn empty() -> Value {
    Value::Object(vec![])
}

fn pairs(p: &[(&str, &str)]) -> Vec<(String, String)> {
    p.iter().map(|(k, v)| (k.to_string(), v.to_string())).collect()
}

/// JSON equality: objects compare as maps.
fn same(a: &Value, b: &Value) -> bool {
    match (a, b) {
        (Value::Null, Value::Null) => true,
        (Value::Bool(x), Value::Bool(y)) => x == y,
        (Value::Number(x), Value::Number(y)) => x == y,
        (Value::String(x), Value::String(y)) => x == y,
        (Value::Array(x), Value::Array(y)) => x.len() == y.len() && x.iter().zip(y).all(|(p, q)| same(p, q)),
        (Value::Object(x), Value::Object(y)) => {
            x.len() == y.len()
                && x.iter().all(|(k, v)| y.iter().any(|(k2, v2)| k == k2 && same(v, v2)))
        }
        _ => false,
    }
}

fn member<'a>(v: &'a Value, k: &str) -> &'a Value {
    v.get(k).expect("missing member")
}

#[test]
fn merge_defaults_applied_when_no_input() {
    let im = InputMapping {
        defaults: vec![("pageSize".into(), num("20")), ("sort".into(), s("desc"))],
        ..Default::default()
    };
    let result = merge_inputs(&im, &empty(), &empty(), &empty(), &empty(), &empty());
    assert!(same(member(&result, "pageSize"), &num("20")));
    assert!(same(member(&result, "sort"), &s("desc")));
}

#[test]
fn from_query_overrides_defaults() {
    let im = InputMapping {
        from_query: pairs(&[("pageSize", "size")]),
        defaults: vec![("pageSize".into(), num("20"))],
        ..Default::default()
    };
    let result = merge_inputs(&im, &obj(vec![("size", s("50"))]), &empty(), &empty(), &empty(), &empty());
    assert!(same(member(&result, "pageSize"), &s("50")));
}

#[test]
fn from_body_json_path_extraction() {
    let im = InputMapping {
        from_body: pairs(&[("name", "user.name"), ("email", "user.email")]),
        ..Default::default()
    };
    let body = obj(vec![("user", obj(vec![("name", s("Alice")), ("email", s("alice@example.com"))]))]);
    let result = merge_inputs(&im, &empty(), &body, &empty(), &empty(), &empty());
    assert!(same(member(&result, "name"), &s("Alice")));
    assert!(same(member(&result, "email"), &s("alice@example.com")));
}

#[test]
fn from_body_root_extraction_with_dot() {
    let im = InputMapping { from_body: pairs(&[("payload", ".")]), ..Default::default() };
    let result = merge_inputs(&im, &empty(), &obj(vec![("data", s("hello"))]), &empty(), &empty(), &empty());
    assert!(same(member(&result, "payload"), &obj(vec![("data", s("hello"))])));
}

#[test]
fn from_header_source_extraction() {
    let im = InputMapping {
        from_header: pairs(&[("token", "x-api-key"), ("trace", "x-trace-id")]),
        ..Default::default()
    };
    let headers = obj(vec![("x-api-key", s("abc123")), ("x-trace-id", s("trace-001"))]);
    let result = merge_inputs(&im, &empty(), &empty(), &headers, &empty(), &empty());
    assert!(same(member(&result, "token"), &s("abc123")));
    assert!(same(member(&result, "trace"), &s("trace-001")));
}

#[test]
fn priority_query_over_default() {
    let im = InputMapping {
        from_query: pairs(&[("val", "v")]),
        from_body: pairs(&[("val", "bv")]),
        defaults: vec![("val".into(), s("default"))],
        ..Default::default()
    };
    let result = merge_inputs(
        &im,
        &obj(vec![("v", s("query_val"))]),
        &obj(vec![("bv", s("body_val"))]),
        &empty(),
        &empty(),
        &empty(),
    );
    assert!(same(member(&result, "val"), &s("query_val")));
}

#[test]
fn body_fallback_when_no_query() {
    let im = InputMapping {
        from_query: pairs(&[("val", "v")]),
        from_body: pairs(&[("val", "bv")]),
        defaults: vec![("val".into(), s("default"))],
        ..Default::default()
    };
    let result = merge_inputs(
        &im,
        &obj(vec![("other", s("x"))]),
        &obj(vec![("bv", s("body_val"))]),
        &empty(),
        &empty(),
        &empty(),
    );
    assert!(same(member(&result, "val"), &s("body_val")));
}

#[test]
fn default_fallback_when_no_query_or_body() {
    let im = InputMapping {
        from_query: pairs(&[("val", "v")]),
        defaults: vec![("val".into(), s("fallback"))],
        ..Default::default()
    };
    let result = merge_inputs(&im, &empty(), &empty(), &empty(), &empty(), &empty());
    assert!(same(member(&result, "val"), &s("fallback")));
}

#[test]
fn wrap_output_in_key() {
    let om = OutputMapping { wrap: Some("data".into()), ..Default::default() };
    let result = apply_output_mapping(&om, obj(vec![("id", num("1"))]));
    assert!(same(&result, &obj(vec![("data", obj(vec![("id", num("1"))]))])));
}

#[test]
fn rename_fields() {
    let om = OutputMapping {
        rename: pairs(&[("user_id", "userId"), ("created_at", "created")]),
        ..Default::default()
    };
    let result = apply_output_mapping(
        &om,
        obj(vec![("userId", num("42")), ("created", s("2024-01-01")), ("extra", s("keep"))]),
    );
    assert!(same(member(&result, "user_id"), &num("42")));
    assert!(same(member(&result, "created_at"), &s("2024-01-01")));
    assert!(same(member(&result, "extra"), &s("keep")));
}

#[test]
fn pick_filter_whitelist() {
    let om = OutputMapping { pick: vec!["id".into(), "name".into()], ..Default::default() };
    let result = apply_output_mapping(
        &om,
        obj(vec![("id", num("1")), ("name", s("Alice")), ("secret", s("hidden")), ("extra", s("removed"))]),
    );
    assert!(same(&result, &obj(vec![("id", num("1")), ("name", s("Alice"))])));
}

#[test]
fn wrap_and_rename_combined() {
    let om = OutputMapping {
        wrap: Some("result".into()),
        rename: pairs(&[("uid", "id")]),
        pick: vec!["id".into(), "name".into()],
        ..Default::default()
    };
    let result = apply_output_mapping(&om, obj(vec![("id", num("1")), ("name", s("Alice")), ("extra", s("x"))]));
    assert!(same(&result, &obj(vec![("result", obj(vec![("uid", num("1")), ("name", s("Alice"))]))])));
}

#[test]
fn empty_output_mapping_passthrough() {
    let om = OutputMapping::default();
    let original = obj(vec![("key", s("value"))]);
    let result = apply_output_mapping(&om, original.clone());
    assert!(same(&result, &original));
}

#[test]
fn empty_input_mapping_returns_empty() {
    let im = InputMapping::default();
    let result = merge_inputs(&im, &empty(), &empty(), &empty(), &empty(), &empty());
    match result {
        Value::Object(es) => assert!(es.is_empty()),
        _ => panic!("not an object"),
    }
}

#[test]
fn null_values_do_not_override() {
    let im = InputMapping {
        from_query: pairs(&[("v", "q")]),
        defaults: vec![("v".into(), s("d"))],
        ..Default::default()
    };
    let result = merge_inputs(&im, &obj(vec![("q", Value::Null)]), &empty(), &empty(), &empty(), &empty());
    assert!(same(member(&result, "v"), &s("d")));
}

#[test]
fn extract_paths() {
    let src = obj(vec![("a", obj(vec![("b", num("3"))])), ("s", s("x"))]);
    assert!(same(&extract_json_path(&src, "a.b"), &num("3")));
    assert!(same(&extract_json_path(&src, "a.c"), &Value::Null));
    assert!(same(&extract_json_path(&src, "s.t"), &Value::Null));
    assert!(same(&extract_json_path(&src, "."), &src));
    assert!(same(&extract_json_path(&s("x"), "a"), &Value::Null));
}

#[test]
fn output_mapping_ignores_non_objects() {
    let om = OutputMapping { pick: vec!["id".into()], rename: pairs(&[("x", "y")]), ..Default::default() };
    assert!(same(&apply_output_mapping(&om, num("7")), &num("7")));
}
