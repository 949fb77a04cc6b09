use garde::error::{Error, Path};
use garde::Report;
use zenix::binding::{field_error, field_source, gather_sources, plan_bindings, query_error, query_value, FieldSource};
use zenix::extract::validation_error;
use zenix::query::parse_query_str;
use zenix::report::{entries_to_json, errors_to_json};
use zenix::ReportExt;

fn entries(list: &[(&str, &str)]) -> Vec<(String, String)> {
    list.iter().map(|(p, m)| (p.to_string(), m.to_string())).collect()
}

#[test]
fn entries_group_by_field_in_order() {
    let e = entries(&[("name", "name is required"), ("email", "email is not a valid email address"), ("name", "too short")]);
    assert_eq!(
        entries_to_json(&e),
        r#"{"email":["email is not a valid email address"],"name":["name is required","too short"]}"#
    );
}

#[test]
fn entries_empty_report() {
    assert_eq!(entries_to_json(&Vec::new()), "{}");
}

#[test]
fn entries_fields_sorted_by_code_point() {
    let e = entries(&[("b", "1"), ("a.b", "2"), ("a", "3"), ("B", "4"), ("", "5")]);
    assert_eq!(entries_to_json(&e), r#"{"":["5"],"B":["4"],"a":["3"],"a.b":["2"],"b":["1"]}"#);
}

#[test]
fn entries_strings_escaped() {
    let e = entries(&[("q\"x", "line\nnext\t\\ \u{1} \u{e9}")]);
    assert_eq!(entries_to_json(&e), "{\"q\\\"x\":[\"line\\nnext\\t\\\\ \\u0001 \u{e9}\"]}");
}

fn sample_report() -> Report {
    let mut r = Report::new();
    r.append(Path::new("name"), Error::new("name is required"));
    r.append(Path::new("age"), Error::new("age must be between 18 and 150 (got 12)"));
    r.append(Path::new("name"), Error::new("length is lower than 1"));
    r
}

#[test]
fn report_to_json() {
    let r = sample_report();
    let expected = r#"{"age":["age must be between 18 and 150 (got 12)"],"name":["name is required","length is lower than 1"]}"#;
    assert_eq!(r.to_json(), expected);
    assert_eq!(errors_to_json(&r), expected);
}

#[test]
fn report_nested_paths() {
    let mut r = Report::new();
    r.append(Path::new("address").join("city"), Error::new("required"));
    r.append(Path::new("items").join(0usize), Error::new("bad"));
    assert_eq!(r.to_json(), r#"{"address.city":["required"],"items[0]":["bad"]}"#);
}

#[test]
fn validation_error_response() {
    let r = validation_error(&sample_report());
    assert_eq!(r.status.as_u16(), 422);
    assert_eq!(r.content_type, "application/json; charset=utf-8");
    assert_eq!(r.body, sample_report().to_json());
    assert_eq!(validation_error(&Report::new()).body, "{}");
}

#[test]
fn field_sources() {
    assert_eq!(field_source(None), Ok(FieldSource::Body));
    assert_eq!(field_source(Some("body")), Ok(FieldSource::Body));
    assert_eq!(field_source(Some("form")), Ok(FieldSource::Form));
    assert_eq!(field_source(Some("query")), Ok(FieldSource::Query));
    assert_eq!(
        field_source(Some("header")),
        Err("unsupported `#[zenix(from = \"header\")]` — use body, query, or form".to_string())
    );
}

fn field(name: &str, from: Option<&str>) -> (String, Option<String>) {
    (name.to_string(), from.map(|s| s.to_string()))
}

#[test]
fn plan_bindings_splits_fields() {
    let fields = vec![field("name", Some("body")), field("token", Some("query")), field("bio", None), field("f", Some("form"))];
    let plan = plan_bindings(&fields).ok().expect("supported sources");
    assert_eq!(plan.body_fields, vec!["name".to_string(), "bio".to_string()]);
    assert_eq!(plan.query_fields, vec!["token".to_string()]);
    assert_eq!(plan.form_fields, vec!["f".to_string()]);
}

#[test]
fn plan_bindings_refusals() {
    let fields = vec![field("a", None), field("b", Some("cookie")), field("c", Some("path"))];
    assert_eq!(
        plan_bindings(&fields).err(),
        Some("unsupported `#[zenix(from = \"cookie\")]` — use body, query, or form".to_string())
    );
    assert_eq!(
        plan_bindings(&Vec::new()).err(),
        Some("#[derive(FromRequest)] requires at least one field with a source annotation".to_string())
    );
}

#[test]
fn query_values_and_errors() {
    let m = parse_query_str("token=abc%21");
    assert_eq!(query_value(&m, "token"), "abc!");
    assert_eq!(query_value(&m, "missing"), "");
    let r = field_error("age", "invalid type: string \"x\", expected u8");
    assert_eq!(r.status.as_u16(), 400);
    assert_eq!(r.body, "field `age`: invalid type: string \"x\", expected u8");
    let r = query_error("page", "bad");
    assert_eq!(r.body, "query `page`: bad");
    assert_eq!(r.content_type, "text/plain; charset=utf-8");
}

fn body_ctx(query: Option<&str>, body: &[u8]) -> zenix::Context {
    zenix::Context::new(zenix::Method::POST, "/".to_string(), query.map(|q| q.to_string()), Vec::new(), body.to_vec())
}

#[test]
fn gather_sources_in_order() {
    let fields = vec![field("name", None), field("token", Some("query"))];
    let plan = plan_bindings(&fields).ok().unwrap();
    let s = gather_sources(&body_ctx(Some("token=t1"), br#"{"name":"ann"}"#), &plan).ok().expect("both readable");
    assert!(s.body.is_some());
    assert!(s.form.is_none());
    assert_eq!(s.query.expect("query needed").get("token").cloned(), Some("t1".to_string()));
    match gather_sources(&body_ctx(Some("token=t1"), b"not json"), &plan) {
        Ok(_) => panic!("bad JSON accepted"),
        Err(r) => assert!(r.body.starts_with("invalid JSON body: ")),
    }
    let plan = plan_bindings(&vec![field("token", Some("query"))]).ok().unwrap();
    let s = gather_sources(&body_ctx(None, b"not json"), &plan).ok().expect("body not read");
    assert!(s.body.is_none());
    assert_eq!(s.query.expect("query").len(), 0);
    let plan = plan_bindings(&vec![field("user", Some("form"))]).ok().unwrap();
    let s = gather_sources(&body_ctx(None, b"user=bo"), &plan).ok().expect("form");
    assert_eq!(s.form.expect("form").get("user").cloned(), Some("bo".to_string()));
    match gather_sources(&body_ctx(None, &[0xc3]), &plan) {
        Ok(_) => panic!("bad UTF-8 accepted"),
        Err(r) => assert_eq!(r.body, "invalid form body"),
    }
}
