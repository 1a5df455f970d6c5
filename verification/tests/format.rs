use solink_tracing_flat_json::line::render_line;
use solink_tracing_flat_json::scope::{Scope, ScopeRef};
use solink_tracing_flat_json::value::{Field, FieldValue};
use solink_tracing_flat_json::SolinkJsonFormat;

fn field(key: &str, value: FieldValue) -> Field {
    Field { key: key.to_string(), value }
}

fn scope(name: &str, blob: Option<&str>) -> Scope {
    Scope { name: name.to_string(), fields: blob.map(|b| b.to_string()) }
}

#[test]
fn should_write_a_log() {
    let format = SolinkJsonFormat::new().with_timestamp(false);
    let parent = ScopeRef {
        name: "parent".to_string(),
        fields: Some("{\"x\":7}".to_string()),
        parent: None,
    };
    let child = ScopeRef {
        name: "child".to_string(),
        fields: Some("{\"y\":9}".to_string()),
        parent: Some(Box::new(parent)),
    };
    let fields = vec![
        field("message", FieldValue::Str("Test".to_string())),
        field("z", FieldValue::Int(10)),
    ];
    let line = format.format_event(
        "INFO",
        "solink_tracing_flat_json::tests",
        &fields,
        Some(&child),
    );
    assert_eq!(
        line.trim(),
        "{\"level\":\"INFO\",\"target\":\"solink_tracing_flat_json::tests\",\"message\":\"Test\",\"z\":10,\"span\":\"child\",\"y\":9,\"x\":7}",
    );
}

#[test]
fn zero_scopes_everything_disabled() {
    let format = SolinkJsonFormat::new().with_timestamp(false).with_target(false);
    let fields = vec![field("message", FieldValue::Str("ping".to_string()))];
    let line = format.format_event("INFO", "ignored", &fields, None);
    assert_eq!(line, "{\"level\":\"INFO\",\"message\":\"ping\"}\n");
}

#[test]
fn zero_scopes_fixed_order_all_sections() {
    let fields = vec![field("a", FieldValue::Bool(true))];
    let scopes: Vec<Scope> = Vec::new();
    let line = render_line(
        Some("2020-01-01T00:00:00.000000000Z"),
        "WARN",
        Some("svc"),
        &fields,
        &scopes,
    );
    assert_eq!(
        line,
        "{\"timestamp\":\"2020-01-01T00:00:00.000000000Z\",\"level\":\"WARN\",\"target\":\"svc\",\"a\":true}\n",
    );
}

#[test]
fn omitting_timestamp_keeps_order_of_the_rest() {
    let fields = vec![field("a", FieldValue::UInt(1)), field("b", FieldValue::UInt(2))];
    let scopes = vec![scope("s", Some("{\"k\":3}"))];
    let with_ts = render_line(Some("t"), "INFO", Some("svc"), &fields, &scopes);
    let without_ts = render_line(None, "INFO", Some("svc"), &fields, &scopes);
    assert!(with_ts.starts_with("{\"timestamp\":\"t\","));
    assert_eq!(
        without_ts,
        format!("{{{}", &with_ts["{\"timestamp\":\"t\",".len()..]),
    );
    assert!(!without_ts.contains("timestamp"));
}

#[test]
fn omitting_target_keeps_order_of_the_rest() {
    let fields = vec![field("a", FieldValue::UInt(1))];
    let scopes = vec![scope("s", Some("{\"k\":3}"))];
    let with_target = render_line(None, "INFO", Some("svc"), &fields, &scopes);
    let without_target = render_line(None, "INFO", None, &fields, &scopes);
    assert_eq!(
        with_target,
        "{\"level\":\"INFO\",\"target\":\"svc\",\"a\":1,\"span\":\"s\",\"k\":3}\n",
    );
    assert_eq!(without_target, "{\"level\":\"INFO\",\"a\":1,\"span\":\"s\",\"k\":3}\n");
}

#[test]
fn span_names_innermost_scope_only() {
    let fields = Vec::new();
    let scopes = vec![
        scope("inner", Some("{\"x1\":1}")),
        scope("middle", Some("{\"x2\":2}")),
        scope("outer", Some("{\"x3\":3}")),
    ];
    let line = render_line(None, "DEBUG", None, &fields, &scopes);
    assert_eq!(
        line,
        "{\"level\":\"DEBUG\",\"span\":\"inner\",\"x1\":1,\"x2\":2,\"x3\":3}\n",
    );
    assert_eq!(line.matches("span").count(), 1);
}

#[test]
fn malformed_scope_blob_contributes_nothing() {
    let fields = Vec::new();
    let scopes = vec![scope("bad", Some("not-json"))];
    let line = render_line(None, "INFO", None, &fields, &scopes);
    assert_eq!(line, "{\"level\":\"INFO\",\"span\":\"bad\"}\n");
}

#[test]
fn malformed_scope_does_not_affect_siblings() {
    let fields = Vec::new();
    let scopes = vec![
        scope("inner", Some("{\"a\":1}")),
        scope("broken", Some("not-json")),
        scope("outer", Some("{\"b\":2}")),
    ];
    let line = render_line(None, "INFO", None, &fields, &scopes);
    assert_eq!(
        line,
        "{\"level\":\"INFO\",\"span\":\"inner\",\"a\":1,\"b\":2}\n",
    );
}

#[test]
fn non_object_blobs_are_skipped() {
    let fields = Vec::new();
    let scopes = vec![
        scope("arr", Some("[1,2]")),
        scope("num", Some("3")),
        scope("str", Some("\"x\"")),
        scope("none", None),
        scope("ok", Some("{\"k\":true}")),
    ];
    let line = render_line(None, "INFO", None, &fields, &scopes);
    assert_eq!(line, "{\"level\":\"INFO\",\"span\":\"arr\",\"k\":true}\n");
}

#[test]
fn scope_blob_is_reencoded_compactly() {
    let fields = Vec::new();
    let scopes = vec![scope("s", Some("{ \"b\" : 1 , \"a\" : { \"c\" : [ 1 , 2 ] } }"))];
    let line = render_line(None, "INFO", None, &fields, &scopes);
    assert_eq!(
        line,
        "{\"level\":\"INFO\",\"span\":\"s\",\"b\":1,\"a\":{\"c\":[1,2]}}\n",
    );
}

#[test]
fn duplicate_keys_across_scopes_are_concatenated() {
    let fields = Vec::new();
    let scopes = vec![scope("in", Some("{\"a\":1}")), scope("out", Some("{\"a\":2}"))];
    let line = render_line(None, "INFO", None, &fields, &scopes);
    assert_eq!(line, "{\"level\":\"INFO\",\"span\":\"in\",\"a\":1,\"a\":2}\n");
}

#[test]
fn string_values_are_escaped() {
    let fields = vec![
        field("q", FieldValue::Str("a\"b\\c\nd\te\u{0001}f".to_string())),
        field("u", FieldValue::Str("h\u{00e9}\u{03bb}o".to_string())),
    ];
    let line = render_line(None, "INFO", None, &fields, &Vec::new());
    assert_eq!(
        line,
        "{\"level\":\"INFO\",\"q\":\"a\\\"b\\\\c\\nd\\te\\u0001f\",\"u\":\"h\u{00e9}\u{03bb}o\"}\n",
    );
}

#[test]
fn keys_are_escaped_too() {
    let fields = vec![field("we\"ird", FieldValue::UInt(1))];
    let line = render_line(None, "INFO", None, &fields, &Vec::new());
    assert_eq!(line, "{\"level\":\"INFO\",\"we\\\"ird\":1}\n");
}

#[test]
fn integer_values_render_exactly() {
    let fields = vec![
        field("zero", FieldValue::UInt(0)),
        field("max", FieldValue::UInt(u64::MAX)),
        field("neg", FieldValue::Int(-5)),
        field("min", FieldValue::Int(i64::MIN)),
        field("izero", FieldValue::Int(0)),
    ];
    let line = render_line(None, "INFO", None, &fields, &Vec::new());
    assert_eq!(
        line,
        "{\"level\":\"INFO\",\"zero\":0,\"max\":18446744073709551615,\"neg\":-5,\"min\":-9223372036854775808,\"izero\":0}\n",
    );
}

#[test]
fn bool_and_raw_values_render_exactly() {
    let fields = vec![
        field("t", FieldValue::Bool(true)),
        field("f", FieldValue::Bool(false)),
        field("pi", FieldValue::Raw("3.25".to_string())),
        field("list", FieldValue::Raw("[1,2]".to_string())),
    ];
    let line = render_line(None, "INFO", None, &fields, &Vec::new());
    assert_eq!(
        line,
        "{\"level\":\"INFO\",\"t\":true,\"f\":false,\"pi\":3.25,\"list\":[1,2]}\n",
    );
}

#[test]
fn produced_line_parses_back_as_an_object_in_order() {
    let fields = vec![
        field("message", FieldValue::Str("hi".to_string())),
        field("n", FieldValue::Int(-7)),
    ];
    let scopes = vec![scope("inner", Some("{\"y\":9}")), scope("outer", Some("{\"x\":7}"))];
    let line = render_line(Some("t0"), "ERROR", Some("svc::a"), &fields, &scopes);
    assert_eq!(line.chars().filter(|c| *c == '\n').count(), 1);
    assert!(line.ends_with('\n'));
    let parsed: serde_json::Value = serde_json::from_str(line.trim()).unwrap();
    let obj = parsed.as_object().expect("line must parse as a JSON object");
    let keys: Vec<&str> = obj.keys().map(|k| k.as_str()).collect();
    assert_eq!(
        keys,
        vec!["timestamp", "level", "target", "message", "n", "span", "y", "x"],
    );
    assert_eq!(obj["level"], serde_json::Value::String("ERROR".to_string()));
    assert_eq!(obj["n"], serde_json::Value::from(-7i64));
    assert_eq!(obj["span"], serde_json::Value::String("inner".to_string()));
}

#[test]
fn enabled_timestamp_is_a_string_entry_first() {
    let format = SolinkJsonFormat::default();
    let line = format.format_event("INFO", "svc", &Vec::new(), None);
    assert!(line.starts_with("{\"timestamp\":\""));
    let parsed: serde_json::Value = serde_json::from_str(line.trim()).unwrap();
    let obj = parsed.as_object().unwrap();
    assert!(obj["timestamp"].is_string());
    let ts = obj["timestamp"].as_str().unwrap();
    assert!(ts.ends_with('Z'));
    assert!(ts.contains('T'));
}

#[test]
fn scope_without_recorded_fields_still_names_the_span() {
    let format = SolinkJsonFormat::new().with_timestamp(false).with_target(false);
    let only = ScopeRef { name: "solo".to_string(), fields: None, parent: None };
    let line = format.format_event("TRACE", "svc", &Vec::new(), Some(&only));
    assert_eq!(line, "{\"level\":\"TRACE\",\"span\":\"solo\"}\n");
}

#[test]
fn walker_yields_innermost_first() {
    let root = ScopeRef {
        name: "root".to_string(),
        fields: Some("{\"r\":0}".to_string()),
        parent: None,
    };
    let mid = ScopeRef {
        name: "mid".to_string(),
        fields: None,
        parent: Some(Box::new(root)),
    };
    let leaf = ScopeRef {
        name: "leaf".to_string(),
        fields: Some("{\"l\":1}".to_string()),
        parent: Some(Box::new(mid)),
    };
    let walked = solink_tracing_flat_json::scope::walk_scope_chain(Some(&leaf));
    let names: Vec<&str> = walked.iter().map(|s| s.name.as_str()).collect();
    assert_eq!(names, vec!["leaf", "mid", "root"]);
    assert_eq!(walked[0].fields.as_deref(), Some("{\"l\":1}"));
    assert_eq!(walked[1].fields, None);
    assert_eq!(walked[2].fields.as_deref(), Some("{\"r\":0}"));
}

#[test]
fn empty_strings_render_as_empty_json_strings() {
    let fields = vec![field("", FieldValue::Str("".to_string()))];
    let scopes = vec![scope("", Some("{}"))];
    let line = render_line(None, "", None, &fields, &scopes);
    assert_eq!(line, "{\"level\":\"\",\"\":\"\",\"span\":\"\"}\n");
}
