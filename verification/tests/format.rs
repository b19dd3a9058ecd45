use capx::cli::{format_prop_value, property_note_exec};
use capx::json::JsonValue;
use capx::types::{LabelOption, StructureProperty};
use serde_json::Value;

fn from_value(v: &Value) -> JsonValue {
    match v {
        Value::Null => JsonValue::Null,
        Value::Bool(b) => JsonValue::Bool(*b),
        Value::Number(n) => JsonValue::Number(n.to_string()),
        Value::String(s) => JsonValue::Str(s.clone()),
        Value::Array(a) => JsonValue::Array(a.iter().map(from_value).collect()),
        Value::Object(m) => JsonValue::Object(m.iter().map(|(k, v)| (k.clone(), from_value(v))).collect()),
    }
}

fn doc(text: &str) -> JsonValue {
    from_value(&serde_json::from_str::<Value>(text).unwrap())
}

#[test]
fn format_prop_value_string() {
    let val = doc(r#""hello""#);
    assert_eq!(format_prop_value(&val), "hello");
}

#[test]
fn format_prop_value_array_with_titles() {
    let val = doc(r#"[{"title": "Tag1"}, {"title": "Tag2"}]"#);
    assert_eq!(format_prop_value(&val), "Tag1, Tag2");
}

#[test]
fn format_prop_value_array_strings() {
    let val = doc(r#"["a", "b", "c"]"#);
    assert_eq!(format_prop_value(&val), "a, b, c");
}

#[test]
fn format_prop_value_object_with_title() {
    let val = doc(r#"{"title": "MyObj", "id": "123"}"#);
    assert_eq!(format_prop_value(&val), "MyObj");
}

#[test]
fn format_prop_value_object_no_title() {
    let val = doc(r#"{"id": "123"}"#);
    let result = format_prop_value(&val);
    assert!(result.contains("123"));
}

#[test]
fn format_prop_value_bool() {
    assert_eq!(format_prop_value(&doc("true")), "true");
    assert_eq!(format_prop_value(&doc("false")), "false");
}

#[test]
fn format_prop_value_number() {
    assert_eq!(format_prop_value(&doc("42")), "42");
    assert_eq!(format_prop_value(&doc("3.14")), "3.14");
}

#[test]
fn format_prop_value_null() {
    assert_eq!(format_prop_value(&doc("null")), "");
}

#[test]
fn format_prop_value_mixed_array() {
    let val = doc(r#"[{"title": "Named"}, "plain", 42]"#);
    let result = format_prop_value(&val);
    assert!(result.contains("Named"));
    assert!(result.contains("plain"));
    assert!(result.contains("42"));
}

#[test]
fn format_prop_value_exact_json_fallbacks() {
    assert_eq!(format_prop_value(&doc(r#"{"id": "123"}"#)), r#"{"id":"123"}"#);
    assert_eq!(format_prop_value(&doc(r#"[{"title": "Named"}, "plain", 42, {"a": "q\"x"}]"#)), r#"Named, plain, 42, {"a":"q\"x"}"#);
    assert_eq!(format_prop_value(&doc("[]")), "");
}

fn prop(data_type: &str, options: Option<Vec<&str>>, allowed: Option<Vec<&str>>) -> StructureProperty {
    StructureProperty {
        id: "p".to_string(),
        name: "P".to_string(),
        data_type: data_type.to_string(),
        prop_type: String::new(),
        is_array: None,
        options: options.map(|o| {
            o.into_iter()
                .map(|t| LabelOption { id: t.to_lowercase(), text: t.to_string(), color: "red".to_string() })
                .collect()
        }),
        allowed_structures: allowed.map(|a| a.into_iter().map(|s| s.to_string()).collect()),
    }
}

#[test]
fn property_notes() {
    assert_eq!(property_note_exec(&prop("label", Some(vec!["Todo", "Done"]), None)), " [Todo, Done]");
    assert_eq!(property_note_exec(&prop("label", None, None)), "");
    assert_eq!(property_note_exec(&prop("entity", None, Some(vec!["A", "B"]))), " → A, B");
    assert_eq!(property_note_exec(&prop("string", Some(vec!["x"]), Some(vec!["A"]))), "");
}
