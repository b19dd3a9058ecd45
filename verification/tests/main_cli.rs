use capx::cli::{
    append_blocks, blocks_to_keep, build_props, counts_by_size, daily_note_blocks, edit_document, export_file_name, first_space, parse_edited,
    parse_key_val, pick_setting, safe_title,
};
use capx::json::JsonValue;
use capx::render::blocks_to_markdown;
use capx::types::{FormattedObject, Space, SpacesResponse};
use serde_json::Value;

fn from_value(v: &Value) -> JsonValue {
    match v {
        Value::Null => JsonValue::Null,
        Value::Bool(b) => JsonValue::Bool(*b),
        Value::Number(n) => JsonValue::Number(n.to_string()),
        Value::String(s) => JsonValue::Str(s.clone()),
        Value::Array(a) => JsonValue::Array(a.iter().map(from_value).collect()),
        Value::Object(m) => JsonValue::Object(m.iter().map(|(k, v)| (k.clone(), from_value(v))).collect()),
    }
}

fn doc(text: &str) -> JsonValue {
    from_value(&serde_json::from_str::<Value>(text).unwrap())
}

#[test]
fn parse_key_val_valid() {
    let (k, v) = parse_key_val("status=done").unwrap();
    assert_eq!(k, "status");
    assert_eq!(v, "done");
}

#[test]
fn parse_key_val_no_equals() {
    assert!(parse_key_val("noequalssign").is_err());
}

#[test]
fn parse_key_val_value_with_equals() {
    let (k, v) = parse_key_val("url=https://example.com?a=1").unwrap();
    assert_eq!(k, "url");
    assert_eq!(v, "https://example.com?a=1");
}

#[test]
fn parse_key_val_empty_value() {
    let (k, v) = parse_key_val("key=").unwrap();
    assert_eq!(k, "key");
    assert_eq!(v, "");
}

#[test]
fn parse_key_val_error_message() {
    assert_eq!(parse_key_val("noequalssign").unwrap_err(), "invalid KEY=VALUE: no `=` found in `noequalssign`");
    let (k, v) = parse_key_val("=x").unwrap();
    assert_eq!(k, "");
    assert_eq!(v, "x");
}

#[test]
fn build_props_empty() {
    assert!(build_props(&Vec::new()).is_none());
}

#[test]
fn build_props_non_empty() {
    let pairs = vec![("key1".to_string(), "val1".to_string()), ("key2".to_string(), "val2".to_string())];
    let result = build_props(&pairs).unwrap();
    assert_eq!(result.len(), 2);
    let get = |k: &str| result.iter().find(|(key, _)| key == k).map(|(_, v)| v).unwrap();
    assert!(matches!(get("key1"), JsonValue::Str(s) if s == "val1"));
    assert!(matches!(get("key2"), JsonValue::Str(s) if s == "val2"));
}

#[test]
fn build_props_later_pair_wins() {
    let pairs = vec![("k".to_string(), "1".to_string()), ("k".to_string(), "2".to_string())];
    let result = build_props(&pairs).unwrap();
    assert_eq!(result.len(), 1);
    assert!(matches!(&result[0].1, JsonValue::Str(s) if s == "2"));
}

#[test]
fn settings_prefer_flag_then_non_empty_env() {
    assert_eq!(pick_setting(Some("f".to_string()), Some("e".to_string())), Some("f".to_string()));
    assert_eq!(pick_setting(Some(String::new()), Some("e".to_string())), Some(String::new()));
    assert_eq!(pick_setting(None, Some("e".to_string())), Some("e".to_string()));
    assert_eq!(pick_setting(None, Some(String::new())), None);
    assert_eq!(pick_setting(None, None), None);
}

#[test]
fn first_space_or_error() {
    let none = SpacesResponse { spaces: vec![] };
    assert_eq!(first_space(&none).unwrap_err(), "No spaces found. Use --space-id or set CAP_SPACE_ID.");
    let some = SpacesResponse {
        spaces: vec![
            Space { id: "s1".to_string(), title: "One".to_string(), icon: None },
            Space { id: "s2".to_string(), title: "Two".to_string(), icon: None },
        ],
    };
    assert_eq!(first_space(&some).unwrap(), "s1");
}

fn note_blocks() -> Vec<JsonValue> {
    daily_note_blocks(&doc(
        r#"{"blocks": {"RootDailyNote_notes": [
            {"type": "TextBlock", "tokens": [{"type": "TextToken", "text": "keep me", "style": {"bold": false, "italic": false}}]},
            {"type": "TextBlock", "tokens": [{"type": "TextToken", "text": "MARK drop", "style": {"bold": false, "italic": false}}]},
            {"type": "HorizontalLineBlock"}
        ]}}"#,
    ))
}

#[test]
fn daily_blocks_read_from_data() {
    assert_eq!(note_blocks().len(), 3);
    assert!(daily_note_blocks(&doc(r#"{"blocks": {}}"#)).is_empty());
    assert!(daily_note_blocks(&doc("null")).is_empty());
}

#[test]
fn delete_by_marker_and_from_end() {
    let kept = blocks_to_keep(note_blocks(), 1, Some("MARK"));
    assert_eq!(blocks_to_markdown(&kept), "keep me\n---");
    let kept = blocks_to_keep(note_blocks(), 2, None);
    assert_eq!(blocks_to_markdown(&kept), "keep me");
    let kept = blocks_to_keep(note_blocks(), 9, None);
    assert!(kept.is_empty());
    let kept = blocks_to_keep(note_blocks(), 0, None);
    assert_eq!(kept.len(), 3);
}

#[test]
fn append_with_and_without_stamp() {
    let mut blocks = note_blocks();
    append_blocks(&mut blocks, Some("09:30"), "new *line*");
    assert_eq!(blocks.len(), 5);
    assert_eq!(blocks_to_markdown(&blocks), "keep me\nMARK drop\n---\n**09:30**\nnew *line*");
    let mut blocks = Vec::new();
    append_blocks(&mut blocks, None, "a\nb");
    assert_eq!(blocks_to_markdown(&blocks), "a\nb");
}

fn object(title: &str, description: Option<&str>, body: &str) -> FormattedObject {
    FormattedObject {
        id: "id".to_string(),
        obj_type: "T".to_string(),
        type_title: None,
        title: title.to_string(),
        description: description.map(|d| d.to_string()),
        tags: None,
        created_at: String::new(),
        last_updated: String::new(),
        properties: vec![],
        body: body.to_string(),
    }
}

#[test]
fn edit_document_and_back() {
    let md = edit_document(&object("Plan", Some("Short"), "line 1\nline 2"));
    assert_eq!(md, "# Plan\n\n> Short\n\nline 1\nline 2");
    let (t, d, b) = parse_edited(&md);
    assert_eq!(t.as_deref(), Some("Plan"));
    assert_eq!(d.as_deref(), Some("Short"));
    assert_eq!(b, "line 1\nline 2");
    assert_eq!(edit_document(&object("P", Some(""), "b")), "# P\n\nb");
    assert_eq!(edit_document(&object("P", None, "")), "# P\n\n");
}

#[test]
fn parse_edited_rules() {
    let (t, d, b) = parse_edited("\r\n# First\n# Second\r\n> d1\n> d2\nbody\r\n\n# not a title\n");
    assert_eq!(t.as_deref(), Some("Second"));
    assert_eq!(d.as_deref(), Some("d1"));
    assert_eq!(b, "> d2\nbody\n\n# not a title");
    let (t, d, b) = parse_edited("");
    assert!(t.is_none() && d.is_none());
    assert_eq!(b, "");
    let (_, _, b) = parse_edited("text\r");
    assert_eq!(b, "text\r");
}

#[test]
fn export_names() {
    assert_eq!(safe_title("a/b: c-d_e"), "a_b_ c-d_e");
    assert_eq!(safe_title("Ünïcode 名前"), "Ünïcode 名前");
    assert_eq!(export_file_name("x?", "json"), "x_.json");
    assert_eq!(export_file_name("x", "md"), "x.md");
    assert_eq!(export_file_name("x", "yaml"), "x.md");
}

#[test]
fn counts_largest_first_ties_in_order() {
    let counts = vec![
        ("Page".to_string(), 2usize),
        ("Task".to_string(), 5usize),
        ("Note".to_string(), 2usize),
        ("Link".to_string(), 7usize),
    ];
    let sorted = counts_by_size(&counts);
    let names: Vec<&str> = sorted.iter().map(|(n, _)| n.as_str()).collect();
    assert_eq!(names, vec!["Link", "Task", "Page", "Note"]);
    assert!(counts_by_size(&vec![]).is_empty());
}
