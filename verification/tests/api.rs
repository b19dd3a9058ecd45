use capx::defs::{name_index, normalize_property, resolve_prop_key};
use capx::json::JsonValue;
use capx::props::{collect_entity_ids, create_entity_link, extract_sync_status, is_empty_val, parse_date_to_inline, resolve_entity_val};
use capx::types::{LabelOption, RawPropertyDefinition, ValWrapper};
use serde_json::Value;

fn from_value(v: &Value) -> JsonValue {
    match v {
        Value::Null => JsonValue::Null,
        Value::Bool(b) => JsonValue::Bool(*b),
        Value::Number(n) => JsonValue::Number(n.to_string()),
        Value::String(s) => JsonValue::Str(s.clone()),
        Value::Array(a) => JsonValue::Array(a.iter().map(from_value).collect()),
        Value::Object(m) => JsonValue::Object(m.iter().map(|(k, v)| (k.clone(), from_value(v))).collect()),
    }
}

fn to_value(j: &JsonValue) -> Value {
    match j {
        JsonValue::Null => Value::Null,
        JsonValue::Bool(b) => Value::Bool(*b),
        JsonValue::Number(n) => serde_json::from_str(n).unwrap(),
        JsonValue::Str(s) => Value::String(s.clone()),
        JsonValue::Array(a) => Value::Array(a.iter().map(to_value).collect()),
        JsonValue::Object(ps) => {
            let mut m = serde_json::Map::new();
            for (k, v) in ps {
                m.insert(k.clone(), to_value(v));
            }
            Value::Object(m)
        }
    }
}

fn doc(text: &str) -> JsonValue {
    from_value(&serde_json::from_str::<Value>(text).unwrap())
}

fn entry<'a>(m: &'a [(String, JsonValue)], k: &str) -> Option<&'a JsonValue> {
    m.iter().find(|(key, _)| key == k).map(|(_, v)| v)
}

fn holds(ids: &[String], s: &str) -> bool {
    ids.iter().any(|x| x == s)
}

// --- extract_sync_status ---

#[test]
fn extract_sync_status_success() {
    let res = doc(r#"{"componentReturnObjects": [{"id": "x", "status": "success"}]}"#);
    assert_eq!(extract_sync_status(&res), "success");
}

#[test]
fn extract_sync_status_unknown_on_empty() {
    let res = doc(r#"{"componentReturnObjects": []}"#);
    assert_eq!(extract_sync_status(&res), "unknown");
}

#[test]
fn extract_sync_status_missing_field() {
    let res = doc(r#"{"other": "data"}"#);
    assert_eq!(extract_sync_status(&res), "unknown");
}

#[test]
fn extract_sync_status_null() {
    let res = doc("null");
    assert_eq!(extract_sync_status(&res), "unknown");
}

// --- collect_entity_ids ---

#[test]
fn collect_entity_ids_array_strings() {
    let val = doc(r#"["id1", "id2"]"#);
    let mut ids = Vec::new();
    collect_entity_ids(&val, &mut ids);
    assert!(holds(&ids, "id1"));
    assert!(holds(&ids, "id2"));
    assert_eq!(ids.len(), 2);
}

#[test]
fn collect_entity_ids_array_objects() {
    let val = doc(r#"[{"id": "a"}, {"id": "b"}]"#);
    let mut ids = Vec::new();
    collect_entity_ids(&val, &mut ids);
    assert!(holds(&ids, "a"));
    assert!(holds(&ids, "b"));
}

#[test]
fn collect_entity_ids_single_string() {
    let val = doc(r#""single-id""#);
    let mut ids = Vec::new();
    collect_entity_ids(&val, &mut ids);
    assert!(holds(&ids, "single-id"));
}

#[test]
fn collect_entity_ids_empty_string() {
    let val = doc(r#""""#);
    let mut ids = Vec::new();
    collect_entity_ids(&val, &mut ids);
    assert!(ids.is_empty());
}

#[test]
fn collect_entity_ids_empty_array() {
    let val = doc("[]");
    let mut ids = Vec::new();
    collect_entity_ids(&val, &mut ids);
    assert!(ids.is_empty());
}

#[test]
fn collect_entity_ids_keeps_each_once() {
    let val = doc(r#"["a", {"id": "a"}, "b", 7]"#);
    let mut ids = vec!["b".to_string()];
    collect_entity_ids(&val, &mut ids);
    assert_eq!(ids, vec!["b".to_string(), "a".to_string()]);
}

// --- resolve_entity_val ---

#[test]
fn resolve_entity_val_array_mapped() {
    let val = doc(r#"["id1", "id2"]"#);
    let map = vec![("id1".to_string(), "Title 1".to_string()), ("id2".to_string(), "Title 2".to_string())];
    let result = to_value(&resolve_entity_val(&val, &map));
    let arr = result.as_array().unwrap();
    assert_eq!(arr[0]["title"], "Title 1");
    assert_eq!(arr[1]["title"], "Title 2");
}

#[test]
fn resolve_entity_val_array_unmapped() {
    let val = doc(r#"["unknown-id"]"#);
    let map = Vec::new();
    let result = to_value(&resolve_entity_val(&val, &map));
    let arr = result.as_array().unwrap();
    assert_eq!(arr[0]["id"], "unknown-id");
    assert_eq!(arr[0]["title"], "unknown-id");
}

#[test]
fn resolve_entity_val_single_string() {
    let val = doc(r#""id1""#);
    let map = vec![("id1".to_string(), "Title".to_string())];
    let result = to_value(&resolve_entity_val(&val, &map));
    assert_eq!(result["id"], "id1");
    assert_eq!(result["title"], "Title");
}

#[test]
fn resolve_entity_val_empty_string() {
    let val = doc(r#""""#);
    let map = Vec::new();
    assert!(resolve_entity_val(&val, &map).is_null());
}

#[test]
fn resolve_entity_val_null() {
    let val = doc("null");
    let map = Vec::new();
    assert!(resolve_entity_val(&val, &map).is_null());
}

#[test]
fn resolve_entity_val_object_without_id_uses_its_json() {
    let val = doc(r#"[{"name": "x"}]"#);
    let map = Vec::new();
    let result = to_value(&resolve_entity_val(&val, &map));
    assert_eq!(result[0]["id"], r#"{"name":"x"}"#);
}

// --- is_empty_val ---

#[test]
fn is_empty_val_null() {
    assert!(is_empty_val(&doc("null")));
}

#[test]
fn is_empty_val_empty_array() {
    assert!(is_empty_val(&doc("[]")));
}

#[test]
fn is_empty_val_non_empty_array() {
    assert!(!is_empty_val(&doc("[1]")));
}

#[test]
fn is_empty_val_string() {
    assert!(!is_empty_val(&doc(r#""hello""#)));
}

// --- resolve_prop_key ---

fn make_prop_def(id: &str, name: &str, data_type: &str) -> RawPropertyDefinition {
    RawPropertyDefinition {
        id: id.to_string(),
        data_type: data_type.to_string(),
        name: Some(ValWrapper { val: name.to_string() }),
        description: None,
        icon: None,
        read_only: false,
        prop_type: String::new(),
        is_array: None,
        allowed_structures: None,
        set: None,
        mode: None,
        constraints: None,
    }
}

#[test]
fn resolve_prop_key_by_uuid() {
    let def = make_prop_def("550e8400-e29b-41d4-a716-446655440000", "Status", "label");
    let defs = vec![def];
    let name_map = name_index(&defs);
    let (id, found) = resolve_prop_key("550e8400-e29b-41d4-a716-446655440000", &defs, &name_map);
    assert_eq!(id, "550e8400-e29b-41d4-a716-446655440000");
    assert!(found.is_some());
}

#[test]
fn resolve_prop_key_by_name_case_insensitive() {
    let def = make_prop_def("prop-uuid", "Status", "label");
    let defs = vec![def];
    let name_map = name_index(&defs);
    let (id, found) = resolve_prop_key("STATUS", &defs, &name_map);
    assert_eq!(id, "prop-uuid");
    assert!(found.is_some());
}

#[test]
fn resolve_prop_key_unknown() {
    let defs: Vec<RawPropertyDefinition> = vec![];
    let name_map = name_index(&defs);
    let (id, found) = resolve_prop_key("unknown", &defs, &name_map);
    assert_eq!(id, "unknown");
    assert!(found.is_none());
}

#[test]
fn resolve_prop_key_last_name_wins() {
    let defs = vec![make_prop_def("first", "Stage", "label"), make_prop_def("second", "stage", "label")];
    let name_map = name_index(&defs);
    let (id, found) = resolve_prop_key("Stage", &defs, &name_map);
    assert_eq!(id, "second");
    assert_eq!(found, Some(1));
}

#[test]
fn resolve_prop_key_uppercase_uuid_not_defined() {
    let defs = vec![make_prop_def("550e8400-e29b-41d4-a716-446655440000", "Status", "label")];
    let name_map = name_index(&defs);
    let (id, found) = resolve_prop_key("550E8400-E29B-41D4-A716-446655440000", &defs, &name_map);
    assert_eq!(id, "550E8400-E29B-41D4-A716-446655440000");
    assert!(found.is_none());
}

// --- normalize_property ---

#[test]
fn normalize_property_label_string_match() {
    let mut def = make_prop_def("status", "Status", "label");
    def.set = Some(vec![
        LabelOption { id: "opt-1".to_string(), text: "Done".to_string(), color: "green".to_string() },
        LabelOption { id: "opt-2".to_string(), text: "Todo".to_string(), color: "red".to_string() },
    ]);
    let mut blocks = Vec::new();
    let result = normalize_property(&def, "status", &doc(r#""done""#), &mut blocks);
    let val = to_value(entry(&result, "status").unwrap());
    let arr = val["val"].as_array().unwrap();
    assert_eq!(arr[0], "opt-1");
}

#[test]
fn normalize_property_label_array() {
    let mut def = make_prop_def("status", "Status", "label");
    def.set = Some(vec![]);
    let mut blocks = Vec::new();
    let result = normalize_property(&def, "status", &doc(r#"["a", "b"]"#), &mut blocks);
    let val = to_value(entry(&result, "status").unwrap());
    assert_eq!(val["val"], json_value(r#"["a", "b"]"#));
}

fn json_value(text: &str) -> Value {
    serde_json::from_str(text).unwrap()
}

#[test]
fn normalize_property_datetime_date_only() {
    let def = make_prop_def("due", "Due", "datetime");
    let mut blocks = Vec::new();
    let result = normalize_property(&def, "due", &doc(r#""2026-03-23""#), &mut blocks);
    let val = to_value(entry(&result, "due").unwrap());
    assert_eq!(val["val"]["dateResolution"], "day");
    assert_eq!(val["val"]["startTime"], "2026-03-23T00:00:00.000Z");
}

#[test]
fn normalize_property_datetime_full_iso() {
    let def = make_prop_def("due", "Due", "datetime");
    let mut blocks = Vec::new();
    let result = normalize_property(&def, "due", &doc(r#""2026-03-23T10:00:00Z""#), &mut blocks);
    let val = to_value(entry(&result, "due").unwrap());
    assert_eq!(val["val"]["dateResolution"], "time");
    assert_eq!(val["val"]["startTime"], "2026-03-23T10:00:00Z");
}

#[test]
fn normalize_property_entity() {
    let mut def = make_prop_def("related", "Related", "entity");
    def.allowed_structures = Some(vec!["StructA".to_string()]);
    let mut blocks = Vec::new();
    let result = normalize_property(&def, "related", &doc(r#""target-id""#), &mut blocks);
    let val = to_value(entry(&result, "related").unwrap());
    let arr = val["val"].as_array().unwrap();
    assert_eq!(arr[0]["id"], "target-id");
    assert!(arr[0]["link"].is_object());
}

#[test]
fn normalize_property_blocks() {
    let def = make_prop_def("notes", "Notes", "blocks");
    let mut blocks = Vec::new();
    let result = normalize_property(&def, "notes", &JsonValue::Str("# Hello\nWorld".to_string()), &mut blocks);
    let notes = blocks.iter().find(|(k, _)| k == "notes").map(|(_, v)| v);
    assert!(notes.is_some());
    assert!(!notes.unwrap().is_empty());
    let val = to_value(entry(&result, "notes").unwrap());
    assert_eq!(val["val"], "notes");
}

#[test]
fn normalize_property_string_passthrough() {
    let def = make_prop_def("url", "URL", "string");
    let mut blocks = Vec::new();
    let result = normalize_property(&def, "url", &doc(r#""https://example.com""#), &mut blocks);
    let val = to_value(entry(&result, "url").unwrap());
    assert_eq!(val["val"], "https://example.com");
}

#[test]
fn normalize_property_unwraps_val() {
    let def = make_prop_def("url", "URL", "string");
    let mut blocks = Vec::new();
    let result = normalize_property(&def, "url", &doc(r#"{"val": "x"}"#), &mut blocks);
    assert_eq!(to_value(entry(&result, "url").unwrap()), json_value(r#"{"val": "x"}"#));
    assert!(blocks.is_empty());
}

#[test]
fn normalize_property_entity_keeps_existing_links() {
    let def = make_prop_def("related", "Related", "entity");
    let mut blocks = Vec::new();
    let raw = doc(r#"[{"id": "a", "link": {"id": "l"}}, "b"]"#);
    let result = normalize_property(&def, "related", &raw, &mut blocks);
    let val = to_value(entry(&result, "related").unwrap());
    assert_eq!(val["val"][0], json_value(r#"{"id": "a", "link": {"id": "l"}}"#));
    assert_eq!(val["val"][1]["id"], "b");
    assert_eq!(val["val"][1]["link"]["data"]["toStructureId"], "");
    assert_eq!(val["val"][1]["link"]["data"]["propertyId"], "related");
}

#[test]
fn normalize_property_empty_date_clears() {
    let def = make_prop_def("due", "Due", "datetime");
    let mut blocks = Vec::new();
    let result = normalize_property(&def, "due", &doc(r#""""#), &mut blocks);
    assert_eq!(to_value(entry(&result, "due").unwrap()), json_value("{}"));
}

#[test]
fn normalize_property_label_without_match_keeps_text() {
    let mut def = make_prop_def("status", "Status", "label");
    def.set = Some(vec![LabelOption { id: "opt-1".to_string(), text: "Done".to_string(), color: "green".to_string() }]);
    let mut blocks = Vec::new();
    let result = normalize_property(&def, "status", &doc(r#""Later""#), &mut blocks);
    assert_eq!(to_value(entry(&result, "status").unwrap()), json_value(r#"{"val": ["Later"]}"#));
    let result = normalize_property(&def, "status", &doc("3"), &mut blocks);
    assert_eq!(to_value(entry(&result, "status").unwrap()), json_value(r#"{"val": []}"#));
}

// --- parse_date_to_inline ---

#[test]
fn parse_date_to_inline_date_only() {
    let (time, res) = parse_date_to_inline("2026-03-23");
    assert_eq!(time, "2026-03-23T00:00:00.000Z");
    assert_eq!(res, "day");
}

#[test]
fn parse_date_to_inline_full_iso_with_z() {
    let (time, res) = parse_date_to_inline("2026-03-23T10:00:00Z");
    assert_eq!(time, "2026-03-23T10:00:00Z");
    assert_eq!(res, "time");
}

#[test]
fn parse_date_to_inline_iso_without_z() {
    let (time, res) = parse_date_to_inline("2026-03-23T10:00:00");
    assert_eq!(time, "2026-03-23T10:00:00Z");
    assert_eq!(res, "time");
}

#[test]
fn parse_date_to_inline_with_offset() {
    let (time, res) = parse_date_to_inline("2026-03-23T10:00:00+09:00");
    assert_eq!(time, "2026-03-23T10:00:00+09:00");
    assert_eq!(res, "time");
}

#[test]
fn parse_date_to_inline_other_text() {
    let (time, res) = parse_date_to_inline("2026-3-2");
    assert_eq!(time, "2026-3-2T00:00:00.000Z");
    assert_eq!(res, "day");
}

// --- create_entity_link ---

#[test]
fn create_entity_link_structure() {
    let link = to_value(&create_entity_link("target-123", "prop-1", "StructA"));
    assert_eq!(link["id"], "target-123");
    assert_eq!(link["link"]["type"], "Dependency");
    assert_eq!(link["link"]["data"]["propertyId"], "prop-1");
    assert_eq!(link["link"]["data"]["toStructureId"], "StructA");
    assert!(link["link"]["id"].as_str().is_some());
    assert!(link["link"]["createdAt"].as_str().is_some());
    assert!(capx::ids::is_uuid(link["link"]["id"].as_str().unwrap()));
}
