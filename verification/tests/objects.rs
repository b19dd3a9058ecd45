use capx::api::{
    context_ref_is_id, daily_note_body, duplicate_body, first_result, ids_body, lookup_body, should_add_context, space_content_body,
    trash_path, undo_delete_body, weblink_body, Api,
};
use capx::compose::{create_object_request, needs_definitions, save_task_request, update_request};
use capx::context::{add_context_request, context_element, context_status, title_or_untitled};
use capx::formatted::{format_objects, reference_ids, root_entities, structure_ids_of, title_table};
use capx::json::JsonValue;
use capx::space::{
    element_batches, find_daily_note, find_database_in, find_structure_by_name, daily_note_day, structures_in, DatabaseOwner,
};
use capx::summary::SummaryScan;
use capx::sync::{daily_sync_request, delete_request};
use capx::types::{
    Component, RawPropertyDefinition, SearchResponse, SearchResult, SpaceContentElement, ValWrapper,
};
use serde_json::Value;

fn from_value(v: &Value) -> JsonValue {
    match v {
        Value::Null => JsonValue::Null,
        Value::Bool(b) => JsonValue::Bool(*b),
        Value::Number(n) => JsonValue::Number(n.to_string()),
        Value::String(s) => JsonValue::Str(s.clone()),
        Value::Array(a) => JsonValue::Array(a.iter().map(from_value).collect()),
        Value::Object(m) => JsonValue::Object(m.iter().map(|(k, v)| (k.clone(), from_value(v))).collect()),
    }
}

fn to_value(j: &JsonValue) -> Value {
    match j {
        JsonValue::Null => Value::Null,
        JsonValue::Bool(b) => Value::Bool(*b),
        JsonValue::Number(n) => serde_json::from_str(n).unwrap(),
        JsonValue::Str(s) => Value::String(s.clone()),
        JsonValue::Array(a) => Value::Array(a.iter().map(to_value).collect()),
        JsonValue::Object(ps) => {
            let mut m = serde_json::Map::new();
            for (k, v) in ps {
                m.insert(k.clone(), to_value(v));
            }
            Value::Object(m)
        }
    }
}

fn doc(text: &str) -> JsonValue {
    from_value(&serde_json::from_str::<Value>(text).unwrap())
}

fn val(text: &str) -> Value {
    serde_json::from_str(text).unwrap()
}

fn comp(id: &str, comp_type: &str, structure_id: &str, props: &str, data: &str) -> Component {
    Component {
        id: id.to_string(),
        comp_type: comp_type.to_string(),
        structure_id: structure_id.to_string(),
        properties: doc(props),
        data: doc(data),
        databases: None,
        created_at: None,
        last_updated: None,
        delete_requested: None,
        loading_state: None,
        policies: None,
        link_nodes: None,
        local: None,
        extra: vec![],
    }
}

fn def(id: &str, name: &str, data_type: &str) -> RawPropertyDefinition {
    RawPropertyDefinition {
        id: id.to_string(),
        data_type: data_type.to_string(),
        name: Some(ValWrapper { val: name.to_string() }),
        description: None,
        icon: None,
        read_only: false,
        prop_type: String::new(),
        is_array: None,
        allowed_structures: None,
        set: None,
        mode: None,
        constraints: None,
    }
}

fn is_uuid(v: &Value) -> bool {
    capx::ids::is_uuid(v.as_str().unwrap())
}

// --- Api settings and bodies ---

#[test]
fn api_defaults_and_overrides() {
    let api = Api::new("tok".to_string(), None, None);
    assert_eq!(api.appversion(), "electron-1.58.42-1");
    assert_eq!(api.portal_url(), "https://portal.capacities.io");
    assert_eq!(api.url("/user"), "https://portal.capacities.io/user");
    let api = Api::new("tok".to_string(), Some("v2".to_string()), Some("http://x".to_string()));
    assert_eq!(api.appversion(), "v2");
    assert_eq!(api.url("/a"), "http://x/a");
    let h = api.headers();
    assert_eq!(h[1], ("auth-token".to_string(), "tok".to_string()));
    assert_eq!(h[2], ("appversion".to_string(), "v2".to_string()));
}

#[test]
fn request_bodies() {
    assert_eq!(to_value(&lookup_body("q", "s")), val(r#"{"searchTerm": "q", "spaceId": "s"}"#));
    assert_eq!(to_value(&space_content_body("s")), val(r#"{"spaceId": "s"}"#));
    assert_eq!(to_value(&ids_body(&vec!["a".to_string(), "b".to_string()])), val(r#"{"ids": ["a", "b"]}"#));
    assert_eq!(to_value(&duplicate_body("i", "s")), val(r#"{"id": "i", "spaceId": "s"}"#));
    assert_eq!(trash_path("s1"), "/content/trash/s1");
    let u = to_value(&undo_delete_body("i", "s"));
    assert_eq!(u["id"], "i");
    assert!(is_uuid(&u["syncClientId"]));
    assert_eq!(to_value(&daily_note_body("s", "m", false)), val(r#"{"spaceId": "s", "mdText": "m"}"#));
    assert_eq!(to_value(&daily_note_body("s", "m", true)), val(r#"{"spaceId": "s", "mdText": "m", "noTimeStamp": true}"#));
    assert_eq!(
        to_value(&weblink_body("s", "u", Some("t"), None, Some(&vec!["x".to_string()]), Some("m"))),
        val(r#"{"spaceId": "s", "url": "u", "titleOverwrite": "t", "tags": ["x"], "mdText": "m"}"#)
    );
    assert_eq!(to_value(&weblink_body("s", "u", None, Some("d"), None, None)), val(r#"{"spaceId": "s", "url": "u", "descriptionOverwrite": "d"}"#));
}

#[test]
fn context_references() {
    assert!(context_ref_is_id("550E8400-E29B-41D4-A716-446655440000"));
    assert!(!context_ref_is_id("Project Name"));
    let none = SearchResponse { results: vec![] };
    assert!(first_result(&none).is_none());
    let some = SearchResponse {
        results: vec![SearchResult { id: "r1".to_string(), structure_id: "s".to_string(), title: "One".to_string(), snippet: None }],
    };
    assert_eq!(first_result(&some), Some(("r1".to_string(), "One".to_string())));
    assert!(should_add_context("success", Some(&vec!["x".to_string()])));
    assert!(!should_add_context("success", Some(&vec![])));
    assert!(!should_add_context("failed", Some(&vec!["x".to_string()])));
    assert!(!should_add_context("success", None));
}

#[test]
fn daily_note_markdown() {
    let c = comp("d", "RootDailyNote", "", "{}", r#"{"blocks": {"RootDailyNote_notes": [{"type": "HorizontalLineBlock"}]}}"#);
    assert_eq!(Api::daily_note_to_markdown(&c), "---");
    let c = comp("d", "RootDailyNote", "", "{}", "{}");
    assert_eq!(Api::daily_note_to_markdown(&c), "");
}

// --- Writing content ---

fn sole_content(body: &Value) -> Value {
    assert!(is_uuid(&body["syncClientId"]));
    let elements = body["elements"].as_array().unwrap();
    assert_eq!(elements.len(), 1);
    elements[0]["content"].clone()
}

#[test]
fn task_request_shape() {
    let mut status = def("st", "Status", "label");
    status.set = Some(vec![capx::types::LabelOption { id: "o1".to_string(), text: "Done".to_string(), color: "g".to_string() }]);
    let defs = vec![def("title", "Title", "string"), status, def("notes", "Notes", "blocks"), def("who", "Who", "entity"), def("n", "N", "number")];
    let props = vec![("status".to_string(), doc(r#""done""#)), ("extra".to_string(), doc("1"))];
    let (id, body) = save_task_request("sp", "Buy milk", Some("- [ ] milk"), Some(&props), &defs, Some("db1"));
    let body = to_value(&body);
    assert_eq!(body["elements"][0]["spaceId"], "sp");
    let c = sole_content(&body);
    assert_eq!(c["id"], id.as_str());
    assert!(capx::ids::is_uuid(&id));
    assert_eq!(c["type"], "RootTask");
    assert_eq!(c["structureId"], "RootTask");
    assert_eq!(c["properties"]["title"], val(r#"{"val": "Buy milk"}"#));
    assert_eq!(c["properties"]["st"], val(r#"{"val": ["o1"]}"#));
    assert_eq!(c["properties"]["notes"], val(r#"{"val": "notes"}"#));
    assert_eq!(c["properties"]["who"], val(r#"{"val": []}"#));
    assert_eq!(c["properties"]["n"], val("{}"));
    assert_eq!(c["properties"]["extra"], val("1"));
    assert_eq!(c["properties"]["description"], val("{}"));
    assert_eq!(c["data"]["blocks"]["notes"][0]["type"], "ChecklistBlock");
    assert_eq!(c["databases"][0]["id"], "db1");
    assert!(is_uuid(&c["databases"][0]["link"]["id"]));
    assert_eq!(c["policies"][0]["principals"][0]["config"]["spaceId"], "sp");
    assert_eq!(c["createdAt"], c["lastUpdated"]);
    let (_, body) = save_task_request("sp", "t", Some("x"), None, &vec![], None);
    let c = sole_content(&to_value(&body));
    assert_eq!(c["databases"], val("[]"));
    assert_eq!(c["data"]["blocks"]["RootTask_notes"][0]["type"], "TextBlock");
}

#[test]
fn create_request_shape() {
    let defs = vec![def("body", "Body", "blocks"), def("tags", "Tags", "entity")];
    let (id, body) = create_object_request("sp", "Page", "T", Some("D"), None, Some("# H"), &defs, None);
    let c = sole_content(&to_value(&body));
    assert_eq!(c["id"], id.as_str());
    assert_eq!(c["type"], "RootEntity");
    assert_eq!(c["structureId"], "Page");
    assert_eq!(c["properties"]["description"], val(r#"{"val": "D"}"#));
    assert_eq!(c["properties"]["tags"], val(r#"{"val": []}"#));
    assert_eq!(c["properties"]["body"], val(r#"{"val": "body"}"#));
    assert_eq!(c["data"]["blocks"]["body"][0]["hierarchy"]["key"], "H1");
    assert!(is_uuid(&c["databases"][0]["id"]));
    let (_, body) = create_object_request("sp", "Page", "T", None, None, Some("ignored"), &vec![], Some("db"));
    let c = sole_content(&to_value(&body));
    assert_eq!(c["properties"]["description"], val("{}"));
    assert_eq!(c["data"]["blocks"], val("{}"));
    assert_eq!(c["databases"][0]["id"], "db");
}

#[test]
fn update_request_shape() {
    let mut c = comp("o1", "RootEntity", "Page", r#"{"title": {"val": "Old"}, "x": {"val": 1}}"#, r#"{"blocks": {"body": [], "other": [{"type": "HorizontalLineBlock"}]}}"#);
    c.extra = vec![("custom".to_string(), doc("true"))];
    c.last_updated = Some("before".to_string());
    assert!(!needs_definitions(None, None));
    assert!(!needs_definitions(Some(&vec![]), None));
    assert!(needs_definitions(None, Some("b")));
    let defs = vec![def("body", "Body", "blocks"), def("notes", "Notes", "blocks")];
    let props = vec![("Notes".to_string(), doc(r#""n""#))];
    let body = update_request("sp", &c, Some("New"), None, Some("text"), Some(&props), &defs);
    let m = sole_content(&to_value(&body));
    assert_eq!(m["id"], "o1");
    assert_eq!(m["custom"], true);
    assert_ne!(m["lastUpdated"], "before");
    assert_eq!(m["properties"]["title"], val(r#"{"val": "New"}"#));
    assert_eq!(m["properties"]["x"], val(r#"{"val": 1}"#));
    assert_eq!(m["properties"]["notes"], val(r#"{"val": "notes"}"#));
    assert_eq!(m["data"]["blocks"]["notes"][0]["type"], "TextBlock");
    assert_eq!(m["data"]["blocks"]["body"][0]["tokens"][0]["text"], "text");
    assert_eq!(m["data"]["blocks"]["other"][0]["type"], "HorizontalLineBlock");
}

#[test]
fn delete_and_daily_requests() {
    let c = comp("o1", "RootEntity", "Page", "{}", "null");
    let m = sole_content(&to_value(&delete_request("sp", &c)));
    assert_eq!(m["deleteRequested"], true);
    assert_eq!(m["id"], "o1");
    assert!(m["lastUpdated"].is_string());
    let d = comp("d", "RootDailyNote", "", "{}", r#"{"blocks": {"keep": 1}}"#);
    let m = sole_content(&to_value(&daily_sync_request("sp", &d, vec![doc(r#"{"type": "HorizontalLineBlock"}"#)])));
    assert_eq!(m["data"]["blocks"]["keep"], 1);
    assert_eq!(m["data"]["blocks"]["RootDailyNote_notes"][0]["type"], "HorizontalLineBlock");
    let d = comp("d", "RootDailyNote", "", "{}", "null");
    let m = sole_content(&to_value(&daily_sync_request("sp", &d, vec![])));
    assert_eq!(m["data"], val(r#"{"blocks": {"RootDailyNote_notes": []}}"#));
}

// --- Context ---

#[test]
fn context_links_once() {
    let target = comp("t1", "RootEntity", "Person", r#"{"title": {"val": "Alice"}}"#, "{}");
    assert_eq!(title_or_untitled(&target.properties), "Alice");
    assert_eq!(title_or_untitled(&doc("{}")), "Untitled");
    let defs = vec![def("body", "Body", "blocks")];
    let ctx = comp("c1", "RootEntity", "Page", "{}", r#"{"blocks": {}}"#);
    let e = to_value(&context_element("sp", &ctx, &defs, "t1", "Alice", "Person", "now").unwrap());
    let block = &e["content"]["data"]["blocks"]["body"][0];
    assert_eq!(block["tokens"][0]["entity"]["id"], "t1");
    assert_eq!(block["tokens"][0]["text"], "Alice");
    assert_eq!(block["tokens"][0]["entity"]["link"]["data"]["toStructureId"], "Person");
    assert_eq!(e["content"]["lastUpdated"], "now");
    let linked = comp("c1", "RootEntity", "Page", "{}", &serde_json::to_string(&e["content"]["data"]).unwrap());
    assert!(context_element("sp", &linked, &defs, "t1", "Alice", "Person", "later").is_none());
    let no_body = comp("c2", "RootEntity", "Page", "{}", r#"{"blocks": {}}"#);
    assert!(context_element("sp", &no_body, &vec![], "t1", "Alice", "Person", "now").is_none());
    let not_list = comp("c3", "RootEntity", "Page", "{}", r#"{"blocks": {"body": 3}}"#);
    assert!(context_element("sp", &not_list, &defs, "t1", "Alice", "Person", "now").is_none());
    let r = add_context_request("sp", "t1", &target, &vec![ctx, no_body], &vec![vec![def("body", "Body", "blocks")], vec![]]);
    let r = to_value(&r.unwrap());
    assert_eq!(r["elements"].as_array().unwrap().len(), 1);
    assert!(add_context_request("sp", "t1", &target, &vec![], &vec![]).is_none());
}

#[test]
fn context_statuses() {
    assert_eq!(context_status(&doc(r#"{"componentReturnObjects": [{"status": "success"}, {"status": "success"}]}"#)), "success");
    assert_eq!(context_status(&doc("{}")), "success");
    assert_eq!(
        context_status(&doc(r#"{"componentReturnObjects": [{"status": "success"}, {"status": "failed"}, {}]}"#)),
        r#"partial: ["success", "failed"]"#
    );
}

// --- Reading a space ---

#[test]
fn batches_of_fifty() {
    let elements: Vec<SpaceContentElement> =
        (0..120).map(|i| SpaceContentElement { id: format!("e{i}"), last_updated: String::new() }).collect();
    let b = element_batches(&elements);
    assert_eq!(b.iter().map(|x| x.len()).collect::<Vec<_>>(), vec![50, 50, 20]);
    assert_eq!(b[2][0], "e100");
    assert!(element_batches(&vec![]).is_empty());
}

#[test]
fn database_lookup() {
    let mut a = comp("a", "RootTask", "", "{}", "{}");
    a.databases = Some(vec![doc(r#"{"id": 5}"#)]);
    let mut b = comp("b", "RootTask", "", "{}", "{}");
    b.databases = Some(vec![doc(r#"{"id": "db-b"}"#), doc(r#"{"id": "db-c"}"#)]);
    let mut c = comp("c", "RootEntity", "Page", "{}", "{}");
    c.databases = Some(vec![doc(r#"{"id": "db-page"}"#)]);
    let comps = vec![a, b, c];
    assert_eq!(find_database_in(&comps, &DatabaseOwner::OfType("RootTask".to_string())), Some("db-b".to_string()));
    assert_eq!(find_database_in(&comps, &DatabaseOwner::OfStructure("Page".to_string())), Some("db-page".to_string()));
    assert_eq!(find_database_in(&comps, &DatabaseOwner::OfStructure("Other".to_string())), None);
}

#[test]
fn daily_note_by_day() {
    assert_eq!(daily_note_day("2026-03-23"), Some((2026, 3, 23)));
    assert_eq!(daily_note_day("2026-13-01"), None);
    assert_eq!(daily_note_day("yesterday"), None);
    let mut a = comp("a", "RootDailyNote", "", "{}", "{}");
    a.created_at = Some("2026-03-22T23:30:00-05:00".to_string());
    let mut b = comp("b", "RootPage", "", "{}", "{}");
    b.created_at = Some("2026-03-23T01:00:00Z".to_string());
    let mut c = comp("c", "RootDailyNote", "", "{}", "{}");
    c.created_at = Some("2026-03-23T08:00:00.123Z".to_string());
    let comps = vec![a, b, c];
    assert_eq!(find_daily_note(&comps, (2026, 3, 23)), Some(2));
    assert_eq!(find_daily_note(&comps, (2026, 3, 22)), Some(0));
    assert_eq!(find_daily_note(&comps, (2026, 3, 24)), None);
}

#[test]
fn structures_and_names() {
    let mut label = def("st", "Status", "label");
    label.set = Some(vec![capx::types::LabelOption { id: "o".to_string(), text: "T".to_string(), color: "c".to_string() }]);
    let mut nameless = def("p2", "x", "string");
    nameless.name = None;
    let comps = vec![
        comp("S1", "RootStructure", "", r#"{"title": {"val": "Book"}, "pluralName": {"val": "Books"}, "icon": {"x": 1}}"#, "{}"),
        comp("E1", "RootEntity", "S1", "{}", "{}"),
        comp("S2", "RootStructure", "", "{}", "{}"),
    ];
    let defs = vec![vec![label, nameless], vec![], vec![]];
    let s = structures_in(&comps, &defs);
    assert_eq!(s.len(), 2);
    assert_eq!(s[0].id, "S1");
    assert_eq!(s[0].title, "Book");
    assert_eq!(s[0].plural_name, "Books");
    assert!(s[0].icon.is_some());
    assert_eq!(s[0].properties[0].options.as_ref().unwrap()[0].text, "T");
    assert_eq!(s[0].properties[1].name, "p2");
    assert_eq!(s[1].title, "");
    assert!(s[1].icon.is_none());
    assert_eq!(find_structure_by_name(&s, "BOOKS"), Some(0));
    assert_eq!(find_structure_by_name(&s, "book"), Some(0));
    assert_eq!(find_structure_by_name(&s, ""), Some(1));
    assert_eq!(find_structure_by_name(&s, "film"), None);
}

#[test]
fn space_summary() {
    let elements = vec![
        SpaceContentElement { id: "e1".to_string(), last_updated: "t1".to_string() },
        SpaceContentElement { id: "e2".to_string(), last_updated: "t2".to_string() },
        SpaceContentElement { id: "e3".to_string(), last_updated: "t3".to_string() },
    ];
    let batch = vec![
        comp("S1", "RootStructure", "", r#"{"title": {"val": "Book"}}"#, "{}"),
        comp("e1", "RootEntity", "S1", r#"{"title": {"val": "Dune"}}"#, "{}"),
        comp("e2", "RootEntity", "S2", "{}", "{}"),
        comp("e3", "RootEntity", "S3", "{}", "{}"),
        comp("zz", "RootEntity", "S1", "{}", "{}"),
    ];
    let mut scan = SummaryScan::new();
    scan.scan_batch(&elements, &batch);
    assert_eq!(scan.rows.len(), 3);
    assert_eq!(scan.unresolved(), vec!["S2".to_string(), "S3".to_string()]);
    scan.scan_structures(&vec![comp("S2", "RootStructure", "", r#"{"title": {"val": "Film"}}"#, "{}")]);
    assert_eq!(scan.unresolved(), vec!["S3".to_string()]);
    let all = scan.finish(None);
    assert_eq!(all.total, 3);
    assert_eq!(all.elements.len(), 3);
    assert_eq!(all.elements[0].title, "Dune");
    assert_eq!(all.elements[1].title, "Untitled");
    assert_eq!(all.elements[0].type_title, "Book");
    assert_eq!(all.elements[2].type_title, "S3");
    assert_eq!(all.elements[1].last_updated, "t2");
    assert_eq!(all.summary.iter().map(|(_, n)| n).sum::<usize>(), all.total);
    let films = scan.finish(Some(&vec!["FILM".to_string()]));
    assert_eq!(films.total, 3);
    assert_eq!(films.elements.len(), 1);
    assert_eq!(films.elements[0].id, "e2");
}

#[test]
fn formatted_objects() {
    let mut label = def("st", "Status", "label");
    label.set = Some(vec![capx::types::LabelOption { id: "o1".to_string(), text: "Done".to_string(), color: "c".to_string() }]);
    let struct_defs = vec![
        def("title", "Title", "string"),
        label,
        def("who", "Who", "entity"),
        def("notes", "Notes", "blocks"),
        def("url", "URL", "string"),
        def("n", "Count", "number"),
        def("empty", "Empty", "datetime"),
    ];
    let entity = comp(
        "e1",
        "RootEntity",
        "S1",
        r#"{"title": {"val": "Dune"}, "description": {"val": ""}, "tags": {"val": ["tag1", 3]},
            "st": {"val": ["o1", "zz"]}, "who": {"val": ["p1", "p2"]}, "url": {"val": "u"}, "n": {"val": 0}, "empty": {"val": ""}}"#,
        r#"{"blocks": {"notes": [{"type": "HorizontalLineBlock"}], "more": [], "ws": [{"type": "TextBlock"}]}}"#,
    );
    let comps = vec![
        comp("S1", "RootStructure", "", r#"{"title": {"val": "Book"}}"#, "{}"),
        comp("x", "RootEntity", "", "{}", "{}"),
    ];
    let entities = root_entities(vec![comp("S9", "RootStructure", "", "{}", "{}"), entity]);
    assert_eq!(entities.len(), 1);
    assert_eq!(structure_ids_of(&entities), vec!["S1".to_string()]);
    let defs = vec![struct_defs, vec![]];
    let mut refs = reference_ids(&entities, &comps, &defs);
    refs.sort();
    assert_eq!(refs, vec!["p1".to_string(), "p2".to_string(), "tag1".to_string()]);
    let titles = title_table(&vec![comp("p1", "RootEntity", "", r#"{"title": {"val": "Paul"}}"#, "{}"), comp("tag1", "RootTag", "", "{}", "{}")]);
    let objs = format_objects(&entities, &comps, &defs, &titles);
    assert_eq!(objs.len(), 1);
    let o = &objs[0];
    assert_eq!(o.title, "Dune");
    assert_eq!(o.type_title.as_deref(), Some("Book"));
    assert!(o.description.is_none());
    assert_eq!(o.tags, Some(vec!["tag1".to_string()]));
    let p = |k: &str| o.properties.iter().find(|(n, _)| n == k).map(|(_, v)| to_value(v));
    assert_eq!(p("Status"), Some(val(r#"["Done", "zz"]"#)));
    assert_eq!(p("Who"), Some(val(r#"[{"id": "p1", "title": "Paul"}, {"id": "p2", "title": "p2"}]"#)));
    assert_eq!(p("Notes"), Some(val(r#""---""#)));
    assert_eq!(p("URL"), Some(val(r#""u""#)));
    assert_eq!(p("Count"), Some(val("0")));
    assert_eq!(p("Empty"), None);
    assert_eq!(p("Title"), None);
    assert_eq!(o.body, "---");
    let unknown = format_objects(&vec![comp("e2", "RootEntity", "S7", "{}", "{}")], &comps, &defs, &titles);
    assert!(unknown[0].type_title.is_none());
    assert!(unknown[0].properties.is_empty());
    assert!(unknown[0].tags.is_none());
}
