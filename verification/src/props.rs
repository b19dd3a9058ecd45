//! Reading and writing the property values of objects.
use vstd::prelude::*;
use crate::clock::is_utc_stamp;
use crate::ids::{is_uuid, is_uuid_text, new_id};
use crate::json::{
    array, at, empty_array, field, json_array, json_str, members, object, pair_views, put, str_at,
    str_or, string, views, Json, JsonValue,
};
use crate::jsontext::{json_text, to_json_text};
use crate::markdown::{is_block_json, markdown_to_blocks, parse_markdown};
use crate::text::{append, copy, lowercase, str_eq, to_chars, to_lowercase, string_views};
use crate::types::{LabelOption, RawPropertyDefinition};

verus! {

/// The status the service gave for the first piece of content it synced, or `unknown`.
pub open spec fn sync_status(res: Json) -> Seq<char> {
    match json_array(at(res, "componentReturnObjects"@)) {
        Some(items) => if items.len() > 0 {
            str_or(str_at(items[0], "status"@), "unknown"@)
        } else {
            "unknown"@
        },
        None => "unknown"@,
    }
}

pub fn extract_sync_status(res: &JsonValue) -> (r: String)
    ensures
        r@ == sync_status(res@),
{
    match res.get("componentReturnObjects") {
        Some(v) => match v.as_array() {
            Some(items) => if items.len() > 0 {
                match items[0].str_member("status") {
                    Some(s) => copy(s),
                    None => copy("unknown"),
                }
            } else {
                copy("unknown")
            },
            None => copy("unknown"),
        },
        None => copy("unknown"),
    }
}

/// `null`, or an empty array.
pub open spec fn empty_value(v: Json) -> bool {
    v == Json::Null || (v is Array && v->Array_0.len() == 0)
}

pub fn is_empty_val(v: &JsonValue) -> (r: bool)
    ensures
        r == empty_value(v@),
{
    match v {
        JsonValue::Null => true,
        JsonValue::Array(a) => a.len() == 0,
        _ => false,
    }
}

/// The identifier an element of an entity list names: the string itself, or its `id`.
pub open spec fn item_entity_id(item: Json) -> Option<Seq<char>> {
    match item {
        Json::Str(s) => Some(s),
        _ => str_at(item, "id"@),
    }
}

pub open spec fn item_ids(items: Seq<Json>) -> Seq<Seq<char>>
    decreases items.len(),
{
    if items.len() == 0 {
        Seq::empty()
    } else {
        item_ids(items.drop_last()) + match item_entity_id(items.last()) {
            Some(s) => seq![s],
            None => Seq::empty(),
        }
    }
}

/// The identifiers an entity property value refers to, in order.
pub open spec fn entity_ids(val: Json) -> Seq<Seq<char>> {
    match val {
        Json::Array(items) => item_ids(items),
        Json::Str(s) => if s.len() > 0 {
            seq![s]
        } else {
            Seq::empty()
        },
        _ => Seq::empty(),
    }
}

/// Adds `s` to a list that holds each string once.
pub fn insert_unique(ids: &mut Vec<String>, s: &str)
    ensures
        string_views(old(ids)@).contains(s@) ==> final(ids)@ == old(ids)@,
        !string_views(old(ids)@).contains(s@) ==> string_views(final(ids)@) == string_views(old(ids)@).push(s@),
{
    let mut i: usize = 0;
    while i < ids.len()
        invariant
            0 <= i <= ids.len(),
            ids@ == old(ids)@,
            forall|k: int| 0 <= k < i ==> ids@[k]@ != s@,
        decreases ids.len() - i,
    {
        if str_eq(ids[i].as_str(), s) {
            assert(string_views(ids@)[i as int] == s@);
            return;
        }
        i += 1;
    }
    assert(!string_views(ids@).contains(s@)) by {
        if string_views(ids@).contains(s@) {
            let k = choose|k: int| 0 <= k < string_views(ids@).len() && string_views(ids@)[k] == s@;
            assert(ids@[k]@ == s@);
        }
    }
    let ghost before = string_views(ids@);
    ids.push(copy(s));
    assert(string_views(ids@) =~= before.push(s@));
}

/// Gathers into `ids` (a list that holds each string once) the identifiers that `val` refers to.
pub fn collect_entity_ids(val: &JsonValue, ids: &mut Vec<String>)
    ensures
        string_views(old(ids)@).no_duplicates() ==> string_views(final(ids)@).no_duplicates(),
        string_views(final(ids)@).to_set() == string_views(old(ids)@).to_set() + entity_ids(val@).to_set(),
{
    match val {
        JsonValue::Array(items) => {
            let ghost iv = views(items@);
            assert(json_array(val@).unwrap() =~= iv);
            let mut i: usize = 0;
            while i < items.len()
                invariant
                    0 <= i <= items.len(),
                    iv == views(items@),
                    string_views(old(ids)@).no_duplicates() ==> string_views(ids@).no_duplicates(),
                    string_views(ids@).to_set() == string_views(old(ids)@).to_set() + item_ids(iv.take(i as int)).to_set(),
                decreases items.len() - i,
            {
                let ghost before = string_views(ids@);
                let id = match &items[i] {
                    JsonValue::Str(s) => Some(s.as_str()),
                    other => other.str_member("id"),
                };
                assert(iv.take(i + 1).drop_last() =~= iv.take(i as int));
                match id {
                    Some(s) => {
                        insert_unique(ids, s);
                        assert(item_ids(iv.take(i + 1)) == item_ids(iv.take(i as int)) + seq![s@]);
                        assert(string_views(ids@).to_set() =~= before.to_set().insert(s@)) by {
                            broadcast use vstd::seq_lib::group_seq_properties;
                        }
                        assert(item_ids(iv.take(i + 1)).to_set() =~= item_ids(iv.take(i as int)).to_set().insert(s@)) by {
                            broadcast use vstd::seq_lib::group_seq_properties;
                        }
                        proof {
                            if !before.contains(s@) {
                                assert(before.push(s@).no_duplicates() <== before.no_duplicates());
                            }
                        }
                    },
                    None => {
                        assert(item_ids(iv.take(i + 1)) =~= item_ids(iv.take(i as int)));
                    },
                }
                i += 1;
            }
            assert(iv.take(items.len() as int) =~= iv);
        },
        JsonValue::Str(s) => {
            let ghost before = string_views(ids@);
            if to_chars(s.as_str()).len() > 0 {
                insert_unique(ids, s.as_str());
                assert(string_views(ids@).to_set() =~= before.to_set().insert(s@)) by {
                            broadcast use vstd::seq_lib::group_seq_properties;
                        }
                assert(seq![s@].to_set() =~= Set::empty().insert(s@)) by {
                            broadcast use vstd::seq_lib::group_seq_properties;
                        }
            } else {
                assert(entity_ids(val@).to_set() =~= Set::<Seq<char>>::empty());
                assert(before.to_set() + Set::<Seq<char>>::empty() =~= before.to_set());
            }
        },
        _ => {
            assert(entity_ids(val@).to_set() =~= Set::<Seq<char>>::empty());
            assert(string_views(ids@).to_set() + Set::<Seq<char>>::empty() =~= string_views(ids@).to_set());
        },
    }
}

} // verus!

verus! {

/// Position of the first entry with key `k` at or after `i`, or -1.
pub open spec fn entry_pos<V>(m: Seq<(String, V)>, k: Seq<char>, i: int) -> int
    decreases m.len() - i,
{
    if i < 0 || i >= m.len() {
        -1
    } else if m[i].0@ == k {
        i
    } else {
        entry_pos(m, k, i + 1)
    }
}

/// Index of the entry for `k` in a keyed list (its first), or `None`.
pub fn find_entry<V>(m: &Vec<(String, V)>, k: &str) -> (r: Option<usize>)
    ensures
        match r {
            Some(i) => i as int == entry_pos(m@, k@, 0) && i < m@.len(),
            None => entry_pos(m@, k@, 0) == -1,
        },
{
    let mut i: usize = 0;
    while i < m.len()
        invariant
            0 <= i <= m.len(),
            entry_pos(m@, k@, 0) == entry_pos(m@, k@, i as int),
        decreases m.len() - i,
    {
        if str_eq(m[i].0.as_str(), k) {
            return Some(i);
        }
        i += 1;
    }
    None
}

/// The title a map gives `k`, or `k` itself.
pub open spec fn title_for(m: Seq<(String, String)>, k: Seq<char>) -> Seq<char> {
    let i = entry_pos(m, k, 0);
    if 0 <= i < m.len() {
        m[i].1@
    } else {
        k
    }
}

pub fn title_or_id(m: &Vec<(String, String)>, k: &str) -> (r: String)
    ensures
        r@ == title_for(m@, k@),
{
    match find_entry(m, k) {
        Some(i) => m[i].1.clone(),
        None => copy(k),
    }
}

/// The identifier an element of an entity value stands for: the string, its `id`, or else its
/// JSON text.
pub open spec fn entity_ref(item: Json) -> Seq<char> {
    match item_entity_id(item) {
        Some(s) => s,
        None => json_text(item),
    }
}

pub open spec fn titled_ref(id: Seq<char>, m: Seq<(String, String)>) -> Json {
    Json::Object(seq![("id"@, Json::Str(id)), ("title"@, Json::Str(title_for(m, id)))])
}

pub open spec fn titled_refs(items: Seq<Json>, m: Seq<(String, String)>) -> Seq<Json> {
    Seq::new(items.len(), |i: int| titled_ref(entity_ref(items[i]), m))
}

/// An entity property value with each referenced entity given its title.
pub open spec fn resolved_entity(val: Json, m: Seq<(String, String)>) -> Json {
    match val {
        Json::Array(items) => Json::Array(titled_refs(items, m)),
        Json::Str(s) => if s.len() == 0 {
            Json::Null
        } else {
            titled_ref(s, m)
        },
        _ => val,
    }
}

fn titled_ref_exec(id: &str, m: &Vec<(String, String)>) -> (r: JsonValue)
    ensures
        r@ == titled_ref(id@, m@),
{
    let mut ps = members();
    put(&mut ps, "id", string(id));
    put(&mut ps, "title", JsonValue::Str(title_or_id(m, id)));
    let r = object(ps);
    assert(pair_views(ps@) =~= seq![("id"@, Json::Str(id@)), ("title"@, Json::Str(title_for(m@, id@)))]);
    r
}

/// Gives each entity an entity property value refers to its title from `title_map`.
pub fn resolve_entity_val(val: &JsonValue, title_map: &Vec<(String, String)>) -> (r: JsonValue)
    ensures
        r@ == resolved_entity(val@, title_map@),
{
    match val {
        JsonValue::Array(items) => {
            let ghost iv = views(items@);
            assert(json_array(val@).unwrap() =~= iv);
            let mut out: Vec<JsonValue> = Vec::new();
            let mut i: usize = 0;
            while i < items.len()
                invariant
                    0 <= i <= items.len(),
                    iv == views(items@),
                    out@.len() == i,
                    forall|k: int| 0 <= k < i ==> (#[trigger] out@[k])@ == titled_ref(entity_ref(iv[k]), title_map@),
                decreases items.len() - i,
            {
                let id = match &items[i] {
                    JsonValue::Str(s) => s.clone(),
                    other => match other.str_member("id") {
                        Some(s) => copy(s),
                        None => to_json_text(other),
                    },
                };
                out.push(titled_ref_exec(id.as_str(), title_map));
                i += 1;
            }
            let r = array(out);
            assert(views(out@) =~= titled_refs(iv, title_map@));
            r
        },
        JsonValue::Str(s) => {
            if to_chars(s.as_str()).len() == 0 {
                JsonValue::Null
            } else {
                titled_ref_exec(s.as_str(), title_map)
            }
        },
        other => other.deep_clone(),
    }
}

/// The date of an inline date value and its resolution: a text holding `T` is a time (a
/// trailing `Z` is added unless it ends in `Z` or holds `+`), any other a day at midnight UTC.
pub open spec fn inline_date(s: Seq<char>) -> (Seq<char>, Seq<char>) {
    if s.contains('T') {
        (
            if (s.len() > 0 && s.last() == 'Z') || s.contains('+') {
                s
            } else {
                s + "Z"@
            },
            "time"@,
        )
    } else {
        (s + "T00:00:00.000Z"@, "day"@)
    }
}

fn holds(v: &Vec<char>, c: char) -> (r: bool)
    ensures
        r == v@.contains(c),
{
    let mut i: usize = 0;
    while i < v.len()
        invariant
            0 <= i <= v.len(),
            forall|k: int| 0 <= k < i ==> v@[k] != c,
        decreases v.len() - i,
    {
        if v[i] == c {
            assert(v@[i as int] == c);
            return true;
        }
        i += 1;
    }
    false
}

/// Parses a date into the start time and resolution of an inline date.
pub fn parse_date_to_inline(date_str: &str) -> (r: (String, String))
    ensures
        (r.0@, r.1@) == inline_date(date_str@),
{
    let v = to_chars(date_str);
    if holds(&v, 'T') {
        let normalized = if (v.len() > 0 && v[v.len() - 1] == 'Z') || holds(&v, '+') {
            copy(date_str)
        } else {
            let mut s = copy(date_str);
            append(&mut s, "Z");
            s
        };
        (normalized, copy("time"))
    } else {
        let mut s = copy(date_str);
        append(&mut s, "T00:00:00.000Z");
        (s, copy("day"))
    }
}

/// A link to `target` from the property `prop` of an entity, with link identifier `lid`
/// created at `at`.
pub open spec fn entity_link(target: Seq<char>, prop: Seq<char>, to_structure: Seq<char>, lid: Seq<char>, at: Seq<char>) -> Json {
    Json::Object(
        seq![
            ("id"@, Json::Str(target)),
            ("link"@, Json::Object(
                seq![
                    ("createdAt"@, Json::Str(at)),
                    ("data"@, Json::Object(
                        seq![("propertyId"@, Json::Str(prop)), ("toStructureId"@, Json::Str(to_structure))],
                    )),
                    ("id"@, Json::Str(lid)),
                    ("type"@, Json::Str("Dependency"@)),
                ],
            )),
        ],
    )
}

/// `j` is a link to `target` as `create_entity_link` makes it: a new identifier, made now.
pub open spec fn is_entity_link(j: Json, target: Seq<char>, prop: Seq<char>, to_structure: Seq<char>) -> bool {
    exists|lid: Seq<char>, at: Seq<char>| is_uuid_text(lid) && is_utc_stamp(at) && j == entity_link(target, prop, to_structure, lid, at)
}

/// A new dependency link from property `property_id` to the entity `target_id`.
pub fn create_entity_link(target_id: &str, property_id: &str, to_structure_id: &str) -> (r: JsonValue)
    ensures
        is_entity_link(r@, target_id@, property_id@, to_structure_id@),
{
    let lid = new_id();
    let at = crate::clock::now_iso();
    let ghost lv = lid@;
    let ghost av = at@;
    let mut data = members();
    put(&mut data, "propertyId", string(property_id));
    put(&mut data, "toStructureId", string(to_structure_id));
    let mut link = members();
    put(&mut link, "createdAt", JsonValue::Str(at));
    let d = object(data);
    assert(pair_views(data@) =~= seq![("propertyId"@, Json::Str(property_id@)), ("toStructureId"@, Json::Str(to_structure_id@))]);
    put(&mut link, "data", d);
    put(&mut link, "id", JsonValue::Str(lid));
    put(&mut link, "type", string("Dependency"));
    let l = object(link);
    let mut ps = members();
    put(&mut ps, "id", string(target_id));
    put(&mut ps, "link", l);
    let r = object(ps);
    assert(pair_views(link@) =~= seq![
        ("createdAt"@, Json::Str(av)),
        ("data"@, Json::Object(seq![("propertyId"@, Json::Str(property_id@)), ("toStructureId"@, Json::Str(to_structure_id@))])),
        ("id"@, Json::Str(lv)),
        ("type"@, Json::Str("Dependency"@)),
    ]);
    assert(pair_views(ps@) =~= seq![
        ("id"@, Json::Str(target_id@)),
        ("link"@, Json::Object(seq![
            ("createdAt"@, Json::Str(av)),
            ("data"@, Json::Object(seq![("propertyId"@, Json::Str(property_id@)), ("toStructureId"@, Json::Str(to_structure_id@))])),
            ("id"@, Json::Str(lv)),
            ("type"@, Json::Str("Dependency"@)),
        ])),
    ]);
    assert(r@ == entity_link(target_id@, property_id@, to_structure_id@, lv, av));
    r
}

} // verus!
