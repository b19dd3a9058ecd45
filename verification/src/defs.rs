//! Property definitions: finding the definition a user's key names, and writing a user's
//! value in the form its definition asks for.
use vstd::prelude::*;
use crate::ids::{is_uuid, is_uuid_text};
use crate::json::{array, empty_array, field, members, object, pair_views, put, string, views, Json, JsonValue};
use crate::jsontext::{json_text, to_json_text};
use crate::keyed::{get_index, index_view, kget, kset, lemma_kset, list_map_view, set_index, set_list};
use crate::markdown::{is_block_json, markdown_to_blocks, parse_markdown};
use crate::props::{create_entity_link, inline_date, is_entity_link, parse_date_to_inline};
use crate::text::{copy, lowercase, str_eq, to_chars, to_lowercase};
use crate::types::{LabelOption, RawPropertyDefinition};

verus! {

/// `d` has a name, and its lowercase form is `k`.
pub open spec fn named(d: RawPropertyDefinition, k: Seq<char>) -> bool {
    match d.name {
        Some(n) => lowercase(n.val@) == k,
        None => false,
    }
}

/// The last of the first `n` definitions whose lowercase name is `k`.
pub open spec fn last_named(defs: Seq<RawPropertyDefinition>, k: Seq<char>, n: int) -> Option<int>
    decreases n,
{
    if n <= 0 {
        None
    } else if named(defs[n - 1], k) {
        Some(n - 1)
    } else {
        last_named(defs, k, n - 1)
    }
}

/// Maps each lowercase definition name to the position of the last definition with that name.
pub fn name_index(defs: &Vec<RawPropertyDefinition>) -> (r: Vec<(String, usize)>)
    ensures
        forall|k: Seq<char>| #[trigger] kget(index_view(r@), k) == last_named(defs@, k, defs@.len() as int),
        forall|j: int| 0 <= j < r@.len() ==> (#[trigger] r@[j]).1 < defs@.len(),
{
    let mut r: Vec<(String, usize)> = Vec::new();
    let mut i: usize = 0;
    while i < defs.len()
        invariant
            0 <= i <= defs.len(),
            forall|k: Seq<char>| #[trigger] kget(index_view(r@), k) == last_named(defs@, k, i as int),
            forall|j: int| 0 <= j < r@.len() ==> (#[trigger] r@[j]).1 < i,
        decreases defs.len() - i,
    {
        let ghost before = index_view(r@);
        let ghost rb = r@;
        match &defs[i].name {
            Some(n) => {
                let key = to_lowercase(n.val.as_str());
                set_index(&mut r, key.as_str(), i);
                assert forall|k: Seq<char>| #[trigger] kget(index_view(r@), k) == last_named(defs@, k, i + 1) by {
                    lemma_kset(before, key@, i as int, k);
                }
                assert forall|j: int| 0 <= j < r@.len() implies (#[trigger] r@[j]).1 < i + 1 by {
                    assert(index_view(r@)[j].1 == r@[j].1 as int);
                    if j < rb.len() && index_view(r@)[j] == before[j] {
                        assert(before[j].1 == rb[j].1 as int);
                    }
                }
            },
            None => {
                assert forall|k: Seq<char>| #[trigger] kget(index_view(r@), k) == last_named(defs@, k, i + 1) by {
                    assert(!named(defs@[i as int], k));
                }
            },
        }
        i += 1;
    }
    r
}

/// The first definition whose identifier is `k`.
pub open spec fn id_pos(defs: Seq<RawPropertyDefinition>, k: Seq<char>, i: int) -> Option<int>
    decreases defs.len() - i,
{
    if i < 0 || i >= defs.len() {
        None
    } else if defs[i].id@ == k {
        Some(i)
    } else {
        id_pos(defs, k, i + 1)
    }
}

/// The property a user's key stands for, and its definition: a UUID (in any case) names the
/// property of that identifier, anything else is looked up by lowercase name.
pub open spec fn resolved_key(key: Seq<char>, defs: Seq<RawPropertyDefinition>, names: Seq<(String, usize)>) -> (Seq<char>, Option<int>) {
    if is_uuid_text(lowercase(key)) {
        (key, id_pos(defs, key, 0))
    } else {
        match kget(index_view(names), lowercase(key)) {
            Some(i) => (defs[i].id@, Some(i)),
            None => (key, None),
        }
    }
}

pub open spec fn opt_index(o: Option<usize>) -> Option<int> {
    match o {
        Some(i) => Some(i as int),
        None => None,
    }
}

/// Finds the property identifier and definition (by position) that `key` names.
pub fn resolve_prop_key(key: &str, prop_defs: &Vec<RawPropertyDefinition>, name_map: &Vec<(String, usize)>) -> (r: (String, Option<usize>))
    requires
        forall|j: int| 0 <= j < name_map@.len() ==> (#[trigger] name_map@[j]).1 < prop_defs@.len(),
    ensures
        (r.0@, opt_index(r.1)) == resolved_key(key@, prop_defs@, name_map@),
        match r.1 {
            Some(i) => i < prop_defs@.len(),
            None => true,
        },
{
    let lower = to_lowercase(key);
    if is_uuid(lower.as_str()) {
        let mut i: usize = 0;
        while i < prop_defs.len()
            invariant
                0 <= i <= prop_defs.len(),
                id_pos(prop_defs@, key@, 0) == id_pos(prop_defs@, key@, i as int),
                is_uuid_text(lowercase(key@)),
            decreases prop_defs.len() - i,
        {
            if str_eq(prop_defs[i].id.as_str(), key) {
                assert(id_pos(prop_defs@, key@, i as int) == Some(i as int));
                return (copy(key), Some(i));
            }
            i += 1;
        }
        (copy(key), None)
    } else {
        match get_index(name_map, lower.as_str()) {
            Some(i) => {
                let ghost iv = index_view(name_map@);
                proof {
                    let p = crate::keyed::kpos(iv, lower@, 0);
                    crate::keyed::lemma_kpos(iv, lower@, 0);
                    assert(iv[p].1 == name_map@[p].1 as int);
                }
                (prop_defs[i].id.clone(), Some(i))
            },
            None => (copy(key), None),
        }
    }
}

/// The first label option whose text matches `s` in any case, or whose identifier is `s`.
pub open spec fn label_pos(set: Seq<LabelOption>, s: Seq<char>, i: int) -> int
    decreases set.len() - i,
{
    if i < 0 || i >= set.len() {
        -1
    } else if lowercase(set[i].text@) == lowercase(s) || set[i].id@ == s {
        i
    } else {
        label_pos(set, s, i + 1)
    }
}

pub proof fn lemma_label_pos(set: Seq<LabelOption>, s: Seq<char>, i: int)
    requires
        0 <= i,
    ensures
        label_pos(set, s, i) == -1 || i <= label_pos(set, s, i) < set.len(),
    decreases set.len() - i,
{
    if i < set.len() && !(lowercase(set[i].text@) == lowercase(s) || set[i].id@ == s) {
        lemma_label_pos(set, s, i + 1);
    }
}

/// The identifier of the option `s` names, or `s` itself.
pub open spec fn label_choice(set: Seq<LabelOption>, s: Seq<char>) -> Seq<char> {
    let p = label_pos(set, s, 0);
    if 0 <= p < set.len() {
        set[p].id@
    } else {
        s
    }
}

fn label_choice_exec(set: &Vec<LabelOption>, s: &str) -> (r: String)
    ensures
        r@ == label_choice(set@, s@),
{
    let lower = to_lowercase(s);
    let mut i: usize = 0;
    while i < set.len()
        invariant
            0 <= i <= set.len(),
            lower@ == lowercase(s@),
            label_pos(set@, s@, 0) == label_pos(set@, s@, i as int),
        decreases set.len() - i,
    {
        let t = to_lowercase(set[i].text.as_str());
        if str_eq(t.as_str(), lower.as_str()) || str_eq(set[i].id.as_str(), s) {
            return set[i].id.clone();
        }
        i += 1;
    }
    proof {
        lemma_label_pos(set@, s@, 0);
    }
    copy(s)
}

/// `{ "val": v }`.
pub open spec fn val_obj(v: Json) -> Json {
    Json::Object(seq![("val"@, v)])
}

pub fn val_wrap(v: JsonValue) -> (r: JsonValue)
    ensures
        r@ == val_obj(v@),
{
    let mut ps = members();
    put(&mut ps, "val", v);
    let r = object(ps);
    assert(pair_views(ps@) =~= seq![("val"@, v@)]);
    r
}

/// A user's value with a `{ "val": .. }` wrapper taken off.
pub open spec fn unwrapped(raw: Json) -> Json {
    match field(raw, "val"@) {
        Some(inner) => inner,
        None => raw,
    }
}

/// The text a value stands for: a string's own text, or the JSON text of anything else.
pub open spec fn text_of(val: Json) -> Seq<char> {
    match val {
        Json::Str(s) => s,
        _ => json_text(val),
    }
}

fn text_of_exec(val: &JsonValue) -> (r: String)
    ensures
        r@ == text_of(val@),
{
    match val {
        JsonValue::Str(s) => s.clone(),
        _ => to_json_text(val),
    }
}

/// A label value: a string is looked up among the options, an array is kept, anything else
/// clears the label; without options the value is kept as it is.
pub open spec fn label_value(def: RawPropertyDefinition, val: Json) -> Json {
    match def.set {
        Some(set) => match val {
            Json::Str(s) => val_obj(Json::Array(seq![Json::Str(label_choice(set@, s))])),
            Json::Array(a) => val_obj(Json::Array(a)),
            _ => val_obj(Json::Array(Seq::empty())),
        },
        None => val_obj(val),
    }
}

/// A date value: a non-empty string becomes an inline date, an empty one clears the value.
pub open spec fn date_value(val: Json) -> Json {
    match val {
        Json::Str(s) => if s.len() > 0 {
            val_obj(
                Json::Object(
                    seq![
                        ("dateResolution"@, Json::Str(inline_date(s).1)),
                        ("startTime"@, Json::Str(inline_date(s).0)),
                    ],
                ),
            )
        } else {
            Json::Object(Seq::empty())
        },
        _ => val_obj(val),
    }
}

/// The entities an entity value lists: the elements of an array, nothing for `null`, else the
/// value itself.
pub open spec fn entity_items(val: Json) -> Seq<Json> {
    match val {
        Json::Array(a) => a,
        Json::Null => Seq::empty(),
        _ => seq![val],
    }
}

/// The structure an entity property links to: the first it allows, or none.
pub open spec fn first_structure(def: RawPropertyDefinition) -> Seq<char> {
    match def.allowed_structures {
        Some(v) => if v@.len() > 0 {
            v@[0]@
        } else {
            ""@
        },
        None => ""@,
    }
}

/// `out` is what `item` becomes in an entity value: kept if it has a link already, else a new
/// link to the entity it names.
pub open spec fn entity_linked(item: Json, out: Json, prop: Seq<char>, to: Seq<char>) -> bool {
    if field(item, "link"@) is Some {
        out == item
    } else {
        is_entity_link(out, text_of(item), prop, to)
    }
}

pub open spec fn entity_value(out: Json, def: RawPropertyDefinition, prop: Seq<char>, val: Json) -> bool {
    exists|linked: Seq<Json>|
        #![trigger val_obj(Json::Array(linked))]
        out == val_obj(Json::Array(linked)) && linked.len() == entity_items(val).len() && forall|k: int|
            0 <= k < linked.len() ==> entity_linked(
                #[trigger] entity_items(val)[k],
                linked[k],
                prop,
                first_structure(def),
            )
}

/// `bl` are the blocks of markdown `md`, whatever identifiers they were given.
pub open spec fn md_blocks(md: Seq<char>, bl: Seq<Json>) -> bool {
    bl.len() == parse_markdown(md).len() && forall|i: int|
        0 <= i < bl.len() ==> is_block_json(#[trigger] bl[i], parse_markdown(md)[i])
}

/// `out` is the stored form of the user's value `raw` for the property `prop` defined by
/// `def`; `before` and `after` are the block lists of the object around it.
pub open spec fn normalized(
    def: RawPropertyDefinition,
    prop: Seq<char>,
    raw: Json,
    out: Json,
    before: Seq<(Seq<char>, Seq<Json>)>,
    after: Seq<(Seq<char>, Seq<Json>)>,
) -> bool {
    let val = unwrapped(raw);
    let dt = def.data_type@;
    if dt == "blocks"@ {
        &&& out == val_obj(Json::Str(prop))
        &&& exists|bl: Seq<Json>| md_blocks(text_of(val), bl) && after == #[trigger] kset(before, prop, bl)
    } else {
        &&& after == before
        &&& if dt == "label"@ {
            out == label_value(def, val)
        } else if dt == "datetime"@ {
            out == date_value(val)
        } else if dt == "entity"@ {
            entity_value(out, def, prop, val)
        } else {
            out == val_obj(val)
        }
    }
}

fn label_value_exec(def: &RawPropertyDefinition, val: &JsonValue) -> (r: JsonValue)
    ensures
        r@ == label_value(*def, val@),
{
    match &def.set {
        Some(set) => match val {
            JsonValue::Str(s) => {
                let id = label_choice_exec(set, s.as_str());
                let ghost idv = id@;
                let v = vec![JsonValue::Str(id)];
                assert(views(v@) =~= seq![Json::Str(idv)]);
                val_wrap(array(v))
            },
            JsonValue::Array(_) => val_wrap(val.deep_clone()),
            _ => val_wrap(empty_array()),
        },
        None => val_wrap(val.deep_clone()),
    }
}

fn date_value_exec(val: &JsonValue) -> (r: JsonValue)
    ensures
        r@ == date_value(val@),
{
    match val {
        JsonValue::Str(s) => {
            if to_chars(s.as_str()).len() > 0 {
                let (start, res) = parse_date_to_inline(s.as_str());
                let ghost sv = start@;
                let ghost rv = res@;
                let mut ps = members();
                put(&mut ps, "dateResolution", JsonValue::Str(res));
                put(&mut ps, "startTime", JsonValue::Str(start));
                let o = object(ps);
                assert(pair_views(ps@) =~= seq![("dateResolution"@, Json::Str(rv)), ("startTime"@, Json::Str(sv))]);
                val_wrap(o)
            } else {
                let ps = members();
                object(ps)
            }
        },
        _ => val_wrap(val.deep_clone()),
    }
}

fn entity_items_exec(val: &JsonValue) -> (r: Vec<JsonValue>)
    ensures
        views(r@) == entity_items(val@),
{
    match val {
        JsonValue::Array(_) => {
            let c = val.deep_clone();
            match c {
                JsonValue::Array(a) => {
                    assert(views(a@) =~= entity_items(val@));
                    a
                },
                _ => Vec::new(),
            }
        },
        JsonValue::Null => {
            let v: Vec<JsonValue> = Vec::new();
            assert(views(v@) =~= entity_items(val@));
            v
        },
        _ => {
            let v = vec![val.deep_clone()];
            assert(views(v@) =~= entity_items(val@));
            v
        },
    }
}

fn first_structure_exec(def: &RawPropertyDefinition) -> (r: String)
    ensures
        r@ == first_structure(*def),
{
    match &def.allowed_structures {
        Some(v) => if v.len() > 0 {
            v[0].clone()
        } else {
            copy("")
        },
        None => copy(""),
    }
}

fn entity_value_exec(def: &RawPropertyDefinition, prop_id: &str, val: &JsonValue) -> (r: JsonValue)
    ensures
        entity_value(r@, *def, prop_id@, val@),
{
    let items = entity_items_exec(val);
    let ghost iv = views(items@);
    let to = first_structure_exec(def);
    let mut linked: Vec<JsonValue> = Vec::new();
    let mut i: usize = 0;
    while i < items.len()
        invariant
            0 <= i <= items.len(),
            iv == views(items@),
            iv == entity_items(val@),
            to@ == first_structure(*def),
            linked@.len() == i,
            forall|k: int| 0 <= k < i ==> entity_linked(iv[k], (#[trigger] linked@[k])@, prop_id@, to@),
        decreases items.len() - i,
    {
        let item = &items[i];
        if item.get("link").is_some() {
            linked.push(item.deep_clone());
        } else {
            let target = text_of_exec(item);
            linked.push(create_entity_link(target.as_str(), prop_id, to.as_str()));
        }
        i += 1;
    }
    let ghost lv = views(linked@);
    let r = val_wrap(array(linked));
    assert(forall|k: int| 0 <= k < lv.len() ==> entity_linked(entity_items(val@)[k], lv[k], prop_id@, first_structure(*def)));
    assert(r@ == val_obj(Json::Array(lv)));
    r
}

/// Writes the user's value `raw_val` for the property `prop_id` in the form its definition
/// asks for; a body of blocks is written into `blocks`.
pub fn normalize_property(
    prop_def: &RawPropertyDefinition,
    prop_id: &str,
    raw_val: &JsonValue,
    blocks: &mut Vec<(String, Vec<JsonValue>)>,
) -> (r: Vec<(String, JsonValue)>)
    ensures
        r@.len() == 1,
        r@[0].0@ == prop_id@,
        normalized(*prop_def, prop_id@, raw_val@, r@[0].1@, list_map_view(old(blocks)@), list_map_view(final(blocks)@)),
{
    let val: &JsonValue = match raw_val.get("val") {
        Some(inner) => inner,
        None => raw_val,
    };
    assert(val@ == unwrapped(raw_val@));
    let dt = prop_def.data_type.as_str();
    let out = if str_eq(dt, "blocks") {
        let md = text_of_exec(val);
        let bl = markdown_to_blocks(md.as_str());
        let ghost bv = views(bl@);
        assert(md_blocks(md@, bv));
        set_list(blocks, prop_id, bl);
        val_wrap(string(prop_id))
    } else if str_eq(dt, "label") {
        label_value_exec(prop_def, val)
    } else if str_eq(dt, "datetime") {
        date_value_exec(val)
    } else if str_eq(dt, "entity") {
        entity_value_exec(prop_def, prop_id, val)
    } else {
        val_wrap(val.deep_clone())
    };
    let mut r: Vec<(String, JsonValue)> = Vec::new();
    r.push((copy(prop_id), out));
    r
}

} // verus!

verus! {

/// The property a user's key stands for, and its definition, read from the definitions
/// alone: a UUID (in any case) names the property of that identifier, anything else the last
/// definition with that lowercase name.
pub open spec fn resolved(key: Seq<char>, defs: Seq<RawPropertyDefinition>) -> (Seq<char>, Option<int>) {
    if is_uuid_text(lowercase(key)) {
        (key, id_pos(defs, key, 0))
    } else {
        match last_named(defs, lowercase(key), defs.len() as int) {
            Some(i) => (defs[i].id@, Some(i)),
            None => (key, None),
        }
    }
}

} // verus!
