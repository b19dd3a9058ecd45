//! Objects as the client shows them: property values made readable through the definitions
//! of the object's structure, referenced entities named by their titles, and the body as
//! markdown.
use vstd::prelude::*;
use crate::defs::{first_structure, val_obj};
use crate::json::{array, at, field, json_array, json_str, pair_views, views, Json, JsonValue};
use crate::keyed::{get_index, index_view, kget, kset, set_index, set_member};
use crate::props::{collect_entity_ids, empty_value, entity_ids, insert_unique, is_empty_val, resolve_entity_val, resolved_entity, title_for};
use crate::render::{blocks_md, blocks_to_markdown};
use crate::space::{opt_pos, prop_text, prop_text_exec};
use crate::summary::{names_view, set_name};
use crate::sync::member_or_null;
use crate::text::{copy, is_white_space, join, join_strings, str_eq, string_views, to_chars, white_space};
use crate::types::{Component, FormattedObject, LabelOption, RawPropertyDefinition};

verus! {

/// The strings among `items`, in order.
pub open spec fn strs_of(items: Seq<Json>) -> Seq<Seq<char>>
    decreases items.len(),
{
    if items.len() == 0 {
        Seq::empty()
    } else {
        strs_of(items.drop_last()) + match items.last() {
            Json::Str(s) => seq![s],
            _ => Seq::empty(),
        }
    }
}

fn strs_of_exec(items: &Vec<JsonValue>) -> (r: Vec<String>)
    ensures
        string_views(r@) == strs_of(views(items@)),
{
    let ghost iv = views(items@);
    let mut out: Vec<String> = Vec::new();
    let mut i: usize = 0;
    while i < items.len()
        invariant
            0 <= i <= items.len(),
            iv == views(items@),
            string_views(out@) == strs_of(iv.take(i as int)),
        decreases items.len() - i,
    {
        let ghost before = string_views(out@);
        assert(iv.take(i + 1).drop_last() =~= iv.take(i as int));
        match &items[i] {
            JsonValue::Str(s) => {
                out.push(s.clone());
                assert(string_views(out@) =~= before.push(s@));
            },
            _ => {},
        }
        i += 1;
    }
    assert(iv.take(items.len() as int) =~= iv);
    out
}

/// The text of the label option with identifier `id`, or `id` itself.
pub open spec fn label_text(set: Seq<LabelOption>, id: Seq<char>, i: int) -> Seq<char>
    decreases set.len() - i,
{
    if i < 0 || i >= set.len() {
        id
    } else if set[i].id@ == id {
        set[i].text@
    } else {
        label_text(set, id, i + 1)
    }
}

fn label_text_exec(set: &Vec<LabelOption>, id: &str) -> (r: String)
    ensures
        r@ == label_text(set@, id@, 0),
{
    let mut i: usize = 0;
    while i < set.len()
        invariant
            0 <= i <= set.len(),
            label_text(set@, id@, 0) == label_text(set@, id@, i as int),
        decreases set.len() - i,
    {
        if str_eq(set[i].id.as_str(), id) {
            return set[i].text.clone();
        }
        i += 1;
    }
    copy(id)
}

/// The name a property is shown under: its definition's name, or its identifier.
pub open spec fn def_name(d: RawPropertyDefinition) -> Seq<char> {
    match d.name {
        Some(n) => n.val@,
        None => d.id@,
    }
}

/// The stored value of the property `id` (`properties[id].val`), `null` when missing.
pub open spec fn stored(props: Json, id: Seq<char>) -> Json {
    at(at(props, id), "val"@)
}

/// The readable value shown for the property defined by `d`, if any: a body as markdown, label
/// identifiers as their texts, entities with their titles, and other values as they are; empty
/// values are not shown, nor the title, description and tags.
pub open spec fn prop_entry(c: Component, d: RawPropertyDefinition, titles: Seq<(String, String)>) -> Option<Json> {
    let id = d.id@;
    let dt = d.data_type@;
    let v = stored(c.properties@, id);
    if id == "title"@ || id == "description"@ || id == "tags"@ {
        None
    } else if dt == "blocks"@ {
        match json_array(at(at(c.data@, "blocks"@), id)) {
            Some(arr) => if arr.len() > 0 {
                Some(Json::Str(blocks_md(arr)))
            } else {
                None
            },
            None => None,
        }
    } else if dt == "label"@ {
        match d.set {
            Some(set) => match json_array(v) {
                Some(arr) => {
                    let texts = strs_of(arr).map_values(|s: Seq<char>| Json::Str(label_text(set@, s, 0)));
                    if texts.len() > 0 {
                        Some(Json::Array(texts))
                    } else {
                        None
                    }
                },
                None => None,
            },
            None => None,
        }
    } else if dt == "entity"@ {
        let r = resolved_entity(v, titles);
        if empty_value(r) {
            None
        } else {
            Some(r)
        }
    } else if dt == "datetime"@ || dt == "string"@ {
        if v == Json::Null || (v is Str && v->Str_0.len() == 0) {
            None
        } else {
            Some(v)
        }
    } else if v == Json::Null {
        None
    } else {
        Some(v)
    }
}

/// The readable properties after the first `n` definitions, by name.
pub open spec fn readable(c: Component, defs: Seq<RawPropertyDefinition>, titles: Seq<(String, String)>, n: int) -> Seq<(Seq<char>, Json)>
    decreases n,
{
    if n <= 0 {
        Seq::empty()
    } else {
        let p = readable(c, defs, titles, n - 1);
        match prop_entry(c, defs[n - 1], titles) {
            Some(v) => kset(p, def_name(defs[n - 1]), v),
            None => p,
        }
    }
}

/// Every character is white space.
pub open spec fn all_space(s: Seq<char>) -> bool {
    forall|i: int| 0 <= i < s.len() ==> is_white_space(#[trigger] s[i])
}

fn all_space_exec(s: &str) -> (r: bool)
    ensures
        r == all_space(s@),
{
    let v = to_chars(s);
    let mut i: usize = 0;
    while i < v.len()
        invariant
            0 <= i <= v.len(),
            v@ == s@,
            forall|k: int| 0 <= k < i ==> is_white_space(#[trigger] v@[k]),
        decreases v.len() - i,
    {
        if !white_space(v[i]) {
            return false;
        }
        i += 1;
    }
    true
}

/// The markdown of the non-empty block lists among the first `n` members of a blocks object,
/// leaving out what is only white space.
pub open spec fn body_parts(ps: Seq<(Seq<char>, Json)>, n: int) -> Seq<Seq<char>>
    decreases n,
{
    if n <= 0 {
        Seq::empty()
    } else {
        let p = body_parts(ps, n - 1);
        match ps[n - 1].1 {
            Json::Array(arr) => if arr.len() > 0 && !all_space(blocks_md(arr)) {
                p.push(blocks_md(arr))
            } else {
                p
            },
            _ => p,
        }
    }
}

/// The body of an object: the markdown of all its block lists, a blank line between them.
pub open spec fn body_of(c: Component) -> Seq<char> {
    match field(c.data@, "blocks"@) {
        Some(Json::Object(ps)) => join(body_parts(ps, ps.len() as int), "\n\n"@),
        _ => Seq::empty(),
    }
}

/// The tags of an object, each named by its title.
pub open spec fn tags_of(c: Component, titles: Seq<(String, String)>) -> Option<Seq<Seq<char>>> {
    match json_array(stored(c.properties@, "tags"@)) {
        Some(arr) => Some(strs_of(arr).map_values(|id: Seq<char>| title_for(titles, id))),
        None => None,
    }
}

/// The description of an object, where it is a non-empty string.
pub open spec fn description_of(c: Component) -> Option<Seq<char>> {
    match json_str(stored(c.properties@, "description"@)) {
        Some(s) => if s.len() > 0 {
            Some(s)
        } else {
            None
        },
        None => None,
    }
}

pub open spec fn opt_text(o: Option<String>) -> Option<Seq<char>> {
    match o {
        Some(s) => Some(s@),
        None => None,
    }
}

pub open spec fn opt_texts(o: Option<Vec<String>>) -> Option<Seq<Seq<char>>> {
    match o {
        Some(v) => Some(string_views(v@)),
        None => None,
    }
}

pub open spec fn text_or_empty(o: Option<String>) -> Seq<char> {
    match o {
        Some(s) => s@,
        None => Seq::empty(),
    }
}

/// `o` shows the object `c`, whose structure (if known) has the title `info.0` and the
/// definitions `info.1`, with entity titles from `titles`.
pub open spec fn formatted_ok(
    o: FormattedObject,
    c: Component,
    info: Option<(Seq<char>, Seq<RawPropertyDefinition>)>,
    titles: Seq<(String, String)>,
) -> bool {
    let defs = match info {
        Some(i) => i.1,
        None => Seq::empty(),
    };
    &&& o.id@ == c.id@
    &&& o.obj_type@ == c.structure_id@
    &&& opt_text(o.type_title) == match info {
        Some(i) => Some(i.0),
        None => None,
    }
    &&& o.title@ == prop_text(c.properties@, "title"@, ""@)
    &&& opt_text(o.description) == description_of(c)
    &&& opt_texts(o.tags) == tags_of(c, titles)
    &&& o.created_at@ == text_or_empty(c.created_at)
    &&& o.last_updated@ == text_or_empty(c.last_updated)
    &&& pair_views(o.properties@) == readable(c, defs, titles, defs.len() as int)
    &&& o.body@ == body_of(c)
}

fn stored_exec(props: &JsonValue, id: &str) -> (r: JsonValue)
    ensures
        r@ == stored(props@, id@),
{
    let p = member_or_null(props, id);
    member_or_null(&p, "val")
}

fn prop_entry_exec(c: &Component, d: &RawPropertyDefinition, titles: &Vec<(String, String)>) -> (r: Option<JsonValue>)
    ensures
        match r {
            Some(j) => prop_entry(*c, *d, titles@) == Some(j@),
            None => prop_entry(*c, *d, titles@) is None,
        },
{
    let id = d.id.as_str();
    let dt = d.data_type.as_str();
    if str_eq(id, "title") || str_eq(id, "description") || str_eq(id, "tags") {
        return None;
    }
    let v = stored_exec(&c.properties, id);
    if str_eq(dt, "blocks") {
        let b = member_or_null(&c.data, "blocks");
        let l = member_or_null(&b, id);
        match l.as_array() {
            Some(arr) => if arr.len() > 0 {
                Some(JsonValue::Str(blocks_to_markdown(arr)))
            } else {
                None
            },
            None => None,
        }
    } else if str_eq(dt, "label") {
        match &d.set {
            Some(set) => match v.as_array() {
                Some(arr) => {
                    let ids = strs_of_exec(arr);
                    let ghost sv = string_views(ids@);
                    let mut texts: Vec<JsonValue> = Vec::new();
                    let mut i: usize = 0;
                    while i < ids.len()
                        invariant
                            0 <= i <= ids.len(),
                            sv == string_views(ids@),
                            texts@.len() == i,
                            forall|k: int| 0 <= k < i ==> (#[trigger] texts@[k])@ == Json::Str(label_text(set@, sv[k], 0)),
                        decreases ids.len() - i,
                    {
                        texts.push(JsonValue::Str(label_text_exec(set, ids[i].as_str())));
                        i += 1;
                    }
                    let ghost want = sv.map_values(|s: Seq<char>| Json::Str(label_text(set@, s, 0)));
                    assert(views(texts@) =~= want);
                    if texts.len() > 0 {
                        Some(array(texts))
                    } else {
                        None
                    }
                },
                None => None,
            },
            None => None,
        }
    } else if str_eq(dt, "entity") {
        let r = resolve_entity_val(&v, titles);
        if is_empty_val(&r) {
            None
        } else {
            Some(r)
        }
    } else if str_eq(dt, "datetime") || str_eq(dt, "string") {
        let empty = match &v {
            JsonValue::Null => true,
            JsonValue::Str(s) => to_chars(s.as_str()).len() == 0,
            _ => false,
        };
        if empty {
            None
        } else {
            Some(v)
        }
    } else if v.is_null() {
        None
    } else {
        Some(v)
    }
}

fn body_exec(c: &Component) -> (r: String)
    ensures
        r@ == body_of(*c),
{
    proof {
        crate::literals::lemma_literals();
    }
    let blocks = match c.data.get("blocks") {
        Some(b) => b,
        None => return copy(""),
    };
    match blocks {
        JsonValue::Object(ps) => {
            let ghost pv = pair_views(ps@);
            assert(match blocks@ {
                Json::Object(x) => x,
                _ => Seq::empty(),
            } =~= pv);
            let mut parts: Vec<String> = Vec::new();
            let mut i: usize = 0;
            while i < ps.len()
                invariant
                    0 <= i <= ps.len(),
                    pv == pair_views(ps@),
                    string_views(parts@) == body_parts(pv, i as int),
                decreases ps.len() - i,
            {
                let ghost before = string_views(parts@);
                match &ps[i].1 {
                    JsonValue::Array(arr) => {
                        assert(pv[i as int].1 == Json::Array(views(arr@))) by {
                            assert(json_array(ps@[i as int].1@).unwrap() =~= views(arr@));
                        }
                        if arr.len() > 0 {
                            let md = blocks_to_markdown(arr);
                            if !all_space_exec(md.as_str()) {
                                let ghost mv = md@;
                                parts.push(md);
                                assert(string_views(parts@) =~= before.push(mv));
                            }
                        }
                    },
                    _ => {},
                }
                i += 1;
            }
            let r = join_strings(&parts, "\n\n");
            assert(field(c.data@, "blocks"@) == Some(Json::Object(pv)));
            r
        },
        _ => copy(""),
    }
}

/// The object `c` as the client shows it; `info` is its structure's title and definitions
/// where the structure is known, `titles` the titles of referenced entities.
pub fn format_object(
    c: &Component,
    info: Option<(&str, &Vec<RawPropertyDefinition>)>,
    titles: &Vec<(String, String)>,
) -> (r: FormattedObject)
    ensures
        formatted_ok(
            r,
            *c,
            match info {
                Some(i) => Some((i.0@, i.1@)),
                None => None,
            },
            titles@,
        ),
{
    let mut props: Vec<(String, JsonValue)> = Vec::new();
    assert(pair_views(props@) =~= Seq::<(Seq<char>, Json)>::empty());
    let type_title = match info {
        Some((t, defs)) => {
            let mut i: usize = 0;
            while i < defs.len()
                invariant
                    0 <= i <= defs.len(),
                    pair_views(props@) == readable(*c, defs@, titles@, i as int),
                decreases defs.len() - i,
            {
                match prop_entry_exec(c, &defs[i], titles) {
                    Some(v) => {
                        let name = match &defs[i].name {
                            Some(n) => n.val.clone(),
                            None => defs[i].id.clone(),
                        };
                        set_member(&mut props, name.as_str(), v);
                    },
                    None => {},
                }
                i += 1;
            }
            Some(copy(t))
        },
        None => None,
    };
    let description = {
        let d = stored_exec(&c.properties, "description");
        match d.as_str() {
            Some(s) => if to_chars(s).len() > 0 {
                Some(copy(s))
            } else {
                None
            },
            None => None,
        }
    };
    let tags = {
        let t = stored_exec(&c.properties, "tags");
        match t.as_array() {
            Some(arr) => {
                let ids = strs_of_exec(arr);
                let ghost sv = string_views(ids@);
                let mut named: Vec<String> = Vec::new();
                let mut i: usize = 0;
                while i < ids.len()
                    invariant
                        0 <= i <= ids.len(),
                        sv == string_views(ids@),
                        named@.len() == i,
                        forall|k: int| 0 <= k < i ==> (#[trigger] named@[k])@ == title_for(titles@, sv[k]),
                    decreases ids.len() - i,
                {
                    named.push(crate::props::title_or_id(titles, ids[i].as_str()));
                    i += 1;
                }
                assert(string_views(named@) =~= sv.map_values(|id: Seq<char>| title_for(titles@, id)));
                Some(named)
            },
            None => None,
        }
    };
    proof {
        crate::literals::lemma_literals();
        assert(""@ =~= Seq::<char>::empty());
    }
    let created_at = match &c.created_at {
        Some(s) => s.clone(),
        None => copy(""),
    };
    let last_updated = match &c.last_updated {
        Some(s) => s.clone(),
        None => copy(""),
    };
    FormattedObject {
        id: c.id.clone(),
        obj_type: c.structure_id.clone(),
        type_title,
        title: prop_text_exec(&c.properties, "title", ""),
        description,
        tags,
        created_at,
        last_updated,
        properties: props,
        body: body_exec(c),
    }
}

/// The objects among `comps`, in order.
pub open spec fn entities_of(comps: Seq<Component>) -> Seq<Component>
    decreases comps.len(),
{
    if comps.len() == 0 {
        Seq::empty()
    } else {
        (if comps[0].comp_type@ == "RootEntity"@ {
            seq![comps[0]]
        } else {
            Seq::empty()
        }) + entities_of(comps.drop_first())
    }
}

/// The objects of a batch of components, in order.
pub fn root_entities(components: Vec<Component>) -> (r: Vec<Component>)
    ensures
        r@ == entities_of(components@),
{
    let ghost all = components@;
    let mut rest = components;
    let mut out: Vec<Component> = Vec::new();
    while rest.len() > 0
        invariant
            out@ + entities_of(rest@) == entities_of(all),
        decreases rest.len(),
    {
        let ghost before = rest@;
        let c = rest.remove(0);
        assert(before.drop_first() =~= rest@);
        if str_eq(c.comp_type.as_str(), "RootEntity") {
            let ghost ob = out@;
            out.push(c);
            assert(out@ =~= ob + seq![before[0]]);
            assert(ob + entities_of(before) =~= out@ + entities_of(rest@));
        } else {
            assert(entities_of(before) =~= entities_of(rest@));
        }
    }
    assert(entities_of(rest@) =~= Seq::<Component>::empty());
    assert(out@ =~= entities_of(all));
    out
}

/// The structures of the first `n` objects, each once, in the order met.
pub open spec fn structures_of(es: Seq<Component>, n: int) -> Seq<Seq<char>>
    decreases n,
{
    if n <= 0 {
        Seq::empty()
    } else {
        let u = structures_of(es, n - 1);
        let sid = es[n - 1].structure_id@;
        if u.contains(sid) {
            u
        } else {
            u.push(sid)
        }
    }
}

/// The structures of the objects, each once.
pub fn structure_ids_of(entities: &Vec<Component>) -> (r: Vec<String>)
    ensures
        string_views(r@) == structures_of(entities@, entities@.len() as int),
{
    let mut out: Vec<String> = Vec::new();
    let mut i: usize = 0;
    while i < entities.len()
        invariant
            0 <= i <= entities.len(),
            string_views(out@) == structures_of(entities@, i as int),
        decreases entities.len() - i,
    {
        let ghost u = string_views(out@);
        let sid = entities[i].structure_id.as_str();
        let seen = crate::draft::holds_str(&out, sid);
        if !seen {
            out.push(copy(sid));
            assert(string_views(out@) =~= u.push(sid@));
        }
        i += 1;
    }
    out
}

/// The last structure component among the first `n` with identifier `sid`.
pub open spec fn last_structure(comps: Seq<Component>, sid: Seq<char>, n: int) -> Option<int>
    decreases n,
{
    if n <= 0 {
        None
    } else if comps[n - 1].comp_type@ == "RootStructure"@ && comps[n - 1].id@ == sid {
        Some(n - 1)
    } else {
        last_structure(comps, sid, n - 1)
    }
}

/// Maps each structure identifier to the position of the last structure component with it.
pub fn structure_table(structures: &Vec<Component>) -> (r: Vec<(String, usize)>)
    ensures
        forall|k: Seq<char>| #[trigger] kget(index_view(r@), k) == last_structure(structures@, k, structures@.len() as int),
        forall|j: int| 0 <= j < r@.len() ==> (#[trigger] r@[j]).1 < structures@.len(),
{
    let mut r: Vec<(String, usize)> = Vec::new();
    let mut i: usize = 0;
    while i < structures.len()
        invariant
            0 <= i <= structures.len(),
            forall|k: Seq<char>| #[trigger] kget(index_view(r@), k) == last_structure(structures@, k, i as int),
            forall|j: int| 0 <= j < r@.len() ==> (#[trigger] r@[j]).1 < i,
        decreases structures.len() - i,
    {
        let ghost before = index_view(r@);
        let ghost rb = r@;
        if str_eq(structures[i].comp_type.as_str(), "RootStructure") {
            let key = structures[i].id.as_str();
            set_index(&mut r, key, i);
            assert forall|k: Seq<char>| #[trigger] kget(index_view(r@), k) == last_structure(structures@, k, i + 1) by {
                crate::keyed::lemma_kset(before, key@, i as int, k);
            }
            assert forall|j: int| 0 <= j < r@.len() implies (#[trigger] r@[j]).1 < i + 1 by {
                assert(index_view(r@)[j].1 == r@[j].1 as int);
                if j < rb.len() && index_view(r@)[j] == before[j] {
                    assert(before[j].1 == rb[j].1 as int);
                }
            }
        }
        i += 1;
    }
    r
}

/// The definitions of the structure of `c`, where it is among `comps` (`defs[k]` belong to
/// `comps[k]`).
pub open spec fn defs_for(c: Component, comps: Seq<Component>, defs: Seq<Vec<RawPropertyDefinition>>) -> Option<Seq<RawPropertyDefinition>> {
    match last_structure(comps, c.structure_id@, comps.len() as int) {
        Some(k) => Some(defs[k]@),
        None => None,
    }
}

/// The entities the first `n` entity properties of `c` refer to.
pub open spec fn def_refs(c: Component, defs: Seq<RawPropertyDefinition>, n: int) -> Seq<Seq<char>>
    decreases n,
{
    if n <= 0 {
        Seq::empty()
    } else {
        def_refs(c, defs, n - 1) + if defs[n - 1].data_type@ == "entity"@ {
            entity_ids(stored(c.properties@, defs[n - 1].id@))
        } else {
            Seq::empty()
        }
    }
}

/// The tags of `c`, by identifier.
pub open spec fn tag_ids(c: Component) -> Seq<Seq<char>> {
    match json_array(stored(c.properties@, "tags"@)) {
        Some(arr) => strs_of(arr),
        None => Seq::empty(),
    }
}

/// What the object `c` refers to: the entities of its entity properties, then its tags.
pub open spec fn refs_of(c: Component, defs: Option<Seq<RawPropertyDefinition>>) -> Seq<Seq<char>> {
    (match defs {
        Some(d) => def_refs(c, d, d.len() as int),
        None => Seq::empty(),
    }) + tag_ids(c)
}

/// What the first `n` objects refer to.
pub open spec fn all_refs(
    es: Seq<Component>,
    comps: Seq<Component>,
    defs: Seq<Vec<RawPropertyDefinition>>,
    n: int,
) -> Seq<Seq<char>>
    decreases n,
{
    if n <= 0 {
        Seq::empty()
    } else {
        all_refs(es, comps, defs, n - 1) + refs_of(es[n - 1], defs_for(es[n - 1], comps, defs))
    }
}

proof fn lemma_to_set_add(a: Seq<Seq<char>>, b: Seq<Seq<char>>)
    ensures
        (a + b).to_set() == a.to_set() + b.to_set(),
{
    broadcast use vstd::seq_lib::group_seq_properties;
    assert forall|x: Seq<char>| (a + b).to_set().contains(x) <==> (a.to_set() + b.to_set()).contains(x) by {
        if (a + b).contains(x) {
            let i = choose|i: int| 0 <= i < (a + b).len() && (a + b)[i] == x;
            if i < a.len() {
                assert(a[i] == x);
            } else {
                assert(b[i - a.len()] == x);
            }
        }
        if a.contains(x) {
            let i = choose|i: int| 0 <= i < a.len() && a[i] == x;
            assert((a + b)[i] == x);
        }
        if b.contains(x) {
            let i = choose|i: int| 0 <= i < b.len() && b[i] == x;
            assert((a + b)[a.len() + i] == x);
        }
    }
    assert((a + b).to_set() =~= a.to_set() + b.to_set());
}

proof fn lemma_single_set(x: Seq<char>)
    ensures
        seq![x].to_set() == Set::<Seq<char>>::empty().insert(x),
{
    assert(seq![x][0] == x);
    assert(seq![x].to_set() =~= Set::<Seq<char>>::empty().insert(x));
}

/// Adding `x` to a list without duplicates that lacks it keeps it without duplicates.
proof fn lemma_push_unique(before: Seq<Seq<char>>, x: Seq<char>)
    requires
        before.no_duplicates(),
        !before.contains(x),
    ensures
        before.push(x).no_duplicates(),
{
    assert forall|a: int, b: int|
        0 <= a < before.len() + 1 && 0 <= b < before.len() + 1 && a != b implies before.push(x)[a] != before.push(x)[b] by {
        if a == before.len() {
            assert(before[b] != x) by {
                if before[b] == x {
                    assert(before.contains(x));
                }
            }
        } else if b == before.len() {
            assert(before[a] != x) by {
                if before[a] == x {
                    assert(before.contains(x));
                }
            }
        }
    }
}

/// Gathers into `ids` (a list that holds each string once) what the object `c` refers to.
fn collect_refs(c: &Component, defs: Option<&Vec<RawPropertyDefinition>>, ids: &mut Vec<String>)
    ensures
        string_views(old(ids)@).no_duplicates() ==> string_views(final(ids)@).no_duplicates(),
        string_views(final(ids)@).to_set() == string_views(old(ids)@).to_set() + refs_of(
            *c,
            match defs {
                Some(d) => Some(d@),
                None => None,
            },
        ).to_set(),
{
    let ghost start = string_views(ids@);
    let ghost mut got: Seq<Seq<char>> = Seq::empty();
    match defs {
        Some(ds) => {
            let mut j: usize = 0;
            while j < ds.len()
                invariant
                    0 <= j <= ds.len(),
                    start.no_duplicates() ==> string_views(ids@).no_duplicates(),
                    string_views(ids@).to_set() == start.to_set() + def_refs(*c, ds@, j as int).to_set(),
                decreases ds.len() - j,
            {
                if str_eq(ds[j].data_type.as_str(), "entity") {
                    let val = stored_exec(&c.properties, ds[j].id.as_str());
                    collect_entity_ids(&val, ids);
                    proof {
                        lemma_to_set_add(def_refs(*c, ds@, j as int), entity_ids(val@));
                        assert(string_views(ids@).to_set() =~= start.to_set() + def_refs(*c, ds@, j + 1).to_set());
                    }
                } else {
                    assert(def_refs(*c, ds@, j + 1) =~= def_refs(*c, ds@, j as int));
                }
                j += 1;
            }
            proof {
                got = def_refs(*c, ds@, ds@.len() as int);
            }
        },
        None => {
            assert(start.to_set() + Seq::<Seq<char>>::empty().to_set() =~= start.to_set());
        },
    }
    let ghost mid = string_views(ids@);
    let t = stored_exec(&c.properties, "tags");
    match t.as_array() {
        Some(arr) => {
            let tags = strs_of_exec(arr);
            let ghost tv = string_views(tags@);
            let mut j: usize = 0;
            while j < tags.len()
                invariant
                    0 <= j <= tags.len(),
                    tv == string_views(tags@),
                    start.no_duplicates() ==> string_views(ids@).no_duplicates(),
                    string_views(ids@).to_set() == mid.to_set() + tv.take(j as int).to_set(),
                decreases tags.len() - j,
            {
                let ghost before = string_views(ids@);
                let ghost x = tv[j as int];
                insert_unique(ids, tags[j].as_str());
                proof {
                    assert(tv.take(j + 1) =~= tv.take(j as int).push(x));
                    lemma_single_set(x);
                    assert(tv.take(j as int).push(x) =~= tv.take(j as int) + seq![x]);
                    lemma_to_set_add(tv.take(j as int), seq![x]);
                    if before.contains(x) {
                        assert(before.to_set().contains(x));
                    } else {
                        if start.no_duplicates() {
                            lemma_push_unique(before, x);
                        }
                        lemma_to_set_add(before, seq![x]);
                        assert(before.push(x) =~= before + seq![x]);
                    }
                    assert(string_views(ids@).to_set() =~= mid.to_set() + tv.take(j + 1).to_set());
                }
                j += 1;
            }
            assert(tv.take(tags.len() as int) =~= tv);
        },
        None => {
            assert(mid.to_set() + Seq::<Seq<char>>::empty().to_set() =~= mid.to_set());
        },
    }
    proof {
        lemma_to_set_add(got, tag_ids(*c));
    }
}

/// The strings of `ids` but the empty one, each once.
fn distinct_nonempty(ids: &Vec<String>) -> (r: Vec<String>)
    ensures
        string_views(r@).no_duplicates(),
        string_views(r@).to_set() == string_views(ids@).to_set().remove(""@),
{
    let ghost all = string_views(ids@);
    let mut out: Vec<String> = Vec::new();
    let mut j: usize = 0;
    while j < ids.len()
        invariant
            0 <= j <= ids.len(),
            all == string_views(ids@),
            string_views(out@).no_duplicates(),
            string_views(out@).to_set() == all.take(j as int).to_set().remove(""@),
        decreases ids.len() - j,
    {
        let ghost ob = string_views(out@);
        let ghost x = all[j as int];
        assert(all.take(j + 1) =~= all.take(j as int).push(x));
        proof {
            lemma_single_set(x);
            assert(all.take(j as int).push(x) =~= all.take(j as int) + seq![x]);
            lemma_to_set_add(all.take(j as int), seq![x]);
        }
        if to_chars(ids[j].as_str()).len() > 0 {
            if !crate::draft::holds_str(&out, ids[j].as_str()) {
                out.push(ids[j].clone());
                proof {
                    lemma_push_unique(ob, x);
                    assert(string_views(out@) =~= ob.push(x));
                    lemma_to_set_add(ob, seq![x]);
                    assert(ob.push(x) =~= ob + seq![x]);
                }
            } else {
                assert(ob.to_set().contains(x));
            }
            proof {
                crate::literals::lemma_literals();
                assert(x != ""@);
            }
            assert(string_views(out@).to_set() =~= all.take(j + 1).to_set().remove(""@));
        } else {
            proof {
                crate::literals::lemma_literals();
                assert(x =~= ""@);
            }
            assert(string_views(out@).to_set() =~= all.take(j + 1).to_set().remove(""@));
        }
        j += 1;
    }
    assert(all.take(ids.len() as int) =~= all);
    out
}

/// The identifiers the objects refer to (each once, none empty), to be fetched for their
/// titles; `comps` are the structure components fetched and `defs[k]` the definitions of
/// `comps[k]`.
pub fn reference_ids(
    entities: &Vec<Component>,
    comps: &Vec<Component>,
    defs: &Vec<Vec<RawPropertyDefinition>>,
) -> (r: Vec<String>)
    requires
        comps@.len() == defs@.len(),
    ensures
        string_views(r@).no_duplicates(),
        string_views(r@).to_set() == all_refs(entities@, comps@, defs@, entities@.len() as int).to_set().remove(""@),
{
    let table = structure_table(comps);
    let mut ids: Vec<String> = Vec::new();
    assert(string_views(ids@).to_set() =~= Set::<Seq<char>>::empty());
    let mut i: usize = 0;
    while i < entities.len()
        invariant
            0 <= i <= entities.len(),
            comps@.len() == defs@.len(),
            forall|k: Seq<char>| #[trigger] kget(index_view(table@), k) == last_structure(comps@, k, comps@.len() as int),
            forall|j: int| 0 <= j < table@.len() ==> (#[trigger] table@[j]).1 < comps@.len(),
            string_views(ids@).to_set() == all_refs(entities@, comps@, defs@, i as int).to_set(),
        decreases entities.len() - i,
    {
        let c = &entities[i];
        let found = get_index(&table, c.structure_id.as_str());
        let ds = match found {
            Some(k) => {
                proof {
                    let p = crate::keyed::kpos(index_view(table@), c.structure_id@, 0);
                    crate::keyed::lemma_kpos(index_view(table@), c.structure_id@, 0);
                    assert(index_view(table@)[p].1 == table@[p].1 as int);
                }
                Some(&defs[k])
            },
            None => None,
        };
        assert(match ds {
            Some(d) => Some(d@),
            None => None,
        } == defs_for(*c, comps@, defs@));
        collect_refs(c, ds, &mut ids);
        proof {
            lemma_to_set_add(all_refs(entities@, comps@, defs@, i as int), refs_of(*c, defs_for(*c, comps@, defs@)));
        }
        i += 1;
    }
    distinct_nonempty(&ids)
}

/// Maps each fetched entity to its title (or its identifier); a later entry for the same
/// identifier takes the place of an earlier one.
pub open spec fn title_entries(comps: Seq<Component>, n: int) -> Seq<(Seq<char>, Seq<char>)>
    decreases n,
{
    if n <= 0 {
        Seq::empty()
    } else {
        let c = comps[n - 1];
        kset(title_entries(comps, n - 1), c.id@, prop_text(c.properties@, "title"@, c.id@))
    }
}

/// The titles of the entities fetched, by identifier.
pub fn title_table(comps: &Vec<Component>) -> (r: Vec<(String, String)>)
    ensures
        names_view(r@) == title_entries(comps@, comps@.len() as int),
{
    let mut r: Vec<(String, String)> = Vec::new();
    assert(names_view(r@) =~= Seq::<(Seq<char>, Seq<char>)>::empty());
    let mut i: usize = 0;
    while i < comps.len()
        invariant
            0 <= i <= comps.len(),
            names_view(r@) == title_entries(comps@, i as int),
        decreases comps.len() - i,
    {
        let c = &comps[i];
        let title = prop_text_exec(&c.properties, "title", c.id.as_str());
        set_name(&mut r, c.id.as_str(), title);
        i += 1;
    }
    r
}

/// The title and definitions of the structure of `c`, where it is among `comps`.
pub open spec fn info_for(c: Component, comps: Seq<Component>, defs: Seq<Vec<RawPropertyDefinition>>) -> Option<(Seq<char>, Seq<RawPropertyDefinition>)> {
    match last_structure(comps, c.structure_id@, comps.len() as int) {
        Some(k) => Some((prop_text(comps[k].properties@, "title"@, ""@), defs[k]@)),
        None => None,
    }
}

/// The objects as the client shows them, in order; `comps` are their structure components
/// (`defs[k]` the definitions of `comps[k]`), `titles` the titles of referenced entities.
pub fn format_objects(
    entities: &Vec<Component>,
    comps: &Vec<Component>,
    defs: &Vec<Vec<RawPropertyDefinition>>,
    titles: &Vec<(String, String)>,
) -> (r: Vec<FormattedObject>)
    requires
        comps@.len() == defs@.len(),
    ensures
        r@.len() == entities@.len(),
        forall|k: int|
            0 <= k < r@.len() ==> formatted_ok(#[trigger] r@[k], entities@[k], info_for(entities@[k], comps@, defs@), titles@),
{
    let table = structure_table(comps);
    let mut out: Vec<FormattedObject> = Vec::new();
    let mut i: usize = 0;
    while i < entities.len()
        invariant
            0 <= i <= entities.len(),
            comps@.len() == defs@.len(),
            forall|k: Seq<char>| #[trigger] kget(index_view(table@), k) == last_structure(comps@, k, comps@.len() as int),
            forall|j: int| 0 <= j < table@.len() ==> (#[trigger] table@[j]).1 < comps@.len(),
            out@.len() == i,
            forall|k: int|
                0 <= k < i ==> formatted_ok(#[trigger] out@[k], entities@[k], info_for(entities@[k], comps@, defs@), titles@),
        decreases entities.len() - i,
    {
        let c = &entities[i];
        let o = match get_index(&table, c.structure_id.as_str()) {
            Some(k) => {
                proof {
                    let p = crate::keyed::kpos(index_view(table@), c.structure_id@, 0);
                    crate::keyed::lemma_kpos(index_view(table@), c.structure_id@, 0);
                    assert(index_view(table@)[p].1 == table@[p].1 as int);
                }
                let t = prop_text_exec(&comps[k].properties, "title", "");
                format_object(c, Some((t.as_str(), &defs[k])), titles)
            },
            None => format_object(c, None, titles),
        };
        out.push(o);
        i += 1;
    }
    out
}

} // verus!
