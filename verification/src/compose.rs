//! The content sent to create a task or an object, or to update one.
use vstd::prelude::*;
use crate::clock::{is_utc_stamp, now_iso};
use crate::defs::{md_blocks, val_obj, val_wrap};
use crate::draft::{applied, blocks_keyed, seeded, with_body, Draft, Sketch};
use crate::ids::{is_uuid_text, new_id};
use crate::json::{array, empty_array, field, members, object, opt_str_view, pair_views, put, string, views, Json, JsonValue};
use crate::keyed::{assign, jset, kset, list_map_view, obj_members, set_member, settable};
use crate::markdown::markdown_to_blocks;
use crate::sync::{component_doc, element, element_doc, kset_all, member_or_null, sync_body, sync_one};
use crate::text::{copy, str_eq, string_views};
use crate::types::{Component, RawPropertyDefinition};

verus! {

/// Who may write the content: the editors of the space.
pub open spec fn policies_doc(space: Seq<char>) -> Json {
    Json::Array(
        seq![
            Json::Object(
                seq![
                    ("name"@, Json::Str("write"@)),
                    ("principals"@, Json::Array(
                        seq![
                            Json::Object(
                                seq![
                                    ("name"@, Json::Str("SpaceEditor"@)),
                                    ("config"@, Json::Object(seq![("spaceId"@, Json::Str(space))])),
                                ],
                            ),
                        ],
                    )),
                    ("principalType"@, Json::Str("Role"@)),
                ],
            ),
        ],
    )
}

/// A link to the database `db`, with link identifier `lid`, made at `now`.
pub open spec fn database_link(db: Seq<char>, lid: Seq<char>, now: Seq<char>) -> Json {
    Json::Object(
        seq![
            ("id"@, Json::Str(db)),
            ("link"@, Json::Object(
                seq![
                    ("createdAt"@, Json::Str(now)),
                    ("data"@, Json::Object(seq![("toStructureId"@, Json::Str("RootDatabase"@))])),
                    ("id"@, Json::Str(lid)),
                    ("policies"@, Json::Array(Seq::empty())),
                    ("type"@, Json::Str("Database"@)),
                ],
            )),
        ],
    )
}

/// The block lists as an object of arrays.
pub open spec fn blocks_object(bm: Seq<(Seq<char>, Seq<Json>)>) -> Json {
    Json::Object(Seq::new(bm.len(), |i: int| (bm[i].0, Json::Array(bm[i].1))))
}

/// New content of kind `kind` and structure `structure`, with the properties and blocks of `s`.
pub open spec fn content_doc(
    id: Seq<char>,
    kind: Seq<char>,
    structure: Seq<char>,
    databases: Json,
    space: Seq<char>,
    now: Seq<char>,
    s: Sketch,
) -> Json {
    Json::Object(
        seq![
            ("id"@, Json::Str(id)),
            ("type"@, Json::Str(kind)),
            ("structureId"@, Json::Str(structure)),
            ("loadingState"@, Json::Str("full"@)),
            ("deleteRequested"@, Json::Bool(false)),
            ("databases"@, databases),
            ("policies"@, policies_doc(space)),
            ("lastUpdated"@, Json::Str(now)),
            ("createdAt"@, Json::Str(now)),
            ("properties"@, s.props),
            ("data"@, Json::Object(
                seq![("blocks"@, blocks_object(s.blocks)), ("hidePropertySection"@, Json::Bool(false))],
            )),
            ("linkNodes"@, Json::Array(Seq::empty())),
            ("local"@, Json::Object(Seq::empty())),
        ],
    )
}

/// The first definition of a blocks property, at or after `i`.
pub open spec fn first_blocks(defs: Seq<RawPropertyDefinition>, i: int) -> Option<int>
    decreases defs.len() - i,
{
    if i < 0 || i >= defs.len() {
        None
    } else if defs[i].data_type@ == "blocks"@ {
        Some(i)
    } else {
        first_blocks(defs, i + 1)
    }
}

pub open spec fn opt_pairs(o: Option<&Vec<(String, JsonValue)>>) -> Option<Seq<(Seq<char>, Json)>> {
    match o {
        Some(v) => Some(pair_views(v@)),
        None => None,
    }
}

/// `s2` is `s1` with the user's values written in, where there are any.
pub open spec fn with_user(s1: Sketch, s2: Sketch, defs: Seq<RawPropertyDefinition>, user: Option<Seq<(Seq<char>, Json)>>) -> bool {
    match user {
        Some(u) => applied(s1, s2, defs, u),
        None => s2 == s1,
    }
}

/// The position of the first blocks property definition.
pub fn first_blocks_exec(defs: &Vec<RawPropertyDefinition>) -> (r: Option<usize>)
    ensures
        match r {
            Some(i) => first_blocks(defs@, 0) == Some(i as int) && i < defs@.len(),
            None => first_blocks(defs@, 0) is None,
        },
{
    let mut i: usize = 0;
    while i < defs.len()
        invariant
            0 <= i <= defs.len(),
            first_blocks(defs@, 0) == first_blocks(defs@, i as int),
        decreases defs.len() - i,
    {
        if str_eq(defs[i].data_type.as_str(), "blocks") {
            return Some(i);
        }
        i += 1;
    }
    None
}

fn policies_exec(space_id: &str) -> (r: JsonValue)
    ensures
        r@ == policies_doc(space_id@),
{
    let mut cfg = members();
    put(&mut cfg, "spaceId", string(space_id));
    let cfg_doc = object(cfg);
    assert(pair_views(cfg@) =~= seq![("spaceId"@, Json::Str(space_id@))]);
    let ghost cv = cfg_doc@;
    let mut pr = members();
    put(&mut pr, "name", string("SpaceEditor"));
    put(&mut pr, "config", cfg_doc);
    let pr_doc = object(pr);
    assert(pair_views(pr@) =~= seq![("name"@, Json::Str("SpaceEditor"@)), ("config"@, cv)]);
    let ghost prv = pr_doc@;
    let prs = vec![pr_doc];
    assert(views(prs@) =~= seq![prv]);
    let prs_doc = array(prs);
    let ghost prsv = prs_doc@;
    let mut pol = members();
    put(&mut pol, "name", string("write"));
    put(&mut pol, "principals", prs_doc);
    put(&mut pol, "principalType", string("Role"));
    let pol_doc = object(pol);
    assert(pair_views(pol@) =~= seq![
        ("name"@, Json::Str("write"@)),
        ("principals"@, prsv),
        ("principalType"@, Json::Str("Role"@)),
    ]);
    let ghost pv = pol_doc@;
    let v = vec![pol_doc];
    assert(views(v@) =~= seq![pv]);
    array(v)
}

/// A link to the database `db`, with a new link identifier, made at `now`.
fn database_link_exec(db: &str, now: &str) -> (r: JsonValue)
    ensures
        exists|lid: Seq<char>| is_uuid_text(lid) && r@ == #[trigger] database_link(db@, lid, now@),
{
    let lid = new_id();
    let ghost lv = lid@;
    let mut d = members();
    put(&mut d, "toStructureId", string("RootDatabase"));
    let dd = object(d);
    assert(pair_views(d@) =~= seq![("toStructureId"@, Json::Str("RootDatabase"@))]);
    let ghost dv = dd@;
    let mut l = members();
    put(&mut l, "createdAt", string(now));
    put(&mut l, "data", dd);
    put(&mut l, "id", JsonValue::Str(lid));
    put(&mut l, "policies", empty_array());
    put(&mut l, "type", string("Database"));
    let ld = object(l);
    assert(pair_views(l@) =~= seq![
        ("createdAt"@, Json::Str(now@)),
        ("data"@, dv),
        ("id"@, Json::Str(lv)),
        ("policies"@, Json::Array(Seq::empty())),
        ("type"@, Json::Str("Database"@)),
    ]);
    let ghost lnv = ld@;
    let mut ps = members();
    put(&mut ps, "id", string(db));
    put(&mut ps, "link", ld);
    let r = object(ps);
    assert(pair_views(ps@) =~= seq![("id"@, Json::Str(db@)), ("link"@, lnv)]);
    assert(r@ == database_link(db@, lv, now@));
    r
}

fn blocks_doc(bm: &Vec<(String, Vec<JsonValue>)>) -> (r: JsonValue)
    ensures
        r@ == blocks_object(list_map_view(bm@)),
{
    let ghost bv = list_map_view(bm@);
    let mut ps: Vec<(String, JsonValue)> = Vec::new();
    let mut i: usize = 0;
    while i < bm.len()
        invariant
            0 <= i <= bm.len(),
            bv == list_map_view(bm@),
            ps@.len() == i,
            forall|k: int| 0 <= k < i ==> (#[trigger] pair_views(ps@)[k]) == (bv[k].0, Json::Array(bv[k].1)),
        decreases bm.len() - i,
    {
        let mut items: Vec<JsonValue> = Vec::new();
        let mut j: usize = 0;
        while j < bm[i].1.len()
            invariant
                0 <= j <= bm@[i as int].1.len(),
                i < bm.len(),
                items@.len() == j,
                forall|k: int| 0 <= k < j ==> (#[trigger] items@[k])@ == bm@[i as int].1@[k]@,
            decreases bm@[i as int].1.len() - j,
        {
            items.push(bm[i].1[j].deep_clone());
            j += 1;
        }
        assert(views(items@) =~= bv[i as int].1);
        let ghost before = ps@;
        let entry = (bm[i].0.clone(), array(items));
        assert(entry.0@ == bv[i as int].0 && entry.1@ == Json::Array(bv[i as int].1));
        ps.push(entry);
        assert forall|k: int| 0 <= k < i + 1 implies (#[trigger] pair_views(ps@)[k]) == (bv[k].0, Json::Array(bv[k].1)) by {
            if k < i {
                assert(ps@[k] == before[k]);
                assert(pair_views(before)[k] == (bv[k].0, Json::Array(bv[k].1)));
            } else {
                assert(ps@[k] == entry);
            }
        }
        i += 1;
    }
    let r = object(ps);
    assert(pair_views(ps@) =~= match blocks_object(bv) { Json::Object(x) => x, _ => Seq::empty() });
    r
}

fn content_exec(id: &str, kind: &str, structure: &str, databases: JsonValue, space_id: &str, now: &str, draft: Draft) -> (r: JsonValue)
    ensures
        r@ == content_doc(id@, kind@, structure@, databases@, space_id@, now@, draft@),
{
    let ghost dv = databases@;
    let ghost sk = draft@;
    let bd = blocks_doc(&draft.blocks);
    let ghost bdv = bd@;
    let mut data = members();
    put(&mut data, "blocks", bd);
    put(&mut data, "hidePropertySection", JsonValue::Bool(false));
    let data_doc = object(data);
    assert(pair_views(data@) =~= seq![("blocks"@, bdv), ("hidePropertySection"@, Json::Bool(false))]);
    let ghost datav = data_doc@;
    let pol = policies_exec(space_id);
    let ghost polv = pol@;
    let props = draft.props;
    let ghost pv = props@;
    let mut ps = members();
    put(&mut ps, "id", string(id));
    put(&mut ps, "type", string(kind));
    put(&mut ps, "structureId", string(structure));
    put(&mut ps, "loadingState", string("full"));
    put(&mut ps, "deleteRequested", JsonValue::Bool(false));
    put(&mut ps, "databases", databases);
    put(&mut ps, "policies", pol);
    put(&mut ps, "lastUpdated", string(now));
    put(&mut ps, "createdAt", string(now));
    put(&mut ps, "properties", props);
    put(&mut ps, "data", data_doc);
    put(&mut ps, "linkNodes", empty_array());
    let lc = object(members());
    put(&mut ps, "local", lc);
    assert(pair_views(ps@) =~= seq![
        ("id"@, Json::Str(id@)),
        ("type"@, Json::Str(kind@)),
        ("structureId"@, Json::Str(structure@)),
        ("loadingState"@, Json::Str("full"@)),
        ("deleteRequested"@, Json::Bool(false)),
        ("databases"@, dv),
        ("policies"@, polv),
        ("lastUpdated"@, Json::Str(now@)),
        ("createdAt"@, Json::Str(now@)),
        ("properties"@, pv),
        ("data"@, datav),
        ("linkNodes"@, Json::Array(Seq::empty())),
        ("local"@, Json::Object(Seq::empty())),
    ]);
    object(ps)
}

fn str_list(items: Vec<&str>) -> (r: Vec<String>)
    ensures
        string_views(r@) == Seq::new(items@.len(), |i: int| items@[i]@),
{
    let mut out: Vec<String> = Vec::new();
    let mut i: usize = 0;
    while i < items.len()
        invariant
            0 <= i <= items.len(),
            out@.len() == i,
            forall|k: int| 0 <= k < i ==> (#[trigger] out@[k])@ == items@[k]@,
        decreases items.len() - i,
    {
        out.push(copy(items[i]));
        i += 1;
    }
    assert(string_views(out@) =~= Seq::new(items@.len(), |i: int| items@[i]@));
    out
}

/// The properties a new task starts from.
pub open spec fn task_seed(title: Seq<char>) -> Sketch {
    Sketch {
        props: Json::Object(
            seq![
                ("title"@, val_obj(Json::Str(title))),
                ("icon"@, Json::Object(Seq::empty())),
                ("description"@, Json::Object(Seq::empty())),
            ],
        ),
        blocks: Seq::empty(),
    }
}

pub open spec fn task_reserved() -> Seq<Seq<char>> {
    seq!["title"@, "description"@, "icon"@]
}

/// The block list a task's body goes to: its first blocks property, else its notes.
pub open spec fn task_body_key(defs: Seq<RawPropertyDefinition>) -> Seq<char> {
    match first_blocks(defs, 0) {
        Some(i) => defs[i].id@,
        None => "RootTask_notes"@,
    }
}

pub open spec fn task_databases(db: Option<Seq<char>>, lid: Seq<char>, now: Seq<char>) -> Json {
    match db {
        Some(d) => Json::Array(seq![database_link(d, lid, now)]),
        None => Json::Array(Seq::empty()),
    }
}

/// `body` creates the task `id` (with the sync client `cid`, database link `lid`, at `now`,
/// with `s2` the draft after the user's values and `s3` after the body).
pub open spec fn task_request_with(
    id: Seq<char>,
    body: Json,
    space: Seq<char>,
    title: Seq<char>,
    md: Option<Seq<char>>,
    user: Option<Seq<(Seq<char>, Json)>>,
    defs: Seq<RawPropertyDefinition>,
    db: Option<Seq<char>>,
    now: Seq<char>,
    cid: Seq<char>,
    lid: Seq<char>,
    s2: Sketch,
    s3: Sketch,
) -> bool {
    let s1 = seeded(task_seed(title), defs, task_reserved(), defs.len() as int);
    &&& is_uuid_text(id)
    &&& is_uuid_text(cid)
    &&& is_uuid_text(lid)
    &&& with_user(s1, s2, defs, user)
    &&& match md {
        Some(m) => with_body(s2, s3, task_body_key(defs), m),
        None => s3 == s2,
    }
    &&& body == sync_body(
        cid,
        seq![element(space, content_doc(id, "RootTask"@, "RootTask"@, task_databases(db, lid, now), space, now, s3))],
    )
}

/// The new task's identifier and the sync request that creates it, in the database `db_id`
/// where there is one.
pub fn save_task_request(
    space_id: &str,
    title: &str,
    md_text: Option<&str>,
    properties: Option<&Vec<(String, JsonValue)>>,
    prop_defs: &Vec<RawPropertyDefinition>,
    db_id: Option<&str>,
) -> (r: (String, JsonValue))
    ensures
        exists|now: Seq<char>, cid: Seq<char>, lid: Seq<char>, s2: Sketch, s3: Sketch|
            is_utc_stamp(now) && #[trigger] task_request_with(
                r.0@,
                r.1@,
                space_id@,
                title@,
                opt_str_view(md_text),
                opt_pairs(properties),
                prop_defs@,
                opt_str_view(db_id),
                now,
                cid,
                lid,
                s2,
                s3,
            ),
{
    let id = new_id();
    let now = now_iso();
    let mut seed = members();
    put(&mut seed, "title", val_wrap(string(title)));
    put(&mut seed, "icon", object(members()));
    put(&mut seed, "description", object(members()));
    let mut draft = Draft::new(object(seed));
    assert(draft@ == task_seed(title@)) by {
        assert(pair_views(seed@) =~= seq![
            ("title"@, val_obj(Json::Str(title@))),
            ("icon"@, Json::Object(Seq::empty())),
            ("description"@, Json::Object(Seq::empty())),
        ]);
    }
    let reserved = str_list(vec!["title", "description", "icon"]);
    assert(string_views(reserved@) =~= task_reserved());
    draft.seed(prop_defs, &reserved);
    let ghost s1 = draft@;
    match properties {
        Some(u) => draft.apply_props(prop_defs, u),
        None => {},
    }
    let ghost s2 = draft@;
    match md_text {
        Some(md) => {
            let key = match first_blocks_exec(prop_defs) {
                Some(i) => prop_defs[i].id.clone(),
                None => copy("RootTask_notes"),
            };
            draft.set_body(key.as_str(), md);
        },
        None => {},
    }
    let ghost s3 = draft@;
    let databases = match db_id {
        Some(d) => {
            let link = database_link_exec(d, now.as_str());
            let ghost lk = link@;
            let v = vec![link];
            assert(views(v@) =~= seq![lk]);
            array(v)
        },
        None => empty_array(),
    };
    let ghost lid: Seq<char> = match db_id {
        Some(d) => choose|lid: Seq<char>| is_uuid_text(lid) && databases@ == Json::Array(seq![#[trigger] database_link(d@, lid, now@)]),
        None => choose|lid: Seq<char>| is_uuid_text(lid),
    };
    proof {
        let w = seq!['0'; 36].update(8, '-').update(13, '-').update(18, '-').update(23, '-');
        assert(is_uuid_text(w));
        if db_id is Some {
            let d = db_id->0;
            assert(exists|lid: Seq<char>| is_uuid_text(lid) && databases@ == Json::Array(seq![#[trigger] database_link(d@, lid, now@)]));
        }
    }
    let content = content_exec(id.as_str(), "RootTask", "RootTask", databases, space_id, now.as_str(), draft);
    let body = sync_one(space_id, content);
    let ghost cid = choose|cid: Seq<char>| is_uuid_text(cid) && body@ == #[trigger] sync_body(cid, seq![element(space_id@, content@)]);
    let r = (id, body);
    assert(task_request_with(
        r.0@, r.1@, space_id@, title@, opt_str_view(md_text), opt_pairs(properties), prop_defs@,
        opt_str_view(db_id), now@, cid, lid, s2, s3,
    ));
    r
}

/// The properties a new object starts from.
pub open spec fn object_seed(title: Seq<char>, desc: Option<Seq<char>>) -> Sketch {
    Sketch {
        props: Json::Object(
            seq![
                ("title"@, val_obj(Json::Str(title))),
                ("description"@, match desc {
                    Some(d) => val_obj(Json::Str(d)),
                    None => Json::Object(Seq::empty()),
                }),
                ("icon"@, Json::Object(Seq::empty())),
                ("tags"@, val_obj(Json::Array(Seq::empty()))),
            ],
        ),
        blocks: Seq::empty(),
    }
}

pub open spec fn object_reserved() -> Seq<Seq<char>> {
    seq!["title"@, "description"@, "tags"@]
}

/// `to` is `from` with the body `md` written to the first blocks property, where there are
/// both.
pub open spec fn with_first_body(from: Sketch, to: Sketch, defs: Seq<RawPropertyDefinition>, md: Option<Seq<char>>) -> bool {
    match md {
        Some(m) => match first_blocks(defs, 0) {
            Some(i) => with_body(from, to, defs[i].id@, m),
            None => to == from,
        },
        None => to == from,
    }
}

/// `body` creates the object `id` of structure `structure` (with the sync client `cid`,
/// database link `lid` to the database `dbid`, at `now`, with `s2` the draft after the user's
/// values and `s3` after the body): the database found, or a new identifier.
pub open spec fn create_request_with(
    id: Seq<char>,
    body: Json,
    space: Seq<char>,
    structure: Seq<char>,
    title: Seq<char>,
    desc: Option<Seq<char>>,
    md: Option<Seq<char>>,
    user: Option<Seq<(Seq<char>, Json)>>,
    defs: Seq<RawPropertyDefinition>,
    db: Option<Seq<char>>,
    now: Seq<char>,
    cid: Seq<char>,
    lid: Seq<char>,
    dbid: Seq<char>,
    s2: Sketch,
    s3: Sketch,
) -> bool {
    let s1 = seeded(object_seed(title, desc), defs, object_reserved(), defs.len() as int);
    &&& is_uuid_text(id)
    &&& is_uuid_text(cid)
    &&& is_uuid_text(lid)
    &&& match db {
        Some(d) => dbid == d,
        None => is_uuid_text(dbid),
    }
    &&& with_user(s1, s2, defs, user)
    &&& with_first_body(s2, s3, defs, md)
    &&& body == sync_body(
        cid,
        seq![
            element(
                space,
                content_doc(id, "RootEntity"@, structure, Json::Array(seq![database_link(dbid, lid, now)]), space, now, s3),
            ),
        ],
    )
}

/// The new object's identifier and the sync request that creates it, linked to the database
/// `db_id` (or to a new one).
pub fn create_object_request(
    space_id: &str,
    structure_id: &str,
    title: &str,
    description: Option<&str>,
    properties: Option<&Vec<(String, JsonValue)>>,
    body_markdown: Option<&str>,
    prop_defs: &Vec<RawPropertyDefinition>,
    db_id: Option<&str>,
) -> (r: (String, JsonValue))
    ensures
        exists|now: Seq<char>, cid: Seq<char>, lid: Seq<char>, dbid: Seq<char>, s2: Sketch, s3: Sketch|
            is_utc_stamp(now) && #[trigger] create_request_with(
                r.0@,
                r.1@,
                space_id@,
                structure_id@,
                title@,
                opt_str_view(description),
                opt_str_view(body_markdown),
                opt_pairs(properties),
                prop_defs@,
                opt_str_view(db_id),
                now,
                cid,
                lid,
                dbid,
                s2,
                s3,
            ),
{
    let id = new_id();
    let now = now_iso();
    let mut seed = members();
    put(&mut seed, "title", val_wrap(string(title)));
    let desc_doc = match description {
        Some(d) => val_wrap(string(d)),
        None => {
            let e = members();
            let o = object(e);
            assert(o@ == Json::Object(Seq::empty()));
            o
        },
    };
    let ghost ddv = desc_doc@;
    assert(ddv == match opt_str_view(description) {
        Some(d) => val_obj(Json::Str(d)),
        None => Json::Object(Seq::empty()),
    });
    put(&mut seed, "description", desc_doc);
    put(&mut seed, "icon", object(members()));
    put(&mut seed, "tags", val_wrap(empty_array()));
    assert(pair_views(seed@) =~= seq![
        ("title"@, val_obj(Json::Str(title@))),
        ("description"@, ddv),
        ("icon"@, Json::Object(Seq::empty())),
        ("tags"@, val_obj(Json::Array(Seq::empty()))),
    ]);
    let seed_doc = object(seed);
    let ghost want = object_seed(title@, opt_str_view(description)).props;
    assert(want->Object_0 =~= pair_views(seed@));
    assert(seed_doc@ == want);
    let mut draft = Draft::new(seed_doc);
    assert(draft@ == object_seed(title@, opt_str_view(description)));
    let reserved = str_list(vec!["title", "description", "tags"]);
    assert(string_views(reserved@) =~= object_reserved());
    draft.seed(prop_defs, &reserved);
    match properties {
        Some(u) => draft.apply_props(prop_defs, u),
        None => {},
    }
    let ghost s2 = draft@;
    match body_markdown {
        Some(md) => match first_blocks_exec(prop_defs) {
            Some(i) => draft.set_body(prop_defs[i].id.as_str(), md),
            None => {},
        },
        None => {},
    }
    let ghost s3 = draft@;
    let database_id = match db_id {
        Some(d) => copy(d),
        None => new_id(),
    };
    let link = database_link_exec(database_id.as_str(), now.as_str());
    let ghost lid = choose|lid: Seq<char>| is_uuid_text(lid) && link@ == #[trigger] database_link(database_id@, lid, now@);
    let ghost lk = link@;
    let v = vec![link];
    assert(views(v@) =~= seq![lk]);
    let databases = array(v);
    let content = content_exec(id.as_str(), "RootEntity", structure_id, databases, space_id, now.as_str(), draft);
    let body = sync_one(space_id, content);
    let ghost cid = choose|cid: Seq<char>| is_uuid_text(cid) && body@ == #[trigger] sync_body(cid, seq![element(space_id@, content@)]);
    let r = (id, body);
    assert(create_request_with(
        r.0@, r.1@, space_id@, structure_id@, title@, opt_str_view(description), opt_str_view(body_markdown),
        opt_pairs(properties), prop_defs@, opt_str_view(db_id), now@, cid, lid, database_id@, s2, s3,
    ));
    r
}

/// Whether updating an object needs its property definitions: it does for user values and
/// for a body.
pub fn needs_definitions(properties: Option<&Vec<(String, JsonValue)>>, body_markdown: Option<&str>) -> (r: bool)
    ensures
        r == ((properties is Some && properties->0@.len() > 0) || body_markdown is Some),
{
    let has_props = match properties {
        Some(u) => u.len() > 0,
        None => false,
    };
    has_props || body_markdown.is_some()
}

/// The properties with a new title and description set, where given.
pub open spec fn titled(props: Json, title: Option<Seq<char>>, desc: Option<Seq<char>>) -> Json {
    let p1 = match title {
        Some(t) => jset(props, "title"@, val_obj(Json::Str(t))),
        None => props,
    };
    match desc {
        Some(d) => jset(p1, "description"@, val_obj(Json::Str(d))),
        None => p1,
    }
}

/// The block lists of an object's data: the members of its `blocks` object.
pub open spec fn block_members(data: Json) -> Seq<(Seq<char>, Json)> {
    match field(data, "blocks"@) {
        Some(Json::Object(ps)) => ps,
        _ => Seq::empty(),
    }
}

/// `ps` with the first `n` block lists of `bm` set in turn.
pub open spec fn merge_lists(ps: Seq<(Seq<char>, Json)>, bm: Seq<(Seq<char>, Seq<Json>)>, n: int) -> Seq<(Seq<char>, Json)>
    decreases n,
{
    if n <= 0 {
        ps
    } else {
        kset(merge_lists(ps, bm, n - 1), bm[n - 1].0, Json::Array(bm[n - 1].1))
    }
}

pub open spec fn user_list(user: Option<Seq<(Seq<char>, Json)>>) -> Seq<(Seq<char>, Json)> {
    match user {
        Some(u) => u,
        None => Seq::empty(),
    }
}

/// The data after the user's block lists (`s1.blocks`) and then the body's blocks `bl` are
/// set.
pub open spec fn updated_data(d0: Json, s1: Sketch, defs: Seq<RawPropertyDefinition>, md: Option<Seq<char>>, bl: Seq<Json>) -> Json {
    let d1 = if s1.blocks.len() > 0 {
        jset(d0, "blocks"@, Json::Object(merge_lists(block_members(d0), s1.blocks, s1.blocks.len() as int)))
    } else {
        d0
    };
    match md {
        Some(m) => match first_blocks(defs, 0) {
            Some(i) => jset(d1, "blocks"@, Json::Object(kset(block_members(d1), defs[i].id@, Json::Array(bl)))),
            None => d1,
        },
        None => d1,
    }
}

/// The component as an object whose members are set one by one.
pub open spec fn copied_doc(c: Component) -> Json {
    let ms = obj_members(component_doc(c));
    Json::Object(kset_all(Seq::empty(), ms, ms.len() as int))
}

/// `body` updates the component `c` (with the sync client `cid`, at `now`, with `s1` the
/// properties after the user's values and `bl` the body's blocks).
pub open spec fn update_request_with(
    body: Json,
    c: Component,
    space: Seq<char>,
    title: Option<Seq<char>>,
    desc: Option<Seq<char>>,
    md: Option<Seq<char>>,
    user: Option<Seq<(Seq<char>, Json)>>,
    defs: Seq<RawPropertyDefinition>,
    now: Seq<char>,
    cid: Seq<char>,
    s1: Sketch,
    bl: Seq<Json>,
) -> bool {
    let u = user_list(user);
    let s0 = Sketch { props: titled(c.properties@, title, desc), blocks: Seq::empty() };
    let merged = jset(
        jset(jset(copied_doc(c), "lastUpdated"@, Json::Str(now)), "properties"@, s1.props),
        "data"@,
        updated_data(c.data@, s1, defs, md, bl),
    );
    &&& is_uuid_text(cid)
    &&& (u.len() > 0 ==> applied(s0, s1, defs, u))
    &&& (u.len() == 0 ==> s1 == s0)
    &&& (md is Some && first_blocks(defs, 0) is Some ==> md_blocks(md->0, bl))
    &&& body == sync_body(cid, seq![element(space, merged)])
}

/// Sets the block list `key` of the data's `blocks` object to `list`.
fn set_block_list(data: &mut JsonValue, key: &str, list: JsonValue)
    requires
        settable(old(data)@),
    ensures
        final(data)@ == jset(old(data)@, "blocks"@, Json::Object(kset(block_members(old(data)@), key@, list@))),
        settable(final(data)@),
{
    let existing = member_or_null(data, "blocks");
    let mut bps: Vec<(String, JsonValue)> = match existing {
        JsonValue::Object(ps) => ps,
        _ => Vec::new(),
    };
    assert(pair_views(bps@) =~= block_members(old(data)@));
    set_member(&mut bps, key, list);
    assign(data, "blocks", object(bps));
}

/// The sync request that updates the component `component`: a new title and description,
/// the user's values written through the definitions `prop_defs`, and a new body.
pub fn update_request(
    space_id: &str,
    component: &Component,
    title: Option<&str>,
    description: Option<&str>,
    body_markdown: Option<&str>,
    properties: Option<&Vec<(String, JsonValue)>>,
    prop_defs: &Vec<RawPropertyDefinition>,
) -> (r: JsonValue)
    requires
        (title is Some || description is Some || user_list(opt_pairs(properties)).len() > 0) ==> settable(component.properties@),
        (blocks_keyed(prop_defs@, user_list(opt_pairs(properties)), user_list(opt_pairs(properties)).len() as int)
            || (body_markdown is Some && first_blocks(prop_defs@, 0) is Some)) ==> settable(component.data@),
    ensures
        exists|now: Seq<char>, cid: Seq<char>, s1: Sketch, bl: Seq<Json>|
            is_utc_stamp(now) && #[trigger] update_request_with(
                r@,
                *component,
                space_id@,
                opt_str_view(title),
                opt_str_view(description),
                opt_str_view(body_markdown),
                opt_pairs(properties),
                prop_defs@,
                now,
                cid,
                s1,
                bl,
            ),
{
    let now = now_iso();
    let ghost u = user_list(opt_pairs(properties));
    let mut props = component.properties.deep_clone();
    match title {
        Some(t) => assign(&mut props, "title", val_wrap(string(t))),
        None => {},
    }
    match description {
        Some(d) => assign(&mut props, "description", val_wrap(string(d))),
        None => {},
    }
    let mut draft = Draft::new(props);
    let ghost s0 = draft@;
    let mut data = component.data.deep_clone();
    match properties {
        Some(uv) => if uv.len() > 0 {
            draft.apply_props(prop_defs, uv);
        },
        None => {},
    }
    let ghost s1 = draft@;
    if draft.blocks.len() > 0 {
        let existing = member_or_null(&data, "blocks");
        let mut bps: Vec<(String, JsonValue)> = match existing {
            JsonValue::Object(ps) => ps,
            _ => Vec::new(),
        };
        assert(pair_views(bps@) =~= block_members(data@));
        let ghost base = block_members(data@);
        let ghost bv = list_map_view(draft.blocks@);
        let mut i: usize = 0;
        while i < draft.blocks.len()
            invariant
                0 <= i <= draft.blocks.len(),
                bv == list_map_view(draft.blocks@),
                pair_views(bps@) == merge_lists(base, bv, i as int),
            decreases draft.blocks.len() - i,
        {
            let mut items: Vec<JsonValue> = Vec::new();
            let mut j: usize = 0;
            while j < draft.blocks[i].1.len()
                invariant
                    0 <= j <= draft.blocks@[i as int].1.len(),
                    i < draft.blocks.len(),
                    items@.len() == j,
                    forall|k: int| 0 <= k < j ==> (#[trigger] items@[k])@ == draft.blocks@[i as int].1@[k]@,
                decreases draft.blocks@[i as int].1.len() - j,
            {
                items.push(draft.blocks[i].1[j].deep_clone());
                j += 1;
            }
            assert(views(items@) =~= bv[i as int].1);
            set_member(&mut bps, draft.blocks[i].0.as_str(), array(items));
            i += 1;
        }
        assign(&mut data, "blocks", object(bps));
    }
    let ghost mut blv: Seq<Json> = Seq::empty();
    match body_markdown {
        Some(md) => match first_blocks_exec(prop_defs) {
            Some(i) => {
                let bl = markdown_to_blocks(md);
                proof {
                    blv = views(bl@);
                }
                assert(md_blocks(md@, blv));
                let list = array(bl);
                set_block_list(&mut data, prop_defs[i].id.as_str(), list);
            },
            None => {},
        },
        None => {},
    }
    let ghost dv = data@;
    assert(dv == updated_data(component.data@, s1, prop_defs@, opt_str_view(body_markdown), blv));
    let doc = component.to_doc();
    let mut ps = members();
    match doc {
        JsonValue::Object(dps) => {
            let ghost ms = pair_views(dps@);
            let mut i: usize = 0;
            while i < dps.len()
                invariant
                    0 <= i <= dps.len(),
                    ms == pair_views(dps@),
                    pair_views(ps@) == kset_all(Seq::empty(), ms, i as int),
                decreases dps.len() - i,
            {
                set_member(&mut ps, dps[i].0.as_str(), dps[i].1.deep_clone());
                i += 1;
            }
            assert(ms =~= obj_members(component_doc(*component)));
        },
        _ => {},
    }
    let mut merged = object(ps);
    assert(merged@ == copied_doc(*component));
    assign(&mut merged, "lastUpdated", JsonValue::Str(now));
    let new_props = draft.props;
    assign(&mut merged, "properties", new_props);
    assign(&mut merged, "data", data);
    let ghost mv = merged@;
    let body = sync_one(space_id, merged);
    let ghost cid = choose|cid: Seq<char>| is_uuid_text(cid) && body@ == #[trigger] sync_body(cid, seq![element(space_id@, mv)]);
    assert(update_request_with(
        body@, *component, space_id@, opt_str_view(title), opt_str_view(description), opt_str_view(body_markdown),
        opt_pairs(properties), prop_defs@, now@, cid, s1, blv,
    ));
    body
}

/// Whether updating an object writes to its data: when a user's key names a blocks property,
/// or a body is given and the structure has a blocks property.
pub fn update_touches_data(
    properties: Option<&Vec<(String, JsonValue)>>,
    body_markdown: Option<&str>,
    prop_defs: &Vec<RawPropertyDefinition>,
) -> (r: bool)
    ensures
        r == (blocks_keyed(prop_defs@, user_list(opt_pairs(properties)), user_list(opt_pairs(properties)).len() as int)
            || (body_markdown is Some && first_blocks(prop_defs@, 0) is Some)),
{
    let body_hit = body_markdown.is_some() && first_blocks_exec(prop_defs).is_some();
    let ghost u = user_list(opt_pairs(properties));
    let mut keyed = false;
    match properties {
        Some(user) => {
            let names = crate::defs::name_index(prop_defs);
            let mut i: usize = 0;
            while i < user.len()
                invariant
                    0 <= i <= user.len(),
                    u == pair_views(user@),
                    keyed == blocks_keyed(prop_defs@, u, i as int),
                    forall|k: Seq<char>| #[trigger] crate::keyed::kget(crate::keyed::index_view(names@), k) == crate::defs::last_named(prop_defs@, k, prop_defs@.len() as int),
                    forall|j: int| 0 <= j < names@.len() ==> (#[trigger] names@[j]).1 < prop_defs@.len(),
                decreases user.len() - i,
            {
                let (_, d) = crate::defs::resolve_prop_key(user[i].0.as_str(), prop_defs, &names);
                let hit = match d {
                    Some(j) => str_eq(prop_defs[j].data_type.as_str(), "blocks"),
                    None => false,
                };
                assert(hit == crate::draft::keys_blocks(prop_defs@, u[i as int].0));
                keyed = keyed || hit;
                i += 1;
            }
        },
        None => {},
    }
    keyed || body_hit
}

} // verus!
