//! Pieces of content as the sync endpoint takes them.
use vstd::prelude::*;
use crate::clock::{is_utc_stamp, now_iso};
use crate::ids::{is_uuid_text, new_id};
use crate::json::{at, empty_array, members, object, pair_views, put, string, views, Json, JsonValue};
use crate::keyed::{assign, jset, kset, lemma_at_jset, set_member, settable};
use crate::types::Component;

verus! {

pub open spec fn opt_str_json(o: Option<String>) -> Json {
    match o {
        Some(s) => Json::Str(s@),
        None => Json::Null,
    }
}

pub open spec fn opt_bool_json(o: Option<bool>) -> Json {
    match o {
        Some(b) => Json::Bool(b),
        None => Json::Null,
    }
}

pub open spec fn opt_list_json(o: Option<Vec<JsonValue>>) -> Json {
    match o {
        Some(v) => Json::Array(views(v@)),
        None => Json::Null,
    }
}

pub open spec fn opt_json(o: Option<JsonValue>) -> Json {
    match o {
        Some(v) => v@,
        None => Json::Null,
    }
}

/// `base` with each of the first `n` entries of `extra` set in turn.
pub open spec fn kset_all(base: Seq<(Seq<char>, Json)>, extra: Seq<(Seq<char>, Json)>, n: int) -> Seq<(Seq<char>, Json)>
    decreases n,
{
    if n <= 0 {
        base
    } else {
        let p = kset_all(base, extra, n - 1);
        kset(p, extra[n - 1].0, extra[n - 1].1)
    }
}

/// The named members of a component, as it is written.
pub open spec fn component_fields(c: Component) -> Seq<(Seq<char>, Json)> {
    seq![
        ("id"@, Json::Str(c.id@)),
        ("type"@, Json::Str(c.comp_type@)),
        ("structureId"@, Json::Str(c.structure_id@)),
        ("properties"@, c.properties@),
        ("data"@, c.data@),
        ("databases"@, opt_list_json(c.databases)),
        ("createdAt"@, opt_str_json(c.created_at)),
        ("lastUpdated"@, opt_str_json(c.last_updated)),
        ("deleteRequested"@, opt_bool_json(c.delete_requested)),
        ("loadingState"@, opt_str_json(c.loading_state)),
        ("policies"@, opt_list_json(c.policies)),
        ("linkNodes"@, opt_list_json(c.link_nodes)),
        ("local"@, opt_json(c.local)),
    ]
}

/// A component as a JSON object: its named members, then its other members (a member of the
/// same name takes the place of the named one).
pub open spec fn component_doc(c: Component) -> Json {
    Json::Object(kset_all(component_fields(c), pair_views(c.extra@), c.extra@.len() as int))
}

fn opt_str_doc(o: &Option<String>) -> (r: JsonValue)
    ensures
        r@ == opt_str_json(*o),
{
    match o {
        Some(s) => JsonValue::Str(s.clone()),
        None => JsonValue::Null,
    }
}

fn opt_list_doc(o: &Option<Vec<JsonValue>>) -> (r: JsonValue)
    ensures
        r@ == opt_list_json(*o),
{
    match o {
        Some(v) => {
            let mut out: Vec<JsonValue> = Vec::new();
            let mut i: usize = 0;
            while i < v.len()
                invariant
                    0 <= i <= v.len(),
                    out@.len() == i,
                    forall|k: int| 0 <= k < i ==> (#[trigger] out@[k])@ == v@[k]@,
                decreases v.len() - i,
            {
                out.push(v[i].deep_clone());
                i += 1;
            }
            let r = JsonValue::Array(out);
            assert(views(out@) =~= views(v@));
            assert(match r@ { Json::Array(x) => x, _ => Seq::empty() } =~= views(out@));
            r
        },
        None => JsonValue::Null,
    }
}

impl Component {
    /// The component as a JSON object, as it is sent back to the service.
    pub fn to_doc(&self) -> (r: JsonValue)
        ensures
            r@ == component_doc(*self),
    {
        let mut ps = members();
        put(&mut ps, "id", JsonValue::Str(self.id.clone()));
        put(&mut ps, "type", JsonValue::Str(self.comp_type.clone()));
        put(&mut ps, "structureId", JsonValue::Str(self.structure_id.clone()));
        put(&mut ps, "properties", self.properties.deep_clone());
        put(&mut ps, "data", self.data.deep_clone());
        put(&mut ps, "databases", opt_list_doc(&self.databases));
        put(&mut ps, "createdAt", opt_str_doc(&self.created_at));
        put(&mut ps, "lastUpdated", opt_str_doc(&self.last_updated));
        let dr = match self.delete_requested {
            Some(b) => JsonValue::Bool(b),
            None => JsonValue::Null,
        };
        put(&mut ps, "deleteRequested", dr);
        put(&mut ps, "loadingState", opt_str_doc(&self.loading_state));
        put(&mut ps, "policies", opt_list_doc(&self.policies));
        put(&mut ps, "linkNodes", opt_list_doc(&self.link_nodes));
        let lc = match &self.local {
            Some(v) => v.deep_clone(),
            None => JsonValue::Null,
        };
        put(&mut ps, "local", lc);
        assert(pair_views(ps@) =~= component_fields(*self));
        let ghost ev = pair_views(self.extra@);
        let mut i: usize = 0;
        while i < self.extra.len()
            invariant
                0 <= i <= self.extra.len(),
                ev == pair_views(self.extra@),
                pair_views(ps@) == kset_all(component_fields(*self), ev, i as int),
            decreases self.extra.len() - i,
        {
            set_member(&mut ps, self.extra[i].0.as_str(), self.extra[i].1.deep_clone());
            i += 1;
        }
        object(ps)
    }
}

/// `{ "spaceId": space, "content": content }`.
pub open spec fn element(space: Seq<char>, content: Json) -> Json {
    Json::Object(seq![("spaceId"@, Json::Str(space)), ("content"@, content)])
}

/// The body of a sync request from the client `cid`.
pub open spec fn sync_body(cid: Seq<char>, elements: Seq<Json>) -> Json {
    Json::Object(seq![("syncClientId"@, Json::Str(cid)), ("elements"@, Json::Array(elements))])
}

pub fn element_doc(space_id: &str, content: JsonValue) -> (r: JsonValue)
    ensures
        r@ == element(space_id@, content@),
{
    let ghost cv = content@;
    let mut ps = members();
    put(&mut ps, "spaceId", string(space_id));
    put(&mut ps, "content", content);
    assert(pair_views(ps@) =~= seq![("spaceId"@, Json::Str(space_id@)), ("content"@, cv)]);
    object(ps)
}

/// A sync request from a new client identifier carrying `elements`.
pub fn sync_request(elements: Vec<JsonValue>) -> (r: JsonValue)
    ensures
        exists|cid: Seq<char>| is_uuid_text(cid) && r@ == #[trigger] sync_body(cid, views(elements@)),
{
    let cid = new_id();
    let ghost cv = cid@;
    let ghost ev = views(elements@);
    let arr = JsonValue::Array(elements);
    assert(match arr@ { Json::Array(x) => x, _ => Seq::empty() } =~= ev);
    let mut ps = members();
    put(&mut ps, "syncClientId", JsonValue::Str(cid));
    put(&mut ps, "elements", arr);
    assert(pair_views(ps@) =~= seq![("syncClientId"@, Json::Str(cv)), ("elements"@, Json::Array(ev))]);
    let r = object(ps);
    assert(r@ == sync_body(cv, ev));
    r
}

/// A sync request carrying the one piece of content `content` for the space `space_id`.
pub fn sync_one(space_id: &str, content: JsonValue) -> (r: JsonValue)
    ensures
        exists|cid: Seq<char>| is_uuid_text(cid) && r@ == #[trigger] sync_body(cid, seq![element(space_id@, content@)]),
{
    let e = element_doc(space_id, content);
    let ghost ev = e@;
    let v = vec![e];
    assert(views(v@) =~= seq![ev]);
    sync_request(v)
}

/// The component marked as deleted at `now`.
pub open spec fn deleted_doc(c: Component, now: Seq<char>) -> Json {
    jset(jset(component_doc(c), "lastUpdated"@, Json::Str(now)), "deleteRequested"@, Json::Bool(true))
}

/// The sync request that deletes (softly) the component `component`.
pub fn delete_request(space_id: &str, component: &Component) -> (r: JsonValue)
    ensures
        exists|cid: Seq<char>, now: Seq<char>|
            is_uuid_text(cid) && is_utc_stamp(now) && r@ == #[trigger] sync_body(cid, seq![element(space_id@, deleted_doc(*component, now))]),
{
    let now = now_iso();
    let ghost nv = now@;
    let mut merged = component.to_doc();
    assign(&mut merged, "lastUpdated", JsonValue::Str(now));
    assign(&mut merged, "deleteRequested", JsonValue::Bool(true));
    assert(merged@ == deleted_doc(*component, nv));
    sync_one(space_id, merged)
}

/// The blocks member of the daily note's data replaced by `blocks`, in the component written
/// at `now`.
pub open spec fn daily_doc(c: Component, blocks: Seq<Json>, now: Seq<char>) -> Json {
    let m = jset(component_doc(c), "lastUpdated"@, Json::Str(now));
    let data = at(m, "data"@);
    let bs = at(data, "blocks"@);
    if bs is Object {
        jset(m, "data"@, jset(data, "blocks"@, jset(bs, "RootDailyNote_notes"@, Json::Array(blocks))))
    } else {
        jset(m, "data"@, jset(data, "blocks"@, Json::Object(seq![("RootDailyNote_notes"@, Json::Array(blocks))])))
    }
}

/// What a member of the written component can be set on, for its `data` member.
pub open spec fn daily_settable(c: Component) -> bool {
    settable(at(component_doc(c), "data"@))
}

/// The member `k` of `j` (a copy), or `null`.
pub fn member_or_null(j: &JsonValue, k: &str) -> (r: JsonValue)
    ensures
        r@ == at(j@, k@),
{
    match j.get(k) {
        Some(v) => v.deep_clone(),
        None => JsonValue::Null,
    }
}

/// The sync request that replaces the blocks of a daily note with `blocks`.
pub fn daily_sync_request(space_id: &str, component: &Component, blocks: Vec<JsonValue>) -> (r: JsonValue)
    requires
        daily_settable(*component),
    ensures
        exists|cid: Seq<char>, now: Seq<char>|
            is_uuid_text(cid) && is_utc_stamp(now) && r@ == #[trigger] sync_body(cid, seq![element(space_id@, daily_doc(*component, views(blocks@), now))]),
{
    let now = now_iso();
    let ghost nv = now@;
    let ghost bv = views(blocks@);
    let mut m = component.to_doc();
    let ghost m0 = m@;
    assign(&mut m, "lastUpdated", JsonValue::Str(now));
    proof {
        reveal_strlit("data");
        reveal_strlit("lastUpdated");
        assert("data"@.len() == 4);
        assert("data"@ != "lastUpdated"@);
        lemma_at_jset(m0, "lastUpdated"@, Json::Str(nv), "data"@);
    }
    assert(settable(at(m@, "data"@)));
    let mut data = member_or_null(&m, "data");
    let bs = member_or_null(&data, "blocks");
    let list = JsonValue::Array(blocks);
    assert(list@ == Json::Array(bv)) by {
        assert(match list@ { Json::Array(x) => x, _ => Seq::empty() } =~= bv);
    }
    let new_bs = match bs {
        JsonValue::Object(_) => {
            let mut b = bs;
            assign(&mut b, "RootDailyNote_notes", list);
            b
        },
        _ => {
            let ghost lv = list@;
            let mut ps = members();
            put(&mut ps, "RootDailyNote_notes", list);
            assert(pair_views(ps@) =~= seq![("RootDailyNote_notes"@, lv)]);
            object(ps)
        },
    };
    assign(&mut data, "blocks", new_bs);
    assign(&mut m, "data", data);
    assert(m@ == daily_doc(*component, bv, nv));
    sync_one(space_id, m)
}

} // verus!
