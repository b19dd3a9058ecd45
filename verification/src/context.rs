//! Context: an object shows up in the context of another when a block in the other's body
//! links to it.
use vstd::prelude::*;
use crate::clock::{is_utc_stamp, now_iso};
use crate::compose::{first_blocks, first_blocks_exec};
use crate::ids::{is_uuid_text, new_id};
use crate::json::{array, at, empty_array, field, json_array, json_str, members, object, pair_views, put, string, views, Json, JsonValue};
use crate::keyed::{assign, jset, kget, kset, lemma_field_kget, set_member};
use crate::sync::{component_doc, element, element_doc, member_or_null, sync_body, sync_request};
use crate::text::{append, copy, debug_list, debug_strs, str_eq, string_views};
use crate::types::{Component, RawPropertyDefinition};

verus! {

pub open spec fn opt_doc(o: Option<JsonValue>) -> Option<Json> {
    match o {
        Some(j) => Some(j@),
        None => None,
    }
}

/// A token links to the entity `eid`.
pub open spec fn token_links(t: Json, eid: Seq<char>) -> bool {
    json_str(at(at(t, "entity"@), "id"@)) == Some(eid)
}

/// A block holds a token that links to the entity `eid`.
pub open spec fn links_to(b: Json, eid: Seq<char>) -> bool {
    match json_array(at(b, "tokens"@)) {
        Some(ts) => exists|t: int| 0 <= t < ts.len() && #[trigger] token_links(ts[t], eid),
        None => false,
    }
}

/// One of the blocks links to the entity `eid`.
pub open spec fn linked_in(l: Seq<Json>, eid: Seq<char>) -> bool {
    exists|k: int| 0 <= k < l.len() && #[trigger] links_to(l[k], eid)
}

/// The title of an object's properties, or `Untitled`.
pub open spec fn title_of(props: Json) -> Seq<char> {
    match json_str(at(at(props, "title"@), "val"@)) {
        Some(s) => s,
        None => "Untitled"@,
    }
}

pub fn title_or_untitled(props: &JsonValue) -> (r: String)
    ensures
        r@ == title_of(props@),
{
    let t = member_or_null(props, "title");
    match t.str_member("val") {
        Some(s) => copy(s),
        None => copy("Untitled"),
    }
}

/// A text block holding one link to the entity `eid` (titled `title`, of structure `tsid`),
/// with block identifier `bid`, token identifier `tid` and link identifier `lid`, made at
/// `now`.
pub open spec fn link_block(
    bid: Seq<char>,
    tid: Seq<char>,
    lid: Seq<char>,
    title: Seq<char>,
    eid: Seq<char>,
    tsid: Seq<char>,
    now: Seq<char>,
) -> Json {
    let token = Json::Object(
        seq![
            ("id"@, Json::Str(tid)),
            ("type"@, Json::Str("LinkToken"@)),
            ("text"@, Json::Str(title)),
            ("style"@, Json::Object(seq![("bold"@, Json::Bool(false)), ("italic"@, Json::Bool(false))])),
            ("entity"@, Json::Object(
                seq![
                    ("id"@, Json::Str(eid)),
                    ("link"@, Json::Object(
                        seq![
                            ("id"@, Json::Str(lid)),
                            ("type"@, Json::Str("Dependency"@)),
                            ("createdAt"@, Json::Str(now)),
                            ("data"@, Json::Object(seq![("toStructureId"@, Json::Str(tsid))])),
                        ],
                    )),
                ],
            )),
        ],
    );
    Json::Object(
        seq![
            ("id"@, Json::Str(bid)),
            ("type"@, Json::Str("TextBlock"@)),
            ("tokens"@, Json::Array(seq![token])),
            ("blocks"@, Json::Array(Seq::empty())),
            ("hierarchy"@, Json::Object(seq![("key"@, Json::Str("Base"@)), ("val"@, Json::Number("0"@))])),
        ],
    )
}

/// `b` is a new link block to `eid`: new identifiers, made at `now`.
pub open spec fn is_link_block(b: Json, title: Seq<char>, eid: Seq<char>, tsid: Seq<char>, now: Seq<char>) -> bool {
    exists|bid: Seq<char>, tid: Seq<char>, lid: Seq<char>|
        is_uuid_text(bid) && is_uuid_text(tid) && is_uuid_text(lid) && b == #[trigger] link_block(
            bid,
            tid,
            lid,
            title,
            eid,
            tsid,
            now,
        )
}

/// The blocks object of a component's data and the block list `key` in it (empty when it is
/// missing); nothing when the data has no blocks object or the list is not an array.
pub open spec fn context_list(c: Component, key: Seq<char>) -> Option<(Seq<(Seq<char>, Json)>, Seq<Json>)> {
    match field(c.data@, "blocks"@) {
        Some(Json::Object(bps)) => match kget(bps, key) {
            Some(Json::Array(l)) => Some((bps, l)),
            Some(_) => None,
            None => Some((bps, Seq::empty())),
        },
        _ => None,
    }
}

/// What adding the context link to `c` sends: nothing when `c` has no blocks property (by its
/// definitions `defs`), no such list, or already links to `eid`; else `c` with a new link
/// block at the end of that list, written at `now`.
pub open spec fn context_element_ok(
    c: Component,
    defs: Seq<RawPropertyDefinition>,
    eid: Seq<char>,
    title: Seq<char>,
    tsid: Seq<char>,
    space: Seq<char>,
    now: Seq<char>,
    out: Option<Json>,
) -> bool {
    match first_blocks(defs, 0) {
        None => out is None,
        Some(i) => {
            let key = defs[i].id@;
            match context_list(c, key) {
                None => out is None,
                Some((bps, l)) => if linked_in(l, eid) {
                    out is None
                } else {
                    exists|nb: Json|
                        is_link_block(nb, title, eid, tsid, now) && out == Some(
                            element(
                                space,
                                jset(
                                    jset(component_doc(c), "lastUpdated"@, Json::Str(now)),
                                    "data"@,
                                    #[trigger] jset(c.data@, "blocks"@, Json::Object(kset(bps, key, Json::Array(l.push(nb))))),
                                ),
                            ),
                        )
                },
            }
        },
    }
}

fn token_links_exec(t: &JsonValue, eid: &str) -> (r: bool)
    ensures
        r == token_links(t@, eid@),
{
    let e = member_or_null(t, "entity");
    match e.str_member("id") {
        Some(s) => str_eq(s, eid),
        None => false,
    }
}

fn links_to_exec(b: &JsonValue, eid: &str) -> (r: bool)
    ensures
        r == links_to(b@, eid@),
{
    let tokens = member_or_null(b, "tokens");
    match tokens.as_array() {
        Some(ts) => {
            let ghost tv = views(ts@);
            let mut i: usize = 0;
            while i < ts.len()
                invariant
                    0 <= i <= ts.len(),
                    tv == views(ts@),
                    json_array(at(b@, "tokens"@)) == Some(tv),
                    forall|k: int| 0 <= k < i ==> !token_links(#[trigger] tv[k], eid@),
                decreases ts.len() - i,
            {
                if token_links_exec(&ts[i], eid) {
                    assert(token_links(tv[i as int], eid@));
                    assert(json_array(at(b@, "tokens"@)) == Some(tv));
                    let ghost ts2 = json_array(at(b@, "tokens"@))->Some_0;
                    assert(ts2 == tv);
                    assert(token_links(ts2[i as int], eid@));
                    assert(exists|t: int| 0 <= t < ts2.len() && #[trigger] token_links(ts2[t], eid@));
                    assert(links_to(b@, eid@));
                    return true;
                }
                i += 1;
            }
            false
        },
        None => false,
    }
}

fn linked_in_exec(l: &Vec<JsonValue>, eid: &str) -> (r: bool)
    ensures
        r == linked_in(views(l@), eid@),
{
    let ghost lv = views(l@);
    let mut i: usize = 0;
    while i < l.len()
        invariant
            0 <= i <= l.len(),
            lv == views(l@),
            forall|k: int| 0 <= k < i ==> !links_to(#[trigger] lv[k], eid@),
        decreases l.len() - i,
    {
        if links_to_exec(&l[i], eid) {
            assert(links_to(lv[i as int], eid@));
            return true;
        }
        i += 1;
    }
    false
}

fn link_block_exec(title: &str, eid: &str, tsid: &str, now: &str) -> (r: JsonValue)
    ensures
        is_link_block(r@, title@, eid@, tsid@, now@),
{
    let bid = new_id();
    let tid = new_id();
    let lid = new_id();
    let ghost (bv, tv, lv) = (bid@, tid@, lid@);
    let mut d = members();
    put(&mut d, "toStructureId", string(tsid));
    let dd = object(d);
    assert(pair_views(d@) =~= seq![("toStructureId"@, Json::Str(tsid@))]);
    let ghost ddv = dd@;
    let mut link = members();
    put(&mut link, "id", JsonValue::Str(lid));
    put(&mut link, "type", string("Dependency"));
    put(&mut link, "createdAt", string(now));
    put(&mut link, "data", dd);
    let ld = object(link);
    assert(pair_views(link@) =~= seq![
        ("id"@, Json::Str(lv)),
        ("type"@, Json::Str("Dependency"@)),
        ("createdAt"@, Json::Str(now@)),
        ("data"@, ddv),
    ]);
    let ghost ldv = ld@;
    let mut ent = members();
    put(&mut ent, "id", string(eid));
    put(&mut ent, "link", ld);
    let ed = object(ent);
    assert(pair_views(ent@) =~= seq![("id"@, Json::Str(eid@)), ("link"@, ldv)]);
    let ghost edv = ed@;
    let mut style = members();
    put(&mut style, "bold", JsonValue::Bool(false));
    put(&mut style, "italic", JsonValue::Bool(false));
    let sd = object(style);
    assert(pair_views(style@) =~= seq![("bold"@, Json::Bool(false)), ("italic"@, Json::Bool(false))]);
    let ghost sdv = sd@;
    let mut tok = members();
    put(&mut tok, "id", JsonValue::Str(tid));
    put(&mut tok, "type", string("LinkToken"));
    put(&mut tok, "text", string(title));
    put(&mut tok, "style", sd);
    put(&mut tok, "entity", ed);
    let td = object(tok);
    assert(pair_views(tok@) =~= seq![
        ("id"@, Json::Str(tv)),
        ("type"@, Json::Str("LinkToken"@)),
        ("text"@, Json::Str(title@)),
        ("style"@, sdv),
        ("entity"@, edv),
    ]);
    let ghost tdv = td@;
    let toks = vec![td];
    assert(views(toks@) =~= seq![tdv]);
    let mut h = members();
    put(&mut h, "key", string("Base"));
    put(&mut h, "val", JsonValue::Number(copy("0")));
    let hd = object(h);
    assert(pair_views(h@) =~= seq![("key"@, Json::Str("Base"@)), ("val"@, Json::Number("0"@))]);
    let ghost hdv = hd@;
    let mut b = members();
    put(&mut b, "id", JsonValue::Str(bid));
    put(&mut b, "type", string("TextBlock"));
    put(&mut b, "tokens", array(toks));
    put(&mut b, "blocks", empty_array());
    put(&mut b, "hierarchy", hd);
    let r = object(b);
    assert(pair_views(b@) =~= seq![
        ("id"@, Json::Str(bv)),
        ("type"@, Json::Str("TextBlock"@)),
        ("tokens"@, Json::Array(seq![tdv])),
        ("blocks"@, Json::Array(Seq::empty())),
        ("hierarchy"@, hdv),
    ]);
    assert(r@ == link_block(bv, tv, lv, title@, eid@, tsid@, now@));
    r
}

/// The content that adds a link to the entity `entity_id` (titled `target_title`, of
/// structure `target_structure_id`) to the body of the component `c`, whose structure has the
/// definitions `defs`; nothing where `c` gets no link.
pub fn context_element(
    space_id: &str,
    c: &Component,
    defs: &Vec<RawPropertyDefinition>,
    entity_id: &str,
    target_title: &str,
    target_structure_id: &str,
    now: &str,
) -> (r: Option<JsonValue>)
    ensures
        context_element_ok(
            *c,
            defs@,
            entity_id@,
            target_title@,
            target_structure_id@,
            space_id@,
            now@,
            opt_doc(r),
        ),
{
    let i = match first_blocks_exec(defs) {
        Some(i) => i,
        None => return None,
    };
    let key = defs[i].id.as_str();
    let blocks = match c.data.get("blocks") {
        Some(b) => b,
        None => return None,
    };
    let mut bps: Vec<(String, JsonValue)> = match blocks.deep_clone() {
        JsonValue::Object(ps) => ps,
        _ => return None,
    };
    proof {
        lemma_field_kget(blocks@, key@);
    }
    let mut l: Vec<JsonValue> = match blocks.get(key) {
        Some(JsonValue::Array(items)) => {
            let mut out: Vec<JsonValue> = Vec::new();
            let mut k: usize = 0;
            while k < items.len()
                invariant
                    0 <= k <= items.len(),
                    out@.len() == k,
                    forall|m: int| 0 <= m < k ==> (#[trigger] out@[m])@ == items@[m]@,
                decreases items.len() - k,
            {
                out.push(items[k].deep_clone());
                k += 1;
            }
            assert(views(out@) =~= views(items@));
            out
        },
        Some(_) => return None,
        None => {
            let v: Vec<JsonValue> = Vec::new();
            assert(views(v@) =~= Seq::<Json>::empty());
            v
        },
    };
    let ghost lv = views(l@);
    let ghost bv = pair_views(bps@);
    assert(context_list(*c, key@) == Some((bv, lv))) by {
        assert(views(Seq::<JsonValue>::empty()) =~= Seq::<Json>::empty());
    }
    if linked_in_exec(&l, entity_id) {
        return None;
    }
    let nb = link_block_exec(target_title, entity_id, target_structure_id, now);
    let ghost nbv = nb@;
    l.push(nb);
    assert(views(l@) =~= lv.push(nbv));
    set_member(&mut bps, key, array(l));
    let mut data = c.data.deep_clone();
    assign(&mut data, "blocks", object(bps));
    let ghost dv = data@;
    let mut merged = c.to_doc();
    assign(&mut merged, "lastUpdated", string(now));
    assign(&mut merged, "data", data);
    let e = element_doc(space_id, merged);
    assert(dv == jset(c.data@, "blocks"@, Json::Object(kset(bv, key@, Json::Array(lv.push(nbv))))));
    Some(e)
}

/// The documents present in `outs`, in order.
pub open spec fn somes(outs: Seq<Option<Json>>) -> Seq<Json>
    decreases outs.len(),
{
    if outs.len() == 0 {
        Seq::empty()
    } else {
        somes(outs.drop_last()) + match outs.last() {
            Some(j) => seq![j],
            None => Seq::empty(),
        }
    }
}

/// `r` adds the link to `eid` to each context component in turn (with `outs` what each sends,
/// at `now`, from the sync client `cid`): nothing when none sends anything.
pub open spec fn context_request_with(
    r: Option<Json>,
    space: Seq<char>,
    eid: Seq<char>,
    target: Component,
    contexts: Seq<Component>,
    defs: Seq<Vec<RawPropertyDefinition>>,
    now: Seq<char>,
    outs: Seq<Option<Json>>,
    cid: Seq<char>,
) -> bool {
    &&& outs.len() == contexts.len()
    &&& forall|k: int|
        0 <= k < outs.len() ==> context_element_ok(
            #[trigger] contexts[k],
            defs[k]@,
            eid,
            title_of(target.properties@),
            target.structure_id@,
            space,
            now,
            outs[k],
        )
    &&& if somes(outs).len() == 0 {
        r is None
    } else {
        is_uuid_text(cid) && r == Some(sync_body(cid, somes(outs)))
    }
}

/// The sync request that makes the entity `entity_id` (the component `target`) show up in the
/// context of each of `contexts` (whose structures have the definitions `ctx_defs`); nothing
/// when there is nothing to change.
pub fn add_context_request(
    space_id: &str,
    entity_id: &str,
    target: &Component,
    contexts: &Vec<Component>,
    ctx_defs: &Vec<Vec<RawPropertyDefinition>>,
) -> (r: Option<JsonValue>)
    requires
        contexts@.len() == ctx_defs@.len(),
    ensures
        exists|now: Seq<char>, outs: Seq<Option<Json>>, cid: Seq<char>|
            is_utc_stamp(now) && #[trigger] context_request_with(
                opt_doc(r),
                space_id@,
                entity_id@,
                *target,
                contexts@,
                ctx_defs@,
                now,
                outs,
                cid,
            ),
{
    let title = title_or_untitled(&target.properties);
    let now = now_iso();
    let mut elements: Vec<JsonValue> = Vec::new();
    let ghost mut outs: Seq<Option<Json>> = Seq::empty();
    let mut i: usize = 0;
    while i < contexts.len()
        invariant
            0 <= i <= contexts.len(),
            contexts@.len() == ctx_defs@.len(),
            title@ == title_of(target.properties@),
            outs.len() == i,
            views(elements@) == somes(outs),
            forall|k: int|
                0 <= k < i ==> context_element_ok(
                    #[trigger] contexts@[k],
                    ctx_defs@[k]@,
                    entity_id@,
                    title@,
                    target.structure_id@,
                    space_id@,
                    now@,
                    outs[k],
                ),
        decreases contexts.len() - i,
    {
        let e = context_element(space_id, &contexts[i], &ctx_defs[i], entity_id, title.as_str(), target.structure_id.as_str(), now.as_str());
        let ghost before = elements@;
        let ghost o = match &e {
            Some(j) => Some(j@),
            None => None,
        };
        match e {
            Some(j) => {
                elements.push(j);
                assert(views(elements@) =~= views(before).push(o->Some_0));
            },
            None => {},
        }
        proof {
            let no = outs.push(o);
            assert(no.drop_last() =~= outs);
            outs = no;
            assert(views(elements@) =~= somes(outs));
        }
        i += 1;
    }
    if elements.len() == 0 {
        assert(context_request_with(None, space_id@, entity_id@, *target, contexts@, ctx_defs@, now@, outs, Seq::empty()));
        None
    } else {
        let ghost ev = views(elements@);
        let body = sync_request(elements);
        let ghost cid = choose|cid: Seq<char>| is_uuid_text(cid) && body@ == #[trigger] sync_body(cid, ev);
        let r = Some(body);
        assert(context_request_with(
            opt_doc(r),
            space_id@, entity_id@, *target, contexts@, ctx_defs@, now@, outs, cid,
        ));
        r
    }
}

/// The statuses the service gave, in order, for the content it synced.
pub open spec fn status_list(items: Seq<Json>) -> Seq<Seq<char>>
    decreases items.len(),
{
    if items.len() == 0 {
        Seq::empty()
    } else {
        status_list(items.drop_last()) + match json_str(at(items.last(), "status"@)) {
            Some(s) => seq![s],
            None => Seq::empty(),
        }
    }
}

pub open spec fn statuses(res: Json) -> Seq<Seq<char>> {
    match json_array(at(res, "componentReturnObjects"@)) {
        Some(items) => status_list(items),
        None => Seq::empty(),
    }
}

/// `success` when every status is, else `partial: ` and the statuses as a debug list.
pub open spec fn context_status_text(res: Json) -> Seq<char> {
    let st = statuses(res);
    if forall|i: int| 0 <= i < st.len() ==> #[trigger] st[i] == "success"@ {
        "success"@
    } else {
        "partial: "@ + debug_list(st)
    }
}

/// The outcome of adding context, from the service's answer.
pub fn context_status(res: &JsonValue) -> (r: String)
    ensures
        r@ == context_status_text(res@),
{
    let mut st: Vec<String> = Vec::new();
    match res.get("componentReturnObjects") {
        Some(v) => match v.as_array() {
            Some(arr) => {
                let ghost av = views(arr@);
                let mut i: usize = 0;
                while i < arr.len()
                    invariant
                        0 <= i <= arr.len(),
                        av == views(arr@),
                        string_views(st@) == status_list(av.take(i as int)),
                    decreases arr.len() - i,
                {
                    let ghost before = string_views(st@);
                    assert(av.take(i + 1).drop_last() =~= av.take(i as int));
                    match arr[i].str_member("status") {
                        Some(s) => {
                            st.push(copy(s));
                            assert(string_views(st@) =~= before.push(s@));
                        },
                        None => {},
                    }
                    i += 1;
                }
                assert(av.take(arr.len() as int) =~= av);
            },
            None => {},
        },
        None => {},
    }
    assert(string_views(st@) == statuses(res@));
    let ghost sv = string_views(st@);
    let mut all = true;
    let mut i: usize = 0;
    while i < st.len()
        invariant
            0 <= i <= st.len(),
            sv == string_views(st@),
            all == forall|k: int| 0 <= k < i ==> #[trigger] sv[k] == "success"@,
        decreases st.len() - i,
    {
        let ok = str_eq(st[i].as_str(), "success");
        assert(sv[i as int] == st@[i as int]@);
        if !ok {
            all = false;
        }
        i += 1;
    }
    if all {
        copy("success")
    } else {
        let mut r = copy("partial: ");
        let d = debug_strs(&st);
        append(&mut r, d.as_str());
        r
    }
}

} // verus!
