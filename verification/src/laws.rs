//! What holds of the client across its operations.
use vstd::prelude::*;
use crate::cli::{daily_blocks, key_val};
use crate::context::{context_element_ok, context_list, is_link_block, link_block, linked_in, links_to, token_links};
use crate::compose::{first_blocks, update_request_with, user_list};
use crate::draft::Sketch;
use crate::defs::{normalized, resolved, unwrapped, val_obj};
use crate::json::{at, field, json_array, json_str, str_at, Json};
use crate::render::{block_md, block_text, blocks_md};
use crate::text::{is_white_space, join, lemma_find_char_from};
use crate::markdown::{classify, parse_lines, parse_markdown, run_of, split_from, Block, CharClass};
use crate::keyed::{jset, kget, kset, lemma_at_jset, lemma_field_kget, lemma_kset};
use crate::space::batched;
use crate::summary::{bump, counts_of, listed, type_of, Listed};
use crate::sync::{component_doc, daily_doc, daily_settable, deleted_doc, element, sync_body};
use crate::text::{find_char_from, lowercase};
use crate::ids::is_uuid_text;
use crate::formatted::{formatted_ok, opt_text};
use crate::types::{Component, FormattedObject, RawPropertyDefinition};

verus! {

proof fn lemma_find_past_key(s: Seq<char>, k: Seq<char>, i: int)
    requires
        0 <= i <= k.len(),
        k.len() < s.len(),
        s[k.len() as int] == '=',
        forall|j: int| 0 <= j < k.len() ==> s[j] == k[j],
        !k.contains('='),
    ensures
        find_char_from(s, '=', i) == k.len(),
    decreases k.len() - i,
{
    if i < k.len() {
        assert(s[i] == k[i]);
        assert(k[i] != '=') by {
            if k[i] == '=' {
                assert(k.contains('='));
            }
        }
        lemma_find_past_key(s, k, i + 1);
    }
}

/// A `KEY=VALUE` argument whose key holds no `=` reads back as that key and that value,
/// whatever the value holds.
pub proof fn lemma_key_val_split(k: Seq<char>, v: Seq<char>)
    requires
        !k.contains('='),
    ensures
        key_val(k + seq!['='] + v) == Ok::<(Seq<char>, Seq<char>), Seq<char>>((k, v)),
{
    let s = k + seq!['='] + v;
    lemma_find_past_key(s, k, 0);
    assert(s.subrange(0, k.len() as int) =~= k);
    assert(s.subrange(k.len() as int + 1, s.len() as int) =~= v);
}

/// A user's value given with a `{ "val": .. }` wrapper is stored as the value itself would be.
pub proof fn lemma_prewrapped_value(
    def: RawPropertyDefinition,
    prop: Seq<char>,
    x: Json,
    out: Json,
    before: Seq<(Seq<char>, Seq<Json>)>,
    after: Seq<(Seq<char>, Seq<Json>)>,
)
    requires
        field(x, "val"@) is None,
    ensures
        normalized(def, prop, val_obj(x), out, before, after) == normalized(def, prop, x, out, before, after),
{
    assert(field(val_obj(x), "val"@) == Some(x));
    assert(unwrapped(val_obj(x)) == unwrapped(x));
}

/// Property names are matched in any case: two keys that are not UUIDs and agree but for case
/// name the same property.
pub proof fn lemma_key_case_insensitive(k1: Seq<char>, k2: Seq<char>, defs: Seq<RawPropertyDefinition>)
    requires
        lowercase(k1) == lowercase(k2),
        !is_uuid_text(lowercase(k1)),
    ensures
        resolved(k1, defs).1 == resolved(k2, defs).1,
        resolved(k1, defs).1 is Some ==> resolved(k1, defs).0 == resolved(k2, defs).0,
{
}

/// The sum of the counts.
pub open spec fn count_sum(c: Seq<(Seq<char>, int)>) -> int
    decreases c.len(),
{
    if c.len() == 0 {
        0
    } else {
        count_sum(c.drop_last()) + c.last().1
    }
}

proof fn lemma_count_sum_update(c: Seq<(Seq<char>, int)>, p: int, x: (Seq<char>, int))
    requires
        0 <= p < c.len(),
    ensures
        count_sum(c.update(p, x)) == count_sum(c) - c[p].1 + x.1,
    decreases c.len(),
{
    let u = c.update(p, x);
    if p == c.len() - 1 {
        assert(u.drop_last() =~= c.drop_last());
    } else {
        assert(u.drop_last() =~= c.drop_last().update(p, x));
        lemma_count_sum_update(c.drop_last(), p, x);
    }
}

proof fn lemma_count_sum_bump(c: Seq<(Seq<char>, int)>, t: Seq<char>)
    ensures
        count_sum(bump(c, t)) == count_sum(c) + 1,
{
    let p = crate::keyed::kpos(c, t, 0);
    crate::keyed::lemma_kpos(c, t, 0);
    if 0 <= p < c.len() {
        lemma_count_sum_update(c, p, (t, c[p].1 + 1));
    } else {
        assert(c.push((t, 1)).drop_last() =~= c);
    }
}

/// Every object is counted once under its type: the counts add up to the number of objects.
pub proof fn lemma_counts_add_up(rows: Seq<(Seq<char>, Seq<char>, Seq<char>, Seq<char>)>, names: Seq<(Seq<char>, Seq<char>)>, n: nat)
    requires
        n <= rows.len(),
    ensures
        count_sum(counts_of(rows, names, n as int)) == n,
    decreases n,
{
    if n > 0 {
        lemma_counts_add_up(rows, names, (n - 1) as nat);
        lemma_count_sum_bump(counts_of(rows, names, n - 1), type_of(names, rows[n - 1].3));
    }
}

/// Replacing a daily note's blocks: the content sent holds exactly the new blocks.
pub proof fn lemma_daily_blocks_replaced(c: Component, blocks: Seq<Json>, now: Seq<char>)
    requires
        daily_settable(c),
    ensures
        daily_blocks(at(daily_doc(c, blocks, now), "data"@)) == blocks,
{
    reveal_strlit("data");
    reveal_strlit("lastUpdated");
    reveal_strlit("blocks");
    reveal_strlit("RootDailyNote_notes");
    let m = jset(component_doc(c), "lastUpdated"@, Json::Str(now));
    let data = at(m, "data"@);
    let bs = at(data, "blocks"@);
    let notes = "RootDailyNote_notes"@;
    let b2 = if bs is Object {
        jset(bs, notes, Json::Array(blocks))
    } else {
        Json::Object(seq![(notes, Json::Array(blocks))])
    };
    let d2 = jset(data, "blocks"@, b2);
    lemma_at_jset(m, "data"@, d2, "data"@);
    lemma_at_jset(data, "blocks"@, b2, "blocks"@);
    if bs is Object {
        lemma_at_jset(bs, notes, Json::Array(blocks), notes);
    } else {
        assert(field(b2, notes) == Some(Json::Array(blocks)));
    }
}

/// Deleting marks the content as deleted, now, and leaves every other member as it was.
pub proof fn lemma_delete_marks(c: Component, now: Seq<char>, k: Seq<char>)
    ensures
        at(deleted_doc(c, now), "deleteRequested"@) == Json::Bool(true),
        at(deleted_doc(c, now), "lastUpdated"@) == Json::Str(now),
        k != "deleteRequested"@ && k != "lastUpdated"@ ==> at(deleted_doc(c, now), k) == at(component_doc(c), k),
{
    reveal_strlit("deleteRequested");
    reveal_strlit("lastUpdated");
    assert("deleteRequested"@.len() == 15 && "lastUpdated"@.len() == 11);
    assert("deleteRequested"@ != "lastUpdated"@);
    let m = jset(component_doc(c), "lastUpdated"@, Json::Str(now));
    lemma_at_jset(m, "deleteRequested"@, Json::Bool(true), "deleteRequested"@);
    lemma_at_jset(m, "deleteRequested"@, Json::Bool(true), "lastUpdated"@);
    lemma_at_jset(component_doc(c), "lastUpdated"@, Json::Str(now), "lastUpdated"@);
    lemma_at_jset(m, "deleteRequested"@, Json::Bool(true), k);
    lemma_at_jset(component_doc(c), "lastUpdated"@, Json::Str(now), k);
}

/// A new link block links to the entity it was made for.
pub proof fn lemma_link_block_links(b: Json, title: Seq<char>, eid: Seq<char>, tsid: Seq<char>, now: Seq<char>)
    requires
        is_link_block(b, title, eid, tsid, now),
    ensures
        links_to(b, eid),
{
    reveal_strlit("id");
    reveal_strlit("type");
    reveal_strlit("tokens");
    reveal_strlit("text");
    reveal_strlit("style");
    reveal_strlit("entity");
    let (bid, tid, lid) = choose|bid: Seq<char>, tid: Seq<char>, lid: Seq<char>|
        is_uuid_text(bid) && is_uuid_text(tid) && is_uuid_text(lid) && b == #[trigger] link_block(bid, tid, lid, title, eid, tsid, now);
    reveal_with_fuel(crate::json::key_pos, 6);
    assert("id"@.len() == 2 && "type"@.len() == 4 && "tokens"@.len() == 6 && "text"@.len() == 4);
    assert("style"@.len() == 5 && "entity"@.len() == 6);
    assert("tokens"@ != "id"@ && "tokens"@ != "type"@);
    assert("entity"@ != "id"@ && "entity"@ != "type"@ && "entity"@ != "text"@ && "entity"@ != "style"@);
    let ts = json_array(at(b, "tokens"@))->Some_0;
    assert(json_array(at(b, "tokens"@)) is Some);
    assert(ts.len() == 1);
    assert(token_links(ts[0], eid));
}

/// Context is added once: a component that got a link to `eid` gets none when asked again.
pub proof fn lemma_context_once(
    c: Component,
    c2: Component,
    defs: Seq<RawPropertyDefinition>,
    eid: Seq<char>,
    title: Seq<char>,
    tsid: Seq<char>,
    space: Seq<char>,
    now: Seq<char>,
    now2: Seq<char>,
    nb: Json,
)
    requires
        first_blocks(defs, 0) is Some,
        context_list(c, defs[first_blocks(defs, 0)->Some_0].id@) is Some,
        is_link_block(nb, title, eid, tsid, now),
        ({
            let key = defs[first_blocks(defs, 0)->Some_0].id@;
            let (bps, l) = context_list(c, key)->Some_0;
            c2.data@ == jset(c.data@, "blocks"@, Json::Object(kset(bps, key, Json::Array(l.push(nb)))))
        }),
    ensures
        context_element_ok(c2, defs, eid, title, tsid, space, now2, None),
{
    let key = defs[first_blocks(defs, 0)->Some_0].id@;
    let (bps, l) = context_list(c, key)->Some_0;
    let nbs = Json::Object(kset(bps, key, Json::Array(l.push(nb))));
    lemma_at_jset(c.data@, "blocks"@, nbs, "blocks"@);
    lemma_field_kget(nbs, key);
    lemma_kset(bps, key, Json::Array(l.push(nb)), key);
    lemma_link_block_links(nb, title, eid, tsid, now);
    assert(l.push(nb)[l.len() as int] == nb);
    assert(linked_in(l.push(nb), eid));
}

/// Batches cover the identifiers: laid end to end, they give the identifiers back, in order.
pub open spec fn laid_end_to_end(b: Seq<Seq<Seq<char>>>) -> Seq<Seq<char>>
    decreases b.len(),
{
    if b.len() == 0 {
        Seq::empty()
    } else {
        laid_end_to_end(b.drop_last()) + b.last()
    }
}

proof fn lemma_batches_prefix(ids: Seq<Seq<char>>, b: Seq<Seq<Seq<char>>>, k: int)
    requires
        batched(ids, b),
        0 <= k <= b.len(),
    ensures
        laid_end_to_end(b.take(k)) == ids.subrange(0, if 50 * k <= ids.len() { 50 * k } else { ids.len() as int }),
    decreases k,
{
    if k == 0 {
        assert(b.take(0) =~= Seq::<Seq<Seq<char>>>::empty());
        assert(ids.subrange(0, 0) =~= Seq::<Seq<char>>::empty());
    } else {
        lemma_batches_prefix(ids, b, k - 1);
        assert(b.take(k).drop_last() =~= b.take(k - 1));
        assert(b.take(k).last() == b[k - 1]);
        let lo = 50 * (k - 1);
        assert(50 * (k - 1) < ids.len()) by (nonlinear_arith)
            requires
                k <= b.len(),
                b.len() == (ids.len() + 49) / 50,
                k >= 1,
        ;
        let hi = if 50 * k <= ids.len() { 50 * k } else { ids.len() as int };
        assert(ids.subrange(0, lo) + ids.subrange(lo, hi) =~= ids.subrange(0, hi));
    }
}

/// Cutting identifiers into batches loses none and adds none: the batches, one after another,
/// are the identifiers.
pub proof fn lemma_batches_cover(ids: Seq<Seq<char>>, b: Seq<Seq<Seq<char>>>)
    requires
        batched(ids, b),
    ensures
        laid_end_to_end(b) == ids,
{
    lemma_batches_prefix(ids, b, b.len() as int);
    assert(b.take(b.len() as int) =~= b);
    assert(50 * b.len() >= ids.len()) by (nonlinear_arith)
        requires
            b.len() == (ids.len() + 49) / 50,
    ;
    assert(ids.subrange(0, ids.len() as int) =~= ids);
}

/// How many of the listed objects carry the type name `t`.
pub open spec fn listed_with_type(l: Seq<Listed>, t: Seq<char>) -> int
    decreases l.len(),
{
    if l.len() == 0 {
        0
    } else {
        listed_with_type(l.drop_last(), t) + if l.last().4 == t {
            1int
        } else {
            0int
        }
    }
}

/// With no filter, the summary counts are keyed by the type names the listing shows: a name
/// has a count exactly when some listed object carries it, and the count is how many do.
pub proof fn lemma_counts_by_type_name(rows: Seq<(Seq<char>, Seq<char>, Seq<char>, Seq<char>)>, names: Seq<(Seq<char>, Seq<char>)>, n: nat, t: Seq<char>)
    requires
        n <= rows.len(),
    ensures
        kget(counts_of(rows, names, n as int), t) == if listed_with_type(listed(rows, names, None, n as int), t) > 0 {
            Some(listed_with_type(listed(rows, names, None, n as int), t))
        } else {
            None
        },
    decreases n,
{
    if n > 0 {
        lemma_counts_by_type_name(rows, names, (n - 1) as nat, t);
        let c = counts_of(rows, names, n - 1);
        let tn = type_of(names, rows[n - 1].3);
        lemma_kset(c, tn, match kget(c, tn) {
            Some(x) => x + 1,
            None => 1,
        }, t);
        let l = listed(rows, names, None, n - 1);
        let r = rows[n - 1];
        assert(listed(rows, names, None, n as int) == l.push((r.0, r.1, r.2, r.3, tn)));
        assert(l.push((r.0, r.1, r.2, r.3, tn)).drop_last() =~= l);
        if tn == t {
            lemma_counts_by_type_name(rows, names, (n - 1) as nat, tn);
        }
        assert(listed_with_type(l, t) >= 0) by {
            lemma_listed_with_type_nonneg(l, t);
        }
    }
}

proof fn lemma_listed_with_type_nonneg(l: Seq<Listed>, t: Seq<char>)
    ensures
        listed_with_type(l, t) >= 0,
    decreases l.len(),
{
    if l.len() > 0 {
        lemma_listed_with_type_nonneg(l.drop_last(), t);
    }
}

/// An object is shown with the description it stores (`properties.description.val`) when that
/// is a non-empty text, and with none otherwise.
pub proof fn lemma_shown_description(
    o: FormattedObject,
    c: Component,
    info: Option<(Seq<char>, Seq<RawPropertyDefinition>)>,
    titles: Seq<(String, String)>,
)
    requires
        formatted_ok(o, c, info, titles),
    ensures
        opt_text(o.description) == match at(at(c.properties@, "description"@), "val"@) {
            Json::Str(s) => if s.len() > 0 {
                Some(s)
            } else {
                None
            },
            _ => None,
        },
{
}

/// An update that gives a description (and no property values of the user's) sends content whose
/// `description` property holds that description, and whose `title` property holds the new
/// title where one is given.
pub proof fn lemma_update_sets_description(
    body: Json,
    c: Component,
    space: Seq<char>,
    title: Option<Seq<char>>,
    d: Seq<char>,
    md: Option<Seq<char>>,
    user: Option<Seq<(Seq<char>, Json)>>,
    defs: Seq<RawPropertyDefinition>,
    now: Seq<char>,
    cid: Seq<char>,
    s1: Sketch,
    bl: Seq<Json>,
)
    requires
        update_request_with(body, c, space, title, Some(d), md, user, defs, now, cid, s1, bl),
        user_list(user).len() == 0,
    ensures
        exists|content: Json|
            body == sync_body(cid, seq![element(space, content)]) && at(at(content, "properties"@), "description"@)
                == val_obj(Json::Str(d)) && (title is Some ==> at(at(content, "properties"@), "title"@) == val_obj(
                Json::Str(title->0),
            )),
{
    reveal_strlit("properties");
    reveal_strlit("data");
    reveal_strlit("title");
    reveal_strlit("description");
    let p0 = c.properties@;
    let p1 = match title {
        Some(t) => jset(p0, "title"@, val_obj(Json::Str(t))),
        None => p0,
    };
    let props = jset(p1, "description"@, val_obj(Json::Str(d)));
    let d0 = jset(crate::compose::copied_doc(c), "lastUpdated"@, Json::Str(now));
    let d1 = jset(d0, "properties"@, s1.props);
    let merged = jset(d1, "data"@, crate::compose::updated_data(c.data@, s1, defs, md, bl));
    assert(s1.props == props);
    assert(body == sync_body(cid, seq![element(space, merged)]));
    assert("data"@ != "properties"@) by {
        assert("data"@.len() != "properties"@.len());
    }
    assert("title"@ != "description"@) by {
        assert("title"@.len() != "description"@.len());
    }
    lemma_at_jset(d1, "data"@, crate::compose::updated_data(c.data@, s1, defs, md, bl), "properties"@);
    lemma_at_jset(d0, "properties"@, s1.props, "properties"@);
    lemma_at_jset(p1, "description"@, val_obj(Json::Str(d)), "description"@);
    if let Some(t) = title {
        lemma_at_jset(p1, "description"@, val_obj(Json::Str(d)), "title"@);
        lemma_at_jset(p0, "title"@, val_obj(Json::Str(t)), "title"@);
    }
    assert(at(at(merged, "properties"@), "description"@) == val_obj(Json::Str(d)));
}

/// A toggle block is written as a `<details>` element whose summary is the toggle's text and
/// whose content is its child blocks written as a document, one per line; in such a document
/// each further block stands on a line of its own.
pub proof fn lemma_toggle_children(b: Json, cs: Seq<Json>)
    requires
        b is Object,
        str_at(b, "type"@) == Some("ToggleBlock"@),
        at(b, "blocks"@) == Json::Array(cs),
    ensures
        block_md(b) == "<details><summary>"@ + block_text(b) + "</summary>"@ + blocks_md(cs) + "</details>"@,
        cs.len() >= 2 ==> blocks_md(cs) == blocks_md(cs.drop_last()) + "\n"@ + block_md(cs.last()),
{
    reveal_strlit("ToggleBlock");
    reveal_strlit("TextBlock");
    reveal_strlit("CodeBlock");
    reveal_strlit("EntityBlock");
    reveal_strlit("ChecklistBlock");
    reveal_strlit("BulletListBlock");
    reveal_strlit("NumberedListBlock");
    reveal_strlit("QuoteBlock");
    reveal_strlit("CalloutBlock");
    let ty = "ToggleBlock"@;
    assert(ty != "TextBlock"@ && ty != "CodeBlock"@ && ty != "ChecklistBlock"@ && ty != "BulletListBlock"@
        && ty != "NumberedListBlock"@ && ty != "QuoteBlock"@ && ty != "CalloutBlock"@) by {
        assert(ty.len() == 11);
    }
    assert(ty != "EntityBlock"@) by {
        assert(ty[0] == 'T' && "EntityBlock"@[0] == 'E');
    }
    let ps = b->Object_0;
    let i = crate::json::key_pos(ps, "blocks"@, 0);
    crate::json::lemma_key_pos(ps, "blocks"@, 0);
    assert(0 <= i < ps.len() && ps[i].1 == Json::Array(cs));
    if cs.len() >= 2 {
        let ms = crate::render::block_mds(cs);
        assert(ms.drop_last() =~= crate::render::block_mds(cs.drop_last()));
        assert(join(ms, "\n"@) == join(ms.drop_last(), "\n"@) + "\n"@ + ms.last());
    }
}

/// A line made of `*` or `+`, a space and a text that does not begin with white space is one
/// bullet item holding that text, as a line that begins with `-` is.
pub proof fn lemma_star_plus_bullets(c: char, t: Seq<char>)
    requires
        c == '*' || c == '+',
        forall|i: int| 0 <= i < t.len() ==> t[i] != '\n',
        t.len() == 0 || !is_white_space(t[0]),
    ensures
        parse_markdown(seq![c, ' '] + t) == seq![Block::Bullet { text: t }],
{
    let l = seq![c, ' '] + t;
    lemma_find_char_from(l, '\n', 0);
    if find_char_from(l, '\n', 0) != -1 {
        let k = find_char_from(l, '\n', 0);
        assert(l[k] == t[k - 2]);
    }
    assert(l.subrange(0, l.len() as int) =~= l);
    assert(split_from(l, 0) == seq![l]);
    assert(run_of(l, 0, CharClass::Dash) == 0);
    assert(run_of(l, 1, CharClass::Star) == 0);
    assert(run_of(l, 0, CharClass::Star) <= 1);
    assert(run_of(l, 0, CharClass::Underscore) == 0);
    assert(run_of(l, 0, CharClass::Hash) == 0);
    assert(run_of(l, 0, CharClass::Digit) == 0);
    assert(run_of(l, 2, CharClass::Space) == 0);
    assert(run_of(l, 1, CharClass::Space) == 1);
    assert(l.skip(2) =~= t);
    assert(classify(l) == Block::Bullet { text: t });
    assert(parse_lines(seq![l], 1) == Seq::<Block>::empty());
    assert(parse_lines(seq![l], 0) =~= seq![Block::Bullet { text: t }]);
}

} // verus!
