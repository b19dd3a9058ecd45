//! What the command line decides: reading its arguments, choosing settings, and the texts
//! and block lists its commands work with.
use vstd::prelude::*;
use crate::defs::md_blocks;
use crate::json::{at, json_str, members, object, pair_views, put, str_or, string, views, Json, JsonValue};
use crate::jsontext::{json_text, to_json_text};
use crate::keyed::{kset, set_member};
use crate::markdown::markdown_to_blocks;
use crate::render::{blocks_md, blocks_to_markdown};
use crate::sync::member_or_null;
use crate::text::{
    alphanumeric, append, copy, find_char_from, is_alphanumeric, join, join_strings, lemma_find_char_from, push_char,
    starts_with, string_views, substring, to_chars,
};
use crate::types::{Component, FormattedObject, SpacesResponse, StructureProperty};

verus! {

/// The message for an argument that is not `KEY=VALUE`.
pub open spec fn key_val_error(s: Seq<char>) -> Seq<char> {
    "invalid KEY=VALUE: no `=` found in `"@ + s + "`"@
}

/// `KEY=VALUE` split at its first `=`.
pub open spec fn key_val(s: Seq<char>) -> Result<(Seq<char>, Seq<char>), Seq<char>> {
    let p = find_char_from(s, '=', 0);
    if 0 <= p < s.len() {
        Ok((s.subrange(0, p), s.subrange(p + 1, s.len() as int)))
    } else {
        Err(key_val_error(s))
    }
}

pub open spec fn pair_result(r: Result<(String, String), String>) -> Result<(Seq<char>, Seq<char>), Seq<char>> {
    match r {
        Ok((k, v)) => Ok((k@, v@)),
        Err(e) => Err(e@),
    }
}

/// Reads a `KEY=VALUE` argument: the key is what comes before the first `=`, the value what
/// comes after it.
pub fn parse_key_val(s: &str) -> (r: Result<(String, String), String>)
    ensures
        pair_result(r) == key_val(s@),
{
    let v = to_chars(s);
    proof {
        lemma_find_char_from(s@, '=', 0);
    }
    let mut i: usize = 0;
    while i < v.len() && v[i] != '='
        invariant
            0 <= i <= v.len(),
            v@ == s@,
            find_char_from(s@, '=', 0) == find_char_from(s@, '=', i as int),
        decreases v.len() - i,
    {
        i += 1;
    }
    if i < v.len() {
        let k = substring(&v, 0, i);
        let val = substring(&v, i + 1, v.len());
        Ok((k, val))
    } else {
        proof {
            lemma_find_char_from(s@, '=', i as int);
        }
        let mut e = copy("invalid KEY=VALUE: no `=` found in `");
        append(&mut e, s);
        append(&mut e, "`");
        Err(e)
    }
}

/// The user's properties: each key with its value as a string; a later pair for the same key
/// takes the place of an earlier one.
pub open spec fn props_of(prop: Seq<(String, String)>, n: int) -> Seq<(Seq<char>, Json)>
    decreases n,
{
    if n <= 0 {
        Seq::empty()
    } else {
        kset(props_of(prop, n - 1), prop[n - 1].0@, Json::Str(prop[n - 1].1@))
    }
}

/// The user's properties from `KEY=VALUE` pairs; none when there are no pairs.
pub fn build_props(prop: &Vec<(String, String)>) -> (r: Option<Vec<(String, JsonValue)>>)
    ensures
        match r {
            Some(ps) => prop@.len() > 0 && pair_views(ps@) == props_of(prop@, prop@.len() as int),
            None => prop@.len() == 0,
        },
{
    if prop.len() == 0 {
        return None;
    }
    let mut ps: Vec<(String, JsonValue)> = Vec::new();
    assert(pair_views(ps@) =~= Seq::<(Seq<char>, Json)>::empty());
    let mut i: usize = 0;
    while i < prop.len()
        invariant
            0 <= i <= prop.len(),
            pair_views(ps@) == props_of(prop@, i as int),
        decreases prop.len() - i,
    {
        set_member(&mut ps, prop[i].0.as_str(), JsonValue::Str(prop[i].1.clone()));
        i += 1;
    }
    Some(ps)
}

pub open spec fn opt_text(o: Option<String>) -> Option<Seq<char>> {
    match o {
        Some(s) => Some(s@),
        None => None,
    }
}

/// A setting: the flag's value where given, else the environment's where it is not empty.
pub open spec fn setting(flag: Option<Seq<char>>, env: Option<Seq<char>>) -> Option<Seq<char>> {
    match flag {
        Some(f) => Some(f),
        None => match env {
            Some(e) => if e.len() > 0 {
                Some(e)
            } else {
                None
            },
            None => None,
        },
    }
}

/// Chooses a setting from a command-line flag and an environment variable.
pub fn pick_setting(flag: Option<String>, env: Option<String>) -> (r: Option<String>)
    ensures
        opt_text(r) == setting(opt_text(flag), opt_text(env)),
{
    match flag {
        Some(f) => Some(f),
        None => match env {
            Some(e) => if to_chars(e.as_str()).len() > 0 {
                Some(e)
            } else {
                None
            },
            None => None,
        },
    }
}

/// The message when no space can be chosen.
pub open spec fn no_space_error() -> Seq<char> {
    "No spaces found. Use --space-id or set CAP_SPACE_ID."@
}

/// The space used when none is named: the first of the user's spaces.
pub fn first_space(spaces: &SpacesResponse) -> (r: Result<String, String>)
    ensures
        match r {
            Ok(id) => spaces.spaces@.len() > 0 && id@ == spaces.spaces@[0].id@,
            Err(e) => spaces.spaces@.len() == 0 && e@ == no_space_error(),
        },
{
    if spaces.spaces.len() > 0 {
        Ok(spaces.spaces[0].id.clone())
    } else {
        Err(copy("No spaces found. Use --space-id or set CAP_SPACE_ID."))
    }
}

/// The blocks of a daily note (none when it has no list of notes).
pub open spec fn daily_blocks(data: Json) -> Seq<Json> {
    match at(at(data, "blocks"@), "RootDailyNote_notes"@) {
        Json::Array(a) => a,
        _ => Seq::empty(),
    }
}

/// A copy of the blocks of a daily note's data.
pub fn daily_note_blocks(data: &JsonValue) -> (r: Vec<JsonValue>)
    ensures
        views(r@) == daily_blocks(data@),
{
    let b = member_or_null(data, "blocks");
    let notes = member_or_null(&b, "RootDailyNote_notes");
    match notes {
        JsonValue::Array(v) => {
            assert(views(v@) =~= daily_blocks(data@)) by {
                assert(match notes@ { Json::Array(x) => x, _ => Seq::empty() } =~= views(v@));
            }
            v
        },
        _ => {
            let v: Vec<JsonValue> = Vec::new();
            assert(views(v@) =~= daily_blocks(data@));
            v
        },
    }
}

/// `m` occurs in `s`.
pub open spec fn holds_text(s: Seq<char>, m: Seq<char>) -> bool {
    exists|i: int| 0 <= i && i + m.len() <= s.len() && #[trigger] s.subrange(i, i + m.len()) == m
}

fn holds_text_exec(s: &str, m: &str) -> (r: bool)
    ensures
        r == holds_text(s@, m@),
{
    let sv = to_chars(s);
    let mv = to_chars(m);
    if mv.len() > sv.len() {
        return false;
    }
    let mut i: usize = 0;
    while i <= sv.len() - mv.len()
        invariant
            sv@ == s@,
            mv@ == m@,
            mv.len() <= sv.len(),
            i <= sv.len() - mv.len() + 1,
            forall|k: int| 0 <= k < i ==> #[trigger] s@.subrange(k, k + m@.len()) != m@,
        decreases sv.len() - i,
    {
        let mut j: usize = 0;
        let mut same = true;
        while j < mv.len()
            invariant
                0 <= j <= mv.len(),
                i + mv.len() <= sv.len(),
                sv@ == s@,
                mv@ == m@,
                same == forall|q: int| 0 <= q < j ==> sv@[i + q] == mv@[q],
            decreases mv.len() - j,
        {
            if sv[i + j] != mv[j] {
                same = false;
            }
            j += 1;
        }
        if same {
            assert(s@.subrange(i as int, i + m@.len()) =~= m@);
            return true;
        }
        assert(s@.subrange(i as int, i + m@.len()) != m@) by {
            let q = choose|q: int| 0 <= q < mv.len() && sv@[i + q] != mv@[q];
            assert(s@.subrange(i as int, i + m@.len())[q] != m@[q]);
        }
        i += 1;
    }
    false
}

/// The blocks of a daily note that stay when blocks are deleted: those whose markdown does
/// not hold the marker, or all but the last `last`.
pub open spec fn kept_blocks(blocks: Seq<Json>, last: nat, marker: Option<Seq<char>>) -> Seq<Json> {
    match marker {
        Some(m) => blocks.filter(|b: Json| !holds_text(blocks_md(seq![b]), m)),
        None => blocks.take(if last <= blocks.len() {
            blocks.len() - last
        } else {
            0
        }),
    }
}

/// The blocks that stay when deleting by marker or from the end.
pub fn blocks_to_keep(blocks: Vec<JsonValue>, last: usize, marker: Option<&str>) -> (r: Vec<JsonValue>)
    ensures
        views(r@) == kept_blocks(
            views(blocks@),
            last as nat,
            match marker {
                Some(m) => Some(m@),
                None => None,
            },
        ),
{
    let ghost bv = views(blocks@);
    match marker {
        Some(m) => {
            let mut rest = blocks;
            let mut out: Vec<JsonValue> = Vec::new();
            let ghost pred = |b: Json| !holds_text(blocks_md(seq![b]), m@);
            let ghost mut seen: Seq<Json> = Seq::empty();
            while rest.len() > 0
                invariant
                    seen + views(rest@) == bv,
                    views(out@) == seen.filter(pred),
                    pred == (|b: Json| !holds_text(blocks_md(seq![b]), m@)),
                decreases rest.len(),
            {
                let ghost rb = views(rest@);
                let b = rest.remove(0);
                let ghost x = b@;
                assert(rb =~= seq![x] + views(rest@));
                let one = vec![b];
                let md = blocks_to_markdown(&one);
                assert(views(one@) =~= seq![x]);
                let hit = holds_text_exec(md.as_str(), m);
                let mut one = one;
                let b = one.remove(0);
                proof {
                    seen.lemma_filter_push(x, pred);
                    reveal(Seq::filter);
                }
                if !hit {
                    let ghost ob = views(out@);
                    out.push(b);
                    assert(views(out@) =~= ob.push(x));
                }
                proof {
                    assert(seen.push(x) + views(rest@) =~= seen + rb);
                    seen = seen.push(x);
                }
            }
            assert(seen =~= bv);
            out
        },
        None => {
            let keep: usize = if last <= blocks.len() {
                blocks.len() - last
            } else {
                0
            };
            let mut out: Vec<JsonValue> = Vec::new();
            let mut rest = blocks;
            let mut i: usize = 0;
            while i < keep
                invariant
                    0 <= i <= keep,
                    keep <= bv.len(),
                    views(out@) == bv.take(i as int),
                    views(rest@) == bv.skip(i as int),
                    rest@.len() == bv.len() - i,
                decreases keep - i,
            {
                let ghost ob = views(out@);
                let ghost rb = views(rest@);
                let ghost rs = rest@;
                let b = rest.remove(0);
                assert(rest@ == rs.remove(0));
                assert(rb[0] == b@);
                assert(b@ == bv[i as int]);
                out.push(b);
                assert(views(out@) =~= ob.push(bv[i as int]));
                assert(bv.take(i + 1) =~= bv.take(i as int).push(bv[i as int]));
                assert(views(rest@) =~= rb.drop_first());
                assert(bv.skip(i + 1) =~= bv.skip(i as int).drop_first());
                i += 1;
            }
            out
        },
    }
}

/// A daily note's blocks with new text appended: a bold time stamp first where there is one,
/// then the blocks of the text.
pub open spec fn appended(before: Seq<Json>, after: Seq<Json>, stamp: Option<Seq<char>>, md: Seq<char>) -> bool {
    exists|sb: Seq<Json>, tb: Seq<Json>|
        (match stamp {
            Some(t) => md_blocks("**"@ + t + "**"@, sb),
            None => sb.len() == 0,
        }) && md_blocks(md, tb) && after == #[trigger] (before + sb + tb)
}

/// Appends to a daily note's blocks the time stamp `stamp` (in bold) where given, then the
/// blocks of `md`.
pub fn append_blocks(blocks: &mut Vec<JsonValue>, stamp: Option<&str>, md: &str)
    ensures
        appended(
            views(old(blocks)@),
            views(final(blocks)@),
            match stamp {
                Some(t) => Some(t@),
                None => None,
            },
            md@,
        ),
{
    let ghost before = views(blocks@);
    let ghost mut sb: Seq<Json> = Seq::empty();
    match stamp {
        Some(t) => {
            let mut s = copy("**");
            append(&mut s, t);
            append(&mut s, "**");
            let mut tsb = markdown_to_blocks(s.as_str());
            proof {
                sb = views(tsb@);
            }
            assert(md_blocks("**"@ + t@ + "**"@, sb));
            blocks.append(&mut tsb);
        },
        None => {},
    }
    assert(views(blocks@) =~= before + sb);
    let mut nb = markdown_to_blocks(md);
    let ghost tb = views(nb@);
    assert(md_blocks(md@, tb));
    let ghost mid = views(blocks@);
    blocks.append(&mut nb);
    assert(views(blocks@) =~= mid + tb);
    assert(views(blocks@) == before + sb + tb);
}

/// The lines of a text as `str::lines` gives them: split at `\n`, without a last empty
/// piece, and with a `\r` before a `\n` taken off.
pub open spec fn text_lines(s: Seq<char>) -> Seq<Seq<char>> {
    let parts = crate::markdown::split_lines(s);
    let n = if parts.last().len() == 0 {
        parts.len() - 1
    } else {
        parts.len() as int
    };
    Seq::new(
        n as nat,
        |i: int|
            if i < parts.len() - 1 && parts[i].len() > 0 && parts[i].last() == '\r' {
                parts[i].drop_last()
            } else {
                parts[i]
            },
    )
}

/// The state of reading an edited object: title, description, whether the header is past,
/// and the body lines.
pub type EditState = (Option<Seq<char>>, Option<Seq<char>>, bool, Seq<Seq<char>>);

/// One line of an edited object: before the body, a `# ` line gives the title, an empty line
/// is skipped, and the first `> ` line gives the description; anything else starts the body.
pub open spec fn edit_step(st: EditState, line: Seq<char>) -> EditState {
    let (title, desc, past, body) = st;
    if !past && starts_with(line, "# "@) {
        (Some(line.skip(2)), desc, past, body)
    } else if !past && line.len() == 0 {
        st
    } else if !past && starts_with(line, "> "@) && desc is None {
        (title, Some(line.skip(2)), past, body)
    } else {
        (title, desc, true, body.push(line))
    }
}

pub open spec fn edit_steps(lines: Seq<Seq<char>>, n: int) -> EditState
    decreases n,
{
    if n <= 0 {
        (None, None, false, Seq::empty())
    } else {
        edit_step(edit_steps(lines, n - 1), lines[n - 1])
    }
}

/// An edited object's new title, description and body.
pub open spec fn edited(md: Seq<char>) -> (Option<Seq<char>>, Option<Seq<char>>, Seq<char>) {
    let lines = text_lines(md);
    let st = edit_steps(lines, lines.len() as int);
    (st.0, st.1, join(st.3, "\n"@))
}

/// The document an object is edited as: its title as a heading, its description as a quote,
/// then its body.
pub open spec fn edit_doc(title: Seq<char>, desc: Option<Seq<char>>, body: Seq<char>) -> Seq<char> {
    "# "@ + title + "\n\n"@ + match desc {
        Some(d) => if d.len() > 0 {
            "> "@ + d + "\n\n"@
        } else {
            Seq::empty()
        },
        None => Seq::empty(),
    } + body
}

/// The markdown an object is edited, and exported, as.
pub fn edit_document(obj: &FormattedObject) -> (r: String)
    ensures
        r@ == edit_doc(obj.title@, opt_text(obj.description), obj.body@),
{
    let mut md = copy("# ");
    append(&mut md, obj.title.as_str());
    append(&mut md, "\n\n");
    let ghost head = md@;
    match &obj.description {
        Some(d) => {
            if to_chars(d.as_str()).len() > 0 {
                append(&mut md, "> ");
                append(&mut md, d.as_str());
                append(&mut md, "\n\n");
            } else {
                assert(md@ =~= head + Seq::<char>::empty());
            }
        },
        None => {
            assert(md@ =~= head + Seq::<char>::empty());
        },
    }
    append(&mut md, obj.body.as_str());
    md
}

fn starts_with_exec(v: &Vec<char>, p: &str) -> (r: bool)
    ensures
        r == starts_with(v@, p@),
{
    let r = crate::text::chars_start_with(v, 0, p);
    assert(v@.subrange(0, v@.len() as int) =~= v@);
    r
}

/// Reads an edited object back: the new title, description and body.
pub fn parse_edited(new_md: &str) -> (r: (Option<String>, Option<String>, String))
    ensures
        (opt_text(r.0), opt_text(r.1), r.2@) == edited(new_md@),
{
    let chars = to_chars(new_md);
    let parts = crate::markdown::split_into_lines(&chars);
    let ghost pv = crate::markdown::line_views(parts@);
    let ghost lines = text_lines(new_md@);
    let n: usize = if parts.len() > 0 && parts[parts.len() - 1].len() == 0 {
        parts.len() - 1
    } else {
        parts.len()
    };
    assert(n == lines.len());
    let mut title: Option<String> = None;
    let mut desc: Option<String> = None;
    let mut past = false;
    let mut body: Vec<String> = Vec::new();
    let mut i: usize = 0;
    while i < n
        invariant
            0 <= i <= n <= parts.len(),
            pv == crate::markdown::line_views(parts@),
            pv == crate::markdown::split_lines(new_md@),
            lines == text_lines(new_md@),
            n == lines.len(),
            (opt_text(title), opt_text(desc), past, string_views(body@)) == edit_steps(lines, i as int),
        decreases n - i,
    {
        let p = &parts[i];
        let line: Vec<char> = if i + 1 < parts.len() && p.len() > 0 && p[p.len() - 1] == '\r' {
            let mut l: Vec<char> = Vec::new();
            let mut k: usize = 0;
            while k + 1 < p.len()
                invariant
                    0 <= k <= p.len() - 1,
                    l@ == p@.subrange(0, k as int),
                decreases p.len() - k,
            {
                l.push(p[k]);
                assert(p@.subrange(0, k + 1) =~= p@.subrange(0, k as int).push(p@[k as int]));
                k += 1;
            }
            assert(l@ =~= p@.drop_last());
            l
        } else {
            let mut l: Vec<char> = Vec::new();
            let mut k: usize = 0;
            while k < p.len()
                invariant
                    0 <= k <= p.len(),
                    l@ == p@.subrange(0, k as int),
                decreases p.len() - k,
            {
                l.push(p[k]);
                assert(p@.subrange(0, k + 1) =~= p@.subrange(0, k as int).push(p@[k as int]));
                k += 1;
            }
            assert(l@ =~= p@);
            l
        };
        assert(pv[i as int] == p@);
        assert(line@ == lines[i as int]);
        let ghost st = edit_steps(lines, i as int);
        proof {
            reveal_strlit("# ");
            reveal_strlit("> ");
        }
        if !past && starts_with_exec(&line, "# ") {
            title = Some(substring(&line, 2, line.len()));
            assert(line@.subrange(2, line@.len() as int) =~= line@.skip(2));
        } else if !past && line.len() == 0 {
        } else if !past && starts_with_exec(&line, "> ") && desc.is_none() {
            desc = Some(substring(&line, 2, line.len()));
            assert(line@.subrange(2, line@.len() as int) =~= line@.skip(2));
        } else {
            past = true;
            let ghost bb = string_views(body@);
            let s = substring(&line, 0, line.len());
            assert(line@.subrange(0, line@.len() as int) =~= line@);
            body.push(s);
            assert(string_views(body@) =~= bb.push(line@));
        }
        i += 1;
    }
    let b = join_strings(&body, "\n");
    (title, desc, b)
}

/// A file name made from a title: letters, digits, `-`, `_` and spaces are kept, anything
/// else becomes `_`.
pub open spec fn safe_name(title: Seq<char>) -> Seq<char> {
    title.map_values(|c: char| if alphanumeric(c) || c == '-' || c == '_' || c == ' ' { c } else { '_' })
}

pub fn safe_title(title: &str) -> (r: String)
    ensures
        r@ == safe_name(title@),
{
    let v = to_chars(title);
    let mut r = String::new();
    let mut i: usize = 0;
    while i < v.len()
        invariant
            0 <= i <= v.len(),
            v@ == title@,
            r@ == safe_name(title@).take(i as int),
        decreases v.len() - i,
    {
        let c = v[i];
        let d = if is_alphanumeric(c) || c == '-' || c == '_' || c == ' ' {
            c
        } else {
            '_'
        };
        push_char(&mut r, d);
        assert(safe_name(title@).take(i + 1) =~= safe_name(title@).take(i as int).push(d));
        i += 1;
    }
    assert(safe_name(title@).take(v.len() as int) =~= safe_name(title@));
    r
}

/// The file an object is exported to: its safe title and `.json` for JSON, `.md` otherwise.
pub fn export_file_name(title: &str, format: &str) -> (r: String)
    ensures
        r@ == safe_name(title@) + "."@ + if format@ == "json"@ {
            "json"@
        } else {
            "md"@
        },
{
    let mut r = safe_title(title);
    append(&mut r, ".");
    if crate::text::str_eq(format, "json") {
        append(&mut r, "json");
    } else {
        append(&mut r, "md");
    }
    r
}

/// How a property value is shown: strings as they are, lists as their items joined by
/// commas (each by its title, or as a string, or as JSON), objects by their title or as JSON,
/// booleans and numbers as written, `null` as nothing.
pub open spec fn prop_display(v: Json) -> Seq<char> {
    match v {
        Json::Str(s) => s,
        Json::Array(items) => join(items.map_values(|x: Json| item_display(x)), ", "@),
        Json::Object(_) => match json_str(at(v, "title"@)) {
            Some(t) => t,
            None => json_text(v),
        },
        Json::Bool(b) => if b {
            "true"@
        } else {
            "false"@
        },
        Json::Number(n) => n,
        Json::Null => Seq::empty(),
    }
}

pub open spec fn item_display(x: Json) -> Seq<char> {
    match json_str(at(x, "title"@)) {
        Some(t) => t,
        None => match x {
            Json::Str(s) => s,
            _ => json_text(x),
        },
    }
}

fn item_display_exec(x: &JsonValue) -> (r: String)
    ensures
        r@ == item_display(x@),
{
    match x.str_member("title") {
        Some(t) => copy(t),
        None => match x {
            JsonValue::Str(s) => s.clone(),
            _ => to_json_text(x),
        },
    }
}

/// The text a property value is shown as.
pub fn format_prop_value(val: &JsonValue) -> (r: String)
    ensures
        r@ == prop_display(val@),
{
    proof {
        crate::literals::lemma_literals();
        assert(""@ =~= Seq::<char>::empty());
    }
    match val {
        JsonValue::Str(s) => s.clone(),
        JsonValue::Array(items) => {
            let ghost iv = views(items@);
            let mut parts: Vec<String> = Vec::new();
            let mut i: usize = 0;
            while i < items.len()
                invariant
                    0 <= i <= items.len(),
                    iv == views(items@),
                    parts@.len() == i,
                    forall|k: int| 0 <= k < i ==> (#[trigger] parts@[k])@ == item_display(iv[k]),
                decreases items.len() - i,
            {
                parts.push(item_display_exec(&items[i]));
                i += 1;
            }
            assert(string_views(parts@) =~= iv.map_values(|x: Json| item_display(x)));
            assert(val@ == Json::Array(iv)) by {
                assert(match val@ { Json::Array(x) => x, _ => Seq::empty() } =~= iv);
            }
            join_strings(&parts, ", ")
        },
        JsonValue::Object(_) => match val.str_member("title") {
            Some(t) => copy(t),
            None => to_json_text(val),
        },
        JsonValue::Bool(b) => if *b {
            copy("true")
        } else {
            copy("false")
        },
        JsonValue::Number(n) => n.clone(),
        JsonValue::Null => copy(""),
    }
}

/// The note a property gets in the list of types: the options of a label, the structures an
/// entity may link to.
pub open spec fn property_note(p: StructureProperty) -> Seq<char> {
    if p.data_type@ == "label"@ {
        match p.options {
            Some(opts) => " ["@ + join(Seq::new(opts@.len(), |i: int| opts@[i].text@), ", "@) + "]"@,
            None => Seq::empty(),
        }
    } else if p.data_type@ == "entity"@ {
        match p.allowed_structures {
            Some(v) => " → "@ + join(string_views(v@), ", "@),
            None => Seq::empty(),
        }
    } else {
        Seq::empty()
    }
}

pub fn property_note_exec(p: &StructureProperty) -> (r: String)
    ensures
        r@ == property_note(*p),
{
    proof {
        crate::literals::lemma_literals();
        assert(""@ =~= Seq::<char>::empty());
    }
    if crate::text::str_eq(p.data_type.as_str(), "label") {
        match &p.options {
            Some(opts) => {
                let mut names: Vec<String> = Vec::new();
                let mut i: usize = 0;
                while i < opts.len()
                    invariant
                        0 <= i <= opts.len(),
                        names@.len() == i,
                        forall|k: int| 0 <= k < i ==> (#[trigger] names@[k])@ == opts@[k].text@,
                    decreases opts.len() - i,
                {
                    names.push(opts[i].text.clone());
                    i += 1;
                }
                assert(string_views(names@) =~= Seq::new(opts@.len(), |i: int| opts@[i].text@));
                let mut r = copy(" [");
                let j = join_strings(&names, ", ");
                append(&mut r, j.as_str());
                append(&mut r, "]");
                r
            },
            None => copy(""),
        }
    } else if crate::text::str_eq(p.data_type.as_str(), "entity") {
        match &p.allowed_structures {
            Some(v) => {
                let mut r = copy(" → ");
                let j = join_strings(v, ", ");
                append(&mut r, j.as_str());
                r
            },
            None => copy(""),
        }
    } else {
        copy("")
    }
}

/// How a trashed item is listed: its identifier (or `?`), title (or `Untitled`) and
/// structure (or nothing).
pub open spec fn trash_line(item: Json) -> (Seq<char>, Seq<char>, Seq<char>) {
    (
        str_or(json_str(at(item, "id"@)), "?"@),
        str_or(json_str(at(at(at(item, "properties"@), "title"@), "val"@)), "Untitled"@),
        str_or(json_str(at(item, "structureId"@)), ""@),
    )
}

pub fn trash_row(item: &JsonValue) -> (r: (String, String, String))
    ensures
        (r.0@, r.1@, r.2@) == trash_line(item@),
{
    let id = match member_or_null(item, "id").as_str() {
        Some(s) => copy(s),
        None => copy("?"),
    };
    let props = member_or_null(item, "properties");
    let title = member_or_null(&props, "title");
    let t = match member_or_null(&title, "val").as_str() {
        Some(s) => copy(s),
        None => copy("Untitled"),
    };
    let st = match member_or_null(item, "structureId").as_str() {
        Some(s) => copy(s),
        None => copy(""),
    };
    (id, t, st)
}

/// What is saved before a daily note is changed: its identifier, its date and its blocks.
pub open spec fn backup_of(c: Component, date: Seq<char>) -> Json {
    Json::Object(
        seq![
            ("id"@, Json::Str(c.id@)),
            ("date"@, Json::Str(date)),
            ("blocks"@, at(at(c.data@, "blocks"@), "RootDailyNote_notes"@)),
        ],
    )
}

pub fn backup_doc(component: &Component, date: &str) -> (r: JsonValue)
    ensures
        r@ == backup_of(*component, date@),
{
    let b = member_or_null(&component.data, "blocks");
    let notes = member_or_null(&b, "RootDailyNote_notes");
    let ghost nv = notes@;
    let mut ps = members();
    put(&mut ps, "id", string(component.id.as_str()));
    put(&mut ps, "date", string(date));
    put(&mut ps, "blocks", notes);
    assert(pair_views(ps@) =~= seq![("id"@, Json::Str(component.id@)), ("date"@, Json::Str(date@)), ("blocks"@, nv)]);
    object(ps)
}

/// The name of a daily note's backup file.
pub fn backup_file_name(date: &str, stamp: &str) -> (r: String)
    ensures
        r@ == "daily_"@ + date@ + "_"@ + stamp@ + ".json"@,
{
    let mut r = copy("daily_");
    append(&mut r, date);
    append(&mut r, "_");
    append(&mut r, stamp);
    append(&mut r, ".json");
    r
}

pub open spec fn count_views(v: Seq<(String, usize)>) -> Seq<(Seq<char>, usize)> {
    Seq::new(v.len(), |i: int| (v[i].0@, v[i].1))
}

/// Where an entry with count `c` goes among counts from the largest down: before the first
/// smaller count at or after `i`, after the equal ones.
pub open spec fn size_slot(s: Seq<(Seq<char>, usize)>, c: usize, i: int) -> int
    decreases s.len() - i,
{
    if i < 0 || i >= s.len() {
        s.len() as int
    } else if s[i].1 < c {
        i
    } else {
        size_slot(s, c, i + 1)
    }
}

/// Counts from the largest down, entries with equal counts in the order they came.
pub open spec fn by_size(s: Seq<(Seq<char>, usize)>) -> Seq<(Seq<char>, usize)>
    decreases s.len(),
{
    if s.len() == 0 {
        s
    } else {
        let rest = by_size(s.drop_last());
        rest.insert(size_slot(rest, s.last().1, 0), s.last())
    }
}

/// The counts of a summary from the largest down: the same entries, largest count first,
/// equal counts in the order they came.
pub fn counts_by_size(summary: &Vec<(String, usize)>) -> (r: Vec<(String, usize)>)
    ensures
        count_views(r@) == by_size(count_views(summary@)),
        count_views(r@).to_multiset() == count_views(summary@).to_multiset(),
        forall|i: int, j: int| 0 <= i < j < r@.len() ==> r@[i].1 >= r@[j].1,
{
    broadcast use vstd::seq_lib::group_to_multiset_ensures;
    let ghost sv = count_views(summary@);
    let mut out: Vec<(String, usize)> = Vec::new();
    let mut k: usize = 0;
    while k < summary.len()
        invariant
            0 <= k <= summary.len(),
            sv == count_views(summary@),
            count_views(out@) == by_size(sv.take(k as int)),
            count_views(out@).to_multiset() == sv.take(k as int).to_multiset(),
            forall|i: int, j: int| 0 <= i < j < out@.len() ==> out@[i].1 >= out@[j].1,
        decreases summary.len() - k,
    {
        let x = (summary[k].0.clone(), summary[k].1);
        let mut p: usize = 0;
        while p < out.len() && out[p].1 >= x.1
            invariant
                0 <= p <= out.len(),
                forall|i: int| 0 <= i < p ==> out@[i].1 >= x.1,
                size_slot(count_views(out@), x.1, 0) == size_slot(count_views(out@), x.1, p as int),
            decreases out.len() - p,
        {
            p += 1;
        }
        assert(size_slot(count_views(out@), x.1, 0) == p);
        let ghost ov = count_views(out@);
        let ghost ob = out@;
        let ghost xv = (x.0@, x.1);
        assert(xv == sv[k as int]);
        out.insert(p, x);
        assert(count_views(out@) =~= ov.insert(p as int, xv));
        assert(sv.take(k + 1).drop_last() =~= sv.take(k as int));
        assert(count_views(out@) == by_size(sv.take(k + 1)));
        proof {
            vstd::seq_lib::to_multiset_insert(ov, p as int, xv);
            assert(sv.take(k + 1) =~= sv.take(k as int).push(xv));
            vstd::seq_lib::to_multiset_build(sv.take(k as int), xv);
            assert forall|i: int, j: int| 0 <= i < j < out@.len() implies out@[i].1 >= out@[j].1 by {
                if p < ob.len() {
                    assert(ob[p as int].1 < x.1);
                }
                if j < p {
                    assert(out@[i] == ob[i] && out@[j] == ob[j]);
                } else if j == p {
                    assert(out@[i] == ob[i]);
                } else if i == p {
                    assert(out@[j] == ob[j - 1]);
                    assert(ob[j - 1].1 <= ob[p as int].1);
                } else if i < p {
                    assert(out@[i] == ob[i] && out@[j] == ob[j - 1]);
                } else {
                    assert(out@[i] == ob[i - 1] && out@[j] == ob[j - 1]);
                }
            }
        }
        k += 1;
    }
    assert(sv.take(summary.len() as int) =~= sv);
    out
}

} // verus!
