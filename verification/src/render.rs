//! Writing the blocks of a document as markdown.
use vstd::prelude::*;
use crate::json::{at, bool_or, field, json_array, json_bool, json_u64, key_pos, lemma_key_pos, opt_str_view, str_at, str_or, views, Json, JsonValue, json_model};
use crate::text::{append, copy, decimal, join, join_strings, str_eq, string_views, u64_to_decimal};
use vstd::string::StrSliceExecFns;

verus! {

/// The markdown of one inline token.
pub open spec fn token_md(t: Json) -> Seq<char> {
    let ty = str_or(str_at(t, "type"@), ""@);
    if ty == "TextToken"@ {
        let text = str_or(str_at(t, "text"@), ""@);
        let bold = bool_or(json_bool(at(at(t, "style"@), "bold"@)), false);
        let italic = bool_or(json_bool(at(at(t, "style"@), "italic"@)), false);
        if bold && italic {
            "***"@ + text + "***"@
        } else if bold {
            "**"@ + text + "**"@
        } else if italic {
            "*"@ + text + "*"@
        } else {
            text
        }
    } else if ty == "CodeToken"@ {
        let code = match str_at(t, "code"@) {
            Some(c) => c,
            None => str_or(str_at(t, "text"@), ""@),
        };
        "`"@ + code + "`"@
    } else if ty == "LinkToken"@ {
        let text = match str_at(t, "text"@) {
            Some(s) => s,
            None => str_or(str_at(t, "url"@), ""@),
        };
        let url = str_or(str_at(t, "url"@), ""@);
        "["@ + text + "]("@ + url + ")"@
    } else {
        str_or(str_at(t, "text"@), ""@)
    }
}

/// The markdown of a run of tokens, one after the other.
pub open spec fn tokens_md(ts: Seq<Json>) -> Seq<char>
    decreases ts.len(),
{
    if ts.len() == 0 {
        Seq::empty()
    } else {
        tokens_md(ts.drop_last()) + token_md(ts.last())
    }
}

/// The markdown of the `tokens` member of a block, empty where there is no such array.
pub open spec fn block_text(b: Json) -> Seq<char> {
    match json_array(at(b, "tokens"@)) {
        Some(ts) => tokens_md(ts),
        None => Seq::empty(),
    }
}

/// The text an entity block falls back to: each token's `text`, else its `entityTitle`.
pub open spec fn entity_fallback(ts: Seq<Json>) -> Seq<char>
    decreases ts.len(),
{
    if ts.len() == 0 {
        Seq::empty()
    } else {
        entity_fallback(ts.drop_last()) + match str_at(ts.last(), "text"@) {
            Some(s) => s,
            None => str_or(str_at(ts.last(), "entityTitle"@), ""@),
        }
    }
}

/// Index of the first token with a string `entityTitle`, or -1.
pub open spec fn entity_pos(ts: Seq<Json>, i: int) -> int
    decreases ts.len() - i,
{
    if i < 0 || i >= ts.len() {
        -1
    } else if str_at(ts[i], "entityTitle"@) is Some {
        i
    } else {
        entity_pos(ts, i + 1)
    }
}

pub open spec fn entity_md(b: Json) -> Seq<char> {
    match json_array(at(b, "tokens"@)) {
        Some(ts) => {
            let k = entity_pos(ts, 0);
            if 0 <= k < ts.len() {
                let title = str_or(str_at(ts[k], "entityTitle"@), ""@);
                match str_at(at(ts[k], "entity"@), "id"@) {
                    Some(id) => "[["@ + title + "|"@ + id + "]]"@,
                    None => "[["@ + title + "]]"@,
                }
            } else {
                entity_fallback(ts)
            }
        },
        None => Seq::empty(),
    }
}

pub open spec fn image_md(b: Json) -> Seq<char> {
    let url = str_or(str_at(b, "url"@), ""@);
    let alt = match str_at(b, "alt"@) {
        Some(a) => a,
        None => str_or(str_at(b, "filename"@), ""@),
    };
    if url.len() == 0 {
        "[Image: "@ + str_or(str_at(b, "filename"@), "image"@) + "]"@
    } else {
        "!["@ + alt + "]("@ + url + ")"@
    }
}

/// Number of cells in a table column.
pub open spec fn cell_count(col: Json) -> nat {
    match json_array(at(col, "cells"@)) {
        Some(c) => c.len(),
        None => 0,
    }
}

/// The greatest cell count of the columns.
pub open spec fn max_rows(cols: Seq<Json>) -> nat
    decreases cols.len(),
{
    if cols.len() == 0 {
        0
    } else {
        let m = max_rows(cols.drop_last());
        let c = cell_count(cols.last());
        if c > m { c } else { m }
    }
}

/// The markdown of row `r` of a column, empty where the column has no such cell.
pub open spec fn cell_md(col: Json, r: int) -> Seq<char> {
    match json_array(at(col, "cells"@)) {
        Some(cells) => if 0 <= r < cells.len() {
            match json_array(at(cells[r], "tokens"@)) {
                Some(ts) => tokens_md(ts),
                None => Seq::empty(),
            }
        } else {
            Seq::empty()
        },
        None => Seq::empty(),
    }
}

pub open spec fn row_cells(cols: Seq<Json>, r: int) -> Seq<Seq<char>> {
    Seq::new(cols.len(), |c: int| cell_md(cols[c], r))
}

pub open spec fn row_line(cells: Seq<Seq<char>>) -> Seq<char> {
    "| "@ + join(cells, " | "@) + " |"@
}

pub open spec fn table_lines(cols: Seq<Json>) -> Seq<Seq<char>> {
    seq![row_line(row_cells(cols, 0)), row_line(Seq::new(cols.len(), |c: int| "---"@))]
        + Seq::new((max_rows(cols) - 1) as nat, |r: int| row_line(row_cells(cols, r + 1)))
}

pub open spec fn table_md(b: Json) -> Seq<char> {
    match json_array(at(b, "columns"@)) {
        Some(cols) => if cols.len() == 0 || max_rows(cols) == 0 {
            Seq::empty()
        } else {
            join(table_lines(cols), "\n"@)
        },
        None => Seq::empty(),
    }
}

/// The markdown of one block.
pub open spec fn block_md(b: Json) -> Seq<char>
    decreases b,
{
    let ty = str_or(str_at(b, "type"@), ""@);
    if ty == "TextBlock"@ {
        let text = block_text(b);
        let h = str_or(str_at(at(b, "hierarchy"@), "key"@), "Base"@);
        if h == "H1"@ {
            "# "@ + text
        } else if h == "H2"@ {
            "## "@ + text
        } else if h == "H3"@ {
            "### "@ + text
        } else if h == "H4"@ {
            "#### "@ + text
        } else {
            text
        }
    } else if ty == "CodeBlock"@ {
        let lang = str_or(str_at(b, "language"@), ""@);
        let code = match str_at(b, "code"@) {
            Some(c) => c,
            None => block_text(b),
        };
        "```"@ + lang + "\n"@ + code + "\n```"@
    } else if ty == "EntityBlock"@ {
        entity_md(b)
    } else if ty == "ChecklistBlock"@ {
        if bool_or(json_bool(at(b, "checked"@)), false) {
            "- [x] "@ + block_text(b)
        } else {
            "- [ ] "@ + block_text(b)
        }
    } else if ty == "BulletListBlock"@ {
        "- "@ + block_text(b)
    } else if ty == "NumberedListBlock"@ {
        let num = match json_u64(at(b, "number"@)) {
            Some(n) => n,
            None => 1,
        };
        decimal(num) + ". "@ + block_text(b)
    } else if ty == "QuoteBlock"@ {
        "> "@ + block_text(b)
    } else if ty == "CalloutBlock"@ {
        "> [!"@ + str_or(str_at(b, "calloutType"@), "NOTE"@) + "] "@ + block_text(b)
    } else if ty == "ToggleBlock"@ {
        let content = match b {
            Json::Object(ps) => {
                let i = key_pos(ps, "blocks"@, 0);
                if 0 <= i < ps.len() {
                    match ps[i].1 {
                        Json::Array(cs) => join(block_mds(cs), "\n"@),
                        _ => Seq::empty(),
                    }
                } else {
                    Seq::empty()
                }
            },
            _ => Seq::empty(),
        };
        "<details><summary>"@ + block_text(b) + "</summary>"@ + content + "</details>"@
    } else if ty == "ImageBlock"@ {
        image_md(b)
    } else if ty == "HorizontalLineBlock"@ {
        "---"@
    } else if ty == "SimpleTableBlock"@ {
        table_md(b)
    } else {
        "<!-- unsupported: "@ + ty + " -->"@
    }
}

/// The markdown of each block of a run.
pub open spec fn block_mds(cs: Seq<Json>) -> Seq<Seq<char>>
    decreases cs,
{
    Seq::new(cs.len(), |k: int| if 0 <= k < cs.len() { block_md(cs[k]) } else { Seq::empty() })
}

/// The markdown of a run of blocks, one per line.
pub open spec fn blocks_md(bs: Seq<Json>) -> Seq<char> {
    join(block_mds(bs), "\n"@)
}

} // verus!

verus! {

fn or_default<'a>(o: Option<&'a str>, d: &'a str) -> (r: &'a str)
    ensures
        r@ == str_or(opt_str_view(o), d@),
{
    match o {
        Some(s) => s,
        None => d,
    }
}

fn token_to_markdown(t: &JsonValue, out: &mut String)
    ensures
        final(out)@ == old(out)@ + token_md(t@),
{
    let ty = or_default(t.str_member("type"), "");
    if str_eq(ty, "TextToken") {
        let text = or_default(t.str_member("text"), "");
        let (bold, italic) = match t.get("style") {
            Some(st) => (
                match st.bool_member("bold") {
                    Some(b) => b,
                    None => false,
                },
                match st.bool_member("italic") {
                    Some(b) => b,
                    None => false,
                },
            ),
            None => (false, false),
        };
        if bold && italic {
            append(out, "***");
            append(out, text);
            append(out, "***");
        } else if bold {
            append(out, "**");
            append(out, text);
            append(out, "**");
        } else if italic {
            append(out, "*");
            append(out, text);
            append(out, "*");
        } else {
            append(out, text);
        }
    } else if str_eq(ty, "CodeToken") {
        let code = match t.str_member("code") {
            Some(c) => c,
            None => or_default(t.str_member("text"), ""),
        };
        append(out, "`");
        append(out, code);
        append(out, "`");
    } else if str_eq(ty, "LinkToken") {
        let text = match t.str_member("text") {
            Some(s) => s,
            None => or_default(t.str_member("url"), ""),
        };
        let url = or_default(t.str_member("url"), "");
        append(out, "[");
        append(out, text);
        append(out, "](");
        append(out, url);
        append(out, ")");
    } else {
        append(out, or_default(t.str_member("text"), ""));
    }
    proof {
        assert(final(out)@ =~= old(out)@ + token_md(t@));
    }
}

/// The markdown of a run of inline tokens, written one after the other.
pub fn tokens_to_markdown(tokens: &Vec<JsonValue>) -> (r: String)
    ensures
        r@ == tokens_md(views(tokens@)),
{
    let mut r = String::new();
    let mut i: usize = 0;
    while i < tokens.len()
        invariant
            0 <= i <= tokens.len(),
            r@ == tokens_md(views(tokens@).take(i as int)),
        decreases tokens.len() - i,
    {
        token_to_markdown(&tokens[i], &mut r);
        assert(views(tokens@).take(i + 1).drop_last() =~= views(tokens@).take(i as int));
        i += 1;
    }
    assert(views(tokens@).take(tokens.len() as int) =~= views(tokens@));
    r
}

fn block_text_exec(b: &JsonValue) -> (r: String)
    ensures
        r@ == block_text(b@),
{
    match b.array_member("tokens") {
        Some(ts) => tokens_to_markdown(ts),
        None => String::new(),
    }
}

fn find_entity(ts: &Vec<JsonValue>) -> (k: usize)
    ensures
        k <= ts.len(),
        k < ts.len() ==> k as int == entity_pos(views(ts@), 0),
        k == ts.len() ==> entity_pos(views(ts@), 0) == -1,
{
    let ghost vts = views(ts@);
    let mut k: usize = 0;
    while k < ts.len()
        invariant
            0 <= k <= ts.len(),
            vts == views(ts@),
            entity_pos(vts, 0) == entity_pos(vts, k as int),
        decreases ts.len() - k,
    {
        if ts[k].str_member("entityTitle").is_some() {
            return k;
        }
        k += 1;
    }
    k
}

fn entity_to_markdown(b: &JsonValue, out: &mut String)
    ensures
        final(out)@ == old(out)@ + entity_md(b@),
{
    match b.array_member("tokens") {
        Some(ts) => {
            let ghost vts = views(ts@);
            let k = find_entity(ts);
            if k < ts.len() {
                let title = or_default(ts[k].str_member("entityTitle"), "");
                let id = match ts[k].get("entity") {
                    Some(e) => e.str_member("id"),
                    None => None,
                };
                append(out, "[[");
                append(out, title);
                match id {
                    Some(id) => {
                        append(out, "|");
                        append(out, id);
                    },
                    None => {},
                }
                append(out, "]]");
            } else {
                let mut j: usize = 0;
                let ghost start = out@;
                while j < ts.len()
                    invariant
                        0 <= j <= ts.len(),
                        vts == views(ts@),
                        out@ == start + entity_fallback(vts.take(j as int)),
                    decreases ts.len() - j,
                {
                    let piece = match ts[j].str_member("text") {
                        Some(s) => s,
                        None => or_default(ts[j].str_member("entityTitle"), ""),
                    };
                    append(out, piece);
                    assert(vts.take(j + 1).drop_last() =~= vts.take(j as int));
                    j += 1;
                }
                assert(vts.take(ts.len() as int) =~= vts);
            }
        },
        None => {},
    }
    proof {
        assert(final(out)@ =~= old(out)@ + entity_md(b@));
    }
}

fn image_to_markdown(b: &JsonValue, out: &mut String)
    ensures
        final(out)@ == old(out)@ + image_md(b@),
{
    let url = or_default(b.str_member("url"), "");
    let alt = match b.str_member("alt") {
        Some(a) => a,
        None => or_default(b.str_member("filename"), ""),
    };
    if url.unicode_len() == 0 {
        append(out, "[Image: ");
        append(out, or_default(b.str_member("filename"), "image"));
        append(out, "]");
    } else {
        append(out, "![");
        append(out, alt);
        append(out, "](");
        append(out, url);
        append(out, ")");
    }
    proof {
        assert(final(out)@ =~= old(out)@ + image_md(b@));
    }
}

fn cell_count_exec(col: &JsonValue) -> (r: usize)
    ensures
        r == cell_count(col@),
{
    match col.array_member("cells") {
        Some(c) => c.len(),
        None => 0,
    }
}

fn cell_to_markdown(col: &JsonValue, r: usize) -> (s: String)
    ensures
        s@ == cell_md(col@, r as int),
{
    match col.array_member("cells") {
        Some(cells) => if r < cells.len() {
            match cells[r].array_member("tokens") {
                Some(ts) => tokens_to_markdown(ts),
                None => String::new(),
            }
        } else {
            String::new()
        },
        None => String::new(),
    }
}

fn row_line_exec(cells: &Vec<String>) -> (s: String)
    ensures
        s@ == row_line(string_views(cells@)),
{
    let mut s = copy("| ");
    let inner = join_strings(cells, " | ");
    append(&mut s, inner.as_str());
    append(&mut s, " |");
    s
}

fn row_exec(cols: &Vec<JsonValue>, r: usize) -> (cells: Vec<String>)
    ensures
        string_views(cells@) == row_cells(views(cols@), r as int),
{
    let mut cells: Vec<String> = Vec::new();
    let mut c: usize = 0;
    while c < cols.len()
        invariant
            0 <= c <= cols.len(),
            cells@.len() == c,
            forall|k: int| 0 <= k < c ==> (#[trigger] cells@[k])@ == cell_md(cols@[k]@, r as int),
        decreases cols.len() - c,
    {
        cells.push(cell_to_markdown(&cols[c], r));
        c += 1;
    }
    assert(string_views(cells@) =~= row_cells(views(cols@), r as int));
    cells
}

fn table_to_markdown(b: &JsonValue) -> (s: String)
    ensures
        s@ == table_md(b@),
{
    match b.array_member("columns") {
        Some(cols) => {
            let ghost vc = views(cols@);
            if cols.len() == 0 {
                return String::new();
            }
            let mut m: usize = 0;
            let mut c: usize = 0;
            while c < cols.len()
                invariant
                    0 <= c <= cols.len(),
                    vc == views(cols@),
                    m == max_rows(vc.take(c as int)),
                decreases cols.len() - c,
            {
                let n = cell_count_exec(&cols[c]);
                assert(vc.take(c + 1).drop_last() =~= vc.take(c as int));
                if n > m {
                    m = n;
                }
                c += 1;
            }
            assert(vc.take(cols.len() as int) =~= vc);
            if m == 0 {
                return String::new();
            }
            let mut lines: Vec<String> = Vec::new();
            lines.push(row_line_exec(&row_exec(cols, 0)));
            let mut dashes: Vec<String> = Vec::new();
            let mut d: usize = 0;
            while d < cols.len()
                invariant
                    0 <= d <= cols.len(),
                    dashes@.len() == d,
                    forall|k: int| 0 <= k < d ==> (#[trigger] dashes@[k])@ == "---"@,
                decreases cols.len() - d,
            {
                dashes.push(copy("---"));
                d += 1;
            }
            assert(string_views(dashes@) =~= Seq::new(vc.len(), |k: int| "---"@));
            lines.push(row_line_exec(&dashes));
            let mut r: usize = 1;
            while r < m
                invariant
                    1 <= r <= m,
                    m == max_rows(vc),
                    vc == views(cols@),
                    lines@.len() == r + 1,
                    string_views(lines@) =~= table_lines(vc).take(r + 1),
                decreases m - r,
            {
                lines.push(row_line_exec(&row_exec(cols, r)));
                assert(string_views(lines@) =~= table_lines(vc).take(r + 2));
                r += 1;
            }
            assert(table_lines(vc).take(m + 1) =~= table_lines(vc));
            join_strings(&lines, "\n")
        },
        None => String::new(),
    }
}

/// The markdown of one block, as `block_md` describes it.
pub fn block_to_markdown(b: &JsonValue) -> (r: String)
    ensures
        r@ == block_md(b@),
    decreases b@,
{
    let ty = or_default(b.str_member("type"), "");
    let mut out = String::new();
    if str_eq(ty, "TextBlock") {
        let text = block_text_exec(b);
        let h = match b.get("hierarchy") {
            Some(hv) => or_default(hv.str_member("key"), "Base"),
            None => "Base",
        };
        if str_eq(h, "H1") {
            append(&mut out, "# ");
        } else if str_eq(h, "H2") {
            append(&mut out, "## ");
        } else if str_eq(h, "H3") {
            append(&mut out, "### ");
        } else if str_eq(h, "H4") {
            append(&mut out, "#### ");
        }
        append(&mut out, text.as_str());
        assert(out@ =~= block_md(b@));
    } else if str_eq(ty, "CodeBlock") {
        let lang = or_default(b.str_member("language"), "");
        let code = match b.str_member("code") {
            Some(c) => copy(c),
            None => block_text_exec(b),
        };
        append(&mut out, "```");
        append(&mut out, lang);
        append(&mut out, "\n");
        append(&mut out, code.as_str());
        append(&mut out, "\n```");
        assert(out@ =~= block_md(b@));
    } else if str_eq(ty, "EntityBlock") {
        entity_to_markdown(b, &mut out);
        assert(out@ =~= block_md(b@));
    } else if str_eq(ty, "ChecklistBlock") {
        let checked = match b.bool_member("checked") {
            Some(c) => c,
            None => false,
        };
        if checked {
            append(&mut out, "- [x] ");
        } else {
            append(&mut out, "- [ ] ");
        }
        append(&mut out, block_text_exec(b).as_str());
        assert(out@ =~= block_md(b@));
    } else if str_eq(ty, "BulletListBlock") {
        append(&mut out, "- ");
        append(&mut out, block_text_exec(b).as_str());
        assert(out@ =~= block_md(b@));
    } else if str_eq(ty, "NumberedListBlock") {
        let num = match b.get("number") {
            Some(n) => match n.as_u64() {
                Some(n) => n,
                None => 1,
            },
            None => 1,
        };
        append(&mut out, u64_to_decimal(num).as_str());
        append(&mut out, ". ");
        append(&mut out, block_text_exec(b).as_str());
        assert(out@ =~= block_md(b@));
    } else if str_eq(ty, "QuoteBlock") {
        append(&mut out, "> ");
        append(&mut out, block_text_exec(b).as_str());
        assert(out@ =~= block_md(b@));
    } else if str_eq(ty, "CalloutBlock") {
        append(&mut out, "> [!");
        append(&mut out, or_default(b.str_member("calloutType"), "NOTE"));
        append(&mut out, "] ");
        append(&mut out, block_text_exec(b).as_str());
        assert(out@ =~= block_md(b@));
    } else if str_eq(ty, "ToggleBlock") {
        let title = block_text_exec(b);
        let mut parts: Vec<String> = Vec::new();
        let ghost mut cs: Seq<Json> = Seq::empty();
        match b.get("blocks") {
            Some(child) => match child.as_array() {
                Some(children) => {
                    proof {
                        cs = views(children@);
                    }
                    let mut k: usize = 0;
                    while k < children.len()
                        invariant
                            0 <= k <= children.len(),
                            cs == views(children@),
                            field(b@, "blocks"@) == Some(Json::Array(cs)),
                            parts@.len() == k,
                            forall|j: int|
                                0 <= j < k ==> (#[trigger] parts@[j])@ == block_md(cs[j]),
                        decreases children.len() - k,
                    {
                        proof {
                            match b@ {
                                Json::Object(ps) => {
                                    lemma_key_pos(ps, "blocks"@, 0);
                                    let i = key_pos(ps, "blocks"@, 0);
                                    assert(ps[i].1 == Json::Array(cs));
                                    assert(cs[k as int] == children@[k as int]@);
                                    assert(decreases_to!(b@ => ps));
                                    assert(decreases_to!(ps => ps[i]));
                                    assert(decreases_to!(ps[i] => ps[i].1));
                                    assert(ps[i].1->Array_0 == cs);
                                    assert(decreases_to!(ps[i].1 => ps[i].1->Array_0));
                                    assert(decreases_to!(cs => cs[k as int]));
                                    assert(decreases_to!(b@ => children@[k as int]@));
                                },
                                _ => {},
                            }
                        }
                        parts.push(block_to_markdown(&children[k]));
                        k += 1;
                    }
                },
                None => {},
            },
            None => {},
        }
        let content = join_strings(&parts, "\n");
        append(&mut out, "<details><summary>");
        append(&mut out, title.as_str());
        append(&mut out, "</summary>");
        append(&mut out, content.as_str());
        append(&mut out, "</details>");
        proof {
            assert(string_views(parts@) =~= block_mds(cs));
        }
        assert(out@ =~= block_md(b@));
    } else if str_eq(ty, "ImageBlock") {
        image_to_markdown(b, &mut out);
        assert(out@ =~= block_md(b@));
    } else if str_eq(ty, "HorizontalLineBlock") {
        append(&mut out, "---");
        assert(out@ =~= block_md(b@));
    } else if str_eq(ty, "SimpleTableBlock") {
        append(&mut out, table_to_markdown(b).as_str());
        assert(out@ =~= block_md(b@));
    } else {
        append(&mut out, "<!-- unsupported: ");
        append(&mut out, ty);
        append(&mut out, " -->");
    }
    proof {
        assert(out@ =~= block_md(b@));
    }
    out
}

/// The markdown of a run of blocks, one per line.
pub fn blocks_to_markdown(blocks: &Vec<JsonValue>) -> (r: String)
    ensures
        r@ == blocks_md(views(blocks@)),
{
    let mut parts: Vec<String> = Vec::new();
    let mut i: usize = 0;
    while i < blocks.len()
        invariant
            0 <= i <= blocks.len(),
            parts@.len() == i,
            forall|j: int| 0 <= j < i ==> (#[trigger] parts@[j])@ == block_md(blocks@[j]@),
        decreases blocks.len() - i,
    {
        parts.push(block_to_markdown(&blocks[i]));
        i += 1;
    }
    assert(string_views(parts@) =~= block_mds(views(blocks@)));
    join_strings(&parts, "\n")
}

} // verus!
