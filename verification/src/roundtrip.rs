//! What reading markdown and writing it back gives.
use vstd::prelude::*;
use crate::inline::{lemma_inline_roundtrip, parse_inline, render_inline, render_inlines, Inline};
use crate::literals::lemma_literals;
use crate::json::{at, field, json_u64, key_pos, str_at, Json};
use crate::markdown::{
    block_json, classify, entity_token_json, fence_end, heading_key, inline_json, is_block_json,
    is_fence, parse_lines, parse_markdown, split_from, split_lines, token_jsons, tokens_json, Block,
};
use crate::render::{block_md, block_mds, blocks_md, token_md, tokens_md};
use crate::text::{all_digits, is_ascii_digit, decimal, digit_char, digit_of, digits_value, join, starts_with};

verus! {

/// The markdown that a block is written as.
pub open spec fn render_block(m: Block) -> Seq<char> {
    match m {
        Block::Code { lang, code } => "```"@ + lang + "\n"@ + code + "\n```"@,
        Block::Rule => "---"@,
        Block::Heading { level, text } => heading_prefix(level) + text,
        Block::Checklist { checked, text } => (if checked {
            "- [x] "@
        } else {
            "- [ ] "@
        }) + text,
        Block::Callout { kind, text } => "> [!"@ + kind + "] "@ + text,
        Block::Quote { text } => "> "@ + text,
        Block::Numbered { num, text } => decimal(num) + ". "@ + text,
        Block::Bullet { text } => "- "@ + text,
        Block::Entity { title, uuid } => match uuid {
            Some(u) => "[["@ + title + "|"@ + u + "]]"@,
            None => "[["@ + title + "]]"@,
        },
        Block::Paragraph { text } => text,
    }
}

pub open spec fn heading_prefix(level: nat) -> Seq<char> {
    if level == 1 {
        "# "@
    } else if level == 2 {
        "## "@
    } else if level == 3 {
        "### "@
    } else {
        "#### "@
    }
}

proof fn lemma_token_md(tok: Inline, id: Seq<char>)
    ensures
        token_md(inline_json(tok, id)) == render_inline(tok),
{
    reveal_with_fuel(key_pos, 6);
    lemma_literals();
    let j = inline_json(tok, id);
    match tok {
        Inline::Text { text, bold, italic } => {
            let st = Json::Object(seq![("bold"@, Json::Bool(bold)), ("italic"@, Json::Bool(italic))]);
            assert(at(j, "style"@) == st);
            assert(at(st, "italic"@) == Json::Bool(italic));
            assert(token_md(j) =~= render_inline(tok));
        },
        Inline::Code { code } => {
            assert(token_md(j) =~= render_inline(tok));
        },
        Inline::Link { text, url } => {
            assert(token_md(j) =~= render_inline(tok));
        },
    }
}

} // verus!

verus! {

proof fn lemma_tokens_md(toks: Seq<Inline>, ids: Seq<Seq<char>>)
    ensures
        tokens_md(token_jsons(toks, ids)) == render_inlines(toks),
    decreases toks.len(),
{
    if toks.len() > 0 {
        lemma_tokens_md(toks.drop_last(), ids);
        assert(token_jsons(toks, ids).drop_last() =~= token_jsons(toks.drop_last(), ids));
        lemma_token_md(toks.last(), ids[toks.len() - 1]);
    }
}

/// The decimal digits of `n` read back give `n`.
pub proof fn lemma_decimal(n: nat)
    ensures
        decimal(n).len() > 0,
        all_digits(decimal(n)),
        digits_value(decimal(n)) == n,
    decreases n,
{
    let k = n % 10;
    assert(digit_of(digit_char(k)) == k) by {
        assert(k < 10);
    }
    if n < 10 {
        assert(n % 10 == n);
        assert(decimal(n).drop_last() =~= Seq::<char>::empty());
        assert(decimal(n).last() == digit_char(n));
        assert(digits_value(decimal(n)) == digits_value(Seq::<char>::empty()) * 10 + digit_of(digit_char(n)));
    } else {
        lemma_decimal(n / 10);
        let d = decimal(n / 10);
        assert(decimal(n).drop_last() =~= d);
        assert((n / 10) * 10 + n % 10 == n) by (nonlinear_arith);
        assert(decimal(n).last() == digit_char(k));
        assert(digits_value(decimal(n)) == digits_value(d) * 10 + digit_of(digit_char(k)));
        assert forall|i: int| 0 <= i < decimal(n).len() implies is_ascii_digit(#[trigger] decimal(n)[i]) by {
            if i < d.len() {
                assert(decimal(n)[i] == d[i]);
            }
        }
    }
}

/// A block made into JSON is written as `render_block` says.
proof fn lemma_block_md(m: Block, id: Seq<char>, ids: Seq<Seq<char>>)
    requires
        m is Heading ==> 1 <= m->Heading_level <= 4,
        m is Numbered ==> m->Numbered_num <= u64::MAX,
    ensures
        block_md(block_json(m, id, ids)) == render_block(m),
{
    reveal_with_fuel(key_pos, 8);
    lemma_literals();
    let j = block_json(m, id, ids);
    match m {
        Block::Code { lang, code } => {
            assert(block_md(j) =~= render_block(m));
        },
        Block::Rule => {
            assert(block_md(j) =~= render_block(m));
        },
        Block::Heading { level, text } => {
            lemma_tokens_md(parse_inline(text), ids);
            lemma_inline_roundtrip(text);
            assert(block_md(j) =~= render_block(m));
        },
        Block::Checklist { checked, text } => {
            lemma_tokens_md(parse_inline(text), ids);
            lemma_inline_roundtrip(text);
            assert(block_md(j) =~= render_block(m));
        },
        Block::Callout { kind, text } => {
            lemma_tokens_md(parse_inline(text), ids);
            lemma_inline_roundtrip(text);
            assert(block_md(j) =~= render_block(m));
        },
        Block::Quote { text } => {
            lemma_tokens_md(parse_inline(text), ids);
            lemma_inline_roundtrip(text);
            assert(block_md(j) =~= render_block(m));
        },
        Block::Numbered { num, text } => {
            lemma_tokens_md(parse_inline(text), ids);
            lemma_inline_roundtrip(text);
            lemma_decimal(num);
            assert(block_md(j) =~= render_block(m));
        },
        Block::Bullet { text } => {
            lemma_tokens_md(parse_inline(text), ids);
            lemma_inline_roundtrip(text);
            assert(block_md(j) =~= render_block(m));
        },
        Block::Entity { title, uuid } => {
            assert(block_md(j) =~= render_block(m));
        },
        Block::Paragraph { text } => {
            lemma_tokens_md(parse_inline(text), ids);
            lemma_inline_roundtrip(text);
            assert(block_md(j) =~= render_block(m));
        },
    }
}

} // verus!

verus! {

/// The markdown of each block of a run.
pub open spec fn render_blocks(ms: Seq<Block>) -> Seq<Seq<char>> {
    Seq::new(ms.len(), |k: int| render_block(ms[k]))
}

/// The lines from `i` on are written as the blocks they stand for are written back: each line
/// that is not in a code block reads as a block that writes back to the same line (a rule
/// is `---`, a heading has one space after its hashes, a checked box is `[x]`, an item
/// number has no leading zero, and so on), and each code block holds at least one line and
/// is closed by a line that is exactly three backticks.
pub open spec fn canonical_lines(lines: Seq<Seq<char>>, i: int) -> bool
    decreases lines.len() + 1 - i,
{
    if i < 0 || i >= lines.len() {
        true
    } else if is_fence(lines[i]) {
        let j = fence_end(lines, i + 1);
        &&& i + 1 < j < lines.len()
        &&& lines[j] == "```"@
        &&& canonical_lines(lines, j + 1)
    } else {
        &&& render_block(classify(lines[i])) == lines[i]
        &&& canonical_lines(lines, i + 1)
    }
}

/// A markdown document whose lines are all written in the form the library writes them.
pub open spec fn canonical_markdown(md: Seq<char>) -> bool {
    canonical_lines(split_lines(md), 0)
}

pub proof fn lemma_join_cons(x: Seq<char>, r: Seq<Seq<char>>, sep: Seq<char>)
    ensures
        join(seq![x] + r, sep) == if r.len() == 0 {
            x
        } else {
            x + sep + join(r, sep)
        },
    decreases r.len(),
{
    if r.len() == 0 {
        assert(seq![x] + r =~= seq![x]);
        assert(join(seq![x], sep) == x);
    } else if r.len() == 1 {
        assert((seq![x] + r).drop_last() =~= seq![x]);
        assert(join(seq![x], sep) == x);
        assert((seq![x] + r).last() == r[0]);
        assert(join(seq![x] + r, sep) == x + sep + r[0]);
        assert(join(r, sep) == r[0]);
    } else {
        lemma_join_cons(x, r.drop_last(), sep);
        assert((seq![x] + r).drop_last() =~= seq![x] + r.drop_last());
        assert(x + sep + join(r.drop_last(), sep) + sep + r.last() =~= x + sep + (join(
            r.drop_last(),
            sep,
        ) + sep + r.last()));
    }
}

pub proof fn lemma_join_append(a: Seq<Seq<char>>, b: Seq<Seq<char>>, sep: Seq<char>)
    requires
        a.len() > 0,
    ensures
        join(a + b, sep) == if b.len() == 0 {
            join(a, sep)
        } else {
            join(a, sep) + sep + join(b, sep)
        },
    decreases a.len(),
{
    if a.len() == 1 {
        assert(a =~= seq![a[0]]);
        lemma_join_cons(a[0], b, sep);
        assert(a + b =~= seq![a[0]] + b);
    } else {
        let x = a[0];
        let rest = a.subrange(1, a.len() as int);
        assert(a =~= seq![x] + rest);
        assert(a + b =~= seq![x] + (rest + b));
        lemma_join_append(rest, b, sep);
        lemma_join_cons(x, rest + b, sep);
        lemma_join_cons(x, rest, sep);
        if b.len() > 0 {
            assert(x + sep + (join(rest, sep) + sep + join(b, sep)) =~= x + sep + join(rest, sep)
                + sep + join(b, sep));
        }
    }
}

pub proof fn lemma_fence_end(lines: Seq<Seq<char>>, j: int)
    requires
        0 <= j,
    ensures
        j <= fence_end(lines, j) <= lines.len() || (j > lines.len() && fence_end(lines, j) == lines.len()),
        fence_end(lines, j) < lines.len() ==> starts_with(lines[fence_end(lines, j)], seq!['`', '`', '`']),
    decreases lines.len() - j,
{
    if j < lines.len() && !starts_with(lines[j], seq!['`', '`', '`']) {
        lemma_fence_end(lines, j + 1);
    }
}

proof fn lemma_models_wf(lines: Seq<Seq<char>>, i: int)
    requires
        0 <= i,
    ensures
        forall|k: int|
            0 <= k < parse_lines(lines, i).len() ==> {
                let m = #[trigger] parse_lines(lines, i)[k];
                &&& (m is Heading ==> 1 <= m->Heading_level <= 4)
                &&& (m is Numbered ==> m->Numbered_num <= u64::MAX)
            },
    decreases lines.len() + 1 - i,
{
    if i < lines.len() {
        if is_fence(lines[i]) {
            let j = fence_end(lines, i + 1);
            lemma_fence_end(lines, i + 1);
            lemma_models_wf(lines, j + 1);
            let rest = parse_lines(lines, j + 1);
            assert forall|k: int| 0 <= k < parse_lines(lines, i).len() implies {
                let m = #[trigger] parse_lines(lines, i)[k];
                &&& (m is Heading ==> 1 <= m->Heading_level <= 4)
                &&& (m is Numbered ==> m->Numbered_num <= u64::MAX)
            } by {
                if k > 0 {
                    assert(parse_lines(lines, i)[k] == rest[k - 1]);
                }
            }
        } else {
            lemma_models_wf(lines, i + 1);
            let rest = parse_lines(lines, i + 1);
            assert forall|k: int| 0 <= k < parse_lines(lines, i).len() implies {
                let m = #[trigger] parse_lines(lines, i)[k];
                &&& (m is Heading ==> 1 <= m->Heading_level <= 4)
                &&& (m is Numbered ==> m->Numbered_num <= u64::MAX)
            } by {
                if k > 0 {
                    assert(parse_lines(lines, i)[k] == rest[k - 1]);
                }
            }
        }
    }
}

proof fn lemma_parse_nonempty(lines: Seq<Seq<char>>, i: int)
    requires
        0 <= i,
    ensures
        parse_lines(lines, i).len() == 0 <==> i >= lines.len(),
{
    if i < lines.len() && is_fence(lines[i]) {
        lemma_fence_end(lines, i + 1);
    }
}

proof fn lemma_document(lines: Seq<Seq<char>>, i: int)
    requires
        0 <= i <= lines.len(),
        canonical_lines(lines, i),
    ensures
        join(render_blocks(parse_lines(lines, i)), "\n"@) == join(lines.subrange(i, lines.len() as int), "\n"@),
    decreases lines.len() + 1 - i,
{
    lemma_literals();
    let nl = "\n"@;
    if i == lines.len() {
        assert(render_blocks(parse_lines(lines, i)) =~= Seq::<Seq<char>>::empty());
        assert(lines.subrange(i, lines.len() as int) =~= Seq::<Seq<char>>::empty());
    } else if is_fence(lines[i]) {
        let j = fence_end(lines, i + 1);
        lemma_fence_end(lines, i + 1);
        let mid = lines.subrange(i + 1, j);
        let rest = lines.subrange(j + 1, lines.len() as int);
        let m = Block::Code { lang: lines[i].skip(3), code: join(mid, nl) };
        lemma_document(lines, j + 1);
        lemma_parse_nonempty(lines, j + 1);
        assert(render_blocks(parse_lines(lines, i)) =~= seq![render_block(m)] + render_blocks(
            parse_lines(lines, j + 1),
        ));
        lemma_join_cons(render_block(m), render_blocks(parse_lines(lines, j + 1)), nl);
        // the lines of the block
        assert(lines.subrange(i, lines.len() as int) =~= seq![lines[i]] + (mid + (seq![lines[j]]
            + rest)));
        lemma_join_cons(lines[i], mid + (seq![lines[j]] + rest), nl);
        lemma_join_append(mid, seq![lines[j]] + rest, nl);
        lemma_join_cons(lines[j], rest, nl);
        assert(lines[i] =~= "```"@ + lines[i].skip(3));
        if rest.len() == 0 {
            assert(render_block(m) =~= lines[i] + nl + (join(mid, nl) + nl + lines[j]));
        } else {
            assert(render_block(m) + nl + join(rest, nl) =~= lines[i] + nl + (join(mid, nl) + nl
                + (lines[j] + nl + join(rest, nl))));
        }
    } else {
        let m = classify(lines[i]);
        let rest = lines.subrange(i + 1, lines.len() as int);
        lemma_document(lines, i + 1);
        lemma_parse_nonempty(lines, i + 1);
        assert(render_blocks(parse_lines(lines, i)) =~= seq![render_block(m)] + render_blocks(
            parse_lines(lines, i + 1),
        ));
        lemma_join_cons(render_block(m), render_blocks(parse_lines(lines, i + 1)), nl);
        assert(lines.subrange(i, lines.len() as int) =~= seq![lines[i]] + rest);
        lemma_join_cons(lines[i], rest, nl);
    }
}

proof fn lemma_split_join(s: Seq<char>, start: int)
    requires
        0 <= start <= s.len(),
    ensures
        join(split_from(s, start), "\n"@) == s.subrange(start, s.len() as int),
    decreases s.len() + 1 - start,
{
    lemma_literals();
    crate::text::lemma_find_char_from(s, '\n', start);
    let e = crate::text::find_char_from(s, '\n', start);
    if start <= e < s.len() {
        lemma_split_join(s, e + 1);
        lemma_join_cons(s.subrange(start, e), split_from(s, e + 1), "\n"@);
        assert(s.subrange(start, e) + "\n"@ + s.subrange(e + 1, s.len() as int) =~= s.subrange(
            start,
            s.len() as int,
        ));
    } else {
        assert(join(seq![s.subrange(start, s.len() as int)], "\n"@) == s.subrange(start, s.len() as int));
    }
}

/// Reading a canonical markdown document into blocks and writing the blocks back as markdown
/// gives the document again, whatever identifiers the blocks were given.
pub proof fn lemma_markdown_roundtrip(md: Seq<char>, blocks: Seq<Json>)
    requires
        canonical_markdown(md),
        blocks.len() == parse_markdown(md).len(),
        forall|i: int| 0 <= i < blocks.len() ==> is_block_json(#[trigger] blocks[i], parse_markdown(md)[i]),
    ensures
        blocks_md(blocks) == md,
{
    let lines = split_lines(md);
    let ms = parse_markdown(md);
    lemma_models_wf(lines, 0);
    assert forall|k: int| 0 <= k < blocks.len() implies #[trigger] block_mds(blocks)[k] == render_blocks(ms)[k] by {
        assert(is_block_json(blocks[k], ms[k]));
        let (id, ids) = choose|id: Seq<char>, ids: Seq<Seq<char>>| blocks[k] == block_json(ms[k], id, ids);
        let m = ms[k];
        assert(m is Heading ==> 1 <= m->Heading_level <= 4);
        lemma_block_md(ms[k], id, ids);
    }
    assert(block_mds(blocks) =~= render_blocks(ms));
    lemma_document(lines, 0);
    lemma_split_join(md, 0);
    assert(lines.subrange(0, lines.len() as int) =~= lines);
    assert(md.subrange(0, md.len() as int) =~= md);
}

} // verus!
