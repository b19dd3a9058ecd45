//! Reading markdown into blocks.
use vstd::prelude::*;
use crate::inline::{inline_tokens, parse_inline, Inline, InlineToken, token_views};
use crate::json::{array, empty_array, members, object, pair_views, put, string, views, Json, JsonValue};
use crate::ids::{is_uuid_text, new_id};
use crate::text::{
    all_digits, decimal, decimal_digit, digits_value, find_char_from, is_ascii_digit, is_decimal_digit,
    is_white_space, is_word_char,
    join, lemma_find_char_from, parse_digits, starts_with, substring, white_space, word_char, copy,
    u64_to_decimal,
};

verus! {

/// The classes of characters that the line patterns are made of.
pub enum CharClass {
    Space,
    Hash,
    Digit,
    Word,
    /// Anything but `]` and `|`.
    Title,
    /// Anything but `]`.
    NotClose,
    Dash,
    Star,
    Underscore,
}

pub open spec fn in_class(k: CharClass, c: char) -> bool {
    match k {
        CharClass::Space => is_white_space(c),
        CharClass::Hash => c == '#',
        CharClass::Digit => is_decimal_digit(c),
        CharClass::Word => is_word_char(c),
        CharClass::Title => c != ']' && c != '|',
        CharClass::NotClose => c != ']',
        CharClass::Dash => c == '-',
        CharClass::Star => c == '*',
        CharClass::Underscore => c == '_',
    }
}

/// Length of the longest run of characters of class `k` that starts at `i`.
pub open spec fn run_of(l: Seq<char>, i: int, k: CharClass) -> int
    decreases l.len() - i,
{
    if 0 <= i < l.len() && in_class(k, l[i]) {
        1 + run_of(l, i + 1, k)
    } else {
        0
    }
}

/// One block of a markdown document.
pub enum Block {
    Code { lang: Seq<char>, code: Seq<char> },
    Rule,
    Heading { level: nat, text: Seq<char> },
    Checklist { checked: bool, text: Seq<char> },
    Callout { kind: Seq<char>, text: Seq<char> },
    Quote { text: Seq<char> },
    Numbered { num: nat, text: Seq<char> },
    Bullet { text: Seq<char> },
    Entity { title: Seq<char>, uuid: Option<Seq<char>> },
    Paragraph { text: Seq<char> },
}

/// A line that opens a fenced code block: three backticks and a word.
pub open spec fn is_fence(l: Seq<char>) -> bool {
    l.len() >= 3 && l[0] == '`' && l[1] == '`' && l[2] == '`' && run_of(l, 3, CharClass::Word) == l.len() - 3
}

/// A horizontal rule: three or more of one of `-`, `*`, `_`.
pub open spec fn is_rule(l: Seq<char>) -> bool {
    l.len() >= 3 && (run_of(l, 0, CharClass::Dash) == l.len() || run_of(l, 0, CharClass::Star)
        == l.len() || run_of(l, 0, CharClass::Underscore) == l.len())
}

pub open spec fn is_heading(l: Seq<char>) -> bool {
    let k = run_of(l, 0, CharClass::Hash);
    1 <= k <= 4 && run_of(l, k, CharClass::Space) >= 1
}

pub open spec fn is_checklist(l: Seq<char>) -> bool {
    l.len() >= 6 && l[0] == '-' && l[1] == ' ' && l[2] == '[' && (l[3] == ' ' || l[3] == 'x' || l[3]
        == 'X') && l[4] == ']' && run_of(l, 5, CharClass::Space) >= 1
}

/// Where the `[` of a callout stands: after `>` and any white space.
pub open spec fn callout_open(l: Seq<char>) -> int {
    1 + run_of(l, 1, CharClass::Space)
}

pub open spec fn callout_word(l: Seq<char>) -> int {
    run_of(l, callout_open(l) + 2, CharClass::Word)
}

pub open spec fn is_callout(l: Seq<char>) -> bool {
    let j = callout_open(l);
    let w = callout_word(l);
    l.len() >= 1 && l[0] == '>' && j + 1 < l.len() && l[j] == '[' && l[j + 1] == '!' && w >= 1 && j
        + 2 + w < l.len() && l[j + 2 + w] == ']'
}

pub open spec fn is_quote(l: Seq<char>) -> bool {
    l.len() >= 1 && l[0] == '>'
}

pub open spec fn is_numbered(l: Seq<char>) -> bool {
    let d = run_of(l, 0, CharClass::Digit);
    d >= 1 && d < l.len() && l[d] == '.' && run_of(l, d + 1, CharClass::Space) >= 1
}

pub open spec fn is_bullet(l: Seq<char>) -> bool {
    l.len() >= 1 && (l[0] == '-' || l[0] == '*' || l[0] == '+') && run_of(l, 1, CharClass::Space) >= 1
}

pub open spec fn wiki_title(l: Seq<char>) -> int {
    run_of(l, 2, CharClass::Title)
}

pub open spec fn wiki_uuid(l: Seq<char>) -> int {
    run_of(l, 3 + wiki_title(l), CharClass::NotClose)
}

/// `[[title|uuid]]`
pub open spec fn is_wikilink_with_uuid(l: Seq<char>) -> bool {
    let t = wiki_title(l);
    let u = wiki_uuid(l);
    l.len() >= 2 && l[0] == '[' && l[1] == '[' && t >= 1 && 2 + t < l.len() && l[2 + t] == '|' && u
        >= 1 && 3 + t + u + 2 == l.len() && l[3 + t + u] == ']' && l[4 + t + u] == ']'
}

/// `[[title]]`
pub open spec fn is_wikilink_plain(l: Seq<char>) -> bool {
    let t = wiki_title(l);
    l.len() >= 2 && l[0] == '[' && l[1] == '[' && t >= 1 && 2 + t + 2 == l.len() && l[2 + t] == ']'
        && l[3 + t] == ']'
}

/// The number a numbered item carries: the value of its digits where they are ASCII digits
/// whose value fits in a `u64`, else 1.
pub open spec fn item_number(digits: Seq<char>) -> nat {
    if all_digits(digits) && digits_value(digits) <= u64::MAX {
        digits_value(digits)
    } else {
        1
    }
}

/// The block that a line which opens no code block stands for.
///
/// The line patterns are tried in this order: rule, heading, checklist item, callout, quote,
/// numbered item, bullet item, wiki link; any other line is a paragraph.
pub open spec fn classify(l: Seq<char>) -> Block {
    if is_rule(l) {
        Block::Rule
    } else if is_heading(l) {
        let k = run_of(l, 0, CharClass::Hash);
        Block::Heading { level: k as nat, text: l.skip(k + run_of(l, k, CharClass::Space)) }
    } else if is_checklist(l) {
        Block::Checklist { checked: l[3] != ' ', text: l.skip(5 + run_of(l, 5, CharClass::Space)) }
    } else if is_callout(l) {
        let j = callout_open(l);
        let w = callout_word(l);
        Block::Callout {
            kind: l.subrange(j + 2, j + 2 + w),
            text: l.skip(j + 3 + w + run_of(l, j + 3 + w, CharClass::Space)),
        }
    } else if is_quote(l) {
        Block::Quote {
            text: if run_of(l, 1, CharClass::Space) >= 1 {
                l.skip(2)
            } else {
                l.skip(1)
            },
        }
    } else if is_numbered(l) {
        let d = run_of(l, 0, CharClass::Digit);
        Block::Numbered {
            num: item_number(l.take(d)),
            text: l.skip(d + 1 + run_of(l, d + 1, CharClass::Space)),
        }
    } else if is_bullet(l) {
        Block::Bullet { text: l.skip(1 + run_of(l, 1, CharClass::Space)) }
    } else if is_wikilink_with_uuid(l) {
        let t = wiki_title(l);
        let u = wiki_uuid(l);
        Block::Entity { title: l.subrange(2, 2 + t), uuid: Some(l.subrange(3 + t, 3 + t + u)) }
    } else if is_wikilink_plain(l) {
        Block::Entity { title: l.subrange(2, 2 + wiki_title(l)), uuid: None }
    } else {
        Block::Paragraph { text: l }
    }
}

/// The lines of a text: the pieces between line breaks, from `start` on.
pub open spec fn split_from(s: Seq<char>, start: int) -> Seq<Seq<char>>
    decreases s.len() + 1 - start,
{
    if start < 0 || start > s.len() {
        Seq::empty()
    } else {
        let e = find_char_from(s, '\n', start);
        if start <= e < s.len() {
            seq![s.subrange(start, e)] + split_from(s, e + 1)
        } else {
            seq![s.subrange(start, s.len() as int)]
        }
    }
}

/// The lines of a text (`str::split('\n')`).
pub open spec fn split_lines(s: Seq<char>) -> Seq<Seq<char>> {
    split_from(s, 0)
}

/// The first line at or after `j` that begins with three backticks, or the number of lines.
pub open spec fn fence_end(lines: Seq<Seq<char>>, j: int) -> int
    decreases lines.len() - j,
{
    if j < 0 || j >= lines.len() {
        lines.len() as int
    } else if starts_with(lines[j], seq!['`', '`', '`']) {
        j
    } else {
        fence_end(lines, j + 1)
    }
}

/// The blocks of the lines from `i` on.
pub open spec fn parse_lines(lines: Seq<Seq<char>>, i: int) -> Seq<Block>
    decreases lines.len() + 1 - i,
{
    if i < 0 || i >= lines.len() {
        Seq::empty()
    } else if is_fence(lines[i]) {
        let j = fence_end(lines, i + 1);
        if i < j <= lines.len() {
            seq![Block::Code { lang: lines[i].skip(3), code: join(lines.subrange(i + 1, j), "\n"@) }]
                + parse_lines(lines, j + 1)
        } else {
            Seq::empty()
        }
    } else {
        seq![classify(lines[i])] + parse_lines(lines, i + 1)
    }
}

/// The blocks of a markdown document.
pub open spec fn parse_markdown(md: Seq<char>) -> Seq<Block> {
    parse_lines(split_lines(md), 0)
}

} // verus!

verus! {

pub proof fn lemma_run_of(l: Seq<char>, i: int, k: CharClass)
    requires
        0 <= i,
    ensures
        0 <= run_of(l, i, k),
        i <= l.len() ==> i + run_of(l, i, k) <= l.len(),
        i > l.len() ==> run_of(l, i, k) == 0,
        forall|j: int| i <= j < i + run_of(l, i, k) ==> in_class(k, #[trigger] l[j]),
        i + run_of(l, i, k) < l.len() ==> !in_class(k, l[i + run_of(l, i, k)]),
    decreases l.len() - i,
{
    if 0 <= i < l.len() && in_class(k, l[i]) {
        lemma_run_of(l, i + 1, k);
    }
}

/// A block of a markdown document, as the library holds it.
pub enum MdBlock {
    Code { lang: String, code: String },
    Rule,
    Heading { level: usize, text: Vec<char> },
    Checklist { checked: bool, text: Vec<char> },
    Callout { kind: String, text: Vec<char> },
    Quote { text: Vec<char> },
    Numbered { num: u64, text: Vec<char> },
    Bullet { text: Vec<char> },
    Entity { title: String, uuid: Option<String> },
    Paragraph { text: Vec<char> },
}

impl View for MdBlock {
    type V = Block;

    open spec fn view(&self) -> Block {
        match self {
            MdBlock::Code { lang, code } => Block::Code { lang: lang@, code: code@ },
            MdBlock::Rule => Block::Rule,
            MdBlock::Heading { level, text } => Block::Heading { level: *level as nat, text: text@ },
            MdBlock::Checklist { checked, text } => Block::Checklist { checked: *checked, text: text@ },
            MdBlock::Callout { kind, text } => Block::Callout { kind: kind@, text: text@ },
            MdBlock::Quote { text } => Block::Quote { text: text@ },
            MdBlock::Numbered { num, text } => Block::Numbered { num: *num as nat, text: text@ },
            MdBlock::Bullet { text } => Block::Bullet { text: text@ },
            MdBlock::Entity { title, uuid } => Block::Entity {
                title: title@,
                uuid: match uuid {
                    Some(u) => Some(u@),
                    None => None,
                },
            },
            MdBlock::Paragraph { text } => Block::Paragraph { text: text@ },
        }
    }
}

pub open spec fn block_views(v: Seq<MdBlock>) -> Seq<Block> {
    Seq::new(v.len(), |i: int| v[i]@)
}

pub open spec fn line_views(v: Seq<Vec<char>>) -> Seq<Seq<char>> {
    Seq::new(v.len(), |i: int| v[i]@)
}

fn in_class_exec(k: &CharClass, c: char) -> (r: bool)
    ensures
        r == in_class(*k, c),
{
    match k {
        CharClass::Space => white_space(c),
        CharClass::Hash => c == '#',
        CharClass::Digit => decimal_digit(c),
        CharClass::Word => word_char(c),
        CharClass::Title => c != ']' && c != '|',
        CharClass::NotClose => c != ']',
        CharClass::Dash => c == '-',
        CharClass::Star => c == '*',
        CharClass::Underscore => c == '_',
    }
}

fn run(l: &Vec<char>, i: usize, k: CharClass) -> (r: usize)
    ensures
        r as int == run_of(l@, i as int, k),
{
    let mut j = i;
    while j < l.len() && in_class_exec(&k, l[j])
        invariant
            i <= j,
            j > l.len() ==> j == i,
            run_of(l@, i as int, k) == (j - i) + run_of(l@, j as int, k),
        decreases l.len() - j,
    {
        j += 1;
    }
    j - i
}

/// `l[from..]` as its own vector.
pub fn skip_chars(l: &Vec<char>, from: usize) -> (r: Vec<char>)
    requires
        from <= l.len(),
    ensures
        r@ == l@.skip(from as int),
{
    let mut r: Vec<char> = Vec::new();
    let mut i = from;
    while i < l.len()
        invariant
            from <= i <= l.len(),
            r@ == l@.subrange(from as int, i as int),
        decreases l.len() - i,
    {
        r.push(l[i]);
        assert(l@.subrange(from as int, i + 1) =~= l@.subrange(from as int, i as int).push(l@[i as int]));
        i += 1;
    }
    assert(l@.subrange(from as int, l.len() as int) =~= l@.skip(from as int));
    r
}

fn fence_line(l: &Vec<char>) -> (r: bool)
    ensures
        r == is_fence(l@),
{
    l.len() >= 3 && l[0] == '`' && l[1] == '`' && l[2] == '`' && run(l, 3, CharClass::Word) == l.len() - 3
}

fn opens_with_fence(l: &Vec<char>) -> (r: bool)
    ensures
        r == starts_with(l@, seq!['`', '`', '`']),
{
    let r = l.len() >= 3 && l[0] == '`' && l[1] == '`' && l[2] == '`';
    if r {
        assert(l@.subrange(0, 3) =~= seq!['`', '`', '`']);
    } else if l.len() >= 3 {
        assert(l@.subrange(0, 3) != seq!['`', '`', '`']) by {
            if l@.subrange(0, 3) == seq!['`', '`', '`'] {
                assert(l@.subrange(0, 3)[0] == l@[0]);
                assert(l@.subrange(0, 3)[1] == l@[1]);
                assert(l@.subrange(0, 3)[2] == l@[2]);
            }
        }
    }
    r
}

/// Whether the first `d` characters of `l` are all ASCII digits.
fn ascii_digits(l: &Vec<char>, d: usize) -> (r: bool)
    requires
        d <= l.len(),
    ensures
        r == all_digits(l@.subrange(0, d as int)),
{
    let mut i: usize = 0;
    while i < d
        invariant
            i <= d <= l.len(),
            forall|k: int| 0 <= k < i ==> is_ascii_digit(#[trigger] l@[k]),
        decreases d - i,
    {
        if !('0' <= l[i] && l[i] <= '9') {
            assert(!is_ascii_digit(l@.subrange(0, d as int)[i as int]));
            return false;
        }
        i += 1;
    }
    assert forall|k: int| 0 <= k < d implies is_ascii_digit(#[trigger] l@.subrange(0, d as int)[k]) by {
        assert(l@.subrange(0, d as int)[k] == l@[k]);
    }
    true
}

/// The block that a line which opens no code block stands for.
pub fn classify_line(l: &Vec<char>) -> (r: MdBlock)
    ensures
        r@ == classify(l@),
{
    let n = l.len();
    proof {
        lemma_run_of(l@, 0, CharClass::Dash);
        lemma_run_of(l@, 0, CharClass::Star);
        lemma_run_of(l@, 0, CharClass::Underscore);
        lemma_run_of(l@, 0, CharClass::Hash);
        lemma_run_of(l@, 0, CharClass::Digit);
        lemma_run_of(l@, 1, CharClass::Space);
        lemma_run_of(l@, 5, CharClass::Space);
        lemma_run_of(l@, 2, CharClass::Title);
    }
    if n >= 3 && (run(l, 0, CharClass::Dash) == n || run(l, 0, CharClass::Star) == n || run(
        l,
        0,
        CharClass::Underscore,
    ) == n) {
        return MdBlock::Rule;
    }
    let k = run(l, 0, CharClass::Hash);
    if 1 <= k && k <= 4 {
        proof {
            lemma_run_of(l@, k as int, CharClass::Space);
        }
        let s = run(l, k, CharClass::Space);
        if s >= 1 {
            return MdBlock::Heading { level: k, text: skip_chars(l, k + s) };
        }
    }
    if n >= 6 && l[0] == '-' && l[1] == ' ' && l[2] == '[' && (l[3] == ' ' || l[3] == 'x' || l[3]
        == 'X') && l[4] == ']' {
        let s = run(l, 5, CharClass::Space);
        if s >= 1 {
            return MdBlock::Checklist { checked: l[3] != ' ', text: skip_chars(l, 5 + s) };
        }
    }
    if n >= 1 && l[0] == '>' {
        let j = 1 + run(l, 1, CharClass::Space);
        if j < n - 1 && l[j] == '[' && l[j + 1] == '!' {
            proof {
                lemma_run_of(l@, j + 2, CharClass::Word);
            }
            let w = run(l, j + 2, CharClass::Word);
            if w >= 1 && j + 2 + w < n && l[j + 2 + w] == ']' {
                proof {
                    lemma_run_of(l@, j + 3 + w, CharClass::Space);
                }
                let s = run(l, j + 3 + w, CharClass::Space);
                return MdBlock::Callout {
                    kind: substring(l, j + 2, j + 2 + w),
                    text: skip_chars(l, j + 3 + w + s),
                };
            }
        }
        let text = if j >= 2 {
            skip_chars(l, 2)
        } else {
            skip_chars(l, 1)
        };
        return MdBlock::Quote { text };
    }
    let d = run(l, 0, CharClass::Digit);
    if d >= 1 && d < n && l[d] == '.' {
        proof {
            lemma_run_of(l@, d + 1, CharClass::Space);
        }
        let s = run(l, d + 1, CharClass::Space);
        if s >= 1 {
            assert(l@.take(d as int) =~= l@.subrange(0, d as int));
            let num = if ascii_digits(l, d) {
                match parse_digits(l, 0, d) {
                    Some(v) => v,
                    None => 1,
                }
            } else {
                1
            };
            return MdBlock::Numbered { num, text: skip_chars(l, d + 1 + s) };
        }
    }
    if n >= 1 && (l[0] == '-' || l[0] == '*' || l[0] == '+') {
        let s = run(l, 1, CharClass::Space);
        if s >= 1 {
            return MdBlock::Bullet { text: skip_chars(l, 1 + s) };
        }
    }
    if n >= 2 && l[0] == '[' && l[1] == '[' {
        let t = run(l, 2, CharClass::Title);
        if t >= 1 && 2 + t < n && l[2 + t] == '|' {
            proof {
                lemma_run_of(l@, 3 + t, CharClass::NotClose);
            }
            let u = run(l, 3 + t, CharClass::NotClose);
            if u >= 1 && n >= 5 && t + u == n - 5 && l[3 + t + u] == ']' && l[4 + t + u] == ']' {
                return MdBlock::Entity {
                    title: substring(l, 2, 2 + t),
                    uuid: Some(substring(l, 3 + t, 3 + t + u)),
                };
            }
        }
        if t >= 1 && n >= 4 && t == n - 4 && l[2 + t] == ']' && l[3 + t] == ']' {
            return MdBlock::Entity { title: substring(l, 2, 2 + t), uuid: None };
        }
    }
    assert(!is_rule(l@));
    assert(!is_heading(l@));
    assert(!is_checklist(l@));
    assert(!is_callout(l@));
    assert(!is_quote(l@));
    assert(!is_numbered(l@));
    assert(!is_bullet(l@));
    assert(!is_wikilink_with_uuid(l@));
    assert(!is_wikilink_plain(l@));
    assert(l@.skip(0) =~= l@);
    MdBlock::Paragraph { text: skip_chars(l, 0) }
}

/// The lines of a text (`str::split('\n')`).
pub fn split_into_lines(s: &Vec<char>) -> (r: Vec<Vec<char>>)
    ensures
        line_views(r@) == split_lines(s@),
{
    let mut lines: Vec<Vec<char>> = Vec::new();
    let mut start: usize = 0;
    loop
        invariant
            start <= s.len(),
            line_views(lines@) + split_from(s@, start as int) == split_from(s@, 0),
        decreases s.len() - start,
    {
        proof {
            lemma_find_char_from(s@, '\n', start as int);
        }
        let mut e = start;
        while e < s.len() && s[e] != '\n'
            invariant
                start <= e <= s.len(),
                find_char_from(s@, '\n', start as int) == find_char_from(s@, '\n', e as int),
            decreases s.len() - e,
        {
            e += 1;
        }
        let mut piece: Vec<char> = Vec::new();
        let mut k = start;
        while k < e
            invariant
                start <= k <= e <= s.len(),
                piece@ == s@.subrange(start as int, k as int),
            decreases e - k,
        {
            piece.push(s[k]);
            assert(s@.subrange(start as int, k + 1) =~= s@.subrange(start as int, k as int).push(s@[k as int]));
            k += 1;
        }
        let ghost old_lines = line_views(lines@);
        lines.push(piece);
        assert(line_views(lines@) =~= old_lines.push(s@.subrange(start as int, e as int)));
        if e < s.len() {
            assert(split_from(s@, start as int) == seq![s@.subrange(start as int, e as int)] + split_from(s@, e + 1));
            assert(old_lines.push(s@.subrange(start as int, e as int)) + split_from(s@, e + 1) =~= old_lines + split_from(s@, start as int));
            start = e + 1;
        } else {
            assert(line_views(lines@) =~= old_lines + split_from(s@, start as int));
            assert(line_views(lines@) =~= split_from(s@, 0));
            return lines;
        }
    }
}

/// The blocks of a markdown document, as `parse_markdown` describes them.
pub fn parse_blocks(md: &str) -> (r: Vec<MdBlock>)
    ensures
        block_views(r@) == parse_markdown(md@),
{
    let chars = crate::text::to_chars(md);
    let lines = split_into_lines(&chars);
    let ghost ls = line_views(lines@);
    let mut blocks: Vec<MdBlock> = Vec::new();
    let mut i: usize = 0;
    while i < lines.len()
        invariant
            0 <= i <= lines.len() + 1,
            ls == line_views(lines@),
            ls == split_lines(md@),
            block_views(blocks@) + parse_lines(ls, i as int) == parse_lines(ls, 0),
        decreases lines.len() + 1 - i,
    {
        let ghost old_blocks = block_views(blocks@);
        if fence_line(&lines[i]) {
            let lang = substring(&lines[i], 3, lines[i].len());
            let mut j = i + 1;
            while j < lines.len() && !opens_with_fence(&lines[j])
                invariant
                    i < j <= lines.len(),
                    ls == line_views(lines@),
                    fence_end(ls, i + 1) == fence_end(ls, j as int),
                decreases lines.len() - j,
            {
                j += 1;
            }
            let mut parts: Vec<String> = Vec::new();
            let mut k = i + 1;
            while k < j
                invariant
                    i + 1 <= k <= j <= lines.len(),
                    ls == line_views(lines@),
                    crate::text::string_views(parts@) == ls.subrange(i + 1, k as int),
                decreases j - k,
            {
                let ghost old_parts = crate::text::string_views(parts@);
                let piece = substring(&lines[k], 0, lines[k].len());
                assert(lines@[k as int]@.subrange(0, lines@[k as int]@.len() as int) =~= lines@[k as int]@);
                assert(piece@ == ls[k as int]);
                parts.push(piece);
                assert(crate::text::string_views(parts@) =~= old_parts.push(ls[k as int]));
                assert(ls.subrange(i + 1, k + 1) =~= ls.subrange(i + 1, k as int).push(ls[k as int]));
                k += 1;
            }
            let code = crate::text::join_strings(&parts, "\n");
            blocks.push(MdBlock::Code { lang, code });
            assert(lines@[i as int]@.subrange(3, lines@[i as int]@.len() as int) =~= ls[i as int].skip(3));
            assert(block_views(blocks@) =~= old_blocks.push(block_views(blocks@).last()));
            assert(block_views(blocks@) + parse_lines(ls, j + 1) =~= old_blocks + parse_lines(ls, i as int));
            if j < lines.len() {
                i = j + 1;
            } else {
                assert(parse_lines(ls, j as int) =~= parse_lines(ls, j + 1));
                i = j;
            }
        } else {
            blocks.push(classify_line(&lines[i]));
            assert(block_views(blocks@) + parse_lines(ls, i + 1) =~= old_blocks + parse_lines(ls, i as int));
            i += 1;
        }
    }
    assert(block_views(blocks@) =~= parse_lines(ls, 0));
    blocks
}

} // verus!

verus! {

/// The JSON of an inline piece, with identifier `id`.
pub open spec fn inline_json(tok: Inline, id: Seq<char>) -> Json {
    match tok {
        Inline::Text { text, bold, italic } => Json::Object(
            seq![
                ("type"@, Json::Str("TextToken"@)),
                ("id"@, Json::Str(id)),
                ("text"@, Json::Str(text)),
                ("style"@, Json::Object(seq![("bold"@, Json::Bool(bold)), ("italic"@, Json::Bool(italic))])),
            ],
        ),
        Inline::Code { code } => Json::Object(
            seq![("type"@, Json::Str("CodeToken"@)), ("id"@, Json::Str(id)), ("code"@, Json::Str(code))],
        ),
        Inline::Link { text, url } => Json::Object(
            seq![
                ("type"@, Json::Str("LinkToken"@)),
                ("id"@, Json::Str(id)),
                ("text"@, Json::Str(text)),
                ("url"@, Json::Str(url)),
            ],
        ),
    }
}

/// The JSON array of inline pieces, the `k`-th with identifier `ids[k]`.
pub open spec fn tokens_json(toks: Seq<Inline>, ids: Seq<Seq<char>>) -> Json {
    Json::Array(token_jsons(toks, ids))
}

pub open spec fn token_jsons(toks: Seq<Inline>, ids: Seq<Seq<char>>) -> Seq<Json> {
    Seq::new(toks.len(), |k: int| inline_json(toks[k], ids[k]))
}

pub open spec fn hierarchy_json(key: Seq<char>) -> Json {
    Json::Object(seq![("key"@, Json::Str(key)), ("val"@, Json::Number("0"@))])
}

pub open spec fn heading_key(level: nat) -> Seq<char> {
    if level == 1 {
        "H1"@
    } else if level == 2 {
        "H2"@
    } else if level == 3 {
        "H3"@
    } else {
        "H4"@
    }
}

/// The members every block begins with.
pub open spec fn block_head(ty: Seq<char>, id: Seq<char>, key: Seq<char>) -> Seq<(Seq<char>, Json)> {
    seq![
        ("type"@, Json::Str(ty)),
        ("id"@, Json::Str(id)),
        ("blocks"@, Json::Array(Seq::empty())),
        ("hierarchy"@, hierarchy_json(key)),
    ]
}

/// The token of an entity block that points at `title` (and at `uuid`, where given).
pub open spec fn entity_token_json(title: Seq<char>, uuid: Option<Seq<char>>, id: Seq<char>) -> Json {
    Json::Object(
        seq![("type"@, Json::Str("LinkToken"@)), ("entityTitle"@, Json::Str(title)), ("id"@, Json::Str(id))]
            + match uuid {
            Some(u) => seq![("entity"@, Json::Object(seq![("id"@, Json::Str(u))]))],
            None => Seq::empty(),
        },
    )
}

/// The JSON of a block, with identifier `id` and token identifiers `ids`.
pub open spec fn block_json(m: Block, id: Seq<char>, ids: Seq<Seq<char>>) -> Json {
    match m {
        Block::Code { lang, code } => Json::Object(
            block_head("CodeBlock"@, id, "Base"@) + seq![
                ("language"@, Json::Str(lang)),
                ("code"@, Json::Str(code)),
                ("tokens"@, Json::Array(Seq::empty())),
            ],
        ),
        Block::Rule => Json::Object(
            block_head("HorizontalLineBlock"@, id, "Base"@) + seq![("tokens"@, Json::Array(Seq::empty()))],
        ),
        Block::Heading { level, text } => Json::Object(
            block_head("TextBlock"@, id, heading_key(level)) + seq![
                ("tokens"@, tokens_json(parse_inline(text), ids)),
            ],
        ),
        Block::Checklist { checked, text } => Json::Object(
            block_head("ChecklistBlock"@, id, "Base"@) + seq![
                ("checked"@, Json::Bool(checked)),
                ("tokens"@, tokens_json(parse_inline(text), ids)),
            ],
        ),
        Block::Callout { kind, text } => Json::Object(
            block_head("CalloutBlock"@, id, "Base"@) + seq![
                ("calloutType"@, Json::Str(kind)),
                ("tokens"@, tokens_json(parse_inline(text), ids)),
            ],
        ),
        Block::Quote { text } => Json::Object(
            block_head("QuoteBlock"@, id, "Base"@) + seq![("tokens"@, tokens_json(parse_inline(text), ids))],
        ),
        Block::Numbered { num, text } => Json::Object(
            block_head("NumberedListBlock"@, id, "Base"@) + seq![
                ("number"@, Json::Number(decimal(num))),
                ("tokens"@, tokens_json(parse_inline(text), ids)),
            ],
        ),
        Block::Bullet { text } => Json::Object(
            block_head("BulletListBlock"@, id, "Base"@) + seq![("tokens"@, tokens_json(parse_inline(text), ids))],
        ),
        Block::Entity { title, uuid } => Json::Object(
            block_head("EntityBlock"@, id, "Base"@) + seq![
                ("tokens"@, Json::Array(seq![entity_token_json(title, uuid, ids[0])])),
            ],
        ),
        Block::Paragraph { text } => Json::Object(
            block_head("TextBlock"@, id, "Base"@) + seq![("tokens"@, tokens_json(parse_inline(text), ids))],
        ),
    }
}

/// `j` is the JSON of block `m`, whatever identifiers it was given.
pub open spec fn is_block_json(j: Json, m: Block) -> bool {
    exists|id: Seq<char>, ids: Seq<Seq<char>>|
        is_uuid_text(id) && ids.len() == ids_needed(m) && all_uuids(ids) && j == block_json(m, id, ids)
}

/// How many identifiers the tokens of a block take: one per inline piece of its text, one for
/// the link of an entity block, none for a code block or a rule.
pub open spec fn ids_needed(m: Block) -> nat {
    match m {
        Block::Code { .. } => 0,
        Block::Rule => 0,
        Block::Heading { text, .. } => parse_inline(text).len(),
        Block::Checklist { text, .. } => parse_inline(text).len(),
        Block::Callout { text, .. } => parse_inline(text).len(),
        Block::Quote { text } => parse_inline(text).len(),
        Block::Numbered { text, .. } => parse_inline(text).len(),
        Block::Bullet { text } => parse_inline(text).len(),
        Block::Entity { .. } => 1,
        Block::Paragraph { text } => parse_inline(text).len(),
    }
}

/// Each of `ids` is a UUID in its text form.
pub open spec fn all_uuids(ids: Seq<Seq<char>>) -> bool {
    forall|k: int| 0 <= k < ids.len() ==> is_uuid_text(#[trigger] ids[k])
}

fn inline_token_json(tok: &InlineToken, id: String) -> (r: JsonValue)
    ensures
        r@ == inline_json(tok@, id@),
{
    let ghost idv = id@;
    let mut ps: Vec<(String, JsonValue)> = members();
    match tok {
        InlineToken::Text { text, bold, italic } => {
            put(&mut ps, "type", string("TextToken"));
            put(&mut ps, "id", JsonValue::Str(id));
            put(&mut ps, "text", string(text.as_str()));
            let mut st: Vec<(String, JsonValue)> = members();
            put(&mut st, "bold", JsonValue::Bool(*bold));
            put(&mut st, "italic", JsonValue::Bool(*italic));
            let sto = object(st);
            assert(pair_views(st@) =~= seq![("bold"@, Json::Bool(*bold)), ("italic"@, Json::Bool(*italic))]);
            put(&mut ps, "style", sto);
            let r = object(ps);
            assert(pair_views(ps@) =~= seq![
                ("type"@, Json::Str("TextToken"@)),
                ("id"@, Json::Str(idv)),
                ("text"@, Json::Str(text@)),
                ("style"@, Json::Object(seq![("bold"@, Json::Bool(*bold)), ("italic"@, Json::Bool(*italic))])),
            ]);
            r
        },
        InlineToken::Code { code } => {
            put(&mut ps, "type", string("CodeToken"));
            put(&mut ps, "id", JsonValue::Str(id));
            put(&mut ps, "code", string(code.as_str()));
            let r = object(ps);
            assert(pair_views(ps@) =~= seq![("type"@, Json::Str("CodeToken"@)), ("id"@, Json::Str(idv)), ("code"@, Json::Str(code@))]);
            r
        },
        InlineToken::Link { text, url } => {
            put(&mut ps, "type", string("LinkToken"));
            put(&mut ps, "id", JsonValue::Str(id));
            put(&mut ps, "text", string(text.as_str()));
            put(&mut ps, "url", string(url.as_str()));
            let r = object(ps);
            assert(pair_views(ps@) =~= seq![
                ("type"@, Json::Str("LinkToken"@)),
                ("id"@, Json::Str(idv)),
                ("text"@, Json::Str(text@)),
                ("url"@, Json::Str(url@)),
            ]);
            r
        },
    }
}

/// The JSON of the inline pieces of `text`, each with a new identifier.
fn text_tokens_json(text: &Vec<char>) -> (r: (JsonValue, Ghost<Seq<Seq<char>>>))
    ensures
        r.0@ == tokens_json(parse_inline(text@), r.1@),
        r.1@.len() == parse_inline(text@).len(),
        all_uuids(r.1@),
{
    let toks = inline_tokens(text);
    let ghost tv = token_views(toks@);
    let mut out: Vec<JsonValue> = Vec::new();
    let ghost mut ids: Seq<Seq<char>> = Seq::empty();
    let mut k: usize = 0;
    while k < toks.len()
        invariant
            0 <= k <= toks.len(),
            tv == token_views(toks@),
            out@.len() == k,
            ids.len() == k,
            all_uuids(ids),
            forall|j: int| 0 <= j < k ==> (#[trigger] out@[j])@ == inline_json(tv[j], ids[j]),
        decreases toks.len() - k,
    {
        let id = new_id();
        proof {
            ids = ids.push(id@);
        }
        out.push(inline_token_json(&toks[k], id));
        k += 1;
    }
    let r = array(out);
    assert(match r@ {
        Json::Array(x) => x,
        _ => Seq::empty(),
    } =~= match tokens_json(tv, ids) {
        Json::Array(x) => x,
        _ => Seq::empty(),
    });
    (r, Ghost(ids))
}

/// The JSON tokens of a line of inline markdown, each with a new identifier.
pub fn parse_inline_tokens(text: &str) -> (r: Vec<JsonValue>)
    ensures
        exists|ids: Seq<Seq<char>>|
            ids.len() == parse_inline(text@).len() && all_uuids(ids) && #[trigger] token_jsons(
                parse_inline(text@),
                ids,
            ) == views(r@),
{
    let v = crate::text::to_chars(text);
    let (j, ids) = text_tokens_json(&v);
    let ghost want = token_jsons(parse_inline(text@), ids@);
    match j {
        JsonValue::Array(items) => {
            assert(views(items@) =~= want) by {
                assert(match j@ { Json::Array(x) => x, _ => Seq::empty() } =~= views(items@));
            }
            items
        },
        _ => Vec::new(),
    }
}

fn head(ps: &mut Vec<(String, JsonValue)>, ty: &str, id: String, key: &str)
    requires
        pair_views(old(ps)@) == Seq::<(Seq<char>, Json)>::empty(),
    ensures
        pair_views(final(ps)@) == block_head(ty@, id@, key@),
{
    let ghost idv = id@;
    put(ps, "type", string(ty));
    put(ps, "id", JsonValue::Str(id));
    put(ps, "blocks", empty_array());
    let mut h: Vec<(String, JsonValue)> = members();
    put(&mut h, "key", string(key));
    put(&mut h, "val", JsonValue::Number(copy("0")));
    assert(pair_views(h@) =~= seq![("key"@, Json::Str(key@)), ("val"@, Json::Number("0"@))]);
    put(ps, "hierarchy", object(h));
    assert(pair_views(ps@) =~= block_head(ty@, idv, key@));
}

/// The JSON of one block, with new identifiers.
pub fn block_to_json(m: &MdBlock) -> (r: JsonValue)
    ensures
        is_block_json(r@, m@),
{
    let id = new_id();
    let ghost idv = id@;
    let mut ps: Vec<(String, JsonValue)> = members();
    let ghost mut ids: Seq<Seq<char>> = Seq::empty();
    match m {
        MdBlock::Code { lang, code } => {
            head(&mut ps, "CodeBlock", id, "Base");
            put(&mut ps, "language", string(lang.as_str()));
            put(&mut ps, "code", string(code.as_str()));
            put(&mut ps, "tokens", empty_array());
        },
        MdBlock::Rule => {
            head(&mut ps, "HorizontalLineBlock", id, "Base");
            put(&mut ps, "tokens", empty_array());
        },
        MdBlock::Heading { level, text } => {
            let key = if *level == 1 {
                "H1"
            } else if *level == 2 {
                "H2"
            } else if *level == 3 {
                "H3"
            } else {
                "H4"
            };
            head(&mut ps, "TextBlock", id, key);
            let (t, g) = text_tokens_json(text);
            proof {
                ids = g@;
            }
            put(&mut ps, "tokens", t);
        },
        MdBlock::Checklist { checked, text } => {
            head(&mut ps, "ChecklistBlock", id, "Base");
            put(&mut ps, "checked", JsonValue::Bool(*checked));
            let (t, g) = text_tokens_json(text);
            proof {
                ids = g@;
            }
            put(&mut ps, "tokens", t);
        },
        MdBlock::Callout { kind, text } => {
            head(&mut ps, "CalloutBlock", id, "Base");
            put(&mut ps, "calloutType", string(kind.as_str()));
            let (t, g) = text_tokens_json(text);
            proof {
                ids = g@;
            }
            put(&mut ps, "tokens", t);
        },
        MdBlock::Quote { text } => {
            head(&mut ps, "QuoteBlock", id, "Base");
            let (t, g) = text_tokens_json(text);
            proof {
                ids = g@;
            }
            put(&mut ps, "tokens", t);
        },
        MdBlock::Numbered { num, text } => {
            head(&mut ps, "NumberedListBlock", id, "Base");
            put(&mut ps, "number", JsonValue::Number(u64_to_decimal(*num)));
            let (t, g) = text_tokens_json(text);
            proof {
                ids = g@;
            }
            put(&mut ps, "tokens", t);
        },
        MdBlock::Bullet { text } => {
            head(&mut ps, "BulletListBlock", id, "Base");
            let (t, g) = text_tokens_json(text);
            proof {
                ids = g@;
            }
            put(&mut ps, "tokens", t);
        },
        MdBlock::Entity { title, uuid } => {
            head(&mut ps, "EntityBlock", id, "Base");
            let tid = new_id();
            proof {
                ids = seq![tid@];
            }
            let mut tp: Vec<(String, JsonValue)> = members();
            put(&mut tp, "type", string("LinkToken"));
            put(&mut tp, "entityTitle", string(title.as_str()));
            put(&mut tp, "id", JsonValue::Str(tid));
            let ghost base = seq![("type"@, Json::Str("LinkToken"@)), ("entityTitle"@, Json::Str(title@)), ("id"@, Json::Str(ids[0]))];
            assert(pair_views(tp@) =~= base);
            match uuid {
                Some(u) => {
                    let mut ep: Vec<(String, JsonValue)> = members();
                    put(&mut ep, "id", string(u.as_str()));
                    assert(pair_views(ep@) =~= seq![("id"@, Json::Str(u@))]);
                    put(&mut tp, "entity", object(ep));
                    assert(pair_views(tp@) =~= base + seq![("entity"@, Json::Object(seq![("id"@, Json::Str(u@))]))]);
                },
                None => {
                    assert(pair_views(tp@) =~= base + Seq::<(Seq<char>, Json)>::empty());
                },
            }
            let tok = object(tp);
            assert(tok@ == entity_token_json(m@->title, m@->uuid, ids[0]));
            let mut arr: Vec<JsonValue> = Vec::new();
            arr.push(tok);
            let a = array(arr);
            assert(views(arr@) =~= seq![entity_token_json(m@->title, m@->uuid, ids[0])]);
            put(&mut ps, "tokens", a);
        },
        MdBlock::Paragraph { text } => {
            head(&mut ps, "TextBlock", id, "Base");
            let (t, g) = text_tokens_json(text);
            proof {
                ids = g@;
            }
            put(&mut ps, "tokens", t);
        },
    }
    let r = object(ps);
    assert(pair_views(ps@) =~= match block_json(m@, idv, ids) {
        Json::Object(x) => x,
        _ => Seq::empty(),
    });
    r
}

/// Reads a markdown document into the JSON blocks it stands for, each with new identifiers.
pub fn markdown_to_blocks(markdown: &str) -> (r: Vec<JsonValue>)
    ensures
        r@.len() == parse_markdown(markdown@).len(),
        forall|i: int|
            0 <= i < r@.len() ==> is_block_json(#[trigger] r@[i]@, parse_markdown(markdown@)[i]),
{
    let blocks = parse_blocks(markdown);
    let ghost bv = block_views(blocks@);
    let mut out: Vec<JsonValue> = Vec::new();
    let mut i: usize = 0;
    while i < blocks.len()
        invariant
            0 <= i <= blocks.len(),
            bv == block_views(blocks@),
            out@.len() == i,
            forall|j: int| 0 <= j < i ==> is_block_json(#[trigger] out@[j]@, bv[j]),
        decreases blocks.len() - i,
    {
        out.push(block_to_json(&blocks[i]));
        i += 1;
    }
    out
}

} // verus!
