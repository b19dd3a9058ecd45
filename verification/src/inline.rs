//! Inline markdown: emphasis, inline code and links within one line.
use vstd::prelude::*;
use crate::text::{find_char_from, lemma_find_char_from, substring};

verus! {

/// One inline piece of a line.
pub enum Inline {
    Text { text: Seq<char>, bold: bool, italic: bool },
    Code { code: Seq<char> },
    Link { text: Seq<char>, url: Seq<char> },
}

/// An inline piece, as the library holds it.
pub enum InlineToken {
    Text { text: String, bold: bool, italic: bool },
    Code { code: String },
    Link { text: String, url: String },
}

impl View for InlineToken {
    type V = Inline;

    open spec fn view(&self) -> Inline {
        match self {
            InlineToken::Text { text, bold, italic } => Inline::Text { text: text@, bold: *bold, italic: *italic },
            InlineToken::Code { code } => Inline::Code { code: code@ },
            InlineToken::Link { text, url } => Inline::Link { text: text@, url: url@ },
        }
    }
}

pub open spec fn token_views(v: Seq<InlineToken>) -> Seq<Inline> {
    v.map_values(|x: InlineToken| x@)
}

/// `n` asterisks start at `q`.
pub open spec fn stars_at(t: Seq<char>, q: int, n: int) -> bool {
    0 <= q && q + n <= t.len() && forall|k: int| q <= k < q + n ==> t[k] == '*'
}

/// The least `q`, from `q` on, where a run of `n` asterisks closes the span begun before `q`
/// (the span may not hold a line break); -1 where there is none. This is how the lazy `.+?`
/// followed by the closing asterisks finds its end.
pub open spec fn lazy_close(t: Seq<char>, q: int, n: int) -> int
    decreases t.len() - q,
{
    if q < 1 || q + n > t.len() {
        -1
    } else if t[q - 1] == '\n' {
        -1
    } else if stars_at(t, q, n) {
        q
    } else {
        lazy_close(t, q + 1, n)
    }
}

pub proof fn lemma_lazy_close(t: Seq<char>, q: int, n: int)
    requires
        n >= 0,
    ensures
        lazy_close(t, q, n) == -1 || (q <= lazy_close(t, q, n) && stars_at(t, lazy_close(t, q, n), n)),
    decreases t.len() - q,
{
    if !(q < 1 || q + n > t.len()) && t[q - 1] != '\n' && !stars_at(t, q, n) {
        lemma_lazy_close(t, q + 1, n);
    }
}

/// The inline construct that begins at `p`, with the position just after it.
///
/// The alternatives are tried in this order: `***text***`, `**text**`, `*text*`,
/// `` `code` `` and `[text](url)`; the first that matches at `p` wins.
pub open spec fn match_at(t: Seq<char>, p: int) -> Option<(Inline, int)> {
    if stars_at(t, p, 3) && lazy_close(t, p + 4, 3) >= 0 {
        let q = lazy_close(t, p + 4, 3);
        Some((Inline::Text { text: t.subrange(p + 3, q), bold: true, italic: true }, q + 3))
    } else if stars_at(t, p, 2) && lazy_close(t, p + 3, 2) >= 0 {
        let q = lazy_close(t, p + 3, 2);
        Some((Inline::Text { text: t.subrange(p + 2, q), bold: true, italic: false }, q + 2))
    } else if stars_at(t, p, 1) && lazy_close(t, p + 2, 1) >= 0 {
        let q = lazy_close(t, p + 2, 1);
        Some((Inline::Text { text: t.subrange(p + 1, q), bold: false, italic: true }, q + 1))
    } else if 0 <= p < t.len() && t[p] == '`' && find_char_from(t, '`', p + 1) > p + 1 {
        let q = find_char_from(t, '`', p + 1);
        Some((Inline::Code { code: t.subrange(p + 1, q) }, q + 1))
    } else if 0 <= p < t.len() && t[p] == '[' && find_char_from(t, ']', p + 1) > p + 1
        && find_char_from(t, ']', p + 1) + 1 < t.len() && t[find_char_from(t, ']', p + 1) + 1]
        == '(' && find_char_from(t, ')', find_char_from(t, ']', p + 1) + 2) > find_char_from(
        t,
        ']',
        p + 1,
    ) + 2 {
        let r = find_char_from(t, ']', p + 1);
        let s = find_char_from(t, ')', r + 2);
        Some((Inline::Link { text: t.subrange(p + 1, r), url: t.subrange(r + 2, s) }, s + 1))
    } else {
        None
    }
}

pub proof fn lemma_match_at(t: Seq<char>, p: int)
    requires
        0 <= p,
    ensures
        match_at(t, p) matches Some((_, e)) ==> p < e <= t.len(),
{
    lemma_lazy_close(t, p + 4, 3);
    lemma_lazy_close(t, p + 3, 2);
    lemma_lazy_close(t, p + 2, 1);
    lemma_find_char_from(t, '`', p + 1);
    lemma_find_char_from(t, ']', p + 1);
    let r = find_char_from(t, ']', p + 1);
    if r >= 0 {
        lemma_find_char_from(t, ')', r + 2);
    }
}

/// Plain text with no emphasis.
pub open spec fn plain(s: Seq<char>) -> Inline {
    Inline::Text { text: s, bold: false, italic: false }
}

/// The pieces of `t` from the search position `p` on, where the text not yet taken by a
/// construct begins at `last`.
pub open spec fn inline_from(t: Seq<char>, last: int, p: int) -> Seq<Inline>
    decreases t.len() - p,
{
    if p < 0 || p >= t.len() || last > p {
        if 0 <= last < t.len() {
            seq![plain(t.subrange(last, t.len() as int))]
        } else {
            Seq::empty()
        }
    } else {
        match match_at(t, p) {
            Some((tok, e)) => {
                if p < e && e <= t.len() {
                    (if last < p { seq![plain(t.subrange(last, p))] } else { Seq::empty() }) + seq![tok]
                        + inline_from(t, e, e)
                } else {
                    Seq::empty()
                }
            },
            None => inline_from(t, last, p + 1),
        }
    }
}

/// The inline pieces of a line: a single empty text where the line gives none.
pub open spec fn parse_inline(t: Seq<char>) -> Seq<Inline> {
    let r = inline_from(t, 0, 0);
    if r.len() == 0 {
        seq![plain(Seq::empty())]
    } else {
        r
    }
}

fn stars(v: &Vec<char>, q: usize, n: usize) -> (r: bool)
    requires
        n <= 3,
    ensures
        r == stars_at(v@, q as int, n as int),
{
    if q > v.len() || n > v.len() - q {
        return false;
    }
    let mut k: usize = 0;
    while k < n
        invariant
            0 <= k <= n,
            q + n <= v.len(),
            forall|j: int| q <= j < q + k ==> v@[j] == '*',
        decreases n - k,
    {
        if v[q + k] != '*' {
            return false;
        }
        k += 1;
    }
    true
}

fn lazy_close_at(v: &Vec<char>, q0: usize, n: usize) -> (r: Option<usize>)
    requires
        n <= 3,
        q0 >= 1,
    ensures
        match r {
            Some(q) => q as int == lazy_close(v@, q0 as int, n as int),
            None => lazy_close(v@, q0 as int, n as int) == -1,
        },
{
    let mut q = q0;
    loop
        invariant
            1 <= q,
            n <= 3,
            lazy_close(v@, q0 as int, n as int) == lazy_close(v@, q as int, n as int),
        decreases v.len() - q,
    {
        if q > v.len() || n > v.len() - q {
            return None;
        }
        if v[q - 1] == '\n' {
            return None;
        }
        if stars(v, q, n) {
            return Some(q);
        }
        q += 1;
    }
}

fn find_char(v: &Vec<char>, c: char, from: usize) -> (r: Option<usize>)
    ensures
        match r {
            Some(i) => i as int == find_char_from(v@, c, from as int),
            None => find_char_from(v@, c, from as int) == -1,
        },
{
    let mut i = from;
    while i < v.len()
        invariant
            from <= i,
            find_char_from(v@, c, from as int) == find_char_from(v@, c, i as int),
        decreases v.len() - i,
    {
        if v[i] == c {
            return Some(i);
        }
        i += 1;
    }
    None
}

fn match_at_exec(v: &Vec<char>, p: usize) -> (r: Option<(InlineToken, usize)>)
    requires
        p < v.len(),
    ensures
        match r {
            Some((tok, e)) => match_at(v@, p as int) == Some((tok@, e as int)),
            None => match_at(v@, p as int) is None,
        },
{
    proof {
        lemma_lazy_close(v@, p + 4, 3);
        lemma_lazy_close(v@, p + 3, 2);
        lemma_lazy_close(v@, p + 2, 1);
    }
    if stars(v, p, 3) && p + 3 < v.len() {
        if let Some(q) = lazy_close_at(v, p + 4, 3) {
            let text = substring(v, p + 3, q);
            return Some((InlineToken::Text { text, bold: true, italic: true }, q + 3));
        }
    }
    if stars(v, p, 2) && p + 2 < v.len() {
        if let Some(q) = lazy_close_at(v, p + 3, 2) {
            let text = substring(v, p + 2, q);
            return Some((InlineToken::Text { text, bold: true, italic: false }, q + 2));
        }
    }
    if stars(v, p, 1) && p + 1 < v.len() {
        if let Some(q) = lazy_close_at(v, p + 2, 1) {
            let text = substring(v, p + 1, q);
            return Some((InlineToken::Text { text, bold: false, italic: true }, q + 1));
        }
    }
    proof {
        lemma_find_char_from(v@, '`', p + 1);
        lemma_find_char_from(v@, ']', p + 1);
    }
    if v[p] == '`' {
        if let Some(q) = find_char(v, '`', p + 1) {
            if q > p + 1 {
                let code = substring(v, p + 1, q);
                return Some((InlineToken::Code { code }, q + 1));
            }
        }
    }
    if v[p] == '[' {
        if let Some(r) = find_char(v, ']', p + 1) {
            if r > p + 1 && r + 1 < v.len() && v[r + 1] == '(' {
                proof {
                    lemma_find_char_from(v@, ')', r + 2);
                }
                if let Some(s) = find_char(v, ')', r + 2) {
                    if s > r + 2 {
                        let text = substring(v, p + 1, r);
                        let url = substring(v, r + 2, s);
                        return Some((InlineToken::Link { text, url }, s + 1));
                    }
                }
            }
        }
    }
    None
}

/// Splits a line into its inline pieces, as `parse_inline` describes.
pub fn inline_tokens(v: &Vec<char>) -> (r: Vec<InlineToken>)
    ensures
        token_views(r@) == parse_inline(v@),
{
    let mut toks: Vec<InlineToken> = Vec::new();
    let mut last: usize = 0;
    let mut p: usize = 0;
    while p < v.len()
        invariant
            last <= p <= v.len(),
            token_views(toks@) + inline_from(v@, last as int, p as int) == inline_from(v@, 0, 0),
        decreases v.len() - p,
    {
        proof {
            lemma_match_at(v@, p as int);
        }
        let m = match_at_exec(v, p);
        match m {
            Some((tok, e)) => {
                let ghost old_toks = token_views(toks@);
                let ghost tokv = tok@;
                if last < p {
                    let s = substring(v, last, p);
                    toks.push(InlineToken::Text { text: s, bold: false, italic: false });
                }
                toks.push(tok);
                proof {
                    let pre: Seq<Inline> = if (last as int) < (p as int) {
                        seq![plain(v@.subrange(last as int, p as int))]
                    } else {
                        Seq::empty()
                    };
                    assert(token_views(toks@) =~= old_toks + pre + seq![tokv]);
                    assert(inline_from(v@, last as int, p as int) == pre + seq![tokv] + inline_from(
                        v@,
                        e as int,
                        e as int,
                    ));
                    assert(old_toks + pre + seq![tokv] + inline_from(v@, e as int, e as int)
                        =~= old_toks + (pre + seq![tokv] + inline_from(v@, e as int, e as int)));
                }
                last = e;
                p = e;
            },
            None => {
                p += 1;
            },
        }
    }
    if last < v.len() {
        let ghost old_toks = token_views(toks@);
        let s = substring(v, last, v.len());
        toks.push(InlineToken::Text { text: s, bold: false, italic: false });
        assert(token_views(toks@) =~= old_toks + inline_from(v@, last as int, p as int));
    } else {
        assert(token_views(toks@) =~= token_views(toks@) + inline_from(v@, last as int, p as int));
    }
    if toks.len() == 0 {
        toks.push(InlineToken::Text { text: String::new(), bold: false, italic: false });
        assert(token_views(toks@) =~= seq![plain(Seq::empty())]);
    }
    toks
}

} // verus!

verus! {

/// The markdown text of one inline piece.
pub open spec fn render_inline(tok: Inline) -> Seq<char> {
    match tok {
        Inline::Text { text, bold, italic } => if bold && italic {
            seq!['*', '*', '*'] + text + seq!['*', '*', '*']
        } else if bold {
            seq!['*', '*'] + text + seq!['*', '*']
        } else if italic {
            seq!['*'] + text + seq!['*']
        } else {
            text
        },
        Inline::Code { code } => seq!['`'] + code + seq!['`'],
        Inline::Link { text, url } => seq!['['] + text + seq![']', '('] + url + seq![')'],
    }
}

/// The markdown text of a run of inline pieces.
pub open spec fn render_inlines(s: Seq<Inline>) -> Seq<char>
    decreases s.len(),
{
    if s.len() == 0 {
        Seq::empty()
    } else {
        render_inlines(s.drop_last()) + render_inline(s.last())
    }
}

pub proof fn lemma_render_one(x: Inline)
    ensures
        render_inlines(seq![x]) == render_inline(x),
{
    assert(seq![x].drop_last() =~= Seq::<Inline>::empty());
    assert(render_inlines(Seq::<Inline>::empty()) + render_inline(x) =~= render_inline(x));
}

pub proof fn lemma_render_inlines_concat(a: Seq<Inline>, b: Seq<Inline>)
    ensures
        render_inlines(a + b) == render_inlines(a) + render_inlines(b),
    decreases b.len(),
{
    if b.len() == 0 {
        assert(a + b =~= a);
        assert(render_inlines(b) =~= Seq::<char>::empty());
        assert(render_inlines(a) + render_inlines(b) =~= render_inlines(a));
    } else {
        lemma_render_inlines_concat(a, b.drop_last());
        assert((a + b).drop_last() =~= a + b.drop_last());
        assert((a + b).last() == b.last());
        assert(render_inlines(a) + render_inlines(b.drop_last()) + render_inline(b.last())
            =~= render_inlines(a) + (render_inlines(b.drop_last()) + render_inline(b.last())));
    }
}

/// A construct found at `p` renders back to exactly the text it was read from.
pub proof fn lemma_match_renders(t: Seq<char>, p: int)
    requires
        0 <= p,
        match_at(t, p) is Some,
    ensures
        render_inline(match_at(t, p).unwrap().0) == t.subrange(p, match_at(t, p).unwrap().1),
{
    lemma_lazy_close(t, p + 4, 3);
    lemma_lazy_close(t, p + 3, 2);
    lemma_lazy_close(t, p + 2, 1);
    lemma_find_char_from(t, '`', p + 1);
    lemma_find_char_from(t, ']', p + 1);
    let r = find_char_from(t, ']', p + 1);
    if r >= 0 {
        lemma_find_char_from(t, ')', r + 2);
    }
    let (tok, e) = match_at(t, p).unwrap();
    if stars_at(t, p, 3) && lazy_close(t, p + 4, 3) >= 0 {
        let q = lazy_close(t, p + 4, 3);
        assert(render_inline(tok) =~= t.subrange(p, e));
    } else if stars_at(t, p, 2) && lazy_close(t, p + 3, 2) >= 0 {
        assert(render_inline(tok) =~= t.subrange(p, e));
    } else if stars_at(t, p, 1) && lazy_close(t, p + 2, 1) >= 0 {
        assert(render_inline(tok) =~= t.subrange(p, e));
    } else if 0 <= p < t.len() && t[p] == '`' && find_char_from(t, '`', p + 1) > p + 1 {
        assert(render_inline(tok) =~= t.subrange(p, e));
    } else {
        assert(render_inline(tok) =~= t.subrange(p, e));
    }
}

proof fn lemma_inline_from_renders(t: Seq<char>, last: int, p: int)
    requires
        0 <= last <= p <= t.len(),
    ensures
        render_inlines(inline_from(t, last, p)) == t.subrange(last, t.len() as int),
    decreases t.len() - p,
{
    if p >= t.len() {
        if last < t.len() {
            lemma_render_one(plain(t.subrange(last, t.len() as int)));
            assert(render_inlines(seq![plain(t.subrange(last, t.len() as int))]) =~= t.subrange(
                last,
                t.len() as int,
            ));
        } else {
            assert(t.subrange(last, t.len() as int) =~= Seq::<char>::empty());
        }
    } else {
        lemma_match_at(t, p);
        match match_at(t, p) {
            Some((tok, e)) => {
                lemma_match_renders(t, p);
                lemma_inline_from_renders(t, e, e);
                let pre: Seq<Inline> = if last < p {
                    seq![plain(t.subrange(last, p))]
                } else {
                    Seq::empty()
                };
                lemma_render_inlines_concat(pre + seq![tok], inline_from(t, e, e));
                lemma_render_inlines_concat(pre, seq![tok]);
                lemma_render_one(tok);
                if last < p {
                    lemma_render_one(plain(t.subrange(last, p)));
                }
                assert(render_inlines(pre) =~= t.subrange(last, p));
                assert(t.subrange(last, p) + t.subrange(p, e) + t.subrange(e, t.len() as int)
                    =~= t.subrange(last, t.len() as int));
            },
            None => {
                lemma_inline_from_renders(t, last, p + 1);
            },
        }
    }
}

/// Reading the inline pieces of any line and writing them back gives the line again.
pub proof fn lemma_inline_roundtrip(t: Seq<char>)
    ensures
        render_inlines(parse_inline(t)) == t,
{
    lemma_inline_from_renders(t, 0, 0);
    assert(t.subrange(0, t.len() as int) =~= t);
    if inline_from(t, 0, 0).len() == 0 {
        lemma_render_one(plain(Seq::<char>::empty()));
    }
}

} // verus!
