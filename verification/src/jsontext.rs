//! Writing a JSON document as compact text.
use vstd::prelude::*;
use crate::json::{pair_views, views, Json, JsonValue};
use crate::text::{append, join, push_char};

verus! {

pub open spec fn hex_digit(d: u32) -> char {
    if d < 10 {
        ((d + 48) as char)
    } else {
        ((d + 87) as char)
    }
}

/// How one character of a string is written inside the quotes.
pub open spec fn escape_char(c: char) -> Seq<char> {
    if c == '"' {
        seq!['\\', '"']
    } else if c == '\\' {
        seq!['\\', '\\']
    } else if c == '\u{8}' {
        seq!['\\', 'b']
    } else if c == '\t' {
        seq!['\\', 't']
    } else if c == '\n' {
        seq!['\\', 'n']
    } else if c == '\u{c}' {
        seq!['\\', 'f']
    } else if c == '\r' {
        seq!['\\', 'r']
    } else if (c as u32) < 32 {
        seq!['\\', 'u', '0', '0', hex_digit((c as u32) / 16), hex_digit((c as u32) % 16)]
    } else {
        seq![c]
    }
}

/// A string's characters, escaped.
pub open spec fn escape(s: Seq<char>) -> Seq<char>
    decreases s.len(),
{
    if s.len() == 0 {
        Seq::empty()
    } else {
        escape(s.drop_last()) + escape_char(s.last())
    }
}

pub open spec fn quoted(s: Seq<char>) -> Seq<char> {
    seq!['"'] + escape(s) + seq!['"']
}

/// The compact JSON text of a document, as `serde_json` writes it: no white space, strings
/// with `"`, `\` and control characters escaped, members in their order.
pub open spec fn json_text(j: Json) -> Seq<char>
    decreases j,
{
    match j {
        Json::Null => seq!['n', 'u', 'l', 'l'],
        Json::Bool(b) => if b {
            seq!['t', 'r', 'u', 'e']
        } else {
            seq!['f', 'a', 'l', 's', 'e']
        },
        Json::Number(t) => t,
        Json::Str(s) => quoted(s),
        Json::Array(items) => seq!['['] + join(item_texts(items), seq![',']) + seq![']'],
        Json::Object(ps) => seq!['{'] + join(member_texts(ps), seq![',']) + seq!['}'],
    }
}

pub open spec fn item_texts(items: Seq<Json>) -> Seq<Seq<char>>
    decreases items,
{
    Seq::new(items.len(), |i: int| if 0 <= i < items.len() { json_text(items[i]) } else { Seq::empty() })
}

pub open spec fn member_texts(ps: Seq<(Seq<char>, Json)>) -> Seq<Seq<char>>
    decreases ps,
{
    Seq::new(
        ps.len(),
        |i: int|
            if 0 <= i < ps.len() {
                quoted(ps[i].0) + seq![':'] + json_text(ps[i].1)
            } else {
                Seq::empty()
            },
    )
}

fn hex_char(d: u32) -> (c: char)
    requires
        d < 16,
    ensures
        c == hex_digit(d),
{
    if d == 0 { '0' } else if d == 1 { '1' } else if d == 2 { '2' } else if d == 3 { '3' }
    else if d == 4 { '4' } else if d == 5 { '5' } else if d == 6 { '6' } else if d == 7 { '7' }
    else if d == 8 { '8' } else if d == 9 { '9' } else if d == 10 { 'a' } else if d == 11 { 'b' }
    else if d == 12 { 'c' } else if d == 13 { 'd' } else if d == 14 { 'e' } else { 'f' }
}

fn write_escaped(out: &mut String, s: &str)
    ensures
        final(out)@ == old(out)@ + escape(s@),
{
    let v = crate::text::to_chars(s);
    let ghost start = out@;
    let mut i: usize = 0;
    while i < v.len()
        invariant
            0 <= i <= v.len(),
            v@ == s@,
            out@ == start + escape(v@.take(i as int)),
        decreases v.len() - i,
    {
        let c = v[i];
        let ghost before = out@;
        if c == '"' {
            push_char(out, '\\');
            push_char(out, '"');
        } else if c == '\\' {
            push_char(out, '\\');
            push_char(out, '\\');
        } else if c == '\u{8}' {
            push_char(out, '\\');
            push_char(out, 'b');
        } else if c == '\t' {
            push_char(out, '\\');
            push_char(out, 't');
        } else if c == '\n' {
            push_char(out, '\\');
            push_char(out, 'n');
        } else if c == '\u{c}' {
            push_char(out, '\\');
            push_char(out, 'f');
        } else if c == '\r' {
            push_char(out, '\\');
            push_char(out, 'r');
        } else if (c as u32) < 32 {
            push_char(out, '\\');
            push_char(out, 'u');
            push_char(out, '0');
            push_char(out, '0');
            push_char(out, hex_char((c as u32) / 16));
            push_char(out, hex_char((c as u32) % 16));
        } else {
            push_char(out, c);
        }
        assert(out@ =~= before + escape_char(c));
        assert(v@.take(i + 1).drop_last() =~= v@.take(i as int));
        i += 1;
    }
    assert(v@.take(v.len() as int) =~= v@);
}

fn write_items(out: &mut String, items: &Vec<JsonValue>)
    ensures
        final(out)@ == old(out)@ + seq!['['] + join(item_texts(views(items@)), seq![',']) + seq![']'],
    decreases items,
{
    let ghost start = out@;
    let ghost parts = item_texts(views(items@));
    push_char(out, '[');
    let mut i: usize = 0;
    while i < items.len()
        invariant
            0 <= i <= items.len(),
            parts == item_texts(views(items@)),
            parts.len() == items@.len(),
            out@ == start + seq!['['] + join(parts.take(i as int), seq![',']),
        decreases items.len() - i,
    {
        if i > 0 {
            push_char(out, ',');
            proof {
                crate::text::lemma_join_push(parts.take(i as int), parts[i as int], seq![',']);
            }
        } else {
            assert(parts.take(1) =~= seq![parts[0]]);
        }
        proof {
            assert(decreases_to!(items => items@));
            assert(decreases_to!(items@ => items@[i as int]));
        }
        write_json(out, &items[i]);
        assert(parts.take(i + 1) =~= parts.take(i as int).push(parts[i as int]));
        i += 1;
    }
    push_char(out, ']');
    assert(parts.take(items.len() as int) =~= parts);
}

fn write_members(out: &mut String, ps: &Vec<(String, JsonValue)>)
    ensures
        final(out)@ == old(out)@ + seq!['{'] + join(member_texts(pair_views(ps@)), seq![',']) + seq!['}'],
    decreases ps,
{
    let ghost start = out@;
    let ghost parts = member_texts(pair_views(ps@));
    push_char(out, '{');
    let mut i: usize = 0;
    while i < ps.len()
        invariant
            0 <= i <= ps.len(),
            parts == member_texts(pair_views(ps@)),
            parts.len() == ps@.len(),
            out@ == start + seq!['{'] + join(parts.take(i as int), seq![',']),
        decreases ps.len() - i,
    {
        if i > 0 {
            push_char(out, ',');
            proof {
                crate::text::lemma_join_push(parts.take(i as int), parts[i as int], seq![',']);
            }
        } else {
            assert(parts.take(1) =~= seq![parts[0]]);
        }
        push_char(out, '"');
        write_escaped(out, ps[i].0.as_str());
        push_char(out, '"');
        push_char(out, ':');
        proof {
            assert(decreases_to!(ps => ps@));
            assert(decreases_to!(ps@ => ps@[i as int]));
            assert(decreases_to!(ps@[i as int] => ps@[i as int].1));
        }
        write_json(out, &ps[i].1);
        assert(parts.take(i + 1) =~= parts.take(i as int).push(parts[i as int]));
        i += 1;
    }
    push_char(out, '}');
    assert(parts.take(ps.len() as int) =~= parts);
}

/// Writes `j` as compact JSON text.
pub fn write_json(out: &mut String, j: &JsonValue)
    ensures
        final(out)@ == old(out)@ + json_text(j@),
    decreases j,
{
    let ghost start = out@;
    match j {
        JsonValue::Null => append(out, "null"),
        JsonValue::Bool(b) => if *b {
            append(out, "true")
        } else {
            append(out, "false")
        },
        JsonValue::Number(t) => append(out, t.as_str()),
        JsonValue::Str(s) => {
            push_char(out, '"');
            write_escaped(out, s.as_str());
            push_char(out, '"');
        },
        JsonValue::Array(items) => {
            assert(match j@ { Json::Array(x) => x, _ => Seq::empty() } =~= views(items@));
            write_items(out, items);
        },
        JsonValue::Object(ps) => {
            assert(match j@ { Json::Object(x) => x, _ => Seq::empty() } =~= pair_views(ps@));
            write_members(out, ps);
        },
    }
    proof {
        reveal_strlit("null");
        reveal_strlit("true");
        reveal_strlit("false");
        assert("null"@ =~= seq!['n', 'u', 'l', 'l']);
        assert("true"@ =~= seq!['t', 'r', 'u', 'e']);
        assert("false"@ =~= seq!['f', 'a', 'l', 's', 'e']);
        assert(final(out)@ =~= start + json_text(j@));
    }
}

/// The compact JSON text of `j` (`serde_json::to_string`).
pub fn to_json_text(j: &JsonValue) -> (r: String)
    ensures
        r@ == json_text(j@),
{
    let mut r = String::new();
    write_json(&mut r, j);
    r
}

} // verus!
