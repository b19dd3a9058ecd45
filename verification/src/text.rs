use vstd::prelude::*;

verus! {

/// Joins `parts`, putting `sep` between each two neighbours.
pub open spec fn join(parts: Seq<Seq<char>>, sep: Seq<char>) -> Seq<char>
    decreases parts.len(),
{
    if parts.len() == 0 {
        Seq::empty()
    } else if parts.len() == 1 {
        parts[0]
    } else {
        join(parts.drop_last(), sep) + sep + parts.last()
    }
}

/// Index of the first `c` in `s` at or after `i`, or -1.
pub open spec fn find_char_from(s: Seq<char>, c: char, i: int) -> int
    decreases s.len() - i,
{
    if i < 0 || i >= s.len() {
        -1
    } else if s[i] == c {
        i
    } else {
        find_char_from(s, c, i + 1)
    }
}

pub proof fn lemma_find_char_from(s: Seq<char>, c: char, i: int)
    requires
        0 <= i,
    ensures
        find_char_from(s, c, i) == -1 || (i <= find_char_from(s, c, i) < s.len() && s[find_char_from(
            s,
            c,
            i,
        )] == c),
        forall|k: int|
            i <= k < (if find_char_from(s, c, i) == -1 { s.len() as int } else { find_char_from(s, c, i) })
                ==> s[k] != c,
    decreases s.len() - i,
{
    if i < s.len() && s[i] != c {
        lemma_find_char_from(s, c, i + 1);
    }
}

/// Whether `s` begins with `p`.
pub open spec fn starts_with(s: Seq<char>, p: Seq<char>) -> bool {
    p.len() <= s.len() && s.subrange(0, p.len() as int) == p
}

/// Unicode White_Space, the set that `char::is_whitespace` and the `\s` class accept.
pub open spec fn is_white_space(c: char) -> bool {
    ('\u{9}' <= c && c <= '\u{d}') || c == ' ' || c == '\u{85}' || c == '\u{a0}' || c == '\u{1680}'
        || ('\u{2000}' <= c && c <= '\u{200a}') || c == '\u{2028}' || c == '\u{2029}' || c
        == '\u{202f}' || c == '\u{205f}' || c == '\u{3000}'
}

pub fn white_space(c: char) -> (r: bool)
    ensures
        r == is_white_space(c),
{
    ('\u{9}' <= c && c <= '\u{d}') || c == ' ' || c == '\u{85}' || c == '\u{a0}' || c == '\u{1680}'
        || ('\u{2000}' <= c && c <= '\u{200a}') || c == '\u{2028}' || c == '\u{2029}' || c
        == '\u{202f}' || c == '\u{205f}' || c == '\u{3000}'
}

pub open spec fn is_ascii_digit(c: char) -> bool {
    '0' <= c && c <= '9'
}

/// What `char::is_alphanumeric` answers for `c`.
pub uninterp spec fn alphanumeric(c: char) -> bool;

/// Calls `char::is_alphanumeric`; the answer is a function of `c` alone.
#[verifier::external_body]
pub(crate) fn is_alphanumeric(c: char) -> (r: bool)
    ensures
        r == alphanumeric(c),
{
    c.is_alphanumeric()
}

/// Whether the regex class `\w` (Unicode's Perl word class: letters, marks, decimal digits,
/// connector punctuation and join controls) takes in a character outside ASCII.
pub uninterp spec fn unicode_word(c: char) -> bool;

/// Whether the regex class `\d` (Unicode's decimal digits, `\p{Nd}`) takes in a character
/// outside ASCII.
pub uninterp spec fn unicode_digit(c: char) -> bool;

pub open spec fn is_ascii_alphanumeric(c: char) -> bool {
    ('0' <= c && c <= '9') || ('a' <= c && c <= 'z') || ('A' <= c && c <= 'Z')
}

/// A character of the regex class `\w`: on ASCII the letters, the digits and `_`.
pub open spec fn is_word_char(c: char) -> bool {
    if c <= '\u{7f}' {
        is_ascii_alphanumeric(c) || c == '_'
    } else {
        unicode_word(c)
    }
}

/// A character of the regex class `\d`: on ASCII the digits `0` to `9`.
pub open spec fn is_decimal_digit(c: char) -> bool {
    if c <= '\u{7f}' {
        is_ascii_digit(c)
    } else {
        unicode_digit(c)
    }
}

/// Asks `regex` whether `c` is a match of `\w` (`Regex::new` and `is_match` on the character
/// alone). On ASCII the class holds the letters, the digits and `_`; past ASCII the answer is
/// named, a function of `c` alone.
#[verifier::external_body]
fn regex_word(c: char) -> (r: bool)
    ensures
        r == (if c <= '\u{7f}' { is_ascii_alphanumeric(c) || c == '_' } else { unicode_word(c) }),
{
    let mut buf = [0u8; 4];
    regex::Regex::new(r"\A\w\z").unwrap().is_match(c.encode_utf8(&mut buf))
}

/// Asks `regex` whether `c` is a match of `\d` (`Regex::new` and `is_match` on the character
/// alone). On ASCII the class holds `0` to `9`; past ASCII the answer is named, a function of
/// `c` alone.
#[verifier::external_body]
fn regex_digit(c: char) -> (r: bool)
    ensures
        r == (if c <= '\u{7f}' { is_ascii_digit(c) } else { unicode_digit(c) }),
{
    let mut buf = [0u8; 4];
    regex::Regex::new(r"\A\d\z").unwrap().is_match(c.encode_utf8(&mut buf))
}

/// Whether `c` is in the regex class `\w`.
pub fn word_char(c: char) -> (r: bool)
    ensures
        r == is_word_char(c),
{
    if c <= '\u{7f}' {
        ('0' <= c && c <= '9') || ('a' <= c && c <= 'z') || ('A' <= c && c <= 'Z') || c == '_'
    } else {
        regex_word(c)
    }
}

/// Whether `c` is in the regex class `\d`.
pub fn decimal_digit(c: char) -> (r: bool)
    ensures
        r == is_decimal_digit(c),
{
    if c <= '\u{7f}' {
        '0' <= c && c <= '9'
    } else {
        regex_digit(c)
    }
}

/// What `str::to_lowercase` gives for a string.
pub uninterp spec fn lowercase(s: Seq<char>) -> Seq<char>;

/// Calls `str::to_lowercase`; the result is a function of the text alone.
#[verifier::external_body]
pub(crate) fn to_lowercase(s: &str) -> (r: String)
    ensures
        r@ == lowercase(s@),
{
    s.to_lowercase()
}

/// Calls `==` on two string slices.
#[verifier::external_body]
pub(crate) fn str_eq(a: &str, b: &str) -> (r: bool)
    ensures
        r == (a@ == b@),
{
    a == b
}

/// Collects the characters of `s` (`str::chars`).
#[verifier::external_body]
pub(crate) fn to_chars(s: &str) -> (r: Vec<char>)
    ensures
        r@ == s@,
{
    s.chars().collect()
}

/// Appends one character (`String::push`).
#[verifier::external_body]
pub(crate) fn push_char(s: &mut String, c: char)
    ensures
        final(s)@ == old(s)@.push(c),
{
    s.push(c)
}

/// The text of `v[from..to]`.
pub fn substring(v: &Vec<char>, from: usize, to: usize) -> (r: String)
    requires
        from <= to <= v.len(),
    ensures
        r@ == v@.subrange(from as int, to as int),
{
    let mut r = String::new();
    let mut i: usize = from;
    while i < to
        invariant
            from <= i <= to <= v.len(),
            r@ == v@.subrange(from as int, i as int),
        decreases to - i,
    {
        push_char(&mut r, v[i]);
        assert(v@.subrange(from as int, i + 1) =~= v@.subrange(from as int, i as int).push(v@[i as int]));
        i += 1;
    }
    r
}

/// Appends `b` to `a`.
pub fn append(a: &mut String, b: &str)
    ensures
        final(a)@ == old(a)@ + b@,
{
    a.append(b);
}

/// A copy of `s`.
pub fn copy(s: &str) -> (r: String)
    ensures
        r@ == s@,
{
    String::from_str(s)
}

/// Whether `v[at..]` begins with `p`.
pub fn chars_start_with(v: &Vec<char>, at: usize, p: &str) -> (r: bool)
    requires
        at <= v.len(),
    ensures
        r == starts_with(v@.subrange(at as int, v@.len() as int), p@),
{
    let pc = to_chars(p);
    if pc.len() > v.len() - at {
        return false;
    }
    let mut i: usize = 0;
    while i < pc.len()
        invariant
            pc@ == p@,
            at + pc.len() <= v.len(),
            0 <= i <= pc.len(),
            forall|k: int| 0 <= k < i ==> v@[at + k] == pc@[k],
        decreases pc.len() - i,
    {
        if v[at + i] != pc[i] {
            assert(v@.subrange(at as int, v@.len() as int).subrange(0, pc@.len() as int)[i as int]
                != p@[i as int]);
            return false;
        }
        i += 1;
    }
    assert(v@.subrange(at as int, v@.len() as int).subrange(0, pc@.len() as int) =~= p@);
    true
}

/// The decimal digits of `n`.
pub open spec fn decimal(n: nat) -> Seq<char>
    decreases n,
{
    if n < 10 {
        seq![digit_char(n)]
    } else {
        decimal(n / 10).push(digit_char(n % 10))
    }
}

pub open spec fn digit_char(d: nat) -> char {
    if d == 0 { '0' }
    else if d == 1 { '1' }
    else if d == 2 { '2' }
    else if d == 3 { '3' }
    else if d == 4 { '4' }
    else if d == 5 { '5' }
    else if d == 6 { '6' }
    else if d == 7 { '7' }
    else if d == 8 { '8' }
    else { '9' }
}

/// The value of a run of decimal digits.
pub open spec fn digits_value(s: Seq<char>) -> nat
    decreases s.len(),
{
    if s.len() == 0 {
        0
    } else {
        digits_value(s.drop_last()) * 10 + digit_of(s.last())
    }
}

pub open spec fn digit_of(c: char) -> nat {
    if is_ascii_digit(c) { (c as int - '0' as int) as nat } else { 0 }
}

pub open spec fn all_digits(s: Seq<char>) -> bool {
    forall|i: int| 0 <= i < s.len() ==> is_ascii_digit(#[trigger] s[i])
}

pub fn digit_to_char(d: u64) -> (c: char)
    requires
        d < 10,
    ensures
        c == digit_char(d as nat),
{
    if d == 0 { '0' }
    else if d == 1 { '1' }
    else if d == 2 { '2' }
    else if d == 3 { '3' }
    else if d == 4 { '4' }
    else if d == 5 { '5' }
    else if d == 6 { '6' }
    else if d == 7 { '7' }
    else if d == 8 { '8' }
    else { '9' }
}

/// `n` in decimal, as `u64::to_string` writes it.
pub fn u64_to_decimal(n: u64) -> (r: String)
    ensures
        r@ == decimal(n as nat),
    decreases n,
{
    if n < 10 {
        let mut r = String::new();
        push_char(&mut r, digit_to_char(n));
        assert(r@ =~= decimal(n as nat));
        r
    } else {
        let mut r = u64_to_decimal(n / 10);
        push_char(&mut r, digit_to_char(n % 10));
        r
    }
}

/// The value of the ASCII digits `v[from..to]`, or `None` where it does not fit in a `u64`.
pub fn parse_digits(v: &Vec<char>, from: usize, to: usize) -> (r: Option<u64>)
    requires
        from <= to <= v.len(),
        all_digits(v@.subrange(from as int, to as int)),
    ensures
        match r {
            Some(n) => n as nat == digits_value(v@.subrange(from as int, to as int)),
            None => digits_value(v@.subrange(from as int, to as int)) > u64::MAX,
        },
{
    let mut acc: u64 = 0;
    let mut i: usize = from;
    while i < to
        invariant
            from <= i <= to <= v.len(),
            all_digits(v@.subrange(from as int, to as int)),
            acc as nat == digits_value(v@.subrange(from as int, i as int)),
        decreases to - i,
    {
        let c = v[i];
        assert(v@.subrange(from as int, to as int)[i - from] == c);
        let d: u64 = (c as u64) - ('0' as u64);
        assert(v@.subrange(from as int, i + 1).drop_last() =~= v@.subrange(from as int, i as int));
        if acc > (u64::MAX - d) / 10 {
            proof {
                lemma_digits_value_grows(v@.subrange(from as int, to as int), (i - from + 1) as int);
                assert(v@.subrange(from as int, to as int).subrange(0, i - from + 1) =~= v@.subrange(from as int, i + 1));
                assert(acc * 10 + d > u64::MAX) by (nonlinear_arith)
                    requires acc > (u64::MAX - d) / 10, d <= 9;
            }
            return None;
        }
        assert(acc * 10 + d <= u64::MAX) by (nonlinear_arith)
            requires acc <= (u64::MAX - d) / 10, d <= 9;
        acc = acc * 10 + d;
        i += 1;
    }
    Some(acc)
}

/// A longer run of digits never has a smaller value than its prefix.
pub proof fn lemma_digits_value_grows(s: Seq<char>, k: int)
    requires
        0 <= k <= s.len(),
    ensures
        digits_value(s.subrange(0, k)) <= digits_value(s),
    decreases s.len() - k,
{
    if k < s.len() {
        lemma_digits_value_grows(s, k + 1);
        assert(s.subrange(0, k + 1).drop_last() =~= s.subrange(0, k));
    } else {
        assert(s.subrange(0, k) =~= s);
    }
}

} // verus!

verus! {

pub open spec fn string_views(v: Seq<String>) -> Seq<Seq<char>> {
    Seq::new(v.len(), |i: int| v[i]@)
}

pub proof fn lemma_join_push(parts: Seq<Seq<char>>, x: Seq<char>, sep: Seq<char>)
    requires
        parts.len() > 0,
    ensures
        join(parts.push(x), sep) == join(parts, sep) + sep + x,
{
    assert(parts.push(x).drop_last() =~= parts);
}

/// Joins `parts` with `sep` between neighbours.
pub fn join_strings(parts: &Vec<String>, sep: &str) -> (r: String)
    ensures
        r@ == join(string_views(parts@), sep@),
{
    let mut r = String::new();
    let mut i: usize = 0;
    while i < parts.len()
        invariant
            0 <= i <= parts.len(),
            r@ == join(string_views(parts@).take(i as int), sep@),
        decreases parts.len() - i,
    {
        let ghost before = string_views(parts@).take(i as int);
        if i > 0 {
            append(&mut r, sep);
            proof {
                lemma_join_push(before, parts@[i as int]@, sep@);
            }
        } else {
            assert(before.push(parts@[i as int]@) =~= seq![parts@[i as int]@]);
        }
        append(&mut r, parts[i].as_str());
        assert(string_views(parts@).take(i + 1) =~= before.push(parts@[i as int]@));
        i += 1;
    }
    assert(string_views(parts@).take(parts.len() as int) =~= string_views(parts@));
    r
}

/// What the `Debug` form of a list of strings is (`["a", "b"]`, each string quoted and
/// escaped as `str`'s `Debug` writes it).
pub uninterp spec fn debug_list(items: Seq<Seq<char>>) -> Seq<char>;

/// Writes a list of strings in its `Debug` form (`format!("{:?}", ..)`); the text is a
/// function of the strings alone.
#[verifier::external_body]
pub(crate) fn debug_strs(v: &Vec<String>) -> (r: String)
    ensures
        r@ == debug_list(string_views(v@)),
{
    format!("{:?}", v)
}

} // verus!
