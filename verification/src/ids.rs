//! Identifiers.
use vstd::prelude::*;
use crate::text::to_chars;

verus! {

pub open spec fn is_lower_hex(c: char) -> bool {
    ('0' <= c && c <= '9') || ('a' <= c && c <= 'f')
}

/// The text form of a UUID: groups of 8, 4, 4, 4 and 12 lowercase hexadecimal digits joined
/// by hyphens.
pub open spec fn is_uuid_text(s: Seq<char>) -> bool {
    s.len() == 36 && forall|i: int|
        0 <= i < 36 ==> (if i == 8 || i == 13 || i == 18 || i == 23 {
            s[i] == '-'
        } else {
            is_lower_hex(#[trigger] s[i])
        })
}

/// Whether `s` is the text form of a UUID.
pub fn is_uuid(s: &str) -> (r: bool)
    ensures
        r == is_uuid_text(s@),
{
    let v = to_chars(s);
    if v.len() != 36 {
        return false;
    }
    let mut i: usize = 0;
    while i < 36
        invariant
            0 <= i <= 36,
            v@ == s@,
            v@.len() == 36,
            forall|k: int|
                0 <= k < i ==> (if k == 8 || k == 13 || k == 18 || k == 23 {
                    v@[k] == '-'
                } else {
                    is_lower_hex(#[trigger] v@[k])
                }),
        decreases 36 - i,
    {
        let c = v[i];
        let ok = if i == 8 || i == 13 || i == 18 || i == 23 {
            c == '-'
        } else {
            ('0' <= c && c <= '9') || ('a' <= c && c <= 'f')
        };
        if !ok {
            assert(!(if i == 8 || i == 13 || i == 18 || i == 23 {
                v@[i as int] == '-'
            } else {
                is_lower_hex(v@[i as int])
            }));
            return false;
        }
        i += 1;
    }
    true
}

/// A new random identifier (`uuid::Uuid::new_v4`), in the hyphenated lowercase text form
/// that its `Display` writes. Which identifier comes is left open.
#[verifier::external_body]
pub(crate) fn new_id() -> (r: String)
    ensures
        is_uuid_text(r@),
{
    uuid::Uuid::new_v4().to_string()
}

} // verus!
