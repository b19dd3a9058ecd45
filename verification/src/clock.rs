//! The current time.
use vstd::prelude::*;
use crate::text::{all_digits, is_ascii_digit};

verus! {

/// The character `c` fits the place `t` of a template: any ASCII digit where `t` is `0`,
/// else `t` itself.
pub open spec fn fits(c: char, t: char) -> bool {
    if t == '0' {
        is_ascii_digit(c)
    } else {
        c == t
    }
}

/// What follows the year in a UTC stamp: `-MM-DDTHH:MM:SS.mmmZ`.
pub open spec fn stamp_tail() -> Seq<char> {
    seq!['-', '0', '0', '-', '0', '0', 'T', '0', '0', ':', '0', '0', ':', '0', '0', '.', '0', '0', '0', 'Z']
}

/// A UTC time written `YYYY-MM-DDTHH:MM:SS.mmmZ`: four digits of year (or, past the year 9999,
/// `+` and the digits), then the month, day, hours, minutes, seconds and milliseconds.
pub open spec fn is_utc_stamp(s: Seq<char>) -> bool {
    let n = s.len() as int;
    let year = s.take(n - 20);
    &&& n >= 24
    &&& forall|i: int| 0 <= i < 20 ==> fits(#[trigger] s[n - 20 + i], stamp_tail()[i])
    &&& ((year.len() == 4 && all_digits(year)) || (year.len() >= 6 && year[0] == '+' && all_digits(
        year.skip(1),
    )))
}

/// The current UTC time as `YYYY-MM-DDTHH:MM:SS.mmmZ` (`chrono::Utc::now` with that format).
/// Which time it gives is left open; its shape is stated (chrono writes a year past 9999 with
/// a `+`).
#[verifier::external_body]
pub(crate) fn now_iso() -> (r: String)
    ensures
        is_utc_stamp(r@),
{
    chrono::Utc::now().format("%Y-%m-%dT%H:%M:%S%.3fZ").to_string()
}

} // verus!
