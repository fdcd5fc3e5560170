//! Rendering of raw timetable times as `HH:MM:SS`.

use vstd::prelude::*;
use crate::text::chars_of;
use crate::text::is_digit;

verus! {

/// Whether `c` is a numeric character in the sense of `char::is_numeric`:
/// a member of one of Unicode's general categories for numbers.
pub uninterp spec fn is_numeric_char(c: char) -> bool;

/// `char::is_numeric` of std. The result is a fixed property of the
/// character, named `is_numeric_char`. Of that property only this is
/// claimed: the ten decimal digits `0` to `9` have it.
pub assume_specification[ char::is_numeric ](c: char) -> (b: bool)
    ensures
        b == is_numeric_char(c),
        is_digit(c) ==> b,
;

/// The numeric characters of `raw`, in order.
pub open spec fn numeric_chars(raw: Seq<char>) -> Seq<char> {
    raw.filter(|c: char| is_numeric_char(c))
}

/// The clock text for a run of digits: the first two digits are the hour and
/// the next two the minute; fewer than four digits give midnight.
pub open spec fn clock_text(digits: Seq<char>) -> Seq<char> {
    if digits.len() >= 4 {
        digits.subrange(0, 2) + ":"@ + digits.subrange(2, 4) + ":00"@
    } else {
        "00:00:00"@
    }
}

/// Formats a run of digits as `HH:MM:00`, or as midnight when there are
/// fewer than four.
pub fn format_clock(digits: &str) -> (r: String)
    ensures
        r@ == clock_text(digits@),
{
    if digits.unicode_len() >= 4 {
        let mut s = String::from_str(digits.substring_char(0, 2));
        s.append(":");
        s.append(digits.substring_char(2, 4));
        s.append(":00");
        s
    } else {
        String::from_str("00:00:00")
    }
}

/// Formats a raw time column: its numeric characters are kept, and the first
/// four of them give hour and minute. A column with fewer than four numeric
/// characters is midnight. In a column of decimal digits alone every
/// character counts.
pub fn format_time(raw: &str) -> (r: String)
    ensures
        r@ == clock_text(numeric_chars(raw@)),
        (forall|i: int| 0 <= i < raw@.len() ==> is_digit(#[trigger] raw@[i])) ==> r@ == clock_text(
            raw@,
        ),
{
    let v = chars_of(raw);
    let mut clean = String::new();
    let mut i: usize = 0;
    proof {
        reveal(Seq::filter);
    }
    while i < v.len()
        invariant
            i <= v.len(),
            v@ == raw@,
            clean@ == numeric_chars(raw@.take(i as int)),
            (forall|j: int| 0 <= j < i ==> is_digit(#[trigger] raw@[j])) ==> clean@ == raw@.take(
                i as int,
            ),
        decreases v.len() - i,
    {
        let ghost head = raw@.take(i as int);
        let ghost next = raw@.take(i as int + 1);
        assert(next.drop_last() == head);
        proof {
            reveal(Seq::filter);
        }
        if v[i].is_numeric() {
            clean.append(raw.substring_char(i, i + 1));
        }
        i = i + 1;
    }
    assert(raw@.take(v.len() as int) == raw@);
    format_clock(clean.as_str())
}

} // verus!
