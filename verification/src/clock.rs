//! The time of day, as log lines and dashboard events show it.

use vstd::prelude::*;

use crate::text;

verus! {

/// Whether `c` is a decimal digit.
pub open spec fn decimal_digit(c: char) -> bool {
    '0' <= c <= '9'
}

/// Whether `s` has the shape `HH:MM:SS`.
pub open spec fn time_of_day(s: Seq<char>) -> bool {
    &&& s.len() == 8
    &&& decimal_digit(s[0]) && decimal_digit(s[1]) && s[2] == ':'
    &&& decimal_digit(s[3]) && decimal_digit(s[4]) && s[5] == ':'
    &&& decimal_digit(s[6]) && decimal_digit(s[7])
}

/// Whether `s` has the shape `HH:MM:SS.mmm`.
pub open spec fn time_of_day_millis(s: Seq<char>) -> bool {
    &&& s.len() == 12
    &&& time_of_day(s.take(8))
    &&& s[8] == '.'
    &&& decimal_digit(s[9]) && decimal_digit(s[10]) && decimal_digit(s[11])
}

/// The current time of day in UTC, to the millisecond.
///
/// Calls `chrono::Utc::now` and formats the result with `%H:%M:%S%.3f`. Claimed is only the
/// shape of the text: which time it shows depends on the machine's clock. `Utc::now` panics
/// where that clock stands before 1970.
#[verifier::external_body]
pub(crate) fn utc_clock() -> (r: String)
    ensures
        time_of_day_millis(r@),
{
    chrono::Utc::now().format("%H:%M:%S%.3f").to_string()
}

/// The current time in microseconds since 1970.
///
/// Calls `chrono::Utc::now` and `DateTime::timestamp_micros`. Claimed is only that the number
/// is not negative: which it is depends on the machine's clock. `Utc::now` panics where that
/// clock stands before 1970.
#[verifier::external_body]
pub(crate) fn now_micros() -> (r: i64)
    ensures
        r >= 0,
{
    chrono::Utc::now().timestamp_micros()
}

/// The current time of day in UTC, to the second.
pub fn utc_clock_seconds() -> (r: String)
    ensures
        time_of_day(r@),
{
    let now = utc_clock();
    let cs = text::chars_of(now.as_str());
    assert(cs@.subrange(0, 8) =~= cs@.take(8));
    text::string_of(&cs, 0, 8)
}

} // verus!
