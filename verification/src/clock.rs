//! The time of day that log lines are stamped with.

use vstd::prelude::*;

verus! {

/// Hours, minutes and seconds, two digits each.
pub const CLOCK_FORMAT: &'static str = "%H:%M:%S";

/// The number that two decimal digits at `i` and `i + 1` write, if they are digits.
pub open spec fn two_digits(t: Seq<char>, i: int) -> Option<int> {
    if '0' <= t[i] <= '9' && '0' <= t[i + 1] <= '9' {
        Some((t[i] as int - '0' as int) * 10 + (t[i + 1] as int - '0' as int))
    } else {
        None
    }
}

/// `t` reads `HH:MM:SS`. The second 60 is a leap second.
pub open spec fn is_clock_text(t: Seq<char>) -> bool {
    &&& t.len() == 8
    &&& t[2] == ':' && t[5] == ':'
    &&& two_digits(t, 0) matches Some(hour) && hour <= 23
    &&& two_digits(t, 3) matches Some(minute) && minute <= 59
    &&& two_digits(t, 6) matches Some(second) && second <= 60
}

/// `chrono::Local::now`, written by `DateTime::format` in the given format.
///
/// The contract claims that in the format of hours, minutes and seconds the text has that
/// shape. Which time it is depends on the machine's clock and time zone and is left
/// unsaid. The call panics where the clock stands before 1970 or the machine's data on its
/// time zone is broken, which nothing that is passed in decides.
#[verifier::external_body]
fn local_time(format: &str) -> (t: String)
    requires
        format@ == CLOCK_FORMAT@,
    ensures
        is_clock_text(t@),
{
    chrono::Local::now().format(format).to_string()
}

/// The local time of day, as `HH:MM:SS`.
pub fn time_of_day() -> (t: String)
    ensures
        is_clock_text(t@),
{
    local_time(CLOCK_FORMAT)
}

/// A time of day has two digits each for the hour, the minute and the second, with colons
/// between them.
pub proof fn law_clock_text_shape(t: Seq<char>)
    requires
        is_clock_text(t),
    ensures
        t.len() == 8,
        t[2] == ':' && t[5] == ':',
        '0' <= t[0] <= '2' && '0' <= t[1] <= '9',
        t[0] == '2' ==> t[1] <= '3',
        '0' <= t[3] <= '5' && '0' <= t[4] <= '9',
        '0' <= t[6] <= '6' && '0' <= t[7] <= '9',
        t[6] == '6' ==> t[7] == '0',
{
}

} // verus!
