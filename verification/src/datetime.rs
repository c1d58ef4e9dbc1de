//! Calendar timestamps, read from the fixed GPS wire format.
//!
//! A fix's time arrives as `"2025-12-03 19:58:16"` (or with `'T'` between
//! date and time). The engine keeps it as plain calendar fields with a
//! validity invariant; events whose timestamp does not parse are dropped.

use vstd::prelude::*;

verus! {

use crate::num::digit_val;
use crate::num::is_digit;

/// A calendar timestamp, to second precision, no time zone.
#[derive(Debug, Clone, Copy, PartialEq, Eq, Hash, Structural)]
pub struct DateTime {
    pub year: u32,
    pub month: u32,
    pub day: u32,
    pub hour: u32,
    pub minute: u32,
    pub second: u32,
}

/// A leap year of the proleptic Gregorian calendar.
pub open spec fn is_leap_year(y: int) -> bool {
    y % 4 == 0 && (y % 100 != 0 || y % 400 == 0)
}

/// Days in a month of the given year.
pub open spec fn days_in_month(y: int, m: int) -> int {
    if m == 2 {
        if is_leap_year(y) {
            29
        } else {
            28
        }
    } else if m == 4 || m == 6 || m == 9 || m == 11 {
        30
    } else {
        31
    }
}

impl DateTime {
    /// The fields name a real calendar instant.
    pub open spec fn wf(self) -> bool {
        &&& self.year <= 9999
        &&& 1 <= self.month <= 12
        &&& 1 <= self.day <= days_in_month(self.year as int, self.month as int)
        &&& self.hour <= 23
        &&& self.minute <= 59
        &&& self.second <= 59
    }
}

/// The two digits of `s` at `i` read as a number.
pub open spec fn two_digit(s: Seq<char>, i: int) -> int {
    digit_val(s[i]) * 10 + digit_val(s[i + 1])
}

/// The four digits of `s` at `i` read as a number.
pub open spec fn four_digit(s: Seq<char>, i: int) -> int {
    digit_val(s[i]) * 1000 + digit_val(s[i + 1]) * 100 + digit_val(s[i + 2]) * 10 + digit_val(
        s[i + 3],
    )
}

/// The wire shape: `YYYY-MM-DD HH:MM:SS`, with `' '` or `'T'` between date
/// and time.
pub open spec fn datetime_shape(s: Seq<char>) -> bool {
    &&& s.len() == 19
    &&& is_digit(s[0]) && is_digit(s[1]) && is_digit(s[2]) && is_digit(s[3])
    &&& s[4] == '-'
    &&& is_digit(s[5]) && is_digit(s[6])
    &&& s[7] == '-'
    &&& is_digit(s[8]) && is_digit(s[9])
    &&& (s[10] == ' ' || s[10] == 'T')
    &&& is_digit(s[11]) && is_digit(s[12])
    &&& s[13] == ':'
    &&& is_digit(s[14]) && is_digit(s[15])
    &&& s[16] == ':'
    &&& is_digit(s[17]) && is_digit(s[18])
}

/// The fields a well-shaped wire timestamp carries.
pub open spec fn datetime_fields(s: Seq<char>) -> DateTime {
    DateTime {
        year: four_digit(s, 0) as u32,
        month: two_digit(s, 5) as u32,
        day: two_digit(s, 8) as u32,
        hour: two_digit(s, 11) as u32,
        minute: two_digit(s, 14) as u32,
        second: two_digit(s, 17) as u32,
    }
}

/// Exactly the strings the engine accepts as a GPS timestamp: the wire
/// shape, whose fields name a real calendar instant.
pub open spec fn datetime_of(s: Seq<char>) -> Option<DateTime> {
    if datetime_shape(s) && datetime_fields(s).wf() {
        Some(datetime_fields(s))
    } else {
        None
    }
}

/// Days in a month of the given year.
pub fn month_length(y: u32, m: u32) -> (r: u32)
    requires
        1 <= m <= 12,
    ensures
        r == days_in_month(y as int, m as int),
{
    if m == 2 {
        if y % 4 == 0 && (y % 100 != 0 || y % 400 == 0) {
            29
        } else {
            28
        }
    } else if m == 4 || m == 6 || m == 9 || m == 11 {
        30
    } else {
        31
    }
}

/// Reads the two digits of `s` at `i`.
fn read_two(s: &str, i: usize) -> (r: Option<u32>)
    requires
        i <= 17,
        i + 2 <= s@.len(),
    ensures
        match r {
            Some(v) => is_digit(s@[i as int]) && is_digit(s@[i + 1]) && v == two_digit(
                s@,
                i as int,
            ),
            None => !(is_digit(s@[i as int]) && is_digit(s@[i + 1])),
        },
{
    let a = s.get_char(i) as u32;
    let b = s.get_char(i + 1) as u32;
    if 48 <= a && a <= 57 && 48 <= b && b <= 57 {
        Some((a - 48) * 10 + (b - 48))
    } else {
        None
    }
}

/// Reads a GPS timestamp: `YYYY-MM-DD HH:MM:SS`, with `' '` or `'T'` as the
/// separator, rejected unless the fields name a real calendar instant.
pub fn parse_datetime(s: &str) -> (r: Option<DateTime>)
    ensures
        r == datetime_of(s@),
{
    if s.unicode_len() != 19 {
        return None;
    }
    if !(s.get_char(4) == '-' && s.get_char(7) == '-' && s.get_char(13) == ':' && s.get_char(16)
        == ':') {
        return None;
    }
    let sep = s.get_char(10);
    if !(sep == ' ' || sep == 'T') {
        return None;
    }
    let y_hi = match read_two(s, 0) {
        Some(v) => v,
        None => {
            return None;
        },
    };
    let y_lo = match read_two(s, 2) {
        Some(v) => v,
        None => {
            return None;
        },
    };
    let month = match read_two(s, 5) {
        Some(v) => v,
        None => {
            return None;
        },
    };
    let day = match read_two(s, 8) {
        Some(v) => v,
        None => {
            return None;
        },
    };
    let hour = match read_two(s, 11) {
        Some(v) => v,
        None => {
            return None;
        },
    };
    let minute = match read_two(s, 14) {
        Some(v) => v,
        None => {
            return None;
        },
    };
    let second = match read_two(s, 17) {
        Some(v) => v,
        None => {
            return None;
        },
    };
    let year = y_hi * 100 + y_lo;
    assert(year == four_digit(s@, 0));
    if !(1 <= month && month <= 12) {
        return None;
    }
    if !(1 <= day && day <= month_length(year, month)) {
        return None;
    }
    if !(hour <= 23 && minute <= 59 && second <= 59) {
        return None;
    }
    let dt = DateTime { year, month, day, hour, minute, second };
    assert(dt == datetime_fields(s@));
    Some(dt)
}

} // verus!
