//! Naive date-times with second precision, the time axis of every table.
//!
//! Timestamps carry no time zone: the process fixes one convention for all
//! stored values. A value is a plain calendar reading (year, month, day,
//! hour, minute, second); `key` maps it injectively and monotonically onto
//! an integer, which gives the ordering that range queries rely on.

use vstd::prelude::*;
use vstd::string::*;

verus! {

/// A naive date-time with second precision.
#[derive(Clone, Copy, Debug, PartialEq, Eq, Structural)]
pub struct Timestamp {
    pub year: u16,
    pub month: u8,
    pub day: u8,
    pub hour: u8,
    pub minute: u8,
    pub second: u8,
}

/// Leap years per the Gregorian rule.
pub open spec fn is_leap_year(year: int) -> bool {
    (year % 4 == 0 && year % 100 != 0) || year % 400 == 0
}

/// Number of days in the given month of the given year.
pub open spec fn days_in_month(year: int, month: int) -> int {
    if month == 2 {
        if is_leap_year(year) {
            29
        } else {
            28
        }
    } else if month == 4 || month == 6 || month == 9 || month == 11 {
        30
    } else {
        31
    }
}

impl Timestamp {
    /// A well-formed calendar reading: the year fits the four-digit textual
    /// format, the month, day, hour, minute and second lie in their calendar
    /// ranges.
    pub open spec fn valid(self) -> bool {
        &&& self.year <= 9999
        &&& 1 <= self.month <= 12
        &&& 1 <= self.day <= days_in_month(self.year as int, self.month as int)
        &&& self.hour <= 23
        &&& self.minute <= 59
        &&& self.second <= 59
    }

    /// Mixed-radix encoding of the fields, strictly monotone with respect to
    /// lexicographic (year, month, day, hour, minute, second) order and
    /// injective on all field values. Range queries compare timestamps by
    /// this key.
    pub open spec fn key(self) -> int {
        ((((self.year as int * 13 + self.month as int) * 32 + self.day as int) * 24
            + self.hour as int) * 60 + self.minute as int) * 60 + self.second as int
    }

    /// Executable counterpart of `key`; never overflows because every field
    /// is bounded by its integer type.
    pub fn key_u64(&self) -> (k: u64)
        ensures
            k == self.key(),
    {
        ((((self.year as u64 * 13 + self.month as u64) * 32 + self.day as u64) * 24
            + self.hour as u64) * 60 + self.minute as u64) * 60 + self.second as u64
    }

    /// Inclusive order on timestamps, as the interval bounds of a range
    /// query use it.
    pub fn le(&self, other: &Timestamp) -> (r: bool)
        ensures
            r == (self.key() <= other.key()),
    {
        self.key_u64() <= other.key_u64()
    }
}

/// A decimal digit character.
pub open spec fn is_digit(c: char) -> bool {
    48 <= c as u32 <= 57
}

/// The numeric value of a decimal digit character.
pub open spec fn digit_val(c: char) -> int {
    c as u32 - 48
}

/// The characters have the exact shape `YYYY-MM-DD HH:MM:SS`: nineteen of
/// them, digits in the numeric positions, `-`, space and `:` as separators.
pub open spec fn datetime_shape_ok(s: Seq<char>) -> bool {
    &&& s.len() == 19
    &&& is_digit(s[0]) && is_digit(s[1]) && is_digit(s[2]) && is_digit(s[3])
    &&& s[4] == '-'
    &&& is_digit(s[5]) && is_digit(s[6])
    &&& s[7] == '-'
    &&& is_digit(s[8]) && is_digit(s[9])
    &&& s[10] == ' '
    &&& is_digit(s[11]) && is_digit(s[12])
    &&& s[13] == ':'
    &&& is_digit(s[14]) && is_digit(s[15])
    &&& s[16] == ':'
    &&& is_digit(s[17]) && is_digit(s[18])
}

/// The calendar reading spelled by characters of the right shape.
pub open spec fn datetime_fields(s: Seq<char>) -> Timestamp {
    Timestamp {
        year: (digit_val(s[0]) * 1000 + digit_val(s[1]) * 100 + digit_val(s[2]) * 10 + digit_val(
            s[3],
        )) as u16,
        month: (digit_val(s[5]) * 10 + digit_val(s[6])) as u8,
        day: (digit_val(s[8]) * 10 + digit_val(s[9])) as u8,
        hour: (digit_val(s[11]) * 10 + digit_val(s[12])) as u8,
        minute: (digit_val(s[14]) * 10 + digit_val(s[15])) as u8,
        second: (digit_val(s[17]) * 10 + digit_val(s[18])) as u8,
    }
}

/// A well-formed date-time string: the `YYYY-MM-DD HH:MM:SS` shape,
/// spelling a reading that exists on the calendar.
pub open spec fn is_datetime_string(s: Seq<char>) -> bool {
    datetime_shape_ok(s) && datetime_fields(s).valid()
}

/// True when character `i` of `s` is a decimal digit.
fn digit_ok(s: &str, i: usize) -> (r: bool)
    requires
        i < s@.len(),
    ensures
        r == is_digit(s@[i as int]),
{
    let c = s.get_char(i) as u32;
    48 <= c && c <= 57
}

/// The numeric value of the digit at character `i` of `s`.
fn digit_at(s: &str, i: usize) -> (r: u32)
    requires
        i < s@.len(),
        is_digit(s@[i as int]),
    ensures
        r == digit_val(s@[i as int]),
{
    s.get_char(i) as u32 - 48
}

/// Executable counterpart of `days_in_month`.
pub fn days_in_month_of(year: u16, month: u8) -> (d: u8)
    ensures
        d == days_in_month(year as int, month as int),
{
    if month == 2 {
        if (year % 4 == 0 && year % 100 != 0) || year % 400 == 0 {
            29
        } else {
            28
        }
    } else if month == 4 || month == 6 || month == 9 || month == 11 {
        30
    } else {
        31
    }
}

/// Parses a date-time in the textual format `YYYY-MM-DD HH:MM:SS`.
///
/// Returns `Some` exactly on well-formed strings — right shape and a reading
/// that exists on the calendar (months 1–12, days within the month, leap
/// years observed, hours to 23, minutes and seconds to 59) — and then the
/// parsed value is the spelled reading. Every other input yields `None`;
/// callers classify that as an invalid-date-format failure.
pub fn parse_datetime(s: &str) -> (r: Option<Timestamp>)
    ensures
        match r {
            Some(t) => is_datetime_string(s@) && t == datetime_fields(s@) && t.valid(),
            None => !is_datetime_string(s@),
        },
{
    if s.unicode_len() != 19 {
        return None;
    }
    if !(s.get_char(4) == '-' && s.get_char(7) == '-' && s.get_char(10) == ' ' && s.get_char(13)
        == ':' && s.get_char(16) == ':') {
        return None;
    }
    if !(digit_ok(s, 0) && digit_ok(s, 1) && digit_ok(s, 2) && digit_ok(s, 3) && digit_ok(s, 5)
        && digit_ok(s, 6) && digit_ok(s, 8) && digit_ok(s, 9) && digit_ok(s, 11) && digit_ok(s, 12)
        && digit_ok(s, 14) && digit_ok(s, 15) && digit_ok(s, 17) && digit_ok(s, 18)) {
        return None;
    }
    let year: u16 = (digit_at(s, 0) * 1000 + digit_at(s, 1) * 100 + digit_at(s, 2) * 10 + digit_at(
        s,
        3,
    )) as u16;
    let month: u8 = (digit_at(s, 5) * 10 + digit_at(s, 6)) as u8;
    let day: u8 = (digit_at(s, 8) * 10 + digit_at(s, 9)) as u8;
    let hour: u8 = (digit_at(s, 11) * 10 + digit_at(s, 12)) as u8;
    let minute: u8 = (digit_at(s, 14) * 10 + digit_at(s, 15)) as u8;
    let second: u8 = (digit_at(s, 17) * 10 + digit_at(s, 18)) as u8;
    let t = Timestamp { year, month, day, hour, minute, second };
    if !(1 <= month && month <= 12) {
        return None;
    }
    if !(1 <= day && day <= days_in_month_of(year, month)) {
        return None;
    }
    if !(hour <= 23 && minute <= 59 && second <= 59) {
        return None;
    }
    Some(t)
}

/// Two well-formed timestamps with equal keys have equal fields: on valid
/// calendar readings the key is injective, so comparing keys is the same as
/// comparing timestamps.
pub proof fn lemma_key_injective(a: Timestamp, b: Timestamp)
    requires
        a.valid(),
        b.valid(),
        a.key() == b.key(),
    ensures
        a == b,
{
    assert(a.second == b.second && a.minute == b.minute && a.hour == b.hour && a.day == b.day
        && a.month == b.month && a.year == b.year) by (nonlinear_arith)
        requires
            a.valid(),
            b.valid(),
            a.key() == b.key(),
    {}
}

} // verus!
