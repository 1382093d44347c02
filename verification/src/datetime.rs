use vstd::prelude::*;

use crate::errors::ValidationError;
use crate::text::{char_digit, spec_digit_val, spec_is_digit};

verus! {

/// A calendar date as plain year, month and day numbers.
#[derive(Clone, Copy, Debug, PartialEq, Eq, Structural)]
pub struct Date {
    pub year: i32,
    pub month: u8,
    pub day: u8,
}

/// The leap-year rule of the Gregorian calendar.
pub open spec fn spec_is_leap_year(y: int) -> bool {
    (y % 4 == 0 && y % 100 != 0) || y % 400 == 0
}

/// How many days the given month of the given year has.
pub open spec fn spec_days_in_month(y: int, m: int) -> int {
    if m == 2 {
        if spec_is_leap_year(y) {
            29
        } else {
            28
        }
    } else if m == 4 || m == 6 || m == 9 || m == 11 {
        30
    } else {
        31
    }
}

impl Date {
    /// A real calendar date whose year the document rendering can carry
    /// (four decimal digits).
    pub open spec fn valid(self) -> bool {
        0 <= self.year <= 9999 && 1 <= self.month <= 12 && 1 <= self.day
            <= spec_days_in_month(self.year as int, self.month as int)
    }

    /// Builds a date from its parts, rejecting anything that is not a real
    /// calendar date.
    pub fn new(year: i32, month: u8, day: u8) -> (r: Result<Date, ValidationError>)
        ensures
            r matches Ok(d) ==> d == (Date { year, month, day }) && d.valid(),
            r is Err ==> r == Err::<Date, ValidationError>(ValidationError::InvalidDate),
            r is Ok <==> (Date { year, month, day }).valid(),
    {
        if 0 <= year && year <= 9999 && 1 <= month && month <= 12 && 1 <= day && day
            <= Self::days_in_month(year, month) {
            Ok(Date { year, month, day })
        } else {
            Err(ValidationError::InvalidDate)
        }
    }

    /// How many days a month has, for month range checks.
    pub fn days_in_month(year: i32, month: u8) -> (n: u8)
        requires
            0 <= year,
            1 <= month <= 12,
        ensures
            n == spec_days_in_month(year as int, month as int),
    {
        if month == 2 {
            if (year % 4 == 0 && year % 100 != 0) || year % 400 == 0 {
                29
            } else {
                28
            }
        } else if month == 4 || month == 6 || month == 9 || month == 11 {
            30
        } else {
            31
        }
    }
}

/// A time of day. The retained surface always stores second == 0.
#[derive(Clone, Copy, Debug, PartialEq, Eq, Structural)]
pub struct TimeOfDay {
    pub hour: u8,
    pub minute: u8,
    pub second: u8,
}

impl TimeOfDay {
    pub open spec fn valid(self) -> bool {
        self.hour < 24 && self.minute < 60 && self.second < 60
    }
}

/// What parsing a reservation-time field yields: the field must be exactly
/// four decimal digits, the first two an hour in 0..=23, the last two a
/// minute in 0..=59; the second is always zero.
pub open spec fn spec_parse_time(s: Seq<char>) -> Result<TimeOfDay, ValidationError> {
    if s.len() != 4 {
        Err(ValidationError::TimeWrongLength)
    } else if !(spec_is_digit(s[0]) && spec_is_digit(s[1]) && spec_is_digit(s[2]) && spec_is_digit(
        s[3],
    )) {
        Err(ValidationError::TimeNotDigits)
    } else {
        let hour = 10 * spec_digit_val(s[0]) + spec_digit_val(s[1]);
        let minute = 10 * spec_digit_val(s[2]) + spec_digit_val(s[3]);
        if hour > 23 {
            Err(ValidationError::HourOutOfRange)
        } else if minute > 59 {
            Err(ValidationError::MinuteOutOfRange)
        } else {
            Ok(TimeOfDay { hour: hour as u8, minute: minute as u8, second: 0 })
        }
    }
}

/// Parses an inbound reservation time written as HHMM. Malformed input is a
/// `ValidationError`; nothing panics and nothing is clamped.
pub fn parse_reservation_time(s: &str) -> (r: Result<TimeOfDay, ValidationError>)
    ensures
        r == spec_parse_time(s@),
        r matches Ok(t) ==> t.valid() && t.second == 0,
{
    let len = s.unicode_len();
    if len != 4 {
        return Err(ValidationError::TimeWrongLength);
    }
    let d0 = char_digit(s.get_char(0));
    let d1 = char_digit(s.get_char(1));
    let d2 = char_digit(s.get_char(2));
    let d3 = char_digit(s.get_char(3));
    match (d0, d1, d2, d3) {
        (Some(h10), Some(h1), Some(m10), Some(m1)) => {
            let hour: u8 = 10 * h10 + h1;
            let minute: u8 = 10 * m10 + m1;
            if hour > 23 {
                Err(ValidationError::HourOutOfRange)
            } else if minute > 59 {
                Err(ValidationError::MinuteOutOfRange)
            } else {
                Ok(TimeOfDay { hour, minute, second: 0 })
            }
        },
        _ => Err(ValidationError::TimeNotDigits),
    }
}

} // verus!
