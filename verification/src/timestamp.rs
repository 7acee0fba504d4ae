//! Broken-down calendar times, and what the `time` crate computes on them.

use crate::text::{decimal_two, signed_decimal};
use vstd::prelude::*;

verus! {

/// `time::ParseError`, what `strptime` of the `time` crate reports; nothing
/// is known of a value of it.
#[verifier::external_type_specification]
#[verifier::external_body]
pub struct ExTimeParseError(time::ParseError);

/// A calendar date and time broken down into its components, field for field
/// the `Tm` of the `time` crate.
#[derive(Clone, Copy, Debug, PartialEq, Eq, Hash, Structural)]
pub struct Tm {
    /// Seconds after the minute, 0 to 60.
    pub tm_sec: i32,
    /// Minutes after the hour, 0 to 59.
    pub tm_min: i32,
    /// Hours after midnight, 0 to 23.
    pub tm_hour: i32,
    /// Day of the month, 1 to 31.
    pub tm_mday: i32,
    /// Months since January, 0 to 11.
    pub tm_mon: i32,
    /// Years since 1900.
    pub tm_year: i32,
    /// Days since Sunday, 0 to 6.
    pub tm_wday: i32,
    /// Days since January 1, 0 to 365.
    pub tm_yday: i32,
    /// Positive if daylight saving time is in effect, zero if it is not,
    /// negative if that is not known.
    pub tm_isdst: i32,
    /// Seconds east of UTC of the time zone that the value is given in.
    pub tm_utcoff: i32,
    /// Nanoseconds after the second, 0 to 999,999,999.
    pub tm_nsec: i32,
}

/// Why a text is no timestamp.
#[derive(Clone, Copy, Debug, PartialEq)]
pub struct TimestampError {
    /// What the `time` crate found wrong.
    pub cause: time::ParseError,
}

/// Whether the year `year` of the Gregorian calendar has a 29th of February.
pub open spec fn is_leap_year(year: int) -> bool {
    year % 4 == 0 && (year % 100 != 0 || year % 400 == 0)
}

/// The number of days of the month `mon`, counted from zero, in the year
/// `year`.
pub open spec fn days_in_month(year: int, mon: int) -> int {
    if mon == 1 {
        if is_leap_year(year) {
            29
        } else {
            28
        }
    } else if mon == 3 || mon == 5 || mon == 8 || mon == 10 {
        30
    } else {
        31
    }
}

impl Tm {
    /// The value names a moment that every platform converts: a day that
    /// its month has, in a year from 1901 to 9999, a time of day without a
    /// leap second, and the other fields in their ranges.
    pub open spec fn is_convertible(&self) -> bool {
        &&& 0 <= self.tm_sec <= 59
        &&& 0 <= self.tm_min <= 59
        &&& 0 <= self.tm_hour <= 23
        &&& 0 <= self.tm_mon <= 11
        &&& 1 <= self.tm_year <= 8099
        &&& 1 <= self.tm_mday <= days_in_month(self.tm_year + 1900, self.tm_mon as int)
        &&& 0 <= self.tm_wday <= 6
        &&& 0 <= self.tm_nsec <= 999_999_999
    }

    /// The value can be written as a date and a time: its month, its day of
    /// the week and its time of day lie in their ranges, its day is at most
    /// 31, and its year lies between 1900 and 10000.
    pub open spec fn is_displayable(&self) -> bool {
        &&& 0 <= self.tm_sec <= 60
        &&& 0 <= self.tm_min <= 59
        &&& 0 <= self.tm_hour <= 23
        &&& 1 <= self.tm_mday <= 31
        &&& 0 <= self.tm_mon <= 11
        &&& 0 <= self.tm_wday <= 6
        &&& 0 <= self.tm_year <= 8100
    }

    /// Whether the value names a moment that every platform converts.
    pub fn check_convertible(&self) -> (ok: bool)
        ensures
            ok == self.is_convertible(),
    {
        if !(0 <= self.tm_sec && self.tm_sec <= 59 && 0 <= self.tm_min && self.tm_min <= 59 && 0
            <= self.tm_hour && self.tm_hour <= 23 && 0 <= self.tm_mon && self.tm_mon <= 11 && 1
            <= self.tm_year && self.tm_year <= 8099 && 0 <= self.tm_wday && self.tm_wday <= 6 && 0
            <= self.tm_nsec && self.tm_nsec <= 999_999_999) {
            return false;
        }
        let year: u32 = (self.tm_year + 1900) as u32;
        let leap = year % 4 == 0 && (year % 100 != 0 || year % 400 == 0);
        let days: i32 = if self.tm_mon == 1 {
            if leap {
                29
            } else {
                28
            }
        } else if self.tm_mon == 3 || self.tm_mon == 5 || self.tm_mon == 8 || self.tm_mon == 10 {
            30
        } else {
            31
        };
        1 <= self.tm_mday && self.tm_mday <= days
    }
}

/// The four formats in which `parse_rfc3339` reads a timestamp.
pub open spec fn is_rfc3339_format(format: Seq<char>) -> bool {
    ||| format == "%Y-%m-%dT%H:%M:%SZ"@
    ||| format == "%Y-%m-%dT%H:%M:%S.%fZ"@
    ||| format == "%Y-%m-%dT%H:%M:%S.%f%z"@
    ||| format == "%Y-%m-%dT%H:%M:%S%z"@
}

/// What `strptime` of the `time` crate reads from `s` by `format`, or `None`
/// where it reports an error.
pub uninterp spec fn strptime_parsed(s: Seq<char>, format: Seq<char>) -> Option<Tm>;

/// Date and time as `strftime` of the `time` crate writes them for the format
/// `%F %T`: year, month and day with hyphens between, a space, then hour,
/// minute and second with colons between; all but the year in two places.
pub open spec fn date_time_text(tm: Tm) -> Seq<char> {
    signed_decimal(tm.tm_year + 1900) + seq!['-'] + decimal_two((tm.tm_mon + 1) as nat)
        + seq!['-'] + decimal_two(tm.tm_mday as nat) + seq![' '] + decimal_two(tm.tm_hour as nat)
        + seq![':'] + decimal_two(tm.tm_min as nat) + seq![':'] + decimal_two(tm.tm_sec as nat)
}

/// Calls `time::strptime`. Trusted: the value read is the one that
/// `strptime_parsed` names, and an error comes exactly where that is `None`.
/// The formats are kept to those without `%s`, on which `strptime` may panic.
#[verifier::external_body]
pub(crate) fn strptime(s: &str, format: &str) -> (parsed: Result<Tm, time::ParseError>)
    requires
        is_rfc3339_format(format@),
    ensures
        parsed matches Ok(tm) ==> strptime_parsed(s@, format@) == Some(tm),
        parsed is Err ==> strptime_parsed(s@, format@) is None,
{
    match time::strptime(s, format) {
        Ok(t) => Ok(Tm {
            tm_sec: t.tm_sec, tm_min: t.tm_min, tm_hour: t.tm_hour, tm_mday: t.tm_mday,
            tm_mon: t.tm_mon, tm_year: t.tm_year, tm_wday: t.tm_wday, tm_yday: t.tm_yday,
            tm_isdst: t.tm_isdst, tm_utcoff: t.tm_utcoff, tm_nsec: t.tm_nsec,
        }),
        Err(e) => Err(e),
    }
}

/// Calls `time::Tm::to_local`. Trusted: the local time has its month, its
/// day of the week and its time of day in their ranges, a day of at most 31,
/// a year within one of the given one, and the nanoseconds of the given
/// time. Which local time it is the machine's time zone decides, so nothing
/// more is said; nothing is said of the day of the year, which the platforms
/// count differently. The values admitted are those that every platform
/// converts without a panic: the nanoseconds lie in their range, the day is
/// one that its month has, there is no leap second, and the year is one
/// from 1901 on, so that the local year is none before 1900.
#[verifier::external_body]
pub(crate) fn to_local(tm: &Tm) -> (local: Tm)
    requires
        tm.is_convertible(),
    ensures
        local.is_displayable(),
        local.tm_nsec == tm.tm_nsec,
{
    let l = time::Tm {
        tm_sec: tm.tm_sec, tm_min: tm.tm_min, tm_hour: tm.tm_hour, tm_mday: tm.tm_mday,
        tm_mon: tm.tm_mon, tm_year: tm.tm_year, tm_wday: tm.tm_wday, tm_yday: tm.tm_yday,
        tm_isdst: tm.tm_isdst, tm_utcoff: tm.tm_utcoff, tm_nsec: tm.tm_nsec,
    }.to_local();
    Tm {
        tm_sec: l.tm_sec, tm_min: l.tm_min, tm_hour: l.tm_hour, tm_mday: l.tm_mday,
        tm_mon: l.tm_mon, tm_year: l.tm_year, tm_wday: l.tm_wday, tm_yday: l.tm_yday,
        tm_isdst: l.tm_isdst, tm_utcoff: l.tm_utcoff, tm_nsec: l.tm_nsec,
    }
}

/// The format that writes a date and a time.
pub open spec fn date_time_format() -> Seq<char> {
    "%F %T"@
}

/// Calls `time::Tm::strftime`. Trusted: for the format of date and time, on
/// a value whose day of the week and month lie in their ranges, the call
/// succeeds and writes the numbers as `date_time_text` says.
#[verifier::external_body]
pub(crate) fn strftime(tm: &Tm, format: &str) -> (text: String)
    requires
        tm.is_displayable(),
        format@ == date_time_format(),
    ensures
        text@ == date_time_text(*tm),
{
    time::Tm {
        tm_sec: tm.tm_sec, tm_min: tm.tm_min, tm_hour: tm.tm_hour, tm_mday: tm.tm_mday,
        tm_mon: tm.tm_mon, tm_year: tm.tm_year, tm_wday: tm.tm_wday, tm_yday: tm.tm_yday,
        tm_isdst: tm.tm_isdst, tm_utcoff: tm.tm_utcoff, tm_nsec: tm.tm_nsec,
    }.strftime(format).unwrap().to_string()
}

} // verus!
