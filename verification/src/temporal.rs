//! Civil dates and times of day, checked against the calendar.

use crate::text::{padded_decimal, push_char, push_padded_decimal};
use vstd::prelude::*;

verus! {

/// The earliest year that the calendar knows.
pub const MIN_YEAR: i32 = -262143;

/// The latest year that the calendar knows.
pub const MAX_YEAR: i32 = 262142;

/// Leap years of the proleptic Gregorian calendar; the year before year one
/// is year zero.
pub open spec fn is_leap_year(year: int) -> bool {
    year % 4 == 0 && (year % 100 != 0 || year % 400 == 0)
}

/// Number of days of a month.
pub open spec fn days_in_month(year: int, month: int) -> int {
    if month == 2 {
        if is_leap_year(year) {
            29
        } else {
            28
        }
    } else if month == 4 || month == 6 || month == 9 || month == 11 {
        30
    } else {
        31
    }
}

/// Whether the calendar has the day `day` of month `month` in `year`.
pub open spec fn is_calendar_date(year: int, month: int, day: int) -> bool {
    &&& MIN_YEAR <= year <= MAX_YEAR
    &&& 1 <= month <= 12
    &&& 1 <= day <= days_in_month(year, month)
}

/// Whether a day has the second `second` of minute `minute` of hour `hour`.
pub open spec fn is_time_of_day(hour: int, minute: int, second: int) -> bool {
    0 <= hour < 24 && 0 <= minute < 60 && 0 <= second < 60
}

/// Asks `chrono::NaiveDate::from_ymd_opt` whether it can make the date. It
/// makes exactly the dates of the proleptic Gregorian calendar whose year
/// lies between [`MIN_YEAR`] and [`MAX_YEAR`].
#[verifier::external_body]
fn calendar_date_exists(year: i32, month: u32, day: u32) -> (exists: bool)
    ensures
        exists == is_calendar_date(year as int, month as int, day as int),
{
    chrono::NaiveDate::from_ymd_opt(year, month, day).is_some()
}

/// Asks `chrono::NaiveTime::from_hms_opt` whether it can make the time. It
/// makes a time when the hour is below 24 and minute and second are below 60.
#[verifier::external_body]
fn time_of_day_exists(hour: u32, minute: u32, second: u32) -> (exists: bool)
    ensures
        exists == is_time_of_day(hour as int, minute as int, second as int),
{
    chrono::NaiveTime::from_hms_opt(hour, minute, second).is_some()
}

/// A calendar date without a time zone.
#[derive(Clone, Copy, Debug, PartialEq, Eq, Structural)]
pub struct SqlDate {
    pub year: i32,
    pub month: u8,
    pub day: u8,
}

/// A calendar date with a time of day, to the second.
#[derive(Clone, Copy, Debug, PartialEq, Eq, Structural)]
pub struct SqlDateTime {
    pub date: SqlDate,
    pub hour: u8,
    pub minute: u8,
    pub second: u8,
}

/// The year in ISO 8601 notation: four digits, and a sign in front of the
/// years that do not fit in them.
pub open spec fn iso_year(year: int) -> Seq<char> {
    if year < 0 {
        seq!['-'] + padded_decimal((-year) as nat, 4)
    } else if year > 9999 {
        seq!['+'] + padded_decimal(year as nat, 4)
    } else {
        padded_decimal(year as nat, 4)
    }
}

impl SqlDate {
    /// The date exists in the calendar.
    pub open spec fn wf(self) -> bool {
        is_calendar_date(self.year as int, self.month as int, self.day as int)
    }

    /// `YYYY-MM-DD`.
    pub open spec fn iso(self) -> Seq<char> {
        iso_year(self.year as int) + seq!['-'] + padded_decimal(self.month as nat, 2) + seq!['-']
            + padded_decimal(self.day as nat, 2)
    }

    /// The date of the given year, month and day, if the calendar has it.
    pub fn from_ymd(year: i32, month: u32, day: u32) -> (date: Option<SqlDate>)
        ensures
            date is Some <==> is_calendar_date(year as int, month as int, day as int),
            date matches Some(d) ==> d.year == year && d.month == month && d.day == day,
    {
        if calendar_date_exists(year, month, day) {
            Some(SqlDate { year, month: month as u8, day: day as u8 })
        } else {
            None
        }
    }

    /// Whether the date exists in the calendar.
    pub fn is_valid(&self) -> (valid: bool)
        ensures
            valid == self.wf(),
    {
        calendar_date_exists(self.year, self.month as u32, self.day as u32)
    }

    /// Appends the date in ISO 8601 notation.
    pub fn push_iso(&self, out: &mut String)
        ensures
            final(out)@ == old(out)@ + self.iso(),
    {
        if self.year < 0 {
            push_char(out, '-');
            push_padded_decimal(out, (-(self.year as i64)) as u64, 4);
        } else if self.year > 9999 {
            push_char(out, '+');
            push_padded_decimal(out, self.year as u64, 4);
        } else {
            push_padded_decimal(out, self.year as u64, 4);
        }
        push_char(out, '-');
        push_padded_decimal(out, self.month as u64, 2);
        push_char(out, '-');
        push_padded_decimal(out, self.day as u64, 2);
        assert(final(out)@ =~= old(out)@ + self.iso());
    }
}

impl SqlDateTime {
    /// Date and time of day both exist.
    pub open spec fn wf(self) -> bool {
        self.date.wf() && is_time_of_day(self.hour as int, self.minute as int, self.second as int)
    }

    /// `YYYY-MM-DDTHH:MM:SS`.
    pub open spec fn iso(self) -> Seq<char> {
        self.date.iso() + seq!['T'] + padded_decimal(self.hour as nat, 2) + seq![':']
            + padded_decimal(self.minute as nat, 2) + seq![':'] + padded_decimal(
            self.second as nat,
            2,
        )
    }

    /// The given second of the given day, if the day has it.
    pub fn new(date: SqlDate, hour: u32, minute: u32, second: u32) -> (time: Option<SqlDateTime>)
        ensures
            time is Some <==> date.wf() && is_time_of_day(
                hour as int,
                minute as int,
                second as int,
            ),
            time matches Some(t) ==> t.date == date && t.hour == hour && t.minute == minute
                && t.second == second,
    {
        if date.is_valid() && time_of_day_exists(hour, minute, second) {
            Some(SqlDateTime { date, hour: hour as u8, minute: minute as u8, second: second as u8 })
        } else {
            None
        }
    }

    /// Whether date and time of day both exist.
    pub fn is_valid(&self) -> (valid: bool)
        ensures
            valid == self.wf(),
    {
        self.date.is_valid() && time_of_day_exists(
            self.hour as u32,
            self.minute as u32,
            self.second as u32,
        )
    }

    /// Appends date and time in ISO 8601 notation.
    pub fn push_iso(&self, out: &mut String)
        ensures
            final(out)@ == old(out)@ + self.iso(),
    {
        self.date.push_iso(out);
        push_char(out, 'T');
        push_padded_decimal(out, self.hour as u64, 2);
        push_char(out, ':');
        push_padded_decimal(out, self.minute as u64, 2);
        push_char(out, ':');
        push_padded_decimal(out, self.second as u64, 2);
        assert(final(out)@ =~= old(out)@ + self.iso());
    }
}

} // verus!
