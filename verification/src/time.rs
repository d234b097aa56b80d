//! Civil UTC timestamps as the store keeps them, and the clock.

use crate::models::option_view;
use crate::text::{four_digits, push_four_digits, push_two_digits, two_digits};
use chrono::{Datelike, Timelike};
use vstd::prelude::*;
use vstd::string::StringExecFns;

verus! {

/// A point in time in UTC, broken down into calendar fields.
///
/// Any combination of field values is a `Timestamp`; only those for which
/// [`Timestamp::has_date`] holds have a calendar date to filter and group by.
#[derive(Clone, Copy, PartialEq, Eq, Debug, Structural)]
pub struct Timestamp {
    pub year: i32,
    pub month: u32,
    pub day: u32,
    pub hour: u32,
    pub minute: u32,
    pub second: u32,
    pub nanosecond: u32,
}

impl Timestamp {
    /// Strictly earlier than `other`, fields compared from the year down.
    pub open spec fn before(self, other: Timestamp) -> bool {
        if self.year != other.year {
            self.year < other.year
        } else if self.month != other.month {
            self.month < other.month
        } else if self.day != other.day {
            self.day < other.day
        } else if self.hour != other.hour {
            self.hour < other.hour
        } else if self.minute != other.minute {
            self.minute < other.minute
        } else if self.second != other.second {
            self.second < other.second
        } else {
            self.nanosecond < other.nanosecond
        }
    }

    /// Computes [`Timestamp::before`].
    pub fn is_before(&self, other: &Timestamp) -> (b: bool)
        ensures
            b == self.before(*other),
    {
        if self.year != other.year {
            self.year < other.year
        } else if self.month != other.month {
            self.month < other.month
        } else if self.day != other.day {
            self.day < other.day
        } else if self.hour != other.hour {
            self.hour < other.hour
        } else if self.minute != other.minute {
            self.minute < other.minute
        } else if self.second != other.second {
            self.second < other.second
        } else {
            self.nanosecond < other.nanosecond
        }
    }

    /// The fields name a day that can be written as `YYYY-MM-DD`.
    pub open spec fn has_date(self) -> bool {
        &&& 0 <= self.year <= 9999
        &&& 1 <= self.month <= 12
        &&& 1 <= self.day <= 31
    }

    /// The calendar date as `YYYY-MM-DD`, for a timestamp with a date.
    pub open spec fn date_text(self) -> Option<Seq<char>> {
        if self.has_date() {
            Some(
                four_digits(self.year as int) + seq!['-'] + two_digits(self.month as int)
                    + seq!['-'] + two_digits(self.day as int),
            )
        } else {
            None
        }
    }

    /// Computes [`Timestamp::has_date`].
    pub fn is_dated(&self) -> (b: bool)
        ensures
            b == self.has_date(),
    {
        0 <= self.year && self.year <= 9999 && 1 <= self.month && self.month <= 12 && 1
            <= self.day && self.day <= 31
    }

    /// Computes [`Timestamp::date_text`].
    pub fn date_string(&self) -> (r: Option<String>)
        ensures
            r.deep_view() == self.date_text(),
    {
        if !self.is_dated() {
            return None;
        }
        let mut out = String::new();
        push_four_digits(&mut out, self.year as u32);
        out.append("-");
        push_two_digits(&mut out, self.month);
        out.append("-");
        push_two_digits(&mut out, self.day);
        proof {
            reveal_strlit("-");
            assert("-"@ =~= seq!['-']);
            assert(out@ =~= self.date_text().unwrap());
        }
        Some(out)
    }
}

/// A day of the calendar.
#[derive(Clone, Copy, PartialEq, Eq, Debug, Structural)]
pub struct Date {
    pub year: i32,
    pub month: u32,
    pub day: u32,
}

/// A day of the calendar, with numbers of any size.
pub struct Day {
    pub year: int,
    pub month: int,
    pub day: int,
}

impl View for Date {
    type V = Day;

    open spec fn view(&self) -> Day {
        Day { year: self.year as int, month: self.month as int, day: self.day as int }
    }
}

/// The year has a 29th of February.
pub open spec fn leap_year(year: int) -> bool {
    year % 4 == 0 && (year % 100 != 0 || year % 400 == 0)
}

/// The number of days of the month `month` of the year `year`.
pub open spec fn days_in_month(year: int, month: int) -> int {
    if month == 2 {
        if leap_year(year) {
            29
        } else {
            28
        }
    } else if month == 4 || month == 6 || month == 9 || month == 11 {
        30
    } else {
        31
    }
}

/// The day after `d`.
pub open spec fn next_day(d: Day) -> Day {
    if d.day < days_in_month(d.year, d.month) {
        Day { day: d.day + 1, ..d }
    } else if d.month < 12 {
        Day { year: d.year, month: d.month + 1, day: 1 }
    } else {
        Day { year: d.year + 1, month: 1, day: 1 }
    }
}

/// The day before `d`.
pub open spec fn previous_day(d: Day) -> Day {
    if d.day > 1 {
        Day { day: d.day - 1, ..d }
    } else if d.month > 1 {
        Day { year: d.year, month: d.month - 1, day: days_in_month(d.year, d.month - 1) }
    } else {
        Day { year: d.year - 1, month: 12, day: 31 }
    }
}

/// The day `n` days after `d`; before it, for a negative `n`.
pub open spec fn shift_days(d: Day, n: int) -> Day
    decreases
            if n >= 0 {
                n
            } else {
                -n
            },
{
    if n > 0 {
        shift_days(next_day(d), n - 1)
    } else if n < 0 {
        shift_days(previous_day(d), n + 1)
    } else {
        d
    }
}

impl Timestamp {
    /// The fields name a day and a minute of it.
    pub open spec fn has_minute(self) -> bool {
        self.has_date() && self.hour <= 23 && self.minute <= 59
    }

    /// The day that a clock `offset_minutes` ahead of UTC shows at this
    /// time: the day of the timestamp, or as many days on or back as the
    /// offset carries the time of day over midnight. None for a timestamp
    /// whose fields name no minute of a day.
    pub open spec fn local_day(self, offset_minutes: int) -> Option<Day> {
        if self.has_minute() {
            Some(
                shift_days(
                    Day { year: self.year as int, month: self.month as int, day: self.day as int },
                    (self.hour * 60 + self.minute + offset_minutes) / 1440,
                ),
            )
        } else {
            None
        }
    }

    /// Computes [`Timestamp::local_day`].
    pub fn local_date(&self, offset_minutes: i32) -> (r: Option<Date>)
        ensures
            option_view(r) == self.local_day(offset_minutes as int),
    {
        if !(self.is_dated() && self.hour <= 23 && self.minute <= 59) {
            return None;
        }
        let minutes: i64 = self.hour as i64 * 60 + self.minute as i64 + offset_minutes as i64;
        let days: i64 = if minutes >= 0 {
            minutes / 1440
        } else {
            -((1439 - minutes) / 1440)
        };
        assert(days == (self.hour * 60 + self.minute + offset_minutes) / 1440);
        let mut date = Date { year: self.year, month: self.month, day: self.day };
        let ghost start = date@;
        let mut left: i64 = days;
        if days >= 0 {
            while left > 0
                invariant
                    0 <= left <= days <= 1_500_000,
                    0 <= date.year <= 9999 + (days - left),
                    1 <= date.month <= 12,
                    1 <= date.day <= 31,
                    shift_days(date@, left as int) == shift_days(start, days as int),
                decreases left,
            {
                date = day_after(date);
                left = left - 1;
            }
        } else {
            while left < 0
                invariant
                    -1_500_000 <= days <= left <= 0,
                    days - left <= date.year <= 9999,
                    1 <= date.month <= 12,
                    1 <= date.day <= 31,
                    shift_days(date@, left as int) == shift_days(start, days as int),
                decreases -left,
            {
                date = day_before(date);
                left = left + 1;
            }
        }
        Some(date)
    }
}

/// Whether the year has a 29th of February.
pub fn is_leap_year(year: i32) -> (b: bool)
    ensures
        b == leap_year(year as int),
{
    year % 4 == 0 && (year % 100 != 0 || year % 400 == 0)
}

/// The number of days of the month `month` of the year `year`.
pub fn month_length(year: i32, month: u32) -> (n: u32)
    ensures
        n == days_in_month(year as int, month as int),
        28 <= n <= 31,
{
    if month == 2 {
        if is_leap_year(year) {
            29
        } else {
            28
        }
    } else if month == 4 || month == 6 || month == 9 || month == 11 {
        30
    } else {
        31
    }
}

/// The day after `d`.
fn day_after(d: Date) -> (r: Date)
    requires
        d.year < i32::MAX,
        1 <= d.month <= 12,
        1 <= d.day <= 31,
    ensures
        r@ == next_day(d@),
        d.year <= r.year <= d.year + 1,
        1 <= r.month <= 12,
        1 <= r.day <= 31,
{
    if d.day < month_length(d.year, d.month) {
        Date { year: d.year, month: d.month, day: d.day + 1 }
    } else if d.month < 12 {
        Date { year: d.year, month: d.month + 1, day: 1 }
    } else {
        Date { year: d.year + 1, month: 1, day: 1 }
    }
}

/// The day before `d`.
fn day_before(d: Date) -> (r: Date)
    requires
        d.year > i32::MIN,
        1 <= d.month <= 12,
        1 <= d.day <= 31,
    ensures
        r@ == previous_day(d@),
        d.year - 1 <= r.year <= d.year,
        1 <= r.month <= 12,
        1 <= r.day <= 31,
{
    if d.day > 1 {
        Date { year: d.year, month: d.month, day: d.day - 1 }
    } else if d.month > 1 {
        Date { year: d.year, month: d.month - 1, day: month_length(d.year, d.month - 1) }
    } else {
        Date { year: d.year - 1, month: 12, day: 31 }
    }
}

/// `seconds` is a number that `chrono::DateTime::timestamp` can give: a
/// count of days that 32 bits hold, less the 719 163 days up to 1970, times
/// the 86 400 seconds of a day, plus seconds of the day that 32 bits hold.
pub open spec fn timestamp_range(seconds: int) -> bool {
    (i32::MIN - 719_163) * 86_400 <= seconds <= (i32::MAX - 719_163) * 86_400 + u32::MAX
}

/// The current time in UTC, once as calendar fields and once as whole
/// seconds since the start of 1970: `chrono::Utc::now`, read through the
/// field accessors of `chrono::Datelike` and `chrono::Timelike` and through
/// `DateTime::timestamp`.
///
/// Trusted: the field ranges are those the accessors document (months 1 to
/// 12, days 1 to 31, hours 0 to 23, minutes and seconds 0 to 59, nanoseconds
/// below two billion, the second billion standing for a leap second). The
/// number of seconds lies in [`timestamp_range`], which is what the source
/// of `DateTime::timestamp` shows of it: it is computed as `(days - 719_163)
/// * 86_400 + seconds_of_day` from a day count of type `i32` and seconds of
/// the day of type `u32`. Nothing is claimed of the year, nor that the two
/// results tell the same time in any other sense than that both were read
/// off one call of `Utc::now`. `Utc::now` panics when the system clock is
/// set before 1970.
#[verifier::external_body]
pub(crate) fn clock() -> (r: (Timestamp, i64))
    ensures
        1 <= r.0.month <= 12,
        1 <= r.0.day <= 31,
        r.0.hour <= 23,
        r.0.minute <= 59,
        r.0.second <= 59,
        r.0.nanosecond < 2_000_000_000,
        timestamp_range(r.1 as int),
{
    let n = chrono::Utc::now();
    let fields = Timestamp {
        year: n.year(),
        month: n.month(),
        day: n.day(),
        hour: n.hour(),
        minute: n.minute(),
        second: n.second(),
        nanosecond: n.nanosecond(),
    };
    (fields, n.timestamp())
}

/// The current time in UTC as the clock gives it.
pub(crate) fn now() -> (t: Timestamp)
    ensures
        1 <= t.month <= 12,
        1 <= t.day <= 31,
        t.hour <= 23,
        t.minute <= 59,
        t.second <= 59,
        t.nanosecond < 2_000_000_000,
{
    clock().0
}

/// The current time in whole seconds since the start of 1970 in UTC as the
/// clock gives it: a number in [`timestamp_range`], far enough from the ends
/// of 64 bits for any span of days to be added to it.
pub(crate) fn unix_now() -> (seconds: i64)
    ensures
        timestamp_range(seconds as int),
{
    clock().1
}

} // verus!
