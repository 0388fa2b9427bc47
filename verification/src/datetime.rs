//! Calendar instants in UTC, held by their civil fields, and the calendar
//! arithmetic that the reporting periods are built from.

use chrono::{Datelike, TimeZone, Timelike};
use vstd::prelude::*;

verus! {

/// Smallest year that a calendar date can carry.
pub const MIN_YEAR: i32 = -262143;

/// Largest year that a calendar date can carry.
pub const MAX_YEAR: i32 = 262142;

/// Whether `year` is a leap year of the proleptic Gregorian calendar.
pub open spec fn is_leap_year(year: int) -> bool {
    year % 4 == 0 && (year % 100 != 0 || year % 400 == 0)
}

/// Number of days of `month` (1 to 12) in `year`.
pub open spec fn days_in_month(year: int, month: int) -> int {
    if month == 2 {
        if is_leap_year(year) {
            29
        } else {
            28
        }
    } else if month == 4 || month == 6 || month == 9 || month == 11 {
        30
    } else {
        31
    }
}

/// Whether year, month and day name an existing day within the supported years.
pub open spec fn is_calendar_date(year: int, month: int, day: int) -> bool {
    &&& MIN_YEAR <= year <= MAX_YEAR
    &&& 1 <= month <= 12
    &&& 1 <= day <= days_in_month(year, month)
}

/// Whether the fields name a time of day; a leap second is written as second
/// 59 with a nanosecond of one billion or more.
pub open spec fn is_time_of_day(hour: int, minute: int, second: int, nanosecond: int) -> bool {
    &&& 0 <= hour < 24
    &&& 0 <= minute < 60
    &&& 0 <= second < 60
    &&& 0 <= nanosecond < 2_000_000_000
    &&& (nanosecond >= 1_000_000_000 ==> second == 59)
}

/// An instant in UTC, by its calendar fields.
#[derive(Clone, Copy, Debug, PartialEq, Eq, Structural)]
pub struct DateTime {
    pub year: i32,
    pub month: u32,
    pub day: u32,
    pub hour: u32,
    pub minute: u32,
    pub second: u32,
    pub nanosecond: u32,
}

/// What a time zone makes of a local date and time.
#[derive(Clone, Copy, Debug, PartialEq, Eq, Structural)]
pub enum LocalTime {
    /// No instant has these fields.
    Missing,
    /// Exactly one instant has them.
    Single(DateTime),
    /// More than one instant has them.
    Ambiguous,
}

impl DateTime {
    /// The fields name an existing instant.
    pub open spec fn is_valid(self) -> bool {
        &&& is_calendar_date(self.year as int, self.month as int, self.day as int)
        &&& is_time_of_day(
            self.hour as int,
            self.minute as int,
            self.second as int,
            self.nanosecond as int,
        )
    }

    /// `self` is not later than `other`: the fields compared in order, the
    /// year first.
    pub open spec fn at_or_before(self, other: DateTime) -> bool {
        if self.year != other.year {
            self.year < other.year
        } else if self.month != other.month {
            self.month < other.month
        } else if self.day != other.day {
            self.day < other.day
        } else if self.hour != other.hour {
            self.hour < other.hour
        } else if self.minute != other.minute {
            self.minute < other.minute
        } else if self.second != other.second {
            self.second < other.second
        } else {
            self.nanosecond <= other.nanosecond
        }
    }

    /// `self` is earlier than `other`.
    pub open spec fn before(self, other: DateTime) -> bool {
        self.at_or_before(other) && self != other
    }

    /// The first instant of the same day.
    pub open spec fn midnight(self) -> DateTime {
        DateTime { hour: 0, minute: 0, second: 0, nanosecond: 0, ..self }
    }

    /// `self` moved forward by `months` calendar months: the day is kept, or
    /// is the last day of the month reached where that month is shorter; the
    /// time of day is kept. `None` where the year reached is past `MAX_YEAR`.
    pub open spec fn plus_months(self, months: int) -> Option<DateTime> {
        let index = self.year * 12 + (self.month - 1) + months;
        let year = index / 12;
        let month = index % 12 + 1;
        let last = days_in_month(year, month);
        let day = if self.day > last {
            last
        } else {
            self.day as int
        };
        if MIN_YEAR <= year <= MAX_YEAR {
            Some(DateTime { year: year as i32, month: month as u32, day: day as u32, ..self })
        } else {
            None
        }
    }

    /// Whether `self` is a leap second after the last second of the last
    /// supported year: the one instant that has valid fields and still lies
    /// past the latest instant there is.
    pub open spec fn is_past_the_last_instant(self) -> bool {
        &&& self.year == MAX_YEAR
        &&& self.month == 12
        &&& self.day == 31
        &&& self.hour == 23
        &&& self.minute == 59
        &&& self.second == 59
        &&& self.nanosecond >= 1_000_000_000
    }

    /// `self` with its year replaced and every other field kept. `None` where
    /// that day does not exist in `year`, where `year` is out of range, or
    /// where the instant reached would lie past the latest instant there is.
    pub open spec fn in_year(self, year: int) -> Option<DateTime> {
        if is_calendar_date(year, self.month as int, self.day as int) && !(DateTime {
            year: year as i32,
            ..self
        }).is_past_the_last_instant() {
            Some(DateTime { year: year as i32, ..self })
        } else {
            None
        }
    }

    /// Whether the fields name an existing instant.
    pub fn check_valid(&self) -> (r: bool)
        ensures
            r == self.is_valid(),
    {
        if self.year < MIN_YEAR || self.year > MAX_YEAR || self.month < 1 || self.month > 12 {
            return false;
        }
        let leap = self.year % 4 == 0 && (self.year % 100 != 0 || self.year % 400 == 0);
        let last: u32 = if self.month == 2 {
            if leap {
                29
            } else {
                28
            }
        } else if self.month == 4 || self.month == 6 || self.month == 9 || self.month == 11 {
            30
        } else {
            31
        };
        self.day >= 1 && self.day <= last && self.hour < 24 && self.minute < 60 && self.second < 60
            && self.nanosecond < 2_000_000_000 && (self.nanosecond < 1_000_000_000 || self.second
            == 59)
    }

    /// Whether `self` is not later than `other`.
    pub fn is_at_or_before(&self, other: &DateTime) -> (r: bool)
        ensures
            r == self.at_or_before(*other),
    {
        if self.year != other.year {
            self.year < other.year
        } else if self.month != other.month {
            self.month < other.month
        } else if self.day != other.day {
            self.day < other.day
        } else if self.hour != other.hour {
            self.hour < other.hour
        } else if self.minute != other.minute {
            self.minute < other.minute
        } else if self.second != other.second {
            self.second < other.second
        } else {
            self.nanosecond <= other.nanosecond
        }
    }

    /// Whether `self` is earlier than `other`.
    pub fn is_before(&self, other: &DateTime) -> (r: bool)
        ensures
            r == self.before(*other),
    {
        self.is_at_or_before(other) && !other.is_at_or_before(self)
    }
}

/// Of two instants, one is not later than the other.
pub proof fn lemma_order_total(a: DateTime, b: DateTime)
    ensures
        a.at_or_before(b) || b.at_or_before(a),
{
}

/// What is not later than an instant is not later than any instant after it.
pub proof fn lemma_order_transitive(a: DateTime, b: DateTime, c: DateTime)
    requires
        a.at_or_before(b),
        b.at_or_before(c),
    ensures
        a.at_or_before(c),
{
}

/// The text that `chrono::DateTime::<Utc>::to_rfc3339` gives for the instant.
pub uninterp spec fn rfc3339_text(at: DateTime) -> Seq<char>;

/// What UTC makes of a date and a time of day given to the second: the one
/// instant with those fields where the day and the time exist, nothing
/// otherwise.
pub open spec fn utc_local_time(
    year: i32,
    month: u32,
    day: u32,
    hour: u32,
    minute: u32,
    second: u32,
) -> LocalTime {
    if is_calendar_date(year as int, month as int, day as int) && hour < 24 && minute < 60
        && second < 60 {
        LocalTime::Single(DateTime { year, month, day, hour, minute, second, nanosecond: 0 })
    } else {
        LocalTime::Missing
    }
}

/// `chrono::TimeZone::with_ymd_and_hms` on `chrono::Utc`. An existing day and
/// time of day give the one instant with those fields and no fraction of a
/// second; anything else gives `None`. UTC is never ambiguous.
#[verifier::external_body]
pub(crate) fn utc_with_ymd_and_hms(
    year: i32,
    month: u32,
    day: u32,
    hour: u32,
    minute: u32,
    second: u32,
) -> (r: LocalTime)
    ensures
        r == utc_local_time(year, month, day, hour, minute, second),
{
    match chrono::Utc.with_ymd_and_hms(year, month, day, hour, minute, second) {
        chrono::LocalResult::None => LocalTime::Missing,
        chrono::LocalResult::Single(t) => LocalTime::Single(
            DateTime {
                year: t.year(),
                month: t.month(),
                day: t.day(),
                hour: t.hour(),
                minute: t.minute(),
                second: t.second(),
                nanosecond: t.nanosecond(),
            },
        ),
        chrono::LocalResult::Ambiguous(_, _) => LocalTime::Ambiguous,
    }
}

/// `chrono::DateTime::<Utc>::checked_add_months`: the instant moved forward by
/// whole calendar months, the day clamped to the length of the month reached,
/// the time of day kept; `None` past the last supported year.
#[verifier::external_body]
pub(crate) fn utc_checked_add_months(at: DateTime, months: u32) -> (r: Option<DateTime>)
    requires
        at.is_valid(),
    ensures
        r == at.plus_months(months as int),
{
    let day = chrono::NaiveDate::from_ymd_opt(at.year, at.month, at.day).unwrap();
    let t = day.and_hms_nano_opt(at.hour, at.minute, at.second, at.nanosecond).unwrap().and_utc();
    let t = t.checked_add_months(chrono::Months::new(months))?;
    Some(
        DateTime {
            year: t.year(),
            month: t.month(),
            day: t.day(),
            hour: t.hour(),
            minute: t.minute(),
            second: t.second(),
            nanosecond: t.nanosecond(),
        },
    )
}

/// `chrono::Datelike::with_year` on a `chrono::DateTime<Utc>`: the same month,
/// day and time of day in another year; `None` where that day does not exist
/// there (29 February outside a leap year), where the year is not supported,
/// or where the result would lie past `DateTime::<Utc>::MAX_UTC`, which is
/// the case for a leap second at the very end of the last supported year.
#[verifier::external_body]
pub(crate) fn utc_with_year(at: DateTime, year: i32) -> (r: Option<DateTime>)
    requires
        at.is_valid(),
    ensures
        r == at.in_year(year as int),
{
    let day = chrono::NaiveDate::from_ymd_opt(at.year, at.month, at.day).unwrap();
    let t = day.and_hms_nano_opt(at.hour, at.minute, at.second, at.nanosecond).unwrap().and_utc();
    let t = t.with_year(year)?;
    Some(
        DateTime {
            year: t.year(),
            month: t.month(),
            day: t.day(),
            hour: t.hour(),
            minute: t.minute(),
            second: t.second(),
            nanosecond: t.nanosecond(),
        },
    )
}

/// The instant that `chrono::DateTime::<Utc>::checked_sub_days` gives for
/// `at` and a number of days, where it gives one.
pub uninterp spec fn days_before(at: DateTime, days: int) -> Option<DateTime>;

/// `chrono::DateTime::<Utc>::checked_sub_days`: the instant a number of whole
/// days earlier, at the same time of day; `None` where the calendar does not
/// reach that far back.
#[verifier::external_body]
pub(crate) fn utc_checked_sub_days(at: DateTime, days: u32) -> (r: Option<DateTime>)
    requires
        at.is_valid(),
    ensures
        r == days_before(at, days as int),
{
    let day = chrono::NaiveDate::from_ymd_opt(at.year, at.month, at.day).unwrap();
    let t = day.and_hms_nano_opt(at.hour, at.minute, at.second, at.nanosecond).unwrap().and_utc();
    let t = t.checked_sub_days(chrono::Days::new(days.into()))?;
    Some(
        DateTime {
            year: t.year(),
            month: t.month(),
            day: t.day(),
            hour: t.hour(),
            minute: t.minute(),
            second: t.second(),
            nanosecond: t.nanosecond(),
        },
    )
}

/// `chrono::DateTime::<Utc>::to_rfc3339`: the instant as RFC 3339 text.
#[verifier::external_body]
pub(crate) fn utc_to_rfc3339(at: DateTime) -> (r: String)
    requires
        at.is_valid(),
    ensures
        r@ == rfc3339_text(at),
{
    let day = chrono::NaiveDate::from_ymd_opt(at.year, at.month, at.day).unwrap();
    let t = day.and_hms_nano_opt(at.hour, at.minute, at.second, at.nanosecond).unwrap().and_utc();
    t.to_rfc3339()
}

} // verus!
