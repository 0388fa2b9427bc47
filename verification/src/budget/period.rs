//! The periods over which expenses are reported: a month, three months or a
//! year from the first instant of a day, both ends included.

use crate::datetime::{
    is_calendar_date, utc_checked_add_months, utc_with_year, utc_with_ymd_and_hms, DateTime,
    LocalTime,
};
use crate::store::within;
use crate::{ChronoLocalResultError, Error};
use vstd::prelude::*;

verus! {

/// The length of a reporting period.
#[derive(Clone, Copy, Debug, PartialEq, Eq, Structural)]
pub enum ExpensesPeriod {
    Monthly,
    Trimestrial,
    Yearly,
}

/// The first instant of the day of `anchor`, as UTC has it.
pub open spec fn midnight_of(anchor: DateTime) -> Result<DateTime, Error> {
    if is_calendar_date(anchor.year as int, anchor.month as int, anchor.day as int) {
        Ok(anchor.midnight())
    } else {
        Err(Error::Time(ChronoLocalResultError::Missing))
    }
}

/// The instant that `anchor` names, brought back to the first instant of its
/// day. Fails where `anchor` names no day of the calendar.
pub fn reset_datetime_hms(anchor: DateTime) -> (r: Result<DateTime, Error>)
    ensures
        r == midnight_of(anchor),
{
    match utc_with_ymd_and_hms(anchor.year, anchor.month, anchor.day, 0, 0, 0) {
        LocalTime::Single(start) => Ok(start),
        other => Err(Error::Time(ChronoLocalResultError::from(other))),
    }
}

/// What the calendar answers when asked for an instant: the instant, or the
/// failure that stands for none.
pub open spec fn instant_or_missing(instant: Option<DateTime>) -> Result<DateTime, Error> {
    match instant {
        Some(t) => Ok(t),
        None => Err(Error::Time(ChronoLocalResultError::Missing)),
    }
}

impl ExpensesPeriod {
    /// By how much a monthly figure is multiplied to cover the period.
    pub open spec fn factor(self) -> int {
        match self {
            ExpensesPeriod::Monthly => 1,
            ExpensesPeriod::Trimestrial => 3,
            ExpensesPeriod::Yearly => 12,
        }
    }

    /// The end of the period that starts at `start`: one or three calendar
    /// months later, or the same day and time of the next year. There is no
    /// end where the calendar has no such instant.
    pub open spec fn end_from(self, start: DateTime) -> Result<DateTime, Error> {
        if !start.is_valid() {
            Err(Error::Time(ChronoLocalResultError::Missing))
        } else {
            match self {
                ExpensesPeriod::Monthly => instant_or_missing(start.plus_months(1)),
                ExpensesPeriod::Trimestrial => instant_or_missing(start.plus_months(3)),
                ExpensesPeriod::Yearly => instant_or_missing(start.in_year(start.year + 1)),
            }
        }
    }

    /// The window of the period that starts at `start`, both ends included.
    pub open spec fn window_from(self, start: DateTime) -> Result<(DateTime, DateTime), Error> {
        match self.end_from(start) {
            Ok(end) => Ok((start, end)),
            Err(e) => Err(e),
        }
    }

    /// The window of the period anchored at `anchor`: from the first instant
    /// of that day to the end of the period, both included.
    pub open spec fn window_at(self, anchor: DateTime) -> Result<(DateTime, DateTime), Error> {
        match midnight_of(anchor) {
            Ok(start) => self.window_from(start),
            Err(e) => Err(e),
        }
    }

    /// By how much a monthly figure is multiplied to cover the period.
    pub fn period_factor(&self) -> (r: i64)
        ensures
            r == self.factor(),
    {
        match self {
            ExpensesPeriod::Monthly => 1,
            ExpensesPeriod::Trimestrial => 3,
            ExpensesPeriod::Yearly => 12,
        }
    }

    /// The window of the period that starts at `start`. Fails where `start`
    /// is no instant, or where the calendar has no instant for the end: the
    /// year is past the last supported one, or, for a yearly period, the day
    /// does not exist in the next year or the end would be a leap second
    /// after the last second of the last supported year.
    pub fn into_datetime(&self, start: DateTime) -> (r: Result<(DateTime, DateTime), Error>)
        ensures
            r == self.window_from(start),
    {
        if !start.check_valid() {
            return Err(Error::Time(ChronoLocalResultError::Missing));
        }
        let end = match self {
            ExpensesPeriod::Monthly => utc_checked_add_months(start, 1),
            ExpensesPeriod::Trimestrial => utc_checked_add_months(start, 3),
            ExpensesPeriod::Yearly => utc_with_year(start, start.year + 1),
        };
        match end {
            Some(end) => Ok((start, end)),
            None => Err(Error::Time(ChronoLocalResultError::Missing)),
        }
    }

    /// The window of the period anchored at `anchor`.
    pub fn resolve(&self, anchor: DateTime) -> (r: Result<(DateTime, DateTime), Error>)
        ensures
            r == self.window_at(anchor),
    {
        match reset_datetime_hms(anchor) {
            Ok(start) => self.into_datetime(start),
            Err(e) => Err(e),
        }
    }
}

/// The factor grows with the length of the period: one for a month, three
/// for three months, twelve for a year; and wherever the three windows from
/// one start exist, the monthly one ends before the trimestrial one, which
/// ends before the yearly one.
pub proof fn lemma_factor_grows_with_window(start: DateTime)
    ensures
        ExpensesPeriod::Monthly.factor() == 1,
        ExpensesPeriod::Trimestrial.factor() == 3,
        ExpensesPeriod::Yearly.factor() == 12,
        ExpensesPeriod::Monthly.factor() < ExpensesPeriod::Trimestrial.factor()
            < ExpensesPeriod::Yearly.factor(),
        ExpensesPeriod::Monthly.end_from(start) is Ok ==> start.before(
            ExpensesPeriod::Monthly.end_from(start)->Ok_0,
        ),
        ExpensesPeriod::Monthly.end_from(start) is Ok && ExpensesPeriod::Trimestrial.end_from(
            start,
        ) is Ok ==> ExpensesPeriod::Monthly.end_from(start)->Ok_0.before(
            ExpensesPeriod::Trimestrial.end_from(start)->Ok_0,
        ),
        ExpensesPeriod::Trimestrial.end_from(start) is Ok && ExpensesPeriod::Yearly.end_from(
            start,
        ) is Ok ==> ExpensesPeriod::Trimestrial.end_from(start)->Ok_0.before(
            ExpensesPeriod::Yearly.end_from(start)->Ok_0,
        ),
{
}

/// The end of a window lies after its start.
pub proof fn lemma_window_end_follows_start(period: ExpensesPeriod, start: DateTime)
    requires
        period.end_from(start) is Ok,
    ensures
        start.before(period.end_from(start)->Ok_0),
        period.end_from(start)->Ok_0.is_valid(),
{
}

/// Of two windows of which the second starts where the first ends, both hold
/// the instant at which they meet: what is dated at that instant counts in
/// both.
pub proof fn lemma_adjacent_windows_share_their_boundary(
    period: ExpensesPeriod,
    next: ExpensesPeriod,
    start: DateTime,
)
    requires
        period.window_from(start) is Ok,
        next.window_from(period.window_from(start)->Ok_0.1) is Ok,
    ensures
        ({
            let first = period.window_from(start)->Ok_0;
            let second = next.window_from(first.1)->Ok_0;
            &&& second.0 == first.1
            &&& within(first.1, first.0, first.1)
            &&& within(first.1, second.0, second.1)
        }),
{
    let first = period.window_from(start)->Ok_0;
    lemma_window_end_follows_start(period, start);
    lemma_window_end_follows_start(next, first.1);
}

} // verus!
