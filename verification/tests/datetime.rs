use thunes::budget::{reset_datetime_hms, ExpensesPeriod};
use thunes::datetime::{DateTime, MAX_YEAR, MIN_YEAR};
use thunes::{ChronoLocalResultError, Error};

fn at(year: i32, month: u32, day: u32, hour: u32, minute: u32, second: u32) -> DateTime {
    DateTime { year, month, day, hour, minute, second, nanosecond: 0 }
}

fn day(year: i32, month: u32, day: u32) -> DateTime {
    at(year, month, day, 0, 0, 0)
}

const MISSING: Error = Error::Time(ChronoLocalResultError::Missing);

#[test]
fn instants_are_ordered_by_their_fields() {
    let a = day(2024, 1, 31);
    let b = day(2024, 2, 1);
    assert!(a.is_at_or_before(&b));
    assert!(!b.is_at_or_before(&a));
    assert!(a.is_at_or_before(&a));
    assert!(a.is_before(&b));
    assert!(!a.is_before(&a));
    assert!(at(2024, 1, 31, 23, 59, 59).is_before(&b));
    let late = DateTime { nanosecond: 1, ..a };
    assert!(a.is_before(&late));
    assert!(day(2023, 12, 31).is_before(&day(2024, 1, 1)));
}

#[test]
fn only_existing_instants_are_valid() {
    assert!(day(2024, 2, 29).check_valid());
    assert!(!day(2023, 2, 29).check_valid());
    assert!(!day(1900, 2, 29).check_valid());
    assert!(day(2000, 2, 29).check_valid());
    assert!(!day(2024, 4, 31).check_valid());
    assert!(!day(2024, 0, 1).check_valid());
    assert!(!day(2024, 13, 1).check_valid());
    assert!(!day(2024, 1, 0).check_valid());
    assert!(!at(2024, 1, 1, 24, 0, 0).check_valid());
    assert!(!at(2024, 1, 1, 0, 60, 0).check_valid());
    assert!(!at(2024, 1, 1, 0, 0, 60).check_valid());
    assert!(day(MAX_YEAR, 12, 31).check_valid());
    assert!(!day(MAX_YEAR + 1, 1, 1).check_valid());
    assert!(day(MIN_YEAR, 1, 1).check_valid());
    assert!(!day(MIN_YEAR - 1, 1, 1).check_valid());
    let leap_second =
        DateTime { year: 2016, month: 12, day: 31, hour: 23, minute: 59, second: 59, nanosecond: 1_500_000_000 };
    assert!(leap_second.check_valid());
    let no_leap_second = DateTime { second: 58, ..leap_second };
    assert!(!no_leap_second.check_valid());
    let too_long = DateTime { nanosecond: 2_000_000_000, ..leap_second };
    assert!(!too_long.check_valid());
}

#[test]
fn an_anchor_is_brought_back_to_midnight() {
    assert_eq!(reset_datetime_hms(at(2024, 3, 15, 13, 37, 42)), Ok(day(2024, 3, 15)));
    let fraction = DateTime { nanosecond: 999, ..at(2024, 3, 15, 13, 37, 42) };
    assert_eq!(reset_datetime_hms(fraction), Ok(day(2024, 3, 15)));
    assert_eq!(reset_datetime_hms(day(2024, 2, 29)), Ok(day(2024, 2, 29)));
}

#[test]
fn the_first_and_the_last_day_of_the_calendar_are_days() {
    assert_eq!(reset_datetime_hms(at(MIN_YEAR, 1, 1, 5, 0, 0)), Ok(day(MIN_YEAR, 1, 1)));
    assert_eq!(reset_datetime_hms(at(MAX_YEAR, 12, 31, 5, 0, 0)), Ok(day(MAX_YEAR, 12, 31)));
    assert_eq!(reset_datetime_hms(day(MIN_YEAR - 1, 12, 31)), Err(MISSING));
    assert_eq!(
        ExpensesPeriod::Yearly.into_datetime(day(MIN_YEAR, 1, 1)),
        Ok((day(MIN_YEAR, 1, 1), day(MIN_YEAR + 1, 1, 1)))
    );
    assert_eq!(
        ExpensesPeriod::Monthly.into_datetime(day(-1, 12, 31)),
        Ok((day(-1, 12, 31), day(0, 1, 31)))
    );
    assert_eq!(
        ExpensesPeriod::Trimestrial.into_datetime(day(-1, 11, 30)),
        Ok((day(-1, 11, 30), day(0, 2, 29)))
    );
}

#[test]
fn a_leap_second_keeps_its_fraction_through_the_window() {
    let start = DateTime { year: 2016, month: 12, day: 31, hour: 23, minute: 59, second: 59, nanosecond: 1_500_000_000 };
    let end = DateTime { year: 2017, month: 1, day: 31, ..start };
    assert_eq!(ExpensesPeriod::Monthly.into_datetime(start), Ok((start, end)));
    let next = DateTime { year: 2017, ..start };
    assert_eq!(ExpensesPeriod::Yearly.into_datetime(start), Ok((start, next)));
}

#[test]
fn an_anchor_on_no_day_fails() {
    assert_eq!(reset_datetime_hms(day(2023, 2, 29)), Err(MISSING));
    assert_eq!(reset_datetime_hms(day(2024, 13, 1)), Err(MISSING));
    assert_eq!(reset_datetime_hms(day(2024, 6, 31)), Err(MISSING));
    assert_eq!(reset_datetime_hms(day(MAX_YEAR + 1, 1, 1)), Err(MISSING));
}

#[test]
fn an_anchor_with_an_impossible_time_still_has_a_day() {
    assert_eq!(reset_datetime_hms(at(2024, 3, 15, 99, 99, 99)), Ok(day(2024, 3, 15)));
}

#[test]
fn a_monthly_window_ends_one_calendar_month_later() {
    let p = ExpensesPeriod::Monthly;
    assert_eq!(p.into_datetime(day(2024, 3, 1)), Ok((day(2024, 3, 1), day(2024, 4, 1))));
    assert_eq!(p.into_datetime(day(2024, 12, 15)), Ok((day(2024, 12, 15), day(2025, 1, 15))));
    assert_eq!(p.into_datetime(day(2024, 1, 31)), Ok((day(2024, 1, 31), day(2024, 2, 29))));
    assert_eq!(p.into_datetime(day(2023, 1, 31)), Ok((day(2023, 1, 31), day(2023, 2, 28))));
    assert_eq!(p.into_datetime(day(2024, 3, 31)), Ok((day(2024, 3, 31), day(2024, 4, 30))));
}

#[test]
fn a_trimestrial_window_ends_three_calendar_months_later() {
    let p = ExpensesPeriod::Trimestrial;
    assert_eq!(p.into_datetime(day(2024, 3, 1)), Ok((day(2024, 3, 1), day(2024, 6, 1))));
    assert_eq!(p.into_datetime(day(2023, 11, 30)), Ok((day(2023, 11, 30), day(2024, 2, 29))));
    assert_eq!(p.into_datetime(day(2024, 11, 30)), Ok((day(2024, 11, 30), day(2025, 2, 28))));
    assert_eq!(p.into_datetime(day(2024, 10, 31)), Ok((day(2024, 10, 31), day(2025, 1, 31))));
}

#[test]
fn a_yearly_window_ends_on_the_same_day_of_the_next_year() {
    let p = ExpensesPeriod::Yearly;
    assert_eq!(p.into_datetime(day(2024, 3, 1)), Ok((day(2024, 3, 1), day(2025, 3, 1))));
    assert_eq!(p.into_datetime(day(2023, 2, 28)), Ok((day(2023, 2, 28), day(2024, 2, 28))));
}

#[test]
fn a_yearly_window_from_a_leap_day_fails_where_twelve_months_would_not() {
    assert_eq!(ExpensesPeriod::Yearly.into_datetime(day(2024, 2, 29)), Err(MISSING));
    assert_eq!(
        ExpensesPeriod::Monthly.into_datetime(day(2024, 2, 29)),
        Ok((day(2024, 2, 29), day(2024, 3, 29)))
    );
}

#[test]
fn a_window_keeps_the_time_of_day_of_its_start() {
    let start = DateTime { nanosecond: 5, ..at(2024, 3, 1, 7, 8, 9) };
    let end = DateTime { nanosecond: 5, ..at(2024, 4, 1, 7, 8, 9) };
    assert_eq!(ExpensesPeriod::Monthly.into_datetime(start), Ok((start, end)));
}

#[test]
fn a_window_past_the_last_year_fails() {
    assert_eq!(ExpensesPeriod::Monthly.into_datetime(day(MAX_YEAR, 12, 1)), Err(MISSING));
    assert_eq!(ExpensesPeriod::Trimestrial.into_datetime(day(MAX_YEAR, 10, 1)), Err(MISSING));
    assert_eq!(ExpensesPeriod::Yearly.into_datetime(day(MAX_YEAR, 1, 1)), Err(MISSING));
    assert_eq!(
        ExpensesPeriod::Monthly.into_datetime(day(MAX_YEAR, 11, 1)),
        Ok((day(MAX_YEAR, 11, 1), day(MAX_YEAR, 12, 1)))
    );
}

#[test]
fn a_window_from_no_instant_fails() {
    assert_eq!(ExpensesPeriod::Monthly.into_datetime(day(2023, 2, 30)), Err(MISSING));
    assert_eq!(ExpensesPeriod::Yearly.into_datetime(at(2024, 1, 1, 25, 0, 0)), Err(MISSING));
}

#[test]
fn resolving_starts_at_midnight() {
    assert_eq!(
        ExpensesPeriod::Monthly.resolve(at(2024, 3, 1, 18, 30, 0)),
        Ok((day(2024, 3, 1), day(2024, 4, 1)))
    );
    assert_eq!(ExpensesPeriod::Yearly.resolve(at(2024, 2, 29, 18, 30, 0)), Err(MISSING));
}

#[test]
fn the_factor_grows_with_the_period() {
    assert_eq!(ExpensesPeriod::Monthly.period_factor(), 1);
    assert_eq!(ExpensesPeriod::Trimestrial.period_factor(), 3);
    assert_eq!(ExpensesPeriod::Yearly.period_factor(), 12);
    let start = day(2024, 3, 1);
    let (_, month) = ExpensesPeriod::Monthly.into_datetime(start).unwrap();
    let (_, quarter) = ExpensesPeriod::Trimestrial.into_datetime(start).unwrap();
    let (_, year) = ExpensesPeriod::Yearly.into_datetime(start).unwrap();
    assert!(start.is_before(&month));
    assert!(month.is_before(&quarter));
    assert!(quarter.is_before(&year));
}

#[test]
fn the_failures_of_the_calendar_have_their_words() {
    assert_eq!(ChronoLocalResultError::Ambiguous.to_text(), "ambiguous");
    assert_eq!(ChronoLocalResultError::Missing.to_text(), "none");
    assert_eq!(Error::RecordNotFound.to_text(), "Record not found");
    assert_eq!(MISSING.to_text(), "none");
    assert_eq!(
        ChronoLocalResultError::from(thunes::datetime::LocalTime::Ambiguous),
        ChronoLocalResultError::Ambiguous
    );
    assert_eq!(
        ChronoLocalResultError::from(thunes::datetime::LocalTime::Missing),
        ChronoLocalResultError::Missing
    );
}

fn leap(year: i64) -> bool {
    year.rem_euclid(4) == 0 && (year.rem_euclid(100) != 0 || year.rem_euclid(400) == 0)
}

fn last_day(year: i64, month: i64) -> i64 {
    match month {
        2 if leap(year) => 29,
        2 => 28,
        4 | 6 | 9 | 11 => 30,
        _ => 31,
    }
}

/// The end of a window as the contracts describe it, worked out by hand.
fn expected_end(period: ExpensesPeriod, start: DateTime) -> Option<DateTime> {
    let (year, month, day) = match period {
        ExpensesPeriod::Yearly => {
            let year = start.year as i64 + 1;
            if start.day as i64 > last_day(year, start.month as i64) {
                return None;
            }
            let last_second = (start.month, start.day, start.hour, start.minute, start.second)
                == (12, 31, 23, 59, 59);
            if year == MAX_YEAR as i64 && last_second && start.nanosecond >= 1_000_000_000 {
                return None;
            }
            (year, start.month as i64, start.day as i64)
        }
        _ => {
            let months = if period == ExpensesPeriod::Monthly { 1 } else { 3 };
            let index = start.year as i64 * 12 + (start.month as i64 - 1) + months;
            let (year, month) = (index.div_euclid(12), index.rem_euclid(12) + 1);
            (year, month, (start.day as i64).min(last_day(year, month)))
        }
    };
    if year < MIN_YEAR as i64 || year > MAX_YEAR as i64 {
        return None;
    }
    Some(DateTime { year: year as i32, month: month as u32, day: day as u32, ..start })
}

#[test]
fn the_calendar_agrees_on_which_days_exist() {
    let mut years: Vec<i32> = (-420..=420).collect();
    years.extend([MIN_YEAR - 1, MIN_YEAR, MIN_YEAR + 1, -100_000, 1900, 2000, 2100, 100_000]);
    years.extend([MAX_YEAR - 1, MAX_YEAR, MAX_YEAR + 1, i32::MIN, i32::MAX]);
    for year in years {
        for month in 0..=13 {
            for d in [0, 1, 27, 28, 29, 30, 31, 32] {
                let date = day(year, month, d);
                assert_eq!(date.check_valid(), reset_datetime_hms(date).is_ok(), "{date:?}");
                if date.check_valid() {
                    assert_eq!(d as i64 <= last_day(year as i64, month as i64), true, "{date:?}");
                }
            }
        }
    }
}

#[test]
fn the_calendar_agrees_on_where_windows_end() {
    let mut years: Vec<i32> = (-410..=410).step_by(7).collect();
    years.extend([MIN_YEAR, -4, -1, 0, 1, 1899, 1900, 2000, 2023, 2024, 2100, MAX_YEAR - 1, MAX_YEAR]);
    for year in years {
        for month in 1..=12 {
            for d in [1, 15, 28, 29, 30, 31] {
                let start = at(year, month, d, 7, 8, 9);
                if !start.check_valid() {
                    continue;
                }
                for period in [ExpensesPeriod::Monthly, ExpensesPeriod::Trimestrial, ExpensesPeriod::Yearly] {
                    let got = period.into_datetime(start).ok().map(|(_, end)| end);
                    assert_eq!(got, expected_end(period, start), "{period:?} from {start:?}");
                    if let Some(end) = got {
                        assert!(end.check_valid());
                        assert!(start.is_before(&end));
                    }
                }
            }
        }
    }
}

#[test]
fn a_leap_second_after_the_last_second_of_the_calendar_is_no_end() {
    let second = DateTime { year: MAX_YEAR - 1, month: 12, day: 31, hour: 23, minute: 59, second: 59, nanosecond: 999_999_999 };
    let leap = DateTime { nanosecond: 1_000_000_000, ..second };
    assert!(leap.check_valid());
    assert_eq!(
        ExpensesPeriod::Yearly.into_datetime(second),
        Ok((second, DateTime { year: MAX_YEAR, ..second }))
    );
    assert_eq!(ExpensesPeriod::Yearly.into_datetime(leap), Err(MISSING));
    assert_eq!(ExpensesPeriod::Yearly.into_datetime(DateTime { nanosecond: 1_999_999_999, ..leap }), Err(MISSING));
    // The same leap second a year earlier has its end.
    let earlier = DateTime { year: MAX_YEAR - 2, ..leap };
    assert_eq!(
        ExpensesPeriod::Yearly.into_datetime(earlier),
        Ok((earlier, DateTime { year: MAX_YEAR - 1, ..leap }))
    );
    // So has a leap second on another day of the last year.
    let other_day = DateTime { year: MAX_YEAR - 1, day: 30, ..leap };
    assert_eq!(
        ExpensesPeriod::Yearly.into_datetime(other_day),
        Ok((other_day, DateTime { year: MAX_YEAR, ..other_day }))
    );
    for period in [ExpensesPeriod::Monthly, ExpensesPeriod::Trimestrial, ExpensesPeriod::Yearly] {
        for start in [second, leap, earlier, other_day] {
            let got = period.into_datetime(start).ok().map(|(_, end)| end);
            assert_eq!(got, expected_end(period, start), "{period:?} from {start:?}");
        }
    }
}

#[test]
fn months_keep_a_leap_second_up_to_the_end_of_the_calendar() {
    let leap = DateTime { year: MAX_YEAR, month: 11, day: 30, hour: 23, minute: 59, second: 59, nanosecond: 1_500_000_000 };
    assert_eq!(
        ExpensesPeriod::Monthly.into_datetime(leap),
        Ok((leap, DateTime { month: 12, ..leap }))
    );
    let autumn = DateTime { month: 9, ..leap };
    assert_eq!(
        ExpensesPeriod::Trimestrial.into_datetime(autumn),
        Ok((autumn, DateTime { month: 12, ..leap }))
    );
}
