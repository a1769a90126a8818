//! Week numbers: weeks of the year from a start day, and ISO 8601 weeks.

use vstd::prelude::*;

verus! {

/// Start day of the week.
#[derive(Debug, Copy, Clone, PartialEq, Eq, Structural)]
pub enum WeekStart {
    /// Sunday.
    Sunday,
    /// Monday.
    Monday,
}

impl WeekStart {
    /// Day of the week (from Sunday) that starts a week.
    pub open spec fn day(self) -> int {
        match self {
            WeekStart::Sunday => 0,
            WeekStart::Monday => 1,
        }
    }
}

/// Remainder of a division by seven that truncates toward zero, as Rust's `%`.
pub open spec fn trunc_rem7(a: int) -> int {
    if a >= 0 {
        a % 7
    } else {
        -((-a) % 7)
    }
}

/// Week of the year (from zero), where week one begins on the first
/// `start` day of the year.
pub open spec fn week_number_of(week_day: int, year_day_1: int, start: WeekStart) -> int {
    let year_day = year_day_1 - 1;
    let start_of_first_week = (year_day - week_day + start.day()) % 7;
    (year_day + 7 - start_of_first_week) / 7
}

/// Leap years of the Gregorian calendar.
pub open spec fn is_leap(year: int) -> bool {
    year % 400 == 0 || (year % 4 == 0 && year % 100 != 0)
}

/// Day of the year (from zero) of the Monday that starts ISO week one,
/// relative to the year of `year_day`; it lies in `-3..=3`.
pub open spec fn iso_first_monday(week_day: int, year_day: int) -> int {
    let s = (year_day - week_day + 1) % 7;
    if s > 3 {
        s - 7
    } else {
        s
    }
}

/// ISO year and week of `year_day` (from zero), given that the day does not
/// fall before the first ISO week of `year`.
pub open spec fn iso_within(year: int, week_day: int, year_day: int) -> (int, int) {
    let start = iso_first_monday(week_day, year_day);
    let week = (year_day + 7 - start) / 7;
    let last_year_day: int = if is_leap(year) { 365 } else { 364 };
    let last_week_day = trunc_rem7(week_day + last_year_day - year_day);
    if week >= 52 && 1 <= last_week_day <= 3 && year_day >= last_year_day - (last_week_day - 1) {
        (year + 1, 1)
    } else {
        (year, week)
    }
}

/// ISO 8601 week-based year and week number of a day: week one of a year is
/// the week (from Monday) that holds its first Thursday; the days before it
/// belong to the last week of the previous year.
pub open spec fn iso_year_week(year: int, week_day: int, year_day_1: int) -> (int, int) {
    let year_day = year_day_1 - 1;
    if year_day < iso_first_monday(week_day, year_day) {
        let previous_year_day: int = if is_leap(year - 1) { 366 + year_day } else { 365 + year_day };
        iso_within(year - 1, week_day, previous_year_day)
    } else {
        iso_within(year, week_day, year_day)
    }
}

/// Compute the week number, beginning at the provided start day of the week.
///
/// `week_day` is the day of the week from Sunday, `year_day_1` the day of the
/// year from one; both may lie anywhere in the range of their accessor type.
pub fn week_number(week_day: i64, year_day_1: i64, week_start: WeekStart) -> (r: i64)
    requires
        0 <= week_day <= 255,
        0 <= year_day_1 <= 65535,
    ensures
        r == week_number_of(week_day as int, year_day_1 as int, week_start),
{
    let year_day = year_day_1 - 1;
    let offset: i64 = match week_start {
        WeekStart::Sunday => 0,
        WeekStart::Monday => 1,
    };
    // A multiple of seven keeps the dividend non-negative.
    let start_of_first_week = (year_day - week_day + offset + 259) % 7;
    assert((year_day - week_day + offset + 259) % 7 == (year_day - week_day + offset) % 7)
        by (nonlinear_arith);
    (year_day + 7 - start_of_first_week) / 7
}

/// Check if a year is a leap year.
pub fn is_leap_year(year: i64) -> (r: bool)
    requires
        i32::MIN - 1 <= year <= i32::MAX,
    ensures
        r == is_leap(year as int),
{
    // A multiple of 400 keeps the dividend non-negative.
    let y = (year + 3355443200) as u64;
    assert(y % 400 == (year as int) % 400) by (nonlinear_arith)
        requires y == year + 3355443200;
    assert(y % 100 == (year as int) % 100) by (nonlinear_arith)
        requires y == year + 3355443200;
    assert(y % 4 == (year as int) % 4) by (nonlinear_arith)
        requires y == year + 3355443200;
    y % 400 == 0 || (y % 4 == 0 && y % 100 != 0)
}

/// Compute the ISO 8601 week-based year and week number.
///
/// The first week of a year starts with a Monday and includes its January 4th.
/// The days in the year before the first week are in the last week of the
/// previous year.
pub fn iso_8601_year_and_week_number(year: i64, week_day: i64, year_day_1: i64) -> (r: (i64, i64))
    requires
        i32::MIN <= year <= i32::MAX,
        0 <= week_day <= 255,
        0 <= year_day_1 <= 65535,
    ensures
        (r.0 as int, r.1 as int) == iso_year_week(year as int, week_day as int, year_day_1 as int),
{
    let year_day = year_day_1 - 1;
    let start_of_first_week = iso_start(week_day, year_day);
    if year_day < start_of_first_week {
        // Use previous year
        let previous_year = year - 1;
        let previous_year_day = if is_leap_year(previous_year) {
            366 + year_day
        } else {
            365 + year_day
        };
        iso_in_year(previous_year, week_day, previous_year_day)
    } else {
        iso_in_year(year, week_day, year_day)
    }
}

fn iso_in_year(year: i64, week_day: i64, year_day: i64) -> (r: (i64, i64))
    requires
        i32::MIN - 1 <= year <= i32::MAX,
        0 <= week_day <= 255,
        -1 <= year_day <= 65535 + 366,
    ensures
        (r.0 as int, r.1 as int) == iso_within(year as int, week_day as int, year_day as int),
{
    let start_of_first_week = iso_start(week_day, year_day);
    let week_number = (year_day + 7 - start_of_first_week) / 7;
    let last_year_day: i64 = if is_leap_year(year) { 365 } else { 364 };
    let week_day_of_last_year_day = (week_day + last_year_day - year_day) % 7;
    if week_number >= 52 && 1 <= week_day_of_last_year_day && week_day_of_last_year_day <= 3 {
        let last_monday = last_year_day - (week_day_of_last_year_day - 1);
        if year_day >= last_monday {
            // Use next year
            return (year + 1, 1);
        }
    }
    // Use current year
    (year, week_number)
}

fn iso_start(week_day: i64, year_day: i64) -> (r: i64)
    requires
        0 <= week_day <= 255,
        -1 <= year_day <= 65535 + 366,
    ensures
        r == iso_first_monday(week_day as int, year_day as int),
        -3 <= r <= 3,
{
    let s = (year_day - week_day + 1 + 259) % 7;
    assert((year_day - week_day + 1 + 259) % 7 == (year_day - week_day + 1) % 7)
        by (nonlinear_arith);
    if s > 3 {
        s - 7
    } else {
        s
    }
}

} // verus!
