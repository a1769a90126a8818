//! Range checks on the fields of a time implementation.

use crate::time::Time;
use crate::Error;
use vstd::prelude::*;

verus! {

/// Checks that a month is in `1..=12`.
pub fn check_month(v: u8) -> (r: Result<u8, Error>)
    ensures
        r == if 1 <= v <= 12 {
            Ok::<u8, Error>(v)
        } else {
            Err::<u8, Error>(Error::InvalidTime)
        },
{
    if 1 <= v && v <= 12 {
        Ok(v)
    } else {
        Err(Error::InvalidTime)
    }
}

/// Checks that a day of the month is in `1..=31`.
pub fn check_day(v: u8) -> (r: Result<u8, Error>)
    ensures
        r == if 1 <= v <= 31 {
            Ok::<u8, Error>(v)
        } else {
            Err::<u8, Error>(Error::InvalidTime)
        },
{
    if 1 <= v && v <= 31 {
        Ok(v)
    } else {
        Err(Error::InvalidTime)
    }
}

/// Checks that an hour of the day is in `0..=23`.
pub fn check_hour(v: u8) -> (r: Result<u8, Error>)
    ensures
        r == if v <= 23 {
            Ok::<u8, Error>(v)
        } else {
            Err::<u8, Error>(Error::InvalidTime)
        },
{
    if v <= 23 {
        Ok(v)
    } else {
        Err(Error::InvalidTime)
    }
}

/// Checks that a minute of the hour is in `0..=59`.
pub fn check_minute(v: u8) -> (r: Result<u8, Error>)
    ensures
        r == if v <= 59 {
            Ok::<u8, Error>(v)
        } else {
            Err::<u8, Error>(Error::InvalidTime)
        },
{
    if v <= 59 {
        Ok(v)
    } else {
        Err(Error::InvalidTime)
    }
}

/// Checks that a second of the minute is in `0..=60`.
pub fn check_second(v: u8) -> (r: Result<u8, Error>)
    ensures
        r == if v <= 60 {
            Ok::<u8, Error>(v)
        } else {
            Err::<u8, Error>(Error::InvalidTime)
        },
{
    if v <= 60 {
        Ok(v)
    } else {
        Err(Error::InvalidTime)
    }
}

/// Checks that a number of nanoseconds is in `0..=999_999_999`.
pub fn check_nanoseconds(v: u32) -> (r: Result<u32, Error>)
    ensures
        r == if v <= 999_999_999 {
            Ok::<u32, Error>(v)
        } else {
            Err::<u32, Error>(Error::InvalidTime)
        },
{
    if v <= 999_999_999 {
        Ok(v)
    } else {
        Err(Error::InvalidTime)
    }
}

/// Checks that a day of the week is in `0..=6`.
pub fn check_day_of_week(v: u8) -> (r: Result<u8, Error>)
    ensures
        r == if v <= 6 {
            Ok::<u8, Error>(v)
        } else {
            Err::<u8, Error>(Error::InvalidTime)
        },
{
    if v <= 6 {
        Ok(v)
    } else {
        Err(Error::InvalidTime)
    }
}

/// Checks that a day of the year is in `1..=366`.
pub fn check_day_of_year(v: u16) -> (r: Result<u16, Error>)
    ensures
        r == if 1 <= v <= 366 {
            Ok::<u16, Error>(v)
        } else {
            Err::<u16, Error>(Error::InvalidTime)
        },
{
    if 1 <= v && v <= 366 {
        Ok(v)
    } else {
        Err(Error::InvalidTime)
    }
}

/// Checks that a time zone name is ASCII.
pub fn check_time_zone(z: &str) -> (r: Result<&str, Error>)
    ensures
        r == if z.is_ascii() {
            Ok::<&str, Error>(z)
        } else {
            Err::<&str, Error>(Error::InvalidTime)
        },
{
    if z.is_ascii() {
        Ok(z)
    } else {
        Err(Error::InvalidTime)
    }
}

/// Accessors of a time implementation that check each field against its
/// documented range.
pub trait CheckedTime {
    /// No checks.
    fn year(&self) -> i32;

    /// Checks if the month is in `1..=12`.
    fn month(&self) -> (r: Result<u8, Error>)
        ensures
            r matches Ok(m) ==> 1 <= m <= 12,
            r matches Err(e) ==> e == Error::InvalidTime,
    ;

    /// Checks if the day of the month is in `1..=31`.
    fn day(&self) -> (r: Result<u8, Error>)
        ensures
            r matches Ok(d) ==> 1 <= d <= 31,
            r matches Err(e) ==> e == Error::InvalidTime,
    ;

    /// Checks if the hour of the day is in `0..=23`.
    fn hour(&self) -> (r: Result<u8, Error>)
        ensures
            r matches Ok(h) ==> h <= 23,
            r matches Err(e) ==> e == Error::InvalidTime,
    ;

    /// Checks if the minute of the hour is in `0..=59`.
    fn minute(&self) -> (r: Result<u8, Error>)
        ensures
            r matches Ok(m) ==> m <= 59,
            r matches Err(e) ==> e == Error::InvalidTime,
    ;

    /// Checks if the second of the minute is in `0..=60`.
    fn second(&self) -> (r: Result<u8, Error>)
        ensures
            r matches Ok(s) ==> s <= 60,
            r matches Err(e) ==> e == Error::InvalidTime,
    ;

    /// Checks if the number of nanoseconds is in `0..=999_999_999`.
    fn nanoseconds(&self) -> (r: Result<u32, Error>)
        ensures
            r matches Ok(n) ==> n <= 999_999_999,
            r matches Err(e) ==> e == Error::InvalidTime,
    ;

    /// Checks if the day of the week is in `0..=6`.
    fn day_of_week(&self) -> (r: Result<u8, Error>)
        ensures
            r matches Ok(d) ==> d <= 6,
            r matches Err(e) ==> e == Error::InvalidTime,
    ;

    /// Checks if the day of the year is in `1..=366`.
    fn day_of_year(&self) -> (r: Result<u16, Error>)
        ensures
            r matches Ok(d) ==> 1 <= d <= 366,
            r matches Err(e) ==> e == Error::InvalidTime,
    ;

    /// No checks.
    fn to_int(&self) -> i64;

    /// No checks.
    fn is_utc(&self) -> bool;

    /// No checks.
    fn utc_offset(&self) -> i32;

    /// Checks if the name of the time zone is ASCII.
    fn time_zone(&self) -> (r: Result<&str, Error>)
        ensures
            r matches Ok(z) ==> z.is_ascii(),
            r matches Err(e) ==> e == Error::InvalidTime,
    ;
}

impl<T: Time> CheckedTime for T {
    fn year(&self) -> i32 {
        Time::year(self)
    }

    fn month(&self) -> (r: Result<u8, Error>) {
        check_month(Time::month(self))
    }

    fn day(&self) -> (r: Result<u8, Error>) {
        check_day(Time::day(self))
    }

    fn hour(&self) -> (r: Result<u8, Error>) {
        check_hour(Time::hour(self))
    }

    fn minute(&self) -> (r: Result<u8, Error>) {
        check_minute(Time::minute(self))
    }

    fn second(&self) -> (r: Result<u8, Error>) {
        check_second(Time::second(self))
    }

    fn nanoseconds(&self) -> (r: Result<u32, Error>) {
        check_nanoseconds(Time::nanoseconds(self))
    }

    fn day_of_week(&self) -> (r: Result<u8, Error>) {
        check_day_of_week(Time::day_of_week(self))
    }

    fn day_of_year(&self) -> (r: Result<u16, Error>) {
        check_day_of_year(Time::day_of_year(self))
    }

    fn to_int(&self) -> i64 {
        Time::to_int(self)
    }

    fn is_utc(&self) -> bool {
        Time::is_utc(self)
    }

    fn utc_offset(&self) -> i32 {
        Time::utc_offset(self)
    }

    fn time_zone(&self) -> (r: Result<&str, Error>) {
        check_time_zone(Time::time_zone(self))
    }
}

} // verus!
