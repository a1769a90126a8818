//! The time values that the formatter reads.

use vstd::prelude::*;

verus! {

/// Common methods needed for formatting _time_.
///
/// This should be implemented for structs representing a _time_.
///
/// All the `strftime` functions take as input an implementation of this trait.
pub trait Time {
    /// Returns the year for _time_ (including the century).
    fn year(&self) -> i32;
    /// Returns the month of the year in `1..=12` for _time_.
    fn month(&self) -> u8;
    /// Returns the day of the month in `1..=31` for _time_.
    fn day(&self) -> u8;
    /// Returns the hour of the day in `0..=23` for _time_.
    fn hour(&self) -> u8;
    /// Returns the minute of the hour in `0..=59` for _time_.
    fn minute(&self) -> u8;
    /// Returns the second of the minute in `0..=60` for _time_.
    fn second(&self) -> u8;
    /// Returns the number of nanoseconds in `0..=999_999_999` for _time_.
    fn nanoseconds(&self) -> u32;
    /// Returns an integer representing the day of the week in `0..=6`, with
    /// `Sunday == 0`.
    fn day_of_week(&self) -> u8;
    /// Returns an integer representing the day of the year in `1..=366`.
    fn day_of_year(&self) -> u16;
    /// Returns the number of seconds as a signed integer since the Epoch.
    fn to_int(&self) -> i64;
    /// Returns true if the time zone is UTC.
    fn is_utc(&self) -> bool;
    /// Returns the offset in seconds between the timezone of _time_ and UTC.
    fn utc_offset(&self) -> i32;
    /// Returns the name of the time zone as a string.
    fn time_zone(&self) -> &str;
}

/// The fields of a _time_, read once, as plain values.
#[derive(Debug, Clone, PartialEq, Eq)]
pub struct TimeValue {
    /// Year, including the century.
    pub year: i32,
    /// Month of the year, `1..=12` when valid.
    pub month: u8,
    /// Day of the month, `1..=31` when valid.
    pub day: u8,
    /// Hour of the day, `0..=23` when valid.
    pub hour: u8,
    /// Minute of the hour, `0..=59` when valid.
    pub minute: u8,
    /// Second of the minute, `0..=60` when valid.
    pub second: u8,
    /// Nanoseconds, `0..=999_999_999` when valid.
    pub nanoseconds: u32,
    /// Day of the week from Sunday, `0..=6` when valid.
    pub day_of_week: u8,
    /// Day of the year, `1..=366` when valid.
    pub day_of_year: u16,
    /// Seconds since the Epoch.
    pub to_int: i64,
    /// Whether the time zone is UTC.
    pub is_utc: bool,
    /// Offset from UTC in seconds, positive ahead of UTC.
    pub utc_offset: i32,
    /// Name of the time zone.
    pub time_zone: Vec<u8>,
}

impl TimeValue {
    /// Read every field of a _time_ implementation once.
    pub fn from_time<T: Time>(time: &T) -> (r: TimeValue) {
        let zone = time.time_zone().as_bytes();
        let mut time_zone: Vec<u8> = Vec::new();
        let mut i: usize = 0;
        while i < zone.len()
            invariant
                i <= zone@.len(),
            decreases zone@.len() - i,
        {
            time_zone.push(zone[i]);
            i += 1;
        }
        TimeValue {
            year: time.year(),
            month: time.month(),
            day: time.day(),
            hour: time.hour(),
            minute: time.minute(),
            second: time.second(),
            nanoseconds: time.nanoseconds(),
            day_of_week: time.day_of_week(),
            day_of_year: time.day_of_year(),
            to_int: time.to_int(),
            is_utc: time.is_utc(),
            utc_offset: time.utc_offset(),
            time_zone,
        }
    }
}

} // verus!
