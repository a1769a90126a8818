//! `strftime` with a format string of arbitrary bytes, into a growable
//! buffer.

use crate::formatter::TimeFormatter;
use crate::time::{Time, TimeValue};
use crate::Error;
use vstd::prelude::*;

verus! {

/// Result of formatting `format` for `t` into an unbounded buffer: the
/// bytes, or the error.
pub open spec fn format_result(t: TimeValue, format: Seq<u8>) -> Result<Seq<u8>, Error> {
    let (out, res) = crate::formatter::outcome(t, format, usize::MAX as int);
    match res {
        Ok(()) => Ok(out),
        Err(e) => Err(e),
    }
}

/// Whether `r` is what formatting `format` for `t` gives.
pub open spec fn agrees(t: TimeValue, format: Seq<u8>, r: Result<Vec<u8>, Error>) -> bool {
    match r {
        Ok(v) => format_result(t, format) == Ok::<Seq<u8>, Error>(v@),
        Err(e) => format_result(t, format) == Err::<Seq<u8>, Error>(e),
    }
}

/// Format a time value with the specified format byte string.
pub fn strftime_value(time: &TimeValue, format: &[u8]) -> (r: Result<Vec<u8>, Error>)
    ensures
        agrees(*time, format@, r),
{
    let (buf, result) = TimeFormatter::new(time, format).fmt(usize::MAX);
    match result {
        Ok(()) => Ok(buf),
        Err(e) => Err(e),
    }
}

/// Format a _time_ implementation with the specified format byte string.
///
/// The fields of the time are read once; the result is then what
/// `strftime_value` gives for them.
pub fn strftime<T: Time>(time: &T, format: &[u8]) -> (r: Result<Vec<u8>, Error>)
    ensures
        exists|t: TimeValue| #[trigger] agrees(t, format@, r),
{
    let value = TimeValue::from_time(time);
    strftime_value(&value, format)
}

} // verus!
