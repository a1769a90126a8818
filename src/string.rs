//! `strftime` with a UTF-8 format string, into a growable string.

use crate::formatter::TimeFormatter;
use crate::time::{Time, TimeValue};
use crate::Error;
use vstd::prelude::*;

verus! {

/// Relies on `String::from_utf8`: it succeeds exactly on valid UTF-8, and
/// the string then holds those bytes.
#[verifier::external_body]
fn utf8_string(v: Vec<u8>) -> (r: Option<String>)
    ensures
        r is Some <==> vstd::utf8::valid_utf8(v@),
        r matches Some(s) ==> vstd::utf8::encode_utf8(s@) == v@,
{
    String::from_utf8(v).ok()
}

/// Whether `r` is what formatting `format` for `t` gives: the formatted
/// bytes as a string, or the error; `FmtError` when the bytes are not valid
/// UTF-8.
pub open spec fn agrees(t: TimeValue, format: &str, r: Result<String, Error>) -> bool {
    let expected = crate::bytes::format_result(t, vstd::utf8::encode_utf8(format@));
    match r {
        Ok(s) => expected == Ok::<Seq<u8>, Error>(vstd::utf8::encode_utf8(s@)),
        Err(e) => match expected {
            Ok(b) => e == Error::FmtError && !vstd::utf8::valid_utf8(b),
            Err(e2) => e == e2,
        },
    }
}

/// Format a time value with the specified UTF-8 format string.
///
/// The formatter copies literal text in order and writes only ASCII for
/// directives, so with an ASCII time zone name the output is valid UTF-8
/// and `FmtError` never comes; with another name, `%Z` fails with
/// `InvalidTime`.
pub fn strftime_value(time: &TimeValue, format: &str) -> (r: Result<String, Error>)
    ensures
        agrees(*time, format, r),
        crate::text::all_ascii(time.time_zone@) ==> !(r matches Err(Error::FmtError)),
{
    proof {
        if crate::text::all_ascii(time.time_zone@) {
            crate::unicode::lemma_formatted_utf8(*time, format@);
        }
    }
    let bytes = format.as_bytes();
    assert(bytes@ == vstd::utf8::encode_utf8(format@));
    let (buf, result) = TimeFormatter::new(time, bytes).fmt(usize::MAX);
    assert(result is Ok ==> crate::bytes::format_result(*time, bytes@) == Ok::<Seq<u8>, Error>(
        buf@,
    ));
    match result {
        Ok(()) => match utf8_string(buf) {
            Some(s) => Ok(s),
            None => Err(Error::FmtError),
        },
        Err(e) => Err(e),
    }
}

/// Format a _time_ implementation with the specified UTF-8 format string.
///
/// The fields of the time are read once; the result is then what
/// `strftime_value` gives for them.
pub fn strftime<T: Time>(time: &T, format: &str) -> (r: Result<String, Error>)
    ensures
        exists|t: TimeValue| #[trigger] agrees(t, format, r),
{
    let value = TimeValue::from_time(time);
    strftime_value(&value, format)
}

} // verus!
