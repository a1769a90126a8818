//! `strftime` with a format string of arbitrary bytes, into a buffer of
//! fixed size that the caller provides.

use crate::formatter::TimeFormatter;
use crate::time::{Time, TimeValue};
use crate::Error;
use vstd::prelude::*;

verus! {

/// What formatting into `buf` leaves there and returns, for the time
/// value `t`: the bytes that fit are written at the start of the buffer,
/// the rest of it is unchanged, and the result is the number of bytes
/// written, or the error.
pub open spec fn buffered_outcome(
    t: TimeValue,
    format: Seq<u8>,
    before: Seq<u8>,
    after: Seq<u8>,
    r: Result<usize, Error>,
) -> bool {
    let (out, res) = crate::formatter::outcome(t, format, before.len() as int);
    &&& after == out + before.skip(out.len() as int)
    &&& match r {
        Ok(n) => res is Ok && n == out.len(),
        Err(e) => res == Err::<(), Error>(e),
    }
}

/// Format a time value with the specified format byte string, writing in
/// the provided buffer and returning the number of bytes written.
pub fn strftime_value(time: &TimeValue, format: &[u8], buf: &mut [u8]) -> (r: Result<usize, Error>)
    ensures
        buffered_outcome(*time, format@, old(buf)@, final(buf)@, r),
{
    let (out, result) = TimeFormatter::new(time, format).fmt(buf.len());
    let ghost before = buf@;
    proof {
        // The output never exceeds the destination.
        crate::sink::lemma_put_all_bounds(
            Seq::<u8>::empty(),
            crate::formatter::writes(*time, format@).0,
            crate::formatter::size_limit_of(format@.len()),
            before.len() as int,
        );
        assert(out@.len() <= before.len());
    }
    let mut i: usize = 0;
    while i < out.len()
        invariant
            i <= out@.len(),
            out@.len() <= before.len(),
            buf@.len() == before.len(),
            buf@ =~= out@.take(i as int) + before.skip(i as int),
        decreases out@.len() - i,
    {
        buf[i] = out[i];
        i += 1;
        assert(buf@ =~= out@.take(i as int) + before.skip(i as int));
    }
    assert(out@.take(i as int) =~= out@);
    match result {
        Ok(()) => Ok(out.len()),
        Err(e) => Err(e),
    }
}

/// Format a _time_ implementation with the specified format byte string,
/// writing in the provided buffer and returning the number of bytes
/// written.
///
/// The fields of the time are read once; the result is then what
/// `strftime_value` gives for them.
pub fn strftime<T: Time>(time: &T, format: &[u8], buf: &mut [u8]) -> (r: Result<usize, Error>)
    ensures
        exists|t: TimeValue| #[trigger] buffered_outcome(t, format@, old(buf)@, final(buf)@, r),
{
    let value = TimeValue::from_time(time);
    strftime_value(&value, format, buf)
}

} // verus!
