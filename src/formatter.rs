//! Formatting a whole format string: literal text, directives, and the
//! bound on the output size.

use crate::cursor::Cursor;
use crate::format::{Conversion, Flags, Padding, Piece, COLON, MAX_WIDTH, PERCENT};
use crate::parser::{lookup_conversion, modifier, parse_width, LETTER_Z};
use crate::sink::SizeLimiter;
use crate::time::TimeValue;
use crate::Error;
use vstd::prelude::*;

verus! {

/// Text of the format string `s` for the time value `t`, up to the first
/// error, and that error if there is one.
pub open spec fn run(t: TimeValue, s: Seq<u8>) -> (Seq<u8>, Option<Error>)
    decreases s.len(),
{
    if s.len() == 0 {
        (Seq::<u8>::empty(), None)
    } else if s[0] != PERCENT {
        let r = run(t, s.skip(1));
        (seq![s[0]] + r.0, r.1)
    } else {
        let (res, k) = crate::parser::parse_of(s.skip(1));
        if 0 <= k && 1 + k <= s.len() {
            match res {
                Err(e) => (Seq::<u8>::empty(), Some(e)),
                Ok(None) => {
                    let r = run(t, s.skip(1 + k));
                    (s.take(1 + k) + r.0, r.1)
                },
                Ok(Some(p)) => match p.text(t) {
                    Err(e) => (Seq::<u8>::empty(), Some(e)),
                    Ok(x) => {
                        let r = run(t, s.skip(1 + k));
                        (x + r.0, r.1)
                    },
                },
            }
        } else {
            // A directive never reads past the end of the input.
            (Seq::<u8>::empty(), None)
        }
    }
}

/// Bytes of output allowed per byte of format string (512 KiB).
pub const SIZE_LIMIT_PER_BYTE: usize = 524288;

/// Bytes of output allowed whatever the length of the format string.
pub const MIN_SIZE_LIMIT: usize = 1024;

/// Most bytes that formatting a format string of `n` bytes may write:
/// 512 KiB per byte of the format string, and at least 1 KiB.
pub open spec fn size_limit_of(n: nat) -> int {
    let scaled = if n * SIZE_LIMIT_PER_BYTE > usize::MAX {
        usize::MAX as int
    } else {
        (n * SIZE_LIMIT_PER_BYTE) as int
    };
    if scaled < MIN_SIZE_LIMIT {
        MIN_SIZE_LIMIT as int
    } else {
        scaled
    }
}

/// The writes that formatting the format string `s` for `t` makes, up to
/// the first error, and that error if there is one: each run of literal
/// text, and the text of each directive that is not one, is a single write;
/// the text of a directive is written one byte at a time.
pub open spec fn writes(t: TimeValue, s: Seq<u8>) -> (Seq<Seq<u8>>, Option<Error>)
    decreases s.len(),
{
    if s.len() == 0 {
        (Seq::<Seq<u8>>::empty(), None)
    } else if s[0] != PERCENT {
        let n = crate::cursor::lead_len(s, crate::cursor::ne_class(PERCENT)) as int;
        if 1 <= n <= s.len() {
            let r = writes(t, s.skip(n));
            (seq![s.take(n)] + r.0, r.1)
        } else {
            (Seq::<Seq<u8>>::empty(), None)
        }
    } else {
        let (res, k) = crate::parser::parse_of(s.skip(1));
        if 0 <= k && 1 + k <= s.len() {
            match res {
                Err(e) => (Seq::<Seq<u8>>::empty(), Some(e)),
                Ok(None) => {
                    let r = writes(t, s.skip(1 + k));
                    (seq![s.take(1 + k)] + r.0, r.1)
                },
                Ok(Some(p)) => match p.text(t) {
                    Err(e) => (Seq::<Seq<u8>>::empty(), Some(e)),
                    Ok(x) => {
                        let r = writes(t, s.skip(1 + k));
                        (crate::sink::singletons(x) + r.0, r.1)
                    },
                },
            }
        } else {
            (Seq::<Seq<u8>>::empty(), None)
        }
    }
}

/// Bytes in the destination and result when the writes for the rest `s` of
/// a format string follow the bytes `written`.
pub open spec fn finish(
    written: Seq<u8>,
    t: TimeValue,
    s: Seq<u8>,
    size_limit: int,
    capacity: int,
) -> (Seq<u8>, Result<(), Error>) {
    let (ws, err) = writes(t, s);
    let (out, e) = crate::sink::put_all(written, ws, size_limit, capacity);
    match e {
        Some(e) => (out, Err(e)),
        None => (
            out,
            match err {
                None => Ok(()),
                Some(e) => Err(e),
            },
        ),
    }
}

/// Bytes written and result of formatting `format` for `t` into a
/// destination that holds `capacity` bytes. A write that would exceed the
/// size limit is rejected whole with `FormattedStringTooLarge`; a
/// destination that is full takes what fits and gives `WriteZero`.
pub open spec fn outcome(t: TimeValue, format: Seq<u8>, capacity: int) -> (
    Seq<u8>,
    Result<(), Error>,
) {
    finish(Seq::<u8>::empty(), t, format, size_limit_of(format.len()), capacity)
}

/// The writes carry, in order, the text of the format string.
pub proof fn lemma_writes_text(t: TimeValue, s: Seq<u8>)
    ensures
        writes(t, s).0.flatten() == run(t, s).0,
        writes(t, s).1 == run(t, s).1,
    decreases s.len(),
{
    if s.len() == 0 {
    } else if s[0] != PERCENT {
        let p = crate::cursor::ne_class(PERCENT);
        let n = crate::cursor::lead_len(s, p) as int;
        crate::cursor::lemma_lead_len_prefix(s, p);
        assert(s.skip(1).len() < s.len());
        assert(n >= 1);
        lemma_writes_text(t, s.skip(n));
        lemma_run_literal(t, s, n as nat);
        let r = writes(t, s.skip(n));
        vstd::seq_lib::lemma_flatten_concat(seq![s.take(n)], r.0);
        lemma_flatten_one(s.take(n));
    } else {
        let (res, k) = crate::parser::parse_of(s.skip(1));
        crate::laws::lemma_unterminated_only_at_end(s.skip(1));
        match res {
            Err(_) => {},
            Ok(None) => {
                lemma_writes_text(t, s.skip(1 + k));
                let r = writes(t, s.skip(1 + k));
                vstd::seq_lib::lemma_flatten_concat(seq![s.take(1 + k)], r.0);
                lemma_flatten_one(s.take(1 + k));
            },
            Ok(Some(p)) => match p.text(t) {
                Err(_) => {},
                Ok(x) => {
                    lemma_writes_text(t, s.skip(1 + k));
                    let r = writes(t, s.skip(1 + k));
                    vstd::seq_lib::lemma_flatten_concat(crate::sink::singletons(x), r.0);
                    lemma_flatten_singletons(x);
                },
            },
        }
    }
}

/// One write flattens to itself.
proof fn lemma_flatten_one(x: Seq<u8>)
    ensures
        seq![x].flatten() == x,
{
    let e = seq![x].drop_first();
    assert(e.len() == 0);
    assert(e.flatten() == Seq::<u8>::empty());
    assert(seq![x].first() == x);
    assert(x + Seq::<u8>::empty() =~= x);
}

/// Bytes written one at a time flatten to the bytes.
proof fn lemma_flatten_singletons(x: Seq<u8>)
    ensures
        crate::sink::singletons(x).flatten() == x,
    decreases x.len(),
{
    if x.len() > 0 {
        assert(crate::sink::singletons(x).drop_first() =~= crate::sink::singletons(x.skip(1)));
        lemma_flatten_singletons(x.skip(1));
        assert(seq![x[0]] + x.skip(1) =~= x);
    } else {
        assert(crate::sink::singletons(x) =~= Seq::<Seq<u8>>::empty());
    }
}

/// Literal text before the first `%` passes through unchanged.
pub proof fn lemma_run_literal(t: TimeValue, s: Seq<u8>, k: nat)
    requires
        k <= s.len(),
        forall|j: int| 0 <= j < k ==> s[j] != PERCENT,
    ensures
        run(t, s) == (s.take(k as int) + run(t, s.skip(k as int)).0, run(t, s.skip(k as int)).1),
    decreases k,
{
    if k == 0 {
        assert(s.take(0) + run(t, s).0 =~= run(t, s).0);
        assert(s.skip(0) =~= s);
    } else {
        assert(s[0] != PERCENT);
        lemma_run_literal(t, s.skip(1), (k - 1) as nat);
        assert(s.skip(1).skip(k - 1) =~= s.skip(k as int));
        assert(seq![s[0]] + (s.skip(1).take(k - 1) + run(t, s.skip(k as int)).0) =~= s.take(
            k as int,
        ) + run(t, s.skip(k as int)).0);
    }
}

/// Wrapper struct for formatting time with the provided format string.
pub struct TimeFormatter<'t, 'f> {
    /// Time value.
    pub time: &'t TimeValue,
    /// Format string.
    pub format: &'f [u8],
}

impl<'t, 'f> TimeFormatter<'t, 'f> {
    /// Construct a new `TimeFormatter` wrapper.
    pub fn new(time: &'t TimeValue, format: &'f [u8]) -> (r: Self)
        ensures
            r.time == time,
            r.format@ == format@,
    {
        TimeFormatter { time, format }
    }

    /// Format time using the format string: the bytes written into a
    /// destination of `capacity` bytes, and the result.
    pub fn fmt(&self, capacity: usize) -> (r: (Vec<u8>, Result<(), Error>))
        ensures
            (r.0@, r.1) == outcome(*self.time, self.format@, capacity as int),
    {
        // Use a size limiter to limit the maximum size of the resulting
        // formatted string
        let n = self.format.len();
        let scaled = if n > usize::MAX / SIZE_LIMIT_PER_BYTE {
            usize::MAX
        } else {
            n * SIZE_LIMIT_PER_BYTE
        };
        let size_limit = if scaled < MIN_SIZE_LIMIT {
            MIN_SIZE_LIMIT
        } else {
            scaled
        };
        let mut f = SizeLimiter::new(size_limit, capacity);
        let mut cursor = Cursor::new(self.format);
        let ghost t = *self.time;
        assert(cursor.rest() =~= self.format@);
        loop
            invariant
                f.wf(),
                f.size_limit == size_limit,
                f.capacity == capacity,
                size_limit == size_limit_of(self.format@.len()),
                cursor.wf(),
                cursor.bytes@ == self.format@,
                t == *self.time,
                outcome(t, self.format@, capacity as int) == finish(
                    f.written(),
                    t,
                    cursor.rest(),
                    size_limit as int,
                    capacity as int,
                ),
            ensures
                outcome(t, self.format@, capacity as int) == (f.written(), Ok::<(), Error>(())),
            decreases self.format@.len() - cursor.pos,
        {
            if cursor.pos == self.format.len() {
                assert(cursor.rest().len() == 0);
                assert(writes(t, cursor.rest()).0.len() == 0);
                break;
            }
            if let Err(e) = self.write_next(&mut f, &mut cursor) {
                return (f.out, Err(e));
            }
        }
        (f.out, Ok(()))
    }

    /// Write the literal text or the directive that starts the rest of the
    /// format string.
    fn write_next(&self, f: &mut SizeLimiter, cursor: &mut Cursor) -> (r: Result<(), Error>)
        requires
            old(f).wf(),
            old(cursor).wf(),
            old(cursor).rest().len() > 0,
        ensures
            final(f).wf(),
            final(f).size_limit == old(f).size_limit,
            final(f).capacity == old(f).capacity,
            final(cursor).wf(),
            final(cursor).bytes == old(cursor).bytes,
            final(cursor).pos > old(cursor).pos,
            ({
                let before = finish(
                    old(f).written(),
                    *self.time,
                    old(cursor).rest(),
                    old(f).size_limit as int,
                    old(f).capacity as int,
                );
                match r {
                    Ok(()) => before == finish(
                        final(f).written(),
                        *self.time,
                        final(cursor).rest(),
                        old(f).size_limit as int,
                        old(f).capacity as int,
                    ),
                    Err(e) => before == (final(f).written(), Err::<(), Error>(e)),
                }
            }),
    {
        let ghost t = *self.time;
        let ghost rest0 = cursor.rest();
        let ghost out0 = f.written();
        let ghost l = f.size_limit as int;
        let ghost c = f.capacity as int;
        if cursor.peek(0) != Some(PERCENT) {
            let literal = cursor.read_until_eq(PERCENT);
            proof {
                crate::cursor::lemma_lead_len_prefix(rest0, crate::cursor::ne_class(PERCENT));
                assert(rest0.skip(literal@.len() as int) =~= cursor.rest());
                let ws1 = writes(t, cursor.rest()).0;
                assert((seq![literal@] + ws1)[0] == literal@);
                assert((seq![literal@] + ws1).skip(1) =~= ws1);
            }
            return f.write(literal);
        }
        let before = cursor.pos;
        cursor.next();
        assert(cursor.rest() =~= rest0.skip(1));
        let parsed = Self::parse_spec(cursor);
        let ghost k = cursor.pos - before - 1;
        assert(cursor.rest() =~= rest0.skip(1 + k));
        match parsed {
            Err(e) => Err(e),
            Ok(Some(piece)) => {
                proof {
                    match piece.text(t) {
                        Ok(x) => {
                            let ws1 = writes(t, cursor.rest()).0;
                            crate::sink::lemma_put_all_concat(
                                out0,
                                crate::sink::singletons(x),
                                ws1,
                                l,
                                c,
                            );
                            crate::sink::lemma_put_all_singletons(out0, x, l, c);
                        },
                        Err(_) => {},
                    }
                }
                piece.fmt(f, self.time)
            },
            Ok(None) => {
                let text = vstd::slice::slice_subrange(cursor.bytes, before, cursor.pos);
                proof {
                    assert(text@ =~= rest0.take(1 + k));
                    let ws1 = writes(t, cursor.rest()).0;
                    assert((seq![text@] + ws1)[0] == text@);
                    assert((seq![text@] + ws1).skip(1) =~= ws1);
                }
                f.write(text)
            },
        }
    }

    /// Parse a formatting directive, from the byte after its `%`.
    pub fn parse_spec(cursor: &mut Cursor) -> (r: Result<Option<Piece>, Error>)
        requires
            old(cursor).wf(),
        ensures
            final(cursor).wf(),
            final(cursor).bytes == old(cursor).bytes,
            (r, final(cursor).pos - old(cursor).pos) == crate::parser::parse_of(old(cursor).rest()),
            final(cursor).pos >= old(cursor).pos,
    {
        let ghost s = cursor.rest();
        let ghost start = cursor.pos as int;
        // Parse flags
        let mut padding = Padding::Left;
        let mut flags = Flags::empty();
        loop
            invariant
                cursor.wf(),
                cursor.bytes == old(cursor).bytes,
                s == old(cursor).rest(),
                start == old(cursor).pos,
                start <= cursor.pos,
                cursor.rest() == s.skip(cursor.pos - start),
                crate::parser::scan_flags(s, Padding::Left, Flags {
                    left_padding: false,
                    change_case: false,
                    upper_case: false,
                }) == crate::parser::scan_flags(cursor.rest(), padding, flags),
                crate::cursor::lead_len(s, crate::parser::flag_class()) == (cursor.pos - start)
                    + crate::cursor::lead_len(cursor.rest(), crate::parser::flag_class()),
            ensures
                cursor.wf(),
                cursor.bytes == old(cursor).bytes,
                start <= cursor.pos,
                cursor.rest() == s.skip(cursor.pos - start),
                crate::parser::scan_flags(s, Padding::Left, Flags {
                    left_padding: false,
                    change_case: false,
                    upper_case: false,
                }) == (padding, flags),
                crate::cursor::lead_len(s, crate::parser::flag_class()) == cursor.pos - start,
            decreases cursor.bytes@.len() - cursor.pos,
        {
            let ghost rest = cursor.rest();
            match cursor.peek(0) {
                Some(45) => {
                    padding = Padding::Left;
                    flags.left_padding = true;
                },
                Some(95) => padding = Padding::Spaces,
                Some(48) => padding = Padding::Zeros,
                Some(94) => {
                    if !flags.change_case {
                        flags.upper_case = true;
                    }
                },
                Some(35) => flags.change_case = true,
                _ => {
                    assert(crate::cursor::lead_len(rest, crate::parser::flag_class()) == 0);
                    assert(!(rest.len() > 0 && crate::parser::is_flag(rest[0])));
                    break;
                },
            }
            assert(crate::parser::is_flag(rest[0]));
            assert((crate::parser::flag_class())(rest[0]));
            assert(crate::cursor::lead_len(rest, crate::parser::flag_class()) == 1 + crate::cursor::lead_len(
                rest.skip(1),
                crate::parser::flag_class(),
            ));
            cursor.next();
            assert(cursor.rest() =~= rest.skip(1));
            assert(cursor.rest() =~= s.skip(cursor.pos - start));
        }
        let ghost nf = cursor.pos - start;
        assert(nf == crate::cursor::lead_len(s, crate::parser::flag_class()));
        assert((padding, flags) == crate::parser::scan_flags(
            s,
            Padding::Left,
            Flags { left_padding: false, change_case: false, upper_case: false },
        ));
        // Parse width
        let digits = cursor.read_while_digit();
        proof {
            crate::cursor::lemma_lead_len_prefix(s.skip(nf), crate::cursor::digit_class());
            assert(digits@ =~= s.subrange(nf, nf + digits@.len()));
            assert(cursor.rest() =~= s.skip(cursor.pos - start));
        }
        let width = if digits.len() == 0 {
            None
        } else {
            match parse_width(digits) {
                Some(w) => Some(w),
                None => return Ok(None),
            }
        };
        let ghost p1 = cursor.pos - start;
        let ghost nd = digits@.len() as int;
        assert(p1 == nf + nd);
        assert(nd == crate::cursor::lead_len(s.skip(nf), crate::cursor::digit_class()));
        assert(width == if nd == 0 {
            None
        } else {
            Some(crate::text::digits_value(s.subrange(nf, nf + nd)) as usize)
        });
        assert(!(nd > 0 && crate::text::digits_value(s.subrange(nf, nf + nd)) > MAX_WIDTH));
        // Ignore POSIX locale extensions
        match (cursor.peek(0), cursor.peek(1)) {
            (Some(ext), Some(spec)) => {
                if modifier(ext, spec) {
                    cursor.next();
                }
            },
            _ => {},
        }
        assert(cursor.rest() =~= s.skip(cursor.pos - start));
        let ghost p2 = cursor.pos - start;
        assert(p2 == if p1 + 2 <= s.len() && crate::parser::is_modifier(s[p1], s[p1 + 1]) {
            p1 + 1
        } else {
            p1
        });
        // Parse spec
        let colons = cursor.read_while_eq(COLON);
        assert(cursor.rest() =~= s.skip(cursor.pos - start));
        let ghost nc = colons@.len() as int;
        assert(nc == crate::cursor::lead_len(s.skip(p2), crate::cursor::eq_class(COLON)));
        assert(cursor.pos - start == p2 + nc);
        if colons.len() == 0 {
            match cursor.next() {
                Some(x) => match lookup_conversion(x) {
                    Some(spec) => Ok(Some(Piece::new(width, padding, flags, spec))),
                    None => Ok(None),
                },
                None => Err(Error::InvalidFormatString),
            }
        } else {
            let tag: Vec<u8> = vec![LETTER_Z];
            let ghost rest = cursor.rest();
            assert(tag@ =~= seq![LETTER_Z]);
            assert(rest.len() >= 1 ==> (rest.take(1) =~= seq![LETTER_Z] <==> s[p2 + nc]
                == LETTER_Z));
            if cursor.read_optional_tag(tag.as_slice()) {
                let spec = match colons.len() {
                    1 => Conversion::TimeZoneOffsetHourMinuteColon,
                    2 => Conversion::TimeZoneOffsetHourMinuteSecondColon,
                    3 => Conversion::TimeZoneOffsetColonMinimal,
                    _ => return Ok(None),
                };
                Ok(Some(Piece::new(width, padding, flags, spec)))
            } else {
                Ok(None)
            }
        }
    }
}

} // verus!
