//! Rendering a directive: the bytes are laid out as a short head, a run of
//! fill bytes, and a short tail, so that a huge width is never built in
//! memory.

use crate::format::{
    Conversion, Padding, Piece, COLON, MINUS, PERCENT, PLUS, SLASH, SPACE, ZERO,
};
use crate::names::{day_name_bytes, month_name_bytes};
use crate::sink::SizeLimiter;
use crate::text::{decimal, is_ascii_bytes, lower_bytes, upper_bytes};
use crate::time::TimeValue;
use crate::week::{iso_8601_year_and_week_number, week_number, WeekStart};
use crate::Error;
use vstd::prelude::*;

verus! {

/// UTC offset parts: the sign, and the hours, minutes and seconds of the
/// magnitude.
pub struct UtcOffset {
    /// Whether the offset is shown negative.
    pub negative: bool,
    /// Hours.
    pub hour: u64,
    /// Minutes, `0..60`.
    pub minute: u64,
    /// Seconds, `0..60`.
    pub second: u64,
}

impl UtcOffset {
    /// Construct a new `UtcOffset`.
    pub fn new(negative: bool, hour: u64, minute: u64, second: u64) -> (r: Self)
        ensures
            r.negative == negative,
            r.hour == hour,
            r.minute == minute,
            r.second == second,
    {
        UtcOffset { negative, hour, minute, second }
    }
}

/// Formatted output of one directive: `head`, then `count` copies of
/// `fill`, then `tail`.
pub struct Layout {
    /// Bytes before the fill.
    pub head: Vec<u8>,
    /// Fill byte.
    pub fill: u8,
    /// Number of fill bytes.
    pub count: usize,
    /// Bytes after the fill.
    pub tail: Vec<u8>,
}

impl Layout {
    /// The bytes that the layout stands for.
    pub open spec fn text(&self) -> Seq<u8> {
        self.head@ + crate::text::fill(self.fill, self.count as int) + self.tail@
    }
}

/// `a - b`, or zero when `b` is larger.
pub fn saturating_sub(a: usize, b: usize) -> (r: usize)
    ensures
        r == if a >= b { a - b } else { 0 },
{
    if a >= b {
        a - b
    } else {
        0
    }
}

/// Magnitude of an integer.
pub fn magnitude(v: i64) -> (r: u64)
    ensures
        r as int == crate::format::abs(v as int),
{
    if v < 0 {
        ((-(v + 1)) as u64) + 1
    } else {
        v as u64
    }
}

/// Append all of `s` to `v`.
pub fn push_all(v: &mut Vec<u8>, s: &[u8])
    ensures
        final(v)@ == old(v)@ + s@,
{
    let mut i: usize = 0;
    while i < s.len()
        invariant
            i <= s@.len(),
            v@ == old(v)@ + s@.take(i as int),
        decreases s@.len() - i,
    {
        v.push(s[i]);
        i += 1;
        assert(v@ =~= old(v)@ + s@.take(i as int));
    }
    assert(s@.take(i as int) =~= s@);
}

/// Append `n` copies of `b` to `v`.
pub fn push_fill(v: &mut Vec<u8>, b: u8, n: usize)
    ensures
        final(v)@ == old(v)@ + crate::text::fill(b, n as int),
{
    let mut i: usize = 0;
    while i < n
        invariant
            i <= n,
            v@ =~= old(v)@ + crate::text::fill(b, i as int),
        decreases n - i,
    {
        v.push(b);
        i += 1;
        assert(v@ =~= old(v)@ + crate::text::fill(b, i as int));
    }
}

/// Append a number, zero-padded after its sign to width `w`.
pub fn push_zero_padded(v: &mut Vec<u8>, neg: bool, mag: u64, w: usize)
    ensures
        final(v)@ == old(v)@ + crate::format::zero_padded(neg, mag as nat, w as int),
{
    let digits = decimal(mag);
    let mut count = saturating_sub(w, digits.len());
    if neg {
        v.push(MINUS);
        count = saturating_sub(count, 1);
    }
    push_fill(v, ZERO, count);
    push_all(v, digits.as_slice());
    let ghost z = crate::text::fill(
        ZERO,
        w - crate::format::sign(neg).len() - crate::text::dec(mag as nat).len(),
    );
    assert(crate::text::fill(ZERO, count as int) =~= z);
    assert(v@ =~= old(v)@ + crate::format::zero_padded(neg, mag as nat, w as int));
}

/// Append a number, space-padded before its sign to width `w`.
pub fn push_space_padded(v: &mut Vec<u8>, neg: bool, mag: u64, w: usize)
    ensures
        final(v)@ == old(v)@ + crate::format::space_padded(neg, mag as nat, w as int),
{
    let digits = decimal(mag);
    let mut count = saturating_sub(w, digits.len());
    if neg {
        count = saturating_sub(count, 1);
    }
    push_fill(v, SPACE, count);
    if neg {
        v.push(MINUS);
    }
    push_all(v, digits.as_slice());
    let ghost z = crate::text::fill(
        SPACE,
        w - crate::format::sign(neg).len() - crate::text::dec(mag as nat).len(),
    );
    assert(crate::text::fill(SPACE, count as int) =~= z);
    assert(v@ =~= old(v)@ + crate::format::space_padded(neg, mag as nat, w as int));
}

/// First three bytes of a name.
pub fn abbreviated(name: &Vec<u8>) -> (r: Vec<u8>)
    requires
        name@.len() >= 3,
    ensures
        r@ == name@.take(3),
{
    let r: Vec<u8> = vec![name[0], name[1], name[2]];
    assert(r@ =~= name@.take(3));
    r
}

/// `10` to the power `k`, for `k <= 9`.
pub fn pow10_u32(k: u32) -> (r: u32)
    requires
        k <= 9,
    ensures
        r as nat == crate::text::pow10(k as nat),
        r >= 1,
{
    proof {
        reveal_with_fuel(crate::text::pow10, 10);
    }
    match k {
        0 => 1,
        1 => 10,
        2 => 100,
        3 => 1000,
        4 => 10000,
        5 => 100000,
        6 => 1000000,
        7 => 10000000,
        8 => 100000000,
        _ => 1000000000,
    }
}

/// Compute the number of decimal digits of a year, without its sign.
pub fn year_width(year: i32) -> (r: usize)
    ensures
        r as int == crate::format::year_width_of(year as int),
        1 <= r <= 20,
{
    let digits = decimal(magnitude(year as i64));
    digits.len()
}

/// Write a layout: head, fill and tail, until the room is used up.
pub fn write_layout(f: &mut SizeLimiter, l: &Layout) -> (r: Result<(), Error>)
    requires
        old(f).wf(),
    ensures
        final(f).wf(),
        final(f).size_limit == old(f).size_limit,
        final(f).capacity == old(f).capacity,
        final(f).written() == crate::sink::append_limited(old(f).written(), l.text(), old(f).room()),
        r is Ok <==> old(f).written().len() + l.text().len() <= old(f).room(),
        r is Err ==> r == Err::<(), Error>(old(f).overflow_error()),
{
    let ghost out = f.written();
    let ghost room = f.room();
    let ghost fill = crate::text::fill(l.fill, l.count as int);
    assert(l.text() == l.head@ + fill + l.tail@);
    let r = f.write_each(l.head.as_slice());
    if r.is_err() {
        proof {
            crate::sink::lemma_append_limited_overflow(out, l.head@, fill + l.tail@, room);
            assert(l.head@ + (fill + l.tail@) =~= l.text());
        }
        return r;
    }
    let r = f.write_fill(l.fill, l.count);
    if r.is_err() {
        proof {
            crate::sink::lemma_append_limited_overflow(out + l.head@, fill, l.tail@, room);
            assert(out + l.head@ + (fill + l.tail@) =~= out + l.text());
            assert((out + l.head@ + fill).take(room) =~= (out + l.text()).take(room));
        }
        return r;
    }
    let r = f.write_each(l.tail.as_slice());
    proof {
        assert(out + l.head@ + fill + l.tail@ =~= out + l.text());
        if r.is_err() {
            assert((out + l.head@ + fill + l.tail@).take(room) =~= (out + l.text()).take(room));
        }
    }
    r
}

impl Piece {
    /// A number laid out as `num_text` says.
    fn format_num(&self, v: i64, default_width: usize, zeros_by_default: bool) -> (r: Layout)
        ensures
            r.text() == self.num_text(v as int, default_width as int, zeros_by_default),
    {
        let neg = v < 0;
        let digits = decimal(magnitude(v));
        let mut head: Vec<u8> = Vec::new();
        if self.flags.left_padding {
            if neg {
                head.push(MINUS);
            }
            let r = Layout { head, fill: ZERO, count: 0, tail: digits };
            assert(r.text() =~= self.num_text(v as int, default_width as int, zeros_by_default));
            return r;
        }
        let w = match self.width {
            Some(w) => w,
            None => default_width,
        };
        let mut count = saturating_sub(w, digits.len());
        if neg {
            count = saturating_sub(count, 1);
        }
        let zeros = if zeros_by_default {
            !matches!(self.padding, Padding::Spaces)
        } else {
            matches!(self.padding, Padding::Zeros)
        };
        let ghost n = w - crate::format::sign(neg).len() - crate::text::dec(
            crate::format::abs(v as int),
        ).len();
        if zeros {
            if neg {
                head.push(MINUS);
            }
            let r = Layout { head, fill: ZERO, count, tail: digits };
            assert(crate::text::fill(ZERO, count as int) =~= crate::text::fill(ZERO, n));
            assert(r.text() =~= self.num_text(v as int, default_width as int, zeros_by_default));
            r
        } else {
            let mut tail: Vec<u8> = Vec::new();
            if neg {
                tail.push(MINUS);
            }
            push_all(&mut tail, digits.as_slice());
            let r = Layout { head, fill: SPACE, count, tail };
            assert(crate::text::fill(SPACE, count as int) =~= crate::text::fill(SPACE, n));
            assert(r.text() =~= self.num_text(v as int, default_width as int, zeros_by_default));
            r
        }
    }

    /// Format a numerical value, padding with zeros by default.
    pub fn format_num_zeros(&self, v: i64, default_width: usize) -> (r: Layout)
        ensures
            r.text() == self.num_text(v as int, default_width as int, true),
    {
        self.format_num(v, default_width, true)
    }

    /// Format a numerical value, padding with spaces by default.
    pub fn format_num_spaces(&self, v: i64, default_width: usize) -> (r: Layout)
        ensures
            r.text() == self.num_text(v as int, default_width as int, false),
    {
        self.format_num(v, default_width, false)
    }

    /// Format nanoseconds with the specified precision.
    pub fn format_nanoseconds(&self, nanoseconds: u32, default_width: usize) -> (r: Layout)
        ensures
            r.text() == self.nanos_text(nanoseconds as nat, default_width as int),
    {
        let w = match self.width {
            Some(w) => w,
            None => default_width,
        };
        let mut head: Vec<u8> = Vec::new();
        if w <= 9 {
            let value = nanoseconds / pow10_u32(9 - w as u32);
            push_zero_padded(&mut head, false, value as u64, w);
            let r = Layout { head, fill: ZERO, count: 0, tail: Vec::new() };
            assert(r.text() =~= self.nanos_text(nanoseconds as nat, default_width as int));
            r
        } else {
            push_zero_padded(&mut head, false, nanoseconds as u64, 9);
            let r = Layout { head, fill: ZERO, count: w - 9, tail: Vec::new() };
            assert(r.text() =~= self.nanos_text(nanoseconds as nat, default_width as int));
            r
        }
    }

    /// Format a string value.
    pub fn format_string(&self, s: Vec<u8>) -> (r: Layout)
        ensures
            r.text() == self.string_text(s@),
    {
        let ghost sv = s@;
        let r = match self.width {
            None => Layout { head: Vec::new(), fill: SPACE, count: 0, tail: s },
            Some(width) => {
                if self.flags.left_padding {
                    Layout { head: Vec::new(), fill: SPACE, count: 0, tail: s }
                } else {
                    let count = saturating_sub(width, s.len());
                    let fill = if matches!(self.padding, Padding::Zeros) {
                        ZERO
                    } else {
                        SPACE
                    };
                    assert(crate::text::fill(fill, count as int) =~= crate::text::fill(
                        fill,
                        width - sv.len(),
                    ));
                    Layout { head: Vec::new(), fill, count, tail: s }
                }
            },
        };
        assert(r.text() =~= self.string_text(sv));
        r
    }

    /// Fill byte and count that bring content of `min_width` bytes to the
    /// width.
    pub fn write_padding(&self, min_width: usize) -> (r: (u8, usize))
        ensures
            crate::text::fill(r.0, r.1 as int) == self.padding_text(min_width as int),
    {
        let fill = if matches!(self.padding, Padding::Zeros) {
            ZERO
        } else {
            SPACE
        };
        match self.width {
            Some(width) => {
                let n = saturating_sub(width, min_width);
                assert(crate::text::fill(fill, n as int) =~= self.padding_text(min_width as int));
                (fill, n)
            },
            None => {
                assert(crate::text::fill(fill, 0) =~= self.padding_text(min_width as int));
                (fill, 0)
            },
        }
    }

    /// Compute hour padding for the `%z` specifier.
    pub fn hour_padding(&self, min_width: usize) -> (r: usize)
        requires
            crate::format::piece_wf(*self),
        ensures
            r as int == self.hour_width(min_width as int),
    {
        match self.width {
            Some(width) => saturating_sub(width, min_width) + 3,
            None => 3,
        }
    }

    /// Signed offset hour padded for a form of `min_width` bytes, followed
    /// by `rest`.
    fn write_offset(&self, neg: bool, hour: u64, min_width: usize, rest: &Vec<u8>) -> (r: Layout)
        requires
            crate::format::piece_wf(*self),
        ensures
            r.text() == self.offset_hour_text(neg, hour as nat, min_width as int) + rest@,
    {
        let n = self.hour_padding(min_width);
        let digits = decimal(hour);
        let count = saturating_sub(saturating_sub(n, 1), digits.len());
        let sign_byte = if neg {
            MINUS
        } else {
            PLUS
        };
        let ghost m = n - 1 - digits@.len();
        let mut head: Vec<u8> = Vec::new();
        let mut tail: Vec<u8> = Vec::new();
        if matches!(self.padding, Padding::Spaces) {
            tail.push(sign_byte);
            push_all(&mut tail, digits.as_slice());
            push_all(&mut tail, rest.as_slice());
            let r = Layout { head, fill: SPACE, count, tail };
            assert(crate::text::fill(SPACE, count as int) =~= crate::text::fill(SPACE, m));
            assert(r.text() =~= self.offset_hour_text(neg, hour as nat, min_width as int) + rest@);
            r
        } else {
            head.push(sign_byte);
            push_all(&mut tail, digits.as_slice());
            push_all(&mut tail, rest.as_slice());
            let r = Layout { head, fill: ZERO, count, tail };
            assert(crate::text::fill(ZERO, count as int) =~= crate::text::fill(ZERO, m));
            assert(r.text() =~= self.offset_hour_text(neg, hour as nat, min_width as int) + rest@);
            r
        }
    }
}

/// Whether a rendering result agrees with the text that a directive asks
/// for.
pub open spec fn layout_agrees(r: Result<Layout, Error>, x: Result<Seq<u8>, Error>) -> bool {
    match r {
        Ok(l) => x == Ok::<Seq<u8>, Error>(l.text()),
        Err(e) => x == Err::<Seq<u8>, Error>(e),
    }
}

/// `v / 100`, rounded toward negative infinity.
pub fn div_euclid_100(v: i64) -> (r: i64)
    ensures
        r as int == v as int / 100,
{
    let q = v / 100;
    if v % 100 < 0 {
        q - 1
    } else {
        q
    }
}

/// `v % 100`, in `0..100`.
pub fn rem_euclid_100(v: i64) -> (r: i64)
    ensures
        r as int == v as int % 100,
{
    let m = v % 100;
    if m < 0 {
        m + 100
    } else {
        m
    }
}

/// Meridian indicator of an hour.
pub fn meridian_bytes(hour: u8, lower: bool) -> (r: Vec<u8>)
    ensures
        r@ == crate::format::meridian(hour as int, lower),
{
    let v: Vec<u8> = if hour < 12 {
        if lower {
            vec![97u8, 109]
        } else {
            vec![65u8, 77]
        }
    } else {
        if lower {
            vec![112u8, 109]
        } else {
            vec![80u8, 77]
        }
    };
    assert(v@ =~= crate::format::meridian(hour as int, lower));
    v
}

/// Hour on a 12-hour clock.
pub fn hour_12(hour: u8) -> (r: u8)
    ensures
        r as int == crate::format::hour12(hour as int),
{
    let h = hour % 12;
    if h == 0 {
        12
    } else {
        h
    }
}

/// A name, in uppercase when `upper`.
fn cased(name: Vec<u8>, upper: bool) -> (r: Vec<u8>)
    ensures
        r@ == if upper {
            crate::text::upper_seq(name@)
        } else {
            name@
        },
        r@.len() == name@.len(),
{
    if upper {
        upper_bytes(name.as_slice())
    } else {
        name
    }
}

/// `%c` without its padding.
fn date_time_bytes(t: &TimeValue, upper: bool) -> (r: Vec<u8>)
    requires
        1 <= t.month <= 12,
        t.day_of_week <= 6,
    ensures
        r@ == crate::format::date_time_text(*t, upper),
{
    let day = cased(day_name_bytes(t.day_of_week), upper);
    let month = cased(month_name_bytes(t.month), upper);
    let mut v = abbreviated(&day);
    v.push(SPACE);
    push_all(&mut v, abbreviated(&month).as_slice());
    v.push(SPACE);
    push_space_padded(&mut v, false, t.day as u64, 2);
    v.push(SPACE);
    push_zero_padded(&mut v, false, t.hour as u64, 2);
    v.push(COLON);
    push_zero_padded(&mut v, false, t.minute as u64, 2);
    v.push(COLON);
    push_zero_padded(&mut v, false, t.second as u64, 2);
    v.push(SPACE);
    let year_width = if t.year < 0 {
        5
    } else {
        4
    };
    push_zero_padded(&mut v, t.year < 0, magnitude(t.year as i64), year_width);
    assert(v@ =~= crate::format::date_time_text(*t, upper));
    v
}

/// Larger of a year's width, its sign included, and a default width.
fn year_min_width(year: i32, default_width: usize) -> (r: usize)
    requires
        default_width <= 5,
    ensures
        r as int == if crate::format::signed_year_width(year as int) >= default_width {
            crate::format::signed_year_width(year as int)
        } else {
            default_width as int
        },
        r <= 21,
{
    let sign_width: usize = if year < 0 {
        1
    } else {
        0
    };
    let w = year_width(year) + sign_width;
    if w >= default_width {
        w
    } else {
        default_width
    }
}

impl Piece {
    /// Padding then content, as one layout.
    fn padded(&self, min_width: usize, content: Vec<u8>) -> (r: Layout)
        ensures
            r.text() == self.padding_text(min_width as int) + content@,
    {
        let (fill, count) = self.write_padding(min_width);
        let r = Layout { head: Vec::new(), fill, count, tail: content };
        assert(r.text() =~= self.padding_text(min_width as int) + content@);
        r
    }

    /// Layout of the directives that print a name or a meridian.
    fn layout_name(&self, t: &TimeValue) -> (r: Result<Layout, Error>)
        requires
            matches!(self.spec, Conversion::MonthName | Conversion::MonthNameAbbr
                | Conversion::WeekDayName | Conversion::WeekDayNameAbbr
                | Conversion::MeridianLower | Conversion::MeridianUpper),
        ensures
            layout_agrees(r, self.text(*t)),
    {
        let upper = self.flags.has_change_or_upper_case();
        match self.spec {
            Conversion::MonthName | Conversion::MonthNameAbbr => {
                if t.month < 1 || t.month > 12 {
                    return Err(Error::InvalidTime);
                }
                let name = cased(month_name_bytes(t.month), upper);
                if matches!(self.spec, Conversion::MonthName) {
                    Ok(self.format_string(name))
                } else {
                    Ok(self.format_string(abbreviated(&name)))
                }
            },
            Conversion::WeekDayName | Conversion::WeekDayNameAbbr => {
                if t.day_of_week > 6 {
                    return Err(Error::InvalidTime);
                }
                let name = cased(day_name_bytes(t.day_of_week), upper);
                if matches!(self.spec, Conversion::WeekDayName) {
                    Ok(self.format_string(name))
                } else {
                    Ok(self.format_string(abbreviated(&name)))
                }
            },
            Conversion::MeridianLower => Ok(self.format_string(meridian_bytes(t.hour, !upper))),
            _ => Ok(self.format_string(meridian_bytes(t.hour, self.flags.change_case))),
        }
    }

    /// Compute UTC offset parts for the `%z` specifier.
    pub fn compute_offset_parts(&self, t: &TimeValue) -> (r: UtcOffset)
        ensures
            r.negative == self.offset_negative(*t),
            r.hour == crate::format::abs(t.utc_offset as int) / 3600,
            r.minute == (crate::format::abs(t.utc_offset as int) / 60) % 60,
            r.second == crate::format::abs(t.utc_offset as int) % 60,
    {
        // UTC is represented as "-00:00" if the '-' flag is set
        let negative = t.utc_offset < 0 || (t.is_utc && self.flags.left_padding);
        let a = magnitude(t.utc_offset as i64);
        UtcOffset::new(negative, a / 3600, (a / 60) % 60, a % 60)
    }

    /// Write the time zone UTC offset as `"+hh"`.
    pub fn write_offset_hh(&self, u: &UtcOffset) -> (r: Layout)
        requires
            crate::format::piece_wf(*self),
        ensures
            r.text() == self.offset_hour_text(u.negative, u.hour as nat, 3),
    {
        let r = self.write_offset(u.negative, u.hour, 3, &Vec::new());
        assert(r.text() =~= self.offset_hour_text(u.negative, u.hour as nat, 3));
        r
    }

    /// Write the time zone UTC offset as `"+hhmm"`.
    pub fn write_offset_hhmm(&self, u: &UtcOffset) -> (r: Layout)
        requires
            crate::format::piece_wf(*self),
        ensures
            r.text() == self.offset_hour_text(u.negative, u.hour as nat, 5)
                + crate::format::zero_padded(false, u.minute as nat, 2),
    {
        let mut rest: Vec<u8> = Vec::new();
        push_zero_padded(&mut rest, false, u.minute, 2);
        self.write_offset(u.negative, u.hour, 5, &rest)
    }

    /// Write the time zone UTC offset as `"+hh:mm"`.
    pub fn write_offset_hh_mm(&self, u: &UtcOffset) -> (r: Layout)
        requires
            crate::format::piece_wf(*self),
        ensures
            r.text() == self.offset_hour_text(u.negative, u.hour as nat, 6) + seq![COLON]
                + crate::format::zero_padded(false, u.minute as nat, 2),
    {
        let mut rest: Vec<u8> = vec![COLON];
        push_zero_padded(&mut rest, false, u.minute, 2);
        let r = self.write_offset(u.negative, u.hour, 6, &rest);
        assert(r.text() =~= self.offset_hour_text(u.negative, u.hour as nat, 6) + seq![COLON]
            + crate::format::zero_padded(false, u.minute as nat, 2));
        r
    }

    /// Write the time zone UTC offset as `"+hh:mm:ss"`.
    pub fn write_offset_hh_mm_ss(&self, u: &UtcOffset) -> (r: Layout)
        requires
            crate::format::piece_wf(*self),
        ensures
            r.text() == self.offset_hour_text(u.negative, u.hour as nat, 9) + seq![COLON]
                + crate::format::zero_padded(false, u.minute as nat, 2) + seq![COLON]
                + crate::format::zero_padded(false, u.second as nat, 2),
    {
        let mut rest: Vec<u8> = vec![COLON];
        push_zero_padded(&mut rest, false, u.minute, 2);
        rest.push(COLON);
        push_zero_padded(&mut rest, false, u.second, 2);
        let r = self.write_offset(u.negative, u.hour, 9, &rest);
        assert(r.text() =~= self.offset_hour_text(u.negative, u.hour as nat, 9) + seq![COLON]
            + crate::format::zero_padded(false, u.minute as nat, 2) + seq![COLON]
            + crate::format::zero_padded(false, u.second as nat, 2));
        r
    }

    /// Layout of the UTC offset directives.
    fn layout_offset(&self, t: &TimeValue) -> (r: Layout)
        requires
            crate::format::piece_wf(*self),
            matches!(self.spec, Conversion::TimeZoneOffsetHourMinute
                | Conversion::TimeZoneOffsetHourMinuteColon
                | Conversion::TimeZoneOffsetHourMinuteSecondColon
                | Conversion::TimeZoneOffsetColonMinimal),
        ensures
            r.text() == self.offset_text(*t),
    {
        let u = self.compute_offset_parts(t);
        match self.spec {
            Conversion::TimeZoneOffsetHourMinute => self.write_offset_hhmm(&u),
            Conversion::TimeZoneOffsetHourMinuteColon => self.write_offset_hh_mm(&u),
            Conversion::TimeZoneOffsetHourMinuteSecondColon => self.write_offset_hh_mm_ss(&u),
            _ => {
                if u.second != 0 {
                    self.write_offset_hh_mm_ss(&u)
                } else if u.minute != 0 {
                    self.write_offset_hh_mm(&u)
                } else {
                    self.write_offset_hh(&u)
                }
            },
        }
    }

    /// Layout of the time zone name.
    fn layout_zone(&self, t: &TimeValue) -> (r: Result<Layout, Error>)
        requires
            matches!(self.spec, Conversion::TimeZoneName),
        ensures
            layout_agrees(r, self.text(*t)),
    {
        let name = &t.time_zone;
        if name.len() == 0 {
            let r = Layout { head: Vec::new(), fill: SPACE, count: 0, tail: Vec::new() };
            assert(r.text() =~= Seq::<u8>::empty());
            return Ok(r);
        }
        if !is_ascii_bytes(name.as_slice()) {
            return Err(Error::InvalidTime);
        }
        let converted = if self.flags.change_case {
            lower_bytes(name.as_slice())
        } else if self.flags.upper_case {
            upper_bytes(name.as_slice())
        } else {
            let mut v: Vec<u8> = Vec::new();
            push_all(&mut v, name.as_slice());
            v
        };
        if self.flags.left_padding {
            let r = Layout { head: Vec::new(), fill: SPACE, count: 0, tail: converted };
            assert(r.text() =~= self.zone_case(t.time_zone@));
            Ok(r)
        } else {
            Ok(self.padded(name.len(), converted))
        }
    }

    /// Layout of the combination directives.
    fn layout_combination(&self, t: &TimeValue) -> (r: Result<Layout, Error>)
        requires
            matches!(self.spec, Conversion::CombinationDateTime | Conversion::CombinationDate
                | Conversion::CombinationIso8601 | Conversion::CombinationVmsDate
                | Conversion::CombinationTime12h | Conversion::CombinationHourMinute24h
                | Conversion::CombinationTime24h),
        ensures
            layout_agrees(r, self.text(*t)),
    {
        let year = t.year;
        let default_year_width: usize = if year < 0 {
            5
        } else {
            4
        };
        match self.spec {
            Conversion::CombinationDateTime => {
                if t.month < 1 || t.month > 12 || t.day_of_week > 6 {
                    return Err(Error::InvalidTime);
                }
                let min_width = 20 + year_min_width(year, default_year_width);
                Ok(self.padded(min_width, date_time_bytes(t, self.flags.upper_case)))
            },
            Conversion::CombinationDate => Ok(self.padded(8, date_bytes(t))),
            Conversion::CombinationIso8601 => {
                let min_width = 6 + year_min_width(year, default_year_width);
                Ok(self.padded(min_width, iso_date_bytes(t)))
            },
            Conversion::CombinationVmsDate => {
                if t.month < 1 || t.month > 12 {
                    return Err(Error::InvalidTime);
                }
                let min_width = 7 + year_min_width(year, 4);
                Ok(self.padded(min_width, vms_date_bytes(t)))
            },
            Conversion::CombinationTime12h => Ok(self.padded(11, time_12h_bytes(t))),
            Conversion::CombinationHourMinute24h => Ok(self.padded(5, hour_minute_bytes(t))),
            _ => Ok(self.padded(8, time_24h_bytes(t))),
        }
    }
}

/// `%D` without padding.
fn date_bytes(t: &TimeValue) -> (r: Vec<u8>)
    ensures
        r@ == crate::format::date_text(*t),
{
    let mut v: Vec<u8> = Vec::new();
    push_zero_padded(&mut v, false, t.month as u64, 2);
    v.push(SLASH);
    push_zero_padded(&mut v, false, t.day as u64, 2);
    v.push(SLASH);
    push_zero_padded(&mut v, false, rem_euclid_100(t.year as i64) as u64, 2);
    assert(v@ =~= crate::format::date_text(*t));
    v
}

/// `%F` without padding.
fn iso_date_bytes(t: &TimeValue) -> (r: Vec<u8>)
    ensures
        r@ == crate::format::iso_date_text(*t),
{
    let year = t.year;
    let default_year_width: usize = if year < 0 {
        5
    } else {
        4
    };
    let mut v: Vec<u8> = Vec::new();
    push_zero_padded(&mut v, year < 0, magnitude(year as i64), default_year_width);
    v.push(MINUS);
    push_zero_padded(&mut v, false, t.month as u64, 2);
    v.push(MINUS);
    push_zero_padded(&mut v, false, t.day as u64, 2);
    assert(v@ =~= crate::format::iso_date_text(*t));
    v
}

/// `%v` without padding.
fn vms_date_bytes(t: &TimeValue) -> (r: Vec<u8>)
    requires
        1 <= t.month <= 12,
    ensures
        r@ == crate::format::vms_date_text(*t),
{
    let month = upper_bytes(month_name_bytes(t.month).as_slice());
    let mut v: Vec<u8> = Vec::new();
    push_space_padded(&mut v, false, t.day as u64, 2);
    v.push(MINUS);
    push_all(&mut v, abbreviated(&month).as_slice());
    v.push(MINUS);
    push_zero_padded(&mut v, t.year < 0, magnitude(t.year as i64), 4);
    assert(v@ =~= crate::format::vms_date_text(*t));
    v
}

/// `%r` without padding.
fn time_12h_bytes(t: &TimeValue) -> (r: Vec<u8>)
    ensures
        r@ == crate::format::time_12h_text(*t),
{
    let mut v: Vec<u8> = Vec::new();
    push_zero_padded(&mut v, false, hour_12(t.hour) as u64, 2);
    v.push(COLON);
    push_zero_padded(&mut v, false, t.minute as u64, 2);
    v.push(COLON);
    push_zero_padded(&mut v, false, t.second as u64, 2);
    v.push(SPACE);
    push_all(&mut v, meridian_bytes(t.hour, false).as_slice());
    assert(v@ =~= crate::format::time_12h_text(*t));
    v
}

/// `%R` without padding.
fn hour_minute_bytes(t: &TimeValue) -> (r: Vec<u8>)
    ensures
        r@ == crate::format::hour_minute_text(*t),
{
    let mut v: Vec<u8> = Vec::new();
    push_zero_padded(&mut v, false, t.hour as u64, 2);
    v.push(COLON);
    push_zero_padded(&mut v, false, t.minute as u64, 2);
    assert(v@ =~= crate::format::hour_minute_text(*t));
    v
}

/// `%T` without padding.
fn time_24h_bytes(t: &TimeValue) -> (r: Vec<u8>)
    ensures
        r@ == crate::format::time_24h_text(*t),
{
    let mut v: Vec<u8> = Vec::new();
    push_zero_padded(&mut v, false, t.hour as u64, 2);
    v.push(COLON);
    push_zero_padded(&mut v, false, t.minute as u64, 2);
    v.push(COLON);
    push_zero_padded(&mut v, false, t.second as u64, 2);
    assert(v@ =~= crate::format::time_24h_text(*t));
    v
}

impl Piece {
    /// Layout of the numeric directives of the calendar date.
    fn layout_date_number(&self, t: &TimeValue) -> (r: Layout)
        requires
            matches!(self.spec, Conversion::Year4Digits | Conversion::YearDiv100
                | Conversion::YearRem100 | Conversion::Month | Conversion::MonthDayZero
                | Conversion::MonthDaySpace | Conversion::YearDay),
        ensures
            self.text(*t) == Ok::<Seq<u8>, Error>(r.text()),
    {
        match self.spec {
            Conversion::Year4Digits => {
                let default_width: usize = if t.year < 0 {
                    5
                } else {
                    4
                };
                self.format_num_zeros(t.year as i64, default_width)
            },
            Conversion::YearDiv100 => self.format_num_zeros(div_euclid_100(t.year as i64), 2),
            Conversion::YearRem100 => self.format_num_zeros(rem_euclid_100(t.year as i64), 2),
            Conversion::Month => self.format_num_zeros(t.month as i64, 2),
            Conversion::MonthDayZero => self.format_num_zeros(t.day as i64, 2),
            Conversion::MonthDaySpace => self.format_num_spaces(t.day as i64, 2),
            _ => self.format_num_zeros(t.day_of_year as i64, 3),
        }
    }

    /// Layout of the numeric directives of the time of day, of `%s`, and of
    /// `%n`, `%t` and `%%`.
    fn layout_clock_number(&self, t: &TimeValue) -> (r: Layout)
        requires
            matches!(self.spec, Conversion::Hour24hZero | Conversion::Hour24hSpace
                | Conversion::Hour12hZero | Conversion::Hour12hSpace | Conversion::Minute
                | Conversion::Second | Conversion::MilliSecond | Conversion::FractionalSecond
                | Conversion::SecondsSinceEpoch | Conversion::Newline | Conversion::Tabulation
                | Conversion::Percent),
        ensures
            self.text(*t) == Ok::<Seq<u8>, Error>(r.text()),
    {
        match self.spec {
            Conversion::Hour24hZero => self.format_num_zeros(t.hour as i64, 2),
            Conversion::Hour24hSpace => self.format_num_spaces(t.hour as i64, 2),
            Conversion::Hour12hZero => self.format_num_zeros(hour_12(t.hour) as i64, 2),
            Conversion::Hour12hSpace => self.format_num_spaces(hour_12(t.hour) as i64, 2),
            Conversion::Minute => self.format_num_zeros(t.minute as i64, 2),
            Conversion::Second => self.format_num_zeros(t.second as i64, 2),
            Conversion::MilliSecond => self.format_nanoseconds(t.nanoseconds, 3),
            Conversion::FractionalSecond => self.format_nanoseconds(t.nanoseconds, 9),
            Conversion::SecondsSinceEpoch => self.format_num_zeros(t.to_int, 1),
            _ => {
                let b: u8 = match self.spec {
                    Conversion::Newline => 10,
                    Conversion::Tabulation => 9,
                    _ => PERCENT,
                };
                let v: Vec<u8> = vec![b];
                assert(v@ =~= seq![b]);
                self.format_string(v)
            },
        }
    }

    /// Layout of the directives of weekdays and weeks.
    fn layout_week_number(&self, t: &TimeValue) -> (r: Layout)
        requires
            matches!(self.spec, Conversion::WeekDayFrom1 | Conversion::WeekDayFrom0
                | Conversion::YearIso8601 | Conversion::YearIso8601Rem100
                | Conversion::WeekNumberIso8601 | Conversion::WeekNumberFromSunday
                | Conversion::WeekNumberFromMonday),
        ensures
            self.text(*t) == Ok::<Seq<u8>, Error>(r.text()),
    {
        match self.spec {
            Conversion::WeekDayFrom1 => {
                let day_of_week: u8 = if t.day_of_week == 0 {
                    7
                } else {
                    t.day_of_week
                };
                self.format_num_zeros(day_of_week as i64, 1)
            },
            Conversion::WeekDayFrom0 => self.format_num_zeros(t.day_of_week as i64, 1),
            Conversion::WeekNumberFromSunday => {
                let n = week_number(t.day_of_week as i64, t.day_of_year as i64, WeekStart::Sunday);
                self.format_num_zeros(n, 2)
            },
            Conversion::WeekNumberFromMonday => {
                let n = week_number(t.day_of_week as i64, t.day_of_year as i64, WeekStart::Monday);
                self.format_num_zeros(n, 2)
            },
            _ => {
                let (iso_year, iso_week_number) = iso_8601_year_and_week_number(
                    t.year as i64,
                    t.day_of_week as i64,
                    t.day_of_year as i64,
                );
                match self.spec {
                    Conversion::YearIso8601 => {
                        let default_width: usize = if iso_year < 0 {
                            5
                        } else {
                            4
                        };
                        self.format_num_zeros(iso_year, default_width)
                    },
                    Conversion::YearIso8601Rem100 => self.format_num_zeros(
                        rem_euclid_100(iso_year),
                        2,
                    ),
                    _ => self.format_num_zeros(iso_week_number, 2),
                }
            },
        }
    }

    /// Lay out the directive for a time value.
    pub fn layout(&self, t: &TimeValue) -> (r: Result<Layout, Error>)
        requires
            crate::format::piece_wf(*self),
        ensures
            layout_agrees(r, self.text(*t)),
    {
        match self.spec {
            Conversion::MonthName | Conversion::MonthNameAbbr | Conversion::WeekDayName
            | Conversion::WeekDayNameAbbr | Conversion::MeridianLower
            | Conversion::MeridianUpper => self.layout_name(t),
            Conversion::TimeZoneOffsetHourMinute | Conversion::TimeZoneOffsetHourMinuteColon
            | Conversion::TimeZoneOffsetHourMinuteSecondColon
            | Conversion::TimeZoneOffsetColonMinimal => Ok(self.layout_offset(t)),
            Conversion::TimeZoneName => self.layout_zone(t),
            Conversion::CombinationDateTime | Conversion::CombinationDate
            | Conversion::CombinationIso8601 | Conversion::CombinationVmsDate
            | Conversion::CombinationTime12h | Conversion::CombinationHourMinute24h
            | Conversion::CombinationTime24h => self.layout_combination(t),
            Conversion::Year4Digits | Conversion::YearDiv100 | Conversion::YearRem100
            | Conversion::Month | Conversion::MonthDayZero | Conversion::MonthDaySpace
            | Conversion::YearDay => Ok(self.layout_date_number(t)),
            Conversion::WeekDayFrom1 | Conversion::WeekDayFrom0 | Conversion::YearIso8601
            | Conversion::YearIso8601Rem100 | Conversion::WeekNumberIso8601
            | Conversion::WeekNumberFromSunday
            | Conversion::WeekNumberFromMonday => Ok(self.layout_week_number(t)),
            _ => Ok(self.layout_clock_number(t)),
        }
    }

    /// Format time using the formatting directive.
    pub fn fmt(&self, f: &mut SizeLimiter, t: &TimeValue) -> (r: Result<(), Error>)
        requires
            old(f).wf(),
            crate::format::piece_wf(*self),
        ensures
            final(f).wf(),
            final(f).size_limit == old(f).size_limit,
            final(f).capacity == old(f).capacity,
            match self.text(*t) {
                Err(e) => r == Err::<(), Error>(e) && final(f).written() == old(f).written(),
                Ok(x) => {
                    &&& final(f).written() == crate::sink::append_limited(
                        old(f).written(),
                        x,
                        old(f).room(),
                    )
                    &&& (r is Ok <==> old(f).written().len() + x.len() <= old(f).room())
                    &&& (r is Err ==> r == Err::<(), Error>(old(f).overflow_error()))
                },
            },
    {
        match self.layout(t) {
            Ok(l) => write_layout(f, &l),
            Err(e) => Err(e),
        }
    }
}

} // verus!
