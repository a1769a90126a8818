//! Properties of the formatter as a whole, stated over the specification
//! functions and proved.

use crate::format::{Conversion, Flags, Padding, Piece, MINUS, PERCENT, PLUS};
use crate::time::TimeValue;
use crate::Error;
use vstd::prelude::*;

verus! {

/// A format string without `%` is copied to the output unchanged.
pub proof fn lemma_literal_passthrough(t: TimeValue, format: Seq<u8>)
    requires
        forall|j: int| 0 <= j < format.len() ==> format[j] != PERCENT,
        format.len() <= usize::MAX,
    ensures
        crate::formatter::run(t, format) == (format, None::<Error>),
        crate::bytes::format_result(t, format) == Ok::<Seq<u8>, Error>(format),
{
    crate::formatter::lemma_run_literal(t, format, format.len());
    assert(format.take(format.len() as int) =~= format);
    assert(format.skip(format.len() as int) =~= Seq::<u8>::empty());
    assert(format + Seq::<u8>::empty() =~= format);
    assert(format.len() <= format.len() * crate::formatter::SIZE_LIMIT_PER_BYTE)
        by (nonlinear_arith);
    let l = crate::formatter::size_limit_of(format.len());
    let ws = crate::formatter::writes(t, format).0;
    crate::formatter::lemma_writes_text(t, format);
    crate::sink::lemma_put_all_bounds(Seq::<u8>::empty(), ws, l, usize::MAX as int);
    assert(Seq::<u8>::empty() + ws.flatten() =~= format);
}

/// The only error that parsing a directive gives is an unterminated
/// directive: exactly when the input ends after the flags and a width that
/// fits.
pub proof fn lemma_unterminated_only_at_end(s: Seq<u8>)
    ensures
        crate::parser::parse_of(s).0 is Err ==> crate::parser::parse_of(s).0 == Err::<
            Option<Piece>,
            Error,
        >(Error::InvalidFormatString) && crate::parser::parse_of(s).1 == s.len(),
        0 <= crate::parser::parse_of(s).1 <= s.len(),
        ({
            let nf = crate::cursor::lead_len(s, crate::parser::flag_class()) as int;
            let nd = crate::cursor::lead_len(s.skip(nf), crate::cursor::digit_class()) as int;
            crate::parser::parse_of(s).0 is Err <==> (nf + nd == s.len() && (nd == 0
                || crate::text::digits_value(s.subrange(nf, nf + nd)) <= crate::format::MAX_WIDTH))
        }),
{
    let nf = crate::cursor::lead_len(s, crate::parser::flag_class()) as int;
    crate::cursor::lemma_lead_len_prefix(s, crate::parser::flag_class());
    crate::cursor::lemma_lead_len_prefix(s.skip(nf), crate::cursor::digit_class());
    let nd = crate::cursor::lead_len(s.skip(nf), crate::cursor::digit_class()) as int;
    let p1 = nf + nd;
    let p2 = if p1 + 2 <= s.len() && crate::parser::is_modifier(s[p1], s[p1 + 1]) {
        p1 + 1
    } else {
        p1
    };
    crate::cursor::lemma_lead_len_prefix(s.skip(p2), crate::cursor::eq_class(crate::format::COLON));
}

/// The output is never cut short silently: a successful result holds the
/// whole text, and a text longer than the size limit or the destination
/// gives the error of the limit that was hit.
pub proof fn lemma_no_silent_truncation(t: TimeValue, format: Seq<u8>, capacity: int)
    requires
        capacity >= 0,
    ensures
        ({
            let (out, res) = crate::formatter::outcome(t, format, capacity);
            let (text, err) = crate::formatter::run(t, format);
            &&& res is Ok ==> out == text && err is None
            &&& text.len() > capacity || text.len() > crate::formatter::size_limit_of(format.len())
                ==> res == Err::<(), Error>(Error::FormattedStringTooLarge) || res == Err::<
                (),
                Error,
            >(Error::WriteZero)
        }),
{
    let l = crate::formatter::size_limit_of(format.len());
    let ws = crate::formatter::writes(t, format).0;
    crate::formatter::lemma_writes_text(t, format);
    crate::sink::lemma_put_all_bounds(Seq::<u8>::empty(), ws, l, capacity);
    assert(Seq::<u8>::empty() + ws.flatten() =~= ws.flatten());
}

/// Under the `-` flag a number is printed bare, whatever the width and the
/// padding flags ask.
pub proof fn lemma_left_padding_ignores_width(p: Piece, q: Piece, t: TimeValue)
    requires
        p.flags.left_padding,
        q.flags.left_padding,
        p.spec == q.spec,
        p.flags.change_case == q.flags.change_case,
        p.flags.upper_case == q.flags.upper_case,
        matches!(p.spec, Conversion::Year4Digits | Conversion::YearDiv100
            | Conversion::YearRem100 | Conversion::Month | Conversion::MonthDayZero
            | Conversion::MonthDaySpace | Conversion::YearDay | Conversion::Hour24hZero
            | Conversion::Hour24hSpace | Conversion::Hour12hZero | Conversion::Hour12hSpace
            | Conversion::Minute | Conversion::Second | Conversion::WeekDayFrom1
            | Conversion::WeekDayFrom0 | Conversion::YearIso8601 | Conversion::YearIso8601Rem100
            | Conversion::WeekNumberIso8601 | Conversion::WeekNumberFromSunday
            | Conversion::WeekNumberFromMonday | Conversion::SecondsSinceEpoch),
    ensures
        p.text(t) == q.text(t),
{
}

/// `%-<N>Y` prints the same as `%Y` for every width `N` whenever the year
/// has at least four digits: the `-` flag removes the padding, and a year of
/// four digits or more has none to remove.
pub proof fn lemma_left_padding_year(width: Option<usize>, padding: Padding, t: TimeValue)
    requires
        crate::format::signed_year_width(t.year as int) >= crate::format::default_year_width(
            t.year as int,
        ),
    ensures
        (Piece {
            width,
            padding,
            flags: Flags { left_padding: true, change_case: false, upper_case: false },
            spec: Conversion::Year4Digits,
        }).text(t) == (Piece {
            width: None,
            padding: Padding::Left,
            flags: Flags { left_padding: false, change_case: false, upper_case: false },
            spec: Conversion::Year4Digits,
        }).text(t),
{
    let y = t.year as int;
    let neg = y < 0;
    let n = crate::format::default_year_width(y) - crate::format::sign(neg).len()
        - crate::text::dec(crate::format::abs(y)).len();
    assert(crate::text::fill(crate::format::ZERO, n) =~= Seq::<u8>::empty());
    assert(crate::format::sign(neg) + Seq::<u8>::empty() + crate::text::dec(crate::format::abs(y))
        =~= crate::format::sign(neg) + crate::text::dec(crate::format::abs(y)));
}

/// Under a width no larger than the bare number, a number is printed bare;
/// under any width it is never shorter than bare.
pub proof fn lemma_width_is_minimum_number(p: Piece, v: int, default_width: int, zeros: bool)
    ensures
        p.num_text(v, default_width, zeros).len() >= crate::format::sign(v < 0).len()
            + crate::text::dec(crate::format::abs(v)).len(),
        p.width matches Some(w) && w <= crate::format::sign(v < 0).len() + crate::text::dec(
            crate::format::abs(v),
        ).len() ==> p.num_text(v, default_width, zeros) == crate::format::sign(v < 0)
            + crate::text::dec(crate::format::abs(v)),
{
    let bare = crate::format::sign(v < 0) + crate::text::dec(crate::format::abs(v));
    let n = p.width_or(default_width) - crate::format::sign(v < 0).len() - crate::text::dec(
        crate::format::abs(v),
    ).len();
    if n <= 0 {
        assert(crate::text::fill(crate::format::ZERO, n) =~= Seq::<u8>::empty());
        assert(crate::text::fill(crate::format::SPACE, n) =~= Seq::<u8>::empty());
        assert(crate::format::sign(v < 0) + Seq::<u8>::empty() + crate::text::dec(
            crate::format::abs(v),
        ) =~= bare);
        assert(Seq::<u8>::empty() + crate::format::sign(v < 0) + crate::text::dec(
            crate::format::abs(v),
        ) =~= bare);
    }
}

/// Under a width no larger than the string, a string is printed as it is;
/// under any width it is never cut.
pub proof fn lemma_width_is_minimum_string(p: Piece, s: Seq<u8>)
    ensures
        p.string_text(s).len() >= s.len(),
        p.string_text(s).len() > s.len() ==> p.string_text(s).skip(
            p.string_text(s).len() - s.len(),
        ) == s,
        p.width matches Some(w) && w <= s.len() ==> p.string_text(s) == s,
{
    match p.width {
        Some(w) => {
            let z = crate::text::fill(crate::format::ZERO, w - s.len());
            let b = crate::text::fill(crate::format::SPACE, w - s.len());
            assert((z + s).skip(z.len() as int) =~= s);
            assert((b + s).skip(b.len() as int) =~= s);
            if w <= s.len() {
                assert(z + s =~= s);
                assert(b + s =~= s);
            }
        },
        None => {},
    }
}

/// `%^B`, `%#B` and `%^#B` give the month name in uppercase, and `%B` in
/// its natural case.
pub proof fn lemma_month_name_case(t: TimeValue, width: Option<usize>, padding: Padding)
    requires
        1 <= t.month <= 12,
    ensures
        (Piece {
            width,
            padding,
            flags: Flags { left_padding: false, change_case: false, upper_case: true },
            spec: Conversion::MonthName,
        }).text(t) == Ok::<Seq<u8>, Error>(
            (Piece {
                width,
                padding,
                flags: Flags { left_padding: false, change_case: false, upper_case: false },
                spec: Conversion::MonthName,
            }).string_text(crate::text::upper_seq(crate::names::month_name(t.month))),
        ),
        (Piece {
            width,
            padding,
            flags: Flags { left_padding: false, change_case: true, upper_case: false },
            spec: Conversion::MonthName,
        }).text(t) == Ok::<Seq<u8>, Error>(
            (Piece {
                width,
                padding,
                flags: Flags { left_padding: false, change_case: false, upper_case: false },
                spec: Conversion::MonthName,
            }).string_text(crate::text::upper_seq(crate::names::month_name(t.month))),
        ),
        (Piece {
            width,
            padding,
            flags: Flags { left_padding: false, change_case: true, upper_case: true },
            spec: Conversion::MonthName,
        }).text(t) == Ok::<Seq<u8>, Error>(
            (Piece {
                width,
                padding,
                flags: Flags { left_padding: false, change_case: false, upper_case: false },
                spec: Conversion::MonthName,
            }).string_text(crate::text::upper_seq(crate::names::month_name(t.month))),
        ),
        (Piece {
            width,
            padding,
            flags: Flags { left_padding: false, change_case: false, upper_case: false },
            spec: Conversion::MonthName,
        }).text(t) == Ok::<Seq<u8>, Error>(
            (Piece {
                width,
                padding,
                flags: Flags { left_padding: false, change_case: false, upper_case: false },
                spec: Conversion::MonthName,
            }).string_text(crate::names::month_name(t.month)),
        ),
{
}

/// For a UTC time with a zero offset, `%-z` starts with `-` and `%z` with
/// `+`.
pub proof fn lemma_utc_signed_zero(t: TimeValue)
    requires
        t.is_utc,
        t.utc_offset == 0,
    ensures
        (Piece {
            width: None,
            padding: Padding::Left,
            flags: Flags { left_padding: true, change_case: false, upper_case: false },
            spec: Conversion::TimeZoneOffsetHourMinute,
        }).text(t) == Ok::<Seq<u8>, Error>(seq![MINUS, 48u8, 48, 48, 48]),
        (Piece {
            width: None,
            padding: Padding::Left,
            flags: Flags { left_padding: false, change_case: false, upper_case: false },
            spec: Conversion::TimeZoneOffsetHourMinute,
        }).text(t) == Ok::<Seq<u8>, Error>(seq![PLUS, 48u8, 48, 48, 48]),
{
    reveal_with_fuel(crate::text::dec, 2);
    let d = crate::text::dec(0);
    assert(d =~= seq![48u8]);
    assert(crate::text::fill(crate::format::ZERO, 1) =~= seq![48u8]);
    assert(crate::text::fill(crate::format::ZERO, 0) =~= Seq::<u8>::empty());
    let p = Piece {
        width: None,
        padding: Padding::Left,
        flags: Flags { left_padding: true, change_case: false, upper_case: false },
        spec: Conversion::TimeZoneOffsetHourMinute,
    };
    let q = Piece {
        width: None,
        padding: Padding::Left,
        flags: Flags { left_padding: false, change_case: false, upper_case: false },
        spec: Conversion::TimeZoneOffsetHourMinute,
    };
    assert(p.offset_hour_text(true, 0, 5) =~= seq![MINUS, 48u8, 48]);
    assert(q.offset_hour_text(false, 0, 5) =~= seq![PLUS, 48u8, 48]);
    assert(crate::format::zero_padded(false, 0, 2) =~= seq![48u8, 48]);
    assert(p.offset_hm_text(t, false) =~= seq![MINUS, 48u8, 48, 48, 48]);
    assert(q.offset_hm_text(t, false) =~= seq![PLUS, 48u8, 48, 48, 48]);
}

/// A directive of flags and a conversion letter, without width, parses as
/// that conversion with the flags.
pub proof fn lemma_parse_flags_letter(flags: Seq<u8>, c: u8)
    requires
        forall|j: int| 0 <= j < flags.len() ==> crate::parser::is_flag(#[trigger] flags[j]),
        crate::parser::conversion_of(c) is Some,
        !crate::parser::is_flag(c),
        !crate::text::is_digit(c),
        c != crate::format::COLON,
    ensures
        ({
            let s = flags.push(c);
            let (padding, f) = crate::parser::scan_flags(
                s,
                Padding::Left,
                Flags { left_padding: false, change_case: false, upper_case: false },
            );
            crate::parser::parse_of(s) == (
                Ok::<Option<Piece>, Error>(
                    Some(
                        Piece {
                            width: None,
                            padding,
                            flags: f,
                            spec: crate::parser::conversion_of(c)->Some_0,
                        },
                    ),
                ),
                s.len() as int,
            )
        }),
{
    let s = flags.push(c);
    let n = flags.len();
    crate::cursor::lemma_lead_len_exact(s, crate::parser::flag_class(), n);
    assert(s.skip(n as int)[0] == c);
    crate::cursor::lemma_lead_len_exact(s.skip(n as int), crate::cursor::digit_class(), 0);
    crate::cursor::lemma_lead_len_exact(
        s.skip(n as int),
        crate::cursor::eq_class(crate::format::COLON),
        0,
    );
    assert(s.subrange(n as int, n as int) =~= Seq::<u8>::empty());
}

/// A format string that is one such directive prints what the directive
/// renders.
pub proof fn lemma_run_single_directive(t: TimeValue, flags: Seq<u8>, c: u8)
    requires
        forall|j: int| 0 <= j < flags.len() ==> crate::parser::is_flag(#[trigger] flags[j]),
        crate::parser::conversion_of(c) is Some,
        !crate::parser::is_flag(c),
        !crate::text::is_digit(c),
        c != crate::format::COLON,
    ensures
        ({
            let s = flags.push(c);
            let (padding, f) = crate::parser::scan_flags(
                s,
                Padding::Left,
                Flags { left_padding: false, change_case: false, upper_case: false },
            );
            let p = Piece {
                width: None,
                padding,
                flags: f,
                spec: crate::parser::conversion_of(c)->Some_0,
            };
            crate::formatter::run(t, seq![PERCENT] + s) == match p.text(t) {
                Ok(x) => (x, None::<Error>),
                Err(e) => (Seq::<u8>::empty(), Some(e)),
            }
        }),
{
    let s = flags.push(c);
    let full = seq![PERCENT] + s;
    lemma_parse_flags_letter(flags, c);
    assert(full.skip(1) =~= s);
    assert(full.skip(1 + s.len() as int) =~= Seq::<u8>::empty());
    assert(full[0] == PERCENT);
    assert(full.len() == 1 + s.len());
    assert(crate::formatter::run(t, Seq::<u8>::empty()) == (Seq::<u8>::empty(), None::<Error>));
    assert(full.take(1 + s.len() as int) =~= full);
    let (padding, f) = crate::parser::scan_flags(
        s,
        Padding::Left,
        Flags { left_padding: false, change_case: false, upper_case: false },
    );
    let p = Piece { width: None, padding, flags: f, spec: crate::parser::conversion_of(c)->Some_0 };
    match p.text(t) {
        Ok(x) => {
            assert(x + Seq::<u8>::empty() =~= x);
        },
        Err(_) => {},
    }
}

/// Flags of a run of flag bytes followed by a byte that is not a flag.
proof fn lemma_scan_flags_step(s: Seq<u8>, padding: Padding, flags: Flags)
    requires
        s.len() >= 1,
        crate::parser::is_flag(s[0]),
    ensures
        crate::parser::scan_flags(s, padding, flags) == crate::parser::scan_flags(
            s.skip(1),
            crate::parser::apply_flag(s[0], padding, flags).0,
            crate::parser::apply_flag(s[0], padding, flags).1,
        ),
{
}

/// `"%^B"`, `"%#B"` and `"%^#B"` print the month name in uppercase, and
/// `"%B"` in its natural case.
pub proof fn lemma_month_name_case_format(t: TimeValue)
    requires
        1 <= t.month <= 12,
    ensures
        crate::formatter::run(t, seq![PERCENT, 94u8, 66]) == (
            crate::text::upper_seq(crate::names::month_name(t.month)),
            None::<Error>,
        ),
        crate::formatter::run(t, seq![PERCENT, 35u8, 66]) == (
            crate::text::upper_seq(crate::names::month_name(t.month)),
            None::<Error>,
        ),
        crate::formatter::run(t, seq![PERCENT, 94u8, 35, 66]) == (
            crate::text::upper_seq(crate::names::month_name(t.month)),
            None::<Error>,
        ),
        crate::formatter::run(t, seq![PERCENT, 66u8]) == (
            crate::names::month_name(t.month),
            None::<Error>,
        ),
{
    let empty = Flags { left_padding: false, change_case: false, upper_case: false };
    let up = seq![94u8];
    let ch = seq![35u8];
    let both = seq![94u8, 35];
    let none = Seq::<u8>::empty();
    lemma_run_single_directive(t, up, 66);
    lemma_run_single_directive(t, ch, 66);
    lemma_run_single_directive(t, both, 66);
    lemma_run_single_directive(t, none, 66);
    assert(seq![PERCENT] + up.push(66) =~= seq![PERCENT, 94u8, 66]);
    assert(seq![PERCENT] + ch.push(66) =~= seq![PERCENT, 35u8, 66]);
    assert(seq![PERCENT] + both.push(66) =~= seq![PERCENT, 94u8, 35, 66]);
    assert(seq![PERCENT] + none.push(66) =~= seq![PERCENT, 66u8]);
    // Flags of each directive.
    let upper = Flags { upper_case: true, ..empty };
    let change = Flags { change_case: true, ..empty };
    let upper_change = Flags { change_case: true, ..upper };
    assert(up.push(66) =~= seq![94u8, 66]);
    assert(ch.push(66) =~= seq![35u8, 66]);
    assert(both.push(66) =~= seq![94u8, 35, 66]);
    assert(none.push(66) =~= seq![66u8]);
    assert(seq![94u8, 66].skip(1) =~= seq![66u8]);
    assert(seq![35u8, 66].skip(1) =~= seq![66u8]);
    assert(seq![94u8, 35, 66].skip(1) =~= seq![35u8, 66]);
    assert(crate::parser::scan_flags(seq![66u8], Padding::Left, upper) == (Padding::Left, upper));
    assert(crate::parser::scan_flags(seq![66u8], Padding::Left, change) == (Padding::Left, change));
    assert(crate::parser::scan_flags(seq![66u8], Padding::Left, upper_change) == (
        Padding::Left,
        upper_change,
    ));
    assert(crate::parser::scan_flags(seq![66u8], Padding::Left, empty) == (Padding::Left, empty));
    lemma_scan_flags_step(seq![94u8, 66], Padding::Left, empty);
    lemma_scan_flags_step(seq![35u8, 66], Padding::Left, empty);
    lemma_scan_flags_step(seq![35u8, 66], Padding::Left, upper);
    lemma_scan_flags_step(seq![94u8, 35, 66], Padding::Left, empty);
}

/// For a UTC time with a zero offset, `"%-z"` prints `-0000` and `"%z"`
/// prints `+0000`.
pub proof fn lemma_utc_signed_zero_format(t: TimeValue)
    requires
        t.is_utc,
        t.utc_offset == 0,
    ensures
        crate::formatter::run(t, seq![PERCENT, 45u8, 122]) == (
            seq![MINUS, 48u8, 48, 48, 48],
            None::<Error>,
        ),
        crate::formatter::run(t, seq![PERCENT, 122u8]) == (
            seq![PLUS, 48u8, 48, 48, 48],
            None::<Error>,
        ),
{
    let minus = seq![45u8];
    let none = Seq::<u8>::empty();
    lemma_run_single_directive(t, minus, 122);
    lemma_run_single_directive(t, none, 122);
    assert(seq![PERCENT] + minus.push(122) =~= seq![PERCENT, 45u8, 122]);
    assert(seq![PERCENT] + none.push(122) =~= seq![PERCENT, 122u8]);
    let empty = Flags { left_padding: false, change_case: false, upper_case: false };
    let left = Flags { left_padding: true, ..empty };
    assert(minus.push(122) =~= seq![45u8, 122]);
    assert(none.push(122) =~= seq![122u8]);
    assert(seq![45u8, 122].skip(1) =~= seq![122u8]);
    assert(crate::parser::scan_flags(seq![122u8], Padding::Left, left) == (Padding::Left, left));
    assert(crate::parser::scan_flags(seq![122u8], Padding::Left, empty) == (Padding::Left, empty));
    lemma_scan_flags_step(seq![45u8, 122], Padding::Left, empty);
    lemma_utc_signed_zero(t);
}

/// A directive of flags, a width and a conversion letter parses as that
/// conversion with the flags and the width.
pub proof fn lemma_parse_flags_width_letter(flags: Seq<u8>, digits: Seq<u8>, c: u8)
    requires
        forall|j: int| 0 <= j < flags.len() ==> crate::parser::is_flag(#[trigger] flags[j]),
        forall|j: int| 0 <= j < digits.len() ==> crate::text::is_digit(#[trigger] digits[j]),
        digits.len() > 0,
        digits[0] != 48,
        crate::text::digits_value(digits) <= crate::format::MAX_WIDTH,
        crate::parser::conversion_of(c) is Some,
        !crate::parser::is_flag(c),
        !crate::text::is_digit(c),
        c != crate::format::COLON,
    ensures
        ({
            let s = (flags + digits).push(c);
            let (padding, f) = crate::parser::scan_flags(
                s,
                Padding::Left,
                Flags { left_padding: false, change_case: false, upper_case: false },
            );
            crate::parser::parse_of(s) == (
                Ok::<Option<Piece>, Error>(
                    Some(
                        Piece {
                            width: Some(crate::text::digits_value(digits) as usize),
                            padding,
                            flags: f,
                            spec: crate::parser::conversion_of(c)->Some_0,
                        },
                    ),
                ),
                s.len() as int,
            )
        }),
{
    let s = (flags + digits).push(c);
    let nf = flags.len() as int;
    let nd = digits.len() as int;
    assert forall|j: int| 0 <= j < nf implies crate::parser::is_flag(#[trigger] s[j]) by {
        assert(s[j] == flags[j]);
    }
    assert(s[nf] == digits[0]);
    crate::cursor::lemma_lead_len_exact(s, crate::parser::flag_class(), nf as nat);
    let rest = s.skip(nf);
    assert forall|j: int| 0 <= j < nd implies crate::text::is_digit(#[trigger] rest[j]) by {
        assert(rest[j] == digits[j]);
    }
    assert(rest[nd] == c);
    crate::cursor::lemma_lead_len_exact(rest, crate::cursor::digit_class(), nd as nat);
    assert(s.subrange(nf, nf + nd) =~= digits);
    assert(s.skip(nf + nd)[0] == c);
    crate::cursor::lemma_lead_len_exact(
        s.skip(nf + nd),
        crate::cursor::eq_class(crate::format::COLON),
        0,
    );
}

/// Under the `-` flag, `"%-<N>Y"` prints the same as `"%Y"` for every width
/// `N` (written without leading zeros), whenever the year has at least four
/// digits.
pub proof fn lemma_left_padding_year_format(t: TimeValue, digits: Seq<u8>)
    requires
        forall|j: int| 0 <= j < digits.len() ==> crate::text::is_digit(#[trigger] digits[j]),
        digits.len() > 0,
        digits[0] != 48,
        crate::text::digits_value(digits) <= crate::format::MAX_WIDTH,
        crate::format::signed_year_width(t.year as int) >= crate::format::default_year_width(
            t.year as int,
        ),
    ensures
        crate::formatter::run(t, seq![PERCENT, 45u8] + digits + seq![89u8])
            == crate::formatter::run(t, seq![PERCENT, 89u8]),
{
    let minus = seq![45u8];
    let s = (minus + digits).push(89);
    let full = seq![PERCENT] + s;
    assert(full =~= seq![PERCENT, 45u8] + digits + seq![89u8]);
    lemma_parse_flags_width_letter(minus, digits, 89);
    let empty = Flags { left_padding: false, change_case: false, upper_case: false };
    let left = Flags { left_padding: true, ..empty };
    lemma_scan_flags_step(s, Padding::Left, empty);
    assert(s.skip(1)[0] == digits[0]);
    assert(crate::parser::scan_flags(s.skip(1), Padding::Left, left) == (Padding::Left, left));
    let p = Piece {
        width: Some(crate::text::digits_value(digits) as usize),
        padding: Padding::Left,
        flags: left,
        spec: Conversion::Year4Digits,
    };
    lemma_left_padding_year(p.width, Padding::Left, t);
    // Unfold the run of the directive.
    assert(full.skip(1) =~= s);
    assert(full.skip(1 + s.len() as int) =~= Seq::<u8>::empty());
    assert(full[0] == PERCENT);
    assert(crate::formatter::run(t, Seq::<u8>::empty()) == (Seq::<u8>::empty(), None::<Error>));
    match p.text(t) {
        Ok(x) => {
            assert(x + Seq::<u8>::empty() =~= x);
        },
        Err(_) => {},
    }
    // And the one of `%Y`.
    let none = Seq::<u8>::empty();
    lemma_run_single_directive(t, none, 89);
    assert(seq![PERCENT] + none.push(89) =~= seq![PERCENT, 89u8]);
    assert(none.push(89) =~= seq![89u8]);
    assert(crate::parser::scan_flags(seq![89u8], Padding::Left, empty) == (Padding::Left, empty));
}

/// Under the `-` flag, `"%-<N>Y"` and `"%-Y"` both print the year bare, with
/// its sign and no padding, for every year and every width `N` (written
/// without leading zeros).
pub proof fn lemma_left_padding_bare_year(t: TimeValue, digits: Seq<u8>)
    requires
        forall|j: int| 0 <= j < digits.len() ==> crate::text::is_digit(#[trigger] digits[j]),
        digits.len() > 0,
        digits[0] != 48,
        crate::text::digits_value(digits) <= crate::format::MAX_WIDTH,
    ensures
        crate::formatter::run(t, seq![PERCENT, 45u8] + digits + seq![89u8]) == (
            crate::format::sign(t.year < 0) + crate::text::dec(crate::format::abs(t.year as int)),
            None::<Error>,
        ),
        crate::formatter::run(t, seq![PERCENT, 45u8, 89]) == (
            crate::format::sign(t.year < 0) + crate::text::dec(crate::format::abs(t.year as int)),
            None::<Error>,
        ),
{
    let empty = Flags { left_padding: false, change_case: false, upper_case: false };
    let left = Flags { left_padding: true, ..empty };
    let minus = seq![45u8];
    // With a width.
    let s = (minus + digits).push(89);
    let full = seq![PERCENT] + s;
    assert(full =~= seq![PERCENT, 45u8] + digits + seq![89u8]);
    lemma_parse_flags_width_letter(minus, digits, 89);
    lemma_scan_flags_step(s, Padding::Left, empty);
    assert(s.skip(1)[0] == digits[0]);
    assert(crate::parser::scan_flags(s.skip(1), Padding::Left, left) == (Padding::Left, left));
    assert(full.skip(1) =~= s);
    assert(full.skip(1 + s.len() as int) =~= Seq::<u8>::empty());
    assert(full[0] == PERCENT);
    assert(crate::formatter::run(t, Seq::<u8>::empty()) == (Seq::<u8>::empty(), None::<Error>));
    let bare = crate::format::sign(t.year < 0) + crate::text::dec(crate::format::abs(t.year as int));
    assert(bare + Seq::<u8>::empty() =~= bare);
    // Without one.
    lemma_run_single_directive(t, minus, 89);
    assert(seq![PERCENT] + minus.push(89) =~= seq![PERCENT, 45u8, 89]);
    assert(minus.push(89) =~= seq![45u8, 89]);
    assert(seq![45u8, 89].skip(1) =~= seq![89u8]);
    assert(crate::parser::scan_flags(seq![89u8], Padding::Left, left) == (Padding::Left, left));
    lemma_scan_flags_step(seq![45u8, 89], Padding::Left, empty);
}

/// A number printed with a width and without the `-` flag fills exactly
/// the larger of the width and its bare length: the width never cuts it.
pub proof fn lemma_number_fills_width(p: Piece, v: int, default_width: int, zeros: bool)
    requires
        !p.flags.left_padding,
    ensures
        ({
            let bare = crate::format::sign(v < 0).len() + crate::text::dec(crate::format::abs(v)).len();
            let w = p.width_or(default_width);
            p.num_text(v, default_width, zeros).len() == if w > bare {
                w
            } else {
                bare as int
            }
        }),
{
}

/// A string printed with a width and without the `-` flag fills exactly
/// the larger of the width and its length.
pub proof fn lemma_string_fills_width(p: Piece, s: Seq<u8>, w: usize)
    requires
        !p.flags.left_padding,
        p.width == Some(w),
    ensures
        p.string_text(s).len() == if w > s.len() {
            w as int
        } else {
            s.len() as int
        },
{
}

} // verus!
