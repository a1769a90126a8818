//! The output of a UTF-8 format string is UTF-8: directives print ASCII,
//! and every other byte of the format string is copied in order.

use crate::format::{Conversion, Piece, PERCENT};
use crate::time::TimeValue;
use vstd::prelude::*;
use vstd::utf8::{length_of_first_scalar, pop_first_scalar, valid_first_scalar, valid_utf8};

verus! {

/// Bytes below 128 are valid UTF-8, one scalar each.
pub proof fn lemma_ascii_valid(x: Seq<u8>)
    requires
        crate::text::all_ascii(x),
    ensures
        valid_utf8(x),
    decreases x.len(),
{
    if x.len() > 0 {
        let b = x[0];
        assert(b & 0x7f <= 0x7f) by (bit_vector);
        assert(valid_first_scalar(x));
        assert(pop_first_scalar(x) =~= x.skip(1));
        lemma_ascii_valid(x.skip(1));
    }
}

/// Two valid UTF-8 byte strings one after the other are valid UTF-8.
pub proof fn lemma_valid_concat(a: Seq<u8>, b: Seq<u8>)
    requires
        valid_utf8(a),
        valid_utf8(b),
    ensures
        valid_utf8(a + b),
    decreases a.len(),
{
    if a.len() == 0 {
        assert(a + b =~= b);
    } else {
        let ab = a + b;
        assert forall|i: int| 0 <= i < a.len() implies ab[i] == a[i] by {}
        if a.len() >= 2 {
            assert(ab[1] == a[1]);
        }
        if a.len() >= 3 {
            assert(ab[2] == a[2]);
        }
        if a.len() >= 4 {
            assert(ab[3] == a[3]);
        }
        assert(ab[0] == a[0]);
        let m = length_of_first_scalar(a);
        assert(1 <= m <= a.len());
        assert(valid_first_scalar(ab));
        assert(length_of_first_scalar(ab) == m);
        assert(pop_first_scalar(ab) =~= pop_first_scalar(a) + b);
        lemma_valid_concat(pop_first_scalar(a), b);
    }
}

/// Dropping a prefix of ASCII bytes from valid UTF-8 leaves valid UTF-8.
pub proof fn lemma_skip_ascii_prefix(s: Seq<u8>, k: int)
    requires
        valid_utf8(s),
        0 <= k <= s.len(),
        forall|j: int| 0 <= j < k ==> s[j] < 128,
    ensures
        valid_utf8(s.skip(k)),
    decreases k,
{
    if k == 0 {
        assert(s.skip(0) =~= s);
    } else {
        assert(s[0] < 128);
        assert(pop_first_scalar(s) =~= s.skip(1));
        lemma_skip_ascii_prefix(s.skip(1), k - 1);
        assert(s.skip(1).skip(k - 1) =~= s.skip(k));
    }
}

/// A valid UTF-8 string that starts with a byte of 128 or more starts with
/// a scalar of several bytes, all of them 128 or more.
pub proof fn lemma_first_scalar_wide(s: Seq<u8>)
    requires
        valid_utf8(s),
        s.len() > 0,
        s[0] >= 128,
    ensures
        2 <= length_of_first_scalar(s) <= s.len(),
        valid_utf8(s.take(length_of_first_scalar(s))),
        valid_utf8(s.skip(length_of_first_scalar(s))),
        forall|j: int| 0 <= j < length_of_first_scalar(s) ==> s[j] >= 128,
{
    assert(valid_first_scalar(s));
    let m = length_of_first_scalar(s);
    assert(2 <= m <= s.len());
    let h = s.take(m);
    assert(pop_first_scalar(s) =~= s.skip(m));
    assert forall|i: int| 0 <= i < m implies h[i] == s[i] by {}
    assert(h[0] == s[0]);
    if m >= 2 {
        assert(h[1] == s[1]);
    }
    if m >= 3 {
        assert(h[2] == s[2]);
    }
    if m >= 4 {
        assert(h[3] == s[3]);
    }
    assert(valid_first_scalar(h));
    assert(length_of_first_scalar(h) == m);
    assert(pop_first_scalar(h) =~= Seq::<u8>::empty());
    assert(valid_utf8(pop_first_scalar(h)));
}

/// Decimal digits are ASCII.
proof fn lemma_dec_ascii(n: nat)
    ensures
        crate::text::all_ascii(crate::text::dec(n)),
    decreases n,
{
    if n >= 10 {
        lemma_dec_ascii(n / 10);
    }
}

/// The building blocks of directive text are ASCII, and so are their
/// concatenations, prefixes and case changes.
proof fn lemma_ascii_blocks()
    ensures
        forall|n: nat| #[trigger] crate::text::all_ascii(crate::text::dec(n)),
        forall|b: u8, n: int| b < 128 ==> #[trigger] crate::text::all_ascii(crate::text::fill(b, n)),
        forall|a: Seq<u8>, b: Seq<u8>|
            crate::text::all_ascii(a) && crate::text::all_ascii(b) ==> #[trigger] crate::text::all_ascii(
                a + b,
            ),
        forall|a: Seq<u8>, n: int|
            crate::text::all_ascii(a) && 0 <= n <= a.len() ==> #[trigger] crate::text::all_ascii(
                a.take(n),
            ),
        forall|a: Seq<u8>|
            crate::text::all_ascii(a) ==> #[trigger] crate::text::all_ascii(crate::text::upper_seq(a)),
        forall|a: Seq<u8>|
            crate::text::all_ascii(a) ==> #[trigger] crate::text::all_ascii(crate::text::lower_seq(a)),
        forall|m: u8| #[trigger] crate::text::all_ascii(crate::names::month_name(m)),
        forall|d: u8| #[trigger] crate::text::all_ascii(crate::names::day_name(d)),
        forall|h: int, l: bool| #[trigger] crate::text::all_ascii(crate::format::meridian(h, l)),
        forall|neg: bool| #[trigger] crate::text::all_ascii(crate::format::sign(neg)),
        forall|b: u8| b < 128 ==> #[trigger] crate::text::all_ascii(seq![b]),
{
    assert forall|n: nat| #[trigger] crate::text::all_ascii(crate::text::dec(n)) by {
        lemma_dec_ascii(n);
    }
    assert forall|a: Seq<u8>, b: Seq<u8>|
        crate::text::all_ascii(a) && crate::text::all_ascii(b) implies #[trigger] crate::text::all_ascii(
            a + b,
        ) by {
        assert forall|i: int| 0 <= i < (a + b).len() implies (a + b)[i] < 128 by {
            if i < a.len() {
                assert((a + b)[i] == a[i]);
            } else {
                assert((a + b)[i] == b[i - a.len()]);
            }
        }
    }
    assert forall|m: u8| #[trigger] crate::text::all_ascii(crate::names::month_name(m)) by {
        let s = crate::names::month_name(m);
        assert forall|i: int| 0 <= i < s.len() implies s[i] < 128 by {}
    }
    assert forall|d: u8| #[trigger] crate::text::all_ascii(crate::names::day_name(d)) by {
        let s = crate::names::day_name(d);
        assert forall|i: int| 0 <= i < s.len() implies s[i] < 128 by {}
    }
    assert forall|h: int, l: bool| #[trigger] crate::text::all_ascii(crate::format::meridian(h, l)) by {
        let s = crate::format::meridian(h, l);
        assert forall|i: int| 0 <= i < s.len() implies s[i] < 128 by {}
    }
    assert forall|a: Seq<u8>|
        crate::text::all_ascii(a) implies #[trigger] crate::text::all_ascii(crate::text::upper_seq(a)) by {
        let u = crate::text::upper_seq(a);
        assert forall|i: int| 0 <= i < u.len() implies u[i] < 128 by {
            assert(u[i] == crate::text::upper(a[i]));
        }
    }
    assert forall|a: Seq<u8>|
        crate::text::all_ascii(a) implies #[trigger] crate::text::all_ascii(crate::text::lower_seq(a)) by {
        let u = crate::text::lower_seq(a);
        assert forall|i: int| 0 <= i < u.len() implies u[i] < 128 by {
            assert(u[i] == crate::text::lower(a[i]));
        }
    }
}

proof fn lemma_padded_ascii(neg: bool, mag: nat, w: int)
    ensures
        crate::text::all_ascii(crate::format::zero_padded(neg, mag, w)),
        crate::text::all_ascii(crate::format::space_padded(neg, mag, w)),
{
    lemma_ascii_blocks();
}

proof fn lemma_num_ascii(p: Piece, v: int, dw: int, z: bool)
    ensures
        crate::text::all_ascii(p.num_text(v, dw, z)),
{
    lemma_ascii_blocks();
    lemma_padded_ascii(v < 0, crate::format::abs(v), p.width_or(dw));
}

proof fn lemma_nanos_ascii(p: Piece, ns: nat, dw: int)
    ensures
        crate::text::all_ascii(p.nanos_text(ns, dw)),
{
    lemma_ascii_blocks();
    let w = p.width_or(dw);
    if w <= 9 {
        lemma_padded_ascii(false, ns / crate::text::pow10((9 - w) as nat), w);
    } else {
        lemma_padded_ascii(false, ns, 9);
    }
}

proof fn lemma_string_ascii(p: Piece, x: Seq<u8>)
    requires
        crate::text::all_ascii(x),
    ensures
        crate::text::all_ascii(p.string_text(x)),
        forall|m: int| #[trigger] crate::text::all_ascii(p.padding_text(m)),
{
    lemma_ascii_blocks();
}

proof fn lemma_offset_ascii(p: Piece, t: TimeValue)
    ensures
        crate::text::all_ascii(p.offset_text(t)),
{
    lemma_ascii_blocks();
    let a = crate::format::abs(t.utc_offset as int);
    let neg = p.offset_negative(t);
    let h = a / 3600;
    assert(crate::text::all_ascii(p.offset_hour_text(neg, h, 3)));
    assert(crate::text::all_ascii(p.offset_hour_text(neg, h, 5)));
    assert(crate::text::all_ascii(p.offset_hour_text(neg, h, 6)));
    assert(crate::text::all_ascii(p.offset_hour_text(neg, h, 9)));
    lemma_padded_ascii(false, (a / 60) % 60, 2);
    lemma_padded_ascii(false, a % 60, 2);
    assert(crate::text::all_ascii(p.offset_hm_text(t, true)));
    assert(crate::text::all_ascii(p.offset_hm_text(t, false)));
    assert(crate::text::all_ascii(p.offset_hms_text(t)));
}

proof fn lemma_two_digit_fields_ascii(t: TimeValue)
    ensures
        crate::text::all_ascii(crate::format::zero_padded(false, t.month as nat, 2)),
        crate::text::all_ascii(crate::format::zero_padded(false, t.day as nat, 2)),
        crate::text::all_ascii(crate::format::space_padded(false, t.day as nat, 2)),
        crate::text::all_ascii(crate::format::zero_padded(false, t.hour as nat, 2)),
        crate::text::all_ascii(crate::format::zero_padded(false, t.minute as nat, 2)),
        crate::text::all_ascii(crate::format::zero_padded(false, t.second as nat, 2)),
        crate::text::all_ascii(
            crate::format::zero_padded(false, (t.year as int % 100) as nat, 2),
        ),
        crate::text::all_ascii(
            crate::format::zero_padded(false, crate::format::hour12(t.hour as int) as nat, 2),
        ),
        crate::text::all_ascii(
            crate::format::zero_padded(
                t.year < 0,
                crate::format::abs(t.year as int),
                crate::format::default_year_width(t.year as int),
            ),
        ),
        crate::text::all_ascii(
            crate::format::zero_padded(t.year < 0, crate::format::abs(t.year as int), 4),
        ),
{
    let y = t.year as int;
    lemma_padded_ascii(false, t.month as nat, 2);
    lemma_padded_ascii(false, t.day as nat, 2);
    lemma_padded_ascii(false, t.hour as nat, 2);
    lemma_padded_ascii(false, t.minute as nat, 2);
    lemma_padded_ascii(false, t.second as nat, 2);
    lemma_padded_ascii(false, (y % 100) as nat, 2);
    lemma_padded_ascii(y < 0, crate::format::abs(y), crate::format::default_year_width(y));
    lemma_padded_ascii(y < 0, crate::format::abs(y), 4);
    lemma_padded_ascii(false, crate::format::hour12(t.hour as int) as nat, 2);
}

proof fn lemma_combination_ascii(t: TimeValue, upper: bool)
    ensures
        crate::text::all_ascii(crate::format::date_text(t)),
        crate::text::all_ascii(crate::format::iso_date_text(t)),
        crate::text::all_ascii(crate::format::vms_date_text(t)),
        crate::text::all_ascii(crate::format::time_12h_text(t)),
        crate::text::all_ascii(crate::format::hour_minute_text(t)),
        crate::text::all_ascii(crate::format::time_24h_text(t)),
        crate::text::all_ascii(crate::format::date_time_text(t, upper)),
{
    lemma_date_ascii(t);
    lemma_times_ascii(t);
    lemma_date_time_ascii(t, upper);
}

proof fn lemma_date_ascii(t: TimeValue)
    ensures
        crate::text::all_ascii(crate::format::date_text(t)),
        crate::text::all_ascii(crate::format::iso_date_text(t)),
        crate::text::all_ascii(crate::format::vms_date_text(t)),
{
    lemma_ascii_blocks();
    lemma_two_digit_fields_ascii(t);
    let m = crate::text::upper_seq(crate::names::month_name(t.month));
    assert(crate::text::all_ascii(m));
    assert(m.len() >= 3 ==> crate::text::all_ascii(m.take(3)));
    assert(crate::text::all_ascii(m.take(3))) by {
        assert forall|i: int| 0 <= i < m.take(3).len() implies m.take(3)[i] < 128 by {}
    }
}

proof fn lemma_times_ascii(t: TimeValue)
    ensures
        crate::text::all_ascii(crate::format::time_12h_text(t)),
        crate::text::all_ascii(crate::format::hour_minute_text(t)),
        crate::text::all_ascii(crate::format::time_24h_text(t)),
{
    lemma_ascii_blocks();
    lemma_two_digit_fields_ascii(t);
}

proof fn lemma_date_time_ascii(t: TimeValue, upper: bool)
    ensures
        crate::text::all_ascii(crate::format::date_time_text(t, upper)),
{
    lemma_ascii_blocks();
    lemma_two_digit_fields_ascii(t);
    let m = crate::names::month_name(t.month);
    let d = crate::names::day_name(t.day_of_week);
    let m = if upper {
        crate::text::upper_seq(m)
    } else {
        m
    };
    let d = if upper {
        crate::text::upper_seq(d)
    } else {
        d
    };
    assert(crate::text::all_ascii(m.take(3))) by {
        assert forall|i: int| 0 <= i < m.take(3).len() implies m.take(3)[i] < 128 by {}
    }
    assert(crate::text::all_ascii(d.take(3))) by {
        assert forall|i: int| 0 <= i < d.take(3).len() implies d.take(3)[i] < 128 by {}
    }
}

/// What a directive prints is ASCII, given an ASCII time zone name.
pub proof fn lemma_text_ascii(p: Piece, t: TimeValue)
    requires
        crate::text::all_ascii(t.time_zone@),
    ensures
        p.text(t) matches Ok(x) ==> crate::text::all_ascii(x),
{
    lemma_ascii_blocks();
    lemma_string_ascii(p, seq![10u8]);
    match p.spec {
        Conversion::MilliSecond => lemma_nanos_ascii(p, t.nanoseconds as nat, 3),
        Conversion::FractionalSecond => lemma_nanos_ascii(p, t.nanoseconds as nat, 9),
        Conversion::TimeZoneOffsetHourMinute | Conversion::TimeZoneOffsetHourMinuteColon
        | Conversion::TimeZoneOffsetHourMinuteSecondColon
        | Conversion::TimeZoneOffsetColonMinimal => lemma_offset_ascii(p, t),
        Conversion::MonthName | Conversion::MonthNameAbbr | Conversion::WeekDayName
        | Conversion::WeekDayNameAbbr | Conversion::MeridianLower | Conversion::MeridianUpper
        | Conversion::Newline | Conversion::Tabulation | Conversion::Percent => {
            let m = p.name_case(crate::names::month_name(t.month));
            let d = p.name_case(crate::names::day_name(t.day_of_week));
            lemma_string_ascii(p, m);
            lemma_string_ascii(p, d);
            if m.len() >= 3 {
                lemma_string_ascii(p, m.take(3));
            }
            if d.len() >= 3 {
                lemma_string_ascii(p, d.take(3));
            }
            lemma_string_ascii(p, crate::format::meridian(t.hour as int, true));
            lemma_string_ascii(p, crate::format::meridian(t.hour as int, false));
            lemma_string_ascii(p, seq![9u8]);
            lemma_string_ascii(p, seq![PERCENT]);
        },
        Conversion::TimeZoneName => {
            lemma_string_ascii(p, t.time_zone@);
        },
        Conversion::CombinationDateTime | Conversion::CombinationDate
        | Conversion::CombinationIso8601 | Conversion::CombinationVmsDate
        | Conversion::CombinationTime12h | Conversion::CombinationHourMinute24h
        | Conversion::CombinationTime24h => {
            lemma_combination_ascii(t, p.flags.upper_case);
        },
        _ => {
            lemma_numbers_ascii(p, t);
        },
    }
}

proof fn lemma_numbers_ascii(p: Piece, t: TimeValue)
    ensures
        forall|v: int, dw: int, z: bool| #[trigger] crate::text::all_ascii(p.num_text(v, dw, z)),
{
    assert forall|v: int, dw: int, z: bool| #[trigger] crate::text::all_ascii(p.num_text(v, dw, z)) by {
        lemma_num_ascii(p, v, dw, z);
    }
}

/// The bytes that parsing a directive reads are ASCII, but for the last one
/// of a directive that is not one.
pub proof fn lemma_parse_span_ascii(s: Seq<u8>)
    ensures
        ({
            let (res, k) = crate::parser::parse_of(s);
            &&& res matches Ok(Some(_)) ==> forall|j: int| 0 <= j < k ==> s[j] < 128
            &&& res matches Ok(None) ==> k >= 1 && forall|j: int| 0 <= j < k - 1 ==> s[j] < 128
        }),
{
    let nf = crate::cursor::lead_len(s, crate::parser::flag_class()) as int;
    crate::cursor::lemma_lead_len_prefix(s, crate::parser::flag_class());
    assert forall|j: int| 0 <= j < nf implies s[j] < 128 by {
        assert((crate::parser::flag_class())(s[j]));
    }
    let rest = s.skip(nf);
    crate::cursor::lemma_lead_len_prefix(rest, crate::cursor::digit_class());
    let nd = crate::cursor::lead_len(rest, crate::cursor::digit_class()) as int;
    assert forall|j: int| nf <= j < nf + nd implies s[j] < 128 by {
        assert(rest[j - nf] == s[j]);
        assert((crate::cursor::digit_class())(rest[j - nf]));
    }
    let p1 = nf + nd;
    let p2 = if p1 + 2 <= s.len() && crate::parser::is_modifier(s[p1], s[p1 + 1]) {
        p1 + 1
    } else {
        p1
    };
    let rest2 = s.skip(p2);
    crate::cursor::lemma_lead_len_prefix(rest2, crate::cursor::eq_class(crate::format::COLON));
    let nc = crate::cursor::lead_len(rest2, crate::cursor::eq_class(crate::format::COLON)) as int;
    assert forall|j: int| p2 <= j < p2 + nc implies s[j] < 128 by {
        assert(rest2[j - p2] == s[j]);
        assert((crate::cursor::eq_class(crate::format::COLON))(rest2[j - p2]));
    }
    assert forall|j: int| 0 <= j < p2 + nc implies s[j] < 128 by {
        if j >= p1 && j < p2 {
            assert(s[j] == 69 || s[j] == 79);
        }
    }
    if p2 < s.len() && crate::parser::conversion_of(s[p2]) is Some {
        assert(s[p2] < 128);
    }
}

/// A literal ASCII byte, then the rest.
proof fn lemma_literal_byte(t: TimeValue, s: Seq<u8>)
    requires
        s.len() > 0,
        s[0] != PERCENT,
        s[0] < 128,
        valid_utf8(crate::formatter::run(t, s.skip(1)).0),
    ensures
        valid_utf8(crate::formatter::run(t, s).0),
{
    lemma_ascii_valid(seq![s[0]]);
    lemma_valid_concat(seq![s[0]], crate::formatter::run(t, s.skip(1)).0);
}

/// A literal scalar of several bytes, then the rest.
proof fn lemma_literal_scalar(t: TimeValue, s: Seq<u8>, m: int)
    requires
        2 <= m <= s.len(),
        valid_utf8(s.take(m)),
        forall|j: int| 0 <= j < m ==> s[j] >= 128,
        valid_utf8(crate::formatter::run(t, s.skip(m)).0),
    ensures
        valid_utf8(crate::formatter::run(t, s).0),
{
    crate::formatter::lemma_run_literal(t, s, m as nat);
    lemma_valid_concat(s.take(m), crate::formatter::run(t, s.skip(m)).0);
}

/// A directive, then the rest.
proof fn lemma_directive(t: TimeValue, s: Seq<u8>)
    requires
        s.len() > 0,
        s[0] == PERCENT,
        crate::text::all_ascii(t.time_zone@),
        ({
            let (res, k) = crate::parser::parse_of(s.skip(1));
            res matches Ok(Some(_)) ==> valid_utf8(crate::formatter::run(t, s.skip(1 + k)).0)
        }),
    ensures
        crate::parser::parse_of(s.skip(1)).0 matches Ok(None) || valid_utf8(
            crate::formatter::run(t, s).0,
        ),
{
    let s1 = s.skip(1);
    let (res, k) = crate::parser::parse_of(s1);
    crate::laws::lemma_unterminated_only_at_end(s1);
    match res {
        Err(_) => {},
        Ok(Some(p)) => {
            lemma_text_ascii(p, t);
            match p.text(t) {
                Err(_) => {},
                Ok(x) => {
                    lemma_ascii_valid(x);
                    lemma_valid_concat(x, crate::formatter::run(t, s.skip(1 + k)).0);
                },
            }
        },
        Ok(None) => {},
    }
}

/// Text that is not a directive, then the rest.
proof fn lemma_not_directive(t: TimeValue, s: Seq<u8>, head: Seq<u8>, tail: Seq<u8>)
    requires
        s.len() > 0,
        s[0] == PERCENT,
        crate::parser::parse_of(s.skip(1)).0 matches Ok(None),
        ({
            let k = crate::parser::parse_of(s.skip(1)).1;
            &&& 0 <= k && 1 + k <= s.len()
            &&& valid_utf8(head + tail)
            &&& s.take(1 + k) + crate::formatter::run(t, s.skip(1 + k)).0 == head + tail
        }),
    ensures
        valid_utf8(crate::formatter::run(t, s).0),
{
}

/// Formatting valid UTF-8 for a time with an ASCII zone name gives valid
/// UTF-8.
#[verifier::rlimit(40)]
pub proof fn lemma_run_valid_utf8(t: TimeValue, s: Seq<u8>)
    requires
        valid_utf8(s),
        crate::text::all_ascii(t.time_zone@),
    ensures
        valid_utf8(crate::formatter::run(t, s).0),
    decreases s.len(),
{
    if s.len() == 0 {
    } else if s[0] != PERCENT {
        if s[0] < 128 {
            lemma_skip_ascii_prefix(s, 1);
            lemma_run_valid_utf8(t, s.skip(1));
            lemma_literal_byte(t, s);
        } else {
            lemma_first_scalar_wide(s);
            let m = length_of_first_scalar(s);
            lemma_run_valid_utf8(t, s.skip(m));
            lemma_literal_scalar(t, s, m);
        }
    } else {
        let s1 = s.skip(1);
        let k = crate::parser::parse_of(s1).1;
        crate::laws::lemma_unterminated_only_at_end(s1);
        lemma_parse_span_ascii(s1);
        if crate::parser::parse_of(s1).0 matches Ok(Some(_)) {
            assert forall|j: int| 0 <= j < 1 + k implies s[j] < 128 by {
                if j > 0 {
                    assert(s[j] == s1[j - 1]);
                }
            }
            lemma_skip_ascii_prefix(s, 1 + k);
            lemma_run_valid_utf8(t, s.skip(1 + k));
        }
        lemma_directive(t, s);
        if crate::parser::parse_of(s1).0 matches Ok(None) {
            assert forall|j: int| 0 <= j < k implies s[j] < 128 by {
                if j > 0 {
                    assert(s[j] == s1[j - 1]);
                }
            }
            let rest = crate::formatter::run(t, s.skip(1 + k)).0;
            if s[k] < 128 {
                assert forall|j: int| 0 <= j < 1 + k implies s[j] < 128 by {}
                lemma_skip_ascii_prefix(s, 1 + k);
                lemma_run_valid_utf8(t, s.skip(1 + k));
                assert(crate::text::all_ascii(s.take(1 + k)));
                lemma_ascii_valid(s.take(1 + k));
                lemma_valid_concat(s.take(1 + k), rest);
                lemma_not_directive(t, s, s.take(1 + k), rest);
            } else {
                lemma_skip_ascii_prefix(s, k);
                let u = s.skip(k);
                assert(u[0] == s[k]);
                lemma_first_scalar_wide(u);
                let m = length_of_first_scalar(u);
                let u1 = u.skip(1);
                assert(u1 =~= s.skip(1 + k));
                assert forall|j: int| 0 <= j < m - 1 implies u1[j] != PERCENT by {
                    assert(u1[j] == u[j + 1]);
                }
                crate::formatter::lemma_run_literal(t, u1, (m - 1) as nat);
                assert(u1.skip(m - 1) =~= u.skip(m));
                lemma_run_valid_utf8(t, u.skip(m));
                let tail = crate::formatter::run(t, u.skip(m)).0;
                assert(crate::text::all_ascii(s.take(k)));
                lemma_ascii_valid(s.take(k));
                lemma_valid_concat(u.take(m), tail);
                lemma_valid_concat(s.take(k), u.take(m) + tail);
                assert(s.take(1 + k) + (u1.take(m - 1) + tail) =~= s.take(k) + (u.take(m)
                    + tail));
                lemma_not_directive(t, s, s.take(k), u.take(m) + tail);
            }
        }
    }
}

/// The only errors of the text itself are an unterminated directive and an
/// invalid time field.
pub proof fn lemma_run_error_kind(t: TimeValue, s: Seq<u8>)
    ensures
        crate::formatter::run(t, s).1 matches Some(e) ==> e == crate::Error::InvalidFormatString
            || e == crate::Error::InvalidTime,
    decreases s.len(),
{
    if s.len() == 0 {
    } else if s[0] != PERCENT {
        lemma_run_error_kind(t, s.skip(1));
    } else {
        let (res, k) = crate::parser::parse_of(s.skip(1));
        crate::laws::lemma_unterminated_only_at_end(s.skip(1));
        if 1 + k <= s.len() {
            lemma_run_error_kind(t, s.skip(1 + k));
        }
    }
}

/// A UTF-8 format string, for a time with an ASCII zone name, formats to
/// valid UTF-8.
pub proof fn lemma_formatted_utf8(t: TimeValue, format: Seq<char>)
    requires
        crate::text::all_ascii(t.time_zone@),
    ensures
        crate::bytes::format_result(t, vstd::utf8::encode_utf8(format)) matches Ok(b)
            ==> valid_utf8(b),
        !(crate::bytes::format_result(t, vstd::utf8::encode_utf8(format)) matches Err(
            crate::Error::FmtError,
        )),
{
    let l = crate::formatter::size_limit_of(vstd::utf8::encode_utf8(format).len());
    crate::formatter::lemma_writes_text(t, vstd::utf8::encode_utf8(format));
    crate::sink::lemma_put_all_bounds(
        Seq::<u8>::empty(),
        crate::formatter::writes(t, vstd::utf8::encode_utf8(format)).0,
        l,
        usize::MAX as int,
    );
    lemma_run_error_kind(t, vstd::utf8::encode_utf8(format));
    let fb = vstd::utf8::encode_utf8(format);
    vstd::utf8::encode_utf8_valid_utf8(format);
    crate::laws::lemma_no_silent_truncation(t, fb, usize::MAX as int);
    lemma_run_valid_utf8(t, fb);
}

} // verus!
