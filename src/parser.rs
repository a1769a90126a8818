//! Parsing one directive, from the byte after its `%`.

use crate::format::{Conversion, Flags, Padding, Piece, COLON, MAX_WIDTH};
use crate::Error;
use vstd::prelude::*;

verus! {

/// ASCII `'z'`.
pub const LETTER_Z: u8 = 122;

/// The flag bytes: `-`, `_`, `0`, `^` and `#`.
pub open spec fn is_flag(b: u8) -> bool {
    b == 45 || b == 95 || b == 48 || b == 94 || b == 35
}

/// The flag bytes, as a class.
pub open spec fn flag_class() -> spec_fn(u8) -> bool {
    |b: u8| is_flag(b)
}

/// The effect of one flag byte on the padding and the flags: the last
/// padding flag wins, `-` also sets left padding for good, `#` sets the
/// change-case flag, and `^` sets the uppercase flag unless `#` came before.
pub open spec fn apply_flag(b: u8, padding: Padding, flags: Flags) -> (Padding, Flags) {
    if b == 45 {
        (Padding::Left, Flags { left_padding: true, ..flags })
    } else if b == 95 {
        (Padding::Spaces, flags)
    } else if b == 48 {
        (Padding::Zeros, flags)
    } else if b == 94 {
        if flags.change_case {
            (padding, flags)
        } else {
            (padding, Flags { upper_case: true, ..flags })
        }
    } else {
        (padding, Flags { change_case: true, ..flags })
    }
}

/// Padding and flags after the leading run of flag bytes of `s`.
pub open spec fn scan_flags(s: Seq<u8>, padding: Padding, flags: Flags) -> (Padding, Flags)
    decreases s.len(),
{
    if s.len() > 0 && is_flag(s[0]) {
        let (p, f) = apply_flag(s[0], padding, flags);
        scan_flags(s.skip(1), p, f)
    } else {
        (padding, flags)
    }
}

/// Locale modifiers that are skipped: `E` before one of `CXYcxy`, `O` before
/// one of `HIMSUVWdeklmuwy`.
pub open spec fn is_modifier(ext: u8, spec: u8) -> bool {
    (ext == 69 && (spec == 67 || spec == 88 || spec == 89 || spec == 99 || spec == 120 || spec
        == 121)) || (ext == 79 && (spec == 72 || spec == 73 || spec == 77 || spec == 83 || spec
        == 85 || spec == 86 || spec == 87 || spec == 100 || spec == 101 || spec == 107 || spec
        == 108 || spec == 109 || spec == 117 || spec == 119 || spec == 121))
}

/// Whether the bytes `ext`, `spec` form a skipped locale modifier.
pub fn modifier(ext: u8, spec: u8) -> (r: bool)
    ensures
        r == is_modifier(ext, spec),
{
    match ext {
        69 => matches!(spec, 67 | 88 | 89 | 99 | 120 | 121),
        79 => matches!(spec, 72 | 73 | 77 | 83 | 85 | 86 | 87 | 100 | 101 | 107 | 108 | 109 | 117 | 119 | 121),
        _ => false,
    }
}

/// The conversion of a directive letter, if it is one.
pub open spec fn conversion_of(b: u8) -> Option<Conversion> {
    match b {
        37 => Some(Conversion::Percent),
        65 => Some(Conversion::WeekDayName),
        66 => Some(Conversion::MonthName),
        67 => Some(Conversion::YearDiv100),
        68 => Some(Conversion::CombinationDate),
        70 => Some(Conversion::CombinationIso8601),
        71 => Some(Conversion::YearIso8601),
        72 => Some(Conversion::Hour24hZero),
        73 => Some(Conversion::Hour12hZero),
        76 => Some(Conversion::MilliSecond),
        77 => Some(Conversion::Minute),
        78 => Some(Conversion::FractionalSecond),
        80 => Some(Conversion::MeridianLower),
        82 => Some(Conversion::CombinationHourMinute24h),
        83 => Some(Conversion::Second),
        84 => Some(Conversion::CombinationTime24h),
        85 => Some(Conversion::WeekNumberFromSunday),
        86 => Some(Conversion::WeekNumberIso8601),
        87 => Some(Conversion::WeekNumberFromMonday),
        88 => Some(Conversion::CombinationTime24h),
        89 => Some(Conversion::Year4Digits),
        90 => Some(Conversion::TimeZoneName),
        97 => Some(Conversion::WeekDayNameAbbr),
        98 => Some(Conversion::MonthNameAbbr),
        99 => Some(Conversion::CombinationDateTime),
        100 => Some(Conversion::MonthDayZero),
        101 => Some(Conversion::MonthDaySpace),
        103 => Some(Conversion::YearIso8601Rem100),
        104 => Some(Conversion::MonthNameAbbr),
        106 => Some(Conversion::YearDay),
        107 => Some(Conversion::Hour24hSpace),
        108 => Some(Conversion::Hour12hSpace),
        109 => Some(Conversion::Month),
        110 => Some(Conversion::Newline),
        112 => Some(Conversion::MeridianUpper),
        114 => Some(Conversion::CombinationTime12h),
        115 => Some(Conversion::SecondsSinceEpoch),
        116 => Some(Conversion::Tabulation),
        117 => Some(Conversion::WeekDayFrom1),
        118 => Some(Conversion::CombinationVmsDate),
        119 => Some(Conversion::WeekDayFrom0),
        120 => Some(Conversion::CombinationDate),
        121 => Some(Conversion::YearRem100),
        122 => Some(Conversion::TimeZoneOffsetHourMinute),
        _ => None,
    }
}

/// The conversion of a directive letter, if it is one.
pub fn lookup_conversion(b: u8) -> (r: Option<Conversion>)
    ensures
        r == conversion_of(b),
{
    match b {
        37 => Some(Conversion::Percent),
        65 => Some(Conversion::WeekDayName),
        66 => Some(Conversion::MonthName),
        67 => Some(Conversion::YearDiv100),
        68 => Some(Conversion::CombinationDate),
        70 => Some(Conversion::CombinationIso8601),
        71 => Some(Conversion::YearIso8601),
        72 => Some(Conversion::Hour24hZero),
        73 => Some(Conversion::Hour12hZero),
        76 => Some(Conversion::MilliSecond),
        77 => Some(Conversion::Minute),
        78 => Some(Conversion::FractionalSecond),
        80 => Some(Conversion::MeridianLower),
        82 => Some(Conversion::CombinationHourMinute24h),
        83 => Some(Conversion::Second),
        84 => Some(Conversion::CombinationTime24h),
        85 => Some(Conversion::WeekNumberFromSunday),
        86 => Some(Conversion::WeekNumberIso8601),
        87 => Some(Conversion::WeekNumberFromMonday),
        88 => Some(Conversion::CombinationTime24h),
        89 => Some(Conversion::Year4Digits),
        90 => Some(Conversion::TimeZoneName),
        97 => Some(Conversion::WeekDayNameAbbr),
        98 => Some(Conversion::MonthNameAbbr),
        99 => Some(Conversion::CombinationDateTime),
        100 => Some(Conversion::MonthDayZero),
        101 => Some(Conversion::MonthDaySpace),
        103 => Some(Conversion::YearIso8601Rem100),
        104 => Some(Conversion::MonthNameAbbr),
        106 => Some(Conversion::YearDay),
        107 => Some(Conversion::Hour24hSpace),
        108 => Some(Conversion::Hour12hSpace),
        109 => Some(Conversion::Month),
        110 => Some(Conversion::Newline),
        112 => Some(Conversion::MeridianUpper),
        114 => Some(Conversion::CombinationTime12h),
        115 => Some(Conversion::SecondsSinceEpoch),
        116 => Some(Conversion::Tabulation),
        117 => Some(Conversion::WeekDayFrom1),
        118 => Some(Conversion::CombinationVmsDate),
        119 => Some(Conversion::WeekDayFrom0),
        120 => Some(Conversion::CombinationDate),
        121 => Some(Conversion::YearRem100),
        122 => Some(Conversion::TimeZoneOffsetHourMinute),
        _ => None,
    }
}

/// The conversion of a `%:z` directive with `colons` colons.
pub open spec fn colon_conversion_of(colons: int) -> Option<Conversion> {
    if colons == 1 {
        Some(Conversion::TimeZoneOffsetHourMinuteColon)
    } else if colons == 2 {
        Some(Conversion::TimeZoneOffsetHourMinuteSecondColon)
    } else if colons == 3 {
        Some(Conversion::TimeZoneOffsetColonMinimal)
    } else {
        None
    }
}

/// Parse of the bytes `s` that follow a `%`: the directive (`Ok(None)` when
/// there is none, and the bytes read are text), and how many bytes it
/// takes. Only a directive cut short by the end of the input is an error.
pub open spec fn parse_of(s: Seq<u8>) -> (Result<Option<Piece>, Error>, int) {
    let nf = crate::cursor::lead_len(s, flag_class()) as int;
    let (padding, flags) = scan_flags(
        s,
        Padding::Left,
        Flags { left_padding: false, change_case: false, upper_case: false },
    );
    let nd = crate::cursor::lead_len(s.skip(nf), crate::cursor::digit_class()) as int;
    let value = crate::text::digits_value(s.subrange(nf, nf + nd));
    let p1 = nf + nd;
    if nd > 0 && value > MAX_WIDTH {
        (Ok(None), p1)
    } else {
        let width = if nd == 0 {
            None
        } else {
            Some(value as usize)
        };
        let p2 = if p1 + 2 <= s.len() && is_modifier(s[p1], s[p1 + 1]) {
            p1 + 1
        } else {
            p1
        };
        let nc = crate::cursor::lead_len(s.skip(p2), crate::cursor::eq_class(COLON)) as int;
        if nc == 0 {
            if p2 >= s.len() {
                (Err(Error::InvalidFormatString), p2)
            } else {
                match conversion_of(s[p2]) {
                    Some(c) => (
                        Ok(Some(Piece { width, padding, flags, spec: c })),
                        p2 + 1,
                    ),
                    None => (Ok(None), p2 + 1),
                }
            }
        } else if p2 + nc < s.len() && s[p2 + nc] == LETTER_Z {
            match colon_conversion_of(nc) {
                Some(c) => (Ok(Some(Piece { width, padding, flags, spec: c })), p2 + nc + 1),
                None => (Ok(None), p2 + nc + 1),
            }
        } else {
            (Ok(None), p2 + nc)
        }
    }
}

/// Value of a run of digits, or `None` when it exceeds the largest width.
pub fn parse_width(digits: &[u8]) -> (r: Option<usize>)
    requires
        forall|j: int| 0 <= j < digits@.len() ==> crate::text::is_digit(#[trigger] digits@[j]),
    ensures
        r == if crate::text::digits_value(digits@) <= MAX_WIDTH {
            Some(crate::text::digits_value(digits@) as usize)
        } else {
            None::<usize>
        },
{
    let mut value: u64 = 0;
    let mut too_large = false;
    let mut i: usize = 0;
    while i < digits.len()
        invariant
            i <= digits@.len(),
            forall|j: int| 0 <= j < digits@.len() ==> crate::text::is_digit(#[trigger] digits@[j]),
            !too_large ==> value == crate::text::digits_value(digits@.take(i as int)) && value
                <= MAX_WIDTH,
            too_large ==> crate::text::digits_value(digits@.take(i as int)) > MAX_WIDTH,
        decreases digits@.len() - i,
    {
        let d = (digits[i] - 48) as u64;
        assert(digits@.take(i + 1).drop_last() =~= digits@.take(i as int));
        if !too_large {
            value = value * 10 + d;
            if value > MAX_WIDTH as u64 {
                too_large = true;
            }
        }
        i += 1;
    }
    assert(digits@.take(i as int) =~= digits@);
    if too_large {
        None
    } else {
        Some(value as usize)
    }
}

} // verus!
