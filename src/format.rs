//! Directives and how each one renders against a time value.

use crate::time::TimeValue;
use crate::week::WeekStart;
use crate::Error;
use vstd::prelude::*;

verus! {

/// ASCII `' '`.
pub const SPACE: u8 = 32;
/// ASCII `'%'`.
pub const PERCENT: u8 = 37;
/// ASCII `'+'`.
pub const PLUS: u8 = 43;
/// ASCII `'-'`.
pub const MINUS: u8 = 45;
/// ASCII `'/'`.
pub const SLASH: u8 = 47;
/// ASCII `'0'`.
pub const ZERO: u8 = 48;
/// ASCII `':'`.
pub const COLON: u8 = 58;

/// Padding method.
#[derive(Debug, Copy, Clone, PartialEq, Eq, Structural)]
pub enum Padding {
    /// Left padding.
    Left,
    /// Padding with spaces.
    Spaces,
    /// Padding with zeros.
    Zeros,
}

/// Formatting flags.
#[derive(Debug, Copy, Clone, PartialEq, Eq, Structural)]
pub struct Flags {
    /// Use left padding, removing all other padding options in most cases.
    pub left_padding: bool,
    /// Change case for a string value.
    pub change_case: bool,
    /// Convert a string value to uppercase.
    pub upper_case: bool,
}

impl Flags {
    /// No flag set.
    pub fn empty() -> (r: Flags)
        ensures
            !r.left_padding && !r.change_case && !r.upper_case,
    {
        Flags { left_padding: false, change_case: false, upper_case: false }
    }

    /// Check if one of the case flags is set.
    pub fn has_change_or_upper_case(self) -> (r: bool)
        ensures
            r == (self.change_case || self.upper_case),
    {
        self.change_case || self.upper_case
    }
}

/// Conversion of a directive.
#[derive(Debug, Copy, Clone, PartialEq, Eq, Structural)]
pub enum Conversion {
    /// `%Y`: year, zero-padded to 4 digits plus the possible sign.
    Year4Digits,
    /// `%C`: `year / 100` (Euclidean), zero-padded to 2 digits.
    YearDiv100,
    /// `%y`: `year % 100` (Euclidean), zero-padded to 2 digits.
    YearRem100,
    /// `%m`: month of the year, zero-padded to 2 digits.
    Month,
    /// `%B`: full month name.
    MonthName,
    /// `%b`, `%h`: abbreviated month name.
    MonthNameAbbr,
    /// `%d`: day of the month, zero-padded to 2 digits.
    MonthDayZero,
    /// `%e`: day of the month, blank-padded to 2 digits.
    MonthDaySpace,
    /// `%j`: day of the year, zero-padded to 3 digits.
    YearDay,
    /// `%H`: hour (24-hour clock), zero-padded to 2 digits.
    Hour24hZero,
    /// `%k`: hour (24-hour clock), blank-padded to 2 digits.
    Hour24hSpace,
    /// `%I`: hour (12-hour clock), zero-padded to 2 digits.
    Hour12hZero,
    /// `%l`: hour (12-hour clock), blank-padded to 2 digits.
    Hour12hSpace,
    /// `%P`: lowercase meridian indicator.
    MeridianLower,
    /// `%p`: uppercase meridian indicator.
    MeridianUpper,
    /// `%M`: minute, zero-padded to 2 digits.
    Minute,
    /// `%S`: second, zero-padded to 2 digits.
    Second,
    /// `%L`: truncated fractional seconds, 3 digits by default.
    MilliSecond,
    /// `%N`: truncated fractional seconds, 9 digits by default.
    FractionalSecond,
    /// `%z`: UTC offset as `+hhmm`.
    TimeZoneOffsetHourMinute,
    /// `%:z`: UTC offset as `+hh:mm`.
    TimeZoneOffsetHourMinuteColon,
    /// `%::z`: UTC offset as `+hh:mm:ss`.
    TimeZoneOffsetHourMinuteSecondColon,
    /// `%:::z`: UTC offset as `+hh[:mm[:ss]]`, as short as exact.
    TimeZoneOffsetColonMinimal,
    /// `%Z`: time zone name.
    TimeZoneName,
    /// `%A`: full weekday name.
    WeekDayName,
    /// `%a`: abbreviated weekday name.
    WeekDayNameAbbr,
    /// `%u`: day of the week from Monday in `1..=7`.
    WeekDayFrom1,
    /// `%w`: day of the week from Sunday in `0..=6`.
    WeekDayFrom0,
    /// `%G`: ISO 8601 week-based year.
    YearIso8601,
    /// `%g`: ISO 8601 week-based year modulo 100.
    YearIso8601Rem100,
    /// `%V`: ISO 8601 week number.
    WeekNumberIso8601,
    /// `%U`: week number, weeks from Sunday.
    WeekNumberFromSunday,
    /// `%W`: week number, weeks from Monday.
    WeekNumberFromMonday,
    /// `%s`: seconds since the Epoch.
    SecondsSinceEpoch,
    /// `%n`: newline.
    Newline,
    /// `%t`: tabulation.
    Tabulation,
    /// `%%`: a literal `%`.
    Percent,
    /// `%c`: as `"%a %b %e %H:%M:%S %Y"`.
    CombinationDateTime,
    /// `%D`, `%x`: as `"%m/%d/%y"`.
    CombinationDate,
    /// `%F`: as `"%Y-%m-%d"`.
    CombinationIso8601,
    /// `%v`: as `"%e-%^b-%4Y"`.
    CombinationVmsDate,
    /// `%r`: as `"%I:%M:%S %p"`.
    CombinationTime12h,
    /// `%R`: as `"%H:%M"`.
    CombinationHourMinute24h,
    /// `%T`, `%X`: as `"%H:%M:%S"`.
    CombinationTime24h,
}

/// Formatting directive.
#[derive(Debug, Copy, Clone, PartialEq, Eq, Structural)]
pub struct Piece {
    /// Optional width.
    pub width: Option<usize>,
    /// Padding method.
    pub padding: Padding,
    /// Formatting flags.
    pub flags: Flags,
    /// Conversion.
    pub spec: Conversion,
}

impl Piece {
    /// Construct a new `Piece`.
    pub fn new(width: Option<usize>, padding: Padding, flags: Flags, spec: Conversion) -> (r: Self)
        ensures
            r == (Piece { width, padding, flags, spec }),
    {
        Piece { width, padding, flags, spec }
    }
}

/// Largest width that a directive accepts (that of a C `int`).
pub const MAX_WIDTH: usize = 2147483647;

// ---------------------------------------------------------------------------
// What each directive renders.

/// `"-"` for a negative number, else nothing.
pub open spec fn sign(neg: bool) -> Seq<u8> {
    if neg {
        seq![MINUS]
    } else {
        Seq::<u8>::empty()
    }
}

/// A number, with its sign, zero-padded after the sign to width `w`.
pub open spec fn zero_padded(neg: bool, mag: nat, w: int) -> Seq<u8> {
    sign(neg) + crate::text::fill(ZERO, w - sign(neg).len() - crate::text::dec(mag).len())
        + crate::text::dec(mag)
}

/// A number, with its sign, space-padded before the sign to width `w`.
pub open spec fn space_padded(neg: bool, mag: nat, w: int) -> Seq<u8> {
    crate::text::fill(SPACE, w - sign(neg).len() - crate::text::dec(mag).len()) + sign(neg)
        + crate::text::dec(mag)
}

/// Magnitude of an integer.
pub open spec fn abs(v: int) -> nat {
    if v < 0 {
        (-v) as nat
    } else {
        v as nat
    }
}

/// Decimal digits needed to print `year`, without its sign.
pub open spec fn year_width_of(year: int) -> int {
    crate::text::dec(abs(year)).len() as int
}

/// Characters needed to print `year`, its sign included.
pub open spec fn signed_year_width(year: int) -> int {
    sign(year < 0).len() + year_width_of(year)
}

/// Default width of a year: 4 digits, plus one for a sign.
pub open spec fn default_year_width(year: int) -> int {
    if year < 0 {
        5
    } else {
        4
    }
}

/// Whether a piece is one that parsing can give: its width fits a C `int`.
pub open spec fn piece_wf(p: Piece) -> bool {
    match p.width {
        Some(w) => w <= MAX_WIDTH,
        None => true,
    }
}

impl Piece {
    /// Requested width, or `default_width`.
    pub open spec fn width_or(self, default_width: int) -> int {
        match self.width {
            Some(w) => w as int,
            None => default_width,
        }
    }

    /// A number, padded with zeros unless spaces were asked for
    /// (`zeros_by_default`), or with spaces unless zeros were asked for;
    /// the `-` flag leaves it unpadded.
    pub open spec fn num_text(self, v: int, default_width: int, zeros_by_default: bool) -> Seq<u8> {
        if self.flags.left_padding {
            sign(v < 0) + crate::text::dec(abs(v))
        } else {
            let w = self.width_or(default_width);
            let zeros = if zeros_by_default {
                self.padding != Padding::Spaces
            } else {
                self.padding == Padding::Zeros
            };
            if zeros {
                zero_padded(v < 0, abs(v), w)
            } else {
                space_padded(v < 0, abs(v), w)
            }
        }
    }

    /// Fractional seconds truncated to as many digits as the width asks,
    /// with zeros past the nanoseconds.
    pub open spec fn nanos_text(self, nanoseconds: nat, default_width: int) -> Seq<u8> {
        let w = self.width_or(default_width);
        if w <= 9 {
            zero_padded(false, nanoseconds / crate::text::pow10((9 - w) as nat), w)
        } else {
            zero_padded(false, nanoseconds, 9) + crate::text::fill(ZERO, w - 9)
        }
    }

    /// A string, padded to the width (spaces unless zeros were asked for),
    /// unless the `-` flag is set; never cut.
    pub open spec fn string_text(self, s: Seq<u8>) -> Seq<u8> {
        match self.width {
            None => s,
            Some(w) => if self.flags.left_padding {
                s
            } else if self.padding == Padding::Zeros {
                crate::text::fill(ZERO, w - s.len()) + s
            } else {
                crate::text::fill(SPACE, w - s.len()) + s
            },
        }
    }

    /// Fill that brings content of `min_width` bytes to the width.
    pub open spec fn padding_text(self, min_width: int) -> Seq<u8> {
        match self.width {
            None => Seq::<u8>::empty(),
            Some(w) => crate::text::fill(
                if self.padding == Padding::Zeros {
                    ZERO
                } else {
                    SPACE
                },
                w - min_width,
            ),
        }
    }

    /// Width of the signed hour of a UTC offset whose shortest form has
    /// `min_width` bytes: the extra width all goes to the hour.
    pub open spec fn hour_width(self, min_width: int) -> int {
        match self.width {
            Some(w) => if w >= min_width {
                w - min_width + 3
            } else {
                3
            },
            None => 3,
        }
    }

    /// Signed hour of a UTC offset, padded to `hour_width(min_width)`.
    pub open spec fn offset_hour_text(self, neg: bool, hour: nat, min_width: int) -> Seq<u8> {
        let n = self.hour_width(min_width);
        let sign_byte = if neg {
            MINUS
        } else {
            PLUS
        };
        let digits = crate::text::dec(hour);
        if self.padding == Padding::Spaces {
            crate::text::fill(SPACE, n - 1 - digits.len()) + seq![sign_byte] + digits
        } else {
            seq![sign_byte] + crate::text::fill(ZERO, n - 1 - digits.len()) + digits
        }
    }

    /// The UTC offset is shown negative if it is, and for UTC under the `-`
    /// flag.
    pub open spec fn offset_negative(self, t: TimeValue) -> bool {
        t.utc_offset < 0 || (t.is_utc && self.flags.left_padding)
    }

    /// UTC offset with hours and minutes, separated by `colon` or not.
    pub open spec fn offset_hm_text(self, t: TimeValue, colon: bool) -> Seq<u8> {
        let a = abs(t.utc_offset as int);
        if colon {
            self.offset_hour_text(self.offset_negative(t), a / 3600, 6) + seq![COLON]
                + zero_padded(false, (a / 60) % 60, 2)
        } else {
            self.offset_hour_text(self.offset_negative(t), a / 3600, 5)
                + zero_padded(false, (a / 60) % 60, 2)
        }
    }

    /// UTC offset with hours, minutes and seconds.
    pub open spec fn offset_hms_text(self, t: TimeValue) -> Seq<u8> {
        let a = abs(t.utc_offset as int);
        self.offset_hour_text(self.offset_negative(t), a / 3600, 9) + seq![COLON]
            + zero_padded(false, (a / 60) % 60, 2) + seq![COLON] + zero_padded(false, a % 60, 2)
    }

    /// UTC offset as short as exact: seconds only when not zero, minutes
    /// when either is not zero.
    pub open spec fn offset_minimal_text(self, t: TimeValue) -> Seq<u8> {
        let a = abs(t.utc_offset as int);
        if a % 60 != 0 {
            self.offset_hms_text(t)
        } else if (a / 60) % 60 != 0 {
            self.offset_hm_text(t, true)
        } else {
            self.offset_hour_text(self.offset_negative(t), a / 3600, 3)
        }
    }

    /// Month or weekday name: uppercase under `^` or `#`.
    pub open spec fn name_case(self, name: Seq<u8>) -> Seq<u8> {
        if self.flags.change_case || self.flags.upper_case {
            crate::text::upper_seq(name)
        } else {
            name
        }
    }

    /// Time zone name: lowercase under `#`, else uppercase under `^`.
    pub open spec fn zone_case(self, name: Seq<u8>) -> Seq<u8> {
        if self.flags.change_case {
            crate::text::lower_seq(name)
        } else if self.flags.upper_case {
            crate::text::upper_seq(name)
        } else {
            name
        }
    }

    /// The UTC offset directives.
    pub open spec fn offset_text(self, t: TimeValue) -> Seq<u8> {
        match self.spec {
            Conversion::TimeZoneOffsetHourMinute => self.offset_hm_text(t, false),
            Conversion::TimeZoneOffsetHourMinuteColon => self.offset_hm_text(t, true),
            Conversion::TimeZoneOffsetHourMinuteSecondColon => self.offset_hms_text(t),
            _ => self.offset_minimal_text(t),
        }
    }

    /// What the directive renders for `t`, or why it cannot.
    pub open spec fn text(self, t: TimeValue) -> Result<Seq<u8>, Error> {
        match self.spec {
            Conversion::Year4Digits => Ok(
                self.num_text(t.year as int, default_year_width(t.year as int), true),
            ),
            Conversion::YearDiv100 => Ok(self.num_text(t.year as int / 100, 2, true)),
            Conversion::YearRem100 => Ok(self.num_text(t.year as int % 100, 2, true)),
            Conversion::Month => Ok(self.num_text(t.month as int, 2, true)),
            Conversion::MonthName => if 1 <= t.month <= 12 {
                Ok(self.string_text(self.name_case(crate::names::month_name(t.month))))
            } else {
                Err(Error::InvalidTime)
            },
            Conversion::MonthNameAbbr => if 1 <= t.month <= 12 {
                Ok(self.string_text(self.name_case(crate::names::month_name(t.month)).take(3)))
            } else {
                Err(Error::InvalidTime)
            },
            Conversion::MonthDayZero => Ok(self.num_text(t.day as int, 2, true)),
            Conversion::MonthDaySpace => Ok(self.num_text(t.day as int, 2, false)),
            Conversion::YearDay => Ok(self.num_text(t.day_of_year as int, 3, true)),
            Conversion::Hour24hZero => Ok(self.num_text(t.hour as int, 2, true)),
            Conversion::Hour24hSpace => Ok(self.num_text(t.hour as int, 2, false)),
            Conversion::Hour12hZero => Ok(self.num_text(hour12(t.hour as int), 2, true)),
            Conversion::Hour12hSpace => Ok(self.num_text(hour12(t.hour as int), 2, false)),
            Conversion::MeridianLower => Ok(
                self.string_text(
                    meridian(t.hour as int, !(self.flags.change_case || self.flags.upper_case)),
                ),
            ),
            Conversion::MeridianUpper => Ok(
                self.string_text(meridian(t.hour as int, self.flags.change_case)),
            ),
            Conversion::Minute => Ok(self.num_text(t.minute as int, 2, true)),
            Conversion::Second => Ok(self.num_text(t.second as int, 2, true)),
            Conversion::MilliSecond => Ok(self.nanos_text(t.nanoseconds as nat, 3)),
            Conversion::FractionalSecond => Ok(self.nanos_text(t.nanoseconds as nat, 9)),
            Conversion::TimeZoneOffsetHourMinute => Ok(self.offset_text(t)),
            Conversion::TimeZoneOffsetHourMinuteColon => Ok(self.offset_text(t)),
            Conversion::TimeZoneOffsetHourMinuteSecondColon => Ok(self.offset_text(t)),
            Conversion::TimeZoneOffsetColonMinimal => Ok(self.offset_text(t)),
            Conversion::TimeZoneName => if t.time_zone@.len() == 0 {
                Ok(Seq::<u8>::empty())
            } else if !crate::text::all_ascii(t.time_zone@) {
                Err(Error::InvalidTime)
            } else if self.flags.left_padding {
                Ok(self.zone_case(t.time_zone@))
            } else {
                Ok(self.padding_text(t.time_zone@.len() as int) + self.zone_case(t.time_zone@))
            },
            Conversion::WeekDayName => if t.day_of_week <= 6 {
                Ok(self.string_text(self.name_case(crate::names::day_name(t.day_of_week))))
            } else {
                Err(Error::InvalidTime)
            },
            Conversion::WeekDayNameAbbr => if t.day_of_week <= 6 {
                Ok(self.string_text(self.name_case(crate::names::day_name(t.day_of_week)).take(3)))
            } else {
                Err(Error::InvalidTime)
            },
            Conversion::WeekDayFrom1 => Ok(
                self.num_text(if t.day_of_week == 0 { 7 } else { t.day_of_week as int }, 1, true),
            ),
            Conversion::WeekDayFrom0 => Ok(self.num_text(t.day_of_week as int, 1, true)),
            Conversion::YearIso8601 => {
                let iso_year = iso_of(t).0;
                Ok(self.num_text(iso_year, default_year_width(iso_year), true))
            },
            Conversion::YearIso8601Rem100 => Ok(self.num_text(iso_of(t).0 % 100, 2, true)),
            Conversion::WeekNumberIso8601 => Ok(self.num_text(iso_of(t).1, 2, true)),
            Conversion::WeekNumberFromSunday => Ok(
                self.num_text(
                    crate::week::week_number_of(
                        t.day_of_week as int,
                        t.day_of_year as int,
                        WeekStart::Sunday,
                    ),
                    2,
                    true,
                ),
            ),
            Conversion::WeekNumberFromMonday => Ok(
                self.num_text(
                    crate::week::week_number_of(
                        t.day_of_week as int,
                        t.day_of_year as int,
                        WeekStart::Monday,
                    ),
                    2,
                    true,
                ),
            ),
            Conversion::SecondsSinceEpoch => Ok(self.num_text(t.to_int as int, 1, true)),
            Conversion::Newline => Ok(self.string_text(seq![10u8])),
            Conversion::Tabulation => Ok(self.string_text(seq![9u8])),
            Conversion::Percent => Ok(self.string_text(seq![PERCENT])),
            Conversion::CombinationDateTime => if 1 <= t.month <= 12 && t.day_of_week <= 6 {
                Ok(self.padding_text(date_time_min_width(t.year as int)) + date_time_text(
                    t,
                    self.flags.upper_case,
                ))
            } else {
                Err(Error::InvalidTime)
            },
            Conversion::CombinationDate => Ok(self.padding_text(8) + date_text(t)),
            Conversion::CombinationIso8601 => Ok(
                self.padding_text(iso_date_min_width(t.year as int)) + iso_date_text(t),
            ),
            Conversion::CombinationVmsDate => if 1 <= t.month <= 12 {
                Ok(self.padding_text(vms_date_min_width(t.year as int)) + vms_date_text(t))
            } else {
                Err(Error::InvalidTime)
            },
            Conversion::CombinationTime12h => Ok(self.padding_text(11) + time_12h_text(t)),
            Conversion::CombinationHourMinute24h => Ok(self.padding_text(5) + hour_minute_text(t)),
            Conversion::CombinationTime24h => Ok(self.padding_text(8) + time_24h_text(t)),
        }
    }
}

/// Hour on a 12-hour clock.
pub open spec fn hour12(hour: int) -> int {
    if hour % 12 == 0 {
        12
    } else {
        hour % 12
    }
}

/// `"AM"`/`"PM"` before/after noon, or `"am"`/`"pm"` when `lower`.
pub open spec fn meridian(hour: int, lower: bool) -> Seq<u8> {
    if hour < 12 {
        if lower {
            seq![97u8, 109]
        } else {
            seq![65u8, 77]
        }
    } else {
        if lower {
            seq![112u8, 109]
        } else {
            seq![80u8, 77]
        }
    }
}

/// ISO 8601 year and week of `t`.
pub open spec fn iso_of(t: TimeValue) -> (int, int) {
    crate::week::iso_year_week(t.year as int, t.day_of_week as int, t.day_of_year as int)
}

/// Width of the shortest `%c` text: `"www mmm dd HH:MM:SS "` and the year
/// with its sign.
pub open spec fn date_time_min_width(year: int) -> int {
    20 + if signed_year_width(year) >= default_year_width(year) {
        signed_year_width(year)
    } else {
        default_year_width(year)
    }
}

/// Width of the shortest `%F` text: the year with its sign, and `"-mm-dd"`.
pub open spec fn iso_date_min_width(year: int) -> int {
    6 + if signed_year_width(year) >= default_year_width(year) {
        signed_year_width(year)
    } else {
        default_year_width(year)
    }
}

/// Width of the shortest `%v` text: `"dd-mmm-"` and the year with its sign.
pub open spec fn vms_date_min_width(year: int) -> int {
    7 + if signed_year_width(year) >= 4 {
        signed_year_width(year)
    } else {
        4
    }
}

/// `%D` and `%x` without padding: `mm/dd/yy`.
pub open spec fn date_text(t: TimeValue) -> Seq<u8> {
    zero_padded(false, t.month as nat, 2) + seq![SLASH] + zero_padded(false, t.day as nat, 2)
        + seq![SLASH] + zero_padded(false, (t.year as int % 100) as nat, 2)
}

/// `%F` without padding: the year, `-mm-dd`.
pub open spec fn iso_date_text(t: TimeValue) -> Seq<u8> {
    zero_padded(t.year < 0, abs(t.year as int), default_year_width(t.year as int)) + seq![MINUS]
        + zero_padded(false, t.month as nat, 2) + seq![MINUS] + zero_padded(false, t.day as nat, 2)
}

/// `%v` without padding: `dd-MMM-yyyy`, the month in uppercase.
pub open spec fn vms_date_text(t: TimeValue) -> Seq<u8> {
    space_padded(false, t.day as nat, 2) + seq![MINUS] + crate::text::upper_seq(
        crate::names::month_name(t.month),
    ).take(3) + seq![MINUS] + zero_padded(t.year < 0, abs(t.year as int), 4)
}

/// `%r` without padding: `HH:MM:SS AM`, on a 12-hour clock.
pub open spec fn time_12h_text(t: TimeValue) -> Seq<u8> {
    zero_padded(false, hour12(t.hour as int) as nat, 2) + seq![COLON] + zero_padded(
        false,
        t.minute as nat,
        2,
    ) + seq![COLON] + zero_padded(false, t.second as nat, 2) + seq![SPACE] + meridian(
        t.hour as int,
        false,
    )
}

/// `%R` without padding: `HH:MM`.
pub open spec fn hour_minute_text(t: TimeValue) -> Seq<u8> {
    zero_padded(false, t.hour as nat, 2) + seq![COLON] + zero_padded(false, t.minute as nat, 2)
}

/// `%T` and `%X` without padding: `HH:MM:SS`.
pub open spec fn time_24h_text(t: TimeValue) -> Seq<u8> {
    zero_padded(false, t.hour as nat, 2) + seq![COLON] + zero_padded(false, t.minute as nat, 2)
        + seq![COLON] + zero_padded(false, t.second as nat, 2)
}

/// `%c` without its padding; the names are in uppercase under `^` only.
pub open spec fn date_time_text(t: TimeValue, upper: bool) -> Seq<u8> {
    let day = crate::names::day_name(t.day_of_week);
    let month = crate::names::month_name(t.month);
    let day = if upper {
        crate::text::upper_seq(day)
    } else {
        day
    };
    let month = if upper {
        crate::text::upper_seq(month)
    } else {
        month
    };
    day.take(3) + seq![SPACE] + month.take(3) + seq![SPACE] + space_padded(false, t.day as nat, 2)
        + seq![SPACE] + zero_padded(false, t.hour as nat, 2) + seq![COLON] + zero_padded(
        false,
        t.minute as nat,
        2,
    ) + seq![COLON] + zero_padded(false, t.second as nat, 2) + seq![SPACE] + zero_padded(
        t.year < 0,
        abs(t.year as int),
        default_year_width(t.year as int),
    )
}

} // verus!
