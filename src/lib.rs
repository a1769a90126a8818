//! A strftime engine compatible with Ruby 3.1: a time value and a format
//! string of `%` directives give formatted bytes.
//!
//! Each directive is a `%`, zero or more flags (`-`, `_`, `0`, `^`, `#`), an
//! optional minimum width, an optional ignored modifier (`E` or `O`) and a
//! conversion letter, or one to three colons and `z`.

pub mod buffered;
pub mod bytes;
pub mod check;
pub mod cursor;
pub mod format;
pub mod formatter;
pub mod laws;
pub mod names;
pub mod parser;
pub mod render;
pub mod sink;
pub mod string;
pub mod text;
pub mod time;
pub mod unicode;
pub mod week;

pub use time::{Time, TimeValue};

use vstd::prelude::*;

verus! {

/// Error type returned by the `strftime` functions.
#[derive(Debug, Clone, PartialEq, Eq, Structural)]
#[non_exhaustive]
pub enum Error {
    /// Provided time implementation returns invalid values.
    InvalidTime,
    /// Provided format string is ended by an unterminated format specifier.
    InvalidFormatString,
    /// Formatted string is too large and could cause an out-of-memory error.
    FormattedStringTooLarge,
    /// Provided buffer for the buffered `strftime` function is too small for
    /// the formatted string.
    WriteZero,
    /// Formatting error of an output adapter.
    FmtError,
}

impl Error {
    /// A short description of the error.
    pub open spec fn description(self) -> Seq<char> {
        match self {
            Error::InvalidTime => "invalid time"@,
            Error::InvalidFormatString => "invalid format string"@,
            Error::FormattedStringTooLarge => "formatted string too large"@,
            Error::WriteZero => "failed to write the whole buffer"@,
            Error::FmtError => "formatter error"@,
        }
    }

    /// A short description of the error.
    pub fn to_string(&self) -> (r: String)
        ensures
            r@ == self.description(),
            r@.len() > 0,
    {
        let s = match self {
            Error::InvalidTime => "invalid time",
            Error::InvalidFormatString => "invalid format string",
            Error::FormattedStringTooLarge => "formatted string too large",
            Error::WriteZero => "failed to write the whole buffer",
            Error::FmtError => "formatter error",
        };
        proof {
            reveal_strlit("invalid time");
            reveal_strlit("invalid format string");
            reveal_strlit("formatted string too large");
            reveal_strlit("failed to write the whole buffer");
            reveal_strlit("formatter error");
        }
        s.to_string()
    }
}

} // verus!
