//! Compression levels given as a number in a range, or as `min` or `max`.
use vstd::prelude::*;
use crate::text::{
    chars_eq_ignore_ascii_case, chars_of, decimal, eq_ignore_ascii_case, int_error_message, int_error_to_string, parse_unsigned,
    parse_unsigned_spec, push_str, string_from_chars, u64_to_chars, IntErrorKind,
};

verus! {

/// Why a text is no compression level.
#[derive(Clone, Debug, PartialEq, Eq)]
pub enum ParseCompressionLevelError {
    /// The text is no `u8`.
    ParseInt(IntErrorKind),
    /// The number lies outside `min..=max`.
    OutOfRange { value: u8, min: u8, max: u8 },
}

/// A compression level: the least, the greatest, or a number in
/// `MIN..=MAX`.
#[derive(Clone, Copy, Debug, PartialEq, Eq, PartialOrd, Ord, Hash)]
pub enum CompressionLevelInput<const MIN: u8, const MAX: u8> {
    /// Minimum compression level.
    Min,
    /// Maximum compression level.
    Max,
    /// Custom numeric compression level.
    Numeric(u8),
}

/// A compression level for whichever algorithm is chosen: the least, the
/// greatest, or a number.
#[derive(Clone, Copy, Debug, PartialEq, Eq)]
pub enum CompressionLevel {
    Min,
    Max,
    Level(u8),
}

/// The level that a level argument stands for.
pub open spec fn level_of_input<const MIN: u8, const MAX: u8>(l: CompressionLevelInput<MIN, MAX>) -> CompressionLevel {
    match l {
        CompressionLevelInput::Min => CompressionLevel::Min,
        CompressionLevelInput::Max => CompressionLevel::Max,
        CompressionLevelInput::Numeric(n) => CompressionLevel::Level(n),
    }
}

/// Deflate compression level (1-9, min, max).
pub type DeflateLevel = CompressionLevelInput<1, 9>;

/// Zstd compression level (1-21, min, max).
pub type ZstdLevel = CompressionLevelInput<1, 21>;

/// Xz compression level (0-9, min, max).
pub type XzLevel = CompressionLevelInput<0, 9>;

/// What a text reads as for the range `min..=max`: `min` and `max` in any
/// ASCII case are the keywords, anything else must be a `u8` in range.
pub open spec fn level_of(s: Seq<char>, min: u8, max: u8) -> Result<Option<(bool, u8)>, ParseCompressionLevelError> {
    if eq_ignore_ascii_case(s, "min"@) {
        Ok(Some((false, 0)))
    } else if eq_ignore_ascii_case(s, "max"@) {
        Ok(Some((true, 0)))
    } else {
        match parse_unsigned_spec(s, 10, u8::MAX as nat) {
            Err(e) => Err(ParseCompressionLevelError::ParseInt(e)),
            Ok(n) => if min <= n && n <= max {
                Ok(None)
            } else {
                Err(ParseCompressionLevelError::OutOfRange { value: n as u8, min, max })
            },
        }
    }
}

/// The level a text reads as for `MIN..=MAX`, or why it reads as none.
pub open spec fn level_input_of<const MIN: u8, const MAX: u8>(s: Seq<char>) -> Result<
    CompressionLevelInput<MIN, MAX>,
    ParseCompressionLevelError,
> {
    match level_of(s, MIN, MAX) {
        Ok(Some((is_max, _))) => if is_max {
            Ok(CompressionLevelInput::Max)
        } else {
            Ok(CompressionLevelInput::Min)
        },
        Ok(None) => Ok(CompressionLevelInput::Numeric(parse_unsigned_spec(s, 10, u8::MAX as nat)->Ok_0 as u8)),
        Err(e) => Err(e),
    }
}

/// How a level error reads: the integer error's message, or
/// `<value> is not in <min>..=<max>`.
pub open spec fn level_error_text(e: ParseCompressionLevelError) -> Seq<char> {
    match e {
        ParseCompressionLevelError::ParseInt(k) => int_error_message(k),
        ParseCompressionLevelError::OutOfRange { value, min, max } => decimal(value as nat) + " is not in "@
            + decimal(min as nat) + "..="@ + decimal(max as nat),
    }
}

impl ParseCompressionLevelError {
    /// The error as it is displayed, `level_error_text` says how.
    pub fn to_string(&self) -> (r: String)
        ensures
            r@ == level_error_text(*self),
    {
        match self {
            ParseCompressionLevelError::ParseInt(k) => int_error_to_string(*k),
            ParseCompressionLevelError::OutOfRange { value, min, max } => {
                let mut out = u64_to_chars(*value as u64);
                push_str(&mut out, " is not in ");
                let lo = u64_to_chars(*min as u64);
                crate::text::push_all(&mut out, lo.as_slice());
                push_str(&mut out, "..=");
                let hi = u64_to_chars(*max as u64);
                crate::text::push_all(&mut out, hi.as_slice());
                string_from_chars(out.as_slice())
            },
        }
    }
}

impl<const MIN: u8, const MAX: u8> CompressionLevelInput<MIN, MAX> {
    /// The level that the argument stands for.
    pub fn level(self) -> (r: CompressionLevel)
        ensures
            r == level_of_input(self),
    {
        match self {
            CompressionLevelInput::Min => CompressionLevel::Min,
            CompressionLevelInput::Max => CompressionLevel::Max,
            CompressionLevelInput::Numeric(n) => CompressionLevel::Level(n),
        }
    }

    /// Reads a level: `min` or `max` in any ASCII case, or a number in
    /// `MIN..=MAX`.
    pub fn from_str(s: &str) -> (r: Result<Self, ParseCompressionLevelError>)
        ensures
            r matches Ok(CompressionLevelInput::Min) ==> eq_ignore_ascii_case(s@, "min"@),
            r matches Ok(CompressionLevelInput::Max) ==> !eq_ignore_ascii_case(s@, "min"@)
                && eq_ignore_ascii_case(s@, "max"@),
            r matches Ok(CompressionLevelInput::Numeric(n)) ==> !eq_ignore_ascii_case(s@, "min"@)
                && !eq_ignore_ascii_case(s@, "max"@) && parse_unsigned_spec(s@, 10, u8::MAX as nat)
                == Ok::<nat, IntErrorKind>(n as nat) && MIN <= n <= MAX,
            r is Ok <==> level_of(s@, MIN, MAX) is Ok,
            r matches Err(e) ==> level_of(s@, MIN, MAX) == Err::<Option<(bool, u8)>, ParseCompressionLevelError>(e),
            eq_ignore_ascii_case(s@, "min"@) ==> r == Ok::<Self, ParseCompressionLevelError>(CompressionLevelInput::Min),
            r == level_input_of::<MIN, MAX>(s@),
    {
        let cs = chars_of(s);
        if chars_eq_ignore_ascii_case(cs.as_slice(), "min") {
            Ok(CompressionLevelInput::Min)
        } else if chars_eq_ignore_ascii_case(cs.as_slice(), "max") {
            Ok(CompressionLevelInput::Max)
        } else {
            match parse_unsigned(cs.as_slice(), 10, 0xff) {
                Err(e) => Err(ParseCompressionLevelError::ParseInt(e)),
                Ok(v) => {
                    proof {
                        crate::text::lemma_parse_digits_bound(s@, 10, u8::MAX as nat);
                        if s@.len() > 0 {
                            crate::text::lemma_parse_digits_bound(s@.drop_first(), 10, u8::MAX as nat);
                        }
                    }
                    let n = v as u8;
                    if MIN <= n && n <= MAX {
                        Ok(CompressionLevelInput::Numeric(n))
                    } else {
                        Err(ParseCompressionLevelError::OutOfRange { value: n, min: MIN, max: MAX })
                    }
                },
            }
        }
    }
}

} // verus!
