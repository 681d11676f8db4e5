//! A chunk type argument: four ASCII letters.
use vstd::prelude::*;
use vstd::string::StringSliceAdditionalSpecFns;

verus! {

/// The four bytes of a chunk type.
#[derive(Clone, Copy, Debug, PartialEq, Eq, Hash)]
pub struct ChunkType(pub [u8; 4]);

/// Why a text is no chunk type.
#[derive(Clone, Copy, Debug, PartialEq, Eq)]
pub enum ParseChunkTypeError {
    /// It is not four bytes long.
    InvalidLength,
    /// A byte is no ASCII letter.
    NonAsciiAlphabetic,
}

/// Whether a byte is an ASCII letter.
pub open spec fn is_ascii_letter_byte(b: u8) -> bool {
    (0x41 <= b && b <= 0x5a) || (0x61 <= b && b <= 0x7a)
}

/// What the bytes of a text read as: exactly four bytes, each an ASCII
/// letter.
pub open spec fn chunk_type_of(b: Seq<u8>) -> Result<Seq<u8>, ParseChunkTypeError> {
    if b.len() != 4 {
        Err(ParseChunkTypeError::InvalidLength)
    } else if !(forall|i: int| 0 <= i < 4 ==> is_ascii_letter_byte(#[trigger] b[i])) {
        Err(ParseChunkTypeError::NonAsciiAlphabetic)
    } else {
        Ok(b)
    }
}

/// The message of a chunk type error.
pub open spec fn chunk_type_error_text(e: ParseChunkTypeError) -> Seq<char> {
    match e {
        ParseChunkTypeError::InvalidLength => "chunk type must be exactly 4 ASCII characters"@,
        ParseChunkTypeError::NonAsciiAlphabetic => "chunk type must contain only ASCII alphabetic characters"@,
    }
}

impl ParseChunkTypeError {
    /// The error as it is displayed.
    pub fn to_string(&self) -> (r: String)
        ensures
            r@ == chunk_type_error_text(*self),
    {
        match self {
            ParseChunkTypeError::InvalidLength => String::from_str("chunk type must be exactly 4 ASCII characters"),
            ParseChunkTypeError::NonAsciiAlphabetic => String::from_str(
                "chunk type must contain only ASCII alphabetic characters",
            ),
        }
    }
}

impl ChunkType {
    /// Reads a chunk type from the bytes of `s`, `chunk_type_of` says how.
    pub fn from_str(s: &str) -> (r: Result<ChunkType, ParseChunkTypeError>)
        ensures
            match r {
                Ok(c) => chunk_type_of(s.spec_bytes()) == Ok::<Seq<u8>, ParseChunkTypeError>(c.0@),
                Err(e) => chunk_type_of(s.spec_bytes()) == Err::<Seq<u8>, ParseChunkTypeError>(e),
            },
    {
        let b = s.as_bytes();
        if b.len() != 4 {
            return Err(ParseChunkTypeError::InvalidLength);
        }
        let mut i: usize = 0;
        while i < 4
            invariant
                b@ == s.spec_bytes(),
                b.len() == 4,
                i <= 4,
                forall|j: int| 0 <= j < i ==> is_ascii_letter_byte(#[trigger] b@[j]),
            decreases 4 - i,
        {
            let c = b[i];
            if !((0x41 <= c && c <= 0x5a) || (0x61 <= c && c <= 0x7a)) {
                assert(!is_ascii_letter_byte(b@[i as int]));
                return Err(ParseChunkTypeError::NonAsciiAlphabetic);
            }
            i = i + 1;
        }
        let bytes = [b[0], b[1], b[2], b[3]];
        assert(bytes@ =~= b@);
        Ok(ChunkType(bytes))
    }
}

/// Why four bytes are no private chunk type.
#[derive(Clone, Copy, Debug, PartialEq, Eq)]
pub enum ChunkTypeError {
    /// A byte is no ASCII letter.
    NonAsciiAlphabetic,
    /// Not four bytes, or the second letter is upper case (a public type).
    NonPrivateChunkType,
    /// The third letter is lower case, which is reserved.
    Reserved,
}

/// A chunk type that applications may define for themselves.
#[derive(Clone, Copy, Debug, PartialEq, Eq, Hash)]
pub struct PrivateChunkType(pub ChunkType);

/// Whether a letter byte is lower case.
pub open spec fn is_lower_byte(b: u8) -> bool {
    0x61 <= b && b <= 0x7a
}

/// What the bytes of a text read as for a private chunk type: four ASCII
/// letters, the second lower case (private) and the third upper case (not
/// reserved).
pub open spec fn private_chunk_type_of(b: Seq<u8>) -> Result<Seq<u8>, ChunkTypeError> {
    if b.len() != 4 {
        Err(ChunkTypeError::NonPrivateChunkType)
    } else if !(forall|i: int| 0 <= i < 4 ==> is_ascii_letter_byte(#[trigger] b[i])) {
        Err(ChunkTypeError::NonAsciiAlphabetic)
    } else if !is_lower_byte(b[1]) {
        Err(ChunkTypeError::NonPrivateChunkType)
    } else if is_lower_byte(b[2]) {
        Err(ChunkTypeError::Reserved)
    } else {
        Ok(b)
    }
}

impl PrivateChunkType {
    /// Reads a private chunk type from the bytes of `s`,
    /// `private_chunk_type_of` says how.
    pub fn from_str(s: &str) -> (r: Result<PrivateChunkType, ChunkTypeError>)
        ensures
            match r {
                Ok(c) => private_chunk_type_of(s.spec_bytes()) == Ok::<Seq<u8>, ChunkTypeError>(c.0.0@),
                Err(e) => private_chunk_type_of(s.spec_bytes()) == Err::<Seq<u8>, ChunkTypeError>(e),
            },
    {
        let b = s.as_bytes();
        if b.len() != 4 {
            return Err(ChunkTypeError::NonPrivateChunkType);
        }
        let mut i: usize = 0;
        while i < 4
            invariant
                b@ == s.spec_bytes(),
                b.len() == 4,
                i <= 4,
                forall|j: int| 0 <= j < i ==> is_ascii_letter_byte(#[trigger] b@[j]),
            decreases 4 - i,
        {
            let c = b[i];
            if !((0x41 <= c && c <= 0x5a) || (0x61 <= c && c <= 0x7a)) {
                assert(!is_ascii_letter_byte(b@[i as int]));
                return Err(ChunkTypeError::NonAsciiAlphabetic);
            }
            i = i + 1;
        }
        if !(0x61 <= b[1] && b[1] <= 0x7a) {
            return Err(ChunkTypeError::NonPrivateChunkType);
        }
        if 0x61 <= b[2] && b[2] <= 0x7a {
            return Err(ChunkTypeError::Reserved);
        }
        let bytes = [b[0], b[1], b[2], b[3]];
        assert(bytes@ =~= b@);
        Ok(PrivateChunkType(ChunkType(bytes)))
    }
}

} // verus!
