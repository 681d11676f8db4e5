//! The size of the parts of a split archive (`--split`).
use vstd::prelude::*;

verus! {

/// Bytes of a chunk besides its data: its length, type and checksum.
pub const MIN_CHUNK_BYTES: u64 = 12;

/// Bytes a part of a split archive needs besides its entries: the archive
/// header, the header, next-part and end chunks, and eight bytes more.
pub const SPLIT_ARCHIVE_OVERHEAD_BYTES: u64 = 8 + MIN_CHUNK_BYTES * 3 + 8;

/// The least size of a part: its overhead and one chunk.
pub const MIN_SPLIT_PART_BYTES: u64 = SPLIT_ARCHIVE_OVERHEAD_BYTES + MIN_CHUNK_BYTES;

/// The part size when `--split` is given without a size: one gigabyte.
pub const DEFAULT_SPLIT_BYTES: u64 = 1_000_000_000;

/// Why a part size is refused.
#[derive(Clone, Copy, Debug, PartialEq, Eq)]
pub enum SplitSizeError {
    /// The size does not fit this platform's sizes.
    TooLarge,
    /// The size is below `MIN_SPLIT_PART_BYTES`.
    TooSmall,
}

/// The part size that `--split` asks for: none without the option; the
/// size given, or one gigabyte, with it; refused where it does not fit the
/// platform or lies below the least part size.
pub open spec fn split_size_of(split: Option<Option<u64>>) -> Result<Option<usize>, SplitSizeError> {
    match split {
        None => Ok(None),
        Some(o) => {
            let n: u64 = match o {
                Some(n) => n,
                None => DEFAULT_SPLIT_BYTES,
            };
            if n > usize::MAX {
                Err(SplitSizeError::TooLarge)
            } else if n < MIN_SPLIT_PART_BYTES {
                Err(SplitSizeError::TooSmall)
            } else {
                Ok(Some(n as usize))
            }
        },
    }
}

/// The part size of a split archive, `split_size_of` says which.
pub fn resolve_split_size(split: Option<Option<u64>>) -> (r: Result<Option<usize>, SplitSizeError>)
    ensures
        r == split_size_of(split),
{
    match split {
        None => Ok(None),
        Some(o) => {
            let n: u64 = match o {
                Some(n) => n,
                None => DEFAULT_SPLIT_BYTES,
            };
            if n > usize::MAX as u64 {
                Err(SplitSizeError::TooLarge)
            } else if n < MIN_SPLIT_PART_BYTES {
                Err(SplitSizeError::TooSmall)
            } else {
                Ok(Some(n as usize))
            }
        },
    }
}

impl SplitSizeError {
    /// The message of the error.
    pub fn to_string(&self) -> (r: String)
        ensures
            r@ == match *self {
                SplitSizeError::TooLarge => "--split size is too large for this platform"@,
                SplitSizeError::TooSmall => "The value for --split must be at least 64 bytes (64 B)."@,
            },
    {
        match self {
            SplitSizeError::TooLarge => String::from_str("--split size is too large for this platform"),
            SplitSizeError::TooSmall => String::from_str("The value for --split must be at least 64 bytes (64 B)."),
        }
    }
}

} // verus!
