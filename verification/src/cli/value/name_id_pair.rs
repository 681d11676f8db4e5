//! A user or group given by name, by numeric id, or by both as `name:id`.
use vstd::prelude::*;
use crate::text::{
    chars_of, int_error_message, int_error_to_string, parse_unsigned, parse_unsigned_spec,
    push_all, push_str, split_once, split_once_chars, string_from_chars, IntErrorKind,
};

verus! {

/// A name, an id, or both.
#[derive(Clone, Debug, PartialEq, Eq)]
pub struct NameIdPair {
    pub name: Option<String>,
    pub id: Option<u32>,
}

/// Why a text is no name-id pair.
#[derive(Clone, Debug, PartialEq, Eq)]
pub enum NameIdParseError {
    /// Neither a name nor an id was given.
    Empty,
    /// The id is no `u32`.
    InvalidId(IntErrorKind),
}

/// The value of a pair: its name as characters and its id.
pub open spec fn pair_view(p: NameIdPair) -> (Option<Seq<char>>, Option<u32>) {
    (match p.name {
        Some(n) => Some(n@),
        None => None,
    }, p.id)
}

/// What a text reads as. With a colon, the text before it is the name and
/// the text after it the id, each possibly empty but not both; an id that
/// is given must read as a `u32`. Without a colon, a text that reads as a
/// `u32` is an id and any other a name.
pub open spec fn name_id_of(s: Seq<char>) -> Result<(Option<Seq<char>>, Option<u32>), NameIdParseError> {
    if s.len() == 0 {
        Err(NameIdParseError::Empty)
    } else {
        match split_once(s, ':') {
            Some((name, id)) => {
                let n = if name.len() == 0 { None } else { Some(name) };
                if id.len() == 0 {
                    if n is None { Err(NameIdParseError::Empty) } else { Ok((n, None)) }
                } else {
                    match parse_unsigned_spec(id, 10, u32::MAX as nat) {
                        Err(e) => Err(NameIdParseError::InvalidId(e)),
                        Ok(v) => Ok((n, Some(v as u32))),
                    }
                }
            },
            None => match parse_unsigned_spec(s, 10, u32::MAX as nat) {
                Ok(v) => Ok((None, Some(v as u32))),
                Err(_) => Ok((Some(s), None)),
            },
        }
    }
}

/// The message of a parse error.
pub open spec fn name_id_error_message(e: NameIdParseError) -> Seq<char> {
    match e {
        NameIdParseError::Empty => "name or id must be provided"@,
        NameIdParseError::InvalidId(k) => "invalid id: "@ + int_error_message(k),
    }
}

impl NameIdParseError {
    /// The error's message.
    pub fn to_string(&self) -> (r: String)
        ensures
            r@ == name_id_error_message(*self),
    {
        match self {
            NameIdParseError::Empty => String::from_str("name or id must be provided"),
            NameIdParseError::InvalidId(k) => {
                let mut out: Vec<char> = Vec::new();
                push_str(&mut out, "invalid id: ");
                let m = int_error_to_string(*k);
                push_str(&mut out, m.as_str());
                string_from_chars(out.as_slice())
            },
        }
    }
}

/// Reads a `u32` in decimal.
fn read_u32(s: &[char]) -> (r: Result<u32, IntErrorKind>)
    ensures
        r matches Ok(v) ==> parse_unsigned_spec(s@, 10, u32::MAX as nat) == Ok::<nat, IntErrorKind>(v as nat),
        r matches Err(e) ==> parse_unsigned_spec(s@, 10, u32::MAX as nat) == Err::<nat, IntErrorKind>(e),
{
    match parse_unsigned(s, 10, 0xffff_ffff) {
        Ok(v) => {
            proof {
                crate::text::lemma_parse_digits_bound(s@, 10, u32::MAX as nat);
                if s@.len() > 0 {
                    crate::text::lemma_parse_digits_bound(s@.drop_first(), 10, u32::MAX as nat);
                }
            }
            Ok(v as u32)
        },
        Err(e) => Err(e),
    }
}

impl NameIdPair {
    /// Reads a name, an id, or `name:id`.
    pub fn from_str(s: &str) -> (r: Result<NameIdPair, NameIdParseError>)
        ensures
            r matches Ok(p) ==> name_id_of(s@) == Ok::<(Option<Seq<char>>, Option<u32>), NameIdParseError>(
                pair_view(p),
            ),
            r matches Err(e) ==> name_id_of(s@) == Err::<(Option<Seq<char>>, Option<u32>), NameIdParseError>(e),
    {
        let cs = chars_of(s);
        if cs.len() == 0 {
            return Err(NameIdParseError::Empty);
        }
        match split_once_chars(cs.as_slice(), ':') {
            Some((name, id_str)) => {
                let n = if name.len() == 0 {
                    None
                } else {
                    Some(string_from_chars(name.as_slice()))
                };
                let id = if id_str.len() == 0 {
                    None
                } else {
                    match read_u32(id_str.as_slice()) {
                        Ok(v) => Some(v),
                        Err(e) => return Err(NameIdParseError::InvalidId(e)),
                    }
                };
                if n.is_none() && id.is_none() {
                    return Err(NameIdParseError::Empty);
                }
                Ok(NameIdPair { name: n, id })
            },
            None => match read_u32(cs.as_slice()) {
                Ok(v) => Ok(NameIdPair { name: None, id: Some(v) }),
                Err(_) => Ok(NameIdPair { name: Some(string_from_chars(cs.as_slice())), id: None }),
            },
        }
    }
}

} // verus!
