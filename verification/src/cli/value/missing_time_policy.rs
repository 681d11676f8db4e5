//! What to do with an entry that lacks the timestamp a filter compares.
use vstd::prelude::*;
use crate::text::{chars_of, string_from_chars, word_is};
use crate::time::Timestamp;
use super::datetime::{
    civil_reading, date_reading, epoch_reading, epoch_text_of, is_epoch_text, DateTime, DateTimeError,
};
use crate::time::representable;

verus! {

/// How to treat an entry that carries no value for the compared timestamp.
#[derive(Clone, Copy, Debug, PartialEq, Eq)]
pub enum MissingTimePolicy {
    /// Keep the entry.
    Include,
    /// Drop the entry.
    Exclude,
    /// Compare as if the entry carried the given timestamp.
    Assume(Timestamp),
}

/// Why a text is no policy.
#[derive(Debug)]
pub enum MissingTimePolicyError {
    DateTime(DateTimeError),
}

/// The instant a date-time text is assumed as, where it is fixed by the
/// text: an `@<seconds>` value that reads and is representable, or a
/// calendar date (at midnight UTC) that is no civil date-time.
pub open spec fn fixed_instant_of(s: Seq<char>) -> Option<int> {
    if is_epoch_text(s) {
        match epoch_reading(epoch_text_of(s)) {
            Some(Some(n)) => if representable(n) { Some(n) } else { None },
            _ => None,
        }
    } else if civil_reading(s) is None {
        match date_reading(s) {
            Some(d) => Some(d.0 * 1_000_000_000),
            None => None,
        }
    } else {
        None
    }
}

/// Whether a text is one of the policy keywords.
pub open spec fn is_policy_keyword(s: Seq<char>) -> bool {
    s == "include"@ || s == "exclude"@ || s == "now"@ || s == "epoch"@
}

impl MissingTimePolicy {
    /// Reads a policy: `include`, `exclude`, `now` (the clock's time when
    /// read), `epoch`, or any date-time, which is assumed.
    pub fn from_str(s: &str) -> (r: Result<MissingTimePolicy, MissingTimePolicyError>)
        ensures
            s@ == "include"@ ==> r == Ok::<MissingTimePolicy, MissingTimePolicyError>(MissingTimePolicy::Include),
            s@ == "exclude"@ ==> r == Ok::<MissingTimePolicy, MissingTimePolicyError>(MissingTimePolicy::Exclude),
            s@ == "epoch"@ ==> (r matches Ok(MissingTimePolicy::Assume(t)) && t@ == 0),
            s@ != "include"@ && s@ != "exclude"@ ==> (r matches Ok(p) ==> p is Assume),
            !is_policy_keyword(s@) && fixed_instant_of(s@) is Some ==> (r matches Ok(MissingTimePolicy::Assume(t))
                && t@ == fixed_instant_of(s@)->0),
            r matches Err(MissingTimePolicyError::DateTime(DateTimeError::OutOfRange(t))) ==> t@ == s@,
            r matches Err(MissingTimePolicyError::DateTime(DateTimeError::ChronoParse(_))) ==> false,
    {
        proof {
            reveal_strlit("include");
            reveal_strlit("exclude");
            reveal_strlit("now");
            reveal_strlit("epoch");
            assert("include"@.len() == 7 && "exclude"@.len() == 7 && "now"@.len() == 3 && "epoch"@.len() == 5);
            assert("include"@[0] == 'i' && "exclude"@[0] == 'e' && "now"@[0] == 'n' && "epoch"@[0] == 'e');
            assert("exclude"@[1] == 'x' && "epoch"@[1] == 'p');
        }
        let cs = chars_of(s);
        if word_is(cs.as_slice(), "include") {
            Ok(MissingTimePolicy::Include)
        } else if word_is(cs.as_slice(), "exclude") {
            Ok(MissingTimePolicy::Exclude)
        } else if word_is(cs.as_slice(), "now") {
            match Timestamp::now() {
                Some(t) => Ok(MissingTimePolicy::Assume(t)),
                None => Err(MissingTimePolicyError::DateTime(
                    DateTimeError::OutOfRange(string_from_chars(cs.as_slice())),
                )),
            }
        } else if word_is(cs.as_slice(), "epoch") {
            Ok(MissingTimePolicy::Assume(Timestamp::unix_epoch()))
        } else {
            match DateTime::from_str(s) {
                Ok(d) => Ok(MissingTimePolicy::Assume(d.to_system_time())),
                Err(e) => Err(MissingTimePolicyError::DateTime(e)),
            }
        }
    }

    /// How the policy is shown: its keyword, or `<datetime>` for an
    /// assumed time.
    pub fn to_string(&self) -> (r: String)
        ensures
            r@ == match *self {
                MissingTimePolicy::Include => "include"@,
                MissingTimePolicy::Exclude => "exclude"@,
                MissingTimePolicy::Assume(_) => "<datetime>"@,
            },
    {
        match self {
            MissingTimePolicy::Include => String::from_str("include"),
            MissingTimePolicy::Exclude => String::from_str("exclude"),
            MissingTimePolicy::Assume(_) => String::from_str("<datetime>"),
        }
    }
}

} // verus!
