//! PBKDF2-SHA256 key-derivation parameters: `r=<rounds>`.
use vstd::prelude::*;
use super::params::{params_of, parse_u32_params};

verus! {

/// PBKDF2-SHA256 cost parameters; an unset one takes the library default.
#[derive(Clone, Debug, PartialEq, Eq, PartialOrd, Ord, Hash)]
pub struct Pbkdf2Sha256Params {
    pub rounds: Option<u32>,
}

/// The key of the parameter.
pub open spec fn pbkdf2_keys() -> Seq<char> {
    seq!['r']
}

impl Pbkdf2Sha256Params {
    /// Reads `r=..` parameters separated by commas; an unknown or malformed
    /// parameter, or a value that is no `u32`, is an error with its message.
    pub fn from_str(s: &str) -> (r: Result<Pbkdf2Sha256Params, String>)
        ensures
            r matches Ok(p) ==> params_of(s@, pbkdf2_keys()) == Ok::<Seq<Option<u32>>, Seq<char>>(seq![p.rounds]),
            r matches Err(e) ==> params_of(s@, pbkdf2_keys()) == Err::<Seq<Option<u32>>, Seq<char>>(e@),
    {
        let keys = vec!['r'];
        assert(keys@ =~= pbkdf2_keys());
        match parse_u32_params(s, keys.as_slice()) {
            Ok(v) => {
                assert(v@.len() == 1) by {
                    super::params::lemma_params_len(crate::text::split_on(s@, ','), pbkdf2_keys());
                }
                let r = Pbkdf2Sha256Params { rounds: v[0] };
                assert(v@ =~= seq![r.rounds]);
                Ok(r)
            },
            Err(e) => Err(e),
        }
    }
}

} // verus!
