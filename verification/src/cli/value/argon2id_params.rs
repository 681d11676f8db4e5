//! Argon2id key-derivation parameters: `t=<time>,m=<memory>,p=<parallelism>`.
use vstd::prelude::*;
use super::params::{last_value, params_last_value_wins, params_of, parse_u32_params, piece_ok};
use crate::text::split_on;

verus! {

/// Argon2id cost parameters; an unset one takes the library default.
#[derive(Clone, Debug, PartialEq, Eq, PartialOrd, Ord, Hash)]
pub struct Argon2idParams {
    pub time: Option<u32>,
    pub memory: Option<u32>,
    pub parallelism: Option<u32>,
}

/// The keys of the parameters, in field order.
pub open spec fn argon2id_keys() -> Seq<char> {
    seq!['t', 'm', 'p']
}

impl Argon2idParams {
    /// Reads `t=..`, `m=..` and `p=..` parameters separated by commas; an
    /// unknown or malformed parameter, or a value that is no `u32`, is an
    /// error with its message.
    pub fn from_str(s: &str) -> (r: Result<Argon2idParams, String>)
        ensures
            r matches Ok(p) ==> params_of(s@, argon2id_keys()) == Ok::<Seq<Option<u32>>, Seq<char>>(
                seq![p.time, p.memory, p.parallelism],
            ),
            r matches Err(e) ==> params_of(s@, argon2id_keys()) == Err::<Seq<Option<u32>>, Seq<char>>(e@),
    {
        let keys = vec!['t', 'm', 'p'];
        assert(keys@ =~= argon2id_keys());
        match parse_u32_params(s, keys.as_slice()) {
            Ok(v) => {
                assert(v@.len() == 3) by {
                    super::params::lemma_params_len(crate::text::split_on(s@, ','), argon2id_keys());
                }
                let r = Argon2idParams { time: v[0], memory: v[1], parallelism: v[2] };
                assert(v@ =~= seq![r.time, r.memory, r.parallelism]);
                Ok(r)
            },
            Err(e) => Err(e),
        }
    }
}

/// Argon2id parameters read exactly when every comma-separated item is
/// `t=N`, `m=N` or `p=N` with `N` a `u32`; then time, memory and
/// parallelism are the last value given for `t`, `m` and `p`, unset where
/// none is.
pub proof fn argon2id_params_law(s: Seq<char>)
    ensures
        params_of(s, argon2id_keys()) is Ok <==> forall|j: int|
            0 <= j < split_on(s, ',').len() ==> piece_ok(argon2id_keys(), #[trigger] split_on(s, ',')[j]),
        params_of(s, argon2id_keys()) is Ok ==> params_of(s, argon2id_keys())->Ok_0 == seq![
            last_value(split_on(s, ','), argon2id_keys(), 0),
            last_value(split_on(s, ','), argon2id_keys(), 1),
            last_value(split_on(s, ','), argon2id_keys(), 2),
        ],
{
    params_last_value_wins(split_on(s, ','), argon2id_keys());
    if params_of(s, argon2id_keys()) is Ok {
        let v = params_of(s, argon2id_keys())->Ok_0;
        assert(v.len() == 3);
        assert(v =~= seq![v[0], v[1], v[2]]);
    }
}

} // verus!
