//! Comma-separated `key=value` parameter lists with single-letter keys and
//! 32-bit unsigned values, as the key-derivation options take them.
use vstd::prelude::*;
use crate::text::{
    chars_of, int_error_message, int_error_to_string, is_first_index, parse_unsigned,
    parse_unsigned_spec, push_all, push_str, split_chars, split_on, split_once, split_once_chars,
    string_from_chars,
};

verus! {

/// The position of the key that `k` names: `k` is one character, and the
/// first position that holds it.
pub open spec fn key_position(keys: Seq<char>, k: Seq<char>) -> Option<int> {
    if k.len() == 1 && keys.contains(k[0]) {
        Some(choose|i: int| is_first_index(keys, k[0], i))
    } else {
        None
    }
}

/// The message for a parameter that is no `key=value` with a known key.
pub open spec fn unknown_parameter_message(param: Seq<char>) -> Seq<char> {
    "Unknown parameter `"@ + param + "`"@
}

/// Reads one parameter into the values read so far: a known key and a
/// value that reads as a `u32` sets that key (a later one wins), anything
/// else is an error.
pub open spec fn param_step(vals: Seq<Option<u32>>, keys: Seq<char>, param: Seq<char>) -> Result<Seq<Option<u32>>, Seq<char>> {
    match split_once(param, '=') {
        Some((k, n)) => match key_position(keys, k) {
            Some(i) => match parse_unsigned_spec(n, 10, u32::MAX as nat) {
                Ok(v) => Ok(vals.update(i, Some(v as u32))),
                Err(e) => Err(int_error_message(e)),
            },
            None => Err(unknown_parameter_message(param)),
        },
        None => Err(unknown_parameter_message(param)),
    }
}

/// Reads the parameters in order; the first that fails decides the error.
/// Every key starts out unset.
pub open spec fn parse_params(pieces: Seq<Seq<char>>, keys: Seq<char>) -> Result<Seq<Option<u32>>, Seq<char>>
    decreases pieces.len(),
{
    if pieces.len() == 0 {
        Ok(Seq::new(keys.len(), |i: int| None))
    } else {
        match parse_params(pieces.drop_last(), keys) {
            Err(e) => Err(e),
            Ok(v) => param_step(v, keys, pieces.last()),
        }
    }
}

/// What a parameter list reads as: its comma-separated pieces in order.
pub open spec fn params_of(s: Seq<char>, keys: Seq<char>) -> Result<Seq<Option<u32>>, Seq<char>> {
    parse_params(split_on(s, ','), keys)
}


/// Once the parameters up to some point fail, the whole list fails the
/// same way.
pub proof fn lemma_params_prefix_err(pieces: Seq<Seq<char>>, n: nat, keys: Seq<char>)
    requires
        n <= pieces.len(),
        parse_params(pieces.take(n as int), keys) is Err,
    ensures
        parse_params(pieces, keys) == parse_params(pieces.take(n as int), keys),
    decreases pieces.len(),
{
    if pieces.len() == n {
        assert(pieces.take(n as int) =~= pieces);
    } else {
        assert(pieces.drop_last().take(n as int) =~= pieces.take(n as int));
        lemma_params_prefix_err(pieces.drop_last(), n, keys);
    }
}

/// The first position of `c` in `keys`, where it occurs.
fn find_key(keys: &[char], k: &[char]) -> (r: Option<usize>)
    ensures
        r matches Some(i) ==> key_position(keys@, k@) == Some(i as int) && i < keys@.len(),
        r is None ==> key_position(keys@, k@) is None,
{
    if k.len() != 1 {
        return None;
    }
    let c = k[0];
    let mut i: usize = 0;
    while i < keys.len()
        invariant
            i <= keys.len(),
            k@.len() == 1,
            c == k@[0],
            forall|j: int| 0 <= j < i ==> keys@[j] != c,
        decreases keys.len() - i,
    {
        if keys[i] == c {
            assert(is_first_index(keys@, c, i as int));
            proof {
                let p = choose|p: int| is_first_index(keys@, c, p);
                crate::text::lemma_first_index_unique(keys@, c, i as int, p);
            }
            return Some(i);
        }
        i = i + 1;
    }
    None
}

/// The error message for an unknown parameter.
fn unknown_parameter(param: &[char]) -> (r: String)
    ensures
        r@ == unknown_parameter_message(param@),
{
    let mut out: Vec<char> = Vec::new();
    push_str(&mut out, "Unknown parameter `");
    push_all(&mut out, param);
    push_str(&mut out, "`");
    string_from_chars(out.as_slice())
}

/// Reads a comma-separated list of `key=value` parameters whose keys are
/// the given single characters; yields each key's value, if it was given.
pub fn parse_u32_params(s: &str, keys: &[char]) -> (r: Result<Vec<Option<u32>>, String>)
    ensures
        r matches Ok(v) ==> params_of(s@, keys@) == Ok::<Seq<Option<u32>>, Seq<char>>(v@),
        r matches Err(e) ==> params_of(s@, keys@) == Err::<Seq<Option<u32>>, Seq<char>>(e@),
{
    let cs = chars_of(s);
    let pieces = split_chars(cs.as_slice(), ',');
    let mut vals: Vec<Option<u32>> = Vec::new();
    let mut k: usize = 0;
    while k < keys.len()
        invariant
            k <= keys.len(),
            vals@ == Seq::new(k as nat, |i: int| None::<u32>),
        decreases keys.len() - k,
    {
        vals.push(None);
        k = k + 1;
        assert(vals@ =~= Seq::new(k as nat, |i: int| None::<u32>));
    }
    assert(pieces.deep_view().take(0) =~= Seq::<Seq<char>>::empty());
    let mut i: usize = 0;
    while i < pieces.len()
        invariant
            i <= pieces.len(),
            vals@.len() == keys@.len(),
            pieces.deep_view() == split_on(s@, ','),
            parse_params(pieces.deep_view().take(i as int), keys@) == Ok::<Seq<Option<u32>>, Seq<char>>(vals@),
        decreases pieces.len() - i,
    {
        let ghost before = vals@;
        let ghost taken = pieces.deep_view().take(i + 1);
        assert(taken.drop_last() =~= pieces.deep_view().take(i as int));
        assert(taken.last() == pieces[i as int]@);
        let param = pieces[i].as_slice();
        match split_once_chars(param, '=') {
            Some((key, num)) => match find_key(keys, key.as_slice()) {
                Some(pos) => match parse_unsigned(num.as_slice(), 10, 0xffff_ffff) {
                    Ok(v) => {
                        proof { crate::text::lemma_parse_digits_bound(num@, 10, u32::MAX as nat); }
                        assert(v <= 0xffff_ffff) by {
                            if num@.len() > 0 && num@[0] == '+' {
                                crate::text::lemma_parse_digits_bound(num@.drop_first(), 10, u32::MAX as nat);
                            }
                        }
                        vals.set(pos, Some(v as u32));
                        assert(vals@ =~= before.update(pos as int, Some(v as u32)));
                    },
                    Err(e) => {
                        proof {
                            lemma_params_prefix_err(pieces.deep_view(), (i + 1) as nat, keys@);
                        }
                        return Err(int_error_to_string(e));
                    },
                },
                None => {
                    proof { lemma_params_prefix_err(pieces.deep_view(), (i + 1) as nat, keys@); }
                    return Err(unknown_parameter(param));
                },
            },
            None => {
                proof { lemma_params_prefix_err(pieces.deep_view(), (i + 1) as nat, keys@); }
                return Err(unknown_parameter(param));
            },
        }
        i = i + 1;
    }
    assert(pieces.deep_view().take(pieces.len() as int) =~= pieces.deep_view());
    Ok(vals)
}

/// A successful reading has one value per key.
pub proof fn lemma_params_len(pieces: Seq<Seq<char>>, keys: Seq<char>)
    ensures
        parse_params(pieces, keys) matches Ok(v) ==> v.len() == keys.len(),
    decreases pieces.len(),
{
    if pieces.len() > 0 {
        lemma_params_len(pieces.drop_last(), keys);
        if let Some((k, n)) = split_once(pieces.last(), '=') {
            if k.len() == 1 && keys.contains(k[0]) {
                crate::text::lemma_first_index_exists(keys, k[0]);
            }
        }
    }
}


/// Whether a piece is `key=value` with a known key and a value that reads
/// as a `u32`.
pub open spec fn piece_ok(keys: Seq<char>, p: Seq<char>) -> bool {
    match split_once(p, '=') {
        Some((k, n)) => key_position(keys, k) is Some && parse_unsigned_spec(n, 10, u32::MAX as nat) is Ok,
        None => false,
    }
}

/// The position of the key a piece names, where it names a known one.
pub open spec fn piece_key(keys: Seq<char>, p: Seq<char>) -> Option<int> {
    match split_once(p, '=') {
        Some((k, _n)) => key_position(keys, k),
        None => None,
    }
}

/// The value a well-formed piece gives.
pub open spec fn piece_value(p: Seq<char>) -> u32 {
    match split_once(p, '=') {
        Some((_k, n)) => match parse_unsigned_spec(n, 10, u32::MAX as nat) {
            Ok(v) => v as u32,
            Err(_) => 0,
        },
        None => 0,
    }
}

/// The value that the last piece naming the key at position `i` gives, if
/// a piece names it.
pub open spec fn last_value(pieces: Seq<Seq<char>>, keys: Seq<char>, i: int) -> Option<u32>
    decreases pieces.len(),
{
    if pieces.len() == 0 {
        None
    } else if piece_key(keys, pieces.last()) == Some(i) {
        Some(piece_value(pieces.last()))
    } else {
        last_value(pieces.drop_last(), keys, i)
    }
}

/// A known key lies among the keys.
proof fn lemma_key_position_within(keys: Seq<char>, k: Seq<char>)
    ensures
        key_position(keys, k) matches Some(i) ==> 0 <= i < keys.len(),
{
    if k.len() == 1 && keys.contains(k[0]) {
        crate::text::lemma_first_index_exists(keys, k[0]);
    }
}

/// A parameter list reads exactly when every piece is `key=value` with a
/// known key and a `u32` value; then each key has the value of the last
/// piece that names it, and is unset where none does.
pub proof fn params_last_value_wins(pieces: Seq<Seq<char>>, keys: Seq<char>)
    ensures
        parse_params(pieces, keys) is Ok <==> forall|j: int| 0 <= j < pieces.len() ==> piece_ok(keys, #[trigger] pieces[j]),
        parse_params(pieces, keys) matches Ok(v) ==> v.len() == keys.len() && forall|i: int|
            0 <= i < keys.len() ==> #[trigger] v[i] == last_value(pieces, keys, i),
    decreases pieces.len(),
{
    lemma_params_len(pieces, keys);
    if pieces.len() > 0 {
        let init = pieces.drop_last();
        let last = pieces.last();
        params_last_value_wins(init, keys);
        lemma_params_len(init, keys);
        if let Some((k, n)) = split_once(last, '=') {
            lemma_key_position_within(keys, k);
        }
        if parse_params(init, keys) is Ok {
            assert forall|j: int| 0 <= j < init.len() implies piece_ok(keys, #[trigger] init[j]) <==> piece_ok(keys, pieces[j]) by {
                assert(init[j] == pieces[j]);
            }
            assert(pieces[pieces.len() - 1] == last);
            assert(parse_params(pieces, keys) is Ok <==> piece_ok(keys, last));
            if piece_ok(keys, last) {
                assert forall|j: int| 0 <= j < pieces.len() implies piece_ok(keys, #[trigger] pieces[j]) by {
                    if j < init.len() {
                        assert(init[j] == pieces[j]);
                    }
                }
            }
            if parse_params(pieces, keys) is Ok {
                let v0 = parse_params(init, keys)->Ok_0;
                let v = parse_params(pieces, keys)->Ok_0;
                let (k, n) = split_once(last, '=')->0;
                let idx = key_position(keys, k)->0;
                assert(v == v0.update(idx, Some(piece_value(last))));
                assert forall|i: int| 0 <= i < keys.len() implies #[trigger] v[i] == last_value(pieces, keys, i) by {
                    assert(v0[i] == last_value(init, keys, i));
                }
            }
        } else {
            let j = choose|j: int| 0 <= j < init.len() && !piece_ok(keys, #[trigger] init[j]);
            assert(init[j] == pieces[j]);
        }
    } else {
        assert forall|i: int| 0 <= i < keys.len() implies #[trigger] parse_params(pieces, keys)->Ok_0[i]
            == last_value(pieces, keys, i) by {}
    }
}

} // verus!
