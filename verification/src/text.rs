//! Character sequences: conversion from and to strings, splitting at a
//! separator, and decimal integers.
use vstd::prelude::*;

verus! {

broadcast use vstd::string::group_string_axioms;

/// The characters of a string slice, in order.
pub fn chars_of(s: &str) -> (r: Vec<char>)
    ensures
        r@ == s@,
{
    let mut out: Vec<char> = Vec::new();
    for c in iter: s.chars()
        invariant
            out@ == iter.seq().take(iter.index() as int),
    {
        out.push(c);
    }
    out
}


/// A string holding the given characters; std's `FromIterator<char>` for
/// `String`, which collects the characters in order.
#[verifier::external_body]
pub(crate) fn string_from_chars(v: &[char]) -> (r: String)
    ensures
        r@ == v@,
{
    v.iter().collect()
}

/// The error that std's UTF-8 check gives for bytes that are not UTF-8.
#[verifier::external_type_specification]
#[verifier::external_body]
pub struct ExUtf8Error(std::str::Utf8Error);

/// `std::str::from_utf8`: the bytes as a string slice where they are valid
/// UTF-8 (the slice then holds exactly those bytes), an error otherwise.
#[verifier::external_body]
pub(crate) fn str_from_utf8(v: &[u8]) -> (r: Result<&str, std::str::Utf8Error>)
    ensures
        r is Ok <==> vstd::utf8::valid_utf8(v@),
        r matches Ok(s) ==> vstd::utf8::encode_utf8(s@) == v@,
{
    std::str::from_utf8(v)
}

/// Whether two character sequences are equal.
pub fn chars_eq(a: &[char], b: &[char]) -> (r: bool)
    ensures
        r == (a@ == b@),
{
    if a.len() != b.len() {
        return false;
    }
    let mut i: usize = 0;
    while i < a.len()
        invariant
            a.len() == b.len(),
            i <= a.len(),
            forall|j: int| 0 <= j < i ==> a@[j] == b@[j],
        decreases a.len() - i,
    {
        if a[i] != b[i] {
            return false;
        }
        i = i + 1;
    }
    assert(a@ =~= b@);
    true
}

/// Whether the characters of `a` spell `w`.
pub fn word_is(a: &[char], w: &str) -> (r: bool)
    ensures
        r == (a@ == w@),
{
    let wv = chars_of(w);
    chars_eq(a, wv.as_slice())
}

/// Appends the characters of `w` to `out`.
pub fn push_str(out: &mut Vec<char>, w: &str)
    ensures
        final(out)@ == old(out)@ + w@,
{
    let wv = chars_of(w);
    push_all(out, wv.as_slice());
}

/// Appends one piece to a list of character sequences.
pub fn push_piece(out: &mut Vec<Vec<char>>, v: Vec<char>)
    ensures
        final(out).deep_view() == old(out).deep_view().push(v@),
{
    let ghost before = out.deep_view();
    assert(v.deep_view() =~= v@);
    out.push(v);
    assert(out.deep_view() =~= before.push(v@));
}

/// A copy of the `i`-th piece of a list of character sequences.
pub fn piece_at(parts: &Vec<Vec<char>>, i: usize) -> (r: Vec<char>)
    requires
        i < parts.deep_view().len(),
    ensures
        r@ == parts.deep_view()[i as int],
{
    assert(parts.deep_view()[i as int] == parts@[i as int]@);
    let mut out: Vec<char> = Vec::new();
    push_all(&mut out, parts[i].as_slice());
    assert(out@ =~= parts@[i as int]@);
    out
}

/// Whether `c` occurs in `a`.
pub fn contains_char(a: &[char], c: char) -> (r: bool)
    ensures
        r == a@.contains(c),
{
    let mut i: usize = 0;
    while i < a.len()
        invariant
            i <= a.len(),
            forall|j: int| 0 <= j < i ==> a@[j] != c,
        decreases a.len() - i,
    {
        if a[i] == c {
            return true;
        }
        i = i + 1;
    }
    false
}

/// Appends the characters of `b` to `out`.
pub fn push_all(out: &mut Vec<char>, b: &[char])
    ensures
        final(out)@ == old(out)@ + b@,
{
    let mut i: usize = 0;
    while i < b.len()
        invariant
            i <= b.len(),
            out@ == old(out)@ + b@.take(i as int),
        decreases b.len() - i,
    {
        out.push(b[i]);
        i = i + 1;
        assert(b@.take(i as int) =~= b@.take(i - 1) + seq![b@[i - 1]]);
    }
    assert(b@.take(b.len() as int) =~= b@);
}

/// Whether `s` begins with `w`.
pub open spec fn starts_with(s: Seq<char>, w: Seq<char>) -> bool {
    w.len() <= s.len() && s.take(w.len() as int) == w
}

/// Whether the characters of `s` from `i` on begin with `w`.
pub fn starts_with_at(s: &[char], i: usize, w: &str) -> (r: bool)
    requires
        i <= s.len(),
    ensures
        r == starts_with(s@.skip(i as int), w@),
{
    let wv = chars_of(w);
    if s.len() - i < wv.len() {
        return false;
    }
    let mut k: usize = 0;
    while k < wv.len()
        invariant
            i + wv.len() <= s.len(),
            wv@ == w@,
            k <= wv.len(),
            forall|j: int| 0 <= j < k ==> s@[i + j] == wv@[j],
        decreases wv.len() - k,
    {
        if s[i + k] != wv[k] {
            assert(s@.skip(i as int).take(wv.len() as int)[k as int] != wv@[k as int]);
            return false;
        }
        k = k + 1;
    }
    assert(s@.skip(i as int).take(wv.len() as int) =~= wv@);
    true
}

/// The characters `i..j`.
pub fn chars_between(s: &[char], i: usize, j: usize) -> (r: Vec<char>)
    requires
        i <= j <= s.len(),
    ensures
        r@ == s@.subrange(i as int, j as int),
{
    vstd::slice::slice_to_vec(vstd::slice::slice_subrange(s, i, j))
}

/// Whether `c` has Unicode's White_Space property, as `char::is_whitespace`
/// says.
pub open spec fn is_whitespace(c: char) -> bool {
    ||| ('\u{9}' <= c && c <= '\u{d}')
    ||| c == ' '
    ||| c == '\u{85}'
    ||| c == '\u{a0}'
    ||| c == '\u{1680}'
    ||| ('\u{2000}' <= c && c <= '\u{200a}')
    ||| c == '\u{2028}'
    ||| c == '\u{2029}'
    ||| c == '\u{202f}'
    ||| c == '\u{205f}'
    ||| c == '\u{3000}'
}

/// `s` without its leading white space.
pub open spec fn trim_start(s: Seq<char>) -> Seq<char>
    decreases s.len(),
{
    if s.len() > 0 && is_whitespace(s[0]) {
        trim_start(s.drop_first())
    } else {
        s
    }
}

/// `s` without its trailing white space.
pub open spec fn trim_end(s: Seq<char>) -> Seq<char>
    decreases s.len(),
{
    if s.len() > 0 && is_whitespace(s.last()) {
        trim_end(s.drop_last())
    } else {
        s
    }
}

/// `s` without leading and trailing white space, as `str::trim` gives it.
pub open spec fn trimmed(s: Seq<char>) -> Seq<char> {
    trim_end(trim_start(s))
}

/// Whether `c` is white space.
pub fn is_whitespace_exec(c: char) -> (r: bool)
    ensures
        r == is_whitespace(c),
{
    ('\u{9}' <= c && c <= '\u{d}') || c == ' ' || c == '\u{85}' || c == '\u{a0}' || c == '\u{1680}'
        || ('\u{2000}' <= c && c <= '\u{200a}') || c == '\u{2028}' || c == '\u{2029}' || c == '\u{202f}'
        || c == '\u{205f}' || c == '\u{3000}'
}

/// `s` without leading and trailing white space.
pub fn trim_chars(s: &[char]) -> (r: Vec<char>)
    ensures
        r@ == trimmed(s@),
{
    let mut i: usize = 0;
    assert(s@.skip(0) =~= s@);
    while i < s.len() && is_whitespace_exec(s[i])
        invariant
            i <= s.len(),
            trim_start(s@.skip(i as int)) == trim_start(s@),
        decreases s.len() - i,
    {
        assert(s@.skip(i as int).drop_first() =~= s@.skip(i + 1));
        i = i + 1;
    }
    let mut j: usize = s.len();
    assert(s@.subrange(i as int, j as int) =~= s@.skip(i as int));
    while j > i && is_whitespace_exec(s[j - 1])
        invariant
            i <= j <= s.len(),
            trim_end(s@.subrange(i as int, j as int)) == trim_end(trim_start(s@)),
        decreases j - i,
    {
        assert(s@.subrange(i as int, j as int).drop_last() =~= s@.subrange(i as int, j - 1));
        j = j - 1;
    }
    chars_between(s, i, j)
}

/// The pieces of `s` between occurrences of `sep`, as `str::split` yields
/// them: one more piece than there are separators, pieces possibly empty.
pub open spec fn split_on(s: Seq<char>, sep: char) -> Seq<Seq<char>>
    decreases s.len(),
{
    if s.len() == 0 {
        seq![Seq::<char>::empty()]
    } else {
        let p = split_on(s.drop_last(), sep);
        if s.last() == sep {
            p.push(Seq::<char>::empty())
        } else {
            p.update(p.len() - 1, p.last().push(s.last()))
        }
    }
}

/// `parts` written one after the other with `sep` between neighbours.
pub open spec fn join_with(parts: Seq<Seq<char>>, sep: char) -> Seq<char>
    decreases parts.len(),
{
    if parts.len() == 0 {
        Seq::<char>::empty()
    } else if parts.len() == 1 {
        parts[0]
    } else {
        join_with(parts.drop_last(), sep) + seq![sep] + parts.last()
    }
}

/// Splitting always yields at least one piece.
pub proof fn lemma_split_nonempty(s: Seq<char>, sep: char)
    ensures
        split_on(s, sep).len() >= 1,
    decreases s.len(),
{
    if s.len() > 0 {
        lemma_split_nonempty(s.drop_last(), sep);
    }
}

/// Appending text without a separator extends the last piece.
pub proof fn lemma_split_append_plain(x: Seq<char>, y: Seq<char>, sep: char)
    requires
        !y.contains(sep),
    ensures
        split_on(x + y, sep) == split_on(x, sep).update(
            split_on(x, sep).len() - 1,
            split_on(x, sep).last() + y,
        ),
    decreases y.len(),
{
    lemma_split_nonempty(x, sep);
    if y.len() == 0 {
        assert(x + y =~= x);
        assert(split_on(x, sep).last() + y =~= split_on(x, sep).last());
        assert(split_on(x, sep).update(split_on(x, sep).len() - 1, split_on(x, sep).last())
            =~= split_on(x, sep));
    } else {
        let y0 = y.drop_last();
        assert(!y0.contains(sep)) by {
            if y0.contains(sep) {
                let k = choose|k: int| 0 <= k < y0.len() && y0[k] == sep;
                assert(y[k] == sep);
            }
        }
        lemma_split_append_plain(x, y0, sep);
        assert((x + y).drop_last() =~= x + y0);
        assert((x + y).last() == y.last());
        assert(y.last() != sep) by {
            assert(y[y.len() - 1] == y.last());
        }
        lemma_split_nonempty(x + y0, sep);
        assert(split_on(x, sep).last() + y0 + seq![y.last()] =~= split_on(x, sep).last() + y);
        assert((split_on(x, sep).last() + y0).push(y.last()) =~= split_on(x, sep).last() + y);
        assert(split_on(x + y, sep) =~= split_on(x, sep).update(
            split_on(x, sep).len() - 1,
            split_on(x, sep).last() + y,
        ));
    }
}

/// Appending a separator starts a new, empty piece.
pub proof fn lemma_split_push_sep(x: Seq<char>, sep: char)
    ensures
        split_on(x.push(sep), sep) == split_on(x, sep).push(Seq::<char>::empty()),
{
    assert(x.push(sep).drop_last() =~= x);
}

/// Splitting a joined sequence gives back the pieces, where no piece
/// contains the separator.
pub proof fn lemma_split_join(parts: Seq<Seq<char>>, sep: char)
    requires
        parts.len() >= 1,
        forall|i: int| 0 <= i < parts.len() ==> !(#[trigger] parts[i]).contains(sep),
    ensures
        split_on(join_with(parts, sep), sep) == parts,
    decreases parts.len(),
{
    if parts.len() == 1 {
        let e = Seq::<char>::empty();
        lemma_split_append_plain(e, parts[0], sep);
        assert(e + parts[0] =~= parts[0]);
        assert(split_on(e, sep) =~= seq![e]);
        assert(e + parts[0] =~= parts[0]);
        assert(split_on(parts[0], sep) =~= parts);
    } else {
        let init = parts.drop_last();
        assert forall|i: int| 0 <= i < init.len() implies !(#[trigger] init[i]).contains(sep) by {
            assert(init[i] == parts[i]);
        }
        lemma_split_join(init, sep);
        let x = join_with(init, sep).push(sep);
        lemma_split_push_sep(join_with(init, sep), sep);
        assert(!parts.last().contains(sep)) by {
            assert(parts[parts.len() - 1] == parts.last());
        }
        lemma_split_append_plain(x, parts.last(), sep);
        assert(join_with(init, sep) + seq![sep] + parts.last() =~= x + parts.last());
        assert(Seq::<char>::empty() + parts.last() =~= parts.last());
        assert(init.push(Seq::<char>::empty()).update(init.len() as int, parts.last()) =~= parts);
    }
}

/// Writes `parts` one after the other with `sep` between neighbours.
pub fn join_chars(parts: &Vec<Vec<char>>, sep: char) -> (r: Vec<char>)
    ensures
        r@ == join_with(parts.deep_view(), sep),
{
    let mut out: Vec<char> = Vec::new();
    let mut i: usize = 0;
    while i < parts.len()
        invariant
            i <= parts.len(),
            out@ == join_with(parts.deep_view().take(i as int), sep),
        decreases parts.len() - i,
    {
        let ghost prev = parts.deep_view().take(i as int);
        assert(parts.deep_view().take(i + 1).drop_last() =~= prev);
        assert(parts.deep_view()[i as int] == parts[i as int]@);
        if i > 0 {
            out.push(sep);
        }
        push_all(&mut out, parts[i].as_slice());
        i = i + 1;
        if i == 1 {
            assert(out@ =~= join_with(parts.deep_view().take(i as int), sep));
        } else {
            assert(out@ =~= join_with(parts.deep_view().take(i as int), sep));
        }
    }
    assert(parts.deep_view().take(parts.len() as int) =~= parts.deep_view());
    out
}

/// A character that is neither the separator nor in any piece is not in
/// the joined sequence either.
pub proof fn lemma_join_excludes(parts: Seq<Seq<char>>, sep: char, c: char)
    requires
        c != sep,
        forall|i: int| 0 <= i < parts.len() ==> !(#[trigger] parts[i]).contains(c),
    ensures
        !join_with(parts, sep).contains(c),
    decreases parts.len(),
{
    if parts.len() > 1 {
        let init = parts.drop_last();
        assert forall|i: int| 0 <= i < init.len() implies !(#[trigger] init[i]).contains(c) by {
            assert(init[i] == parts[i]);
        }
        lemma_join_excludes(init, sep, c);
        let j = join_with(parts, sep);
        let a = join_with(init, sep);
        let l = parts.last();
        assert(!l.contains(c)) by {
            assert(parts[parts.len() - 1] == l);
        }
        if j.contains(c) {
            let k = choose|k: int| 0 <= k < j.len() && j[k] == c;
            assert(j == a + seq![sep] + l);
            if k < a.len() {
                assert(a[k] == c);
            } else if k == a.len() {
                assert(j[k] == sep);
            } else {
                assert(l[k - a.len() - 1] == c);
            }
        }
    } else if parts.len() == 1 {
        assert(parts[0] == join_with(parts, sep));
    }
}

/// Splits `s` at every occurrence of `sep`.
pub fn split_chars(s: &[char], sep: char) -> (r: Vec<Vec<char>>)
    ensures
        r.deep_view() == split_on(s@, sep),
{
    let mut done: Vec<Vec<char>> = Vec::new();
    let mut cur: Vec<char> = Vec::new();
    let mut i: usize = 0;
    while i < s.len()
        invariant
            i <= s.len(),
            done.deep_view().push(cur@) == split_on(s@.take(i as int), sep),
        decreases s.len() - i,
    {
        let c = s[i];
        let ghost prev = s@.take(i as int);
        assert(s@.take(i + 1).drop_last() =~= prev);
        proof { lemma_split_nonempty(prev, sep); }
        let ghost old_done = done.deep_view();
        let ghost old_cur = cur@;
        if c == sep {
            let piece = cur;
            assert(piece.deep_view() =~= piece@);
            done.push(piece);
            cur = Vec::new();
            assert(done.deep_view() =~= old_done.push(old_cur));
            assert(done.deep_view().push(cur@) =~= split_on(s@.take(i + 1), sep));
        } else {
            cur.push(c);
            assert(done.deep_view().push(cur@) =~= old_done.push(old_cur.push(c)));
            assert(done.deep_view().push(cur@) =~= split_on(s@.take(i + 1), sep));
        }
        i = i + 1;
    }
    assert(s@.take(s.len() as int) =~= s@);
    let ghost old_done = done.deep_view();
    let ghost old_cur = cur@;
    assert(cur.deep_view() =~= cur@);
    done.push(cur);
    assert(done.deep_view() =~= old_done.push(old_cur));
    done
}


/// Why a string is not an unsigned integer, as `std::num::IntErrorKind`
/// tells it for unsigned types.
#[derive(Clone, Copy, Debug, PartialEq, Eq)]
pub enum IntErrorKind {
    /// The string is empty.
    Empty,
    /// A character is not a digit of the radix.
    InvalidDigit,
    /// The value is too large for the target type.
    PosOverflow,
}

/// The value of `c` as a digit of `radix` (at most ten).
pub open spec fn digit_of(c: char, radix: nat) -> Option<nat> {
    if '0' <= c && c <= '9' && (c as int) - ('0' as int) < radix {
        Some(((c as int) - ('0' as int)) as nat)
    } else {
        None
    }
}

/// Reads the digits of `s` from left to right; the first character that is
/// no digit, or the first digit that takes the value above `max`, decides
/// the error.
pub open spec fn parse_digits(s: Seq<char>, radix: nat, max: nat) -> Result<nat, IntErrorKind>
    decreases s.len(),
{
    if s.len() == 0 {
        Ok(0)
    } else {
        match parse_digits(s.drop_last(), radix, max) {
            Err(e) => Err(e),
            Ok(v) => match digit_of(s.last(), radix) {
                None => Err(IntErrorKind::InvalidDigit),
                Some(d) => if v * radix + d > max {
                    Err(IntErrorKind::PosOverflow)
                } else {
                    Ok(v * radix + d)
                },
            },
        }
    }
}

/// What `from_str_radix` of an unsigned type with largest value `max`
/// gives for `s`: an optional leading `+`, then at least one digit.
pub open spec fn parse_unsigned_spec(s: Seq<char>, radix: nat, max: nat) -> Result<nat, IntErrorKind> {
    if s.len() == 0 {
        Err(IntErrorKind::Empty)
    } else if s.len() == 1 && (s[0] == '+' || s[0] == '-') {
        Err(IntErrorKind::InvalidDigit)
    } else if s[0] == '+' {
        parse_digits(s.drop_first(), radix, max)
    } else {
        parse_digits(s, radix, max)
    }
}

/// A successfully read value never exceeds `max`.
pub proof fn lemma_parse_digits_bound(s: Seq<char>, radix: nat, max: nat)
    ensures
        parse_digits(s, radix, max) matches Ok(v) ==> v <= max,
    decreases s.len(),
{
    if s.len() > 0 {
        lemma_parse_digits_bound(s.drop_last(), radix, max);
    }
}

fn digits_of(s: &[char], start: usize, radix: u32, max: u64) -> (r: Result<u64, IntErrorKind>)
    requires
        start <= s.len(),
        2 <= radix <= 10,
    ensures
        r matches Ok(v) ==> parse_digits(s@.skip(start as int), radix as nat, max as nat) == Ok::<nat, IntErrorKind>(v as nat),
        r matches Err(e) ==> parse_digits(s@.skip(start as int), radix as nat, max as nat) == Err::<nat, IntErrorKind>(e),
{
    let mut acc: u128 = 0;
    let mut i: usize = start;
    while i < s.len()
        invariant
            start <= i <= s.len(),
            2 <= radix <= 10,
            acc <= max,
            parse_digits(s@.subrange(start as int, i as int), radix as nat, max as nat) == Ok::<nat, IntErrorKind>(acc as nat),
        decreases s.len() - i,
    {
        let c = s[i];
        assert(s@.subrange(start as int, i + 1).drop_last() =~= s@.subrange(start as int, i as int));
        assert(s@.subrange(start as int, i + 1).last() == c);
        if !('0' <= c && c <= '9') {
            assert(s@.skip(start as int).take(i + 1 - start) =~= s@.subrange(start as int, i + 1));
            proof { lemma_parse_digits_prefix_err(s@.skip(start as int), (i - start) as nat, radix as nat, max as nat); }
            return Err(IntErrorKind::InvalidDigit);
        }
        let d: u32 = (c as u32) - ('0' as u32);
        if d >= radix {
            assert(s@.skip(start as int).take(i + 1 - start) =~= s@.subrange(start as int, i + 1));
            proof { lemma_parse_digits_prefix_err(s@.skip(start as int), (i - start) as nat, radix as nat, max as nat); }
            return Err(IntErrorKind::InvalidDigit);
        }
        assert(acc * (radix as u128) + (d as u128) <= 0xffff_ffff_ffff_ffffu128 * 10 + 10) by (nonlinear_arith)
            requires
                acc <= max,
                max <= 0xffff_ffff_ffff_ffffu64,
                radix <= 10,
                d < 10,
        ;
        let next: u128 = acc * (radix as u128) + (d as u128);
        if next > max as u128 {
            assert(s@.skip(start as int).take(i + 1 - start) =~= s@.subrange(start as int, i + 1));
            proof { lemma_parse_digits_prefix_err(s@.skip(start as int), (i - start) as nat, radix as nat, max as nat); }
            return Err(IntErrorKind::PosOverflow);
        }
        acc = next;
        i = i + 1;
    }
    assert(s@.subrange(start as int, s.len() as int) =~= s@.skip(start as int));
    Ok(acc as u64)
}

/// Once a prefix of the digits fails, the whole fails the same way.
pub proof fn lemma_parse_digits_prefix_err(s: Seq<char>, k: nat, radix: nat, max: nat)
    requires
        k < s.len(),
        parse_digits(s.take(k as int + 1), radix, max) is Err,
    ensures
        parse_digits(s, radix, max) == parse_digits(s.take(k as int + 1), radix, max),
    decreases s.len(),
{
    if s.len() == k + 1 {
        assert(s.take(k as int + 1) =~= s);
    } else {
        assert(s.drop_last().take(k as int + 1) =~= s.take(k as int + 1));
        lemma_parse_digits_prefix_err(s.drop_last(), k, radix, max);
    }
}

/// Reads an unsigned integer of at most `max` in `radix` (at most ten), as
/// the standard library's `from_str_radix` for unsigned types does.
pub fn parse_unsigned(s: &[char], radix: u32, max: u64) -> (r: Result<u64, IntErrorKind>)
    requires
        2 <= radix <= 10,
    ensures
        r matches Ok(v) ==> parse_unsigned_spec(s@, radix as nat, max as nat) == Ok::<nat, IntErrorKind>(v as nat),
        r matches Err(e) ==> parse_unsigned_spec(s@, radix as nat, max as nat) == Err::<nat, IntErrorKind>(e),
{
    if s.len() == 0 {
        return Err(IntErrorKind::Empty);
    }
    if s.len() == 1 && (s[0] == '+' || s[0] == '-') {
        return Err(IntErrorKind::InvalidDigit);
    }
    if s[0] == '+' {
        assert(s@.skip(1) =~= s@.drop_first());
        digits_of(s, 1, radix, max)
    } else {
        assert(s@.skip(0) =~= s@);
        digits_of(s, 0, radix, max)
    }
}

/// The message that std's `ParseIntError` displays for each kind.
pub open spec fn int_error_message(kind: IntErrorKind) -> Seq<char> {
    match kind {
        IntErrorKind::Empty => "cannot parse integer from empty string"@,
        IntErrorKind::InvalidDigit => "invalid digit found in string"@,
        IntErrorKind::PosOverflow => "number too large to fit in target type"@,
    }
}

/// The message of an integer parse error, as a string.
pub fn int_error_to_string(kind: IntErrorKind) -> (r: String)
    ensures
        r@ == int_error_message(kind),
{
    match kind {
        IntErrorKind::Empty => String::from_str("cannot parse integer from empty string"),
        IntErrorKind::InvalidDigit => String::from_str("invalid digit found in string"),
        IntErrorKind::PosOverflow => String::from_str("number too large to fit in target type"),
    }
}

/// The character of a decimal digit.
pub open spec fn digit_char(d: nat) -> char {
    (('0' as int) + d) as char
}

/// The decimal notation of `n`, without sign or leading zeros.
pub open spec fn decimal(n: nat) -> Seq<char>
    decreases n,
{
    if n < 10 {
        seq![digit_char(n)]
    } else {
        decimal(n / 10).push(digit_char(n % 10))
    }
}

/// Decimal notation is a non-empty run of digits, and reads back as the
/// number it writes.
pub proof fn lemma_decimal_roundtrip(n: nat, max: nat)
    requires
        n <= max,
    ensures
        decimal(n).len() >= 1,
        forall|i: int| 0 <= i < decimal(n).len() ==> '0' <= #[trigger] decimal(n)[i] <= '9',
        parse_digits(decimal(n), 10, max) == Ok::<nat, IntErrorKind>(n),
    decreases n,
{
    if n < 10 {
        assert(decimal(n).drop_last() =~= Seq::<char>::empty());
        assert(decimal(n).last() == digit_char(n));
        assert(digit_of(digit_char(n), 10) == Some(n));
        assert(parse_digits(Seq::<char>::empty(), 10, max) == Ok::<nat, IntErrorKind>(0));
    } else {
        lemma_decimal_roundtrip(n / 10, max);
        assert(decimal(n).drop_last() =~= decimal(n / 10));
        assert(decimal(n).last() == digit_char(n % 10));
        assert(digit_of(digit_char(n % 10), 10) == Some((n % 10) as nat));
        assert((n / 10) * 10 + n % 10 == n);
        assert(forall|i: int| 0 <= i < decimal(n).len() - 1 ==> decimal(n)[i] == decimal(n / 10)[i]);
    }
}

/// Writes `n` in decimal.
pub fn u64_to_chars(n: u64) -> (r: Vec<char>)
    ensures
        r@ == decimal(n as nat),
    decreases n,
{
    if n < 10 {
        let c = char_of_digit(n as u32);
        let mut v: Vec<char> = Vec::new();
        v.push(c);
        assert(v@ =~= decimal(n as nat));
        v
    } else {
        let mut v = u64_to_chars(n / 10);
        v.push(char_of_digit((n % 10) as u32));
        v
    }
}

fn char_of_digit(d: u32) -> (c: char)
    requires
        d < 10,
    ensures
        c == digit_char(d as nat),
{
    if d == 0 { '0' } else if d == 1 { '1' } else if d == 2 { '2' } else if d == 3 { '3' }
    else if d == 4 { '4' } else if d == 5 { '5' } else if d == 6 { '6' } else if d == 7 { '7' }
    else if d == 8 { '8' } else { '9' }
}

/// Whether position `i` holds the first `c` of `s`.
pub open spec fn is_first_index(s: Seq<char>, c: char, i: int) -> bool {
    0 <= i < s.len() && s[i] == c && forall|j: int| 0 <= j < i ==> s[j] != c
}

/// `str::split_once`: the text before and after the first `c`, where `s`
/// holds one.
pub open spec fn split_once(s: Seq<char>, c: char) -> Option<(Seq<char>, Seq<char>)> {
    if s.contains(c) {
        let i = choose|i: int| is_first_index(s, c, i);
        Some((s.take(i), s.skip(i + 1)))
    } else {
        None
    }
}

/// The first occurrence of a character is unique.
pub proof fn lemma_first_index_unique(s: Seq<char>, c: char, i: int, k: int)
    requires
        is_first_index(s, c, i),
        is_first_index(s, c, k),
    ensures
        i == k,
{
    if i < k {
        assert(s[i] != c);
    } else if k < i {
        assert(s[k] != c);
    }
}


/// A character that occurs has a first occurrence.
pub proof fn lemma_first_index_exists(s: Seq<char>, c: char)
    requires
        s.contains(c),
    ensures
        exists|i: int| is_first_index(s, c, i),
    decreases s.len(),
{
    let d = s.drop_last();
    if d.contains(c) {
        lemma_first_index_exists(d, c);
        let i = choose|i: int| is_first_index(d, c, i);
        assert forall|j: int| 0 <= j < i implies s[j] != c by {
            assert(d[j] == s[j]);
        }
        assert(d[i] == s[i]);
        assert(is_first_index(s, c, i));
    } else {
        let j = choose|j: int| 0 <= j < s.len() && s[j] == c;
        if j < s.len() - 1 {
            assert(d[j] == c);
        }
        assert forall|k: int| 0 <= k < s.len() - 1 implies s[k] != c by {
            assert(d[k] == s[k]);
        }
        assert(is_first_index(s, c, s.len() - 1));
    }
}

/// Splits `s` at its first `c`.
pub fn split_once_chars(s: &[char], c: char) -> (r: Option<(Vec<char>, Vec<char>)>)
    ensures
        r matches Some((a, b)) ==> split_once(s@, c) == Some((a@, b@)),
        r is None ==> split_once(s@, c) is None,
{
    let mut i: usize = 0;
    while i < s.len()
        invariant
            i <= s.len(),
            forall|j: int| 0 <= j < i ==> s@[j] != c,
        decreases s.len() - i,
    {
        if s[i] == c {
            assert(is_first_index(s@, c, i as int));
            assert(s@.contains(c));
            proof {
                let k = choose|k: int| is_first_index(s@, c, k);
                lemma_first_index_unique(s@, c, i as int, k);
            }
            let a = vstd::slice::slice_to_vec(vstd::slice::slice_subrange(s, 0, i));
            let b = vstd::slice::slice_to_vec(vstd::slice::slice_subrange(s, i + 1, s.len()));
            assert(a@ =~= s@.take(i as int));
            assert(b@ =~= s@.skip(i + 1));
            return Some((a, b));
        }
        i = i + 1;
    }
    assert(!s@.contains(c));
    None
}

/// The code of `c`, lowered if it is an ASCII capital letter.
pub open spec fn ascii_lower(c: char) -> u32 {
    if 'A' <= c && c <= 'Z' {
        ((c as u32) + 32) as u32
    } else {
        c as u32
    }
}

/// `str::eq_ignore_ascii_case`: equal once ASCII capitals are lowered.
pub open spec fn eq_ignore_ascii_case(a: Seq<char>, b: Seq<char>) -> bool {
    a.len() == b.len() && forall|i: int| 0 <= i < a.len() ==> ascii_lower(a[i]) == ascii_lower(b[i])
}

/// The code of `c`, lowered if it is an ASCII capital letter.
pub fn to_ascii_lower(c: char) -> (r: u32)
    ensures
        r == ascii_lower(c),
{
    if 'A' <= c && c <= 'Z' {
        (c as u32) + 32
    } else {
        c as u32
    }
}

/// Whether the two texts are equal once ASCII capitals are lowered.
pub fn chars_eq_ignore_ascii_case(a: &[char], b: &str) -> (r: bool)
    ensures
        r == eq_ignore_ascii_case(a@, b@),
{
    let bv = chars_of(b);
    if a.len() != bv.len() {
        return false;
    }
    let mut i: usize = 0;
    while i < a.len()
        invariant
            a.len() == bv.len(),
            bv@ == b@,
            i <= a.len(),
            forall|j: int| 0 <= j < i ==> ascii_lower(a@[j]) == ascii_lower(bv@[j]),
        decreases a.len() - i,
    {
        if to_ascii_lower(a[i]) != to_ascii_lower(bv[i]) {
            return false;
        }
        i = i + 1;
    }
    true
}

} // verus!
