//! bsdtar's own argument forms for the `compat bsdtar` subcommand (and the
//! older `experimental stdio`): the old-style option bundle written without a
//! dash (`cvf archive.pna dir/`), `-W long-option`, and the directory changes
//! `-C dir`, which are carried on as marked positional words.
//!
//! Arguments are modelled by their characters: a list of arguments is a
//! `Seq<Seq<char>>`, the `deep_view` of a `Vec<String>`.
use vstd::prelude::*;
use crate::text::{chars_between, chars_of, starts_with, starts_with_at, string_from_chars, word_is};

verus! {

broadcast use vstd::string::group_string_axioms;

/// Global long options that take the next word as their value.
pub open spec fn takes_global_value(a: Seq<char>) -> bool {
    a == "--color"@ || a == "--log-level"@
}

/// Global long options that are switches, without a value.
pub open spec fn is_global_switch(a: Seq<char>) -> bool {
    a == "--quiet"@ || a == "--unstable"@ || a == "--verbose"@
}

/// Whether `a` is `opt=value`, the option with its value in the same word.
pub open spec fn assigns(a: Seq<char>, opt: Seq<char>) -> bool {
    opt.len() < a.len() && a.take(opt.len() as int) == opt && a[opt.len() as int] == '='
}

/// Whether `a` is a global option with its value in the same word
/// (`--color=always`).
pub open spec fn is_global_assignment(a: Seq<char>) -> bool {
    &&& starts_with(a, "--"@)
    &&& a != "--"@
    &&& (assigns(a, "--color"@) || assigns(a, "--log-level"@))
}

/// Whether `a` is an option word before the subcommand: it begins with a
/// dash and is not the `--` separator.
pub open spec fn is_leading_flag(a: Seq<char>) -> bool {
    a.len() > 0 && a[0] == '-' && a != "--"@
}

/// The position of the first argument from `i` on that is not an option;
/// the value of a global option that takes one is skipped with it.
pub open spec fn leading_flags_end(args: Seq<Seq<char>>, i: nat) -> nat
    decreases args.len() - i,
{
    if i < args.len() && is_leading_flag(args[i as int]) {
        if takes_global_value(args[i as int]) && i + 1 < args.len() {
            leading_flags_end(args, i + 2)
        } else {
            leading_flags_end(args, i + 1)
        }
    } else {
        i
    }
}

/// The position after `keyword`, where it is the first argument from `i` on
/// that is not an option.
pub open spec fn keyword_after(args: Seq<Seq<char>>, i: nat, keyword: Seq<char>) -> Option<nat> {
    let j = leading_flags_end(args, i);
    if j < args.len() && args[j as int] == keyword {
        Some(j + 1)
    } else {
        None
    }
}

/// The position after the `compat bsdtar` subcommand or, failing that, after
/// `experimental stdio`; `None` where the arguments name neither.
pub open spec fn subcommand_end(args: Seq<Seq<char>>) -> Option<nat> {
    let bsdtar = match keyword_after(args, 1, "compat"@) {
        Some(i) => keyword_after(args, i, "bsdtar"@),
        None => None,
    };
    if bsdtar is Some {
        bsdtar
    } else {
        match keyword_after(args, 1, "experimental"@) {
            Some(i) => keyword_after(args, i, "stdio"@),
            None => None,
        }
    }
}

/// The position of the first argument from `i` on that is not a known
/// global option (with its value).
pub open spec fn global_flags_end(args: Seq<Seq<char>>, i: nat) -> nat
    decreases args.len() - i,
{
    if i < args.len() {
        let a = args[i as int];
        if takes_global_value(a) {
            if i + 1 < args.len() {
                global_flags_end(args, i + 2)
            } else {
                i + 1
            }
        } else if is_global_switch(a) || is_global_assignment(a) {
            global_flags_end(args, i + 1)
        } else {
            i
        }
    } else {
        i
    }
}

/// Short options that take the next word as their value in a bundle.
pub open spec fn takes_value(c: char) -> bool {
    c == 'b' || c == 'C' || c == 'f' || c == 'I' || c == 's' || c == 'T' || c == 'W' || c == 'X'
}

/// The options that name what bsdtar is to do.
pub open spec fn is_action(c: char) -> bool {
    c == 'c' || c == 'x' || c == 't' || c == 'r' || c == 'u'
}

/// An ASCII letter.
pub open spec fn is_ascii_letter(c: char) -> bool {
    ('a' <= c && c <= 'z') || ('A' <= c && c <= 'Z')
}

/// Whether a word is an old-style bundle: ASCII letters only, one of them
/// an action.
pub open spec fn is_old_style_bundle(w: Seq<char>) -> bool {
    &&& forall|k: int| 0 <= k < w.len() ==> is_ascii_letter(#[trigger] w[k])
    &&& exists|k: int| 0 <= k < w.len() && is_action(#[trigger] w[k])
}

/// The short option `-c`.
pub open spec fn short_flag(c: char) -> Seq<char> {
    seq!['-', c]
}

/// A bundle spelled out as short options, each option that takes a value
/// followed by the next of the remaining words, while there is one.
pub open spec fn expand_bundle(bundle: Seq<char>, rest: Seq<Seq<char>>) -> Seq<Seq<char>>
    decreases bundle.len(),
{
    if bundle.len() == 0 {
        rest
    } else if takes_value(bundle[0]) && rest.len() > 0 {
        seq![short_flag(bundle[0]), rest[0]] + expand_bundle(bundle.drop_first(), rest.drop_first())
    } else {
        seq![short_flag(bundle[0])] + expand_bundle(bundle.drop_first(), rest)
    }
}

/// The arguments with an old-style bundle after the bsdtar subcommand (and
/// known global options) spelled out; unchanged where there is none.
pub open spec fn old_style_expanded(args: Seq<Seq<char>>) -> Seq<Seq<char>> {
    match subcommand_end(args) {
        None => args,
        Some(after) => {
            let i = global_flags_end(args, after);
            if i < args.len() && is_old_style_bundle(args[i as int]) {
                args.take(i as int) + expand_bundle(args[i as int], args.skip(i + 1 as int))
            } else {
                args
            }
        },
    }
}

/// The words after the subcommand with each `-W name` turned into `--name`,
/// up to a `--` separator (`past` once it has been seen).
pub open spec fn w_expanded_rest(rest: Seq<Seq<char>>, past: bool) -> Seq<Seq<char>>
    decreases rest.len(),
{
    if rest.len() == 0 {
        seq![]
    } else if !past && rest[0] == "--"@ {
        seq![rest[0]] + w_expanded_rest(rest.drop_first(), true)
    } else if !past && rest[0] == "-W"@ {
        if rest.len() > 1 {
            seq!["--"@ + rest[1]] + w_expanded_rest(rest.skip(2), false)
        } else {
            seq![rest[0]]
        }
    } else {
        seq![rest[0]] + w_expanded_rest(rest.drop_first(), past)
    }
}

/// The arguments with bsdtar's `-W name` turned into `--name` after the
/// subcommand; unchanged where there is no bsdtar subcommand.
pub open spec fn w_expanded(args: Seq<Seq<char>>) -> Seq<Seq<char>> {
    match subcommand_end(args) {
        None => args,
        Some(after) => args.take(after as int) + w_expanded_rest(args.skip(after as int), false),
    }
}

/// The characters that mark a directory-change word; file paths cannot hold
/// NUL, so no other argument begins with them.
pub open spec fn cd_sentinel() -> Seq<char> {
    seq!['\0', 'C', 'D', '\0']
}

/// The word that carries a change to directory `dir`.
pub open spec fn cd_word(dir: Seq<char>) -> Seq<char> {
    cd_sentinel() + dir
}

/// Whether `a` names a directory change whose directory is the next word.
pub open spec fn is_cd_option(a: Seq<char>) -> bool {
    a == "--cd"@ || a == "--directory"@ || a == "-C"@
}

/// Whether `a` is `-Cdir`, the short option with its directory attached.
pub open spec fn is_attached_cd(a: Seq<char>) -> bool {
    starts_with(a, "-C"@) && "-C"@.len() < a.len() && a["-C"@.len() as int] != '-'
}

/// The words after the subcommand with each directory change turned into a
/// marked word, up to a `--` separator (`past` once it has been seen).
pub open spec fn cd_encoded_rest(rest: Seq<Seq<char>>, past: bool) -> Seq<Seq<char>>
    decreases rest.len(),
{
    if rest.len() == 0 {
        seq![]
    } else {
        let a = rest[0];
        if past {
            seq![a] + cd_encoded_rest(rest.drop_first(), true)
        } else if a == "--"@ {
            seq![a] + cd_encoded_rest(rest.drop_first(), true)
        } else if starts_with(a, "--cd="@) {
            seq![cd_word(a.skip("--cd="@.len() as int))] + cd_encoded_rest(rest.drop_first(), false)
        } else if starts_with(a, "--directory="@) {
            seq![cd_word(a.skip("--directory="@.len() as int))] + cd_encoded_rest(
                rest.drop_first(),
                false,
            )
        } else if is_cd_option(a) {
            if rest.len() > 1 {
                seq![cd_word(rest[1])] + cd_encoded_rest(rest.skip(2), false)
            } else {
                seq![a]
            }
        } else if is_attached_cd(a) {
            seq![cd_word(a.skip("-C"@.len() as int))] + cd_encoded_rest(rest.drop_first(), false)
        } else {
            seq![a] + cd_encoded_rest(rest.drop_first(), false)
        }
    }
}

/// The arguments with each directory change after the bsdtar subcommand
/// turned into a marked word; unchanged where there is no bsdtar subcommand.
pub open spec fn cd_encoded(args: Seq<Seq<char>>) -> Seq<Seq<char>> {
    match subcommand_end(args) {
        None => args,
        Some(after) => args.take(after as int) + cd_encoded_rest(args.skip(after as int), false),
    }
}

/// Where the old-style bundle stands: the first argument after the bsdtar
/// subcommand and the known global options, where it is a bundle.
pub open spec fn bundle_at(args: Seq<Seq<char>>) -> Option<nat> {
    match subcommand_end(args) {
        None => None,
        Some(after) => {
            let i = global_flags_end(args, after);
            if i < args.len() && is_old_style_bundle(args[i as int]) { Some(i) } else { None }
        },
    }
}

/// Old-style expansion changes nothing without a bundle where bsdtar reads
/// one (no bsdtar subcommand, nothing after it and the global options, or
/// a word that is not ASCII letters with an action among them); with one,
/// it keeps the words before the bundle and spells out only the bundle.
pub proof fn old_style_expansion_only_at_bundle(args: Seq<Seq<char>>)
    ensures
        bundle_at(args) is None ==> old_style_expanded(args) == args,
        subcommand_end(args) is None ==> old_style_expanded(args) == args,
        subcommand_end(args) matches Some(after) && {
            let i = global_flags_end(args, after);
            ||| i >= args.len()
            ||| exists|k: int| 0 <= k < args[i as int].len() && !is_ascii_letter(#[trigger] args[i as int][k])
            ||| forall|k: int| 0 <= k < args[i as int].len() ==> !is_action(#[trigger] args[i as int][k])
        } ==> old_style_expanded(args) == args,
        bundle_at(args) matches Some(i) ==> old_style_expanded(args) == args.take(i as int) + expand_bundle(
            args[i as int],
            args.skip(i + 1 as int),
        ),
{
}

/// A directory change is one word or two, and becomes one word.
proof fn lemma_cd_encoded_rest_len(rest: Seq<Seq<char>>, past: bool)
    ensures
        cd_encoded_rest(rest, past).len() <= rest.len(),
    decreases rest.len(),
{
    if rest.len() > 0 {
        lemma_cd_encoded_rest_len(rest.drop_first(), true);
        lemma_cd_encoded_rest_len(rest.drop_first(), false);
        if rest.len() > 1 {
            lemma_cd_encoded_rest_len(rest.skip(2), false);
        }
    }
}

/// The first argument past the keywords found lies within the arguments.
proof fn lemma_subcommand_end_within(args: Seq<Seq<char>>)
    ensures
        subcommand_end(args) matches Some(after) ==> after <= args.len(),
{
}

/// Encoding directory changes never lengthens the arguments, keeps every
/// argument up to the end of the bsdtar subcommand, and changes nothing
/// without that subcommand.
pub proof fn cd_encoding_shortens_only(args: Seq<Seq<char>>)
    ensures
        cd_encoded(args).len() <= args.len(),
        subcommand_end(args) is None ==> cd_encoded(args) == args,
        subcommand_end(args) matches Some(after) ==> cd_encoded(args).take(after as int) == args.take(after as int),
{
    lemma_subcommand_end_within(args);
    if let Some(after) = subcommand_end(args) {
        lemma_cd_encoded_rest_len(args.skip(after as int), false);
        assert((args.take(after as int) + cd_encoded_rest(args.skip(after as int), false)).take(after as int)
            =~= args.take(after as int));
    }
}

/// Whether a word is one of the directory-change forms: `--cd=dir`,
/// `--directory=dir`, `--cd`, `--directory` or `-C` (with the directory
/// as the next word), or `-Cdir`.
pub open spec fn is_cd_form(w: Seq<char>) -> bool {
    starts_with(w, "--cd="@) || starts_with(w, "--directory="@) || is_cd_option(w) || is_attached_cd(w)
}

/// Directory changes are encoded as one marked word each, and nothing
/// else changes: without the bsdtar subcommand the arguments stay as they
/// are; with it, the words up to its end stay; after it, `--` and every word
/// behind it stay, a word that is no directory change stays, `-C dir` (or
/// `--cd dir`, `--directory dir`) becomes the one word `\0CD\0dir`, and
/// `-Cdir`, `--cd=dir`, `--directory=dir` become that word too; the
/// arguments never get longer.
pub proof fn cd_encoding_law(args: Seq<Seq<char>>, w: Seq<char>, d: Seq<char>, tail: Seq<Seq<char>>)
    ensures
        subcommand_end(args) is None ==> cd_encoded(args) == args,
        subcommand_end(args) matches Some(after) ==> cd_encoded(args) == args.take(after as int) + cd_encoded_rest(
            args.skip(after as int),
            false,
        ),
        cd_encoded(args).len() <= args.len(),
        cd_encoded_rest(seq!["--"@] + tail, false) == seq!["--"@] + tail,
        w != "--"@ && !is_cd_form(w) ==> cd_encoded_rest(seq![w] + tail, false) == seq![w] + cd_encoded_rest(
            tail,
            false,
        ),
        is_cd_option(w) && !starts_with(w, "--cd="@) && !starts_with(w, "--directory="@) ==> cd_encoded_rest(
            seq![w, d] + tail,
            false,
        ) == seq![cd_word(d)] + cd_encoded_rest(tail, false),
        is_attached_cd(w) && !is_cd_option(w) && !starts_with(w, "--cd="@) && !starts_with(w, "--directory="@)
            ==> cd_encoded_rest(seq![w] + tail, false) == seq![cd_word(w.skip(2))] + cd_encoded_rest(tail, false),
        starts_with(w, "--cd="@) ==> cd_encoded_rest(seq![w] + tail, false) == seq![cd_word(w.skip(5))]
            + cd_encoded_rest(tail, false),
        starts_with(w, "--directory="@) && !starts_with(w, "--cd="@) ==> cd_encoded_rest(seq![w] + tail, false)
            == seq![cd_word(w.skip(12))] + cd_encoded_rest(tail, false),
{
    cd_encoding_shortens_only(args);
    words_after_separator_kept(tail);
    reveal_strlit("--cd=");
    reveal_strlit("--directory=");
    reveal_strlit("-C");
    reveal_strlit("--");
    assert((seq!["--"@] + tail).drop_first() =~= tail);
    assert((seq![w] + tail).drop_first() =~= tail);
    assert((seq![w, d] + tail).skip(2) =~= tail);
    if subcommand_end(args) is Some {
        let after = subcommand_end(args)->0;
        assert(cd_encoded(args) == args.take(after as int) + cd_encoded_rest(args.skip(after as int), false));
    }
    reveal_strlit("--cd");
    reveal_strlit("--directory");
    if is_cd_option(w) {
        assert(w != "--"@) by {
            assert("--"@.len() == 2 && "--"@[1] == '-');
            assert("-C"@.len() == 2 && "-C"@[1] == 'C');
            assert("--cd"@.len() == 4);
            assert("--directory"@.len() == 11);
            if w == "-C"@ {
                assert(w[1] != "--"@[1]);
            }
        }
        let l = seq![w, d] + tail;
        assert(l[0] == w && l[1] == d && l.len() > 1);
    }
    assert(starts_with("--"@, "--cd="@) == false);
    assert(starts_with("--"@, "--directory="@) == false);
}

/// Nothing after a `--` separator is rewritten: once the separator has been
/// passed, neither directory changes are encoded nor `-W` options expanded.
pub proof fn words_after_separator_kept(rest: Seq<Seq<char>>)
    ensures
        cd_encoded_rest(rest, true) == rest,
        w_expanded_rest(rest, true) == rest,
    decreases rest.len(),
{
    if rest.len() > 0 {
        words_after_separator_kept(rest.drop_first());
        assert(seq![rest[0]] + rest.drop_first() =~= rest);
    } else {
        assert(rest =~= Seq::<Seq<char>>::empty());
    }
}

/// A word is read as an old-style bundle exactly when it is ASCII letters
/// and one of them is an action: `c`, `x`, `t`, `r` or `u`.
pub proof fn bundle_needs_action_letter(w: Seq<char>)
    ensures
        is_old_style_bundle(w) <==> {
            &&& forall|k: int| 0 <= k < w.len() ==> ('a' <= #[trigger] w[k] <= 'z' || 'A' <= w[k] <= 'Z')
            &&& exists|k: int|
                0 <= k < w.len() && (#[trigger] w[k] == 'c' || w[k] == 'x' || w[k] == 't' || w[k] == 'r'
                    || w[k] == 'u')
        },
{
}

/// How many letters of `b` take a value: `b`, `C`, `f`, `I`, `s`, `T`, `W`
/// and `X`.
pub open spec fn value_letters_in(b: Seq<char>) -> nat
    decreases b.len(),
{
    if b.len() == 0 {
        0
    } else {
        let c = b[0];
        (if c == 'b' || c == 'C' || c == 'f' || c == 'I' || c == 's' || c == 'T' || c == 'W'
            || c == 'X' {
            1nat
        } else {
            0nat
        }) + value_letters_in(b.drop_first())
    }
}

/// A spelled-out bundle has one word per letter, then the words that
/// followed the bundle.
proof fn lemma_expand_bundle_len(bundle: Seq<char>, rest: Seq<Seq<char>>)
    ensures
        expand_bundle(bundle, rest).len() == bundle.len() + rest.len(),
    decreases bundle.len(),
{
    if bundle.len() > 0 {
        if takes_value(bundle[0]) && rest.len() > 0 {
            lemma_expand_bundle_len(bundle.drop_first(), rest.drop_first());
        } else {
            lemma_expand_bundle_len(bundle.drop_first(), rest);
        }
    }
}

/// Where the `k`-th letter of a bundle stands in its spelling-out, and which
/// word follows it when it takes a value.
proof fn lemma_expand_bundle_at(bundle: Seq<char>, rest: Seq<Seq<char>>, k: int)
    requires
        0 <= k < bundle.len(),
    ensures
        ({
            let c = bundle[k];
            let v = value_letters_in(bundle.take(k)) as int;
            let at = k + if v < rest.len() { v } else { rest.len() as int };
            let out = expand_bundle(bundle, rest);
            &&& out[at] == seq!['-', c]
            &&& (c == 'b' || c == 'C' || c == 'f' || c == 'I' || c == 's' || c == 'T' || c == 'W'
                || c == 'X') && v < rest.len() ==> out[at + 1] == rest[v]
        }),
    decreases k,
{
    let c0 = bundle[0];
    let consumed = takes_value(c0) && rest.len() > 0;
    let rest2 = if consumed { rest.drop_first() } else { rest };
    let sub = bundle.drop_first();
    lemma_expand_bundle_len(sub, rest2);
    if k > 0 {
        lemma_expand_bundle_at(sub, rest2, k - 1);
        assert(bundle.take(k).drop_first() =~= sub.take(k - 1));
        assert(bundle.take(k)[0] == c0);
    } else {
        assert(bundle.take(0) =~= Seq::<char>::empty());
    }
}

/// In an old-style bundle every letter stands as its own short option, in
/// order, and each of the letters `b`, `C`, `f`, `I`, `s`, `T`, `W` and `X`
/// is followed by the next word after the bundle that no earlier such letter
/// took, while one is left: in `cTf files.txt archive.pna`, `-T` takes
/// `files.txt` and `-f` takes `archive.pna`. The bundle's word becomes one
/// word per letter.
pub proof fn bundle_value_letters_take_next_words(args: Seq<Seq<char>>, k: int)
    requires
        bundle_at(args) is Some,
        0 <= k < args[bundle_at(args)->0 as int].len(),
    ensures
        ({
            let i = bundle_at(args)->0 as int;
            let b = args[i];
            let c = b[k];
            let left = args.len() - (i + 1);
            let v = value_letters_in(b.take(k)) as int;
            let at = i + k + if v < left { v } else { left };
            let out = old_style_expanded(args);
            &&& out.len() == args.len() - 1 + b.len()
            &&& out[at] == seq!['-', c]
            &&& (c == 'b' || c == 'C' || c == 'f' || c == 'I' || c == 's' || c == 'T' || c == 'W'
                || c == 'X') && v < left ==> out[at + 1] == args[i + 1 + v]
        }),
{
    let i = bundle_at(args)->0 as int;
    let rest = args.skip(i + 1);
    old_style_expansion_only_at_bundle(args);
    lemma_expand_bundle_len(args[i], rest);
    lemma_expand_bundle_at(args[i], rest, k);
}

/// Appends one argument to a list of arguments.
fn push_arg(out: &mut Vec<String>, a: String)
    ensures
        final(out).deep_view() == old(out).deep_view().push(a@),
{
    let ghost before = out.deep_view();
    out.push(a);
    assert(out.deep_view() =~= before.push(a@));
}

/// A copy of the `i`-th argument.
fn arg_at(args: &Vec<String>, i: usize) -> (r: String)
    requires
        i < args.len(),
    ensures
        r@ == args.deep_view()[i as int],
{
    args[i].clone()
}

/// The characters of the `i`-th argument.
fn arg_chars(args: &Vec<String>, i: usize) -> (r: Vec<char>)
    requires
        i < args.len(),
    ensures
        r@ == args.deep_view()[i as int],
{
    chars_of(args[i].as_str())
}

/// Whether `a` is `opt=value`.
fn assigns_exec(a: &[char], opt: &str) -> (r: bool)
    ensures
        r == assigns(a@, opt@),
{
    let ov = chars_of(opt);
    assert(a@.skip(0) =~= a@);
    if ov.len() < a.len() && starts_with_at(a, 0, opt) {
        a[ov.len()] == '='
    } else {
        false
    }
}

/// Whether `a` is a global option that takes the next word as its value.
fn takes_global_value_exec(a: &[char]) -> (r: bool)
    ensures
        r == takes_global_value(a@),
{
    word_is(a, "--color") || word_is(a, "--log-level")
}

/// Whether `a` is an option word before the subcommand.
fn is_leading_flag_exec(a: &[char]) -> (r: bool)
    ensures
        r == is_leading_flag(a@),
{
    a.len() > 0 && a[0] == '-' && !word_is(a, "--")
}

/// The position of the first argument from `i` on that is not an option.
fn skip_leading_flags(args: &Vec<String>, i: usize) -> (r: usize)
    ensures
        r == leading_flags_end(args.deep_view(), i as nat),
{
    let ghost dv = args.deep_view();
    if i >= args.len() {
        return i;
    }
    let mut j = i;
    loop
        invariant
            j <= args.len(),
            dv == args.deep_view(),
            leading_flags_end(dv, j as nat) == leading_flags_end(dv, i as nat),
        ensures
            j == leading_flags_end(dv, i as nat),
        decreases args.len() - j,
    {
        if j >= args.len() {
            break;
        }
        let a = arg_chars(args, j);
        if !is_leading_flag_exec(a.as_slice()) {
            break;
        }
        let v = takes_global_value_exec(a.as_slice());
        j = j + 1;
        if v && j < args.len() {
            j = j + 1;
        }
    }
    j
}

/// The position after `keyword`, where it is the first argument from `i` on
/// that is not an option.
fn skip_to_keyword(args: &Vec<String>, i: usize, keyword: &str) -> (r: Option<usize>)
    ensures
        match r {
            Some(k) => keyword_after(args.deep_view(), i as nat, keyword@) == Some(k as nat)
                && k <= args.len(),
            None => keyword_after(args.deep_view(), i as nat, keyword@) is None,
        },
{
    let j = skip_leading_flags(args, i);
    if j < args.len() {
        let a = arg_chars(args, j);
        if word_is(a.as_slice(), keyword) {
            return Some(j + 1);
        }
    }
    None
}

/// The position after the `compat bsdtar` (or `experimental stdio`)
/// subcommand.
fn find_bsdtar_subcommand(args: &Vec<String>) -> (r: Option<usize>)
    ensures
        match r {
            Some(k) => subcommand_end(args.deep_view()) == Some(k as nat) && k <= args.len(),
            None => subcommand_end(args.deep_view()) is None,
        },
{
    if let Some(i) = skip_to_keyword(args, 1, "compat") {
        if let Some(after) = skip_to_keyword(args, i, "bsdtar") {
            return Some(after);
        }
    }
    if let Some(i) = skip_to_keyword(args, 1, "experimental") {
        skip_to_keyword(args, i, "stdio")
    } else {
        None
    }
}

/// Whether `a` is a global option with its value in the same word.
fn is_global_assignment_exec(a: &[char]) -> (r: bool)
    ensures
        r == is_global_assignment(a@),
{
    assert(a@.skip(0) =~= a@);
    starts_with_at(a, 0, "--") && !word_is(a, "--") && (assigns_exec(a, "--color")
        || assigns_exec(a, "--log-level"))
}

/// The position of the first argument from `i` on that is not a known
/// global option.
fn skip_known_global_flags(args: &Vec<String>, i: usize) -> (r: usize)
    ensures
        r == global_flags_end(args.deep_view(), i as nat),
{
    let ghost dv = args.deep_view();
    if i >= args.len() {
        return i;
    }
    let mut j = i;
    loop
        invariant
            j <= args.len(),
            dv == args.deep_view(),
            global_flags_end(dv, j as nat) == global_flags_end(dv, i as nat),
        ensures
            j == global_flags_end(dv, i as nat),
        decreases args.len() - j,
    {
        if j >= args.len() {
            break;
        }
        let a = arg_chars(args, j);
        let s = a.as_slice();
        if takes_global_value_exec(s) {
            j = j + 1;
            if j < args.len() {
                j = j + 1;
            }
        } else if word_is(s, "--quiet") || word_is(s, "--unstable") || word_is(s, "--verbose")
            || is_global_assignment_exec(s) {
            j = j + 1;
        } else {
            break;
        }
    }
    j
}

/// The short option `-c` for the letter `c`.
fn short_flag_string(c: char) -> (r: String)
    ensures
        r@ == short_flag(c),
{
    let mut v: Vec<char> = Vec::new();
    v.push('-');
    v.push(c);
    assert(v@ =~= short_flag(c));
    string_from_chars(v.as_slice())
}

/// Whether the short option `c` takes a value in a bundle.
fn takes_value_exec(c: char) -> (r: bool)
    ensures
        r == takes_value(c),
{
    c == 'b' || c == 'C' || c == 'f' || c == 'I' || c == 's' || c == 'T' || c == 'W' || c == 'X'
}

/// Whether a word is an old-style bundle.
fn is_old_style_bundle_exec(w: &[char]) -> (r: bool)
    ensures
        r == is_old_style_bundle(w@),
{
    let mut any_action = false;
    let mut k: usize = 0;
    while k < w.len()
        invariant
            k <= w.len(),
            forall|j: int| 0 <= j < k ==> is_ascii_letter(#[trigger] w@[j]),
            any_action == exists|j: int| 0 <= j < k && is_action(#[trigger] w@[j]),
        decreases w.len() - k,
    {
        let c = w[k];
        if !(('a' <= c && c <= 'z') || ('A' <= c && c <= 'Z')) {
            assert(!is_ascii_letter(w@[k as int]));
            return false;
        }
        if c == 'c' || c == 'x' || c == 't' || c == 'r' || c == 'u' {
            assert(is_action(w@[k as int]));
            any_action = true;
        }
        k = k + 1;
    }
    any_action
}

/// Expands bsdtar's old-style arguments: after the `compat bsdtar` (or
/// `experimental stdio`) subcommand and any known global options, a word of
/// ASCII letters that holds an action (`c`, `x`, `t`, `r` or `u`) is a
/// bundle of short options without the dash. Each letter becomes its own
/// option, and each that takes a value (`b C f I s T W X`) takes the next of
/// the words that follow the bundle, while there is one:
/// `pna compat bsdtar cvf archive.pna dir/` reads as
/// `pna compat bsdtar -c -v -f archive.pna dir/`.
/// Any other arguments come back unchanged.
pub fn expand_bsdtar_old_style_args(args: Vec<String>) -> (r: Vec<String>)
    ensures
        r.deep_view() == old_style_expanded(args.deep_view()),
{
    let ghost dv = args.deep_view();
    let after = match find_bsdtar_subcommand(&args) {
        Some(a) => a,
        None => return args,
    };
    let i = skip_known_global_flags(&args, after);
    if i >= args.len() {
        return args;
    }
    let bundle = arg_chars(&args, i);
    if !is_old_style_bundle_exec(bundle.as_slice()) {
        return args;
    }
    let ghost target = old_style_expanded(dv);
    let mut result: Vec<String> = Vec::new();
    let mut k: usize = 0;
    while k < i
        invariant
            k <= i < args.len(),
            dv == args.deep_view(),
            result.deep_view() == dv.take(k as int),
        decreases i - k,
    {
        push_arg(&mut result, arg_at(&args, k));
        k = k + 1;
        assert(dv.take(k as int) =~= dv.take(k - 1).push(dv[k - 1]));
    }
    let mut next: usize = i + 1;
    let mut c: usize = 0;
    assert(bundle@.skip(0) =~= bundle@);
    while c < bundle.len()
        invariant
            c <= bundle.len(),
            i < next <= args.len(),
            dv == args.deep_view(),
            target == result.deep_view() + expand_bundle(bundle@.skip(c as int), dv.skip(next as int)),
        decreases bundle.len() - c,
    {
        let ch = bundle[c];
        let ghost before = result.deep_view();
        let ghost bs = bundle@.skip(c as int);
        let ghost rest = dv.skip(next as int);
        assert(bs[0] == ch);
        assert(bs.drop_first() =~= bundle@.skip(c + 1));
        push_arg(&mut result, short_flag_string(ch));
        if takes_value_exec(ch) && next < args.len() {
            push_arg(&mut result, arg_at(&args, next));
            assert(rest[0] == dv[next as int]);
            assert(rest.drop_first() =~= dv.skip(next + 1));
            next = next + 1;
            assert(before + (seq![short_flag(ch), rest[0]] + expand_bundle(
                bs.drop_first(),
                rest.drop_first(),
            )) =~= before.push(short_flag(ch)).push(rest[0]) + expand_bundle(
                bs.drop_first(),
                rest.drop_first(),
            ));
        } else {
            assert(before + (seq![short_flag(ch)] + expand_bundle(bs.drop_first(), rest))
                =~= before.push(short_flag(ch)) + expand_bundle(bs.drop_first(), rest));
        }
        c = c + 1;
    }
    while next < args.len()
        invariant
            next <= args.len(),
            dv == args.deep_view(),
            target == result.deep_view() + dv.skip(next as int),
        decreases args.len() - next,
    {
        let ghost before = result.deep_view();
        push_arg(&mut result, arg_at(&args, next));
        assert(before + dv.skip(next as int) =~= before.push(dv[next as int]) + dv.skip(next + 1));
        next = next + 1;
    }
    assert(result.deep_view() =~= target);
    result
}

/// `--name` for the word `name`.
fn long_option_string(name: &String) -> (r: String)
    ensures
        r@ == "--"@ + name@,
{
    let mut r = String::from_str("--");
    r.append(name.as_str());
    r
}

/// A copy of the arguments before position `n`.
fn args_before(args: &Vec<String>, n: usize) -> (r: Vec<String>)
    requires
        n <= args.len(),
    ensures
        r.deep_view() == args.deep_view().take(n as int),
{
    let ghost dv = args.deep_view();
    let mut result: Vec<String> = Vec::new();
    let mut k: usize = 0;
    while k < n
        invariant
            k <= n <= args.len(),
            dv == args.deep_view(),
            result.deep_view() == dv.take(k as int),
        decreases n - k,
    {
        push_arg(&mut result, arg_at(args, k));
        k = k + 1;
        assert(dv.take(k as int) =~= dv.take(k - 1).push(dv[k - 1]));
    }
    result
}

/// Expands bsdtar's `-W name` into `--name` (and so `-W name=value` into
/// `--name=value`) after the `compat bsdtar` (or `experimental stdio`)
/// subcommand, up to a `--` separator. A `-W` with no word after it stays
/// as it is. Any other arguments come back unchanged.
pub fn expand_bsdtar_w_option(args: Vec<String>) -> (r: Vec<String>)
    ensures
        r.deep_view() == w_expanded(args.deep_view()),
{
    let ghost dv = args.deep_view();
    let after = match find_bsdtar_subcommand(&args) {
        Some(a) => a,
        None => return args,
    };
    let ghost target = w_expanded(dv);
    let mut result = args_before(&args, after);
    let mut j: usize = after;
    let mut past = false;
    while j < args.len()
        invariant
            after <= j <= args.len(),
            dv == args.deep_view(),
            target == result.deep_view() + w_expanded_rest(dv.skip(j as int), past),
        decreases args.len() - j,
    {
        let ghost before = result.deep_view();
        let ghost rest = dv.skip(j as int);
        assert(rest[0] == dv[j as int]);
        let a = arg_chars(&args, j);
        if !past && word_is(a.as_slice(), "--") {
            past = true;
            push_arg(&mut result, arg_at(&args, j));
            j = j + 1;
            assert(rest.drop_first() =~= dv.skip(j as int));
            assert(before + (seq![rest[0]] + w_expanded_rest(rest.drop_first(), true))
                =~= before.push(rest[0]) + w_expanded_rest(rest.drop_first(), true));
        } else if !past && word_is(a.as_slice(), "-W") {
            if j + 1 < args.len() {
                assert(args@[j + 1]@ == dv[j + 1]);
                push_arg(&mut result, long_option_string(&args[j + 1]));
                j = j + 2;
                assert(rest[1] == dv[j - 1]);
                assert(rest.skip(2) =~= dv.skip(j as int));
                assert(before + (seq!["--"@ + rest[1]] + w_expanded_rest(rest.skip(2), false))
                    =~= before.push("--"@ + rest[1]) + w_expanded_rest(rest.skip(2), false));
            } else {
                push_arg(&mut result, arg_at(&args, j));
                j = j + 1;
                assert(dv.skip(j as int) =~= Seq::<Seq<char>>::empty());
                assert(before + seq![rest[0]] =~= before.push(rest[0]) + w_expanded_rest(
                    dv.skip(j as int),
                    past,
                ));
            }
        } else {
            push_arg(&mut result, arg_at(&args, j));
            j = j + 1;
            assert(rest.drop_first() =~= dv.skip(j as int));
            assert(before + (seq![rest[0]] + w_expanded_rest(rest.drop_first(), past))
                =~= before.push(rest[0]) + w_expanded_rest(rest.drop_first(), past));
        }
    }
    assert(dv.skip(j as int) =~= Seq::<Seq<char>>::empty());
    assert(result.deep_view() =~= target);
    result
}

/// The word that carries a change to directory `dir`.
fn cd_word_string(dir: &[char]) -> (r: String)
    ensures
        r@ == cd_word(dir@),
{
    let mut v: Vec<char> = Vec::new();
    v.push('\0');
    v.push('C');
    v.push('D');
    v.push('\0');
    crate::text::push_all(&mut v, dir);
    assert(v@ =~= cd_word(dir@));
    string_from_chars(v.as_slice())
}

/// What follows the prefix `p` in `s`, where `s` begins with it.
fn after_prefix(s: &[char], p: &str) -> (r: Option<Vec<char>>)
    ensures
        r is Some <==> starts_with(s@, p@),
        r matches Some(v) ==> v@ == s@.skip(p@.len() as int),
{
    assert(s@.skip(0) =~= s@);
    if starts_with_at(s, 0, p) {
        let pv = chars_of(p);
        let v = chars_between(s, pv.len(), s.len());
        assert(v@ =~= s@.skip(p@.len() as int));
        Some(v)
    } else {
        None
    }
}

/// The directory of `-Cdir`, where `s` is that form.
fn attached_cd_dir(s: &[char]) -> (r: Option<Vec<char>>)
    ensures
        r is Some <==> is_attached_cd(s@),
        r matches Some(v) ==> v@ == s@.skip("-C"@.len() as int),
{
    match after_prefix(s, "-C") {
        Some(v) => {
            if v.len() > 0 && v[0] != '-' {
                Some(v)
            } else {
                None
            }
        },
        None => None,
    }
}

/// The words that `encode_bsdtar_cd_args` adds at one step: the encoded
/// words for the arguments from `j` on, and the position after them.
fn cd_step(args: &Vec<String>, j: usize, past: bool) -> (r: (Vec<String>, usize, bool))
    requires
        j < args.len(),
    ensures
        j < r.1 <= args.len(),
        cd_encoded_rest(args.deep_view().skip(j as int), past) == r.0.deep_view()
            + cd_encoded_rest(args.deep_view().skip(r.1 as int), r.2),
{
    let ghost dv = args.deep_view();
    let ghost rest = dv.skip(j as int);
    assert(rest[0] == dv[j as int]);
    assert(rest.drop_first() =~= dv.skip(j + 1));
    let a = arg_chars(args, j);
    let sl = a.as_slice();
    let mut out: Vec<String> = Vec::new();
    if past {
        push_arg(&mut out, arg_at(args, j));
        return (out, j + 1, true);
    }
    if word_is(sl, "--") {
        push_arg(&mut out, arg_at(args, j));
        return (out, j + 1, true);
    }
    if let Some(dir) = after_prefix(sl, "--cd=") {
        push_arg(&mut out, cd_word_string(dir.as_slice()));
        return (out, j + 1, false);
    }
    if let Some(dir) = after_prefix(sl, "--directory=") {
        push_arg(&mut out, cd_word_string(dir.as_slice()));
        return (out, j + 1, false);
    }
    if word_is(sl, "--cd") || word_is(sl, "--directory") || word_is(sl, "-C") {
        if j + 1 < args.len() {
            let dir = arg_chars(args, j + 1);
            push_arg(&mut out, cd_word_string(dir.as_slice()));
            assert(rest[1] == dv[j + 1]);
            assert(rest.skip(2) =~= dv.skip(j + 2));
            return (out, j + 2, false);
        } else {
            push_arg(&mut out, arg_at(args, j));
            assert(dv.skip(j + 1) =~= Seq::<Seq<char>>::empty());
            return (out, j + 1, false);
        }
    }
    if let Some(dir) = attached_cd_dir(sl) {
        push_arg(&mut out, cd_word_string(dir.as_slice()));
        return (out, j + 1, false);
    }
    push_arg(&mut out, arg_at(args, j));
    (out, j + 1, false)
}

/// Appends a list of arguments to another.
fn append_args(out: &mut Vec<String>, more: Vec<String>)
    ensures
        final(out).deep_view() == old(out).deep_view() + more.deep_view(),
{
    let ghost start = out.deep_view();
    let ghost mv = more.deep_view();
    let mut k: usize = 0;
    while k < more.len()
        invariant
            k <= more.len(),
            mv == more.deep_view(),
            out.deep_view() == start + mv.take(k as int),
        decreases more.len() - k,
    {
        push_arg(out, arg_at(&more, k));
        k = k + 1;
        assert(mv.take(k as int) =~= mv.take(k - 1).push(mv[k - 1]));
    }
    assert(mv.take(k as int) =~= mv);
}

/// Encodes bsdtar's directory changes after the `compat bsdtar` (or
/// `experimental stdio`) subcommand as marked positional words, so that
/// later stages see where each stands among the file names: `-C dir`,
/// `-Cdir`, `--cd dir`, `--directory dir`, `--cd=dir` and `--directory=dir`
/// each become the word `"\0CD\0dir"`. Nothing after a `--` separator is
/// encoded, and an option with no word after it stays as it is. Any other
/// arguments come back unchanged.
pub fn encode_bsdtar_cd_args(args: Vec<String>) -> (r: Vec<String>)
    ensures
        r.deep_view() == cd_encoded(args.deep_view()),
{
    let ghost dv = args.deep_view();
    let after = match find_bsdtar_subcommand(&args) {
        Some(a) => a,
        None => return args,
    };
    let ghost target = cd_encoded(dv);
    let mut result = args_before(&args, after);
    let mut j: usize = after;
    let mut past = false;
    while j < args.len()
        invariant
            after <= j <= args.len(),
            dv == args.deep_view(),
            target == result.deep_view() + cd_encoded_rest(dv.skip(j as int), past),
        decreases args.len() - j,
    {
        let ghost before = result.deep_view();
        let (words, next, now_past) = cd_step(&args, j, past);
        let ghost wv = words.deep_view();
        append_args(&mut result, words);
        assert(before + (wv + cd_encoded_rest(dv.skip(next as int), now_past)) =~= (before + wv)
            + cd_encoded_rest(dv.skip(next as int), now_past));
        j = next;
        past = now_past;
    }
    assert(dv.skip(j as int) =~= Seq::<Seq<char>>::empty());
    assert(result.deep_view() =~= target);
    result
}

} // verus!
