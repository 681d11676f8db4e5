//! GNU tar's name transformations, `--transform s/pattern/replacement/flags`:
//! each rule rewrites the name that the rules before it gave.
use vstd::prelude::*;
use crate::command::shared::re::{
    build_regex, match_end, matches_in_order, pairs_view, regex_builds, regex_match_list, regex_matches,
    regex_replace_all, regex_replace_first, replace_all, replace_first,
};
use crate::text::{chars_between, chars_of, push_all, split_chars, split_on, string_from_chars};

verus! {

/// Why a transformation argument is refused.
#[derive(Debug)]
pub enum TransformRuleError {
    /// The argument does not begin with `s`.
    StartsWithMustBeS,
    /// Delimiter, pattern, replacement or flags are missing.
    InvalidFormat,
    /// A flag that no rule knows.
    InvalidFlag(char),
    /// The pattern does not compile.
    InvalidPattern(regex::Error),
}

/// Why a transformation argument is refused, without the pattern's error.
pub ghost enum TransformRuleErrorModel {
    StartsWithMustBeS,
    InvalidFormat,
    InvalidFlag(char),
    InvalidPattern,
}

impl View for TransformRuleError {
    type V = TransformRuleErrorModel;

    open spec fn view(&self) -> TransformRuleErrorModel {
        match self {
            TransformRuleError::StartsWithMustBeS => TransformRuleErrorModel::StartsWithMustBeS,
            TransformRuleError::InvalidFormat => TransformRuleErrorModel::InvalidFormat,
            TransformRuleError::InvalidFlag(c) => TransformRuleErrorModel::InvalidFlag(*c),
            TransformRuleError::InvalidPattern(_) => TransformRuleErrorModel::InvalidPattern,
        }
    }
}

/// The flags of a rule: `g` every match, `i` ignore case, `x` extended
/// patterns, a digit the one match to replace, and which kinds of names it
/// rewrites.
#[derive(Clone, Copy, Debug, PartialEq, Eq)]
pub struct TransformFlags {
    pub global: bool,
    pub case_insensitive: bool,
    pub extended: bool,
    pub match_number: Option<usize>,
    pub apply_to_hardlinks: bool,
    pub apply_to_symlinks: bool,
    pub apply_to_regular_files: bool,
}

/// The flags before any flag letter is read.
pub open spec fn default_transform_flags() -> TransformFlags {
    TransformFlags {
        global: false,
        case_insensitive: false,
        extended: false,
        match_number: None,
        apply_to_hardlinks: true,
        apply_to_symlinks: true,
        apply_to_regular_files: true,
    }
}

/// The flags after one flag letter, or the letter where no rule knows it.
pub open spec fn set_transform_flag(f: TransformFlags, c: char) -> Result<TransformFlags, char> {
    if c == 'g' {
        Ok(TransformFlags { global: true, ..f })
    } else if c == 'i' {
        Ok(TransformFlags { case_insensitive: true, ..f })
    } else if c == 'x' {
        Ok(TransformFlags { extended: true, ..f })
    } else if c == 's' || c == 'S' {
        Ok(TransformFlags { apply_to_symlinks: c == 's', ..f })
    } else if c == 'h' || c == 'H' {
        Ok(TransformFlags { apply_to_hardlinks: c == 'h', ..f })
    } else if c == 'r' || c == 'R' {
        Ok(TransformFlags { apply_to_regular_files: c == 'r', ..f })
    } else if '0' <= c && c <= '9' {
        Ok(TransformFlags { match_number: Some(((c as int) - ('0' as int)) as usize), ..f })
    } else {
        Err(c)
    }
}

/// The flag letters read from left to right after `f`; the first unknown
/// letter where there is one.
pub open spec fn read_transform_flags(f: TransformFlags, letters: Seq<char>) -> Result<TransformFlags, char>
    decreases letters.len(),
{
    if letters.len() == 0 {
        Ok(f)
    } else {
        match set_transform_flag(f, letters[0]) {
            Err(c) => Err(c),
            Ok(g) => read_transform_flags(g, letters.drop_first()),
        }
    }
}

/// A transformation rule: a pattern, what replaces a match, and the flags.
#[derive(Debug)]
pub struct TransformRule {
    pub pattern: String,
    pub replacement: String,
    pub flags: TransformFlags,
}

/// A transformation rule as values.
pub ghost struct TransformModel {
    pub pattern: Seq<char>,
    pub replacement: Seq<char>,
    pub flags: TransformFlags,
}

impl View for TransformRule {
    type V = TransformModel;

    open spec fn view(&self) -> TransformModel {
        TransformModel { pattern: self.pattern@, replacement: self.replacement@, flags: self.flags }
    }
}

/// What a rule argument reads as: `s`, then a delimiter that separates
/// pattern, replacement and flags (what follows a third delimiter is not
/// read); the flags are read left to right and the pattern, with the case
/// ignored where `i` says so, must compile.
pub open spec fn parse_transform(e: Seq<char>) -> Result<TransformModel, TransformRuleErrorModel> {
    if e.len() == 0 || e[0] != 's' {
        Err(TransformRuleErrorModel::StartsWithMustBeS)
    } else if e.len() == 1 {
        Err(TransformRuleErrorModel::InvalidFormat)
    } else {
        let parts = split_on(e.skip(2), e[1]);
        if parts.len() < 3 {
            Err(TransformRuleErrorModel::InvalidFormat)
        } else {
            match read_transform_flags(default_transform_flags(), parts[2]) {
                Err(c) => Err(TransformRuleErrorModel::InvalidFlag(c)),
                Ok(f) => if regex_builds(parts[0], f.case_insensitive) {
                    Ok(TransformModel { pattern: parts[0], replacement: parts[1], flags: f })
                } else {
                    Err(TransformRuleErrorModel::InvalidPattern)
                },
            }
        }
    }
}

/// Whether a rule rewrites a name of this kind: symbolic-link targets,
/// hard-link targets, or the names of other entries.
pub open spec fn transform_applies(f: TransformFlags, is_symlink: bool, is_hardlink: bool) -> bool {
    &&& !(is_symlink && !f.apply_to_symlinks)
    &&& !(is_hardlink && !f.apply_to_hardlinks)
    &&& !(!is_symlink && !is_hardlink && !f.apply_to_regular_files)
}

/// `text` from `last` on rebuilt around the matches from `k` on: the text
/// between matches is kept, match number `n` (counted from one) becomes
/// `rep` as written, and every other match stays as it is.
pub open spec fn rebuilt(
    text: Seq<char>,
    ms: Seq<(Seq<char>, Seq<char>)>,
    n: nat,
    rep: Seq<char>,
    k: nat,
    last: int,
) -> Seq<char>
    decreases ms.len() - k,
{
    if k >= ms.len() {
        text.subrange(last, text.len() as int)
    } else {
        text.subrange(last, ms[k as int].0.len() as int) + (if k + 1 == n {
            rep
        } else {
            ms[k as int].1
        }) + rebuilt(text, ms, n, rep, k + 1, match_end(ms, k as int))
    }
}

/// `text` with match number `n` of `ms` replaced by `rep`.
pub open spec fn nth_replaced(text: Seq<char>, ms: Seq<(Seq<char>, Seq<char>)>, n: nat, rep: Seq<char>) -> Seq<char> {
    rebuilt(text, ms, n, rep, 0, 0)
}

/// What a rule makes of a name: nothing for a kind of name it does not
/// rewrite; with a match number, that match replaced by the replacement as
/// written; else the first match, or with `g` every match, replaced by the
/// regex crate's replacement (`$1` standing for a group).
pub open spec fn transformed(rule: TransformModel, input: Seq<char>, is_symlink: bool, is_hardlink: bool) -> Option<Seq<char>> {
    if !transform_applies(rule.flags, is_symlink, is_hardlink) {
        None
    } else {
        match rule.flags.match_number {
            Some(n) => Some(nth_replaced(
                input,
                regex_matches(rule.pattern, rule.flags.case_insensitive, input),
                n as nat,
                rule.replacement,
            )),
            None => if rule.flags.global {
                Some(regex_replace_all(rule.pattern, rule.flags.case_insensitive, input, rule.replacement))
            } else {
                Some(regex_replace_first(rule.pattern, rule.flags.case_insensitive, input, rule.replacement))
            },
        }
    }
}

/// A name after each rule in turn has rewritten what the rules before it
/// gave.
pub open spec fn transforms_applied(rules: Seq<TransformModel>, input: Seq<char>, is_symlink: bool, is_hardlink: bool) -> Seq<char>
    decreases rules.len(),
{
    if rules.len() == 0 {
        input
    } else {
        let out = match transformed(rules[0], input, is_symlink, is_hardlink) {
            Some(t) => t,
            None => input,
        };
        transforms_applied(rules.drop_first(), out, is_symlink, is_hardlink)
    }
}

/// The last of the letters `on` and `off` among `letters`, where either
/// occurs.
pub open spec fn last_letter_of(letters: Seq<char>, on: char, off: char) -> Option<char>
    decreases letters.len(),
{
    if letters.len() == 0 {
        None
    } else {
        match last_letter_of(letters.drop_first(), on, off) {
            Some(c) => Some(c),
            None => if letters[0] == on || letters[0] == off { Some(letters[0]) } else { None },
        }
    }
}

/// What a kind of name is rewritten as, after flag letters: the last of
/// its two letters decides (lower case on, upper case off), and without
/// either the setting stays.
pub open spec fn kind_after(letters: Seq<char>, on: char, off: char, before: bool) -> bool {
    match last_letter_of(letters, on, off) {
        Some(c) => c == on,
        None => before,
    }
}

/// Flag letters set what they name: `h`/`H` turn rewriting of hard-link
/// targets on/off, `s`/`S` that of symbolic-link targets, `r`/`R` that of
/// other names, the last such letter deciding; `g`, `i` and `x` turn on
/// replacing every match, ignoring case and extended patterns.
pub proof fn flag_letters_set_kinds(f: TransformFlags, letters: Seq<char>)
    ensures
        read_transform_flags(f, letters) is Ok ==> {
            let g = read_transform_flags(f, letters)->Ok_0;
            &&& g.apply_to_hardlinks == kind_after(letters, 'h', 'H', f.apply_to_hardlinks)
            &&& g.apply_to_symlinks == kind_after(letters, 's', 'S', f.apply_to_symlinks)
            &&& g.apply_to_regular_files == kind_after(letters, 'r', 'R', f.apply_to_regular_files)
            &&& g.global == (f.global || letters.contains('g'))
            &&& g.case_insensitive == (f.case_insensitive || letters.contains('i'))
            &&& g.extended == (f.extended || letters.contains('x'))
        },
    decreases letters.len(),
{
    if letters.len() > 0 {
        let c = letters[0];
        let rest = letters.drop_first();
        if let Ok(f2) = set_transform_flag(f, c) {
            flag_letters_set_kinds(f2, rest);
            assert forall|x: char| letters.contains(x) <==> (c == x || rest.contains(x)) by {
                if letters.contains(x) {
                    let k = choose|k: int| 0 <= k < letters.len() && letters[k] == x;
                    if k > 0 {
                        assert(rest[k - 1] == x);
                    }
                }
                if rest.contains(x) {
                    let k = choose|k: int| 0 <= k < rest.len() && rest[k] == x;
                    assert(letters[k + 1] == x);
                }
            }
        }
    }
}

/// A parsed rule rewrites a hard-link target exactly unless the last of
/// its `h`/`H` flags is `H`; likewise `s`/`S` for symbolic-link targets and
/// `r`/`R` for other names. So a rule whose flags end in `H` for hard links
/// never rewrites a hard-link target.
pub proof fn rule_flags_choose_kinds(e: Seq<char>, input: Seq<char>)
    ensures
        parse_transform(e) is Ok ==> {
            let r = parse_transform(e)->Ok_0;
            let letters = split_on(e.skip(2), e[1])[2];
            &&& r.flags.apply_to_hardlinks == (last_letter_of(letters, 'h', 'H') != Some('H'))
            &&& r.flags.apply_to_symlinks == (last_letter_of(letters, 's', 'S') != Some('S'))
            &&& r.flags.apply_to_regular_files == (last_letter_of(letters, 'r', 'R') != Some('R'))
            &&& (last_letter_of(letters, 'h', 'H') == Some('H') ==> transformed(r, input, false, true) is None)
            &&& (last_letter_of(letters, 's', 'S') == Some('S') ==> transformed(r, input, true, false) is None)
            &&& (last_letter_of(letters, 'r', 'R') == Some('R') ==> transformed(r, input, false, false) is None)
        },
{
    if parse_transform(e) is Ok {
        let letters = split_on(e.skip(2), e[1])[2];
        flag_letters_set_kinds(default_transform_flags(), letters);
        lemma_last_letter_is_one_of(letters, 'h', 'H');
        lemma_last_letter_is_one_of(letters, 's', 'S');
        lemma_last_letter_is_one_of(letters, 'r', 'R');
    }
}

/// The last letter found is one of the two.
pub proof fn lemma_last_letter_is_one_of(letters: Seq<char>, on: char, off: char)
    ensures
        last_letter_of(letters, on, off) matches Some(c) ==> c == on || c == off,
    decreases letters.len(),
{
    if letters.len() > 0 {
        lemma_last_letter_is_one_of(letters.drop_first(), on, off);
    }
}

/// Rules that do not rewrite this kind of name (symbolic-link target,
/// hard-link target or other entry) leave it unchanged.
pub proof fn inapplicable_transforms_keep_name(
    rules: Seq<TransformModel>,
    name: Seq<char>,
    is_symlink: bool,
    is_hardlink: bool,
)
    requires
        forall|i: int| 0 <= i < rules.len() ==> !transform_applies(#[trigger] rules[i].flags, is_symlink, is_hardlink),
    ensures
        transforms_applied(rules, name, is_symlink, is_hardlink) == name,
    decreases rules.len(),
{
    if rules.len() > 0 {
        assert(!transform_applies(rules[0].flags, is_symlink, is_hardlink));
        assert forall|i: int| 0 <= i < rules.drop_first().len() implies !transform_applies(
            #[trigger] rules.drop_first()[i].flags,
            is_symlink,
            is_hardlink,
        ) by {
            assert(rules.drop_first()[i] == rules[i + 1]);
        }
        inapplicable_transforms_keep_name(rules.drop_first(), name, is_symlink, is_hardlink);
    }
}

/// The rules as values.
pub open spec fn transforms_view(rules: Seq<TransformRule>) -> Seq<TransformModel> {
    Seq::new(rules.len(), |i: int| rules[i]@)
}

/// The flags after one flag letter.
fn set_transform_flag_exec(f: TransformFlags, c: char) -> (r: Result<TransformFlags, char>)
    ensures
        r == set_transform_flag(f, c),
{
    if c == 'g' {
        Ok(TransformFlags { global: true, ..f })
    } else if c == 'i' {
        Ok(TransformFlags { case_insensitive: true, ..f })
    } else if c == 'x' {
        Ok(TransformFlags { extended: true, ..f })
    } else if c == 's' || c == 'S' {
        Ok(TransformFlags { apply_to_symlinks: c == 's', ..f })
    } else if c == 'h' || c == 'H' {
        Ok(TransformFlags { apply_to_hardlinks: c == 'h', ..f })
    } else if c == 'r' || c == 'R' {
        Ok(TransformFlags { apply_to_regular_files: c == 'r', ..f })
    } else if '0' <= c && c <= '9' {
        let d: usize = ((c as u32) - ('0' as u32)) as usize;
        Ok(TransformFlags { match_number: Some(d), ..f })
    } else {
        Err(c)
    }
}

/// The flag letters read from left to right.
fn read_transform_flags_exec(letters: &[char]) -> (r: Result<TransformFlags, char>)
    ensures
        r == read_transform_flags(default_transform_flags(), letters@),
{
    let mut f = TransformFlags {
        global: false,
        case_insensitive: false,
        extended: false,
        match_number: None,
        apply_to_hardlinks: true,
        apply_to_symlinks: true,
        apply_to_regular_files: true,
    };
    let mut i: usize = 0;
    assert(letters@.skip(0) =~= letters@);
    while i < letters.len()
        invariant
            i <= letters.len(),
            read_transform_flags(f, letters@.skip(i as int)) == read_transform_flags(
                default_transform_flags(),
                letters@,
            ),
        decreases letters.len() - i,
    {
        assert(letters@.skip(i as int)[0] == letters@[i as int]);
        assert(letters@.skip(i as int).drop_first() =~= letters@.skip(i + 1));
        match set_transform_flag_exec(f, letters[i]) {
            Err(c) => return Err(c),
            Ok(g) => f = g,
        }
        i = i + 1;
    }
    Ok(f)
}

/// `text` with match number `n` of `ms` replaced by `rep`.
fn replace_nth(text: &[char], ms: &Vec<(String, String)>, n: usize, rep: &[char]) -> (r: Vec<char>)
    requires
        matches_in_order(text@, pairs_view(ms@)),
    ensures
        r@ == nth_replaced(text@, pairs_view(ms@), n as nat, rep@),
{
    let ghost mv = pairs_view(ms@);
    let mut out: Vec<char> = Vec::new();
    let mut last: usize = 0;
    let mut k: usize = 0;
    while k < ms.len()
        invariant
            k <= ms.len(),
            last <= text.len(),
            mv == pairs_view(ms@),
            matches_in_order(text@, mv),
            k > 0 ==> last == match_end(mv, k - 1),
            k == 0 ==> last == 0,
            out@ + rebuilt(text@, mv, n as nat, rep@, k as nat, last as int) == rebuilt(
                text@,
                mv,
                n as nat,
                rep@,
                0,
                0,
            ),
        decreases ms.len() - k,
    {
        let ghost before = out@;
        let pre = chars_of(ms[k].0.as_str());
        let m = chars_of(ms[k].1.as_str());
        assert(pre@ == mv[k as int].0 && m@ == mv[k as int].1);
        assert(match_end(mv, k as int) <= text@.len());
        if k > 0 {
            assert(match_end(mv, k - 1) <= mv[k as int].0.len());
        }
        let start = pre.len();
        let gap = chars_between(text, last, start);
        push_all(&mut out, gap.as_slice());
        if k + 1 == n {
            push_all(&mut out, rep);
        } else {
            push_all(&mut out, m.as_slice());
        }
        let ghost chosen = if k + 1 == n { rep@ } else { mv[k as int].1 };
        last = start + m.len();
        k = k + 1;
        assert(before + (gap@ + chosen + rebuilt(text@, mv, n as nat, rep@, k as nat, last as int)) =~= (before
            + gap@ + chosen) + rebuilt(text@, mv, n as nat, rep@, k as nat, last as int));
    }
    let tail = chars_between(text, last, text.len());
    push_all(&mut out, tail.as_slice());
    out
}

impl TransformRule {
    /// Reads a rule argument, `parse_transform` says how.
    pub fn new(expression: &str) -> (r: Result<TransformRule, TransformRuleError>)
        ensures
            match r {
                Ok(v) => parse_transform(expression@) == Ok::<TransformModel, TransformRuleErrorModel>(v@),
                Err(e) => parse_transform(expression@) == Err::<TransformModel, TransformRuleErrorModel>(e@),
            },
    {
        let cs = chars_of(expression);
        if cs.len() == 0 || cs[0] != 's' {
            return Err(TransformRuleError::StartsWithMustBeS);
        }
        if cs.len() == 1 {
            return Err(TransformRuleError::InvalidFormat);
        }
        let delimiter = cs[1];
        let rest = chars_between(cs.as_slice(), 2, cs.len());
        assert(rest@ =~= cs@.skip(2));
        let parts = split_chars(rest.as_slice(), delimiter);
        if parts.len() < 3 {
            return Err(TransformRuleError::InvalidFormat);
        }
        assert(parts.deep_view()[0] == parts@[0]@);
        assert(parts.deep_view()[1] == parts@[1]@);
        assert(parts.deep_view()[2] == parts@[2]@);
        let flags = match read_transform_flags_exec(parts[2].as_slice()) {
            Err(c) => return Err(TransformRuleError::InvalidFlag(c)),
            Ok(f) => f,
        };
        let pattern = string_from_chars(parts[0].as_slice());
        match build_regex(pattern.as_str(), flags.case_insensitive) {
            Err(e) => Err(TransformRuleError::InvalidPattern(e)),
            Ok(()) => Ok(TransformRule { pattern, replacement: string_from_chars(parts[1].as_slice()), flags }),
        }
    }

    /// Reads a rule argument; the same as `new`.
    pub fn from_str(s: &str) -> (r: Result<TransformRule, TransformRuleError>)
        ensures
            match r {
                Ok(v) => parse_transform(s@) == Ok::<TransformModel, TransformRuleErrorModel>(v@),
                Err(e) => parse_transform(s@) == Err::<TransformModel, TransformRuleErrorModel>(e@),
            },
    {
        TransformRule::new(s)
    }

    /// What the rule makes of a name, `transformed` says how.
    pub fn apply(&self, input: &str, is_symlink: bool, is_hardlink: bool) -> (r: Option<String>)
        ensures
            match r {
                Some(t) => transformed(self@, input@, is_symlink, is_hardlink) == Some(t@),
                None => transformed(self@, input@, is_symlink, is_hardlink) is None,
            },
    {
        if is_symlink && !self.flags.apply_to_symlinks {
            return None;
        }
        if is_hardlink && !self.flags.apply_to_hardlinks {
            return None;
        }
        if !is_symlink && !is_hardlink && !self.flags.apply_to_regular_files {
            return None;
        }
        match self.flags.match_number {
            Some(n) => {
                let ms = regex_match_list(self.pattern.as_str(), self.flags.case_insensitive, input);
                let text = chars_of(input);
                let rep = chars_of(self.replacement.as_str());
                let out = replace_nth(text.as_slice(), &ms, n, rep.as_slice());
                Some(string_from_chars(out.as_slice()))
            },
            None => if self.flags.global {
                Some(replace_all(self.pattern.as_str(), self.flags.case_insensitive, input, self.replacement.as_str()))
            } else {
                Some(replace_first(self.pattern.as_str(), self.flags.case_insensitive, input, self.replacement.as_str()))
            },
        }
    }
}

/// A name after each rule in turn, `transforms_applied` says how.
pub fn apply_transforms(input: &str, expressions: &[TransformRule], is_symlink: bool, is_hardlink: bool) -> (r: String)
    ensures
        r@ == transforms_applied(transforms_view(expressions@), input@, is_symlink, is_hardlink),
{
    let ghost rv = transforms_view(expressions@);
    let mut output = String::from_str(input);
    let mut i: usize = 0;
    assert(rv.skip(0) =~= rv);
    while i < expressions.len()
        invariant
            i <= expressions.len(),
            rv == transforms_view(expressions@),
            transforms_applied(rv.skip(i as int), output@, is_symlink, is_hardlink) == transforms_applied(
                rv,
                input@,
                is_symlink,
                is_hardlink,
            ),
        decreases expressions.len() - i,
    {
        assert(rv.skip(i as int)[0] == expressions@[i as int]@);
        assert(rv.skip(i as int).drop_first() =~= rv.skip(i + 1));
        match expressions[i].apply(output.as_str(), is_symlink, is_hardlink) {
            Some(t) => output = t,
            None => {},
        }
        i = i + 1;
    }
    assert(rv.skip(i as int) =~= Seq::<TransformModel>::empty());
    output
}

/// The transformation rules of a command, applied in order.
#[derive(Debug)]
pub struct TransformRules(pub Vec<TransformRule>);

impl TransformRules {
    /// Rules to be applied in the given order.
    pub fn new(rules: Vec<TransformRule>) -> (r: TransformRules)
        ensures
            r.0@ == rules@,
    {
        TransformRules(rules)
    }

    /// A name after each rule in turn.
    pub fn apply(&self, input: &str, is_symlink: bool, is_hardlink: bool) -> (r: String)
        ensures
            r@ == transforms_applied(transforms_view(self.0@), input@, is_symlink, is_hardlink),
    {
        apply_transforms(input, self.0.as_slice(), is_symlink, is_hardlink)
    }
}

} // verus!
