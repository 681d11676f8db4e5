//! bsdtar's name substitutions, `-s /pattern/replacement/flags`: the rules
//! rewrite an entry name in turn, each on what the rules before it have not
//! consumed yet.
use vstd::prelude::*;
use crate::command::shared::re::{compile_regex, groups_view, lies_in, regex_captures, regex_compiles, regex_search};
use crate::command::shared::re::gnu::{kind_after, last_letter_of, lemma_last_letter_is_one_of};
use crate::text::{chars_between, chars_of, push_all, split_chars, split_on, string_from_chars};

verus! {

/// Why a substitution argument is refused.
#[derive(Debug)]
pub enum SubstitutionError {
    /// The argument is empty.
    Empty,
    /// Pattern, replacement or flags are missing.
    InvalidFormat,
    /// A flag that no rule knows.
    InvalidFlag(char),
    /// The pattern does not compile.
    InvalidPattern(regex::Error),
}

/// Why a substitution argument is refused, without the pattern's error.
pub ghost enum SubstitutionErrorModel {
    Empty,
    InvalidFormat,
    InvalidFlag(char),
    InvalidPattern,
}

impl View for SubstitutionError {
    type V = SubstitutionErrorModel;

    open spec fn view(&self) -> SubstitutionErrorModel {
        match self {
            SubstitutionError::Empty => SubstitutionErrorModel::Empty,
            SubstitutionError::InvalidFormat => SubstitutionErrorModel::InvalidFormat,
            SubstitutionError::InvalidFlag(c) => SubstitutionErrorModel::InvalidFlag(*c),
            SubstitutionError::InvalidPattern(_) => SubstitutionErrorModel::InvalidPattern,
        }
    }
}

/// The flags of a rule: `g` every match, `p` report the rewrite, `b` start
/// again from the rewritten name, and which kinds of names it rewrites.
#[derive(Clone, Copy, Debug, PartialEq, Eq)]
pub struct RuleFlags {
    pub global: bool,
    pub print: bool,
    pub apply_to_hardlinks: bool,
    pub apply_to_symlinks: bool,
    pub apply_to_regular_files: bool,
    pub from_begin: bool,
}

/// The flags before any flag letter is read.
pub open spec fn default_flags() -> RuleFlags {
    RuleFlags {
        global: false,
        print: false,
        apply_to_hardlinks: true,
        apply_to_symlinks: true,
        apply_to_regular_files: true,
        from_begin: false,
    }
}

/// The flags after one flag letter, or the letter where no rule knows it.
pub open spec fn set_flag(f: RuleFlags, c: char) -> Result<RuleFlags, char> {
    if c == 'g' || c == 'G' {
        Ok(RuleFlags { global: true, ..f })
    } else if c == 'p' || c == 'P' {
        Ok(RuleFlags { print: true, ..f })
    } else if c == 'b' || c == 'B' {
        Ok(RuleFlags { from_begin: true, ..f })
    } else if c == 's' || c == 'S' {
        Ok(RuleFlags { apply_to_symlinks: c == 's', ..f })
    } else if c == 'h' || c == 'H' {
        Ok(RuleFlags { apply_to_hardlinks: c == 'h', ..f })
    } else if c == 'r' || c == 'R' {
        Ok(RuleFlags { apply_to_regular_files: c == 'r', ..f })
    } else {
        Err(c)
    }
}

/// The flag letters read from left to right after `f`; the first unknown
/// letter where there is one.
pub open spec fn read_flags(f: RuleFlags, letters: Seq<char>) -> Result<RuleFlags, char>
    decreases letters.len(),
{
    if letters.len() == 0 {
        Ok(f)
    } else {
        match set_flag(f, letters[0]) {
            Err(c) => Err(c),
            Ok(g) => read_flags(g, letters.drop_first()),
        }
    }
}

/// A substitution rule: a pattern, what replaces a match, and the flags.
#[derive(Debug)]
pub struct SubstitutionRule {
    pub pattern: String,
    pub replacement: String,
    pub global: bool,
    pub print: bool,
    pub apply_to_hardlinks: bool,
    pub apply_to_symlinks: bool,
    pub apply_to_regular_files: bool,
    pub from_begin: bool,
}

/// A substitution rule as values.
pub ghost struct RuleModel {
    pub pattern: Seq<char>,
    pub replacement: Seq<char>,
    pub flags: RuleFlags,
}

impl View for SubstitutionRule {
    type V = RuleModel;

    open spec fn view(&self) -> RuleModel {
        RuleModel {
            pattern: self.pattern@,
            replacement: self.replacement@,
            flags: RuleFlags {
                global: self.global,
                print: self.print,
                apply_to_hardlinks: self.apply_to_hardlinks,
                apply_to_symlinks: self.apply_to_symlinks,
                apply_to_regular_files: self.apply_to_regular_files,
                from_begin: self.from_begin,
            },
        }
    }
}

/// What a rule argument reads as: its first character delimits pattern,
/// replacement and flags (what follows a third delimiter is not read); the
/// flags are read left to right and the pattern must compile.
pub open spec fn parse_rule(rule: Seq<char>) -> Result<RuleModel, SubstitutionErrorModel> {
    if rule.len() == 0 {
        Err(SubstitutionErrorModel::Empty)
    } else {
        let parts = split_on(rule.skip(1), rule[0]);
        if parts.len() < 3 {
            Err(SubstitutionErrorModel::InvalidFormat)
        } else {
            match read_flags(default_flags(), parts[2]) {
                Err(c) => Err(SubstitutionErrorModel::InvalidFlag(c)),
                Ok(f) => if regex_compiles(parts[0]) {
                    Ok(RuleModel { pattern: parts[0], replacement: parts[1], flags: f })
                } else {
                    Err(SubstitutionErrorModel::InvalidPattern)
                },
            }
        }
    }
}

/// Whether a rule rewrites a name of this kind: symbolic-link targets,
/// hard-link targets, or the names of other entries.
pub open spec fn rule_applies(f: RuleFlags, is_symlink: bool, is_hardlink: bool) -> bool {
    &&& !(is_symlink && !f.apply_to_symlinks)
    &&& !(is_hardlink && !f.apply_to_hardlinks)
    &&& !(!is_symlink && !is_hardlink && !f.apply_to_regular_files)
}

/// The text of group `i`, empty where the group took nothing.
pub open spec fn group_text(groups: Seq<Option<Seq<char>>>, i: int) -> Seq<char> {
    if 0 <= i < groups.len() && groups[i] is Some {
        groups[i]->0
    } else {
        seq![]
    }
}

/// What `\c` in a replacement stands for: `\~` and `\\` the character,
/// `\1` to `\9` a group, anything else itself with the backslash.
pub open spec fn escape_text(c: char, groups: Seq<Option<Seq<char>>>) -> Seq<char> {
    if c == '~' {
        seq!['~']
    } else if c == '\\' {
        seq!['\\']
    } else if '1' <= c && c <= '9' {
        group_text(groups, (c as int) - ('0' as int))
    } else {
        seq!['\\', c]
    }
}

/// The replacement for one match: `~` stands for the whole match, escapes
/// as `escape_text` says, a final lone backslash for itself.
pub open spec fn replacement_text(rep: Seq<char>, groups: Seq<Option<Seq<char>>>) -> Seq<char>
    decreases rep.len(),
{
    if rep.len() == 0 {
        seq![]
    } else if rep[0] == '\\' {
        if rep.len() == 1 {
            seq!['\\']
        } else {
            escape_text(rep[1], groups) + replacement_text(rep.skip(2), groups)
        }
    } else if rep[0] == '~' {
        group_text(groups, 0) + replacement_text(rep.skip(1), groups)
    } else {
        seq![rep[0]] + replacement_text(rep.skip(1), groups)
    }
}

/// Where the rewriting of a name stands: the text still read from
/// (`source` from `pos` on), what has been written, whether any rule
/// matched and whether a matching rule asked for a report.
pub ghost struct SubstState {
    pub source: Seq<char>,
    pub pos: nat,
    pub result: Seq<char>,
    pub got_match: bool,
    pub print_match: bool,
}

/// The first match of `pattern` in `text`.
pub open spec fn search(pattern: Seq<char>, text: Seq<char>) -> Option<(Seq<char>, Seq<Option<Seq<char>>>)> {
    match regex_search(pattern, text) {
        Some((pre, groups)) => if lies_in(text, pre, groups) {
            Some((pre, groups))
        } else {
            None
        },
        None => None,
    }
}

/// One rule's matches from the current position on: the text before each
/// match and its replacement are written and the position moves past the
/// match; after an empty match one character is copied over. Without the
/// `g` flag, or at the end of the text, there is one match at most.
pub open spec fn rule_matches(rule: RuleModel, st: SubstState) -> SubstState
    decreases st.source.len() - st.pos,
{
    if st.pos > st.source.len() {
        st
    } else {
        let remaining = st.source.skip(st.pos as int);
        match search(rule.pattern, remaining) {
            None => st,
            Some((pre, groups)) => {
                let end = pre.len() + groups[0]->0.len();
                let written = st.result + pre + replacement_text(rule.replacement, groups);
                let print_match = st.print_match || rule.flags.print;
                let next = if end > 0 {
                    SubstState { source: st.source, pos: st.pos + end, result: written, got_match: true, print_match }
                } else if remaining.len() > 0 {
                    SubstState {
                        source: st.source,
                        pos: st.pos + 1,
                        result: written.push(remaining[0]),
                        got_match: true,
                        print_match,
                    }
                } else {
                    SubstState { source: st.source, pos: st.pos, result: written, got_match: true, print_match }
                };
                if !rule.flags.global || remaining.len() == 0 {
                    next
                } else {
                    rule_matches(rule, next)
                }
            },
        }
    }
}

/// One rule in turn: skipped for a kind of name it does not rewrite; with
/// the `b` flag after an earlier match, it starts again on the name as
/// rewritten so far.
pub open spec fn rule_step(rule: RuleModel, is_symlink: bool, is_hardlink: bool, st: SubstState) -> SubstState {
    if !rule_applies(rule.flags, is_symlink, is_hardlink) {
        st
    } else if rule.flags.from_begin && st.got_match {
        rule_matches(
            rule,
            SubstState {
                source: st.result + st.source.skip(st.pos as int),
                pos: 0,
                result: seq![],
                got_match: st.got_match,
                print_match: st.print_match,
            },
        )
    } else {
        rule_matches(rule, st)
    }
}

/// The rules applied in order.
pub open spec fn rules_applied(rules: Seq<RuleModel>, is_symlink: bool, is_hardlink: bool, st: SubstState) -> SubstState
    decreases rules.len(),
{
    if rules.len() == 0 {
        st
    } else {
        rules_applied(rules.drop_first(), is_symlink, is_hardlink, rule_step(rules[0], is_symlink, is_hardlink, st))
    }
}

/// The state before any rule.
pub open spec fn start_state(name: Seq<char>) -> SubstState {
    SubstState { source: name, pos: 0, result: seq![], got_match: false, print_match: false }
}

/// A name rewritten by the rules, and whether the rewrite is to be
/// reported: where any rule matched, what was written and the rest of the
/// text; else the name unchanged.
pub open spec fn substituted(rules: Seq<RuleModel>, name: Seq<char>, is_symlink: bool, is_hardlink: bool) -> (Seq<char>, bool) {
    let st = rules_applied(rules, is_symlink, is_hardlink, start_state(name));
    if st.got_match {
        (st.result + st.source.skip(st.pos as int), st.print_match)
    } else {
        (st.source, false)
    }
}

/// A rule's matches never undo an earlier match, and where none is found
/// the state is unchanged.
pub proof fn lemma_rule_matches_got(rule: RuleModel, st: SubstState)
    ensures
        st.got_match ==> rule_matches(rule, st).got_match,
        !rule_matches(rule, st).got_match ==> rule_matches(rule, st) == st,
    decreases st.source.len() - st.pos,
{
    if st.pos <= st.source.len() {
        let remaining = st.source.skip(st.pos as int);
        match search(rule.pattern, remaining) {
            None => {},
            Some((pre, groups)) => {
                let end = pre.len() + groups[0]->0.len();
                let written = st.result + pre + replacement_text(rule.replacement, groups);
                let print_match = st.print_match || rule.flags.print;
                let next = if end > 0 {
                    SubstState { source: st.source, pos: st.pos + end, result: written, got_match: true, print_match }
                } else if remaining.len() > 0 {
                    SubstState {
                        source: st.source,
                        pos: st.pos + 1,
                        result: written.push(remaining[0]),
                        got_match: true,
                        print_match,
                    }
                } else {
                    SubstState { source: st.source, pos: st.pos, result: written, got_match: true, print_match }
                };
                if rule.flags.global && remaining.len() > 0 {
                    lemma_rule_matches_got(rule, next);
                }
            },
        }
    }
}

/// Rules in turn never undo an earlier match, and where none matches the
/// state is unchanged.
pub proof fn lemma_rules_applied_got(rules: Seq<RuleModel>, is_symlink: bool, is_hardlink: bool, st: SubstState)
    ensures
        st.got_match ==> rules_applied(rules, is_symlink, is_hardlink, st).got_match,
        !rules_applied(rules, is_symlink, is_hardlink, st).got_match ==> rules_applied(
            rules,
            is_symlink,
            is_hardlink,
            st,
        ) == st,
    decreases rules.len(),
{
    if rules.len() > 0 {
        let rule = rules[0];
        if rule_applies(rule.flags, is_symlink, is_hardlink) && !(rule.flags.from_begin && st.got_match) {
            lemma_rule_matches_got(rule, st);
        }
        if rule_applies(rule.flags, is_symlink, is_hardlink) && rule.flags.from_begin && st.got_match {
            lemma_rule_matches_got(
                rule,
                SubstState {
                    source: st.result + st.source.skip(st.pos as int),
                    pos: 0,
                    result: seq![],
                    got_match: st.got_match,
                    print_match: st.print_match,
                },
            );
        }
        lemma_rules_applied_got(rules.drop_first(), is_symlink, is_hardlink, rule_step(rule, is_symlink, is_hardlink, st));
    }
}

/// A name that no rule matches comes back unchanged, and is not reported.
pub proof fn unmatched_name_kept(rules: Seq<RuleModel>, name: Seq<char>, is_symlink: bool, is_hardlink: bool)
    requires
        !rules_applied(rules, is_symlink, is_hardlink, start_state(name)).got_match,
    ensures
        substituted(rules, name, is_symlink, is_hardlink) == (name, false),
{
    lemma_rules_applied_got(rules, is_symlink, is_hardlink, start_state(name));
}

/// Rules that do not rewrite this kind of name (symbolic-link target,
/// hard-link target or other entry) leave it unchanged.
pub proof fn inapplicable_rules_keep_name(rules: Seq<RuleModel>, name: Seq<char>, is_symlink: bool, is_hardlink: bool)
    requires
        forall|i: int| 0 <= i < rules.len() ==> !rule_applies(#[trigger] rules[i].flags, is_symlink, is_hardlink),
    ensures
        substituted(rules, name, is_symlink, is_hardlink) == (name, false),
{
    lemma_inapplicable_rules(rules, is_symlink, is_hardlink, start_state(name));
}

/// Rules that do not apply leave the state as it is.
proof fn lemma_inapplicable_rules(rules: Seq<RuleModel>, is_symlink: bool, is_hardlink: bool, st: SubstState)
    requires
        forall|i: int| 0 <= i < rules.len() ==> !rule_applies(#[trigger] rules[i].flags, is_symlink, is_hardlink),
    ensures
        rules_applied(rules, is_symlink, is_hardlink, st) == st,
    decreases rules.len(),
{
    if rules.len() > 0 {
        assert(!rule_applies(rules[0].flags, is_symlink, is_hardlink));
        assert forall|i: int| 0 <= i < rules.drop_first().len() implies !rule_applies(
            #[trigger] rules.drop_first()[i].flags,
            is_symlink,
            is_hardlink,
        ) by {
            assert(rules.drop_first()[i] == rules[i + 1]);
        }
        lemma_inapplicable_rules(rules.drop_first(), is_symlink, is_hardlink, st);
    }
}

/// Flag letters set what they name: `h`/`H` turn rewriting of hard-link
/// targets on/off, `s`/`S` that of symbolic-link targets, `r`/`R` that of
/// other names, the last such letter deciding; `g`/`G`, `p`/`P` and `b`/`B`
/// turn on replacing every match, reporting the rewrite and starting again
/// from the rewritten name.
pub proof fn flag_letters_set_kinds(f: RuleFlags, letters: Seq<char>)
    ensures
        read_flags(f, letters) is Ok ==> {
            let g = read_flags(f, letters)->Ok_0;
            &&& g.apply_to_hardlinks == kind_after(letters, 'h', 'H', f.apply_to_hardlinks)
            &&& g.apply_to_symlinks == kind_after(letters, 's', 'S', f.apply_to_symlinks)
            &&& g.apply_to_regular_files == kind_after(letters, 'r', 'R', f.apply_to_regular_files)
            &&& g.global == (f.global || letters.contains('g') || letters.contains('G'))
            &&& g.print == (f.print || letters.contains('p') || letters.contains('P'))
            &&& g.from_begin == (f.from_begin || letters.contains('b') || letters.contains('B'))
        },
    decreases letters.len(),
{
    if letters.len() > 0 {
        let c = letters[0];
        let rest = letters.drop_first();
        if let Ok(f2) = set_flag(f, c) {
            flag_letters_set_kinds(f2, rest);
            assert forall|x: char| letters.contains(x) <==> (c == x || rest.contains(x)) by {
                if letters.contains(x) {
                    let k = choose|k: int| 0 <= k < letters.len() && letters[k] == x;
                    if k > 0 {
                        assert(rest[k - 1] == x);
                    }
                }
                if rest.contains(x) {
                    let k = choose|k: int| 0 <= k < rest.len() && rest[k] == x;
                    assert(letters[k + 1] == x);
                }
            }
        }
    }
}

/// A parsed rule rewrites hard-link targets exactly unless the last of its
/// `h`/`H` flags is `H`; likewise `s`/`S` for symbolic-link targets and
/// `r`/`R` for other names. So a rule whose flags end in `H` for hard links
/// does not apply to a hard-link target.
pub proof fn rule_flags_choose_kinds(rule: Seq<char>)
    ensures
        parse_rule(rule) is Ok ==> {
            let r = parse_rule(rule)->Ok_0;
            let letters = split_on(rule.skip(1), rule[0])[2];
            &&& r.flags.apply_to_hardlinks == (last_letter_of(letters, 'h', 'H') != Some('H'))
            &&& r.flags.apply_to_symlinks == (last_letter_of(letters, 's', 'S') != Some('S'))
            &&& r.flags.apply_to_regular_files == (last_letter_of(letters, 'r', 'R') != Some('R'))
            &&& (last_letter_of(letters, 'h', 'H') == Some('H') ==> !rule_applies(r.flags, false, true))
            &&& (last_letter_of(letters, 's', 'S') == Some('S') ==> !rule_applies(r.flags, true, false))
            &&& (last_letter_of(letters, 'r', 'R') == Some('R') ==> !rule_applies(r.flags, false, false))
        },
{
    if parse_rule(rule) is Ok {
        let letters = split_on(rule.skip(1), rule[0])[2];
        flag_letters_set_kinds(default_flags(), letters);
        lemma_last_letter_is_one_of(letters, 'h', 'H');
        lemma_last_letter_is_one_of(letters, 's', 'S');
        lemma_last_letter_is_one_of(letters, 'r', 'R');
    }
}

/// The rules as values.
pub open spec fn rules_view(rules: Seq<SubstitutionRule>) -> Seq<RuleModel> {
    Seq::new(rules.len(), |i: int| rules[i]@)
}

/// The flags after one flag letter.
fn set_flag_exec(f: RuleFlags, c: char) -> (r: Result<RuleFlags, char>)
    ensures
        r == set_flag(f, c),
{
    if c == 'g' || c == 'G' {
        Ok(RuleFlags { global: true, ..f })
    } else if c == 'p' || c == 'P' {
        Ok(RuleFlags { print: true, ..f })
    } else if c == 'b' || c == 'B' {
        Ok(RuleFlags { from_begin: true, ..f })
    } else if c == 's' || c == 'S' {
        Ok(RuleFlags { apply_to_symlinks: c == 's', ..f })
    } else if c == 'h' || c == 'H' {
        Ok(RuleFlags { apply_to_hardlinks: c == 'h', ..f })
    } else if c == 'r' || c == 'R' {
        Ok(RuleFlags { apply_to_regular_files: c == 'r', ..f })
    } else {
        Err(c)
    }
}

/// The flag letters read from left to right.
fn read_flags_exec(letters: &[char]) -> (r: Result<RuleFlags, char>)
    ensures
        r == read_flags(default_flags(), letters@),
{
    let mut f = RuleFlags {
        global: false,
        print: false,
        apply_to_hardlinks: true,
        apply_to_symlinks: true,
        apply_to_regular_files: true,
        from_begin: false,
    };
    let mut i: usize = 0;
    assert(letters@.skip(0) =~= letters@);
    while i < letters.len()
        invariant
            i <= letters.len(),
            read_flags(f, letters@.skip(i as int)) == read_flags(default_flags(), letters@),
        decreases letters.len() - i,
    {
        assert(letters@.skip(i as int)[0] == letters@[i as int]);
        assert(letters@.skip(i as int).drop_first() =~= letters@.skip(i + 1));
        match set_flag_exec(f, letters[i]) {
            Err(c) => return Err(c),
            Ok(g) => f = g,
        }
        i = i + 1;
    }
    Ok(f)
}

impl SubstitutionRule {
    /// Reads a rule argument, `parse_rule` says how.
    pub fn parse(rule: &str) -> (r: Result<SubstitutionRule, SubstitutionError>)
        ensures
            match r {
                Ok(v) => parse_rule(rule@) == Ok::<RuleModel, SubstitutionErrorModel>(v@),
                Err(e) => parse_rule(rule@) == Err::<RuleModel, SubstitutionErrorModel>(e@),
            },
    {
        let cs = chars_of(rule);
        if cs.len() == 0 {
            return Err(SubstitutionError::Empty);
        }
        let delimiter = cs[0];
        let rest = chars_between(cs.as_slice(), 1, cs.len());
        assert(rest@ =~= cs@.skip(1));
        let parts = split_chars(rest.as_slice(), delimiter);
        if parts.len() < 3 {
            return Err(SubstitutionError::InvalidFormat);
        }
        assert(parts.deep_view()[0] == parts@[0]@);
        assert(parts.deep_view()[1] == parts@[1]@);
        assert(parts.deep_view()[2] == parts@[2]@);
        let f = match read_flags_exec(parts[2].as_slice()) {
            Err(c) => return Err(SubstitutionError::InvalidFlag(c)),
            Ok(f) => f,
        };
        let pattern = string_from_chars(parts[0].as_slice());
        match compile_regex(pattern.as_str()) {
            Err(e) => Err(SubstitutionError::InvalidPattern(e)),
            Ok(()) => Ok(SubstitutionRule {
                pattern,
                replacement: string_from_chars(parts[1].as_slice()),
                global: f.global,
                print: f.print,
                apply_to_hardlinks: f.apply_to_hardlinks,
                apply_to_symlinks: f.apply_to_symlinks,
                apply_to_regular_files: f.apply_to_regular_files,
                from_begin: f.from_begin,
            }),
        }
    }

    /// Reads a rule argument; the same as `parse`.
    pub fn from_str(s: &str) -> (r: Result<SubstitutionRule, SubstitutionError>)
        ensures
            match r {
                Ok(v) => parse_rule(s@) == Ok::<RuleModel, SubstitutionErrorModel>(v@),
                Err(e) => parse_rule(s@) == Err::<RuleModel, SubstitutionErrorModel>(e@),
            },
    {
        SubstitutionRule::parse(s)
    }

    /// Whether the rule rewrites a name of this kind.
    pub fn applies_to(&self, is_symlink: bool, is_hardlink: bool) -> (r: bool)
        ensures
            r == rule_applies(self@.flags, is_symlink, is_hardlink),
    {
        if is_symlink && !self.apply_to_symlinks {
            return false;
        }
        if is_hardlink && !self.apply_to_hardlinks {
            return false;
        }
        if !is_symlink && !is_hardlink && !self.apply_to_regular_files {
            return false;
        }
        true
    }
}

/// The characters of group `i`, none where the group took nothing.
fn group_chars(groups: &Vec<Option<String>>, i: usize) -> (r: Vec<char>)
    ensures
        r@ == group_text(groups_view(groups@), i as int),
{
    if i < groups.len() {
        match &groups[i] {
            Some(t) => chars_of(t.as_str()),
            None => Vec::new(),
        }
    } else {
        Vec::new()
    }
}

impl SubstitutionRule {
    /// Writes the replacement for one match.
    fn append_replacement(&self, groups: &Vec<Option<String>>, result: &mut Vec<char>)
        ensures
            final(result)@ == old(result)@ + replacement_text(self.replacement@, groups_view(groups@)),
    {
        let ghost gv = groups_view(groups@);
        let rep = chars_of(self.replacement.as_str());
        let ghost start = result@;
        let mut i: usize = 0;
        assert(rep@.skip(0) =~= rep@);
        while i < rep.len()
            invariant
                i <= rep.len(),
                rep@ == self.replacement@,
                gv == groups_view(groups@),
                result@ + replacement_text(rep@.skip(i as int), gv) == start + replacement_text(rep@, gv),
            decreases rep.len() - i,
        {
            let ghost before = result@;
            let ghost tail = rep@.skip(i as int);
            assert(tail[0] == rep@[i as int]);
            let ch = rep[i];
            if ch == '\\' {
                if i + 1 == rep.len() {
                    result.push('\\');
                    i = i + 1;
                    assert(tail.len() == 1);
                    assert(rep@.skip(i as int) =~= Seq::<char>::empty());
                    assert(result@ + replacement_text(rep@.skip(i as int), gv) =~= before + seq!['\\']);
                } else {
                    let c = rep[i + 1];
                    assert(tail[1] == c);
                    assert(tail.skip(2) =~= rep@.skip(i + 2));
                    if c == '~' {
                        result.push('~');
                        assert(result@ =~= before + escape_text(c, gv));
                    } else if c == '\\' {
                        result.push('\\');
                        assert(result@ =~= before + escape_text(c, gv));
                    } else if '1' <= c && c <= '9' {
                        let k: usize = ((c as u32) - ('0' as u32)) as usize;
                        let g = group_chars(groups, k);
                        push_all(result, g.as_slice());
                    } else {
                        result.push('\\');
                        result.push(c);
                        assert(result@ =~= before + escape_text(c, gv));
                    }
                    i = i + 2;
                    assert(before + (escape_text(c, gv) + replacement_text(tail.skip(2), gv)) =~= (before
                        + escape_text(c, gv)) + replacement_text(tail.skip(2), gv));
                }
            } else if ch == '~' {
                let g = group_chars(groups, 0);
                push_all(result, g.as_slice());
                i = i + 1;
                assert(tail.skip(1) =~= rep@.skip(i as int));
                assert(before + (group_text(gv, 0) + replacement_text(tail.skip(1), gv)) =~= (before
                    + group_text(gv, 0)) + replacement_text(tail.skip(1), gv));
            } else {
                result.push(ch);
                i = i + 1;
                assert(tail.skip(1) =~= rep@.skip(i as int));
                assert(before + (seq![ch] + replacement_text(tail.skip(1), gv)) =~= before.push(ch)
                    + replacement_text(tail.skip(1), gv));
            }
        }
        assert(rep@.skip(i as int) =~= Seq::<char>::empty());
        assert(result@ =~= start + replacement_text(rep@, gv));
    }

    /// The rule's matches from `pos` on, `rule_matches` says how; returns
    /// the new position, what has been written, and the two flags.
    fn match_all(
        &self,
        source: &Vec<char>,
        pos: usize,
        result: Vec<char>,
        got_match: bool,
        print_match: bool,
    ) -> (r: (usize, Vec<char>, bool, bool))
        requires
            pos <= source.len(),
        ensures
            r.0 <= source.len(),
            !r.2 ==> r.0 == pos && r.1@ == result@ && r.3 == print_match,
            got_match ==> r.2,
            (SubstState { source: source@, pos: r.0 as nat, result: r.1@, got_match: r.2, print_match: r.3 })
                == rule_matches(
                self@,
                SubstState { source: source@, pos: pos as nat, result: result@, got_match, print_match },
            ),
    {
        let ghost target = rule_matches(
            self@,
            SubstState { source: source@, pos: pos as nat, result: result@, got_match, print_match },
        );
        let ghost pos0 = pos;
        let ghost result0 = result@;
        let ghost print0 = print_match;
        let ghost got0 = got_match;
        let mut pos = pos;
        let mut result = result;
        let mut got_match = got_match;
        let mut print_match = print_match;
        loop
            invariant_except_break
                rule_matches(
                    self@,
                    SubstState { source: source@, pos: pos as nat, result: result@, got_match, print_match },
                ) == target,
            invariant
                pos <= source.len(),
                !got_match ==> pos == pos0 && result@ == result0 && print_match == print0,
                got0 ==> got_match,
            ensures
                pos <= source.len(),
                !got_match ==> pos == pos0 && result@ == result0 && print_match == print0,
                got0 ==> got_match,
                (SubstState { source: source@, pos: pos as nat, result: result@, got_match, print_match })
                    == target,
            decreases source.len() - pos,
        {
            let remaining = chars_between(source.as_slice(), pos, source.len());
            assert(remaining@ =~= source@.skip(pos as int));
            let text = string_from_chars(remaining.as_slice());
            match regex_captures(self.pattern.as_str(), text.as_str()) {
                None => {
                    break;
                },
                Some((pre, groups)) => {
                    let ghost gv = groups_view(groups@);
                    let pre_chars = chars_of(pre.as_str());
                    let whole = group_chars(&groups, 0);
                    assert(whole@ == gv[0]->0);
                    let is_end = remaining.len() == 0;
                    got_match = true;
                    print_match = print_match || self.print;
                    push_all(&mut result, pre_chars.as_slice());
                    self.append_replacement(&groups, &mut result);
                    let end = pre_chars.len() + whole.len();
                    if end > 0 {
                        pos = pos + end;
                    } else if !is_end {
                        result.push(remaining[0]);
                        pos = pos + 1;
                    }
                    if !self.global || is_end {
                        break;
                    }
                },
            }
        }
        (pos, result, got_match, print_match)
    }
}

/// Applies the rules to a name in bsdtar's way, `substituted` says how:
/// each rule reads on from where the rules before it stopped, so a part of
/// the name is rewritten once at most; a rule with the `b` flag starts again
/// on the name as rewritten so far. Returns the name and whether a matching
/// rule asked for the rewrite to be reported.
pub fn apply_substitutions(
    name: &str,
    substitutions: &[SubstitutionRule],
    is_symlink: bool,
    is_hardlink: bool,
) -> (r: (String, bool))
    ensures
        (r.0@, r.1) == substituted(rules_view(substitutions@), name@, is_symlink, is_hardlink),
{
    let ghost rv = rules_view(substitutions@);
    let mut source: Vec<char> = chars_of(name);
    let mut pos: usize = 0;
    let mut result: Vec<char> = Vec::new();
    let mut got_match = false;
    let mut print_match = false;
    let mut i: usize = 0;
    assert(rv.skip(0) =~= rv);
    while i < substitutions.len()
        invariant
            i <= substitutions.len(),
            rv == rules_view(substitutions@),
            pos <= source.len(),
            rules_applied(
                rv.skip(i as int),
                is_symlink,
                is_hardlink,
                SubstState { source: source@, pos: pos as nat, result: result@, got_match, print_match },
            ) == rules_applied(rv, is_symlink, is_hardlink, start_state(name@)),
            !got_match ==> source@ == name@ && pos == 0 && !print_match,
        decreases substitutions.len() - i,
    {
        let rule = &substitutions[i];
        assert(rv.skip(i as int)[0] == rule@);
        assert(rv.skip(i as int).drop_first() =~= rv.skip(i + 1));
        if rule.applies_to(is_symlink, is_hardlink) {
            if rule.from_begin && got_match {
                let rest = chars_between(source.as_slice(), pos, source.len());
                assert(rest@ =~= source@.skip(pos as int));
                push_all(&mut result, rest.as_slice());
                source = result;
                result = Vec::new();
                pos = 0;
            }
            let (p, r, g, pm) = rule.match_all(&source, pos, result, got_match, print_match);
            pos = p;
            result = r;
            got_match = g;
            print_match = pm;
        }
        i = i + 1;
    }
    assert(rv.skip(i as int) =~= Seq::<RuleModel>::empty());
    if got_match {
        let rest = chars_between(source.as_slice(), pos, source.len());
        assert(rest@ =~= source@.skip(pos as int));
        push_all(&mut result, rest.as_slice());
        (string_from_chars(result.as_slice()), print_match)
    } else {
        (string_from_chars(source.as_slice()), false)
    }
}

/// The substitution rules of a command, applied in order.
#[derive(Debug)]
pub struct SubstitutionRules(pub Vec<SubstitutionRule>);

impl SubstitutionRules {
    /// Rules to be applied in the given order.
    pub fn new(rules: Vec<SubstitutionRule>) -> (r: SubstitutionRules)
        ensures
            r.0@ == rules@,
    {
        SubstitutionRules(rules)
    }

    /// A name rewritten by the rules, and whether to report the rewrite.
    pub fn apply_and_report(&self, name: &str, is_symlink: bool, is_hardlink: bool) -> (r: (String, bool))
        ensures
            (r.0@, r.1) == substituted(rules_view(self.0@), name@, is_symlink, is_hardlink),
    {
        apply_substitutions(name, self.0.as_slice(), is_symlink, is_hardlink)
    }

    /// A name rewritten by the rules.
    pub fn apply(&self, name: &str, is_symlink: bool, is_hardlink: bool) -> (r: String)
        ensures
            r@ == substituted(rules_view(self.0@), name@, is_symlink, is_hardlink).0,
    {
        apply_substitutions(name, self.0.as_slice(), is_symlink, is_hardlink).0
    }
}

} // verus!
