//! Regular expressions by the `regex` crate, as the name-rewriting rules
//! use them: whether a pattern compiles, and the first match of a pattern
//! in a text with its groups.
use vstd::prelude::*;

pub mod bsd;
pub mod gnu;

verus! {

/// The error of a pattern that does not compile.
#[verifier::external_type_specification]
#[verifier::external_body]
pub struct ExRegexError(regex::Error);

/// Whether `regex::Regex::new` accepts `pattern`.
pub uninterp spec fn regex_compiles(pattern: Seq<char>) -> bool;

/// `regex::Regex::new`: compiles `pattern`, the compiled value dropped.
/// Whether it compiles is named.
#[verifier::external_body]
pub(crate) fn compile_regex(pattern: &str) -> (r: Result<(), regex::Error>)
    ensures
        r is Ok <==> regex_compiles(pattern@),
{
    regex::Regex::new(pattern).map(|_| ())
}

/// The first match of `pattern` in `text` by `regex::Regex::captures`: the
/// text before the match, and the groups, the whole match first, each
/// absent or the text it took. `None` where there is no match or the
/// pattern does not compile.
pub uninterp spec fn regex_search(pattern: Seq<char>, text: Seq<char>) -> Option<(Seq<char>, Seq<Option<Seq<char>>>)>;

/// Groups as optional character sequences.
pub open spec fn groups_view(v: Seq<Option<String>>) -> Seq<Option<Seq<char>>> {
    Seq::new(
        v.len(),
        |i: int| match v[i] {
            Some(t) => Some(t@),
            None => None,
        },
    )
}

/// Whether `pre` and `groups` describe a match in `text`: the whole match
/// is there, and `text` begins with `pre` followed by it.
pub open spec fn lies_in(text: Seq<char>, pre: Seq<char>, groups: Seq<Option<Seq<char>>>) -> bool {
    &&& groups.len() > 0
    &&& groups[0] is Some
    &&& pre.len() + groups[0]->0.len() <= text.len()
    &&& text.take((pre.len() + groups[0]->0.len()) as int) == pre + groups[0]->0
}

/// `regex::Regex::new` with `pattern`, then `captures` on `text`: the text
/// before the match and every group, the whole match first. The result is
/// named; the match lies in `text`, as a match of `captures` is a span of
/// the text searched.
#[verifier::external_body]
pub(crate) fn regex_captures(pattern: &str, text: &str) -> (r: Option<(String, Vec<Option<String>>)>)
    ensures
        match r {
            None => regex_search(pattern@, text@) is None,
            Some((pre, g)) => regex_search(pattern@, text@) == Some((pre@, groups_view(g@)))
                && lies_in(text@, pre@, groups_view(g@)),
        },
{
    match regex::Regex::new(pattern) {
        Ok(re) => re.captures(text).map(|c| {
            let start = c.get(0).map_or(0, |m| m.start());
            (text[..start].to_string(), c.iter().map(|m| m.map(|m| m.as_str().to_string())).collect())
        }),
        Err(_) => None,
    }
}

/// Whether `regex::RegexBuilder` builds `pattern`, with the case ignored
/// or not.
pub uninterp spec fn regex_builds(pattern: Seq<char>, case_insensitive: bool) -> bool;

/// `regex::RegexBuilder::new(pattern).case_insensitive(..).build()`, the
/// compiled value dropped. Whether it builds is named.
#[verifier::external_body]
pub(crate) fn build_regex(pattern: &str, case_insensitive: bool) -> (r: Result<(), regex::Error>)
    ensures
        r is Ok <==> regex_builds(pattern@, case_insensitive),
{
    regex::RegexBuilder::new(pattern).case_insensitive(case_insensitive).build().map(|_| ())
}

/// `regex::Regex::replace`: `text` with the first match of `pattern` (the
/// case ignored or not) replaced by `replacement`, where `$name` and
/// `${name}` stand for groups; `text` itself where the pattern does not
/// build.
pub uninterp spec fn regex_replace_first(
    pattern: Seq<char>,
    case_insensitive: bool,
    text: Seq<char>,
    replacement: Seq<char>,
) -> Seq<char>;

/// `regex::Regex::replace` after building the pattern; the result is named.
#[verifier::external_body]
pub(crate) fn replace_first(pattern: &str, case_insensitive: bool, text: &str, replacement: &str) -> (r: String)
    ensures
        r@ == regex_replace_first(pattern@, case_insensitive, text@, replacement@),
{
    match regex::RegexBuilder::new(pattern).case_insensitive(case_insensitive).build() {
        Ok(re) => re.replace(text, replacement).into_owned(),
        Err(_) => text.to_string(),
    }
}

/// `regex::Regex::replace_all`: `text` with every match of `pattern` (the
/// case ignored or not) replaced as `regex_replace_first` says; `text`
/// itself where the pattern does not build.
pub uninterp spec fn regex_replace_all(
    pattern: Seq<char>,
    case_insensitive: bool,
    text: Seq<char>,
    replacement: Seq<char>,
) -> Seq<char>;

/// `regex::Regex::replace_all` after building the pattern; the result is
/// named.
#[verifier::external_body]
pub(crate) fn replace_all(pattern: &str, case_insensitive: bool, text: &str, replacement: &str) -> (r: String)
    ensures
        r@ == regex_replace_all(pattern@, case_insensitive, text@, replacement@),
{
    match regex::RegexBuilder::new(pattern).case_insensitive(case_insensitive).build() {
        Ok(re) => re.replace_all(text, replacement).into_owned(),
        Err(_) => text.to_string(),
    }
}

/// The successive matches of `pattern` (the case ignored or not) in
/// `text` by `regex::Regex::find_iter`, each as the text before it and the
/// text it took; none where the pattern does not build.
pub uninterp spec fn regex_matches(pattern: Seq<char>, case_insensitive: bool, text: Seq<char>) -> Seq<(Seq<char>, Seq<char>)>;

/// Pairs of strings as pairs of character sequences.
pub open spec fn pairs_view(v: Seq<(String, String)>) -> Seq<(Seq<char>, Seq<char>)> {
    Seq::new(v.len(), |i: int| (v[i].0@, v[i].1@))
}

/// Where match `k` ends, counted from the start of the text.
pub open spec fn match_end(ms: Seq<(Seq<char>, Seq<char>)>, k: int) -> int {
    (ms[k].0.len() + ms[k].1.len()) as int
}

/// Whether `ms` are matches in `text` from left to right: each follows the
/// text before it, and none begins before the one ahead of it has ended.
pub open spec fn matches_in_order(text: Seq<char>, ms: Seq<(Seq<char>, Seq<char>)>) -> bool {
    &&& forall|k: int|
        0 <= k < ms.len() ==> match_end(ms, k) <= text.len() && text.take(match_end(ms, k)) == (
        #[trigger] ms[k]).0 + ms[k].1
    &&& forall|k: int| 0 < k < ms.len() ==> match_end(ms, k - 1) <= (#[trigger] ms[k]).0.len()
}

/// `regex::Regex::find_iter` after building the pattern, each match taken
/// as the text before it and the text it took. The result is named; the
/// matches lie in `text` from left to right without overlapping, as
/// `find_iter` yields them.
#[verifier::external_body]
pub(crate) fn regex_match_list(pattern: &str, case_insensitive: bool, text: &str) -> (r: Vec<(String, String)>)
    ensures
        pairs_view(r@) == regex_matches(pattern@, case_insensitive, text@),
        matches_in_order(text@, pairs_view(r@)),
{
    match regex::RegexBuilder::new(pattern).case_insensitive(case_insensitive).build() {
        Ok(re) => re.find_iter(text).map(|m| (text[..m.start()].to_string(), m.as_str().to_string())).collect(),
        Err(_) => Vec::new(),
    }
}

} // verus!
