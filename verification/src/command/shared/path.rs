//! Entry paths: bsdtar-style stripping of absolute prefixes, detection of
//! parent-directory components, and the Unix component view of a path.
use vstd::prelude::*;
use std::borrow::Cow;
use crate::text::{chars_of, join_chars, push_piece, split_chars, split_on, join_with, string_from_chars};

verus! {

/// Whether `c` separates path components on Windows or Unix.
pub open spec fn is_sep(c: char) -> bool {
    c == '/' || c == '\\'
}

/// Whether `c` is an ASCII letter.
pub open spec fn is_ascii_letter(c: char) -> bool {
    ('a' <= c && c <= 'z') || ('A' <= c && c <= 'Z')
}

/// A Windows API prefix: two separators, `.` or `?`, and a separator.
pub open spec fn api_prefix(s: Seq<char>) -> bool {
    &&& s.len() >= 4
    &&& is_sep(s[0])
    &&& is_sep(s[1])
    &&& (s[2] == '.' || s[2] == '?')
    &&& is_sep(s[3])
}

/// A Windows UNC API prefix: `\\?\UNC\` with either separator and any case.
pub open spec fn unc_prefix(s: Seq<char>) -> bool {
    &&& s.len() >= 8
    &&& api_prefix(s)
    &&& s[2] == '?'
    &&& (s[4] == 'U' || s[4] == 'u')
    &&& (s[5] == 'N' || s[5] == 'n')
    &&& (s[6] == 'C' || s[6] == 'c')
    &&& is_sep(s[7])
}

/// A drive letter and a colon.
pub open spec fn drive_prefix(s: Seq<char>) -> bool {
    s.len() >= 2 && is_ascii_letter(s[0]) && s[1] == ':'
}

/// How many characters one leading separator takes with it: a following
/// `..` and separator, or a following `.` and separator, go too.
pub open spec fn separator_step(s: Seq<char>) -> nat {
    if s.len() >= 4 && s[1] == '.' && s[2] == '.' && is_sep(s[3]) {
        3
    } else if s.len() >= 3 && s[1] == '.' && is_sep(s[2]) {
        2
    } else {
        1
    }
}

/// Whether `s` begins with a drive letter or a separator.
pub open spec fn begins_with_root(s: Seq<char>) -> bool {
    drive_prefix(s) || (s.len() > 0 && is_sep(s[0]))
}

/// Removes drive letters and leading separators, one at a time, until the
/// path begins with neither.
pub open spec fn strip_roots(s: Seq<char>) -> Seq<char>
    decreases s.len(),
{
    if drive_prefix(s) {
        strip_roots(s.skip(2))
    } else if s.len() > 0 && is_sep(s[0]) {
        strip_roots(s.skip(separator_step(s) as int))
    } else {
        s
    }
}

/// The path after its Windows API prefix, where it has one.
pub open spec fn after_api_prefix(s: Seq<char>) -> Seq<char> {
    if unc_prefix(s) {
        s.skip(8)
    } else if api_prefix(s) {
        s.skip(4)
    } else {
        s
    }
}

/// The path with every absolute prefix stripped, as bsdtar strips it.
pub open spec fn stripped_path(s: Seq<char>) -> Seq<char> {
    strip_roots(after_api_prefix(s))
}

/// Whether stripping consumed any prefix or root separator.
pub open spec fn strip_had_root(s: Seq<char>) -> bool {
    api_prefix(s) || begins_with_root(after_api_prefix(s))
}

/// Whether `c` is a path separator.
pub fn is_path_separator(c: char) -> (r: bool)
    ensures
        r == is_sep(c),
{
    c == '/' || c == '\\'
}

/// Whether the path begins with a Windows API prefix (`\\?\` or `\\.\`,
/// either separator).
pub fn matches_windows_api_prefix(path: &[char]) -> (r: bool)
    ensures
        r == api_prefix(path@),
{
    path.len() >= 4 && is_path_separator(path[0]) && is_path_separator(path[1]) && (path[2] == '.'
        || path[2] == '?') && is_path_separator(path[3])
}

/// Whether the path begins with a UNC API prefix (`\\?\UNC\`).
pub fn matches_unc_api_prefix(path: &[char]) -> (r: bool)
    ensures
        r == unc_prefix(path@),
{
    path.len() >= 8 && matches_windows_api_prefix(path) && path[2] == '?' && (path[4] == 'U'
        || path[4] == 'u') && (path[5] == 'N' || path[5] == 'n') && (path[6] == 'C' || path[6]
        == 'c') && is_path_separator(path[7])
}

/// Whether the path begins with a drive letter and a colon.
pub fn is_drive_letter_prefix(path: &[char]) -> (r: bool)
    ensures
        r == drive_prefix(path@),
{
    path.len() >= 2 && (('a' <= path[0] && path[0] <= 'z') || ('A' <= path[0] && path[0] <= 'Z'))
        && path[1] == ':'
}

/// Strips Windows API prefixes, UNC prefixes, drive letters and leading
/// separators (with `/../` and `/./` runs that follow a separator), as
/// bsdtar does; tells whether anything was stripped. The rest may still
/// hold `..` components.
pub fn strip_absolute_path_bsdtar(path: &str) -> (r: (String, bool))
    ensures
        r.0@ == stripped_path(path@),
        r.1 == strip_had_root(path@),
{
    let cs = chars_of(path);
    let mut rest: &[char] = cs.as_slice();
    let mut had_root = false;
    if matches_windows_api_prefix(rest) {
        if matches_unc_api_prefix(rest) {
            rest = vstd::slice::slice_subrange(rest, 8, rest.len());
        } else {
            rest = vstd::slice::slice_subrange(rest, 4, rest.len());
        }
        had_root = true;
    }
    assert(rest@ =~= after_api_prefix(path@));
    let ghost start = rest@;
    let mut advanced = false;
    loop
        invariant
            strip_roots(rest@) == strip_roots(start),
            had_root == (api_prefix(path@) || advanced),
            advanced ==> begins_with_root(start),
            !advanced ==> rest@ == start,
            start == after_api_prefix(path@),
        ensures
            rest@ == strip_roots(start),
            had_root == strip_had_root(path@),
        decreases rest@.len(),
    {
        if is_drive_letter_prefix(rest) {
            rest = vstd::slice::slice_subrange(rest, 2, rest.len());
        } else if rest.len() > 0 && is_path_separator(rest[0]) {
            let step: usize = if rest.len() >= 4 && rest[1] == '.' && rest[2] == '.'
                && is_path_separator(rest[3]) {
                3
            } else if rest.len() >= 3 && rest[1] == '.' && is_path_separator(rest[2]) {
                2
            } else {
                1
            };
            assert(step == separator_step(rest@));
            rest = vstd::slice::slice_subrange(rest, step, rest.len());
        } else {
            break;
        }
        had_root = true;
        advanced = true;
    }
    (string_from_chars(rest), had_root)
}

/// One component of a path as Unix reads it.
#[derive(Clone, Debug, PartialEq, Eq)]
pub enum PathComponent {
    RootDir,
    CurDir,
    ParentDir,
    Normal(String),
}

/// The value of a path component.
pub ghost enum ComponentModel {
    RootDir,
    CurDir,
    ParentDir,
    Normal(Seq<char>),
}

impl View for PathComponent {
    type V = ComponentModel;

    open spec fn view(&self) -> ComponentModel {
        match self {
            PathComponent::RootDir => ComponentModel::RootDir,
            PathComponent::CurDir => ComponentModel::CurDir,
            PathComponent::ParentDir => ComponentModel::ParentDir,
            PathComponent::Normal(s) => ComponentModel::Normal(s@),
        }
    }
}

/// The views of a list of components.
pub open spec fn components_view(v: Seq<PathComponent>) -> Seq<ComponentModel> {
    Seq::new(v.len(), |i: int| v[i]@)
}

/// The text of `.`.
pub open spec fn dot() -> Seq<char> {
    seq!['.']
}

/// The text of `..`.
pub open spec fn dot_dot() -> Seq<char> {
    seq!['.', '.']
}

/// The components that the pieces between separators stand for: empty
/// pieces and `.` vanish, `..` is the parent directory.
pub open spec fn piece_components(pieces: Seq<Seq<char>>) -> Seq<ComponentModel>
    decreases pieces.len(),
{
    if pieces.len() == 0 {
        Seq::empty()
    } else {
        let init = piece_components(pieces.drop_last());
        let p = pieces.last();
        if p.len() == 0 || p == dot() {
            init
        } else if p == dot_dot() {
            init.push(ComponentModel::ParentDir)
        } else {
            init.push(ComponentModel::Normal(p))
        }
    }
}

/// The components of a Unix path: a leading `/` is the root, a leading
/// `.` piece is the current directory, and the rest as `piece_components`
/// reads them.
pub open spec fn unix_components(s: Seq<char>) -> Seq<ComponentModel> {
    let pieces = split_on(s, '/');
    if s.len() > 0 && s[0] == '/' {
        seq![ComponentModel::RootDir] + piece_components(pieces)
    } else if pieces[0] == dot() {
        seq![ComponentModel::CurDir] + piece_components(pieces.skip(1))
    } else {
        piece_components(pieces)
    }
}

/// How a component is written.
pub open spec fn component_text(c: ComponentModel) -> Seq<char> {
    match c {
        ComponentModel::RootDir => seq!['/'],
        ComponentModel::CurDir => dot(),
        ComponentModel::ParentDir => dot_dot(),
        ComponentModel::Normal(s) => s,
    }
}

/// The components written with `/` between them.
pub open spec fn join_components(cs: Seq<ComponentModel>) -> Seq<char> {
    join_with(Seq::new(cs.len(), |i: int| component_text(cs[i])), '/')
}

/// Whether the characters are exactly `.` (with `n` one) or `..` (with
/// `n` two).
fn is_dots(p: &[char], n: usize) -> (r: bool)
    requires
        n == 1 || n == 2,
    ensures
        r == (if n == 1 { p@ == dot() } else { p@ == dot_dot() }),
{
    if p.len() != n {
        return false;
    }
    if n == 1 {
        let r = p[0] == '.';
        if r {
            assert(p@ =~= dot());
        }
        r
    } else {
        let r = p[0] == '.' && p[1] == '.';
        if r {
            assert(p@ =~= dot_dot());
        }
        r
    }
}

/// Appends the components of the pieces `start..` to `out`.
fn push_piece_components(out: &mut Vec<PathComponent>, pieces: &Vec<Vec<char>>, start: usize)
    requires
        start <= pieces.len(),
    ensures
        components_view(final(out)@) == components_view(old(out)@) + piece_components(
            pieces.deep_view().skip(start as int),
        ),
{
    let ghost base = components_view(out@);
    let mut i: usize = start;
    while i < pieces.len()
        invariant
            start <= i <= pieces.len(),
            components_view(out@) == base + piece_components(
                pieces.deep_view().subrange(start as int, i as int),
            ),
        decreases pieces.len() - i,
    {
        let ghost sub = pieces.deep_view().subrange(start as int, i + 1);
        assert(sub.drop_last() =~= pieces.deep_view().subrange(start as int, i as int));
        assert(sub.last() == pieces[i as int]@);
        let p = pieces[i].as_slice();
        let ghost before = out@;
        if p.len() == 0 || is_dots(p, 1) {
        } else if is_dots(p, 2) {
            out.push(PathComponent::ParentDir);
            assert(components_view(out@) =~= components_view(before).push(ComponentModel::ParentDir));
        } else {
            out.push(PathComponent::Normal(string_from_chars(p)));
            assert(components_view(out@) =~= components_view(before).push(ComponentModel::Normal(p@)));
        }
        i = i + 1;
    }
    assert(pieces.deep_view().subrange(start as int, pieces.len() as int) =~= pieces.deep_view().skip(
        start as int,
    ));
}

/// The components of a path as Unix reads it.
pub fn unix_path_components(s: &str) -> (r: Vec<PathComponent>)
    ensures
        components_view(r@) == unix_components(s@),
{
    let cs = chars_of(s);
    let pieces = split_chars(cs.as_slice(), '/');
    proof { crate::text::lemma_split_nonempty(s@, '/'); }
    let mut out: Vec<PathComponent> = Vec::new();
    if cs.len() > 0 && cs[0] == '/' {
        out.push(PathComponent::RootDir);
        push_piece_components(&mut out, &pieces, 0);
        assert(pieces.deep_view().skip(0) =~= pieces.deep_view());
        assert(components_view(seq![PathComponent::RootDir]) =~= seq![ComponentModel::RootDir]);
    } else if is_dots(pieces[0].as_slice(), 1) {
        assert(pieces.deep_view()[0] == pieces[0]@);
        out.push(PathComponent::CurDir);
        push_piece_components(&mut out, &pieces, 1);
        assert(components_view(seq![PathComponent::CurDir]) =~= seq![ComponentModel::CurDir]);
    } else {
        assert(pieces.deep_view()[0] == pieces[0]@);
        push_piece_components(&mut out, &pieces, 0);
        assert(pieces.deep_view().skip(0) =~= pieces.deep_view());
        assert(components_view(Seq::<PathComponent>::empty()) =~= Seq::<ComponentModel>::empty());
    }
    out
}

/// How a component is written.
fn component_chars(c: &PathComponent) -> (r: Vec<char>)
    ensures
        r@ == component_text(c@),
{
    match c {
        PathComponent::RootDir => {
            let r = vec!['/'];
            assert(r@ =~= seq!['/']);
            r
        },
        PathComponent::CurDir => {
            let r = vec!['.'];
            assert(r@ =~= dot());
            r
        },
        PathComponent::ParentDir => {
            let r = vec!['.', '.'];
            assert(r@ =~= dot_dot());
            r
        },
        PathComponent::Normal(s) => chars_of(s.as_str()),
    }
}

/// Writes components with `/` between them.
pub fn join_components_forward_slash(comps: &[PathComponent]) -> (r: String)
    ensures
        r@ == join_components(components_view(comps@)),
{
    let mut parts: Vec<Vec<char>> = Vec::new();
    let mut i: usize = 0;
    while i < comps.len()
        invariant
            i <= comps.len(),
            parts.deep_view() =~= Seq::new(i as nat, |k: int| component_text(comps@[k]@)),
        decreases comps.len() - i,
    {
        push_piece(&mut parts, component_chars(&comps[i]));
        i = i + 1;
    }
    let ghost cv = components_view(comps@);
    assert(parts.deep_view() =~= Seq::new(cv.len(), |k: int| component_text(cv[k])));
    let t = join_chars(&parts, '/');
    string_from_chars(t.as_slice())
}

/// Removes the leading components of a path. With no count, or a count of
/// zero, the path comes back as it is; with a count at least the number of
/// components there is nothing left.
pub fn strip_components(path: &str, count: Option<usize>) -> (r: Option<Cow<'_, str>>)
    ensures
        (count is None || count == Some(0usize)) ==> r == Some(Cow::Borrowed(path)),
        count matches Some(n) ==> (n > 0 ==> (r is None <==> unix_components(path@).len() <= n)),
        count matches Some(n) ==> (n > 0 ==> (r matches Some(c) ==> c@ == join_components(
            unix_components(path@).skip(n as int),
        ))),
{
    let n = match count {
        None => return Some(Cow::Borrowed(path)),
        Some(n) => n,
    };
    if n == 0 {
        return Some(Cow::Borrowed(path));
    }
    let comps = unix_path_components(path);
    if comps.len() <= n {
        return None;
    }
    let rest = vstd::slice::slice_subrange(comps.as_slice(), n, comps.len());
    assert(components_view(rest@) =~= components_view(comps@).skip(n as int));
    Some(Cow::Owned(join_components_forward_slash(rest)))
}

/// The components other than the root.
pub open spec fn without_root(cs: Seq<ComponentModel>) -> Seq<ComponentModel>
    decreases cs.len(),
{
    if cs.len() == 0 {
        Seq::empty()
    } else if cs.last() == ComponentModel::RootDir {
        without_root(cs.drop_last())
    } else {
        without_root(cs.drop_last()).push(cs.last())
    }
}

/// The path with its root removed and its other components kept, `.` and
/// `..` included, written with `/`.
pub fn sanitize_preserve_curdir_str(s: &str) -> (r: String)
    ensures
        r@ == join_components(without_root(unix_components(s@))),
{
    let comps = unix_path_components(s);
    let mut kept: Vec<PathComponent> = Vec::new();
    let mut i: usize = 0;
    while i < comps.len()
        invariant
            i <= comps.len(),
            components_view(kept@) == without_root(components_view(comps@).take(i as int)),
        decreases comps.len() - i,
    {
        assert(components_view(comps@).take(i + 1).drop_last() =~= components_view(comps@).take(
            i as int,
        ));
        let ghost before = kept@;
        let c = match &comps[i] {
            PathComponent::RootDir => None,
            PathComponent::CurDir => Some(PathComponent::CurDir),
            PathComponent::ParentDir => Some(PathComponent::ParentDir),
            PathComponent::Normal(x) => Some(PathComponent::Normal(x.clone())),
        };
        if let Some(c) = c {
            kept.push(c);
            assert(components_view(kept@) =~= components_view(before).push(comps@[i as int]@));
        }
        i = i + 1;
    }
    assert(components_view(comps@).take(comps.len() as int) =~= components_view(comps@));
    join_components_forward_slash(kept.as_slice())
}

/// Whether a path has nothing to extract: with `preserve_curdir` only the
/// empty path, otherwise any path whose components are all `.`.
pub fn is_effectively_empty_path(path: &str, preserve_curdir: bool) -> (r: bool)
    ensures
        preserve_curdir ==> r == (path@.len() == 0),
        !preserve_curdir ==> r == (forall|i: int| 0 <= i < unix_components(path@).len()
            ==> #[trigger] unix_components(path@)[i] == ComponentModel::CurDir),
{
    if preserve_curdir {
        return path.is_empty();
    }
    let comps = unix_path_components(path);
    let mut i: usize = 0;
    while i < comps.len()
        invariant
            i <= comps.len(),
            !preserve_curdir,
            components_view(comps@) == unix_components(path@),
            forall|k: int| 0 <= k < i ==> components_view(comps@)[k] == ComponentModel::CurDir,
        decreases comps.len() - i,
    {
        match &comps[i] {
            PathComponent::CurDir => {},
            _ => {
                assert(components_view(comps@)[i as int] != ComponentModel::CurDir);
                return false;
            },
        }
        i = i + 1;
    }
    true
}

/// A component of a path as Windows reads it, by its kind.
#[derive(Clone, Copy, Debug, PartialEq, Eq, Structural)]
pub enum WindowsComponentKind {
    Prefix,
    RootDir,
    CurDir,
    ParentDir,
    Normal,
}

/// The kinds of the components that `typed_path` reads a path as under
/// Windows rules, in order.
pub uninterp spec fn windows_component_kinds(s: Seq<char>) -> Seq<WindowsComponentKind>;

/// `typed_path::Utf8WindowsPath::components`, each component taken by its
/// kind. The result is named, not stated: it is what `typed_path`'s Windows
/// parser makes of the text.
#[verifier::external_body]
fn windows_components(s: &str) -> (r: Vec<WindowsComponentKind>)
    ensures
        r@ == windows_component_kinds(s@),
{
    typed_path::Utf8WindowsPath::new(s).components().map(|c| match c {
        typed_path::Utf8WindowsComponent::Prefix(_) => WindowsComponentKind::Prefix,
        typed_path::Utf8WindowsComponent::RootDir => WindowsComponentKind::RootDir,
        typed_path::Utf8WindowsComponent::CurDir => WindowsComponentKind::CurDir,
        typed_path::Utf8WindowsComponent::ParentDir => WindowsComponentKind::ParentDir,
        typed_path::Utf8WindowsComponent::Normal(_) => WindowsComponentKind::Normal,
    }).collect()
}

/// Whether a path has a `..` component under Unix rules or under Windows
/// rules (where `\` separates too).
pub open spec fn has_parent_dir(s: Seq<char>) -> bool {
    unix_components(s).contains(ComponentModel::ParentDir)
        || windows_component_kinds(s).contains(WindowsComponentKind::ParentDir)
}

/// Whether the path has a `..` component, read as a Unix path or as a
/// Windows path.
pub fn has_parent_dir_component(s: &str) -> (r: bool)
    ensures
        r == has_parent_dir(s@),
{
    let comps = unix_path_components(s);
    let mut i: usize = 0;
    while i < comps.len()
        invariant
            i <= comps.len(),
            components_view(comps@) == unix_components(s@),
            forall|k: int| 0 <= k < i ==> components_view(comps@)[k] != ComponentModel::ParentDir,
        decreases comps.len() - i,
    {
        match &comps[i] {
            PathComponent::ParentDir => {
                assert(components_view(comps@)[i as int] == ComponentModel::ParentDir);
                return true;
            },
            _ => {},
        }
        i = i + 1;
    }
    let kinds = windows_components(s);
    let mut j: usize = 0;
    while j < kinds.len()
        invariant
            j <= kinds.len(),
            kinds@ == windows_component_kinds(s@),
            !unix_components(s@).contains(ComponentModel::ParentDir),
            forall|k: int| 0 <= k < j ==> kinds@[k] != WindowsComponentKind::ParentDir,
        decreases kinds.len() - j,
    {
        if kinds[j] == WindowsComponentKind::ParentDir {
            assert(kinds@[j as int] == WindowsComponentKind::ParentDir);
            return true;
        }
        j = j + 1;
    }
    false
}

/// Whether a link target is unsafe: it has an absolute prefix, or a `..`
/// component is left after the prefix is stripped.
pub fn is_unsafe_link_path(s: &str) -> (r: bool)
    ensures
        r == (strip_had_root(s@) || has_parent_dir(stripped_path(s@))),
{
    let (rewritten, had_root) = strip_absolute_path_bsdtar(s);
    had_root || has_parent_dir_component(rewritten.as_str())
}

/// After stripping, the path begins with neither a drive letter nor a
/// separator.
pub proof fn lemma_strip_roots_plain(s: Seq<char>)
    ensures
        !begins_with_root(strip_roots(s)),
    decreases s.len(),
{
    if drive_prefix(s) {
        lemma_strip_roots_plain(s.skip(2));
    } else if s.len() > 0 && is_sep(s[0]) {
        lemma_strip_roots_plain(s.skip(separator_step(s) as int));
    }
}

/// Stripping a stripped path changes nothing and strips nothing: the
/// result holds no absolute prefix.
pub proof fn strip_absolute_path_idempotent(s: Seq<char>)
    ensures
        stripped_path(stripped_path(s)) == stripped_path(s),
        !strip_had_root(stripped_path(s)),
{
    let t = stripped_path(s);
    lemma_strip_roots_plain(after_api_prefix(s));
    assert(!api_prefix(t));
    assert(after_api_prefix(t) == t);
}

/// Removing roots leaves a suffix, shorter exactly where a root was there.
proof fn lemma_strip_roots_suffix(s: Seq<char>)
    ensures
        strip_roots(s).len() <= s.len(),
        s.skip(s.len() - strip_roots(s).len()) == strip_roots(s),
        begins_with_root(s) <==> strip_roots(s).len() < s.len(),
    decreases s.len(),
{
    if drive_prefix(s) {
        let t = s.skip(2);
        lemma_strip_roots_suffix(t);
        assert(t.skip(t.len() - strip_roots(t).len()) =~= s.skip(s.len() - strip_roots(t).len()));
    } else if s.len() > 0 && is_sep(s[0]) {
        let t = s.skip(separator_step(s) as int);
        lemma_strip_roots_suffix(t);
        assert(t.skip(t.len() - strip_roots(t).len()) =~= s.skip(s.len() - strip_roots(t).len()));
    } else {
        assert(s.skip(0) =~= s);
    }
}

/// bsdtar's stripping of absolute paths: the result is a suffix of the
/// path, shorter exactly where something was stripped (as the flag says);
/// it begins with no separator and no drive letter, and stripping it again
/// changes nothing and strips nothing.
pub proof fn strip_gives_plain_suffix(s: Seq<char>)
    ensures
        stripped_path(s).len() <= s.len(),
        s.skip(s.len() - stripped_path(s).len()) == stripped_path(s),
        strip_had_root(s) <==> stripped_path(s).len() < s.len(),
        !(stripped_path(s).len() > 0 && is_sep(stripped_path(s)[0])),
        !drive_prefix(stripped_path(s)),
        stripped_path(stripped_path(s)) == stripped_path(s),
        !strip_had_root(stripped_path(s)),
{
    strip_absolute_path_idempotent(s);
    lemma_strip_roots_plain(after_api_prefix(s));
    let a = after_api_prefix(s);
    lemma_strip_roots_suffix(a);
    if unc_prefix(s) || api_prefix(s) {
        let k: int = if unc_prefix(s) { 8 } else { 4 };
        assert(a == s.skip(k));
        assert(a.skip(a.len() - strip_roots(a).len()) =~= s.skip(s.len() - strip_roots(a).len()));
    }
}

} // verus!
