//! The pathname editor: how an entry name, a hard-link target and a
//! symbolic-link target are rewritten, in bsdtar's order: substitutions or
//! transformations first, then `--strip-components`, then the absolute
//! prefix and the sanitization.
use vstd::prelude::*;
use crate::command::shared::path::{
    components_view, has_parent_dir, has_parent_dir_component, is_effectively_empty_path, join_components,
    join_components_forward_slash, sanitize_preserve_curdir_str, strip_absolute_path_bsdtar, strip_components,
    strip_had_root, stripped_path, unix_components, unix_path_components, without_root, ComponentModel,
    PathComponent,
};
use crate::command::shared::re::bsd::{rules_view, substituted, RuleModel, SubstitutionRule, SubstitutionRules};
use crate::command::shared::re::gnu::{transforms_applied, transforms_view, TransformModel, TransformRule, TransformRules};

verus! {

/// The name rewriting rules of a command: bsdtar substitutions (`-s`) or
/// GNU transformations (`--transform`).
#[derive(Debug)]
pub enum PathTransformers {
    BsdSubstitutions(SubstitutionRules),
    GnuTransforms(TransformRules),
}

/// The rewriting rules as values.
pub ghost enum TransformersModel {
    Bsd(Seq<RuleModel>),
    Gnu(Seq<TransformModel>),
}

impl View for PathTransformers {
    type V = TransformersModel;

    open spec fn view(&self) -> TransformersModel {
        match self {
            PathTransformers::BsdSubstitutions(r) => TransformersModel::Bsd(rules_view(r.0@)),
            PathTransformers::GnuTransforms(r) => TransformersModel::Gnu(transforms_view(r.0@)),
        }
    }
}

/// A name rewritten by the rules.
pub open spec fn transformers_apply(t: TransformersModel, input: Seq<char>, is_symlink: bool, is_hardlink: bool) -> Seq<char> {
    match t {
        TransformersModel::Bsd(r) => substituted(r, input, is_symlink, is_hardlink).0,
        TransformersModel::Gnu(r) => transforms_applied(r, input, is_symlink, is_hardlink),
    }
}

impl PathTransformers {
    /// The substitutions where any are given, else the transformations
    /// where any are given, else none.
    pub fn new(
        substitutions: Option<Vec<SubstitutionRule>>,
        transforms: Option<Vec<TransformRule>>,
    ) -> (r: Option<PathTransformers>)
        ensures
            substitutions matches Some(s) ==> r matches Some(t) && t@ == TransformersModel::Bsd(rules_view(s@)),
            substitutions is None ==> (transforms matches Some(g) ==> r matches Some(t) && t@
                == TransformersModel::Gnu(transforms_view(g@))),
            substitutions is None && transforms is None ==> r is None,
    {
        match substitutions {
            Some(s) => Some(PathTransformers::BsdSubstitutions(SubstitutionRules::new(s))),
            None => match transforms {
                Some(t) => Some(PathTransformers::GnuTransforms(TransformRules::new(t))),
                None => None,
            },
        }
    }

    /// A name rewritten by the rules.
    pub fn apply(&self, input: &str, is_symlink: bool, is_hardlink: bool) -> (r: String)
        ensures
            r@ == transformers_apply(self@, input@, is_symlink, is_hardlink),
    {
        match self {
            PathTransformers::BsdSubstitutions(s) => s.apply(input, is_symlink, is_hardlink),
            PathTransformers::GnuTransforms(t) => t.apply(input, is_symlink, is_hardlink),
        }
    }
}

/// An entry name as the archive stores it.
#[derive(Clone, Debug, PartialEq, Eq)]
pub struct EntryName(pub String);

/// A link target as the archive stores it.
#[derive(Clone, Debug, PartialEq, Eq)]
pub struct EntryReference(pub String);

impl EntryName {
    /// The name's text.
    pub fn as_str(&self) -> (r: &str)
        ensures
            r@ == self.0@,
    {
        self.0.as_str()
    }
}

impl EntryReference {
    /// The target's text.
    pub fn as_str(&self) -> (r: &str)
        ensures
            r@ == self.0@,
    {
        self.0.as_str()
    }
}

/// The normal components of a path: neither root nor `.` nor `..`.
pub open spec fn normal_components(cs: Seq<ComponentModel>) -> Seq<ComponentModel>
    decreases cs.len(),
{
    if cs.len() == 0 {
        Seq::empty()
    } else if cs.last() is Normal {
        normal_components(cs.drop_last()).push(cs.last())
    } else {
        normal_components(cs.drop_last())
    }
}

/// A path made safe: its normal components only, written with `/`.
pub open spec fn sanitized(p: Seq<char>) -> Seq<char> {
    join_components(normal_components(unix_components(p)))
}

/// A path made safe while keeping `.` and `..`: its root removed.
pub open spec fn preserve_sanitized(p: Seq<char>) -> Seq<char> {
    join_components(without_root(unix_components(p)))
}

/// Keeps the normal components of a path, written with `/`.
pub fn sanitize_str(s: &str) -> (r: String)
    ensures
        r@ == sanitized(s@),
{
    let comps = unix_path_components(s);
    let mut kept: Vec<PathComponent> = Vec::new();
    let mut i: usize = 0;
    while i < comps.len()
        invariant
            i <= comps.len(),
            components_view(kept@) == normal_components(components_view(comps@).take(i as int)),
        decreases comps.len() - i,
    {
        assert(components_view(comps@).take(i + 1).drop_last() =~= components_view(comps@).take(
            i as int,
        ));
        let ghost before = kept@;
        match &comps[i] {
            PathComponent::Normal(x) => {
                kept.push(PathComponent::Normal(x.clone()));
                assert(components_view(kept@) =~= components_view(before).push(comps@[i as int]@));
            },
            _ => {},
        }
        i = i + 1;
    }
    assert(components_view(comps@).take(comps.len() as int) =~= components_view(comps@));
    join_components_forward_slash(kept.as_slice())
}

/// Rewrites paths for extraction or creation in bsdtar's order.
#[derive(Debug)]
pub struct PathnameEditor {
    pub strip_components: Option<usize>,
    pub transformers: Option<PathTransformers>,
    pub absolute_paths: bool,
    /// Keep `.` and `..` components in sanitization (bsdtar's behaviour).
    pub preserve_curdir: bool,
}

/// The settings of an editor as values.
pub ghost struct EditorModel {
    pub strip_components: Option<usize>,
    pub transformers: Option<TransformersModel>,
    pub absolute_paths: bool,
    pub preserve_curdir: bool,
}

impl View for PathnameEditor {
    type V = EditorModel;

    open spec fn view(&self) -> EditorModel {
        EditorModel {
            strip_components: self.strip_components,
            transformers: match self.transformers {
                Some(t) => Some(t@),
                None => None,
            },
            absolute_paths: self.absolute_paths,
            preserve_curdir: self.preserve_curdir,
        }
    }
}

/// A name rewritten by the rules where there are any.
pub open spec fn opt_transform(t: Option<TransformersModel>, input: Seq<char>, is_symlink: bool, is_hardlink: bool) -> Seq<char> {
    match t {
        Some(t) => transformers_apply(t, input, is_symlink, is_hardlink),
        None => input,
    }
}

/// Whether a path has nothing in it: with `preserve_curdir` only the empty
/// path, otherwise any path of `.` components only.
pub open spec fn effectively_empty(p: Seq<char>, preserve_curdir: bool) -> bool {
    if preserve_curdir {
        p.len() == 0
    } else {
        forall|i: int| 0 <= i < unix_components(p).len() ==> #[trigger] unix_components(p)[i] == ComponentModel::CurDir
    }
}

/// A path with its leading components removed, as `strip_components` does.
pub open spec fn stripped_of(p: Seq<char>, count: Option<usize>) -> Option<Seq<char>> {
    match count {
        None => Some(p),
        Some(n) => if n == 0 {
            Some(p)
        } else if unix_components(p).len() <= n {
            None
        } else {
            Some(join_components(unix_components(p).skip(n as int)))
        },
    }
}

/// A path after the rules and the component stripping; none where it is
/// empty before or after the stripping, or the stripping leaves nothing.
pub open spec fn transform_and_strip_of(e: EditorModel, path: Seq<char>, is_symlink: bool, is_hardlink: bool) -> Option<Seq<char>> {
    let t = opt_transform(e.transformers, path, is_symlink, is_hardlink);
    if effectively_empty(t, e.preserve_curdir) {
        None
    } else {
        match stripped_of(t, e.strip_components) {
            None => None,
            Some(x) => if effectively_empty(x, e.preserve_curdir) {
                None
            } else {
                Some(x)
            },
        }
    }
}

/// A path with its absolute prefix stripped, and whether there was one;
/// unchanged where absolute paths are kept.
pub open spec fn rewritten_of(e: EditorModel, p: Seq<char>) -> (Seq<char>, bool) {
    if e.absolute_paths {
        (p, false)
    } else {
        (stripped_path(p), strip_had_root(p))
    }
}

/// Whether a sanitized path may be written: it is not empty, and with
/// `preserve_curdir` (and no absolute paths) it has no `..` component.
pub open spec fn nodotdot_ok(e: EditorModel, s: Seq<char>) -> bool {
    s.len() > 0 && !(e.preserve_curdir && !e.absolute_paths && has_parent_dir(s))
}

/// The entry name of a path, where the entry is written at all.
pub open spec fn entry_name_of(e: EditorModel, path: Seq<char>) -> Option<Seq<char>> {
    match transform_and_strip_of(e, path, false, false) {
        None => None,
        Some(x) => {
            let r = rewritten_of(e, x).0;
            let s = if e.absolute_paths {
                r
            } else if e.preserve_curdir {
                if preserve_sanitized(r).len() == 0 {
                    seq!['.']
                } else {
                    preserve_sanitized(r)
                }
            } else {
                sanitized(r)
            };
            if nodotdot_ok(e, s) {
                Some(s)
            } else {
                None
            }
        },
    }
}

/// The stored target of a hard link, and whether an absolute prefix was
/// stripped from it, where the entry is written at all.
pub open spec fn hardlink_of(e: EditorModel, target: Seq<char>) -> Option<(Seq<char>, bool)> {
    match transform_and_strip_of(e, target, false, true) {
        None => None,
        Some(x) => {
            let (r, had_root) = rewritten_of(e, x);
            let s = if e.absolute_paths {
                r
            } else if e.preserve_curdir {
                preserve_sanitized(r)
            } else {
                sanitized(r)
            };
            if nodotdot_ok(e, s) {
                Some((s, had_root))
            } else {
                None
            }
        },
    }
}

/// bsdtar's SECURE_NODOTDOT: with `.` and `..` kept and absolute paths not
/// allowed, no entry name and no hard-link target that the editor gives
/// has a `..` component, and none is empty.
pub proof fn kept_names_have_no_parent_dir(e: EditorModel, path: Seq<char>)
    requires
        e.preserve_curdir,
        !e.absolute_paths,
    ensures
        entry_name_of(e, path) matches Some(n) ==> !has_parent_dir(n) && n.len() > 0,
        hardlink_of(e, path) matches Some((t, _)) ==> !has_parent_dir(t) && t.len() > 0,
{
}

impl PathnameEditor {
    /// An editor with these settings.
    pub fn new(
        strip_components: Option<usize>,
        transformers: Option<PathTransformers>,
        absolute_paths: bool,
        preserve_curdir: bool,
    ) -> (r: PathnameEditor)
        ensures
            r.strip_components == strip_components,
            r.transformers == transformers,
            r.absolute_paths == absolute_paths,
            r.preserve_curdir == preserve_curdir,
    {
        PathnameEditor { strip_components, transformers, absolute_paths, preserve_curdir }
    }

    /// A name rewritten by the rules where there are any.
    fn transformed(&self, path: &str, is_symlink: bool, is_hardlink: bool) -> (r: String)
        ensures
            r@ == opt_transform(self@.transformers, path@, is_symlink, is_hardlink),
    {
        match &self.transformers {
            Some(t) => t.apply(path, is_symlink, is_hardlink),
            None => String::from_str(path),
        }
    }

    /// The path after the rules and `--strip-components`; none where it
    /// becomes empty.
    pub fn transform_and_strip(&self, path: &str, is_symlink: bool, is_hardlink: bool) -> (r: Option<String>)
        ensures
            match r {
                Some(x) => transform_and_strip_of(self@, path@, is_symlink, is_hardlink) == Some(x@),
                None => transform_and_strip_of(self@, path@, is_symlink, is_hardlink) is None,
            },
    {
        let t = self.transformed(path, is_symlink, is_hardlink);
        if is_effectively_empty_path(t.as_str(), self.preserve_curdir) {
            return None;
        }
        let stripped = match strip_components(t.as_str(), self.strip_components) {
            None => return None,
            Some(std::borrow::Cow::Borrowed(b)) => String::from_str(b),
            Some(std::borrow::Cow::Owned(o)) => o,
        };
        if is_effectively_empty_path(stripped.as_str(), self.preserve_curdir) {
            return None;
        }
        Some(stripped)
    }

    /// The path with its absolute prefix stripped, bsdtar's way, and
    /// whether there was one; unchanged where absolute paths are kept.
    pub fn rewrite_path_for_extraction(&self, path: &str) -> (r: (String, bool))
        ensures
            (r.0@, r.1) == rewritten_of(self@, path@),
    {
        if self.absolute_paths {
            (String::from_str(path), false)
        } else {
            strip_absolute_path_bsdtar(path)
        }
    }

    /// Whether a sanitized path may be written (bsdtar's SECURE_NODOTDOT).
    pub fn check_nodotdot(&self, sanitized: &str) -> (r: Option<()>)
        ensures
            r is Some <==> nodotdot_ok(self@, sanitized@),
    {
        if sanitized.is_empty() {
            return None;
        }
        if self.preserve_curdir && !self.absolute_paths && has_parent_dir_component(sanitized) {
            return None;
        }
        Some(())
    }

    /// The entry name of a path; none where the entry is skipped: the path
    /// becomes empty, or holds `..` where that is refused.
    pub fn edit_entry_name(&self, path: &str) -> (r: Option<EntryName>)
        ensures
            match r {
                Some(n) => entry_name_of(self@, path@) == Some(n.0@),
                None => entry_name_of(self@, path@) is None,
            },
    {
        let stripped = match self.transform_and_strip(path, false, false) {
            None => return None,
            Some(s) => s,
        };
        let (rewritten, _) = self.rewrite_path_for_extraction(stripped.as_str());
        let sanitized = if self.absolute_paths {
            rewritten
        } else if self.preserve_curdir {
            let t = sanitize_preserve_curdir_str(rewritten.as_str());
            if t.as_str().is_empty() {
                let dot = String::from_str(".");
                proof {
                    reveal_strlit(".");
                }
                assert(dot@ =~= seq!['.']);
                dot
            } else {
                t
            }
        } else {
            sanitize_str(rewritten.as_str())
        };
        match self.check_nodotdot(sanitized.as_str()) {
            None => None,
            Some(()) => Some(EntryName(sanitized)),
        }
    }

    /// The stored target of a hard link, and whether an absolute prefix
    /// was stripped from it; none where the entry is skipped.
    pub fn edit_hardlink(&self, target: &str) -> (r: Option<(EntryReference, bool)>)
        ensures
            match r {
                Some((t, had_root)) => hardlink_of(self@, target@) == Some((t.0@, had_root)),
                None => hardlink_of(self@, target@) is None,
            },
    {
        let stripped = match self.transform_and_strip(target, false, true) {
            None => return None,
            Some(s) => s,
        };
        let (rewritten, had_root) = self.rewrite_path_for_extraction(stripped.as_str());
        let sanitized = if self.absolute_paths {
            rewritten
        } else if self.preserve_curdir {
            sanitize_preserve_curdir_str(rewritten.as_str())
        } else {
            sanitize_str(rewritten.as_str())
        };
        match self.check_nodotdot(sanitized.as_str()) {
            None => None,
            Some(()) => Some((EntryReference(sanitized), had_root)),
        }
    }

    /// A link target with the rules applied (as a symbolic link's), its
    /// absolute prefix and its components kept as bsdtar keeps them.
    pub fn transform_link_target_preserving_root(&self, target: &str) -> (r: EntryReference)
        ensures
            r.0@ == opt_transform(self@.transformers, target@, true, false),
    {
        EntryReference(self.transformed(target, true, false))
    }

    /// The stored target of a symbolic link: the rules only, no stripping.
    pub fn edit_symlink(&self, target: &str) -> (r: EntryReference)
        ensures
            r.0@ == opt_transform(self@.transformers, target@, true, false),
    {
        self.transform_link_target_preserving_root(target)
    }

    /// The stored target of a Windows junction: as a symbolic link's.
    pub fn edit_junction(&self, target: &str) -> (r: EntryReference)
        ensures
            r.0@ == opt_transform(self@.transformers, target@, true, false),
    {
        self.transform_link_target_preserving_root(target)
    }
}

} // verus!
