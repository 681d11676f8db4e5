//! What the walk over file arguments makes of each entry it meets: whether
//! a symbolic link is followed, and how the entry is stored.
use vstd::prelude::*;

verus! {

/// What a walked entry counts as.
#[derive(Clone, Copy, Debug, PartialEq, Eq)]
pub struct EntryClass {
    pub is_dir: bool,
    pub is_file: bool,
    pub is_symlink: bool,
}

/// Whether a symbolic link at `depth` is followed: always where links are
/// followed, and for a file argument itself (depth 0) where command-line
/// links are.
pub open spec fn follows(depth: usize, follow_links: bool, follow_command_links: bool) -> bool {
    follow_links || (depth == 0 && follow_command_links)
}

/// What an entry counts as: a followed symbolic link as what it points to,
/// one not followed as a link.
pub open spec fn class_of(
    is_dir: bool,
    is_file: bool,
    is_symlink: bool,
    depth: usize,
    follow_links: bool,
    follow_command_links: bool,
    target_is_dir: bool,
    target_is_file: bool,
) -> EntryClass {
    let f = follows(depth, follow_links, follow_command_links);
    EntryClass {
        is_dir: is_dir || (is_symlink && f && target_is_dir),
        is_file: is_file || (is_symlink && f && target_is_file),
        is_symlink: is_symlink && !f,
    }
}

/// Classifies a walked entry from its own type and, for a link, from what
/// it points to; `class_of` says how.
pub fn classify_entry(
    is_dir: bool,
    is_file: bool,
    is_symlink: bool,
    depth: usize,
    follow_links: bool,
    follow_command_links: bool,
    target_is_dir: bool,
    target_is_file: bool,
) -> (r: EntryClass)
    ensures
        r == class_of(is_dir, is_file, is_symlink, depth, follow_links, follow_command_links, target_is_dir, target_is_file),
{
    let f = follow_links || (depth == 0 && follow_command_links);
    EntryClass {
        is_dir: is_dir || (is_symlink && f && target_is_dir),
        is_file: is_file || (is_symlink && f && target_is_file),
        is_symlink: is_symlink && !f,
    }
}

/// How an entry is kept, before hard links are looked for.
#[derive(Clone, Copy, Debug, PartialEq, Eq)]
pub enum StoreKind {
    Symlink,
    /// A file, stored as a hard link where one was stored before.
    File,
    Dir,
}

/// How an entry of a class is kept: a link as a link, a file as a file, a
/// directory only with `keep_dir` (`None` otherwise); any other kind of
/// entry is not supported (`Err`).
pub open spec fn store_kind_of(c: EntryClass, keep_dir: bool) -> Result<Option<StoreKind>, ()> {
    if c.is_symlink {
        Ok(Some(StoreKind::Symlink))
    } else if c.is_file {
        Ok(Some(StoreKind::File))
    } else if c.is_dir {
        if keep_dir {
            Ok(Some(StoreKind::Dir))
        } else {
            Ok(None)
        }
    } else {
        Err(())
    }
}

/// How an entry of a class is kept, `store_kind_of` says how.
pub fn store_kind(c: EntryClass, keep_dir: bool) -> (r: Result<Option<StoreKind>, ()>)
    ensures
        r == store_kind_of(c, keep_dir),
{
    if c.is_symlink {
        Ok(Some(StoreKind::Symlink))
    } else if c.is_file {
        Ok(Some(StoreKind::File))
    } else if c.is_dir {
        if keep_dir {
            Ok(Some(StoreKind::Dir))
        } else {
            Ok(None)
        }
    } else {
        Err(())
    }
}

/// What the walk does with an entry it meets: whether it reads the
/// `.gitignore` of the directory, whether it stops descending into it, and
/// what it stores (`Ok(None)`: nothing; `Err`: an unsupported kind).
#[derive(Clone, Copy, Debug, PartialEq, Eq)]
pub struct WalkStep {
    pub load_gitignore: bool,
    pub prune: bool,
    pub outcome: Result<Option<StoreKind>, ()>,
}

/// The walk's decision for an entry of class `c`: an excluded entry is
/// skipped; with `gitignore`, an ignored one is skipped, and a directory
/// that is not has its `.gitignore` read; with `nodump`, one whose nodump
/// flag is set is skipped (a flag that could not be read counts as unset);
/// a skipped directory is not descended into; anything else is stored as
/// `store_kind_of` says.
pub open spec fn walk_step_of(
    c: EntryClass,
    excluded: bool,
    gitignore: bool,
    ignored: bool,
    nodump: bool,
    nodump_flag: Option<bool>,
    keep_dir: bool,
) -> WalkStep {
    if excluded {
        WalkStep { load_gitignore: false, prune: c.is_dir, outcome: Ok(None) }
    } else if gitignore && ignored {
        WalkStep { load_gitignore: false, prune: c.is_dir, outcome: Ok(None) }
    } else {
        let load = gitignore && c.is_dir;
        if nodump && nodump_flag == Some(true) {
            WalkStep { load_gitignore: load, prune: c.is_dir, outcome: Ok(None) }
        } else {
            WalkStep { load_gitignore: load, prune: false, outcome: store_kind_of(c, keep_dir) }
        }
    }
}

/// The walk's decision for one entry, `walk_step_of` says which; whether
/// the entry is excluded, ignored or marked nodump is found by the caller.
pub fn walk_step(
    c: EntryClass,
    excluded: bool,
    gitignore: bool,
    ignored: bool,
    nodump: bool,
    nodump_flag: Option<bool>,
    keep_dir: bool,
) -> (r: WalkStep)
    ensures
        r == walk_step_of(c, excluded, gitignore, ignored, nodump, nodump_flag, keep_dir),
{
    if excluded {
        WalkStep { load_gitignore: false, prune: c.is_dir, outcome: Ok(None) }
    } else if gitignore && ignored {
        WalkStep { load_gitignore: false, prune: c.is_dir, outcome: Ok(None) }
    } else {
        let load = gitignore && c.is_dir;
        let marked = match nodump_flag {
            Some(f) => f,
            None => false,
        };
        if nodump && marked {
            WalkStep { load_gitignore: load, prune: c.is_dir, outcome: Ok(None) }
        } else {
            WalkStep { load_gitignore: load, prune: false, outcome: store_kind(c, keep_dir) }
        }
    }
}

/// Whether a walk error is a broken symbolic link, which the walk stores
/// as a symbolic link instead of failing: the path is itself a link (read
/// without following it) and following it found nothing.
pub fn is_broken_symlink_error(path_is_symlink: bool, error_is_not_found: bool) -> (r: bool)
    ensures
        r == (path_is_symlink && error_is_not_found),
{
    path_is_symlink && error_is_not_found
}

} // verus!
