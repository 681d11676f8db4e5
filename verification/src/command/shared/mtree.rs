//! Owner values of entries described by an mtree specification.
use vstd::prelude::*;
use crate::text::{push_str, string_from_chars};

verus! {

/// The numeric id of an entry: with `nochange` the override or the file's
/// own id; otherwise the override, then the specification's id, then the
/// file's own.
pub fn resolve_id(nochange: bool, override_id: Option<u32>, mtree_id: Option<u32>, fs_id: u32) -> (r: u32)
    ensures
        r == match (nochange, override_id, mtree_id) {
            (_, Some(o), _) => o,
            (false, None, Some(m)) => m,
            _ => fs_id,
        },
{
    if nochange {
        match override_id {
            Some(o) => o,
            None => fs_id,
        }
    } else {
        match override_id {
            Some(o) => o,
            None => match mtree_id {
                Some(m) => m,
                None => fs_id,
            },
        }
    }
}

/// The mode of an entry: with `nochange`, or where the specification gives
/// none, the file's own mode; otherwise the specification's, cut to its low
/// sixteen bits.
pub fn resolve_mode(nochange: bool, mtree_mode: Option<u32>, fs_mode: u16) -> (r: u16)
    ensures
        r == match (nochange, mtree_mode) {
            (false, Some(m)) => (m % 0x10000) as u16,
            _ => fs_mode,
        },
{
    match (nochange, mtree_mode) {
        (false, Some(m)) => (m % 0x10000) as u16,
        _ => fs_mode,
    }
}

/// The id of an entry described only by the specification: the override,
/// then the specification's id, else 0.
pub fn id_without_fs(override_id: Option<u32>, mtree_id: Option<u32>) -> (r: u32)
    ensures
        r == match (override_id, mtree_id) {
            (Some(o), _) => o,
            (None, Some(m)) => m,
            (None, None) => 0,
        },
{
    match override_id {
        Some(o) => o,
        None => match mtree_id {
            Some(m) => m,
            None => 0,
        },
    }
}

/// The mode of an entry described only by the specification: its mode cut
/// to sixteen bits, else `0o755`.
pub fn mode_without_fs(mtree_mode: Option<u32>) -> (r: u16)
    ensures
        r == match mtree_mode {
            Some(m) => (m % 0x10000) as u16,
            None => 0o755u16,
        },
{
    match mtree_mode {
        Some(m) => (m % 0x10000) as u16,
        None => 0o755,
    }
}

/// What `String::from_utf8_lossy` makes of bytes: the same text for the
/// same bytes.
pub uninterp spec fn utf8_lossy_text(bytes: Seq<u8>) -> Seq<char>;

/// `String::from_utf8_lossy`: the text of UTF-8 bytes, with each invalid
/// sequence replaced by U+FFFD; a function of the bytes alone, named by
/// `utf8_lossy_text`, and for valid UTF-8 exactly the decoded text.
#[verifier::external_body]
fn utf8_lossy(bytes: &[u8]) -> (r: String)
    ensures
        r@ == utf8_lossy_text(bytes@),
        vstd::utf8::valid_utf8(bytes@) ==> r@ == vstd::utf8::decode_utf8(bytes@),
{
    String::from_utf8_lossy(bytes).into_owned()
}

/// Where the name of an entry's owner comes from.
#[derive(Clone, Debug, PartialEq, Eq)]
pub enum NameSource {
    /// The given name.
    Given(String),
    /// Look the name up from the id.
    Lookup,
}

/// The name of an entry's owner: the override; else, unless `nochange`,
/// the specification's name, decoded as `String::from_utf8_lossy` does; else a lookup from the id (whose failure
/// gives the empty name).
pub fn resolve_name(nochange: bool, override_name: Option<&String>, mtree_name: Option<&[u8]>) -> (r: NameSource)
    ensures
        override_name matches Some(o) ==> (r matches NameSource::Given(s) && s@ == o@),
        override_name is None && !nochange && mtree_name is Some ==> (r matches NameSource::Given(s) && s@
            == utf8_lossy_text(mtree_name->0@)),
        override_name is None && !nochange && mtree_name is Some && vstd::utf8::valid_utf8(mtree_name->0@) ==> (
        r matches NameSource::Given(s) && s@ == vstd::utf8::decode_utf8(mtree_name->0@)),
        override_name is None && (nochange || mtree_name is None) ==> r == NameSource::Lookup,
{
    if let Some(name) = override_name {
        return NameSource::Given(name.clone());
    }
    if !nochange {
        if let Some(name) = mtree_name {
            return NameSource::Given(utf8_lossy(name));
        }
    }
    NameSource::Lookup
}

/// The message for a specification whose type the file does not have.
pub fn type_mismatch_message(path: &str, mtree_type: &str, expected: &str) -> (r: String)
    ensures
        r@ == path@ + ": mtree specifies type="@ + mtree_type@ + " but path is not a "@ + expected@,
{
    let mut out: Vec<char> = Vec::new();
    push_str(&mut out, path);
    push_str(&mut out, ": mtree specifies type=");
    push_str(&mut out, mtree_type);
    push_str(&mut out, " but path is not a ");
    push_str(&mut out, expected);
    string_from_chars(out.as_slice())
}

/// The file types that an mtree specification names.
#[derive(Clone, Copy, Debug, PartialEq, Eq)]
pub enum MtreeFileType {
    File,
    Directory,
    SymbolicLink,
    BlockDevice,
    CharacterDevice,
    Fifo,
    Socket,
}

/// What the file system said of an mtree entry's source path so far.
#[derive(Clone, Copy, Debug, PartialEq, Eq)]
pub enum MtreeProbe {
    /// Nothing asked yet.
    Nothing,
    /// Its metadata, links followed.
    Followed { is_file: bool, is_dir: bool },
    /// Its own metadata, links not followed.
    NotFollowed { is_dir: bool, is_symlink: bool },
    /// Its own metadata could not be read.
    NotFollowedFailed,
}

/// The kinds of archive entries made from an mtree entry.
#[derive(Clone, Copy, Debug, PartialEq, Eq)]
pub enum MtreeEntryKind {
    File,
    Directory,
    Symlink,
}

/// What to do next for an mtree entry.
#[derive(Clone, Copy, Debug, PartialEq, Eq)]
pub enum MtreeStep {
    /// Read the source's metadata, links followed (an error ends the entry
    /// with that error).
    ReadFollowed,
    /// Read the source's own metadata (for a declared directory, an error
    /// is reported as `NotFollowedFailed`; otherwise it ends the entry).
    ReadNotFollowed,
    /// Make an entry of this kind.
    Create(MtreeEntryKind),
    /// The declared type does not match the file: its name in the
    /// specification, and what the path should have been.
    Mismatch(&'static str, &'static str),
    /// The file is of a kind that cannot be archived.
    Unsupported,
    /// Skip a device, FIFO or socket with a warning.
    Skip,
}

/// What an mtree entry makes, given the declared type and what the file
/// system said: a declared file must be a regular file and a declared link
/// a link; a declared directory is made unless its path is something other
/// than a directory; an undeclared type is taken from the file (a followed
/// file or directory, else a link); devices, FIFOs and sockets are skipped.
pub open spec fn mtree_step_of(declared: Option<MtreeFileType>, probe: MtreeProbe) -> MtreeStep {
    match declared {
        Some(MtreeFileType::File) => match probe {
            MtreeProbe::Followed { is_file, .. } => if is_file {
                MtreeStep::Create(MtreeEntryKind::File)
            } else {
                MtreeStep::Mismatch("file", "regular file")
            },
            _ => MtreeStep::ReadFollowed,
        },
        None => match probe {
            MtreeProbe::Followed { is_file, is_dir } => if is_file {
                MtreeStep::Create(MtreeEntryKind::File)
            } else if is_dir {
                MtreeStep::Create(MtreeEntryKind::Directory)
            } else {
                MtreeStep::ReadNotFollowed
            },
            MtreeProbe::NotFollowed { is_symlink, .. } => if is_symlink {
                MtreeStep::Create(MtreeEntryKind::Symlink)
            } else {
                MtreeStep::Unsupported
            },
            _ => MtreeStep::ReadFollowed,
        },
        Some(MtreeFileType::Directory) => match probe {
            MtreeProbe::NotFollowed { is_dir, .. } => if is_dir {
                MtreeStep::Create(MtreeEntryKind::Directory)
            } else {
                MtreeStep::Mismatch("dir", "directory")
            },
            MtreeProbe::NotFollowedFailed => MtreeStep::Create(MtreeEntryKind::Directory),
            _ => MtreeStep::ReadNotFollowed,
        },
        Some(MtreeFileType::SymbolicLink) => match probe {
            MtreeProbe::NotFollowed { is_symlink, .. } => if is_symlink {
                MtreeStep::Create(MtreeEntryKind::Symlink)
            } else {
                MtreeStep::Mismatch("link", "symlink")
            },
            _ => MtreeStep::ReadNotFollowed,
        },
        Some(_) => MtreeStep::Skip,
    }
}

/// What to do next for an mtree entry, `mtree_step_of` says how.
pub fn mtree_step(declared: Option<MtreeFileType>, probe: MtreeProbe) -> (r: MtreeStep)
    ensures
        r == mtree_step_of(declared, probe),
{
    match declared {
        Some(MtreeFileType::File) => match probe {
            MtreeProbe::Followed { is_file, .. } => if is_file {
                MtreeStep::Create(MtreeEntryKind::File)
            } else {
                MtreeStep::Mismatch("file", "regular file")
            },
            _ => MtreeStep::ReadFollowed,
        },
        None => match probe {
            MtreeProbe::Followed { is_file, is_dir } => if is_file {
                MtreeStep::Create(MtreeEntryKind::File)
            } else if is_dir {
                MtreeStep::Create(MtreeEntryKind::Directory)
            } else {
                MtreeStep::ReadNotFollowed
            },
            MtreeProbe::NotFollowed { is_symlink, .. } => if is_symlink {
                MtreeStep::Create(MtreeEntryKind::Symlink)
            } else {
                MtreeStep::Unsupported
            },
            _ => MtreeStep::ReadFollowed,
        },
        Some(MtreeFileType::Directory) => match probe {
            MtreeProbe::NotFollowed { is_dir, .. } => if is_dir {
                MtreeStep::Create(MtreeEntryKind::Directory)
            } else {
                MtreeStep::Mismatch("dir", "directory")
            },
            MtreeProbe::NotFollowedFailed => MtreeStep::Create(MtreeEntryKind::Directory),
            _ => MtreeStep::ReadNotFollowed,
        },
        Some(MtreeFileType::SymbolicLink) => match probe {
            MtreeProbe::NotFollowed { is_symlink, .. } => if is_symlink {
                MtreeStep::Create(MtreeEntryKind::Symlink)
            } else {
                MtreeStep::Mismatch("link", "symlink")
            },
            _ => MtreeStep::ReadNotFollowed,
        },
        Some(_) => MtreeStep::Skip,
    }
}

} // verus!
