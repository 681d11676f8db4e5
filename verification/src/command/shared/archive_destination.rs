//! Where a command writes the archive it makes or rewrites.
use vstd::prelude::*;

verus! {

/// Where an archive is read from.
#[derive(Clone, Debug, PartialEq, Eq)]
pub enum ArchiveSource {
    Stdin,
    File(String),
}

/// Where an archive is written.
#[derive(Clone, Debug, PartialEq, Eq)]
pub enum ArchiveDestination {
    /// Standard output.
    Stdout,
    /// A new file, which must not exist yet.
    CreateNew(String),
    /// A file that is replaced once the archive is complete.
    Replace(String),
    /// The source file, rewritten once the archive is complete.
    InPlace(String),
}

/// The value of a destination: its kind and its path.
pub open spec fn destination_view(d: ArchiveDestination) -> (nat, Seq<char>) {
    match d {
        ArchiveDestination::Stdout => (0, Seq::empty()),
        ArchiveDestination::CreateNew(p) => (1, p@),
        ArchiveDestination::Replace(p) => (2, p@),
        ArchiveDestination::InPlace(p) => (3, p@),
    }
}

/// The message when `--overwrite` has no file to overwrite on creation.
pub open spec fn create_overwrite_message() -> Seq<char> {
    "--overwrite requires --file PATH when creating an archive"@
}

/// The message when `--overwrite` has no file to overwrite on rewriting.
pub open spec fn transform_overwrite_message() -> Seq<char> {
    "--overwrite requires a filesystem destination; specify --output PATH or provide the source with --file"@
}

/// Where `create` writes: standard output without a file, a new file, or
/// with `--overwrite` a replaced file; `--overwrite` without a file is an
/// error.
pub fn resolve_create_destination(file: Option<String>, overwrite: bool) -> (r: Result<ArchiveDestination, String>)
    ensures
        file is None && !overwrite ==> r == Ok::<ArchiveDestination, String>(ArchiveDestination::Stdout),
        file matches Some(p) ==> (r matches Ok(d) && destination_view(d) == (if overwrite { 2nat } else { 1nat }, p@)),
        file is None && overwrite ==> (r matches Err(m) && m@ == create_overwrite_message()),
{
    match (file, overwrite) {
        (None, false) => Ok(ArchiveDestination::Stdout),
        (Some(path), false) => Ok(ArchiveDestination::CreateNew(path)),
        (Some(path), true) => Ok(ArchiveDestination::Replace(path)),
        (None, true) => Err(String::from_str("--overwrite requires --file PATH when creating an archive")),
    }
}

/// Where a rewriting command writes: an output path is replaced with
/// `--overwrite` and created otherwise; without one, standard output, or
/// with `--overwrite` the source file itself, which standard input cannot
/// be.
pub fn resolve_transform_destination(source: &ArchiveSource, output: Option<String>, overwrite: bool) -> (r: Result<ArchiveDestination, String>)
    ensures
        output matches Some(p) ==> (r matches Ok(d) && destination_view(d) == (if overwrite { 2nat } else { 1nat }, p@)),
        output is None && !overwrite ==> r == Ok::<ArchiveDestination, String>(ArchiveDestination::Stdout),
        output is None && overwrite ==> match *source {
            ArchiveSource::File(p) => r matches Ok(d) && destination_view(d) == (3nat, p@),
            ArchiveSource::Stdin => r matches Err(m) && m@ == transform_overwrite_message(),
        },
{
    if let Some(path) = output {
        return Ok(if overwrite {
            ArchiveDestination::Replace(path)
        } else {
            ArchiveDestination::CreateNew(path)
        });
    }
    match (source, overwrite) {
        (_, false) => Ok(ArchiveDestination::Stdout),
        (ArchiveSource::File(path), true) => Ok(ArchiveDestination::InPlace(path.clone())),
        (ArchiveSource::Stdin, true) => Err(String::from_str(
            "--overwrite requires a filesystem destination; specify --output PATH or provide the source with --file",
        )),
    }
}

impl ArchiveDestination {
    /// How the destination is shown: `standard output` or its path.
    pub fn to_string(&self) -> (r: String)
        ensures
            r@ == match *self {
                ArchiveDestination::Stdout => "standard output"@,
                ArchiveDestination::CreateNew(p) => p@,
                ArchiveDestination::Replace(p) => p@,
                ArchiveDestination::InPlace(p) => p@,
            },
    {
        match self {
            ArchiveDestination::Stdout => String::from_str("standard output"),
            ArchiveDestination::CreateNew(p) => p.clone(),
            ArchiveDestination::Replace(p) => p.clone(),
            ArchiveDestination::InPlace(p) => p.clone(),
        }
    }
}

/// The message when a command that needs an archive file is given
/// standard input.
pub open spec fn stdin_unsupported_message() -> Seq<char> {
    "archive input from standard input is not supported by this command yet; specify the archive with --file"@
}

impl ArchiveSource {
    /// The archive at the path where one is given, else standard input.
    pub fn from_path(path: Option<String>) -> (r: ArchiveSource)
        ensures
            match path {
                Some(p) => r == ArchiveSource::File(p),
                None => r == ArchiveSource::Stdin,
            },
    {
        match path {
            Some(p) => ArchiveSource::File(p),
            None => ArchiveSource::Stdin,
        }
    }

    /// The path of the archive, for commands that cannot read standard
    /// input yet.
    pub fn require_file(self) -> (r: Result<String, String>)
        ensures
            match self {
                ArchiveSource::File(p) => r == Ok::<String, String>(p),
                ArchiveSource::Stdin => r matches Err(e) && e@ == stdin_unsupported_message(),
            },
    {
        match self {
            ArchiveSource::File(p) => Ok(p),
            ArchiveSource::Stdin => Err(String::from_str(
                "archive input from standard input is not supported by this command yet; specify the archive with --file",
            )),
        }
    }
}

/// The archive argument of a command that reads one: `--file`, standard
/// input where it is omitted (`-` stays a file name).
#[derive(Clone, Debug, PartialEq, Eq)]
pub struct ArchiveFileArgs {
    pub file: Option<String>,
}

impl ArchiveFileArgs {
    /// Where the archive is read from.
    pub fn source(&self) -> (r: ArchiveSource)
        ensures
            match self.file {
                Some(p) => r matches ArchiveSource::File(q) && q@ == p@,
                None => r == ArchiveSource::Stdin,
            },
    {
        match &self.file {
            Some(p) => ArchiveSource::File(p.clone()),
            None => ArchiveSource::Stdin,
        }
    }

    /// The path of the archive, for commands that cannot read standard
    /// input yet.
    pub fn require_file(&self) -> (r: Result<String, String>)
        ensures
            match self.file {
                Some(p) => r matches Ok(q) && q@ == p@,
                None => r matches Err(e) && e@ == stdin_unsupported_message(),
            },
    {
        self.source().require_file()
    }
}

} // verus!
