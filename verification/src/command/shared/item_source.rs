//! File arguments of the commands that make archives: a path on the file
//! system, or `@archive` for the entries of another archive (bsdtar's
//! convention; `@` and `@-` read it from standard input).
use vstd::prelude::*;
use crate::command::shared::archive_destination::ArchiveSource;
use crate::text::{chars_between, chars_of, string_from_chars};

verus! {

/// What a file argument names.
#[derive(Clone, Debug, PartialEq, Eq)]
pub enum ItemSource {
    /// A file or directory on the file system.
    Filesystem(String),
    /// An archive whose entries are included.
    Archive(ArchiveSource),
}

/// What a file argument names, as values.
pub ghost enum ItemSourceModel {
    Filesystem(Seq<char>),
    ArchiveStdin,
    ArchiveFile(Seq<char>),
}

impl View for ItemSource {
    type V = ItemSourceModel;

    open spec fn view(&self) -> ItemSourceModel {
        match self {
            ItemSource::Filesystem(p) => ItemSourceModel::Filesystem(p@),
            ItemSource::Archive(ArchiveSource::Stdin) => ItemSourceModel::ArchiveStdin,
            ItemSource::Archive(ArchiveSource::File(p)) => ItemSourceModel::ArchiveFile(p@),
        }
    }
}

/// What an argument names: after a leading `@`, standard input where
/// nothing or `-` follows, else the archive at the rest; without `@` the
/// path as it is (`./@name` names a file that begins with `@`).
pub open spec fn item_source_of(arg: Seq<char>) -> ItemSourceModel {
    if arg.len() > 0 && arg[0] == '@' {
        let p = arg.skip(1);
        if p.len() == 0 || p == seq!['-'] {
            ItemSourceModel::ArchiveStdin
        } else {
            ItemSourceModel::ArchiveFile(p)
        }
    } else {
        ItemSourceModel::Filesystem(arg)
    }
}

/// How many of the sources read an archive from standard input.
pub open spec fn stdin_count(sources: Seq<ItemSourceModel>) -> nat
    decreases sources.len(),
{
    if sources.len() == 0 {
        0
    } else {
        stdin_count(sources.drop_last()) + if sources.last() is ArchiveStdin {
            1nat
        } else {
            0nat
        }
    }
}

/// The sources as values.
pub open spec fn sources_view(sources: Seq<ItemSource>) -> Seq<ItemSourceModel> {
    Seq::new(sources.len(), |i: int| sources[i]@)
}

/// The message when standard input is named twice.
pub open spec fn duplicate_stdin_message() -> Seq<char> {
    "stdin (@- or @) can only be specified once as an archive source"@
}

/// The message when standard input and standard output are both taken.
pub open spec fn stdin_stdout_message() -> Seq<char> {
    "cannot use stdin as archive source (@- or @) when outputting to stdout (-f -)"@
}

impl ItemSource {
    /// Reads one file argument, `item_source_of` says how.
    pub fn parse(arg: &str) -> (r: ItemSource)
        ensures
            r@ == item_source_of(arg@),
    {
        let cs = chars_of(arg);
        if cs.len() > 0 && cs[0] == '@' {
            let rest = chars_between(cs.as_slice(), 1, cs.len());
            assert(rest@ =~= arg@.skip(1));
            if rest.len() == 0 || (rest.len() == 1 && rest[0] == '-') {
                proof {
                    if rest.len() == 1 {
                        assert(rest@ =~= seq!['-']);
                    }
                }
                ItemSource::Archive(ArchiveSource::Stdin)
            } else {
                proof {
                    if rest.len() == 1 {
                        assert(rest@ != seq!['-']) by {
                            assert(rest@[0] != '-');
                        }
                    }
                }
                ItemSource::Archive(ArchiveSource::File(string_from_chars(rest.as_slice())))
            }
        } else {
            ItemSource::Filesystem(String::from_str(arg))
        }
    }

    /// Reads each file argument in turn.
    pub fn parse_many(args: &[String]) -> (r: Vec<ItemSource>)
        ensures
            r@.len() == args@.len(),
            forall|i: int| 0 <= i < args@.len() ==> (#[trigger] r@[i])@ == item_source_of(args@[i]@),
    {
        let mut out: Vec<ItemSource> = Vec::new();
        let mut i: usize = 0;
        while i < args.len()
            invariant
                i <= args.len(),
                out@.len() == i,
                forall|k: int| 0 <= k < i ==> (#[trigger] out@[k])@ == item_source_of(args@[k]@),
            decreases args.len() - i,
        {
            out.push(ItemSource::parse(args[i].as_str()));
            i = i + 1;
        }
        out
    }
}

/// Whether a source reads an archive from standard input.
fn is_stdin(s: &ItemSource) -> (r: bool)
    ensures
        r == (s@ is ArchiveStdin),
{
    match s {
        ItemSource::Archive(ArchiveSource::Stdin) => true,
        _ => false,
    }
}

/// Refuses standard input named more than once, as it can be read once.
pub fn validate_no_duplicate_stdin(sources: &[ItemSource]) -> (r: Result<(), String>)
    ensures
        r is Ok <==> stdin_count(sources_view(sources@)) <= 1,
        r matches Err(e) ==> e@ == duplicate_stdin_message(),
{
    let ghost sv = sources_view(sources@);
    let mut count: usize = 0;
    let mut i: usize = 0;
    while i < sources.len()
        invariant
            i <= sources.len(),
            sv == sources_view(sources@),
            count == stdin_count(sv.take(i as int)),
            count <= i,
        decreases sources.len() - i,
    {
        assert(sv.take(i + 1).drop_last() =~= sv.take(i as int));
        if is_stdin(&sources[i]) {
            count = count + 1;
        }
        i = i + 1;
    }
    assert(sv.take(i as int) =~= sv);
    if count > 1 {
        Err(String::from_str("stdin (@- or @) can only be specified once as an archive source"))
    } else {
        Ok(())
    }
}

/// Refuses standard input as a source when the archive goes to standard
/// output, as both would need the standard streams.
pub fn validate_no_stdin_stdout_conflict(sources: &[ItemSource], output_is_stdout: bool) -> (r: Result<(), String>)
    ensures
        r is Err <==> output_is_stdout && exists|i: int| 0 <= i < sources@.len() && (#[trigger] sources@[i])@ is ArchiveStdin,
        r matches Err(e) ==> e@ == stdin_stdout_message(),
{
    if output_is_stdout {
        let mut i: usize = 0;
        while i < sources.len()
            invariant
                output_is_stdout,
                i <= sources.len(),
                forall|k: int| 0 <= k < i ==> !((#[trigger] sources@[k])@ is ArchiveStdin),
            decreases sources.len() - i,
        {
            if is_stdin(&sources[i]) {
                return Err(String::from_str(
                    "cannot use stdin as archive source (@- or @) when outputting to stdout (-f -)",
                ));
            }
            i = i + 1;
        }
    }
    Ok(())
}

} // verus!
