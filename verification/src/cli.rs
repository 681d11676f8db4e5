//! Global command-line arguments and the context that commands run in.
use vstd::prelude::*;
use crate::command::shared::permission::Umask;
use crate::cli::value::argon2id_params::Argon2idParams;
use crate::cli::value::compression_level::{level_of_input, CompressionLevel, CompressionLevelInput, DeflateLevel, XzLevel, ZstdLevel};
use crate::cli::value::pbkdf2_sha256_params::Pbkdf2Sha256Params;

pub mod old_style;
pub mod value;

verus! {

/// When to color output.
#[derive(Clone, Copy, Debug, Default, PartialEq, Eq, PartialOrd, Ord, Hash)]
pub enum ColorChoice {
    #[default]
    Auto,
    Always,
    Never,
}

/// How much to log.
#[derive(Clone, Copy, Debug, Default, PartialEq, Eq, PartialOrd, Ord, Hash)]
pub enum LogLevel {
    Off,
    Error,
    #[default]
    Warn,
    Info,
    Debug,
    Trace,
}

/// The most detailed level of messages that are logged.
#[derive(Clone, Copy, Debug, PartialEq, Eq, PartialOrd, Ord, Hash)]
pub enum LevelFilter {
    Off,
    Error,
    Warn,
    Info,
    Debug,
    Trace,
}

/// The filter a log level stands for.
pub open spec fn level_filter_of(l: LogLevel) -> LevelFilter {
    match l {
        LogLevel::Off => LevelFilter::Off,
        LogLevel::Error => LevelFilter::Error,
        LogLevel::Warn => LevelFilter::Warn,
        LogLevel::Info => LevelFilter::Info,
        LogLevel::Debug => LevelFilter::Debug,
        LogLevel::Trace => LevelFilter::Trace,
    }
}

impl LogLevel {
    /// The filter this level stands for.
    pub fn as_level_filter(self) -> (r: LevelFilter)
        ensures
            r == level_filter_of(self),
    {
        match self {
            LogLevel::Off => LevelFilter::Off,
            LogLevel::Error => LevelFilter::Error,
            LogLevel::Warn => LevelFilter::Warn,
            LogLevel::Info => LevelFilter::Info,
            LogLevel::Debug => LevelFilter::Debug,
            LogLevel::Trace => LevelFilter::Trace,
        }
    }
}

/// `--quiet`, `--verbose` and `--log-level`.
#[derive(Clone, Copy, Debug, Default, PartialEq, Eq, PartialOrd, Ord, Hash)]
pub struct VerbosityArgs {
    pub quiet: bool,
    pub verbose: bool,
    pub log_level: LogLevel,
}

impl VerbosityArgs {
    /// The filter for log messages: quiet turns logging off, verbose asks
    /// for debug messages, and the log level decides otherwise.
    pub fn log_level_filter(&self) -> (r: LevelFilter)
        ensures
            r == if self.quiet {
                LevelFilter::Off
            } else if self.verbose {
                LevelFilter::Debug
            } else {
                level_filter_of(self.log_level)
            },
    {
        if self.quiet {
            LevelFilter::Off
        } else if self.verbose {
            LevelFilter::Debug
        } else {
            self.log_level.as_level_filter()
        }
    }
}

/// `--color`.
#[derive(Clone, Copy, Debug, Default, PartialEq, Eq, PartialOrd, Ord, Hash)]
pub struct ColorArgs {
    pub color: ColorChoice,
}

/// The arguments that every command takes.
#[derive(Clone, Copy, Debug, Default, PartialEq, Eq)]
pub struct GlobalArgs {
    pub verbosity: VerbosityArgs,
    pub color: ColorArgs,
    pub unstable: bool,
}

impl GlobalArgs {
    /// The color choice.
    pub fn color(&self) -> (r: ColorChoice)
        ensures
            r == self.color.color,
    {
        self.color.color
    }
}

/// `nix::sys::stat::umask`: sets the process's file-creation mask and
/// gives the one before. It depends on the process, so nothing is stated.
#[verifier::external_body]
fn set_process_umask(mask: u32) -> u32 {
    nix::sys::stat::umask(nix::sys::stat::Mode::from_bits_truncate(mask)).bits()
}

/// `nix::unistd::geteuid`: the process's effective user id, as a number.
/// It depends on the process, so nothing is stated.
#[verifier::external_body]
fn effective_uid() -> u32 {
    nix::unistd::geteuid().as_raw()
}

/// The permission bits of a file-creation mask as the process reports it.
pub fn umask_bits(raw: u32) -> (r: u16)
    ensures
        r as u32 == raw & 0o7777,
        r <= 0o7777,
{
    assert(raw & 0o7777u32 <= 0o7777u32) by (bit_vector);
    (raw & 0o7777) as u16
}

/// The process's file-creation mask: read by setting an empty mask and
/// putting the old one back; its permission bits whatever the process
/// reports.
pub fn current_umask() -> (r: u16)
    ensures
        r <= 0o7777,
{
    let old = set_process_umask(0);
    set_process_umask(old);
    umask_bits(old)
}

/// Whether a user id is root's.
pub fn uid_is_root(uid: u32) -> (r: bool)
    ensures
        r == (uid == 0),
{
    uid == 0
}

/// Whether the process runs with the effective user id of root: whether
/// `uid_is_root` holds of the id the process reports. Which id that is
/// depends on the process and is not stated.
pub fn is_running_as_root() -> (r: bool) {
    uid_is_root(effective_uid())
}

/// The context commands run in: the global arguments and the values of the
/// process read once when it is made.
#[derive(Debug)]
pub struct GlobalContext {
    args: GlobalArgs,
    umask: Umask,
    is_root: bool,
}

impl GlobalContext {
    /// The global arguments.
    pub closed spec fn spec_args(&self) -> GlobalArgs {
        self.args
    }

    /// The umask read when the context was made.
    pub closed spec fn spec_umask(&self) -> Umask {
        self.umask
    }

    /// Whether the process ran as root when the context was made.
    pub closed spec fn spec_is_root(&self) -> bool {
        self.is_root
    }

    /// Makes the context, reading the process's umask and user id; call it
    /// before threads that create files are started.
    pub fn new(args: GlobalArgs) -> (r: Self)
        ensures
            r.spec_args() == args,
            r.spec_umask().wf(),
    {
        GlobalContext { umask: Umask::new(current_umask()), is_root: is_running_as_root(), args }
    }

    /// The umask read when the context was made.
    pub fn umask(&self) -> (r: Umask)
        ensures
            r == self.spec_umask(),
    {
        self.umask
    }

    /// Whether the process runs as root.
    pub fn is_root(&self) -> (r: bool)
        ensures
            r == self.spec_is_root(),
    {
        self.is_root
    }

    /// The color choice of the global arguments.
    pub fn color(&self) -> (r: ColorChoice)
        ensures
            r == self.spec_args().color.color,
    {
        self.args.color()
    }

    /// Whether unstable features are enabled.
    pub fn unstable(&self) -> (r: bool)
        ensures
            r == self.spec_args().unstable,
    {
        self.args.unstable
    }
}

/// The archive and the files of a command, where the archive may still be
/// given positionally.
#[derive(Clone, Debug, PartialEq, Eq)]
pub struct FileArgsCompat {
    pub file: Option<String>,
    pub archive: Option<String>,
    pub files: Vec<String>,
}

/// The values of a list of strings.
pub open spec fn string_views(v: Seq<String>) -> Seq<Seq<char>> {
    Seq::new(v.len(), |i: int| v[i]@)
}

/// A copy of a list of strings.
fn strings_copy(v: &Vec<String>) -> (r: Vec<String>)
    ensures
        string_views(r@) == string_views(v@),
{
    let mut out: Vec<String> = Vec::new();
    let mut i: usize = 0;
    while i < v.len()
        invariant
            i <= v.len(),
            string_views(out@) =~= string_views(v@).take(i as int),
        decreases v.len() - i,
    {
        let ghost before = string_views(out@);
        out.push(v[i].clone());
        assert(string_views(out@) =~= before.push(v@[i as int]@));
        assert(string_views(v@).take(i + 1) =~= string_views(v@).take(i as int).push(v@[i as int]@));
        i = i + 1;
    }
    assert(string_views(v@).take(v.len() as int) =~= string_views(v@));
    out
}

impl FileArgsCompat {
    /// The archive: `--file` where given, else the positional archive.
    /// One of them is always given.
    pub fn archive(&self) -> (r: String)
        requires
            self.file is Some || self.archive is Some,
        ensures
            r@ == match self.file {
                Some(f) => f@,
                None => self.archive->0@,
            },
    {
        match &self.file {
            Some(f) => f.clone(),
            None => match &self.archive {
                Some(a) => a.clone(),
                None => String::new(),
            },
        }
    }

    /// The files: with `--file` given, a positional archive is the first
    /// file.
    pub fn files(&self) -> (r: Vec<String>)
        ensures
            string_views(r@) == match (self.file, self.archive) {
                (Some(_), Some(a)) => seq![a@] + string_views(self.files@),
                _ => string_views(self.files@),
            },
    {
        let mut files = strings_copy(&self.files);
        if self.file.is_some() {
            if let Some(a) = &self.archive {
                let ghost before = string_views(files@);
                files.insert(0, a.clone());
                assert(string_views(files@) =~= seq![a@] + before);
            }
        }
        files
    }
}

/// How solid entries are handled when entries are rewritten.
#[derive(Clone, Copy, Debug, PartialEq, Eq, PartialOrd, Ord, Hash)]
pub enum SolidEntriesTransformStrategy {
    UnSolid,
    KeepSolid,
}

/// `--unsolid` and `--keep-solid`.
#[derive(Clone, Copy, Debug, Default, PartialEq, Eq, PartialOrd, Ord, Hash)]
pub struct SolidEntriesTransformStrategyArgs {
    pub unsolid: bool,
    pub keep_solid: bool,
}

impl SolidEntriesTransformStrategyArgs {
    /// Solid entries are converted with `--unsolid` and kept otherwise.
    pub fn strategy(&self) -> (r: SolidEntriesTransformStrategy)
        ensures
            r == if self.unsolid {
                SolidEntriesTransformStrategy::UnSolid
            } else {
                SolidEntriesTransformStrategy::KeepSolid
            },
    {
        if self.unsolid {
            SolidEntriesTransformStrategy::UnSolid
        } else {
            SolidEntriesTransformStrategy::KeepSolid
        }
    }
}

/// The compression of an archive's entries.
#[derive(Clone, Copy, Debug, PartialEq, Eq)]
pub enum Compression {
    No,
    Deflate,
    ZStandard,
    XZ,
}

/// The compression options: `--store`, or one algorithm with an optional
/// level.
#[derive(Clone, Copy, Debug, PartialEq, Eq)]
pub struct CompressionAlgorithmArgs {
    pub store: bool,
    pub deflate: Option<Option<DeflateLevel>>,
    pub zstd: Option<Option<ZstdLevel>>,
    pub xz: Option<Option<XzLevel>>,
}

/// The level that an optional level argument stands for.
pub open spec fn optional_level<const MIN: u8, const MAX: u8>(l: Option<CompressionLevelInput<MIN, MAX>>) -> Option<CompressionLevel> {
    match l {
        Some(v) => Some(level_of_input(v)),
        None => None,
    }
}

/// The compression that the options choose: none with `--store`, else xz,
/// zstd or deflate in that order of precedence with the level given;
/// zstd at its default level where no option is given.
pub open spec fn compression_of(a: CompressionAlgorithmArgs) -> (Compression, Option<CompressionLevel>) {
    if a.store {
        (Compression::No, None)
    } else if a.xz is Some {
        (Compression::XZ, optional_level(a.xz->0))
    } else if a.zstd is Some {
        (Compression::ZStandard, optional_level(a.zstd->0))
    } else if a.deflate is Some {
        (Compression::Deflate, optional_level(a.deflate->0))
    } else {
        (Compression::ZStandard, None)
    }
}

/// The level of an optional level argument.
fn optional_level_exec<const MIN: u8, const MAX: u8>(l: Option<CompressionLevelInput<MIN, MAX>>) -> (r: Option<CompressionLevel>)
    ensures
        r == optional_level(l),
{
    match l {
        Some(v) => Some(v.level()),
        None => None,
    }
}

impl CompressionAlgorithmArgs {
    /// The compression that the options choose, `compression_of` says how.
    pub fn algorithm(&self) -> (r: (Compression, Option<CompressionLevel>))
        ensures
            r == compression_of(*self),
    {
        if self.store {
            (Compression::No, None)
        } else if let Some(level) = self.xz {
            (Compression::XZ, optional_level_exec(level))
        } else if let Some(level) = self.zstd {
            (Compression::ZStandard, optional_level_exec(level))
        } else if let Some(level) = self.deflate {
            (Compression::Deflate, optional_level_exec(level))
        } else {
            (Compression::ZStandard, None)
        }
    }
}

/// The cipher of an encrypted archive.
#[derive(Clone, Copy, Debug, PartialEq, Eq)]
pub enum Encryption {
    Aes,
    Camellia,
}

/// The block cipher mode.
#[derive(Clone, Copy, Debug, Default, PartialEq, Eq, PartialOrd, Ord, Hash)]
pub enum CipherMode {
    Cbc,
    #[default]
    Ctr,
}

/// The cipher options: `--aes` or `--camellia`, each with an optional
/// mode.
#[derive(Clone, Copy, Debug, PartialEq, Eq)]
pub struct CipherAlgorithmArgs {
    pub aes: Option<Option<CipherMode>>,
    pub camellia: Option<Option<CipherMode>>,
}

impl CipherAlgorithmArgs {
    /// The cipher the options choose: AES unless only Camellia is asked
    /// for.
    pub fn algorithm(&self) -> (r: Encryption)
        ensures
            r == (if self.aes is None && self.camellia is Some { Encryption::Camellia } else { Encryption::Aes }),
    {
        if self.aes.is_some() {
            Encryption::Aes
        } else if self.camellia.is_some() {
            Encryption::Camellia
        } else {
            Encryption::Aes
        }
    }

    /// The mode the options choose: the one given with the chosen cipher,
    /// CTR where none is given.
    pub fn mode(&self) -> (r: CipherMode)
        ensures
            r == match (self.aes, self.camellia) {
                (Some(Some(m)), _) => m,
                (Some(None), _) => CipherMode::Ctr,
                (None, Some(Some(m))) => m,
                _ => CipherMode::Ctr,
            },
    {
        let chosen = match (self.aes, self.camellia) {
            (Some(m), _) => m,
            (_, Some(m)) => m,
            (None, None) => None,
        };
        match chosen {
            Some(m) => m,
            None => CipherMode::Ctr,
        }
    }
}

/// How a password is hashed into a key, with the parameters given (the
/// library's defaults where absent).
#[derive(Clone, Copy, Debug, PartialEq, Eq)]
pub enum HashAlgorithm {
    Pbkdf2Sha256 { rounds: Option<u32> },
    Argon2id { time: Option<u32>, memory: Option<u32>, parallelism: Option<u32> },
}

/// The password-hashing options: `--argon2` or `--pbkdf2`, each with
/// optional parameters.
#[derive(Clone, Debug, PartialEq, Eq)]
pub struct HashAlgorithmArgs {
    pub argon2: Option<Option<Argon2idParams>>,
    pub pbkdf2: Option<Option<Pbkdf2Sha256Params>>,
}

impl HashAlgorithmArgs {
    /// The hashing the options choose: PBKDF2 where asked for, with its
    /// rounds where given; else Argon2id, with its parameters where given.
    pub fn algorithm(&self) -> (r: HashAlgorithm)
        ensures
            r == match (self.pbkdf2, self.argon2) {
                (Some(Some(p)), _) => HashAlgorithm::Pbkdf2Sha256 { rounds: p.rounds },
                (Some(None), _) => HashAlgorithm::Pbkdf2Sha256 { rounds: None },
                (None, Some(Some(a))) => HashAlgorithm::Argon2id {
                    time: a.time,
                    memory: a.memory,
                    parallelism: a.parallelism,
                },
                _ => HashAlgorithm::Argon2id { time: None, memory: None, parallelism: None },
            },
    {
        match &self.pbkdf2 {
            Some(Some(params)) => HashAlgorithm::Pbkdf2Sha256 { rounds: params.rounds },
            Some(None) => HashAlgorithm::Pbkdf2Sha256 { rounds: None },
            None => match &self.argon2 {
                Some(Some(params)) => HashAlgorithm::Argon2id {
                    time: params.time,
                    memory: params.memory,
                    parallelism: params.parallelism,
                },
                _ => HashAlgorithm::Argon2id { time: None, memory: None, parallelism: None },
            },
        }
    }
}

} // verus!
