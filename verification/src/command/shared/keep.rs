//! Which metadata a command keeps, as chosen by pairs of `--keep-*` and
//! `--no-keep-*` flags, and how the timestamp and permission options
//! resolve into strategies.
use vstd::prelude::*;
use crate::command::shared::permission::{ModeStrategy, OwnerOptions, OwnerStrategy};
use crate::command::shared::timestamp::{TimeSource, TimestampStrategy};
use crate::time::Timestamp;

verus! {

/// Whether to keep extended attributes.
#[derive(Clone, Copy, Debug, PartialEq, Eq, PartialOrd, Ord, Hash)]
pub enum XattrStrategy {
    Never,
    Always,
}

impl XattrStrategy {
    /// `--no-keep-xattr` wins over `--keep-xattr`; neither keeps nothing.
    pub fn from_flags(keep_xattr: bool, no_keep_xattr: bool) -> (r: Self)
        ensures
            r == (if keep_xattr && !no_keep_xattr { XattrStrategy::Always } else { XattrStrategy::Never }),
    {
        if no_keep_xattr {
            XattrStrategy::Never
        } else if keep_xattr {
            XattrStrategy::Always
        } else {
            XattrStrategy::Never
        }
    }
}

/// Whether to keep access-control lists.
#[derive(Clone, Copy, Debug, PartialEq, Eq, PartialOrd, Ord, Hash)]
pub enum AclStrategy {
    Never,
    Always,
}

impl AclStrategy {
    /// `--no-keep-acl` wins over `--keep-acl`; neither keeps nothing.
    pub fn from_flags(keep_acl: bool, no_keep_acl: bool) -> (r: Self)
        ensures
            r == (if keep_acl && !no_keep_acl { AclStrategy::Always } else { AclStrategy::Never }),
    {
        if no_keep_acl {
            AclStrategy::Never
        } else if keep_acl {
            AclStrategy::Always
        } else {
            AclStrategy::Never
        }
    }
}

/// Whether to keep file flags.
#[derive(Clone, Copy, Debug, PartialEq, Eq, PartialOrd, Ord, Hash)]
pub enum FflagsStrategy {
    Never,
    Always,
}

impl FflagsStrategy {
    /// `--no-keep-fflags` wins over `--keep-fflags`; neither keeps nothing.
    pub fn from_flags(keep_fflags: bool, no_keep_fflags: bool) -> (r: Self)
        ensures
            r == (if keep_fflags && !no_keep_fflags { FflagsStrategy::Always } else { FflagsStrategy::Never }),
    {
        if no_keep_fflags {
            FflagsStrategy::Never
        } else if keep_fflags {
            FflagsStrategy::Always
        } else {
            FflagsStrategy::Never
        }
    }
}

/// Whether to store macOS metadata as AppleDouble (`._`) entries.
#[derive(Clone, Copy, Debug, Default, PartialEq, Eq, PartialOrd, Ord, Hash)]
pub enum MacMetadataStrategy {
    #[default]
    Never,
    Always,
}

impl MacMetadataStrategy {
    /// The strategy on this platform, which has no macOS metadata: never,
    /// whatever the flags say.
    pub fn from_flags(mac_metadata: bool, no_mac_metadata: bool) -> (r: Self)
        ensures
            r == MacMetadataStrategy::Never,
    {
        MacMetadataStrategy::Never
    }
}

/// All that a command keeps of an entry's metadata.
#[derive(Clone, Debug, PartialEq, Eq)]
pub struct KeepOptions {
    pub timestamp_strategy: TimestampStrategy,
    pub mode_strategy: ModeStrategy,
    pub owner_strategy: OwnerStrategy,
    pub xattr_strategy: XattrStrategy,
    pub acl_strategy: AclStrategy,
    pub fflags_strategy: FflagsStrategy,
    pub mac_metadata_strategy: MacMetadataStrategy,
}

/// The timestamp options of a command line.
#[derive(Clone, Copy, Debug)]
pub struct TimestampStrategyResolver {
    pub keep_timestamp: bool,
    pub no_keep_timestamp: bool,
    /// Whether timestamps are kept when no option says.
    pub default_preserve: bool,
    pub mtime: Option<Timestamp>,
    pub clamp_mtime: bool,
    pub ctime: Option<Timestamp>,
    pub clamp_ctime: bool,
    pub atime: Option<Timestamp>,
    pub clamp_atime: bool,
}

/// Where one timestamp comes from: a given time clamps the source's with
/// `clamp`, else overrides it; without one, the source's.
pub open spec fn time_source_of(value: Option<Timestamp>, clamp: bool) -> TimeSource {
    match value {
        Some(t) => if clamp {
            TimeSource::ClampTo(t)
        } else {
            TimeSource::Override(t)
        },
        None => TimeSource::FromSource,
    }
}

/// How the timestamp options resolve: `--no-keep-timestamp` keeps none;
/// `--keep-timestamp` or any given time keeps them with each given time
/// applied; else the command's default.
pub open spec fn timestamp_strategy_of(o: TimestampStrategyResolver) -> TimestampStrategy {
    if o.no_keep_timestamp {
        TimestampStrategy::NoPreserve
    } else if o.keep_timestamp || o.mtime is Some || o.ctime is Some || o.atime is Some {
        TimestampStrategy::Preserve {
            mtime: time_source_of(o.mtime, o.clamp_mtime),
            ctime: time_source_of(o.ctime, o.clamp_ctime),
            atime: time_source_of(o.atime, o.clamp_atime),
        }
    } else if o.default_preserve {
        TimestampStrategy::Preserve {
            mtime: TimeSource::FromSource,
            ctime: TimeSource::FromSource,
            atime: TimeSource::FromSource,
        }
    } else {
        TimestampStrategy::NoPreserve
    }
}

impl TimestampStrategyResolver {
    /// Where one timestamp comes from.
    pub fn time_source_from(value: Option<Timestamp>, clamp: bool) -> (r: TimeSource)
        ensures
            r == time_source_of(value, clamp),
    {
        match (value, clamp) {
            (Some(t), true) => TimeSource::ClampTo(t),
            (Some(t), false) => TimeSource::Override(t),
            (None, _) => TimeSource::FromSource,
        }
    }

    /// Whether any time was given.
    pub fn has_any_override(&self) -> (r: bool)
        ensures
            r == (self.mtime is Some || self.ctime is Some || self.atime is Some),
    {
        self.mtime.is_some() || self.ctime.is_some() || self.atime.is_some()
    }

    /// The strategy the options resolve into, `timestamp_strategy_of` says
    /// how.
    pub fn resolve(self) -> (r: TimestampStrategy)
        ensures
            r == timestamp_strategy_of(self),
    {
        if self.no_keep_timestamp {
            TimestampStrategy::NoPreserve
        } else if self.keep_timestamp || self.has_any_override() {
            TimestampStrategy::Preserve {
                mtime: Self::time_source_from(self.mtime, self.clamp_mtime),
                ctime: Self::time_source_from(self.ctime, self.clamp_ctime),
                atime: Self::time_source_from(self.atime, self.clamp_atime),
            }
        } else if self.default_preserve {
            TimestampStrategy::preserve()
        } else {
            TimestampStrategy::NoPreserve
        }
    }
}

/// The permission options of a command line.
#[derive(Clone, Debug)]
pub struct PermissionStrategyResolver {
    pub keep_permission: bool,
    pub no_keep_permission: bool,
    /// Whether ownership is restored (always, when an archive is made).
    pub same_owner: bool,
    pub uname: Option<String>,
    pub gname: Option<String>,
    pub uid: Option<u32>,
    pub gid: Option<u32>,
    pub numeric_owner: bool,
}

/// An optional string as values.
pub open spec fn opt_view(o: Option<String>) -> Option<Seq<char>> {
    match o {
        Some(s) => Some(s@),
        None => None,
    }
}

/// Whether `o` holds the owner overrides of the options: the given ids,
/// and the given names, or empty names with `--numeric-owner`.
pub open spec fn owner_options_from(o: OwnerOptions, p: PermissionStrategyResolver) -> bool {
    &&& o.uid == p.uid
    &&& o.gid == p.gid
    &&& opt_view(o.uname) == if p.numeric_owner { Some(Seq::<char>::empty()) } else { opt_view(p.uname) }
    &&& opt_view(o.gname) == if p.numeric_owner { Some(Seq::<char>::empty()) } else { opt_view(p.gname) }
}

impl PermissionStrategyResolver {
    /// The mode and owner strategies the options resolve into: nothing kept
    /// with `--no-keep-permission` or without `--keep-permission`; else the
    /// mode kept, and the owner kept with the overrides where `same_owner`
    /// says so.
    pub fn resolve(self) -> (r: (ModeStrategy, OwnerStrategy))
        ensures
            (self.no_keep_permission || !self.keep_permission) ==> r.0 == ModeStrategy::Never && r.1 is Never,
            (!self.no_keep_permission && self.keep_permission) ==> r.0 == ModeStrategy::Preserve,
            (!self.no_keep_permission && self.keep_permission && !self.same_owner) ==> r.1 is Never,
            (!self.no_keep_permission && self.keep_permission && self.same_owner) ==> (r.1 matches OwnerStrategy::Preserve { options }
                && owner_options_from(options, self)),
    {
        if self.no_keep_permission {
            (ModeStrategy::Never, OwnerStrategy::Never)
        } else if self.keep_permission {
            let owner_strategy = if self.same_owner {
                OwnerStrategy::Preserve {
                    options: OwnerOptions {
                        uname: if self.numeric_owner { Some(String::new()) } else { self.uname },
                        gname: if self.numeric_owner { Some(String::new()) } else { self.gname },
                        uid: self.uid,
                        gid: self.gid,
                    },
                }
            } else {
                OwnerStrategy::Never
            };
            (ModeStrategy::Preserve, owner_strategy)
        } else {
            (ModeStrategy::Never, OwnerStrategy::Never)
        }
    }
}

/// The owner to store: the ids, each the override or the file's, and the
/// names, each the override or none (then looked up by id).
#[derive(Clone, Debug, PartialEq, Eq)]
pub struct OwnerPlan {
    pub uid: u32,
    pub gid: u32,
    pub uname: Option<String>,
    pub gname: Option<String>,
}

/// What to store of a file's metadata: each timestamp, the owner (with the
/// file's mode), and whether to read the access-control list, the extended
/// attributes and the file flags.
#[derive(Clone, Debug, PartialEq, Eq)]
pub struct MetadataPlan {
    pub created: Option<Timestamp>,
    pub modified: Option<Timestamp>,
    pub accessed: Option<Timestamp>,
    pub owner: Option<OwnerPlan>,
    pub acl: bool,
    pub xattrs: bool,
    pub fflags: bool,
}

/// The time that a source gives for a file's time, as `TimeSource::resolve`
/// does.
pub open spec fn resolved_time(src: TimeSource, fs: Option<Timestamp>) -> Option<Timestamp> {
    match src {
        TimeSource::FromSource => fs,
        TimeSource::Override(t) => Some(t),
        TimeSource::ClampTo(t) => match fs {
            None => None,
            Some(f) => Some(if t@ <= f@ { t } else { f }),
        },
    }
}

/// What is stored of a file's metadata under `keep`: its times as the
/// timestamp strategy resolves them, none without it; its owner with the
/// overrides where ownership is kept; the rest where its strategy says
/// always.
pub open spec fn metadata_plan_of(
    keep: KeepOptions,
    created: Option<Timestamp>,
    modified: Option<Timestamp>,
    accessed: Option<Timestamp>,
    uid: u32,
    gid: u32,
    plan: MetadataPlan,
) -> bool {
    &&& match keep.timestamp_strategy {
        TimestampStrategy::NoPreserve => plan.created is None && plan.modified is None && plan.accessed is None,
        TimestampStrategy::Preserve { mtime, ctime, atime } => {
            &&& plan.created == resolved_time(ctime, created)
            &&& plan.modified == resolved_time(mtime, modified)
            &&& plan.accessed == resolved_time(atime, accessed)
        },
    }
    &&& match keep.owner_strategy {
        OwnerStrategy::Never => plan.owner is None,
        OwnerStrategy::Preserve { options } => plan.owner matches Some(o) && o.uid == (match options.uid {
            Some(u) => u,
            None => uid,
        }) && o.gid == (match options.gid {
            Some(g) => g,
            None => gid,
        }) && opt_view(o.uname) == opt_view(options.uname) && opt_view(o.gname) == opt_view(options.gname),
    }
    &&& plan.acl == (keep.acl_strategy == AclStrategy::Always)
    &&& plan.xattrs == (keep.xattr_strategy == XattrStrategy::Always)
    &&& plan.fflags == (keep.fflags_strategy == FflagsStrategy::Always)
}

/// A copy of an optional string.
fn copy_opt(o: &Option<String>) -> (r: Option<String>)
    ensures
        opt_view(r) == opt_view(*o),
{
    match o {
        Some(s) => Some(s.clone()),
        None => None,
    }
}

/// What to store of a file's metadata, given the times and ids the file
/// system reports, `metadata_plan_of` says how.
pub fn plan_metadata(
    keep: &KeepOptions,
    created: Option<Timestamp>,
    modified: Option<Timestamp>,
    accessed: Option<Timestamp>,
    uid: u32,
    gid: u32,
) -> (r: MetadataPlan)
    ensures
        metadata_plan_of(*keep, created, modified, accessed, uid, gid, r),
{
    let (c, m, a) = match keep.timestamp_strategy {
        TimestampStrategy::Preserve { mtime, ctime, atime } => (
            ctime.resolve(created),
            mtime.resolve(modified),
            atime.resolve(accessed),
        ),
        TimestampStrategy::NoPreserve => (None, None, None),
    };
    let owner = match &keep.owner_strategy {
        OwnerStrategy::Preserve { options } => Some(OwnerPlan {
            uid: match options.uid {
                Some(u) => u,
                None => uid,
            },
            gid: match options.gid {
                Some(g) => g,
                None => gid,
            },
            uname: copy_opt(&options.uname),
            gname: copy_opt(&options.gname),
        }),
        OwnerStrategy::Never => None,
    };
    MetadataPlan {
        created: c,
        modified: m,
        accessed: a,
        owner,
        acl: match keep.acl_strategy {
            AclStrategy::Always => true,
            AclStrategy::Never => false,
        },
        xattrs: match keep.xattr_strategy {
            XattrStrategy::Always => true,
            XattrStrategy::Never => false,
        },
        fflags: match keep.fflags_strategy {
            FflagsStrategy::Always => true,
            FflagsStrategy::Never => false,
        },
    }
}

} // verus!
