use pna_cli::command::shared::collect::{classify_entry, is_broken_symlink_error, store_kind, walk_step, EntryClass, StoreKind, WalkStep};
use pna_cli::command::shared::keep::{
    plan_metadata, AclStrategy, FflagsStrategy, KeepOptions, MacMetadataStrategy, OwnerPlan, XattrStrategy,
};
use pna_cli::command::shared::permission::{ModeStrategy, OwnerOptions, OwnerStrategy};
use pna_cli::command::shared::timestamp::{TimeSource, TimestampStrategy};
use pna_cli::time::Timestamp;

#[test]
fn links_are_followed_where_asked() {
    let link_to_dir = |depth, follow_links, follow_command_links| {
        classify_entry(false, false, true, depth, follow_links, follow_command_links, true, false)
    };
    assert_eq!(link_to_dir(1, false, false), EntryClass { is_dir: false, is_file: false, is_symlink: true });
    assert_eq!(link_to_dir(1, true, false), EntryClass { is_dir: true, is_file: false, is_symlink: false });
    assert_eq!(link_to_dir(0, false, true), EntryClass { is_dir: true, is_file: false, is_symlink: false });
    assert_eq!(link_to_dir(2, false, true), EntryClass { is_dir: false, is_file: false, is_symlink: true });
}

#[test]
fn entries_are_kept_by_kind() {
    let dir = EntryClass { is_dir: true, is_file: false, is_symlink: false };
    assert_eq!(store_kind(dir, true), Ok(Some(StoreKind::Dir)));
    assert_eq!(store_kind(dir, false), Ok(None));
    let file = EntryClass { is_dir: false, is_file: true, is_symlink: false };
    assert_eq!(store_kind(file, false), Ok(Some(StoreKind::File)));
    let link = EntryClass { is_dir: false, is_file: false, is_symlink: true };
    assert_eq!(store_kind(link, false), Ok(Some(StoreKind::Symlink)));
    let other = EntryClass { is_dir: false, is_file: false, is_symlink: false };
    assert_eq!(store_kind(other, true), Err(()));
}

#[test]
fn metadata_plan_follows_the_keep_options() {
    let t1 = Timestamp::from_unix_secs(10);
    let t2 = Timestamp::from_unix_secs(20);
    let keep = KeepOptions {
        timestamp_strategy: TimestampStrategy::Preserve {
            mtime: TimeSource::ClampTo(t1),
            ctime: TimeSource::FromSource,
            atime: TimeSource::Override(t2),
        },
        mode_strategy: ModeStrategy::Preserve,
        owner_strategy: OwnerStrategy::Preserve {
            options: OwnerOptions { uname: Some("root".to_string()), gname: None, uid: None, gid: Some(7) },
        },
        xattr_strategy: XattrStrategy::Always,
        acl_strategy: AclStrategy::Never,
        fflags_strategy: FflagsStrategy::Always,
        mac_metadata_strategy: MacMetadataStrategy::Never,
    };
    let plan = plan_metadata(&keep, Some(t2), Some(t2), None, 1000, 1000);
    assert_eq!(plan.created, Some(t2));
    assert_eq!(plan.modified, Some(t1));
    assert_eq!(plan.accessed, Some(t2));
    assert_eq!(plan.owner, Some(OwnerPlan { uid: 1000, gid: 7, uname: Some("root".to_string()), gname: None }));
    assert!(!plan.acl && plan.xattrs && plan.fflags);
    let none = KeepOptions {
        timestamp_strategy: TimestampStrategy::NoPreserve,
        owner_strategy: OwnerStrategy::Never,
        ..keep
    };
    let plan = plan_metadata(&none, Some(t2), Some(t2), Some(t2), 1, 1);
    assert_eq!((plan.created, plan.modified, plan.accessed), (None, None, None));
    assert_eq!(plan.owner, None);
}

#[test]
fn walk_skips_excluded_ignored_and_nodump_entries() {
    let dir = EntryClass { is_dir: true, is_file: false, is_symlink: false };
    let file = EntryClass { is_dir: false, is_file: true, is_symlink: false };
    assert_eq!(
        walk_step(dir, true, true, false, false, None, true),
        WalkStep { load_gitignore: false, prune: true, outcome: Ok(None) }
    );
    assert_eq!(
        walk_step(file, false, true, true, false, None, true),
        WalkStep { load_gitignore: false, prune: false, outcome: Ok(None) }
    );
    assert_eq!(
        walk_step(dir, false, true, false, true, Some(true), true),
        WalkStep { load_gitignore: true, prune: true, outcome: Ok(None) }
    );
    assert_eq!(
        walk_step(file, false, false, false, true, None, false),
        WalkStep { load_gitignore: false, prune: false, outcome: Ok(Some(StoreKind::File)) }
    );
    assert_eq!(
        walk_step(dir, false, false, false, false, None, false),
        WalkStep { load_gitignore: false, prune: false, outcome: Ok(None) }
    );
}

#[test]
fn broken_symlinks_are_stored_as_links() {
    assert!(is_broken_symlink_error(true, true));
    assert!(!is_broken_symlink_error(true, false));
    assert!(!is_broken_symlink_error(false, true));
}
