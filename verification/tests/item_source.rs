use pna_cli::command::shared::archive_destination::ArchiveSource;
use pna_cli::command::shared::item_source::{validate_no_duplicate_stdin, validate_no_stdin_stdout_conflict, ItemSource};
use pna_cli::command::shared::keep::{
    AclStrategy, FflagsStrategy, MacMetadataStrategy, PermissionStrategyResolver, TimestampStrategyResolver,
    XattrStrategy,
};
use pna_cli::command::shared::permission::{ModeStrategy, OwnerOptions, OwnerStrategy};
use pna_cli::command::shared::timestamp::{TimeSource, TimestampStrategy};
use pna_cli::time::Timestamp;

#[test]
fn at_alone_is_stdin() {
    let result = ItemSource::parse("@");
    assert!(matches!(result, ItemSource::Archive(ArchiveSource::Stdin)));
}

#[test]
fn at_dash_is_stdin() {
    let result = ItemSource::parse("@-");
    assert!(matches!(result, ItemSource::Archive(ArchiveSource::Stdin)));
}

#[test]
fn at_path_is_archive_file() {
    let result = ItemSource::parse("@archive.pna");
    assert!(matches!(
        result,
        ItemSource::Archive(ArchiveSource::File(p)) if p == "archive.pna"
    ));
}

#[test]
fn plain_path_is_filesystem() {
    let result = ItemSource::parse("some/path");
    assert!(matches!(
        result,
        ItemSource::Filesystem(p) if p == "some/path"
    ));
}

#[test]
fn dot_slash_at_is_filesystem_escape() {
    let result = ItemSource::parse("./@file");
    assert!(matches!(
        result,
        ItemSource::Filesystem(p) if p == "./@file"
    ));
}

#[test]
fn parse_many_mixed() {
    let args = vec![
        "file1".to_string(),
        "@archive.pna".to_string(),
        "@".to_string(),
        "./@literal".to_string(),
    ];
    let results = ItemSource::parse_many(&args);
    assert_eq!(results.len(), 4);
    assert!(matches!(&results[0], ItemSource::Filesystem(p) if p == "file1"));
    assert!(matches!(&results[1], ItemSource::Archive(ArchiveSource::File(p)) if p == "archive.pna"));
    assert!(matches!(&results[2], ItemSource::Archive(ArchiveSource::Stdin)));
    assert!(matches!(&results[3], ItemSource::Filesystem(p) if p == "./@literal"));
}

#[test]
fn validate_no_duplicate_stdin_ok() {
    let sources = vec![
        ItemSource::Filesystem("file".to_string()),
        ItemSource::Archive(ArchiveSource::Stdin),
        ItemSource::Archive(ArchiveSource::File("archive.pna".to_string())),
    ];
    assert!(validate_no_duplicate_stdin(&sources).is_ok());
}

#[test]
fn validate_no_duplicate_stdin_error() {
    let sources = vec![
        ItemSource::Archive(ArchiveSource::Stdin),
        ItemSource::Archive(ArchiveSource::Stdin),
    ];
    assert!(validate_no_duplicate_stdin(&sources).is_err());
}

#[test]
fn validate_no_duplicate_stdin_empty() {
    let sources: Vec<ItemSource> = vec![];
    assert!(validate_no_duplicate_stdin(&sources).is_ok());
}

#[test]
fn stdin_source_conflicts_with_stdout_output() {
    let sources = vec![ItemSource::parse("a"), ItemSource::parse("@-")];
    assert_eq!(
        validate_no_stdin_stdout_conflict(&sources, true).unwrap_err(),
        "cannot use stdin as archive source (@- or @) when outputting to stdout (-f -)"
    );
    assert!(validate_no_stdin_stdout_conflict(&sources, false).is_ok());
    assert!(validate_no_stdin_stdout_conflict(&sources[..1], true).is_ok());
}

#[test]
fn keep_flags_resolve() {
    assert_eq!(XattrStrategy::from_flags(true, false), XattrStrategy::Always);
    assert_eq!(XattrStrategy::from_flags(true, true), XattrStrategy::Never);
    assert_eq!(AclStrategy::from_flags(false, false), AclStrategy::Never);
    assert_eq!(FflagsStrategy::from_flags(true, false), FflagsStrategy::Always);
    assert_eq!(MacMetadataStrategy::from_flags(true, false), MacMetadataStrategy::Never);
}

#[test]
fn timestamp_options_resolve() {
    let t = Timestamp::from_unix_secs(100);
    let base = TimestampStrategyResolver {
        keep_timestamp: false,
        no_keep_timestamp: false,
        default_preserve: false,
        mtime: None,
        clamp_mtime: false,
        ctime: None,
        clamp_ctime: false,
        atime: None,
        clamp_atime: false,
    };
    assert_eq!(base.resolve(), TimestampStrategy::NoPreserve);
    assert_eq!(
        TimestampStrategyResolver { default_preserve: true, ..base }.resolve(),
        TimestampStrategy::preserve()
    );
    assert_eq!(
        TimestampStrategyResolver { mtime: Some(t), clamp_mtime: true, ..base }.resolve(),
        TimestampStrategy::Preserve {
            mtime: TimeSource::ClampTo(t),
            ctime: TimeSource::FromSource,
            atime: TimeSource::FromSource
        }
    );
    assert_eq!(
        TimestampStrategyResolver { mtime: Some(t), no_keep_timestamp: true, ..base }.resolve(),
        TimestampStrategy::NoPreserve
    );
}

#[test]
fn permission_options_resolve() {
    let base = PermissionStrategyResolver {
        keep_permission: true,
        no_keep_permission: false,
        same_owner: true,
        uname: Some("user".to_string()),
        gname: None,
        uid: Some(5),
        gid: None,
        numeric_owner: false,
    };
    assert_eq!(
        base.clone().resolve(),
        (
            ModeStrategy::Preserve,
            OwnerStrategy::Preserve {
                options: OwnerOptions { uname: Some("user".to_string()), gname: None, uid: Some(5), gid: None }
            }
        )
    );
    assert_eq!(
        PermissionStrategyResolver { numeric_owner: true, ..base.clone() }.resolve().1,
        OwnerStrategy::Preserve {
            options: OwnerOptions { uname: Some(String::new()), gname: Some(String::new()), uid: Some(5), gid: None }
        }
    );
    assert_eq!(
        PermissionStrategyResolver { same_owner: false, ..base.clone() }.resolve(),
        (ModeStrategy::Preserve, OwnerStrategy::Never)
    );
    assert_eq!(
        PermissionStrategyResolver { no_keep_permission: true, ..base }.resolve(),
        (ModeStrategy::Never, OwnerStrategy::Never)
    );
}
