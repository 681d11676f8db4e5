use pna_cli::command::shared::mtree::{mtree_step, MtreeEntryKind, MtreeFileType, MtreeProbe, MtreeStep};
use pna_cli::command::shared::mtree::{id_without_fs, mode_without_fs, resolve_id, resolve_mode, resolve_name, type_mismatch_message, NameSource};

#[test]
fn ids_prefer_override_then_specification() {
    assert_eq!(resolve_id(false, Some(1), Some(2), 3), 1);
    assert_eq!(resolve_id(false, None, Some(2), 3), 2);
    assert_eq!(resolve_id(false, None, None, 3), 3);
    assert_eq!(resolve_id(true, None, Some(2), 3), 3);
    assert_eq!(resolve_id(true, Some(1), Some(2), 3), 1);
}

#[test]
fn names_prefer_override_then_specification() {
    let o = "root".to_string();
    assert_eq!(resolve_name(false, Some(&o), Some(b"x")), NameSource::Given("root".into()));
    assert_eq!(resolve_name(false, None, Some(b"wheel")), NameSource::Given("wheel".into()));
    assert_eq!(resolve_name(true, None, Some(b"wheel")), NameSource::Lookup);
    assert_eq!(resolve_name(false, None, None), NameSource::Lookup);
    assert_eq!(
        type_mismatch_message("a/b", "dir", "directory"),
        "a/b: mtree specifies type=dir but path is not a directory"
    );
}


#[test]
fn mtree_steps_follow_the_declared_type() {
    assert_eq!(mtree_step(Some(MtreeFileType::File), MtreeProbe::Nothing), MtreeStep::ReadFollowed);
    assert_eq!(
        mtree_step(Some(MtreeFileType::File), MtreeProbe::Followed { is_file: false, is_dir: true }),
        MtreeStep::Mismatch("file", "regular file")
    );
    assert_eq!(
        mtree_step(None, MtreeProbe::Followed { is_file: false, is_dir: true }),
        MtreeStep::Create(MtreeEntryKind::Directory)
    );
    assert_eq!(mtree_step(None, MtreeProbe::Followed { is_file: false, is_dir: false }), MtreeStep::ReadNotFollowed);
    assert_eq!(
        mtree_step(None, MtreeProbe::NotFollowed { is_dir: false, is_symlink: false }),
        MtreeStep::Unsupported
    );
    assert_eq!(
        mtree_step(Some(MtreeFileType::Directory), MtreeProbe::NotFollowedFailed),
        MtreeStep::Create(MtreeEntryKind::Directory)
    );
    assert_eq!(
        mtree_step(Some(MtreeFileType::SymbolicLink), MtreeProbe::NotFollowed { is_dir: false, is_symlink: false }),
        MtreeStep::Mismatch("link", "symlink")
    );
    assert_eq!(mtree_step(Some(MtreeFileType::Fifo), MtreeProbe::Nothing), MtreeStep::Skip);
}

#[test]
fn mode_comes_from_the_specification_unless_nochange() {
    assert_eq!(resolve_mode(false, Some(0o600), 0o644), 0o600);
    assert_eq!(resolve_mode(true, Some(0o600), 0o644), 0o644);
    assert_eq!(resolve_mode(false, None, 0o644), 0o644);
    assert_eq!(resolve_mode(false, Some(0x1_01ed), 0), 0o755);
}

#[test]
fn entries_without_files_get_defaults() {
    assert_eq!(id_without_fs(Some(7), Some(8)), 7);
    assert_eq!(id_without_fs(None, Some(8)), 8);
    assert_eq!(id_without_fs(None, None), 0);
    assert_eq!(mode_without_fs(Some(0o640)), 0o640);
    assert_eq!(mode_without_fs(None), 0o755);
}

#[test]
fn names_that_are_not_utf8_are_decoded_lossily() {
    assert_eq!(resolve_name(false, None, Some(&[0x61, 0xff])), NameSource::Given("a\u{FFFD}".into()));
}
