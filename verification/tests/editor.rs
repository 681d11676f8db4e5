use pna_cli::command::shared::editor::{PathTransformers, PathnameEditor};
use pna_cli::command::shared::re::bsd::{SubstitutionRule, SubstitutionRules};
use pna_cli::command::shared::re::gnu::{TransformRule, TransformRules};

#[test]
fn editor_no_transforms() {
    let editor = PathnameEditor::new(None, None, false, false);
    let name = editor.edit_entry_name("a/b/c").unwrap();
    assert_eq!(name.as_str(), "a/b/c");
}

#[test]
fn editor_strip_only() {
    let editor = PathnameEditor::new(Some(1), None, false, false);
    let name = editor.edit_entry_name("a/b/c").unwrap();
    assert_eq!(name.as_str(), "b/c");
}

#[test]
fn editor_strip_insufficient_components() {
    let editor = PathnameEditor::new(Some(5), None, false, false);
    assert!(editor.edit_entry_name("a/b").is_none());
    assert!(editor.edit_hardlink("a/b").is_none());
}

#[test]
fn editor_bsdtar_order_transform_then_strip() {
    // bsdtar applies substitutions BEFORE strip-components.
    // Example: path "old/a/b" with transform /old/new/ and strip=1
    // bsdtar order: "old/a/b" -> transform -> "new/a/b" -> strip 1 -> "a/b"
    // (wrong order would be: "old/a/b" -> strip 1 -> "a/b" -> transform -> "a/b")

    // Format: /pattern/replacement/flags - first char is the delimiter
    let rules = SubstitutionRules::new(vec![SubstitutionRule::parse("/old/new/").unwrap()]);
    let transformers = Some(PathTransformers::BsdSubstitutions(rules));
    let editor = PathnameEditor::new(Some(1), transformers, false, false);

    // With bsdtar order: "old/a/b" -> "new/a/b" -> strip 1 -> "a/b"
    let result = editor.edit_entry_name("old/a/b").unwrap();
    assert_eq!(result.as_str(), "a/b");
}

#[test]
fn editor_symlink_no_strip() {
    // Symlink targets should NOT have strip-components applied (bsdtar behavior)
    let editor = PathnameEditor::new(Some(2), None, false, false);
    let result = editor.edit_symlink("a/b/c");
    assert_eq!(result.as_str(), "a/b/c"); // Not stripped
}

#[test]
fn editor_skips_empty_or_curdir_paths() {
    let editor = PathnameEditor::new(None, None, false, false);
    assert!(editor.edit_entry_name("").is_none());
    assert!(editor.edit_entry_name(".").is_none());
    assert!(editor.edit_entry_name("./.").is_none());
    assert!(editor.edit_hardlink("").is_none());
    assert!(editor.edit_hardlink(".").is_none());
    assert!(editor.edit_hardlink("./.").is_none());
}

#[test]
fn editor_preserve_curdir_keeps_dot_prefix() {
    let editor = PathnameEditor::new(None, None, false, true);
    let name = editor.edit_entry_name("./a/b").unwrap();
    assert_eq!(name.as_str(), "./a/b");
}

#[test]
fn editor_preserve_curdir_with_strip_components() {
    // ./target/sub -> strip 1 -> target/sub (the "." component counts as one stripped level)
    let editor = PathnameEditor::new(Some(1), None, false, true);
    let name = editor.edit_entry_name("./target/sub").unwrap();
    assert_eq!(name.as_str(), "target/sub");
}

#[test]
fn editor_preserve_curdir_bare_dot_is_valid() {
    // In bsdtar-compat mode, "." is a valid directory entry
    let editor = PathnameEditor::new(None, None, false, true);
    let name = editor.edit_entry_name(".").unwrap();
    assert_eq!(name.as_str(), ".");
}

#[test]
fn editor_preserve_curdir_hardlink() {
    let editor = PathnameEditor::new(None, None, false, true);
    let (reference, had_root) = editor.edit_hardlink("./a/b").unwrap();
    assert_eq!(reference.as_str(), "./a/b");
    assert!(!had_root);
}

#[test]
fn editor_preserve_curdir_symlink() {
    let editor = PathnameEditor::new(None, None, false, true);
    let reference = editor.edit_symlink("./a/b");
    assert_eq!(reference.as_str(), "./a/b");
}

#[test]
fn editor_preserve_curdir_rejects_entry_with_parent_dir() {
    // bsdtar-compat: SECURE_NODOTDOT rejects entry names containing ".."
    let editor = PathnameEditor::new(None, None, false, true);
    assert!(editor.edit_entry_name("../a/b").is_none());
}

#[test]
fn editor_preserve_curdir_bare_parent_dir_produces_none() {
    // bsdtar-compat: SECURE_NODOTDOT rejects bare ".."
    let editor = PathnameEditor::new(None, None, false, true);
    assert!(editor.edit_entry_name("..").is_none());
}

#[test]
fn editor_preserve_curdir_only_parent_dirs_produces_none() {
    let editor = PathnameEditor::new(None, None, false, true);
    assert!(editor.edit_entry_name("../../..").is_none());
}

#[test]
fn editor_preserve_curdir_strips_root_from_absolute_path() {
    let editor = PathnameEditor::new(None, None, false, true);
    let name = editor.edit_entry_name("/etc/passwd").unwrap();
    assert_eq!(name.as_str(), "etc/passwd");
}

#[test]
fn editor_preserve_curdir_bare_root_becomes_dot() {
    // bsdtar converts "/" to "." via cleanup_pathname_fsobj
    let editor = PathnameEditor::new(None, None, false, true);
    let name = editor.edit_entry_name("/").unwrap();
    assert_eq!(name.as_str(), ".");
}

#[test]
fn editor_preserve_curdir_mixed_curdir_and_parent_dir() {
    // bsdtar-compat: SECURE_NODOTDOT rejects any path containing ".."
    let editor = PathnameEditor::new(None, None, false, true);
    assert!(editor.edit_entry_name("./a/../b").is_none());
}

#[test]
fn editor_preserve_curdir_empty_string_produces_none() {
    let editor = PathnameEditor::new(None, None, false, true);
    assert!(editor.edit_entry_name("").is_none());
    assert!(editor.edit_hardlink("").is_none());
}

#[test]
fn editor_preserve_curdir_symlink_preserves_absolute_target() {
    // bsdtar passes symlink targets verbatim — no cleanup_pathname_fsobj.
    // is_unsafe_link() guards at extraction time when allow_unsafe_links=false.
    let editor = PathnameEditor::new(None, None, false, true);
    let reference = editor.edit_symlink("/etc/hostname");
    assert_eq!(reference.as_str(), "/etc/hostname");
}

#[test]
fn editor_preserve_curdir_symlink_preserves_parent_dir() {
    // bsdtar preserves .. in symlink targets verbatim
    let editor = PathnameEditor::new(None, None, false, true);
    let reference = editor.edit_symlink("../lib");
    assert_eq!(reference.as_str(), "../lib");
}

#[test]
fn editor_preserve_curdir_symlink_preserves_deep_parent_dir() {
    let editor = PathnameEditor::new(None, None, false, true);
    let reference = editor.edit_symlink("../../include/header.h");
    assert_eq!(reference.as_str(), "../../include/header.h");
}

#[test]
fn editor_preserve_curdir_symlink_mixed_curdir_and_parent_dir() {
    let editor = PathnameEditor::new(None, None, false, true);
    let reference = editor.edit_symlink("./a/../b");
    assert_eq!(reference.as_str(), "./a/../b");
}

#[test]
fn editor_preserve_curdir_symlink_bare_root() {
    // bsdtar passes symlink targets verbatim — "/" is preserved as-is.
    let editor = PathnameEditor::new(None, None, false, true);
    let reference = editor.edit_symlink("/");
    assert_eq!(reference.as_str(), "/");
}

#[test]
fn editor_absolute_paths_takes_priority_over_preserve_curdir() {
    // absolute_paths=true must bypass all sanitization, even when preserve_curdir=true.
    // Guards against if/else-if branch reordering.
    let editor = PathnameEditor::new(None, None, true, true);
    let name = editor.edit_entry_name("/etc/passwd").unwrap();
    assert_eq!(name.as_str(), "/etc/passwd");

    let reference = editor.edit_symlink("/etc/hostname");
    assert_eq!(reference.as_str(), "/etc/hostname");

    let (reference, had_root) = editor.edit_hardlink("/etc/hosts").unwrap();
    assert_eq!(reference.as_str(), "/etc/hosts");
    assert!(!had_root);
}

#[test]
fn editor_preserve_curdir_absolute_paths_allows_parent_dir() {
    // -P disables SECURE_NODOTDOT: ".." in entry names is allowed
    let editor = PathnameEditor::new(None, None, true, true);
    let name = editor.edit_entry_name("a/../b").unwrap();
    assert_eq!(name.as_str(), "a/../b");
}

#[test]
fn editor_preserve_curdir_hardlink_rejects_parent_dir() {
    // bsdtar-compat: SECURE_NODOTDOT applies to hardlink targets
    let editor = PathnameEditor::new(None, None, false, true);
    assert!(editor.edit_hardlink("../a").is_none());
}

#[test]
fn editor_preserve_curdir_hardlink_bare_parent_dir_produces_none() {
    // bsdtar-compat: SECURE_NODOTDOT rejects bare ".."
    let editor = PathnameEditor::new(None, None, false, true);
    assert!(editor.edit_hardlink("..").is_none());
}

#[test]
fn editor_preserve_curdir_hardlink_absolute_paths_allows_parent_dir() {
    // -P disables SECURE_NODOTDOT for hardlink targets
    let editor = PathnameEditor::new(None, None, true, true);
    let (reference, had_root) = editor.edit_hardlink("a/../b").unwrap();
    assert_eq!(reference.as_str(), "a/../b");
    assert!(!had_root);
}

#[test]
fn editor_preserve_curdir_hardlink_bare_root_produces_none() {
    let editor = PathnameEditor::new(None, None, false, true);
    assert!(editor.edit_hardlink("/").is_none());
}

#[test]
fn editor_preserve_curdir_strips_leading_dotdot_after_root() {
    // bsdtar's strip_absolute_path consumes leading /../ as part of absolute prefix
    let editor = PathnameEditor::new(None, None, false, true);
    let name = editor.edit_entry_name("/../a").unwrap();
    assert_eq!(name.as_str(), "a");
}

#[test]
fn editor_preserve_curdir_strips_multiple_leading_dotdot_after_root() {
    let editor = PathnameEditor::new(None, None, false, true);
    let name = editor.edit_entry_name("/../../a").unwrap();
    assert_eq!(name.as_str(), "a");
}

#[test]
fn editor_preserve_curdir_hardlink_strips_leading_dotdot_after_root() {
    let editor = PathnameEditor::new(None, None, false, true);
    let (reference, had_root) = editor.edit_hardlink("/../a").unwrap();
    assert_eq!(reference.as_str(), "a");
    assert!(had_root);
}

#[test]
fn editor_preserve_curdir_strip_consumes_all_components() {
    // ./a has 2 components (CurDir + Normal), strip 2 returns None
    let editor = PathnameEditor::new(Some(2), None, false, true);
    assert!(editor.edit_entry_name("./a").is_none());
}

#[test]
fn editor_preserve_curdir_handles_windows_style_absolute_paths() {
    let editor = PathnameEditor::new(None, None, false, true);
    let expected_unc_backslash = "server\\share\\file35";

    let expected_mixed_unc_backslash = "server\\share\\file52";

    assert_eq!(
        "file04",
        editor
            .edit_entry_name("c:/file04")
            .unwrap()
            .as_str()
    );
    assert_eq!(
        "server/share/file15",
        editor
            .edit_entry_name("//?/UNC/server/share/file15")
            .unwrap()
            .as_str()
    );
    assert_eq!(
        expected_unc_backslash,
        editor
            .edit_entry_name("\\\\?\\UNC\\server\\share\\file35")
            .unwrap()
            .as_str()
    );
    assert_eq!(
        expected_mixed_unc_backslash,
        editor
            .edit_entry_name("\\/?/uNc/server\\share\\file52")
            .unwrap()
            .as_str()
    );
}

#[test]
fn editor_preserve_curdir_rejects_windows_style_parent_dir_paths() {
    let editor = PathnameEditor::new(None, None, false, true);
    assert!(editor.edit_entry_name("D:../file05").is_none());
    assert!(
        editor
            .edit_entry_name("\\\\?\\UNC\\..\\file37")
            .is_none()
    );
    assert!(
        editor
            .edit_entry_name("c:../..\\file43")
            .is_none()
    );
    assert!(
        editor
            .edit_entry_name("\\/?\\UnC\\../file54")
            .is_none()
    );
}

#[test]
fn editor_preserve_curdir_hardlink_tracks_windows_root_stripping() {
    let editor = PathnameEditor::new(None, None, false, true);
    let (reference, had_root) = editor.edit_hardlink("c:/etc/hosts").unwrap();
    assert_eq!(reference.as_str(), "etc/hosts");
    assert!(had_root);
}

#[test]
fn editor_junction_preserves_unix_absolute() {
    let editor = PathnameEditor::new(None, None, false, false);
    let out = editor.edit_junction("/abs/target");
    assert_eq!(out.as_str(), "/abs/target");
}

#[test]
fn editor_junction_preserves_windows_absolute() {
    let editor = PathnameEditor::new(None, None, false, false);
    let out = editor.edit_junction("C:\\abs\\target");
    assert_eq!(out.as_str(), "C:\\abs\\target");
}

#[test]
fn editor_junction_preserves_relative_unchanged() {
    let editor = PathnameEditor::new(None, None, false, false);
    let out = editor.edit_junction("rel/target");
    assert_eq!(out.as_str(), "rel/target");
}

#[test]
fn editor_junction_does_not_apply_strip_components() {
    let editor = PathnameEditor::new(Some(1), None, false, false);
    let out = editor.edit_junction("/abs/target");
    // strip_components does NOT apply to junction targets, matching symlink semantics.
    assert_eq!(out.as_str(), "/abs/target");
}

#[test]
fn editor_sanitizes_to_normal_components_by_default() {
    let editor = PathnameEditor::new(None, None, false, false);
    assert_eq!(editor.edit_entry_name("/a/./b/../c").unwrap().as_str(), "a/b/c");
    assert!(editor.edit_entry_name("/..").is_none());
    let (reference, had_root) = editor.edit_hardlink("/x/y").unwrap();
    assert_eq!(reference.as_str(), "x/y");
    assert!(had_root);
}

#[test]
fn editor_applies_gnu_transforms_before_stripping() {
    let transformers = PathTransformers::new(
        None,
        Some(vec![TransformRule::new("s,^old,new,").unwrap()]),
    );
    let editor = PathnameEditor::new(Some(1), transformers, false, false);
    assert_eq!(editor.edit_entry_name("old/a/b").unwrap().as_str(), "a/b");
    assert_eq!(editor.edit_symlink("old/x").as_str(), "new/x");
    let both = PathTransformers::new(
        Some(vec![SubstitutionRule::parse("/a/b/").unwrap()]),
        Some(vec![TransformRule::new("s,a,c,").unwrap()]),
    );
    let editor = PathnameEditor::new(None, both, false, false);
    assert_eq!(editor.edit_entry_name("a").unwrap().as_str(), "b");
    let _ = TransformRules::new(Vec::new());
}
