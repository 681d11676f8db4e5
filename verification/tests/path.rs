use pna_cli::command::shared::path::{
    has_parent_dir_component, is_effectively_empty_path, is_unsafe_link_path,
    sanitize_preserve_curdir_str, strip_absolute_path_bsdtar, strip_components,
};
use std::borrow::Cow;

#[test]
fn strip_path_none_or_zero() {
    let original = "a/b";
    match strip_components(original, None).unwrap() {
        Cow::Borrowed(p) => assert_eq!(p, original),
        Cow::Owned(_) => panic!("expected borrowed path when count is None"),
    }
    assert_eq!(strip_components(original, Some(0)).unwrap(), "a/b");
}

#[test]
fn strip_path_relative() {
    assert_eq!(strip_components("a/b/c", Some(1)).unwrap(), "b/c");
    assert_eq!(strip_components("a/b/c", Some(2)).unwrap(), "c");
    assert!(strip_components("a/b", Some(3)).is_none());
}

#[test]
fn strip_path_parent_dir_components() {
    assert_eq!(strip_components("../a/b", Some(1)).unwrap(), "a/b");
    assert_eq!(strip_components("../a/b", Some(2)).unwrap(), "b");
    assert!(strip_components("../a/b", Some(3)).is_none());
}

#[test]
fn strip_components_skips_root_and_normalizes_separators() {
    assert_eq!(strip_components("/a//b/./c", Some(1)).unwrap(), "a/b/c");
    assert_eq!(strip_components("./a/b", Some(1)).unwrap(), "a/b");
    assert!(strip_components("/a", Some(2)).is_none());
}

#[test]
fn strip_absolute_path_bsdtar_handles_windows_prefixes() {
    let (path, had_root) = strip_absolute_path_bsdtar("c:/file04");
    assert_eq!("file04", path);
    assert!(had_root);

    let (path, had_root) = strip_absolute_path_bsdtar("//?/UNC/server/share/file15");
    assert_eq!("server/share/file15", path);
    assert!(had_root);

    let (path, had_root) = strip_absolute_path_bsdtar("\\\\?\\UNC\\server\\share\\file35");
    assert_eq!("server\\share\\file35", path);
    assert!(had_root);

    let (path, had_root) = strip_absolute_path_bsdtar("\\/?/uNc/server\\share\\file52");
    assert_eq!("server\\share\\file52", path);
    assert!(had_root);

    let (path, had_root) = strip_absolute_path_bsdtar("D:../file05");
    assert_eq!("../file05", path);
    assert!(had_root);

    let (path, had_root) = strip_absolute_path_bsdtar("c:../..\\file43");
    assert_eq!("../..\\file43", path);
    assert!(had_root);
}

#[test]
fn has_parent_dir_component_detects_windows_style_paths() {
    assert!(has_parent_dir_component("..\\file37"));
    assert!(has_parent_dir_component("../..\\file43"));
    let (rewritten, _) = strip_absolute_path_bsdtar("\\\\?\\UNC\\..\\file37");
    assert!(has_parent_dir_component(&rewritten));
    assert!(!has_parent_dir_component("server\\share\\file35"));
}

#[test]
fn strip_absolute_path_bsdtar_empty_string() {
    let (path, had_root) = strip_absolute_path_bsdtar("");
    assert_eq!("", path);
    assert!(!had_root);
}

#[test]
fn strip_absolute_path_bsdtar_single_forward_slash() {
    let (path, had_root) = strip_absolute_path_bsdtar("/");
    assert_eq!("", path);
    assert!(had_root);
}

#[test]
fn strip_absolute_path_bsdtar_single_backslash() {
    let (path, had_root) = strip_absolute_path_bsdtar("\\");
    assert_eq!("", path);
    assert!(had_root);
}

#[test]
fn strip_absolute_path_bsdtar_multiple_separators() {
    let (path, had_root) = strip_absolute_path_bsdtar("///");
    assert_eq!("", path);
    assert!(had_root);

    let (path, had_root) = strip_absolute_path_bsdtar("\\\\");
    assert_eq!("", path);
    assert!(had_root);
}

#[test]
fn strip_absolute_path_bsdtar_drive_letter_only() {
    let (path, had_root) = strip_absolute_path_bsdtar("c:");
    assert_eq!("", path);
    assert!(had_root);
}

#[test]
fn strip_absolute_path_bsdtar_terminal_dotdot() {
    let (path, had_root) = strip_absolute_path_bsdtar("/..");
    assert_eq!("..", path);
    assert!(had_root);

    let (path, had_root) = strip_absolute_path_bsdtar("\\..");
    assert_eq!("..", path);
    assert!(had_root);
}

#[test]
fn strip_absolute_path_bsdtar_terminal_dot() {
    let (path, had_root) = strip_absolute_path_bsdtar("/.");
    assert_eq!(".", path);
    assert!(had_root);

    let (path, had_root) = strip_absolute_path_bsdtar("\\.");
    assert_eq!(".", path);
    assert!(had_root);
}

#[test]
fn strip_absolute_path_bsdtar_prefix_exactly_4_bytes() {
    let (path, had_root) = strip_absolute_path_bsdtar("//?/");
    assert_eq!("", path);
    assert!(had_root);
}

#[test]
fn strip_absolute_path_bsdtar_unc_prefix_exactly_8_bytes() {
    let (path, had_root) = strip_absolute_path_bsdtar("//?/UNC/");
    assert_eq!("", path);
    assert!(had_root);
}

#[test]
fn strip_absolute_path_bsdtar_safe_relative_paths() {
    let (path, had_root) = strip_absolute_path_bsdtar("file.txt");
    assert_eq!("file.txt", path);
    assert!(!had_root);

    let (path, had_root) = strip_absolute_path_bsdtar("a/b/c");
    assert_eq!("a/b/c", path);
    assert!(!had_root);

    let (path, had_root) = strip_absolute_path_bsdtar("./a/b");
    assert_eq!("./a/b", path);
    assert!(!had_root);
}

#[test]
fn strip_absolute_path_bsdtar_leading_separator_with_content() {
    let (path, had_root) = strip_absolute_path_bsdtar("/file");
    assert_eq!("file", path);
    assert!(had_root);

    let (path, had_root) = strip_absolute_path_bsdtar("\\file");
    assert_eq!("file", path);
    assert!(had_root);
}

#[test]
fn strip_absolute_path_bsdtar_device_prefix_with_drive() {
    let (path, had_root) = strip_absolute_path_bsdtar("\\\\.\\C:\\file");
    assert_eq!("file", path);
    assert!(had_root);

    let (path, had_root) = strip_absolute_path_bsdtar("//./C:/file");
    assert_eq!("file", path);
    assert!(had_root);
}

#[test]
fn strip_absolute_path_bsdtar_device_prefix_only() {
    let (path, had_root) = strip_absolute_path_bsdtar("\\\\.\\");
    assert_eq!("", path);
    assert!(had_root);
}

#[test]
fn strip_absolute_path_bsdtar_device_unc_prefix() {
    let (path, had_root) = strip_absolute_path_bsdtar("\\\\.\\UNC\\server\\share\\file");
    assert_eq!("UNC\\server\\share\\file", path);
    assert!(had_root);
}

#[test]
fn strip_absolute_path_bsdtar_device_prefix_with_traversal() {
    let (path, had_root) = strip_absolute_path_bsdtar("\\\\.\\..\\secret");
    assert_eq!("..\\secret", path);
    assert!(had_root);
    assert!(has_parent_dir_component(&path));
}

#[test]
fn strip_then_parent_dir_detects_drive_dotdot_backslash() {
    let (rewritten, had_root) = strip_absolute_path_bsdtar("c:..\\file");
    assert!(had_root, "drive letter should be stripped");
    assert!(has_parent_dir_component(&rewritten), ".. should be detected");
}

#[test]
fn strip_then_parent_dir_detects_slash_dotdot_backslash() {
    let (rewritten, had_root) = strip_absolute_path_bsdtar("/..\\file");
    assert!(had_root, "leading slash and /..\\ should be stripped");
    assert_eq!("file", rewritten);
}

#[test]
fn strip_then_parent_dir_detects_drive_slash_dotdot_backslash() {
    let (rewritten, had_root) = strip_absolute_path_bsdtar("c:/..\\file");
    assert!(had_root, "drive letter, slash and /..\\ should be stripped");
    assert_eq!("file", rewritten);
}

#[test]
fn strip_then_parent_dir_detects_device_prefix_dotdot() {
    let (rewritten, had_root) = strip_absolute_path_bsdtar("\\\\?\\..\\file");
    assert!(had_root, "device prefix should be stripped");
    assert!(has_parent_dir_component(&rewritten), ".. should be detected");
}

#[test]
fn strip_then_parent_dir_allows_safe_path() {
    let (rewritten, had_root) = strip_absolute_path_bsdtar("a/b/c");
    assert!(!had_root);
    assert!(!has_parent_dir_component(&rewritten));
}

#[test]
fn is_unsafe_link_path_detects_all_unsafe_patterns() {
    assert!(is_unsafe_link_path("C:/file"));
    assert!(is_unsafe_link_path("/etc/passwd"));
    assert!(is_unsafe_link_path("..\\file"));
    assert!(is_unsafe_link_path("../file"));
    assert!(is_unsafe_link_path("\\\\?\\UNC\\..\\file"));
    assert!(is_unsafe_link_path("D:../file"));
}

#[test]
fn is_unsafe_link_path_allows_safe_patterns() {
    assert!(!is_unsafe_link_path("a/b/c"));
    assert!(!is_unsafe_link_path("file.txt"));
    assert!(!is_unsafe_link_path("./a/b"));
}

#[test]
fn has_parent_dir_component_adversarial_cases() {
    assert!(has_parent_dir_component("foo\\..\\bar"));
    assert!(has_parent_dir_component(".."));
    assert!(has_parent_dir_component("a/b\\../c"));
    assert!(has_parent_dir_component("../"));
    assert!(!has_parent_dir_component("a/..name"));
    assert!(!has_parent_dir_component("a/.../b"));
}

#[test]
fn stripping_a_stripped_path_strips_nothing() {
    for input in ["c:/../x", "\\\\?\\UNC\\a\\b", "//./C:/file", "/./a", "a/b"] {
        let (once, _) = strip_absolute_path_bsdtar(input);
        let (twice, had_root) = strip_absolute_path_bsdtar(&once);
        assert_eq!(once, twice);
        assert!(!had_root);
    }
}

#[test]
fn sanitize_preserve_curdir_keeps_dot_and_dotdot() {
    assert_eq!(sanitize_preserve_curdir_str("/a/./b/../c"), "a/b/../c");
    assert_eq!(sanitize_preserve_curdir_str("./a//b"), "./a/b");
    assert_eq!(sanitize_preserve_curdir_str("/"), "");
}

#[test]
fn effectively_empty_paths() {
    assert!(is_effectively_empty_path("", true));
    assert!(!is_effectively_empty_path(".", true));
    assert!(is_effectively_empty_path(".", false));
    assert!(is_effectively_empty_path("./.", false));
    assert!(is_effectively_empty_path("", false));
    assert!(!is_effectively_empty_path("/", false));
    assert!(!is_effectively_empty_path("a", false));
}
