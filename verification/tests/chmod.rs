use pna_cli::command::chmod::{default_permission_mode, entry_mode, DataKind, Mode};

fn assert_modes(cases: &[(&str, u16, u16)]) {
    for &(input, initial, expected) in cases {
        let actual = Mode::from_str(input)
            .unwrap_or_else(|error| panic!("failed to parse {input:?}: {error}"))
            .apply_to(initial);
        assert_eq!(actual, expected, "mode {input:?} applied to {initial:#o}");
    }
}

#[test]
fn numeric_modes_replace_the_existing_mode() {
    assert_modes(&[
        ("755", 0o764, 0o755),
        ("000", 0o777, 0o000),
        ("644", 0o000, 0o644),
    ]);
}

#[test]
fn symbolic_modes_select_permission_classes() {
    assert_modes(&[
        ("+x", 0o664, 0o775),
        ("u=rw", 0o077, 0o677),
        ("ug=rw", 0o777, 0o667),
        ("go-x", 0o777, 0o766),
        ("a-w", 0o777, 0o555),
        ("u=,g=,o=", 0o777, 0o000),
    ]);
}

#[test]
fn clauses_and_actions_apply_left_to_right() {
    assert_modes(&[
        ("u=rwx,g=rx,o=r", 0o000, 0o754),
        ("ug=rwx,o=rx", 0o000, 0o775),
        ("u=rw,g=r,o=", 0o777, 0o640),
        ("u=rw+x", 0o000, 0o700),
        ("u=rwx-rx", 0o777, 0o277),
        ("u+rwx=rx", 0o000, 0o500),
    ]);
}

#[test]
fn copy_permissions_use_the_current_mode() {
    assert_modes(&[
        ("g=u", 0o750, 0o770),
        ("u=g", 0o750, 0o550),
        ("go=u", 0o700, 0o777),
        ("ug=o", 0o705, 0o555),
        ("o=ug", 0o640, 0o646),
        ("g=urx", 0o640, 0o670),
        ("u=g,g=u", 0o750, 0o550),
        ("g=u,u=g", 0o750, 0o770),
        ("g=u-w", 0o600, 0o640),
        ("g+u", 0o741, 0o771),
        ("g-u", 0o777, 0o707),
    ]);
}

#[test]
fn malformed_modes_are_rejected() {
    for input in [
        "",
        "77",
        "7777",
        "999",
        "abc",
        "u?rw",
        "u@rw",
        "z=rw",
        "u=rwa",
        "u=rwx,,g=rx",
        "u=rwx,g=rx,",
        ",u=rwx,g=rx",
    ] {
        assert!(
            Mode::from_str(input).is_err(),
            "{input:?} should be rejected"
        );
    }
}

#[test]
fn mode_error_messages() {
    assert_eq!(Mode::from_str(""), Err("Invalid mode length: 0".to_string()));
    assert_eq!(Mode::from_str("7777"), Err("Invalid mode length: 4".to_string()));
    assert_eq!(Mode::from_str("999"), Err("invalid digit found in string".to_string()));
    assert_eq!(Mode::from_str("u=rwx,,g=rx"), Err("Invalid file mode: u=rwx,,g=rx".to_string()));
}

#[test]
fn splitting_clauses_applies_them_in_turn() {
    let whole = Mode::from_str("u=rw,g=u,o-w").unwrap();
    let first = Mode::from_str("u=rw").unwrap();
    let rest = Mode::from_str("g=u,o-w").unwrap();
    for initial in [0o000u16, 0o777, 0o4755, 0o123] {
        assert_eq!(whole.apply_to(initial), rest.apply_to(first.apply_to(initial)));
    }
}

#[test]
fn default_modes_by_kind() {
    assert_eq!(default_permission_mode(DataKind::Directory), 0o755);
    assert_eq!(default_permission_mode(DataKind::File), 0o644);
    assert_eq!(default_permission_mode(DataKind::SymbolicLink), 0o644);
    assert_eq!(default_permission_mode(DataKind::HardLink), 0o644);
    assert_eq!(default_permission_mode(DataKind::Other), 0);
}

#[test]
fn entry_mode_uses_stored_mode_or_kind_default() {
    let mode = Mode::from_str("u+x").unwrap();
    assert_eq!(entry_mode(&mode, Some(0o600), DataKind::File), 0o700);
    assert_eq!(entry_mode(&mode, None, DataKind::File), 0o744);
    assert_eq!(entry_mode(&mode, None, DataKind::Directory), 0o755);
    let numeric = Mode::from_str("640").unwrap();
    assert_eq!(entry_mode(&numeric, None, DataKind::Other), 0o640);
}

#[test]
fn clauses_keep_bits_of_unnamed_classes_and_special_bits() {
    let mode = Mode::from_str("u=rwx,g-w").unwrap();
    assert_eq!(mode.apply_to(0o4664), 0o4744);
    assert_eq!(mode.apply_to(0o1007) & 0o7007, 0o1007);
}
