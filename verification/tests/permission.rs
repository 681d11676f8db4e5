use pna_cli::command::shared::permission::Umask;

#[test]
fn umask_new_masks_to_valid_range() {
    assert_eq!(Umask::new(0o777).bits(), 0o777);
    assert_eq!(Umask::new(0o022).bits(), 0o022);
    assert_eq!(Umask::new(0o000).bits(), 0o000);
    // Values above 0o777 are masked
    assert_eq!(Umask::new(0o1000).bits(), 0o000);
    assert_eq!(Umask::new(0o7777).bits(), 0o777);
    assert_eq!(Umask::new(0o4022).bits(), 0o022);
}

#[test]
fn umask_apply_clears_suid_bit() {
    let umask = Umask::new(0o000);
    assert_eq!(umask.apply(0o4755), 0o755);
}

#[test]
fn umask_apply_clears_sgid_bit() {
    let umask = Umask::new(0o000);
    assert_eq!(umask.apply(0o2755), 0o755);
}

#[test]
fn umask_apply_clears_sticky_bit() {
    let umask = Umask::new(0o000);
    assert_eq!(umask.apply(0o1755), 0o755);
}

#[test]
fn umask_apply_clears_all_special_bits() {
    let umask = Umask::new(0o000);
    assert_eq!(umask.apply(0o7777), 0o777);
    assert_eq!(umask.apply(0o7755), 0o755);
}

#[test]
fn umask_apply_masks_permission_bits() {
    // umask 0o022 removes group/other write bits
    let umask = Umask::new(0o022);
    assert_eq!(umask.apply(0o777), 0o755);
    assert_eq!(umask.apply(0o666), 0o644);

    // umask 0o077 removes all group/other bits
    let umask = Umask::new(0o077);
    assert_eq!(umask.apply(0o755), 0o700);
    assert_eq!(umask.apply(0o777), 0o700);

    // umask 0o027 removes group write and all other bits
    let umask = Umask::new(0o027);
    assert_eq!(umask.apply(0o755), 0o750);
}

#[test]
fn umask_apply_combined_special_bits_and_mask() {
    // Both special bits clearing and umask application
    let umask = Umask::new(0o027);
    assert_eq!(umask.apply(0o4755), 0o750);
    assert_eq!(umask.apply(0o7777), 0o750);
}

#[test]
fn umask_apply_twice_is_apply_once() {
    let umask = Umask::new(0o027);
    for mode in [0o7777u16, 0o4755, 0o644, 0] {
        assert_eq!(umask.apply(umask.apply(mode)), umask.apply(mode));
    }
}
