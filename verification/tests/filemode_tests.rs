use rusl::filemode::FileMode;

#[test]
fn user_bits() {
    let mode = FileMode(0o644);
    assert!(mode.user_read());
    assert!(mode.user_write());
    assert!(!mode.user_execute());
}

#[test]
fn group_bits() {
    let mode = FileMode(0o644);
    assert!(mode.group_read());
    assert!(!mode.group_write());
    assert!(!mode.group_execute());
    let mode = FileMode(0o070);
    assert!(mode.group_read());
    assert!(mode.group_write());
    assert!(mode.group_execute());
}

#[test]
fn other_bits() {
    let mode = FileMode(0o644);
    assert!(mode.other_read());
    assert!(!mode.other_write());
    assert!(!mode.other_execute());
    let mode = FileMode(0o007);
    assert!(mode.other_read());
    assert!(mode.other_write());
    assert!(mode.other_execute());
}

#[test]
fn special_bits() {
    let mode = FileMode(0o7000);
    assert!(mode.suid_bit());
    assert!(mode.sgid_bit());
    assert!(mode.sticky_bit());
    let mode = FileMode(0o755);
    assert!(!mode.suid_bit());
    assert!(!mode.sgid_bit());
    assert!(!mode.sticky_bit());
}

#[test]
fn mode_string_plain() {
    assert_eq!(FileMode(0o754).mode_string(), "wrx-rx-r-.");
    assert_eq!(FileMode(0o644).mode_string(), "wr--r--r-.");
    assert_eq!(FileMode(0).mode_string(), "---------.");
}

#[test]
fn mode_string_special_bits() {
    assert_eq!(FileMode(0o4755).mode_string(), "wrs-rx-rx.");
    assert_eq!(FileMode(0o2755).mode_string(), "wrx-rs-rx.");
    assert_eq!(FileMode(0o1777).mode_string(), "wrxwrxwrxt");
    // the set-id bits display as `s` even when execute is off
    assert_eq!(FileMode(0o4644).mode_string(), "wrs-r--r-.");
}
