use ils::meta::{fmt_u64, Owner, Permissions, PermissionsOrAttributes};

#[test]
fn mode_755_renders_rwxr_xr_x() {
    assert_eq!(Permissions::from_mode(0o755).render(), "rwxr-xr-x");
}

#[test]
fn mode_640_renders_rw_r() {
    assert_eq!(Permissions::from_mode(0o640).render(), "rw-r-----");
}

#[test]
fn mode_zero_renders_all_dashes() {
    assert_eq!(Permissions::from_mode(0).render(), "---------");
}

#[test]
fn special_bits_are_parsed_but_not_rendered() {
    let p = Permissions::from_mode(0o7777);
    assert!(p.sticky);
    assert!(p.setgid);
    assert!(p.setuid);
    assert_eq!(p.render(), "rwxrwxrwx");

    let q = Permissions::from_mode(0o1644);
    assert!(q.sticky);
    assert!(!q.setgid);
    assert!(!q.setuid);
    assert_eq!(q.render(), "rw-r--r--");
}

#[test]
fn from_mode_reads_each_triplet() {
    let p = Permissions::from_mode(0o421);
    assert!(p.user_read && !p.user_write && !p.user_execute);
    assert!(!p.group_read && p.group_write && !p.group_execute);
    assert!(!p.other_read && !p.other_write && p.other_execute);
}

#[test]
fn permissions_or_attributes_renders_through() {
    let poa = PermissionsOrAttributes::Permissions(Permissions::from_mode(0o600));
    assert_eq!(poa.render(), "rw-------");
}

#[test]
fn decimal_rendering_is_exact() {
    assert_eq!(fmt_u64(0), "0");
    assert_eq!(fmt_u64(7), "7");
    assert_eq!(fmt_u64(1234567890123), "1234567890123");
    assert_eq!(fmt_u64(u64::MAX), "18446744073709551615");
}

#[test]
fn owner_renders_ids_joined_by_colon() {
    let o = Owner { user: 1000, group: 100 };
    assert_eq!(o.render(), "1000:100");
    let edge = Owner { user: 0, group: u32::MAX };
    assert_eq!(edge.render(), "0:4294967295");
}
