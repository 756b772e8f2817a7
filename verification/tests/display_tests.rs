use ils::date::resolve_locale;
use ils::display::{grid, DisplayOption};
use ils::meta::{FileType, Meta, Owner, Permissions, PermissionsOrAttributes};

fn named(name: &str) -> Meta {
    Meta {
        name: String::from(name),
        permissions_or_attributes: None,
        date: None,
        owner: None,
        file_type: FileType::File { uid: false, executable: false },
        size: None,
        inode: None,
        content: None,
    }
}

fn compact() -> DisplayOption {
    DisplayOption { long: false }
}

fn long() -> DisplayOption {
    DisplayOption { long: true }
}

#[test]
fn empty_batch_renders_empty_in_both_modes() {
    let locale = resolve_locale(None);
    assert_eq!(grid(&compact(), vec![], Some(80), &locale), "");
    assert_eq!(grid(&compact(), vec![], None, &locale), "");
    assert_eq!(grid(&long(), vec![], Some(80), &locale), "");
    assert_eq!(grid(&long(), vec![], None, &locale), "");
}

#[test]
fn long_mode_pads_first_four_columns_to_batch_maximum() {
    let locale = resolve_locale(None);
    let a = Meta {
        name: String::from("a.txt"),
        permissions_or_attributes: Some(PermissionsOrAttributes::Permissions(
            Permissions::from_mode(0o644),
        )),
        date: None,
        owner: Some(Owner { user: 1000, group: 100 }),
        file_type: FileType::File { uid: false, executable: false },
        size: Some(1234),
        inode: Some(11),
        content: None,
    };
    let b = Meta {
        name: String::from("b"),
        permissions_or_attributes: None,
        date: None,
        owner: None,
        file_type: FileType::Directory { uid: false },
        size: Some(7),
        inode: None,
        content: None,
    };
    let out = grid(&long(), vec![a, b], Some(80), &locale);
    let expected = "rw-r--r-- 1000:100 1234 _ a.txt\n_         _        7    _ b\n";
    assert_eq!(out, expected);
}

#[test]
fn long_mode_ignores_terminal_width() {
    let locale = resolve_locale(None);
    let a = named("averyveryverylongname");
    let b = named("short");
    let narrow = grid(&long(), vec![a, b], Some(3), &locale);
    let a2 = named("averyveryverylongname");
    let b2 = named("short");
    let wide = grid(&long(), vec![a2, b2], None, &locale);
    assert_eq!(narrow, wide);
}

#[test]
fn compact_mode_flows_names_into_the_width() {
    let locale = resolve_locale(None);
    let metas = vec![named("aa"), named("bbb"), named("c"), named("dddd")];
    let out = grid(&compact(), metas, Some(8), &locale);
    assert_eq!(out, "aa bbb\nc  dddd\n");
}

#[test]
fn compact_lines_stay_within_the_width() {
    let locale = resolve_locale(None);
    let metas = vec![
        named("one"),
        named("three"),
        named("a"),
        named("longest"),
        named("mid"),
        named("x"),
    ];
    let w = 13;
    let out = grid(&compact(), metas, Some(w), &locale);
    for line in out.lines() {
        assert!(line.chars().count() <= w, "line too wide: {:?}", line);
    }
}

#[test]
fn compact_without_width_prints_one_name_per_line() {
    let locale = resolve_locale(None);
    let metas = vec![named("aa"), named("bbb"), named("c")];
    let out = grid(&compact(), metas, None, &locale);
    assert_eq!(out, "aa\nbbb\nc\n");
}

#[test]
fn oversized_name_falls_back_to_single_column_unmodified() {
    let locale = resolve_locale(None);
    let metas = vec![named("toolongname"), named("x")];
    let out = grid(&compact(), metas, Some(5), &locale);
    assert_eq!(out, "toolongname\nx\n");
}

#[test]
fn single_name_wider_than_terminal_is_not_truncated() {
    let locale = resolve_locale(None);
    let metas = vec![named("abcdefghij")];
    let out = grid(&compact(), metas, Some(4), &locale);
    assert_eq!(out, "abcdefghij\n");
}

#[test]
fn long_mode_shows_placeholder_for_unplaceable_date() {
    let locale = resolve_locale(None);
    let mut m = named("late");
    m.date = Some(ils::meta::Date::Date(i64::MAX));
    let out = grid(&long(), vec![m], None, &locale);
    assert_eq!(out, "_ _ _ _ late\n");
}

#[test]
fn meta_clones_deeply() {
    let mut m = named("parent");
    m.size = Some(42);
    m.content = Some(vec![named("child")]);
    let c = m.clone();
    assert_eq!(c.name, "parent");
    assert_eq!(c.size, Some(42));
    let children = c.content.expect("children kept");
    assert_eq!(children.len(), 1);
    assert_eq!(children[0].name, "child");
}

#[test]
fn rendering_twice_is_byte_identical() {
    let locale = resolve_locale(None);
    let make = || {
        vec![
            Meta {
                name: String::from("data.bin"),
                permissions_or_attributes: Some(PermissionsOrAttributes::Permissions(
                    Permissions::from_mode(0o600),
                )),
                date: Some(ils::meta::Date::Date(1431648000)),
                owner: Some(Owner { user: 0, group: 0 }),
                file_type: FileType::File { uid: false, executable: false },
                size: Some(4096),
                inode: Some(2),
                content: None,
            },
            named("plain"),
        ]
    };
    let long_one = grid(&long(), make(), Some(70), &locale);
    let long_two = grid(&long(), make(), Some(70), &locale);
    assert_eq!(long_one, long_two);
    let compact_one = grid(&compact(), make(), Some(20), &locale);
    let compact_two = grid(&compact(), make(), Some(20), &locale);
    assert_eq!(compact_one, compact_two);
}
