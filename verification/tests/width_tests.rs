use ils::width::get_visible_width;

#[test]
fn sgr_sequences_are_invisible() {
    assert_eq!(get_visible_width("\u{1b}[31mfoo\u{1b}[0m", false), 3);
}

#[test]
fn plain_text_measures_its_length() {
    assert_eq!(get_visible_width("plain", false), 5);
}

#[test]
fn wide_codepoint_counts_two_columns() {
    // one double-wide codepoint and four single-width codepoints
    assert_eq!(get_visible_width("\u{6f22}abcd", false), 6);
}

#[test]
fn unterminated_sgr_keeps_its_raw_width() {
    assert_eq!(get_visible_width("\u{1b}[31x", false), 5);
}

#[test]
fn hyperlink_sequences_are_invisible_when_enabled() {
    let s = "\u{1b}]8;;http://x\u{1b}\\link\u{1b}]8;;\u{1b}\\";
    assert_eq!(get_visible_width(s, true), 4);
    assert_eq!(get_visible_width(s, false), 26);
}

#[test]
fn empty_string_measures_zero() {
    assert_eq!(get_visible_width("", false), 0);
    assert_eq!(get_visible_width("", true), 0);
}
