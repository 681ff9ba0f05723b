use snekkja::text::{chars_of, is_space, trim_text};

#[test]
fn trimming_agrees_with_std_on_every_character() {
    for c in (0u32..=0x10ffff).filter_map(char::from_u32) {
        assert_eq!(is_space(c), c.is_whitespace(), "{:?}", c);
        let text = format!("{}a{} b{}", c, c, c);
        assert_eq!(trim_text(&text), text.trim(), "{:?}", c);
    }
}

#[test]
fn trimming_of_plain_cases() {
    assert_eq!(trim_text(""), "");
    assert_eq!(trim_text("   \t\n"), "");
    assert_eq!(trim_text("jpg"), "jpg");
    assert_eq!(trim_text("  jpg"), "jpg");
    assert_eq!(trim_text("jpg \u{3000}"), "jpg");
    assert_eq!(trim_text("\u{a0} j p g \u{2003}"), "j p g");
    assert_eq!(trim_text("\u{200b}jpg\u{feff}"), "\u{200b}jpg\u{feff}");
}

#[test]
fn characters_of_a_text() {
    assert_eq!(chars_of(""), Vec::<char>::new());
    assert_eq!(chars_of("a\u{e9}\u{1f600}"), vec!['a', '\u{e9}', '\u{1f600}']);
}
