use dockcron::text::{char_is_whitespace, chars_of, str_eq, strip_prefix, trim};

#[test]
fn whitespace_is_the_white_space_property_of_every_character() {
    for n in 0..=0x10FFFFu32 {
        if let Some(c) = char::from_u32(n) {
            assert_eq!(char_is_whitespace(c), c.is_whitespace(), "U+{:04X}", n);
        }
    }
}

#[test]
fn trim_removes_whitespace_at_both_ends() {
    for text in [
        "",
        " ",
        "a",
        " a",
        "a ",
        "  a b  ",
        "\t\n a\u{a0}b \r\n",
        "\u{2003}x\u{3000}",
        "\u{200b}x",
        "é ",
        "  \u{1f600} ",
    ] {
        assert_eq!(trim(text), text.trim(), "{:?}", text);
    }
    assert_eq!(trim("  true "), "true");
}

#[test]
fn strip_prefix_hands_back_the_rest() {
    assert_eq!(strip_prefix("@every 1h", "@every "), Some("1h"));
    assert_eq!(strip_prefix("@every ", "@every "), Some(""));
    assert_eq!(strip_prefix("@every", "@every "), None);
    assert_eq!(strip_prefix("@cron x", "@every "), None);
    assert_eq!(strip_prefix("abc", ""), Some("abc"));
    assert_eq!(strip_prefix("éa", "é"), Some("a"));
}

#[test]
fn texts_are_compared_by_their_characters() {
    assert!(str_eq("", ""));
    assert!(str_eq("true", "true"));
    assert!(!str_eq("true", "True"));
    assert!(!str_eq("true", "true "));
    assert_eq!(chars_of("aé"), vec!['a', 'é']);
}
