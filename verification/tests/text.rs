use sgp4::text::{is_whitespace, join_with_hyphen, trim};

#[test]
fn whitespace_is_what_has_the_unicode_property() {
    for code in 0..=0x10ffff_u32 {
        if let Some(c) = char::from_u32(code) {
            assert_eq!(is_whitespace(c), c.is_whitespace(), "{:x}", code);
        }
    }
}

#[test]
fn text_is_trimmed_at_both_ends() {
    let texts = [
        "", " ", "   ", "a", " a", "a ", "  a b  ", "\t067A \n", "\u{a0}7\u{2003}", "é ", " é",
        "\u{3000}\u{3000}", "a\u{85}", "\u{200b}a\u{200b}", "067A  ", " \u{1680} x \u{205f} ",
    ];
    for text in texts {
        assert_eq!(trim(text), text.trim(), "{:?}", text);
    }
}

#[test]
fn number_and_text_are_joined_with_a_hyphen() {
    assert_eq!(join_with_hyphen(1998, "067A"), "1998-067A");
    assert_eq!(join_with_hyphen(2056, ""), "2056-");
    assert_eq!(join_with_hyphen(0, "é"), "0-é");
    assert_eq!(join_with_hyphen(7, "x"), "7-x");
    assert_eq!(join_with_hyphen(10, "x"), "10-x");
    assert_eq!(join_with_hyphen(65535, "-"), "65535--");
    for number in [0_u16, 9, 10, 99, 100, 1957, 2000, 9999, 10000, u16::MAX] {
        assert_eq!(join_with_hyphen(number, "A"), format!("{}-{}", number, "A"));
    }
}
