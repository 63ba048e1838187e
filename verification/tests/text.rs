use mkpw::text::{chars_of, is_whitespace, text_of, trim};

fn trimmed(text: &str) -> String {
    trim(&text.chars().collect())
}

#[test]
fn trim_takes_the_spaces_off_a_secret() {
    assert_eq!(trimmed("  secret  "), "secret");
}

#[test]
fn trim_keeps_what_is_inside() {
    assert_eq!(trimmed("correct horse"), "correct horse");
    assert_eq!(trimmed(" correct  horse \t"), "correct  horse");
    assert_eq!(trimmed("a"), "a");
    assert_eq!(trimmed(" a"), "a");
    assert_eq!(trimmed("a "), "a");
}

#[test]
fn trim_of_nothing_but_white_space() {
    assert_eq!(trimmed(""), "");
    assert_eq!(trimmed(" "), "");
    assert_eq!(trimmed(" \t\r\u{a0}\u{3000} "), "");
}

#[test]
fn trim_agrees_with_the_standard_trim() {
    let texts = [
        "", " ", "  secret  ", "secret", "\tsecret\r", "\u{a0}secret\u{2003}", "\u{85}x\u{1680}",
        "\u{2028}x y\u{2029}", "\u{202f}\u{205f}\u{3000}x", "\u{200b}x\u{200b}", "\u{180e}x\u{feff}",
        " ä ö ", "x \u{0}", "\u{b}\u{c}x\u{1c}\u{1f}",
    ];
    for text in texts {
        assert_eq!(trimmed(text), text.trim(), "{:?}", text);
    }
}

#[test]
fn is_whitespace_agrees_with_the_standard_on_every_character() {
    for code in 0u32..=0x10ffff {
        if let Some(c) = char::from_u32(code) {
            assert_eq!(is_whitespace(c), c.is_whitespace(), "{:?}", c);
        }
    }
}

#[test]
fn chars_of_a_text() {
    assert_eq!(chars_of(""), Vec::<char>::new());
    assert_eq!(chars_of("päss"), vec!['p', 'ä', 's', 's']);
}

#[test]
fn text_of_a_part() {
    let chars = vec!['s', 'e', 'c', 'r', 'e', 't'];
    assert_eq!(text_of(&chars, 0, 6), "secret");
    assert_eq!(text_of(&chars, 1, 4), "ecr");
    assert_eq!(text_of(&chars, 3, 3), "");
}
