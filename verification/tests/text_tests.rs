use oisko::text::{char_is_space, first_field, same_text, to_hex_lower, trim};

#[test]
fn text_beyond_ascii_is_kept_whole() {
    assert_eq!(trim(" aé🚀 "), "aé🚀");
    assert_eq!(first_field("é🚀,x", ','), "é🚀");
    assert_eq!(first_field("a🚀b", '🚀'), "a");
}

#[test]
fn trim_agrees_with_the_standard_library() {
    let samples = [
        "",
        " ",
        "a",
        "  a b  ",
        "\t\n\r x \u{b}\u{c}",
        "\u{85}\u{a0}x\u{1680}\u{2000}\u{200a}",
        "\u{2028}\u{2029}\u{202f}\u{205f}\u{3000}y\u{3000}",
        "\u{200b}z\u{200b}",
        "\u{feff}z",
        " inner  space ",
    ];
    for sample in samples {
        assert_eq!(trim(sample), sample.trim(), "for {:?}", sample);
    }
}

#[test]
fn white_space_agrees_with_the_standard_library() {
    for code in 0u32..0x3100 {
        if let Some(c) = char::from_u32(code) {
            assert_eq!(char_is_space(c), c.is_whitespace(), "for U+{:04X}", code);
        }
    }
    assert!(!char_is_space('\u{10ffff}'));
}

#[test]
fn first_field_ends_at_the_first_mark() {
    assert_eq!(first_field("a,b,c", ','), "a");
    assert_eq!(first_field(",b", ','), "");
    assert_eq!(first_field("abc", ','), "abc");
    assert_eq!(first_field("", ','), "");
    assert_eq!(first_field("x|y", '|'), "x");
}

#[test]
fn hexadecimal_is_lower_case_with_two_digits() {
    assert_eq!(to_hex_lower(&[]), "");
    assert_eq!(to_hex_lower(&[0x00, 0x0f, 0xa0, 0xff, 0x12]), "000fa0ff12");
}

#[test]
fn same_text_compares_characters() {
    assert!(same_text("Offer", "Offer"));
    assert!(!same_text("Offer", "offer"));
    assert!(same_text("", ""));
}
