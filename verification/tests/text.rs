use auto_dns::text::{
    contains_char, decimal_string, is_whitespace, parse_i32, parse_usize, same_text,
    signed_decimal_string, to_chars, trim,
};

#[test]
fn white_space_is_what_the_standard_library_takes_for_it() {
    let mut count = 0;
    for code in 0..=0x10FFFFu32 {
        if let Some(c) = char::from_u32(code) {
            assert_eq!(is_whitespace(c), c.is_whitespace(), "U+{:04X}", code);
            if is_whitespace(c) {
                count += 1;
            }
        }
    }
    assert_eq!(count, 25);
}

#[test]
fn trims_as_the_standard_library_does() {
    for text in [
        "", " ", "  \t\n", "a", " a", "a ", " a b ", "\n203.0.113.5\n", "\u{a0}x\u{2003}",
        "\u{3000}", "x\u{feff}", "  1.2.3.4\r\n", "\u{85}\u{1680}q r\u{2028}\u{2029}",
    ] {
        assert_eq!(trim(text), text.trim(), "{:?}", text);
    }
    assert_eq!(trim("  home.example.com \n"), "home.example.com");
}

#[test]
fn takes_a_text_apart_into_its_characters() {
    assert_eq!(to_chars("a.b"), vec!['a', '.', 'b']);
    assert_eq!(to_chars("é１"), vec!['é', '１']);
    assert_eq!(to_chars(""), Vec::<char>::new());
}

#[test]
fn compares_texts_and_finds_characters() {
    assert!(same_text("INSYNC", "INSYNC"));
    assert!(!same_text("INSYNC", "INSYNc"));
    assert!(!same_text("INSYNC", "INSYN"));
    assert!(same_text("", ""));
    assert!(contains_char("home.example.com", '.'));
    assert!(!contains_char("localhost", '.'));
    assert!(!contains_char("", '.'));
}

#[test]
fn writes_decimal_numerals() {
    assert_eq!(decimal_string(0), "0");
    assert_eq!(decimal_string(7), "7");
    assert_eq!(decimal_string(10), "10");
    assert_eq!(decimal_string(300), "300");
    assert_eq!(decimal_string(u128::MAX), u128::MAX.to_string());
    assert_eq!(signed_decimal_string(0), "0");
    assert_eq!(signed_decimal_string(300), "300");
    assert_eq!(signed_decimal_string(-1), "-1");
    assert_eq!(signed_decimal_string(i64::MIN), i64::MIN.to_string());
    assert_eq!(signed_decimal_string(i64::MAX), i64::MAX.to_string());
}

#[test]
fn reads_numbers_as_the_standard_library_does() {
    for text in [
        "", "0", "1", "+1", "-1", "-0", "+0", "007", "300", "2147483647", "2147483648",
        "-2147483648", "-2147483649", "99999999999999999999999", "+", "-", "1 ", " 1", "1a", "a",
        "--1", "+-1", "1.0", "１", "0000000000000000000000002", "18446744073709551615",
        "18446744073709551616", "4294967295", "4294967296",
    ] {
        assert_eq!(parse_i32(text), text.parse::<i32>().ok(), "{:?}", text);
        assert_eq!(parse_usize(text), text.parse::<usize>().ok(), "{:?}", text);
    }
}
