use tinyscript::text::{
    char_is_alpha, char_is_digit, char_is_space, decimal_chars, format_i32, parse_decimal,
    parse_i32, string_from_chars, to_chars, trim_end,
};

#[test]
fn characters_are_classified() {
    assert!(char_is_digit('0') && char_is_digit('9') && !char_is_digit('a'));
    assert!(char_is_alpha('a') && char_is_alpha('Z') && !char_is_alpha('_') && !char_is_alpha('1'));
    assert!(char_is_space(' ') && char_is_space('\t') && char_is_space('\n'));
    assert!(char_is_space('\r') && char_is_space('\x0C') && !char_is_space('\x0B'));
}

#[test]
fn a_string_gives_its_characters() {
    assert_eq!(to_chars("a\u{e9}b"), vec!['a', '\u{e9}', 'b']);
    assert_eq!(to_chars(""), Vec::<char>::new());
}

#[test]
fn numbers_are_written_in_decimal() {
    assert_eq!(format_i32(0), "0");
    assert_eq!(format_i32(7), "7");
    assert_eq!(format_i32(10), "10");
    assert_eq!(format_i32(-1), "-1");
    assert_eq!(format_i32(1203), "1203");
    assert_eq!(format_i32(i32::MAX), "2147483647");
    assert_eq!(format_i32(i32::MIN), "-2147483648");
    assert_eq!(decimal_chars(-45), vec!['-', '4', '5']);
}

#[test]
fn formatting_agrees_with_the_standard_library() {
    for n in [-100_000, -11, -10, -9, 0, 9, 10, 11, 99, 100, 101, 65_536, 999_999_999] {
        assert_eq!(format_i32(n), format!("{}", n));
    }
}

#[test]
fn decimal_texts_are_read() {
    assert_eq!(parse_i32("42"), Some(42));
    assert_eq!(parse_i32("-7"), Some(-7));
    assert_eq!(parse_i32("+5"), Some(5));
    assert_eq!(parse_i32("007"), Some(7));
    assert_eq!(parse_i32("0"), Some(0));
    assert_eq!(parse_i32("-0"), Some(0));
    assert_eq!(parse_i32("2147483647"), Some(i32::MAX));
    assert_eq!(parse_i32("-2147483648"), Some(i32::MIN));
    assert_eq!(parse_i32("00000000000000000000012"), Some(12));
}

#[test]
fn texts_that_are_no_numbers_are_refused() {
    assert_eq!(parse_i32(""), None);
    assert_eq!(parse_i32("-"), None);
    assert_eq!(parse_i32("+"), None);
    assert_eq!(parse_i32("12a"), None);
    assert_eq!(parse_i32(" 12"), None);
    assert_eq!(parse_i32("12 "), None);
    assert_eq!(parse_i32("--1"), None);
    assert_eq!(parse_i32("2147483648"), None);
    assert_eq!(parse_i32("-2147483649"), None);
    assert_eq!(parse_i32("99999999999999999999999999"), None);
}

#[test]
fn reading_agrees_with_the_standard_library() {
    for text in ["1", "-1", "+1", "x", "", "2147483647", "2147483648", "-2147483648", "1_0", "٣"] {
        assert_eq!(parse_i32(text), text.parse::<i32>().ok(), "{:?}", text);
    }
}

#[test]
fn digits_are_read_up_to_a_limit() {
    let chars = to_chars("x123");
    assert_eq!(parse_decimal(&chars, 1, 1000), Some(123));
    assert_eq!(parse_decimal(&chars, 1, 123), Some(123));
    assert_eq!(parse_decimal(&chars, 1, 122), None);
    assert_eq!(parse_decimal(&chars, 0, 1000), None);
    assert_eq!(parse_decimal(&chars, 4, 1000), None);
}

#[test]
fn trailing_whitespace_is_removed() {
    assert_eq!(trim_end(to_chars("abc \t\r\n")), to_chars("abc"));
    assert_eq!(trim_end(to_chars("  a b  ")), to_chars("  a b"));
    assert_eq!(trim_end(to_chars(" \n")), Vec::<char>::new());
    assert_eq!(trim_end(to_chars("")), Vec::<char>::new());
    assert_eq!(trim_end(to_chars("x")), vec!['x']);
}

#[test]
fn reading_a_written_number_gives_it_back() {
    for n in [i32::MIN, i32::MIN + 1, -1_000_000, -10, -1, 0, 1, 9, 10, 12_345, i32::MAX - 1, i32::MAX] {
        assert_eq!(parse_i32(&format_i32(n)), Some(n));
    }
}

#[test]
fn characters_make_a_string() {
    assert_eq!(string_from_chars(&['a', '\u{e9}', ' ', 'b']), "a\u{e9} b");
    assert_eq!(string_from_chars(&[]), "");
    assert_eq!(string_from_chars(&to_chars("x\"y\n")), "x\"y\n");
}
