use sysfetch::numtext::{
    find_char, parse_hex_u32, parse_width_permille, str_eq, tenths_to_string, trim_ascii,
    two_digit_string, u64_to_string,
};

#[test]
fn decimal_rendering() {
    assert_eq!(u64_to_string(0), "0");
    assert_eq!(u64_to_string(7), "7");
    assert_eq!(u64_to_string(1234), "1234");
    assert_eq!(u64_to_string(u64::MAX), "18446744073709551615");
}

#[test]
fn tenths_rendering() {
    assert_eq!(tenths_to_string(0), "0.0");
    assert_eq!(tenths_to_string(125), "12.5");
    assert_eq!(tenths_to_string(1000), "100.0");
}

#[test]
fn two_digit_rendering() {
    assert_eq!(two_digit_string(0), "00");
    assert_eq!(two_digit_string(9), "09");
    assert_eq!(two_digit_string(59), "59");
    assert_eq!(two_digit_string(123), "123");
}

#[test]
fn trim_removes_surrounding_blanks() {
    assert_eq!(trim_ascii("  ab  "), "ab");
    assert_eq!(trim_ascii("\t a b \r\n"), "a b");
    assert_eq!(trim_ascii("   "), "");
    assert_eq!(trim_ascii(""), "");
    assert_eq!(trim_ascii("ab"), "ab");
}

#[test]
fn string_equality_is_by_characters() {
    assert!(str_eq("abc", "abc"));
    assert!(!str_eq("abc", "abd"));
    assert!(!str_eq("abc", "ab"));
    assert!(str_eq("", ""));
}

#[test]
fn find_char_gives_the_first_position() {
    assert_eq!(find_char("a=b=c", '='), Some(1));
    assert_eq!(find_char("abc", '='), None);
    assert_eq!(find_char("", '='), None);
}

#[test]
fn hex_parsing() {
    assert_eq!(parse_hex_u32("f4bc"), Some(0xf4bc));
    assert_eq!(parse_hex_u32("F4BC"), Some(0xf4bc));
    assert_eq!(parse_hex_u32("0"), Some(0));
    assert_eq!(parse_hex_u32("ffffffff"), Some(u32::MAX));
    assert_eq!(parse_hex_u32("100000000"), None);
    assert_eq!(parse_hex_u32(""), None);
    assert_eq!(parse_hex_u32("12g"), None);
}

#[test]
fn width_fraction_parsing() {
    assert_eq!(parse_width_permille("0.6"), Some(600));
    assert_eq!(parse_width_permille("1"), Some(1000));
    assert_eq!(parse_width_permille("1.0"), Some(1000));
    assert_eq!(parse_width_permille(".5"), Some(500));
    assert_eq!(parse_width_permille("0.125"), Some(125));
    assert_eq!(parse_width_permille("0.6000"), Some(600));
    assert_eq!(parse_width_permille("1.5"), None);
    assert_eq!(parse_width_permille("0"), None);
    assert_eq!(parse_width_permille("0.0"), None);
    assert_eq!(parse_width_permille(""), None);
    assert_eq!(parse_width_permille("."), None);
    assert_eq!(parse_width_permille("0..5"), None);
    assert_eq!(parse_width_permille("abc"), None);
}
