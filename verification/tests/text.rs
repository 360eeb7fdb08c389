use karakuri::text::{decimal_string, parse_i32, signed_decimal_string, split_whitespace, str_eq};

#[test]
fn decimals() {
    assert_eq!(decimal_string(0), "0");
    assert_eq!(decimal_string(1234567890), "1234567890");
    assert_eq!(signed_decimal_string(-7), "-7");
    assert_eq!(signed_decimal_string(i64::MAX), i64::MAX.to_string());
}

#[test]
fn i32_parsing_matches_std() {
    for s in ["0", "-0", "+12", "2147483647", "-2147483648", "2147483648", "", "+", "-", "1a", " 1", "007"] {
        assert_eq!(parse_i32(s), s.parse::<i32>().ok(), "{s:?}");
    }
}

#[test]
fn whitespace_words_match_std() {
    for s in ["", "  ", "a", " a  b\tc\n", "x\u{3000}y", "window focus east"] {
        let expected: Vec<String> = s.split_whitespace().map(String::from).collect();
        assert_eq!(split_whitespace(s), expected, "{s:?}");
    }
    assert!(str_eq("abc", "abc"));
    assert!(!str_eq("abc", "abd"));
}
