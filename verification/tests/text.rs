use cli_drivers::json::{parse_json, Json};
use cli_drivers::pattern::is_match;
use cli_drivers::text::{
    contains, ends_with, format_signed, format_unsigned, in_turn, join, lines, same, same_ignoring_case,
    starts_with, strip_prefix, to_ascii_upper, trim, white_space,
};

#[test]
fn trimming_agrees_with_the_standard_library() {
    for s in ["", " ", "a", " a b \n", "\u{85}\u{a0}x\u{1680}", "\u{200b}x\u{200b}", "\r\n\t"] {
        assert_eq!(trim(s), s.trim());
    }
    for code in 0..=0x10ffffu32 {
        if let Some(c) = char::from_u32(code) {
            assert_eq!(white_space(c), c.is_whitespace());
        }
    }
}

#[test]
fn lines_agree_with_the_standard_library() {
    for s in ["", "\n", "a", "a\n", "a\r\nb", "a\n\nb\n", "a\r", "\r\n", "a\r\r\nb\r", "\u{2028}x\n"] {
        let expected: Vec<&str> = s.lines().collect();
        assert_eq!(lines(s), expected);
    }
}

#[test]
fn searching_agrees_with_the_standard_library() {
    for s in ["", "a", "ab", "abab", "größe"] {
        for part in ["", "a", "b", "ab", "ba", "größ", "ababa"] {
            assert_eq!(contains(s, part), s.contains(part));
            assert_eq!(starts_with(s, part), s.starts_with(part));
            assert_eq!(ends_with(s, part), s.ends_with(part));
            assert_eq!(strip_prefix(s, part), s.strip_prefix(part).unwrap_or(s));
            assert_eq!(same(s, part), s == part);
            assert_eq!(same_ignoring_case(s, part), s.eq_ignore_ascii_case(part));
        }
    }
    assert_eq!(to_ascii_upper("aZ{é1"), "AZ{é1");
    assert!(same_ignoring_case("ErRoR", "error"));
    assert!(!same_ignoring_case("É", "é"));
    assert!(!same_ignoring_case("[", "{"));
}

#[test]
fn words_are_looked_for_within_a_sentence() {
    assert!(in_turn("a then b", "a", "b"));
    assert!(in_turn("ab", "a", "b"));
    assert!(in_turn("x a. a b", "a", "b"));
    assert!(in_turn("aa", "a", "a"));
    assert!(in_turn("x", "", ""));
    assert!(!in_turn("b a", "a", "b"));
    assert!(!in_turn("aba", "ab", "ba"));
    for end in [".", "!", "?", ";", "\n"] {
        assert!(!in_turn(&format!("a{end} b"), "a", "b"));
    }
    assert!(!in_turn("a", "a", "b"));
    assert!(!in_turn("", "a", ""));
}

#[test]
fn joining_and_formatting() {
    let parts: Vec<String> = ["a", "", "b"].iter().map(|s| s.to_string()).collect();
    assert_eq!(join(&parts, ", "), "a, , b");
    assert_eq!(join(&Vec::new(), ", "), "");
    assert_eq!(format_unsigned(0), "0");
    assert_eq!(format_unsigned(u64::MAX), "18446744073709551615");
    assert_eq!(format_signed(i32::MIN), "-2147483648");
    assert_eq!(format_signed(10), "10");
}

#[test]
fn patterns_are_searched_for_anywhere() {
    assert!(is_match(r"b\d", "ab1c"));
    assert!(!is_match(r"^b", "ab"));
    assert!(!is_match("(", "("));
}

#[test]
fn json_texts_are_read() {
    let value = parse_json(r#" {"b":[1,-2,3.5,null,true,"x"],"a":{"k":"v"},"b2":{}} "#).unwrap();
    assert_eq!(value.str_at2("a", "k"), Some("v".to_string()));
    assert_eq!(value.str_at2("a", "x"), None);
    let items = value.get("b").unwrap().as_array().unwrap();
    assert_eq!(items.len(), 6);
    assert_eq!(items[0].as_u64(), Some(1));
    assert_eq!(items[1].as_u64(), None);
    assert_eq!(items[1].as_number_text(), Some("-2".to_string()));
    assert_eq!(items[2].as_number_text(), Some("3.5".to_string()));
    assert!(matches!(items[3], Json::Null));
    assert_eq!(items[4].as_bool(), Some(true));
    assert_eq!(items[5].as_str(), Some(&"x".to_string()));
    assert!(value.get("c").is_none());
    assert!(items[0].get("a").is_none());
    assert!(parse_json("{").is_none());
    assert!(parse_json("").is_none());
    assert_eq!(parse_json(r#"{"a":1,"a":2}"#).unwrap().u64_at("a"), Some(2));
}
