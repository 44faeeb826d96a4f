use makita::text::{
    chars_of, decimal, join, parse_u64, parse_u64_from, same_text, split, split_once, starts_with,
    string_of,
};

#[test]
fn decimal_of_zero_and_small_numbers() {
    assert_eq!(decimal(0), "0");
    assert_eq!(decimal(7), "7");
    assert_eq!(decimal(10), "10");
    assert_eq!(decimal(1234567890), "1234567890");
}

#[test]
fn decimal_of_largest_value() {
    assert_eq!(decimal(u64::MAX), "18446744073709551615");
}

#[test]
fn parse_plain_digits() {
    assert_eq!(parse_u64("0"), Some(0));
    assert_eq!(parse_u64("42"), Some(42));
    assert_eq!(parse_u64("007"), Some(7));
    assert_eq!(parse_u64("18446744073709551615"), Some(u64::MAX));
}

#[test]
fn parse_accepts_one_leading_plus() {
    assert_eq!(parse_u64("+5"), Some(5));
    assert_eq!(parse_u64("++5"), None);
    assert_eq!(parse_u64("+"), None);
}

#[test]
fn parse_rejects_what_is_not_a_number() {
    assert_eq!(parse_u64(""), None);
    assert_eq!(parse_u64("-1"), None);
    assert_eq!(parse_u64("12a"), None);
    assert_eq!(parse_u64(" 1"), None);
    assert_eq!(parse_u64("١٢"), None);
}

#[test]
fn parse_rejects_overflow() {
    assert_eq!(parse_u64("18446744073709551616"), None);
    assert_eq!(parse_u64("99999999999999999999999"), None);
}

#[test]
fn parse_agrees_with_std() {
    for text in ["0", "1", "+1", "", "x", "123456", "18446744073709551615", "18446744073709551616"] {
        assert_eq!(parse_u64(text), text.parse::<u64>().ok());
    }
}

#[test]
fn parse_from_an_offset() {
    let chars = chars_of("ab123");
    assert_eq!(parse_u64_from(&chars, 2), Some(123));
    assert_eq!(parse_u64_from(&chars, 5), None);
}

#[test]
fn decimal_then_parse_gives_number_back() {
    for n in [0u64, 1, 9, 10, 99, 100, 65535, u64::MAX] {
        assert_eq!(parse_u64(&decimal(n)), Some(n));
    }
}

#[test]
fn split_keeps_empty_pieces() {
    assert_eq!(split("a;b;c", ';'), vec!["a", "b", "c"]);
    assert_eq!(split("", ';'), vec![""]);
    assert_eq!(split(";", ';'), vec!["", ""]);
    assert_eq!(split("a;;b;", ';'), vec!["a", "", "b", ""]);
    assert_eq!(split("abc", ';'), vec!["abc"]);
}

#[test]
fn split_agrees_with_std() {
    for text in ["", "x", ";x;", "MAK;ListPermissions;a=1", ";;;"] {
        let expected: Vec<String> = text.split(';').map(|s| s.to_string()).collect();
        assert_eq!(split(text, ';'), expected);
    }
}

#[test]
fn split_once_cuts_at_first_separator() {
    assert_eq!(split_once("a=b=c", '='), Some(("a".to_string(), "b=c".to_string())));
    assert_eq!(split_once("=x", '='), Some(("".to_string(), "x".to_string())));
    assert_eq!(split_once("x=", '='), Some(("x".to_string(), "".to_string())));
    assert_eq!(split_once("abc", '='), None);
}

#[test]
fn join_puts_separator_between_pieces() {
    let parts = vec!["permissions".to_string(), "set".to_string()];
    assert_eq!(join(&parts, " "), "permissions set");
    assert_eq!(join(&vec!["one".to_string()], ", "), "one");
    assert_eq!(join(&Vec::new(), ", "), "");
    assert_eq!(join(&vec!["".to_string(), "".to_string()], "-"), "-");
}

#[test]
fn join_undoes_split() {
    for text in ["", "a", "a;b", ";a;;b;"] {
        assert_eq!(join(&split(text, ';'), ";"), text);
    }
}

#[test]
fn same_text_and_starts_with() {
    assert!(same_text("abc", "abc"));
    assert!(!same_text("abc", "abd"));
    assert!(!same_text("abc", "ab"));
    assert!(starts_with("MAK;x", "MAK;"));
    assert!(starts_with("MAK;", "MAK;"));
    assert!(!starts_with("MAK", "MAK;"));
    assert!(!starts_with("mak;x", "MAK;"));
    assert!(starts_with("anything", ""));
}

#[test]
fn chars_and_back() {
    let chars = chars_of("héllo");
    assert_eq!(chars.len(), 5);
    assert_eq!(string_of(&chars, 1, 4), "éll");
    assert_eq!(string_of(&chars, 2, 2), "");
}
