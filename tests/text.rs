use occult_code::shell::split_whitespace;
use occult_code::text::{decimal, parse_usize, str_eq};

#[test]
fn parse_plain_and_signed_numbers() {
    assert_eq!(parse_usize("42"), Some(42));
    assert_eq!(parse_usize("+7"), Some(7));
    assert_eq!(parse_usize("007"), Some(7));
    assert_eq!(parse_usize("0"), Some(0));
}

#[test]
fn parse_rejects_malformed_numbers() {
    assert_eq!(parse_usize(""), None);
    assert_eq!(parse_usize("+"), None);
    assert_eq!(parse_usize("-1"), None);
    assert_eq!(parse_usize("12a"), None);
    assert_eq!(parse_usize("１２"), None);
}

#[test]
fn parse_at_the_machine_limit() {
    let max = usize::MAX.to_string();
    assert_eq!(parse_usize(&max), Some(usize::MAX));
    let over = format!("{}0", max);
    assert_eq!(parse_usize(&over), None);
}

#[test]
fn decimal_writing() {
    assert_eq!(decimal(0), "0");
    assert_eq!(decimal(9), "9");
    assert_eq!(decimal(10), "10");
    assert_eq!(decimal(2026), "2026");
    assert_eq!(decimal(u128::MAX), u128::MAX.to_string());
}

#[test]
fn string_equality() {
    assert!(str_eq("ls", "ls"));
    assert!(!str_eq("ls", "LS"));
    assert!(!str_eq("ls", "lsx"));
    assert!(str_eq("", ""));
}

#[test]
fn words_of_a_line() {
    assert_eq!(split_whitespace("  read   2 \t"), vec!["read", "2"]);
    assert_eq!(split_whitespace("divine\u{3000}1988"), vec!["divine", "1988"]);
    assert!(split_whitespace(" \t\n ").is_empty());
    assert!(split_whitespace("").is_empty());
    assert_eq!(split_whitespace("ls"), vec!["ls"]);
}
