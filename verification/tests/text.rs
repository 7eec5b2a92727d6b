use responses_core::rows::{database_url, removed_any};
use responses_core::text::{decimal_text, starts_with};

#[test]
fn decimal_numerals() {
    assert_eq!(decimal_text(0), "0");
    assert_eq!(decimal_text(7), "7");
    assert_eq!(decimal_text(10), "10");
    assert_eq!(decimal_text(65), "65");
    assert_eq!(decimal_text(1234567890), "1234567890");
    assert_eq!(decimal_text(usize::MAX), usize::MAX.to_string());
}

#[test]
fn prefixes() {
    assert!(starts_with("sqlite:db", "sqlite:"));
    assert!(starts_with("abc", ""));
    assert!(starts_with("abc", "abc"));
    assert!(!starts_with("ab", "abc"));
    assert!(!starts_with("xsqlite:", "sqlite:"));
    assert!(starts_with("\u{e9}t\u{e9}", "\u{e9}t"));
}

#[test]
fn database_url_of_a_plain_path() {
    assert_eq!(database_url("data/responses.db"), "sqlite:data/responses.db?mode=rwc");
    assert_eq!(database_url(""), "sqlite:?mode=rwc");
}

#[test]
fn database_url_of_an_address() {
    assert_eq!(database_url("sqlite::memory:"), "sqlite::memory:");
    assert_eq!(database_url("sqlite:x.db?mode=ro"), "sqlite:x.db?mode=ro");
    assert_eq!(database_url("file:x.db"), "file:x.db");
}

#[test]
fn removal_counts() {
    assert!(!removed_any(0));
    assert!(removed_any(1));
    assert!(removed_any(12));
}
