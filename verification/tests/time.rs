use yt_sub::text::{contains_bytes, decimal_text, join, push_decimal};
use yt_sub::time::Timestamp;

#[test]
fn parse_reads_utc_instant() {
    assert_eq!(Timestamp::parse("2024-01-01T12:00:00Z"), Some(Timestamp::new(1704110400, 0)));
    assert_eq!(Timestamp::parse("1970-01-01T00:00:00Z"), Some(Timestamp::new(0, 0)));
    assert_eq!(Timestamp::parse("1969-12-31T23:59:59Z"), Some(Timestamp::new(-1, 0)));
}

#[test]
fn parse_applies_the_offset() {
    assert_eq!(
        Timestamp::parse("2024-01-01T12:00:00+02:00"),
        Some(Timestamp::new(1704110400 - 7200, 0))
    );
    assert_eq!(
        Timestamp::parse("2024-01-01T12:00:00+00:00"),
        Timestamp::parse("2024-01-01T12:00:00Z")
    );
}

#[test]
fn parse_keeps_fractions_of_a_second() {
    assert_eq!(
        Timestamp::parse("2024-01-01T12:00:00.25Z"),
        Some(Timestamp::new(1704110400, 250_000_000))
    );
}

#[test]
fn parse_rejects_what_is_no_instant() {
    assert_eq!(Timestamp::parse(""), None);
    assert_eq!(Timestamp::parse("yesterday"), None);
    assert_eq!(Timestamp::parse("2024-13-01T00:00:00Z"), None);
    assert_eq!(Timestamp::parse("2024-01-01"), None);
}

#[test]
fn is_after_orders_by_seconds_then_nanoseconds() {
    let t = Timestamp::new(10, 5);
    assert!(Timestamp::new(11, 0).is_after(t));
    assert!(Timestamp::new(10, 6).is_after(t));
    assert!(!Timestamp::new(10, 5).is_after(t));
    assert!(!Timestamp::new(10, 4).is_after(t));
    assert!(!Timestamp::new(9, 999_999_999).is_after(t));
    assert!(Timestamp::new(-1, 0).is_after(Timestamp::new(-2, 999_999_999)));
}

#[test]
fn seconds_since_rounds_toward_zero() {
    let t = Timestamp::new(100, 500_000_000);
    assert_eq!(Timestamp::new(160, 500_000_000).seconds_since(t), 60);
    assert_eq!(Timestamp::new(160, 499_999_999).seconds_since(t), 59);
    assert_eq!(Timestamp::new(100, 500_000_000).seconds_since(t), 0);
    assert_eq!(Timestamp::new(99, 500_000_001).seconds_since(t), 0);
    assert_eq!(Timestamp::new(99, 500_000_000).seconds_since(t), -1);
    assert_eq!(Timestamp::new(40, 600_000_000).seconds_since(t), -59);
    assert_eq!(Timestamp::new(40, 500_000_000).seconds_since(t), -60);
}

#[test]
fn seconds_since_spans_the_whole_range() {
    let low = Timestamp::new(i64::MIN, 0);
    let high = Timestamp::new(i64::MAX, 0);
    assert_eq!(high.seconds_since(low), u64::MAX as i128);
    assert_eq!(low.seconds_since(high), -(u64::MAX as i128));
}

#[test]
fn hours_before_moves_seconds_only() {
    let now = Timestamp::new(1704110400, 123);
    assert_eq!(now.hours_before(0), now);
    assert_eq!(now.hours_before(1), Timestamp::new(1704110400 - 3600, 123));
    assert_eq!(now.hours_before(24), Timestamp::new(1704110400 - 86_400, 123));
    assert_eq!(now.hours_before(u16::MAX), Timestamp::new(1704110400 - 3600 * 65_535, 123));
}

#[test]
fn decimal_text_writes_numerals() {
    assert_eq!(decimal_text(0), "0");
    assert_eq!(decimal_text(7), "7");
    assert_eq!(decimal_text(10), "10");
    assert_eq!(decimal_text(25), "25");
    assert_eq!(decimal_text(1234567890), "1234567890");
    assert_eq!(decimal_text(u64::MAX), "18446744073709551615");
}

#[test]
fn push_decimal_appends() {
    let mut out = String::from("n=");
    push_decimal(&mut out, 905);
    assert_eq!(out, "n=905");
}

#[test]
fn join_puts_the_separator_between_parts() {
    let none: Vec<String> = Vec::new();
    assert_eq!(join(&none, " "), "");
    assert_eq!(join(&vec!["a".to_string()], " "), "a");
    assert_eq!(join(&vec!["a".to_string(), "b".to_string(), "c".to_string()], ", "), "a, b, c");
    assert_eq!(join(&vec!["".to_string(), "".to_string()], "-"), "-");
}

#[test]
fn contains_bytes_finds_runs() {
    assert!(contains_bytes(b"hello world", b"o w"));
    assert!(contains_bytes(b"hello", b"hello"));
    assert!(contains_bytes(b"hello", b""));
    assert!(contains_bytes(b"", b""));
    assert!(contains_bytes(b"aab", b"ab"));
    assert!(!contains_bytes(b"hello", b"hello!"));
    assert!(!contains_bytes(b"hello", b"world"));
    assert!(!contains_bytes(b"", b"a"));
    assert!(!contains_bytes(b"<#cdat", b"<#cdata"));
}
