use counters::codec::{parse_value, value_text};

#[test]
fn value_text_of_small_and_large_values() {
    assert_eq!(value_text(0), "0");
    assert_eq!(value_text(7), "7");
    assert_eq!(value_text(10), "10");
    assert_eq!(value_text(1234), "1234");
    assert_eq!(value_text(u64::MAX), "18446744073709551615");
}

#[test]
fn parse_value_reads_digits() {
    assert_eq!(parse_value("0"), Some(0));
    assert_eq!(parse_value("42"), Some(42));
    assert_eq!(parse_value("007"), Some(7));
    assert_eq!(parse_value("18446744073709551615"), Some(u64::MAX));
}

#[test]
fn parse_value_accepts_one_trailing_newline() {
    assert_eq!(parse_value("5\n"), Some(5));
    assert_eq!(parse_value("5\n\n"), None);
}

#[test]
fn parse_value_rejects_other_text() {
    assert_eq!(parse_value(""), None);
    assert_eq!(parse_value("\n"), None);
    assert_eq!(parse_value("-1"), None);
    assert_eq!(parse_value("12a"), None);
    assert_eq!(parse_value(" 3"), None);
    assert_eq!(parse_value("18446744073709551616"), None);
    assert_eq!(parse_value("99999999999999999999"), None);
}

#[test]
fn value_text_round_trips() {
    for v in [0u64, 1, 9, 10, 99, 100, 65535, 4294967296, u64::MAX - 1, u64::MAX] {
        assert_eq!(parse_value(&value_text(v)), Some(v));
    }
}
