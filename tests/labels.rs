use visp::label::col_nr_to_label;
use visp::text::{decimal_text, digits_text};

fn column_of(label: &str) -> u32 {
    let mut value: u32 = 0;
    for c in label.chars() {
        assert!(c.is_ascii_uppercase());
        value = value * 26 + (c as u32 - 'A' as u32 + 1);
    }
    value - 1
}

#[test]
fn label_scenarios() {
    assert_eq!(col_nr_to_label(0), "A");
    assert_eq!(col_nr_to_label(25), "Z");
    assert_eq!(col_nr_to_label(26), "AA");
    assert_eq!(col_nr_to_label(51), "AZ");
    assert_eq!(col_nr_to_label(52), "BA");
    assert_eq!(col_nr_to_label(701), "ZZ");
    assert_eq!(col_nr_to_label(702), "AAA");
}

#[test]
fn label_round_trip() {
    for n in 0u16..10000 {
        assert_eq!(column_of(&col_nr_to_label(n)), n as u32);
    }
}

#[test]
fn label_of_largest_column() {
    assert_eq!(col_nr_to_label(u16::MAX), "CRXP");
    assert_eq!(column_of("CRXP"), 65535);
}

#[test]
fn labels_are_distinct_and_ordered_by_length() {
    let mut prev = col_nr_to_label(0);
    for n in 1u16..2000 {
        let next = col_nr_to_label(n);
        assert_ne!(next, prev);
        assert!(next.len() >= prev.len());
        prev = next;
    }
}

#[test]
fn decimal_digits() {
    assert_eq!(digits_text(0), "0");
    assert_eq!(digits_text(7), "7");
    assert_eq!(digits_text(10), "10");
    assert_eq!(digits_text(u64::MAX), "18446744073709551615");
    assert_eq!(decimal_text(0), "0");
    assert_eq!(decimal_text(-42), "-42");
    assert_eq!(decimal_text(1234), "1234");
    assert_eq!(decimal_text(i64::MIN), "-9223372036854775808");
}
