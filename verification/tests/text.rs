use fourth::clock::{reading, Clock};
use fourth::text::{contains_text, decimal_string, join};

#[test]
fn ports_in_decimal() {
    assert_eq!(decimal_string(0), "0");
    assert_eq!(decimal_string(7), "7");
    assert_eq!(decimal_string(10), "10");
    assert_eq!(decimal_string(80), "80");
    assert_eq!(decimal_string(5432), "5432");
    assert_eq!(decimal_string(10000), "10000");
    assert_eq!(decimal_string(65535), "65535");
}

#[test]
fn decimal_agrees_with_the_standard_rendering() {
    for n in [1u16, 9, 11, 99, 100, 101, 999, 1000, 1234, 9999, 12345, 40404, 65534] {
        assert_eq!(decimal_string(n), n.to_string());
    }
}

#[test]
fn joined_texts() {
    assert_eq!(join("Upstream ", "web"), "Upstream web");
    assert_eq!(join("", ""), "");
    assert_eq!(join("é", "ü"), "éü");
}

#[test]
fn text_is_found_in_a_list() {
    let items = vec!["a".to_string(), "b".to_string(), "".to_string()];
    assert!(contains_text(&items, &"b".to_string()));
    assert!(contains_text(&items, &"".to_string()));
    assert!(!contains_text(&items, &"c".to_string()));
    assert!(!contains_text(&Vec::new(), &"a".to_string()));
}

#[test]
fn spans_as_clock_readings() {
    assert_eq!(reading(0), 0);
    assert_eq!(reading(-1), 0);
    assert_eq!(reading(i128::MIN), 0);
    assert_eq!(reading(3_000_000_000), 3_000_000_000);
    assert_eq!(reading(u64::MAX as i128), u64::MAX);
    assert_eq!(reading(u64::MAX as i128 + 1), u64::MAX);
    assert_eq!(reading(i128::MAX), u64::MAX);
}

#[test]
fn clock_does_not_run_backwards() {
    let clock = Clock::start();
    let first = clock.now();
    let second = clock.now();
    assert!(first <= second);
    assert!(second < 60_000_000_000);
}
