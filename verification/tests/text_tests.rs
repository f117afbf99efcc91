use bili_account::{chars_of, debug_count_string, decimal_string, signed_decimal_string, DIGITS};

#[test]
fn decimal_matches_display() {
    assert_eq!(DIGITS, "0123456789");
    for n in [0u64, 1, 9, 10, 11, 99, 100, 101, 12345, 1 << 40, u64::MAX] {
        assert_eq!(decimal_string(n), n.to_string());
    }
}

#[test]
fn signed_decimal_matches_display() {
    for i in [0i64, 1, -1, 9, -10, 42, i64::MAX, i64::MIN, i64::MIN + 1] {
        assert_eq!(signed_decimal_string(i), i.to_string());
    }
}

#[test]
fn debug_count_matches_debug() {
    for o in [None, Some(0u64), Some(17), Some(u64::MAX)] {
        assert_eq!(debug_count_string(o), format!("{:?}", o));
    }
}

#[test]
fn chars_in_order() {
    assert_eq!(chars_of("a令b"), vec!['a', '令', 'b']);
    assert!(chars_of("").is_empty());
}
