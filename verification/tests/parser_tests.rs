use advanced_inputs::index_to_decimal;
use advanced_inputs::parse_index;
use advanced_inputs::parse_index_range;
use advanced_inputs::trim;

#[test]
fn range_accepts_inside_value() {
    assert_eq!(parse_index_range("3", 1, 6), Some(3));
}

#[test]
fn range_rejects_outside_value() {
    assert_eq!(parse_index_range("7", 1, 6), None);
    assert_eq!(parse_index_range("0", 1, 6), None);
}

#[test]
fn range_lower_bound_inclusive() {
    assert_eq!(parse_index_range("1", 1, 6), Some(1));
}

#[test]
fn range_upper_bound_inclusive() {
    assert_eq!(parse_index_range("6", 1, 6), Some(6));
}

#[test]
fn range_rejects_unparsable_text() {
    assert_eq!(parse_index_range("six", 1, 6), None);
}

#[test]
fn index_plain_decimal() {
    assert_eq!(parse_index("42"), Some(42));
    assert_eq!(parse_index("0"), Some(0));
    assert_eq!(parse_index("007"), Some(7));
}

#[test]
fn index_leading_plus_sign() {
    assert_eq!(parse_index("+7"), Some(7));
    assert_eq!(parse_index("+"), None);
}

#[test]
fn index_rejects_malformed_text() {
    assert_eq!(parse_index(""), None);
    assert_eq!(parse_index("abc"), None);
    assert_eq!(parse_index("4 2"), None);
    assert_eq!(parse_index("-3"), None);
    assert_eq!(parse_index("3.5"), None);
}

#[test]
fn index_rejects_overflowing_value() {
    // one past the largest 64-bit value
    assert_eq!(parse_index("18446744073709551616"), None);
    assert_eq!(parse_index("99999999999999999999999999"), None);
}

#[test]
fn decimal_rendering_round_trips() {
    assert_eq!(index_to_decimal(0), "0");
    assert_eq!(index_to_decimal(7), "7");
    assert_eq!(index_to_decimal(430), "430");
    for n in [0usize, 1, 9, 10, 99, 100, 12345] {
        assert_eq!(parse_index(&index_to_decimal(n)), Some(n));
    }
}

#[test]
fn trim_removes_surrounding_whitespace() {
    assert_eq!(trim("  a b\t"), "a b");
    assert_eq!(trim("\n\r x \u{3000}"), "x");
    assert_eq!(trim("   "), "");
    assert_eq!(trim("plain"), "plain");
}
