use daas::decimal::{parse_decimal, to_decimal};

#[test]
fn decimal_round_trips() {
    for n in [0usize, 7, 10, 99, 100, 5000, usize::MAX] {
        assert_eq!(to_decimal(n), n.to_string());
        assert_eq!(parse_decimal(&n.to_string()), Some(n));
    }
}

#[test]
fn decimal_rejects_non_numbers() {
    assert_eq!(parse_decimal(""), None);
    assert_eq!(parse_decimal("+5"), None);
    assert_eq!(parse_decimal("12a"), None);
    assert_eq!(parse_decimal("18446744073709551616"), None);
    assert_eq!(parse_decimal("007"), Some(7));
}
