use myexpl::decimal::{parse_u32, u32_to_decimal};

#[test]
fn parse_plain_digits() {
    assert_eq!(parse_u32("0"), Some(0));
    assert_eq!(parse_u32("42"), Some(42));
    assert_eq!(parse_u32("007"), Some(7));
}

#[test]
fn parse_leading_plus() {
    assert_eq!(parse_u32("+7"), Some(7));
    assert_eq!(parse_u32("+"), None);
    assert_eq!(parse_u32("++7"), None);
}

#[test]
fn parse_rejects_non_digits() {
    assert_eq!(parse_u32(""), None);
    assert_eq!(parse_u32("-1"), None);
    assert_eq!(parse_u32("12a"), None);
    assert_eq!(parse_u32(" 1"), None);
}

#[test]
fn parse_bounds() {
    assert_eq!(parse_u32("4294967295"), Some(u32::MAX));
    assert_eq!(parse_u32("4294967296"), None);
    assert_eq!(parse_u32("99999999999999999999"), None);
    assert_eq!(parse_u32("99999999999999999999x"), None);
}

#[test]
fn parse_agrees_with_std() {
    for s in ["0", "1", "+1", "-0", "", "+", "00", "123456789", "4294967295", "4294967296", "1_0", "٣"] {
        assert_eq!(parse_u32(s), s.parse::<u32>().ok(), "text {:?}", s);
    }
}

#[test]
fn decimal_text() {
    assert_eq!(u32_to_decimal(0), "0");
    assert_eq!(u32_to_decimal(9), "9");
    assert_eq!(u32_to_decimal(10), "10");
    assert_eq!(u32_to_decimal(4294967295), "4294967295");
}

#[test]
fn decimal_round_trip() {
    for n in [0u32, 1, 9, 10, 99, 100, 65535, 4294967295] {
        assert_eq!(parse_u32(&u32_to_decimal(n)), Some(n));
        assert_eq!(u32_to_decimal(n), n.to_string());
    }
}
