use reward_shaping_trading::decimal::{parse_timestamp, parse_u64, push_decimal};

#[test]
fn test_parse_u64_agrees_with_std() {
    let cases = [
        "0", "7", "1700000000000", "+42", "007", "", "+", "-1", "-0", "12a", " 1", "1 ",
        "18446744073709551615", "18446744073709551616", "99999999999999999999", "++1", "1.5",
        "٣", "+0",
    ];
    for c in cases {
        assert_eq!(parse_u64(c), c.parse::<u64>().ok(), "case {:?}", c);
    }
}

#[test]
fn test_parse_timestamp() {
    assert_eq!(parse_timestamp("1700000000000"), 1700000000000);
    assert_eq!(parse_timestamp("abc"), 0);
    assert_eq!(parse_timestamp(""), 0);
    assert_eq!(parse_timestamp("18446744073709551616"), 0);
    assert_eq!(parse_timestamp("+5"), 5);
}

#[test]
fn test_push_decimal_agrees_with_display() {
    for n in [0usize, 1, 9, 10, 99, 100, 200, 1000, 123456789, usize::MAX] {
        let mut s = String::from("limit=");
        push_decimal(&mut s, n);
        assert_eq!(s, format!("limit={}", n));
    }
}
