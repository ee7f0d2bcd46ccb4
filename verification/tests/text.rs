use command_framework::text::{decimal_string, parse_u64, two_places_string};

#[test]
fn decimal_of_numbers() {
    assert_eq!(decimal_string(0), "0");
    assert_eq!(decimal_string(7), "7");
    assert_eq!(decimal_string(10), "10");
    assert_eq!(decimal_string(1234567890), "1234567890");
    assert_eq!(decimal_string(u64::MAX), "18446744073709551615");
}

#[test]
fn two_places_pads_with_zero() {
    assert_eq!(two_places_string(0), "00");
    assert_eq!(two_places_string(9), "09");
    assert_eq!(two_places_string(10), "10");
    assert_eq!(two_places_string(123), "123");
}

#[test]
fn parse_reads_what_std_reads() {
    let cases = [
        "", "+", "-", "0", "007", "+5", "-5", "12a", " 12", "12 ", "18446744073709551615",
        "18446744073709551616", "99999999999999999999999", "++1", "1+", "\u{663}",
    ];
    for c in cases {
        assert_eq!(parse_u64(c), c.parse::<u64>().ok(), "{:?}", c);
    }
    assert_eq!(parse_u64("+5"), Some(5));
    assert_eq!(parse_u64("007"), Some(7));
    assert_eq!(parse_u64("18446744073709551615"), Some(u64::MAX));
    assert_eq!(parse_u64("18446744073709551616"), None);
    assert_eq!(parse_u64(""), None);
    assert_eq!(parse_u64("+"), None);
}
