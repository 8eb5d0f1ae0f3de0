use madsim_harness::{format_u64, parse_u64, report_line, SEED_OPTION};

#[test]
fn parses_plain_and_signed_digits() {
    assert_eq!(parse_u64("0"), Some(0));
    assert_eq!(parse_u64("42"), Some(42));
    assert_eq!(parse_u64("+42"), Some(42));
    assert_eq!(parse_u64("007"), Some(7));
    assert_eq!(parse_u64("18446744073709551615"), Some(u64::MAX));
}

#[test]
fn rejects_what_is_not_an_unsigned_integer() {
    for text in ["", "+", "-1", " 1", "1 ", "12a", "++1", "1+", "4\u{663}", "\u{663}", "18446744073709551616", "99999999999999999999"] {
        assert_eq!(parse_u64(text), None, "{:?}", text);
    }
}

#[test]
fn formats_in_decimal() {
    assert_eq!(format_u64(0), "0");
    assert_eq!(format_u64(7), "7");
    assert_eq!(format_u64(10), "10");
    assert_eq!(format_u64(1234567890), "1234567890");
    assert_eq!(format_u64(u64::MAX), "18446744073709551615");
}

#[test]
fn formatted_numbers_parse_back() {
    for n in [0u64, 1, 9, 10, 99, 100, 65535, 1 << 40, u64::MAX - 1, u64::MAX] {
        assert_eq!(parse_u64(&format_u64(n)), Some(n));
    }
}

#[test]
fn report_line_names_the_seed_option() {
    assert_eq!(SEED_OPTION, "MADSIM_TEST_SEED");
    assert_eq!(report_line(0), "MADSIM_TEST_SEED=0");
    assert_eq!(report_line(u64::MAX), "MADSIM_TEST_SEED=18446744073709551615");
    let line = report_line(123456);
    let value = line.strip_prefix("MADSIM_TEST_SEED=").unwrap();
    assert_eq!(parse_u64(value), Some(123456));
}
