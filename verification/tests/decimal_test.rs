use baml_rt::decimal::{format_u64, parse_usize};

#[test]
fn parse_accepts_digits_with_optional_plus() {
    assert_eq!(parse_usize("0"), Some(0));
    assert_eq!(parse_usize("42"), Some(42));
    assert_eq!(parse_usize("+7"), Some(7));
    assert_eq!(parse_usize("007"), Some(7));
    assert_eq!(parse_usize(&usize::MAX.to_string()), Some(usize::MAX));
}

#[test]
fn parse_refuses_what_str_parse_refuses() {
    for text in ["", "+", "-1", "-0", "1a", " 1", "1 ", "++1", "18446744073709551616", "１"] {
        assert_eq!(parse_usize(text), text.parse::<usize>().ok(), "text {:?}", text);
    }
    assert_eq!(parse_usize("99999999999999999999999"), None);
}

#[test]
fn format_writes_decimal() {
    assert_eq!(format_u64(0), "0");
    assert_eq!(format_u64(9), "9");
    assert_eq!(format_u64(10), "10");
    assert_eq!(format_u64(1234567890), "1234567890");
    assert_eq!(format_u64(u64::MAX), u64::MAX.to_string());
}

#[test]
fn parse_reads_back_what_format_writes() {
    for n in [0u64, 1, 9, 10, 99, 100, 65535, 4294967296, u64::MAX] {
        assert_eq!(parse_usize(&format_u64(n)), Some(n as usize));
    }
}
