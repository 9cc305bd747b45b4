use discord_role_restore::decimal::{parse_u64_decimal, u64_to_decimal};

#[test]
fn renders_numbers_in_decimal() {
    assert_eq!(u64_to_decimal(0), "0");
    assert_eq!(u64_to_decimal(7), "7");
    assert_eq!(u64_to_decimal(10), "10");
    assert_eq!(u64_to_decimal(123456789012345678), "123456789012345678");
    assert_eq!(u64_to_decimal(u64::MAX), "18446744073709551615");
}

#[test]
fn parses_what_str_parse_accepts() {
    for text in ["0", "42", "+42", "007", "18446744073709551615", "1234567890123456789"] {
        assert_eq!(parse_u64_decimal(text), text.parse::<u64>().ok(), "{}", text);
    }
    assert_eq!(parse_u64_decimal("+42"), Some(42));
    assert_eq!(parse_u64_decimal("007"), Some(7));
}

#[test]
fn rejects_what_str_parse_rejects() {
    for text in ["", "+", "-", "-1", "12a", " 12", "12 ", "18446744073709551616", "99999999999999999999", "++1", "١٢"] {
        assert_eq!(parse_u64_decimal(text), None, "{}", text);
        assert_eq!(text.parse::<u64>().ok(), None, "{}", text);
    }
}

#[test]
fn rendered_ids_parse_back() {
    for n in [0u64, 1, 9, 10, 99, 1000, 123456789012345678, u64::MAX] {
        assert_eq!(parse_u64_decimal(&u64_to_decimal(n)), Some(n));
    }
}
