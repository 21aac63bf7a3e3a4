use monkey_lang::number::{i64_to_string, parse_i64};

#[test]
fn test_parse_i64_values() {
    assert_eq!(parse_i64("0"), Some(0));
    assert_eq!(parse_i64("5"), Some(5));
    assert_eq!(parse_i64("838383"), Some(838383));
    assert_eq!(parse_i64("007"), Some(7));
    assert_eq!(parse_i64("9223372036854775807"), Some(i64::MAX));
}

#[test]
fn test_parse_i64_rejects() {
    assert_eq!(parse_i64(""), None);
    assert_eq!(parse_i64("12a"), None);
    assert_eq!(parse_i64("-5"), None);
    assert_eq!(parse_i64(" 5"), None);
    assert_eq!(parse_i64("9223372036854775808"), None);
    assert_eq!(parse_i64("99999999999999999999999999"), None);
}

#[test]
fn test_i64_to_string_values() {
    assert_eq!(i64_to_string(0), "0");
    assert_eq!(i64_to_string(5), "5");
    assert_eq!(i64_to_string(993322), "993322");
    assert_eq!(i64_to_string(-15), "-15");
    assert_eq!(i64_to_string(i64::MAX), "9223372036854775807");
    assert_eq!(i64_to_string(i64::MIN), "-9223372036854775808");
}

#[test]
fn test_parse_then_print_round_trip() {
    for text in ["1", "42", "9223372036854775807"] {
        let v = parse_i64(text).unwrap();
        assert_eq!(i64_to_string(v), text);
    }
}
