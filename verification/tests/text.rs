use stack_vm::text::{parse_index, parse_signed, same_text};

#[test]
fn same_text_compares_whole_strings() {
    assert!(same_text("Push", "Push"));
    assert!(same_text("", ""));
    assert!(!same_text("Push", "Pop"));
    assert!(!same_text("Push", "Pus"));
    assert!(!same_text("Push", "Pushh"));
    assert!(!same_text("push", "Push"));
    assert!(same_text("héllo", "héllo"));
    assert!(!same_text("héllo", "hèllo"));
}

#[test]
fn parse_signed_reads_decimal_literals() {
    assert_eq!(parse_signed("0"), Some(0));
    assert_eq!(parse_signed("42"), Some(42));
    assert_eq!(parse_signed("+42"), Some(42));
    assert_eq!(parse_signed("-42"), Some(-42));
    assert_eq!(parse_signed("-0"), Some(0));
    assert_eq!(parse_signed("0042"), Some(42));
    assert_eq!(parse_signed("1234567890"), Some(1234567890));
}

#[test]
fn parse_signed_rejects_what_is_no_literal() {
    assert_eq!(parse_signed(""), None);
    assert_eq!(parse_signed("+"), None);
    assert_eq!(parse_signed("-"), None);
    assert_eq!(parse_signed("+-1"), None);
    assert_eq!(parse_signed("--1"), None);
    assert_eq!(parse_signed("1-"), None);
    assert_eq!(parse_signed(" 1"), None);
    assert_eq!(parse_signed("1 "), None);
    assert_eq!(parse_signed("1_000"), None);
    assert_eq!(parse_signed("0x10"), None);
    assert_eq!(parse_signed("12a"), None);
    assert_eq!(parse_signed("١٢"), None);
    assert_eq!(parse_signed("1é"), None);
}

#[test]
fn parse_signed_knows_the_limits_of_the_machine_integer() {
    assert_eq!(parse_signed(&isize::MAX.to_string()), Some(isize::MAX));
    assert_eq!(parse_signed(&isize::MIN.to_string()), Some(isize::MIN));
    assert_eq!(parse_signed(&format!("+{}", isize::MAX)), Some(isize::MAX));
    assert_eq!(parse_signed(&format!("{}", isize::MAX as i128 + 1)), None);
    assert_eq!(parse_signed(&format!("{}", isize::MIN as i128 - 1)), None);
    assert_eq!(parse_signed(&format!("{}", usize::MAX)), None);
    assert_eq!(parse_signed(&format!("-{}", usize::MAX)), None);
    assert_eq!(parse_signed("99999999999999999999999999999999999999999"), None);
    assert_eq!(parse_signed("-99999999999999999999999999999999999999999"), None);
    assert_eq!(
        parse_signed("000000000000000000000000000000000000000000000007"),
        Some(7)
    );
}

#[test]
fn parse_index_reads_unsigned_literals() {
    assert_eq!(parse_index("0"), Some(0));
    assert_eq!(parse_index("17"), Some(17));
    assert_eq!(parse_index("+17"), Some(17));
    assert_eq!(parse_index("017"), Some(17));
    assert_eq!(parse_index(&usize::MAX.to_string()), Some(usize::MAX));
}

#[test]
fn parse_index_rejects_signs_and_overflow() {
    assert_eq!(parse_index(""), None);
    assert_eq!(parse_index("+"), None);
    assert_eq!(parse_index("-1"), None);
    assert_eq!(parse_index("-0"), None);
    assert_eq!(parse_index("1 "), None);
    assert_eq!(parse_index("a"), None);
    assert_eq!(parse_index(&format!("{}", usize::MAX as u128 + 1)), None);
    assert_eq!(parse_index("99999999999999999999999999999999999999999"), None);
}

#[test]
fn the_parsers_agree_with_the_standard_library() {
    let samples = [
        "", "0", "-0", "+0", "1", "-1", "+1", "10", "-10", "99", "1a", "a1", "+", "-", "++1",
        "9223372036854775807", "9223372036854775808", "-9223372036854775808",
        "-9223372036854775809", "18446744073709551615", "18446744073709551616",
        "2147483647", "2147483648", "-2147483648", "-2147483649", "4294967295", "4294967296",
    ];
    for text in samples {
        assert_eq!(parse_signed(text), text.parse::<isize>().ok());
        assert_eq!(parse_index(text), text.parse::<usize>().ok());
    }
}
