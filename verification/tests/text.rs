use contained::text::{decimal_text, padded_hexadecimal_text, parse_u32, signed_text};

#[test]
fn decimal_notation() {
    assert_eq!(decimal_text(0), "0");
    assert_eq!(decimal_text(9), "9");
    assert_eq!(decimal_text(10), "10");
    assert_eq!(decimal_text(10_000), "10000");
    assert_eq!(decimal_text(u64::MAX), u64::MAX.to_string());
}

#[test]
fn signed_notation() {
    assert_eq!(signed_text(0), "0");
    assert_eq!(signed_text(4711), "4711");
    assert_eq!(signed_text(-1), "-1");
    assert_eq!(signed_text(i32::MIN), "-2147483648");
    assert_eq!(signed_text(i32::MAX), "2147483647");
}

#[test]
fn hexadecimal_notation_is_padded() {
    for n in [0u64, 1, 0xf, 0x10, 0xabc, 0xfffff, 0x100000, 0xdeadbeef, u64::MAX] {
        assert_eq!(padded_hexadecimal_text(n, 5), format!("{:05x}", n));
    }
    assert_eq!(padded_hexadecimal_text(0xabc, 5), "00abc");
    assert_eq!(padded_hexadecimal_text(7, 0), "7");
}

#[test]
fn numbers_are_read() {
    assert_eq!(parse_u32("0"), Some(0));
    assert_eq!(parse_u32("1000"), Some(1000));
    assert_eq!(parse_u32("+7"), Some(7));
    assert_eq!(parse_u32("000000000000012"), Some(12));
    assert_eq!(parse_u32("4294967295"), Some(u32::MAX));
}

#[test]
fn other_texts_are_no_numbers() {
    for text in [
        "", "+", "-", "-1", "-0", "++1", "+-1", " 1", "1 ", "1.0", "0x10", "a", "12a", "4294967296",
        "99999999999999999999999999", "\u{663}", "1\0",
    ] {
        assert_eq!(parse_u32(text), None, "{:?}", text);
        assert!(text.parse::<u32>().is_err());
    }
}

#[test]
fn decimal_reads_back() {
    for n in [0u32, 1, 9, 10, 4096, 65534, u32::MAX] {
        assert_eq!(parse_u32(&decimal_text(n as u64)), Some(n));
    }
}
