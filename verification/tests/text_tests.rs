use tt_rc_pro::text::{decimal_chars, hex_chars, padded_decimal_chars, parse_u32, parse_u64, text_contains, trimmed_equals};

#[test]
fn parse_like_std() {
    let cases = ["0", "42\n", "  17 ", "+5", "+", "", "-1", "12a", "18446744073709551615", "18446744073709551616", "00012", "1 2"];
    for c in cases.iter() {
        assert_eq!(parse_u64(c), c.trim().parse::<u64>().ok(), "{c:?}");
        assert_eq!(parse_u32(c), c.trim().parse::<u32>().ok(), "{c:?}");
    }
    assert_eq!(parse_u32("4294967296"), None);
    assert_eq!(parse_u64("8589934592\n"), Some(8589934592));
}

#[test]
fn numerals() {
    assert_eq!(decimal_chars(0).iter().collect::<String>(), "0");
    assert_eq!(decimal_chars(1234).iter().collect::<String>(), "1234");
    assert_eq!(padded_decimal_chars(7, 3).iter().collect::<String>(), "007");
    assert_eq!(padded_decimal_chars(12345, 3).iter().collect::<String>(), "12345");
    assert_eq!(hex_chars(0x264a, 8, true).iter().collect::<String>(), "0000264A");
    assert_eq!(hex_chars(0xbeef, 4, false).iter().collect::<String>(), "beef");
}

#[test]
fn search_and_compare() {
    assert!(text_contains("HID_ID=0003:0000264A:0000232A\n", "0000264A:0000232A"));
    assert!(!text_contains("HID_ID=0003:0000264B:0000232A\n", "0000264A:0000232A"));
    assert!(text_contains("abc", ""));
    assert!(!text_contains("ab", "abc"));
    assert!(trimmed_equals(" Tctl\n", "Tctl"));
    assert!(!trimmed_equals("Tccd1\n", "Tctl"));
}

#[test]
fn decimal_numerals_read_back() {
    for n in [0u64, 9, 10, 255, 1_000_000, u64::MAX] {
        let text: String = decimal_chars(n).iter().collect();
        assert_eq!(parse_u64(&text), Some(n));
    }
}
