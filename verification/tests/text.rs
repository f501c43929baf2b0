use sandbox_runner::bytes::{
    bytes_eq, find_byte_index, is_fraction, parse_i32, parse_u64, sub_bytes, to_ascii_lower,
    trim_ascii, u64_to_dec,
};

#[test]
fn formats_small_numbers() {
    assert_eq!(u64_to_dec(0), b"0".to_vec());
    assert_eq!(u64_to_dec(7), b"7".to_vec());
    assert_eq!(u64_to_dec(42), b"42".to_vec());
    assert_eq!(u64_to_dec(120), b"120".to_vec());
}

#[test]
fn formats_large_numbers() {
    assert_eq!(u64_to_dec(512000), b"512000".to_vec());
    assert_eq!(u64_to_dec(u64::MAX), b"18446744073709551615".to_vec());
}

#[test]
fn parses_unsigned_decimals() {
    assert_eq!(parse_u64(b"0"), Some(0));
    assert_eq!(parse_u64(b"1024"), Some(1024));
    assert_eq!(parse_u64(b"18446744073709551615"), Some(u64::MAX));
}

#[test]
fn rejects_bad_unsigned_decimals() {
    assert_eq!(parse_u64(b""), None);
    assert_eq!(parse_u64(b"12a"), None);
    assert_eq!(parse_u64(b"-3"), None);
    assert_eq!(parse_u64(b"18446744073709551616"), None);
}

#[test]
fn parses_signed_decimals() {
    assert_eq!(parse_i32(b"0"), Some(0));
    assert_eq!(parse_i32(b"7"), Some(7));
    assert_eq!(parse_i32(b"-1"), Some(-1));
    assert_eq!(parse_i32(b"2147483647"), Some(i32::MAX));
    assert_eq!(parse_i32(b"-2147483648"), Some(i32::MIN));
}

#[test]
fn rejects_bad_signed_decimals() {
    assert_eq!(parse_i32(b""), None);
    assert_eq!(parse_i32(b"-"), None);
    assert_eq!(parse_i32(b"2147483648"), None);
    assert_eq!(parse_i32(b"-2147483649"), None);
    assert_eq!(parse_i32(b"1.5"), None);
}

#[test]
fn recognizes_fractions() {
    assert!(is_fraction(b"0.123"));
    assert!(is_fraction(b"42"));
    assert!(is_fraction(b"10.5"));
    assert!(!is_fraction(b""));
    assert!(!is_fraction(b"."));
    assert!(!is_fraction(b"1."));
    assert!(!is_fraction(b".5"));
    assert!(!is_fraction(b"1.2.3"));
    assert!(!is_fraction(b"-1.0"));
}

#[test]
fn trims_ascii_whitespace() {
    assert_eq!(trim_ascii(b"  /var/lib/isolate/42\n"), b"/var/lib/isolate/42".to_vec());
    assert_eq!(trim_ascii(b"abc"), b"abc".to_vec());
    assert_eq!(trim_ascii(b" \t\r\n "), b"".to_vec());
    assert_eq!(trim_ascii(b""), b"".to_vec());
    assert_eq!(trim_ascii(b"a b"), b"a b".to_vec());
}

#[test]
fn lowercases_ascii_only() {
    assert_eq!(to_ascii_lower(b"TRUE"), b"true".to_vec());
    assert_eq!(to_ascii_lower(b"YeS"), b"yes".to_vec());
    assert_eq!(to_ascii_lower(b"a-Z9"), b"a-z9".to_vec());
}

#[test]
fn finds_bytes_and_compares() {
    assert_eq!(find_byte_index(b"key:value", b':'), Some(3));
    assert_eq!(find_byte_index(b"a:b:c", b':'), Some(1));
    assert_eq!(find_byte_index(b"abc", b':'), None);
    assert!(bytes_eq(b"same", b"same"));
    assert!(!bytes_eq(b"same", b"sam"));
    assert!(!bytes_eq(b"same", b"samX"));
    assert_eq!(sub_bytes(b"hello", 1, 4), b"ell".to_vec());
}
