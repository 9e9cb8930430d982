use allora::text::{bytes_eq, parse_u64, parse_usize, scan_until};

#[test]
fn parse_u64_reads_decimal() {
    assert_eq!(parse_u64(b"0"), Some(0));
    assert_eq!(parse_u64(b"007"), Some(7));
    assert_eq!(parse_u64(b"1024"), Some(1024));
    assert_eq!(parse_u64(b"+12"), Some(12));
    assert_eq!(parse_u64(b"18446744073709551615"), Some(u64::MAX));
    assert_eq!(parse_u64(b"000018446744073709551615"), Some(u64::MAX));
}

#[test]
fn parse_u64_refuses_the_rest() {
    assert_eq!(parse_u64(b""), None);
    assert_eq!(parse_u64(b"+"), None);
    assert_eq!(parse_u64(b"-1"), None);
    assert_eq!(parse_u64(b"++1"), None);
    assert_eq!(parse_u64(b"1+"), None);
    assert_eq!(parse_u64(b" 1"), None);
    assert_eq!(parse_u64(b"1 "), None);
    assert_eq!(parse_u64(b"0x10"), None);
    assert_eq!(parse_u64(b"12a"), None);
    assert_eq!(parse_u64(b"/"), None);
    assert_eq!(parse_u64(b":"), None);
    assert_eq!(parse_u64(b"18446744073709551616"), None);
    assert_eq!(parse_u64(b"99999999999999999999999"), None);
    assert_eq!(parse_u64(b"18446744073709551616x"), None);
    assert_eq!(parse_u64(&[0xff, 0xfe]), None);
}

#[test]
fn parse_u64_agrees_with_std() {
    for text in ["", "+", "0", "+0", "12", "-12", "1e3", "4294967296", "18446744073709551615",
        "18446744073709551616", "٣", "1_000"]
    {
        assert_eq!(parse_u64(text.as_bytes()), text.parse::<u64>().ok(), "{}", text);
        assert_eq!(parse_usize(text.as_bytes()), text.parse::<usize>().ok(), "{}", text);
    }
}

#[test]
fn scan_until_counts_up_to_the_stop() {
    assert_eq!(scan_until(b"abc/def", 0, b'/'), 3);
    assert_eq!(scan_until(b"abc/def", 3, b'/'), 0);
    assert_eq!(scan_until(b"abc/def", 4, b'/'), 3);
    assert_eq!(scan_until(b"abc/def", 7, b'/'), 0);
    assert_eq!(scan_until(b"abc/def", 100, b'/'), 0);
    assert_eq!(scan_until(b"", 0, 0), 0);
}

#[test]
fn bytes_eq_compares_contents() {
    assert!(bytes_eq(b"", b""));
    assert!(bytes_eq(b"abc", b"abc"));
    assert!(!bytes_eq(b"abc", b"abd"));
    assert!(!bytes_eq(b"abc", b"ab"));
    assert!(!bytes_eq(b"ab", b"abc"));
    assert!(!bytes_eq(b"xbc", b"abc"));
}
