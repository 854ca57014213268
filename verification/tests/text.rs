use mcscan::text::{find_char_exec, find_sub_exec, matches_at_exec, parse_uint, u64_to_string};

#[test]
fn parse_uint_reads_plain_decimals() {
    assert_eq!(parse_uint("0", 0xFFFF_FFFF), Some(0));
    assert_eq!(parse_uint("123", 0xFFFF_FFFF), Some(123));
    assert_eq!(parse_uint("007", 0xFFFF_FFFF), Some(7));
    assert_eq!(parse_uint("4294967295", 0xFFFF_FFFF), Some(4294967295));
}

#[test]
fn parse_uint_accepts_one_leading_plus() {
    assert_eq!(parse_uint("+123", 0xFFFF_FFFF), Some(123));
    assert_eq!(parse_uint("++1", 0xFFFF_FFFF), None);
    assert_eq!(parse_uint("+", 0xFFFF_FFFF), None);
}

#[test]
fn parse_uint_rejects_junk_and_overflow() {
    assert_eq!(parse_uint("", 0xFFFF_FFFF), None);
    assert_eq!(parse_uint("12a", 0xFFFF_FFFF), None);
    assert_eq!(parse_uint("-1", 0xFFFF_FFFF), None);
    assert_eq!(parse_uint("1 2", 0xFFFF_FFFF), None);
    assert_eq!(parse_uint("4294967296", 0xFFFF_FFFF), None);
    assert_eq!(parse_uint("256", 255), None);
    assert_eq!(parse_uint("255", 255), Some(255));
    assert_eq!(parse_uint("65536", 65535), None);
}

#[test]
fn u64_to_string_writes_decimals() {
    assert_eq!(u64_to_string(0), "0");
    assert_eq!(u64_to_string(7), "7");
    assert_eq!(u64_to_string(10), "10");
    assert_eq!(u64_to_string(25565), "25565");
    assert_eq!(u64_to_string(18446744073709551615), "18446744073709551615");
}

#[test]
fn find_char_returns_the_first_hit() {
    assert_eq!(find_char_exec("a:b:c", ':'), Some(1));
    assert_eq!(find_char_exec("abc", ':'), None);
    assert_eq!(find_char_exec("", 'x'), None);
    assert_eq!(find_char_exec(":rest", ':'), Some(0));
}

#[test]
fn find_sub_returns_the_first_leftmost_match() {
    assert_eq!(find_sub_exec("a - b - c", " - "), Some(1));
    assert_eq!(find_sub_exec("a-b", " - "), None);
    assert_eq!(find_sub_exec("xx", "xx"), Some(0));
    assert_eq!(find_sub_exec("x", "xx"), None);
    assert_eq!(find_sub_exec("anything", ""), Some(0));
}

#[test]
fn matches_at_checks_one_position() {
    assert!(matches_at_exec("hello world", "world", 6));
    assert!(!matches_at_exec("hello world", "world", 5));
    assert!(matches_at_exec("abc", "", 3));
}
