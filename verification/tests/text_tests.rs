use http_client::text::begins_with;
use http_client::text::find_str;
use http_client::text::parse_u16;
use http_client::text::split_str;
use http_client::text::str_eq;
use http_client::text::usize_to_string;

#[test]
fn find_str_first_occurrence() {
    assert_eq!(find_str("abcabc", "bc"), Some(1));
    assert_eq!(find_str("abc", "x"), None);
    assert_eq!(find_str("aaa", "aa"), Some(0));
    assert_eq!(find_str("", "a"), None);
}

#[test]
fn split_str_pieces() {
    let v = split_str("a\r\nb\r\nc", "\r\n");
    assert_eq!(v, vec!["a".to_string(), "b".to_string(), "c".to_string()]);
    let w = split_str("plain", "\r\n");
    assert_eq!(w, vec!["plain".to_string()]);
    let u = split_str("x\r\n", "\r\n");
    assert_eq!(u, vec!["x".to_string(), "".to_string()]);
}

#[test]
fn parse_u16_values() {
    assert_eq!(parse_u16("0"), Some(0));
    assert_eq!(parse_u16("8080"), Some(8080));
    assert_eq!(parse_u16("65535"), Some(65535));
    assert_eq!(parse_u16("65536"), None);
    assert_eq!(parse_u16(""), None);
    assert_eq!(parse_u16("12a"), None);
    assert_eq!(parse_u16("-1"), None);
}

#[test]
fn usize_to_string_values() {
    assert_eq!(usize_to_string(0), "0");
    assert_eq!(usize_to_string(7), "7");
    assert_eq!(usize_to_string(65535), "65535");
    assert_eq!(usize_to_string(1234567), "1234567");
}

#[test]
fn string_comparisons() {
    assert!(str_eq("abc", "abc"));
    assert!(!str_eq("abc", "abd"));
    assert!(!str_eq("abc", "ab"));
    assert!(begins_with("http://x", "http://"));
    assert!(!begins_with("https://x", "http://"));
    assert!(begins_with("anything", ""));
}
