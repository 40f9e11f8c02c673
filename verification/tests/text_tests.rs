use cot_udp_proxy::text::eq_str;
use cot_udp_proxy::text::parse_u16;
use cot_udp_proxy::text::split_on;

#[test]
fn split_cuts_at_every_separator() {
    assert_eq!(split_on("10.0.0.5", '.'), vec!["10", "0", "0", "5"]);
    assert_eq!(split_on("a,b,,c", ','), vec!["a", "b", "", "c"]);
    assert_eq!(split_on("", '.'), vec![""]);
    assert_eq!(split_on("...", '.'), vec!["", "", "", ""]);
    assert_eq!(split_on("10.0.0.0/24", '/'), vec!["10.0.0.0", "24"]);
    assert_eq!(split_on("no-separator", '/'), vec!["no-separator"]);
}

#[test]
fn parse_u16_accepts_what_the_standard_parser_accepts() {
    assert_eq!(parse_u16("8087"), Some(8087));
    assert_eq!(parse_u16("0"), Some(0));
    assert_eq!(parse_u16("65535"), Some(65535));
    assert_eq!(parse_u16("+80"), Some(80));
    assert_eq!(parse_u16("007"), Some(7));
}

#[test]
fn parse_u16_rejects_what_the_standard_parser_rejects() {
    assert_eq!(parse_u16(""), None);
    assert_eq!(parse_u16("+"), None);
    assert_eq!(parse_u16("65536"), None);
    assert_eq!(parse_u16("99999999999999999999"), None);
    assert_eq!(parse_u16("-1"), None);
    assert_eq!(parse_u16("12ab"), None);
    assert_eq!(parse_u16(" 80"), None);
    assert_eq!(parse_u16("80 "), None);
    assert_eq!(parse_u16("1e3"), None);
}

#[test]
fn parse_u16_agrees_with_the_standard_parser() {
    for s in ["8087", "0", "65535", "65536", "+123", "", "x", "010"] {
        assert_eq!(parse_u16(s), s.parse::<u16>().ok());
    }
}

#[test]
fn eq_str_is_exact_equality() {
    assert!(eq_str("", ""));
    assert!(eq_str("abc", "abc"));
    assert!(!eq_str("abc", "abd"));
    assert!(!eq_str("abc", "abcd"));
    assert!(!eq_str("ABC", "abc"));
}
