use ipblock::parse::parse_cidr;
use ipblock::parse::parse_ipv4;
use ipblock::parse::split_str;

#[test]
fn ipv4_exact_values() {
    assert_eq!(parse_ipv4("0.0.0.0"), Some(0));
    assert_eq!(parse_ipv4("255.255.255.255"), Some(u32::MAX));
    assert_eq!(parse_ipv4("1.2.3.4"), Some(0x0102_0304));
    assert_eq!(parse_ipv4("10.0.0.1"), Some(0x0A00_0001));
    assert_eq!(parse_ipv4("24.152.57.0"), Some(0x1898_3900));
}

#[test]
fn ipv4_rejects_malformed() {
    assert_eq!(parse_ipv4(""), None);
    assert_eq!(parse_ipv4("1.2.3"), None);
    assert_eq!(parse_ipv4("1.2.3.4.5"), None);
    assert_eq!(parse_ipv4("256.1.1.1"), None);
    assert_eq!(parse_ipv4("01.2.3.4"), None);
    assert_eq!(parse_ipv4("a.b.c.d"), None);
    assert_eq!(parse_ipv4("1.2.3.4 "), None);
    assert_eq!(parse_ipv4(" 1.2.3.4"), None);
    assert_eq!(parse_ipv4("1..3.4"), None);
    assert_eq!(parse_ipv4("-1.2.3.4"), None);
}

#[test]
fn cidr_exact_values() {
    assert_eq!(parse_cidr("10.0.0.0/8"), Some((0x0A00_0000, 8)));
    assert_eq!(parse_cidr("24.152.57.0/24"), Some((0x1898_3900, 24)));
    assert_eq!(parse_cidr("0.0.0.0/0"), Some((0, 0)));
    assert_eq!(parse_cidr("1.2.3.4/32"), Some((0x0102_0304, 32)));
}

#[test]
fn cidr_rejects_malformed() {
    assert_eq!(parse_cidr("10.0.0.0"), None);
    assert_eq!(parse_cidr("10.0.0.0/33"), None);
    assert_eq!(parse_cidr("10.0.0.0/08"), None);
    assert_eq!(parse_cidr("10.0.0.0/"), None);
    assert_eq!(parse_cidr("/8"), None);
    assert_eq!(parse_cidr("10.0.0.0/8/9"), None);
    assert_eq!(parse_cidr(""), None);
}

#[test]
fn split_keeps_every_field() {
    let parts = split_str("a\nbb\n", '\n');
    assert_eq!(parts, vec!["a".to_string(), "bb".to_string(), "".to_string()]);
    let parts = split_str("", ',');
    assert_eq!(parts, vec!["".to_string()]);
    let parts = split_str("x,y", ',');
    assert_eq!(parts, vec!["x".to_string(), "y".to_string()]);
}
