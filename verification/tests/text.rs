use sshdb::model::{Config, Host};
use sshdb::text::{dec_string, non_empty, parse_u16, string_of, trim_chars};

#[test]
fn trims_whitespace_on_both_sides() {
    let v: Vec<char> = "  padded value \t".chars().collect();
    assert_eq!(string_of(&trim_chars(&v)), "padded value");
    let empty: Vec<char> = "   ".chars().collect();
    assert_eq!(string_of(&trim_chars(&empty)), "");
}

#[test]
fn non_empty_drops_blank_text() {
    assert_eq!(non_empty("  "), None);
    assert_eq!(non_empty(" x "), Some("x".to_string()));
}

#[test]
fn renders_decimal_numbers() {
    assert_eq!(dec_string(0), "0");
    assert_eq!(dec_string(7), "7");
    assert_eq!(dec_string(65535), "65535");
    assert_eq!(dec_string(1200300), "1200300");
}

#[test]
fn parses_ports_like_std() {
    let p = |s: &str| parse_u16(&s.chars().collect());
    assert_eq!(p("22"), Some(22));
    assert_eq!(p("+22"), Some(22));
    assert_eq!(p("65535"), Some(65535));
    assert_eq!(p("65536"), None);
    assert_eq!(p(""), None);
    assert_eq!(p("+"), None);
    assert_eq!(p("2a"), None);
    assert_eq!(p("-1"), None);
}

#[test]
fn display_label_prefers_user() {
    let mut h = Config::sample().hosts[0].clone();
    assert_eq!(h.display_label(), "deploy@52.14.33.10");
    h.user = None;
    assert_eq!(h.display_label(), "52.14.33.10");
    let _: &Host = &h;
}

#[test]
fn find_host_returns_first_match() {
    let config = Config::sample();
    assert!(config.find_host("jump-eu").is_some());
    assert!(config.find_host("nobody").is_none());
}
