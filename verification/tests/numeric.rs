//! Tests of the best-effort numeric coercion helpers.

use collection_graph::utils::{is_float_literal, parse_option_str, str_eq};

#[test]
fn parses_plain_decimals() {
    assert_eq!(parse_option_str("0".to_string()), Some(0));
    assert_eq!(parse_option_str("12".to_string()), Some(12));
    assert_eq!(parse_option_str("+7".to_string()), Some(7));
    assert_eq!(parse_option_str("007".to_string()), Some(7));
    assert_eq!(parse_option_str("65535".to_string()), Some(65535));
}

#[test]
fn rejects_malformed_decimals() {
    assert_eq!(parse_option_str("".to_string()), None);
    assert_eq!(parse_option_str("+".to_string()), None);
    assert_eq!(parse_option_str("-1".to_string()), None);
    assert_eq!(parse_option_str("1x".to_string()), None);
    assert_eq!(parse_option_str("N/A".to_string()), None);
    assert_eq!(parse_option_str(" 1".to_string()), None);
    assert_eq!(parse_option_str("1.0".to_string()), None);
}

#[test]
fn rejects_out_of_range_decimals() {
    assert_eq!(parse_option_str("65536".to_string()), None);
    assert_eq!(parse_option_str("999999999999999999999".to_string()), None);
}

#[test]
fn accepts_well_formed_floats() {
    assert!(is_float_literal("1"));
    assert!(is_float_literal("6.022"));
    assert!(is_float_literal(".5"));
    assert!(is_float_literal("5."));
    assert!(is_float_literal("-0.5"));
    assert!(is_float_literal("+120.00"));
    assert!(is_float_literal("2e-3"));
    assert!(is_float_literal("1E+10"));
    assert!(is_float_literal("7.e2"));
    assert!(is_float_literal("inf"));
    assert!(is_float_literal("-Infinity"));
    assert!(is_float_literal("NaN"));
}

#[test]
fn rejects_malformed_floats() {
    assert!(!is_float_literal(""));
    assert!(!is_float_literal("."));
    assert!(!is_float_literal("+."));
    assert!(!is_float_literal("e5"));
    assert!(!is_float_literal("1e"));
    assert!(!is_float_literal("1e+"));
    assert!(!is_float_literal("N/A"));
    assert!(!is_float_literal("--1"));
    assert!(!is_float_literal("1.2.3"));
    assert!(!is_float_literal("1,5"));
    assert!(!is_float_literal("0x1A"));
    assert!(!is_float_literal("infx"));
}

#[test]
fn compares_strings_by_characters() {
    assert!(str_eq("COLLECTION", "COLLECTION"));
    assert!(!str_eq("COLLECTION", "PLAYLISTS"));
    assert!(!str_eq("abc", "abcd"));
    assert!(str_eq("", ""));
}
