use find_xrp_addr::matcher::{CaseInsensitiveRegex, Matcher};
use find_xrp_addr::numbers::format_with_commas;
use find_xrp_addr::validate::{is_alphanumeric, prevent_confusing_chars};

#[test]
fn test_format_with_commas() {
    assert_eq!(format_with_commas(0), "0");
    assert_eq!(format_with_commas(123), "123");
    assert_eq!(format_with_commas(1234), "1,234");
    assert_eq!(format_with_commas(1234567), "1,234,567");
    assert_eq!(format_with_commas(1000000000), "1,000,000,000");
}

#[test]
fn test_is_alphanumeric() {
    assert!(is_alphanumeric("abc123"));
    assert!(is_alphanumeric("Test"));
    assert!(!is_alphanumeric("abc-123"));
    assert!(!is_alphanumeric("hello world"));
    assert!(is_alphanumeric(""));
}

#[test]
fn test_matcher_contains() {
    let m = Matcher::Contains("test".to_string());
    assert!(m.matches("rTestAddress"));
    assert!(m.matches("somethingtestelse"));
    assert!(!m.matches("no match here"));
}

#[test]
fn test_matcher_regex_case_insensitive() {
    let escaped = regex::escape("Test");
    let re = CaseInsensitiveRegex::new(&escaped).unwrap();
    let m = Matcher::Regex(re);
    assert!(m.matches("rtestaddress"));
    assert!(m.matches("rTEST123"));
    assert!(!m.matches("no match"));
}

#[test]
fn test_prevent_confusing_chars_does_not_panic_on_clean_input() {
    assert!(prevent_confusing_chars("abc", "def", "123").is_ok());
    assert!(prevent_confusing_chars("", "", "").is_ok());
}
