use madrigal::text::{chars_of, contains, starts_with, str_eq};

#[test]
fn character_helpers() {
    assert_eq!(chars_of("añb"), vec!['a', 'ñ', 'b']);
    assert!(str_eq("abc", "abc"));
    assert!(!str_eq("abc", "abd"));
    assert!(!str_eq("ab", "abc"));
    assert!(starts_with("Bearer x", "Bearer "));
    assert!(!starts_with("Bear", "Bearer "));
    assert!(starts_with("x", ""));
    assert!(contains("HeadlessChrome", "less"));
    assert!(!contains("Chrome", "less"));
    assert!(contains("", ""));
    assert!(!contains("", "a"));
}
