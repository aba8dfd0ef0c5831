use stenograph::text::{has_prefix, has_suffix, strip_prefix_str, strip_suffix_str};

#[test]
fn prefix_checks() {
    assert!(has_prefix("https://a/b.zip", "https://"));
    assert!(has_prefix("abc", ""));
    assert!(!has_prefix("ab", "abc"));
    assert!(!has_prefix("xbc", "ab"));
}

#[test]
fn suffix_checks() {
    assert!(has_suffix("model.zip", ".zip"));
    assert!(has_suffix("abc", ""));
    assert!(!has_suffix("zip", ".zip"));
    assert!(!has_suffix("model.tar", ".zip"));
}

#[test]
fn stripping_returns_the_rest() {
    assert_eq!(strip_prefix_str("https://a/b.zip", "https://a/"), Some("b.zip"));
    assert_eq!(strip_prefix_str("https://a/b.zip", "http://"), None);
    assert_eq!(strip_suffix_str("b.zip", ".zip"), Some("b"));
    assert_eq!(strip_suffix_str("b.zip", ".tar"), None);
    assert_eq!(strip_prefix_str("héllo", "hé"), Some("llo"));
    assert_eq!(strip_suffix_str("naïve", "ïve"), Some("na"));
}
