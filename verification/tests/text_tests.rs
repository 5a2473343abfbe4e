use appdatahub::text::push_decimal;
use appdatahub::text::replace_all;
use appdatahub::text::starts_with;
use appdatahub::text::str_eq;
use appdatahub::text::trim_prefix;

#[test]
fn replace_all_non_overlapping_from_left() {
    assert_eq!(replace_all("aaa", "aa", "b"), "ba");
    assert_eq!(replace_all("%A%/x/%A%", "%A%", "v"), "v/x/v");
    assert_eq!(replace_all("none", "%A%", "v"), "none");
    assert_eq!(replace_all("a b c", " ", "_"), "a_b_c");
}

#[test]
fn trim_prefix_repeats() {
    assert_eq!(trim_prefix("ababc", "ab"), "c");
    assert_eq!(trim_prefix("abc", ""), "abc");
    assert_eq!(trim_prefix("xabc", "ab"), "xabc");
}

#[test]
fn decimal_rendering() {
    let mut s = String::from("n=");
    push_decimal(&mut s, 0);
    assert_eq!(s, "n=0");
    let mut s = String::new();
    push_decimal(&mut s, 5000);
    assert_eq!(s, "5000");
    let mut s = String::new();
    push_decimal(&mut s, u64::MAX);
    assert_eq!(s, u64::MAX.to_string());
}

#[test]
fn small_helpers() {
    assert!(starts_with("HKEY_CURRENT_USER\\x", "HKEY_CURRENT_USER"));
    assert!(!starts_with("HKEY", "HKEY_CURRENT_USER"));
    assert!(str_eq("a", "a"));
    assert!(!str_eq("a", "b"));
}
