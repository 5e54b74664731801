//! The spelling dictionary.
use pinakey::dict::Dictionary;

#[test]
fn load_str_skips_blanks_and_comments() {
    let d = Dictionary::load_str("# chú thích\nviệt\n\n  nam  \n#còn nữa\nchào\n");
    assert_eq!(d.len(), 3);
    assert!(d.contains("việt"));
    assert!(d.contains("nam"));
    assert!(d.contains("chào"));
}

#[test]
fn contains_is_case_insensitive() {
    let d = Dictionary::load_str("Việt\n");
    assert!(d.contains("việt"));
    assert!(d.contains("VIỆT"));
    assert!(d.contains("Việt"));
    assert!(!d.contains("viet"));
    assert!(!d.contains(""));
    assert!(!d.contains("xyz"));
}

#[test]
fn add_and_merge() {
    let mut a = Dictionary::new();
    a.add("Một");
    assert!(a.contains("một"));
    let mut b = Dictionary::new();
    b.add("hai");
    a.merge(&b);
    assert!(a.contains("hai"));
    assert!(a.contains("một"));
}

#[test]
fn duplicates_count_once() {
    let mut d = Dictionary::load_str("a\nA\r\na\n");
    assert_eq!(d.len(), 1);
    d.add("a");
    assert_eq!(d.len(), 1);
    assert!(!d.is_empty());
    assert!(Dictionary::new().is_empty());
}
