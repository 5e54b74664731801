//! Recently used emoji.
use pinakey::recent::RecentEmoji;

#[test]
fn record_moves_front_dedups_and_caps() {
    let mut r = RecentEmoji::new(3);
    r.record("😀");
    r.record("😂");
    r.record("😍");
    assert_eq!(r.items(), ["😍", "😂", "😀"]);
    r.record("😀");
    assert_eq!(r.items(), ["😀", "😍", "😂"]);
    r.record("🎉");
    assert_eq!(r.items(), ["🎉", "😀", "😍"]);
}

#[test]
fn text_truncates_to_cap_and_skips_blank_lines() {
    let r = RecentEmoji::from_text("😀\n\n😂\n😍\n🎉\n", 2);
    assert_eq!(r.items(), ["😀", "😂"]);
    let r = RecentEmoji::from_text("", 9);
    assert!(r.items().is_empty());
}

#[test]
fn text_roundtrip_keeps_order() {
    let mut r = RecentEmoji::new(9);
    r.record("😀");
    r.record("👍");
    assert_eq!(r.to_text(), "👍\n😀\n");
    let back = RecentEmoji::from_text(&r.to_text(), 9);
    assert_eq!(back.items(), ["👍", "😀"]);
    r.record("");
    assert_eq!(r.items(), ["👍", "😀"]);
}
