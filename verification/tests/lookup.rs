use pinakey::emoji::TrieNode;
use pinakey::lookup::{compute_candidates, hex_to_char, EmojiState, EMOJI_PAGE_SIZE, MAX_CANDIDATES};

fn test_trie() -> TrieNode {
    let mut t = TrieNode::new();
    t.insert("grin", "😀");
    t.insert("grinning", "😀");
    t.insert("joy", "😂");
    t.insert("heart", "❤");
    t
}

fn numbered_trie() -> TrieNode {
    let mut t = TrieNode::new();
    for i in 0..20 {
        t.insert(&format!("e{i:02}"), &format!("E{i}"));
    }
    t
}

#[test]
fn hex_requires_prefix() {
    assert_eq!(hex_to_char("u+1f600"), Some('😀'));
    assert_eq!(hex_to_char("U+2764"), Some('❤'));
    assert_eq!(hex_to_char("\\u00e9"), Some('é'));
    assert_eq!(hex_to_char("1f600"), None);
    assert_eq!(hex_to_char("face"), None);
}

#[test]
fn hex_rejects_invalid() {
    assert_eq!(hex_to_char("u+zzzz"), None);
    assert_eq!(hex_to_char("u+"), None);
    assert_eq!(hex_to_char("u+110000"), None);
    assert_eq!(hex_to_char("u+d800"), None);
}

#[test]
fn hex_trims_and_accepts_long_leading_zeros() {
    assert_eq!(hex_to_char("  U+41 \n"), Some('A'));
    assert_eq!(hex_to_char("u+000000000041"), Some('A'));
    assert_eq!(hex_to_char("u+100000000"), None);
    assert_eq!(hex_to_char("u+FfFf"), Some('\u{ffff}'));
    assert_eq!(hex_to_char("u+-1"), None);
}

#[test]
fn candidates_emoji_dedup() {
    let trie = test_trie();
    let c = compute_candidates("grin", &trie, MAX_CANDIDATES);
    assert_eq!(c, vec!["😀".to_string()]);
}

#[test]
fn candidates_hex_first() {
    let trie = test_trie();
    let c = compute_candidates("u+2764", &trie, MAX_CANDIDATES);
    assert_eq!(c.first().map(|s| s.as_str()), Some("❤"));
}

#[test]
fn candidates_none_for_unknown() {
    let trie = test_trie();
    assert!(compute_candidates("zzz", &trie, MAX_CANDIDATES).is_empty());
}

#[test]
fn candidates_respects_max() {
    let trie = test_trie();
    let c = compute_candidates("", &trie, MAX_CANDIDATES);
    assert!(c.is_empty());
}

#[test]
fn candidates_cut_at_max() {
    let t = numbered_trie();
    let c = compute_candidates("e", &t, 3);
    assert_eq!(c, vec!["E0".to_string(), "E1".to_string(), "E2".to_string()]);
    assert!(compute_candidates("e", &t, 0).is_empty());
}

#[test]
fn push_builds_query_and_candidates() {
    let trie = test_trie();
    let mut s = EmojiState::new();
    s.start();
    for c in "grin".chars() {
        s.push(c, &trie);
    }
    assert_eq!(s.query(), "grin");
    assert_eq!(s.candidates(), &["😀".to_string()]);
    assert_eq!(s.cursor(), 0);
}

#[test]
fn backspace_shrinks_query() {
    let trie = test_trie();
    let mut s = EmojiState::new();
    s.start();
    for c in "joy".chars() {
        s.push(c, &trie);
    }
    assert!(s.backspace(&trie));
    assert_eq!(s.query(), "jo");
    assert!(s.backspace(&trie));
    assert!(!s.backspace(&trie));
    assert_eq!(s.query(), "");
}

#[test]
fn cursor_clamps() {
    let trie = test_trie();
    let mut s = EmojiState::new();
    s.start();
    for c in "grin".chars() {
        s.push(c, &trie);
    }
    s.move_cursor(-1);
    assert_eq!(s.cursor(), 0);
    s.move_cursor(5);
    assert_eq!(s.cursor(), 0);
}

#[test]
fn paging_moves_by_page_size() {
    let t = numbered_trie();
    let mut s = EmojiState::new();
    s.start();
    s.push('e', &t);
    assert!(s.candidates().len() >= 20);
    assert_eq!(s.page_start(), 0);
    s.page(1);
    assert_eq!(s.page_start(), EMOJI_PAGE_SIZE);
    s.page(-1);
    assert_eq!(s.page_start(), 0);
}

#[test]
fn select_digit_within_page() {
    let t = numbered_trie();
    let mut s = EmojiState::new();
    s.start();
    s.push('e', &t);
    let first = s.candidates()[0].clone();
    assert_eq!(s.select_digit(1), Some(first));
    assert_eq!(s.select_digit(0), None);
}

#[test]
fn selected_follows_cursor_and_close_resets() {
    let t = numbered_trie();
    let mut s = EmojiState::new();
    assert!(!s.is_active());
    s.start();
    assert!(s.is_active());
    s.push('e', &t);
    s.move_cursor(10);
    assert_eq!(s.cursor(), 10);
    assert_eq!(s.selected(), Some("E10".to_string()));
    assert_eq!(s.page_start(), 9);
    assert_eq!(s.select_digit(2), Some("E10".to_string()));
    assert_eq!(s.select_digit(10), None);
    s.move_cursor(1000);
    assert_eq!(s.cursor(), 19);
    s.close();
    assert!(!s.is_active());
    assert_eq!(s.query(), "");
    assert!(s.candidates().is_empty());
    assert_eq!(s.selected(), None);
}

#[test]
fn hex_char_and_same_emoji_listed_once() {
    let mut t = TrieNode::new();
    t.insert("u+2764", "❤");
    t.insert("u+2764x", "💔");
    assert_eq!(compute_candidates("u+2764", &t, MAX_CANDIDATES), vec!["❤".to_string(), "💔".to_string()]);
}

#[test]
fn select_digit_past_last_candidate_is_none() {
    let trie = test_trie();
    let mut s = EmojiState::new();
    s.start();
    s.push('g', &trie);
    assert_eq!(s.candidates().len(), 1);
    assert_eq!(s.select_digit(1), Some("😀".to_string()));
    assert_eq!(s.select_digit(2), None);
    assert_eq!(s.select_digit(9), None);
}
