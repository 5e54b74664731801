//! Fuzzy emoji search.
use pinakey::fuzzy::{fuzzy_score, EmojiIndex};

#[test]
fn score_prefix_beats_scattered() {
    let prefix = fuzzy_score("grin", "grinning").unwrap();
    let scattered = fuzzy_score("grin", "green_running").unwrap();
    assert!(prefix > scattered, "prefix {prefix} phải > scattered {scattered}");
}

#[test]
fn score_word_start_bonus() {
    let word_start = fuzzy_score("he", "x_head").unwrap();
    let mid_word = fuzzy_score("he", "ashead").unwrap();
    assert!(word_start > mid_word, "đầu từ {word_start} phải > giữa từ {mid_word}");
}

#[test]
fn score_shorter_key_wins_ties() {
    let short = fuzzy_score("cat", "cat").unwrap();
    let long = fuzzy_score("cat", "cat_with_wry_smile").unwrap();
    assert!(short > long, "key ngắn {short} phải > key dài {long}");
}

#[test]
fn score_case_insensitive_and_no_match() {
    assert!(fuzzy_score("d", ":D").is_some());
    assert!(fuzzy_score("xyz", "heart_eyes").is_none());
    assert!(fuzzy_score("", "heart").is_none());
    assert!(fuzzy_score("hearts", "heart").is_none());
}

#[test]
fn score_exact_values() {
    // 'g' at the key start: 16 + 10; then three contiguous matches: 8 each; less 8 chars.
    assert_eq!(fuzzy_score("grin", "grinning"), Some(16 + 10 + 8 * 3 - 8));
    // 'h' after '_' (word start): 10; 'e' contiguous: 8; less 6 chars.
    assert_eq!(fuzzy_score("he", "x_head"), Some(10 + 8 - 6));
}

#[test]
fn index_ranks_dedups_and_limits() {
    let mut idx = EmojiIndex::new();
    idx.add_key("heart_eyes", "😍");
    idx.add_key("heart", "❤");
    idx.add_key("Heart", "❤");
    idx.add_key("", "x");
    idx.add_key("smile", "😄");
    assert_eq!(idx.fuzzy_query("heart", 60), vec!["❤".to_string(), "😍".to_string()]);
    assert_eq!(idx.fuzzy_query("heye", 60), vec!["😍".to_string()]);
    assert_eq!(idx.fuzzy_query("heart", 1), vec!["❤".to_string()]);
    assert!(idx.fuzzy_query("", 60).is_empty());
    assert!(idx.fuzzy_query("zzz", 60).is_empty());
}

#[test]
fn emojione_entries_feed_the_index() {
    let mut idx = EmojiIndex::new();
    idx.add_emojione_entry("1f60d", ":heart_eyes:", &[], &["love".to_string()], &[]);
    idx.add_emojione_entry("1f600", ":grinning:", &[":grin:".to_string()], &["happy".to_string()], &[":D".to_string()]);
    idx.add_emojione_entry("zz", ":nothing:", &[], &["nothing".to_string()], &[]);
    assert_eq!(idx.fuzzy_query("heye", 60).first().map(String::as_str), Some("😍"));
    assert_eq!(idx.fuzzy_query("heart_eyes", 60), vec!["😍".to_string()]);
    assert_eq!(idx.fuzzy_query("grin", 60), vec!["😀".to_string()]);
    assert_eq!(idx.fuzzy_query("d", 60), vec!["😀".to_string()]);
    assert!(idx.fuzzy_query("nothing", 60).is_empty());
    assert!(idx.fuzzy_query("", 60).is_empty());
}

#[test]
fn fuzzy_answers_are_unique_and_limited() {
    let mut idx = EmojiIndex::new();
    for (k, e) in [("smile", "😄"), ("smiley", "😃"), ("smirk", "😏"), ("sm", "😄"), ("simple_smile", "🙂")] {
        idx.add_key(k, e);
    }
    let all = idx.fuzzy_query("sm", 60);
    let mut seen = std::collections::HashSet::new();
    assert!(all.iter().all(|e| seen.insert(e.clone())));
    assert_eq!(all.len(), 4);
    assert_eq!(idx.fuzzy_query("sm", 2).len(), 2);
    assert!(idx.fuzzy_query("sm", 0).is_empty());
}
