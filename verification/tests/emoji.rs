use pinakey::emoji::{emoji_of_code, EmojiEngine, TrieNode};

fn value_of(v: &[(String, String)], k: &str) -> Option<String> {
    v.iter().find(|(w, _)| w == k).map(|(_, x)| x.clone())
}

#[test]
fn test_trie_basic() {
    let mut t = TrieNode::new();
    t.insert("abc", "X");
    t.insert("abc", "Y");
    t.insert("abd", "Z");
    let lookup = t.find_prefix("ab").unwrap();
    assert_eq!(value_of(&lookup, "abc").unwrap(), "X:Y");
    assert_eq!(value_of(&lookup, "abd").unwrap(), "Z");
    assert!(t.find_prefix("zzz").is_none());
}

#[test]
fn empty_prefix_has_the_root() {
    let t = TrieNode::new();
    assert_eq!(t.find_prefix(""), Some(vec![]));
    let mut t = TrieNode::new();
    t.insert("b", "1");
    t.insert("a", "2");
    assert_eq!(t.find_prefix("").unwrap().len(), 2);
    assert!(t.find_prefix("ab").is_none());
}

#[test]
fn engine_filter_and_keys() {
    let mut t = TrieNode::new();
    t.insert(":')", "😂");
    t.insert("joy", "😂");
    t.insert("grin", "😀");
    t.insert("grinning", "😁");
    let mut be = EmojiEngine::new(&t);
    assert!(be.match_string(":'"));
    assert!(be.match_string("gri"));
    assert!(!be.match_string("x"));
    assert!(be.filter(":')").contains(&"😂".to_string()));
    assert!(be.filter("grin").contains(&"😀".to_string()));
    assert!(be.filter("zz").is_empty());
    be.process_key('g');
    be.process_key('r');
    assert_eq!(be.get_raw_string(), "gr");
    assert!(be.query().contains(&"😁".to_string()));
    be.remove_last_key();
    assert_eq!(be.get_raw_string(), "g");
    be.reset();
    assert_eq!(be.get_raw_string(), "");
}

#[test]
fn emoji_codes_decode_and_skip_bad_pieces() {
    assert_eq!(emoji_of_code("1f600"), "😀");
    assert_eq!(emoji_of_code("1f468-200d-1f4bb"), "\u{1f468}\u{200d}\u{1f4bb}");
    assert_eq!(emoji_of_code("+41-zz--d800-42"), "AB");
    assert_eq!(emoji_of_code(""), "");
    assert_eq!(emoji_of_code("100000000"), "");
}

#[test]
fn emojione_entry_fills_the_table() {
    let mut t = TrieNode::new();
    let ascii = vec![":D".to_string()];
    let keywords = vec!["grin".to_string(), "face".to_string()];
    t.add_emojione_entry("1f600", &ascii, &keywords);
    t.add_emojione_entry("1f603", &[], &["face".to_string()]);
    let all = t.find_prefix("").unwrap();
    assert_eq!(
        all,
        vec![
            (":D".to_string(), "😀".to_string()),
            ("grin".to_string(), "😀".to_string()),
            ("face".to_string(), "😀:😃".to_string()),
        ]
    );
    let be = EmojiEngine::new(&t);
    assert_eq!(be.filter("fa"), vec!["😀".to_string(), "😃".to_string()]);
}
