use pinakey::dict::Dictionary;
use pinakey::display::diff_replace;
use pinakey::recent::RecentEmoji;
use pinakey::utils::{add_mark_to_char, add_tone_to_char, find_mark_from_char, find_tone_from_char};
use pinakey::{flag, mode, new_engine, parse_builtin_input_method, IEngine, Mark, Tone};

#[test]
fn tone_goes_on_and_comes_off() {
    assert_eq!(add_tone_to_char('ê', 2), 'ế');
    assert_eq!(find_tone_from_char('ế'), Tone::Acute);
    assert_eq!(add_tone_to_char('ế', 0), 'ê');
    assert_eq!(add_tone_to_char(add_tone_to_char('ư', 5), 4), 'ữ');
}

#[test]
fn mark_goes_on_and_comes_off() {
    assert_eq!(add_mark_to_char('o', 3), 'ơ');
    assert_eq!(find_mark_from_char('ơ'), Some(Mark::Horn));
    assert_eq!(add_mark_to_char('ơ', 0), 'o');
    assert_eq!(add_mark_to_char('d', 4), 'đ');
    assert_eq!(find_mark_from_char('đ'), Some(Mark::Dash));
}

#[test]
fn recent_list_saved_and_loaded_back() {
    let mut r = RecentEmoji::new(3);
    for e in ["😀", "❤", "😂", "❤"] {
        r.record(e);
    }
    let back = RecentEmoji::from_text(&r.to_text(), 3);
    assert_eq!(back.items(), r.items());
    assert_eq!(r.items(), &["❤".to_string(), "😂".to_string(), "😀".to_string()]);
}

#[test]
fn dictionary_word_found_after_add() {
    let mut d = Dictionary::new();
    d.add("Phở");
    assert!(d.contains("phở"));
    assert!(d.contains("PHỞ"));
    let mut other = Dictionary::new();
    other.add("bún");
    d.merge(&other);
    assert!(d.contains("bún") && d.contains("phở"));
    assert!(!d.contains(""));
}

#[test]
fn typing_in_two_parts_is_typing_whole() {
    let mut a = new_engine(parse_builtin_input_method("Telex"), flag::STD_FLAGS);
    a.process_string("vie", mode::VIETNAMESE);
    a.process_string("ejt", mode::VIETNAMESE);
    let mut b = new_engine(parse_builtin_input_method("Telex"), flag::STD_FLAGS);
    b.process_string("vieejt", mode::VIETNAMESE);
    assert_eq!(a.get_processed_string(mode::VIETNAMESE), b.get_processed_string(mode::VIETNAMESE));
    assert_eq!(b.get_processed_string(mode::VIETNAMESE), "việt");
}

#[test]
fn edit_rebuilds_the_new_text() {
    for (old, new) in [("viêt", "việt"), ("tiếng", "tiếng "), ("abc", ""), ("", "xyz")] {
        let (d, ins) = diff_replace(old, new);
        let kept: String = old.chars().take(old.chars().count() - d as usize).collect();
        assert_eq!(kept + &ins, new);
    }
}

#[test]
fn english_mode_shows_what_was_typed() {
    let mut e = new_engine(parse_builtin_input_method("Telex"), flag::STD_FLAGS);
    e.process_string("Hello Wooorld!", mode::ENGLISH);
    assert_eq!(e.get_processed_string(mode::ENGLISH | mode::FULL_TEXT), "Hello Wooorld!");
}

#[test]
fn removing_a_plain_key_undoes_it() {
    let mut e = new_engine(parse_builtin_input_method("Telex"), flag::STD_FLAGS);
    e.process_string("vieetj", mode::VIETNAMESE);
    let before = e.get_processed_string(mode::VIETNAMESE | mode::FULL_TEXT);
    e.process_key(',', mode::VIETNAMESE);
    assert_ne!(e.get_processed_string(mode::VIETNAMESE | mode::FULL_TEXT), before);
    e.remove_last_char(true);
    assert_eq!(e.get_processed_string(mode::VIETNAMESE | mode::FULL_TEXT), before);
    assert_eq!(before, "việt");
}

#[test]
fn restoring_a_word_shows_its_keys() {
    let mut e = new_engine(parse_builtin_input_method("Telex"), flag::STD_FLAGS);
    e.process_string("xin chaof Vieetj", mode::VIETNAMESE);
    assert_eq!(e.get_processed_string(mode::VIETNAMESE | mode::FULL_TEXT), "xin chào Việt");
    e.restore_last_word(false);
    assert_eq!(e.get_processed_string(mode::VIETNAMESE | mode::FULL_TEXT), "xin chào Vieetj");
}
