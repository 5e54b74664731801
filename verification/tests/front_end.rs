//! A front end's view of typing: an engine core feeding a display, in preedit mode and in typing
//! without an underline.
use pinakey::config::default_cfg;
use pinakey::display::DisplayState;
use pinakey::engine_core::EngineCore;

const MOD_RELEASE: u32 = 1 << 30;

fn type_preedit(core: &mut EngineCore, d: &mut DisplayState, s: &str) -> String {
    let mut commit = String::new();
    for c in s.chars() {
        let (_h, actions) = core.process_key_event(c as u32, 0, 0);
        d.apply(&actions);
        commit.push_str(&d.commit);
    }
    commit
}

fn type_replace(core: &mut EngineCore, d: &mut DisplayState, doc: &mut String, s: &str) {
    for c in s.chars() {
        let (_h, actions) = core.process_key_event(c as u32, 0, 0);
        d.apply_replace(&actions);
        for _ in 0..d.replace_delete {
            doc.pop();
        }
        doc.push_str(&d.replace_insert);
    }
}

#[test]
fn preedit_shows_the_word_and_space_commits_it() {
    let mut core = EngineCore::new(default_cfg());
    let mut d = DisplayState::new();
    type_preedit(&mut core, &mut d, "vieetj");
    assert_eq!(d.preedit, "việt");
    assert!(d.preedit_visible);
    let commit = type_preedit(&mut core, &mut d, " ");
    assert!(commit.contains("việt"), "{commit:?}");
    assert!(!d.preedit_visible);
}

#[test]
fn flush_gives_the_preedit() {
    let mut core = EngineCore::new(default_cfg());
    let mut d = DisplayState::new();
    type_preedit(&mut core, &mut d, "vieetj");
    assert_eq!(d.flush_preedit(), "việt");
    core.reset_preeditor();
    assert!(!d.preedit_visible);
    assert_eq!(d.preedit, "");
}

#[test]
fn without_underline_the_document_gets_the_words() {
    let mut core = EngineCore::new(default_cfg());
    let mut d = DisplayState::new();
    let mut doc = String::new();
    type_replace(&mut core, &mut d, &mut doc, "vieetj");
    assert_eq!(doc, "việt");
    let mut core = EngineCore::new(default_cfg());
    let mut d = DisplayState::new();
    let mut doc = String::new();
    type_replace(&mut core, &mut d, &mut doc, "tieengs vieetj");
    assert_eq!(doc, "tiếng việt");
    let mut core = EngineCore::new(default_cfg());
    let mut d = DisplayState::new();
    let mut doc = String::new();
    type_replace(&mut core, &mut d, &mut doc, "loz ");
    assert_eq!(doc, "loz ");
}

#[test]
fn release_and_bare_shift_change_nothing_without_underline() {
    let mut core = EngineCore::new(default_cfg());
    let mut d = DisplayState::new();
    let mut doc = String::new();
    type_replace(&mut core, &mut d, &mut doc, "vi");
    let (_h, actions) = core.process_key_event('i' as u32, 0, MOD_RELEASE);
    d.apply_replace(&actions);
    assert_eq!((d.replace_delete, d.replace_insert.as_str()), (0, ""));
    let (_h, actions) = core.process_key_event(0xffe1, 0, 0);
    d.apply_replace(&actions);
    assert_eq!((d.replace_delete, d.replace_insert.as_str()), (0, ""));
    assert_eq!(d.replace_segment, "vi");
    assert_eq!(doc, "vi");
}

#[test]
fn reset_forgets_the_segment() {
    let mut core = EngineCore::new(default_cfg());
    let mut d = DisplayState::new();
    let mut doc = String::new();
    type_replace(&mut core, &mut d, &mut doc, "vieet");
    core.reset_preeditor();
    d.clear_display();
    assert_eq!(d.replace_segment, "");
    let (_h, actions) = core.process_key_event('a' as u32, 0, 0);
    d.apply_replace(&actions);
    assert_eq!((d.replace_delete, d.replace_insert.as_str()), (0, "a"));
}
