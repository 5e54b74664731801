//! A physical Hyper (Mod3) key passes through like any control combination.
use pinakey::action::Action;
use pinakey::config::default_cfg;
use pinakey::engine_core::EngineCore;

#[test]
fn fcitx_physical_hyper_must_pass_through() {
    let mut engine = EngineCore::new(default_cfg());
    for c in "vie".chars() {
        engine.process_key_event(c as u32, 0, 0);
    }
    let (handled, actions) = engine.process_key_event('a' as u32, 0, 1 << 5);
    assert!(!handled, "Hyper+a phải đi thẳng tới ứng dụng");
    assert!(actions.is_empty(), "Hyper+a không được sửa preedit: {actions:?}");
}

#[test]
fn buffer_intact_after_hyper_shortcut() {
    let mut engine = EngineCore::new(default_cfg());
    for c in "vie".chars() {
        engine.process_key_event(c as u32, 0, 0);
    }
    engine.process_key_event('a' as u32, 0, 1 << 5);
    let (handled, actions) = engine.process_key_event('t' as u32, 0, 0);
    assert!(handled, "'t' nối tiếp buffer 'vie' phải được xử lý");
    let preedit = actions.iter().rev().find_map(|a| match a {
        Action::UpdatePreedit { text, .. } => Some(text.clone()),
        _ => None,
    });
    assert_eq!(preedit.as_deref(), Some("viet"), "buffer phải là 'vie' + 't' = 'viet': {actions:?}");
}
