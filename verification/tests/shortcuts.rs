use pinakey::shortcuts::{
    decode_modifier, match_shortcut, ShortcutAction, IBUS_CONTROL_MASK, IBUS_LOCK_MASK, IBUS_MOD1_MASK,
    IBUS_RELEASE_MASK, IBUS_SHIFT_MASK, IBUS_SUPER_MASK,
};

#[test]
fn decode_modifier_maps_bits() {
    assert_eq!(decode_modifier(0), 0);
    assert_eq!(decode_modifier(1), IBUS_CONTROL_MASK);
    assert_eq!(decode_modifier(2), IBUS_SHIFT_MASK);
    assert_eq!(decode_modifier(4), IBUS_MOD1_MASK);
    assert_eq!(decode_modifier(8), IBUS_SUPER_MASK);
    assert_eq!(decode_modifier(3), IBUS_CONTROL_MASK | IBUS_SHIFT_MASK);
}

#[test]
fn decode_modifier_ignores_high_bits() {
    assert_eq!(decode_modifier(15), IBUS_CONTROL_MASK | IBUS_SHIFT_MASK | IBUS_MOD1_MASK | IBUS_SUPER_MASK);
    assert_eq!(decode_modifier(16), 0);
    assert_eq!(decode_modifier(0xffff_fff0 | 4), IBUS_MOD1_MASK);
    assert_eq!(IBUS_SUPER_MASK, 1 << 26);
}

#[test]
fn matches_toggle_pair() {
    let sc = [1, 0x76, 2, 0x72, 0, 0, 0, 0, 0, 0];
    assert_eq!(match_shortcut(&sc, IBUS_CONTROL_MASK, 0x76), Some(ShortcutAction::ToggleVietnamese));
    assert_eq!(match_shortcut(&sc, IBUS_SHIFT_MASK, 0x72), Some(ShortcutAction::RestoreWord));
}

#[test]
fn modifier_must_match_exactly() {
    let sc = [1, 0x76, 0, 0, 0, 0, 0, 0, 0, 0];
    assert_eq!(match_shortcut(&sc, 0, 0x76), None);
    assert_eq!(match_shortcut(&sc, IBUS_CONTROL_MASK | IBUS_SHIFT_MASK, 0x76), None);
    assert_eq!(match_shortcut(&sc, IBUS_CONTROL_MASK | IBUS_LOCK_MASK, 0x76), Some(ShortcutAction::ToggleVietnamese));
}

#[test]
fn unassigned_never_matches() {
    let sc = [0; 10];
    assert_eq!(match_shortcut(&sc, 0, 0), None);
    assert_eq!(match_shortcut(&sc, IBUS_CONTROL_MASK, 0), None);
}

#[test]
fn toggle_pair_wins_and_release_is_ignored() {
    let sc = [1, 0x76, 1, 0x76, 0, 0, 0, 0, 0, 0];
    assert_eq!(match_shortcut(&sc, IBUS_CONTROL_MASK | IBUS_RELEASE_MASK, 0x76), Some(ShortcutAction::ToggleVietnamese));
    let sc = [1, 0, 1, 0x76, 0, 0, 0, 0, 0, 0];
    assert_eq!(match_shortcut(&sc, IBUS_CONTROL_MASK, 0x76), Some(ShortcutAction::RestoreWord));
}
