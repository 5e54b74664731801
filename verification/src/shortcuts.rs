//! The engine's shortcuts. The configuration holds `shortcuts: [u32; 10]`, five pairs of
//! (modifier, keyval); the modifier is coded compactly: bit `1` Control, `2` Shift, `4` Alt
//! (Mod1), `8` Super. Pair 0 toggles Vietnamese, pair 1 restores the keys of the current word.
//! A keyval of 0 means unassigned and never matches.
use vstd::prelude::*;

verus! {

pub const IBUS_SHIFT_MASK: u32 = 1u32;
pub const IBUS_LOCK_MASK: u32 = 2u32;
pub const IBUS_CONTROL_MASK: u32 = 4u32;
pub const IBUS_MOD1_MASK: u32 = 8u32;
pub const IBUS_MOD4_MASK: u32 = 64u32;
pub const IBUS_SUPER_MASK: u32 = 0x400_0000u32;
pub const IBUS_HYPER_MASK: u32 = 0x800_0000u32;
pub const IBUS_META_MASK: u32 = 0x1000_0000u32;
pub const IBUS_RELEASE_MASK: u32 = 0x4000_0000u32;

/// The modifiers that count when a shortcut is matched (Lock, Release and the rest do not).
pub const RELEVANT_MODS: u32 = 0x400_000du32;

/// What a shortcut does.
#[derive(Debug, Clone, Copy, PartialEq, Eq, Structural)]
pub enum ShortcutAction {
    ToggleVietnamese,
    RestoreWord,
}

/// Bit `b` of `x` is set.
pub open spec fn has_bit(x: u32, b: u32) -> bool {
    x & b != 0
}

/// The IBus state mask of a compact modifier code: the sum of the masks whose code bit is set.
pub open spec fn decode_modifier_spec(code: u32) -> u32 {
    ((if has_bit(code, 1) { IBUS_CONTROL_MASK as int } else { 0 })
        + (if has_bit(code, 2) { IBUS_SHIFT_MASK as int } else { 0 })
        + (if has_bit(code, 4) { IBUS_MOD1_MASK as int } else { 0 })
        + (if has_bit(code, 8) { IBUS_SUPER_MASK as int } else { 0 })) as u32
}

/// Decodes a compact modifier code into an IBus state mask.
pub fn decode_modifier(code: u32) -> (mask: u32)
    ensures
        mask == decode_modifier_spec(code),
        has_bit(mask, IBUS_CONTROL_MASK) == has_bit(code, 1),
        has_bit(mask, IBUS_SHIFT_MASK) == has_bit(code, 2),
        has_bit(mask, IBUS_MOD1_MASK) == has_bit(code, 4),
        has_bit(mask, IBUS_SUPER_MASK) == has_bit(code, 8),
        mask & !RELEVANT_MODS == 0,
{
    let c: u32 = if code & 1 != 0 { IBUS_CONTROL_MASK } else { 0 };
    let s: u32 = if code & 2 != 0 { IBUS_SHIFT_MASK } else { 0 };
    let a: u32 = if code & 4 != 0 { IBUS_MOD1_MASK } else { 0 };
    let p: u32 = if code & 8 != 0 { IBUS_SUPER_MASK } else { 0 };
    let mut mask: u32 = 0;
    mask = mask | c;
    mask = mask | s;
    mask = mask | a;
    mask = mask | p;
    assert(mask == c + s + a + p && mask & 4 == c && mask & 1 == s && mask & 8 == a
        && mask & 0x400_0000 == p && mask & !0x400_000du32 == 0) by (bit_vector)
        requires
            c == 4 || c == 0,
            s == 1 || s == 0,
            a == 8 || a == 0,
            p == 0x400_0000 || p == 0,
            mask == (((0u32 | c) | s) | a) | p,
    ;
    mask
}

/// The pair (`mod_code`, `target_key`) is assigned and matches the key: same keyval, and exactly
/// its modifiers among those that count.
pub open spec fn pair_matches(mod_code: u32, target_key: u32, state: u32, keyval: u32) -> bool {
    target_key != 0 && keyval == target_key && state & RELEVANT_MODS == decode_modifier_spec(mod_code)
}

/// The action of the first pair of `sc` (toggle, then restore) that matches the key.
pub open spec fn match_shortcut_spec(sc: Seq<u32>, state: u32, keyval: u32) -> Option<ShortcutAction> {
    if pair_matches(sc[0], sc[1], state, keyval) {
        Some(ShortcutAction::ToggleVietnamese)
    } else if pair_matches(sc[2], sc[3], state, keyval) {
        Some(ShortcutAction::RestoreWord)
    } else {
        None
    }
}

fn pair_matches_exec(mod_code: u32, target_key: u32, state: u32, keyval: u32) -> (r: bool)
    ensures
        r == pair_matches(mod_code, target_key, state, keyval),
{
    target_key != 0 && keyval == target_key && (state & RELEVANT_MODS) == decode_modifier(mod_code)
}

/// The shortcut action that the key `(state, keyval)` triggers, if any.
pub fn match_shortcut(shortcuts: &[u32; 10], state: u32, keyval: u32) -> (r: Option<ShortcutAction>)
    ensures
        r == match_shortcut_spec(shortcuts@, state, keyval),
{
    if pair_matches_exec(shortcuts[0], shortcuts[1], state, keyval) {
        return Some(ShortcutAction::ToggleVietnamese);
    }
    if pair_matches_exec(shortcuts[2], shortcuts[3], state, keyval) {
        return Some(ShortcutAction::RestoreWord);
    }
    None
}

/// A pair whose keyval is 0 is unassigned: it never gives its action.
pub proof fn lemma_unassigned_never_matches(sc: Seq<u32>, state: u32, keyval: u32)
    requires
        sc.len() == 10,
    ensures
        sc[1] == 0 ==> match_shortcut_spec(sc, state, keyval) != Some(ShortcutAction::ToggleVietnamese),
        sc[3] == 0 ==> match_shortcut_spec(sc, state, keyval) != Some(ShortcutAction::RestoreWord),
{
}

/// Lock, Release and the other modifiers that do not count never change what a key matches.
pub proof fn lemma_irrelevant_modifiers_ignored(sc: Seq<u32>, state: u32, extra: u32, keyval: u32)
    requires
        sc.len() == 10,
        extra & RELEVANT_MODS == 0,
    ensures
        match_shortcut_spec(sc, state | extra, keyval) == match_shortcut_spec(sc, state, keyval),
{
    assert((state | extra) & 0x400_000du32 == state & 0x400_000du32) by (bit_vector)
        requires
            extra & 0x400_000du32 == 0,
    ;
}

} // verus!
