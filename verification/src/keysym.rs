//! Key symbols and modifier masks shared by the front ends (the X11 values, which IBus and
//! fcitx5 use too).
use vstd::prelude::*;

verus! {

pub const MOD_SHIFT: u32 = 1u32;
/// Caps Lock.
pub const MOD_LOCK: u32 = 2u32;
pub const MOD_CONTROL: u32 = 4u32;
/// Usually Alt.
pub const MOD_MOD1: u32 = 8u32;
/// Mod3, the physical Hyper key of fcitx5.
pub const MOD_MOD3: u32 = 32u32;
/// Usually Super.
pub const MOD_MOD4: u32 = 64u32;
/// Set by IBus only.
pub const MOD_HANDLED: u32 = 16777216u32;
pub const MOD_FORWARD: u32 = 33554432u32;
pub const MOD_IGNORED: u32 = 33554432u32;
pub const MOD_SUPER: u32 = 67108864u32;
pub const MOD_HYPER: u32 = 134217728u32;
pub const MOD_META: u32 = 268435456u32;
/// A key release.
pub const MOD_RELEASE: u32 = 1073741824u32;

pub const KEY_TAB: u32 = 0xff09u32;
pub const KEY_BACKSPACE: u32 = 0xff08u32;
pub const KEY_RETURN: u32 = 0xff0du32;
pub const KEY_ESCAPE: u32 = 0xff1bu32;
pub const KEY_SPACE: u32 = 0x020u32;
pub const KEY_COLON: u32 = 0x03au32;
pub const KEY_TILDE: u32 = 0x007eu32;

/// No control-like modifier (Control, Alt, Mod3, Super, Hyper, Meta, forwarded) is held.
pub open spec fn valid_state_spec(state: u32) -> bool {
    &&& state & MOD_CONTROL == 0
    &&& state & MOD_MOD1 == 0
    &&& state & MOD_MOD3 == 0
    &&& state & MOD_MOD4 == 0
    &&& state & MOD_IGNORED == 0
    &&& state & MOD_SUPER == 0
    &&& state & MOD_HYPER == 0
    &&& state & MOD_META == 0
}

/// Whether no control-like modifier is held, so that a key types text.
pub fn is_valid_state(state: u32) -> (r: bool)
    ensures
        r == valid_state_spec(state),
{
    state & MOD_CONTROL == 0 && state & MOD_MOD1 == 0 && state & MOD_MOD3 == 0 && state & MOD_MOD4 == 0
        && state & MOD_IGNORED == 0 && state & MOD_SUPER == 0 && state & MOD_HYPER == 0 && state & MOD_META == 0
}

/// The key symbols of modifier keys: Shift_L through Hyper_R, the ISO lock and level shift
/// keys, Mode_switch and Num_Lock.
pub open spec fn modifier_keysym_spec(k: u32) -> bool {
    (0xffe1 <= k <= 0xffee) || (0xfe01 <= k <= 0xfe13) || k == 0xff7e || k == 0xff7f
}

/// Whether the key symbol is that of a modifier key pressed on its own.
pub fn is_modifier_keysym(k: u32) -> (r: bool)
    ensures
        r == modifier_keysym_spec(k),
{
    (0xffe1 <= k && k <= 0xffee) || (0xfe01 <= k && k <= 0xfe13) || k == 0xff7e || k == 0xff7f
}

/// Whether `v` is a Unicode scalar value.
pub open spec fn is_scalar(v: u32) -> bool {
    v < 0xD800 || (0xE000 <= v && v <= 0x10FFFF)
}

/// The char of a key symbol, or `'\0'` when it is not a Unicode scalar value.
pub open spec fn rune_of(v: u32) -> char {
    if is_scalar(v) {
        v as char
    } else {
        '\0'
    }
}

/// `char::from_u32`: the char with the given code, when it is a Unicode scalar value.
#[verifier::external_body]
pub(crate) fn char_from_u32(v: u32) -> (r: Option<char>)
    ensures
        r.is_some() == is_scalar(v),
        r matches Some(c) ==> c == v as char,
{
    char::from_u32(v)
}

/// The char of a key symbol, `'\0'` when it has none.
pub fn rune_from_key(v: u32) -> (c: char)
    ensures
        c == rune_of(v),
{
    match char_from_u32(v) {
        Some(c) => c,
        None => '\0',
    }
}

} // verus!
