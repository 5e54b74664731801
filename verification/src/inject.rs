//! The keycode of a keysym in the keyboard mapping that the X server gives, for the fake key
//! presses of the backspace-correction modes.
use vstd::prelude::*;

verus! {

/// The X11 keysym of BackSpace.
pub const KEYSYM_BACKSPACE: u32 = 0xff08u32;

/// Index of the first `t` in `s` at or after `i`, or -1.
pub open spec fn first_at(s: Seq<u32>, t: u32, i: int) -> int
    decreases s.len() - i,
{
    if i < 0 || i >= s.len() {
        -1
    } else if s[i] == t {
        i
    } else {
        first_at(s, t, i + 1)
    }
}

/// The keycode of the row (of `per` keysyms, rows counted from keycode `min`, wrapping at 256)
/// that holds the first occurrence of `target`; none when `per` is 0 or `target` is absent.
pub open spec fn find_keycode_spec(keysyms: Seq<u32>, per: int, min: u8, target: u32) -> Option<u8> {
    let j = first_at(keysyms, target, 0);
    if per == 0 || j < 0 {
        None
    } else {
        Some(((min + j / per) % 256) as u8)
    }
}

/// Finds the keycode of `target` in the flat mapping `keysyms`: `per` keysyms for each keycode,
/// from keycode `min` on.
pub fn find_keycode(keysyms: &[u32], per: usize, min: u8, target: u32) -> (r: Option<u8>)
    ensures
        r == find_keycode_spec(keysyms@, per as int, min, target),
{
    if per == 0 {
        return None;
    }
    for j in 0..keysyms.len()
        invariant
            per > 0,
            first_at(keysyms@, target, 0) == first_at(keysyms@, target, j as int),
    {
        if keysyms[j] == target {
            let row = j / per;
            let k = (row % 256) as u8;
            let r = min.wrapping_add(k);
            proof {
                vstd::arithmetic::div_mod::lemma_add_mod_noop_right(min as int, row as int, 256);
                assert(r == ((min + k) % 256) as u8);
            }
            return Some(r);
        }
    }
    None
}

} // verus!
