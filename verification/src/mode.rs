//! Bit flags that select how a composition is processed or rendered.
use vstd::prelude::*;

verus! {

pub const VIETNAMESE: u32 = 1u32;
pub const ENGLISH: u32 = 2u32;
pub const TONE_LESS: u32 = 4u32;
pub const MARK_LESS: u32 = 8u32;
pub const LOWER_CASE: u32 = 16u32;
pub const FULL_TEXT: u32 = 32u32;
pub const PUNCTUATION: u32 = 64u32;
pub const IN_REVERSE_ORDER: u32 = 128u32;

} // verus!
