//! Feature flags of the transformation engine.
use vstd::prelude::*;

verus! {

/// Tones may be placed anywhere in the syllable and move to the right vowel.
pub const FREE_TONE_MARKING: u32 = 1u32;
/// The "new" tone placement style (tone on ơ / ê, on the second vowel before a final consonant).
pub const STD_TONE_STYLE: u32 = 2u32;
/// Reserved bit: nothing reads it; kept so that stored configurations still load.
pub const AUTO_CORRECT_ENABLED: u32 = 4u32;
pub const STD_FLAGS: u32 = 3u32;

} // verus!
