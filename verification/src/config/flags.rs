//! Input modes and feature flags of the configuration.
use vstd::prelude::*;

verus! {

pub const PREEDIT_IM: i32 = 1i32;
pub const SURROUNDING_TEXT_IM: i32 = 2i32;
pub const BACKSPACE_FORWARDING_IM: i32 = 3i32;
pub const SHIFT_LEFT_FORWARDING_IM: i32 = 4i32;
pub const FORWARD_AS_COMMIT_IM: i32 = 5i32;
pub const XTEST_FAKE_KEY_EVENT_IM: i32 = 6i32;
pub const US_IM: i32 = 7i32;

/// The input modes that correct text by deleting backwards.
pub open spec fn backspace_modes() -> Seq<i32> {
    seq![SURROUNDING_TEXT_IM, BACKSPACE_FORWARDING_IM, SHIFT_LEFT_FORWARDING_IM, FORWARD_AS_COMMIT_IM, XTEST_FAKE_KEY_EVENT_IM]
}

// Feature flags. Bits 2, 3, 11, 12, 14, 16, 17 and 18 are retired and kept free.
pub const IB_AUTO_COMMIT_WITH_VN_NOT_MATCH: u32 = 1u32;
pub const IB_MACRO_ENABLED: u32 = 2u32;
pub const IB_SPELL_CHECK_ENABLED: u32 = 16u32;
pub const IB_AUTO_NON_VN_RESTORE: u32 = 32u32;
pub const IB_DD_FREE_STYLE: u32 = 64u32;
pub const IB_NO_UNDERLINE: u32 = 128u32;
pub const IB_SPELL_CHECK_WITH_RULES: u32 = 256u32;
pub const IB_SPELL_CHECK_WITH_DICTS: u32 = 512u32;
pub const IB_AUTO_COMMIT_WITH_DELAY: u32 = 1024u32;
pub const IB_PREEDIT_ELIMINATION: u32 = 8192u32;
pub const IB_AUTO_CAPITALIZE_MACRO: u32 = 32768u32;
pub const IB_WORKAROUND_FOR_FB_MESSENGER: u32 = 524288u32;
pub const IB_WORKAROUND_FOR_WPS: u32 = 1048576u32;
/// Capitalize the first letter after a sentence end and a space.
pub const IB_CAPITALIZE_SENTENCE: u32 = 2097152u32;
/// A second space after a word becomes ". ".
pub const IB_DOUBLE_SPACE_PERIOD: u32 = 4194304u32;

/// Spell checking with rules, restoring non-Vietnamese words, free `dd`, macro capitalization,
/// no underline and the WPS workaround.
pub const IB_STD_FLAGS: u32 = 1081840u32;
pub const IB_US_STD_FLAGS: u32 = 0u32;

/// The label of each input mode.
pub open spec fn im_labels() -> Seq<(i32, Seq<char>)> {
    seq![
        (PREEDIT_IM, "Cấu hình mặc định (Pre-edit)"@),
        (SURROUNDING_TEXT_IM, "Sửa lỗi gạch chân (Surrounding Text)"@),
        (BACKSPACE_FORWARDING_IM, "Sửa lỗi gạch chân (ForwardKeyEvent I)"@),
        (SHIFT_LEFT_FORWARDING_IM, "Sửa lỗi gạch chân (ForwardKeyEvent II)"@),
        (FORWARD_AS_COMMIT_IM, "Sửa lỗi gạch chân (Forward as commit)"@),
        (XTEST_FAKE_KEY_EVENT_IM, "Sửa lỗi gạch chân (XTestFakeKeyEvent)"@),
        (US_IM, "Thêm vào danh sách loại trừ"@),
    ]
}

/// The input modes with their labels, in order.
pub fn im_lookup_table() -> (r: Vec<(i32, &'static str)>)
    ensures
        r@.map_values(|e: (i32, &'static str)| (e.0, e.1@)) == im_labels(),
{
    let mut r: Vec<(i32, &'static str)> = Vec::new();
    r.push((PREEDIT_IM, "Cấu hình mặc định (Pre-edit)"));
    r.push((SURROUNDING_TEXT_IM, "Sửa lỗi gạch chân (Surrounding Text)"));
    r.push((BACKSPACE_FORWARDING_IM, "Sửa lỗi gạch chân (ForwardKeyEvent I)"));
    r.push((SHIFT_LEFT_FORWARDING_IM, "Sửa lỗi gạch chân (ForwardKeyEvent II)"));
    r.push((FORWARD_AS_COMMIT_IM, "Sửa lỗi gạch chân (Forward as commit)"));
    r.push((XTEST_FAKE_KEY_EVENT_IM, "Sửa lỗi gạch chân (XTestFakeKeyEvent)"));
    r.push((US_IM, "Thêm vào danh sách loại trừ"));
    assert(r@.map_values(|e: (i32, &'static str)| (e.0, e.1@)) =~= im_labels());
    r
}

} // verus!
