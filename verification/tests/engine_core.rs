//! Key events through the engine core: preedit, commits, fallbacks and the typing conveniences.
use pinakey::action::Action;
use pinakey::config::flags;
use pinakey::config::{default_cfg, Config};
use pinakey::engine_core::EngineCore;
use pinakey::keysym::KEY_BACKSPACE;


/// Gõ một chuỗi (mỗi ký tự là một phím in được) và trả về các action sinh ra bởi phím cuối
/// cùng, cùng với danh sách tích lũy mọi commit đã phát ra.
fn type_keys(core: &mut EngineCore, s: &str) -> Vec<Action> {
    let mut all = Vec::new();
    for c in s.chars() {
        let (_handled, actions) = core.process_key_event(c as u32, 0, 0);
        all.extend(actions);
    }
    all
}

fn last_preedit(actions: &[Action]) -> Option<String> {
    actions.iter().rev().find_map(|a| match a {
        Action::UpdatePreedit { text, .. } => Some(text.clone()),
        _ => None,
    })
}

fn commits(actions: &[Action]) -> Vec<String> {
    actions
        .iter()
        .filter_map(|a| match a {
            Action::CommitText(t) if !t.is_empty() => Some(t.clone()),
            _ => None,
        })
        .collect()
}

#[test]
fn bare_modifier_press_mid_word_does_not_commit() {
    // Nhấn Shift/Ctrl đơn lẻ giữa từ không được ép commit từ đang gõ
    // (trước đây "vieet" + Shift + "j" cho ra "viêtj" thay vì "việt").
    let mut core = EngineCore::new(default_cfg());
    type_keys(&mut core, "vieet"); // preedit "viêt"
    for sym in [0xffe1_u32, 0xffe3, 0xfe03] {
        // Shift_L, Control_L, ISO_Level3_Shift (AltGr)
        let (handled, actions) = core.process_key_event(sym, 0, 0);
        assert!(!handled, "keysym modifier {sym:#x} phải được cho đi qua");
        assert!(
            commits(&actions).is_empty(),
            "keysym modifier {sym:#x} không được commit preedit"
        );
    }
    let actions = type_keys(&mut core, "j");
    assert_eq!(last_preedit(&actions).as_deref(), Some("việt"));
}

#[test]
fn engine_telex_preedit_builds_vietnamese() {
    let mut core = EngineCore::new(default_cfg()); // mặc định = Telex
    let actions = type_keys(&mut core, "vieetj");
    assert_eq!(last_preedit(&actions).as_deref(), Some("việt"));
}

#[test]
fn engine_word_break_commits_word() {
    let mut core = EngineCore::new(default_cfg());
    // gõ "tieengs" -> "tiếng", rồi phím space commit nó
    let mut actions = type_keys(&mut core, "tieengs");
    assert_eq!(last_preedit(&actions).as_deref(), Some("tiếng"));
    let (_h, sp) = core.process_key_event(' ' as u32, 0, 0);
    actions.extend(sp);
    // Phím ngắt từ (space) được commit cùng với từ.
    assert!(commits(&actions).iter().any(|c| c.trim() == "tiếng"));
}

#[test]
fn w_shortcut_off_keeps_w() {
    // #65 mức 0 (mặc định): "w" đứng riêng vẫn là "w".
    let mut core = EngineCore::new(default_cfg());
    let actions = type_keys(&mut core, "w");
    assert_eq!(last_preedit(&actions).as_deref(), Some("w"));
}

#[test]
fn w_shortcut_everywhere() {
    // #65 mức 2: "w" ra "ư" ở mọi vị trí; gõ đúp "ww" trả lại "w".
    let mut cfg = default_cfg();
    cfg.w_shortcut = 2;
    let mut core = EngineCore::new(cfg);
    let actions = type_keys(&mut core, "w");
    assert_eq!(last_preedit(&actions).as_deref(), Some("ư"), "w → ư");
    core.reset_preeditor();
    let actions = type_keys(&mut core, "ww");
    assert_eq!(last_preedit(&actions).as_deref(), Some("w"), "ww → w");
    core.reset_preeditor();
    let actions = type_keys(&mut core, "tw");
    assert_eq!(last_preedit(&actions).as_deref(), Some("tư"), "tw → tư");
}

#[test]
fn w_shortcut_not_at_word_start() {
    // #65 mức 1: "w" ở ĐẦU TỪ giữ nguyên (www, word…); giữa từ vẫn ra "ư".
    let mut cfg = default_cfg();
    cfg.w_shortcut = 1;
    let mut core = EngineCore::new(cfg);
    let actions = type_keys(&mut core, "w");
    assert_eq!(last_preedit(&actions).as_deref(), Some("w"), "đầu từ giữ w");
    core.reset_preeditor();
    let actions = type_keys(&mut core, "www");
    assert_eq!(
        last_preedit(&actions).as_deref(),
        Some("www"),
        "www giữ nguyên"
    );
    core.reset_preeditor();
    let actions = type_keys(&mut core, "tw");
    assert_eq!(
        last_preedit(&actions).as_deref(),
        Some("tư"),
        "giữa từ tw → tư"
    );
    core.reset_preeditor();
    // Từ tiếng Anh bắt đầu bằng w phải nguyên vẹn — đặc biệt 'r' không được thành dấu hỏi
    // (nếu w bị commit rời thay vì append, "word" thành "w" + "ỏd").
    let actions = type_keys(&mut core, "word");
    assert_eq!(
        last_preedit(&actions).as_deref(),
        Some("word"),
        "word giữ nguyên"
    );
}

#[test]
fn w_shortcut_does_not_break_uw() {
    // #65: cả 3 mức không được phá "uw" → "ư" chuẩn Telex.
    for level in [0u8, 1, 2] {
        let mut cfg = default_cfg();
        cfg.w_shortcut = level;
        let mut core = EngineCore::new(cfg);
        let actions = type_keys(&mut core, "tuw");
        assert_eq!(
            last_preedit(&actions).as_deref(),
            Some("tư"),
            "mức {level}: tuw → tư"
        );
    }
}

#[test]
fn capitalize_sentence_after_period_and_space() {
    // #65: sau "xong." + space (space đi qua engine dù buffer rỗng), chữ cái đầu tiên của
    // từ kế tiếp tự viết hoa — kể cả khi từ đó có dấu Telex.
    let mut cfg = default_cfg();
    cfg.ib_flags |= flags::IB_CAPITALIZE_SENTENCE;
    let mut core = EngineCore::new(cfg);
    type_keys(&mut core, "xong");
    core.process_key_event('.' as u32, 0, 0); // commit "xong."
    core.process_key_event(' ' as u32, 0, 0); // buffer rỗng → space forward, engine vẫn thấy
    let actions = type_keys(&mut core, "vieetj");
    assert_eq!(last_preedit(&actions).as_deref(), Some("Việt"));
}

#[test]
fn capitalize_sentence_off_by_default() {
    let mut core = EngineCore::new(default_cfg());
    type_keys(&mut core, "xong");
    core.process_key_event('.' as u32, 0, 0);
    core.process_key_event(' ' as u32, 0, 0);
    let actions = type_keys(&mut core, "vieetj");
    assert_eq!(last_preedit(&actions).as_deref(), Some("việt"));
}

#[test]
fn capitalize_sentence_not_after_comma_or_without_space() {
    let mut cfg = default_cfg();
    cfg.ib_flags |= flags::IB_CAPITALIZE_SENTENCE;
    let mut core = EngineCore::new(cfg);
    // Dấu phẩy không kết câu.
    type_keys(&mut core, "xong");
    core.process_key_event(',' as u32, 0, 0);
    core.process_key_event(' ' as u32, 0, 0);
    let actions = type_keys(&mut core, "va");
    assert_eq!(
        last_preedit(&actions).as_deref(),
        Some("va"),
        "sau dấu phẩy"
    );
    // "." nhưng CHƯA có khoảng trắng → chưa viết hoa (viết tắt, số thập phân…).
    let mut core = EngineCore::new({
        let mut c = default_cfg();
        c.ib_flags |= flags::IB_CAPITALIZE_SENTENCE;
        c
    });
    type_keys(&mut core, "xong");
    core.process_key_event('.' as u32, 0, 0);
    let actions = type_keys(&mut core, "va");
    assert_eq!(
        last_preedit(&actions).as_deref(),
        Some("va"),
        "chưa có space"
    );
}

#[test]
fn capitalize_sentence_single_shot_and_cleared_by_backspace() {
    let mut cfg = default_cfg();
    cfg.ib_flags |= flags::IB_CAPITALIZE_SENTENCE;
    let mut core = EngineCore::new(cfg);
    // Backspace sau ". " (người dùng sửa tay) → huỷ viết hoa chờ.
    type_keys(&mut core, "xong");
    core.process_key_event('.' as u32, 0, 0);
    core.process_key_event(' ' as u32, 0, 0);
    core.process_key_event(KEY_BACKSPACE, 0, 0);
    let actions = type_keys(&mut core, "va");
    assert_eq!(
        last_preedit(&actions).as_deref(),
        Some("va"),
        "backspace huỷ"
    );
    // Chỉ viết hoa MỘT chữ đầu: từ thứ hai của câu không bị hoa.
    let mut core = EngineCore::new({
        let mut c = default_cfg();
        c.ib_flags |= flags::IB_CAPITALIZE_SENTENCE;
        c
    });
    type_keys(&mut core, "xong");
    core.process_key_event('.' as u32, 0, 0);
    core.process_key_event(' ' as u32, 0, 0);
    type_keys(&mut core, "hai");
    core.process_key_event(' ' as u32, 0, 0); // commit "Hai "
    let actions = type_keys(&mut core, "ba");
    assert_eq!(last_preedit(&actions).as_deref(), Some("ba"), "one-shot");
}

#[test]
fn double_space_arms_after_word_space_commit() {
    // #65: sau khi commit "tiếng " (từ + dấu cách), engine "lên đạn" cho double-space.
    let mut cfg = default_cfg();
    cfg.ib_flags |= flags::IB_DOUBLE_SPACE_PERIOD;
    let mut core = EngineCore::new(cfg);
    type_keys(&mut core, "tieengs");
    assert!(!core.double_space_armed(), "chưa commit thì chưa arm");
    core.process_key_event(' ' as u32, 0, 0);
    assert!(core.double_space_armed(), "commit 'tiếng ' phải arm");
}

#[test]
fn double_space_not_armed_when_off_or_after_punct() {
    // Cờ tắt (mặc định) → không bao giờ arm.
    let mut core = EngineCore::new(default_cfg());
    type_keys(&mut core, "tieengs");
    core.process_key_event(' ' as u32, 0, 0);
    assert!(!core.double_space_armed(), "mặc định tắt");
    // Commit kết thúc ". " (đã có dấu câu) → không arm ("xong.  " thành "xong.. " là vô nghĩa).
    let mut cfg = default_cfg();
    cfg.ib_flags |= flags::IB_DOUBLE_SPACE_PERIOD;
    let mut core = EngineCore::new(cfg);
    type_keys(&mut core, "xong");
    core.process_key_event('.' as u32, 0, 0);
    core.process_key_event(' ' as u32, 0, 0);
    assert!(!core.double_space_armed(), "sau dấu câu không arm");
}

#[test]
fn double_space_disarmed_by_any_following_key() {
    let mut cfg = default_cfg();
    cfg.ib_flags |= flags::IB_DOUBLE_SPACE_PERIOD;
    let mut core = EngineCore::new(cfg);
    type_keys(&mut core, "tieengs");
    core.process_key_event(' ' as u32, 0, 0);
    assert!(core.double_space_armed());
    type_keys(&mut core, "a"); // gõ tiếp → cửa sổ double-space khép lại
    assert!(!core.double_space_armed());
}

#[test]
fn double_space_consume_disarms_and_chains_capitalize() {
    // Consume (C++ đã xoá space + commit ". ") → hết arm; nếu bật viết-hoa-đầu-câu thì
    // chữ kế tiếp được hoa luôn (văn bản giờ kết thúc ". ").
    let mut cfg = default_cfg();
    cfg.ib_flags |= flags::IB_DOUBLE_SPACE_PERIOD | flags::IB_CAPITALIZE_SENTENCE;
    let mut core = EngineCore::new(cfg);
    type_keys(&mut core, "tieengs");
    core.process_key_event(' ' as u32, 0, 0);
    assert!(core.double_space_armed());
    core.double_space_consume();
    assert!(!core.double_space_armed());
    let actions = type_keys(&mut core, "vieetj");
    assert_eq!(last_preedit(&actions).as_deref(), Some("Việt"));
}

#[test]
fn surrounding_text_unreliable_for_libreoffice() {
    // #66: LibreOffice/OpenOffice (soffice) báo surrounding text lạc hậu/thiếu dấu cách khi
    // gõ nhanh → phải bị đánh dấu "không đáng tin" để addon rơi về preedit.
    let mut core = EngineCore::new(default_cfg());
    assert!(
        !core.is_surrounding_text_unreliable(),
        "chưa đặt program → coi như đáng tin"
    );
    for p in [
        "soffice",
        "soffice.bin",
        "libreoffice-writer",
        "LibreOffice-calc",
        "org.libreoffice.LibreOffice",
    ] {
        core.set_wm_class(p.to_string());
        assert!(
            core.is_surrounding_text_unreliable(),
            "{p} phải bị coi là không đáng tin"
        );
    }
    for p in ["firefox", "google-chrome", "onlyoffice-desktopeditors"] {
        core.set_wm_class(p.to_string());
        assert!(!core.is_surrounding_text_unreliable(), "{p} phải đáng tin");
    }
}

#[test]
fn engine_backspace_removes_char() {
    let mut core = EngineCore::new(default_cfg());
    type_keys(&mut core, "vieetj"); // ra "việt"
    let (handled, actions) = core.process_key_event(KEY_BACKSPACE, 0, 0);
    assert!(handled);
    assert_eq!(last_preedit(&actions).as_deref(), Some("việ"));
}

#[test]
fn engine_non_vietnamese_falls_back() {
    // "xin" hợp lệ, nhưng một chuỗi rõ ràng không hợp lệ thì khi commit phải khôi phục lại các
    // phím gốc đã gõ.
    let mut core = EngineCore::new(default_cfg());
    let mut actions = type_keys(&mut core, "loz"); // không phải tiếng Việt -> giữ nguyên "loz"
    let (_h, sp) = core.process_key_event(' ' as u32, 0, 0);
    actions.extend(sp);
    assert!(commits(&actions).iter().any(|c| c.trim() == "loz"));
}

#[test]
fn engine_empty_buffer_passes_through_punctuation() {
    let mut core = EngineCore::new(default_cfg());
    // '.' với buffer rỗng không xử lý được, buffer lại rỗng -> không handle (cho đi qua)
    let (handled, _actions) = core.process_key_event('.' as u32, 0, 0);
    assert!(!handled);
}

fn simple_telex_cfg() -> Config {
    let mut c = default_cfg();
    c.input_method = "Telex (đơn giản)".to_string();
    c
}

#[test]
fn simple_telex_differs_from_standard_free_marking() {
    // Telex chuẩn (free marking): "anhs" -> dấu sắc tìm đúng nguyên âm 'a' -> "ánh".
    let mut std = EngineCore::new(default_cfg());
    let std_out = last_preedit(&type_keys(&mut std, "anhs"));
    // Telex đơn giản (free marking tắt): 's' sau phụ âm 'h' -> không áp dấu -> "anhs".
    let mut simple = EngineCore::new(simple_telex_cfg());
    let simple_out = last_preedit(&type_keys(&mut simple, "anhs"));
    assert_eq!(std_out.as_deref(), Some("ánh"));
    assert_ne!(
        std_out, simple_out,
        "free marking phải đổi hành vi của 'anhs'"
    );
}

#[test]
fn simple_telex_still_types_basic_vietnamese() {
    let mut e1 = EngineCore::new(simple_telex_cfg());
    assert_eq!(
        last_preedit(&type_keys(&mut e1, "as")).as_deref(),
        Some("á")
    );
    let mut e2 = EngineCore::new(simple_telex_cfg());
    assert_eq!(
        last_preedit(&type_keys(&mut e2, "aa")).as_deref(),
        Some("â")
    );
}


#[test]
fn core_telex_preedit_builds_vietnamese() {
    let mut core = EngineCore::new(default_cfg());
    let actions = type_keys(&mut core, "vieetj");
    assert_eq!(last_preedit(&actions).as_deref(), Some("việt"));
}

#[test]
fn core_word_break_commits_word() {
    let mut core = EngineCore::new(default_cfg());
    let mut actions = type_keys(&mut core, "tieengs");
    assert_eq!(last_preedit(&actions).as_deref(), Some("tiếng"));
    let (_h, sp) = core.process_key_event(' ' as u32, 0, 0);
    actions.extend(sp);
    assert!(commits(&actions).iter().any(|c| c.trim() == "tiếng"));
}

#[test]
fn core_backspace_removes_char() {
    let mut core = EngineCore::new(default_cfg());
    type_keys(&mut core, "vieetj");
    let (handled, actions) = core.process_key_event(KEY_BACKSPACE, 0, 0);
    assert!(handled);
    assert_eq!(last_preedit(&actions).as_deref(), Some("việ"));
}

#[test]
fn core_non_vietnamese_falls_back() {
    let mut core = EngineCore::new(default_cfg());
    let mut actions = type_keys(&mut core, "loz");
    let (_h, sp) = core.process_key_event(' ' as u32, 0, 0);
    actions.extend(sp);
    assert!(commits(&actions).iter().any(|c| c.trim() == "loz"));
}

#[test]
fn core_empty_buffer_passes_through_punctuation() {
    let mut core = EngineCore::new(default_cfg());
    let (handled, _actions) = core.process_key_event('.' as u32, 0, 0);
    assert!(!handled);
}

fn macro_core(lines: &str, cfg: Config) -> EngineCore {
    let mut cfg = cfg;
    cfg.ib_flags |= flags::IB_MACRO_ENABLED;
    EngineCore::with_data(cfg, Some(lines), None)
}

fn fixed_now() -> pinakey::mactab::LocalDateTime {
    pinakey::mactab::LocalDateTime { year: 2026, month: 7, day: 2, hour: 14, minute: 30, second: 5 }
}

fn type_keys_at(core: &mut EngineCore, s: &str) -> Vec<Action> {
    let mut all = Vec::new();
    for c in s.chars() {
        let (_handled, actions) = core.process_key_event_at(c as u32, 0, 0, fixed_now());
        all.extend(actions);
    }
    all
}

#[test]
fn macro_expands_date_with_default_format_on_word_break() {
    let mut core = macro_core("hnay : hôm nay $DATE\n", default_cfg());
    let actions = type_keys_at(&mut core, "hnay ");
    assert_eq!(commits(&actions).join(""), "hôm nay 02/07/2026 ");
}

#[test]
fn macro_uses_custom_format_and_keeps_escaped_dollar() {
    let mut cfg = default_cfg();
    cfg.macro_date_format = "ngày".to_string();
    let mut core = macro_core("hnay : hôm nay $DATE\n", cfg);
    let actions = type_keys_at(&mut core, "hnay ");
    assert_eq!(commits(&actions).join("").trim_end(), "hôm nay ngày");
    let mut cfg = default_cfg();
    cfg.ib_flags &= !flags::IB_AUTO_CAPITALIZE_MACRO;
    let mut core = macro_core("sig : $$TIME\n", cfg);
    let actions = type_keys_at(&mut core, "sig ");
    assert_eq!(commits(&actions).join("").trim_end(), "$TIME");
}

#[test]
fn macro_capital_abbreviation_gives_capital_text() {
    let mut core = macro_core("kg : không\n", default_cfg());
    let actions = type_keys_at(&mut core, "KG ");
    assert_eq!(commits(&actions).join("").trim_end(), "KHÔNG");
}

#[test]
fn tab_commits_macro_expansion() {
    let mut core = macro_core("vn : Việt Nam\n", default_cfg());
    type_keys_at(&mut core, "vn");
    let (handled, actions) = core.process_key_event_at(pinakey::keysym::KEY_TAB, 0, 0, fixed_now());
    assert!(handled);
    assert_eq!(commits(&actions), vec!["việt nam".to_string()]);
}

#[test]
fn user_word_list_accepts_words() {
    let mut c = default_cfg();
    c.ib_flags |= flags::IB_SPELL_CHECK_WITH_DICTS;
    let on = EngineCore::with_data(c, None, Some("việt\nchào\n"));
    assert!(on.accepts_word("việt"));
    assert!(on.accepts_word("CHÀO"));
    assert!(!on.accepts_word("zzqx"));
    let off = EngineCore::with_data(default_cfg(), None, Some("việt\n"));
    assert!(!off.accepts_word("việt"));
}

#[test]
fn excluded_program_matches_case_insensitively() {
    let mut c = default_cfg();
    c.english_exclude = vec!["  Code ".to_string(), String::new()];
    let mut core = EngineCore::new(c);
    assert!(!core.is_program_excluded());
    core.set_wm_class("VSCode".to_string());
    assert!(core.is_program_excluded());
    core.set_wm_class("firefox".to_string());
    assert!(!core.is_program_excluded());
}

#[test]
fn key_release_is_ignored() {
    let mut core = EngineCore::new(default_cfg());
    type_keys(&mut core, "vie");
    let (handled, actions) = core.process_key_event('t' as u32, 0, pinakey::keysym::MOD_RELEASE);
    assert!(!handled);
    assert!(actions.is_empty());
}
