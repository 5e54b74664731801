//! The key-event state machine of the input method in preedit mode: from a key event and the
//! current state to the next state and the actions the front end must perform. No I/O: files
//! are read by the caller and handed in as text.
use vstd::prelude::*;
use crate::mode;
use crate::flag;
use crate::config::{Config, flags as cfg};
use crate::engine::{
    EngineV, PinaKeyEngine, IEngine, new_engine, process_key_spec, processed_string_spec,
    remove_last_char_spec, restore_last_word_spec,
};
use crate::rules_parser::{InputMethodV, build_spec, pairs_view, build_input_method_from_pairs, is_name, chars_eq};
use crate::transform_spec::{extract_last_word_spec, rules_wf};
use crate::cvc::is_valid_spec;
use crate::mactab::{MacroTable, MacroV, has_key_spec, norm_key, expand_from, LocalDateTime, valid_datetime, map_of, macro_entries};
use crate::dict::{Dictionary, list_words};
use crate::charset::{encode, encode_spec, builtin_tables};
use crate::action::{Action, ActionV, actions_view, push_action};
use crate::keysym::{
    MOD_SHIFT, MOD_LOCK, MOD_RELEASE, KEY_TAB, KEY_BACKSPACE, KEY_RETURN, valid_state_spec, is_valid_state,
    modifier_keysym_spec, is_modifier_keysym, rune_of, rune_from_key,
};
use crate::text::{ws_trail, is_prefix, lines_spec, trim_spec, trim_chars, has_sub, contains_sub};
use crate::utils::{
    any_vietnamese_rune, any_vietnamese_vowel, is_word_break_spec, can_process_key_spec,
    has_any_vietnamese_rune_chars, has_any_vietnamese_vowel_chars, is_word_break_symbol,
};
use crate::unicode::{
    str_chars, string_from_chars, str_lowercase_of, str_uppercase_of, str_to_lowercase, str_to_uppercase,
    is_lowercase_char, is_alphanumeric_char, is_whitespace_char, char_is_lowercase, char_is_alphanumeric,
    char_is_whitespace, ascii_lower_seq, to_ascii_lowercase,
};
use crate::input_method_def::is_simple_telex;

verus! {

// ---------------------------------------------------------------------------------------------
// The model

/// Where the capitalization of a sentence start stands.
#[derive(Debug, Clone, Copy, PartialEq, Eq, Structural)]
pub enum SentenceState {
    Idle,
    /// A commit ended with `.`, `!` or `?`: waiting for a space.
    AfterPunct,
    /// A space followed the end of a sentence: the next letter is capitalized.
    ReadyToCapitalize,
}

/// What an engine core holds.
pub ghost struct CoreV {
    pub pre: EngineV,
    pub config: Config,
    pub mac: MacroV,
    pub restore: bool,
    pub last_shift: bool,
    pub wm_class: Seq<char>,
    pub dict: Option<Set<Seq<char>>>,
    pub sentence: SentenceState,
    pub armed: bool,
}

pub open spec fn ib(c: CoreV, bit: u32) -> bool {
    c.config.ib_flags & bit != 0
}

pub open spec fn with_pre(c: CoreV, e: EngineV) -> CoreV {
    CoreV { pre: e, ..c }
}

pub open spec fn processed(c: CoreV, m: u32) -> Seq<char> {
    processed_string_spec(c.pre, m)
}

pub open spec fn macro_enabled(c: CoreV) -> bool {
    ib(c, cfg::IB_MACRO_ENABLED)
}

/// Macros are on and the text typed with its punctuation is an abbreviation.
pub open spec fn macro_active(c: CoreV) -> bool {
    macro_enabled(c) && has_key_spec(c.mac, processed(c, mode::PUNCTUATION))
}

/// The engine's last word is a valid syllable.
pub open spec fn engine_valid(e: EngineV, full: bool) -> bool {
    is_valid_spec(extract_last_word_spec(e.composition, e.im.keys).1, full)
}

/// The dictionary, when it is on and loaded, has the word.
pub open spec fn dict_accepts(c: CoreV, w: Seq<char>) -> bool {
    ib(c, cfg::IB_SPELL_CHECK_WITH_DICTS) && match c.dict {
        Some(d) => w.len() > 0 && d.contains(str_lowercase_of(w)),
        None => false,
    }
}

/// The word typed so far is to be shown as its keys (it cannot be Vietnamese).
pub open spec fn should_fallback(c: CoreV, check_vn_rune: bool) -> bool {
    let vn = processed(c, mode::VIETNAMESE | mode::LOWER_CASE);
    if !ib(c, cfg::IB_AUTO_NON_VN_RESTORE) {
        false
    } else if vn.len() == 0 {
        false
    } else if macro_active(c) {
        false
    } else if ib(c, cfg::IB_DD_FREE_STYLE) && !any_vietnamese_vowel(vn) && (vn.last() == 'd' || vn.contains('đ')) {
        false
    } else if check_vn_rune && !any_vietnamese_rune(vn) {
        false
    } else {
        !engine_valid(c.pre, false)
    }
}

/// The word being committed is to be restored to its keys.
pub open spec fn must_fallback(c: CoreV) -> bool {
    let vn = processed(c, mode::VIETNAMESE | mode::LOWER_CASE);
    if !ib(c, cfg::IB_AUTO_NON_VN_RESTORE) {
        false
    } else if vn.len() == 0 {
        false
    } else if ib(c, cfg::IB_DD_FREE_STYLE) && vn.contains('đ') {
        false
    } else if dict_accepts(c, vn) {
        false
    } else {
        !engine_valid(c.pre, true)
    }
}

/// The text to commit for the shown text `old`: the keys typed when it must fall back.
pub open spec fn composed(c: CoreV, old: Seq<char>) -> Seq<char> {
    if any_vietnamese_rune(old) && must_fallback(c) {
        processed(c, mode::ENGLISH)
    } else {
        old
    }
}

/// What `String::from_utf8_lossy` gives for the bytes.
pub uninterp spec fn utf8_lossy(b: Seq<u8>) -> Seq<char>;

/// The text in the output charset, read back as UTF-8 (lossily).
pub open spec fn encode_text(c: CoreV, t: Seq<char>) -> Seq<char> {
    utf8_lossy(encode_spec(builtin_tables(), c.config.output_charset@, t))
}

/// The text of the preedit.
pub open spec fn preedit_string(c: CoreV) -> Seq<char> {
    if macro_enabled(c) {
        processed(c, mode::PUNCTUATION)
    } else if should_fallback(c, true) {
        processed(c, mode::ENGLISH)
    } else {
        processed(c, mode::VIETNAMESE)
    }
}

/// The number of keys typed.
pub open spec fn raw_key_len(c: CoreV) -> int {
    processed(c, mode::ENGLISH | mode::FULL_TEXT).len() as int
}

/// The other bracket of the same key under Caps Lock.
pub open spec fn bracket_swap(k: char) -> Option<char> {
    if k == '[' {
        Some('{')
    } else if k == ']' {
        Some('}')
    } else if k == '{' {
        Some('[')
    } else if k == '}' {
        Some(']')
    } else {
        None
    }
}

/// A key under Caps Lock: an appending bracket key becomes its other bracket.
pub open spec fn to_upper_spec(c: CoreV, k: char) -> char {
    match bracket_swap(k) {
        Some(m) => if c.pre.im.appending_keys.contains(k) { m } else { k },
        None => k,
    }
}

/// Showing a text in the preedit (hiding the preedit when it is empty).
pub open spec fn update_preedit_spec(c: CoreV, s: Seq<char>) -> Seq<ActionV> {
    let enc = encode_text(c, s);
    let n = enc.len() as u32;
    if n == 0 {
        seq![ActionV::HidePreedit, ActionV::HideAuxiliary, ActionV::CommitText(Seq::empty())]
    } else {
        seq![ActionV::UpdatePreedit { text: enc, cursor: n, underline: !ib(c, cfg::IB_NO_UNDERLINE) }]
    }
}

/// After a commit: a second space may become ". " when the commit was a word and one space.
pub open spec fn track_double_space(c: CoreV, s: Seq<char>) -> CoreV {
    if !ib(c, cfg::IB_DOUBLE_SPACE_PERIOD) {
        c
    } else {
        CoreV { armed: s.len() >= 2 && s.last() == ' ' && is_alphanumeric_char(s[s.len() - 2]), ..c }
    }
}

pub open spec fn ends_sentence(ch: char) -> bool {
    ch == '.' || ch == '!' || ch == '?'
}

/// After a commit: a sentence end followed by whitespace readies a capital letter, a sentence
/// end alone waits for whitespace, anything else resets.
pub open spec fn track_sentence(c: CoreV, s: Seq<char>) -> CoreV {
    if !ib(c, cfg::IB_CAPITALIZE_SENTENCE) {
        c
    } else {
        let j = ws_trail(s, s.len() as int);
        let saw_ws = j < s.len();
        CoreV {
            sentence: if j > 0 && ends_sentence(s[j - 1]) {
                if saw_ws { SentenceState::ReadyToCapitalize } else { SentenceState::AfterPunct }
            } else {
                SentenceState::Idle
            },
            ..c
        }
    }
}

/// Committing a non-empty text: the sentence and double-space trackers see it, and it is
/// committed in the output charset.
pub open spec fn commit_text_spec(c: CoreV, s: Seq<char>) -> (CoreV, Seq<ActionV>) {
    if s.len() == 0 {
        (c, Seq::empty())
    } else {
        (track_double_space(track_sentence(c, s), s), seq![ActionV::CommitText(encode_text(c, s))])
    }
}

pub open spec fn is_space_or_return(key_val: u32) -> bool {
    rune_of(key_val) == ' ' || key_val == KEY_RETURN
}

/// The key after the sentence tracker: a lowercase ASCII letter typed when a capital is due
/// becomes uppercase (once).
pub open spec fn sentence_capitalize_spec(c: CoreV, key_val: u32, state: u32) -> (CoreV, u32) {
    if !ib(c, cfg::IB_CAPITALIZE_SENTENCE) {
        (c, key_val)
    } else {
        match c.sentence {
            SentenceState::Idle => (c, key_val),
            SentenceState::AfterPunct => (CoreV {
                sentence: if is_space_or_return(key_val) { SentenceState::ReadyToCapitalize } else { SentenceState::Idle },
                ..c
            }, key_val),
            SentenceState::ReadyToCapitalize => if is_space_or_return(key_val) {
                (c, key_val)
            } else if 'a' <= rune_of(key_val) <= 'z' && valid_state_spec(state) {
                (CoreV { sentence: SentenceState::Idle, ..c }, (key_val - 32) as u32)
            } else {
                (CoreV { sentence: SentenceState::Idle, ..c }, key_val)
            },
        }
    }
}

/// Committing the preedit and starting a new one.
pub open spec fn commit_and_reset_spec(c: CoreV, s: Seq<char>) -> (CoreV, Seq<ActionV>) {
    let (c1, a) = commit_text_spec(c, s);
    (with_pre(c1, EngineV { composition: Seq::empty(), ..c1.pre }),
        seq![ActionV::HidePreedit, ActionV::HideAuxiliary, ActionV::HideLookupTable] + a)
}

/// Committing the preedit at a word break and starting a new one.
pub open spec fn commit_and_reset_wbs_spec(c: CoreV, s: Seq<char>, is_wbs: bool) -> (CoreV, Seq<ActionV>) {
    let (c1, a) = commit_text_spec(c, s);
    let first = if ib(c, cfg::IB_WORKAROUND_FOR_FB_MESSENGER) || is_wbs {
        a + seq![ActionV::HidePreedit]
    } else {
        seq![ActionV::HidePreedit] + a
    };
    (with_pre(c1, EngineV { composition: Seq::empty(), ..c1.pre }),
        first + seq![ActionV::HideAuxiliary, ActionV::HideLookupTable])
}

/// A key the engine takes as typing.
pub open spec fn valid_key_val(c: CoreV, key_val: u32) -> bool {
    key_val == KEY_BACKSPACE || is_word_break_spec(rune_of(key_val)) || (macro_active(c) && key_val == KEY_TAB)
        || can_process_key_spec(rune_of(key_val), c.pre.im.keys)
}

pub open spec fn printable(c: CoreV, state: u32, key_val: u32) -> bool {
    valid_state_spec(state) && valid_key_val(c, key_val)
}

/// `w` at the start of a word stays `w` (with the shortcut off there).
pub open spec fn w_suppressed(c: CoreV, k: char) -> bool {
    c.config.w_shortcut == 1 && (k == 'w' || k == 'W') && processed(c, mode::ENGLISH).len() == 0
}

pub open spec fn last_shift_spec(c: CoreV, key_val: u32, state: u32) -> CoreV {
    CoreV { last_shift: can_process_key_spec(rune_of(key_val), c.pre.im.keys) && state & MOD_SHIFT != 0, ..c }
}

pub const VN_CASE_ALL_SMALL: u8 = 1u8;
pub const VN_CASE_ALL_CAPITAL: u8 = 2u8;
pub const VN_CASE_NO_CHANGE: u8 = 3u8;

/// How an abbreviation is typed: starting lowercase, all capitals (no lowercase letter and no
/// word break after the first char), or otherwise.
pub open spec fn macro_case(s: Seq<char>) -> u8 {
    if s.len() == 0 {
        VN_CASE_NO_CHANGE
    } else if is_lowercase_char(s[0]) {
        VN_CASE_ALL_SMALL
    } else if exists|i: int| 1 <= i < s.len() && (is_lowercase_char(#[trigger] s[i]) || is_word_break_spec(s[i])) {
        VN_CASE_NO_CHANGE
    } else {
        VN_CASE_ALL_CAPITAL
    }
}

/// The text of an abbreviation with its placeholders expanded, in the case it was typed in when
/// macros are capitalized automatically.
pub open spec fn expand_macro_spec(c: CoreV, s: Seq<char>, now: LocalDateTime) -> Seq<char> {
    let k = norm_key(c.mac, s);
    let t = if c.mac.table.dom().contains(k) { c.mac.table[k] } else { Seq::empty() };
    let e = expand_from(t, now, c.config.macro_date_format@, c.config.macro_time_format@, 0);
    if ib(c, cfg::IB_AUTO_CAPITALIZE_MACRO) {
        if macro_case(s) == VN_CASE_ALL_SMALL {
            str_lowercase_of(e)
        } else if macro_case(s) == VN_CASE_ALL_CAPITAL {
            str_uppercase_of(e)
        } else {
            e
        }
    } else {
        e
    }
}

/// The expansion of the abbreviation typed, when there is one.
pub open spec fn macro_text_spec(c: CoreV, now: LocalDateTime) -> Option<Seq<char>> {
    if macro_active(c) {
        Some(expand_macro_spec(c, processed(c, mode::PUNCTUATION), now))
    } else {
        None
    }
}

pub open spec fn key_text(c: CoreV, state: u32, key_val: u32) -> Seq<char> {
    if printable(c, state, key_val) { seq![rune_of(key_val)] } else { Seq::empty() }
}

/// A key that ends a non-Vietnamese word: the word restored to its keys when it must fall back.
pub open spec fn handle_non_vn_spec(c: CoreV, key_val: u32, state: u32) -> (CoreV, Seq<char>) {
    let rune = rune_of(key_val);
    let p = printable(c, state, key_val);
    let old = preedit_string(c);
    let ks = key_text(c, state, key_val);
    if any_vietnamese_rune(old) && must_fallback(c) {
        let c1 = with_pre(c, restore_last_word_spec(c.pre, false));
        let t = processed(c1, mode::PUNCTUATION | mode::ENGLISH) + ks;
        (if p { with_pre(c1, process_key_spec(c1.pre, rune, mode::ENGLISH)) } else { c1 }, t)
    } else if p {
        (with_pre(c, process_key_spec(c.pre, rune, mode::ENGLISH)), old + ks)
    } else {
        (c, old + ks)
    }
}

/// The last UTF-8 byte of a text, read as a char.
pub open spec fn last_byte_char(s: Seq<char>) -> char {
    (vstd::utf8::encode_utf8(s).last() as u32) as char
}

/// After a break key in an appending sequence, the break char leaves the word and a space
/// takes its place.
pub open spec fn drop_break(c: CoreV, is_wbs: bool) -> CoreV {
    if is_wbs {
        with_pre(c, process_key_spec(remove_last_char_spec(c.pre, false), ' ', mode::ENGLISH))
    } else {
        c
    }
}

/// A key the input method processes: typed into the engine (in English mode when the word is
/// not Vietnamese); an appending key may also break the word.
pub open spec fn typed_key_spec(c: CoreV, key_val: u32, state: u32, old: Seq<char>) -> (CoreV, Seq<char>, bool) {
    let r0 = rune_of(key_val);
    let key_rune = if state & MOD_LOCK != 0 { to_upper_spec(c, r0) } else { r0 };
    let input_mode = if should_fallback(c, false) { mode::ENGLISH } else { mode::VIETNAMESE };
    typed_after_spec(with_pre(c, process_key_spec(c.pre, key_rune, input_mode)), key_rune, old)
}

/// What follows once a processed key is typed into the engine.
pub open spec fn typed_after_spec(c1: CoreV, key_rune: char, old: Seq<char>) -> (CoreV, Seq<char>, bool) {
    if c1.pre.im.appending_keys.contains(key_rune) {
        let new_text = if should_fallback(c1, true) { processed(c1, mode::ENGLISH) } else { processed(c1, mode::VIETNAMESE) };
        let full = processed(c1, mode::VIETNAMESE);
        if full.len() > 0 && last_byte_char(full) == key_rune {
            let ret = preedit_string(c1);
            let last_rune = if ret.len() > 0 { last_byte_char(ret) } else { '\0' };
            let is_wbs = is_word_break_spec(last_rune);
            (drop_break(c1, is_wbs), ret, is_wbs)
        } else if new_text.len() > 0 && new_text.last() == key_rune {
            let is_wbs = is_word_break_spec(key_rune);
            (drop_break(c1, is_wbs), old + seq![key_rune], is_wbs)
        } else {
            (c1, preedit_string(c1), false)
        }
    } else if macro_enabled(c1) {
        (c1, processed(c1, mode::PUNCTUATION), false)
    } else {
        (c1, preedit_string(c1), false)
    }
}

/// The text a key leads to, and whether it breaks the word (the text is then committed).
pub open spec fn commit_text_of_key(c: CoreV, key_val: u32, state: u32, now: LocalDateTime) -> (CoreV, Seq<char>, bool) {
    let r0 = rune_of(key_val);
    let p = printable(c, state, key_val);
    let old = preedit_string(c);
    let ks = key_text(c, state, key_val);
    if c.restore {
        let c1 = CoreV { restore: false, pre: restore_last_word_spec(c.pre, !any_vietnamese_rune(old)), ..c };
        (c1, preedit_string(c1), false)
    } else if p && w_suppressed(c, r0) {
        (with_pre(c, process_key_spec(c.pre, r0, mode::ENGLISH)), old + ks, false)
    } else if p && can_process_key_spec(r0, c.pre.im.keys) {
        typed_key_spec(c, key_val, state, old)
    } else if macro_enabled(c) && p && (has_key_spec(c.mac, old + ks)
        || exists|t: Seq<char>| c.mac.table.dom().contains(t) && is_prefix(norm_key(c.mac, old + ks), t)) {
        (with_pre(c, process_key_spec(c.pre, r0, mode::ENGLISH)), old + ks, false)
    } else if macro_enabled(c) && has_key_spec(c.mac, old) {
        (c, expand_macro_spec(c, old, now) + ks, true)
    } else {
        let (c1, t) = handle_non_vn_spec(c, key_val, state);
        (c1, t, true)
    }
}

/// A key event in preedit mode: whether it was handled, and the actions.
pub open spec fn preedit_key_spec(c: CoreV, key_val: u32, state: u32, now: LocalDateTime) -> (CoreV, bool, Seq<ActionV>) {
    let raw = raw_key_len(c);
    let rune = rune_of(key_val);
    let old = preedit_string(c);
    if !c.restore && !can_process_key_spec(rune, c.pre.im.keys) && raw == 0 && !macro_enabled(c) {
        (c, false, Seq::empty())
    } else if key_val == KEY_BACKSPACE {
        if preedit_string(c).len() == 1 {
            let (c1, a) = commit_and_reset_spec(c, Seq::empty());
            (c1, true, a)
        } else if raw > 0 {
            let c1 = with_pre(c, remove_last_char_spec(c.pre, true));
            (c1, true, update_preedit_spec(c1, preedit_string(c1)))
        } else {
            (c, false, Seq::empty())
        }
    } else if key_val == KEY_TAB {
        match macro_text_spec(c, now) {
            Some(m) => {
                let (c1, a) = commit_and_reset_spec(c, m);
                (c1, true, a)
            },
            None => {
                let (c1, a) = commit_and_reset_spec(c, composed(c, old));
                (c1, false, a)
            },
        }
    } else {
        let (c1, new_text, is_wbs) = commit_text_of_key(c, key_val, state, now);
        let p = printable(c1, state, key_val);
        if is_wbs {
            let (c2, a) = commit_and_reset_wbs_spec(c1, new_text, p);
            (c2, p, a)
        } else {
            (c1, p, update_preedit_spec(c1, new_text))
        }
    }
}

/// A key event: releases, lone modifiers and control-like combinations pass through untouched;
/// any other key closes the double-space window, goes through the sentence tracker and is
/// processed in preedit mode.
pub open spec fn key_event_spec(c: CoreV, key_val: u32, state: u32, now: LocalDateTime) -> (CoreV, bool, Seq<ActionV>) {
    if state & MOD_RELEASE != 0 || modifier_keysym_spec(key_val) || !valid_state_spec(state) {
        (c, false, Seq::empty())
    } else {
        let c1 = CoreV { armed: false, ..c };
        let (c2, kv) = sentence_capitalize_spec(c1, key_val, state);
        let (c3, handled, a) = preedit_key_spec(c2, kv, state, now);
        (last_shift_spec(c3, kv, state), handled, a)
    }
}


/// A key release, or a modifier key pressed alone, is never handled: it changes nothing and
/// asks the front end to do nothing.
pub proof fn lemma_release_and_modifiers_ignored(c: CoreV, key_val: u32, state: u32, now: LocalDateTime)
    requires
        state & MOD_RELEASE != 0 || modifier_keysym_spec(key_val),
    ensures
        key_event_spec(c, key_val, state, now) == (c, false, Seq::<ActionV>::empty()),
{
}

// ---------------------------------------------------------------------------------------------
// The engine core

/// `String::from_utf8_lossy`: the bytes as UTF-8, invalid sequences replaced. The result is
/// named `utf8_lossy`.
#[verifier::external_body]
pub(crate) fn lossy_utf8(b: &[u8]) -> (r: Vec<char>)
    ensures
        r@ == utf8_lossy(b@),
{
    String::from_utf8_lossy(b).chars().collect()
}

/// The input method core in preedit mode: the transformation engine, the configuration it was
/// built from, the macro table and dictionary, and the trackers of sentence starts and double
/// spaces.
pub struct EngineCore {
    pub preeditor: PinaKeyEngine,
    pub config: Config,
    pub macro_table: MacroTable,
    pub should_restore_key_strokes: bool,
    pub last_key_with_shift: bool,
    wm_class: String,
    dictionary: Option<Dictionary>,
    sentence: SentenceState,
    double_space_armed: bool,
}

impl View for EngineCore {
    type V = CoreV;

    closed spec fn view(&self) -> CoreV {
        CoreV {
            pre: self.preeditor@,
            config: self.config,
            mac: self.macro_table@,
            restore: self.should_restore_key_strokes,
            last_shift: self.last_key_with_shift,
            wm_class: self.wm_class@,
            dict: match self.dictionary {
                Some(d) => Some(d@),
                None => None,
            },
            sentence: self.sentence,
            armed: self.double_space_armed,
        }
    }
}

/// The definition pairs of the configured input method (the first definition of that name),
/// with `__Ư` appended to the line of `w` when the `w` shortcut is on and that line appends
/// nothing yet.
pub open spec fn preeditor_pairs(c: Config) -> Seq<(Seq<char>, Seq<char>)> {
    let k = first_def(c.input_method_definitions@, c.input_method@, 0);
    let pairs = if 0 <= k < c.input_method_definitions@.len() { pairs_view(c.input_method_definitions@[k].1@) } else { Seq::empty() };
    if c.w_shortcut > 0 {
        pairs.map_values(|p: (Seq<char>, Seq<char>)| w_adjust(p))
    } else {
        pairs
    }
}

/// The line of `w` with `__Ư` appended when it appends nothing yet.
pub open spec fn w_adjust(p: (Seq<char>, Seq<char>)) -> (Seq<char>, Seq<char>) {
    if p.0 == seq!['w'] && !has_double_underscore(p.1) {
        (p.0, p.1 + "__Ư"@)
    } else {
        p
    }
}

pub open spec fn has_double_underscore(s: Seq<char>) -> bool {
    exists|i: int| 0 <= i && i + 1 < s.len() && #[trigger] s[i] == '_' && s[i + 1] == '_'
}

/// Index of the first definition named `name` at or after `i`, or -1.
pub open spec fn first_def(d: Seq<(String, Vec<(String, String)>)>, name: Seq<char>, i: int) -> int
    decreases d.len() - i,
{
    if i < 0 || i >= d.len() {
        -1
    } else if d[i].0@ == name {
        i
    } else {
        first_def(d, name, i + 1)
    }
}

/// The transformation engine a configuration gives: its input method, with free tone marking
/// off for the restricted Telex.
pub open spec fn preeditor_spec(c: Config) -> EngineV {
    EngineV {
        composition: Seq::empty(),
        im: build_spec(c.input_method@, preeditor_pairs(c)),
        flags: if c.input_method@ == crate::input_method_def::SIMPLE_TELEX@ { c.flags & !flag::FREE_TONE_MARKING } else { c.flags },
        nid: 0,
    }
}

fn contains_double_underscore(s: &[char]) -> (r: bool)
    ensures
        r == has_double_underscore(s@),
{
    let mut i: usize = 0;
    while i < s.len() && i + 1 < s.len()
        invariant
            i <= s@.len(),
            forall|k: int| 0 <= k < i && k + 1 < s@.len() ==> !(#[trigger] s@[k] == '_' && s@[k + 1] == '_'),
        decreases s.len() - i,
    {
        if s[i] == '_' && s[i + 1] == '_' {
            return true;
        }
        i = i + 1;
    }
    false
}

fn build_preeditor(config: &Config) -> (e: PinaKeyEngine)
    ensures
        e@ == preeditor_spec(*config),
{
    let defs = &config.input_method_definitions;
    let want = str_chars(config.input_method.as_str());
    let mut k: usize = 0;
    let mut found = false;
    while k < defs.len()
        invariant_except_break
            k <= defs@.len(),
            !found,
            want@ == config.input_method@,
            first_def(defs@, want@, 0) == first_def(defs@, want@, k as int),
        ensures
            found ==> k < defs@.len() && first_def(defs@, want@, 0) == k,
            !found ==> first_def(defs@, want@, 0) == -1,
            want@ == config.input_method@,
        decreases defs.len() - k,
    {
        let n = str_chars(defs[k].0.as_str());
        if chars_eq(&n, &want) {
            found = true;
            break;
        }
        k = k + 1;
    }
    let ghost kk = first_def(defs@, want@, 0);
    let mut pairs: Vec<(String, String)> = Vec::new();
    let ghost src: Seq<(Seq<char>, Seq<char>)> = if found { pairs_view(defs@[k as int].1@) } else { Seq::empty() };
    if found {
        let d = &defs[k].1;
        for i in 0..d.len()
            invariant
                src == pairs_view(d@),
                pairs@.len() == i,
                pairs_view(pairs@) == (if config.w_shortcut > 0 {
                    src.take(i as int).map_values(|p: (Seq<char>, Seq<char>)| w_adjust(p))
                } else {
                    src.take(i as int)
                }),
        {
            let key = d[i].0.clone();
            let line = d[i].1.clone();
            let kc = str_chars(key.as_str());
            let lc = str_chars(line.as_str());
            let ghost o = pairs@;
            let ghost p = src[i as int];
            assert(p == (key@, line@));
            let is_w = kc.len() == 1 && kc[0] == 'w';
            assert(is_w == (p.0 == seq!['w'])) by {
                if p.0 == seq!['w'] {
                    assert(kc@.len() == 1 && kc@[0] == 'w');
                }
                if is_w {
                    assert(kc@ =~= seq!['w']);
                }
            }
            if config.w_shortcut > 0 && is_w && !contains_double_underscore(&lc) {
                let mut l2 = lc;
                let extra = str_chars("__Ư");
                crate::config::append_chars(&mut l2, &extra);
                let ls = string_from_chars(&l2);
                assert(ls@ == p.1 + "__Ư"@);
                pairs.push((key, ls));
            } else {
                pairs.push((key, line));
            }
            assert(pairs_view(pairs@).last() == if config.w_shortcut > 0 { w_adjust(p) } else { p });
            assert(pairs_view(pairs@) =~= (if config.w_shortcut > 0 {
                src.take(i + 1).map_values(|p: (Seq<char>, Seq<char>)| w_adjust(p))
            } else {
                src.take(i + 1)
            })) by {
                assert forall|j: int| 0 <= j < i implies #[trigger] pairs_view(pairs@)[j] == pairs_view(o)[j] by {
                    assert(pairs@[j] == o[j]);
                }
            }
        }
        assert(src.take(d@.len() as int) =~= src);
    } else {
        assert(pairs_view(pairs@) =~= Seq::<(Seq<char>, Seq<char>)>::empty());
    }
    let im = build_input_method_from_pairs(config.input_method.as_str(), &pairs);
    let mut flags = config.flags;
    if is_simple_telex(config.input_method.as_str()) {
        flags = flags & !flag::FREE_TONE_MARKING;
    }
    new_engine(im, flags)
}


/// The macro table of a configuration: loaded from the text of the macro file when macros are
/// on.
pub open spec fn macro_spec(c: Config, macro_text: Option<Seq<char>>) -> MacroV {
    let auto = c.ib_flags & cfg::IB_AUTO_CAPITALIZE_MACRO != 0;
    let on = c.ib_flags & cfg::IB_MACRO_ENABLED != 0;
    MacroV {
        enabled: on,
        auto_capitalize: auto,
        table: match macro_text {
            Some(t) => if on { map_of(macro_entries(lines_spec(t), auto)) } else { Map::empty() },
            None => Map::empty(),
        },
    }
}

/// The dictionary of a configuration: the words of the user's word list when dictionaries are
/// on.
pub open spec fn dict_spec(c: Config, dict_text: Option<Seq<char>>) -> Option<Set<Seq<char>>> {
    if c.ib_flags & cfg::IB_SPELL_CHECK_WITH_DICTS != 0 {
        Some(match dict_text {
            Some(t) => list_words(lines_spec(t)).to_set(),
            None => Set::empty(),
        })
    } else {
        None
    }
}

pub open spec fn opt_str_view(o: Option<&str>) -> Option<Seq<char>> {
    match o {
        Some(s) => Some(s@),
        None => None,
    }
}

fn load_macros(config: &Config, macro_text: Option<&str>) -> (m: MacroTable)
    ensures
        m@ == macro_spec(*config, opt_str_view(macro_text)),
{
    let mut mt = MacroTable::new(config.ib_flags & cfg::IB_AUTO_CAPITALIZE_MACRO != 0);
    if config.ib_flags & cfg::IB_MACRO_ENABLED != 0 {
        match macro_text {
            Some(t) => mt.load_from_str(t),
            None => {},
        }
        mt.set_enabled(true);
    }
    mt
}

fn load_dictionary(config: &Config, dict_text: Option<&str>) -> (d: Option<Dictionary>)
    ensures
        match d {
            Some(x) => dict_spec(*config, opt_str_view(dict_text)) == Some(x@),
            None => dict_spec(*config, opt_str_view(dict_text)).is_none(),
        },
{
    if config.ib_flags & cfg::IB_SPELL_CHECK_WITH_DICTS == 0 {
        return None;
    }
    match dict_text {
        Some(t) => Some(Dictionary::load_str(t)),
        None => Some(Dictionary::new()),
    }
}

impl EngineCore {
    /// An engine core for the configuration, built from the text of its macro file and of the
    /// user's word list (`None` when there is no such file).
    pub fn with_data(config: Config, macro_text: Option<&str>, dict_text: Option<&str>) -> (e: EngineCore)
        ensures
            e@ == (CoreV {
                pre: preeditor_spec(config),
                config,
                mac: macro_spec(config, opt_str_view(macro_text)),
                restore: false,
                last_shift: false,
                wm_class: Seq::empty(),
                dict: dict_spec(config, opt_str_view(dict_text)),
                sentence: SentenceState::Idle,
                armed: false,
            }),
    {
        let preeditor = build_preeditor(&config);
        let macro_table = load_macros(&config, macro_text);
        let dictionary = load_dictionary(&config, dict_text);
        EngineCore {
            preeditor,
            config,
            macro_table,
            should_restore_key_strokes: false,
            last_key_with_shift: false,
            wm_class: String::new(),
            dictionary,
            sentence: SentenceState::Idle,
            double_space_armed: false,
        }
    }

    /// An engine core for the configuration, without a macro file or user word list.
    pub fn new(config: Config) -> (e: EngineCore)
        ensures
            e@ == (CoreV {
                pre: preeditor_spec(config),
                config,
                mac: macro_spec(config, None),
                restore: false,
                last_shift: false,
                wm_class: Seq::empty(),
                dict: dict_spec(config, None),
                sentence: SentenceState::Idle,
                armed: false,
            }),
    {
        EngineCore::with_data(config, None, None)
    }

    /// Whether the next space is to become ". ".
    pub fn double_space_armed(&self) -> (r: bool)
        ensures
            r == self@.armed,
    {
        self.double_space_armed
    }

    /// The front end turned a double space into ". ": the window closes, and a capital is due
    /// when sentences are capitalized.
    pub fn double_space_consume(&mut self)
        ensures
            final(self)@ == (CoreV {
                armed: false,
                sentence: if ib(old(self)@, cfg::IB_CAPITALIZE_SENTENCE) { SentenceState::ReadyToCapitalize } else { old(self)@.sentence },
                ..old(self)@
            }),
    {
        self.double_space_armed = false;
        if self.config.ib_flags & cfg::IB_CAPITALIZE_SENTENCE != 0 {
            self.sentence = SentenceState::ReadyToCapitalize;
        }
    }

    fn dict_accepts(&self, word: &[char]) -> (r: bool)
        ensures
            r == dict_accepts(self@, word@),
    {
        if self.config.ib_flags & cfg::IB_SPELL_CHECK_WITH_DICTS == 0 {
            return false;
        }
        match &self.dictionary {
            Some(d) => d.contains(string_from_chars(word).as_str()),
            None => false,
        }
    }

    /// Whether the dictionary (when it is on and loaded) has the word.
    pub fn accepts_word(&self, word: &str) -> (r: bool)
        ensures
            r == dict_accepts(self@, word@),
    {
        self.dict_accepts(&str_chars(word))
    }

    /// Sets the program that has the focus.
    pub fn set_wm_class(&mut self, wm_class: String)
        ensures
            final(self)@ == (CoreV { wm_class: wm_class@, ..old(self)@ }),
    {
        self.wm_class = wm_class;
    }

    /// Whether the program that has the focus is one where no Vietnamese is typed: its name,
    /// in ASCII lowercase, equals or contains a non-blank entry of the exclusion list (trimmed,
    /// in ASCII lowercase).
    pub fn is_program_excluded(&self) -> (r: bool)
        ensures
            r == (self@.wm_class.len() > 0 && exists|k: int| 0 <= k < self@.config.english_exclude@.len()
                && #[trigger] excluded_by(ascii_lower_seq(self@.wm_class), self@.config.english_exclude@[k]@)),
    {
        let wc = str_chars(self.wm_class.as_str());
        if wc.len() == 0 {
            return false;
        }
        let w = to_ascii_lowercase(&wc);
        let list = &self.config.english_exclude;
        for k in 0..list.len()
            invariant
                w@ == ascii_lower_seq(self@.wm_class),
                list@ == self@.config.english_exclude@,
                forall|j: int| 0 <= j < k ==> !#[trigger] excluded_by(w@, list@[j]@),
        {
            let pc = str_chars(list[k].as_str());
            let pt = trim_chars(&pc);
            let p = to_ascii_lowercase(&pt);
            if p.len() > 0 && (chars_eq(&w, &p) || contains_sub(&w, &p)) {
                assert(excluded_by(w@, list@[k as int]@));
                return true;
            }
        }
        false
    }

    /// Whether the program that has the focus reports unreliable surrounding text (LibreOffice
    /// and OpenOffice: its name, in ASCII lowercase, contains `soffice` or `libreoffice`).
    pub fn is_surrounding_text_unreliable(&self) -> (r: bool)
        ensures
            r == (self@.wm_class.len() > 0 && (has_sub(ascii_lower_seq(self@.wm_class), "soffice"@)
                || has_sub(ascii_lower_seq(self@.wm_class), "libreoffice"@))),
    {
        let wc = str_chars(self.wm_class.as_str());
        if wc.len() == 0 {
            return false;
        }
        let w = to_ascii_lowercase(&wc);
        contains_sub(&w, &str_chars("soffice")) || contains_sub(&w, &str_chars("libreoffice"))
    }

    /// Starts a new word and forgets the context (pending capital, double-space window).
    pub fn reset_preeditor(&mut self)
        ensures
            final(self)@ == (CoreV {
                pre: EngineV { composition: Seq::empty(), ..old(self)@.pre },
                sentence: SentenceState::Idle,
                armed: false,
                ..old(self)@
            }),
    {
        self.preeditor.reset();
        self.sentence = SentenceState::Idle;
        self.double_space_armed = false;
    }

    /// Rebuilds the transformation engine from the configuration.
    pub fn rebuild_preeditor(&mut self)
        ensures
            final(self)@ == (CoreV { pre: preeditor_spec(old(self)@.config), ..old(self)@ }),
    {
        self.preeditor = build_preeditor(&self.config);
    }

    /// Reloads the macro table (when macros are on) and the dictionary from the texts of their
    /// files; the configuration is kept.
    pub fn reload_data(&mut self, macro_text: Option<&str>, dict_text: Option<&str>)
        ensures
            final(self)@ == (CoreV {
                mac: if ib(old(self)@, cfg::IB_MACRO_ENABLED) { macro_spec(old(self)@.config, opt_str_view(macro_text)) } else { old(self)@.mac },
                dict: dict_spec(old(self)@.config, opt_str_view(dict_text)),
                ..old(self)@
            }),
    {
        if self.config.ib_flags & cfg::IB_MACRO_ENABLED != 0 {
            self.macro_table = load_macros(&self.config, macro_text);
        }
        self.dictionary = load_dictionary(&self.config, dict_text);
    }
}

/// The exclusion entry, trimmed and in ASCII lowercase, is not blank and occurs in the name.
pub open spec fn excluded_by(w: Seq<char>, entry: Seq<char>) -> bool {
    let p = ascii_lower_seq(trim_spec(entry));
    p.len() > 0 && (w == p || has_sub(w, p))
}


impl EngineCore {
    fn processed(&self, m: u32) -> (r: Vec<char>)
        ensures
            r@ == processed(self@, m),
    {
        let t = self.preeditor.get_processed_string(m);
        str_chars(t.as_str())
    }

    fn macro_enabled(&self) -> (r: bool)
        ensures
            r == macro_enabled(self@),
    {
        self.config.ib_flags & cfg::IB_MACRO_ENABLED != 0
    }

    fn macro_active(&self) -> (r: bool)
        ensures
            r == macro_active(self@),
    {
        if !self.macro_enabled() {
            return false;
        }
        let t = self.preeditor.get_processed_string(mode::PUNCTUATION);
        self.macro_table.has_key(t.as_str())
    }

    fn engine_valid(&self, full: bool) -> (r: bool)
        ensures
            r == engine_valid(self@.pre, full),
    {
        self.preeditor.is_valid(full)
    }

    fn should_fallback_to_english(&self, check_vn_rune: bool) -> (r: bool)
        ensures
            r == should_fallback(self@, check_vn_rune),
    {
        if self.config.ib_flags & cfg::IB_AUTO_NON_VN_RESTORE == 0 {
            return false;
        }
        let vn = self.processed(mode::VIETNAMESE | mode::LOWER_CASE);
        if vn.len() == 0 {
            return false;
        }
        if self.macro_active() {
            return false;
        }
        if self.config.ib_flags & cfg::IB_DD_FREE_STYLE != 0 && !has_any_vietnamese_vowel_chars(&vn)
            && (vn[vn.len() - 1] == 'd' || crate::utils::in_key_list(&vn, 'đ')) {
            return false;
        }
        if check_vn_rune && !has_any_vietnamese_rune_chars(&vn) {
            return false;
        }
        !self.engine_valid(false)
    }

    fn must_fallback_to_english(&self) -> (r: bool)
        ensures
            r == must_fallback(self@),
    {
        if self.config.ib_flags & cfg::IB_AUTO_NON_VN_RESTORE == 0 {
            return false;
        }
        let vn = self.processed(mode::VIETNAMESE | mode::LOWER_CASE);
        if vn.len() == 0 {
            return false;
        }
        if self.config.ib_flags & cfg::IB_DD_FREE_STYLE != 0 && crate::utils::in_key_list(&vn, 'đ') {
            return false;
        }
        if self.dict_accepts(&vn) {
            return false;
        }
        !self.engine_valid(true)
    }

    fn get_composed_string(&self, old_text: &[char]) -> (r: Vec<char>)
        ensures
            r@ == composed(self@, old_text@),
    {
        if has_any_vietnamese_rune_chars(old_text) && self.must_fallback_to_english() {
            self.processed(mode::ENGLISH)
        } else {
            let mut r: Vec<char> = Vec::new();
            crate::config::append_chars(&mut r, old_text);
            r
        }
    }

    fn encode_text(&self, text: &[char]) -> (r: Vec<char>)
        ensures
            r@ == encode_text(self@, text@),
    {
        let t = string_from_chars(text);
        let bytes = encode(self.config.output_charset.as_str(), t.as_str());
        lossy_utf8(&bytes)
    }

    fn get_preedit_string(&self) -> (r: Vec<char>)
        ensures
            r@ == preedit_string(self@),
    {
        if self.macro_enabled() {
            return self.processed(mode::PUNCTUATION);
        }
        if self.should_fallback_to_english(true) {
            return self.processed(mode::ENGLISH);
        }
        self.processed(mode::VIETNAMESE)
    }

    fn get_raw_key_len(&self) -> (r: usize)
        ensures
            r == raw_key_len(self@),
    {
        self.processed(mode::ENGLISH | mode::FULL_TEXT).len()
    }

    fn to_upper(&self, key_rune: char) -> (r: char)
        ensures
            r == to_upper_spec(self@, key_rune),
    {
        let mapped = if key_rune == '[' {
            Some('{')
        } else if key_rune == ']' {
            Some('}')
        } else if key_rune == '{' {
            Some('[')
        } else if key_rune == '}' {
            Some(']')
        } else {
            None
        };
        match mapped {
            Some(m) => {
                let im = self.preeditor.get_input_method();
                if crate::utils::in_key_list(&im.appending_keys, key_rune) {
                    m
                } else {
                    key_rune
                }
            },
            None => key_rune,
        }
    }

    fn update_preedit(&self, processed_str: &[char], out: &mut Vec<Action>)
        ensures
            actions_view(final(out)@) == actions_view(old(out)@) + update_preedit_spec(self@, processed_str@),
    {
        let encoded = self.encode_text(processed_str);
        let preedit_len = encoded.len() as u32;
        let ghost o = actions_view(out@);
        if preedit_len == 0 {
            push_action(out, Action::HidePreedit);
            push_action(out, Action::HideAuxiliary);
            push_action(out, Action::CommitText(String::new()));
            assert(actions_view(out@) =~= o + update_preedit_spec(self@, processed_str@));
            return;
        }
        let underline = self.config.ib_flags & cfg::IB_NO_UNDERLINE == 0;
        push_action(out, Action::UpdatePreedit { text: string_from_chars(&encoded), cursor: preedit_len, underline });
        assert(actions_view(out@) =~= o + update_preedit_spec(self@, processed_str@));
    }

    fn track_double_space_commit(&mut self, s: &[char])
        ensures
            final(self)@ == track_double_space(old(self)@, s@),
    {
        if self.config.ib_flags & cfg::IB_DOUBLE_SPACE_PERIOD == 0 {
            return;
        }
        self.double_space_armed = s.len() >= 2 && s[s.len() - 1] == ' ' && char_is_alphanumeric(s[s.len() - 2]);
    }

    fn track_sentence_commit(&mut self, s: &[char])
        ensures
            final(self)@ == track_sentence(old(self)@, s@),
    {
        if self.config.ib_flags & cfg::IB_CAPITALIZE_SENTENCE == 0 {
            return;
        }
        let mut j = s.len();
        while j > 0 && char_is_whitespace(s[j - 1])
            invariant
                j <= s@.len(),
                ws_trail(s@, s@.len() as int) == ws_trail(s@, j as int),
            decreases j,
        {
            j = j - 1;
        }
        let saw_ws = j < s.len();
        self.sentence = if j > 0 && (s[j - 1] == '.' || s[j - 1] == '!' || s[j - 1] == '?') {
            if saw_ws {
                SentenceState::ReadyToCapitalize
            } else {
                SentenceState::AfterPunct
            }
        } else {
            SentenceState::Idle
        };
    }

    fn commit_text(&mut self, s: &[char], out: &mut Vec<Action>)
        ensures
            final(self)@ == commit_text_spec(old(self)@, s@).0,
            actions_view(final(out)@) == actions_view(old(out)@) + commit_text_spec(old(self)@, s@).1,
    {
        if s.len() == 0 {
            assert(actions_view(out@) =~= actions_view(out@) + Seq::<ActionV>::empty());
            return;
        }
        let enc = self.encode_text(s);
        self.track_sentence_commit(s);
        self.track_double_space_commit(s);
        let ghost o = actions_view(out@);
        push_action(out, Action::CommitText(string_from_chars(&enc)));
        assert(actions_view(out@) =~= o + commit_text_spec(old(self)@, s@).1);
    }

    fn apply_sentence_capitalize(&mut self, key_val: u32, state: u32) -> (r: u32)
        ensures
            (final(self)@, r) == sentence_capitalize_spec(old(self)@, key_val, state),
    {
        if self.config.ib_flags & cfg::IB_CAPITALIZE_SENTENCE == 0 {
            return key_val;
        }
        let key_rune = rune_from_key(key_val);
        match self.sentence {
            SentenceState::Idle => {},
            SentenceState::AfterPunct => {
                self.sentence = if key_rune == ' ' || key_val == KEY_RETURN {
                    SentenceState::ReadyToCapitalize
                } else {
                    SentenceState::Idle
                };
            },
            SentenceState::ReadyToCapitalize => {
                if key_rune == ' ' || key_val == KEY_RETURN {
                } else if 'a' <= key_rune && key_rune <= 'z' && is_valid_state(state) {
                    self.sentence = SentenceState::Idle;
                    return key_val - 32;
                } else {
                    self.sentence = SentenceState::Idle;
                }
            },
        }
        key_val
    }

    fn commit_preedit_and_reset(&mut self, s: &[char], out: &mut Vec<Action>)
        ensures
            final(self)@ == commit_and_reset_spec(old(self)@, s@).0,
            actions_view(final(out)@) == actions_view(old(out)@) + commit_and_reset_spec(old(self)@, s@).1,
    {
        let ghost o = actions_view(out@);
        push_action(out, Action::HidePreedit);
        push_action(out, Action::HideAuxiliary);
        push_action(out, Action::HideLookupTable);
        let ghost o2 = actions_view(out@);
        self.commit_text(s, out);
        self.preeditor.reset();
        assert(actions_view(out@) =~= o + commit_and_reset_spec(old(self)@, s@).1);
    }

    fn commit_preedit_and_reset_for_wbs(&mut self, s: &[char], is_wbs: bool, out: &mut Vec<Action>)
        ensures
            final(self)@ == commit_and_reset_wbs_spec(old(self)@, s@, is_wbs).0,
            actions_view(final(out)@) == actions_view(old(out)@) + commit_and_reset_wbs_spec(old(self)@, s@, is_wbs).1,
    {
        let ghost o = actions_view(out@);
        if self.config.ib_flags & cfg::IB_WORKAROUND_FOR_FB_MESSENGER != 0 || is_wbs {
            self.commit_text(s, out);
            push_action(out, Action::HidePreedit);
        } else {
            push_action(out, Action::HidePreedit);
            self.commit_text(s, out);
        }
        push_action(out, Action::HideAuxiliary);
        push_action(out, Action::HideLookupTable);
        self.preeditor.reset();
        assert(actions_view(out@) =~= o + commit_and_reset_wbs_spec(old(self)@, s@, is_wbs).1);
    }

    fn is_valid_key_val(&self, key_val: u32) -> (r: bool)
        ensures
            r == valid_key_val(self@, key_val),
    {
        let key_rune = rune_from_key(key_val);
        if key_val == KEY_BACKSPACE || is_word_break_symbol(key_rune) {
            return true;
        }
        if self.macro_active() && key_val == KEY_TAB {
            return true;
        }
        self.preeditor.can_process_key(key_rune)
    }

    fn is_printable_key(&self, state: u32, key_val: u32) -> (r: bool)
        ensures
            r == printable(self@, state, key_val),
    {
        is_valid_state(state) && self.is_valid_key_val(key_val)
    }

    fn w_suppressed(&self, key_rune: char) -> (r: bool)
        ensures
            r == w_suppressed(self@, key_rune),
    {
        self.config.w_shortcut == 1 && (key_rune == 'w' || key_rune == 'W') && self.processed(mode::ENGLISH).len() == 0
    }

    fn update_last_key_with_shift(&mut self, key_val: u32, state: u32)
        ensures
            final(self)@ == last_shift_spec(old(self)@, key_val, state),
    {
        let key_rune = rune_from_key(key_val);
        if self.preeditor.can_process_key(key_rune) {
            self.last_key_with_shift = state & MOD_SHIFT != 0;
        } else {
            self.last_key_with_shift = false;
        }
    }
}


/// How an abbreviation was typed (see `macro_case`).
pub fn determine_macro_case(s: &[char]) -> (r: u8)
    ensures
        r == macro_case(s@),
{
    if s.len() == 0 {
        return VN_CASE_NO_CHANGE;
    }
    if char_is_lowercase(s[0]) {
        return VN_CASE_ALL_SMALL;
    }
    for i in 1..s.len()
        invariant
            s@.len() > 0,
            !is_lowercase_char(s@[0]),
            forall|k: int| 1 <= k < i ==> !(is_lowercase_char(#[trigger] s@[k]) || is_word_break_spec(s@[k])),
    {
        if char_is_lowercase(s[i]) {
            return VN_CASE_NO_CHANGE;
        }
        if is_word_break_symbol(s[i]) {
            return VN_CASE_NO_CHANGE;
        }
    }
    VN_CASE_ALL_CAPITAL
}

impl EngineCore {
    fn expand_macro(&self, s: &[char], now: LocalDateTime) -> (r: Vec<char>)
        requires
            valid_datetime(now),
        ensures
            r@ == expand_macro_spec(self@, s@, now),
    {
        let key = string_from_chars(s);
        let macro_text = self.macro_table.get_text(key.as_str());
        let expanded = crate::mactab::expand_placeholders(macro_text.as_str(), now,
            self.config.macro_date_format.as_str(), self.config.macro_time_format.as_str());
        let e = str_chars(expanded.as_str());
        if self.config.ib_flags & cfg::IB_AUTO_CAPITALIZE_MACRO != 0 {
            let case = determine_macro_case(s);
            if case == VN_CASE_ALL_SMALL {
                return str_to_lowercase(&e);
            }
            if case == VN_CASE_ALL_CAPITAL {
                return str_to_uppercase(&e);
            }
        }
        e
    }

    fn get_macro_text(&self, now: LocalDateTime) -> (r: Option<Vec<char>>)
        requires
            valid_datetime(now),
        ensures
            match r {
                Some(t) => macro_text_spec(self@, now) == Some(t@),
                None => macro_text_spec(self@, now).is_none(),
            },
    {
        if !self.macro_enabled() {
            return None;
        }
        let text = self.processed(mode::PUNCTUATION);
        let ts = string_from_chars(&text);
        if self.macro_table.has_key(ts.as_str()) {
            Some(self.expand_macro(&text, now))
        } else {
            None
        }
    }

    fn handle_non_vn_word(&mut self, key_val: u32, state: u32) -> (r: Vec<char>)
        ensures
            (final(self)@, r@) == handle_non_vn_spec(old(self)@, key_val, state),
    {
        let key_rune = rune_from_key(key_val);
        let is_printable = self.is_printable_key(state, key_val);
        let old_text = self.get_preedit_string();
        let mut key_s: Vec<char> = Vec::new();
        if is_printable {
            key_s.push(key_rune);
        }
        assert(key_s@ =~= key_text(old(self)@, state, key_val));
        if has_any_vietnamese_rune_chars(&old_text) && self.must_fallback_to_english() {
            self.preeditor.restore_last_word(false);
            let mut new_text = self.processed(mode::PUNCTUATION | mode::ENGLISH);
            crate::config::append_chars(&mut new_text, &key_s);
            if is_printable {
                self.preeditor.process_key(key_rune, mode::ENGLISH);
            }
            return new_text;
        }
        if is_printable {
            self.preeditor.process_key(key_rune, mode::ENGLISH);
        }
        let mut r = old_text;
        crate::config::append_chars(&mut r, &key_s);
        r
    }

    fn last_byte_char(s: &[char]) -> (r: char)
        requires
            s@.len() > 0,
        ensures
            r == last_byte_char(s@),
    {
        let t = string_from_chars(s);
        let b = t.as_str().as_bytes();
        proof {
            vstd::utf8::encode_utf8_first_scalar(s@);
            lemma_encode_nonempty(s@);
        }
        b[b.len() - 1] as char
    }

    fn drop_break(&mut self, is_wbs: bool)
        ensures
            final(self)@ == drop_break(old(self)@, is_wbs),
    {
        if is_wbs {
            self.preeditor.remove_last_char(false);
            self.preeditor.process_key(' ', mode::ENGLISH);
        }
    }

    fn typed_key(&mut self, key_val: u32, state: u32, old_text: Vec<char>) -> (r: (Vec<char>, bool))
        ensures
            (final(self)@, r.0@, r.1) == typed_key_spec(old(self)@, key_val, state, old_text@),
    {
        let mut key_rune = rune_from_key(key_val);
        if state & MOD_LOCK != 0 {
            key_rune = self.to_upper(key_rune);
        }
        let input_mode = if self.should_fallback_to_english(false) { mode::ENGLISH } else { mode::VIETNAMESE };
        self.preeditor.process_key(key_rune, input_mode);
        self.typed_after(key_rune, old_text)
    }

    fn typed_after(&mut self, key_rune: char, old_text: Vec<char>) -> (r: (Vec<char>, bool))
        ensures
            (final(self)@, r.0@, r.1) == typed_after_spec(old(self)@, key_rune, old_text@),
    {
        let is_appending = {
            let im = self.preeditor.get_input_method();
            crate::utils::in_key_list(&im.appending_keys, key_rune)
        };
        if is_appending {
            let new_text = if self.should_fallback_to_english(true) {
                self.processed(mode::ENGLISH)
            } else {
                self.processed(mode::VIETNAMESE)
            };
            let full_seq = self.processed(mode::VIETNAMESE);
            if full_seq.len() > 0 && EngineCore::last_byte_char(&full_seq) == key_rune {
                let ret = self.get_preedit_string();
                let last_rune = if ret.len() > 0 { EngineCore::last_byte_char(&ret) } else { '\0' };
                let is_wbs = is_word_break_symbol(last_rune);
                self.drop_break(is_wbs);
                return (ret, is_wbs);
            } else if new_text.len() > 0 && new_text[new_text.len() - 1] == key_rune {
                let is_wbs = is_word_break_symbol(key_rune);
                self.drop_break(is_wbs);
                let mut r = old_text;
                r.push(key_rune);
                return (r, is_wbs);
            } else {
                return (self.get_preedit_string(), false);
            }
        } else if self.macro_enabled() {
            return (self.processed(mode::PUNCTUATION), false);
        } else {
            return (self.get_preedit_string(), false);
        }
    }

    fn get_commit_text(&mut self, key_val: u32, state: u32, now: LocalDateTime) -> (r: (Vec<char>, bool))
        requires
            valid_datetime(now),
        ensures
            (final(self)@, r.0@, r.1) == commit_text_of_key(old(self)@, key_val, state, now),
    {
        let key_rune = rune_from_key(key_val);
        let is_printable = self.is_printable_key(state, key_val);
        let old_text = self.get_preedit_string();
        if self.should_restore_key_strokes {
            self.should_restore_key_strokes = false;
            self.preeditor.restore_last_word(!has_any_vietnamese_rune_chars(&old_text));
            return (self.get_preedit_string(), false);
        }
        let mut key_s: Vec<char> = Vec::new();
        if is_printable {
            key_s.push(key_rune);
        }
        assert(key_s@ =~= key_text(old(self)@, state, key_val));
        if is_printable && self.w_suppressed(key_rune) {
            self.preeditor.process_key(key_rune, mode::ENGLISH);
            let mut r = old_text;
            crate::config::append_chars(&mut r, &key_s);
            return (r, false);
        }
        if is_printable && self.preeditor.can_process_key(key_rune) {
            return self.typed_key(key_val, state, old_text);
        }
        if self.macro_enabled() {
            let mut typed = old_text.clone();
            crate::config::append_chars(&mut typed, &key_s);
            let typed_s = string_from_chars(&typed);
            if is_printable && self.macro_table.has_prefix(typed_s.as_str()) {
                self.preeditor.process_key(key_rune, mode::ENGLISH);
                return (typed, false);
            }
            let old_s = string_from_chars(&old_text);
            if self.macro_table.has_key(old_s.as_str()) {
                let mut r = self.expand_macro(&old_text, now);
                crate::config::append_chars(&mut r, &key_s);
                return (r, true);
            }
        }
        let t = self.handle_non_vn_word(key_val, state);
        (t, true)
    }

    fn preedit_process_key_event(&mut self, key_val: u32, state: u32, now: LocalDateTime, out: &mut Vec<Action>) -> (handled: bool)
        requires
            valid_datetime(now),
        ensures
            (final(self)@, handled, actions_view(final(out)@)) == ({
                let r = preedit_key_spec(old(self)@, key_val, state, now);
                (r.0, r.1, actions_view(old(out)@) + r.2)
            }),
    {
        let raw_key_len = self.get_raw_key_len();
        let key_rune = rune_from_key(key_val);
        let old_text = self.get_preedit_string();
        let ghost o = actions_view(out@);
        if !self.should_restore_key_strokes && !self.preeditor.can_process_key(key_rune) && raw_key_len == 0
            && !self.macro_enabled() {
            assert(actions_view(out@) =~= o + Seq::<ActionV>::empty());
            return false;
        }
        if key_val == KEY_BACKSPACE {
            if old_text.len() == 1 {
                let empty: Vec<char> = Vec::new();
                self.commit_preedit_and_reset(&empty, out);
                return true;
            }
            if raw_key_len > 0 {
                self.preeditor.remove_last_char(true);
                let s = self.get_preedit_string();
                self.update_preedit(&s, out);
                return true;
            }
            assert(actions_view(out@) =~= o + Seq::<ActionV>::empty());
            return false;
        }
        if key_val == KEY_TAB {
            match self.get_macro_text(now) {
                Some(mac_text) => {
                    self.commit_preedit_and_reset(&mac_text, out);
                    return true;
                },
                None => {
                    let composed = self.get_composed_string(&old_text);
                    self.commit_preedit_and_reset(&composed, out);
                    return false;
                },
            }
        }
        let (new_text, is_word_break_rune) = self.get_commit_text(key_val, state, now);
        let is_printable_key = self.is_printable_key(state, key_val);
        if is_word_break_rune {
            self.commit_preedit_and_reset_for_wbs(&new_text, is_printable_key, out);
            return is_printable_key;
        }
        self.update_preedit(&new_text, out);
        is_printable_key
    }

    /// A key event at the given local date and time (used by `$DATE` and `$TIME` in macros):
    /// whether it was handled, and the actions for the front end (see `key_event_spec`).
    pub fn process_key_event_at(&mut self, key_val: u32, key_code: u32, state: u32, now: LocalDateTime) -> (r: (bool, Vec<Action>))
        requires
            valid_datetime(now),
        ensures
            (final(self)@, r.0, actions_view(r.1@)) == key_event_spec(old(self)@, key_val, state, now),
    {
        let mut out: Vec<Action> = Vec::new();
        assert(actions_view(out@) =~= Seq::<ActionV>::empty());
        if state & MOD_RELEASE != 0 {
            return (false, out);
        }
        if is_modifier_keysym(key_val) {
            return (false, out);
        }
        if !is_valid_state(state) {
            return (false, out);
        }
        self.double_space_armed = false;
        let key_val = self.apply_sentence_capitalize(key_val, state);
        let result = self.preedit_process_key_event(key_val, state, now, &mut out);
        self.update_last_key_with_shift(key_val, state);
        assert(actions_view(out@) =~= Seq::<ActionV>::empty() + actions_view(out@));
        (result, out)
    }

    /// A key event (key symbol, key code, modifier state) at the current local time: whether it
    /// was handled, and the actions for the front end.
    pub fn process_key_event(&mut self, key_val: u32, key_code: u32, state: u32) -> (r: (bool, Vec<Action>))
        ensures
            exists|now: LocalDateTime| valid_datetime(now)
                && (final(self)@, r.0, actions_view(r.1@)) == #[trigger] key_event_spec(old(self)@, key_val, state, now),
    {
        let now = crate::mactab::local_now();
        self.process_key_event_at(key_val, key_code, state, now)
    }
}

proof fn lemma_encode_nonempty(s: Seq<char>)
    requires
        s.len() > 0,
    ensures
        vstd::utf8::encode_utf8(s).len() > 0,
{
    vstd::utf8::encode_utf8_first_scalar(s);
}

} // verus!
