//! What the transformation algorithm computes, stated over the meaning of compositions.
use vstd::prelude::*;
use crate::mode;
use crate::flag;
use crate::rules::{EffectType, Tone, RuleHead, RuleV, TransV, Rule, tone_of, plain_rule};
use crate::flattener::{canvas, comp_wf};
use crate::cvc::{cvc, appending_of, has_valid_tone_spec, is_valid_spec};
use crate::utils::{is_vowel_spec, tone_from_char_spec, is_alpha_spec};
use crate::unicode::{lowercase_single, is_uppercase_char};
use crate::regex_call::regex_matches;

verus! {

/// The identity given to transformations that only serve a check and never enter a composition.
pub open spec fn temp_id() -> u64 {
    0
}

/// The identity after `n` (wrapping).
pub open spec fn next_id(n: u64) -> u64 {
    if n == u64::MAX {
        0
    } else {
        (n + 1) as u64
    }
}

pub open spec fn mk(rule: RuleV, target: Option<u64>, upper: bool, id: u64) -> TransV {
    TransV { rule, target, is_upper_case: upper, id }
}

pub open spec fn rules_view(rs: Seq<Rule>) -> Seq<RuleV> {
    rs.map_values(|r: Rule| r@)
}

pub open spec fn rule_wf(r: RuleV) -> bool {
    &&& r.head.effect <= 5
    &&& forall|k: int| 0 <= k < r.appended.len() ==> (#[trigger] r.appended[k]).effect <= 5
}

pub open spec fn rules_wf(rs: Seq<RuleV>) -> bool {
    forall|j: int| 0 <= j < rs.len() ==> rule_wf(#[trigger] rs[j])
}

pub open spec fn head_with(key: char, et: EffectType, effect: u8) -> RuleHead {
    RuleHead { key, effect, effect_type: et, effect_on: '\0', result: '\0' }
}

pub open spec fn appending_rule(key: char) -> RuleV {
    plain_rule(RuleHead { key, effect: 0, effect_type: EffectType::Appending, effect_on: key, result: key })
}

pub open spec fn new_appending_spec(key: char, upper: bool, id: u64) -> TransV {
    mk(appending_rule(key), None, upper, id)
}

/// `r` with a virtual key.
pub open spec fn virtual_rule(r: RuleV) -> RuleV {
    RuleV { head: RuleHead { key: '\0', ..r.head }, ..r }
}

/// Index of the last appending transformation of `c`, or -1.
pub open spec fn last_appending_index(c: Seq<TransV>) -> int
    decreases c.len(),
{
    if c.len() == 0 {
        -1
    } else if c.last().rule.head.effect_type == EffectType::Appending {
        c.len() - 1
    } else {
        last_appending_index(c.drop_last())
    }
}

/// Index of the last tone transformation of `c` that has a target, or -1.
pub open spec fn last_tone_target_index(c: Seq<TransV>) -> int
    decreases c.len(),
{
    if c.len() == 0 {
        -1
    } else if c.last().rule.head.effect_type == EffectType::ToneTransformation && c.last().target is Some {
        c.len() - 1
    } else {
        last_tone_target_index(c.drop_last())
    }
}

/// Index of the first transformation of `c` with identity `id`, or -1.
pub open spec fn index_by_id(c: Seq<TransV>, id: u64) -> int
    decreases c.len(),
{
    if c.len() == 0 {
        -1
    } else if index_by_id(c.drop_last(), id) >= 0 {
        index_by_id(c.drop_last(), id)
    } else if c.last().id == id {
        c.len() - 1
    } else {
        -1
    }
}

/// Following targets from `t` (at most `fuel` steps) to a transformation without a target; a
/// target that is not in `c` is taken as the root.
pub open spec fn root_from(c: Seq<TransV>, t: TransV, fuel: nat) -> u64
    decreases fuel,
{
    if fuel == 0 {
        t.id
    } else {
        match t.target {
            None => t.id,
            Some(tid) => {
                let j = index_by_id(c, tid);
                if 0 <= j < c.len() {
                    root_from(c, c[j], (fuel - 1) as nat)
                } else {
                    tid
                }
            },
        }
    }
}

pub open spec fn root_id(c: Seq<TransV>, i: int) -> u64 {
    root_from(c, c[i], c.len())
}

/// Index of the first appending rule for `key` at or after `j`, or -1.
pub open spec fn appending_rule_index(rules: Seq<RuleV>, key: char, j: int) -> int
    decreases rules.len() - j,
{
    if j >= rules.len() || j < 0 {
        -1
    } else if rules[j].head.key == key && rules[j].head.effect_type == EffectType::Appending {
        j
    } else {
        appending_rule_index(rules, key, j + 1)
    }
}

pub open spec fn gen_appending_spec(rules: Seq<RuleV>, key: char, upper: bool, id: u64) -> TransV {
    let j = appending_rule_index(rules, key, 0);
    if 0 <= j < rules.len() {
        let r = rules[j];
        let eo = lowercase_single(r.head.effect_on);
        mk(RuleV { head: RuleHead { effect_on: eo, result: eo, ..r.head }, appended: r.appended },
            None, upper || is_uppercase_char(r.head.effect_on), id)
    } else {
        new_appending_spec(key, upper, id)
    }
}

/// With the std style: the last vowel transformation whose result is ơ or ê, by its target (or
/// itself when it has none).
pub open spec fn std_style_target(vo: Seq<TransV>) -> Option<u64>
    decreases vo.len(),
{
    if vo.len() == 0 {
        None
    } else if vo.last().rule.head.result == 'ơ' || vo.last().rule.head.result == 'ê' {
        match vo.last().target {
            Some(t) => Some(t),
            None => Some(vo.last().id),
        }
    } else {
        std_style_target(vo.drop_last())
    }
}

pub open spec fn bare_mode() -> u32 {
    mode::ENGLISH | mode::LOWER_CASE | mode::TONE_LESS | mode::MARK_LESS
}

/// The vowel that carries the tone of a syllable.
pub open spec fn find_tone_target_spec(c: Seq<TransV>, std_style: bool) -> Option<u64> {
    if c.len() == 0 {
        None
    } else {
        let (_, vo, lc) = cvc(c);
        let vowels = appending_of(vo);
        if vowels.len() == 1 {
            Some(vowels[0].id)
        } else if vowels.len() == 2 && std_style {
            match std_style_target(vo) {
                Some(t) => Some(t),
                None => Some(if lc.len() > 0 { vowels[1].id } else { vowels[0].id }),
            }
        } else if vowels.len() == 2 {
            if lc.len() > 0 {
                Some(vowels[1].id)
            } else {
                let s = canvas(vowels, bare_mode());
                if s == seq!['o', 'a'] || s == seq!['o', 'e'] || s == seq!['u', 'y'] || s == seq!['u', 'e']
                    || s == seq!['u', 'o'] {
                    Some(vowels[1].id)
                } else {
                    Some(vowels[0].id)
                }
            }
        } else if vowels.len() == 3 {
            let s = canvas(vowels, bare_mode());
            if s == seq!['u', 'y', 'e'] {
                Some(vowels[2].id)
            } else {
                Some(vowels[1].id)
            }
        } else {
            None
        }
    }
}

/// Where the tone of a syllable goes. A lone vowel carries it. Of two vowels, the second
/// carries it when a last consonant follows ("toán") or the pair is oa, oe, uy, ue or uo ("hoà",
/// "thuý"), else the first ("mái"); this is for the tone style that is not the standard one.
/// Of three vowels, whichever the style, the middle one carries it ("ngoài", "người", "khuỷu"),
/// except after "uye", where the last does ("khuyến").
pub proof fn lemma_tone_target_placement(c: Seq<TransV>, std_style: bool)
    requires
        c.len() > 0,
    ensures
        ({
            let vo = appending_of(cvc(c).1);
            let s = canvas(vo, bare_mode());
            &&& vo.len() == 1 ==> find_tone_target_spec(c, std_style) == Some(vo[0].id)
            &&& vo.len() == 2 && !std_style ==> find_tone_target_spec(c, std_style) == Some(
                if cvc(c).2.len() > 0 || s == seq!['o', 'a'] || s == seq!['o', 'e'] || s == seq!['u', 'y']
                    || s == seq!['u', 'e'] || s == seq!['u', 'o'] { vo[1].id } else { vo[0].id })
            &&& vo.len() == 3 && s != seq!['u', 'y', 'e'] ==> find_tone_target_spec(c, std_style) == Some(vo[1].id)
            &&& vo.len() == 3 && s == seq!['u', 'y', 'e'] ==> find_tone_target_spec(c, std_style) == Some(vo[2].id)
            &&& vo.len() == 0 || vo.len() > 3 ==> find_tone_target_spec(c, std_style) is None
        }),
{
}

/// No transformation of `c` has this target and effect type.
pub open spec fn is_free_spec(c: Seq<TransV>, target: Option<u64>, et: EffectType) -> bool {
    forall|i: int| 0 <= i < c.len() ==> !((#[trigger] c[i]).target == target && c[i].rule.head.effect_type == et)
}

/// Where a tone rule would go.
pub open spec fn tone_rule_target(c: Seq<TransV>, r: RuleV, flags: u32) -> Option<u64> {
    if flags & flag::FREE_TONE_MARKING != 0 {
        if has_valid_tone_spec(c, tone_of(r.head.effect)) {
            find_tone_target_spec(c, flags & flag::STD_TONE_STYLE != 0)
        } else {
            None
        }
    } else {
        let la = last_appending_index(c);
        if la >= 0 && is_vowel_spec(c[la].rule.head.effect_on) {
            Some(c[la].id)
        } else {
            None
        }
    }
}

/// Removing a tone from a target that carries no tone is pointless.
pub open spec fn should_nil(c: Seq<TransV>, target: Option<u64>) -> bool {
    match target {
        Some(t) => {
            let k = index_by_id(c, t);
            0 <= k < c.len() && tone_from_char_spec(c[k].rule.head.result) == Tone::NoTone
        },
        None => false,
    }
}

/// Scans the mark rules for transformation `pos` of `c`.
pub open spec fn mark_rule_scan(c: Seq<TransV>, rules: Seq<RuleV>, pos: int, j: int, s: Seq<char>) -> Option<(u64, RuleV)>
    decreases rules.len() - j,
{
    if j >= rules.len() || j < 0 {
        None
    } else {
        let r = rules[j];
        if r.head.effect_type == EffectType::MarkTransformation && c[pos].rule.head.result == r.head.effect_on
            && r.head.effect > 0 {
            let tg = root_id(c, pos);
            let temp = mk(r, Some(tg), false, temp_id());
            if s == canvas(c.push(temp), mode::VIETNAMESE) {
                mark_rule_scan(c, rules, pos, j + 1, s)
            } else if is_valid_spec(c.push(temp), false) {
                Some((tg, r))
            } else {
                mark_rule_scan(c, rules, pos, j + 1, s)
            }
        } else {
            mark_rule_scan(c, rules, pos, j + 1, s)
        }
    }
}

/// Scans positions `k - 1` down to 0 for a mark rule that changes the rendering and keeps the
/// syllable valid.
pub open spec fn mark_pos_scan(c: Seq<TransV>, rules: Seq<RuleV>, k: int, s: Seq<char>) -> Option<(u64, RuleV)>
    decreases k,
{
    if k <= 0 {
        None
    } else {
        match mark_rule_scan(c, rules, k - 1, 0, s) {
            Some(x) => Some(x),
            None => mark_pos_scan(c, rules, k - 1, s),
        }
    }
}

pub open spec fn default_rule() -> RuleV {
    plain_rule(head_with('\0', EffectType::Appending, 0))
}

pub open spec fn find_mark_target_spec(c: Seq<TransV>, rules: Seq<RuleV>) -> (Option<u64>, RuleV) {
    match mark_pos_scan(c, rules, c.len() as int, canvas(c, mode::VIETNAMESE)) {
        Some((t, r)) => (Some(t), r),
        None => (None, default_rule()),
    }
}

/// Scans the tone rules from `j`; when none changes the rendering, falls back to the marks.
pub open spec fn tone_scan(c: Seq<TransV>, rules: Seq<RuleV>, flags: u32, j: int, s: Seq<char>) -> (Option<u64>, RuleV)
    decreases rules.len() - j,
{
    if j >= rules.len() || j < 0 {
        find_mark_target_spec(c, rules)
    } else {
        let r = rules[j];
        if r.head.effect_type != EffectType::ToneTransformation {
            tone_scan(c, rules, flags, j + 1, s)
        } else {
            let target = tone_rule_target(c, r, flags);
            let temp = mk(r, target, false, temp_id());
            if s == canvas(c.push(temp), mode::VIETNAMESE) {
                tone_scan(c, rules, flags, j + 1, s)
            } else if tone_of(r.head.effect) == Tone::NoTone
                && is_free_spec(c, target, EffectType::ToneTransformation) && should_nil(c, target) {
                (None, r)
            } else {
                (target, r)
            }
        }
    }
}

/// The target and rule that a key's rules would apply to a syllable.
pub open spec fn find_target_spec(c: Seq<TransV>, rules: Seq<RuleV>, flags: u32) -> (Option<u64>, RuleV) {
    tone_scan(c, rules, flags, 0, canvas(c, mode::VIETNAMESE))
}

pub open spec fn vtl() -> u32 {
    mode::VIETNAMESE | mode::TONE_LESS | mode::LOWER_CASE
}

/// Undo transformations for a mark rule, scanning positions `k - 1` down to 0; `acc` holds what
/// was produced so far and the next identity.
pub open spec fn undo_mark_scan(c: Seq<TransV>, r: RuleV, s: Seq<char>, k: int, acc: (Seq<TransV>, u64)) -> (Seq<TransV>, u64)
    decreases k,
{
    if k <= 0 {
        acc
    } else {
        let i = k - 1;
        let next = if c[i].rule.head.result == r.head.effect_on {
            let t2 = mk(plain_rule(head_with('\0', EffectType::MarkTransformation, 0)), Some(root_id(c, i)), false, acc.1);
            if s == canvas(c.push(t2), vtl()) {
                acc
            } else {
                (acc.0.push(t2), next_id(acc.1))
            }
        } else {
            acc
        };
        undo_mark_scan(c, r, s, k - 1, next)
    }
}

/// Undo transformations for the rules from `j` on.
pub open spec fn undo_scan(c: Seq<TransV>, rules: Seq<RuleV>, flags: u32, j: int, s: Seq<char>, acc: (Seq<TransV>, u64)) -> (Seq<TransV>, u64)
    decreases rules.len() - j,
{
    if j >= rules.len() || j < 0 {
        acc
    } else {
        let r = rules[j];
        let next = if r.head.effect_type == EffectType::ToneTransformation {
            let t = tone_rule_target(c, r, flags);
            if t is None {
                acc
            } else {
                (acc.0.push(mk(plain_rule(head_with('\0', EffectType::ToneTransformation, 0)), t, false, acc.1)), next_id(acc.1))
            }
        } else if r.head.effect_type == EffectType::MarkTransformation {
            undo_mark_scan(c, r, s, c.len() as int, acc)
        } else {
            acc
        };
        undo_scan(c, rules, flags, j + 1, s, next)
    }
}

pub open spec fn generate_undo_spec(c: Seq<TransV>, rules: Seq<RuleV>, flags: u32, nid: u64) -> (Seq<TransV>, u64) {
    undo_scan(c, rules, flags, 0, canvas(c, vtl()), (Seq::empty(), nid))
}

pub open spec fn uh_o_pattern() -> Seq<char> {
    seq!['(', 'ư', 'o', '|', 'ư', 'ơ', ')']
}

pub open spec fn uo_tail_pattern() -> Seq<char> {
    seq!['(', 'u', 'ơ', '|', 'ư', 'o', ')', '\\', 'p', '{', 'L', '}', '+']
}

/// "ươ" or "ưo" followed by `o`: the `o` turns the pair into "uô".
pub open spec fn uo_fix_spec(c: Seq<TransV>, rules: Seq<RuleV>, flags: u32, upper: bool, nid: u64) -> Option<(Seq<TransV>, u64)> {
    let vowels = appending_of(cvc(c).1);
    if regex_matches(uh_o_pattern(), canvas(c, vtl())) && vowels.len() > 0 {
        let tr = mk(plain_rule(head_with('\0', EffectType::MarkTransformation, 0)), Some(vowels[0].id), false, nid);
        let (t3, r3) = find_target_spec(c.push(tr), rules, flags);
        match t3 {
            Some(x) => if x != vowels[0].id {
                Some((seq![tr, mk(r3, Some(x), upper, next_id(nid))], next_id(next_id(nid))))
            } else {
                None
            },
            None => None,
        }
    } else {
        None
    }
}

/// The transformations that one key adds to a syllable, and the next identity.
pub open spec fn generate_transformations_spec(c: Seq<TransV>, rules: Seq<RuleV>, flags: u32, key: char, upper: bool, nid: u64) -> (Seq<TransV>, u64) {
    if c.len() > 0 && c.last().rule.head.effect_type == EffectType::Appending && c.last().rule.head.key == key
        && c.last().rule.head.key != c.last().rule.head.result {
        (seq![mk(plain_rule(head_with('\0', EffectType::MarkTransformation, 5)), Some(c.last().id), false, nid)], next_id(nid))
    } else {
        let (target, rule) = find_target_spec(c, rules, flags);
        match target {
            Some(tg) => {
                let t1 = mk(rule, Some(tg), upper, nid);
                if rule.head.effect_type != EffectType::MarkTransformation || is_valid_spec(c.push(t1), true) {
                    (seq![t1], next_id(nid))
                } else {
                    let (tg2, vr) = find_target_spec(c.push(t1), rules, flags);
                    match tg2 {
                        Some(t2) => (seq![t1, mk(virtual_rule(vr), Some(t2), false, next_id(nid))], next_id(next_id(nid))),
                        None => (seq![t1], next_id(nid)),
                    }
                }
            },
            None => match uo_fix_spec(c, rules, flags, upper, nid) {
                Some(res) => res,
                None => {
                    let (u, n1) = generate_undo_spec(c, rules, flags, nid);
                    if u.len() > 0 {
                        (u.push(new_appending_spec(key, upper, n1)), next_id(n1))
                    } else {
                        (u, n1)
                    }
                },
            },
        }
    }
}

/// `nid` advanced `k` times.
pub open spec fn nth_id(nid: u64, k: nat) -> u64
    decreases k,
{
    if k == 0 {
        nid
    } else {
        next_id(nth_id(nid, (k - 1) as nat))
    }
}

/// The transformation for an appended rule.
pub open spec fn appended_trans(h: RuleHead, upper: bool, id: u64) -> TransV {
    let lo = lowercase_single(h.effect_on);
    mk(plain_rule(RuleHead { key: '\0', effect_on: lo, result: lo, ..h }), None, upper || is_uppercase_char(h.effect_on), id)
}

/// The transformations for a key that no rule transforms: its appending transformation and those
/// of the rules it appends.
pub open spec fn generate_fallback_spec(rules: Seq<RuleV>, key: char, upper: bool, nid: u64) -> (Seq<TransV>, u64) {
    let t = gen_appending_spec(rules, key, upper, nid);
    let hs = t.rule.appended;
    (seq![t] + Seq::new(hs.len(), |k: int| appended_trans(hs[k], upper, nth_id(next_id(nid), k as nat))),
        nth_id(next_id(nid), hs.len()))
}

/// The keys of a composition as plain appending transformations (virtual keys dropped).
pub open spec fn break_spec(c: Seq<TransV>, k: int, acc: (Seq<TransV>, u64)) -> (Seq<TransV>, u64)
    decreases c.len() - k,
{
    if k >= c.len() || k < 0 {
        acc
    } else if c[k].rule.head.key == '\0' {
        break_spec(c, k + 1, acc)
    } else {
        break_spec(c, k + 1, (acc.0.push(new_appending_spec(c[k].rule.head.key, c[k].is_upper_case, acc.1)), next_id(acc.1)))
    }
}

/// Moves the last tone to the vowel that should now carry it: the updated composition, the
/// transformations added, and the next identity.
pub open spec fn refresh_spec(c: Seq<TransV>, std_style: bool, nid: u64) -> (Seq<TransV>, Seq<TransV>, u64) {
    let lt = last_tone_target_index(c);
    if cvc(c).1.len() == 0 || lt < 0 {
        (c, Seq::empty(), nid)
    } else {
        let nt = find_tone_target_spec(c, std_style);
        if c[lt].target != nt {
            (c.update(lt, TransV { target: nt, ..c[lt] }),
                seq![mk(plain_rule(head_with('\0', EffectType::ToneTransformation, 0)), nt, false, nid),
                    mk(virtual_rule(c[lt].rule), nt, false, next_id(nid))],
                next_id(next_id(nid)))
        } else {
            (c, Seq::empty(), nid)
        }
    }
}

/// The word-break test of `extract_last_word`.
pub open spec fn word_break_at(ch: char, keys: Seq<char>) -> bool {
    !is_alpha_spec(ch) && !keys.contains(ch)
}

pub open spec fn vltm() -> u32 {
    mode::VIETNAMESE | mode::LOWER_CASE | mode::TONE_LESS | mode::MARK_LESS
}

/// The last position `i < k` whose rendered suffix starts with a word break, or -1.
pub open spec fn last_word_search(c: Seq<TransV>, keys: Seq<char>, k: int) -> int
    decreases k,
{
    if k <= 0 {
        -1
    } else {
        let cv = canvas(c.subrange(k - 1, c.len() as int), vltm());
        if cv.len() > 0 && word_break_at(cv[0], keys) {
            k - 1
        } else {
            last_word_search(c, keys, k - 1)
        }
    }
}

/// The last position `i < k` whose rendered suffix starts with a space, or -1.
pub open spec fn last_space_search(c: Seq<TransV>, k: int) -> int
    decreases k,
{
    if k <= 0 {
        -1
    } else {
        let cv = canvas(c.subrange(k - 1, c.len() as int), mode::ENGLISH);
        if cv.len() > 0 && cv[0] == ' ' {
            k - 1
        } else {
            last_space_search(c, k - 1)
        }
    }
}

/// Splits after position `i` (everything is the last part when `i` is -1).
pub open spec fn split_after(c: Seq<TransV>, i: int) -> (Seq<TransV>, Seq<TransV>) {
    if i < 0 {
        (Seq::empty(), c)
    } else {
        (c.take(i + 1), c.skip(i + 1))
    }
}

pub open spec fn extract_last_word_spec(c: Seq<TransV>, keys: Seq<char>) -> (Seq<TransV>, Seq<TransV>) {
    split_after(c, last_word_search(c, keys, c.len() as int))
}

pub open spec fn extract_last_word_punct_spec(c: Seq<TransV>) -> (Seq<TransV>, Seq<TransV>) {
    split_after(c, last_space_search(c, c.len() as int))
}

/// The start of the last syllable: moves past every prefix that stops being valid.
pub open spec fn anchor_scan(last: Seq<TransV>, i: int, a: int) -> int
    decreases last.len() - i,
{
    if i >= last.len() || i < 0 {
        a
    } else {
        anchor_scan(last, i + 1, if !is_valid_spec(last.subrange(a, i + 1), false) { i } else { a })
    }
}

pub open spec fn extract_last_syllable_spec(c: Seq<TransV>) -> (Seq<TransV>, Seq<TransV>) {
    let (prev, last) = extract_last_word_spec(c, Seq::empty());
    let a = anchor_scan(last, 0, 0);
    (prev + last.take(a), last.skip(a))
}

} // verus!
