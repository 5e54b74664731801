//! The input engine: a composition of transformations that keys are added to, under an input
//! method and a set of feature flags.
use vstd::prelude::*;
use crate::mode;
use crate::flag;
use crate::rules::{EffectType, Rule, RuleV, TransV, Transformation, comp_view};
use crate::rules_parser::{InputMethod, InputMethodV};
use crate::flattener::{canvas, comp_wf, flatten, render, effects, listed, canvas_char, apply_effects};
use crate::cvc::{is_valid_spec, is_valid, copy_range, append_copies};
use crate::transform_spec::{
    mk, next_id, rules_view, rule_wf, rules_wf, virtual_rule, last_appending_index, find_target_spec,
    uo_tail_pattern, generate_transformations_spec, generate_fallback_spec, refresh_spec, break_spec,
    new_appending_spec, extract_last_word_spec, extract_last_word_punct_spec, extract_last_syllable_spec,
};
use crate::transform::{
    bump, lemma_push_view, lemma_wf_push, lemma_wf_concat, find_target, generate_transformations,
    generate_fallback_transformations, refresh_last_tone_target, matches_uoh_tail, new_appending_trans,
    find_last_appending_trans, extract_last_word, extract_last_word_with_punctuation_marks,
    extract_last_syllable, break_composition,
};
use crate::utils::{can_process_key_spec, can_process_key};
use crate::unicode::{lowercase_single, uppercase_single, is_uppercase_char, to_lower, is_upper, str_chars};
use crate::regex_call::regex_matches;

verus! {

// ---------------------------------------------------------------------------------------------
// The model

/// What an engine holds: its composition, input method, flags and the next free identity.
pub ghost struct EngineV {
    pub composition: Seq<TransV>,
    pub im: InputMethodV,
    pub flags: u32,
    pub nid: u64,
}

/// The rules of `rules` whose key is `k`, in order.
pub open spec fn rules_for(rules: Seq<RuleV>, k: char) -> Seq<RuleV>
    decreases rules.len(),
{
    if rules.len() == 0 {
        Seq::empty()
    } else {
        rules_for(rules.drop_last(), k) + if rules.last().head.key == k {
            seq![rules.last()]
        } else {
            Seq::empty()
        }
    }
}

/// The rules of the input method that the key (lowercased) triggers.
pub open spec fn applicable(e: EngineV, key: char) -> Seq<RuleV> {
    rules_for(e.im.rules, lowercase_single(key))
}

pub open spec fn flag_on(flags: u32, bit: u32) -> bool {
    flags & bit != 0
}

/// The target and rule by which the first super key completes a trailing `uơ`/`ưo` followed by
/// letters into `ươ`.
pub open spec fn uow_spec(e: EngineV, syl: Seq<TransV>) -> Option<(u64, RuleV)> {
    if e.im.super_keys.len() > 0 && regex_matches(uo_tail_pattern(), canvas(syl, mode::TONE_LESS | mode::LOWER_CASE)) {
        let (tg, rule) = find_target_spec(syl, applicable(e, e.im.super_keys[0]), e.flags);
        match tg {
            Some(x) => Some((x, rule)),
            None => None,
        }
    } else {
        None
    }
}

/// The last syllable `syl` after a key: the transformations the key generates (its fallback
/// appending ones, with the `ươ` completion, when none), then the tone moved to the vowel that
/// should carry it when tones are free and the syllable is valid. Also gives the next identity.
pub open spec fn engine_generate_spec(e: EngineV, syl: Seq<TransV>, key: char, upper: bool, nid: u64) -> (Seq<TransV>, u64) {
    let rules = applicable(e, key);
    let (t, n1) = generate_transformations_spec(syl, rules, e.flags, key, upper, nid);
    let (t2, n2) = if t.len() == 0 {
        let (f, nf) = generate_fallback_spec(rules, key, upper, n1);
        match uow_spec(e, syl + f) {
            Some(v) => (f.push(mk(virtual_rule(v.1), Some(v.0), false, nf)), next_id(nf)),
            None => (f, nf),
        }
    } else {
        (t, n1)
    };
    engine_refresh_spec(e, syl + t2, n2)
}

/// `comp` with one more key: its last syllable regenerated.
pub open spec fn new_composition_spec(e: EngineV, comp: Seq<TransV>, key: char, upper: bool, nid: u64) -> (Seq<TransV>, u64) {
    let (prev, last) = extract_last_syllable_spec(comp);
    let (syl, n) = engine_generate_spec(e, last, key, upper, nid);
    (prev + syl, n)
}

/// The engine after one key. A key in English mode, or one the input method cannot process, is
/// appended as it is (put first in reverse order); any other key regenerates the last syllable.
pub open spec fn process_key_spec(e: EngineV, key: char, mode_flags: u32) -> EngineV {
    let lower = lowercase_single(key);
    let upper = is_uppercase_char(key);
    if flag_on(mode_flags, mode::ENGLISH) || !can_process_key_spec(lower, e.im.keys) {
        let t = new_appending_spec(lower, upper, e.nid);
        if flag_on(mode_flags, mode::IN_REVERSE_ORDER) {
            EngineV { composition: seq![t] + e.composition, nid: next_id(e.nid), ..e }
        } else {
            EngineV { composition: e.composition.push(t), nid: next_id(e.nid), ..e }
        }
    } else {
        let (c, n) = new_composition_spec(e, e.composition, lower, upper, e.nid);
        EngineV { composition: c, nid: n, ..e }
    }
}

/// The engine after each char of `s` in turn.
pub open spec fn process_string_spec(e: EngineV, s: Seq<char>, mode_flags: u32) -> EngineV
    decreases s.len(),
{
    if s.len() == 0 {
        e
    } else {
        process_key_spec(process_string_spec(e, s.drop_last(), mode_flags), s.last(), mode_flags)
    }
}

/// Typing a string in two parts is typing it whole: processing `s` and then `t` gives the
/// engine that processing `s + t` gives.
pub proof fn lemma_process_string_concat(e: EngineV, s: Seq<char>, t: Seq<char>, mode_flags: u32)
    ensures
        process_string_spec(process_string_spec(e, s, mode_flags), t, mode_flags) == process_string_spec(e, s + t, mode_flags),
    decreases t.len(),
{
    if t.len() == 0 {
        assert(s + t =~= s);
    } else {
        lemma_process_string_concat(e, s, t.drop_last(), mode_flags);
        assert((s + t).drop_last() =~= s + t.drop_last());
        assert((s + t).last() == t.last());
    }
}

/// The char that English mode shows for a typed key: the key lowercased, uppercased again when
/// it was an uppercase letter.
pub open spec fn english_char(k: char) -> char {
    if is_uppercase_char(k) {
        uppercase_single(lowercase_single(k))
    } else {
        lowercase_single(k)
    }
}

proof fn lemma_english_render_free(c1: Seq<TransV>, c2: Seq<TransV>, s: Seq<TransV>, m: u32)
    requires
        flag_on(m, mode::ENGLISH),
    ensures
        render(c1, s, m) == render(c2, s, m),
    decreases s.len(),
{
    if s.len() > 0 {
        lemma_english_render_free(c1, c2, s.drop_last(), m);
    }
}

/// What is typed in English mode is what is shown: processing `s` in English mode from an empty
/// composition, the whole text is each key of `s` with its case kept (see `english_char`), for
/// keys whose lowercase is not the NUL char.
pub proof fn lemma_english_keys_shown(e: EngineV, s: Seq<char>)
    requires
        e.composition.len() == 0,
        forall|i: int| 0 <= i < s.len() ==> lowercase_single(#[trigger] s[i]) != '\0',
    ensures
        processed_string_spec(process_string_spec(e, s, mode::ENGLISH), mode::ENGLISH | mode::FULL_TEXT)
            == s.map_values(|k: char| english_char(k)),
    decreases s.len(),
{
    let m: u32 = mode::ENGLISH | mode::FULL_TEXT;
    assert(m & 2u32 != 0 && m & 32u32 != 0 && m & 4u32 == 0 && m & 8u32 == 0 && m & 16u32 == 0 && 2u32 & 128u32 == 0 && 2u32 & 2u32 != 0) by (bit_vector)
        requires m == 2u32 | 32u32;
    if s.len() == 0 {
        assert(s.map_values(|k: char| english_char(k)) =~= Seq::<char>::empty());
    } else {
        let d = s.drop_last();
        assert forall|i: int| 0 <= i < d.len() implies lowercase_single(#[trigger] d[i]) != '\0' by {
            assert(d[i] == s[i]);
        }
        lemma_english_keys_shown(e, d);
        let p = process_string_spec(e, d, mode::ENGLISH);
        let k = s.last();
        assert(lowercase_single(s[s.len() - 1]) != '\0');
        let t = new_appending_spec(lowercase_single(k), is_uppercase_char(k), p.nid);
        let c = p.composition;
        assert(process_string_spec(e, s, mode::ENGLISH).composition == c.push(t));
        assert(c.push(t).drop_last() =~= c);
        lemma_english_render_free(c.push(t), c, c, m);
        assert(canvas(c.push(t), m) == canvas(c, m).push(english_char(k)));
        assert(s.map_values(|k: char| english_char(k)) =~= d.map_values(|k: char| english_char(k)).push(english_char(k)));
    }
}

/// Removing the last char undoes a key that the input method does not process: after such a
/// key (typed in order, not in reverse), removing the last char gives back the composition
/// there was before it.
pub proof fn lemma_remove_undoes_plain_key(e: EngineV, key: char, mode_flags: u32, refresh: bool)
    requires
        !can_process_key_spec(lowercase_single(key), e.im.keys),
        !flag_on(mode_flags, mode::IN_REVERSE_ORDER),
    ensures
        remove_last_char_spec(process_key_spec(e, key, mode_flags), refresh).composition == e.composition,
{
    let p = process_key_spec(e, key, mode_flags);
    let t = new_appending_spec(lowercase_single(key), is_uppercase_char(key), e.nid);
    assert(p.composition == e.composition.push(t));
    assert(last_appending_index(p.composition) == e.composition.len());
    assert(p.composition[e.composition.len() as int] == t);
    assert(p.composition.drop_last() =~= e.composition);
}

proof fn lemma_render_concat(x: Seq<TransV>, a: Seq<TransV>, b: Seq<TransV>, m: u32)
    ensures
        render(x, a + b, m) == render(x, a, m) + render(x, b, m),
    decreases b.len(),
{
    if b.len() == 0 {
        assert(a + b =~= a);
        assert(render(x, a, m) + render(x, b, m) =~= render(x, a, m));
    } else {
        lemma_render_concat(x, a, b.drop_last(), m);
        assert((a + b).drop_last() =~= a + b.drop_last());
        assert((a + b).last() == b.last());
        if listed(b.last(), flag_on(m, mode::ENGLISH)) {
            assert(render(x, a, m) + render(x, b, m) =~= (render(x, a, m) + render(x, b.drop_last(), m)).push(canvas_char(x, b.last(), m)));
        }
    }
}

/// All of `b` only append.
pub open spec fn all_appending(b: Seq<TransV>) -> bool {
    forall|j: int| 0 <= j < b.len() ==> (#[trigger] b[j]).rule.head.effect_type == EffectType::Appending
}

proof fn lemma_effects_append(a: Seq<TransV>, b: Seq<TransV>, id: u64)
    requires
        all_appending(b),
    ensures
        effects(a + b, id) == effects(a, id),
    decreases b.len(),
{
    if b.len() > 0 {
        assert((a + b).drop_last() =~= a + b.drop_last());
        assert((a + b).last() == b.last());
        assert(b.last() == b[b.len() - 1]);
        assert forall|j: int| 0 <= j < b.drop_last().len() implies (#[trigger] b.drop_last()[j]).rule.head.effect_type == EffectType::Appending by {
            assert(b.drop_last()[j] == b[j]);
        }
        lemma_effects_append(a, b.drop_last(), id);
    } else {
        assert(a + b =~= a);
    }
}

proof fn lemma_render_append(a: Seq<TransV>, b: Seq<TransV>, s: Seq<TransV>, m: u32)
    requires
        all_appending(b),
    ensures
        render(a + b, s, m) == render(a, s, m),
    decreases s.len(),
{
    if s.len() > 0 {
        lemma_render_append(a, b, s.drop_last(), m);
        lemma_effects_append(a, b, s.last().id);
    }
}

/// No transformation of `x` that changes another targets an identity at or above `n`.
pub open spec fn targets_below(x: Seq<TransV>, n: int) -> bool {
    forall|j: int| 0 <= j < x.len() && (#[trigger] x[j]).rule.head.effect_type != EffectType::Appending
        ==> (x[j].target matches Some(t) ==> t < n)
}

proof fn lemma_no_effects(x: Seq<TransV>, n: int, id: u64)
    requires
        targets_below(x, n),
        id >= n,
    ensures
        effects(x, id).len() == 0,
    decreases x.len(),
{
    if x.len() > 0 {
        assert(x.drop_last().len() < x.len());
        assert forall|j: int| 0 <= j < x.drop_last().len() && (#[trigger] x.drop_last()[j]).rule.head.effect_type != EffectType::Appending
            implies (x.drop_last()[j].target matches Some(t) ==> t < n) by {
            assert(x.drop_last()[j] == x[j]);
        }
        lemma_no_effects(x.drop_last(), n, id);
        assert(x.last() == x[x.len() - 1]);
    }
}

proof fn lemma_break_renders_keys(x: Seq<TransV>, c: Seq<TransV>, k: int, acc: (Seq<TransV>, u64))
    requires
        0 <= k <= c.len(),
        targets_below(x, acc.1 as int),
        acc.1 + (c.len() - k) <= u64::MAX,
    ensures
        render(x, break_spec(c, k, acc).0, mode::VIETNAMESE | mode::FULL_TEXT)
            == render(x, acc.0, mode::VIETNAMESE | mode::FULL_TEXT) + render(c, c.skip(k), mode::ENGLISH | mode::FULL_TEXT),
        acc.0.len() <= break_spec(c, k, acc).0.len(),
        break_spec(c, k, acc).0.take(acc.0.len() as int) == acc.0,
        forall|j: int| acc.0.len() <= j < break_spec(c, k, acc).0.len()
            ==> (#[trigger] break_spec(c, k, acc).0[j]).rule.head.effect_type == EffectType::Appending,
    decreases c.len() - k,
{
    let v: u32 = mode::VIETNAMESE | mode::FULL_TEXT;
    let en: u32 = mode::ENGLISH | mode::FULL_TEXT;
    assert(v & 2u32 == 0 && v & 4u32 == 0 && v & 8u32 == 0 && v & 16u32 == 0) by (bit_vector)
        requires v == 1u32 | 32u32;
    assert(en & 2u32 != 0 && en & 4u32 == 0 && en & 8u32 == 0 && en & 16u32 == 0) by (bit_vector)
        requires en == 2u32 | 32u32;
    if k >= c.len() {
        assert(c.skip(k) =~= Seq::<TransV>::empty());
        assert(render(x, acc.0, v) + render(c, c.skip(k), en) =~= render(x, acc.0, v));
        assert(acc.0.take(acc.0.len() as int) =~= acc.0);
    } else {
        let rest = c.skip(k + 1);
        assert(c.skip(k) =~= seq![c[k]] + rest);
        lemma_render_concat(c, seq![c[k]], rest, en);
        assert(seq![c[k]].drop_last() =~= Seq::<TransV>::empty());
        assert(seq![c[k]].last() == c[k]);
        assert(render(c, Seq::<TransV>::empty(), en) =~= Seq::<char>::empty());
        assert(flag_on(en, mode::ENGLISH));
        if c[k].rule.head.key == '\0' {
            lemma_break_renders_keys(x, c, k + 1, acc);
            assert(render(c, seq![c[k]], en) =~= Seq::<char>::empty());
            assert(render(c, c.skip(k), en) =~= render(c, rest, en));
        } else {
            let t = new_appending_spec(c[k].rule.head.key, c[k].is_upper_case, acc.1);
            let acc2 = (acc.0.push(t), next_id(acc.1));
            assert(next_id(acc.1) == acc.1 + 1);
            assert(targets_below(x, acc2.1 as int));
            lemma_break_renders_keys(x, c, k + 1, acc2);
            lemma_no_effects(x, acc.1 as int, acc.1);
            assert(acc.0.push(t).drop_last() =~= acc.0);
            assert(render(x, acc.0.push(t), v) == render(x, acc.0, v).push(canvas_char(x, t, v)));
            assert(canvas_char(x, t, v) == canvas_char(c, c[k], en));
            assert(render(c, seq![c[k]], en) == seq![canvas_char(c, c[k], en)]);
            assert(render(x, acc.0.push(t), v) + render(c, rest, en) =~= render(x, acc.0, v) + (seq![canvas_char(c, c[k], en)] + render(c, rest, en)));
            let r = break_spec(c, k, acc).0;
            assert(r == break_spec(c, k + 1, acc2).0);
            assert(r.take(acc.0.len() as int) =~= r.take(acc2.0.len() as int).take(acc.0.len() as int));
            assert(acc2.0.take(acc.0.len() as int) =~= acc.0);
        }
    }
}

/// Restoring the last word to its keys shows the keys typed for it: after
/// `restore_last_word(false)` the whole text is the earlier words (as they render by themselves)
/// followed by the keys of the last word as English mode shows them. This holds when every
/// transformation targets an older one (an identity below the next one) and the identities do
/// not run out.
pub proof fn lemma_restore_shows_typed_keys(e: EngineV)
    requires
        targets_below(e.composition, e.nid as int),
        e.nid + e.composition.len() <= u64::MAX,
    ensures
        processed_string_spec(restore_last_word_spec(e, false), mode::VIETNAMESE | mode::FULL_TEXT)
            == canvas(extract_last_word_spec(e.composition, e.im.keys).0, mode::VIETNAMESE | mode::FULL_TEXT)
                + canvas(extract_last_word_spec(e.composition, e.im.keys).1, mode::ENGLISH | mode::FULL_TEXT),
{
    let c = e.composition;
    let v: u32 = mode::VIETNAMESE | mode::FULL_TEXT;
    let en: u32 = mode::ENGLISH | mode::FULL_TEXT;
    assert(v & 32u32 != 0) by (bit_vector) requires v == 1u32 | 32u32;
    let (prev, last) = extract_last_word_spec(c, e.im.keys);
    lemma_last_word_split(c, e.im.keys);
    if last.len() == 0 {
        assert(prev =~= c);
        assert(canvas(last, en) =~= Seq::<char>::empty());
        assert(canvas(prev, v) + canvas(last, en) =~= canvas(prev, v));
    } else {
        let b = break_spec(last, 0, (Seq::empty(), e.nid)).0;
        let x = prev + b;
        lemma_break_renders_keys(Seq::<TransV>::empty(), last, 0, (Seq::<TransV>::empty(), e.nid));
        assert(all_appending(b));
        assert forall|j: int| 0 <= j < x.len() && (#[trigger] x[j]).rule.head.effect_type != EffectType::Appending
            implies (x[j].target matches Some(t) ==> t < e.nid) by {
            if j < prev.len() {
                assert(x[j] == prev[j]);
                assert(prev[j] == c[j]);
            } else {
                assert(x[j] == b[j - prev.len()]);
            }
        }
        lemma_break_renders_keys(x, last, 0, (Seq::<TransV>::empty(), e.nid));
        assert(all_appending(b));
        assert(last.skip(0) =~= last);
        lemma_render_concat(x, prev, b, v);
        lemma_render_append(prev, b, prev, v);
        assert(render(x, Seq::<TransV>::empty(), v) =~= Seq::<char>::empty());
    }
}

proof fn lemma_last_word_split(c: Seq<TransV>, keys: Seq<char>)
    ensures
        extract_last_word_spec(c, keys).0 + extract_last_word_spec(c, keys).1 == c,
        extract_last_word_spec(c, keys).0 == c.take(extract_last_word_spec(c, keys).0.len() as int),
{
    lemma_last_word_search(c, keys, c.len() as int);
    let i = crate::transform_spec::last_word_search(c, keys, c.len() as int);
    if i >= 0 {
        assert(c.take(i + 1) + c.skip(i + 1) =~= c);
    } else {
        assert(Seq::<TransV>::empty() + c =~= c);
        assert(c.take(0) =~= Seq::<TransV>::empty());
    }
}

proof fn lemma_last_word_search(c: Seq<TransV>, keys: Seq<char>, k: int)
    requires
        k <= c.len(),
    ensures
        -1 <= crate::transform_spec::last_word_search(c, keys, k) < c.len(),
        crate::transform_spec::last_word_search(c, keys, k) < k || k <= 0,
    decreases k,
{
    if k > 0 {
        lemma_last_word_search(c, keys, k - 1);
    }
}

/// The text shown for a mode: the whole composition, the last word with its punctuation, or the
/// last word.
pub open spec fn processed_string_spec(e: EngineV, mode_flags: u32) -> Seq<char> {
    if flag_on(mode_flags, mode::FULL_TEXT) {
        canvas(e.composition, mode_flags)
    } else if flag_on(mode_flags, mode::PUNCTUATION) {
        canvas(extract_last_word_punct_spec(e.composition).1, mode::VIETNAMESE)
    } else {
        canvas(extract_last_word_spec(e.composition, e.im.keys).1, mode_flags)
    }
}

/// `c` without the transformation `id` and those that target it.
pub open spec fn without_refs(c: Seq<TransV>, id: u64) -> Seq<TransV>
    decreases c.len(),
{
    if c.len() == 0 {
        c
    } else {
        without_refs(c.drop_last(), id) + if c.last().target == Some(id) || c.last().id == id {
            Seq::empty()
        } else {
            seq![c.last()]
        }
    }
}

/// A syllable with its tone moved to the right vowel, when tones are free and it is valid.
pub open spec fn engine_refresh_spec(e: EngineV, syl: Seq<TransV>, nid: u64) -> (Seq<TransV>, u64) {
    if flag_on(e.flags, flag::FREE_TONE_MARKING) && is_valid_spec(syl, false) {
        let (c2, r, n) = refresh_spec(syl, flag_on(e.flags, flag::STD_TONE_STYLE), nid);
        (c2 + r, n)
    } else {
        (syl, nid)
    }
}

/// The engine after removing the last key typed. A key the input method cannot process is
/// dropped with the last transformation; otherwise the last key's transformation and those that
/// modify it leave the last word, whose tone may then move.
pub open spec fn remove_last_char_spec(e: EngineV, refresh: bool) -> EngineV {
    let la = last_appending_index(e.composition);
    if la < 0 {
        e
    } else if !can_process_key_spec(e.composition[la].rule.head.key, e.im.keys) {
        EngineV { composition: e.composition.drop_last(), ..e }
    } else {
        let (prev, last) = extract_last_word_spec(e.composition, e.im.keys);
        let kept = without_refs(last, e.composition[la].id);
        if refresh {
            let (c2, n) = engine_refresh_spec(e, kept, e.nid);
            EngineV { composition: prev + c2, nid: n, ..e }
        } else {
            EngineV { composition: prev + kept, ..e }
        }
    }
}

/// The keys of `last` from the `k`-th on, typed again into `acc`.
pub open spec fn retype_spec(e: EngineV, last: Seq<TransV>, k: int, acc: (Seq<TransV>, u64)) -> (Seq<TransV>, u64)
    decreases last.len() - k,
{
    if k < 0 || k >= last.len() {
        acc
    } else {
        retype_spec(e, last, k + 1, new_composition_spec(e, acc.0, last[k].rule.head.key, last[k].is_upper_case, acc.1))
    }
}

/// The engine with its last word restored: typed again as Vietnamese, or broken into its plain
/// keys.
pub open spec fn restore_last_word_spec(e: EngineV, to_vietnamese: bool) -> EngineV {
    let (prev, last) = extract_last_word_spec(e.composition, e.im.keys);
    if last.len() == 0 {
        e
    } else if !to_vietnamese {
        let (b, n) = break_spec(last, 0, (Seq::empty(), e.nid));
        EngineV { composition: prev + b, nid: n, ..e }
    } else {
        let (c, n) = retype_spec(e, last, 0, (Seq::empty(), e.nid));
        EngineV { composition: prev + c, nid: n, ..e }
    }
}


// ---------------------------------------------------------------------------------------------
// The engine

/// The input engine: the keys typed so far as a composition of transformations, the input
/// method that interprets them and the feature flags (`flag`).
pub struct PinaKeyEngine {
    composition: Vec<Transformation>,
    input_method: InputMethod,
    flags: u32,
    nid: u64,
}

impl View for PinaKeyEngine {
    type V = EngineV;

    closed spec fn view(&self) -> EngineV {
        EngineV { composition: comp_view(self.composition@), im: self.input_method@, flags: self.flags, nid: self.nid }
    }
}

/// Appends `b` to `a`, moving its elements.
pub fn append_moved(a: &mut Vec<Transformation>, b: Vec<Transformation>)
    ensures
        comp_view(final(a)@) == comp_view(old(a)@) + comp_view(b@),
{
    let mut b = b;
    let ghost a0 = a@;
    let ghost b0 = b@;
    a.append(&mut b);
    assert(comp_view(a@) =~= comp_view(a0) + comp_view(b0));
}

/// An engine with an empty composition for the input method and flags.
pub fn new_engine(input_method: InputMethod, flags: u32) -> (e: PinaKeyEngine)
    requires
        rules_wf(input_method@.rules),
    ensures
        e@ == (EngineV { composition: Seq::empty(), im: input_method@, flags, nid: 0 }),
{
    let e = PinaKeyEngine { composition: Vec::new(), input_method, flags, nid: 0 };
    assert(comp_view(e.composition@) =~= Seq::<TransV>::empty());
    e
}

impl PinaKeyEngine {
    #[verifier::type_invariant]
    spec fn inv(&self) -> bool {
        &&& comp_wf(comp_view(self.composition@))
        &&& rules_wf(self.input_method@.rules)
    }

    /// The feature flags.
    pub fn get_flag(&self) -> (f: u32)
        ensures
            f == self@.flags,
    {
        self.flags
    }

    fn get_applicable_rules(&self, key: char) -> (r: Vec<Rule>)
        ensures
            rules_view(r@) == applicable(self@, key),
            rules_wf(rules_view(r@)),
    {
        proof { use_type_invariant(self); }
        let lower = to_lower(key);
        let ghost rv = rules_view(self.input_method.rules@);
        let mut out: Vec<Rule> = Vec::new();
        proof { assert(rules_view(out@) =~= Seq::<RuleV>::empty()); }
        for j in 0..self.input_method.rules.len()
            invariant
                rv == rules_view(self.input_method.rules@),
                rv == self@.im.rules,
                rules_wf(rv),
                lower == lowercase_single(key),
                rules_view(out@) == rules_for(rv.take(j as int), lower),
                rules_wf(rules_view(out@)),
        {
            assert(rv.take(j + 1).drop_last() =~= rv.take(j as int));
            assert(rv.take(j + 1).last() == self.input_method.rules@[j as int]@);
            if self.input_method.rules[j].key == lower {
                let d = self.input_method.rules[j].duplicate();
                assert(rule_wf(rv[j as int]));
                crate::rules_parser::push_rule(&mut out, d);
            }
        }
        assert(rv.take(rv.len() as int) =~= rv);
        out
    }

    fn apply_uow_shortcut(&self, syllable: &[Transformation], nid: &mut u64) -> (r: Option<Transformation>)
        requires
            comp_wf(comp_view(syllable@)),
        ensures
            match uow_spec(self@, comp_view(syllable@)) {
                Some(v) => r matches Some(t) && t@ == mk(virtual_rule(v.1), Some(v.0), false, *old(nid))
                    && *final(nid) == next_id(*old(nid)) && t@.rule.head.effect <= 5,
                None => r is None && *final(nid) == *old(nid),
            },
    {
        let s = flatten(syllable, mode::TONE_LESS | mode::LOWER_CASE);
        if self.input_method.super_keys.len() > 0 && matches_uoh_tail(s.as_str()) {
            let rules = self.get_applicable_rules(self.input_method.super_keys[0]);
            let (target, mut missing) = find_target(syllable, &rules, self.flags);
            match target {
                Some(tg) => {
                    missing.key = '\0';
                    let t = Transformation::new_ref(missing, Some(tg), false, *nid);
                    *nid = bump(*nid);
                    assert(t@.rule =~= virtual_rule(find_target_spec(comp_view(syllable@), applicable(self@, self@.im.super_keys[0]), self@.flags).1));
                    Some(t)
                },
                None => None,
            }
        } else {
            None
        }
    }

    fn engine_generate(&self, syl: Vec<Transformation>, key: char, upper: bool, nid: &mut u64) -> (r: Vec<Transformation>)
        requires
            comp_wf(comp_view(syl@)),
        ensures
            (comp_view(r@), *final(nid)) == engine_generate_spec(self@, comp_view(syl@), key, upper, *old(nid)),
            comp_wf(comp_view(r@)),
    {
        let ghost sv = comp_view(syl@);
        let rules = self.get_applicable_rules(key);
        let mut t = generate_transformations(&syl, &rules, self.flags, key, upper, nid);
        if t.len() == 0 {
            let ghost n1 = *nid;
            let mut f = generate_fallback_transformations(&rules, key, upper, nid);
            let mut nc = copy_range(&syl, 0, syl.len());
            assert(sv.subrange(0, syl@.len() as int) =~= sv);
            append_copies(&mut nc, &f);
            proof { lemma_wf_concat(sv, comp_view(f@)); }
            match self.apply_uow_shortcut(&nc, nid) {
                Some(v) => {
                    let ghost fo = f@;
                    f.push(v);
                    proof { lemma_push_view(fo, v); lemma_wf_push(comp_view(fo), v@); }
                },
                None => {},
            }
            t = f;
        }
        let mut whole = syl;
        append_moved(&mut whole, t);
        proof { lemma_wf_concat(sv, comp_view(t@)); }
        self.engine_refresh(whole, nid)
    }

    fn engine_refresh(&self, syl: Vec<Transformation>, nid: &mut u64) -> (r: Vec<Transformation>)
        requires
            comp_wf(comp_view(syl@)),
        ensures
            (comp_view(r@), *final(nid)) == engine_refresh_spec(self@, comp_view(syl@), *old(nid)),
            comp_wf(comp_view(r@)),
    {
        let mut whole = syl;
        if self.flags & flag::FREE_TONE_MARKING != 0 && is_valid(&whole, false) {
            let refreshed = refresh_last_tone_target(&mut whole, self.flags & flag::STD_TONE_STYLE != 0, nid);
            let ghost w2 = comp_view(whole@);
            append_moved(&mut whole, refreshed);
            proof { lemma_wf_concat(w2, comp_view(refreshed@)); }
        }
        whole
    }

    fn retype(&self, last_comb: &Vec<Transformation>, n: &mut u64) -> (r: Vec<Transformation>)
        ensures
            (comp_view(r@), *final(n)) == retype_spec(self@, comp_view(last_comb@), 0, (Seq::empty(), *old(n))),
            comp_wf(comp_view(r@)),
    {
        let ghost lv = comp_view(last_comb@);
        let ghost n0 = *n;
        let mut new_comp: Vec<Transformation> = Vec::new();
        assert(comp_view(new_comp@) =~= Seq::<TransV>::empty());
        for k in 0..last_comb.len()
            invariant
                lv == comp_view(last_comb@),
                comp_wf(comp_view(new_comp@)),
                retype_spec(self@, lv, 0, (Seq::empty(), n0)) == retype_spec(self@, lv, k as int, (comp_view(new_comp@), *n)),
        {
            let key = last_comb[k].rule.key;
            let up = last_comb[k].is_upper_case;
            new_comp = self.new_composition(&new_comp, key, up, n);
        }
        new_comp
    }

    fn take_composition(&mut self) -> (c: Vec<Transformation>)
        ensures
            comp_view(c@) == old(self)@.composition,
            comp_wf(comp_view(c@)),
            final(self)@ == (EngineV { composition: Seq::empty(), ..old(self)@ }),
    {
        proof { use_type_invariant(&*self); }
        let mut c: Vec<Transformation> = Vec::new();
        std::mem::swap(&mut c, &mut self.composition);
        assert(comp_view(self.composition@) =~= Seq::<TransV>::empty());
        c
    }

    fn new_composition(&self, comp: &[Transformation], key: char, upper: bool, nid: &mut u64) -> (r: Vec<Transformation>)
        requires
            comp_wf(comp_view(comp@)),
        ensures
            (comp_view(r@), *final(nid)) == new_composition_spec(self@, comp_view(comp@), key, upper, *old(nid)),
            comp_wf(comp_view(r@)),
    {
        let (mut previous, last) = extract_last_syllable(comp);
        let syl = self.engine_generate(last, key, upper, nid);
        let ghost pv = comp_view(previous@);
        append_moved(&mut previous, syl);
        proof { lemma_wf_concat(pv, comp_view(syl@)); }
        previous
    }
}


/// What an engine offers its users.
pub trait IEngine {
    fn set_flag(&mut self, flag: u32);
    fn get_input_method(&self) -> &InputMethod;
    fn process_key(&mut self, key: char, mode_flags: u32);
    fn process_string(&mut self, s: &str, mode_flags: u32);
    fn get_processed_string(&self, mode_flags: u32) -> String;
    fn is_valid(&self, input_is_full_complete: bool) -> bool;
    fn can_process_key(&self, key: char) -> bool;
    fn remove_last_char(&mut self, refresh_last_tone_target: bool);
    fn restore_last_word(&mut self, to_vietnamese: bool);
    fn reset(&mut self);
}

impl IEngine for PinaKeyEngine {
    /// Replaces the feature flags.
    fn set_flag(&mut self, flag: u32)
        ensures
            final(self)@ == (EngineV { flags: flag, ..old(self)@ }),
    {
        proof { use_type_invariant(&*self); }
        self.flags = flag;
    }

    fn get_input_method(&self) -> (im: &InputMethod)
        ensures
            im@ == self@.im,
    {
        &self.input_method
    }

    /// Whether the last word is a valid syllable.
    fn is_valid(&self, input_is_full_complete: bool) -> (r: bool)
        ensures
            r == is_valid_spec(extract_last_word_spec(self@.composition, self@.im.keys).1, input_is_full_complete),
    {
        proof { use_type_invariant(self); }
        let (_, last) = extract_last_word(&self.composition, &self.input_method.keys);
        is_valid(&last, input_is_full_complete)
    }

    fn get_processed_string(&self, mode_flags: u32) -> (r: String)
        ensures
            r@ == processed_string_spec(self@, mode_flags),
    {
        proof { use_type_invariant(self); }
        if mode_flags & mode::FULL_TEXT != 0 {
            flatten(&self.composition, mode_flags)
        } else if mode_flags & mode::PUNCTUATION != 0 {
            let (_, t) = extract_last_word_with_punctuation_marks(&self.composition, &self.input_method.keys);
            flatten(&t, mode::VIETNAMESE)
        } else {
            let (_, t) = extract_last_word(&self.composition, &self.input_method.keys);
            flatten(&t, mode_flags)
        }
    }

    fn can_process_key(&self, key: char) -> (r: bool)
        ensures
            r == can_process_key_spec(key, self@.im.keys),
    {
        can_process_key(key, &self.input_method.keys)
    }

    fn process_string(&mut self, s: &str, mode_flags: u32)
        ensures
            final(self)@ == process_string_spec(old(self)@, s@, mode_flags),
    {
        let cs = str_chars(s);
        for i in 0..cs.len()
            invariant
                cs@ == s@,
                self@ == process_string_spec(old(self)@, cs@.take(i as int), mode_flags),
        {
            assert(cs@.take(i + 1).drop_last() =~= cs@.take(i as int));
            self.process_key(cs[i], mode_flags);
        }
        assert(cs@.take(cs@.len() as int) =~= cs@);
    }

    fn process_key(&mut self, key: char, mode_flags: u32)
        ensures
            final(self)@ == process_key_spec(old(self)@, key, mode_flags),
    {
        proof { use_type_invariant(&*self); }
        let lower_key = to_lower(key);
        let is_upper_case = is_upper(key);
        let n = self.nid;
        if mode_flags & mode::ENGLISH != 0 || !can_process_key(lower_key, &self.input_method.keys) {
            let t = new_appending_trans(lower_key, is_upper_case, n);
            let comp = self.take_composition();
            let ghost cv = comp_view(comp@);
            if mode_flags & mode::IN_REVERSE_ORDER != 0 {
                let mut nc: Vec<Transformation> = Vec::new();
                nc.push(t);
                assert(comp_view(nc@) =~= seq![t@]);
                append_moved(&mut nc, comp);
                proof { lemma_wf_concat(seq![t@], cv); }
                self.composition = nc;
            } else {
                let mut nc = comp;
                nc.push(t);
                proof { lemma_push_view(comp@, t); lemma_wf_push(cv, t@); }
                self.composition = nc;
            }
            self.nid = bump(n);
            return;
        }
        let comp = self.take_composition();
        let mut nid = n;
        let nc = self.new_composition(&comp, lower_key, is_upper_case, &mut nid);
        self.composition = nc;
        self.nid = nid;
    }

    fn restore_last_word(&mut self, to_vietnamese: bool)
        ensures
            final(self)@ == restore_last_word_spec(old(self)@, to_vietnamese),
    {
        proof { use_type_invariant(&*self); }
        let (mut previous, last_comb) = extract_last_word(&self.composition, &self.input_method.keys);
        if last_comb.len() == 0 {
            return;
        }
        let ghost lv = comp_view(last_comb@);
        let ghost pv = comp_view(previous@);
        let mut n = self.nid;
        if !to_vietnamese {
            let b = break_composition(&last_comb, &mut n);
            append_moved(&mut previous, b);
            proof { lemma_wf_concat(pv, comp_view(b@)); }
        } else {
            let new_comp = self.retype(&last_comb, &mut n);
            append_moved(&mut previous, new_comp);
            proof { lemma_wf_concat(pv, comp_view(new_comp@)); }
        }
        self.composition = previous;
        self.nid = n;
    }

    fn reset(&mut self)
        ensures
            final(self)@ == (EngineV { composition: Seq::empty(), ..old(self)@ }),
    {
        let _ = self.take_composition();
    }

    fn remove_last_char(&mut self, refresh_last_tone_target: bool)
        ensures
            final(self)@ == remove_last_char_spec(old(self)@, refresh_last_tone_target),
    {
        proof { use_type_invariant(&*self); }
        let la = match find_last_appending_trans(&self.composition) {
            Some(i) => i,
            None => return,
        };
        let last_key = self.composition[la].rule.key;
        let last_id = self.composition[la].id;
        if !can_process_key(last_key, &self.input_method.keys) {
            let mut c = self.take_composition();
            let ghost cv = comp_view(c@);
            c.pop();
            assert(comp_view(c@) =~= cv.drop_last());
            self.composition = c;
            return;
        }
        let (mut previous, last_comb) = extract_last_word(&self.composition, &self.input_method.keys);
        let ghost lv = comp_view(last_comb@);
        let ghost pv = comp_view(previous@);
        let mut new_comb: Vec<Transformation> = Vec::new();
        assert(comp_view(new_comb@) =~= Seq::<TransV>::empty());
        for k in 0..last_comb.len()
            invariant
                lv == comp_view(last_comb@),
                comp_wf(lv),
                comp_view(new_comb@) == without_refs(lv.take(k as int), last_id),
                comp_wf(comp_view(new_comb@)),
        {
            assert(lv.take(k + 1).drop_last() =~= lv.take(k as int));
            assert(lv.take(k + 1).last() == last_comb@[k as int]@);
            let is_target = match last_comb[k].target {
                Some(x) => x == last_id,
                None => false,
            };
            if !(is_target || last_comb[k].id == last_id) {
                let d = last_comb[k].duplicate();
                let ghost o = new_comb@;
                new_comb.push(d);
                proof { lemma_push_view(o, d); lemma_wf_push(comp_view(o), d@); }
            }
        }
        assert(lv.take(lv.len() as int) =~= lv);
        let mut n = self.nid;
        if refresh_last_tone_target {
            new_comb = self.engine_refresh(new_comb, &mut n);
        }
        let ghost nv = comp_view(new_comb@);
        append_moved(&mut previous, new_comb);
        proof { lemma_wf_concat(pv, nv); }
        self.composition = previous;
        self.nid = n;
    }
}

} // verus!
