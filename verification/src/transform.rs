//! The transformation algorithm: where a key's effect goes, what it adds to a syllable, how
//! words and syllables are cut out of a composition.
use vstd::prelude::*;
use crate::mode;
use crate::flag;
use crate::rules::{EffectType, Tone, Rule, RuleHead, TransV, Transformation, comp_view, tone_of, plain_rule};
use crate::flattener::{canvas, comp_wf, get_canvas, flatten};
use crate::cvc::{
    cvc, appending_of, has_valid_tone_spec, is_valid_spec, extract_cvc_trans, filter_appending_composition,
    has_valid_tone, is_valid, copy_range, append_copies, lemma_cvc_wf, within, lemma_within_wf, lemma_appending_within,
};
use crate::transform_spec::{
    mk, next_id, rules_view, rule_wf, rules_wf, new_appending_spec, virtual_rule, last_appending_index,
    last_tone_target_index, index_by_id, root_from, root_id, appending_rule_index, gen_appending_spec,
    std_style_target, find_tone_target_spec, is_free_spec, tone_rule_target, mark_rule_scan, mark_pos_scan,
    find_mark_target_spec, tone_scan, find_target_spec, vtl, undo_mark_scan, undo_scan, generate_undo_spec,
    uh_o_pattern, uo_tail_pattern, uo_fix_spec, generate_transformations_spec, nth_id, appended_trans, generate_fallback_spec,
    break_spec, refresh_spec, last_word_search, last_space_search, split_after, extract_last_word_spec,
    extract_last_word_punct_spec, anchor_scan, extract_last_syllable_spec,
};
use crate::utils::{is_vowel, find_tone_from_char, is_alpha, in_key_list, is_space};
use crate::unicode::{to_lower, is_upper, string_from_chars};
use crate::regex_call::{regex_is_match, regex_matches};

verus! {

/// The identity after `n` for the next transformation (wrapping at the end of `u64`).
pub fn bump(n: u64) -> (r: u64)
    ensures
        r == next_id(n),
{
    if n == u64::MAX {
        0
    } else {
        n + 1
    }
}

pub proof fn lemma_push_view(s: Seq<Transformation>, x: Transformation)
    ensures
        comp_view(s.push(x)) == comp_view(s).push(x@),
{
    assert(comp_view(s.push(x)) =~= comp_view(s).push(x@));
}

pub proof fn lemma_wf_push(c: Seq<TransV>, t: TransV)
    requires
        comp_wf(c),
        t.rule.head.effect <= 5,
    ensures
        comp_wf(c.push(t)),
{
    assert forall|i: int| 0 <= i < c.push(t).len() implies (#[trigger] c.push(t)[i]).rule.head.effect <= 5 by {
        if i < c.len() {
            assert(c.push(t)[i] == c[i]);
        }
    }
}

pub proof fn lemma_wf_concat(a: Seq<TransV>, b: Seq<TransV>)
    requires
        comp_wf(a),
        comp_wf(b),
    ensures
        comp_wf(a + b),
{
    assert forall|i: int| 0 <= i < (a + b).len() implies (#[trigger] (a + b)[i]).rule.head.effect <= 5 by {
        if i < a.len() {
            assert((a + b)[i] == a[i]);
        } else {
            assert((a + b)[i] == b[i - a.len()]);
        }
    }
}

/// `c` with a copy of `t` pushed.
fn pushed(c: &[Transformation], t: Transformation) -> (r: Vec<Transformation>)
    ensures
        comp_view(r@) == comp_view(c@).push(t@),
{
    let mut v = copy_range(c, 0, c.len());
    assert(comp_view(c@).subrange(0, c@.len() as int) =~= comp_view(c@));
    let ghost old_v = v@;
    v.push(t);
    proof { lemma_push_view(old_v, v@.last()); assert(v@ == old_v.push(v@.last())); }
    v
}

/// Index of the last appending transformation, if any.
pub fn find_last_appending_trans(composition: &[Transformation]) -> (r: Option<usize>)
    ensures
        match r {
            Some(i) => i == last_appending_index(comp_view(composition@)) && i < composition@.len(),
            None => last_appending_index(comp_view(composition@)) == -1,
        },
{
    let ghost cv = comp_view(composition@);
    let mut i = composition.len();
    assert(cv.take(i as int) =~= cv);
    while i > 0
        invariant
            0 <= i <= composition@.len(),
            cv == comp_view(composition@),
            last_appending_index(cv) == last_appending_index(cv.take(i as int)),
        decreases i,
    {
        assert(cv.take(i as int).drop_last() =~= cv.take(i - 1));
        assert(cv.take(i as int).last() == composition@[i - 1]@);
        if composition[i - 1].rule.effect_type == EffectType::Appending {
            return Some(i - 1);
        }
        i = i - 1;
    }
    None
}

/// A plain appending transformation for `key`.
pub fn new_appending_trans(key: char, is_upper_case: bool, id: u64) -> (t: Transformation)
    ensures
        t@ == new_appending_spec(key, is_upper_case, id),
{
    let rule = Rule::from_head(RuleHead {
        key,
        effect: 0,
        effect_type: EffectType::Appending,
        effect_on: key,
        result: key,
    });
    Transformation::new_ref(rule, None, is_upper_case, id)
}

fn generate_appending_trans(rules: &[Rule], lower_key: char, is_upper_case: bool, id: u64) -> (t: Transformation)
    ensures
        t@ == gen_appending_spec(rules_view(rules@), lower_key, is_upper_case, id),
{
    let ghost rv = rules_view(rules@);
    for j in 0..rules.len()
        invariant
            rv == rules_view(rules@),
            appending_rule_index(rv, lower_key, 0) == appending_rule_index(rv, lower_key, j as int),
    {
        assert(rv[j as int] == rules@[j as int]@);
        if rules[j].key == lower_key && rules[j].effect_type == EffectType::Appending {
            let mut rule = rules[j].duplicate();
            let up = is_upper_case || is_upper(rule.effect_on);
            let lo = to_lower(rule.effect_on);
            rule.effect_on = lo;
            rule.result = lo;
            assert(rule@.appended =~= rv[j as int].appended);
            return Transformation::new_ref(rule, None, up, id);
        }
    }
    new_appending_trans(lower_key, is_upper_case, id)
}

/// Index of the first transformation with identity `id`.
fn index_of_id(c: &[Transformation], id: u64) -> (r: Option<usize>)
    ensures
        match r {
            Some(i) => i == index_by_id(comp_view(c@), id) && i < c@.len(),
            None => index_by_id(comp_view(c@), id) == -1,
        },
{
    let ghost cv = comp_view(c@);
    for i in 0..c.len()
        invariant
            cv == comp_view(c@),
            index_by_id(cv.take(i as int), id) == -1,
    {
        assert(cv.take(i + 1).drop_last() =~= cv.take(i as int));
        assert(cv.take(i + 1).last() == c@[i as int]@);
        if c[i].id == id {
            assert(index_by_id(cv.take(i + 1), id) == i);
            proof { lemma_index_by_id_prefix(cv, id, i + 1); }
            return Some(i);
        }
    }
    assert(cv.take(c@.len() as int) =~= cv);
    None
}

proof fn lemma_index_by_id_prefix(c: Seq<TransV>, id: u64, k: int)
    requires
        0 <= k <= c.len(),
        index_by_id(c.take(k), id) >= 0,
    ensures
        index_by_id(c, id) == index_by_id(c.take(k), id),
    decreases c.len() - k,
{
    if k < c.len() {
        assert(c.take(k + 1).drop_last() =~= c.take(k));
        lemma_index_by_id_prefix(c, id, k + 1);
    } else {
        assert(c.take(k) =~= c);
    }
}

/// Follows targets from transformation `i` to a transformation without a target.
pub fn find_root_target(c: &[Transformation], i: usize) -> (r: u64)
    requires
        i < c@.len(),
    ensures
        r == root_id(comp_view(c@), i as int),
{
    let ghost cv = comp_view(c@);
    let mut cur = i;
    let mut fuel = c.len();
    loop
        invariant
            cur < c@.len(),
            cv == comp_view(c@),
            root_id(cv, i as int) == root_from(cv, cv[cur as int], fuel as nat),
        decreases fuel,
    {
        if fuel == 0 {
            return c[cur].id;
        }
        match c[cur].target {
            None => {
                return c[cur].id;
            },
            Some(tid) => {
                match index_of_id(c, tid) {
                    Some(j) => {
                        cur = j;
                        fuel = fuel - 1;
                    },
                    None => {
                        return tid;
                    },
                }
            },
        }
    }
}

/// The vowel part of a composition, with the transformations that target it.
pub fn get_right_most_vowels(composition: &[Transformation]) -> (r: Vec<Transformation>)
    ensures
        comp_view(r@) == cvc(comp_view(composition@)).1,
{
    let (_, vo, _) = extract_cvc_trans(composition);
    vo
}

fn canvas_is(s: &Vec<char>, t: &[char]) -> (r: bool)
    ensures
        r == (s@ == t@),
{
    if s.len() != t.len() {
        return false;
    }
    for i in 0..s.len()
        invariant
            s@.len() == t@.len(),
            forall|j: int| 0 <= j < i ==> s@[j] == t@[j],
    {
        if s[i] != t[i] {
            return false;
        }
    }
    assert(s@ =~= t@);
    true
}

/// The vowel that carries the tone of a syllable.
pub fn find_tone_target(composition: &[Transformation], std_style: bool) -> (r: Option<u64>)
    requires
        comp_wf(comp_view(composition@)),
    ensures
        r == find_tone_target_spec(comp_view(composition@), std_style),
{
    let ghost cv = comp_view(composition@);
    if composition.len() == 0 {
        return None;
    }
    proof { lemma_cvc_wf(cv); }
    let (_, vo, lc) = extract_cvc_trans(composition);
    let vowels = filter_appending_composition(&vo);
    proof {
        lemma_appending_within(comp_view(vo@));
        lemma_within_wf(appending_of(comp_view(vo@)), comp_view(vo@));
    }
    if vowels.len() == 1 {
        Some(vowels[0].id)
    } else if vowels.len() == 2 && std_style {
        let ghost vv = comp_view(vo@);
        let mut k = vo.len();
        assert(vv.take(k as int) =~= vv);
        while k > 0 && !(vo[k - 1].rule.result == 'ơ' || vo[k - 1].rule.result == 'ê')
            invariant
                0 <= k <= vo@.len(),
                vv == comp_view(vo@),
                std_style_target(vv) == std_style_target(vv.take(k as int)),
            decreases k,
        {
            assert(vv.take(k as int).drop_last() =~= vv.take(k - 1));
            assert(vv.take(k as int).last() == vo@[k - 1]@);
            k = k - 1;
        }
        let target: Option<u64> = if k > 0 {
            assert(vv.take(k as int).last() == vo@[k - 1]@);
            match vo[k - 1].target {
                Some(t) => Some(t),
                None => Some(vo[k - 1].id),
            }
        } else {
            None
        };
        match target {
            Some(t) => Some(t),
            None => {
                if lc.len() > 0 {
                    Some(vowels[1].id)
                } else {
                    Some(vowels[0].id)
                }
            },
        }
    } else if vowels.len() == 2 {
        if lc.len() > 0 {
            Some(vowels[1].id)
        } else {
            let s = get_canvas(&vowels, mode::ENGLISH | mode::LOWER_CASE | mode::TONE_LESS | mode::MARK_LESS);
            proof {
                assert(['o', 'a']@ =~= seq!['o', 'a']);
                assert(['o', 'e']@ =~= seq!['o', 'e']);
                assert(['u', 'y']@ =~= seq!['u', 'y']);
                assert(['u', 'e']@ =~= seq!['u', 'e']);
                assert(['u', 'o']@ =~= seq!['u', 'o']);
            }
            if canvas_is(&s, &['o', 'a']) || canvas_is(&s, &['o', 'e']) || canvas_is(&s, &['u', 'y'])
                || canvas_is(&s, &['u', 'e']) || canvas_is(&s, &['u', 'o']) {
                Some(vowels[1].id)
            } else {
                Some(vowels[0].id)
            }
        }
    } else if vowels.len() == 3 {
        let s = get_canvas(&vowels, mode::ENGLISH | mode::LOWER_CASE | mode::TONE_LESS | mode::MARK_LESS);
        proof { assert(['u', 'y', 'e']@ =~= seq!['u', 'y', 'e']); }
        if canvas_is(&s, &['u', 'y', 'e']) {
            Some(vowels[2].id)
        } else {
            Some(vowels[1].id)
        }
    } else {
        None
    }
}

/// Index of the last tone transformation that has a target, if any.
pub fn get_last_tone_transformation(composition: &[Transformation]) -> (r: Option<usize>)
    ensures
        match r {
            Some(i) => i == last_tone_target_index(comp_view(composition@)) && i < composition@.len(),
            None => last_tone_target_index(comp_view(composition@)) == -1,
        },
{
    let ghost cv = comp_view(composition@);
    let mut i = composition.len();
    assert(cv.take(i as int) =~= cv);
    while i > 0
        invariant
            0 <= i <= composition@.len(),
            cv == comp_view(composition@),
            last_tone_target_index(cv) == last_tone_target_index(cv.take(i as int)),
        decreases i,
    {
        assert(cv.take(i as int).drop_last() =~= cv.take(i - 1));
        assert(cv.take(i as int).last() == composition@[i - 1]@);
        if composition[i - 1].rule.effect_type == EffectType::ToneTransformation && composition[i - 1].target.is_some() {
            return Some(i - 1);
        }
        i = i - 1;
    }
    None
}

/// No transformation of the composition has this target and effect type.
pub fn is_free(composition: &[Transformation], trans: Option<u64>, effect_type: EffectType) -> (r: bool)
    ensures
        r == is_free_spec(comp_view(composition@), trans, effect_type),
{
    let ghost cv = comp_view(composition@);
    for i in 0..composition.len()
        invariant
            cv == comp_view(composition@),
            forall|k: int| 0 <= k < i ==> !((#[trigger] cv[k]).target == trans && cv[k].rule.head.effect_type == effect_type),
    {
        assert(cv[i as int] == composition@[i as int]@);
        if composition[i].target == trans && composition[i].rule.effect_type == effect_type {
            return false;
        }
    }
    true
}

fn tone_rule_target_exec(composition: &[Transformation], rule: &Rule, flags: u32) -> (r: Option<u64>)
    requires
        comp_wf(comp_view(composition@)),
    ensures
        r == tone_rule_target(comp_view(composition@), rule@, flags),
{
    if flags & flag::FREE_TONE_MARKING != 0 {
        if has_valid_tone(composition, Tone::from_u8(rule.effect)) {
            find_tone_target(composition, flags & flag::STD_TONE_STYLE != 0)
        } else {
            None
        }
    } else {
        match find_last_appending_trans(composition) {
            Some(la) => {
                if is_vowel(composition[la].rule.effect_on) {
                    Some(composition[la].id)
                } else {
                    None
                }
            },
            None => None,
        }
    }
}

fn wf_rule_of(rules: &[Rule], j: usize)
    requires
        j < rules@.len(),
        rules_wf(rules_view(rules@)),
    ensures
        rules@[j as int].effect <= 5,
        rule_wf(rules@[j as int]@),
{
    assert(rules_view(rules@)[j as int] == rules@[j as int]@);
}

fn find_mark_target(composition: &[Transformation], rules: &[Rule]) -> (r: (Option<u64>, Rule))
    requires
        comp_wf(comp_view(composition@)),
        rules_wf(rules_view(rules@)),
    ensures
        (r.0, r.1@) == find_mark_target_spec(comp_view(composition@), rules_view(rules@)),
        rule_wf(r.1@),
{
    let ghost cv = comp_view(composition@);
    let ghost rv = rules_view(rules@);
    let s = get_canvas(composition, mode::VIETNAMESE);
    let mut k = composition.len();
    while k > 0
        invariant
            0 <= k <= composition@.len(),
            cv == comp_view(composition@),
            rv == rules_view(rules@),
            comp_wf(cv),
            rules_wf(rv),
            s@ == canvas(cv, mode::VIETNAMESE),
            mark_pos_scan(cv, rv, cv.len() as int, s@) == mark_pos_scan(cv, rv, k as int, s@),
        decreases k,
    {
        let i = k - 1;
        let trans_result = composition[i].rule.result;
        for j in 0..rules.len()
            invariant
                0 <= i < composition@.len(),
                cv == comp_view(composition@),
                rv == rules_view(rules@),
                comp_wf(cv),
                rules_wf(rv),
                trans_result == cv[i as int].rule.head.result,
                s@ == canvas(cv, mode::VIETNAMESE),
                i + 1 == k,
                mark_pos_scan(cv, rv, cv.len() as int, s@) == mark_pos_scan(cv, rv, k as int, s@),
                mark_rule_scan(cv, rv, i as int, 0, s@) == mark_rule_scan(cv, rv, i as int, j as int, s@),
        {
            wf_rule_of(rules, j);
            let rule = &rules[j];
            if rule.effect_type == EffectType::MarkTransformation && trans_result == rule.effect_on && rule.effect > 0 {
                let target = find_root_target(composition, i);
                let temp = Transformation::new_ref(rule.duplicate(), Some(target), false, 0);
                let tmp = pushed(composition, temp);
                proof { lemma_wf_push(cv, tmp@.last()@); assert(comp_view(tmp@).last() == tmp@.last()@); }
                let s2 = get_canvas(&tmp, mode::VIETNAMESE);
                if !canvas_is(&s, &s2) {
                    if is_valid(&tmp, false) {
                        return (Some(target), rule.duplicate());
                    }
                }
            }
        }
        k = k - 1;
    }
    let d = Rule::default();
    (None, d)
}

/// The target and rule that the given rules (those of one key) would apply to a syllable: the
/// first tone rule that changes the rendering, else the last transformation that a mark rule can
/// change while keeping the syllable valid.
pub fn find_target(composition: &[Transformation], applicable_rules: &[Rule], flags: u32) -> (r: (Option<u64>, Rule))
    requires
        comp_wf(comp_view(composition@)),
        rules_wf(rules_view(applicable_rules@)),
    ensures
        (r.0, r.1@) == find_target_spec(comp_view(composition@), rules_view(applicable_rules@), flags),
        rule_wf(r.1@),
{
    let ghost cv = comp_view(composition@);
    let ghost rv = rules_view(applicable_rules@);
    let s = get_canvas(composition, mode::VIETNAMESE);
    for j in 0..applicable_rules.len()
        invariant
            cv == comp_view(composition@),
            rv == rules_view(applicable_rules@),
            comp_wf(cv),
            rules_wf(rv),
            s@ == canvas(cv, mode::VIETNAMESE),
            tone_scan(cv, rv, flags, 0, s@) == tone_scan(cv, rv, flags, j as int, s@),
    {
        wf_rule_of(applicable_rules, j);
        let rule = &applicable_rules[j];
        if rule.effect_type == EffectType::ToneTransformation {
            let mut target = tone_rule_target_exec(composition, rule, flags);
            let temp = Transformation::new_ref(rule.duplicate(), target, false, 0);
            let tmp = pushed(composition, temp);
            proof { lemma_wf_push(cv, tmp@.last()@); assert(comp_view(tmp@).last() == tmp@.last()@); }
            let s2 = get_canvas(&tmp, mode::VIETNAMESE);
            if !canvas_is(&s, &s2) {
                if Tone::from_u8(rule.effect) == Tone::NoTone && is_free(composition, target, EffectType::ToneTransformation) {
                    let should = match target {
                        Some(t) => match index_of_id(composition, t) {
                            Some(k) => find_tone_from_char(composition[k].rule.result) == Tone::NoTone,
                            None => false,
                        },
                        None => false,
                    };
                    if should {
                        target = None;
                    }
                }
                return (target, rule.duplicate());
            }
        }
    }
    find_mark_target(composition, applicable_rules)
}

fn undo_mark_exec(composition: &[Transformation], rule: &Rule, s: &Vec<char>, out: &mut Vec<Transformation>, nid: &mut u64)
    requires
        comp_wf(comp_view(composition@)),
        comp_wf(comp_view(old(out)@)),
        s@ == canvas(comp_view(composition@), vtl()),
    ensures
        (comp_view(final(out)@), *final(nid)) == undo_mark_scan(comp_view(composition@), rule@, s@,
            composition@.len() as int, (comp_view(old(out)@), *old(nid))),
        comp_wf(comp_view(final(out)@)),
{
    let ghost cv = comp_view(composition@);
    let mut k = composition.len();
    while k > 0
        invariant
            0 <= k <= composition@.len(),
            cv == comp_view(composition@),
            comp_wf(cv),
            comp_wf(comp_view(out@)),
            s@ == canvas(cv, vtl()),
            undo_mark_scan(cv, rule@, s@, cv.len() as int, (comp_view(old(out)@), *old(nid)))
                == undo_mark_scan(cv, rule@, s@, k as int, (comp_view(out@), *nid)),
        decreases k,
    {
        let i = k - 1;
        if composition[i].rule.result == rule.effect_on {
            let target = find_root_target(composition, i);
            let h = RuleHead { key: '\0', effect: 0, effect_type: EffectType::MarkTransformation, effect_on: '\0', result: '\0' };
            let t2 = Transformation::new_ref(Rule::from_head(h), Some(target), false, *nid);
            let tmp = pushed(composition, t2.duplicate());
            proof { lemma_wf_push(cv, t2@); }
            let s2 = get_canvas(&tmp, mode::VIETNAMESE | mode::TONE_LESS | mode::LOWER_CASE);
            if !canvas_is(s, &s2) {
                let ghost o = out@;
                out.push(t2);
                proof { lemma_push_view(o, t2); lemma_wf_push(comp_view(o), t2@); }
                *nid = bump(*nid);
            }
        }
        k = k - 1;
    }
}

/// Transformations that undo the effect of the given rules on a composition.
pub fn generate_undo_transformations(composition: &[Transformation], rules: &[Rule], flags: u32, nid: &mut u64) -> (r: Vec<Transformation>)
    requires
        comp_wf(comp_view(composition@)),
        rules_wf(rules_view(rules@)),
    ensures
        (comp_view(r@), *final(nid)) == generate_undo_spec(comp_view(composition@), rules_view(rules@), flags, *old(nid)),
        comp_wf(comp_view(r@)),
{
    let ghost cv = comp_view(composition@);
    let ghost rv = rules_view(rules@);
    let mut transformations: Vec<Transformation> = Vec::new();
    assert(comp_view(transformations@) =~= Seq::<TransV>::empty());
    let s = get_canvas(composition, mode::VIETNAMESE | mode::TONE_LESS | mode::LOWER_CASE);
    for j in 0..rules.len()
        invariant
            cv == comp_view(composition@),
            rv == rules_view(rules@),
            comp_wf(cv),
            rules_wf(rv),
            comp_wf(comp_view(transformations@)),
            s@ == canvas(cv, vtl()),
            generate_undo_spec(cv, rv, flags, *old(nid))
                == undo_scan(cv, rv, flags, j as int, s@, (comp_view(transformations@), *nid)),
    {
        wf_rule_of(rules, j);
        let rule = &rules[j];
        if rule.effect_type == EffectType::ToneTransformation {
            let target = tone_rule_target_exec(composition, rule, flags);
            if target.is_some() {
                let h = RuleHead { key: '\0', effect: 0, effect_type: EffectType::ToneTransformation, effect_on: '\0', result: '\0' };
                let t = Transformation::new_ref(Rule::from_head(h), target, false, *nid);
                let ghost o = transformations@;
                transformations.push(t);
                proof { lemma_push_view(o, t); lemma_wf_push(comp_view(o), t@); }
                *nid = bump(*nid);
            }
        } else if rule.effect_type == EffectType::MarkTransformation {
            undo_mark_exec(composition, rule, &s, &mut transformations, nid);
        }
    }
    transformations
}

/// The transformations that typing `lower_key` adds to a syllable (empty when the key's rules do
/// not apply).
pub fn generate_transformations(composition: &[Transformation], applicable_rules: &[Rule], flags: u32,
    lower_key: char, is_upper_case: bool, nid: &mut u64) -> (r: Vec<Transformation>)
    requires
        comp_wf(comp_view(composition@)),
        rules_wf(rules_view(applicable_rules@)),
    ensures
        (comp_view(r@), *final(nid)) == generate_transformations_spec(comp_view(composition@),
            rules_view(applicable_rules@), flags, lower_key, is_upper_case, *old(nid)),
        comp_wf(comp_view(r@)),
{
    let ghost cv = comp_view(composition@);
    let ghost rv = rules_view(applicable_rules@);
    let mut transformations: Vec<Transformation> = Vec::new();
    let n = composition.len();
    if n > 0 {
        let last = &composition[n - 1];
        if last.rule.effect_type == EffectType::Appending && last.rule.key == lower_key && last.rule.key != last.rule.result {
            let h = RuleHead { key: '\0', effect: 5, effect_type: EffectType::MarkTransformation, effect_on: '\0', result: '\0' };
            let t = Transformation::new_ref(Rule::from_head(h), Some(last.id), false, *nid);
            *nid = bump(*nid);
            transformations.push(t);
            assert(comp_view(transformations@) =~= seq![t@]);
            return transformations;
        }
    }
    let (target, applicable_rule) = find_target(composition, applicable_rules, flags);
    match target {
        Some(tg) => {
            let et = applicable_rule.effect_type;
            let t1 = Transformation::new_ref(applicable_rule, Some(tg), is_upper_case, *nid);
            *nid = bump(*nid);
            let new_comp = pushed(composition, t1.duplicate());
            transformations.push(t1);
            assert(comp_view(transformations@) =~= seq![t1@]);
            if et != EffectType::MarkTransformation {
                return transformations;
            }
            proof { lemma_wf_push(cv, t1@); }
            if is_valid(&new_comp, true) {
                return transformations;
            }
            let (target2, mut vrule) = find_target(&new_comp, applicable_rules, flags);
            match target2 {
                Some(t2) => {
                    vrule.key = '\0';
                    let tv = Transformation::new_ref(vrule, Some(t2), false, *nid);
                    *nid = bump(*nid);
                    transformations.push(tv);
                    assert(comp_view(transformations@) =~= seq![t1@, tv@]);
                    assert(tv@.rule =~= virtual_rule(find_target_spec(comp_view(new_comp@), rv, flags).1));
                    transformations
                },
                None => {
                            transformations
                },
            }
        },
        None => {
            let s = get_canvas(composition, mode::VIETNAMESE | mode::TONE_LESS | mode::LOWER_CASE);
            let st = string_from_chars(&s);
            proof { reveal_strlit("(ưo|ươ)"); }
            let matched = regex_is_match("(ưo|ươ)", st.as_str());
            assert("(ưo|ươ)"@ =~= uh_o_pattern());
            proof { lemma_cvc_wf(cv); }
            let vo = get_right_most_vowels(composition);
            let vowels = filter_appending_composition(&vo);
            if matched && vowels.len() > 0 {
                let h = RuleHead { key: '\0', effect: 0, effect_type: EffectType::MarkTransformation, effect_on: '\0', result: '\0' };
                let tr = Transformation::new_ref(Rule::from_head(h), Some(vowels[0].id), false, *nid);
                let with_tr = pushed(composition, tr.duplicate());
                proof { lemma_wf_push(cv, tr@); }
                let (target3, rule3) = find_target(&with_tr, applicable_rules, flags);
                match target3 {
                    Some(t3) => {
                        if t3 != vowels[0].id {
                            let n1 = bump(*nid);
                            let t3v = Transformation::new_ref(rule3, Some(t3), is_upper_case, n1);
                            *nid = bump(n1);
                            transformations.push(tr);
                            transformations.push(t3v);
                            assert(comp_view(transformations@) =~= seq![tr@, t3v@]);
                            return transformations;
                        }
                    },
                    None => {},
                }
            }
            let undo_trans = generate_undo_transformations(composition, applicable_rules, flags, nid);
            if undo_trans.len() > 0 {
                let mut out = undo_trans;
                let a = new_appending_trans(lower_key, is_upper_case, *nid);
                let ghost o = out@;
                out.push(a);
                proof { lemma_push_view(o, a); lemma_wf_push(comp_view(o), a@); }
                *nid = bump(*nid);
                return out;
            }
            assert(comp_view(transformations@) =~= Seq::<TransV>::empty());
            transformations
        },
    }
}

/// The transformations for a key that no rule transforms: its appending transformation and those
/// of the rules it appends.
pub fn generate_fallback_transformations(applicable_rules: &[Rule], lower_key: char, is_upper_case: bool, nid: &mut u64) -> (r: Vec<Transformation>)
    requires
        rules_wf(rules_view(applicable_rules@)),
    ensures
        (comp_view(r@), *final(nid)) == generate_fallback_spec(rules_view(applicable_rules@), lower_key, is_upper_case, *old(nid)),
        comp_wf(comp_view(r@)),
{
    let ghost rv = rules_view(applicable_rules@);
    let ghost n0 = *nid;
    let trans = generate_appending_trans(applicable_rules, lower_key, is_upper_case, *nid);
    proof {
        let j = appending_rule_index(rv, lower_key, 0);
        lemma_appending_rule_index(rv, lower_key, 0);
        if 0 <= j < rv.len() {
            assert(rule_wf(rv[j]));
        }
    }
    *nid = bump(*nid);
    let ghost hs = trans@.rule.appended;
    let mut transformations: Vec<Transformation> = Vec::new();
    let appended: Vec<RuleHead> = appended_heads(&trans.rule);
    transformations.push(trans);
    let ghost t0 = transformations@[0]@;
    for k in 0..appended.len()
        invariant
            appended@ == hs,
            hs == t0.rule.appended,
            forall|q: int| 0 <= q < hs.len() ==> (#[trigger] hs[q]).effect <= 5,
            t0.rule.head.effect <= 5,
            *nid == nth_id(next_id(n0), k as nat),
            comp_view(transformations@) == seq![t0] + Seq::new(k as nat, |q: int| appended_trans(hs[q], is_upper_case, nth_id(next_id(n0), q as nat))),
    {
        let h = appended[k];
        let up = is_upper_case || is_upper(h.effect_on);
        let lo = to_lower(h.effect_on);
        let r = Rule::from_head(RuleHead { key: '\0', effect_on: lo, result: lo, ..h });
        let t = Transformation::new_ref(r, None, up, *nid);
        let ghost o = transformations@;
        transformations.push(t);
        proof { lemma_push_view(o, t); }
        assert(comp_view(transformations@) =~= seq![t0] + Seq::new((k + 1) as nat, |q: int| appended_trans(hs[q], is_upper_case, nth_id(next_id(n0), q as nat))));
        *nid = bump(*nid);
    }
    proof {
        let v = comp_view(transformations@);
        assert forall|i: int| 0 <= i < v.len() implies (#[trigger] v[i]).rule.head.effect <= 5 by {
            if i > 0 {
                assert(v[i] == appended_trans(hs[i - 1], is_upper_case, nth_id(next_id(n0), (i - 1) as nat)));
            }
        }
    }
    transformations
}

proof fn lemma_appending_rule_index(rules: Seq<crate::rules::RuleV>, key: char, j: int)
    requires
        0 <= j,
    ensures
        appending_rule_index(rules, key, j) == -1 || (j <= appending_rule_index(rules, key, j) < rules.len()),
    decreases rules.len() - j,
{
    if j < rules.len() {
        lemma_appending_rule_index(rules, key, j + 1);
    }
}

fn appended_heads(r: &Rule) -> (v: Vec<RuleHead>)
    ensures
        v@ == r@.appended,
{
    let mut v: Vec<RuleHead> = Vec::new();
    for k in 0..r.appended_rules.len()
        invariant
            v@ == r@.appended.take(k as int),
    {
        v.push(r.appended_rules[k].get_head());
        assert(v@ =~= r@.appended.take(k + 1));
    }
    assert(r@.appended.take(r@.appended.len() as int) =~= r@.appended);
    v
}

/// The keys of a composition as plain appending transformations (virtual keys dropped).
pub fn break_composition(composition: &[Transformation], nid: &mut u64) -> (r: Vec<Transformation>)
    ensures
        (comp_view(r@), *final(nid)) == break_spec(comp_view(composition@), 0, (Seq::empty(), *old(nid))),
        comp_wf(comp_view(r@)),
{
    let ghost cv = comp_view(composition@);
    let mut result: Vec<Transformation> = Vec::new();
    assert(comp_view(result@) =~= Seq::<TransV>::empty());
    for k in 0..composition.len()
        invariant
            cv == comp_view(composition@),
            comp_wf(comp_view(result@)),
            break_spec(cv, 0, (Seq::empty(), *old(nid))) == break_spec(cv, k as int, (comp_view(result@), *nid)),
    {
        let key = composition[k].rule.key;
        if key != '\0' {
            let t = new_appending_trans(key, composition[k].is_upper_case, *nid);
            let ghost o = result@;
            result.push(t);
            proof { lemma_push_view(o, t); lemma_wf_push(comp_view(o), t@); }
            *nid = bump(*nid);
        }
    }
    result
}

/// Moves the last tone to the vowel that should now carry it; returns the transformations added.
pub fn refresh_last_tone_target(composition: &mut Vec<Transformation>, std_style: bool, nid: &mut u64) -> (r: Vec<Transformation>)
    requires
        comp_wf(comp_view(old(composition)@)),
    ensures
        (comp_view(final(composition)@), comp_view(r@), *final(nid)) == refresh_spec(comp_view(old(composition)@), std_style, *old(nid)),
        comp_wf(comp_view(final(composition)@)),
        comp_wf(comp_view(r@)),
{
    let ghost cv = comp_view(composition@);
    let mut transformations: Vec<Transformation> = Vec::new();
    assert(comp_view(transformations@) =~= Seq::<TransV>::empty());
    let rightmost_vowels = get_right_most_vowels(composition);
    let last_tone_trans = get_last_tone_transformation(composition);
    if rightmost_vowels.len() == 0 || last_tone_trans.is_none() {
        return transformations;
    }
    let lt = last_tone_trans.unwrap();
    let new_tone_target = find_tone_target(composition, std_style);
    let current_target = composition[lt].target;
    if current_target != new_tone_target {
        let ghost before = composition@;
        let mut override_rule = composition[lt].rule.duplicate();
        composition[lt].target = new_tone_target;
        assert(comp_view(composition@) =~= cv.update(lt as int, TransV { target: new_tone_target, ..cv[lt as int] })) by {
            assert forall|q: int| 0 <= q < cv.len() implies #[trigger] comp_view(composition@)[q]
                == cv.update(lt as int, TransV { target: new_tone_target, ..cv[lt as int] })[q] by {
                if q != lt as int {
                    assert(composition@[q] == before[q]);
                }
            }
        }
        let h = RuleHead { key: '\0', effect: 0, effect_type: EffectType::ToneTransformation, effect_on: '\0', result: '\0' };
        let a = Transformation::new_ref(Rule::from_head(h), new_tone_target, false, *nid);
        *nid = bump(*nid);
        transformations.push(a);
        override_rule.key = '\0';
        let b = Transformation::new_ref(override_rule, new_tone_target, false, *nid);
        *nid = bump(*nid);
        transformations.push(b);
        assert(comp_view(transformations@) =~= seq![a@, b@]);
        assert(b@.rule =~= virtual_rule(cv[lt as int].rule));
        proof {
            assert(cv[lt as int].rule.head.effect <= 5);
            let u = comp_view(composition@);
            assert forall|q: int| 0 <= q < u.len() implies (#[trigger] u[q]).rule.head.effect <= 5 by {
                assert(cv[q].rule.head.effect <= 5);
            }
        }
    }
    transformations
}

/// Whether a toneless lowercase syllable has "uơ" or "ưo" followed by letters.
pub fn matches_uoh_tail(s: &str) -> (r: bool)
    ensures
        r == regex_matches(uo_tail_pattern(), s@),
{
    proof { reveal_strlit("(uơ|ưo)\\p{L}+"); }
    assert("(uơ|ưo)\\p{L}+"@ =~= uo_tail_pattern());
    regex_is_match("(uơ|ưo)\\p{L}+", s)
}

pub proof fn lemma_take_skip_wf(c: Seq<TransV>, i: int)
    requires
        comp_wf(c),
        0 <= i <= c.len(),
    ensures
        comp_wf(c.take(i)),
        comp_wf(c.skip(i)),
        comp_wf(c.subrange(i, c.len() as int)),
{
    assert forall|q: int| 0 <= q < c.take(i).len() implies (#[trigger] c.take(i)[q]).rule.head.effect <= 5 by {
        assert(c.take(i)[q] == c[q]);
    }
    assert forall|q: int| 0 <= q < c.skip(i).len() implies (#[trigger] c.skip(i)[q]).rule.head.effect <= 5 by {
        assert(c.skip(i)[q] == c[q + i]);
    }
    assert(c.subrange(i, c.len() as int) =~= c.skip(i));
}

fn split_at_exec(composition: &[Transformation], i: Option<usize>) -> (r: (Vec<Transformation>, Vec<Transformation>))
    requires
        match i {
            Some(k) => k < composition@.len(),
            None => true,
        },
        comp_wf(comp_view(composition@)),
    ensures
        comp_view(r.0@) == split_after(comp_view(composition@), match i { Some(k) => k as int, None => -1 }).0,
        comp_view(r.1@) == split_after(comp_view(composition@), match i { Some(k) => k as int, None => -1 }).1,
        comp_wf(comp_view(r.0@)),
        comp_wf(comp_view(r.1@)),
{
    let ghost cv = comp_view(composition@);
    proof {
        let ii = match i { Some(k) => k as int, None => -1 };
        lemma_split_within(cv, ii);
        lemma_within_wf(split_after(cv, ii).0, cv);
        lemma_within_wf(split_after(cv, ii).1, cv);
    }
    let n = composition.len();
    match i {
        None => {
            let e: Vec<Transformation> = Vec::new();
            assert(comp_view(e@) =~= Seq::<TransV>::empty());
            let all = copy_range(composition, 0, n);
            assert(cv.subrange(0, n as int) =~= cv);
            (e, all)
        },
        Some(i) => {
            let k = i + 1;
            let a = copy_range(composition, 0, k);
            let b = copy_range(composition, k, n);
            assert(cv.subrange(0, k as int) =~= cv.take(k as int));
            assert(cv.subrange(k as int, n as int) =~= cv.skip(k as int));
            (a, b)
        },
    }
}

proof fn lemma_split_within(c: Seq<TransV>, i: int)
    requires
        -1 <= i < c.len(),
    ensures
        within(split_after(c, i).0, c),
        within(split_after(c, i).1, c),
{
    let (a, b) = split_after(c, i);
    assert forall|q: int| 0 <= q < a.len() implies c.contains(#[trigger] a[q]) by {
        assert(a[q] == c[q]);
    }
    assert forall|q: int| 0 <= q < b.len() implies c.contains(#[trigger] b[q]) by {
        if i < 0 {
            assert(b[q] == c[q]);
        } else {
            assert(b[q] == c[q + i + 1]);
        }
    }
}

proof fn lemma_word_search_bound(c: Seq<TransV>, keys: Seq<char>, k: int)
    requires
        0 <= k <= c.len(),
    ensures
        -1 <= last_word_search(c, keys, k) < k,
    decreases k,
{
    if k > 0 {
        lemma_word_search_bound(c, keys, k - 1);
    }
}

/// Splits off the last word: the cut is after the last transformation whose rendered suffix
/// starts with a char that is neither a letter nor an effect key.
pub fn extract_last_word(composition: &[Transformation], effect_keys: &[char]) -> (r: (Vec<Transformation>, Vec<Transformation>))
    requires
        comp_wf(comp_view(composition@)),
    ensures
        comp_view(r.0@) == extract_last_word_spec(comp_view(composition@), effect_keys@).0,
        comp_view(r.1@) == extract_last_word_spec(comp_view(composition@), effect_keys@).1,
        comp_wf(comp_view(r.0@)),
        comp_wf(comp_view(r.1@)),
{
    let ghost cv = comp_view(composition@);
    let n = composition.len();
    let mut k = n;
    while k > 0
        invariant
            0 <= k <= n == composition@.len(),
            cv == comp_view(composition@),
            comp_wf(cv),
            last_word_search(cv, effect_keys@, n as int) == last_word_search(cv, effect_keys@, k as int),
        decreases k,
    {
        let i = k - 1;
        let suffix = copy_range(composition, i, n);
        proof { lemma_take_skip_wf(cv, i as int); }
        let canvas_v = get_canvas(&suffix, mode::VIETNAMESE | mode::LOWER_CASE | mode::TONE_LESS | mode::MARK_LESS);
        if canvas_v.len() > 0 {
            let c = canvas_v[0];
            if !is_alpha(c) && !in_key_list(effect_keys, c) {
                return split_at_exec(composition, Some(i));
            }
        }
        k = k - 1;
    }
    split_at_exec(composition, None)
}

/// Splits off the last word, cutting after the last transformation whose rendered suffix starts
/// with a space.
pub fn extract_last_word_with_punctuation_marks(composition: &[Transformation], _effect_keys: &[char]) -> (r: (Vec<Transformation>, Vec<Transformation>))
    requires
        comp_wf(comp_view(composition@)),
    ensures
        comp_view(r.0@) == extract_last_word_punct_spec(comp_view(composition@)).0,
        comp_view(r.1@) == extract_last_word_punct_spec(comp_view(composition@)).1,
        comp_wf(comp_view(r.0@)),
        comp_wf(comp_view(r.1@)),
{
    let ghost cv = comp_view(composition@);
    let n = composition.len();
    let mut k = n;
    while k > 0
        invariant
            0 <= k <= n == composition@.len(),
            cv == comp_view(composition@),
            comp_wf(cv),
            last_space_search(cv, n as int) == last_space_search(cv, k as int),
        decreases k,
    {
        let i = k - 1;
        let suffix = copy_range(composition, i, n);
        proof { lemma_take_skip_wf(cv, i as int); }
        let canvas_v = get_canvas(&suffix, mode::ENGLISH);
        if canvas_v.len() > 0 {
            if is_space(canvas_v[0]) {
                return split_at_exec(composition, Some(i));
            }
        }
        k = k - 1;
    }
    split_at_exec(composition, None)
}

proof fn lemma_anchor_bound(last: Seq<TransV>, i: int, a: int)
    requires
        0 <= a <= i <= last.len(),
    ensures
        0 <= anchor_scan(last, i, a) <= last.len(),
    decreases last.len() - i,
{
    if i < last.len() {
        let a2 = if !is_valid_spec(last.subrange(a, i + 1), false) { i } else { a };
        lemma_anchor_bound(last, i + 1, a2);
    }
}

/// Splits off the last syllable of the last word.
pub fn extract_last_syllable(composition: &[Transformation]) -> (r: (Vec<Transformation>, Vec<Transformation>))
    requires
        comp_wf(comp_view(composition@)),
    ensures
        comp_view(r.0@) == extract_last_syllable_spec(comp_view(composition@)).0,
        comp_view(r.1@) == extract_last_syllable_spec(comp_view(composition@)).1,
        comp_wf(comp_view(r.0@)),
        comp_wf(comp_view(r.1@)),
{
    let ghost cv = comp_view(composition@);
    let empty: [char; 0] = [];
    assert(empty@ =~= Seq::<char>::empty());
    let (mut previous, last) = extract_last_word(composition, &empty);
    let ghost lv = comp_view(last@);
    proof {
        lemma_word_search_bound(cv, Seq::empty(), cv.len() as int);
        lemma_split_within(cv, last_word_search(cv, Seq::empty(), cv.len() as int));
        lemma_within_wf(lv, cv);
    }
    let mut anchor: usize = 0;
    for i in 0..last.len()
        invariant
            lv == comp_view(last@),
            comp_wf(lv),
            0 <= anchor <= i,
            anchor_scan(lv, 0, 0) == anchor_scan(lv, i as int, anchor as int),
    {
        let part = copy_range(&last, anchor, i + 1);
        proof {
            assert forall|q: int| 0 <= q < comp_view(part@).len() implies (#[trigger] comp_view(part@)[q]).rule.head.effect <= 5 by {
                assert(comp_view(part@)[q] == lv[q + anchor]);
            }
        }
        if !is_valid(&part, false) {
            anchor = i;
        }
    }
    proof { lemma_anchor_bound(lv, 0, 0); }
    let head = copy_range(&last, 0, anchor);
    let ghost pv = comp_view(previous@);
    append_copies(&mut previous, &head);
    let tail = copy_range(&last, anchor, last.len());
    assert(lv.subrange(0, anchor as int) =~= lv.take(anchor as int));
    assert(lv.subrange(anchor as int, lv.len() as int) =~= lv.skip(anchor as int));
    proof {
        lemma_take_skip_wf(lv, anchor as int);
        lemma_wf_concat(pv, lv.take(anchor as int));
    }
    (previous, tail)
}

} // verus!
