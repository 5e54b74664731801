//! Rendering of a composition into the chars it stands for.
use vstd::prelude::*;
use crate::mode;
use crate::rules::{EffectType, TransV, Transformation, comp_view};
use crate::utils::{add_mark_spec, add_tone_spec, add_mark_to_char, add_tone_to_char, lemma_vowel_row};
use crate::utils::{add_mark_toneless_spec, tone_from_char_spec, is_vowel_spec, lemma_tone_roundtrip};
use crate::rules::{Tone, tone_num, tone_of};
use crate::unicode::{lowercase_single, uppercase_single, to_lower, to_upper, string_from_chars};

verus! {

/// Every rule of the composition carries a tone or mark number of at most 5.
pub open spec fn comp_wf(c: Seq<TransV>) -> bool {
    forall|i: int| 0 <= i < c.len() ==> (#[trigger] c[i]).rule.head.effect <= 5
}

pub open spec fn mode_on(m: u32, bit: u32) -> bool {
    m & bit != 0
}

/// Whether `t` yields a char of the canvas.
pub open spec fn listed(t: TransV, english: bool) -> bool {
    if english {
        t.rule.head.key != '\0'
    } else {
        t.rule.head.effect_type == EffectType::Appending && t.rule.head.key != '\0'
    }
}

/// The non-appending transformations of `c` that target the transformation `id`, in order.
pub open spec fn effects(c: Seq<TransV>, id: u64) -> Seq<TransV>
    decreases c.len(),
{
    if c.len() == 0 {
        Seq::empty()
    } else {
        let t = c.last();
        if t.rule.head.effect_type != EffectType::Appending && t.target == Some(id) {
            effects(c.drop_last(), id).push(t)
        } else {
            effects(c.drop_last(), id)
        }
    }
}

/// One effect applied to the char being rendered (`key` is the key of the appending transformation).
pub open spec fn apply_effect(chr: char, key: char, tr: TransV) -> char {
    if tr.rule.head.effect_type == EffectType::MarkTransformation {
        if tr.rule.head.effect == 5 {
            key
        } else {
            add_mark_spec(chr, tr.rule.head.effect)
        }
    } else if tr.rule.head.effect_type == EffectType::ToneTransformation {
        add_tone_spec(chr, tr.rule.head.effect)
    } else {
        chr
    }
}

/// The effects applied in order.
pub open spec fn apply_effects(chr: char, key: char, effs: Seq<TransV>) -> char
    decreases effs.len(),
{
    if effs.len() == 0 {
        chr
    } else {
        apply_effect(apply_effects(chr, key, effs.drop_last()), key, effs.last())
    }
}

/// The char that the listed transformation `at` yields in composition `c`.
pub open spec fn canvas_char(c: Seq<TransV>, at: TransV, m: u32) -> char {
    let c0 = if mode_on(m, mode::ENGLISH) {
        at.rule.head.key
    } else {
        apply_effects(at.rule.head.effect_on, at.rule.head.key, effects(c, at.id))
    };
    let c1 = if mode_on(m, mode::TONE_LESS) { add_tone_spec(c0, 0) } else { c0 };
    let c2 = if mode_on(m, mode::MARK_LESS) { add_mark_spec(c1, 0) } else { c1 };
    if mode_on(m, mode::LOWER_CASE) {
        lowercase_single(c2)
    } else if at.is_upper_case {
        uppercase_single(c2)
    } else {
        c2
    }
}

/// The chars yielded by the listed transformations of `s`, each rendered within `c`.
pub open spec fn render(c: Seq<TransV>, s: Seq<TransV>, m: u32) -> Seq<char>
    decreases s.len(),
{
    if s.len() == 0 {
        Seq::empty()
    } else if listed(s.last(), mode_on(m, mode::ENGLISH)) {
        render(c, s.drop_last(), m).push(canvas_char(c, s.last(), m))
    } else {
        render(c, s.drop_last(), m)
    }
}

/// The rendered chars of a composition under mode `m`.
pub open spec fn canvas(c: Seq<TransV>, m: u32) -> Seq<char> {
    render(c, c, m)
}

fn effects_of(c: &[Transformation], id: u64) -> (r: Vec<usize>)
    ensures
        r@.len() == effects(comp_view(c@), id).len(),
        forall|j: int| 0 <= j < r@.len() ==> (#[trigger] r@[j]) < c@.len()
            && comp_view(c@)[r@[j] as int] == effects(comp_view(c@), id)[j],
{
    let ghost cv = comp_view(c@);
    let mut r: Vec<usize> = Vec::new();
    for i in 0..c.len()
        invariant
            cv == comp_view(c@),
            r@.len() == effects(cv.take(i as int), id).len(),
            forall|j: int| 0 <= j < r@.len() ==> (#[trigger] r@[j]) < i
                && cv[r@[j] as int] == effects(cv.take(i as int), id)[j],
    {
        assert(cv.take(i + 1).drop_last() =~= cv.take(i as int));
        assert(cv.take(i + 1).last() == c@[i as int]@);
        if c[i].rule.effect_type != EffectType::Appending && c[i].target == Some(id) {
            r.push(i);
        }
    }
    assert(cv.take(c@.len() as int) =~= cv);
    r
}

fn apply_effect_exec(chr: char, key: char, tr: &Transformation) -> (r: char)
    requires
        tr.rule.effect <= 5,
    ensures
        r == apply_effect(chr, key, tr@),
{
    if tr.rule.effect_type == EffectType::MarkTransformation {
        if tr.rule.effect == 5 {
            key
        } else {
            add_mark_to_char(chr, tr.rule.effect)
        }
    } else if tr.rule.effect_type == EffectType::ToneTransformation {
        proof { lemma_vowel_row(chr); }
        add_tone_to_char(chr, tr.rule.effect)
    } else {
        chr
    }
}

fn canvas_char_exec(c: &[Transformation], at: usize, m: u32) -> (r: char)
    requires
        at < c@.len(),
        comp_wf(comp_view(c@)),
    ensures
        r == canvas_char(comp_view(c@), comp_view(c@)[at as int], m),
{
    let ghost cv = comp_view(c@);
    let t = &c[at];
    let mut chr: char;
    if m & mode::ENGLISH != 0 {
        chr = t.rule.key;
    } else {
        let effs = effects_of(c, t.id);
        let ghost es = effects(cv, t.id);
        chr = t.rule.effect_on;
        for k in 0..effs.len()
            invariant
                es == effects(cv, t.id),
                cv == comp_view(c@),
                comp_wf(cv),
                effs@.len() == es.len(),
                forall|j: int| 0 <= j < effs@.len() ==> (#[trigger] effs@[j]) < c@.len()
                    && cv[effs@[j] as int] == es[j],
                chr == apply_effects(t.rule.effect_on, t.rule.key, es.take(k as int)),
        {
            assert(es.take(k + 1).drop_last() =~= es.take(k as int));
            let e = &c[effs[k]];
            assert(cv[effs@[k as int] as int] == e@);
            chr = apply_effect_exec(chr, t.rule.key, e);
        }
        assert(es.take(effs@.len() as int) =~= es);
    }
    if m & mode::TONE_LESS != 0 {
        proof { lemma_vowel_row(chr); }
        chr = add_tone_to_char(chr, 0);
    }
    if m & mode::MARK_LESS != 0 {
        chr = add_mark_to_char(chr, 0);
    }
    if m & mode::LOWER_CASE != 0 {
        chr = to_lower(chr);
    } else if t.is_upper_case {
        chr = to_upper(chr);
    }
    chr
}

/// The rendered chars of a composition.
pub fn get_canvas(composition: &[Transformation], mode_flags: u32) -> (r: Vec<char>)
    requires
        comp_wf(comp_view(composition@)),
    ensures
        r@ == canvas(comp_view(composition@), mode_flags),
{
    let ghost cv = comp_view(composition@);
    let english = mode_flags & mode::ENGLISH != 0;
    let mut canvas_v: Vec<char> = Vec::new();
    for i in 0..composition.len()
        invariant
            cv == comp_view(composition@),
            comp_wf(cv),
            english == mode_on(mode_flags, mode::ENGLISH),
            canvas_v@ == render(cv, cv.take(i as int), mode_flags),
    {
        assert(cv.take(i + 1).drop_last() =~= cv.take(i as int));
        assert(cv.take(i + 1).last() == composition@[i as int]@);
        let t = &composition[i];
        let is_listed = if english {
            t.rule.key != '\0'
        } else {
            t.rule.effect_type == EffectType::Appending && t.rule.key != '\0'
        };
        if is_listed {
            let ch = canvas_char_exec(composition, i, mode_flags);
            canvas_v.push(ch);
        }
    }
    assert(cv.take(composition@.len() as int) =~= cv);
    canvas_v
}

/// The rendered chars of a composition, as a `String`.
pub fn flatten(composition: &[Transformation], mode_flags: u32) -> (r: String)
    requires
        comp_wf(comp_view(composition@)),
    ensures
        r@ == canvas(comp_view(composition@), mode_flags),
{
    let v = get_canvas(composition, mode_flags);
    string_from_chars(&v)
}


/// Taking the mark off a char keeps its tone.
pub proof fn lemma_unmark_keeps_tone(x: char)
    ensures
        tone_from_char_spec(add_mark_spec(x, 0)) == tone_from_char_spec(x),
{
    lemma_vowel_row(x);
    if is_vowel_spec(x) {
        lemma_tone_roundtrip(x, 0);
        let b = add_tone_spec(x, 0);
        let m0 = add_mark_toneless_spec(b, 0);
        assert(is_vowel_spec(m0));
        let t = tone_num(tone_from_char_spec(x));
        assert(t < 6);
        lemma_tone_roundtrip(m0, t);
        assert(tone_of(t) == tone_from_char_spec(x));
    }
}

proof fn lemma_mode_with_mark_less(m: u32)
    requires
        m & 8u32 == 0,
    ensures
        ((m | 8u32) & 2u32 != 0) == (m & 2u32 != 0),
        ((m | 8u32) & 4u32 != 0) == (m & 4u32 != 0),
        ((m | 8u32) & 16u32 != 0) == (m & 16u32 != 0),
        (m | 8u32) & 8u32 != 0,
{
    assert(((m | 8u32) & 2u32 != 0) == (m & 2u32 != 0)) by (bit_vector);
    assert(((m | 8u32) & 4u32 != 0) == (m & 4u32 != 0)) by (bit_vector);
    assert(((m | 8u32) & 16u32 != 0) == (m & 16u32 != 0)) by (bit_vector);
    assert((m | 8u32) & 8u32 != 0) by (bit_vector);
}

/// Rendering without marks takes off the marks and nothing else: a lowercase char rendered with
/// `MARK_LESS` added to the mode is the char rendered without it, its mark taken off, and it has
/// the same tone.
pub proof fn lemma_mark_less_char(c: Seq<TransV>, at: TransV, m: u32)
    requires
        !mode_on(m, mode::MARK_LESS),
        !mode_on(m, mode::LOWER_CASE),
        !at.is_upper_case,
    ensures
        canvas_char(c, at, m | mode::MARK_LESS) == add_mark_spec(canvas_char(c, at, m), 0),
        tone_from_char_spec(canvas_char(c, at, m | mode::MARK_LESS))
            == tone_from_char_spec(canvas_char(c, at, m)),
{
    lemma_mode_with_mark_less(m);
    lemma_unmark_keeps_tone(canvas_char(c, at, m));
}

proof fn lemma_render_mark_less(c: Seq<TransV>, s: Seq<TransV>, m: u32)
    requires
        !mode_on(m, mode::MARK_LESS),
        !mode_on(m, mode::LOWER_CASE),
        forall|i: int| 0 <= i < s.len() ==> !(#[trigger] s[i]).is_upper_case,
    ensures
        render(c, s, m | mode::MARK_LESS).len() == render(c, s, m).len(),
        forall|i: int| 0 <= i < render(c, s, m).len() ==>
            #[trigger] render(c, s, m | mode::MARK_LESS)[i] == add_mark_spec(render(c, s, m)[i], 0),
    decreases s.len(),
{
    lemma_mode_with_mark_less(m);
    if s.len() > 0 {
        lemma_render_mark_less(c, s.drop_last(), m);
        if listed(s.last(), mode_on(m, mode::ENGLISH)) {
            lemma_mark_less_char(c, s.last(), m);
        }
    }
}

/// The canvas of a composition typed in lowercase, rendered with `MARK_LESS` added to the mode,
/// is the canvas rendered without it with each char's mark taken off; each char keeps its tone,
/// so "việt" renders as "viẹt".
pub proof fn lemma_canvas_mark_less(c: Seq<TransV>, m: u32)
    requires
        !mode_on(m, mode::MARK_LESS),
        !mode_on(m, mode::LOWER_CASE),
        forall|i: int| 0 <= i < c.len() ==> !(#[trigger] c[i]).is_upper_case,
    ensures
        canvas(c, m | mode::MARK_LESS).len() == canvas(c, m).len(),
        forall|i: int| 0 <= i < canvas(c, m).len() ==>
            #[trigger] canvas(c, m | mode::MARK_LESS)[i] == add_mark_spec(canvas(c, m)[i], 0),
        forall|i: int| 0 <= i < canvas(c, m).len() ==>
            tone_from_char_spec(#[trigger] canvas(c, m | mode::MARK_LESS)[i])
                == tone_from_char_spec(canvas(c, m)[i]),
{
    lemma_render_mark_less(c, c, m);
    assert forall|i: int| 0 <= i < canvas(c, m).len() implies
        tone_from_char_spec(#[trigger] canvas(c, m | mode::MARK_LESS)[i])
            == tone_from_char_spec(canvas(c, m)[i]) by {
        lemma_unmark_keeps_tone(canvas(c, m)[i]);
    }
}


proof fn lemma_mode_with_tone_less(m: u32)
    requires
        m & 4u32 == 0,
    ensures
        ((m | 4u32) & 2u32 != 0) == (m & 2u32 != 0),
        ((m | 4u32) & 8u32 != 0) == (m & 8u32 != 0),
        ((m | 4u32) & 16u32 != 0) == (m & 16u32 != 0),
        (m | 4u32) & 4u32 != 0,
{
    assert(((m | 4u32) & 2u32 != 0) == (m & 2u32 != 0)) by (bit_vector);
    assert(((m | 4u32) & 8u32 != 0) == (m & 8u32 != 0)) by (bit_vector);
    assert(((m | 4u32) & 16u32 != 0) == (m & 16u32 != 0)) by (bit_vector);
    assert((m | 4u32) & 4u32 != 0) by (bit_vector);
}

/// Rendering without tones takes off the tones and nothing else: a lowercase char rendered with
/// `TONE_LESS` added to a mode that keeps the marks is the char rendered without it, its tone
/// taken off, and it carries no tone.
pub proof fn lemma_tone_less_char(c: Seq<TransV>, at: TransV, m: u32)
    requires
        !mode_on(m, mode::TONE_LESS),
        !mode_on(m, mode::MARK_LESS),
        !mode_on(m, mode::LOWER_CASE),
        !at.is_upper_case,
    ensures
        canvas_char(c, at, m | mode::TONE_LESS) == add_tone_spec(canvas_char(c, at, m), 0),
        tone_from_char_spec(canvas_char(c, at, m | mode::TONE_LESS)) == Tone::NoTone,
{
    lemma_mode_with_tone_less(m);
    let x = canvas_char(c, at, m);
    lemma_vowel_row(x);
    if is_vowel_spec(x) {
        lemma_tone_roundtrip(x, 0);
    }
}

} // verus!
