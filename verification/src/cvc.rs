//! Splitting a composition into first consonant, vowel and last consonant, and the spelling
//! and tone checks built on that split.
use vstd::prelude::*;
use crate::mode;
use crate::rules::{EffectType, Tone, TransV, Transformation, comp_view, tone_of};
use crate::flattener::{canvas, comp_wf, get_canvas};
use crate::utils::{is_vowel_spec, is_vowel};
use crate::spelling::{is_valid_cvc_spec, is_valid_cvc};

verus! {

/// Every element of `a` occurs in `b`.
pub open spec fn within(a: Seq<TransV>, b: Seq<TransV>) -> bool {
    forall|i: int| 0 <= i < a.len() ==> b.contains(#[trigger] a[i])
}

pub proof fn lemma_within_wf(a: Seq<TransV>, b: Seq<TransV>)
    requires
        within(a, b),
        comp_wf(b),
    ensures
        comp_wf(a),
{
    assert forall|i: int| 0 <= i < a.len() implies (#[trigger] a[i]).rule.head.effect <= 5 by {
        assert(b.contains(a[i]));
        let j = choose|j: int| 0 <= j < b.len() && b[j] == a[i];
        assert(b[j].rule.head.effect <= 5);
    }
}

pub proof fn lemma_within_trans(a: Seq<TransV>, b: Seq<TransV>, c: Seq<TransV>)
    requires
        within(a, b),
        within(b, c),
    ensures
        within(a, c),
{
    assert forall|i: int| 0 <= i < a.len() implies c.contains(#[trigger] a[i]) by {
        assert(b.contains(a[i]));
        let j = choose|j: int| 0 <= j < b.len() && b[j] == a[i];
        assert(c.contains(b[j]));
    }
}

/// The transformations of `c` without a target, in order.
pub open spec fn roots(c: Seq<TransV>) -> Seq<TransV>
    decreases c.len(),
{
    if c.len() == 0 {
        Seq::empty()
    } else if c.last().target is None {
        roots(c.drop_last()).push(c.last())
    } else {
        roots(c.drop_last())
    }
}

/// The transformations of `c` that target `id`, in order.
pub open spec fn targeted_by(c: Seq<TransV>, id: u64) -> Seq<TransV>
    decreases c.len(),
{
    if c.len() == 0 {
        Seq::empty()
    } else if c.last().target == Some(id) {
        targeted_by(c.drop_last(), id).push(c.last())
    } else {
        targeted_by(c.drop_last(), id)
    }
}

/// The appending transformations of `c`, in order.
pub open spec fn appending_of(c: Seq<TransV>) -> Seq<TransV>
    decreases c.len(),
{
    if c.len() == 0 {
        Seq::empty()
    } else if c.last().rule.head.effect_type == EffectType::Appending {
        appending_of(c.drop_last()).push(c.last())
    } else {
        appending_of(c.drop_last())
    }
}

/// Moves the trailing run of `comp` that belongs with `last` (vowels when `last_is_vowel`, else
/// consonants; transformations with a target always go along) to the front of `last`.
pub open spec fn atomic(comp: Seq<TransV>, last: Seq<TransV>, last_is_vowel: bool) -> (Seq<TransV>, Seq<TransV>)
    decreases comp.len(),
{
    if comp.len() == 0 {
        (comp, last)
    } else if comp.last().target is None && last_is_vowel != is_vowel_spec(comp.last().rule.head.result) {
        (comp, last)
    } else {
        atomic(comp.drop_last(), seq![comp.last()] + last, last_is_vowel)
    }
}

/// `gi` and `qu` count as consonants: `['g', 'ia', '']` becomes `['gi', 'a', '']`, except
/// `['g', 'ie', 'ng']`.
pub open spec fn qualified_split(fc: Seq<TransV>, vo: Seq<TransV>, lc: Seq<TransV>) -> bool {
    &&& fc.len() == 1
    &&& vo.len() > 0
    &&& {
        let fc0 = fc[0].rule.head.result;
        let v0 = vo[0].rule.head.result;
        ||| (fc0 == 'g' && v0 == 'i' && vo.len() > 1 && !(vo[1].rule.head.result == 'e' && lc.len() > 0))
        ||| (fc0 == 'q' && v0 == 'u')
    }
}

pub open spec fn cvc_appending(c: Seq<TransV>) -> (Seq<TransV>, Seq<TransV>, Seq<TransV>) {
    let (head, lc0) = atomic(c, Seq::empty(), false);
    let (fc0, vo0) = atomic(head, Seq::empty(), true);
    let (fc1, vo1, lc1) = if lc0.len() > 0 && vo0.len() == 0 && fc0.len() == 0 {
        (lc0, Seq::<TransV>::empty(), Seq::<TransV>::empty())
    } else {
        (fc0, vo0, lc0)
    };
    if qualified_split(fc1, vo1, lc1) {
        (fc1.push(vo1[0]), vo1.drop_first(), lc1)
    } else {
        (fc1, vo1, lc1)
    }
}

/// The transformations of `c` targeting the elements of `base`, grouped in the order of `base`.
pub open spec fn grouped(c: Seq<TransV>, base: Seq<TransV>) -> Seq<TransV>
    decreases base.len(),
{
    if base.len() == 0 {
        Seq::empty()
    } else {
        grouped(c, base.drop_last()) + targeted_by(c, base.last().id)
    }
}

/// First consonant, vowel and last consonant of a composition, each with the transformations
/// that target it.
pub open spec fn cvc(c: Seq<TransV>) -> (Seq<TransV>, Seq<TransV>, Seq<TransV>) {
    let (fc, vo, lc) = cvc_appending(roots(c));
    (fc + grouped(c, fc), vo + grouped(c, vo), lc + grouped(c, lc))
}

pub open spec fn vn_tl_lower() -> u32 {
    mode::VIETNAMESE | mode::LOWER_CASE | mode::TONE_LESS
}

/// Whether a tone may go with the last consonant: grave, hook and tilde are refused after
/// c, k, p, t and ch.
pub open spec fn has_valid_tone_spec(c: Seq<TransV>, tone: Tone) -> bool {
    if tone == Tone::NoTone || tone == Tone::Acute || tone == Tone::Dot {
        true
    } else {
        let lc = cvc(c).2;
        if lc.len() == 0 {
            true
        } else {
            let s = canvas(lc, mode::ENGLISH | mode::LOWER_CASE);
            !(s == seq!['c'] || s == seq!['k'] || s == seq!['p'] || s == seq!['t'] || s == seq!['c', 'h'])
        }
    }
}

/// Index of the last tone transformation of `c`, or -1.
pub open spec fn last_tone_index(c: Seq<TransV>) -> int
    decreases c.len(),
{
    if c.len() == 0 {
        -1
    } else if c.last().rule.head.effect_type == EffectType::ToneTransformation {
        c.len() - 1
    } else {
        last_tone_index(c.drop_last())
    }
}

/// A composition is a valid (prefix of a) Vietnamese syllable: its last tone fits its last
/// consonant, and its parts pass the spelling tables.
pub open spec fn is_valid_spec(c: Seq<TransV>, full_complete: bool) -> bool {
    if c.len() <= 1 {
        true
    } else if last_tone_index(c) >= 0
        && !has_valid_tone_spec(c, tone_of(c[last_tone_index(c)].rule.head.effect)) {
        false
    } else {
        let (fc, vo, lc) = cvc(c);
        is_valid_cvc_spec(canvas(fc, vn_tl_lower()), canvas(vo, vn_tl_lower()), canvas(lc, vn_tl_lower()), full_complete)
    }
}

proof fn lemma_take_within(c: Seq<TransV>, k: int)
    requires
        0 <= k <= c.len(),
    ensures
        within(c.take(k), c),
{
    assert forall|i: int| 0 <= i < k implies c.contains(#[trigger] c.take(k)[i]) by {
        assert(c[i] == c.take(k)[i]);
    }
}

pub proof fn lemma_roots_within(c: Seq<TransV>)
    ensures
        within(roots(c), c),
    decreases c.len(),
{
    if c.len() > 0 {
        lemma_roots_within(c.drop_last());
        lemma_take_within(c, c.len() - 1);
        assert(c.drop_last() =~= c.take(c.len() - 1));
        lemma_within_trans(roots(c.drop_last()), c.drop_last(), c);
        assert(c[c.len() - 1] == c.last());
    }
}

pub proof fn lemma_targeted_within(c: Seq<TransV>, id: u64)
    ensures
        within(targeted_by(c, id), c),
    decreases c.len(),
{
    if c.len() > 0 {
        lemma_targeted_within(c.drop_last(), id);
        lemma_take_within(c, c.len() - 1);
        assert(c.drop_last() =~= c.take(c.len() - 1));
        lemma_within_trans(targeted_by(c.drop_last(), id), c.drop_last(), c);
        assert(c[c.len() - 1] == c.last());
    }
}

pub proof fn lemma_appending_within(c: Seq<TransV>)
    ensures
        within(appending_of(c), c),
    decreases c.len(),
{
    if c.len() > 0 {
        lemma_appending_within(c.drop_last());
        lemma_take_within(c, c.len() - 1);
        assert(c.drop_last() =~= c.take(c.len() - 1));
        lemma_within_trans(appending_of(c.drop_last()), c.drop_last(), c);
        assert(c[c.len() - 1] == c.last());
    }
}

pub proof fn lemma_atomic_within(comp: Seq<TransV>, last: Seq<TransV>, v: bool, u: Seq<TransV>)
    requires
        within(comp, u),
        within(last, u),
    ensures
        within(atomic(comp, last, v).0, u),
        within(atomic(comp, last, v).1, u),
    decreases comp.len(),
{
    if comp.len() == 0 {
    } else if comp.last().target is None && v != is_vowel_spec(comp.last().rule.head.result) {
    } else {
        let nl = seq![comp.last()] + last;
        assert forall|i: int| 0 <= i < nl.len() implies u.contains(#[trigger] nl[i]) by {
            if i == 0 {
                assert(comp[comp.len() - 1] == comp.last());
                assert(u.contains(comp[comp.len() - 1]));
            } else {
                assert(nl[i] == last[i - 1]);
            }
        }
        assert forall|i: int| 0 <= i < comp.drop_last().len() implies u.contains(#[trigger] comp.drop_last()[i]) by {
            assert(comp.drop_last()[i] == comp[i]);
        }
        lemma_atomic_within(comp.drop_last(), nl, v, u);
    }
}

pub proof fn lemma_cvc_appending_within(c: Seq<TransV>)
    ensures
        within(cvc_appending(c).0, c),
        within(cvc_appending(c).1, c),
        within(cvc_appending(c).2, c),
{
    let e = Seq::<TransV>::empty();
    assert(within(c, c)) by { lemma_take_within(c, c.len() as int); assert(c.take(c.len() as int) =~= c); }
    lemma_atomic_within(c, e, false, c);
    let (head, lc0) = atomic(c, e, false);
    lemma_atomic_within(head, e, true, c);
    let (fc0, vo0) = atomic(head, e, true);
    let (fc1, vo1, lc1) = if lc0.len() > 0 && vo0.len() == 0 && fc0.len() == 0 {
        (lc0, e, e)
    } else {
        (fc0, vo0, lc0)
    };
    if qualified_split(fc1, vo1, lc1) {
        let f2 = fc1.push(vo1[0]);
        assert forall|i: int| 0 <= i < f2.len() implies c.contains(#[trigger] f2[i]) by {
            if i < fc1.len() {
                assert(f2[i] == fc1[i]);
            } else {
                assert(f2[i] == vo1[0]);
            }
        }
        let v2 = vo1.drop_first();
        assert forall|i: int| 0 <= i < v2.len() implies c.contains(#[trigger] v2[i]) by {
            assert(v2[i] == vo1[i + 1]);
        }
    }
}

pub proof fn lemma_grouped_within(c: Seq<TransV>, base: Seq<TransV>)
    ensures
        within(grouped(c, base), c),
    decreases base.len(),
{
    if base.len() > 0 {
        lemma_grouped_within(c, base.drop_last());
        lemma_targeted_within(c, base.last().id);
        let a = grouped(c, base.drop_last());
        let b = targeted_by(c, base.last().id);
        assert forall|i: int| 0 <= i < (a + b).len() implies c.contains(#[trigger] (a + b)[i]) by {
            if i < a.len() {
                assert((a + b)[i] == a[i]);
            } else {
                assert((a + b)[i] == b[i - a.len()]);
            }
        }
    }
}

pub proof fn lemma_append_within(a: Seq<TransV>, b: Seq<TransV>, c: Seq<TransV>)
    requires
        within(a, c),
        within(b, c),
    ensures
        within(a + b, c),
{
    assert forall|i: int| 0 <= i < (a + b).len() implies c.contains(#[trigger] (a + b)[i]) by {
        if i < a.len() {
            assert((a + b)[i] == a[i]);
        } else {
            assert((a + b)[i] == b[i - a.len()]);
        }
    }
}

pub proof fn lemma_cvc_within(c: Seq<TransV>)
    ensures
        within(cvc(c).0, c),
        within(cvc(c).1, c),
        within(cvc(c).2, c),
{
    let r = roots(c);
    lemma_roots_within(c);
    lemma_cvc_appending_within(r);
    let (fc, vo, lc) = cvc_appending(r);
    lemma_within_trans(fc, r, c);
    lemma_within_trans(vo, r, c);
    lemma_within_trans(lc, r, c);
    lemma_grouped_within(c, fc);
    lemma_grouped_within(c, vo);
    lemma_grouped_within(c, lc);
    lemma_append_within(fc, grouped(c, fc), c);
    lemma_append_within(vo, grouped(c, vo), c);
    lemma_append_within(lc, grouped(c, lc), c);
}

pub proof fn lemma_cvc_wf(c: Seq<TransV>)
    requires
        comp_wf(c),
    ensures
        comp_wf(cvc(c).0),
        comp_wf(cvc(c).1),
        comp_wf(cvc(c).2),
{
    lemma_cvc_within(c);
    lemma_within_wf(cvc(c).0, c);
    lemma_within_wf(cvc(c).1, c);
    lemma_within_wf(cvc(c).2, c);
}


/// A copy of `c[lo..hi]`.
pub fn copy_range(c: &[Transformation], lo: usize, hi: usize) -> (r: Vec<Transformation>)
    requires
        lo <= hi <= c@.len(),
    ensures
        comp_view(r@) == comp_view(c@).subrange(lo as int, hi as int),
{
    let ghost cv = comp_view(c@);
    let mut r: Vec<Transformation> = Vec::new();
    let mut i = lo;
    while i < hi
        invariant
            lo <= i <= hi <= c@.len(),
            cv == comp_view(c@),
            r@.len() == i - lo,
            comp_view(r@) == cv.subrange(lo as int, i as int),
        decreases hi - i,
    {
        let ghost old_r = r@;
        r.push(c[i].duplicate());
        assert(comp_view(r@) =~= cv.subrange(lo as int, i + 1)) by {
            assert forall|j: int| 0 <= j < i + 1 - lo implies #[trigger] comp_view(r@)[j] == cv.subrange(lo as int, i + 1)[j] by {
                if j < i - lo {
                    assert(comp_view(old_r)[j] == comp_view(r@)[j]);
                }
            }
        }
        i = i + 1;
    }
    r
}

/// Appends copies of the elements of `b` to `a`.
pub fn append_copies(a: &mut Vec<Transformation>, b: &[Transformation])
    ensures
        comp_view(final(a)@) == comp_view(old(a)@) + comp_view(b@),
{
    let ghost a0 = comp_view(a@);
    for i in 0..b.len()
        invariant
            comp_view(a@) == a0 + comp_view(b@).take(i as int),
            a@.len() == a0.len() + i,
    {
        let ghost old_a = a@;
        a.push(b[i].duplicate());
        assert(comp_view(a@) =~= a0 + comp_view(b@).take(i + 1)) by {
            assert forall|j: int| 0 <= j < a0.len() + i + 1 implies #[trigger] comp_view(a@)[j] == (a0 + comp_view(b@).take(i + 1))[j] by {
                if j < a0.len() + i {
                    assert(comp_view(old_a)[j] == comp_view(a@)[j]);
                }
            }
        }
    }
    assert(comp_view(b@).take(b@.len() as int) =~= comp_view(b@));
}

/// Moves the trailing run of `composition` that belongs with `last` to the front of `last`.
pub fn extract_atomic_trans(composition: &[Transformation], last: &[Transformation], last_is_vowel: bool) -> (r: (Vec<Transformation>, Vec<Transformation>))
    ensures
        comp_view(r.0@) == atomic(comp_view(composition@), comp_view(last@), last_is_vowel).0,
        comp_view(r.1@) == atomic(comp_view(composition@), comp_view(last@), last_is_vowel).1,
{
    let mut comp = copy_range(composition, 0, composition.len());
    let mut last_v = copy_range(last, 0, last.len());
    assert(comp_view(composition@).subrange(0, composition@.len() as int) =~= comp_view(composition@));
    assert(comp_view(last@).subrange(0, last@.len() as int) =~= comp_view(last@));
    loop
        invariant
            atomic(comp_view(comp@), comp_view(last_v@), last_is_vowel)
                == atomic(comp_view(composition@), comp_view(last@), last_is_vowel),
        decreases comp@.len(),
    {
        if comp.len() == 0 {
            return (comp, last_v);
        }
        let n = comp.len();
        let target_none = comp[n - 1].target.is_none();
        let res = comp[n - 1].rule.result;
        if target_none && last_is_vowel != is_vowel(res) {
            return (comp, last_v);
        }
        let ghost cv = comp_view(comp@);
        let ghost lv = comp_view(last_v@);
        let t = comp.pop().unwrap();
        last_v.insert(0, t);
        assert(comp_view(comp@) =~= cv.drop_last());
        assert(comp_view(last_v@) =~= seq![cv.last()] + lv);
    }
}

/// First consonant, vowel and last consonant of a sequence of appending transformations.
pub fn extract_cvc_appending_trans(composition: &[Transformation]) -> (r: (Vec<Transformation>, Vec<Transformation>, Vec<Transformation>))
    ensures
        comp_view(r.0@) == cvc_appending(comp_view(composition@)).0,
        comp_view(r.1@) == cvc_appending(comp_view(composition@)).1,
        comp_view(r.2@) == cvc_appending(comp_view(composition@)).2,
{
    let empty: Vec<Transformation> = Vec::new();
    assert(comp_view(empty@) =~= Seq::<TransV>::empty());
    let (head, last_consonant) = extract_atomic_trans(composition, &empty, false);
    let (mut first_consonant, mut vowel) = extract_atomic_trans(&head, &empty, true);
    let mut last_consonant = last_consonant;
    if last_consonant.len() > 0 && vowel.len() == 0 && first_consonant.len() == 0 {
        first_consonant = last_consonant;
        vowel = Vec::new();
        last_consonant = Vec::new();
        assert(comp_view(vowel@) =~= Seq::<TransV>::empty());
        assert(comp_view(last_consonant@) =~= Seq::<TransV>::empty());
    }
    if first_consonant.len() == 1 && vowel.len() > 0 {
        let fc0 = first_consonant[0].rule.result;
        let v0 = vowel[0].rule.result;
        let gi_case = fc0 == 'g' && v0 == 'i' && vowel.len() > 1
            && !(vowel[1].rule.result == 'e' && last_consonant.len() > 0);
        let qu_case = fc0 == 'q' && v0 == 'u';
        if gi_case || qu_case {
            let ghost fv = comp_view(first_consonant@);
            let ghost vv = comp_view(vowel@);
            let v0t = vowel.remove(0);
            first_consonant.push(v0t);
            assert(comp_view(first_consonant@) =~= fv.push(vv[0]));
            assert(comp_view(vowel@) =~= vv.drop_first());
        }
    }
    (first_consonant, vowel, last_consonant)
}

/// Indices of the transformations of `c` that target `id`.
fn targeted_indices(c: &[Transformation], id: u64) -> (r: Vec<usize>)
    ensures
        r@.len() == targeted_by(comp_view(c@), id).len(),
        forall|j: int| 0 <= j < r@.len() ==> (#[trigger] r@[j]) < c@.len()
            && comp_view(c@)[r@[j] as int] == targeted_by(comp_view(c@), id)[j],
{
    let ghost cv = comp_view(c@);
    let mut r: Vec<usize> = Vec::new();
    for i in 0..c.len()
        invariant
            cv == comp_view(c@),
            r@.len() == targeted_by(cv.take(i as int), id).len(),
            forall|j: int| 0 <= j < r@.len() ==> (#[trigger] r@[j]) < i
                && cv[r@[j] as int] == targeted_by(cv.take(i as int), id)[j],
    {
        assert(cv.take(i + 1).drop_last() =~= cv.take(i as int));
        assert(cv.take(i + 1).last() == c@[i as int]@);
        if c[i].target == Some(id) {
            r.push(i);
        }
    }
    assert(cv.take(c@.len() as int) =~= cv);
    r
}

/// `base` followed by the transformations of `c` that target its elements.
fn extend_with_effects(c: &[Transformation], base: Vec<Transformation>) -> (r: Vec<Transformation>)
    ensures
        comp_view(r@) == comp_view(base@) + grouped(comp_view(c@), comp_view(base@)),
{
    let ghost cv = comp_view(c@);
    let ghost bv = comp_view(base@);
    let mut out = copy_range(&base, 0, base.len());
    assert(bv.subrange(0, base@.len() as int) =~= bv);
    for i in 0..base.len()
        invariant
            cv == comp_view(c@),
            bv == comp_view(base@),
            comp_view(out@) == bv + grouped(cv, bv.take(i as int)),
    {
        assert(bv.take(i + 1).drop_last() =~= bv.take(i as int));
        assert(bv.take(i + 1).last() == base@[i as int]@);
        let idx = targeted_indices(c, base[i].id);
        let ghost tb = targeted_by(cv, base@[i as int].id);
        let ghost start = comp_view(out@);
        for k in 0..idx.len()
            invariant
                cv == comp_view(c@),
                idx@.len() == tb.len(),
                tb == targeted_by(cv, base@[i as int].id),
                forall|j: int| 0 <= j < idx@.len() ==> (#[trigger] idx@[j]) < c@.len()
                    && cv[idx@[j] as int] == tb[j],
                comp_view(out@) == start + tb.take(k as int),
        {
            let ghost o = comp_view(out@);
            out.push(c[idx[k]].duplicate());
            assert(cv[idx@[k as int] as int] == tb[k as int]);
            assert(comp_view(out@) =~= start + tb.take(k + 1)) by {
                assert(comp_view(out@) =~= o.push(tb[k as int]));
            }
        }
        assert(tb.take(idx@.len() as int) =~= tb);
        assert(bv + grouped(cv, bv.take(i + 1)) =~= start + tb);
    }
    assert(bv.take(base@.len() as int) =~= bv);
    out
}

/// First consonant, vowel and last consonant of a composition, each with the transformations
/// that target it.
pub fn extract_cvc_trans(composition: &[Transformation]) -> (r: (Vec<Transformation>, Vec<Transformation>, Vec<Transformation>))
    ensures
        comp_view(r.0@) == cvc(comp_view(composition@)).0,
        comp_view(r.1@) == cvc(comp_view(composition@)).1,
        comp_view(r.2@) == cvc(comp_view(composition@)).2,
{
    let ghost cv = comp_view(composition@);
    let mut appending_list: Vec<Transformation> = Vec::new();
    for i in 0..composition.len()
        invariant
            cv == comp_view(composition@),
            comp_view(appending_list@) == roots(cv.take(i as int)),
    {
        assert(cv.take(i + 1).drop_last() =~= cv.take(i as int));
        assert(cv.take(i + 1).last() == composition@[i as int]@);
        if composition[i].target.is_none() {
            let ghost o = comp_view(appending_list@);
            appending_list.push(composition[i].duplicate());
            assert(comp_view(appending_list@) =~= o.push(composition@[i as int]@));
        }
    }
    assert(cv.take(composition@.len() as int) =~= cv);
    let (fc, vo, lc) = extract_cvc_appending_trans(&appending_list);
    (extend_with_effects(composition, fc), extend_with_effects(composition, vo), extend_with_effects(composition, lc))
}

/// The appending transformations of a composition, in order.
pub fn filter_appending_composition(composition: &[Transformation]) -> (r: Vec<Transformation>)
    ensures
        comp_view(r@) == appending_of(comp_view(composition@)),
{
    let ghost cv = comp_view(composition@);
    let mut out: Vec<Transformation> = Vec::new();
    for i in 0..composition.len()
        invariant
            cv == comp_view(composition@),
            comp_view(out@) == appending_of(cv.take(i as int)),
    {
        assert(cv.take(i + 1).drop_last() =~= cv.take(i as int));
        assert(cv.take(i + 1).last() == composition@[i as int]@);
        if composition[i].rule.effect_type == EffectType::Appending {
            let ghost o = comp_view(out@);
            out.push(composition[i].duplicate());
            assert(comp_view(out@) =~= o.push(composition@[i as int]@));
        }
    }
    assert(cv.take(composition@.len() as int) =~= cv);
    out
}

fn chars_eq(a: &Vec<char>, b: &[char]) -> (r: bool)
    ensures
        r == (a@ == b@),
{
    if a.len() != b.len() {
        return false;
    }
    for i in 0..a.len()
        invariant
            a@.len() == b@.len(),
            forall|j: int| 0 <= j < i ==> a@[j] == b@[j],
    {
        if a[i] != b[i] {
            return false;
        }
    }
    assert(a@ =~= b@);
    true
}

/// Whether `tone` may go with the last consonant of `composition`.
pub fn has_valid_tone(composition: &[Transformation], tone: Tone) -> (r: bool)
    requires
        comp_wf(comp_view(composition@)),
    ensures
        r == has_valid_tone_spec(comp_view(composition@), tone),
{
    if tone == Tone::NoTone || tone == Tone::Acute || tone == Tone::Dot {
        return true;
    }
    proof { lemma_cvc_wf(comp_view(composition@)); }
    let (_, _, lc) = extract_cvc_trans(composition);
    if lc.len() == 0 {
        return true;
    }
    let s = get_canvas(&lc, mode::ENGLISH | mode::LOWER_CASE);
    let r = !(chars_eq(&s, &['c']) || chars_eq(&s, &['k']) || chars_eq(&s, &['p'])
        || chars_eq(&s, &['t']) || chars_eq(&s, &['c', 'h']));
    proof {
        assert(['c']@ =~= seq!['c']);
        assert(['k']@ =~= seq!['k']);
        assert(['p']@ =~= seq!['p']);
        assert(['t']@ =~= seq!['t']);
        assert(['c', 'h']@ =~= seq!['c', 'h']);
    }
    r
}

/// Whether a composition is a valid (prefix of a) Vietnamese syllable.
pub fn is_valid(composition: &[Transformation], input_is_full_complete: bool) -> (r: bool)
    requires
        comp_wf(comp_view(composition@)),
    ensures
        r == is_valid_spec(comp_view(composition@), input_is_full_complete),
{
    let ghost cv = comp_view(composition@);
    if composition.len() <= 1 {
        return true;
    }
    let mut i = composition.len();
    assert(cv.take(i as int) =~= cv);
    while i > 0 && composition[i - 1].rule.effect_type != EffectType::ToneTransformation
        invariant
            0 <= i <= composition@.len(),
            cv == comp_view(composition@),
            last_tone_index(cv) == last_tone_index(cv.take(i as int)),
        decreases i,
    {
        assert(cv.take(i as int).drop_last() =~= cv.take(i - 1));
        assert(cv.take(i as int).last() == composition@[i - 1]@);
        i = i - 1;
    }
    if i > 0 {
        assert(cv.take(i as int).last() == composition@[i - 1]@);
        assert(last_tone_index(cv) == i - 1);
        let last_tone = Tone::from_u8(composition[i - 1].rule.effect);
        if !has_valid_tone(composition, last_tone) {
            return false;
        }
    }
    proof { lemma_cvc_wf(cv); }
    let (fc, vo, lc) = extract_cvc_trans(composition);
    let m = mode::VIETNAMESE | mode::LOWER_CASE | mode::TONE_LESS;
    let a = get_canvas(&fc, m);
    let b = get_canvas(&vo, m);
    let c = get_canvas(&lc, m);
    is_valid_cvc(&a, &b, &c, input_is_full_complete)
}

} // verus!
