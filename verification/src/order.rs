//! The order of strings (by chars, as `str`'s `Ord` orders them) and a stable insertion sort.
use vstd::prelude::*;
use crate::unicode::str_chars;

verus! {

/// `a` comes strictly before `b` in the order of chars.
pub open spec fn lex_lt(a: Seq<char>, b: Seq<char>) -> bool
    decreases a.len(),
{
    if a.len() == 0 {
        b.len() > 0
    } else if b.len() == 0 {
        false
    } else if a[0] != b[0] {
        (a[0] as u32) < (b[0] as u32)
    } else {
        lex_lt(a.drop_first(), b.drop_first())
    }
}

/// Whether `a` comes strictly before `b` in the order of chars.
pub fn chars_lt(a: &[char], b: &[char]) -> (r: bool)
    ensures
        r == lex_lt(a@, b@),
{
    let mut i: usize = 0;
    assert(a@.skip(0) =~= a@);
    assert(b@.skip(0) =~= b@);
    while i < a.len() && i < b.len()
        invariant
            i <= a@.len(),
            i <= b@.len(),
            lex_lt(a@, b@) == lex_lt(a@.skip(i as int), b@.skip(i as int)),
        decreases a.len() - i,
    {
        assert(a@.skip(i + 1) =~= a@.skip(i as int).drop_first());
        assert(b@.skip(i + 1) =~= b@.skip(i as int).drop_first());
        if a[i] != b[i] {
            return (a[i] as u32) < (b[i] as u32);
        }
        i = i + 1;
    }
    i >= a.len() && i < b.len()
}

/// Whether `a` comes strictly before `b` (`str`'s order).
pub fn str_lt(a: &str, b: &str) -> (r: bool)
    ensures
        r == lex_lt(a@, b@),
{
    chars_lt(&str_chars(a), &str_chars(b))
}

/// The index of the first element of `t` that `x` goes before (`lt(x, t[i])`), from `i` on.
pub open spec fn insert_pos<T>(t: Seq<T>, x: T, lt: spec_fn(T, T) -> bool, i: int) -> int
    decreases t.len() - i,
{
    if i < 0 || i >= t.len() {
        t.len() as int
    } else if lt(x, t[i]) {
        i
    } else {
        insert_pos(t, x, lt, i + 1)
    }
}

/// The elements of `s` sorted by inserting each in turn after the ones it does not go before
/// (stable).
pub open spec fn isort<T>(s: Seq<T>, lt: spec_fn(T, T) -> bool) -> Seq<T>
    decreases s.len(),
{
    if s.len() == 0 {
        s
    } else {
        let t = isort(s.drop_last(), lt);
        t.insert(insert_pos(t, s.last(), lt, 0), s.last())
    }
}

pub proof fn lemma_insert_pos<T>(t: Seq<T>, x: T, lt: spec_fn(T, T) -> bool, i: int)
    requires
        0 <= i <= t.len(),
    ensures
        i <= insert_pos(t, x, lt, i) <= t.len(),
    decreases t.len() - i,
{
    if i < t.len() && !lt(x, t[i]) {
        lemma_insert_pos(t, x, lt, i + 1);
    }
}

pub proof fn lemma_isort_len<T>(s: Seq<T>, lt: spec_fn(T, T) -> bool)
    ensures
        isort(s, lt).len() == s.len(),
    decreases s.len(),
{
    if s.len() > 0 {
        lemma_isort_len(s.drop_last(), lt);
        lemma_insert_pos(isort(s.drop_last(), lt), s.last(), lt, 0);
    }
}

/// The order of strings, as a spec function.
pub open spec fn str_order() -> spec_fn(Seq<char>, Seq<char>) -> bool {
    |a: Seq<char>, b: Seq<char>| lex_lt(a, b)
}

pub open spec fn strs_view(s: Seq<String>) -> Seq<Seq<char>> {
    s.map_values(|x: String| x@)
}

/// The strings sorted in `str`'s order.
pub fn sort_strings(v: Vec<String>) -> (r: Vec<String>)
    ensures
        strs_view(r@) == isort(strs_view(v@), str_order()),
{
    let ghost sv = strs_view(v@);
    let mut out: Vec<String> = Vec::new();
    for k in 0..v.len()
        invariant
            sv == strs_view(v@),
            strs_view(out@) == isort(sv.take(k as int), str_order()),
    {
        assert(sv.take(k + 1).drop_last() =~= sv.take(k as int));
        assert(sv.take(k + 1).last() == v@[k as int]@);
        let x = v[k].clone();
        let ghost t = strs_view(out@);
        proof { lemma_isort_len(sv.take(k as int), str_order()); }
        let mut p: usize = 0;
        while p < out.len() && !str_lt(x.as_str(), out[p].as_str())
            invariant
                p <= out@.len(),
                t == strs_view(out@),
                insert_pos(t, x@, str_order(), 0) == insert_pos(t, x@, str_order(), p as int),
            decreases out.len() - p,
        {
            p = p + 1;
        }
        let ghost o = out@;
        out.insert(p, x);
        assert(strs_view(out@) =~= t.insert(p as int, x@)) by {
            assert forall|j: int| 0 <= j < out@.len() implies #[trigger] strs_view(out@)[j] == t.insert(p as int, x@)[j] by {
                if j < p {
                    assert(out@[j] == o[j]);
                } else if j > p {
                    assert(out@[j] == o[j - 1]);
                }
            }
        }
    }
    assert(sv.take(v@.len() as int) =~= sv);
    out
}

} // verus!
