//! Lines and trimming of text held as chars, as `str::lines` and `str::trim` define them.
use vstd::prelude::*;
use crate::unicode::{is_whitespace_char, char_is_whitespace};

verus! {

/// Index of the first `'\n'` at or after `i`, or the length.
pub open spec fn next_nl(s: Seq<char>, i: int) -> int
    decreases s.len() - i,
{
    if i < 0 || i >= s.len() {
        s.len() as int
    } else if s[i] == '\n' {
        i
    } else {
        next_nl(s, i + 1)
    }
}

pub proof fn lemma_next_nl(s: Seq<char>, i: int)
    requires
        0 <= i <= s.len(),
    ensures
        i <= next_nl(s, i) <= s.len(),
        next_nl(s, i) < s.len() ==> s[next_nl(s, i)] == '\n',
        forall|k: int| i <= k < next_nl(s, i) ==> s[k] != '\n',
    decreases s.len() - i,
{
    if i < s.len() && s[i] != '\n' {
        lemma_next_nl(s, i + 1);
    }
}

/// A line without the `'\r'` of its `"\r\n"` ending.
pub open spec fn strip_cr(l: Seq<char>) -> Seq<char> {
    if l.len() > 0 && l.last() == '\r' {
        l.drop_last()
    } else {
        l
    }
}

/// The lines of `s` from `start`: split at `'\n'` (and `"\r\n"`), the final line ending being
/// optional.
pub open spec fn lines_from(s: Seq<char>, start: int) -> Seq<Seq<char>>
    decreases s.len() - start,
{
    if start < 0 || start >= s.len() {
        Seq::empty()
    } else {
        let e = next_nl(s, start);
        proof {
            lemma_next_nl(s, start);
        }
        if e < s.len() {
            seq![strip_cr(s.subrange(start, e))] + lines_from(s, e + 1)
        } else {
            seq![s.subrange(start, e)]
        }
    }
}

/// The lines of `s`.
pub open spec fn lines_spec(s: Seq<char>) -> Seq<Seq<char>> {
    lines_from(s, 0)
}

/// First index at or after `i` that is not whitespace, or the length.
pub open spec fn ws_lead(s: Seq<char>, i: int) -> int
    decreases s.len() - i,
{
    if 0 <= i < s.len() && is_whitespace_char(s[i]) {
        ws_lead(s, i + 1)
    } else {
        i
    }
}

/// The end of `s[..j]` without its trailing whitespace.
pub open spec fn ws_trail(s: Seq<char>, j: int) -> int
    decreases j,
{
    if 0 < j <= s.len() && is_whitespace_char(s[j - 1]) {
        ws_trail(s, j - 1)
    } else {
        j
    }
}

/// `s` without leading and trailing whitespace.
pub open spec fn trim_spec(s: Seq<char>) -> Seq<char> {
    let a = ws_lead(s, 0);
    let b = ws_trail(s, s.len() as int);
    if a < b {
        s.subrange(a, b)
    } else {
        Seq::empty()
    }
}

pub proof fn lemma_ws_lead(s: Seq<char>, i: int)
    requires
        0 <= i <= s.len(),
    ensures
        i <= ws_lead(s, i) <= s.len(),
    decreases s.len() - i,
{
    if i < s.len() && is_whitespace_char(s[i]) {
        lemma_ws_lead(s, i + 1);
    }
}

pub proof fn lemma_ws_trail(s: Seq<char>, j: int)
    requires
        0 <= j <= s.len(),
    ensures
        0 <= ws_trail(s, j) <= j,
    decreases j,
{
    if j > 0 && is_whitespace_char(s[j - 1]) {
        lemma_ws_trail(s, j - 1);
    }
}

/// `s` without leading and trailing whitespace (`str::trim`).
pub fn trim_chars(s: &[char]) -> (r: Vec<char>)
    ensures
        r@ == trim_spec(s@),
{
    let mut a: usize = 0;
    while a < s.len() && char_is_whitespace(s[a])
        invariant
            a <= s.len(),
            ws_lead(s@, 0) == ws_lead(s@, a as int),
        decreases s.len() - a,
    {
        a = a + 1;
    }
    let mut b: usize = s.len();
    while b > 0 && char_is_whitespace(s[b - 1])
        invariant
            b <= s.len(),
            ws_trail(s@, s@.len() as int) == ws_trail(s@, b as int),
        decreases b,
    {
        b = b - 1;
    }
    let mut r: Vec<char> = Vec::new();
    if a < b {
        let mut k = a;
        while k < b
            invariant
                a <= k <= b,
                b <= s.len(),
                r@ == s@.subrange(a as int, k as int),
            decreases b - k,
        {
            r.push(s[k]);
            assert(s@.subrange(a as int, k + 1) =~= s@.subrange(a as int, k as int).push(s@[k as int]));
            k = k + 1;
        }
    } else {
        assert(r@ =~= Seq::<char>::empty());
    }
    r
}

/// The lines of `s` (`str::lines`).
pub fn lines_of(s: &[char]) -> (r: Vec<Vec<char>>)
    ensures
        r@.map_values(|l: Vec<char>| l@) == lines_spec(s@),
{
    let mut out: Vec<Vec<char>> = Vec::new();
    let mut start: usize = 0;
    while start < s.len()
        invariant
            start <= s.len(),
            lines_spec(s@) == out@.map_values(|l: Vec<char>| l@) + lines_from(s@, start as int),
        decreases s.len() - start,
    {
        proof { lemma_next_nl(s@, start as int); }
        let mut line: Vec<char> = Vec::new();
        let mut e = start;
        while e < s.len() && s[e] != '\n'
            invariant
                start <= e <= s.len(),
                line@ == s@.subrange(start as int, e as int),
                next_nl(s@, start as int) == next_nl(s@, e as int),
            decreases s.len() - e,
        {
            line.push(s[e]);
            assert(s@.subrange(start as int, e + 1) =~= s@.subrange(start as int, e as int).push(s@[e as int]));
            e = e + 1;
        }
        let ghost o = out@;
        let ghost before = lines_from(s@, start as int);
        if e < s.len() {
            if line.len() > 0 && line[line.len() - 1] == '\r' {
                line.pop();
            }
            out.push(line);
            assert(out@.map_values(|l: Vec<char>| l@) =~= o.map_values(|l: Vec<char>| l@).push(strip_cr(s@.subrange(start as int, e as int))));
            start = e + 1;
        } else {
            out.push(line);
            assert(out@.map_values(|l: Vec<char>| l@) =~= o.map_values(|l: Vec<char>| l@).push(s@.subrange(start as int, e as int)));
            start = e;
        }
    }
    assert(out@.map_values(|l: Vec<char>| l@) + lines_from(s@, start as int) =~= out@.map_values(|l: Vec<char>| l@));
    out
}

/// Whether `p` is a prefix of `s`.
pub open spec fn is_prefix(p: Seq<char>, s: Seq<char>) -> bool {
    p.len() <= s.len() && s.subrange(0, p.len() as int) == p
}

/// Whether `p` is a prefix of `s` (`str::starts_with`).
pub fn starts_with(s: &[char], p: &[char]) -> (r: bool)
    ensures
        r == is_prefix(p@, s@),
{
    if p.len() > s.len() {
        return false;
    }
    for i in 0..p.len()
        invariant
            p@.len() <= s@.len(),
            forall|k: int| 0 <= k < i ==> s@[k] == p@[k],
    {
        if s[i] != p[i] {
            assert(s@.subrange(0, p@.len() as int)[i as int] != p@[i as int]);
            return false;
        }
    }
    assert(s@.subrange(0, p@.len() as int) =~= p@);
    true
}


/// Whether `p` occurs in `s`.
pub open spec fn has_sub(s: Seq<char>, p: Seq<char>) -> bool {
    exists|i: int| 0 <= i && i + p.len() <= s.len() && #[trigger] s.subrange(i, i + p.len()) == p
}

/// Whether `p` occurs in `s` (`str::contains`).
pub fn contains_sub(s: &[char], p: &[char]) -> (r: bool)
    ensures
        r == has_sub(s@, p@),
{
    if p.len() > s.len() {
        return false;
    }
    let mut i: usize = 0;
    let last = s.len() - p.len();
    while i <= last
        invariant
            last == s@.len() - p@.len(),
            p@.len() <= s@.len(),
            i <= s@.len() - p@.len() + 1,
            forall|k: int| 0 <= k < i ==> #[trigger] s@.subrange(k, k + p@.len()) != p@,
        decreases s.len() - p.len() + 1 - i,
    {
        let mut ok = true;
        let mut j: usize = 0;
        while j < p.len()
            invariant
                i + p@.len() <= s@.len(),
                i + p.len() <= s.len(),
                p@.len() <= s@.len(),
                j <= p@.len(),
                ok == (forall|q: int| 0 <= q < j ==> s@[i + q] == p@[q]),
            decreases p.len() - j,
        {
            if s[i + j] != p[j] {
                ok = false;
            }
            j = j + 1;
        }
        if ok {
            assert(s@.subrange(i as int, i + p@.len()) =~= p@);
            return true;
        }
        proof {
            let q = choose|q: int| 0 <= q < p@.len() && s@[i + q] != p@[q];
            assert(s@.subrange(i as int, i + p@.len())[q] != p@[q]);
        }
        i = i + 1;
    }
    false
}


/// What `ws_lead` finds: whitespace up to it, then a char that is not.
pub proof fn lemma_ws_lead_props(s: Seq<char>, i: int)
    requires
        0 <= i <= s.len(),
    ensures
        i <= ws_lead(s, i) <= s.len(),
        forall|k: int| i <= k < ws_lead(s, i) ==> is_whitespace_char(#[trigger] s[k]),
        ws_lead(s, i) < s.len() ==> !is_whitespace_char(s[ws_lead(s, i)]),
    decreases s.len() - i,
{
    if i < s.len() && is_whitespace_char(s[i]) {
        lemma_ws_lead_props(s, i + 1);
    }
}

/// `ws_lead` is the first position from `i` that is not whitespace.
pub proof fn lemma_ws_lead_eq(s: Seq<char>, i: int, p: int)
    requires
        0 <= i <= p <= s.len(),
        forall|k: int| i <= k < p ==> is_whitespace_char(#[trigger] s[k]),
        p == s.len() || !is_whitespace_char(s[p]),
    ensures
        ws_lead(s, i) == p,
    decreases p - i,
{
    if i < p {
        assert(is_whitespace_char(s[i]));
        lemma_ws_lead_eq(s, i + 1, p);
    }
}

/// What `ws_trail` finds: whitespace after it, and a char before it that is not.
pub proof fn lemma_ws_trail_props(s: Seq<char>, j: int)
    requires
        0 <= j <= s.len(),
    ensures
        0 <= ws_trail(s, j) <= j,
        forall|k: int| ws_trail(s, j) <= k < j ==> is_whitespace_char(#[trigger] s[k]),
        ws_trail(s, j) > 0 ==> !is_whitespace_char(s[ws_trail(s, j) - 1]),
    decreases j,
{
    if j > 0 && is_whitespace_char(s[j - 1]) {
        lemma_ws_trail_props(s, j - 1);
    }
}

/// `ws_trail` is the end of the last char before `j` that is not whitespace.
pub proof fn lemma_ws_trail_eq(s: Seq<char>, j: int, q: int)
    requires
        0 <= q <= j <= s.len(),
        forall|k: int| q <= k < j ==> is_whitespace_char(#[trigger] s[k]),
        q == 0 || !is_whitespace_char(s[q - 1]),
    ensures
        ws_trail(s, j) == q,
    decreases j - q,
{
    if q < j {
        assert(is_whitespace_char(s[j - 1]));
        lemma_ws_trail_eq(s, j - 1, q);
    }
}

/// A text without `'\n'` is one line.
pub proof fn lemma_single_line(s: Seq<char>)
    requires
        s.len() > 0,
        forall|k: int| 0 <= k < s.len() ==> s[k] != '\n',
    ensures
        lines_spec(s) == seq![s],
{
    lemma_next_nl(s, 0);
    assert(s.subrange(0, s.len() as int) =~= s);
}

} // verus!
