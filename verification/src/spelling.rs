//! Spelling validation of a syllable split into first consonant, vowel and last consonant.
//!
//! Each part is looked up in a table whose rows are space-separated entries; a pair of parts is
//! valid when the CV (or VC) matrix links one of their rows.
use vstd::prelude::*;
use crate::utils::{add_mark_toneless_spec, add_mark_to_toneless_char};

verus! {

pub open spec fn first_consonant_row(i: int) -> Seq<char> {
    if i == 0 {
        seq!['b', ' ', 'd', ' ', 'đ', ' ', 'g', ' ', 'g', 'h', ' ', 'm', ' ', 'n', ' ', 'n', 'h', ' ', 'p', ' ', 'p', 'h', ' ', 'r', ' ', 's', ' ', 't', ' ', 't', 'r', ' ', 'v', ' ', 'z']
    } else if i == 1 {
        seq!['c', ' ', 'h', ' ', 'k', ' ', 'k', 'h', ' ', 'q', 'u', ' ', 't', 'h']
    } else if i == 2 {
        seq!['c', 'h', ' ', 'g', 'i', ' ', 'l', ' ', 'n', 'g', ' ', 'n', 'g', 'h', ' ', 'x']
    } else if i == 3 {
        seq!['đ', ' ', 'l']
    } else if i == 4 {
        seq!['h']
    } else {
        Seq::empty()
    }
}

fn first_consonant_row_exec(i: usize) -> (r: Vec<char>)
    requires
        i < 5,
    ensures
        r@ == first_consonant_row(i as int),
{
    if i == 0 {
        let v = vec!['b', ' ', 'd', ' ', 'đ', ' ', 'g', ' ', 'g', 'h', ' ', 'm', ' ', 'n', ' ', 'n', 'h', ' ', 'p', ' ', 'p', 'h', ' ', 'r', ' ', 's', ' ', 't', ' ', 't', 'r', ' ', 'v', ' ', 'z'];
        assert(v@ =~= first_consonant_row(0));
        v
    } else if i == 1 {
        let v = vec!['c', ' ', 'h', ' ', 'k', ' ', 'k', 'h', ' ', 'q', 'u', ' ', 't', 'h'];
        assert(v@ =~= first_consonant_row(1));
        v
    } else if i == 2 {
        let v = vec!['c', 'h', ' ', 'g', 'i', ' ', 'l', ' ', 'n', 'g', ' ', 'n', 'g', 'h', ' ', 'x'];
        assert(v@ =~= first_consonant_row(2));
        v
    } else if i == 3 {
        let v = vec!['đ', ' ', 'l'];
        assert(v@ =~= first_consonant_row(3));
        v
    } else if i == 4 {
        let v = vec!['h'];
        assert(v@ =~= first_consonant_row(4));
        v
    } else {
        Vec::new()
    }
}

pub open spec fn vowel_row(i: int) -> Seq<char> {
    if i == 0 {
        seq!['ê', ' ', 'i', ' ', 'u', 'a', ' ', 'u', 'ê', ' ', 'u', 'y', ' ', 'y']
    } else if i == 1 {
        seq!['a', ' ', 'i', 'ê', ' ', 'o', 'a', ' ', 'u', 'y', 'ê', ' ', 'y', 'ê']
    } else if i == 2 {
        seq!['â', ' ', 'ă', ' ', 'e', ' ', 'o', ' ', 'o', 'o', ' ', 'ô', ' ', 'ơ', ' ', 'o', 'e', ' ', 'u', ' ', 'ư', ' ', 'u', 'â', ' ', 'u', 'ô', ' ', 'ư', 'ơ']
    } else if i == 3 {
        seq!['o', 'ă']
    } else if i == 4 {
        seq!['u', 'ơ']
    } else if i == 5 {
        seq!['a', 'i', ' ', 'a', 'o', ' ', 'a', 'u', ' ', 'â', 'u', ' ', 'a', 'y', ' ', 'â', 'y', ' ', 'e', 'o', ' ', 'ê', 'u', ' ', 'i', 'a', ' ', 'i', 'ê', 'u', ' ', 'i', 'u', ' ', 'o', 'a', 'i', ' ', 'o', 'a', 'o', ' ', 'o', 'a', 'y', ' ', 'o', 'e', 'o', ' ', 'o', 'i', ' ', 'ô', 'i', ' ', 'ơ', 'i', ' ', 'ư', 'a', ' ', 'u', 'â', 'y', ' ', 'u', 'i', ' ', 'ư', 'i', ' ', 'u', 'ô', 'i', ' ', 'ư', 'ơ', 'i', ' ', 'ư', 'ơ', 'u', ' ', 'ư', 'u', ' ', 'u', 'y', 'a', ' ', 'u', 'y', 'u', ' ', 'y', 'ê', 'u']
    } else if i == 6 {
        seq!['ă']
    } else if i == 7 {
        seq!['i']
    } else {
        Seq::empty()
    }
}

fn vowel_row_exec(i: usize) -> (r: Vec<char>)
    requires
        i < 8,
    ensures
        r@ == vowel_row(i as int),
{
    if i == 0 {
        let v = vec!['ê', ' ', 'i', ' ', 'u', 'a', ' ', 'u', 'ê', ' ', 'u', 'y', ' ', 'y'];
        assert(v@ =~= vowel_row(0));
        v
    } else if i == 1 {
        let v = vec!['a', ' ', 'i', 'ê', ' ', 'o', 'a', ' ', 'u', 'y', 'ê', ' ', 'y', 'ê'];
        assert(v@ =~= vowel_row(1));
        v
    } else if i == 2 {
        let v = vec!['â', ' ', 'ă', ' ', 'e', ' ', 'o', ' ', 'o', 'o', ' ', 'ô', ' ', 'ơ', ' ', 'o', 'e', ' ', 'u', ' ', 'ư', ' ', 'u', 'â', ' ', 'u', 'ô', ' ', 'ư', 'ơ'];
        assert(v@ =~= vowel_row(2));
        v
    } else if i == 3 {
        let v = vec!['o', 'ă'];
        assert(v@ =~= vowel_row(3));
        v
    } else if i == 4 {
        let v = vec!['u', 'ơ'];
        assert(v@ =~= vowel_row(4));
        v
    } else if i == 5 {
        let v = vec!['a', 'i', ' ', 'a', 'o', ' ', 'a', 'u', ' ', 'â', 'u', ' ', 'a', 'y', ' ', 'â', 'y', ' ', 'e', 'o', ' ', 'ê', 'u', ' ', 'i', 'a', ' ', 'i', 'ê', 'u', ' ', 'i', 'u', ' ', 'o', 'a', 'i', ' ', 'o', 'a', 'o', ' ', 'o', 'a', 'y', ' ', 'o', 'e', 'o', ' ', 'o', 'i', ' ', 'ô', 'i', ' ', 'ơ', 'i', ' ', 'ư', 'a', ' ', 'u', 'â', 'y', ' ', 'u', 'i', ' ', 'ư', 'i', ' ', 'u', 'ô', 'i', ' ', 'ư', 'ơ', 'i', ' ', 'ư', 'ơ', 'u', ' ', 'ư', 'u', ' ', 'u', 'y', 'a', ' ', 'u', 'y', 'u', ' ', 'y', 'ê', 'u'];
        assert(v@ =~= vowel_row(5));
        v
    } else if i == 6 {
        let v = vec!['ă'];
        assert(v@ =~= vowel_row(6));
        v
    } else if i == 7 {
        let v = vec!['i'];
        assert(v@ =~= vowel_row(7));
        v
    } else {
        Vec::new()
    }
}

pub open spec fn last_consonant_row(i: int) -> Seq<char> {
    if i == 0 {
        seq!['c', 'h', ' ', 'n', 'h']
    } else if i == 1 {
        seq!['c', ' ', 'n', 'g']
    } else if i == 2 {
        seq!['m', ' ', 'n', ' ', 'p', ' ', 't']
    } else if i == 3 {
        seq!['k']
    } else if i == 4 {
        seq!['c']
    } else {
        Seq::empty()
    }
}

fn last_consonant_row_exec(i: usize) -> (r: Vec<char>)
    requires
        i < 5,
    ensures
        r@ == last_consonant_row(i as int),
{
    if i == 0 {
        let v = vec!['c', 'h', ' ', 'n', 'h'];
        assert(v@ =~= last_consonant_row(0));
        v
    } else if i == 1 {
        let v = vec!['c', ' ', 'n', 'g'];
        assert(v@ =~= last_consonant_row(1));
        v
    } else if i == 2 {
        let v = vec!['m', ' ', 'n', ' ', 'p', ' ', 't'];
        assert(v@ =~= last_consonant_row(2));
        v
    } else if i == 3 {
        let v = vec!['k'];
        assert(v@ =~= last_consonant_row(3));
        v
    } else if i == 4 {
        let v = vec!['c'];
        assert(v@ =~= last_consonant_row(4));
        v
    } else {
        Vec::new()
    }
}


/// Which table: 0 first consonants, 1 vowels, 2 last consonants.
pub open spec fn table_row(t: u8, i: int) -> Seq<char> {
    if t == 0 {
        first_consonant_row(i)
    } else if t == 1 {
        vowel_row(i)
    } else {
        last_consonant_row(i)
    }
}

pub open spec fn table_len(t: u8) -> nat {
    if t == 0 {
        5
    } else if t == 1 {
        8
    } else {
        5
    }
}

fn table_row_exec(t: u8, i: usize) -> (r: Vec<char>)
    requires
        t <= 2,
        i < table_len(t),
    ensures
        r@ == table_row(t, i as int),
{
    if t == 0 {
        first_consonant_row_exec(i)
    } else if t == 1 {
        vowel_row_exec(i)
    } else {
        last_consonant_row_exec(i)
    }
}

/// The char sequences held by a sequence of vectors.
pub open spec fn vviews(v: Seq<Vec<char>>) -> Seq<Seq<char>> {
    v.map_values(|e: Vec<char>| e@)
}

/// Splitting a row left to right: the entries closed so far and the entry being read.
pub open spec fn split_state(s: Seq<char>) -> (Seq<Seq<char>>, Seq<char>)
    decreases s.len(),
{
    if s.len() == 0 {
        (Seq::empty(), Seq::empty())
    } else {
        let (done, cur) = split_state(s.drop_last());
        if s.last() == ' ' {
            (done.push(cur), Seq::empty())
        } else {
            (done, cur.push(s.last()))
        }
    }
}

/// The space-separated entries of a row.
pub open spec fn entries(s: Seq<char>) -> Seq<Seq<char>> {
    split_state(s.push(' ')).0
}

/// `input` matches the table entry `canvas`: it is not longer, it is exactly as long when the
/// input is full, and each char equals the entry's char (or, while the input is incomplete, the
/// entry's char without its mark).
pub open spec fn entry_matches(canvas: Seq<char>, input: Seq<char>, full: bool, complete: bool) -> bool {
    &&& canvas.len() >= input.len()
    &&& !(full && canvas.len() > input.len())
    &&& forall|k: int| 0 <= k < input.len() ==> #[trigger] input[k] == canvas[k]
        || (!complete && add_mark_toneless_spec(canvas[k], 0) == input[k])
}

pub open spec fn row_matches(t: u8, i: int, input: Seq<char>, full: bool, complete: bool) -> bool {
    exists|j: int| 0 <= j < entries(table_row(t, i)).len()
        && entry_matches(#[trigger] entries(table_row(t, i))[j], input, full, complete)
}

/// The rows among the first `n` that have an entry matching `input`, in increasing order.
pub open spec fn lookup_upto(t: u8, n: int, input: Seq<char>, full: bool, complete: bool) -> Seq<usize>
    decreases n,
{
    if n <= 0 {
        Seq::empty()
    } else if row_matches(t, n - 1, input, full, complete) {
        lookup_upto(t, n - 1, input, full, complete).push((n - 1) as usize)
    } else {
        lookup_upto(t, n - 1, input, full, complete)
    }
}

pub open spec fn lookup_spec(t: u8, input: Seq<char>, full: bool, complete: bool) -> Seq<usize> {
    lookup_upto(t, table_len(t) as int, input, full, complete)
}

fn split_entries(row: &Vec<char>) -> (r: Vec<Vec<char>>)
    ensures
        vviews(r@) == entries(row@),
{
    let mut s: Vec<char> = Vec::new();
    for k in 0..row.len()
        invariant
            s@ == row@.take(k as int),
    {
        s.push(row[k]);
        assert(s@ =~= row@.take(k + 1));
    }
    s.push(' ');
    assert(s@ =~= row@.push(' '));
    let mut done: Vec<Vec<char>> = Vec::new();
    let mut cur: Vec<char> = Vec::new();
    let n = s.len();
    for j in 0..n
        invariant
            n == s@.len(),
            vviews(done@) == split_state(s@.take(j as int)).0,
            cur@ == split_state(s@.take(j as int)).1,
    {
        assert(s@.take(j + 1).drop_last() =~= s@.take(j as int));
        let c = s[j];
        if c == ' ' {
            let ghost old_done = done@;
            let finished = cur;
            cur = Vec::new();
            done.push(finished);
            assert(vviews(done@) =~= vviews(old_done).push(finished@));
        } else {
            cur.push(c);
        }
    }
    assert(s@.take(n as int) =~= s@);
    done
}

fn entry_matches_exec(canvas: &Vec<char>, input: &[char], full: bool, complete: bool) -> (r: bool)
    ensures
        r == entry_matches(canvas@, input@, full, complete),
{
    if canvas.len() < input.len() || (full && canvas.len() > input.len()) {
        return false;
    }
    for k in 0..input.len()
        invariant
            canvas@.len() >= input@.len(),
            forall|kk: int| 0 <= kk < k ==> #[trigger] input@[kk] == canvas@[kk]
                || (!complete && add_mark_toneless_spec(canvas@[kk], 0) == input@[kk]),
    {
        if input[k] != canvas[k] && !(!complete && add_mark_to_toneless_char(canvas[k], 0) == input[k]) {
            return false;
        }
    }
    true
}

fn row_has_match(ents: &Vec<Vec<char>>, input: &[char], full: bool, complete: bool) -> (r: bool)
    ensures
        r == (exists|j: int| 0 <= j < ents@.len()
            && entry_matches(#[trigger] vviews(ents@)[j], input@, full, complete)),
{
    let ghost ev = vviews(ents@);
    for j in 0..ents.len()
        invariant
            ev == vviews(ents@),
            forall|jj: int| 0 <= jj < j ==> !entry_matches(#[trigger] ev[jj], input@, full, complete),
    {
        assert(ev[j as int] == ents@[j as int]@);
        if entry_matches_exec(&ents[j], input, full, complete) {
            return true;
        }
    }
    false
}

/// The rows of table `t` that have an entry matching `input` (empty when none does).
fn lookup(t: u8, input: &[char], input_is_full: bool, input_is_complete: bool) -> (r: Vec<usize>)
    requires
        t <= 2,
    ensures
        r@ == lookup_spec(t, input@, input_is_full, input_is_complete),
{
    let n: usize = if t == 0 { 5 } else if t == 1 { 8 } else { 5 };
    let mut ret: Vec<usize> = Vec::new();
    for index in 0..n
        invariant
            t <= 2,
            n == table_len(t),
            ret@ == lookup_upto(t, index as int, input@, input_is_full, input_is_complete),
    {
        let row = table_row_exec(t, index);
        let ents = split_entries(&row);
        if row_has_match(&ents, input, input_is_full, input_is_complete) {
            ret.push(index);
        }
    }
    ret
}

pub open spec fn cv_matrix(i: int) -> Seq<usize> {
    if i == 0 {
        seq![0, 1, 2, 5]
    } else if i == 1 {
        seq![0, 1, 2, 3, 4, 5]
    } else if i == 2 {
        seq![0, 1, 2, 3, 5]
    } else if i == 3 {
        seq![6]
    } else if i == 4 {
        seq![7]
    } else {
        Seq::empty()
    }
}

pub open spec fn vc_matrix(i: int) -> Seq<usize> {
    if i == 0 {
        seq![0, 2]
    } else if i == 1 {
        seq![0, 1, 2]
    } else if i == 2 {
        seq![1, 2]
    } else if i == 3 {
        seq![1, 2]
    } else if i == 6 {
        seq![3]
    } else if i == 7 {
        seq![4]
    } else {
        Seq::empty()
    }
}

fn cv_matrix_exec(i: usize) -> (r: Vec<usize>)
    ensures
        r@ == cv_matrix(i as int),
{
    let v: Vec<usize> = if i == 0 {
        vec![0, 1, 2, 5]
    } else if i == 1 {
        vec![0, 1, 2, 3, 4, 5]
    } else if i == 2 {
        vec![0, 1, 2, 3, 5]
    } else if i == 3 {
        vec![6]
    } else if i == 4 {
        vec![7]
    } else {
        Vec::new()
    };
    assert(v@ =~= cv_matrix(i as int));
    v
}

fn vc_matrix_exec(i: usize) -> (r: Vec<usize>)
    ensures
        r@ == vc_matrix(i as int),
{
    let v: Vec<usize> = if i == 0 {
        vec![0, 2]
    } else if i == 1 {
        vec![0, 1, 2]
    } else if i == 2 {
        vec![1, 2]
    } else if i == 3 {
        vec![1, 2]
    } else if i == 6 {
        vec![3]
    } else if i == 7 {
        vec![4]
    } else {
        Vec::new()
    };
    assert(v@ =~= vc_matrix(i as int));
    v
}

pub open spec fn matrix_row(cv: bool, i: int) -> Seq<usize> {
    if cv {
        cv_matrix(i)
    } else {
        vc_matrix(i)
    }
}

/// Some row of `a` is linked by `matrix` to some row of `b`.
pub open spec fn linked(a: Seq<usize>, b: Seq<usize>, cv: bool) -> bool {
    exists|x: int, y: int, z: int|
        #![trigger a[x], b[z], matrix_row(cv, a[x] as int)[y]]
        0 <= x < a.len() && 0 <= z < b.len()
        && 0 <= y < matrix_row(cv, a[x] as int).len()
        && matrix_row(cv, a[x] as int)[y] == b[z]
}

fn is_linked(a: &Vec<usize>, b: &Vec<usize>, cv: bool) -> (r: bool)
    ensures
        r == linked(a@, b@, cv),
{
    for x in 0..a.len()
        invariant
            forall|xx: int, y: int, z: int|
                #![trigger a@[xx], b@[z], matrix_row(cv, a@[xx] as int)[y]]
                0 <= xx < x && 0 <= z < b@.len()
                && 0 <= y < matrix_row(cv, a@[xx] as int).len()
                ==> matrix_row(cv, a@[xx] as int)[y] != b@[z],
    {
        let row = if cv { cv_matrix_exec(a[x]) } else { vc_matrix_exec(a[x]) };
        for y in 0..row.len()
            invariant
                0 <= x < a@.len(),
                row@ == matrix_row(cv, a@[x as int] as int),
                forall|xx: int, yy: int, z: int|
                    #![trigger a@[xx], b@[z], matrix_row(cv, a@[xx] as int)[yy]]
                    0 <= xx < x && 0 <= z < b@.len()
                    && 0 <= yy < matrix_row(cv, a@[xx] as int).len()
                    ==> matrix_row(cv, a@[xx] as int)[yy] != b@[z],
                forall|yy: int, z: int| 0 <= yy < y && 0 <= z < b@.len() ==> #[trigger] row@[yy] != #[trigger] b@[z],
        {
            for z in 0..b.len()
                invariant
                    0 <= x < a@.len(),
                    row@ == matrix_row(cv, a@[x as int] as int),
                    0 <= y < row@.len(),
                    forall|zz: int| 0 <= zz < z ==> row@[y as int] != #[trigger] b@[zz],
            {
                if row[y] == b[z] {
                    assert(matrix_row(cv, a@[x as int] as int)[y as int] == b@[z as int]);
                    return true;
                }
            }
        }
    }
    false
}

pub open spec fn is_valid_cvc_spec(fc: Seq<char>, vo: Seq<char>, lc: Seq<char>, full_complete: bool) -> bool {
    let fci = lookup_spec(0, fc, full_complete || vo.len() > 0, true);
    let voi = lookup_spec(1, vo, full_complete || lc.len() > 0, full_complete);
    let lci = lookup_spec(2, lc, full_complete, true);
    if fc.len() > 0 && fci.len() == 0 {
        false
    } else if vo.len() > 0 && voi.len() == 0 {
        false
    } else if lc.len() > 0 && lci.len() == 0 {
        false
    } else if vo.len() == 0 {
        fc.len() > 0
    } else if fc.len() > 0 && (!linked(fci, voi, true) || lc.len() == 0) {
        linked(fci, voi, true)
    } else if lc.len() > 0 {
        linked(voi, lci, false)
    } else {
        true
    }
}

/// Whether the parts form a valid syllable (or, while the input is incomplete, a valid prefix).
pub fn is_valid_cvc(fc: &[char], vo: &[char], lc: &[char], input_is_full_complete: bool) -> (r: bool)
    ensures
        r == is_valid_cvc_spec(fc@, vo@, lc@, input_is_full_complete),
{
    let mut fc_indexes: Vec<usize> = Vec::new();
    let mut vo_indexes: Vec<usize> = Vec::new();
    let mut lc_indexes: Vec<usize> = Vec::new();
    if fc.len() > 0 {
        fc_indexes = lookup(0, fc, input_is_full_complete || vo.len() > 0, true);
        if fc_indexes.len() == 0 {
            return false;
        }
    }
    if vo.len() > 0 {
        vo_indexes = lookup(1, vo, input_is_full_complete || lc.len() > 0, input_is_full_complete);
        if vo_indexes.len() == 0 {
            return false;
        }
    }
    if lc.len() > 0 {
        lc_indexes = lookup(2, lc, input_is_full_complete, true);
        if lc_indexes.len() == 0 {
            return false;
        }
    }
    if vo_indexes.len() == 0 {
        return fc_indexes.len() > 0;
    }
    if fc_indexes.len() > 0 {
        let ret = is_linked(&fc_indexes, &vo_indexes, true);
        if !ret || lc_indexes.len() == 0 {
            return ret;
        }
    }
    if lc_indexes.len() > 0 {
        is_linked(&vo_indexes, &lc_indexes, false)
    } else {
        true
    }
}


/// While a row is split, the entry being read is everything after the last space.
proof fn lemma_split_current(s: Seq<char>, i: int)
    requires
        0 <= i <= s.len(),
        i == 0 || s[i - 1] == ' ',
        forall|k: int| i <= k < s.len() ==> s[k] != ' ',
    ensures
        split_state(s).1 == s.subrange(i, s.len() as int),
    decreases s.len(),
{
    if s.len() == 0 {
        assert(s.subrange(i, 0) =~= Seq::<char>::empty());
    } else if i == s.len() {
        assert(s.subrange(i, s.len() as int) =~= Seq::<char>::empty());
    } else {
        let t = s.drop_last();
        lemma_split_current(t, i);
        assert(s.subrange(i, s.len() as int) =~= t.subrange(i, t.len() as int).push(s.last()));
    }
}

/// A word that a space closes is among the closed entries.
proof fn lemma_split_done(s: Seq<char>, i: int, n: int)
    requires
        0 <= i <= n < s.len(),
        i == 0 || s[i - 1] == ' ',
        s[n] == ' ',
        forall|k: int| i <= k < n ==> s[k] != ' ',
    ensures
        split_state(s).0.contains(s.subrange(i, n)),
    decreases s.len(),
{
    let t = s.drop_last();
    assert(t.subrange(i, n) =~= s.subrange(i, n));
    if n == t.len() {
        lemma_split_current(t, i);
        let done = split_state(t).0;
        assert(split_state(s).0 == done.push(split_state(t).1));
        assert(split_state(s).0[done.len() as int] == s.subrange(i, n));
    } else {
        lemma_split_done(t, i, n);
        let d = split_state(t).0;
        let j = choose|j: int| 0 <= j < d.len() && d[j] == t.subrange(i, n);
        assert(split_state(s).0[j] == d[j]);
    }
}

/// A space-delimited word of a row is one of its entries.
proof fn lemma_row_entry(row: Seq<char>, i: int, n: int)
    requires
        0 <= i < n <= row.len(),
        i == 0 || row[i - 1] == ' ',
        n == row.len() || row[n] == ' ',
        forall|k: int| i <= k < n ==> row[k] != ' ',
    ensures
        entries(row).contains(row.subrange(i, n)),
{
    let s = row.push(' ');
    lemma_split_done(s, i, n);
    assert(s.subrange(i, n) =~= row.subrange(i, n));
}

proof fn lemma_lookup_upto_has(t: u8, n: int, input: Seq<char>, full: bool, complete: bool, i: int)
    requires
        0 <= i < n,
        row_matches(t, i, input, full, complete),
    ensures
        lookup_upto(t, n, input, full, complete).contains(i as usize),
    decreases n,
{
    if i == n - 1 {
        let l = lookup_upto(t, n, input, full, complete);
        assert(l[l.len() - 1] == i as usize);
    } else {
        lemma_lookup_upto_has(t, n - 1, input, full, complete, i);
        let l0 = lookup_upto(t, n - 1, input, full, complete);
        let j = choose|j: int| 0 <= j < l0.len() && l0[j] == i as usize;
        assert(lookup_upto(t, n, input, full, complete)[j] == i as usize);
    }
}

/// A word of row `r` of table `t`, read as a whole, is found in row `r`.
proof fn lemma_table_word(t: u8, r: int, i: int, n: int)
    requires
        0 <= r < table_len(t),
        0 <= i < n <= table_row(t, r).len(),
        i == 0 || table_row(t, r)[i - 1] == ' ',
        n == table_row(t, r).len() || table_row(t, r)[n] == ' ',
        forall|k: int| i <= k < n ==> table_row(t, r)[k] != ' ',
    ensures
        lookup_spec(t, table_row(t, r).subrange(i, n), true, true).contains(r as usize),
{
    let row = table_row(t, r);
    let w = row.subrange(i, n);
    lemma_row_entry(row, i, n);
    let j = choose|j: int| 0 <= j < entries(row).len() && entries(row)[j] == w;
    assert(entry_matches(entries(row)[j], w, true, true));
    assert(row_matches(t, r, w, true, true));
    lemma_lookup_upto_has(t, table_len(t) as int, w, true, true, r);
}

/// The initial consonants of Vietnamese spelling.
pub open spec fn standard_initials() -> Seq<Seq<char>> {
    seq![
        seq!['b'], seq!['c'], seq!['c', 'h'], seq!['d'], seq!['đ'], seq!['g'], seq!['g', 'h'],
        seq!['g', 'i'], seq!['h'], seq!['k'], seq!['k', 'h'], seq!['l'], seq!['m'], seq!['n'],
        seq!['n', 'g'], seq!['n', 'g', 'h'], seq!['n', 'h'], seq!['p'], seq!['p', 'h'],
        seq!['q', 'u'], seq!['r'], seq!['s'], seq!['t'], seq!['t', 'h'], seq!['t', 'r'],
        seq!['v'], seq!['x'],
    ]
}

/// Whether the initial is written only before a front vowel (e, ê, i, y).
pub open spec fn front_vowel_initial(c: Seq<char>) -> bool {
    c == seq!['g', 'h'] || c == seq!['k'] || c == seq!['n', 'g', 'h']
}

proof fn lemma_initial_with_a(c: Seq<char>, r: int)
    requires
        c.len() > 0,
        0 <= r < 3,
        lookup_spec(0, c, true, true).contains(r as usize),
    ensures
        is_valid_cvc_spec(c, seq![], seq![], true),
        is_valid_cvc_spec(c, seq!['a'], seq![], true),
{
    let a = seq!['a'];
    lemma_table_word(1, 1, 0, 1);
    assert(vowel_row(1).subrange(0, 1) =~= a);
    let fci = lookup_spec(0, c, true, true);
    let voi = lookup_spec(1, a, true, true);
    let x = choose|x: int| 0 <= x < fci.len() && fci[x] == r as usize;
    let z = choose|z: int| 0 <= z < voi.len() && voi[z] == 1usize;
    assert(matrix_row(true, fci[x] as int)[1] == voi[z]);
    assert(linked(fci, voi, true));
}

/// Each standard Vietnamese initial is a first consonant of the spelling tables: on its own it
/// is a valid syllable start, and followed by the vowel `a` (for the initials that are not kept
/// for front vowels) it makes a valid syllable, such as "pha", "qua" or "gia".
pub proof fn lemma_standard_initials_valid(k: int)
    requires
        0 <= k < standard_initials().len(),
    ensures
        is_valid_cvc_spec(standard_initials()[k], seq![], seq![], true),
        !front_vowel_initial(standard_initials()[k])
            ==> is_valid_cvc_spec(standard_initials()[k], seq!['a'], seq![], true),
{
    let c = standard_initials()[k];
    let (r, i, n): (int, int, int) = if k == 0 { (0, 0, 1) }
        else if k == 1 { (1, 0, 1) }
        else if k == 2 { (2, 0, 2) }
        else if k == 3 { (0, 2, 3) }
        else if k == 4 { (0, 4, 5) }
        else if k == 5 { (0, 6, 7) }
        else if k == 6 { (0, 8, 10) }
        else if k == 7 { (2, 3, 5) }
        else if k == 8 { (1, 2, 3) }
        else if k == 9 { (1, 4, 5) }
        else if k == 10 { (1, 6, 8) }
        else if k == 11 { (2, 6, 7) }
        else if k == 12 { (0, 11, 12) }
        else if k == 13 { (0, 13, 14) }
        else if k == 14 { (2, 8, 10) }
        else if k == 15 { (2, 11, 14) }
        else if k == 16 { (0, 15, 17) }
        else if k == 17 { (0, 18, 19) }
        else if k == 18 { (0, 20, 22) }
        else if k == 19 { (1, 9, 11) }
        else if k == 20 { (0, 23, 24) }
        else if k == 21 { (0, 25, 26) }
        else if k == 22 { (0, 27, 28) }
        else if k == 23 { (1, 12, 14) }
        else if k == 24 { (0, 29, 31) }
        else if k == 25 { (0, 32, 33) }
        else { (2, 15, 16) };
    lemma_table_word(0, r, i, n);
    assert(first_consonant_row(r).subrange(i, n) =~= c);
    lemma_initial_with_a(c, r);
}


/// The vowels of Vietnamese spelling.
pub open spec fn standard_vowels() -> Seq<char> {
    seq!['a', 'ă', 'â', 'e', 'ê', 'i', 'o', 'ô', 'ơ', 'u', 'ư', 'y']
}

/// Each Vietnamese vowel on its own is a valid syllable.
pub proof fn lemma_standard_vowels_valid(k: int)
    requires
        0 <= k < standard_vowels().len(),
    ensures
        is_valid_cvc_spec(seq![], seq![standard_vowels()[k]], seq![], true),
{
    let v = seq![standard_vowels()[k]];
    let (r, i): (int, int) = if k == 0 { (1, 0) }
        else if k == 1 { (2, 2) }
        else if k == 2 { (2, 0) }
        else if k == 3 { (2, 4) }
        else if k == 4 { (0, 0) }
        else if k == 5 { (0, 2) }
        else if k == 6 { (2, 6) }
        else if k == 7 { (2, 11) }
        else if k == 8 { (2, 13) }
        else if k == 9 { (2, 18) }
        else if k == 10 { (2, 20) }
        else { (0, 13) };
    lemma_table_word(1, r, i, i + 1);
    assert(vowel_row(r).subrange(i, i + 1) =~= v);
}

/// The final consonants of Vietnamese spelling.
pub open spec fn standard_finals() -> Seq<Seq<char>> {
    seq![seq!['c'], seq!['c', 'h'], seq!['m'], seq!['n'], seq!['n', 'g'], seq!['n', 'h'], seq!['p'], seq!['t']]
}

/// Each Vietnamese final consonant closes the vowel `a` into a valid syllable ("ác", "anh",
/// "am", ...).
pub proof fn lemma_standard_finals_valid(k: int)
    requires
        0 <= k < standard_finals().len(),
    ensures
        is_valid_cvc_spec(seq![], seq!['a'], standard_finals()[k], true),
{
    let f = standard_finals()[k];
    let (r, i, n): (int, int, int) = if k == 0 { (1, 0, 1) }
        else if k == 1 { (0, 0, 2) }
        else if k == 2 { (2, 0, 1) }
        else if k == 3 { (2, 2, 3) }
        else if k == 4 { (1, 2, 4) }
        else if k == 5 { (0, 3, 5) }
        else if k == 6 { (2, 4, 5) }
        else { (2, 6, 7) };
    lemma_table_word(2, r, i, n);
    assert(last_consonant_row(r).subrange(i, n) =~= f);
    let a = seq!['a'];
    lemma_table_word(1, 1, 0, 1);
    assert(vowel_row(1).subrange(0, 1) =~= a);
    let voi = lookup_spec(1, a, true, true);
    let lci = lookup_spec(2, f, true, true);
    let x = choose|x: int| 0 <= x < voi.len() && voi[x] == 1usize;
    let z = choose|z: int| 0 <= z < lci.len() && lci[z] == r as usize;
    assert(matrix_row(false, voi[x] as int)[r] == lci[z]);
    assert(linked(voi, lci, false));
}

} // verus!
