//! The class of a window from the value of its `WM_CLASS` property.
use vstd::prelude::*;
use crate::engine_core::{lossy_utf8, utf8_lossy};
use crate::unicode::string_from_chars;

verus! {

/// The pieces of `s` between NUL bytes (`[u8]::split` on 0): one more than there are NULs.
pub open spec fn nul_split(s: Seq<u8>) -> Seq<Seq<u8>>
    decreases s.len(),
{
    if s.len() == 0 {
        seq![Seq::empty()]
    } else if s.last() == 0 {
        nul_split(s.drop_last()).push(Seq::empty())
    } else {
        let g = nul_split(s.drop_last());
        g.update(g.len() - 1, g.last().push(s.last()))
    }
}

/// The pieces that are not empty, in order.
pub open spec fn non_empty(g: Seq<Seq<u8>>) -> Seq<Seq<u8>>
    decreases g.len(),
{
    if g.len() == 0 {
        Seq::empty()
    } else {
        non_empty(g.drop_last()) + if g.last().len() > 0 { seq![g.last()] } else { Seq::empty() }
    }
}

/// The class of a `WM_CLASS` value (instance then class, NUL-separated, empty pieces skipped):
/// the second piece if there are two or more, the first if it is alone, none if there is none;
/// decoded as UTF-8 with invalid sequences replaced.
pub open spec fn wm_class_spec(value: Seq<u8>) -> Option<Seq<char>> {
    let p = non_empty(nul_split(value));
    if p.len() == 0 {
        None
    } else if p.len() == 1 {
        Some(utf8_lossy(p[0]))
    } else {
        Some(utf8_lossy(p[1]))
    }
}

proof fn lemma_nul_split_len(s: Seq<u8>)
    ensures
        nul_split(s).len() >= 1,
    decreases s.len(),
{
    if s.len() > 0 {
        lemma_nul_split_len(s.drop_last());
    }
}

pub open spec fn bytes_view(v: Seq<Vec<u8>>) -> Seq<Seq<u8>> {
    v.map_values(|b: Vec<u8>| b@)
}

/// Parses a `WM_CLASS` value (see `wm_class_spec`).
pub fn parse_wm_class(value: &[u8]) -> (r: Option<String>)
    ensures
        match r {
            Some(s) => wm_class_spec(value@) == Some(s@),
            None => wm_class_spec(value@).is_none(),
        },
{
    let mut done: Vec<Vec<u8>> = Vec::new();
    let mut cur: Vec<u8> = Vec::new();
    for i in 0..value.len()
        invariant
            ({
                let g = nul_split(value@.take(i as int));
                &&& g.len() >= 1
                &&& bytes_view(done@) == non_empty(g.drop_last())
                &&& cur@ == g.last()
            }),
    {
        let ghost g = nul_split(value@.take(i as int));
        assert(value@.take(i + 1).drop_last() =~= value@.take(i as int));
        if value[i] == 0 {
            if cur.len() > 0 {
                let ghost d = bytes_view(done@);
                done.push(cur);
                assert(bytes_view(done@) =~= d.push(g.last()));
            }
            assert(nul_split(value@.take(i + 1)).drop_last() =~= g);
            assert(g.drop_last().push(g.last()) =~= g);
            cur = Vec::new();
        } else {
            cur.push(value[i]);
            assert(nul_split(value@.take(i + 1)).drop_last() =~= g.drop_last());
        }
    }
    let ghost g = nul_split(value@.take(value@.len() as int));
    assert(value@.take(value@.len() as int) =~= value@);
    assert(g.drop_last().push(g.last()) =~= g);
    if cur.len() > 0 {
        let ghost d = bytes_view(done@);
        done.push(cur);
        assert(bytes_view(done@) =~= d.push(g.last()));
    }
    assert(bytes_view(done@) == non_empty(nul_split(value@)));
    if done.len() == 0 {
        None
    } else if done.len() == 1 {
        Some(string_from_chars(&lossy_utf8(done[0].as_slice())))
    } else {
        Some(string_from_chars(&lossy_utf8(done[1].as_slice())))
    }
}

} // verus!
