//! Correcting committed text by deleting backwards: how many chars to delete and what to type
//! again to turn the text shown into the new text, and the actions that do it in each input
//! mode.
use vstd::prelude::*;
use crate::action::{Action, ActionV, actions_view, push_action};
use crate::config::flags as cfg;
use crate::unicode::{str_chars, string_from_chars};

verus! {

/// Delete `backspaces` chars, then insert `insert`.
#[derive(Debug, Clone, PartialEq, Eq)]
pub struct Correction {
    pub backspaces: usize,
    pub insert: String,
}

/// The length of the common prefix of `a` and `b` from `i` on.
pub open spec fn common_from(a: Seq<char>, b: Seq<char>, i: int) -> int
    decreases a.len() - i,
{
    if 0 <= i && i < a.len() && i < b.len() && a[i] == b[i] {
        common_from(a, b, i + 1)
    } else {
        i
    }
}

/// The length of the longest common prefix of `a` and `b`.
pub open spec fn common_prefix_len(a: Seq<char>, b: Seq<char>) -> int {
    common_from(a, b, 0)
}

pub proof fn lemma_common_from(a: Seq<char>, b: Seq<char>, i: int)
    requires
        0 <= i <= a.len(),
        i <= b.len(),
        a.subrange(0, i) == b.subrange(0, i),
    ensures
        i <= common_from(a, b, i) <= a.len(),
        common_from(a, b, i) <= b.len(),
        a.subrange(0, common_from(a, b, i)) == b.subrange(0, common_from(a, b, i)),
        common_from(a, b, i) < a.len() && common_from(a, b, i) < b.len() ==> a[common_from(a, b, i)] != b[common_from(a, b, i)],
    decreases a.len() - i,
{
    if i < a.len() && i < b.len() && a[i] == b[i] {
        assert(a.subrange(0, i + 1) =~= a.subrange(0, i).push(a[i]));
        assert(b.subrange(0, i + 1) =~= b.subrange(0, i).push(b[i]));
        lemma_common_from(a, b, i + 1);
    }
}

/// The correction from `old` to `new`: delete what follows their longest common prefix in
/// `old`, insert what follows it in `new` (counted in chars, not bytes).
pub fn diff_correction(old: &str, new: &str) -> (c: Correction)
    ensures
        c.backspaces == old@.len() - common_prefix_len(old@, new@),
        c.insert@ == new@.subrange(common_prefix_len(old@, new@), new@.len() as int),
{
    let o = str_chars(old);
    let n = str_chars(new);
    let max = if o.len() < n.len() { o.len() } else { n.len() };
    let mut common: usize = 0;
    proof { assert(o@.subrange(0, 0) =~= n@.subrange(0, 0)); }
    while common < max && o[common] == n[common]
        invariant
            common <= max,
            max <= o@.len(),
            max <= n@.len(),
            max == o@.len() || max == n@.len(),
            common_from(o@, n@, 0) == common_from(o@, n@, common as int),
        decreases max - common,
    {
        common = common + 1;
    }
    let insert = crate::rules_parser::chars_range(&n, common, n.len());
    Correction { backspaces: o.len() - common, insert: string_from_chars(&insert) }
}

/// The actions that carry out a correction: the deletion through the surrounding text, injected
/// BackSpace keys (XTest) or forwarded BackSpace keys (any other mode), then the insertion as a
/// commit; nothing for an empty part.
pub open spec fn correction_actions_spec(input_mode: i32, backspaces: usize, insert: Seq<char>) -> Seq<ActionV> {
    let n = backspaces as u32;
    let del = if backspaces > 0 {
        if input_mode == cfg::SURROUNDING_TEXT_IM {
            seq![ActionV::DeleteSurroundingText { offset: (-((n as i32) as int)) as i32, nchars: n }]
        } else if input_mode == cfg::XTEST_FAKE_KEY_EVENT_IM {
            seq![ActionV::FakeBackspaces(n)]
        } else {
            seq![ActionV::ForwardBackspaces(n)]
        }
    } else {
        Seq::empty()
    };
    del + if insert.len() > 0 { seq![ActionV::CommitText(insert)] } else { Seq::empty() }
}

/// The actions that carry out a correction in an input mode (see `correction_actions_spec`).
pub fn correction_actions(input_mode: i32, corr: &Correction) -> (r: Vec<Action>)
    requires
        (corr.backspaces as u32) as i32 != i32::MIN,
    ensures
        actions_view(r@) == correction_actions_spec(input_mode, corr.backspaces, corr.insert@),
{
    let mut out: Vec<Action> = Vec::new();
    if corr.backspaces > 0 {
        let n = corr.backspaces as u32;
        if input_mode == cfg::SURROUNDING_TEXT_IM {
            push_action(&mut out, Action::DeleteSurroundingText { offset: -(n as i32), nchars: n });
        } else if input_mode == cfg::XTEST_FAKE_KEY_EVENT_IM {
            push_action(&mut out, Action::FakeBackspaces(n));
        } else {
            push_action(&mut out, Action::ForwardBackspaces(n));
        }
    }
    if corr.insert.as_str().unicode_len() > 0 {
        push_action(&mut out, Action::CommitText(corr.insert.clone()));
    }
    assert(actions_view(out@) =~= correction_actions_spec(input_mode, corr.backspaces, corr.insert@));
    out
}

/// Applying a correction to the text shown gives the new text: deleting the last `backspaces`
/// chars of `old` and appending `insert` yields `new`.
pub proof fn lemma_correction_reconstructs(old: Seq<char>, new: Seq<char>)
    ensures
        ({
            let k = common_prefix_len(old, new);
            old.subrange(0, old.len() - (old.len() - k)) + new.subrange(k, new.len() as int) == new
        }),
{
    assert(old.subrange(0, 0) =~= new.subrange(0, 0));
    lemma_common_from(old, new, 0);
    let k = common_prefix_len(old, new);
    assert(old.subrange(0, k) + new.subrange(k, new.len() as int) =~= new);
}

} // verus!
