//! What a front end that holds one engine per input context shows: the actions of a key folded
//! into the text to commit and the preedit, and, for typing without an underline, the edit that
//! turns the text already shown into the new one (delete the last chars, then insert).
use vstd::prelude::*;
use crate::action::{Action, ActionV, actions_view};
use crate::unicode::{str_chars, string_from_chars};
use crate::config::append_chars;
use crate::backspace::{common_from, lemma_common_from};

verus! {

/// The actions of one key folded together.
pub struct Folded {
    /// All committed text, in order.
    pub commit: String,
    /// The last preedit update after the last hide, if any: text, cursor, underline.
    pub preedit: Option<(String, u32, bool)>,
    /// The preedit was hidden and not shown again.
    pub hide: bool,
}

pub open spec fn preedit_view(p: Option<(String, u32, bool)>) -> Option<(Seq<char>, u32, bool)> {
    match p {
        Some(x) => Some((x.0@, x.1, x.2)),
        None => None,
    }
}

pub open spec fn folded_view(f: Folded) -> (Seq<char>, Option<(Seq<char>, u32, bool)>, bool) {
    (f.commit@, preedit_view(f.preedit), f.hide)
}

/// The fold after one more action: commits add up, a preedit update replaces the preedit and
/// cancels a hide, a hide drops the preedit; the other actions change nothing.
pub open spec fn fold_step(st: (Seq<char>, Option<(Seq<char>, u32, bool)>, bool), a: ActionV) -> (Seq<char>, Option<(Seq<char>, u32, bool)>, bool) {
    match a {
        ActionV::CommitText(s) => (st.0 + s, st.1, st.2),
        ActionV::UpdatePreedit { text, cursor, underline } => (st.0, Some((text, cursor, underline)), false),
        ActionV::HidePreedit => (st.0, None, true),
        _ => st,
    }
}

/// The fold of a list of actions, in order.
pub open spec fn fold_spec(a: Seq<ActionV>) -> (Seq<char>, Option<(Seq<char>, u32, bool)>, bool)
    decreases a.len(),
{
    if a.len() == 0 {
        (Seq::empty(), None, false)
    } else {
        fold_step(fold_spec(a.drop_last()), a.last())
    }
}

/// Folds the actions of one key.
pub fn fold_actions(actions: &[Action]) -> (f: Folded)
    ensures
        folded_view(f) == fold_spec(actions_view(actions@)),
{
    let mut commit: Vec<char> = Vec::new();
    let mut preedit: Option<(String, u32, bool)> = None;
    let mut hidden = false;
    for i in 0..actions.len()
        invariant
            ({
                let st = fold_spec(actions_view(actions@).take(i as int));
                &&& commit@ == st.0
                &&& preedit_view(preedit) == st.1
                &&& hidden == st.2
            }),
    {
        assert(actions_view(actions@).take(i + 1).drop_last() =~= actions_view(actions@).take(i as int));
        assert(actions_view(actions@).take(i + 1).last() == actions@[i as int]@);
        match &actions[i] {
            Action::CommitText(s) => {
                append_chars(&mut commit, &str_chars(s.as_str()));
            },
            Action::UpdatePreedit { text, cursor, underline } => {
                preedit = Some((text.clone(), *cursor, *underline));
                hidden = false;
            },
            Action::HidePreedit => {
                hidden = true;
                preedit = None;
            },
            _ => {},
        }
    }
    assert(actions_view(actions@).take(actions@.len() as int) =~= actions_view(actions@));
    Folded { commit: string_from_chars(&commit), preedit, hide: hidden }
}

/// The edit from the text shown to the new one: delete the chars of `old` after their common
/// prefix, insert the rest of `new`.
pub open spec fn diff_spec(old: Seq<char>, new: Seq<char>) -> (u32, Seq<char>) {
    let p = common_from(old, new, 0);
    ((old.len() - p) as u32, new.skip(p))
}

/// The edit from `old` to `new` (see `diff_spec`), comparing chars.
pub fn diff_replace(old: &str, new: &str) -> (r: (u32, String))
    requires
        old@.len() <= u32::MAX,
    ensures
        (r.0, r.1@) == diff_spec(old@, new@),
{
    let o = str_chars(old);
    let n = str_chars(new);
    let mut i: usize = 0;
    while i < o.len() && i < n.len() && o[i] == n[i]
        invariant
            i <= o@.len(),
            i <= n@.len(),
            o@ == old@,
            n@ == new@,
            common_from(o@, n@, 0) == common_from(o@, n@, i as int),
        decreases o.len() - i,
    {
        i = i + 1;
    }
    let delete = (o.len() - i) as u32;
    let insert = crate::rules_parser::chars_range(&n, i, n.len());
    assert(insert@ =~= n@.skip(i as int));
    (delete, string_from_chars(&insert))
}

/// The edit turns the text shown into the new text: deleting its last chars and inserting
/// the rest gives the new text.
pub proof fn lemma_diff_reconstructs(old: Seq<char>, new: Seq<char>)
    requires
        old.len() <= u32::MAX,
    ensures
        old.take(old.len() - diff_spec(old, new).0) + diff_spec(old, new).1 == new,
        diff_spec(old, new).0 <= old.len(),
{
    assert(old.subrange(0, 0) =~= new.subrange(0, 0));
    lemma_common_from(old, new, 0);
    let p = common_from(old, new, 0);
    assert(old.take(p) =~= old.subrange(0, p));
    assert(new.take(p) =~= new.subrange(0, p));
    assert(new.take(p) + new.skip(p) =~= new);
}

/// The edit is the smallest of its kind: the chars kept are the longest common prefix, so the
/// first inserted char, if any, differs from the first deleted one.
pub proof fn lemma_diff_minimal(old: Seq<char>, new: Seq<char>)
    requires
        old.len() <= u32::MAX,
        diff_spec(old, new).0 > 0,
        diff_spec(old, new).1.len() > 0,
    ensures
        old[old.len() - diff_spec(old, new).0] != diff_spec(old, new).1[0],
{
    assert(old.subrange(0, 0) =~= new.subrange(0, 0));
    lemma_common_from(old, new, 0);
}

/// The lines joined with `'\n'` between them.
pub open spec fn join_lines_spec(v: Seq<Seq<char>>) -> Seq<char>
    decreases v.len(),
{
    if v.len() == 0 {
        Seq::empty()
    } else if v.len() == 1 {
        v[0]
    } else {
        join_lines_spec(v.drop_last()) + seq!['\n'] + v.last()
    }
}

/// Joins the lines with `'\n'` (`[String]::join("\n")`).
pub fn join_lines(v: &[String]) -> (r: String)
    ensures
        r@ == join_lines_spec(crate::order::strs_view(v@)),
{
    let ghost sv = crate::order::strs_view(v@);
    let mut out: Vec<char> = Vec::new();
    for i in 0..v.len()
        invariant
            sv == crate::order::strs_view(v@),
            out@ == join_lines_spec(sv.take(i as int)),
    {
        assert(sv.take(i + 1).drop_last() =~= sv.take(i as int));
        if i > 0 {
            out.push('\n');
        }
        append_chars(&mut out, &str_chars(v[i].as_str()));
        assert(i == 0 ==> sv.take(1)[0] == v@[0]@);
    }
    assert(sv.take(v@.len() as int) =~= sv);
    string_from_chars(&out)
}

/// Text as it crosses to C: text holding a NUL char becomes empty.
pub open spec fn c_text(s: Seq<char>) -> Seq<char> {
    if s.contains('\0') { Seq::empty() } else { s }
}

fn to_c_text(s: &str) -> (r: String)
    ensures
        r@ == c_text(s@),
{
    let c = str_chars(s);
    for i in 0..c.len()
        invariant
            c@ == s@,
            forall|k: int| 0 <= k < i ==> c@[k] != '\0',
    {
        if c[i] == '\0' {
            assert(s@.contains('\0'));
            return String::new();
        }
    }
    assert(!s@.contains('\0'));
    string_from_chars(&c)
}

/// What a front end shows for one input context.
pub struct DisplayState {
    /// The text to commit after the last key.
    pub commit: String,
    pub preedit: String,
    pub preedit_cursor: u32,
    pub preedit_visible: bool,
    pub preedit_underline: bool,
    /// In typing without an underline: the part of the text that is still being composed, as
    /// shown in the document.
    pub prev_displayed: String,
    /// The edit of the last key in typing without an underline: delete this many chars...
    pub replace_delete: u32,
    /// ...then insert this.
    pub replace_insert: String,
    /// The segment being composed, as shown.
    pub replace_segment: String,
}

/// Nothing shown and nothing composed (the preedit underline setting aside).
pub open spec fn is_clear(d: DisplayState) -> bool {
    &&& d.commit@.len() == 0
    &&& d.preedit@.len() == 0
    &&& d.preedit_cursor == 0
    &&& !d.preedit_visible
    &&& d.prev_displayed@.len() == 0
    &&& d.replace_delete == 0
    &&& d.replace_insert@.len() == 0
    &&& d.replace_segment@.len() == 0
}

/// The display after the actions of a key in preedit mode: the commit is the folded commit; a
/// preedit update shows its text (visible when not empty), a hide clears the preedit, and
/// otherwise the preedit stays.
pub open spec fn apply_spec(old: DisplayState, new: DisplayState, a: Seq<ActionV>) -> bool {
    let f = fold_spec(a);
    &&& new.commit@ == c_text(f.0)
    &&& match f.1 {
        Some(p) => {
            &&& new.preedit@ == c_text(p.0)
            &&& new.preedit_cursor == p.1
            &&& new.preedit_underline == p.2
            &&& new.preedit_visible == (c_text(p.0).len() > 0)
        },
        None => if f.2 {
            &&& new.preedit@.len() == 0
            &&& new.preedit_cursor == 0
            &&& !new.preedit_visible
            &&& new.preedit_underline == old.preedit_underline
        } else {
            &&& new.preedit@ == old.preedit@
            &&& new.preedit_cursor == old.preedit_cursor
            &&& new.preedit_visible == old.preedit_visible
            &&& new.preedit_underline == old.preedit_underline
        },
    }
    &&& new.prev_displayed@ == old.prev_displayed@
    &&& new.replace_delete == old.replace_delete
    &&& new.replace_insert@ == old.replace_insert@
    &&& new.replace_segment@ == old.replace_segment@
}

/// The display after the actions of a key in typing without an underline. A key that commits
/// nothing, shows nothing and hides nothing leaves an empty edit. Otherwise the text wanted for
/// the segment is the commit followed by the preedit text (empty when there is none); the edit
/// turns the segment as shown into it, and the preedit text becomes the segment.
pub open spec fn apply_replace_spec(old: DisplayState, new: DisplayState, a: Seq<ActionV>) -> bool {
    let f = fold_spec(a);
    &&& new.commit@ == old.commit@
    &&& new.preedit@ == old.preedit@
    &&& new.preedit_cursor == old.preedit_cursor
    &&& new.preedit_visible == old.preedit_visible
    &&& new.preedit_underline == old.preedit_underline
    &&& if f.1.is_none() && !f.2 && f.0.len() == 0 {
        &&& new.replace_delete == 0
        &&& new.replace_insert@.len() == 0
        &&& new.prev_displayed@ == old.prev_displayed@
        &&& new.replace_segment@ == old.replace_segment@
    } else {
        let pre = match f.1 {
            Some(p) => p.0,
            None => Seq::empty(),
        };
        let d = diff_spec(old.prev_displayed@, f.0 + pre);
        &&& new.replace_delete == d.0
        &&& new.replace_insert@ == c_text(d.1)
        &&& new.replace_segment@ == c_text(pre)
        &&& new.prev_displayed@ == pre
    }
}

impl DisplayState {
    /// Nothing shown.
    pub fn new() -> (d: DisplayState)
        ensures
            is_clear(d),
            !d.preedit_underline,
    {
        DisplayState {
            commit: String::new(),
            preedit: String::new(),
            preedit_cursor: 0,
            preedit_visible: false,
            preedit_underline: false,
            prev_displayed: String::new(),
            replace_delete: 0,
            replace_insert: String::new(),
            replace_segment: String::new(),
        }
    }

    /// Clears what is shown and the segment being followed (on reset, or after the input method
    /// or charset changed, so that the next key is not compared with stale text). The preedit
    /// underline stays as it was.
    pub fn clear_display(&mut self)
        ensures
            is_clear(*final(self)),
            final(self).preedit_underline == old(self).preedit_underline,
    {
        self.commit = String::new();
        self.preedit = String::new();
        self.preedit_cursor = 0;
        self.preedit_visible = false;
        self.prev_displayed = String::new();
        self.replace_segment = String::new();
        self.replace_delete = 0;
        self.replace_insert = String::new();
    }

    /// Something is being composed: a visible preedit, or a segment typed without an underline.
    pub fn is_composing(&self) -> (r: bool)
        ensures
            r == (self.preedit_visible || self.prev_displayed@.len() > 0),
    {
        self.preedit_visible || str_chars(self.prev_displayed.as_str()).len() > 0
    }

    /// Commits the preedit as it is: it becomes the commit text (and is returned), and all else
    /// is cleared.
    pub fn flush_preedit(&mut self) -> (r: String)
        ensures
            r@ == old(self).preedit@,
            final(self).commit@ == old(self).preedit@,
            final(self).preedit@.len() == 0,
            final(self).preedit_cursor == 0,
            !final(self).preedit_visible,
            final(self).preedit_underline == old(self).preedit_underline,
            final(self).prev_displayed@.len() == 0,
            final(self).replace_segment@.len() == 0,
            final(self).replace_delete == 0,
            final(self).replace_insert@.len() == 0,
    {
        let p = self.preedit.clone();
        self.commit = p.clone();
        self.preedit = String::new();
        self.preedit_cursor = 0;
        self.preedit_visible = false;
        self.prev_displayed = String::new();
        self.replace_segment = String::new();
        self.replace_delete = 0;
        self.replace_insert = String::new();
        p
    }

    /// Applies the actions of a key in preedit mode (see `apply_spec`).
    pub fn apply(&mut self, actions: &[Action])
        ensures
            apply_spec(*old(self), *final(self), actions_view(actions@)),
    {
        let f = fold_actions(actions);
        self.commit = to_c_text(f.commit.as_str());
        match f.preedit {
            Some((text, cursor, underline)) => {
                self.preedit = to_c_text(text.as_str());
                self.preedit_cursor = cursor;
                self.preedit_underline = underline;
                self.preedit_visible = str_chars(self.preedit.as_str()).len() > 0;
            },
            None => {
                if f.hide {
                    self.preedit = String::new();
                    self.preedit_cursor = 0;
                    self.preedit_visible = false;
                }
            },
        }
    }

    /// Applies the actions of a key in typing without an underline (see `apply_replace_spec`).
    pub fn apply_replace(&mut self, actions: &[Action])
        requires
            old(self).prev_displayed@.len() <= u32::MAX,
        ensures
            apply_replace_spec(*old(self), *final(self), actions_view(actions@)),
    {
        let f = fold_actions(actions);
        if f.preedit.is_none() && !f.hide && str_chars(f.commit.as_str()).len() == 0 {
            self.replace_delete = 0;
            self.replace_insert = String::new();
            return;
        }
        let pre = match f.preedit {
            Some((t, _, _)) => t,
            None => String::new(),
        };
        let mut wanted = str_chars(f.commit.as_str());
        append_chars(&mut wanted, &str_chars(pre.as_str()));
        let (delete, insert) = diff_replace(self.prev_displayed.as_str(), string_from_chars(&wanted).as_str());
        self.replace_delete = delete;
        self.replace_insert = to_c_text(insert.as_str());
        self.replace_segment = to_c_text(pre.as_str());
        self.prev_displayed = pre;
    }
}

} // verus!
