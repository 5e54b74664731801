//! The emoji used most recently, newest first, at most a fixed number of them; stored as text,
//! one emoji per line.
use vstd::prelude::*;
use crate::text::{lines_spec, lines_of, trim_spec, trim_chars, lines_from, next_nl, lemma_next_nl, strip_cr};
use crate::unicode::{str_chars, string_from_chars};
use crate::config::append_chars;

verus! {

pub open spec fn strings_view(s: Seq<String>) -> Seq<Seq<char>> {
    s.map_values(|x: String| x@)
}

/// What the list holds.
pub ghost struct RecentV {
    pub cap: usize,
    pub items: Seq<Seq<char>>,
}

/// The emoji used most recently, newest first.
pub struct RecentEmoji {
    cap: usize,
    items: Vec<String>,
}

impl View for RecentEmoji {
    type V = RecentV;

    closed spec fn view(&self) -> RecentV {
        RecentV { cap: self.cap, items: strings_view(self.items@) }
    }
}

/// The items other than `e`, in order.
pub open spec fn without(s: Seq<Seq<char>>, e: Seq<char>) -> Seq<Seq<char>>
    decreases s.len(),
{
    if s.len() == 0 {
        s
    } else {
        without(s.drop_last(), e) + if s.last() == e { Seq::empty() } else { seq![s.last()] }
    }
}

/// The list after a use of `e`: `e` first, its older occurrence removed, cut to the cap.
pub open spec fn record_spec(r: RecentV, e: Seq<char>) -> RecentV {
    if e.len() == 0 {
        r
    } else {
        let s = seq![e] + without(r.items, e);
        RecentV { items: if s.len() > r.cap { s.take(r.cap as int) } else { s }, ..r }
    }
}

/// The non-blank lines of a text, trimmed.
pub open spec fn nonblank_lines(lines: Seq<Seq<char>>) -> Seq<Seq<char>>
    decreases lines.len(),
{
    if lines.len() == 0 {
        Seq::empty()
    } else {
        nonblank_lines(lines.drop_last()) + if trim_spec(lines.last()).len() == 0 {
            Seq::empty()
        } else {
            seq![trim_spec(lines.last())]
        }
    }
}

/// The items a stored text gives: its non-blank lines, trimmed, the first `cap` of them.
pub open spec fn stored_items(text: Seq<char>, cap: int) -> Seq<Seq<char>> {
    if nonblank_lines(lines_spec(text)).len() > cap {
        nonblank_lines(lines_spec(text)).take(cap)
    } else {
        nonblank_lines(lines_spec(text))
    }
}

impl RecentEmoji {
    /// An empty list keeping at most `cap` emoji.
    pub fn new(cap: usize) -> (r: RecentEmoji)
        ensures
            r@ == (RecentV { cap, items: Seq::empty() }),
    {
        let r = RecentEmoji { cap, items: Vec::new() };
        assert(strings_view(r.items@) =~= Seq::<Seq<char>>::empty());
        r
    }

    /// The list stored in a text: its non-blank lines, trimmed, the first `cap` of them (the
    /// first line is the newest).
    pub fn from_text(text: &str, cap: usize) -> (r: RecentEmoji)
        ensures
            r@.cap == cap,
            r@.items == stored_items(text@, cap as int),
    {
        let cs = str_chars(text);
        let lines = lines_of(&cs);
        let ghost lv = lines@.map_values(|l: Vec<char>| l@);
        let mut items: Vec<String> = Vec::new();
        for i in 0..lines.len()
            invariant
                lv == lines@.map_values(|l: Vec<char>| l@),
                strings_view(items@) == nonblank_lines(lv.take(i as int)),
        {
            assert(lv.take(i + 1).drop_last() =~= lv.take(i as int));
            assert(lv.take(i + 1).last() == lines@[i as int]@);
            let t = trim_chars(&lines[i]);
            let ghost o = items@;
            if t.len() > 0 {
                items.push(string_from_chars(&t));
                assert(strings_view(items@) =~= strings_view(o).push(t@));
            } else {
                assert(nonblank_lines(lv.take(i + 1)) =~= nonblank_lines(lv.take(i as int)));
            }
        }
        assert(lv.take(lv.len() as int) =~= lv);
        let ghost all = strings_view(items@);
        if items.len() > cap {
            items.truncate(cap);
            assert(strings_view(items@) =~= all.take(cap as int));
        }
        RecentEmoji { cap, items }
    }

    /// Records a use of an emoji: it goes first, its older occurrence is removed, and the list
    /// is cut to the cap. An empty string changes nothing.
    pub fn record(&mut self, emoji: &str)
        ensures
            final(self)@ == record_spec(old(self)@, emoji@),
    {
        let e = str_chars(emoji);
        if e.len() == 0 {
            return;
        }
        let es = string_from_chars(&e);
        let ghost iv = strings_view(self.items@);
        let mut rest: Vec<String> = Vec::new();
        for i in 0..self.items.len()
            invariant
                iv == strings_view(self.items@),
                es@ == emoji@,
                strings_view(rest@) == without(iv.take(i as int), emoji@),
        {
            assert(iv.take(i + 1).drop_last() =~= iv.take(i as int));
            assert(iv.take(i + 1).last() == self.items@[i as int]@);
            let ghost o = rest@;
            if self.items[i] != es {
                rest.push(self.items[i].clone());
                assert(strings_view(rest@) =~= strings_view(o).push(self.items@[i as int]@));
            } else {
                assert(without(iv.take(i + 1), emoji@) =~= without(iv.take(i as int), emoji@));
            }
        }
        assert(iv.take(iv.len() as int) =~= iv);
        let mut items: Vec<String> = Vec::new();
        items.push(es);
        let ghost first = strings_view(items@);
        items.append(&mut rest);
        let ghost all = strings_view(items@);
        assert(all =~= seq![emoji@] + without(iv, emoji@));
        if items.len() > self.cap {
            items.truncate(self.cap);
            assert(strings_view(items@) =~= all.take(self.cap as int));
        }
        self.items = items;
    }

    /// The emoji, newest first.
    pub fn items(&self) -> (r: &[String])
        ensures
            strings_view(r@) == self@.items,
    {
        self.items.as_slice()
    }

    /// The text that stores the list: one emoji per line, each line ended by a newline.
    pub fn to_text(&self) -> (r: String)
        ensures
            r@ == lines_text(self@.items),
    {
        let mut out: Vec<char> = Vec::new();
        let ghost iv = strings_view(self.items@);
        for i in 0..self.items.len()
            invariant
                iv == strings_view(self.items@),
                out@ == lines_text(iv.take(i as int)),
        {
            assert(iv.take(i + 1).drop_last() =~= iv.take(i as int));
            let c = str_chars(self.items[i].as_str());
            append_chars(&mut out, &c);
            out.push('\n');
            assert(lines_text(iv.take(i + 1)) =~= lines_text(iv.take(i as int)) + c@ + seq!['\n']);
        }
        assert(iv.take(iv.len() as int) =~= iv);
        string_from_chars(&out)
    }
}

/// Each item followed by a newline.
pub open spec fn lines_text(items: Seq<Seq<char>>) -> Seq<char>
    decreases items.len(),
{
    if items.len() == 0 {
        Seq::empty()
    } else {
        lines_text(items.drop_last()) + items.last() + seq!['\n']
    }
}

/// After recording a non-empty emoji (with a non-zero cap) it comes first, occurs once, and the
/// list stays within the cap and keeps no duplicate.
pub proof fn lemma_record_front_unique(r: RecentV, e: Seq<char>)
    requires
        e.len() > 0,
        r.cap > 0,
        r.items.no_duplicates(),
    ensures
        record_spec(r, e).items[0] == e,
        record_spec(r, e).items.len() <= r.cap,
        record_spec(r, e).items.no_duplicates(),
        forall|k: int| 1 <= k < record_spec(r, e).items.len() ==> record_spec(r, e).items[k] != e,
{
    lemma_without(r.items, e);
    let s = seq![e] + without(r.items, e);
    assert(s.no_duplicates()) by {
        assert forall|i: int, j: int| 0 <= i < s.len() && 0 <= j < s.len() && i != j implies s[i] != s[j] by {
            if i > 0 && j > 0 {
                assert(s[i] == without(r.items, e)[i - 1]);
                assert(s[j] == without(r.items, e)[j - 1]);
            } else if i == 0 {
                assert(s[j] == without(r.items, e)[j - 1]);
            } else {
                assert(s[i] == without(r.items, e)[i - 1]);
            }
        }
    }
    if s.len() > r.cap {
        let t = s.take(r.cap as int);
        assert forall|i: int, j: int| 0 <= i < t.len() && 0 <= j < t.len() && i != j implies t[i] != t[j] by {
            assert(t[i] == s[i] && t[j] == s[j]);
        }
        assert forall|k: int| 1 <= k < t.len() implies t[k] != e by {
            assert(t[k] == s[k]);
            assert(s[k] == without(r.items, e)[k - 1]);
        }
    } else {
        assert forall|k: int| 1 <= k < s.len() implies s[k] != e by {
            assert(s[k] == without(r.items, e)[k - 1]);
        }
    }
}

proof fn lemma_next_nl_shift(p: Seq<char>, q: Seq<char>, i: int)
    requires
        0 <= i <= q.len(),
    ensures
        next_nl(p + q, p.len() + i) == p.len() + next_nl(q, i),
    decreases q.len() - i,
{
    if i < q.len() {
        assert((p + q)[p.len() + i] == q[i]);
        if q[i] != '\n' {
            lemma_next_nl_shift(p, q, i + 1);
        }
    }
}

proof fn lemma_lines_shift(p: Seq<char>, q: Seq<char>, i: int)
    requires
        0 <= i <= q.len(),
    ensures
        lines_from(p + q, p.len() + i) == lines_from(q, i),
    decreases q.len() - i,
{
    if i < q.len() {
        lemma_next_nl_shift(p, q, i);
        lemma_next_nl(q, i);
        let e = next_nl(q, i);
        assert((p + q).subrange(p.len() + i, p.len() + e) =~= q.subrange(i, e));
        if e < q.len() {
            lemma_lines_shift(p, q, e + 1);
        }
    }
}

proof fn lemma_next_nl_line(a: Seq<char>, t: Seq<char>, i: int)
    requires
        0 <= i <= a.len(),
        !a.contains('\n'),
        t.len() > 0,
        t[0] == '\n',
    ensures
        next_nl(a + t, i) == a.len(),
    decreases a.len() - i,
{
    if i < a.len() {
        assert((a + t)[i] == a[i]);
        assert(a[i] != '\n');
        lemma_next_nl_line(a, t, i + 1);
    } else {
        assert((a + t)[i] == t[0]);
    }
}

proof fn lemma_text_front(items: Seq<Seq<char>>)
    requires
        items.len() > 0,
    ensures
        lines_text(items) == items[0] + seq!['\n'] + lines_text(items.drop_first()),
    decreases items.len(),
{
    if items.len() > 1 {
        lemma_text_front(items.drop_last());
        assert(items.drop_last().drop_first() =~= items.drop_first().drop_last());
        assert(items.drop_first().last() == items.last());
    } else {
        assert(items.drop_first() =~= Seq::<Seq<char>>::empty());
        assert(items.drop_last() =~= Seq::<Seq<char>>::empty());
    }
}

/// An item that a line can hold as it is: not blank, trimmed, without a line break, and not
/// ending in a carriage return.
pub open spec fn storable(x: Seq<char>) -> bool {
    &&& x.len() > 0
    &&& trim_spec(x) == x
    &&& !x.contains('\n')
    &&& x.last() != '\r'
}

proof fn lemma_lines_of_text(items: Seq<Seq<char>>)
    requires
        forall|k: int| 0 <= k < items.len() ==> storable(#[trigger] items[k]),
    ensures
        lines_spec(lines_text(items)) == items,
    decreases items.len(),
{
    if items.len() == 0 {
        assert(lines_text(items) =~= Seq::<char>::empty());
        assert(lines_spec(lines_text(items)) =~= items);
    } else {
        lemma_text_front(items);
        let a = items[0];
        assert(storable(a));
        let rest = items.drop_first();
        assert forall|k: int| 0 <= k < rest.len() implies storable(#[trigger] rest[k]) by {
            assert(rest[k] == items[k + 1]);
        }
        lemma_lines_of_text(rest);
        let t = seq!['\n'] + lines_text(rest);
        let x = lines_text(items);
        assert(x =~= a + t);
        lemma_next_nl_line(a, t, 0);
        assert(x.subrange(0, a.len() as int) =~= a);
        assert(strip_cr(a) == a);
        let p = a + seq!['\n'];
        assert(x =~= p + lines_text(rest));
        lemma_lines_shift(p, lines_text(rest), 0);
        assert(lines_from(x, a.len() + 1int) == lines_spec(lines_text(rest)));
        assert(lines_spec(x) =~= seq![a] + rest);
        assert(seq![a] + rest =~= items);
    }
}

proof fn lemma_nonblank_storable(items: Seq<Seq<char>>)
    requires
        forall|k: int| 0 <= k < items.len() ==> storable(#[trigger] items[k]),
    ensures
        nonblank_lines(items) == items,
    decreases items.len(),
{
    if items.len() > 0 {
        assert(storable(items[items.len() - 1]));
        assert forall|k: int| 0 <= k < items.drop_last().len() implies storable(#[trigger] items.drop_last()[k]) by {
            assert(items.drop_last()[k] == items[k]);
        }
        lemma_nonblank_storable(items.drop_last());
        assert(items.drop_last().push(items.last()) =~= items);
    }
}

/// What is saved is what is loaded: storing the list as text and reading that text back with
/// the same cap gives the same items, when each item fits on its own line (see `storable`) and
/// the list is within the cap.
pub proof fn lemma_save_load_roundtrip(r: RecentV)
    requires
        forall|k: int| 0 <= k < r.items.len() ==> storable(#[trigger] r.items[k]),
        r.items.len() <= r.cap,
    ensures
        stored_items(lines_text(r.items), r.cap as int) == r.items,
{
    lemma_lines_of_text(r.items);
    lemma_nonblank_storable(r.items);
}

pub proof fn lemma_without(s: Seq<Seq<char>>, e: Seq<char>)
    requires
        s.no_duplicates(),
    ensures
        forall|k: int| 0 <= k < without(s, e).len() ==> without(s, e)[k] != e,
        without(s, e).no_duplicates(),
        forall|k: int| 0 <= k < without(s, e).len() ==> s.contains(#[trigger] without(s, e)[k]),
    decreases s.len(),
{
    if s.len() > 0 {
        let d = s.drop_last();
        assert(d.no_duplicates()) by {
            assert forall|i: int, j: int| 0 <= i < d.len() && 0 <= j < d.len() && i != j implies d[i] != d[j] by {
                assert(d[i] == s[i] && d[j] == s[j]);
            }
        }
        lemma_without(d, e);
        let w = without(d, e);
        if s.last() != e {
            let w2 = w.push(s.last());
            assert(without(s, e) =~= w2);
            assert forall|k: int| 0 <= k < w.len() implies w[k] != s.last() by {
                assert(d.contains(w[k]));
                let i = choose|i: int| 0 <= i < d.len() && d[i] == w[k];
                assert(s[i] == d[i]);
                assert(s[s.len() - 1] == s.last());
            }
            assert forall|k: int| 0 <= k < w2.len() implies s.contains(#[trigger] w2[k]) by {
                if k < w.len() {
                    assert(d.contains(w[k]));
                    let i = choose|i: int| 0 <= i < d.len() && d[i] == w[k];
                    assert(s[i] == w[k]);
                } else {
                    assert(s[s.len() - 1] == w2[k]);
                }
            }
            assert forall|i: int, j: int| 0 <= i < w2.len() && 0 <= j < w2.len() && i != j implies w2[i] != w2[j] by {
                if i < w.len() && j < w.len() {
                } else if i < w.len() {
                    assert(w2[i] == w[i]);
                } else if j < w.len() {
                    assert(w2[j] == w[j]);
                }
            }
        } else {
            assert(without(s, e) =~= w);
            assert forall|k: int| 0 <= k < w.len() implies s.contains(#[trigger] w[k]) by {
                assert(d.contains(w[k]));
                let i = choose|i: int| 0 <= i < d.len() && d[i] == w[k];
                assert(s[i] == w[k]);
            }
        }
    }
}

} // verus!
