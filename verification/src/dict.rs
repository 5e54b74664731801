//! A spelling dictionary: a set of lowercase words, looked up without regard to case.
use vstd::prelude::*;
use crate::text::{lines_spec, lines_of, trim_spec, trim_chars};
use crate::unicode::{str_chars, string_from_chars, str_lowercase_of, str_to_lowercase};

verus! {

pub open spec fn words_view(w: Seq<String>) -> Seq<Seq<char>> {
    w.map_values(|s: String| s@)
}

/// A set of words.
#[derive(Debug)]
pub struct Dictionary {
    words: Vec<String>,
}

impl View for Dictionary {
    type V = Set<Seq<char>>;

    closed spec fn view(&self) -> Set<Seq<char>> {
        words_view(self.words@).to_set()
    }
}

/// The words that the lines of a word list give: each line trimmed and lowercased; blank lines
/// and lines starting with `#` give none.
pub open spec fn list_words(lines: Seq<Seq<char>>) -> Seq<Seq<char>>
    decreases lines.len(),
{
    if lines.len() == 0 {
        Seq::empty()
    } else {
        let w = trim_spec(lines.last());
        list_words(lines.drop_last()) + if w.len() == 0 || w[0] == '#' {
            Seq::empty()
        } else {
            seq![str_lowercase_of(w)]
        }
    }
}

impl Dictionary {
    #[verifier::type_invariant]
    spec fn inv(&self) -> bool {
        words_view(self.words@).no_duplicates()
    }

    /// An empty dictionary.
    pub fn new() -> (d: Dictionary)
        ensures
            d@ == Set::<Seq<char>>::empty(),
    {
        let d = Dictionary { words: Vec::new() };
        assert(words_view(d.words@) =~= Seq::<Seq<char>>::empty());
        assert(d@ =~= Set::<Seq<char>>::empty());
        d
    }

    fn contains_exact(&self, w: &String) -> (r: bool)
        ensures
            r == self@.contains(w@),
    {
        let ghost wv = words_view(self.words@);
        for i in 0..self.words.len()
            invariant
                wv == words_view(self.words@),
                forall|k: int| 0 <= k < i ==> wv[k] != w@,
        {
            if self.words[i] == *w {
                assert(wv[i as int] == w@);
                return true;
            }
        }
        false
    }

    fn insert(&mut self, w: String)
        ensures
            final(self)@ == old(self)@.insert(w@),
    {
        proof { use_type_invariant(&*self); }
        if self.contains_exact(&w) {
            assert(self@.insert(w@) =~= self@);
            return;
        }
        let ghost o = self.words@;
        let mut v: Vec<String> = Vec::new();
        std::mem::swap(&mut v, &mut self.words);
        let ghost wv = w@;
        v.push(w);
        assert(words_view(v@) =~= words_view(o).push(wv));
        proof { words_view(o).lemma_push_to_set_commute(wv); }
        self.words = v;
    }

    /// Adds a word (lowercased).
    pub fn add(&mut self, word: &str)
        ensures
            final(self)@ == old(self)@.insert(str_lowercase_of(word@)),
    {
        let w = str_to_lowercase(&str_chars(word));
        self.insert(string_from_chars(&w));
    }

    /// The dictionary of a word list: one word per line, lowercased; blank lines and lines
    /// starting with `#` are skipped.
    pub fn load_str(text: &str) -> (d: Dictionary)
        ensures
            d@ == list_words(lines_spec(text@)).to_set(),
    {
        let cs = str_chars(text);
        let lines = lines_of(&cs);
        let ghost lv = lines@.map_values(|l: Vec<char>| l@);
        let mut d = Dictionary::new();
        for i in 0..lines.len()
            invariant
                lv == lines@.map_values(|l: Vec<char>| l@),
                d@ == list_words(lv.take(i as int)).to_set(),
        {
            assert(lv.take(i + 1).drop_last() =~= lv.take(i as int));
            assert(lv.take(i + 1).last() == lines@[i as int]@);
            let ghost before = list_words(lv.take(i as int));
            let w = trim_chars(&lines[i]);
            if !(w.len() == 0 || w[0] == '#') {
                let lw = str_to_lowercase(&w);
                d.insert(string_from_chars(&lw));
                assert(before + seq![str_lowercase_of(w@)] =~= before.push(str_lowercase_of(w@)));
                proof { before.lemma_push_to_set_commute(str_lowercase_of(w@)); }
            } else {
                assert(before + Seq::<Seq<char>>::empty() =~= before);
            }
        }
        assert(lv.take(lv.len() as int) =~= lv);
        d
    }

    /// Whether the word (without regard to case) is in the dictionary; never the empty word.
    pub fn contains(&self, word: &str) -> (r: bool)
        ensures
            r == (word@.len() > 0 && self@.contains(str_lowercase_of(word@))),
    {
        let wc = str_chars(word);
        if wc.len() == 0 {
            return false;
        }
        let w = str_to_lowercase(&wc);
        self.contains_exact(&string_from_chars(&w))
    }

    /// Adds every word of `other`.
    pub fn merge(&mut self, other: &Dictionary)
        ensures
            final(self)@ == old(self)@.union(other@),
    {
        let ghost ov = words_view(other.words@);
        for i in 0..other.words.len()
            invariant
                ov == words_view(other.words@),
                self@ == old(self)@.union(ov.take(i as int).to_set()),
        {
            let w = other.words[i].clone();
            self.insert(w);
            assert(ov.take(i + 1) =~= ov.take(i as int).push(ov[i as int]));
            proof { ov.take(i as int).lemma_push_to_set_commute(ov[i as int]); }
            assert(self@ =~= old(self)@.union(ov.take(i + 1).to_set()));
        }
        assert(ov.take(ov.len() as int) =~= ov);
    }

    /// The number of words.
    pub fn len(&self) -> (n: usize)
        ensures
            n == self@.len(),
    {
        proof {
            use_type_invariant(self);
            words_view(self.words@).unique_seq_to_set();
        }
        self.words.len()
    }

    pub fn is_empty(&self) -> (r: bool)
        ensures
            r == (self@.len() == 0),
    {
        proof {
            use_type_invariant(self);
            words_view(self.words@).unique_seq_to_set();
        }
        self.words.len() == 0
    }
}

impl Default for Dictionary {
    fn default() -> (d: Dictionary)
        ensures
            d@ == Set::<Seq<char>>::empty(),
    {
        Dictionary::new()
    }
}

/// A word added is found again, written in any case that lowercases the same way; adding never
/// loses a word; and merging finds exactly the words of either dictionary.
pub proof fn lemma_add_then_found(d: Set<Seq<char>>, other: Set<Seq<char>>, word: Seq<char>, probe: Seq<char>, kept: Seq<char>)
    requires
        probe.len() > 0,
        str_lowercase_of(probe) == str_lowercase_of(word),
    ensures
        d.insert(str_lowercase_of(word)).contains(str_lowercase_of(probe)),
        d.contains(kept) ==> d.insert(str_lowercase_of(word)).contains(kept),
        d.union(other).contains(kept) == (d.contains(kept) || other.contains(kept)),
{
}

} // verus!
