//! Emoji by prefix: a table of words (each with the `:`-joined emoji inserted for it) searched
//! by prefix, and the engine that collects the keys of an emoji query.
use vstd::prelude::*;
use crate::order::{isort, str_order, strs_view, sort_strings};
use crate::rules_parser::{chars_eq, pairs_view};
use crate::text::{is_prefix, starts_with};
use crate::unicode::{str_chars, string_from_chars};
use crate::config::append_chars;
use crate::hex::{radix16_spec, parse_radix16};
use crate::keysym::{is_scalar, char_from_u32};

verus! {

/// Index of the entry for `w` among the first `n`, or -1.
pub open spec fn word_index(e: Seq<(Seq<char>, Seq<char>)>, w: Seq<char>, n: int) -> int
    decreases n,
{
    if n <= 0 {
        -1
    } else if e[n - 1].0 == w {
        n - 1
    } else {
        word_index(e, w, n - 1)
    }
}

/// The value of a word after inserting `v` for it: `v`, or the old value, `:` and `v`.
pub open spec fn joined(old: Seq<char>, v: Seq<char>) -> Seq<char> {
    if old.len() == 0 {
        v
    } else {
        old + seq![':'] + v
    }
}

/// The table after inserting `v` for the word `w`.
pub open spec fn insert_spec(e: Seq<(Seq<char>, Seq<char>)>, w: Seq<char>, v: Seq<char>) -> Seq<(Seq<char>, Seq<char>)> {
    let k = word_index(e, w, e.len() as int);
    if 0 <= k < e.len() {
        e.update(k, (w, joined(e[k].1, v)))
    } else {
        e.push((w, v))
    }
}

/// The entries whose word starts with `p`, in order.
pub open spec fn with_prefix(e: Seq<(Seq<char>, Seq<char>)>, p: Seq<char>) -> Seq<(Seq<char>, Seq<char>)>
    decreases e.len(),
{
    if e.len() == 0 {
        e
    } else {
        with_prefix(e.drop_last(), p) + if is_prefix(p, e.last().0) { seq![e.last()] } else { Seq::empty() }
    }
}

/// The prefix is that of a node: the empty prefix, or a prefix of some word.
pub open spec fn has_node(e: Seq<(Seq<char>, Seq<char>)>, p: Seq<char>) -> bool {
    p.len() == 0 || exists|i: int| 0 <= i < e.len() && is_prefix(p, #[trigger] e[i].0)
}

/// The entries under a prefix, when it is that of a node.
pub open spec fn find_prefix_spec(e: Seq<(Seq<char>, Seq<char>)>, p: Seq<char>) -> Option<Seq<(Seq<char>, Seq<char>)>> {
    if has_node(e, p) {
        Some(with_prefix(e, p))
    } else {
        None
    }
}

/// The pieces of `s` between `sep` chars (`str::split`): one more than there are separators.
pub open spec fn split_on(s: Seq<char>, sep: char) -> Seq<Seq<char>>
    decreases s.len(),
{
    if s.len() == 0 {
        seq![Seq::empty()]
    } else if s.last() == sep {
        split_on(s.drop_last(), sep).push(Seq::empty())
    } else {
        let g = split_on(s.drop_last(), sep);
        g.update(g.len() - 1, g.last().push(s.last()))
    }
}

proof fn lemma_split_on_len(s: Seq<char>, sep: char)
    ensures
        split_on(s, sep).len() >= 1,
    decreases s.len(),
{
    if s.len() > 0 {
        lemma_split_on_len(s.drop_last(), sep);
    }
}

/// The char of a piece that reads as a hexadecimal Unicode scalar value, or nothing.
pub open spec fn code_char(p: Seq<char>) -> Seq<char> {
    match radix16_spec(p) {
        Some(v) => if is_scalar(v) { seq![v as char] } else { Seq::empty() },
        None => Seq::empty(),
    }
}

/// The chars of the pieces, in order.
pub open spec fn code_chars(parts: Seq<Seq<char>>) -> Seq<char>
    decreases parts.len(),
{
    if parts.len() == 0 {
        Seq::empty()
    } else {
        code_chars(parts.drop_last()) + code_char(parts.last())
    }
}

/// The emoji of an EmojiOne code: its `-`-separated hexadecimal code points, those that do not
/// read as a char skipped.
pub open spec fn emoji_of_code_spec(code: Seq<char>) -> Seq<char> {
    code_chars(split_on(code, '-'))
}

fn code_char_exec(p: &[char]) -> (r: Vec<char>)
    ensures
        r@ == code_char(p@),
{
    let mut r: Vec<char> = Vec::new();
    match parse_radix16(p) {
        Some(v) => match char_from_u32(v) {
            Some(c) => {
                r.push(c);
                assert(r@ =~= seq![c]);
            },
            None => {},
        },
        None => {},
    }
    r
}

/// Decodes an EmojiOne code such as `1f468-200d-1f4bb` (see `emoji_of_code_spec`).
pub fn emoji_of_code(code: &str) -> (r: String)
    ensures
        r@ == emoji_of_code_spec(code@),
{
    let s = str_chars(code);
    let mut out: Vec<char> = Vec::new();
    let mut cur: Vec<char> = Vec::new();
    for i in 0..s.len()
        invariant
            s@ == code@,
            ({
                let g = split_on(s@.take(i as int), '-');
                &&& g.len() >= 1
                &&& out@ == code_chars(g.drop_last())
                &&& cur@ == g.last()
            }),
    {
        proof { lemma_split_on_len(s@.take(i as int), '-'); }
        let ghost g = split_on(s@.take(i as int), '-');
        assert(s@.take(i + 1).drop_last() =~= s@.take(i as int));
        if s[i] == '-' {
            let c = code_char_exec(&cur);
            append_chars(&mut out, &c);
            assert(split_on(s@.take(i + 1), '-').drop_last() =~= g);
            assert(g.drop_last().push(g.last()) =~= g);
            cur = Vec::new();
        } else {
            cur.push(s[i]);
            assert(split_on(s@.take(i + 1), '-').drop_last() =~= g.drop_last());
        }
    }
    proof { lemma_split_on_len(s@, '-'); }
    let ghost g = split_on(s@.take(s@.len() as int), '-');
    assert(s@.take(s@.len() as int) =~= s@);
    assert(g.drop_last().push(g.last()) =~= g);
    let c = code_char_exec(&cur);
    append_chars(&mut out, &c);
    string_from_chars(&out)
}

/// The table after inserting `v` for each of `words`, in order.
pub open spec fn insert_all(e: Seq<(Seq<char>, Seq<char>)>, words: Seq<Seq<char>>, v: Seq<char>) -> Seq<(Seq<char>, Seq<char>)>
    decreases words.len(),
{
    if words.len() == 0 {
        e
    } else {
        insert_spec(insert_all(e, words.drop_last(), v), words.last(), v)
    }
}

/// Words with the emoji inserted for them, searched by prefix.
pub struct TrieNode {
    entries: Vec<(String, String)>,
}

impl View for TrieNode {
    type V = Seq<(Seq<char>, Seq<char>)>;

    closed spec fn view(&self) -> Seq<(Seq<char>, Seq<char>)> {
        pairs_view(self.entries@)
    }
}

impl TrieNode {
    /// An empty table.
    pub fn new() -> (t: TrieNode)
        ensures
            t@ == Seq::<(Seq<char>, Seq<char>)>::empty(),
    {
        let t = TrieNode { entries: Vec::new() };
        assert(pairs_view(t.entries@) =~= Seq::<(Seq<char>, Seq<char>)>::empty());
        t
    }

    /// Inserts `value` for each of `words`, in order.
    pub fn insert_each(&mut self, words: &[String], value: &str)
        ensures
            final(self)@ == insert_all(old(self)@, strs_view(words@), value@),
    {
        let ghost o = self@;
        for i in 0..words.len()
            invariant
                self@ == insert_all(o, strs_view(words@).take(i as int), value@),
        {
            assert(strs_view(words@).take(i + 1).drop_last() =~= strs_view(words@).take(i as int));
            self.insert(words[i].as_str(), value);
        }
        assert(strs_view(words@).take(words@.len() as int) =~= strs_view(words@));
    }

    /// Adds an EmojiOne entry: its emoji (decoded from `code`) for each ascii form, then for each
    /// keyword.
    pub fn add_emojione_entry(&mut self, code: &str, ascii: &[String], keywords: &[String])
        ensures
            final(self)@ == insert_all(insert_all(old(self)@, strs_view(ascii@), emoji_of_code_spec(code@)), strs_view(keywords@), emoji_of_code_spec(code@)),
    {
        let e = emoji_of_code(code);
        self.insert_each(ascii, e.as_str());
        self.insert_each(keywords, e.as_str());
    }

    /// Inserts `value` for `word`; several values for one word are joined with `:`.
    pub fn insert(&mut self, word: &str, value: &str)
        ensures
            final(self)@ == insert_spec(old(self)@, word@, value@),
    {
        let ghost e = self@;
        let w = str_chars(word);
        let mut n = self.entries.len();
        while n > 0
            invariant
                n <= self.entries@.len(),
                e == self@,
                e == old(self)@,
                w@ == word@,
                word_index(e, word@, e.len() as int) == word_index(e, word@, n as int),
            decreases n,
        {
            let k = str_chars(self.entries[n - 1].0.as_str());
            assert(e[n - 1].0 == k@);
            if chars_eq(&k, &w) {
                let i = n - 1;
                let old_v = str_chars(self.entries[i].1.as_str());
                let mut nv: Vec<char> = Vec::new();
                append_chars(&mut nv, &old_v);
                if old_v.len() > 0 {
                    nv.push(':');
                }
                append_chars(&mut nv, &str_chars(value));
                assert(nv@ == joined(e[i as int].1, value@));
                let ghost o = self.entries@;
                let entry = (self.entries[i].0.clone(), string_from_chars(&nv));
                self.entries.set(i, entry);
                assert(pairs_view(self.entries@) =~= pairs_view(o).update(i as int, (word@, joined(e[i as int].1, value@))));
                assert(word_index(e, word@, n as int) == i);
                assert(insert_spec(e, word@, value@) == e.update(i as int, (word@, joined(e[i as int].1, value@))));
                return;
            }
            n = n - 1;
        }
        let ghost o = self.entries@;
        self.entries.push((word.to_owned(), value.to_owned()));
        assert(pairs_view(self.entries@) =~= pairs_view(o).push((word@, value@)));
    }

    /// The (word, value) pairs under `prefix`, in insertion order; `None` when no word has the
    /// prefix (the empty prefix always has the root).
    pub fn find_prefix(&self, prefix: &str) -> (r: Option<Vec<(String, String)>>)
        ensures
            match r {
                Some(v) => find_prefix_spec(self@, prefix@) == Some(pairs_view(v@)),
                None => find_prefix_spec(self@, prefix@).is_none(),
            },
    {
        let p = str_chars(prefix);
        let ghost e = self@;
        let mut out: Vec<(String, String)> = Vec::new();
        let mut any = false;
        for i in 0..self.entries.len()
            invariant
                e == self@,
                p@ == prefix@,
                pairs_view(out@) == with_prefix(e.take(i as int), p@),
                any == exists|j: int| 0 <= j < i && is_prefix(p@, #[trigger] e[j].0),
        {
            assert(e.take(i + 1).drop_last() =~= e.take(i as int));
            assert(e.take(i + 1).last() == e[i as int]);
            let k = str_chars(self.entries[i].0.as_str());
            assert(e[i as int].0 == k@);
            let ghost o = out@;
            if starts_with(&k, &p) {
                assert(is_prefix(p@, e[i as int].0));
                any = true;
                out.push((self.entries[i].0.clone(), self.entries[i].1.clone()));
                assert(pairs_view(out@) =~= pairs_view(o).push(e[i as int]));
            }
        }
        assert(e.take(e.len() as int) =~= e);
        if p.len() == 0 || any {
            Some(out)
        } else {
            None
        }
    }
}

// ---------------------------------------------------------------------------------------------
// Splitting values

/// The pieces of `s` between `:` separators, from `start` (like `str::split(':')`).
pub open spec fn split_from(s: Seq<char>, start: int) -> Seq<Seq<char>>
    decreases s.len() - start,
{
    if start < 0 || start > s.len() {
        Seq::empty()
    } else {
        let e = colon_at(s, start);
        proof {
            lemma_colon_at(s, start);
        }
        if e < s.len() {
            seq![s.subrange(start, e)] + split_from(s, e + 1)
        } else {
            seq![s.subrange(start, s.len() as int)]
        }
    }
}

/// Index of the first `:` at or after `i`, or the length.
pub open spec fn colon_at(s: Seq<char>, i: int) -> int
    decreases s.len() - i,
{
    if i < 0 || i >= s.len() {
        s.len() as int
    } else if s[i] == ':' {
        i
    } else {
        colon_at(s, i + 1)
    }
}

pub proof fn lemma_colon_at(s: Seq<char>, i: int)
    requires
        0 <= i <= s.len(),
    ensures
        i <= colon_at(s, i) <= s.len(),
    decreases s.len() - i,
{
    if i < s.len() && s[i] != ':' {
        lemma_colon_at(s, i + 1);
    }
}

fn split_colon(s: &[char]) -> (r: Vec<String>)
    ensures
        strs_view(r@) == split_from(s@, 0),
{
    let mut out: Vec<String> = Vec::new();
    let mut start: usize = 0;
    loop
        invariant
            start <= s@.len(),
            split_from(s@, 0) == strs_view(out@) + split_from(s@, start as int),
        decreases s.len() - start,
    {
        proof { lemma_colon_at(s@, start as int); }
        let mut e = start;
        while e < s.len() && s[e] != ':'
            invariant
                start <= e <= s@.len(),
                colon_at(s@, start as int) == colon_at(s@, e as int),
            decreases s.len() - e,
        {
            e = e + 1;
        }
        let piece = crate::rules_parser::chars_range(s, start, e);
        let ghost o = out@;
        out.push(string_from_chars(&piece));
        assert(strs_view(out@) =~= strs_view(o).push(s@.subrange(start as int, e as int)));
        if e >= s.len() {
            assert(split_from(s@, start as int) =~= seq![s@.subrange(start as int, s@.len() as int)]);
            assert(strs_view(out@) =~= strs_view(out@) + Seq::<Seq<char>>::empty());
            return out;
        }
        assert(split_from(s@, start as int) =~= seq![s@.subrange(start as int, e as int)] + split_from(s@, e + 1));
        start = e + 1;
    }
}

// ---------------------------------------------------------------------------------------------
// The emoji engine

/// The emoji of the entries, in the order of their sorted words, the emoji of each word
/// sorted too.
pub open spec fn emoji_of(words: Seq<Seq<char>>, e: Seq<(Seq<char>, Seq<char>)>) -> Seq<Seq<char>>
    decreases words.len(),
{
    if words.len() == 0 {
        Seq::empty()
    } else {
        emoji_of(words.drop_last(), e) + isort(split_from(value_of(e, words.last()), 0), str_order())
    }
}

/// The value of the last entry for a word.
pub open spec fn value_of(e: Seq<(Seq<char>, Seq<char>)>, w: Seq<char>) -> Seq<char> {
    let k = word_index(e, w, e.len() as int);
    if 0 <= k < e.len() { e[k].1 } else { Seq::empty() }
}

/// The emoji found under a prefix (see `emoji_of`), none when no word has it.
pub open spec fn filter_spec(t: Seq<(Seq<char>, Seq<char>)>, s: Seq<char>) -> Seq<Seq<char>> {
    match find_prefix_spec(t, s) {
        Some(l) => emoji_of(isort(l.map_values(|x: (Seq<char>, Seq<char>)| x.0), str_order()), l),
        None => Seq::empty(),
    }
}

fn lookup_value(l: &Vec<(String, String)>, w: &String) -> (r: String)
    ensures
        r@ == value_of(pairs_view(l@), w@),
{
    let ghost e = pairs_view(l@);
    let mut n = l.len();
    while n > 0
        invariant
            n <= l@.len(),
            e == pairs_view(l@),
            word_index(e, w@, e.len() as int) == word_index(e, w@, n as int),
        decreases n,
    {
        if l[n - 1].0 == *w {
            return l[n - 1].1.clone();
        }
        n = n - 1;
    }
    String::new()
}

/// The keys of an emoji query typed so far, over a table.
pub struct EmojiEngine<'a> {
    trie: &'a TrieNode,
    keys: Vec<char>,
}

impl<'a> EmojiEngine<'a> {
    /// An engine over the table, with no keys.
    pub fn new(trie: &'a TrieNode) -> (e: EmojiEngine<'a>)
        ensures
            e.table() == trie@,
            e.raw() == Seq::<char>::empty(),
    {
        EmojiEngine { trie, keys: Vec::new() }
    }

    pub closed spec fn table(&self) -> Seq<(Seq<char>, Seq<char>)> {
        self.trie@
    }

    pub closed spec fn raw(&self) -> Seq<char> {
        self.keys@
    }

    /// Whether some word starts with `s`.
    pub fn match_string(&self, s: &str) -> (r: bool)
        ensures
            r == has_node(self.table(), s@),
    {
        self.trie.find_prefix(s).is_some()
    }

    /// The emoji of the words starting with `s`: by word in `str`'s order, the emoji of each
    /// word in that order too.
    pub fn filter(&self, s: &str) -> (r: Vec<String>)
        ensures
            strs_view(r@) == filter_spec(self.table(), s@),
    {
        let lookup = match self.trie.find_prefix(s) {
            Some(l) => l,
            None => {
                let r: Vec<String> = Vec::new();
                assert(strs_view(r@) =~= Seq::<Seq<char>>::empty());
                return r;
            },
        };
        let ghost lv = pairs_view(lookup@);
        let mut words: Vec<String> = Vec::new();
        for i in 0..lookup.len()
            invariant
                lv == pairs_view(lookup@),
                words@.len() == i,
                strs_view(words@) == lv.take(i as int).map_values(|x: (Seq<char>, Seq<char>)| x.0),
        {
            let ghost o = words@;
            let wd = lookup[i].0.clone();
            assert(wd@ == lv[i as int].0);
            words.push(wd);
            assert(strs_view(words@) =~= lv.take(i + 1).map_values(|x: (Seq<char>, Seq<char>)| x.0)) by {
                assert forall|j: int| 0 <= j < i + 1 implies #[trigger] strs_view(words@)[j] == lv.take(i + 1).map_values(|x: (Seq<char>, Seq<char>)| x.0)[j] by {
                    if j < i {
                        assert(words@[j] == o[j]);
                        assert(strs_view(o)[j] == lv.take(i as int).map_values(|x: (Seq<char>, Seq<char>)| x.0)[j]);
                    }
                }
            }
        }
        assert(lv.take(lv.len() as int) =~= lv);
        let sorted = sort_strings(words);
        let ghost sw = strs_view(sorted@);
        let mut out: Vec<String> = Vec::new();
        for k in 0..sorted.len()
            invariant
                lv == pairs_view(lookup@),
                sw == strs_view(sorted@),
                strs_view(out@) == emoji_of(sw.take(k as int), lv),
        {
            assert(sw.take(k + 1).drop_last() =~= sw.take(k as int));
            let v = lookup_value(&lookup, &sorted[k]);
            let parts = split_colon(&str_chars(v.as_str()));
            let sp = sort_strings(parts);
            let ghost o = strs_view(out@);
            let ghost spv = strs_view(sp@);
            let mut sp2 = sp;
            let ghost oo = out@;
            out.append(&mut sp2);
            assert(strs_view(out@) =~= o + spv) by {
                assert forall|j: int| 0 <= j < out@.len() implies #[trigger] strs_view(out@)[j] == (o + spv)[j] by {
                    if j < oo.len() {
                        assert(out@[j] == oo[j]);
                    } else {
                        assert(out@[j] == sp@[j - oo.len()]);
                    }
                }
            }
        }
        assert(sw.take(sw.len() as int) =~= sw);
        out
    }

    /// Adds a key to the query.
    pub fn process_key(&mut self, key: char)
        ensures
            final(self).table() == old(self).table(),
            final(self).raw() == old(self).raw().push(key),
    {
        self.keys.push(key);
    }

    /// The keys typed.
    pub fn get_raw_string(&self) -> (r: String)
        ensures
            r@ == self.raw(),
    {
        string_from_chars(&self.keys)
    }

    /// Forgets the keys.
    pub fn reset(&mut self)
        ensures
            final(self).table() == old(self).table(),
            final(self).raw() == Seq::<char>::empty(),
    {
        self.keys = Vec::new();
    }

    /// The emoji that the keys typed select.
    pub fn query(&self) -> (r: Vec<String>)
        ensures
            strs_view(r@) == filter_spec(self.table(), self.raw()),
    {
        let s = self.get_raw_string();
        self.filter(s.as_str())
    }

    /// Removes the last key, if any.
    pub fn remove_last_key(&mut self)
        ensures
            final(self).table() == old(self).table(),
            final(self).raw() == if old(self).raw().len() > 0 { old(self).raw().drop_last() } else { old(self).raw() },
    {
        self.keys.pop();
    }
}

} // verus!
