//! Fuzzy emoji search: a query matches a key when its chars occur in the key in order
//! (ignoring case), scored so that prefix, word-start and contiguous matches and short keys
//! rank first.
use vstd::prelude::*;
use crate::order::{lex_lt, str_lt, insert_pos, isort, lemma_isort_len};
use crate::emoji::{emoji_of_code, emoji_of_code_spec};
use crate::order::strs_view;
use crate::unicode::{lowercase_of, lowercase_chars, str_chars, str_lowercase_of, str_to_lowercase, string_from_chars};

verus! {

/// The chars of `s`, each replaced by its lowercase mapping.
pub open spec fn lower_each(s: Seq<char>) -> Seq<char>
    decreases s.len(),
{
    if s.len() == 0 {
        Seq::empty()
    } else {
        lower_each(s.drop_last()) + lowercase_of(s.last())
    }
}

pub open spec fn is_word_sep(c: char) -> bool {
    c == '_' || c == '-' || c == ' '
}

/// The greedy left-to-right match of `q[qi..]` in `k[ki..]`: the score when all of `q` is
/// matched. Matching the first char of the key gives 16, matching at a word start (the key's
/// start or after `_`, `-`, space) 10, and matching right after a matched char 8.
pub open spec fn scan(q: Seq<char>, k: Seq<char>, ki: int, qi: int, prev_matched: bool, prev_char: char, score: int) -> Option<int>
    decreases k.len() - ki,
{
    if ki < 0 || ki >= k.len() || qi < 0 || qi >= q.len() {
        None
    } else if k[ki] != q[qi] {
        scan(q, k, ki + 1, qi, false, k[ki], score)
    } else {
        let s1 = score + (if ki == 0 { 16int } else { 0int }) + (if ki == 0 || is_word_sep(prev_char) { 10int } else { 0int })
            + (if prev_matched { 8int } else { 0int });
        if qi + 1 == q.len() {
            Some(s1)
        } else {
            scan(q, k, ki + 1, qi + 1, true, k[ki], s1)
        }
    }
}

/// The score of a lowercased query on a lowercased key of `key_len` chars: the match score less
/// the key's length; none for an empty query or one that is not a subsequence of the key.
pub open spec fn score_spec(q: Seq<char>, k: Seq<char>, key_len: int) -> Option<int> {
    if q.len() == 0 {
        None
    } else {
        match scan(q, k, 0, 0, false, '\0', 0) {
            Some(s) => Some(s - key_len),
            None => None,
        }
    }
}

pub const MAX_KEY_LEN: usize = 10000000usize;

/// The score of the lowercased query `q` on the lowercased key (see `score_spec`).
pub fn score_prepared(q: &[char], key_lower: &[char], key_len: i32) -> (r: Option<i32>)
    requires
        key_lower@.len() <= MAX_KEY_LEN,
        -(MAX_KEY_LEN as int) <= key_len <= MAX_KEY_LEN,
    ensures
        match score_spec(q@, key_lower@, key_len as int) {
            Some(s) => r == Some(s as i32),
            None => r.is_none(),
        },
{
    if q.len() == 0 {
        return None;
    }
    let mut score: i32 = 0;
    let mut qi: usize = 0;
    let mut prev_matched = false;
    let mut prev_char = '\0';
    let mut ki: usize = 0;
    while ki < key_lower.len()
        invariant
            q@.len() > 0,
            qi < q@.len(),
            ki <= key_lower@.len(),
            key_lower@.len() <= MAX_KEY_LEN,
            -(MAX_KEY_LEN as int) <= key_len <= MAX_KEY_LEN,
            0 <= score <= 34 * ki,
            scan(q@, key_lower@, 0, 0, false, '\0', 0) == scan(q@, key_lower@, ki as int, qi as int, prev_matched, prev_char, score as int),
        decreases key_lower.len() - ki,
    {
        let kc = key_lower[ki];
        if kc != q[qi] {
            prev_matched = false;
            prev_char = kc;
            ki = ki + 1;
            continue;
        }
        if ki == 0 {
            score = score + 16;
        }
        if ki == 0 || prev_char == '_' || prev_char == '-' || prev_char == ' ' {
            score = score + 10;
        }
        if prev_matched {
            score = score + 8;
        }
        prev_matched = true;
        prev_char = kc;
        qi = qi + 1;
        if qi == q.len() {
            return Some(score - key_len);
        }
        ki = ki + 1;
    }
    None
}

fn lower_each_exec(s: &[char]) -> (r: Vec<char>)
    ensures
        r@ == lower_each(s@),
{
    let mut out: Vec<char> = Vec::new();
    for i in 0..s.len()
        invariant
            out@ == lower_each(s@.take(i as int)),
    {
        assert(s@.take(i + 1).drop_last() =~= s@.take(i as int));
        let l = lowercase_chars(s[i]);
        crate::config::append_chars(&mut out, &l);
    }
    assert(s@.take(s@.len() as int) =~= s@);
    out
}

/// The fuzzy score of `query` on `key`, both lowercased (see `score_spec`); none for a key
/// whose lowercase form is longer than `MAX_KEY_LEN`, where the score would not fit an `i32`.
pub fn fuzzy_score(query: &str, key: &str) -> (r: Option<i32>)
    ensures
        str_lowercase_of(key@).len() > MAX_KEY_LEN ==> r.is_none(),
        str_lowercase_of(key@).len() <= MAX_KEY_LEN ==> match score_spec(lower_each(query@), str_lowercase_of(key@), str_lowercase_of(key@).len() as int) {
            Some(s) => r == Some(s as i32),
            None => r.is_none(),
        },
{
    let q = lower_each_exec(&str_chars(query));
    let key_lower = str_to_lowercase(&str_chars(key));
    if key_lower.len() > MAX_KEY_LEN {
        return None;
    }
    let key_len = key_lower.len() as i32;
    score_prepared(&q, &key_lower, key_len)
}

// ---------------------------------------------------------------------------------------------
// The index

pub open spec fn entries_view(e: Seq<(String, String, i32)>) -> Seq<(Seq<char>, Seq<char>, i32)> {
    e.map_values(|x: (String, String, i32)| (x.0@, x.1@, x.2))
}

/// A flat index of (lowercased key, emoji, key length) for fuzzy search.
pub struct EmojiIndex {
    entries: Vec<(String, String, i32)>,
}

impl View for EmojiIndex {
    type V = Seq<(Seq<char>, Seq<char>, i32)>;

    closed spec fn view(&self) -> Seq<(Seq<char>, Seq<char>, i32)> {
        entries_view(self.entries@)
    }
}

/// An entry's key length is that of its key, within the bound.
pub open spec fn entry_ok(e: (Seq<char>, Seq<char>, i32)) -> bool {
    e.0.len() <= MAX_KEY_LEN && e.2 == e.0.len()
}

/// The (score, key, emoji) of the entries that match a lowercased query, in order.
pub open spec fn scored(e: Seq<(Seq<char>, Seq<char>, i32)>, q: Seq<char>) -> Seq<(i32, Seq<char>, Seq<char>)>
    decreases e.len(),
{
    if e.len() == 0 {
        Seq::empty()
    } else {
        let x = e.last();
        scored(e.drop_last(), q) + match score_spec(q, x.0, x.2 as int) {
            Some(s) => seq![(s as i32, x.0, x.1)],
            None => Seq::empty(),
        }
    }
}

/// Higher score first, then key, then emoji in `str`'s order.
pub open spec fn rank_order() -> spec_fn((i32, Seq<char>, Seq<char>), (i32, Seq<char>, Seq<char>)) -> bool {
    |a: (i32, Seq<char>, Seq<char>), b: (i32, Seq<char>, Seq<char>)|
        a.0 > b.0 || (a.0 == b.0 && (lex_lt(a.1, b.1) || (a.1 == b.1 && lex_lt(a.2, b.2))))
}

/// The emoji of `s` from `i` on, each once, added to `out` until it holds `limit` of them.
pub open spec fn dedup_from(s: Seq<(i32, Seq<char>, Seq<char>)>, i: int, out: Seq<Seq<char>>, limit: int) -> Seq<Seq<char>>
    decreases s.len() - i,
{
    if i < 0 || i >= s.len() || out.len() >= limit {
        out
    } else if out.contains(s[i].2) {
        dedup_from(s, i + 1, out, limit)
    } else {
        dedup_from(s, i + 1, out.push(s[i].2), limit)
    }
}

pub open spec fn scored_view(v: Seq<(i32, String, String)>) -> Seq<(i32, Seq<char>, Seq<char>)> {
    v.map_values(|x: (i32, String, String)| (x.0, x.1@, x.2@))
}

fn rank_lt(a: &(i32, String, String), b: &(i32, String, String)) -> (r: bool)
    ensures
        r == (rank_order())((a.0, a.1@, a.2@), (b.0, b.1@, b.2@)),
{
    a.0 > b.0 || (a.0 == b.0 && (str_lt(a.1.as_str(), b.1.as_str()) || (a.1 == b.1 && str_lt(a.2.as_str(), b.2.as_str()))))
}

fn sort_scored(v: Vec<(i32, String, String)>) -> (r: Vec<(i32, String, String)>)
    ensures
        scored_view(r@) == isort(scored_view(v@), rank_order()),
{
    let ghost sv = scored_view(v@);
    let mut out: Vec<(i32, String, String)> = Vec::new();
    for k in 0..v.len()
        invariant
            sv == scored_view(v@),
            scored_view(out@) == isort(sv.take(k as int), rank_order()),
    {
        assert(sv.take(k + 1).drop_last() =~= sv.take(k as int));
        let x = (v[k].0, v[k].1.clone(), v[k].2.clone());
        assert(sv.take(k + 1).last() == (x.0, x.1@, x.2@));
        let ghost t = scored_view(out@);
        proof { lemma_isort_len(sv.take(k as int), rank_order()); }
        let mut p: usize = 0;
        while p < out.len() && !rank_lt(&x, &out[p])
            invariant
                p <= out@.len(),
                t == scored_view(out@),
                insert_pos(t, (x.0, x.1@, x.2@), rank_order(), 0) == insert_pos(t, (x.0, x.1@, x.2@), rank_order(), p as int),
            decreases out.len() - p,
        {
            p = p + 1;
        }
        let ghost o = out@;
        let ghost xv = (x.0, x.1@, x.2@);
        out.insert(p, x);
        assert(scored_view(out@) =~= t.insert(p as int, xv)) by {
            assert forall|j: int| 0 <= j < out@.len() implies #[trigger] scored_view(out@)[j] == t.insert(p as int, xv)[j] by {
                if j < p {
                    assert(out@[j] == o[j]);
                } else if j > p {
                    assert(out@[j] == o[j - 1]);
                }
            }
        }
    }
    assert(sv.take(v@.len() as int) =~= sv);
    out
}

/// First index at or after `i` that is not `':'`, or the length.
pub open spec fn colon_lead(s: Seq<char>, i: int) -> int
    decreases s.len() - i,
{
    if i < 0 || i >= s.len() {
        s.len() as int
    } else if s[i] == ':' {
        colon_lead(s, i + 1)
    } else {
        i
    }
}

/// One past the last index before `j` that is not `':'`, or 0.
pub open spec fn colon_trail(s: Seq<char>, j: int) -> int
    decreases j,
{
    if j <= 0 || j > s.len() {
        if j > s.len() { s.len() as int } else { 0 }
    } else if s[j - 1] == ':' {
        colon_trail(s, j - 1)
    } else {
        j
    }
}

/// `s` without its leading and trailing colons (`str::trim_matches(':')`).
pub open spec fn trim_colons(s: Seq<char>) -> Seq<char> {
    let a = colon_lead(s, 0);
    let b = colon_trail(s, s.len() as int);
    if a < b { s.subrange(a, b) } else { Seq::empty() }
}

proof fn lemma_colon_lead(s: Seq<char>, i: int)
    requires
        0 <= i <= s.len(),
    ensures
        i <= colon_lead(s, i) <= s.len(),
    decreases s.len() - i,
{
    if i < s.len() && s[i] == ':' {
        lemma_colon_lead(s, i + 1);
    }
}

proof fn lemma_colon_trail(s: Seq<char>, j: int)
    requires
        0 <= j <= s.len(),
    ensures
        0 <= colon_trail(s, j) <= j,
    decreases j,
{
    if j > 0 && s[j - 1] == ':' {
        lemma_colon_trail(s, j - 1);
    }
}

fn trim_colons_exec(s: &[char]) -> (r: Vec<char>)
    ensures
        r@ == trim_colons(s@),
{
    let mut a: usize = 0;
    while a < s.len() && s[a] == ':'
        invariant
            a <= s.len(),
            colon_lead(s@, 0) == colon_lead(s@, a as int),
        decreases s.len() - a,
    {
        a = a + 1;
    }
    let mut b: usize = s.len();
    while b > 0 && s[b - 1] == ':'
        invariant
            b <= s.len(),
            colon_trail(s@, s@.len() as int) == colon_trail(s@, b as int),
        decreases b,
    {
        b = b - 1;
    }
    if a < b {
        crate::rules_parser::chars_range(s, a, b)
    } else {
        Vec::new()
    }
}

/// The index after adding each of `keys` for `emoji` (see `EmojiIndex::add_key`).
pub open spec fn add_keys(x: Seq<(Seq<char>, Seq<char>, i32)>, keys: Seq<Seq<char>>, emoji: Seq<char>) -> Seq<(Seq<char>, Seq<char>, i32)>
    decreases keys.len(),
{
    if keys.len() == 0 {
        x
    } else {
        let y = add_keys(x, keys.drop_last(), emoji);
        let k = keys.last();
        if k.len() == 0 || str_lowercase_of(k).len() > MAX_KEY_LEN {
            y
        } else {
            y.push((str_lowercase_of(k), emoji, str_lowercase_of(k).len() as i32))
        }
    }
}

/// The search keys of an EmojiOne entry: its shortname and alternate shortnames without their
/// colons, then its keywords, then its ascii forms.
pub open spec fn entry_keys(shortname: Seq<char>, alternates: Seq<Seq<char>>, keywords: Seq<Seq<char>>, ascii: Seq<Seq<char>>) -> Seq<Seq<char>> {
    seq![trim_colons(shortname)] + alternates.map_values(|a: Seq<char>| trim_colons(a)) + keywords + ascii
}

impl EmojiIndex {
    #[verifier::type_invariant]
    spec fn inv(&self) -> bool {
        forall|i: int| 0 <= i < self@.len() ==> entry_ok(#[trigger] self@[i])
    }

    /// An empty index.
    pub fn new() -> (x: EmojiIndex)
        ensures
            x@ == Seq::<(Seq<char>, Seq<char>, i32)>::empty(),
    {
        let x = EmojiIndex { entries: Vec::new() };
        assert(entries_view(x.entries@) =~= Seq::<(Seq<char>, Seq<char>, i32)>::empty());
        x
    }

    /// Adds a search key (lowercased, with its length) for an emoji; an empty key, or one whose
    /// lowercase form is longer than `MAX_KEY_LEN`, adds nothing.
    pub fn add_key(&mut self, key: &str, emoji: &str)
        ensures
            final(self)@ == if key@.len() == 0 || str_lowercase_of(key@).len() > MAX_KEY_LEN {
                old(self)@
            } else {
                old(self)@.push((str_lowercase_of(key@), emoji@, str_lowercase_of(key@).len() as i32))
            },
    {
        proof { use_type_invariant(&*self); }
        let kc = str_chars(key);
        if kc.len() == 0 {
            return;
        }
        let lower = str_to_lowercase(&kc);
        if lower.len() > MAX_KEY_LEN {
            return;
        }
        let len = lower.len() as i32;
        let ghost o = self.entries@;
        let ghost ov = self@;
        assert(ov == entries_view(o));
        let mut v: Vec<(String, String, i32)> = Vec::new();
        std::mem::swap(&mut v, &mut self.entries);
        let ghost ev = (lower@, emoji@, len);
        v.push((string_from_chars(&lower), emoji.to_owned(), len));
        assert(entries_view(v@) =~= entries_view(o).push(ev));
        assert(entry_ok(ev));
        assert forall|i: int| 0 <= i < entries_view(v@).len() implies entry_ok(#[trigger] entries_view(v@)[i]) by {
            if i < o.len() {
                assert(entries_view(v@)[i] == ov[i]);
                assert(entry_ok(ov[i]));
            }
        }
        self.entries = v;
    }

    fn add_keys_exec(&mut self, keys: &Vec<Vec<char>>, emoji: &str)
        ensures
            final(self)@ == add_keys(old(self)@, keys@.map_values(|k: Vec<char>| k@), emoji@),
    {
        let ghost o = self@;
        let ghost kv = keys@.map_values(|k: Vec<char>| k@);
        for i in 0..keys.len()
            invariant
                kv == keys@.map_values(|k: Vec<char>| k@),
                self@ == add_keys(o, kv.take(i as int), emoji@),
        {
            assert(kv.take(i + 1).drop_last() =~= kv.take(i as int));
            assert(kv.take(i + 1).last() == keys@[i as int]@);
            self.add_key(string_from_chars(&keys[i]).as_str(), emoji);
        }
        assert(kv.take(kv.len() as int) =~= kv);
    }

    /// Adds the keys of an EmojiOne entry (see `entry_keys`) for its emoji, decoded from `code`;
    /// an entry whose emoji decodes to nothing adds nothing.
    pub fn add_emojione_entry(&mut self, code: &str, shortname: &str, alternates: &[String], keywords: &[String], ascii: &[String])
        ensures
            final(self)@ == if emoji_of_code_spec(code@).len() == 0 {
                old(self)@
            } else {
                add_keys(old(self)@, entry_keys(shortname@, strs_view(alternates@), strs_view(keywords@), strs_view(ascii@)), emoji_of_code_spec(code@))
            },
    {
        let emoji = emoji_of_code(code);
        if str_chars(emoji.as_str()).len() == 0 {
            return;
        }
        let mut keys: Vec<Vec<char>> = Vec::new();
        keys.push(trim_colons_exec(&str_chars(shortname)));
        for i in 0..alternates.len()
            invariant
                keys@.map_values(|k: Vec<char>| k@) == seq![trim_colons(shortname@)] + strs_view(alternates@).take(i as int).map_values(|a: Seq<char>| trim_colons(a)),
        {
            let ghost before = keys@.map_values(|k: Vec<char>| k@);
            let x = trim_colons_exec(&str_chars(alternates[i].as_str()));
            let ghost xv = x@;
            keys.push(x);
            assert(keys@.map_values(|k: Vec<char>| k@) =~= before.push(xv));
            assert(strs_view(alternates@).take(i + 1).map_values(|a: Seq<char>| trim_colons(a)) =~= strs_view(alternates@).take(i as int).map_values(|a: Seq<char>| trim_colons(a)).push(xv));
            assert(keys@.map_values(|k: Vec<char>| k@) =~= seq![trim_colons(shortname@)] + strs_view(alternates@).take(i + 1).map_values(|a: Seq<char>| trim_colons(a)));
        }
        assert(strs_view(alternates@).take(alternates@.len() as int) =~= strs_view(alternates@));
        for i in 0..keywords.len()
            invariant
                keys@.map_values(|k: Vec<char>| k@) == seq![trim_colons(shortname@)] + strs_view(alternates@).map_values(|a: Seq<char>| trim_colons(a)) + strs_view(keywords@).take(i as int),
        {
            let ghost before = keys@.map_values(|k: Vec<char>| k@);
            let x = str_chars(keywords[i].as_str());
            let ghost xv = x@;
            keys.push(x);
            assert(keys@.map_values(|k: Vec<char>| k@) =~= before.push(xv));
            assert(strs_view(keywords@).take(i + 1) =~= strs_view(keywords@).take(i as int).push(xv));
            assert(keys@.map_values(|k: Vec<char>| k@) =~= seq![trim_colons(shortname@)] + strs_view(alternates@).map_values(|a: Seq<char>| trim_colons(a)) + strs_view(keywords@).take(i + 1));
        }
        assert(strs_view(keywords@).take(keywords@.len() as int) =~= strs_view(keywords@));
        for i in 0..ascii.len()
            invariant
                keys@.map_values(|k: Vec<char>| k@) == seq![trim_colons(shortname@)] + strs_view(alternates@).map_values(|a: Seq<char>| trim_colons(a)) + strs_view(keywords@) + strs_view(ascii@).take(i as int),
        {
            let ghost before = keys@.map_values(|k: Vec<char>| k@);
            let x = str_chars(ascii[i].as_str());
            let ghost xv = x@;
            keys.push(x);
            assert(keys@.map_values(|k: Vec<char>| k@) =~= before.push(xv));
            assert(strs_view(ascii@).take(i + 1) =~= strs_view(ascii@).take(i as int).push(xv));
            assert(keys@.map_values(|k: Vec<char>| k@) =~= seq![trim_colons(shortname@)] + strs_view(alternates@).map_values(|a: Seq<char>| trim_colons(a)) + strs_view(keywords@) + strs_view(ascii@).take(i + 1));
        }
        assert(strs_view(ascii@).take(ascii@.len() as int) =~= strs_view(ascii@));
        assert(keys@.map_values(|k: Vec<char>| k@) =~= entry_keys(shortname@, strs_view(alternates@), strs_view(keywords@), strs_view(ascii@)));
        self.add_keys_exec(&keys, emoji.as_str());
    }

    /// The emoji whose keys match the query, best first (higher score, then key, then emoji),
    /// each once, at most `limit` of them; none for an empty query.
    pub fn fuzzy_query(&self, query: &str, limit: usize) -> (r: Vec<String>)
        ensures
            crate::order::strs_view(r@) == if query@.len() == 0 {
                Seq::empty()
            } else {
                dedup_from(isort(scored(self@, lower_each(query@)), rank_order()), 0, Seq::empty(), limit as int)
            },
    {
        proof { use_type_invariant(self); }
        let qc = str_chars(query);
        if qc.len() == 0 {
            let r: Vec<String> = Vec::new();
            assert(crate::order::strs_view(r@) =~= Seq::<Seq<char>>::empty());
            return r;
        }
        let q = lower_each_exec(&qc);
        let ghost ev = self@;
        let mut sc: Vec<(i32, String, String)> = Vec::new();
        for i in 0..self.entries.len()
            invariant
                ev == self@,
                ev == entries_view(self.entries@),
                forall|j: int| 0 <= j < ev.len() ==> entry_ok(#[trigger] ev[j]),
                scored_view(sc@) == scored(ev.take(i as int), q@),
        {
            assert(ev.take(i + 1).drop_last() =~= ev.take(i as int));
            let e = &self.entries[i];
            assert(ev.take(i + 1).last() == (e.0@, e.1@, e.2));
            assert(entry_ok(ev[i as int]));
            let kc = str_chars(e.0.as_str());
            let ghost o = sc@;
            match score_prepared(&q, &kc, e.2) {
                Some(s) => {
                    sc.push((s, e.0.clone(), e.1.clone()));
                    assert(scored_view(sc@) =~= scored_view(o).push((s, e.0@, e.1@)));
                },
                None => {},
            }
        }
        assert(ev.take(ev.len() as int) =~= ev);
        let sorted = sort_scored(sc);
        let ghost ss = scored_view(sorted@);
        let mut out: Vec<String> = Vec::new();
        let mut i: usize = 0;
        proof { assert(crate::order::strs_view(out@) =~= Seq::<Seq<char>>::empty()); }
        assert(ss == isort(scored(self@, lower_each(query@)), rank_order()));
        while i < sorted.len()
            invariant
                ss == scored_view(sorted@),
                ss == isort(scored(self@, lower_each(query@)), rank_order()),
                query@.len() > 0,
                i <= sorted@.len(),
                dedup_from(ss, 0, Seq::empty(), limit as int) == dedup_from(ss, i as int, crate::order::strs_view(out@), limit as int),
            decreases sorted.len() - i,
        {
            if out.len() >= limit {
                return out;
            }
            let em = &sorted[i].2;
            assert(ss[i as int].2 == em@);
            let mut seen = false;
            for j in 0..out.len()
                invariant
                    seen == crate::order::strs_view(out@).take(j as int).contains(em@),
            {
                assert(crate::order::strs_view(out@).take(j + 1) =~= crate::order::strs_view(out@).take(j as int).push(out@[j as int]@));
                if out[j] == *em {
                    seen = true;
                    assert(crate::order::strs_view(out@).take(j + 1)[j as int] == em@);
                }
            }
            assert(crate::order::strs_view(out@).take(out@.len() as int) =~= crate::order::strs_view(out@));
            if !seen {
                let ghost o = out@;
                out.push(em.clone());
                assert(crate::order::strs_view(out@) =~= crate::order::strs_view(o).push(em@));
            }
            i = i + 1;
        }
        out
    }
}

proof fn lemma_dedup_from(s: Seq<(i32, Seq<char>, Seq<char>)>, i: int, out: Seq<Seq<char>>, limit: int)
    requires
        out.no_duplicates(),
        out.len() <= limit,
    ensures
        dedup_from(s, i, out, limit).no_duplicates(),
        dedup_from(s, i, out, limit).len() <= limit,
        out.len() <= dedup_from(s, i, out, limit).len(),
    decreases s.len() - i,
{
    if !(i < 0 || i >= s.len() || out.len() >= limit) {
        if out.contains(s[i].2) {
            lemma_dedup_from(s, i + 1, out, limit);
        } else {
            let o2 = out.push(s[i].2);
            assert forall|a: int, b: int| 0 <= a < o2.len() && 0 <= b < o2.len() && a != b implies o2[a] != o2[b] by {
                if a < out.len() && b < out.len() {
                } else if a == out.len() {
                    assert(o2[b] == out[b]);
                } else {
                    assert(o2[a] == out[a]);
                }
            }
            lemma_dedup_from(s, i + 1, o2, limit);
        }
    }
}

/// The answer to a fuzzy query holds each emoji once, and at most `limit` of them.
pub proof fn lemma_fuzzy_query_unique(x: Seq<(Seq<char>, Seq<char>, i32)>, q: Seq<char>, limit: int)
    requires
        limit >= 0,
    ensures
        dedup_from(isort(scored(x, q), rank_order()), 0, Seq::empty(), limit).no_duplicates(),
        dedup_from(isort(scored(x, q), rank_order()), 0, Seq::empty(), limit).len() <= limit,
{
    lemma_dedup_from(isort(scored(x, q), rank_order()), 0, Seq::empty(), limit);
}

} // verus!
