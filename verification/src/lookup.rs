//! The lookup table of an emoji or hexadecimal query: `:` at a word start opens it, the keys
//! typed filter emoji by prefix, and a prefixed code (`u+1f600`, `U+2764`, `\u00e9`) gives its
//! char first.
use vstd::prelude::*;
use crate::emoji::{TrieNode, EmojiEngine, filter_spec};
use crate::order::strs_view;
use crate::text::{trim_spec, trim_chars};
use crate::keysym::{is_scalar, char_from_u32};
use crate::unicode::{str_chars, string_from_chars};
use crate::hex::{hex_val, hex_value, all_hex, lemma_hex_monotone};

verus! {

/// Candidates shown per page.
pub const EMOJI_PAGE_SIZE: usize = 9usize;
/// At most this many candidates.
pub const MAX_CANDIDATES: usize = 90usize;

/// The digits after a `\u`, `U+` or `u+` prefix (tried in that order).
pub open spec fn strip_hex_prefix(t: Seq<char>) -> Option<Seq<char>> {
    if t.len() >= 2 && t[0] == '\\' && t[1] == 'u' {
        Some(t.skip(2))
    } else if t.len() >= 2 && t[0] == 'U' && t[1] == '+' {
        Some(t.skip(2))
    } else if t.len() >= 2 && t[0] == 'u' && t[1] == '+' {
        Some(t.skip(2))
    } else {
        None
    }
}

/// The char of a prefixed hexadecimal code (trimmed): none without a prefix, with no digits or
/// a non-hex char, above `u32`, or not a Unicode scalar value.
pub open spec fn hex_char_spec(s: Seq<char>) -> Option<char> {
    match strip_hex_prefix(trim_spec(s)) {
        None => None,
        Some(h) => if h.len() == 0 || !all_hex(h) || hex_value(h) > u32::MAX as int {
            None
        } else if is_scalar(hex_value(h) as u32) {
            Some(hex_value(h) as u32 as char)
        } else {
            None
        },
    }
}

/// The char of a prefixed hexadecimal code (see `hex_char_spec`).
pub fn hex_to_char(s: &str) -> (r: Option<char>)
    ensures
        r == hex_char_spec(s@),
{
    let t = trim_chars(&str_chars(s));
    if !(t.len() >= 2 && ((t[0] == '\\' && t[1] == 'u') || (t[0] == 'U' && t[1] == '+') || (t[0] == 'u' && t[1] == '+'))) {
        return None;
    }
    let h = crate::rules_parser::chars_range(&t, 2, t.len());
    assert(h@ =~= t@.skip(2));
    assert(strip_hex_prefix(trim_spec(s@)) == Some(h@));
    if h.len() == 0 {
        return None;
    }
    for i in 0..h.len()
        invariant
            strip_hex_prefix(trim_spec(s@)) == Some(h@),
            forall|k: int| 0 <= k < i ==> hex_val(#[trigger] h@[k]) >= 0,
    {
        let c = h[i];
        if !(('0' <= c && c <= '9') || ('a' <= c && c <= 'f') || ('A' <= c && c <= 'F')) {
            assert(hex_val(h@[i as int]) < 0);
            assert(!all_hex(h@));
            return None;
        }
    }
    let mut v: u64 = 0;
    for i in 0..h.len()
        invariant
            strip_hex_prefix(trim_spec(s@)) == Some(h@),
            all_hex(h@),
            v == hex_value(h@.take(i as int)),
            v <= u32::MAX,
    {
        assert(h@.take(i + 1).drop_last() =~= h@.take(i as int));
        let c = h[i];
        let d: u64 = if '0' <= c && c <= '9' {
            (c as u64) - ('0' as u64)
        } else if 'a' <= c && c <= 'f' {
            (c as u64) - ('a' as u64) + 10
        } else {
            (c as u64) - ('A' as u64) + 10
        };
        assert(hex_val(h@[i as int]) >= 0);
        v = v * 16 + d;
        if v > 0xFFFF_FFFFu64 {
            proof { lemma_hex_monotone(h@, i + 1); }
            return None;
        }
    }
    assert(h@.take(h@.len() as int) =~= h@);
    char_from_u32(v as u32)
}

/// The candidates for a query: the char of its hexadecimal code first, then the emoji found by
/// prefix, each once, at most `max`; none for an empty query.
pub open spec fn candidates_spec(query: Seq<char>, t: Seq<(Seq<char>, Seq<char>)>, max: int) -> Seq<Seq<char>> {
    if query.len() == 0 {
        Seq::empty()
    } else {
        let init = match hex_char_spec(query) {
            Some(c) => seq![seq![c]],
            None => Seq::empty(),
        };
        let all = pick_from(filter_spec(t, query), 0, init, max);
        if all.len() > max { all.take(max) } else { all }
    }
}

/// The emoji of `f` from `i` on added to `out` when new, until `out` holds `max`.
pub open spec fn pick_from(f: Seq<Seq<char>>, i: int, out: Seq<Seq<char>>, max: int) -> Seq<Seq<char>>
    decreases f.len() - i,
{
    if i < 0 || i >= f.len() || out.len() >= max {
        out
    } else if out.contains(f[i]) {
        pick_from(f, i + 1, out, max)
    } else {
        pick_from(f, i + 1, out.push(f[i]), max)
    }
}

fn contains_string(v: &Vec<String>, s: &String) -> (r: bool)
    ensures
        r == strs_view(v@).contains(s@),
{
    for i in 0..v.len()
        invariant
            forall|k: int| 0 <= k < i ==> strs_view(v@)[k] != s@,
    {
        if v[i] == *s {
            assert(strs_view(v@)[i as int] == s@);
            return true;
        }
    }
    false
}

/// The candidates for a query (see `candidates_spec`).
pub fn compute_candidates(query: &str, trie: &TrieNode, max: usize) -> (r: Vec<String>)
    ensures
        strs_view(r@) == candidates_spec(query@, trie@, max as int),
{
    let mut out: Vec<String> = Vec::new();
    if str_chars(query).len() == 0 {
        assert(strs_view(out@) =~= Seq::<Seq<char>>::empty());
        return out;
    }
    match hex_to_char(query) {
        Some(c) => {
            let mut one: Vec<char> = Vec::new();
            one.push(c);
            assert(one@ =~= seq![c]);
            out.push(string_from_chars(&one));
            assert(strs_view(out@) =~= seq![seq![c]]);
        },
        None => {
            assert(strs_view(out@) =~= Seq::<Seq<char>>::empty());
        },
    }
    assert(strs_view(out@) == if hex_char_spec(query@) is Some { seq![seq![hex_char_spec(query@)->0]] } else { Seq::<Seq<char>>::empty() });
    let engine = EmojiEngine::new(trie);
    let found = engine.filter(query);
    let ghost f = strs_view(found@);
    let mut i: usize = 0;
    while i < found.len()
        invariant
            f == strs_view(found@),
            i <= found@.len(),
            pick_from(f, 0, if hex_char_spec(query@) is Some { seq![seq![hex_char_spec(query@)->0]] } else { Seq::empty() }, max as int)
                == pick_from(f, i as int, strs_view(out@), max as int),
        ensures
            i >= found@.len() || out@.len() >= max,
            pick_from(f, 0, if hex_char_spec(query@) is Some { seq![seq![hex_char_spec(query@)->0]] } else { Seq::empty() }, max as int)
                == pick_from(f, i as int, strs_view(out@), max as int),
            f == strs_view(found@),
        decreases found.len() - i,
    {
        if out.len() >= max {
            break;
        }
        if !contains_string(&out, &found[i]) {
            let ghost o = out@;
            out.push(found[i].clone());
            assert(strs_view(out@) =~= strs_view(o).push(f[i as int]));
        }
        i = i + 1;
    }
    let ghost all = strs_view(out@);
    if out.len() > max {
        out.truncate(max);
        assert(strs_view(out@) =~= all.take(max as int));
    }
    out
}

/// What a lookup session holds.
pub ghost struct EmojiStateV {
    pub active: bool,
    pub query: Seq<char>,
    pub candidates: Seq<Seq<char>>,
    pub cursor: usize,
}

/// An open emoji/hexadecimal lookup session.
pub struct EmojiState {
    active: bool,
    query: Vec<char>,
    candidates: Vec<String>,
    cursor: usize,
}

impl View for EmojiState {
    type V = EmojiStateV;

    closed spec fn view(&self) -> EmojiStateV {
        EmojiStateV { active: self.active, query: self.query@, candidates: strs_view(self.candidates@), cursor: self.cursor }
    }
}

/// The state after its query changes: the candidates recomputed, the cursor back at the start.
pub open spec fn recomputed(s: EmojiStateV, query: Seq<char>, t: Seq<(Seq<char>, Seq<char>)>) -> EmojiStateV {
    EmojiStateV { query, candidates: candidates_spec(query, t, MAX_CANDIDATES as int), cursor: 0, ..s }
}

/// The cursor moved by `delta`, kept within the candidates.
pub open spec fn moved(s: EmojiStateV, delta: int) -> EmojiStateV {
    if s.candidates.len() == 0 {
        EmojiStateV { cursor: 0, ..s }
    } else {
        let n = s.cursor + delta;
        let m = s.candidates.len() - 1;
        EmojiStateV { cursor: (if n < 0 { 0 } else if n > m { m } else { n }) as usize, ..s }
    }
}

impl EmojiState {
    #[verifier::type_invariant]
    spec fn inv(&self) -> bool {
        &&& self.candidates@.len() <= MAX_CANDIDATES
        &&& (self.cursor == 0 || self.cursor < self.candidates@.len())
    }

    /// A closed session.
    pub fn new() -> (s: EmojiState)
        ensures
            s@ == (EmojiStateV { active: false, query: Seq::empty(), candidates: Seq::empty(), cursor: 0 }),
    {
        let s = EmojiState { active: false, query: Vec::new(), candidates: Vec::new(), cursor: 0 };
        assert(strs_view(s.candidates@) =~= Seq::<Seq<char>>::empty());
        s
    }

    pub fn is_active(&self) -> (r: bool)
        ensures
            r == self@.active,
    {
        self.active
    }

    /// The query typed so far.
    pub fn query(&self) -> (r: String)
        ensures
            r@ == self@.query,
    {
        string_from_chars(&self.query)
    }

    pub fn candidates(&self) -> (r: &[String])
        ensures
            strs_view(r@) == self@.candidates,
    {
        self.candidates.as_slice()
    }

    pub fn cursor(&self) -> (r: usize)
        ensures
            r == self@.cursor,
    {
        self.cursor
    }

    /// Opens a session with an empty query.
    pub fn start(&mut self)
        ensures
            final(self)@ == (EmojiStateV { active: true, query: Seq::empty(), candidates: Seq::empty(), cursor: 0 }),
    {
        proof { use_type_invariant(&*self); }
        self.active = true;
        self.query = Vec::new();
        self.cursor = 0;
        self.candidates = Vec::new();
        assert(strs_view(self.candidates@) =~= Seq::<Seq<char>>::empty());
    }

    fn recompute(&mut self, trie: &TrieNode)
        ensures
            final(self)@ == recomputed(old(self)@, old(self)@.query, trie@),
    {
        let q = string_from_chars(&self.query);
        proof { use_type_invariant(&*self); }
        let c = compute_candidates(q.as_str(), trie, MAX_CANDIDATES);
        proof { lemma_candidates_len(self.query@, trie@, MAX_CANDIDATES as int); }
        self.cursor = 0;
        self.candidates = c;
    }

    /// Adds a char to the query and recomputes the candidates.
    pub fn push(&mut self, c: char, trie: &TrieNode)
        ensures
            final(self)@ == recomputed(old(self)@, old(self)@.query.push(c), trie@),
    {
        proof { use_type_invariant(&*self); }
        let mut q = Vec::new();
        std::mem::swap(&mut q, &mut self.query);
        q.push(c);
        self.query = q;
        self.recompute(trie);
    }

    /// Removes the last char of the query and recomputes the candidates; `false` when the query
    /// was already empty (nothing changes) or is now empty.
    pub fn backspace(&mut self, trie: &TrieNode) -> (r: bool)
        ensures
            old(self)@.query.len() == 0 ==> !r && final(self)@ == old(self)@,
            old(self)@.query.len() > 0 ==> final(self)@ == recomputed(old(self)@, old(self)@.query.drop_last(), trie@)
                && r == (old(self)@.query.len() > 1),
    {
        proof { use_type_invariant(&*self); }
        if self.query.len() == 0 {
            return false;
        }
        let mut q = Vec::new();
        std::mem::swap(&mut q, &mut self.query);
        q.pop();
        self.query = q;
        self.recompute(trie);
        self.query.len() > 0
    }

    /// Where the current page starts.
    pub fn page_start(&self) -> (r: usize)
        ensures
            r == (self@.cursor / EMOJI_PAGE_SIZE) * EMOJI_PAGE_SIZE,
    {
        proof { use_type_invariant(self); }
        (self.cursor / EMOJI_PAGE_SIZE) * EMOJI_PAGE_SIZE
    }

    /// Moves the cursor by `delta` (negative moves back), kept within the candidates.
    pub fn move_cursor(&mut self, delta: isize)
        requires
            isize::MIN <= old(self)@.cursor + delta <= isize::MAX,
        ensures
            final(self)@ == moved(old(self)@, delta as int),
    {
        proof { use_type_invariant(&*self); }
        if self.candidates.len() == 0 {
            self.cursor = 0;
            return;
        }
        let max = self.candidates.len() as isize - 1;
        let n = self.cursor as isize + delta;
        let next = if n < 0 { 0 } else if n > max { max } else { n };
        self.cursor = next as usize;
    }

    /// Moves the cursor by `delta` pages.
    pub fn page(&mut self, delta: isize)
        requires
            isize::MIN <= delta * 9 <= isize::MAX,
            isize::MIN <= old(self)@.cursor + delta * 9 <= isize::MAX,
        ensures
            final(self)@ == moved(old(self)@, delta * 9),
    {
        self.move_cursor(delta * (EMOJI_PAGE_SIZE as isize));
    }

    /// The candidate at the cursor.
    pub fn selected(&self) -> (r: Option<String>)
        ensures
            match r {
                Some(x) => self@.cursor < self@.candidates.len() && x@ == self@.candidates[self@.cursor as int],
                None => self@.cursor >= self@.candidates.len(),
            },
    {
        if self.cursor < self.candidates.len() {
            Some(self.candidates[self.cursor].clone())
        } else {
            None
        }
    }

    /// The candidate with number `digit` (1 to 9) on the current page, if there is one.
    pub fn select_digit(&self, digit: usize) -> (r: Option<String>)
        ensures
            match r {
                Some(x) => 1 <= digit <= EMOJI_PAGE_SIZE
                    && (self@.cursor / EMOJI_PAGE_SIZE) * EMOJI_PAGE_SIZE + digit - 1 < self@.candidates.len()
                    && x@ == self@.candidates[(self@.cursor / EMOJI_PAGE_SIZE) * EMOJI_PAGE_SIZE + digit - 1],
                None => !(1 <= digit <= EMOJI_PAGE_SIZE)
                    || (self@.cursor / EMOJI_PAGE_SIZE) * EMOJI_PAGE_SIZE + digit - 1 >= self@.candidates.len(),
            },
    {
        proof { use_type_invariant(self); }
        if !(1 <= digit && digit <= EMOJI_PAGE_SIZE) {
            return None;
        }
        let idx = self.page_start() + (digit - 1);
        if idx < self.candidates.len() {
            Some(self.candidates[idx].clone())
        } else {
            None
        }
    }

    /// Closes the session.
    pub fn close(&mut self)
        ensures
            final(self)@ == (EmojiStateV { active: false, query: Seq::empty(), candidates: Seq::empty(), cursor: 0 }),
    {
        proof { use_type_invariant(&*self); }
        self.active = false;
        self.query = Vec::new();
        self.cursor = 0;
        self.candidates = Vec::new();
        assert(strs_view(self.candidates@) =~= Seq::<Seq<char>>::empty());
    }
}

pub proof fn lemma_candidates_len(query: Seq<char>, t: Seq<(Seq<char>, Seq<char>)>, max: int)
    requires
        max >= 0,
    ensures
        candidates_spec(query, t, max).len() <= max,
{
}

proof fn lemma_pick_from_unique(f: Seq<Seq<char>>, i: int, out: Seq<Seq<char>>, max: int)
    requires
        out.no_duplicates(),
    ensures
        pick_from(f, i, out, max).no_duplicates(),
    decreases f.len() - i,
{
    if !(i < 0 || i >= f.len() || out.len() >= max) && !out.contains(f[i]) {
        let o2 = out.push(f[i]);
        assert forall|a: int, b: int| 0 <= a < o2.len() && 0 <= b < o2.len() && a != b implies o2[a] != o2[b] by {
            if a < out.len() && b < out.len() {
            } else if a == out.len() {
                assert(o2[b] == out[b]);
            } else {
                assert(o2[a] == out[a]);
            }
        }
        lemma_pick_from_unique(f, i + 1, o2, max);
    } else if !(i < 0 || i >= f.len() || out.len() >= max) {
        lemma_pick_from_unique(f, i + 1, out, max);
    }
}

/// The candidates of a query are all different: the char of a hexadecimal code, then emoji,
/// each once.
pub proof fn lemma_candidates_unique(query: Seq<char>, t: Seq<(Seq<char>, Seq<char>)>, max: int)
    requires
        max >= 0,
    ensures
        candidates_spec(query, t, max).no_duplicates(),
{
    if query.len() > 0 {
        let init = match hex_char_spec(query) {
            Some(c) => seq![seq![c]],
            None => Seq::<Seq<char>>::empty(),
        };
        lemma_pick_from_unique(filter_spec(t, query), 0, init, max);
        let all = pick_from(filter_spec(t, query), 0, init, max);
        if all.len() > max {
            let k = all.take(max);
            assert forall|a: int, b: int| 0 <= a < k.len() && 0 <= b < k.len() && a != b implies k[a] != k[b] by {
                assert(k[a] == all[a] && k[b] == all[b]);
            }
        }
    }
}

} // verus!
