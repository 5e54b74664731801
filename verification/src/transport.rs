//! Per-application transport rules: a table of (program-name pattern, transport) built from
//! layers of rule text (built in, then the system file, then the user's file); a later line, and
//! so a later layer, wins.
use vstd::prelude::*;
use crate::text::{ws_lead, trim_spec, lines_spec, has_sub, lines_of, trim_chars, contains_sub};
use crate::unicode::{is_whitespace_char, char_is_whitespace, ascii_lower_seq, to_ascii_lowercase, str_chars, string_from_chars};
use crate::rules_parser::{chars_eq, chars_range};

verus! {

/// The transport forced for an application.
#[derive(Debug, Clone, Copy, PartialEq, Eq, Structural)]
pub enum TransportPref {
    /// Nothing forced: follow what the application offers.
    Auto,
    /// Always the preedit.
    Preedit,
    /// Always replace through the surrounding text, when there is one.
    Replace,
}

pub open spec fn pref_code(p: TransportPref) -> i32 {
    match p {
        TransportPref::Auto => 0,
        TransportPref::Preedit => 1,
        TransportPref::Replace => 2,
    }
}

impl TransportPref {
    /// The stable number of the transport, as it crosses the C interface.
    pub fn code(self) -> (r: i32)
        ensures
            r == pref_code(self),
    {
        match self {
            TransportPref::Auto => 0,
            TransportPref::Preedit => 1,
            TransportPref::Replace => 2,
        }
    }
}

/// First whitespace index at or after `i`, or the length.
pub open spec fn next_ws(s: Seq<char>, i: int) -> int
    decreases s.len() - i,
{
    if i < 0 || i >= s.len() {
        s.len() as int
    } else if is_whitespace_char(s[i]) {
        i
    } else {
        next_ws(s, i + 1)
    }
}

pub proof fn lemma_next_ws(s: Seq<char>, i: int)
    requires
        0 <= i <= s.len(),
    ensures
        i <= next_ws(s, i) <= s.len(),
    decreases s.len() - i,
{
    if i < s.len() && !is_whitespace_char(s[i]) {
        lemma_next_ws(s, i + 1);
    }
}

/// The transport a (lowercased) verb names.
pub open spec fn pref_of(verb: Seq<char>) -> Option<TransportPref> {
    if verb == "preedit"@ {
        Some(TransportPref::Preedit)
    } else if verb == "replace"@ {
        Some(TransportPref::Replace)
    } else if verb == "auto"@ {
        Some(TransportPref::Auto)
    } else {
        None
    }
}

/// The rule of one line: after trimming, a line that is not empty and not a comment (`#`, `;`)
/// gives its first two whitespace-separated words, a verb (any case) and a pattern, stored
/// lowercased; a line with fewer words or another verb gives nothing.
pub open spec fn parse_rule_line(line: Seq<char>) -> Option<(Seq<char>, TransportPref)> {
    let s = trim_spec(line);
    if s.len() == 0 || s[0] == '#' || s[0] == ';' {
        None
    } else {
        let b = next_ws(s, 0);
        let c = ws_lead(s, b);
        if c >= s.len() {
            None
        } else {
            match pref_of(ascii_lower_seq(s.subrange(0, b))) {
                Some(p) => Some((ascii_lower_seq(s.subrange(c, next_ws(s, c))), p)),
                None => None,
            }
        }
    }
}

/// The rules of a layer's lines, in order.
pub open spec fn layer_rules(lines: Seq<Seq<char>>) -> Seq<(Seq<char>, TransportPref)>
    decreases lines.len(),
{
    if lines.len() == 0 {
        Seq::empty()
    } else {
        layer_rules(lines.drop_last()) + match parse_rule_line(lines.last()) {
            Some(r) => seq![r],
            None => Seq::empty(),
        }
    }
}

/// The transport of the last of the first `n` rules whose pattern equals `w` or occurs in it.
pub open spec fn last_match(rules: Seq<(Seq<char>, TransportPref)>, w: Seq<char>, n: int) -> Option<TransportPref>
    decreases n,
{
    if n <= 0 {
        None
    } else if w == rules[n - 1].0 || has_sub(w, rules[n - 1].0) {
        Some(rules[n - 1].1)
    } else {
        last_match(rules, w, n - 1)
    }
}

/// The transport for a window class: `Auto` for an empty class or when no rule matches its
/// ASCII-lowercased form; else that of the last rule that matches.
pub open spec fn lookup_spec(rules: Seq<(Seq<char>, TransportPref)>, wm_class: Seq<char>) -> TransportPref {
    if wm_class.len() == 0 {
        TransportPref::Auto
    } else {
        match last_match(rules, ascii_lower_seq(wm_class), rules.len() as int) {
            Some(p) => p,
            None => TransportPref::Auto,
        }
    }
}

pub open spec fn rules_view(v: Seq<(String, TransportPref)>) -> Seq<(Seq<char>, TransportPref)> {
    v.map_values(|r: (String, TransportPref)| (r.0@, r.1))
}

/// The merged rule table; a rule appended later wins.
pub struct TransportRules {
    rules: Vec<(String, TransportPref)>,
}

impl View for TransportRules {
    type V = Seq<(Seq<char>, TransportPref)>;

    closed spec fn view(&self) -> Seq<(Seq<char>, TransportPref)> {
        rules_view(self.rules@)
    }
}

fn word_end(s: &[char], i: usize) -> (e: usize)
    requires
        i <= s.len(),
    ensures
        e == next_ws(s@, i as int),
        i <= e <= s.len(),
{
    let mut e = i;
    while e < s.len() && !char_is_whitespace(s[e])
        invariant
            i <= e <= s.len(),
            next_ws(s@, i as int) == next_ws(s@, e as int),
        decreases s.len() - e,
    {
        e = e + 1;
    }
    e
}

fn space_end(s: &[char], i: usize) -> (e: usize)
    requires
        i <= s.len(),
    ensures
        e == ws_lead(s@, i as int),
        i <= e <= s.len(),
{
    let mut e = i;
    while e < s.len() && char_is_whitespace(s[e])
        invariant
            i <= e <= s.len(),
            ws_lead(s@, i as int) == ws_lead(s@, e as int),
        decreases s.len() - e,
    {
        e = e + 1;
    }
    e
}

fn parse_line(line: &[char]) -> (r: Option<(Vec<char>, TransportPref)>)
    ensures
        match r {
            Some(x) => parse_rule_line(line@) == Some((x.0@, x.1)),
            None => parse_rule_line(line@).is_none(),
        },
{
    let s = trim_chars(line);
    if s.len() == 0 || s[0] == '#' || s[0] == ';' {
        return None;
    }
    let b = word_end(&s, 0);
    let c = space_end(&s, b);
    if c >= s.len() {
        return None;
    }
    proof { lemma_next_ws(s@, c as int); }
    let d = word_end(&s, c);
    let verb = to_ascii_lowercase(&chars_range(&s, 0, b));
    let pref = if chars_eq(&verb, &str_chars("preedit")) {
        TransportPref::Preedit
    } else if chars_eq(&verb, &str_chars("replace")) {
        TransportPref::Replace
    } else if chars_eq(&verb, &str_chars("auto")) {
        TransportPref::Auto
    } else {
        return None;
    };
    Some((to_ascii_lowercase(&chars_range(&s, c, d)), pref))
}

impl TransportRules {
    /// No rule: every application gets `Auto`.
    pub fn empty() -> (t: TransportRules)
        ensures
            t@ == Seq::<(Seq<char>, TransportPref)>::empty(),
    {
        let t = TransportRules { rules: Vec::new() };
        assert(rules_view(t.rules@) =~= Seq::<(Seq<char>, TransportPref)>::empty());
        t
    }

    /// The number of rules.
    pub fn len(&self) -> (n: usize)
        ensures
            n == self@.len(),
    {
        self.rules.len()
    }

    /// Parses a layer of rule text and appends its rules after those already held; empty,
    /// comment and malformed lines are skipped.
    pub fn append_layer(&mut self, text: &str)
        ensures
            final(self)@ == old(self)@ + layer_rules(lines_spec(text@)),
    {
        let lines = lines_of(&str_chars(text));
        let ghost ls = lines@.map_values(|l: Vec<char>| l@);
        let ghost o = self@;
        for i in 0..lines.len()
            invariant
                ls == lines@.map_values(|l: Vec<char>| l@),
                ls == lines_spec(text@),
                self@ == o + layer_rules(ls.take(i as int)),
        {
            assert(ls.take(i + 1).drop_last() =~= ls.take(i as int));
            assert(ls.take(i + 1).last() == lines@[i as int]@);
            let ghost before = self@;
            match parse_line(&lines[i]) {
                Some((pat, pref)) => {
                    let ghost rv = rules_view(self.rules@);
                    self.rules.push((string_from_chars(&pat), pref));
                    assert(rules_view(self.rules@) =~= rv.push((pat@, pref)));
                    assert(self@ =~= o + layer_rules(ls.take(i + 1)));
                },
                None => {
                    assert(layer_rules(ls.take(i + 1)) =~= layer_rules(ls.take(i as int)));
                },
            }
        }
        assert(ls.take(ls.len() as int) =~= ls);
    }

    /// The transport for `wm_class` (see `lookup_spec`).
    pub fn lookup(&self, wm_class: &str) -> (r: TransportPref)
        ensures
            r == lookup_spec(self@, wm_class@),
    {
        let wc = str_chars(wm_class);
        if wc.len() == 0 {
            return TransportPref::Auto;
        }
        let w = to_ascii_lowercase(&wc);
        let ghost rv = self@;
        let mut n = self.rules.len();
        while n > 0
            invariant
                n <= self.rules@.len(),
                rv == self@,
                rv.len() == self.rules@.len(),
                w@ == ascii_lower_seq(wm_class@),
                wm_class@.len() > 0,
                last_match(rv, w@, rv.len() as int) == last_match(rv, w@, n as int),
            decreases n,
        {
            let p = str_chars(self.rules[n - 1].0.as_str());
            assert(rv[n - 1] == (p@, self.rules@[n - 1].1));
            if chars_eq(&w, &p) || contains_sub(&w, &p) {
                return self.rules[n - 1].1;
            }
            n = n - 1;
        }
        TransportPref::Auto
    }
}

proof fn lemma_prefix_match(a: Seq<(Seq<char>, TransportPref)>, b: Seq<(Seq<char>, TransportPref)>, w: Seq<char>, n: int)
    requires
        0 <= n <= a.len(),
    ensures
        last_match(a + b, w, n) == last_match(a, w, n),
    decreases n,
{
    if n > 0 {
        assert((a + b)[n - 1] == a[n - 1]);
        lemma_prefix_match(a, b, w, n - 1);
    }
}

proof fn lemma_suffix_match(a: Seq<(Seq<char>, TransportPref)>, b: Seq<(Seq<char>, TransportPref)>, w: Seq<char>, m: int)
    requires
        0 <= m <= b.len(),
    ensures
        last_match(a + b, w, a.len() + m) == match last_match(b, w, m) {
            Some(p) => Some(p),
            None => last_match(a, w, a.len() as int),
        },
    decreases m,
{
    if m > 0 {
        assert((a + b)[a.len() + m - 1] == b[m - 1]);
        lemma_suffix_match(a, b, w, m - 1);
    } else {
        lemma_prefix_match(a, b, w, a.len() as int);
    }
}

/// A later layer wins: after appending `layer` to `before`, a class matched by a rule of the
/// layer gets the layer's transport (its last matching rule); any other class keeps the
/// transport it had.
pub proof fn lemma_later_layer_wins(before: Seq<(Seq<char>, TransportPref)>, layer: Seq<(Seq<char>, TransportPref)>, wm_class: Seq<char>)
    ensures
        lookup_spec(before + layer, wm_class) == if wm_class.len() == 0 {
            TransportPref::Auto
        } else {
            match last_match(layer, ascii_lower_seq(wm_class), layer.len() as int) {
                Some(p) => p,
                None => lookup_spec(before, wm_class),
            }
        },
{
    lemma_suffix_match(before, layer, ascii_lower_seq(wm_class), layer.len() as int);
    assert((before + layer).len() == before.len() + layer.len());
}

} // verus!
