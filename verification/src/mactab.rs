//! The macro table (abbreviation → text) and the `$DATE` / `$TIME` placeholders of macro texts.
use vstd::prelude::*;
use std::fmt::Write;
use chrono::{Datelike, Timelike};
use crate::rules_parser::{chars_eq, pairs_view};
use crate::text::{lines_spec, lines_of, trim_spec, trim_chars, is_prefix, starts_with, ws_lead, ws_trail};
use crate::text::{lemma_ws_lead_props, lemma_ws_lead_eq, lemma_ws_trail_props, lemma_ws_trail_eq, lemma_single_line};
use crate::unicode::{str_chars, string_from_chars, str_lowercase_of, str_to_lowercase, is_whitespace_char};
use crate::config::append_chars;

verus! {

// ---------------------------------------------------------------------------------------------
// The table

/// The table that the (key, text) entries make, a later entry replacing an earlier one of the
/// same key.
pub open spec fn map_upto(e: Seq<(Seq<char>, Seq<char>)>, n: int) -> Map<Seq<char>, Seq<char>>
    decreases n,
{
    if n <= 0 {
        Map::empty()
    } else {
        map_upto(e, n - 1).insert(e[n - 1].0, e[n - 1].1)
    }
}

pub open spec fn map_of(e: Seq<(Seq<char>, Seq<char>)>) -> Map<Seq<char>, Seq<char>> {
    map_upto(e, e.len() as int)
}

/// Index of the last entry of key `k` among the first `n`, or -1.
pub open spec fn last_key(e: Seq<(Seq<char>, Seq<char>)>, k: Seq<char>, n: int) -> int
    decreases n,
{
    if n <= 0 {
        -1
    } else if e[n - 1].0 == k {
        n - 1
    } else {
        last_key(e, k, n - 1)
    }
}

pub proof fn lemma_map_upto(e: Seq<(Seq<char>, Seq<char>)>, k: Seq<char>, n: int)
    requires
        0 <= n <= e.len(),
    ensures
        -1 <= last_key(e, k, n) < n,
        map_upto(e, n).dom().contains(k) <==> last_key(e, k, n) >= 0,
        last_key(e, k, n) >= 0 ==> map_upto(e, n)[k] == e[last_key(e, k, n)].1,
        map_upto(e, n).dom().contains(k) <==> exists|i: int| 0 <= i < n && #[trigger] e[i].0 == k,
    decreases n,
{
    if n > 0 {
        lemma_map_upto(e, k, n - 1);
        if e[n - 1].0 == k {
            assert(e[n - 1].0 == k);
        } else if map_upto(e, n).dom().contains(k) {
            let i = choose|i: int| 0 <= i < n - 1 && #[trigger] e[i].0 == k;
            assert(e[i].0 == k);
        }
    }
}

/// What a macro table holds.
pub ghost struct MacroV {
    pub enabled: bool,
    pub auto_capitalize: bool,
    pub table: Map<Seq<char>, Seq<char>>,
}

/// Abbreviations and the texts they expand to.
pub struct MacroTable {
    enable: bool,
    auto_capitalize_macro: bool,
    m_table: Vec<(String, String)>,
}

impl View for MacroTable {
    type V = MacroV;

    closed spec fn view(&self) -> MacroV {
        MacroV { enabled: self.enable, auto_capitalize: self.auto_capitalize_macro, table: map_of(pairs_view(self.m_table@)) }
    }
}

/// The key a lookup uses: lowercased when macros are capitalized automatically.
pub open spec fn norm_key(m: MacroV, key: Seq<char>) -> Seq<char> {
    if m.auto_capitalize {
        str_lowercase_of(key)
    } else {
        key
    }
}

/// Whether the table has a non-empty text for the key.
pub open spec fn has_key_spec(m: MacroV, key: Seq<char>) -> bool {
    let k = norm_key(m, key);
    m.table.dom().contains(k) && m.table[k].len() > 0
}

/// Index of the first `c` in `s` at or after `i`, or -1.
pub open spec fn first_of(s: Seq<char>, c: char, i: int) -> int
    decreases s.len() - i,
{
    if i < 0 || i >= s.len() {
        -1
    } else if s[i] == c {
        i
    } else {
        first_of(s, c, i + 1)
    }
}

/// The entries of the lines of a macro file: `key : text`, both trimmed, the key lowercased when
/// macros are capitalized automatically; blank lines and lines starting with `;` or `#` are
/// skipped, and so are lines without `:`.
pub open spec fn macro_entry(line: Seq<char>, auto: bool) -> Option<(Seq<char>, Seq<char>)> {
    let s = trim_spec(line);
    if s.len() == 0 || s[0] == ';' || s[0] == '#' {
        None
    } else {
        let i = first_of(s, ':', 0);
        if 0 <= i < s.len() {
            let key = trim_spec(s.subrange(0, i));
            Some((if auto { str_lowercase_of(key) } else { key }, trim_spec(s.subrange(i + 1, s.len() as int))))
        } else {
            None
        }
    }
}

pub open spec fn macro_entries(lines: Seq<Seq<char>>, auto: bool) -> Seq<(Seq<char>, Seq<char>)>
    decreases lines.len(),
{
    if lines.len() == 0 {
        Seq::empty()
    } else {
        macro_entries(lines.drop_last(), auto) + match macro_entry(lines.last(), auto) {
            Some(x) => seq![x],
            None => Seq::empty(),
        }
    }
}

fn first_colon(s: &[char]) -> (r: usize)
    ensures
        r <= s@.len(),
        r < s@.len() ==> r as int == first_of(s@, ':', 0),
        r == s@.len() ==> first_of(s@, ':', 0) == -1,
{
    let mut i: usize = 0;
    while i < s.len()
        invariant
            i <= s@.len(),
            first_of(s@, ':', 0) == first_of(s@, ':', i as int),
        decreases s.len() - i,
    {
        if s[i] == ':' {
            return i;
        }
        i = i + 1;
    }
    i
}

fn parse_entry(line: &[char], auto: bool) -> (r: Option<(String, String)>)
    ensures
        match r {
            Some(p) => macro_entry(line@, auto) == Some((p.0@, p.1@)),
            None => macro_entry(line@, auto).is_none(),
        },
{
    let s = trim_chars(line);
    if s.len() == 0 || s[0] == ';' || s[0] == '#' {
        return None;
    }
    let i = first_colon(&s);
    if i >= s.len() {
        return None;
    }
    let mut left: Vec<char> = Vec::new();
    append_chars(&mut left, &crate::rules_parser::chars_range(&s, 0, i));
    let mut key = trim_chars(&left);
    if auto {
        key = str_to_lowercase(&key);
    }
    let right = crate::rules_parser::chars_range(&s, i + 1, s.len());
    let val = trim_chars(&right);
    assert(left@ =~= s@.subrange(0, i as int));
    Some((string_from_chars(&key), string_from_chars(&val)))
}

proof fn lemma_first_of_eq(s: Seq<char>, c: char, i: int, p: int)
    requires
        0 <= i <= p < s.len(),
        s[p] == c,
        forall|k: int| i <= k < p ==> s[k] != c,
    ensures
        first_of(s, c, i) == p,
    decreases p - i,
{
    if i < p {
        lemma_first_of_eq(s, c, i + 1, p);
    }
}

/// The entry that the line `K:T` gives, for a key without `:`.
proof fn lemma_macro_entry_of_line(k: Seq<char>, t: Seq<char>, auto: bool)
    requires
        forall|j: int| 0 <= j < k.len() ==> k[j] != ':',
        trim_spec(k).len() > 0,
        trim_spec(k)[0] != ';',
        trim_spec(k)[0] != '#',
        trim_spec(t).len() > 0,
    ensures
        macro_entry(k + seq![':'] + t, auto)
            == Some((if auto { str_lowercase_of(trim_spec(k)) } else { trim_spec(k) }, trim_spec(t))),
{
    let line = k + seq![':'] + t;
    let nk = k.len() as int;
    let nt = t.len() as int;
    lemma_ws_lead_props(k, 0);
    lemma_ws_trail_props(k, nk);
    lemma_ws_lead_props(t, 0);
    lemma_ws_trail_props(t, nt);
    let ak = ws_lead(k, 0);
    let bk = ws_trail(k, nk);
    let at = ws_lead(t, 0);
    let bt = ws_trail(t, nt);
    assert(ak < bk);
    assert(at < bt);
    assert(trim_spec(k) == k.subrange(ak, bk));
    assert(trim_spec(t) == t.subrange(at, bt));
    assert forall|j: int| 0 <= j < ak implies is_whitespace_char(#[trigger] line[j]) by {
        assert(line[j] == k[j]);
    }
    assert(line[ak] == k[ak]);
    lemma_ws_lead_eq(line, 0, ak);
    let b = nk + 1 + bt;
    assert forall|j: int| b <= j < line.len() implies is_whitespace_char(#[trigger] line[j]) by {
        assert(line[j] == t[j - nk - 1]);
    }
    assert(line[b - 1] == t[bt - 1]);
    lemma_ws_trail_eq(line, line.len() as int, b);
    let s = trim_spec(line);
    assert(s == line.subrange(ak, b));
    let i = nk - ak;
    assert(s[i] == ':');
    assert forall|j: int| 0 <= j < i implies s[j] != ':' by {
        assert(s[j] == k[ak + j]);
    }
    lemma_first_of_eq(s, ':', 0, i);
    assert(s[0] == k[ak]);
    assert(trim_spec(k)[0] == k[ak]);
    let u = s.subrange(0, i);
    assert(u =~= k.subrange(ak, nk));
    lemma_ws_lead_eq(u, 0, 0);
    assert forall|j: int| bk - ak <= j < u.len() implies is_whitespace_char(#[trigger] u[j]) by {
        assert(u[j] == k[ak + j]);
    }
    assert(u[bk - ak - 1] == k[bk - 1]);
    lemma_ws_trail_eq(u, u.len() as int, bk - ak);
    assert(trim_spec(u) =~= trim_spec(k));
    let v = s.subrange(i + 1, s.len() as int);
    assert(v =~= t.subrange(0, bt));
    assert forall|j: int| 0 <= j < at implies is_whitespace_char(#[trigger] v[j]) by {
        assert(v[j] == t[j]);
    }
    assert(v[at] == t[at]);
    lemma_ws_lead_eq(v, 0, at);
    assert(v[bt - 1] == t[bt - 1]);
    lemma_ws_trail_eq(v, v.len() as int, bt);
    assert(trim_spec(v) =~= trim_spec(t));
}

/// Loading the one-line text `K:T` gives the table that maps exactly the trimmed key to the
/// trimmed text. The key keeps its case when macros are not capitalized automatically, and is
/// lowercased when they are.
pub proof fn lemma_load_line_key_case(k: Seq<char>, t: Seq<char>)
    requires
        forall|j: int| 0 <= j < k.len() ==> k[j] != ':' && k[j] != '\n',
        forall|j: int| 0 <= j < t.len() ==> t[j] != '\n',
        trim_spec(k).len() > 0,
        trim_spec(k)[0] != ';',
        trim_spec(k)[0] != '#',
        trim_spec(t).len() > 0,
    ensures
        map_of(macro_entries(lines_spec(k + seq![':'] + t), false))
            == Map::<Seq<char>, Seq<char>>::empty().insert(trim_spec(k), trim_spec(t)),
        map_of(macro_entries(lines_spec(k + seq![':'] + t), true))
            == Map::<Seq<char>, Seq<char>>::empty().insert(str_lowercase_of(trim_spec(k)), trim_spec(t)),
{
    let line = k + seq![':'] + t;
    assert forall|j: int| 0 <= j < line.len() implies line[j] != '\n' by {
        if j < k.len() {
            assert(line[j] == k[j]);
        } else if j > k.len() {
            assert(line[j] == t[j - k.len() - 1]);
        }
    }
    lemma_single_line(line);
    lemma_macro_entry_of_line(k, t, false);
    lemma_macro_entry_of_line(k, t, true);
    let l = seq![line];
    assert(l.drop_last() =~= Seq::<Seq<char>>::empty());
    assert(l.last() == line);
    assert(macro_entries(Seq::<Seq<char>>::empty(), false) =~= Seq::empty());
    assert(macro_entries(Seq::<Seq<char>>::empty(), true) =~= Seq::empty());
    assert(macro_entries(l, false) =~= seq![(trim_spec(k), trim_spec(t))]);
    assert(macro_entries(l, true) =~= seq![(str_lowercase_of(trim_spec(k)), trim_spec(t))]);
    let e0 = seq![(trim_spec(k), trim_spec(t))];
    let e1 = seq![(str_lowercase_of(trim_spec(k)), trim_spec(t))];
    assert(map_upto(e0, 0) =~= Map::<Seq<char>, Seq<char>>::empty());
    assert(map_upto(e1, 0) =~= Map::<Seq<char>, Seq<char>>::empty());
    assert(map_of(e0) == map_upto(e0, 0).insert(e0[0].0, e0[0].1));
    assert(map_of(e1) == map_upto(e1, 0).insert(e1[0].0, e1[0].1));
    assert(map_of(macro_entries(l, false)) =~= Map::<Seq<char>, Seq<char>>::empty().insert(trim_spec(k), trim_spec(t)));
    assert(map_of(macro_entries(l, true)) =~= Map::<Seq<char>, Seq<char>>::empty().insert(str_lowercase_of(trim_spec(k)), trim_spec(t)));
}

impl MacroTable {
    /// An empty, disabled table.
    pub fn new(auto_capitalize_macro: bool) -> (m: MacroTable)
        ensures
            m@ == (MacroV { enabled: false, auto_capitalize: auto_capitalize_macro, table: Map::empty() }),
    {
        let m = MacroTable { enable: false, auto_capitalize_macro, m_table: Vec::new() };
        assert(m@.table =~= Map::<Seq<char>, Seq<char>>::empty());
        m
    }

    /// Replaces the entries with those of the text of a macro file (see `macro_entry`).
    pub fn load_from_str(&mut self, content: &str)
        ensures
            final(self)@ == (MacroV { table: map_of(macro_entries(lines_spec(content@), old(self)@.auto_capitalize)), ..old(self)@ }),
    {
        let cs = str_chars(content);
        let lines = lines_of(&cs);
        let ghost lv = lines@.map_values(|l: Vec<char>| l@);
        let auto = self.auto_capitalize_macro;
        let mut entries: Vec<(String, String)> = Vec::new();
        for i in 0..lines.len()
            invariant
                lv == lines@.map_values(|l: Vec<char>| l@),
                pairs_view(entries@) == macro_entries(lv.take(i as int), auto),
        {
            assert(lv.take(i + 1).drop_last() =~= lv.take(i as int));
            assert(lv.take(i + 1).last() == lines@[i as int]@);
            let ghost o = entries@;
            match parse_entry(&lines[i], auto) {
                Some(p) => {
                    entries.push(p);
                    assert(pairs_view(entries@) =~= pairs_view(o).push((p.0@, p.1@)));
                },
                None => {},
            }
        }
        assert(lv.take(lv.len() as int) =~= lv);
        self.m_table = entries;
    }

    fn norm(&self, key: &str) -> (k: Vec<char>)
        ensures
            k@ == norm_key(self@, key@),
    {
        let kc = str_chars(key);
        if self.auto_capitalize_macro {
            str_to_lowercase(&kc)
        } else {
            kc
        }
    }

    fn find(&self, k: &[char]) -> (r: Option<usize>)
        ensures
            match r {
                Some(i) => i < self.m_table@.len() && self@.table.dom().contains(k@) && self@.table[k@] == self.m_table@[i as int].1@,
                None => !self@.table.dom().contains(k@),
            },
    {
        let ghost e = pairs_view(self.m_table@);
        proof { lemma_map_upto(e, k@, e.len() as int); }
        let mut n = self.m_table.len();
        while n > 0
            invariant
                n <= self.m_table@.len(),
                e == pairs_view(self.m_table@),
                last_key(e, k@, e.len() as int) == last_key(e, k@, n as int),
            decreases n,
        {
            let kk = str_chars(self.m_table[n - 1].0.as_str());
            if chars_eq(&kk, k) {
                assert(e[n - 1].0 == kk@);
                proof { lemma_map_upto(e, k@, e.len() as int); }
                return Some(n - 1);
            }
            n = n - 1;
        }
        None
    }

    /// The text of a key (empty when the table has none).
    pub fn get_text(&self, key: &str) -> (r: String)
        ensures
            r@ == (if self@.table.dom().contains(norm_key(self@, key@)) { self@.table[norm_key(self@, key@)] } else { Seq::empty() }),
    {
        let k = self.norm(key);
        match self.find(&k) {
            Some(i) => self.m_table[i].1.clone(),
            None => String::new(),
        }
    }

    /// Whether the table has a non-empty text for the key.
    pub fn has_key(&self, key: &str) -> (r: bool)
        ensures
            r == has_key_spec(self@, key@),
    {
        let k = self.norm(key);
        match self.find(&k) {
            Some(i) => self.m_table[i].1.as_str().unicode_len() > 0,
            None => false,
        }
    }

    /// Whether the key has a text or begins some key of the table.
    pub fn has_prefix(&self, key: &str) -> (r: bool)
        ensures
            r == (has_key_spec(self@, key@)
                || exists|t: Seq<char>| self@.table.dom().contains(t) && is_prefix(norm_key(self@, key@), t)),
    {
        let k = self.norm(key);
        let ghost e = pairs_view(self.m_table@);
        if self.has_key(key) {
            return true;
        }
        for i in 0..self.m_table.len()
            invariant
                e == pairs_view(self.m_table@),
                k@ == norm_key(self@, key@),
                forall|j: int| 0 <= j < i ==> !is_prefix(k@, #[trigger] e[j].0),
        {
            let kk = str_chars(self.m_table[i].0.as_str());
            if starts_with(&kk, &k) {
                proof { lemma_map_upto(e, e[i as int].0, e.len() as int); }
                return true;
            }
        }
        proof {
            assert forall|t: Seq<char>| self@.table.dom().contains(t) implies !is_prefix(k@, t) by {
                lemma_map_upto(e, t, e.len() as int);
                let j = choose|j: int| 0 <= j < e.len() && #[trigger] e[j].0 == t;
                assert(!is_prefix(k@, e[j].0));
            }
        }
        false
    }

    pub fn is_enabled(&self) -> (r: bool)
        ensures
            r == self@.enabled,
    {
        self.enable
    }

    /// Turns the table on or off; turning it off empties it.
    pub fn set_enabled(&mut self, enable: bool)
        ensures
            final(self)@ == (MacroV {
                enabled: enable,
                table: if enable { old(self)@.table } else { Map::empty() },
                ..old(self)@
            }),
    {
        self.enable = enable;
        if !enable {
            self.m_table = Vec::new();
            assert(map_of(pairs_view(self.m_table@)) =~= Map::<Seq<char>, Seq<char>>::empty());
        }
    }

    pub fn set_auto_capitalize(&mut self, v: bool)
        ensures
            final(self)@ == (MacroV { auto_capitalize: v, ..old(self)@ }),
    {
        self.auto_capitalize_macro = v;
    }
}


// ---------------------------------------------------------------------------------------------
// Placeholders

/// A local date and time, as plain values.
#[derive(Debug, Clone, Copy, PartialEq, Eq, Structural)]
pub struct LocalDateTime {
    pub year: i32,
    pub month: u32,
    pub day: u32,
    pub hour: u32,
    pub minute: u32,
    pub second: u32,
}

pub open spec fn is_leap_year(y: int) -> bool {
    (y % 4 == 0 && y % 100 != 0) || y % 400 == 0
}

pub open spec fn days_in_month(y: int, m: int) -> int {
    if m == 2 {
        if is_leap_year(y) { 29 } else { 28 }
    } else if m == 4 || m == 6 || m == 9 || m == 11 {
        30
    } else {
        31
    }
}

/// A date and time that exists in the proleptic Gregorian calendar, within the years that
/// `chrono::NaiveDate` covers.
pub open spec fn valid_datetime(d: LocalDateTime) -> bool {
    &&& -262143 <= d.year <= 262142
    &&& 1 <= d.month <= 12
    &&& 1 <= d.day <= days_in_month(d.year as int, d.month as int)
    &&& d.hour < 24
    &&& d.minute < 60
    &&& d.second < 60
}

/// What `chrono` writes for the date and time with a strftime format, or `None` when the
/// format cannot be written (an invalid specifier, or one that needs a time zone).
pub uninterp spec fn strftime_result(year: i32, month: u32, day: u32, hour: u32, minute: u32, second: u32, fmt: Seq<char>) -> Option<Seq<char>>;

/// Writes the date and time with `chrono::NaiveDateTime::format`; `None` when writing fails.
/// The result is named `strftime_result`.
#[verifier::external_body]
fn strftime(dt: LocalDateTime, fmt: &str) -> (r: Option<String>)
    requires
        valid_datetime(dt),
    ensures
        r.is_some() == strftime_result(dt.year, dt.month, dt.day, dt.hour, dt.minute, dt.second, fmt@).is_some(),
        r matches Some(x) ==> strftime_result(dt.year, dt.month, dt.day, dt.hour, dt.minute, dt.second, fmt@) == Some(x@),
{
    let d = chrono::NaiveDate::from_ymd_opt(dt.year, dt.month, dt.day).unwrap().and_hms_opt(dt.hour, dt.minute, dt.second).unwrap();
    let mut out = String::new();
    match write!(out, "{}", d.format(fmt)) {
        Ok(()) => Some(out),
        Err(_) => None,
    }
}

/// The current local date and time (`chrono::Local::now`).
#[verifier::external_body]
pub(crate) fn local_now() -> (r: LocalDateTime)
    ensures
        valid_datetime(r),
{
    let n = chrono::Local::now().naive_local();
    LocalDateTime { year: n.year(), month: n.month(), day: n.day(), hour: n.hour(), minute: n.minute(), second: n.second() }
}

/// The date format used when none is configured, or the configured one cannot be written.
pub const DEFAULT_DATE_FORMAT: &'static str = "%d/%m/%Y";
/// The time format used when none is configured, or the configured one cannot be written.
pub const DEFAULT_TIME_FORMAT: &'static str = "%H:%M";

pub open spec fn default_date_format() -> Seq<char> {
    DEFAULT_DATE_FORMAT@
}

pub open spec fn default_time_format() -> Seq<char> {
    DEFAULT_TIME_FORMAT@
}

/// The date and time written with `fmt`, or with `fallback` when `fmt` cannot be written.
pub open spec fn format_or(dt: LocalDateTime, fmt: Seq<char>, fallback: Seq<char>) -> Seq<char> {
    match strftime_result(dt.year, dt.month, dt.day, dt.hour, dt.minute, dt.second, fmt) {
        Some(x) => x,
        None => match strftime_result(dt.year, dt.month, dt.day, dt.hour, dt.minute, dt.second, fallback) {
            Some(y) => y,
            None => Seq::empty(),
        },
    }
}

/// `s` from `i` with its placeholders replaced: `$$` is one `$`, `$DATE` and `$TIME` the texts
/// `date` and `time`, any other `$` stays.
pub open spec fn expand_text(s: Seq<char>, date: Seq<char>, time: Seq<char>, i: int) -> Seq<char>
    decreases s.len() - i,
{
    if i < 0 || i >= s.len() {
        Seq::empty()
    } else if s[i] != '$' {
        seq![s[i]] + expand_text(s, date, time, i + 1)
    } else if i + 1 < s.len() && s[i + 1] == '$' {
        seq!['$'] + expand_text(s, date, time, i + 2)
    } else if i + 5 <= s.len() && s.subrange(i + 1, i + 5) == seq!['D', 'A', 'T', 'E'] {
        date + expand_text(s, date, time, i + 5)
    } else if i + 5 <= s.len() && s.subrange(i + 1, i + 5) == seq!['T', 'I', 'M', 'E'] {
        time + expand_text(s, date, time, i + 5)
    } else {
        seq!['$'] + expand_text(s, date, time, i + 1)
    }
}

/// `s` from `i` with its placeholders replaced at the date and time `dt`, written with the
/// formats `df` and `tf` (each falling back to its default when it cannot be written).
pub open spec fn expand_from(s: Seq<char>, dt: LocalDateTime, df: Seq<char>, tf: Seq<char>, i: int) -> Seq<char> {
    expand_text(s, format_or(dt, df, default_date_format()), format_or(dt, tf, default_time_format()), i)
}

fn format_checked(dt: LocalDateTime, fmt: &str, fallback: &str) -> (r: Vec<char>)
    requires
        valid_datetime(dt),
    ensures
        r@ == format_or(dt, fmt@, fallback@),
{
    match strftime(dt, fmt) {
        Some(x) => str_chars(x.as_str()),
        None => match strftime(dt, fallback) {
            Some(y) => str_chars(y.as_str()),
            None => Vec::new(),
        },
    }
}

fn word_at(s: &[char], i: usize, w: [char; 4]) -> (r: bool)
    ensures
        r == (i + 5 <= s@.len() && s@.subrange(i + 1, i + 5) == seq![w[0], w[1], w[2], w[3]]),
{
    if s.len() >= 5 && i <= s.len() - 5 {
        let r = s[i + 1] == w[0] && s[i + 2] == w[1] && s[i + 3] == w[2] && s[i + 4] == w[3];
        assert(r == (s@.subrange(i + 1, i + 5) =~= seq![w[0], w[1], w[2], w[3]]));
        r
    } else {
        false
    }
}

/// The macro text with its placeholders replaced by given texts: `$DATE` by `date`, `$TIME` by
/// `time`, `$$` by one `$`; any other `$` stays.
pub fn expand_with(text: &str, date: &str, time: &str) -> (r: String)
    ensures
        r@ == expand_text(text@, date@, time@, 0),
{
    let s = str_chars(text);
    let d = str_chars(date);
    let t = str_chars(time);
    let mut out: Vec<char> = Vec::new();
    let mut i: usize = 0;
    while i < s.len()
        invariant
            i <= s@.len(),
            s@ == text@,
            d@ == date@,
            t@ == time@,
            expand_text(s@, d@, t@, 0) == out@ + expand_text(s@, d@, t@, i as int),
        decreases s.len() - i,
    {
        let ghost o = out@;
        if s[i] != '$' {
            out.push(s[i]);
            assert(o + expand_text(s@, d@, t@, i as int) =~= out@ + expand_text(s@, d@, t@, i + 1));
            i = i + 1;
        } else if i + 1 < s.len() && s[i + 1] == '$' {
            out.push('$');
            assert(o + expand_text(s@, d@, t@, i as int) =~= out@ + expand_text(s@, d@, t@, i + 2));
            i = i + 2;
        } else if word_at(&s, i, ['D', 'A', 'T', 'E']) {
            append_chars(&mut out, &d);
            assert(o + expand_text(s@, d@, t@, i as int) =~= out@ + expand_text(s@, d@, t@, i + 5));
            i = i + 5;
        } else if word_at(&s, i, ['T', 'I', 'M', 'E']) {
            append_chars(&mut out, &t);
            assert(o + expand_text(s@, d@, t@, i as int) =~= out@ + expand_text(s@, d@, t@, i + 5));
            i = i + 5;
        } else {
            out.push('$');
            assert(o + expand_text(s@, d@, t@, i as int) =~= out@ + expand_text(s@, d@, t@, i + 1));
            i = i + 1;
        }
    }
    assert(out@ + expand_text(s@, d@, t@, i as int) =~= out@);
    string_from_chars(&out)
}

/// The macro text with its placeholders replaced at the given date and time: `$DATE` and `$TIME`
/// by the date and time written with their formats (the default format when one cannot be
/// written), `$$` by one `$`; any other `$` stays.
pub fn expand_placeholders(text: &str, now: LocalDateTime, date_fmt: &str, time_fmt: &str) -> (r: String)
    requires
        valid_datetime(now),
    ensures
        r@ == expand_from(text@, now, date_fmt@, time_fmt@, 0),
{
    let date = string_from_chars(&format_checked(now, date_fmt, DEFAULT_DATE_FORMAT));
    let time = string_from_chars(&format_checked(now, time_fmt, DEFAULT_TIME_FORMAT));
    expand_with(text, date.as_str(), time.as_str())
}

/// `expand_placeholders` at the current local date and time.
pub fn expand_placeholders_now(text: &str, date_fmt: &str, time_fmt: &str) -> (r: String)
    ensures
        exists|now: LocalDateTime| valid_datetime(now) && r@ == #[trigger] expand_from(text@, now, date_fmt@, time_fmt@, 0),
{
    let now = local_now();
    expand_placeholders(text, now, date_fmt, time_fmt)
}

} // verus!
