//! The rule language of input method definitions: a tone name (`DauSac`), a mark line
//! (`UOA_ƯƠĂ__Ư`: the letters on the left take the marks of the letters on the right, the part
//! after the second `_` is appended) or an appending line (`__ư`), and the input methods built
//! from a list of (key, line) pairs.
use vstd::prelude::*;
use crate::rules::{EffectType, Mark, Tone, Rule, RuleHead, RuleV, tone_num, tone_of, mark_num, plain_rule};
use crate::utils::{
    vowel_pos,
    is_vowel, find_mark_from_char, add_tone_to_char, get_mark_family, is_vowel_spec, mark_family_spec,
    mark_from_char_spec, add_tone_spec, lemma_vowel_row, is_alpha, is_alpha_spec,
};
use crate::unicode::{str_chars, string_from_chars, str_lowercase_of, str_to_lowercase};
use crate::regex_call::{regex_matches, regex_is_match};
use crate::transform_spec::{rules_view, rule_wf, rules_wf};
use crate::input_method_def::{InputMethodDefinition, defs_view, builtin_defs, input_method_definitions, owned_pairs, vni_pairs, telex_pairs};

verus! {

/// A pattern matching exactly one Unicode letter (general category `L`).
pub const LETTER_PATTERN: &'static str = "^\\p{L}$";

/// A Unicode letter (`\p{L}`), as the `regex` crate classes it.
pub open spec fn is_letter(c: char) -> bool {
    regex_matches(LETTER_PATTERN@, seq![c])
}

/// Whether `c` is a Unicode letter (`\p{L}`), asked of the `regex` crate.
pub fn char_is_letter(c: char) -> (r: bool)
    ensures
        r == is_letter(c),
{
    let mut v: Vec<char> = Vec::new();
    v.push(c);
    let s = string_from_chars(&v);
    assert(s@ =~= seq![c]);
    regex_is_match(LETTER_PATTERN, s.as_str())
}


// ---------------------------------------------------------------------------------------------
// Tone names

/// The tone that a whole line names, if it is one of the six tone names.
pub open spec fn tone_name_spec(line: Seq<char>) -> Option<Tone> {
    if line == "XoaDauThanh"@ {
        Some(Tone::NoTone)
    } else if line == "DauSac"@ {
        Some(Tone::Acute)
    } else if line == "DauHuyen"@ {
        Some(Tone::Grave)
    } else if line == "DauNga"@ {
        Some(Tone::Tilde)
    } else if line == "DauNang"@ {
        Some(Tone::Dot)
    } else if line == "DauHoi"@ {
        Some(Tone::Hook)
    } else {
        None
    }
}

/// Whether two char slices hold the same chars.
pub fn chars_eq(a: &[char], b: &[char]) -> (r: bool)
    ensures
        r == (a@ == b@),
{
    if a.len() != b.len() {
        return false;
    }
    for i in 0..a.len()
        invariant
            a@.len() == b@.len(),
            forall|j: int| 0 <= j < i ==> a@[j] == b@[j],
    {
        if a[i] != b[i] {
            return false;
        }
    }
    assert(a@ =~= b@);
    true
}

/// Whether `line` spells `name`.
pub fn is_name(line: &[char], name: &str) -> (r: bool)
    ensures
        r == (line@ == name@),
{
    let n = str_chars(name);
    chars_eq(line, &n)
}

fn tone_from_name(line: &[char]) -> (r: Option<Tone>)
    ensures
        r == tone_name_spec(line@),
{
    if is_name(line, "XoaDauThanh") {
        Some(Tone::NoTone)
    } else if is_name(line, "DauSac") {
        Some(Tone::Acute)
    } else if is_name(line, "DauHuyen") {
        Some(Tone::Grave)
    } else if is_name(line, "DauNga") {
        Some(Tone::Tilde)
    } else if is_name(line, "DauNang") {
        Some(Tone::Dot)
    } else if is_name(line, "DauHoi") {
        Some(Tone::Hook)
    } else {
        None
    }
}

// ---------------------------------------------------------------------------------------------
// Mark rules

/// A mark rule with nothing appended.
pub open spec fn mark_rule_spec(key: char, effect: u8, effect_on: char, result: char) -> RuleV {
    plain_rule(RuleHead { key, effect, effect_type: EffectType::MarkTransformation, effect_on, result })
}

/// The rules that one member `chr` of the mark family of `effective_on` contributes: the member
/// that is the result itself undoes the mark; a vowel gets one rule per tone; any other char one
/// rule.
pub open spec fn member_rules(key: char, chr: char, effective_on: char, result: char, effect: Mark) -> Seq<RuleV> {
    if chr == result {
        seq![mark_rule_spec(key, 0, result, effective_on)]
    } else if is_vowel_spec(chr) {
        Seq::new(6, |t: int| mark_rule_spec(key, mark_num(effect), add_tone_spec(chr, t as u8), add_tone_spec(result, t as u8)))
    } else {
        seq![mark_rule_spec(key, mark_num(effect), chr, result)]
    }
}

/// The rules of the members of `fam`, in order.
pub open spec fn family_rules(key: char, fam: Seq<char>, effective_on: char, result: char, effect: Mark) -> Seq<RuleV>
    decreases fam.len(),
{
    if fam.len() == 0 {
        Seq::empty()
    } else {
        family_rules(key, fam.drop_last(), effective_on, result, effect)
            + member_rules(key, fam.last(), effective_on, result, effect)
    }
}

/// The rules by which `key` turns `effective_on` (in any of its marked and toned forms) into
/// `result` with the mark `effect`.
pub open spec fn toneless_rule_spec(key: char, effective_on: char, result: char, effect: Mark) -> Seq<RuleV> {
    family_rules(key, mark_family_spec(effective_on), effective_on, result, effect)
}

fn mark_rule(key: char, effect: u8, effect_on: char, result: char) -> (r: Rule)
    ensures
        r@ == mark_rule_spec(key, effect, effect_on, result),
{
    Rule::from_head(RuleHead { key, effect, effect_type: EffectType::MarkTransformation, effect_on, result })
}

proof fn lemma_rules_view_push(s: Seq<Rule>, r: Rule)
    ensures
        rules_view(s.push(r)) == rules_view(s).push(r@),
{
    assert(rules_view(s.push(r)) =~= rules_view(s).push(r@));
}

proof fn lemma_rules_view_add(a: Seq<Rule>, b: Seq<Rule>)
    ensures
        rules_view(a + b) == rules_view(a) + rules_view(b),
{
    assert(rules_view(a + b) =~= rules_view(a) + rules_view(b));
}

pub fn push_rule(rules: &mut Vec<Rule>, r: Rule)
    requires
        rules_wf(rules_view(old(rules)@)),
        rule_wf(r@),
    ensures
        rules_view(final(rules)@) == rules_view(old(rules)@).push(r@),
        rules_wf(rules_view(final(rules)@)),
{
    let ghost o = rules@;
    let ghost rv = r@;
    rules.push(r);
    proof { lemma_rules_view_push(o, rules@.last()); }
}

fn append_rules(dst: &mut Vec<Rule>, src: Vec<Rule>)
    requires
        rules_wf(rules_view(old(dst)@)),
        rules_wf(rules_view(src@)),
    ensures
        rules_view(final(dst)@) == rules_view(old(dst)@) + rules_view(src@),
        rules_wf(rules_view(final(dst)@)),
{
    let mut src = src;
    let ghost o = dst@;
    let ghost so = src@;
    dst.append(&mut src);
    proof {
        lemma_rules_view_add(o, so);
        assert forall|j: int| 0 <= j < rules_view(dst@).len() implies rule_wf(#[trigger] rules_view(dst@)[j]) by {
            if j < o.len() {
                assert(rules_view(dst@)[j] == rules_view(o)[j]);
            } else {
                assert(rules_view(dst@)[j] == rules_view(so)[j - o.len()]);
            }
        }
    }
}

/// The rules by which `key` turns `effective_on` into `result` with the mark `effect`: for each
/// member of the mark family of `effective_on`, the member equal to `result` undoes the mark,
/// each vowel gets one rule for each of the six tones, and any other member one rule.
pub fn parse_toneless_rule(key: char, effective_on: char, result: char, effect: Mark) -> (r: Vec<Rule>)
    ensures
        rules_view(r@) == toneless_rule_spec(key, effective_on, result, effect),
        rules_wf(rules_view(r@)),
{
    let fam = get_mark_family(effective_on);
    let ghost famv = fam@;
    let mut rules: Vec<Rule> = Vec::new();
    let e = effect.to_u8();
    proof { assert(rules_view(rules@) =~= Seq::<RuleV>::empty()); }
    for i in 0..fam.len()
        invariant
            famv == fam@,
            famv == mark_family_spec(effective_on),
            e == mark_num(effect),
            e <= 5,
            rules_view(rules@) == family_rules(key, famv.take(i as int), effective_on, result, effect),
            rules_wf(rules_view(rules@)),
    {
        let chr = fam[i];
        assert(famv.take(i + 1).drop_last() =~= famv.take(i as int));
        assert(famv.take(i + 1).last() == chr);
        let ghost before = rules_view(rules@);
        if chr == result {
            push_rule(&mut rules, mark_rule(key, 0, result, effective_on));
            assert(rules_view(rules@) =~= before + member_rules(key, chr, effective_on, result, effect));
        } else if is_vowel(chr) {
            proof {
                lemma_vowel_row(chr);
                lemma_vowel_row(result);
                assert(rules_view(rules@) =~= before + Seq::new(0, |t: int| mark_rule_spec(key, e, add_tone_spec(chr, t as u8), add_tone_spec(result, t as u8))));
            }
            for t in 0..6u8
                invariant
                    e == mark_num(effect),
                    e <= 5,
                    is_vowel_spec(chr),
                    vowel_pos(chr) < 72,
                    vowel_pos(result) >= 0 ==> vowel_pos(result) < 72,
                    rules_view(rules@) == before + Seq::new(t as nat, |k: int| mark_rule_spec(key, e, add_tone_spec(chr, k as u8), add_tone_spec(result, k as u8))),
                    rules_wf(rules_view(rules@)),
            {
                let a = add_tone_to_char(chr, t);
                let b = add_tone_to_char(result, t);
                let ghost pre = rules_view(rules@);
                push_rule(&mut rules, mark_rule(key, e, a, b));
                assert(Seq::new((t + 1) as nat, |k: int| mark_rule_spec(key, e, add_tone_spec(chr, k as u8), add_tone_spec(result, k as u8)))
                    =~= Seq::new(t as nat, |k: int| mark_rule_spec(key, e, add_tone_spec(chr, k as u8), add_tone_spec(result, k as u8))).push(mark_rule_spec(key, e, a, b)));
            }
            assert(rules_view(rules@) =~= before + member_rules(key, chr, effective_on, result, effect));
        } else {
            push_rule(&mut rules, mark_rule(key, e, chr, result));
            assert(rules_view(rules@) =~= before + member_rules(key, chr, effective_on, result, effect));
        }
    }
    assert(famv.take(famv.len() as int) =~= famv);
    rules
}


// ---------------------------------------------------------------------------------------------
// The line grammar. A mark line is a run of ASCII letters, `_`, a run of letters, then letters
// and `_` (the appending part); an appending line has `_` or `__` before a run of letters. The
// first place in the line where the shape fits is the one taken, each run as long as it goes.

/// End of the run of ASCII letters starting at `i`.
pub open spec fn ascii_run_end(s: Seq<char>, i: int) -> int
    decreases s.len() - i,
{
    if 0 <= i < s.len() && is_alpha_spec(s[i]) {
        ascii_run_end(s, i + 1)
    } else {
        i
    }
}

/// End of the run of letters starting at `i`.
pub open spec fn letter_run_end(s: Seq<char>, i: int) -> int
    decreases s.len() - i,
{
    if 0 <= i < s.len() && is_letter(s[i]) {
        letter_run_end(s, i + 1)
    } else {
        i
    }
}

/// End of the run of letters and `_` starting at `i`.
pub open spec fn tail_run_end(s: Seq<char>, i: int) -> int
    decreases s.len() - i,
{
    if 0 <= i < s.len() && (is_letter(s[i]) || s[i] == '_') {
        tail_run_end(s, i + 1)
    } else {
        i
    }
}

pub proof fn lemma_ascii_run_bounds(s: Seq<char>, i: int)
    requires
        0 <= i <= s.len(),
    ensures
        i <= ascii_run_end(s, i) <= s.len(),
        forall|k: int| i <= k < ascii_run_end(s, i) ==> is_alpha_spec(#[trigger] s[k]),
        ascii_run_end(s, i) < s.len() ==> !is_alpha_spec(s[ascii_run_end(s, i)]),
    decreases s.len() - i,
{
    if i < s.len() && is_alpha_spec(s[i]) {
        lemma_ascii_run_bounds(s, i + 1);
    }
}

pub proof fn lemma_letter_run_bounds(s: Seq<char>, i: int)
    requires
        0 <= i <= s.len(),
    ensures
        i <= letter_run_end(s, i) <= s.len(),
        forall|k: int| i <= k < letter_run_end(s, i) ==> is_letter(#[trigger] s[k]),
        i < s.len() && is_letter(s[i]) ==> i < letter_run_end(s, i),
    decreases s.len() - i,
{
    if i < s.len() && is_letter(s[i]) {
        lemma_letter_run_bounds(s, i + 1);
    }
}

pub proof fn lemma_tail_run_bounds(s: Seq<char>, i: int)
    requires
        0 <= i <= s.len(),
    ensures
        i <= tail_run_end(s, i) <= s.len(),
    decreases s.len() - i,
{
    if i < s.len() && (is_letter(s[i]) || s[i] == '_') {
        lemma_tail_run_bounds(s, i + 1);
    }
}

/// A mark line starts at `i`.
pub open spec fn dsl_at(s: Seq<char>, i: int) -> bool {
    let j = ascii_run_end(s, i);
    &&& 0 <= i < s.len()
    &&& is_alpha_spec(s[i])
    &&& j + 1 < s.len()
    &&& s[j] == '_'
    &&& is_letter(s[j + 1])
}

/// The first position at or after `i` where a mark line starts.
pub open spec fn dsl_match(s: Seq<char>, i: int) -> Option<int>
    decreases s.len() - i,
{
    if 0 <= i < s.len() {
        if dsl_at(s, i) {
            Some(i)
        } else {
            dsl_match(s, i + 1)
        }
    } else {
        None
    }
}

/// Where the letters of an appending line found at `i` start: after `__` if that fits, else
/// after `_`.
pub open spec fn appending_start_at(s: Seq<char>, i: int) -> Option<int> {
    if 0 <= i && i + 2 < s.len() && s[i] == '_' && s[i + 1] == '_' && is_letter(s[i + 2]) {
        Some(i + 2)
    } else if 0 <= i && i + 1 < s.len() && s[i] == '_' && is_letter(s[i + 1]) {
        Some(i + 1)
    } else {
        None
    }
}

/// Where the letters of the first appending line at or after `i` start.
pub open spec fn appending_match(s: Seq<char>, i: int) -> Option<int>
    decreases s.len() - i,
{
    if 0 <= i < s.len() {
        match appending_start_at(s, i) {
            Some(g) => Some(g),
            None => appending_match(s, i + 1),
        }
    } else {
        None
    }
}

pub proof fn lemma_appending_match(s: Seq<char>, i: int)
    ensures
        appending_match(s, i) matches Some(g) ==> 0 <= g < s.len() && is_letter(s[g]),
    decreases s.len() - i,
{
    if 0 <= i < s.len() && appending_start_at(s, i).is_none() {
        lemma_appending_match(s, i + 1);
    }
}

pub proof fn lemma_dsl_match(s: Seq<char>, i: int)
    ensures
        dsl_match(s, i) matches Some(k) ==> dsl_at(s, k),
    decreases s.len() - i,
{
    if 0 <= i < s.len() && !dsl_at(s, i) {
        lemma_dsl_match(s, i + 1);
    }
}

/// An appending rule for `c` on `key`.
pub open spec fn appending_head(key: char, c: char) -> RuleHead {
    RuleHead { key, effect: 0, effect_type: EffectType::Appending, effect_on: c, result: c }
}

/// The appending rule that a line gives: its first letter, with the others appended.
pub open spec fn appending_rule_spec(key: char, value: Seq<char>) -> Option<RuleV> {
    match appending_match(value, 0) {
        Some(g) => {
            let cs = value.subrange(g, letter_run_end(value, g));
            Some(RuleV { head: appending_head(key, cs[0]), appended: cs.drop_first().map_values(|c: char| appending_head(key, c)) })
        },
        None => None,
    }
}

pub open spec fn opt_rules(o: Option<RuleV>) -> Seq<RuleV> {
    match o {
        Some(r) => seq![r],
        None => Seq::empty(),
    }
}

/// The mark rules of the first `n` pairs of a mark line: the `k`-th letter on the left takes
/// the mark of the `k`-th letter on the right, when there is one and it carries a mark.
pub open spec fn pair_rules(key: char, ons: Seq<char>, results: Seq<char>, n: int) -> Seq<RuleV>
    decreases n,
{
    if n <= 0 {
        Seq::empty()
    } else {
        pair_rules(key, ons, results, n - 1) + if n - 1 < results.len() {
            match mark_from_char_spec(results[n - 1]) {
                Some(m) => toneless_rule_spec(key, ons[n - 1], results[n - 1], m),
                None => Seq::empty(),
            }
        } else {
            Seq::empty()
        }
    }
}

/// The rules of a line that names no tone. A mark line is recognised on the line as given and
/// read from its lowercase form.
pub open spec fn parse_toneless_rules_spec(key: char, line: Seq<char>) -> Seq<RuleV> {
    if dsl_match(line, 0) is Some {
        let lower = str_lowercase_of(line);
        match dsl_match(lower, 0) {
            Some(i) => {
                let j = ascii_run_end(lower, i);
                let k = letter_run_end(lower, j + 1);
                let m = tail_run_end(lower, k);
                pair_rules(key, lower.subrange(i, j), lower.subrange(j + 1, k), j - i)
                    + opt_rules(appending_rule_spec(key, lower.subrange(k, m)))
            },
            None => Seq::empty(),
        }
    } else {
        opt_rules(appending_rule_spec(key, line))
    }
}

/// The rules of a line: one tone rule for a tone name, else its mark and appending rules.
pub open spec fn parse_rules_spec(key: char, line: Seq<char>) -> Seq<RuleV> {
    match tone_name_spec(line) {
        Some(t) => seq![plain_rule(RuleHead { key, effect: tone_num(t), effect_type: EffectType::ToneTransformation, effect_on: '\0', result: '\0' })],
        None => parse_toneless_rules_spec(key, line),
    }
}

fn ascii_run(s: &[char], i: usize) -> (j: usize)
    requires
        i <= s.len(),
    ensures
        j == ascii_run_end(s@, i as int),
{
    let mut j = i;
    while j < s.len() && is_alpha(s[j])
        invariant
            i <= j <= s.len(),
            ascii_run_end(s@, j as int) == ascii_run_end(s@, i as int),
        decreases s.len() - j,
    {
        j = j + 1;
    }
    j
}

fn letter_run(s: &[char], i: usize) -> (j: usize)
    requires
        i <= s.len(),
    ensures
        j == letter_run_end(s@, i as int),
{
    let mut j = i;
    loop
        invariant
            i <= j <= s.len(),
            letter_run_end(s@, j as int) == letter_run_end(s@, i as int),
        ensures
            j == letter_run_end(s@, i as int),
        decreases s.len() - j,
    {
        if j >= s.len() {
            break;
        }
        if !char_is_letter(s[j]) {
            break;
        }
        j = j + 1;
    }
    j
}

fn tail_run(s: &[char], i: usize) -> (j: usize)
    requires
        i <= s.len(),
    ensures
        j == tail_run_end(s@, i as int),
{
    let mut j = i;
    loop
        invariant
            i <= j <= s.len(),
            tail_run_end(s@, j as int) == tail_run_end(s@, i as int),
        ensures
            j == tail_run_end(s@, i as int),
        decreases s.len() - j,
    {
        if j >= s.len() {
            break;
        }
        if !(s[j] == '_' || char_is_letter(s[j])) {
            break;
        }
        j = j + 1;
    }
    j
}

fn find_dsl(s: &[char]) -> (r: Option<usize>)
    ensures
        r.is_some() == dsl_match(s@, 0).is_some(),
        r matches Some(i) ==> dsl_match(s@, 0) == Some(i as int),
{
    let mut i: usize = 0;
    while i < s.len()
        invariant
            i <= s.len(),
            dsl_match(s@, 0) == dsl_match(s@, i as int),
        decreases s.len() - i,
    {
        if is_alpha(s[i]) {
            let j = ascii_run(s, i);
            proof { lemma_ascii_run_bounds(s@, i as int); }
            if j < s.len() && j + 1 < s.len() && s[j] == '_' && char_is_letter(s[j + 1]) {
                return Some(i);
            }
        }
        i = i + 1;
    }
    None
}

fn find_appending(s: &[char]) -> (r: Option<usize>)
    ensures
        r.is_some() == appending_match(s@, 0).is_some(),
        r matches Some(g) ==> appending_match(s@, 0) == Some(g as int),
{
    let mut i: usize = 0;
    while i < s.len()
        invariant
            i <= s.len(),
            appending_match(s@, 0) == appending_match(s@, i as int),
        decreases s.len() - i,
    {
        if s[i] == '_' {
            if i + 1 < s.len() && i + 2 < s.len() && s[i + 1] == '_' && char_is_letter(s[i + 2]) {
                return Some(i + 2);
            }
            if i + 1 < s.len() && char_is_letter(s[i + 1]) {
                return Some(i + 1);
            }
        }
        i = i + 1;
    }
    None
}

fn appending_rule(key: char, c: char) -> (r: Rule)
    ensures
        r@ == plain_rule(appending_head(key, c)),
{
    Rule::from_head(RuleHead { key, effect: 0, effect_type: EffectType::Appending, effect_on: c, result: c })
}

fn appending_rule_of(key: char, value: &[char]) -> (r: Option<Rule>)
    ensures
        r matches Some(x) ==> appending_rule_spec(key, value@) == Some(x@) && rule_wf(x@),
        r.is_none() ==> appending_rule_spec(key, value@).is_none(),
{
    match find_appending(value) {
        None => None,
        Some(g) => {
            proof { lemma_appending_match(value@, 0); }
            let e = letter_run(value, g);
            proof { lemma_letter_run_bounds(value@, g as int); }
            let ghost cs = value@.subrange(g as int, e as int);
            let mut rule = appending_rule(key, value[g]);
            let mut k = g + 1;
            assert(cs[0] == value@[g as int]);
            assert(rule@.appended =~= cs.subrange(1, k - g).map_values(|c: char| appending_head(key, c)));
            while k < e
                invariant
                    g < k <= e,
                    e <= value@.len(),
                    cs == value@.subrange(g as int, e as int),
                    rule@.head == appending_head(key, cs[0]),
                    rule@.appended == cs.subrange(1, k - g).map_values(|c: char| appending_head(key, c)),
                decreases e - k,
            {
                let ghost pre = rule@.appended;
                let ghost ar = rule.appended_rules@;
                let a = appending_rule(key, value[k]);
                rule.appended_rules.push(a);
                assert(rule.appended_rules@ == ar.push(a));
                assert(rule@.appended =~= pre.push(appending_head(key, value@[k as int])));
                assert(cs.subrange(1, k + 1 - g).map_values(|c: char| appending_head(key, c))
                    =~= cs.subrange(1, k - g).map_values(|c: char| appending_head(key, c)).push(appending_head(key, value@[k as int])));
                k = k + 1;
            }
            assert(cs.drop_first() =~= cs.subrange(1, e - g));
            Some(rule)
        },
    }
}

/// The appending rule of a line (`_ư` or `__ư` and more letters): its first letter, with the
/// letters after it as appended rules; `None` when the line has no such part.
pub fn get_appending_rule(key: char, value: &str) -> (r: Option<Rule>)
    ensures
        r matches Some(x) ==> appending_rule_spec(key, value@) == Some(x@),
        r.is_none() ==> appending_rule_spec(key, value@).is_none(),
{
    let v = str_chars(value);
    appending_rule_of(key, &v)
}


/// The chars of `s` from `lo` to `hi`.
pub fn chars_range(s: &[char], lo: usize, hi: usize) -> (r: Vec<char>)
    requires
        lo <= hi <= s.len(),
    ensures
        r@ == s@.subrange(lo as int, hi as int),
{
    let mut r: Vec<char> = Vec::new();
    let mut k = lo;
    while k < hi
        invariant
            lo <= k <= hi,
            hi <= s.len(),
            r@ == s@.subrange(lo as int, k as int),
        decreases hi - k,
    {
        r.push(s[k]);
        assert(s@.subrange(lo as int, k + 1) =~= s@.subrange(lo as int, k as int).push(s@[k as int]));
        k = k + 1;
    }
    r
}

fn toneless_rules_of(key: char, line: &[char]) -> (r: Vec<Rule>)
    ensures
        rules_view(r@) == parse_toneless_rules_spec(key, line@),
        rules_wf(rules_view(r@)),
{
    let mut rules: Vec<Rule> = Vec::new();
    proof { assert(rules_view(rules@) =~= Seq::<RuleV>::empty()); }
    if find_dsl(line).is_some() {
        let lower = str_to_lowercase(line);
        match find_dsl(&lower) {
            Some(i) => {
                proof { lemma_dsl_match(lower@, 0); }
                let j = ascii_run(&lower, i);
                proof { lemma_ascii_run_bounds(lower@, i as int); }
                let k = letter_run(&lower, j + 1);
                proof { lemma_letter_run_bounds(lower@, j + 1); }
                let m = tail_run(&lower, k);
                proof { lemma_tail_run_bounds(lower@, k as int); }
                let ghost ons = lower@.subrange(i as int, j as int);
                let ghost results = lower@.subrange(j + 1, k as int);
                let nres = k - (j + 1);
                for n in 0..(j - i)
                    invariant
                        i <= j,
                        j + 1 <= k <= lower@.len(),
                        nres == k - (j + 1),
                        ons == lower@.subrange(i as int, j as int),
                        results == lower@.subrange(j + 1, k as int),
                        rules_view(rules@) == pair_rules(key, ons, results, n as int),
                        rules_wf(rules_view(rules@)),
                {
                    let eff_on = lower[i + n];
                    if n < nres {
                        let result = lower[j + 1 + n];
                        match find_mark_from_char(result) {
                            Some(mk) => {
                                let rs = parse_toneless_rule(key, eff_on, result, mk);
                                append_rules(&mut rules, rs);
                            },
                            None => {},
                        }
                    }
                }
                let tail = chars_range(&lower, k, m);
                match appending_rule_of(key, &tail) {
                    Some(x) => push_rule(&mut rules, x),
                    None => {},
                }
                proof {
                    assert(rules_view(rules@) =~= pair_rules(key, ons, results, (j - i) as int)
                        + opt_rules(appending_rule_spec(key, lower@.subrange(k as int, m as int))));
                }
            },
            None => {},
        }
    } else {
        match appending_rule_of(key, line) {
            Some(x) => push_rule(&mut rules, x),
            None => {},
        }
        proof { assert(rules_view(rules@) =~= opt_rules(appending_rule_spec(key, line@))); }
    }
    rules
}

/// The rules of a line that names no tone: the mark rules of a mark line (read in lowercase)
/// followed by the appending rule of its last part, or the appending rule of the line.
pub fn parse_toneless_rules(key: char, line: &str) -> (r: Vec<Rule>)
    ensures
        rules_view(r@) == parse_toneless_rules_spec(key, line@),
        rules_wf(rules_view(r@)),
{
    let v = str_chars(line);
    toneless_rules_of(key, &v)
}

fn rules_of(key: char, line: &[char]) -> (r: Vec<Rule>)
    ensures
        rules_view(r@) == parse_rules_spec(key, line@),
        rules_wf(rules_view(r@)),
{
    match tone_from_name(line) {
        Some(t) => {
            let mut rules: Vec<Rule> = Vec::new();
            let h = RuleHead { key, effect: t.to_u8(), effect_type: EffectType::ToneTransformation, effect_on: '\0', result: '\0' };
            proof { assert(rules_view(rules@) =~= Seq::<RuleV>::empty()); }
            push_rule(&mut rules, Rule::from_head(h));
            assert(rules_view(rules@) =~= parse_rules_spec(key, line@));
            rules
        },
        None => toneless_rules_of(key, line),
    }
}

/// The rules of one line of a definition for `key`: a tone rule for a tone name, else the rules
/// of `parse_toneless_rules`.
pub fn parse_rules(key: char, line: &str) -> (r: Vec<Rule>)
    ensures
        rules_view(r@) == parse_rules_spec(key, line@),
        rules_wf(rules_view(r@)),
{
    let v = str_chars(line);
    rules_of(key, &v)
}


// ---------------------------------------------------------------------------------------------
// Input methods

/// An input method: its rules and the keys that play each part in it.
#[derive(Debug)]
pub struct InputMethod {
    pub name: String,
    pub rules: Vec<Rule>,
    /// Keys whose line involves `uo` (they turn `uo` into `ươ`).
    pub super_keys: Vec<char>,
    pub tone_keys: Vec<char>,
    pub appending_keys: Vec<char>,
    /// Every key of the definition, in order.
    pub keys: Vec<char>,
}

/// What an input method holds.
pub ghost struct InputMethodV {
    pub name: Seq<char>,
    pub rules: Seq<RuleV>,
    pub super_keys: Seq<char>,
    pub tone_keys: Seq<char>,
    pub appending_keys: Seq<char>,
    pub keys: Seq<char>,
}

impl View for InputMethod {
    type V = InputMethodV;

    open spec fn view(&self) -> InputMethodV {
        InputMethodV {
            name: self.name@,
            rules: rules_view(self.rules@),
            super_keys: self.super_keys@,
            tone_keys: self.tone_keys@,
            appending_keys: self.appending_keys@,
            keys: self.keys@,
        }
    }
}

/// The input method with no name, rules or keys.
pub open spec fn empty_im() -> InputMethodV {
    InputMethodV {
        name: Seq::empty(),
        rules: Seq::empty(),
        super_keys: Seq::empty(),
        tone_keys: Seq::empty(),
        appending_keys: Seq::empty(),
        keys: Seq::empty(),
    }
}

impl Default for InputMethod {
    fn default() -> (r: InputMethod)
        ensures
            r@ == empty_im(),
    {
        let r = InputMethod {
            name: String::new(),
            rules: Vec::new(),
            super_keys: Vec::new(),
            tone_keys: Vec::new(),
            appending_keys: Vec::new(),
            keys: Vec::new(),
        };
        assert(r@.rules =~= Seq::<RuleV>::empty());
        r
    }
}

/// Some two adjacent chars of `s` are `u`, `o`.
pub open spec fn has_uo(s: Seq<char>) -> bool {
    exists|i: int| 0 <= i && i + 1 < s.len() && #[trigger] s[i] == 'u' && s[i + 1] == 'o'
}

/// The rules of the (key, line) pairs, in order; a pair with an empty key gives none.
pub open spec fn def_rules(defs: Seq<(Seq<char>, Seq<char>)>) -> Seq<RuleV>
    decreases defs.len(),
{
    if defs.len() == 0 {
        Seq::empty()
    } else {
        let d = defs.last();
        def_rules(defs.drop_last()) + if d.0.len() > 0 {
            parse_rules_spec(d.0[0], d.1)
        } else {
            Seq::empty()
        }
    }
}

/// The keys of the pairs whose lowercased line contains `uo`.
pub open spec fn def_super_keys(defs: Seq<(Seq<char>, Seq<char>)>) -> Seq<char>
    decreases defs.len(),
{
    if defs.len() == 0 {
        Seq::empty()
    } else {
        let d = defs.last();
        def_super_keys(defs.drop_last()) + if d.0.len() > 0 && has_uo(str_lowercase_of(d.1)) {
            seq![d.0[0]]
        } else {
            Seq::empty()
        }
    }
}

/// The keys of the pairs (the first char of each non-empty key).
pub open spec fn def_keys(defs: Seq<(Seq<char>, Seq<char>)>) -> Seq<char>
    decreases defs.len(),
{
    if defs.len() == 0 {
        Seq::empty()
    } else {
        let d = defs.last();
        def_keys(defs.drop_last()) + if d.0.len() > 0 {
            seq![d.0[0]]
        } else {
            Seq::empty()
        }
    }
}

/// The keys of the rules with the given effect type, in order.
pub open spec fn keys_with(rules: Seq<RuleV>, et: EffectType) -> Seq<char>
    decreases rules.len(),
{
    if rules.len() == 0 {
        Seq::empty()
    } else {
        keys_with(rules.drop_last(), et) + if rules.last().head.effect_type == et {
            seq![rules.last().head.key]
        } else {
            Seq::empty()
        }
    }
}

/// The input method named `name` with the given (key, line) pairs.
pub open spec fn build_spec(name: Seq<char>, defs: Seq<(Seq<char>, Seq<char>)>) -> InputMethodV {
    InputMethodV {
        name,
        rules: def_rules(defs),
        super_keys: def_super_keys(defs),
        tone_keys: keys_with(def_rules(defs), EffectType::ToneTransformation),
        appending_keys: keys_with(def_rules(defs), EffectType::Appending),
        keys: def_keys(defs),
    }
}

/// The pairs of owned strings as pairs of char sequences.
pub open spec fn pairs_view(p: Seq<(String, String)>) -> Seq<(Seq<char>, Seq<char>)> {
    p.map_values(|e: (String, String)| (e.0@, e.1@))
}

fn contains_uo(s: &[char]) -> (r: bool)
    ensures
        r == has_uo(s@),
{
    let mut i: usize = 0;
    while i < s.len() && i + 1 < s.len()
        invariant
            i <= s.len(),
            forall|k: int| 0 <= k < i && k + 1 < s@.len() ==> !(#[trigger] s@[k] == 'u' && s@[k + 1] == 'o'),
        decreases s.len() - i,
    {
        if s[i] == 'u' && s[i + 1] == 'o' {
            return true;
        }
        i = i + 1;
    }
    false
}

/// The input method named `name` built from (key, line) pairs: the rules of each line in order,
/// the keys, the keys of lines that involve `uo`, and the keys of its appending and tone rules.
pub fn build_input_method_from_pairs(name: &str, pairs: &[(String, String)]) -> (im: InputMethod)
    ensures
        im@ == build_spec(name@, pairs_view(pairs@)),
        rules_wf(im@.rules),
{
    let ghost pv = pairs_view(pairs@);
    let mut rules: Vec<Rule> = Vec::new();
    let mut super_keys: Vec<char> = Vec::new();
    let mut keys: Vec<char> = Vec::new();
    proof { assert(rules_view(rules@) =~= Seq::<RuleV>::empty()); }
    for i in 0..pairs.len()
        invariant
            pv == pairs_view(pairs@),
            rules_view(rules@) == def_rules(pv.take(i as int)),
            super_keys@ == def_super_keys(pv.take(i as int)),
            keys@ == def_keys(pv.take(i as int)),
            rules_wf(rules_view(rules@)),
    {
        assert(pv.take(i + 1).drop_last() =~= pv.take(i as int));
        assert(pv.take(i + 1).last() == (pairs@[i as int].0@, pairs@[i as int].1@));
        let kc = str_chars(pairs[i].0.as_str());
        if kc.len() > 0 {
            let key = kc[0];
            let lc = str_chars(pairs[i].1.as_str());
            let rs = rules_of(key, &lc);
            append_rules(&mut rules, rs);
            let lower = str_to_lowercase(&lc);
            if contains_uo(&lower) {
                super_keys.push(key);
            }
            keys.push(key);
        }
    }
    assert(pv.take(pairs@.len() as int) =~= pv);
    let ghost rv = rules_view(rules@);
    let mut tone_keys: Vec<char> = Vec::new();
    let mut appending_keys: Vec<char> = Vec::new();
    for j in 0..rules.len()
        invariant
            rv == rules_view(rules@),
            appending_keys@ == keys_with(rv.take(j as int), EffectType::Appending),
            tone_keys@ == keys_with(rv.take(j as int), EffectType::ToneTransformation),
    {
        assert(rv.take(j + 1).drop_last() =~= rv.take(j as int));
        let et = rules[j].effect_type;
        if et == EffectType::Appending {
            appending_keys.push(rules[j].key);
        }
        if et == EffectType::ToneTransformation {
            tone_keys.push(rules[j].key);
        }
    }
    assert(rv.take(rv.len() as int) =~= rv);
    InputMethod { name: name.to_owned(), rules, super_keys, tone_keys, appending_keys, keys }
}


/// Index of the first definition at or after `i` named `name`, or -1.
pub open spec fn find_def(defs: Seq<(Seq<char>, Seq<(Seq<char>, Seq<char>)>)>, name: Seq<char>, i: int) -> int
    decreases defs.len() - i,
{
    if 0 <= i < defs.len() {
        if defs[i].0 == name {
            i
        } else {
            find_def(defs, name, i + 1)
        }
    } else {
        -1
    }
}

/// The input method built from the first definition named `name`, or the empty one.
pub open spec fn parse_input_method_spec(defs: Seq<(Seq<char>, Seq<(Seq<char>, Seq<char>)>)>, name: Seq<char>) -> InputMethodV {
    let k = find_def(defs, name, 0);
    if 0 <= k < defs.len() {
        build_spec(defs[k].0, defs[k].1)
    } else {
        empty_im()
    }
}

/// The input method of the first definition named `im_name`, or the empty input method when
/// there is none.
pub fn parse_input_method(defs: &[(&'static str, InputMethodDefinition)], im_name: &str) -> (im: InputMethod)
    ensures
        im@ == parse_input_method_spec(defs_view(defs@), im_name@),
        rules_wf(im@.rules),
{
    let ghost dv = defs_view(defs@);
    let want = str_chars(im_name);
    for i in 0..defs.len()
        invariant
            dv == defs_view(defs@),
            want@ == im_name@,
            find_def(dv, im_name@, 0) == find_def(dv, im_name@, i as int),
    {
        let name = defs[i].0;
        if is_name(&want, name) {
            let pairs = owned_pairs(defs[i].1.as_slice());
            return build_input_method_from_pairs(name, &pairs);
        }
    }
    InputMethod::default()
}

/// The built-in input method named `im_name` (empty when there is none by that name).
pub fn parse_builtin_input_method(im_name: &str) -> (im: InputMethod)
    ensures
        im@ == parse_input_method_spec(builtin_defs(), im_name@),
        rules_wf(im@.rules),
{
    let defs = input_method_definitions();
    parse_input_method(&defs, im_name)
}


// ---------------------------------------------------------------------------------------------
// Where tone rules come from

proof fn lemma_member_rules_marks(key: char, chr: char, effective_on: char, result: char, effect: Mark)
    ensures
        forall|k: int| 0 <= k < member_rules(key, chr, effective_on, result, effect).len()
            ==> (#[trigger] member_rules(key, chr, effective_on, result, effect)[k]).head.effect_type
                == EffectType::MarkTransformation,
{
}

proof fn lemma_family_rules_marks(key: char, fam: Seq<char>, effective_on: char, result: char, effect: Mark)
    ensures
        forall|k: int| 0 <= k < family_rules(key, fam, effective_on, result, effect).len()
            ==> (#[trigger] family_rules(key, fam, effective_on, result, effect)[k]).head.effect_type
                == EffectType::MarkTransformation,
    decreases fam.len(),
{
    if fam.len() > 0 {
        lemma_family_rules_marks(key, fam.drop_last(), effective_on, result, effect);
        lemma_member_rules_marks(key, fam.last(), effective_on, result, effect);
        let a = family_rules(key, fam.drop_last(), effective_on, result, effect);
        let b = member_rules(key, fam.last(), effective_on, result, effect);
        assert forall|k: int| 0 <= k < (a + b).len() implies
            (#[trigger] (a + b)[k]).head.effect_type == EffectType::MarkTransformation by {
            if k < a.len() {
                assert((a + b)[k] == a[k]);
            } else {
                assert((a + b)[k] == b[k - a.len()]);
            }
        }
    }
}

proof fn lemma_pair_rules_marks(key: char, ons: Seq<char>, results: Seq<char>, n: int)
    ensures
        forall|k: int| 0 <= k < pair_rules(key, ons, results, n).len()
            ==> (#[trigger] pair_rules(key, ons, results, n)[k]).head.effect_type == EffectType::MarkTransformation,
    decreases n,
{
    if n > 0 {
        lemma_pair_rules_marks(key, ons, results, n - 1);
        let a = pair_rules(key, ons, results, n - 1);
        let b = if n - 1 < results.len() {
            match mark_from_char_spec(results[n - 1]) {
                Some(m) => toneless_rule_spec(key, ons[n - 1], results[n - 1], m),
                None => Seq::empty(),
            }
        } else {
            Seq::empty()
        };
        if n - 1 < results.len() {
            if let Some(m) = mark_from_char_spec(results[n - 1]) {
                lemma_family_rules_marks(key, mark_family_spec(ons[n - 1]), ons[n - 1], results[n - 1], m);
            }
        }
        assert forall|k: int| 0 <= k < (a + b).len() implies
            (#[trigger] (a + b)[k]).head.effect_type == EffectType::MarkTransformation by {
            if k < a.len() {
                assert((a + b)[k] == a[k]);
            } else {
                assert((a + b)[k] == b[k - a.len()]);
            }
        }
    }
}

/// A line that names no tone gives no tone rule.
proof fn lemma_toneless_rules_no_tone(key: char, line: Seq<char>)
    ensures
        forall|k: int| 0 <= k < parse_toneless_rules_spec(key, line).len()
            ==> (#[trigger] parse_toneless_rules_spec(key, line)[k]).head.effect_type != EffectType::ToneTransformation,
{
    if dsl_match(line, 0) is Some {
        let lower = str_lowercase_of(line);
        if let Some(i) = dsl_match(lower, 0) {
            let j = ascii_run_end(lower, i);
            let k = letter_run_end(lower, j + 1);
            let m = tail_run_end(lower, k);
            let a = pair_rules(key, lower.subrange(i, j), lower.subrange(j + 1, k), j - i);
            let b = opt_rules(appending_rule_spec(key, lower.subrange(k, m)));
            lemma_pair_rules_marks(key, lower.subrange(i, j), lower.subrange(j + 1, k), j - i);
            assert forall|q: int| 0 <= q < (a + b).len() implies
                (#[trigger] (a + b)[q]).head.effect_type != EffectType::ToneTransformation by {
                if q < a.len() {
                    assert((a + b)[q] == a[q]);
                } else {
                    assert((a + b)[q] == b[q - a.len()]);
                }
            }
        }
    }
}

/// Each tone rule of a definition comes from a pair whose line names its tone, and has the key
/// of that pair.
proof fn lemma_def_rules_tone_origin(defs: Seq<(Seq<char>, Seq<char>)>)
    ensures
        forall|i: int| 0 <= i < def_rules(defs).len()
            && (#[trigger] def_rules(defs)[i]).head.effect_type == EffectType::ToneTransformation
            ==> exists|j: int| 0 <= j < defs.len() && (#[trigger] defs[j]).0.len() > 0
                && tone_name_spec(defs[j].1) == Some(tone_of(def_rules(defs)[i].head.effect))
                && def_rules(defs)[i].head.key == defs[j].0[0],
    decreases defs.len(),
{
    if defs.len() > 0 {
        let init = defs.drop_last();
        let d = defs.last();
        lemma_def_rules_tone_origin(init);
        let a = def_rules(init);
        let b = if d.0.len() > 0 { parse_rules_spec(d.0[0], d.1) } else { Seq::empty() };
        assert(def_rules(defs) == a + b);
        if d.0.len() > 0 {
            lemma_toneless_rules_no_tone(d.0[0], d.1);
        }
        assert forall|i: int| 0 <= i < (a + b).len()
            && (#[trigger] (a + b)[i]).head.effect_type == EffectType::ToneTransformation
            implies exists|j: int| 0 <= j < defs.len() && (#[trigger] defs[j]).0.len() > 0
                && tone_name_spec(defs[j].1) == Some(tone_of((a + b)[i].head.effect))
                && (a + b)[i].head.key == defs[j].0[0] by {
            if i < a.len() {
                assert((a + b)[i] == a[i]);
                let j = choose|j: int| 0 <= j < init.len() && (#[trigger] init[j]).0.len() > 0
                    && tone_name_spec(init[j].1) == Some(tone_of(a[i].head.effect))
                    && a[i].head.key == init[j].0[0];
                assert(defs[j] == init[j]);
            } else {
                assert((a + b)[i] == b[i - a.len()]);
                assert(d.0.len() > 0);
                if tone_name_spec(d.1) is Some {
                    let t = tone_name_spec(d.1).unwrap();
                    lemma_tone_line_rules(d.0[0], d.1, t);
                    assert(b.len() == 1);
                    assert(b[i - a.len()] == b[0]);
                    assert(tone_of(tone_num(t)) == t);
                    assert(defs[defs.len() - 1] == d);
                } else {
                    assert(b == parse_toneless_rules_spec(d.0[0], d.1));
                    assert(parse_toneless_rules_spec(d.0[0], d.1)[i - a.len()].head.effect_type
                        != EffectType::ToneTransformation);
                }
            }
        }
    }
}

/// A line that names a tone gives one tone rule.
proof fn lemma_tone_line_rules(key: char, line: Seq<char>, t: Tone)
    requires
        tone_name_spec(line) == Some(t),
    ensures
        parse_rules_spec(key, line).len() == 1,
        parse_rules_spec(key, line)[0] == plain_rule(RuleHead {
            key,
            effect: tone_num(t),
            effect_type: EffectType::ToneTransformation,
            effect_on: '\0',
            result: '\0',
        }),
{
}

/// The last pair, when its line names a tone, gives a tone rule for its key.
proof fn lemma_def_rules_last_tone(defs: Seq<(Seq<char>, Seq<char>)>, t: Tone)
    requires
        defs.len() > 0,
        defs.last().0.len() > 0,
        tone_name_spec(defs.last().1) == Some(t),
    ensures
        def_rules(defs).len() > 0,
        def_rules(defs).last() == plain_rule(RuleHead {
            key: defs.last().0[0],
            effect: tone_num(t),
            effect_type: EffectType::ToneTransformation,
            effect_on: '\0',
            result: '\0',
        }),
{
    let d = defs.last();
    let a = def_rules(defs.drop_last());
    let r = parse_rules_spec(d.0[0], d.1);
    lemma_tone_line_rules(d.0[0], d.1, t);
    assert(def_rules(defs) == a + r);
    assert((a + r)[a.len() as int] == r[0]);
}

/// A pair whose line names a tone gives a tone rule for its key.
proof fn lemma_def_rules_has_tone(defs: Seq<(Seq<char>, Seq<char>)>, j: int, t: Tone)
    requires
        0 <= j < defs.len(),
        defs[j].0.len() > 0,
        tone_name_spec(defs[j].1) == Some(t),
    ensures
        exists|i: int| 0 <= i < def_rules(defs).len()
            && (#[trigger] def_rules(defs)[i]).head.effect_type == EffectType::ToneTransformation
            && def_rules(defs)[i].head.key == defs[j].0[0]
            && def_rules(defs)[i].head.effect == tone_num(t),
    decreases defs.len(),
{
    if j < defs.len() - 1 {
        let init = defs.drop_last();
        let a = def_rules(init);
        let d = defs.last();
        let b = if d.0.len() > 0 { parse_rules_spec(d.0[0], d.1) } else { Seq::empty() };
        assert(def_rules(defs) == a + b);
        assert(init[j] == defs[j]);
        lemma_def_rules_has_tone(init, j, t);
        let i = choose|i: int| 0 <= i < a.len()
            && (#[trigger] a[i]).head.effect_type == EffectType::ToneTransformation
            && a[i].head.key == init[j].0[0] && a[i].head.effect == tone_num(t);
        assert((a + b)[i] == a[i]);
    } else {
        lemma_def_rules_last_tone(defs, t);
        let n = def_rules(defs).len() - 1;
        assert(def_rules(defs)[n] == def_rules(defs).last());
    }
}

/// The key of each tone in VNI: 0 takes the tone off, 1 is sắc (acute), 2 huyền (grave),
/// 3 hỏi (hook), 4 ngã (tilde) and 5 nặng (dot).
pub open spec fn vni_tone_key(t: Tone) -> char {
    match t {
        Tone::NoTone => '0',
        Tone::Acute => '1',
        Tone::Grave => '2',
        Tone::Hook => '3',
        Tone::Tilde => '4',
        Tone::Dot => '5',
    }
}

proof fn lemma_vni_lines()
    ensures
        forall|j: int| 0 <= j < vni_pairs().len() ==> (#[trigger] vni_pairs()[j]).0.len() == 1,
        forall|j: int| 0 <= j < vni_pairs().len() && (#[trigger] vni_pairs()[j]).0.len() > 0
            && tone_name_spec(vni_pairs()[j].1) is Some
            ==> vni_pairs()[j].0[0] == vni_tone_key(tone_name_spec(vni_pairs()[j].1).unwrap()),
        forall|t: Tone| #![trigger vni_tone_key(t)] exists|j: int| 0 <= j < vni_pairs().len() && (#[trigger] vni_pairs()[j]).0.len() > 0
            && tone_name_spec(vni_pairs()[j].1) == Some(t) && vni_pairs()[j].0[0] == vni_tone_key(t),
{
    reveal_strlit("0");
    reveal_strlit("1");
    reveal_strlit("2");
    reveal_strlit("3");
    reveal_strlit("4");
    reveal_strlit("5");
    reveal_strlit("6");
    reveal_strlit("7");
    reveal_strlit("8");
    reveal_strlit("9");
    reveal_strlit("XoaDauThanh");
    reveal_strlit("DauSac");
    reveal_strlit("DauHuyen");
    reveal_strlit("DauHoi");
    reveal_strlit("DauNga");
    reveal_strlit("DauNang");
    reveal_strlit("AEO_ÂÊÔ");
    reveal_strlit("UO_ƯƠ");
    reveal_strlit("A_Ă");
    reveal_strlit("D_Đ");
    assert("XoaDauThanh"@.len() == 11 && "XoaDauThanh"@[0] == 'X');
    assert("DauSac"@.len() == 6 && "DauSac"@[0] == 'D' && "DauSac"@[3] == 'S');
    assert("DauHuyen"@.len() == 8 && "DauHuyen"@[0] == 'D');
    assert("DauHoi"@.len() == 6 && "DauHoi"@[0] == 'D' && "DauHoi"@[3] == 'H');
    assert("DauNga"@.len() == 6 && "DauNga"@[0] == 'D' && "DauNga"@[3] == 'N');
    assert("DauNang"@.len() == 7 && "DauNang"@[0] == 'D');
    assert("AEO_ÂÊÔ"@[0] == 'A' && "UO_ƯƠ"@[0] == 'U' && "A_Ă"@[0] == 'A');
    assert("D_Đ"@.len() == 3 && "D_Đ"@[0] == 'D');
    let v = vni_pairs();
    assert(tone_name_spec(v[0].1) == Some(Tone::NoTone));
    assert(tone_name_spec(v[1].1) == Some(Tone::Acute));
    assert(tone_name_spec(v[2].1) == Some(Tone::Grave));
    assert(tone_name_spec(v[3].1) == Some(Tone::Hook));
    assert(tone_name_spec(v[4].1) == Some(Tone::Tilde));
    assert(tone_name_spec(v[5].1) == Some(Tone::Dot));
    assert(tone_name_spec(v[6].1) is None);
    assert(tone_name_spec(v[7].1) is None);
    assert(tone_name_spec(v[8].1) is None);
    assert(tone_name_spec(v[9].1) is None);
    assert forall|t: Tone| #![trigger vni_tone_key(t)] exists|j: int| 0 <= j < vni_pairs().len() && (#[trigger] vni_pairs()[j]).0.len() > 0
        && tone_name_spec(vni_pairs()[j].1) == Some(t) && vni_pairs()[j].0[0] == vni_tone_key(t) by {
        let j: int = match t {
            Tone::NoTone => 0,
            Tone::Acute => 1,
            Tone::Grave => 2,
            Tone::Hook => 3,
            Tone::Tilde => 4,
            Tone::Dot => 5,
        };
        assert(v[j].0.len() > 0);
    }
}

/// VNI as the built-in definitions give it.
pub open spec fn builtin_vni() -> InputMethodV {
    parse_input_method_spec(builtin_defs(), "VNI"@)
}

/// VNI binds each tone to its digit key (see `vni_tone_key`): every tone rule of the built-in
/// VNI is on the key of its tone, and every tone has a rule on its key; so "a3" gives "ả" and
/// "a4" gives "ã".
pub proof fn lemma_vni_tone_keys()
    ensures
        forall|i: int| 0 <= i < builtin_vni().rules.len()
            && (#[trigger] builtin_vni().rules[i]).head.effect_type == EffectType::ToneTransformation
            ==> builtin_vni().rules[i].head.key == vni_tone_key(tone_of(builtin_vni().rules[i].head.effect)),
        forall|t: Tone| #![trigger vni_tone_key(t)] exists|i: int| 0 <= i < builtin_vni().rules.len()
            && (#[trigger] builtin_vni().rules[i]).head.effect_type == EffectType::ToneTransformation
            && builtin_vni().rules[i].head.key == vni_tone_key(t)
            && builtin_vni().rules[i].head.effect == tone_num(t),
{
    reveal_strlit("Telex");
    reveal_strlit("Telex (đơn giản)");
    reveal_strlit("VNI");
    let d = builtin_defs();
    assert("Telex"@.len() == 5 && "Telex (đơn giản)"@.len() == 16 && "VNI"@.len() == 3);
    assert(d[0].0 != "VNI"@);
    assert(d[1].0 != "VNI"@);
    assert(find_def(d, "VNI"@, 2) == 2);
    assert(find_def(d, "VNI"@, 1) == 2);
    assert(find_def(d, "VNI"@, 0) == 2);
    assert(builtin_vni().rules == def_rules(vni_pairs()));
    let v = vni_pairs();
    lemma_vni_lines();
    lemma_def_rules_tone_origin(v);
    assert forall|t: Tone| #![trigger vni_tone_key(t)] exists|i: int| 0 <= i < def_rules(v).len()
        && (#[trigger] def_rules(v)[i]).head.effect_type == EffectType::ToneTransformation
        && def_rules(v)[i].head.key == vni_tone_key(t)
        && def_rules(v)[i].head.effect == tone_num(t) by {
        let j = choose|j: int| 0 <= j < v.len() && (#[trigger] v[j]).0.len() > 0
            && tone_name_spec(v[j].1) == Some(t) && v[j].0[0] == vni_tone_key(t);
        lemma_def_rules_has_tone(v, j, t);
    }
}

/// The key of each tone in Telex: z takes the tone off, s is sắc (acute), f huyền (grave),
/// r hỏi (hook), x ngã (tilde) and j nặng (dot).
pub open spec fn telex_tone_key(t: Tone) -> char {
    match t {
        Tone::NoTone => 'z',
        Tone::Acute => 's',
        Tone::Grave => 'f',
        Tone::Hook => 'r',
        Tone::Tilde => 'x',
        Tone::Dot => 'j',
    }
}

proof fn lemma_telex_lines()
    ensures
        forall|j: int| 0 <= j < telex_pairs().len() && (#[trigger] telex_pairs()[j]).0.len() > 0
            && tone_name_spec(telex_pairs()[j].1) is Some
            ==> telex_pairs()[j].0[0] == telex_tone_key(tone_name_spec(telex_pairs()[j].1).unwrap()),
        forall|t: Tone| #![trigger telex_tone_key(t)] exists|j: int| 0 <= j < telex_pairs().len()
            && (#[trigger] telex_pairs()[j]).0.len() > 0
            && tone_name_spec(telex_pairs()[j].1) == Some(t) && telex_pairs()[j].0[0] == telex_tone_key(t),
{
    reveal_strlit("z");
    reveal_strlit("s");
    reveal_strlit("f");
    reveal_strlit("r");
    reveal_strlit("x");
    reveal_strlit("j");
    reveal_strlit("XoaDauThanh");
    reveal_strlit("DauSac");
    reveal_strlit("DauHuyen");
    reveal_strlit("DauHoi");
    reveal_strlit("DauNga");
    reveal_strlit("DauNang");
    reveal_strlit("A_Â");
    reveal_strlit("E_Ê");
    reveal_strlit("O_Ô");
    reveal_strlit("UOA_ƯƠĂ");
    reveal_strlit("D_Đ");
    assert("XoaDauThanh"@.len() == 11 && "XoaDauThanh"@[0] == 'X');
    assert("DauSac"@.len() == 6 && "DauSac"@[0] == 'D' && "DauSac"@[3] == 'S');
    assert("DauHuyen"@.len() == 8 && "DauHuyen"@[0] == 'D');
    assert("DauHoi"@.len() == 6 && "DauHoi"@[0] == 'D' && "DauHoi"@[3] == 'H');
    assert("DauNga"@.len() == 6 && "DauNga"@[0] == 'D' && "DauNga"@[3] == 'N');
    assert("DauNang"@.len() == 7 && "DauNang"@[0] == 'D');
    assert("A_Â"@[0] == 'A' && "E_Ê"@[0] == 'E' && "O_Ô"@[0] == 'O' && "UOA_ƯƠĂ"@[0] == 'U');
    assert("D_Đ"@.len() == 3 && "D_Đ"@[0] == 'D');
    let v = telex_pairs();
    assert(tone_name_spec(v[0].1) == Some(Tone::NoTone));
    assert(tone_name_spec(v[1].1) == Some(Tone::Acute));
    assert(tone_name_spec(v[2].1) == Some(Tone::Grave));
    assert(tone_name_spec(v[3].1) == Some(Tone::Hook));
    assert(tone_name_spec(v[4].1) == Some(Tone::Tilde));
    assert(tone_name_spec(v[5].1) == Some(Tone::Dot));
    assert(tone_name_spec(v[6].1) is None);
    assert(tone_name_spec(v[7].1) is None);
    assert(tone_name_spec(v[8].1) is None);
    assert(tone_name_spec(v[9].1) is None);
    assert(tone_name_spec(v[10].1) is None);
    assert forall|t: Tone| #![trigger telex_tone_key(t)] exists|j: int| 0 <= j < telex_pairs().len()
        && (#[trigger] telex_pairs()[j]).0.len() > 0
        && tone_name_spec(telex_pairs()[j].1) == Some(t) && telex_pairs()[j].0[0] == telex_tone_key(t) by {
        let j: int = match t {
            Tone::NoTone => 0,
            Tone::Acute => 1,
            Tone::Grave => 2,
            Tone::Hook => 3,
            Tone::Tilde => 4,
            Tone::Dot => 5,
        };
        assert(v[j].0.len() > 0);
    }
}

/// Telex as the built-in definitions give it.
pub open spec fn builtin_telex() -> InputMethodV {
    parse_input_method_spec(builtin_defs(), "Telex"@)
}

proof fn lemma_telex_has_tone_rules(t: Tone)
    ensures
        exists|i: int| 0 <= i < builtin_telex().rules.len()
            && (#[trigger] builtin_telex().rules[i]).head.effect_type == EffectType::ToneTransformation
            && builtin_telex().rules[i].head.key == telex_tone_key(t)
            && builtin_telex().rules[i].head.effect == tone_num(t),
{
    let d = builtin_defs();
    assert(find_def(d, "Telex"@, 0) == 0);
    let v = telex_pairs();
    assert(builtin_telex().rules == def_rules(v));
    lemma_telex_lines();
    assert(telex_tone_key(t) == telex_tone_key(t));
    let j = choose|j: int| 0 <= j < v.len() && (#[trigger] v[j]).0.len() > 0
        && tone_name_spec(v[j].1) == Some(t) && v[j].0[0] == telex_tone_key(t);
    lemma_def_rules_has_tone(v, j, t);
    let i = choose|i: int| 0 <= i < def_rules(v).len()
        && (#[trigger] def_rules(v)[i]).head.effect_type == EffectType::ToneTransformation
        && def_rules(v)[i].head.key == v[j].0[0]
        && def_rules(v)[i].head.effect == tone_num(t);
    assert(builtin_telex().rules[i] == def_rules(v)[i]);
}

/// Telex binds each tone to its letter key (see `telex_tone_key`): every tone rule of the
/// built-in Telex is on the key of its tone, and every tone has a rule on its key; so "ngoaif"
/// gets huyền and "ar" gives "ả".
pub proof fn lemma_telex_tone_keys()
    ensures
        forall|i: int| 0 <= i < builtin_telex().rules.len()
            && (#[trigger] builtin_telex().rules[i]).head.effect_type == EffectType::ToneTransformation
            ==> builtin_telex().rules[i].head.key == telex_tone_key(tone_of(builtin_telex().rules[i].head.effect)),
        forall|t: Tone| #![trigger tone_num(t)] exists|i: int| 0 <= i < builtin_telex().rules.len()
            && (#[trigger] builtin_telex().rules[i]).head.effect_type == EffectType::ToneTransformation
            && builtin_telex().rules[i].head.key == telex_tone_key(t)
            && builtin_telex().rules[i].head.effect == tone_num(t),
{
    let d = builtin_defs();
    assert(find_def(d, "Telex"@, 0) == 0);
    assert(builtin_telex().rules == def_rules(telex_pairs()));
    lemma_telex_lines();
    lemma_def_rules_tone_origin(telex_pairs());
    assert forall|t: Tone| #![trigger tone_num(t)] exists|i: int| 0 <= i < builtin_telex().rules.len()
        && (#[trigger] builtin_telex().rules[i]).head.effect_type == EffectType::ToneTransformation
        && builtin_telex().rules[i].head.key == telex_tone_key(t)
        && builtin_telex().rules[i].head.effect == tone_num(t) by {
        lemma_telex_has_tone_rules(t);
    }
}

} // verus!
