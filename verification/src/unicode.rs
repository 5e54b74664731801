//! Character classification and case mapping from the standard library, and conversions
//! between `str` and sequences of chars.
use vstd::prelude::*;

verus! {

/// The chars that `char::to_lowercase` yields for `c`.
pub uninterp spec fn lowercase_of(c: char) -> Seq<char>;

/// The chars that `char::to_uppercase` yields for `c`.
pub uninterp spec fn uppercase_of(c: char) -> Seq<char>;

/// `char::is_uppercase`.
pub uninterp spec fn is_uppercase_char(c: char) -> bool;

/// `char::is_lowercase`.
pub uninterp spec fn is_lowercase_char(c: char) -> bool;


/// `char::is_alphanumeric`.
pub uninterp spec fn is_alphanumeric_char(c: char) -> bool;

/// `char::is_whitespace`.
pub uninterp spec fn is_whitespace_char(c: char) -> bool;

/// `str::to_lowercase` on a whole string.
pub uninterp spec fn str_lowercase_of(s: Seq<char>) -> Seq<char>;

/// `str::to_uppercase` on a whole string.
pub uninterp spec fn str_uppercase_of(s: Seq<char>) -> Seq<char>;

/// Calls `char::to_lowercase` and collects what it yields; the result is named `lowercase_of`.
#[verifier::external_body]
pub(crate) fn lowercase_chars(c: char) -> (r: Vec<char>)
    ensures
        r@ == lowercase_of(c),
{
    c.to_lowercase().collect()
}

/// Calls `char::to_uppercase` and collects what it yields; the result is named `uppercase_of`.
#[verifier::external_body]
fn uppercase_chars(c: char) -> (r: Vec<char>)
    ensures
        r@ == uppercase_of(c),
{
    c.to_uppercase().collect()
}

/// Calls `char::is_uppercase`.
#[verifier::external_body]
pub(crate) fn char_is_uppercase(c: char) -> (r: bool)
    ensures
        r == is_uppercase_char(c),
{
    c.is_uppercase()
}

/// Calls `char::is_lowercase`.
#[verifier::external_body]
pub(crate) fn char_is_lowercase(c: char) -> (r: bool)
    ensures
        r == is_lowercase_char(c),
{
    c.is_lowercase()
}

/// Calls `char::is_alphanumeric`.
#[verifier::external_body]
pub(crate) fn char_is_alphanumeric(c: char) -> (r: bool)
    ensures
        r == is_alphanumeric_char(c),
{
    c.is_alphanumeric()
}

/// Calls `char::is_whitespace`.
#[verifier::external_body]
pub(crate) fn char_is_whitespace(c: char) -> (r: bool)
    ensures
        r == is_whitespace_char(c),
{
    c.is_whitespace()
}

/// Calls `str::to_lowercase` and collects the chars of the result.
#[verifier::external_body]
pub(crate) fn str_to_lowercase(s: &[char]) -> (r: Vec<char>)
    ensures
        r@ == str_lowercase_of(s@),
{
    let t: String = s.iter().collect();
    t.to_lowercase().chars().collect()
}

/// Calls `str::to_uppercase` and collects the chars of the result.
#[verifier::external_body]
pub(crate) fn str_to_uppercase(s: &[char]) -> (r: Vec<char>)
    ensures
        r@ == str_uppercase_of(s@),
{
    let t: String = s.iter().collect();
    t.to_uppercase().chars().collect()
}

/// The chars of a `str`, in order (`str::chars` collected).
#[verifier::external_body]
pub(crate) fn str_chars(s: &str) -> (r: Vec<char>)
    ensures
        r@ == s@,
{
    s.chars().collect()
}

/// A `String` holding exactly the given chars (`String::from_iter`).
#[verifier::external_body]
pub(crate) fn string_from_chars(v: &[char]) -> (r: String)
    ensures
        r@ == v@,
{
    v.iter().collect()
}

/// The single-char lowercase of `c`: the lowercase mapping when it is one char, else `c`.
pub open spec fn lowercase_single(c: char) -> char {
    if lowercase_of(c).len() == 1 {
        lowercase_of(c)[0]
    } else {
        c
    }
}

/// The single-char uppercase of `c`: the uppercase mapping when it is one char, else `c`.
pub open spec fn uppercase_single(c: char) -> char {
    if uppercase_of(c).len() == 1 {
        uppercase_of(c)[0]
    } else {
        c
    }
}

/// Lowercase of one char, kept as `c` when the mapping is not a single char.
pub fn to_lower(c: char) -> (r: char)
    ensures
        r == lowercase_single(c),
{
    let v = lowercase_chars(c);
    if v.len() == 1 {
        v[0]
    } else {
        c
    }
}

/// Uppercase of one char, kept as `c` when the mapping is not a single char.
pub fn to_upper(c: char) -> (r: char)
    ensures
        r == uppercase_single(c),
{
    let v = uppercase_chars(c);
    if v.len() == 1 {
        v[0]
    } else {
        c
    }
}

/// Whether `c` is an uppercase letter.
pub fn is_upper(c: char) -> (r: bool)
    ensures
        r == is_uppercase_char(c),
{
    char_is_uppercase(c)
}

/// ASCII lowercase of one char: 'A'..='Z' map to 'a'..='z', everything else stays.
pub open spec fn ascii_lower(c: char) -> char {
    if 'A' <= c <= 'Z' {
        ((c as u32) + 32) as char
    } else {
        c
    }
}

pub open spec fn ascii_lower_seq(s: Seq<char>) -> Seq<char> {
    s.map_values(|c: char| ascii_lower(c))
}

pub fn ascii_lower_char(c: char) -> (r: char)
    ensures
        r == ascii_lower(c),
{
    if 'A' <= c && c <= 'Z' {
        let v = (c as u32) + 32;
        assert(v < 0xD800);
        char_from_small(v)
    } else {
        c
    }
}

/// The char with code `v`, for codes below the surrogate range.
pub fn char_from_small(v: u32) -> (c: char)
    requires
        v < 0xD800,
    ensures
        c == v as char,
        c as u32 == v,
{
    let c = v as u8 as char;
    if v < 256 {
        proof { assert(c as u32 == v); }
        return c;
    }
    char_from_u32_small(v)
}

#[verifier::external_body]
fn char_from_u32_small(v: u32) -> (c: char)
    requires
        v < 0xD800,
    ensures
        c == v as char,
        c as u32 == v,
{
    char::from_u32(v).unwrap()
}

/// ASCII lowercase of a sequence of chars.
pub fn to_ascii_lowercase(s: &[char]) -> (r: Vec<char>)
    ensures
        r@ == ascii_lower_seq(s@),
{
    let mut r: Vec<char> = Vec::new();
    for i in 0..s.len()
        invariant
            r@ == ascii_lower_seq(s@.take(i as int)),
    {
        r.push(ascii_lower_char(s[i]));
        assert(ascii_lower_seq(s@.take(i + 1)) =~= ascii_lower_seq(s@.take(i as int)).push(ascii_lower(s@[i as int])));
    }
    assert(s@.take(s@.len() as int) =~= s@);
    r
}

} // verus!
