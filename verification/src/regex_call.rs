//! Pattern matching through the `regex` crate.
use vstd::prelude::*;

verus! {

/// Whether the text matches the pattern as `regex::Regex` finds a match anywhere in it (a
/// pattern that does not compile matches nothing).
pub uninterp spec fn regex_matches(pattern: Seq<char>, text: Seq<char>) -> bool;

/// Compiles `pattern` with `regex::Regex::new` and calls `Regex::is_match` on `text`; a pattern
/// that fails to compile gives `false`. The result is named `regex_matches`.
#[verifier::external_body]
pub(crate) fn regex_is_match(pattern: &str, text: &str) -> (r: bool)
    ensures
        r == regex_matches(pattern@, text@),
{
    match regex::Regex::new(pattern) {
        Ok(re) => re.is_match(text),
        Err(_) => false,
    }
}

} // verus!
