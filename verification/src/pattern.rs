use vstd::prelude::*;

verus! {

/// Whether `text` matches the regular expression `pattern`. The match result
/// of a fixed pattern on a fixed text is a function of the two strings alone.
pub uninterp spec fn regex_match(pattern: Seq<char>, text: Seq<char>) -> bool;

/// Whether `pattern` is a well-formed regular expression.
pub uninterp spec fn pattern_valid(pattern: Seq<char>) -> bool;

/// Relies on regex::Regex::new and regex::Regex::is_match: compilation
/// succeeds exactly on well-formed patterns, and whether a haystack matches
/// depends on the pattern and the haystack alone.
#[verifier::external_body]
pub(crate) fn regex_is_match(pattern: &str, text: &str) -> (r: Option<bool>)
    ensures
        (r is Some) == pattern_valid(pattern@),
        r matches Some(b) ==> b == regex_match(pattern@, text@),
{
    match regex::Regex::new(pattern) {
        Ok(re) => Some(re.is_match(text)),
        Err(_) => None,
    }
}

} // verus!
