//! Searching text with a regular expression.

use vstd::prelude::*;

verus! {

/// Whether a regular expression of `regex_lite`, compiled from `pattern`, matches
/// anywhere in `haystack`; `None` where `pattern` does not compile.
pub uninterp spec fn regex_search(pattern: Seq<char>, haystack: Seq<char>) -> Option<bool>;

/// `regex_lite::Regex::new` followed by `Regex::is_match`: compiles `pattern` and looks
/// for a match anywhere in `haystack`. The outcome is named.
#[verifier::external_body]
fn search(pattern: &str, haystack: &str) -> (r: Option<bool>)
    ensures
        r == regex_search(pattern@, haystack@),
{
    regex_lite::Regex::new(pattern).ok().map(|re| re.is_match(haystack))
}

/// `pattern` compiles, and matches somewhere in `haystack`.
pub open spec fn pattern_found(pattern: Seq<char>, haystack: Seq<char>) -> bool {
    regex_search(pattern, haystack) == Some(true)
}

/// Tells whether `pattern` matches somewhere in `haystack`; it does not if it does not
/// compile.
pub fn is_match(pattern: &str, haystack: &str) -> (r: bool)
    ensures
        r == pattern_found(pattern@, haystack@),
{
    match search(pattern, haystack) {
        Some(found) => found,
        None => false,
    }
}

} // verus!
