//! Filters given as regular expressions.

use vstd::prelude::*;
use regex::Regex;

verus! {

/// A compiled regular expression of the `regex` crate.
#[verifier::external_type_specification]
#[verifier::external_body]
pub struct ExRegex(Regex);

/// Whether a regular expression matches somewhere in a text.
pub uninterp spec fn regex_found(re: &Regex, haystack: Seq<char>) -> bool;

/// `Regex::is_match`: whether the expression matches somewhere in the text.
/// Nothing is proved of it; its answer is known by the name `regex_found`
/// alone.
#[verifier::external_body]
pub(crate) fn is_match(re: &Regex, haystack: &str) -> (r: bool)
    ensures
        r == regex_found(re, haystack@),
{
    re.is_match(haystack)
}

} // verus!
