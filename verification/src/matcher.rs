//! The pattern search, which the `regex` crate does.

use vstd::prelude::*;

verus! {

/// The error with which the `regex` crate refuses a pattern.
#[verifier::external_type_specification]
#[verifier::external_body]
pub struct ExPatternError(regex::Error);

/// What the `regex` crate finds of `pattern` in `haystack`.
///
/// `None` where the crate refuses the pattern. Else the successive
/// non-overlapping matches, in the order in which they lie in `haystack`:
/// each match as the texts of its capture groups in the order of their
/// opening parentheses, with the whole match as group 0 and `None` for a
/// group that took no part in the match.
pub uninterp spec fn captures_of(pattern: Seq<char>, haystack: Seq<char>) -> Option<
    Seq<Seq<Option<Seq<char>>>>,
>;

/// Searches `haystack` for `pattern`.
///
/// Compiles the pattern with `regex::Regex::new`, walks the haystack with
/// `Regex::captures_iter`, and copies out of each `Captures` the text of every
/// group, as `Captures::iter` and `Match::as_str` give it. Trusted: that the
/// outcome is the one named `captures_of`, which is to say that it depends on
/// the two texts alone; an error comes back exactly where the crate refuses
/// the pattern.
#[verifier::external_body]
pub(crate) fn find_captures(pattern: &str, haystack: &str) -> (found: Result<
    Vec<Vec<Option<String>>>,
    regex::Error,
>)
    ensures
        found is Ok <==> captures_of(pattern@, haystack@) is Some,
        found matches Ok(matches) ==> captures_of(pattern@, haystack@) == Some(
            matches.deep_view(),
        ),
{
    let re = regex::Regex::new(pattern)?;
    Ok(
        re.captures_iter(haystack).map(
            |caps| caps.iter().map(|group| group.map(|m| m.as_str().to_string())).collect(),
        ).collect(),
    )
}

} // verus!
