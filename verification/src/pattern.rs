//! Regular expressions, which the `regex` crate matches.

use crate::text;
use vstd::prelude::*;

verus! {

/// What the first group of a pattern captures in a text, at each of its matches
/// from left to right; nothing where the pattern is not a regular expression.
pub uninterp spec fn captured(pattern: Seq<char>, text: Seq<char>) -> Option<Seq<Seq<char>>>;

/// An optional list of strings as sequences.
pub open spec fn list_view(r: Option<Vec<String>>) -> Option<Seq<Seq<char>>> {
    match r {
        Some(v) => Some(text::views(v@)),
        None => None,
    }
}

/// `regex::Regex::captures_iter` goes over the matches of a pattern in a text that
/// do not overlap, and gives the text of the first group of each, or the empty
/// text where the group has no part in the match.
#[verifier::external_body]
pub(crate) fn captures(pattern: &str, text: &str) -> (r: Option<Vec<String>>)
    ensures
        list_view(r) == captured(pattern@, text@),
{
    let re = regex::Regex::new(pattern).ok()?;
    let first = |c: regex::Captures| c.get(1).map_or(String::new(), |m| m.as_str().to_owned());
    Some(re.captures_iter(text).map(first).collect())
}

/// `regex::Regex::is_match` tells whether a pattern matches anywhere in a text:
/// whether `captures_iter` gives anything.
#[verifier::external_body]
pub(crate) fn is_match(pattern: &str, text: &str) -> (r: Option<bool>)
    ensures
        r is Some == captured(pattern@, text@) is Some,
        r matches Some(b) ==> b == (captured(pattern@, text@)->0.len() > 0),
{
    let re = regex::Regex::new(pattern).ok()?;
    Some(re.is_match(text))
}

} // verus!
