//! Regular expressions, by way of the `regex` crate.

use crate::text::optional_text;
use vstd::prelude::*;

verus! {

/// What capture group `group` holds in the leftmost match of the regular
/// expression `pattern` in `text`. `None` where `text` has no match, where
/// the group took no part in the match or does not exist, and where
/// `pattern` is not a regular expression the crate accepts.
pub uninterp spec fn regex_capture(pattern: Seq<char>, text: Seq<char>, group: nat) -> Option<
    Seq<char>,
>;

/// Trusted: `regex::Regex::new` on `pattern`, `Regex::captures` on `text`,
/// then `Captures::get(group)` and `Match::as_str`. The contract only names
/// the outcome as a function of the three arguments. A pattern that does not
/// compile gives `None`, as a text without a match does.
#[verifier::external_body]
pub(crate) fn capture(pattern: &str, text: &str, group: usize) -> (found: Option<String>)
    ensures
        optional_text(found) == regex_capture(pattern@, text@, group as nat),
{
    let re = regex::Regex::new(pattern).ok()?;
    re.captures(text)?.get(group).map(|m| m.as_str().to_string())
}

} // verus!
