//! Case-insensitive substring search, the test behind the search box.

use vstd::prelude::*;

verus! {

/// The lowercase form that `str::to_lowercase` gives to a text.
pub uninterp spec fn lowercase(text: Seq<char>) -> Seq<char>;

/// `needle` occurs in `haystack` as a run of consecutive characters. The
/// empty text occurs in every text.
pub open spec fn occurs_in(needle: Seq<char>, haystack: Seq<char>) -> bool {
    exists|start: int|
        0 <= start && start + needle.len() <= haystack.len() && #[trigger] haystack.subrange(
            start,
            start + needle.len(),
        ) == needle
}

/// `query`, once lowercased, occurs in the lowercased `text`.
pub open spec fn mentions(text: Seq<char>, query: Seq<char>) -> bool {
    occurs_in(lowercase(query), lowercase(text))
}

/// Calls `str::to_lowercase`. Trusted: the result is the lowercase form of
/// `text`, which depends on the characters of `text` alone.
#[verifier::external_body]
pub(crate) fn to_lowercase(text: &str) -> (lowered: String)
    ensures
        lowered@ == lowercase(text@),
{
    text.to_lowercase()
}

/// Calls `str::contains` with a string pattern. Trusted: the answer is
/// whether the pattern matches a sub-slice of `haystack`, that is whether
/// its characters occur there consecutively.
#[verifier::external_body]
pub(crate) fn contains_text(haystack: &str, needle: &str) -> (found: bool)
    ensures
        found == occurs_in(needle@, haystack@),
{
    haystack.contains(needle)
}

/// Whether `needle` occurs in `title` or in `description`, the three taken
/// as they stand: callers that want to ignore case lowercase them first.
pub fn occurs_in_either(title: &str, description: &str, needle: &str) -> (found: bool)
    ensures
        found == (occurs_in(needle@, title@) || occurs_in(needle@, description@)),
{
    contains_text(title, needle) || contains_text(description, needle)
}

} // verus!
