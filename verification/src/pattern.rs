//! Regular expressions, matched by the `regex` crate. A pattern is handed
//! over as text with each question, so what the crate answers is a function
//! of two texts, and the contracts name it as such.

use vstd::prelude::*;

verus! {

/// The error that `regex::Regex::new` gives for a pattern it refuses.
#[verifier::external_type_specification]
#[verifier::external_body]
pub struct ExRegexError(regex::Error);

/// Whether `regex::Regex::new` accepts `pattern`.
pub uninterp spec fn regex_compiles(pattern: Seq<char>) -> bool;

/// Whether the expression compiled from `pattern` matches anywhere in
/// `haystack`, as `regex::Regex::is_match` tells it.
pub uninterp spec fn regex_is_match(pattern: Seq<char>, haystack: Seq<char>) -> bool;

/// The groups of the leftmost match of the expression compiled from
/// `pattern` in `haystack`, as `regex::Regex::captures` gives them: nothing
/// where there is no match, else the text of each group, the whole match
/// first, with nothing for a group that took no part.
pub uninterp spec fn regex_captures(pattern: Seq<char>, haystack: Seq<char>) -> Option<
    Seq<Option<Seq<char>>>,
>;

/// The texts of a list of groups.
pub open spec fn groups_view(groups: Seq<Option<String>>) -> Seq<Option<Seq<char>>> {
    groups.map_values(
        |g: Option<String>|
            match g {
                Some(s) => Some(s@),
                None => None,
            },
    )
}

/// The texts of the groups of a match, if there was one.
pub open spec fn captures_view(found: Option<Vec<Option<String>>>) -> Option<
    Seq<Option<Seq<char>>>,
> {
    match found {
        Some(groups) => Some(groups_view(groups@)),
        None => None,
    }
}

/// A pattern is accepted and matches somewhere in the text.
pub open spec fn matching(pattern: Seq<char>, haystack: Seq<char>) -> bool {
    regex_compiles(pattern) && regex_is_match(pattern, haystack)
}

/// The groups of the leftmost match of an accepted pattern.
pub open spec fn captures(pattern: Seq<char>, haystack: Seq<char>) -> Option<
    Seq<Option<Seq<char>>>,
> {
    if regex_compiles(pattern) {
        regex_captures(pattern, haystack)
    } else {
        None
    }
}

/// Calls `regex::Regex::new` on `pattern` and `regex::Regex::is_match` on
/// `haystack`. Believed, not proved: it fails exactly when the crate refuses
/// the pattern, and otherwise answers what `is_match` answers, which depends
/// on the two texts alone.
#[verifier::external_body]
fn regex_match(pattern: &str, haystack: &str) -> (r: Result<bool, regex::Error>)
    ensures
        r is Ok <==> regex_compiles(pattern@),
        r matches Ok(found) ==> found == regex_is_match(pattern@, haystack@),
{
    regex::Regex::new(pattern).map(|re| re.is_match(haystack))
}

/// Calls `regex::Regex::new` on `pattern` and `regex::Regex::captures` on
/// `haystack`, and copies the text of each group. Believed, not proved: it
/// fails exactly when the crate refuses the pattern, and otherwise gives
/// what `captures` gives, which depends on the two texts alone.
#[verifier::external_body]
fn regex_groups(pattern: &str, haystack: &str) -> (r: Result<
    Option<Vec<Option<String>>>,
    regex::Error,
>)
    ensures
        r is Ok <==> regex_compiles(pattern@),
        r matches Ok(found) ==> captures_view(found) == regex_captures(pattern@, haystack@),
{
    regex::Regex::new(pattern).map(
        |re|
            re.captures(haystack).map(
                |c| c.iter().map(|g| g.map(|m| m.as_str().to_string())).collect(),
            ),
    )
}

/// Whether `pattern` is an accepted expression that matches somewhere in
/// `haystack`.
pub fn is_match(pattern: &str, haystack: &str) -> (r: bool)
    ensures
        r == matching(pattern@, haystack@),
{
    match regex_match(pattern, haystack) {
        Ok(found) => found,
        Err(_) => false,
    }
}

/// The groups of the leftmost match of `pattern` in `haystack`; nothing
/// where the pattern is refused or does not match.
pub fn find_groups(pattern: &str, haystack: &str) -> (r: Option<Vec<Option<String>>>)
    ensures
        captures_view(r) == captures(pattern@, haystack@),
{
    match regex_groups(pattern, haystack) {
        Ok(found) => found,
        Err(_) => None,
    }
}

} // verus!
