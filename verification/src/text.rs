//! The boundary to string comparison and regular-expression matching.
//! Nothing in this module is proved: each function states what the called
//! code is trusted to do.

use vstd::prelude::*;

verus! {

/// The groups of one match: the whole match first, then one entry for each
/// capture group of the pattern, `None` where the group took no part.
pub type GroupsModel = Seq<Option<Seq<char>>>;

/// Whether `regex::Regex::new` accepts `pattern`.
pub uninterp spec fn regex_compiles(pattern: Seq<char>) -> bool;

/// The successive non-overlapping matches that `regex::Regex::captures_iter`
/// yields for `pattern` on `haystack`, each with its groups.
pub uninterp spec fn regex_captures(pattern: Seq<char>, haystack: Seq<char>) -> Seq<GroupsModel>;

/// `regex::Error`: why a pattern was not accepted. Nothing is said of what
/// it holds.
#[verifier::external_type_specification]
#[verifier::external_body]
pub struct ExRegexError(regex::Error);

/// `str`'s `==`: two string slices are equal when they hold the same
/// characters.
#[verifier::external_body]
pub(crate) fn str_eq(a: &str, b: &str) -> (r: bool)
    ensures
        r == (a@ == b@),
{
    a == b
}

/// Compiles `pattern` with `regex::Regex::new` and collects what
/// `regex::Regex::captures_iter` yields on `haystack`. The compilation
/// error is handed back as it came; a compiled pattern gives every match
/// in order of occurrence, each as the list of its groups.
#[verifier::external_body]
pub(crate) fn captures_iter(pattern: &str, haystack: &str) -> (r: Result<
    Vec<Vec<Option<String>>>,
    regex::Error,
>)
    ensures
        r is Ok <==> regex_compiles(pattern@),
        r is Ok ==> r->Ok_0.deep_view() == regex_captures(pattern@, haystack@),
{
    let re = regex::Regex::new(pattern)?;
    Ok(
        re.captures_iter(haystack).map(
            |c| c.iter().map(|g| g.map(|m| m.as_str().to_string())).collect(),
        ).collect(),
    )
}

} // verus!
