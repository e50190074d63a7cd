use vstd::prelude::*;

verus! {

/// The error of `regex::Regex::new`.
#[verifier::external_type_specification]
#[verifier::external_body]
pub struct ExRegexError(regex::Error);

/// Whether `regex::Regex::new` accepts `pattern`.
pub uninterp spec fn regex_accepts(pattern: Seq<char>) -> bool;

/// The capture groups that `regex::Regex::captures` reports for the
/// first match of `pattern` in `haystack`, group 0 first; `None` where
/// there is no match, and `None` for a group that took no part.
pub uninterp spec fn regex_captures(pattern: Seq<char>, haystack: Seq<char>) -> Option<
    Seq<Option<Seq<char>>>,
>;

/// The texts of a list of optional strings.
pub open spec fn optional_texts(v: Seq<Option<String>>) -> Seq<Option<Seq<char>>> {
    v.map_values(
        |s: Option<String>|
            match s {
                Some(t) => Some(t@),
                None => None,
            },
    )
}

/// Compiles `pattern` with `regex::Regex::new` and asks
/// `regex::Regex::captures` for the groups of its first match in
/// `haystack`, each as an owned string. The contract claims that the
/// call fails on the patterns that `regex` refuses and on no others,
/// and that groups or their absence depend on the two arguments alone;
/// it claims nothing of what a pattern matches.
#[verifier::external_body]
pub(crate) fn capture_groups(pattern: &str, haystack: &str) -> (found: Result<
    Option<Vec<Option<String>>>,
    regex::Error,
>)
    ensures
        found is Ok <==> regex_accepts(pattern@),
        found matches Ok(groups) ==> match groups {
            Some(g) => regex_captures(pattern@, haystack@) == Some(optional_texts(g@)),
            None => regex_captures(pattern@, haystack@) is None,
        },
{
    match regex::Regex::new(pattern) {
        Ok(re) => Ok(
            re.captures(haystack).map(
                |c| c.iter().map(|g| g.map(|m| m.as_str().to_string())).collect(),
            ),
        ),
        Err(e) => Err(e),
    }
}

} // verus!
