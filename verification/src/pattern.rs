//! Regular expressions.
use regex_automata::dfa::dense::BuildError;
use regex_automata::dfa::regex::Regex;
use vstd::prelude::*;

use crate::text::cuts;

verus! {

/// The error of the `regex-automata` crate for a pattern that it cannot compile.
#[verifier::external_type_specification]
#[verifier::external_body]
pub struct ExBuildError(BuildError);

/// What `regex_automata::dfa::regex::Regex` finds of `pattern`, compiled under
/// the crate's default configuration, in `haystack`: `None` if the pattern does
/// not compile, else the byte offsets at which the leftmost match starts and
/// ends, if there is a match.
pub uninterp spec fn regex_find(pattern: Seq<char>, haystack: Seq<char>) -> Option<
    Option<(usize, usize)>,
>;

/// `regex_automata::dfa::regex::Regex::find`, on the regular expression that
/// `Regex::new_sparse` compiles from `pattern`. The result is a function of the
/// two texts, named [`regex_find`]. The crate's default configuration is its
/// UTF-8 mode, in which both ends of a match lie in the haystack and never
/// inside of a character; it sets no quit bytes and the search is unanchored,
/// so that the search does not panic.
#[verifier::external_body]
fn leftmost_match(pattern: &str, haystack: &str) -> (found: Result<
    Option<(usize, usize)>,
    BuildError,
>)
    ensures
        found is Ok <==> regex_find(pattern@, haystack@) is Some,
        found matches Ok(m) ==> regex_find(pattern@, haystack@) == Some(m),
        found matches Ok(Some(span)) ==> span.0 <= span.1 && cuts(haystack@, span.0 as int) && cuts(
            haystack@,
            span.1 as int,
        ),
{
    let regex = Regex::new_sparse(pattern)?;
    Ok(regex.find(haystack).map(|m| (m.start(), m.end())))
}

/// The text is no regular expression that can be compiled.
#[derive(Clone, Copy, Debug, PartialEq, Eq, Structural)]
pub struct BadPattern;

/// The byte offsets of the leftmost match of `pattern` in `haystack`.
pub fn find(pattern: &str, haystack: &str) -> (found: Result<Option<(usize, usize)>, BadPattern>)
    ensures
        found == match regex_find(pattern@, haystack@) {
            Some(m) => Ok(m),
            None => Err(BadPattern),
        },
        found matches Ok(Some(span)) ==> span.0 <= span.1 && cuts(haystack@, span.0 as int) && cuts(
            haystack@,
            span.1 as int,
        ),
{
    match leftmost_match(pattern, haystack) {
        Ok(m) => Ok(m),
        Err(_) => Err(BadPattern),
    }
}

} // verus!
