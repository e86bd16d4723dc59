use vstd::prelude::*;

use crate::scanner::{matches_view, ErrorMatch, ERROR_PATTERN};

verus! {

#[verifier::external_type_specification]
#[verifier::external_body]
pub struct ExRegex(regex::Regex);

#[verifier::external_type_specification]
#[verifier::external_body]
pub struct ExRegexError(regex::Error);

/// Whether the `regex` crate compiles `pattern`.
pub uninterp spec fn regex_compiles(pattern: Seq<char>) -> bool;

/// The successive non-overlapping matches of `pattern` in `haystack`, as the
/// `regex` crate finds them: for each, the whole matched text, and the text
/// of groups 1 and 3 where they took part.
pub uninterp spec fn regex_matches(pattern: Seq<char>, haystack: Seq<char>) -> Seq<
    (Seq<char>, Option<Seq<char>>, Option<Seq<char>>),
>;

/// A regex together with the pattern it was compiled from. Its fields are
/// private, and only `compile_pattern` builds one.
pub struct CompiledPattern {
    re: regex::Regex,
    source: Ghost<Seq<char>>,
}

impl CompiledPattern {
    /// The pattern this regex was compiled from.
    pub closed spec fn source(&self) -> Seq<char> {
        self.source@
    }
}

/// Compiles `pattern` with `regex::Regex::new`, which succeeds or fails
/// according to the pattern alone, and keeps the pattern beside the regex.
/// Claimed: the outcome is the same for equal patterns, and a compiled
/// regex records the pattern it came from; nothing is claimed of which
/// patterns compile.
#[verifier::external_body]
pub(crate) fn compile_pattern(pattern: &str) -> (r: Result<CompiledPattern, regex::Error>)
    ensures
        r is Ok <==> regex_compiles(pattern@),
        r matches Ok(c) ==> c.source() == pattern@,
{
    match regex::Regex::new(pattern) {
        Ok(re) => Ok(CompiledPattern { re, source: Ghost(pattern@) }),
        Err(e) => Err(e),
    }
}

/// Runs `regex::Regex::captures_iter` over `haystack` and copies out, for each
/// match, group 0 and groups 1 and 3. Claimed: the matches are a function of
/// the pattern and the haystack, named `regex_matches`; and, as a match of
/// `ERROR_PATTERN` is text that the pattern's leading `\[` matched, each of its
/// matched texts starts with `[`.
#[verifier::external_body]
pub(crate) fn find_matches(c: &CompiledPattern, haystack: &str) -> (found: Vec<ErrorMatch>)
    ensures
        matches_view(found@) == regex_matches(c.source(), haystack@),
        c.source() == ERROR_PATTERN@ ==> forall|i: int|
            0 <= i < found@.len() ==> #[trigger] found@[i].text@.len() > 0
                && found@[i].text@[0] == '[',
{
    c.re.captures_iter(haystack).map(
        |m| ErrorMatch {
            text: m[0].to_string(),
            stamp: m.get(1).map(|g| g.as_str().to_string()),
            label: m.get(3).map(|g| g.as_str().to_string()),
        },
    ).collect()
}

} // verus!
