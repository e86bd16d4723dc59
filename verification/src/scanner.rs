use vstd::prelude::*;

use crate::pattern::{compile_pattern, find_matches, regex_compiles, regex_matches, CompiledPattern};

verus! {

/// The pattern of a kernel log line that reports a hardware error: a
/// bracketed timestamp (group 1), any text (group 2), and the name of the
/// error (group 3). After the bracket come any number of the spaces by
/// which the kernel pads the timestamp, then at most one other character
/// (such as a sign), then the digits.
pub const ERROR_PATTERN: &'static str = r"(\[ *.?[0-9]+\.[0-9]+\])(.*?)(SBE ERR|SError detected|CPU Memory Error|Machine Check Error|GPU L2|generated a mmu fault|SDHCI_INT_DATA_TIMEOUT|Timeout waiting for hardware interrupt|watchdog detected)";

/// The successive matches of `ERROR_PATTERN` in `haystack`: see
/// `regex_matches`.
pub open spec fn error_pattern_matches(haystack: Seq<char>) -> Seq<
    (Seq<char>, Option<Seq<char>>, Option<Seq<char>>),
> {
    regex_matches(ERROR_PATTERN@, haystack)
}

/// Why the scanner could not be built.
#[derive(Debug, Clone, Copy, PartialEq, Eq, Structural)]
pub enum ScannerError {
    /// The `regex` crate refused the error pattern.
    PatternRefused,
}

/// One match of the error pattern in a line of the kernel log.
pub struct ErrorMatch {
    /// The whole text that the pattern matched.
    pub text: String,
    /// The bracketed timestamp (group 1), where it took part in the match.
    pub stamp: Option<String>,
    /// The name of the error (group 3), where it took part in the match.
    pub label: Option<String>,
}

pub open spec fn option_view(o: Option<String>) -> Option<Seq<char>> {
    match o {
        Some(s) => Some(s@),
        None => None,
    }
}

impl View for ErrorMatch {
    type V = (Seq<char>, Option<Seq<char>>, Option<Seq<char>>);

    open spec fn view(&self) -> Self::V {
        (self.text@, option_view(self.stamp), option_view(self.label))
    }
}

pub open spec fn matches_view(v: Seq<ErrorMatch>) -> Seq<
    (Seq<char>, Option<Seq<char>>, Option<Seq<char>>),
> {
    v.map_values(|m: ErrorMatch| m@)
}

/// Finds the kernel log lines that report hardware errors.
pub struct ErrorScanner {
    pattern: CompiledPattern,
}

impl ErrorScanner {
    /// A scanner's regex is always compiled from `ERROR_PATTERN`.
    #[verifier::type_invariant]
    spec fn compiled_from_error_pattern(self) -> bool {
        self.pattern.source() == ERROR_PATTERN@
    }

    /// The pattern the scanner's regex was compiled from.
    pub closed spec fn source(&self) -> Seq<char> {
        self.pattern.source()
    }
}

impl ErrorScanner {
    /// Compiles the error pattern.
    pub fn new() -> (r: Result<ErrorScanner, ScannerError>)
        ensures
            r is Ok <==> regex_compiles(ERROR_PATTERN@),
            r matches Ok(s) ==> s.source() == ERROR_PATTERN@,
    {
        match compile_pattern(ERROR_PATTERN) {
            Ok(pattern) => Ok(ErrorScanner { pattern }),
            Err(_) => Err(ScannerError::PatternRefused),
        }
    }

    /// The matches of the error pattern in `line`, in order.
    pub fn scan(&self, line: &str) -> (found: Vec<ErrorMatch>)
        ensures
            matches_view(found@) == error_pattern_matches(line@),
            forall|i: int|
                0 <= i < found@.len() ==> #[trigger] found@[i].text@.len() > 0
                    && found@[i].text@[0] == '[',
    {
        proof {
            use_type_invariant(self);
        }
        find_matches(&self.pattern, line)
    }

    /// The texts that the error pattern matches in `line`, in order: what the
    /// log watcher passes on for each line of the kernel log.
    pub fn matched_texts(&self, line: &str) -> (texts: Vec<String>)
        ensures
            texts@.len() == error_pattern_matches(line@).len(),
            forall|i: int|
                0 <= i < texts@.len() ==> #[trigger] texts@[i]@ == error_pattern_matches(
                    line@,
                )[i].0,
            forall|i: int|
                0 <= i < texts@.len() ==> #[trigger] texts@[i]@.len() > 0 && texts@[i]@[0] == '[',
    {
        let found = self.scan(line);
        let mut texts: Vec<String> = Vec::new();
        let mut i: usize = 0;
        while i < found.len()
            invariant
                i <= found.len(),
                matches_view(found@) == error_pattern_matches(line@),
                texts@.len() == i,
                forall|k: int| 0 <= k < i ==> #[trigger] texts@[k]@ == found@[k].text@,
                forall|k: int|
                    0 <= k < found@.len() ==> #[trigger] found@[k].text@.len() > 0
                        && found@[k].text@[0] == '[',
            decreases found.len() - i,
        {
            texts.push(found[i].text.clone());
            i = i + 1;
        }
        assert forall|k: int| 0 <= k < texts@.len() implies #[trigger] texts@[k]@
            == error_pattern_matches(line@)[k].0 by {
            assert(matches_view(found@)[k] == found@[k]@);
        }
        texts
    }
}

} // verus!
