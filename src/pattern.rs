//! Compiled patterns, held together with the text they were compiled from.
use vstd::prelude::*;
use vstd::string::StringSliceAdditionalSpecFns;

verus! {

#[verifier::external_type_specification]
#[verifier::external_body]
pub struct ExRegex(regex::Regex);

#[verifier::external_type_specification]
#[verifier::external_body]
pub struct ExRegexError(regex::Error);

/// Whether the regex engine accepts `source` as a pattern.
pub uninterp spec fn regex_accepts(source: Seq<char>) -> bool;

/// The byte ranges of the successive non-overlapping matches of the pattern
/// `source` in `haystack`.
pub uninterp spec fn match_ranges(source: Seq<char>, haystack: Seq<char>) -> Seq<(usize, usize)>;

/// Whether the pattern `source` matches somewhere in `haystack`.
pub uninterp spec fn pattern_matches(source: Seq<char>, haystack: Seq<char>) -> bool;

/// The ranges are in bounds, each one ordered, and each one ends at or before
/// the start of the next.
pub open spec fn ranges_ordered(ranges: Seq<(usize, usize)>, len: int) -> bool {
    &&& forall|i: int| 0 <= i < ranges.len() ==> (#[trigger] ranges[i]).0 <= ranges[i].1 <= len
    &&& forall|i: int| 0 <= i < ranges.len() - 1 ==> (#[trigger] ranges[i]).1 <= ranges[i + 1].0
}

/// A compiled regular expression and the text it was compiled from.
///
/// A `Pattern` is only built by compiling its `source`, so every query on the
/// compiled form is a query on that text.
pub struct Pattern {
    source: String,
    compiled: regex::Regex,
}

/// Why a pattern could not be compiled.
pub struct PatternError {
    pub reason: String,
}

/// Relies on `regex::Regex::new`: it succeeds exactly on the patterns that the
/// engine accepts.
#[verifier::external_body]
fn regex_new(source: &str) -> (r: Result<regex::Regex, regex::Error>)
    ensures
        r is Ok <==> regex_accepts(source@),
{
    regex::Regex::new(source)
}

/// Relies on `regex::Error`'s `Display`: the human-readable reason.
#[verifier::external_body]
fn regex_error_text(e: &regex::Error) -> (r: String) {
    e.to_string()
}

/// Relies on `regex::Regex::find_iter`, `Match::start` and `Match::end`: the
/// successive non-overlapping matches, as byte offsets into the haystack with
/// `start <= end`. A `Pattern` is only built by `Pattern::new`, which compiles
/// its `source` into `compiled`.
#[verifier::external_body]
fn regex_find_ranges(p: &Pattern, haystack: &str) -> (r: Vec<(usize, usize)>)
    ensures
        r@ == match_ranges(p.source_view(), haystack@),
        ranges_ordered(r@, haystack.spec_bytes().len() as int),
{
    p.compiled.find_iter(haystack).map(|m| (m.start(), m.end())).collect()
}

/// Relies on `regex::Regex::is_match`: whether the pattern matches anywhere in
/// the haystack. A `Pattern` is only built by `Pattern::new`, which compiles
/// its `source` into `compiled`.
#[verifier::external_body]
fn regex_is_match(p: &Pattern, haystack: &str) -> (r: bool)
    ensures
        r == pattern_matches(p.source_view(), haystack@),
{
    p.compiled.is_match(haystack)
}

impl Pattern {
    /// The text the pattern was compiled from.
    pub closed spec fn source_view(&self) -> Seq<char> {
        self.source@
    }

    /// Compiles `source`; fails exactly when the regex engine rejects it.
    pub fn new(source: &str) -> (r: Result<Pattern, PatternError>)
        ensures
            r is Ok <==> regex_accepts(source@),
            r matches Ok(p) ==> p.source_view() == source@,
    {
        match regex_new(source) {
            Ok(compiled) => Ok(Pattern { source: source.to_owned(), compiled }),
            Err(e) => Err(PatternError { reason: regex_error_text(&e) }),
        }
    }

    /// The text the pattern was compiled from.
    pub fn source(&self) -> (r: &str)
        ensures
            r@ == self.source_view(),
    {
        self.source.as_str()
    }

    /// The byte ranges of the successive non-overlapping matches in `line`.
    pub fn find_ranges(&self, line: &str) -> (r: Vec<(usize, usize)>)
        ensures
            r@ == match_ranges(self.source_view(), line@),
            ranges_ordered(r@, line.spec_bytes().len() as int),
    {
        regex_find_ranges(self, line)
    }

    /// Whether the pattern matches somewhere in `text`.
    pub fn is_match(&self, text: &str) -> (r: bool)
        ensures
            r == pattern_matches(self.source_view(), text@),
    {
        regex_is_match(self, text)
    }
}

} // verus!
