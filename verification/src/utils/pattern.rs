//! Regular-expression search through the `regex` crate.
use vstd::prelude::*;

verus! {

#[verifier::external_type_specification]
#[verifier::external_body]
pub struct ExRegex(regex::Regex);

#[verifier::external_type_specification]
#[verifier::external_body]
pub struct ExRegexError(regex::Error);

/// Whether `regex::Regex::new` accepts `pattern` (it depends on the pattern
/// alone: its syntax and the default size limit).
pub uninterp spec fn regex_compiles(pattern: Seq<char>) -> bool;

/// The text of the leftmost-first match that `regex::Regex::find` reports
/// for `pattern` in `haystack`, if any.
pub uninterp spec fn regex_first_match(pattern: Seq<char>, haystack: Seq<char>) -> Option<
    Seq<char>,
>;

/// A compiled regular expression together with the pattern it came from.
pub struct CompiledPattern {
    pattern: String,
    re: regex::Regex,
}

impl View for CompiledPattern {
    type V = Seq<char>;

    closed spec fn view(&self) -> Seq<char> {
        self.pattern@
    }
}

/// Calls `regex::Regex::new(pattern)`. Claimed: it succeeds exactly when
/// `regex_compiles(pattern)`, and the result searches for `pattern`.
#[verifier::external_body]
pub(crate) fn compile_pattern(pattern: &str) -> (r: Result<CompiledPattern, regex::Error>)
    ensures
        r is Ok == regex_compiles(pattern@),
        r matches Ok(c) ==> c@ == pattern@,
{
    match regex::Regex::new(pattern) {
        Ok(re) => Ok(CompiledPattern { pattern: pattern.to_string(), re }),
        Err(e) => Err(e),
    }
}

/// Calls `regex::Regex::find` and takes the matched text (`Match::as_str`).
/// Claimed: the result is `regex_first_match` of the pattern and haystack.
#[verifier::external_body]
pub(crate) fn first_match(re: &CompiledPattern, haystack: &str) -> (r: Option<String>)
    ensures
        r.deep_view() == regex_first_match(re@, haystack@),
{
    match re.re.find(haystack) {
        Some(m) => Some(m.as_str().to_string()),
        None => None,
    }
}

} // verus!
