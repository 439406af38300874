//! Search patterns, compiled and matched by the `regex` crate.

use vstd::prelude::*;
use crate::error::EdError;

verus! {

/// Declares `regex::Regex`, a compiled regular expression, as an opaque type.
#[verifier::external_type_specification]
#[verifier::external_body]
pub struct ExRegex(regex::Regex);

/// Declares `regex::Error`, the error of a pattern that does not compile, as
/// an opaque type.
#[verifier::external_type_specification]
#[verifier::external_body]
pub struct ExRegexError(regex::Error);

/// Whether `regex::Regex::new` accepts the pattern text.
pub uninterp spec fn pattern_compiles(pattern: Seq<char>) -> bool;

/// Whether the regex compiled from `pattern` matches somewhere in `line`.
pub uninterp spec fn pattern_matches(pattern: Seq<char>, line: Seq<char>) -> bool;

/// A compiled search pattern together with the text it was compiled from.
pub struct Pattern {
    re: regex::Regex,
    source: Ghost<Seq<char>>,
}

impl Pattern {
    /// The pattern text this was compiled from.
    pub closed spec fn source(&self) -> Seq<char> {
        self.source@
    }

    /// Whether the pattern matches somewhere in `line`.
    pub fn is_match(&self, line: &str) -> (r: bool)
        ensures
            r == pattern_matches(self.source(), line@),
    {
        regex_is_match(self, line)
    }
}

/// Relies on `regex::Regex::new`: it succeeds or fails on the pattern text
/// alone; the compiled regex is kept with that text.
#[verifier::external_body]
fn regex_new(pattern: &str) -> (r: Result<Pattern, regex::Error>)
    ensures
        r is Ok <==> pattern_compiles(pattern@),
        r matches Ok(p) ==> p.source() == pattern@,
{
    match regex::Regex::new(pattern) {
        Ok(re) => Ok(Pattern { re, source: Ghost(pattern@) }),
        Err(e) => Err(e),
    }
}

/// Relies on `regex::Regex::is_match`: whether the regex matches anywhere in
/// the haystack, which depends on the pattern text and the haystack alone.
#[verifier::external_body]
fn regex_is_match(p: &Pattern, line: &str) -> (r: bool)
    ensures
        r == pattern_matches(p.source(), line@),
{
    p.re.is_match(line)
}

/// Compiles a search pattern; fails exactly where `regex` rejects the text.
pub fn compile(pattern: &str) -> (r: Result<Pattern, EdError>)
    ensures
        r is Ok <==> pattern_compiles(pattern@),
        r matches Ok(p) ==> p.source() == pattern@,
        r matches Err(e) ==> e == EdError::InvalidRegex,
{
    match regex_new(pattern) {
        Ok(p) => Ok(p),
        Err(_) => Err(EdError::InvalidRegex),
    }
}

} // verus!
