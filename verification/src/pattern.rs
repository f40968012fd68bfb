//! Regular expressions that the user supplies.

use regex::Regex;
use vstd::prelude::*;

verus! {

/// `regex::Regex`: a compiled regular expression. Nothing inside it is
/// seen here; it is carried along and handed back to the crate.
#[verifier::external_type_specification]
#[verifier::external_body]
pub struct ExRegex(Regex);

/// A compiled expression can be copied; nothing is claimed of the copy here.
pub assume_specification[ <Regex as Clone>::clone ](regex: &Regex) -> (copy: Regex)
;

/// Whether `regex::Regex::new` accepts the pattern.
pub uninterp spec fn regex_valid(pattern: Seq<char>) -> bool;

/// Whether the regular expression of a valid pattern matches somewhere in
/// the text, as `regex::Regex::is_match` tells.
pub uninterp spec fn regex_matches(pattern: Seq<char>, text: Seq<char>) -> bool;

/// A regular expression: its pattern, and the pattern compiled.
#[derive(Debug, Clone)]
pub struct Pattern {
    source: String,
    compiled: Regex,
}

/// Compiles a pattern.
///
/// Calls `regex::Regex::new`, which accepts a pattern or refuses it; which
/// of the two is named `regex_valid`. The pattern is kept beside what was
/// compiled from it, and nothing else makes a `Pattern`.
#[verifier::external_body]
fn compile(source: &str) -> (r: Option<Pattern>)
    ensures
        r is Some == regex_valid(source@),
        r matches Some(pattern) ==> pattern.source_text() == source@,
{
    match Regex::new(source) {
        Ok(compiled) => Some(Pattern { source: source.to_owned(), compiled }),
        Err(_) => None,
    }
}

/// Tests whether an expression matches somewhere in a text.
///
/// Calls `regex::Regex::is_match` on what `compile` made of the pattern;
/// the result is named `regex_matches`, of the pattern and the text.
#[verifier::external_body]
fn matches(pattern: &Pattern, text: &str) -> (b: bool)
    ensures
        b == regex_matches(pattern.source_text(), text@),
{
    pattern.compiled.is_match(text)
}

impl Pattern {
    /// The pattern as it was written.
    pub closed spec fn source_text(self) -> Seq<char> {
        self.source@
    }

    /// Compiles a pattern, if it is a valid one.
    pub fn new(source: &str) -> (r: Option<Pattern>)
        ensures
            r is Some == regex_valid(source@),
            r matches Some(pattern) ==> pattern.source_text() == source@,
    {
        compile(source)
    }

    /// Tests whether the expression matches somewhere in the text.
    pub fn is_match(&self, text: &str) -> (b: bool)
        ensures
            b == regex_matches(self.source_text(), text@),
    {
        matches(self, text)
    }

    /// The pattern as it was written.
    pub fn as_str(&self) -> (source: &str)
        ensures
            source@ == self.source_text(),
    {
        self.source.as_str()
    }
}

} // verus!
