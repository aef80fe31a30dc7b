//! The match primitive: a rule pattern kept together with its compiled form.
//!
//! This module is the crate's only boundary to the regex engine. The private
//! fields of [`Pattern`] guarantee that every value pairs a pattern text with
//! the case-insensitive compilation of exactly that text, so the trusted
//! contracts below can speak of the pattern text alone.

use vstd::prelude::*;

verus! {

#[verifier::external_type_specification]
#[verifier::external_body]
pub struct ExRegex(regex::Regex);

/// Whether the regex engine accepts `pattern` as a well-formed pattern.
/// Acceptance is a function of the pattern text alone.
pub uninterp spec fn pattern_accepted(pattern: Seq<char>) -> bool;

/// Whether the case-insensitive compilation of `pattern` matches somewhere in
/// `input`. A function of the two texts alone.
pub uninterp spec fn pattern_matches(pattern: Seq<char>, input: Seq<char>) -> bool;

/// The text that capture group `group` of `pattern` takes when matched
/// against `input`, or `None` when the pattern does not match or the group
/// takes no part in the match. A function of its arguments alone.
pub uninterp spec fn captured_text(pattern: Seq<char>, input: Seq<char>, group: int) -> Option<
    Seq<char>,
>;

/// A pattern text and its compiled, case-insensitive form. Built only by
/// [`Pattern::compile`], which keeps the two fields in step.
pub struct Pattern {
    source: String,
    compiled: regex::Regex,
}

impl Pattern {
    /// The pattern text this value was compiled from.
    pub closed spec fn src(&self) -> Seq<char> {
        self.source@
    }

    /// Relies on `regex::RegexBuilder::{new, case_insensitive, build}`:
    /// `build` compiles the pattern in case-insensitive mode and fails
    /// exactly on pattern texts the engine's syntax refuses, which depends on
    /// the text alone.
    #[verifier::external_body]
    pub fn compile(pattern: &str) -> (r: Option<Pattern>)
        ensures
            r matches Some(p) ==> p.src() == pattern@,
            r is Some <==> pattern_accepted(pattern@),
    {
        match regex::RegexBuilder::new(pattern).case_insensitive(true).build() {
            Ok(compiled) => Some(Pattern { source: pattern.to_string(), compiled }),
            Err(_) => None,
        }
    }

    /// Relies on `regex::Regex::is_match`: true exactly when the pattern
    /// matches anywhere in `input`, a deterministic function of the pattern
    /// and the input text.
    #[verifier::external_body]
    pub fn is_match(&self, input: &str) -> (r: bool)
        ensures
            r == pattern_matches(self.src(), input@),
    {
        self.compiled.is_match(input)
    }

    /// Relies on `regex::Regex::captures` and `regex::Captures::get`:
    /// `captures` returns `Some` exactly when the pattern matches, and
    /// `get(group)` hands out the text of that capture group when it took
    /// part in the match. Both depend on the pattern and input text alone.
    #[verifier::external_body]
    pub fn capture(&self, input: &str, group: usize) -> (r: Option<String>)
        ensures
            r matches Some(s) ==> captured_text(self.src(), input@, group as int) == Some(s@),
            r is Some <==> captured_text(self.src(), input@, group as int) is Some,
            !pattern_matches(self.src(), input@) ==> r is None,
    {
        self.compiled.captures(input).and_then(|c| c.get(group)).map(|m| m.as_str().to_string())
    }
}

} // verus!
