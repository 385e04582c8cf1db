//! Regular expressions, compiled and matched by the `regex` crate.

use regex::Regex;
use regex::RegexBuilder;
use vstd::prelude::*;

verus! {

/// A compiled regular expression of the `regex` crate.
#[verifier::external_type_specification]
#[verifier::external_body]
pub struct ExRegex(Regex);

/// Whether `source` is a regular expression that can be compiled, with or
/// without regard to case.
pub uninterp spec fn pattern_compiles(source: Seq<char>, insensitive: bool) -> bool;

/// Whether the regular expression `source` matches somewhere in `text`.
pub uninterp spec fn pattern_matches(source: Seq<char>, insensitive: bool, text: Seq<char>) -> bool;

/// A regular expression together with what it was compiled from.
#[derive(Debug)]
pub struct Pattern {
    source: String,
    insensitive: bool,
    compiled: Regex,
}

impl Pattern {
    /// The text of the expression.
    pub closed spec fn source(&self) -> Seq<char> {
        self.source@
    }

    /// Whether upper and lower case are taken for the same.
    pub closed spec fn insensitive(&self) -> bool {
        self.insensitive
    }

    /// `RegexBuilder::new`, `case_insensitive` and `build`: compiles
    /// `source`, or yields nothing where it is no regular expression. The
    /// pattern remembers what it was compiled from.
    #[verifier::external_body]
    fn compile(source: &str, insensitive: bool) -> (r: Option<Pattern>)
        ensures
            r is Some <==> pattern_compiles(source@, insensitive),
            r is Some ==> r->Some_0.source() == source@ && r->Some_0.insensitive() == insensitive,
    {
        match RegexBuilder::new(source).case_insensitive(insensitive).build() {
            Ok(compiled) => Some(Pattern { source: source.to_string(), insensitive, compiled }),
            Err(_) => None,
        }
    }

    /// The pattern for `source`, or nothing where `source` is no regular
    /// expression.
    pub fn new(source: &str, insensitive: bool) -> (r: Option<Pattern>)
        ensures
            r is Some <==> pattern_compiles(source@, insensitive),
            r is Some ==> r->Some_0.source() == source@ && r->Some_0.insensitive() == insensitive,
    {
        Pattern::compile(source, insensitive)
    }

    /// `Regex::is_match`: whether the expression matches anywhere in `text`.
    #[verifier::external_body]
    pub(crate) fn is_match(&self, text: &str) -> (b: bool)
        ensures
            b == pattern_matches(self.source(), self.insensitive(), text@),
    {
        self.compiled.is_match(text)
    }
}

} // verus!
