//! The line-oriented pattern capability: a regular expression compiled once
//! from a user expression, consulted through a match test and a capture
//! extraction. What the expression language means is the engine's own
//! business; this crate names its verdicts and builds on their determinism.

use vstd::prelude::*;

verus! {

#[verifier::external_type_specification]
#[verifier::external_body]
pub struct ExRegex(regex::Regex);

/// Whether the expression engine accepts `pattern` as well-formed.
pub uninterp spec fn regex_ok(pattern: Seq<char>) -> bool;

/// Whether `pattern` matches somewhere in `line`.
pub uninterp spec fn regex_match(pattern: Seq<char>, line: Seq<char>) -> bool;

/// The capture groups of the leftmost match of `pattern` in `line`: group 0
/// is the whole match, and a group that took no part is absent.
pub uninterp spec fn regex_groups(pattern: Seq<char>, line: Seq<char>) -> Seq<Option<Seq<char>>>;

/// The ghost text of one optional capture.
pub open spec fn capture_view(c: Option<String>) -> Option<Seq<char>> {
    match c {
        Some(s) => Some(s@),
        None => None,
    }
}

/// Relies on `regex::Regex::new`: whether a pattern compiles depends on the
/// pattern string alone.
#[verifier::external_body]
fn compile_regex(pattern: &str) -> (r: Result<regex::Regex, String>)
    ensures
        r is Ok <==> regex_ok(pattern@),
{
    match regex::Regex::new(pattern) {
        Ok(re) => Ok(re),
        Err(e) => Err(e.to_string()),
    }
}

/// A compiled line pattern. The `regex` field always holds the compiled
/// form of the `pattern` field: [`RegexProcessor::new`] is the only
/// constructor and nothing mutates either field afterwards.
pub struct RegexProcessor {
    regex: regex::Regex,
    pattern: String,
}

impl RegexProcessor {
    /// The pattern this processor was compiled from.
    pub closed spec fn pattern(&self) -> Seq<char> {
        self.pattern@
    }

    /// Compiles a pattern; fails exactly on the expressions the engine
    /// rejects, which is fatal at startup for the caller.
    pub fn new(pattern: &str) -> (r: Result<RegexProcessor, String>)
        ensures
            r is Ok <==> regex_ok(pattern@),
            r matches Ok(p) ==> p.pattern() == pattern@,
    {
        match compile_regex(pattern) {
            Ok(re) => Ok(RegexProcessor { regex: re, pattern: pattern.to_owned() }),
            Err(e) => Err(e),
        }
    }

    /// Relies on `regex::Regex::is_match`: the verdict depends on the
    /// pattern and the haystack alone.
    #[verifier::external_body]
    pub fn is_match(&self, line: &str) -> (r: bool)
        ensures
            r == regex_match(self.pattern(), line@),
    {
        self.regex.is_match(line)
    }

    /// Relies on `regex::Regex::captures`: it yields groups exactly when the
    /// pattern matches, group 0 always present as the whole match, all of it
    /// a function of the pattern and the haystack alone.
    #[verifier::external_body]
    pub fn captures(&self, line: &str) -> (r: Option<Vec<Option<String>>>)
        ensures
            r is Some <==> regex_match(self.pattern(), line@),
            r matches Some(groups) ==> {
                &&& groups@.map_values(|c: Option<String>| capture_view(c))
                    == regex_groups(self.pattern(), line@)
                &&& groups@.len() >= 1
                &&& groups@[0] is Some
            },
    {
        self.regex.captures(line).map(|caps| {
            caps.iter().map(|m| m.map(|part| part.as_str().to_string())).collect()
        })
    }
}

} // verus!
