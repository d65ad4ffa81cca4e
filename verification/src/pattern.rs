//! Search patterns.  Compilation and matching are done by the `regex`
//! crate; the library tracks the text each pattern was compiled from, so
//! that match results are pinned down as a function of that text.
use vstd::prelude::*;

use crate::error::RatchError;

verus! {

#[verifier::external_type_specification]
#[verifier::external_body]
pub struct ExRegex(regex::Regex);

#[verifier::external_type_specification]
#[verifier::external_body]
pub struct ExRegexError(regex::Error);

/// Whether the `regex` crate accepts `text` as a pattern.
pub uninterp spec fn pattern_ok(text: Seq<char>) -> bool;

/// The first-match span (byte offsets, start inclusive to end exclusive)
/// that the pattern compiled from `text` finds in `line`, or `None` when
/// nothing in `line` matches.
pub uninterp spec fn find_span(text: Seq<char>, line: Seq<char>) -> Option<(usize, usize)>;

/// Relies on `regex::Regex::new`: whether a pattern string compiles is a
/// function of the string alone.
#[verifier::external_body]
fn compile_regex(text: &str) -> (r: Result<regex::Regex, regex::Error>)
    ensures
        r is Ok <==> pattern_ok(text@),
{
    regex::Regex::new(text)
}

/// Relies on the `Display` impl of `regex::Error` for the message shown
/// when a pattern is rejected.
#[verifier::external_body]
fn regex_error_message(e: &regex::Error) -> String {
    format!("{}", e)
}

/// A compiled search pattern together with the text it was compiled from.
/// The fields are private: only `compile` builds one, so the regex inside
/// is always the one compiled from `source`.
pub struct Pattern {
    regex: regex::Regex,
    source: String,
}

impl Pattern {
    /// The text this pattern was compiled from.
    pub closed spec fn src(&self) -> Seq<char> {
        self.source@
    }

    /// Compiles `text`: `Ok` exactly when the regex crate accepts it,
    /// `RegexError` otherwise.
    pub fn compile(text: &str) -> (r: Result<Pattern, RatchError>)
        ensures
            r is Ok <==> pattern_ok(text@),
            r matches Ok(p) ==> p.src() == text@,
            r is Err ==> r matches Err(RatchError::RegexError(_)),
    {
        match compile_regex(text) {
            Ok(rx) => Ok(Pattern { regex: rx, source: text.to_owned() }),
            Err(e) => Err(RatchError::RegexError(regex_error_message(&e))),
        }
    }

    /// Relies on `regex::Regex::find`: the leftmost match and its byte
    /// offsets are a function of the pattern text and the haystack alone.
    #[verifier::external_body]
    fn find_raw(&self, line: &str) -> (r: Option<(usize, usize)>)
        ensures
            r == find_span(self.src(), line@),
    {
        self.regex.find(line).map(|m| (m.start(), m.end()))
    }

    /// The span of the first match of this pattern in `line`.
    pub fn first_match(&self, line: &str) -> (r: Option<(usize, usize)>)
        ensures
            r == find_span(self.src(), line@),
    {
        self.find_raw(line)
    }
}

} // verus!
