//! Regular expressions, compiled once and kept with the pattern they were
//! compiled from.

use vstd::prelude::*;
use crate::text::copy_str;

verus! {

#[verifier::external_type_specification]
#[verifier::external_body]
pub struct ExRegex(regex::Regex);

#[verifier::external_type_specification]
#[verifier::external_body]
pub struct ExRegexError(regex::Error);

/// Whether `pattern` is a regular expression that the `regex` crate accepts
/// (syntax and default size limit).
pub uninterp spec fn regex_compiles(pattern: Seq<char>) -> bool;

/// The regex that the `regex` crate compiles from `pattern`, where it accepts
/// it: a regex is taken to be the automaton it stands for, which the pattern
/// alone fixes.
pub uninterp spec fn compiled_regex(pattern: Seq<char>) -> regex::Regex;

/// Whether the regular expression `pattern` matches somewhere in `text`.
pub uninterp spec fn regex_is_match(pattern: Seq<char>, text: Seq<char>) -> bool;

/// `regex::Regex::new`: compiles `pattern`; succeeds exactly when the pattern
/// is valid and within the default size limit, and gives the regex of that
/// pattern.
#[verifier::external_body]
fn compile_regex(pattern: &str) -> (res: Result<regex::Regex, regex::Error>)
    ensures
        res is Ok <==> regex_compiles(pattern@),
        res matches Ok(re) ==> re == compiled_regex(pattern@),
{
    regex::Regex::new(pattern)
}

/// `regex::Regex::is_match`: whether the regex matches somewhere in `text`,
/// which is whether the pattern it was compiled from does.
#[verifier::external_body]
fn regex_matches(re: &regex::Regex, text: &str) -> (res: bool)
    ensures
        forall|p: Seq<char>| #[trigger] compiled_regex(p) == *re ==> res == regex_is_match(p, text@),
{
    re.is_match(text)
}

/// `regex::Error`'s `Display` text (through `ToString::to_string`). What the
/// text says is not stated.
#[verifier::external_body]
fn regex_error_text(e: &regex::Error) -> String {
    e.to_string()
}

/// A pattern that did not compile: the pattern, and the compiler's message.
pub struct PatternError {
    pub pattern: String,
    pub message: String,
}

/// A regular expression together with the pattern it was compiled from.
pub struct CompiledPattern {
    source: String,
    regex: regex::Regex,
}

impl View for CompiledPattern {
    type V = Seq<char>;

    closed spec fn view(&self) -> Seq<char> {
        self.source@
    }
}

impl CompiledPattern {
    /// The regex is the one compiled from the pattern kept beside it.
    #[verifier::type_invariant]
    spec fn wf(&self) -> bool {
        self.regex == compiled_regex(self.source@)
    }

    /// Compiles `pattern`; the error holds the pattern and the compiler's
    /// message.
    pub fn compile(pattern: &str) -> (res: Result<CompiledPattern, PatternError>)
        ensures
            res is Ok <==> regex_compiles(pattern@),
            res matches Ok(p) ==> p@ == pattern@,
            res matches Err(e) ==> e.pattern@ == pattern@,
    {
        match compile_regex(pattern) {
            Ok(regex) => Ok(CompiledPattern { source: copy_str(pattern), regex }),
            Err(e) => Err(PatternError { pattern: copy_str(pattern), message: regex_error_text(&e) }),
        }
    }

    /// Whether the pattern matches somewhere in `text`.
    pub fn is_match(&self, text: &str) -> (res: bool)
        ensures
            res == regex_is_match(self@, text@),
    {
        proof {
            use_type_invariant(self);
        }
        regex_matches(&self.regex, text)
    }
}

} // verus!
