//! Compiled glob patterns (glob crate) and regular expressions (regex crate), each kept
//! together with the text it was compiled from.
use vstd::prelude::*;

verus! {

/// glob's compiled Unix shell pattern.
#[verifier::external_type_specification]
#[verifier::external_body]
pub struct ExGlobPattern(glob::Pattern);

/// regex's compiled regular expression.
#[verifier::external_type_specification]
#[verifier::external_body]
pub struct ExRegex(regex::Regex);

/// Whether glob's `Pattern::new` accepts a pattern.
pub uninterp spec fn glob_valid(pattern: Seq<char>) -> bool;

/// Whether glob's `Pattern::matches` (default options) finds that a valid pattern matches
/// a text.
pub uninterp spec fn glob_matches(pattern: Seq<char>, text: Seq<char>) -> bool;

/// Whether regex's `Regex::new` accepts a pattern.
pub uninterp spec fn regex_valid(pattern: Seq<char>) -> bool;

/// Whether regex's `Regex::is_match` finds a match of a valid pattern somewhere in a text.
pub uninterp spec fn regex_matches(pattern: Seq<char>, text: Seq<char>) -> bool;

/// The message (`Display`) of the error that regex's `Regex::new` gives for an invalid
/// pattern.
pub uninterp spec fn regex_error_text(pattern: Seq<char>) -> Seq<char>;

/// A glob pattern, compiled, with its source text.
pub struct GlobPattern {
    source: String,
    compiled: glob::Pattern,
}

impl GlobPattern {
    /// The text the pattern was compiled from.
    pub closed spec fn source(&self) -> Seq<char> {
        self.source@
    }
}

/// glob's `Pattern::new`: compiles a pattern; `None` when glob rejects it.
#[verifier::external_body]
pub(crate) fn compile_glob(pattern: &str) -> (r: Option<GlobPattern>)
    ensures
        r is Some <==> glob_valid(pattern@),
        r matches Some(g) ==> g.source() == pattern@,
{
    match glob::Pattern::new(pattern) {
        Ok(compiled) => Some(GlobPattern { source: pattern.to_string(), compiled }),
        Err(_) => None,
    }
}

/// glob's `Pattern::matches`: whether the whole text matches the pattern.
#[verifier::external_body]
pub(crate) fn glob_is_match(g: &GlobPattern, text: &str) -> (r: bool)
    ensures
        r == glob_matches(g.source(), text@),
{
    g.compiled.matches(text)
}

/// A regular expression, compiled, with its source text.
pub struct LinePattern {
    source: String,
    compiled: regex::Regex,
}

impl LinePattern {
    /// The text the expression was compiled from.
    pub closed spec fn source(&self) -> Seq<char> {
        self.source@
    }
}

/// regex's `Regex::new`: compiles an expression, or gives the message of its error.
#[verifier::external_body]
pub(crate) fn compile_regex(pattern: &str) -> (r: Result<LinePattern, String>)
    ensures
        r is Ok <==> regex_valid(pattern@),
        r matches Ok(p) ==> p.source() == pattern@,
        r matches Err(m) ==> m@ == regex_error_text(pattern@),
{
    match regex::Regex::new(pattern) {
        Ok(compiled) => Ok(LinePattern { source: pattern.to_string(), compiled }),
        Err(e) => Err(e.to_string()),
    }
}

/// regex's `Regex::is_match`: whether the expression matches somewhere in the text.
#[verifier::external_body]
pub(crate) fn regex_is_match(p: &LinePattern, text: &str) -> (r: bool)
    ensures
        r == regex_matches(p.source(), text@),
{
    p.compiled.is_match(text)
}

} // verus!
