//! Compiled regular expressions, as the path patterns use them.
//!
//! The matching itself is done by the `regex` crate. What it computes is
//! named here and not restated: a regular expression is known by its source
//! text and its case sensitivity, and the results of building, matching and
//! replacing are functions of those and of the haystack alone.
use vstd::prelude::*;

verus! {

#[verifier::external_type_specification]
#[verifier::external_body]
pub struct ExRegex(regex::Regex);

#[verifier::external_type_specification]
#[verifier::external_body]
pub struct ExRegexError(regex::Error);

/// Whether the `regex` crate accepts `source` as a regular expression
/// (with the given case sensitivity and its default size limits).
pub uninterp spec fn regex_builds(source: Seq<char>, case_insensitive: bool) -> bool;

/// Whether the regular expression `source` matches somewhere in `haystack`.
pub uninterp spec fn regex_is_match(source: Seq<char>, case_insensitive: bool, haystack: Seq<char>) -> bool;

/// What `replace_all` gives: every non-overlapping match of `source` in
/// `haystack` replaced by the expansion of `replacement`.
pub uninterp spec fn regex_replace_all(
    source: Seq<char>,
    case_insensitive: bool,
    haystack: Seq<char>,
    replacement: Seq<char>,
) -> Seq<char>;

/// The capture groups of the leftmost-first match of `source` in
/// `haystack`: the whole match first, then each explicit group in order,
/// none for a group that did not take part; none at all without a match.
pub uninterp spec fn regex_captures(source: Seq<char>, case_insensitive: bool, haystack: Seq<char>) -> Option<Seq<Option<Seq<char>>>>;

/// The view of the capture groups of a match.
pub open spec fn captures_view(r: Option<Vec<Option<String>>>) -> Option<Seq<Option<Seq<char>>>> {
    match r {
        Some(v) => Some(v@.map_values(|g: Option<String>| match g {
            Some(x) => Some(x@),
            None => None,
        })),
        None => None,
    }
}

/// Builds a regular expression.
///
/// Trusted: calls `regex::RegexBuilder::new(source).case_insensitive(..).build()`.
/// Claimed: it succeeds exactly when `regex_builds` holds of the source and
/// the flag, which depends on nothing else. Nothing is claimed of the error.
#[verifier::external_body]
fn build_regex(source: &str, case_insensitive: bool) -> (r: Result<regex::Regex, regex::Error>)
    ensures
        r.is_ok() == regex_builds(source@, case_insensitive),
{
    regex::RegexBuilder::new(source).case_insensitive(case_insensitive).build()
}

/// A compiled regular expression together with the source text and the
/// case sensitivity it was compiled from.
pub struct Pattern {
    source: String,
    case_insensitive: bool,
    compiled: regex::Regex,
}

impl View for Pattern {
    type V = (Seq<char>, bool);

    closed spec fn view(&self) -> (Seq<char>, bool) {
        (self.source@, self.case_insensitive)
    }
}

/// Whether the compiled `pattern` matches somewhere in `haystack`.
///
/// Trusted: calls `regex::Regex::is_match`. A `Pattern` is only ever made by
/// `Pattern::new`, from the source and flag that its view holds, so the
/// claim is that the result is `regex_is_match` of that view.
#[verifier::external_body]
fn pattern_is_match(pattern: &Pattern, haystack: &str) -> (r: bool)
    ensures
        r == regex_is_match(pattern@.0, pattern@.1, haystack@),
{
    pattern.compiled.is_match(haystack)
}

/// The capture groups of the first match of `pattern` in `haystack`.
///
/// Trusted: calls `regex::Regex::captures` and turns each group of the
/// match (`Captures::iter`, group 0 first) into an owned string. As above,
/// the claim is that the result is `regex_captures` of the pattern's view
/// and the haystack.
#[verifier::external_body]
fn pattern_captures(pattern: &Pattern, haystack: &str) -> (r: Option<Vec<Option<String>>>)
    ensures
        captures_view(r) == regex_captures(pattern@.0, pattern@.1, haystack@),
{
    pattern.compiled.captures(haystack).map(|caps| caps.iter().map(|g| g.map(|m| String::from(m.as_str()))).collect())
}

/// Replaces every match of `pattern` in `haystack`.
///
/// Trusted: calls `regex::Regex::replace_all` and takes the result as a
/// `String`. As above, the claim is that the result is `regex_replace_all`
/// of the pattern's view, the haystack and the replacement.
#[verifier::external_body]
fn pattern_replace_all(pattern: &Pattern, haystack: &str, replacement: &str) -> (r: String)
    ensures
        r@ == regex_replace_all(pattern@.0, pattern@.1, haystack@, replacement@),
{
    pattern.compiled.replace_all(haystack, replacement).into_owned()
}

impl Pattern {
    /// Compiles `source`; fails exactly when the `regex` crate refuses it.
    pub fn new(source: &str, case_insensitive: bool) -> (r: Result<Pattern, regex::Error>)
        ensures
            r.is_ok() == regex_builds(source@, case_insensitive),
            r matches Ok(p) ==> p@ == (source@, case_insensitive),
    {
        match build_regex(source, case_insensitive) {
            Ok(compiled) => Ok(Pattern { source: String::from_str(source), case_insensitive, compiled }),
            Err(e) => Err(e),
        }
    }

    /// Whether the pattern matches somewhere in `haystack`.
    pub fn is_match(&self, haystack: &str) -> (r: bool)
        ensures
            r == regex_is_match(self@.0, self@.1, haystack@),
    {
        pattern_is_match(self, haystack)
    }

    /// The capture groups of the first match in `haystack`, the whole match
    /// first; none without a match.
    pub fn captures(&self, haystack: &str) -> (r: Option<Vec<Option<String>>>)
        ensures
            captures_view(r) == regex_captures(self@.0, self@.1, haystack@),
    {
        pattern_captures(self, haystack)
    }

    /// `haystack` with every match replaced by the expansion of `replacement`.
    pub fn replace_all(&self, haystack: &str, replacement: &str) -> (r: String)
        ensures
            r@ == regex_replace_all(self@.0, self@.1, haystack@, replacement@),
    {
        pattern_replace_all(self, haystack, replacement)
    }

    /// The source text the pattern was compiled from.
    pub fn as_str(&self) -> (s: &str)
        ensures
            s@ == self@.0,
    {
        self.source.as_str()
    }
}

} // verus!
