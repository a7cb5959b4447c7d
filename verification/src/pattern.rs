//! Version extraction from raw labels.
//!
//! A project may configure a capture expression; a label then yields a
//! version only if the expression matches it, and the version is the
//! first capture group's text. Without a pattern the trimmed label
//! itself is the version. An empty candidate is discarded either way.
//!
//! The expression engine is the `regex` crate, reached only through the
//! trusted items below; everything after the capture is verified.

use vstd::prelude::*;

use crate::text;

verus! {

/// The `regex` crate's compiled expression, opaque to verification.
#[verifier::external_type_specification]
#[verifier::external_body]
pub struct ExRegex(regex::Regex);

/// Whether `regex::Regex::new` accepts this pattern text: compilation
/// succeeds or fails as a function of the pattern alone.
pub uninterp spec fn regex_pattern_valid(pattern: Seq<char>) -> bool;

/// The text of the first capture group at the first match of the
/// compiled `pattern` in `text`, or nothing when the pattern does not
/// match (or has no capture group). A function of the pattern and the
/// text alone.
pub uninterp spec fn regex_first_capture(pattern: Seq<char>, text: Seq<char>) -> Option<
    Seq<char>,
>;

/// A user-supplied capture expression, compiled once per project
/// configuration and shared read-only across its normalization calls.
pub struct VersionPattern {
    source: String,
    regex: regex::Regex,
}

impl View for VersionPattern {
    type V = Seq<char>;

    closed spec fn view(&self) -> Seq<char> {
        self.source@
    }
}

impl VersionPattern {
    /// Relies on `regex::Regex::new`: an invalid pattern is refused,
    /// deterministically in the pattern text. The compiled expression is
    /// kept beside its source text; `first_capture` speaks of that text.
    #[verifier::external_body]
    pub fn new(pattern: &str) -> (r: Option<VersionPattern>)
        ensures
            r is Some <==> regex_pattern_valid(pattern@),
            r matches Some(p) ==> p@ == pattern@,
    {
        match regex::Regex::new(pattern) {
            Ok(re) => Some(VersionPattern { source: pattern.to_owned(), regex: re }),
            Err(_) => None,
        }
    }

    /// Relies on `regex::Regex::captures` and `regex::Captures::get`:
    /// the first capture group's text at the first match, a function of
    /// the pattern and the haystack alone.
    #[verifier::external_body]
    pub fn first_capture(&self, text: &str) -> (r: Option<String>)
        ensures
            r is Some <==> regex_first_capture(self@, text@) is Some,
            r matches Some(c) ==> regex_first_capture(self@, text@) == Some(c@),
    {
        self.regex.captures(text).and_then(|caps| caps.get(1)).map(|m| m.as_str().to_owned())
    }
}

/// The view of an optional pattern: its source text.
pub open spec fn opt_pattern_view(p: Option<VersionPattern>) -> Option<Seq<char>> {
    match p {
        Some(x) => Some(x@),
        None => None,
    }
}

/// What a capture (or trimmed label) yields as a version: itself, unless
/// it is empty — an empty candidate is "not a version bump".
pub open spec fn version_of_candidate(c: Option<Seq<char>>) -> Option<Seq<char>> {
    match c {
        Some(v) => if v.len() > 0 {
            Some(v)
        } else {
            None
        },
        None => None,
    }
}

/// The version a label yields: with a pattern, the first capture group
/// at the first match; without one, the trimmed label. Empty candidates
/// are discarded, and a label the pattern does not match yields nothing.
pub open spec fn extract_version_spec(p: Option<Seq<char>>, label: Seq<char>) -> Option<
    Seq<char>,
> {
    match p {
        Some(pat) => version_of_candidate(regex_first_capture(pat, label)),
        None => version_of_candidate(Some(text::trim_spec(label))),
    }
}

/// The verified step after a capture: keep a non-empty candidate, drop
/// an empty or absent one.
pub fn version_from_candidate(c: Option<String>) -> (r: Option<String>)
    ensures
        text::opt_str_view(r) == version_of_candidate(text::opt_str_view(c)),
{
    match c {
        Some(v) => {
            if v.as_str().is_empty() {
                None
            } else {
                Some(v)
            }
        },
        None => None,
    }
}

/// Extract the version a raw label carries, under the project's optional
/// capture pattern.
pub fn extract_version(pattern: &Option<VersionPattern>, label: &str) -> (r: Option<String>)
    ensures
        text::opt_str_view(r) == extract_version_spec(opt_pattern_view(*pattern), label@),
{
    match pattern {
        Some(p) => {
            let c = p.first_capture(label);
            version_from_candidate(c)
        },
        None => {
            let t = text::trim(label);
            version_from_candidate(Some(t))
        },
    }
}

} // verus!
