//! The regular-expression engine, as far as this library relies on it.
//!
//! Patterns are kept as text. Each function below hands a pattern to the
//! `regex` crate and reports what the engine answered. What the answer is,
//! for a given pattern and text, is the engine's business: it is given a
//! name here and nothing else is said about it.
//!
//! The engine looks for a match anywhere in a text. Where a pattern has to
//! match the whole of a text, as the pattern of a rule has to match a path,
//! the engine is handed the pattern set between anchors.

use regex::Regex;
use vstd::prelude::*;
use vstd::string::StringExecFns;

verus! {

/// Whether `Regex::new` accepts `pattern` as a regular expression.
pub uninterp spec fn pattern_is_valid(pattern: Seq<char>) -> bool;

/// What `Regex::is_match` answers for the expression compiled from
/// `pattern` and the haystack `text`: whether there is a match anywhere in
/// it. This has a meaning only for a pattern that is valid.
pub uninterp spec fn regex_is_match(pattern: Seq<char>, text: Seq<char>) -> bool;

/// Whether `pattern` is a regular expression that matches somewhere in
/// `text`. What is no regular expression matches nothing.
pub open spec fn pattern_matches(pattern: Seq<char>, text: Seq<char>) -> bool {
    pattern_is_valid(pattern) && regex_is_match(pattern, text)
}

/// Calls `Regex::new` and reports whether it returned a compiled expression.
/// Trusted: the answer depends on the pattern alone.
#[verifier::external_body]
pub(crate) fn regex_compiles(pattern: &str) -> (valid: bool)
    ensures
        valid == pattern_is_valid(pattern@),
{
    Regex::new(pattern).is_ok()
}

/// Calls `Regex::new` and, on the expression it returns, `Regex::is_match`;
/// `None` where `Regex::new` returns an error. Trusted: the answer depends
/// on the pattern and the text alone.
#[verifier::external_body]
fn regex_search(pattern: &str, text: &str) -> (found: Option<bool>)
    ensures
        found is Some <==> pattern_is_valid(pattern@),
        found is Some ==> found->0 == regex_is_match(pattern@, text@),
{
    Regex::new(pattern).ok().map(|expression| expression.is_match(text))
}

/// The pattern that matches somewhere in a text exactly where `pattern`
/// matches the whole of it: `pattern` as a group between `\A`, the start of
/// the text, and `\z`, its end. Before the group is closed, the mode in
/// which white space counts for nothing is switched on and a line is ended,
/// so that a comment at the end of `pattern` cannot take the closing bracket
/// for its own.
pub open spec fn anchored(pattern: Seq<char>) -> Seq<char> {
    "\\A(?:"@ + pattern + "(?x)\n)\\z"@
}

/// Whether `pattern` is a regular expression that matches the whole of
/// `text`, from its first character to its last. What is no regular
/// expression as it is written matches nothing, whatever it would be between
/// anchors.
pub open spec fn matches_whole(pattern: Seq<char>, text: Seq<char>) -> bool {
    pattern_is_valid(pattern) && pattern_matches(anchored(pattern), text)
}

/// Whether `pattern` is a regular expression that matches somewhere in
/// `text`. This is the engine's search; whether a pattern matches a text
/// from end to end is asked of [`is_whole_match`].
pub fn is_match(pattern: &str, text: &str) -> (found: bool)
    ensures
        found == pattern_matches(pattern@, text@),
{
    match regex_search(pattern, text) {
        Some(found) => found,
        None => false,
    }
}

/// Whether `pattern`, set between anchors, matches `text`. This says
/// whether `pattern` matches the whole of `text` where `pattern` is known to
/// be a regular expression as it is written.
pub fn is_anchored_match(pattern: &str, text: &str) -> (found: bool)
    ensures
        found == pattern_matches(anchored(pattern@), text@),
        pattern_is_valid(pattern@) ==> found == matches_whole(pattern@, text@),
{
    let between_anchors = String::from_str("\\A(?:").concat(pattern).concat("(?x)\n)\\z");
    is_match(between_anchors.as_str(), text)
}

/// Whether `pattern` is a regular expression that matches the whole of
/// `text`.
pub fn is_whole_match(pattern: &str, text: &str) -> (found: bool)
    ensures
        found == matches_whole(pattern@, text@),
{
    regex_compiles(pattern) && is_anchored_match(pattern, text)
}

} // verus!
