//! Regular expressions, through the `regex` crate.
//!
//! The items marked `external_body` are trusted: Verus takes their contracts
//! without seeing their bodies. What a regular expression matches takes
//! pages to state, so their results are named as functions of the pattern's
//! source and the text.

use vstd::prelude::*;
use crate::scan::opt_view;
use crate::text::has_infix;

verus! {

/// `regex::Regex`, held opaque.
#[verifier::external_type_specification]
#[verifier::external_body]
pub struct ExRegex(regex::Regex);

/// A compiled regular expression together with its source. It is only made
/// by [`compile`], so `compiled` is always the compilation of `source`.
pub struct Pattern {
    source: String,
    compiled: regex::Regex,
}

impl Pattern {
    /// The source the pattern was compiled from.
    pub closed spec fn source(&self) -> Seq<char> {
        self.source@
    }
}

/// Whether `regex::Regex::new` accepts a pattern.
pub uninterp spec fn regex_accepts(pattern: Seq<char>) -> bool;

/// The text of capture group 1 of the leftmost match of `pattern` in
/// `text`, if there is a match and the group took part in it.
pub uninterp spec fn first_group(pattern: Seq<char>, text: Seq<char>) -> Option<Seq<char>>;

/// `text` with every non-overlapping match of `pattern` removed.
pub uninterp spec fn without_matches(pattern: Seq<char>, text: Seq<char>) -> Seq<char>;

/// `regex::Regex::new`: a pattern when the source compiles.
#[verifier::external_body]
pub(crate) fn compile(source: &str) -> (res: Option<Pattern>)
    ensures
        res.is_some() == regex_accepts(source@),
        res matches Some(p) ==> p.source() == source@,
{
    regex::Regex::new(source).ok().map(|compiled| Pattern { source: source.to_string(), compiled })
}

/// `Regex::captures` followed by `Captures::get(1)`: the text of group 1 of
/// the leftmost match, which is a piece of `text`.
#[verifier::external_body]
pub(crate) fn first_capture(p: &Pattern, text: &str) -> (res: Option<String>)
    ensures
        opt_view(res) == first_group(p.source(), text@),
        res matches Some(g) ==> has_infix(text@, g@),
{
    p.compiled.captures(text).and_then(|c| c.get(1)).map(|m| m.as_str().to_string())
}

/// `Regex::replace_all` with an empty replacement.
#[verifier::external_body]
pub(crate) fn remove_matches(p: &Pattern, text: &str) -> (res: String)
    ensures
        res@ == without_matches(p.source(), text@),
{
    p.compiled.replace_all(text, "").into_owned()
}

} // verus!
