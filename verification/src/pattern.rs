//! Replacement of what a regular expression matches.

use vstd::prelude::*;
use lazy_regex::Regex;
use crate::text::{contains, text_of};

verus! {

/// What `Regex::replace_all` makes of `text` for the regular expression
/// written as `pattern` and the replacement `replacement`: `text` with
/// every match, leftmost first and none overlapping another, replaced. It is
/// `None` where `pattern` is no regular expression.
pub uninterp spec fn replaced(
    pattern: Seq<char>,
    text: Seq<char>,
    replacement: Seq<char>,
) -> Option<Seq<char>>;

/// Whether the regular expression written as `pattern` has a match anywhere
/// in `text`, as `Regex::is_match` answers. It is `None` where `pattern` is
/// no regular expression.
pub uninterp spec fn matched(pattern: Seq<char>, text: Seq<char>) -> Option<bool>;

/// Compiles `pattern` with `Regex::new` and calls `Regex::is_match` on
/// `text`. Trusted: the result depends on the two texts alone; `None`
/// stands for the error of `Regex::new`. Of one pattern more is claimed:
/// `/(Special:|File:)`, a `/` followed by one of two literal words, is a
/// regular expression and matches exactly where `/Special:` or `/File:`
/// occurs.
#[verifier::external_body]
pub(crate) fn is_match(pattern: &str, text: &str) -> (r: Option<bool>)
    ensures
        r == matched(pattern@, text@),
        pattern@ == "/(Special:|File:)"@ ==> r == Some(
            contains(text@, "/Special:"@) || contains(text@, "/File:"@),
        ),
{
    match Regex::new(pattern) {
        Ok(regex) => Some(regex.is_match(text)),
        Err(_) => None,
    }
}

/// Compiles `pattern` with `Regex::new` and calls `Regex::replace_all` on
/// `text`. Trusted: the result depends on the three texts alone; `None`
/// stands for the error of `Regex::new`.
#[verifier::external_body]
pub(crate) fn replace_all(pattern: &str, text: &str, replacement: &str) -> (r: Option<String>)
    ensures
        text_of(r) == replaced(pattern@, text@, replacement@),
{
    match Regex::new(pattern) {
        Ok(regex) => Some(regex.replace_all(text, replacement).into_owned()),
        Err(_) => None,
    }
}

} // verus!
