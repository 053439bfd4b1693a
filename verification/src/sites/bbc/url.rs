//! Addresses of BBC News articles.

use vstd::prelude::*;
use vstd::std_specs::cmp::PartialEqSpecImpl;
use vstd::std_specs::convert::FromSpecImpl;
use vstd::std_specs::convert::TryFromSpecImpl;
use crate::common::url::UrlTrait;
use crate::error::Error;
use crate::pattern::is_match;
use crate::sites::bbc::error::BBCError;
use crate::text::{
    all_digits, chars_of, contains, copy_range, digits_from, has_prefix, is_whitespace,
    lemma_split_nonempty, same_chars, split, split_chars, starts_with, trim, trim_bounds,
    trim_end, trim_start, views,
};

verus! {

/// The base of every BBC address.
pub open spec fn base() -> Seq<char> {
    "https://www.bbc.co.uk"@
}

/// The path that validation examines. Where the text, without the whitespace
/// around it, begins with the base, it is what follows the base; otherwise it
/// is the text as given, whitespace included.
pub open spec fn canonical_path(raw: Seq<char>) -> Seq<char> {
    let trimmed = trim(raw);
    if starts_with(trimmed, base()) {
        trimmed.skip(base().len() as int)
    } else {
        raw
    }
}

/// The full address of a path leads back to the path: the canonical path of
/// the base followed by `path` is `path`, where `path` does not end in
/// whitespace. (A path that does is cut short, as the full address is
/// trimmed before the base is taken off.)
pub proof fn lemma_full_address_leads_back(path: Seq<char>)
    requires
        path.len() == 0 || !is_whitespace(path.last()),
    ensures
        canonical_path(base() + path) == path,
{
    reveal_strlit("https://www.bbc.co.uk");
    let full = base() + path;
    assert(full[0] == 'h');
    assert(trim_start(full) == full);
    assert(full.last() == if path.len() == 0 {
        'k'
    } else {
        path.last()
    });
    assert(trim_end(full) == full);
    assert(full.subrange(0, base().len() as int) =~= base());
    assert(full.skip(base().len() as int) =~= path);
}

/// The last `-`-separated word of the last `/`-separated segment of `path`.
pub open spec fn last_word(path: Seq<char>) -> Seq<char> {
    split(split(path, '/').last(), '-').last()
}

/// `word` is an article number: eight characters that read as an unsigned
/// decimal number, that is eight digits, or a `+` and seven digits.
pub open spec fn is_article_number(word: Seq<char>) -> bool {
    word.len() == 8 && (all_digits(word) || (word[0] == '+' && all_digits(word.skip(1))))
}

/// The third segment of `path` exists, and it is `articles` or the path ends
/// with an article number.
pub open spec fn has_article_or_number(path: Seq<char>) -> bool {
    let segments = split(path, '/');
    segments.len() > 2 && (segments[2] == "articles"@ || is_article_number(last_word(path)))
}

/// Some segment of `path` is `live`.
pub open spec fn has_live_segment(path: Seq<char>) -> bool {
    split(path, '/').contains("live"@)
}

/// Why `path` cannot be a BBC address, or `None` if it can. The checks are
/// made in this order and the first that fails gives the reason.
pub open spec fn rejection(path: Seq<char>) -> Option<Seq<char>> {
    if !starts_with(path, "/news"@) {
        Some("Does not start with /news"@)
    } else if contains(path, "/Special:"@) || contains(path, "/File:"@) {
        Some("Contains Special: or File:"@)
    } else if has_live_segment(path) {
        Some("Contains live segment"@)
    } else if !has_article_or_number(path) {
        Some("Does not contain article or number"@)
    } else {
        None
    }
}

/// The rule for BBC addresses.
pub open spec fn accepts_path(path: Seq<char>) -> bool {
    rejection(path) is None
}

/// Whether `word` is an article number.
pub(crate) fn check_article_number(word: &Vec<char>) -> (r: bool)
    ensures
        r == is_article_number(word@),
{
    if word.len() != 8 {
        return false;
    }
    assert(word@.skip(0) =~= word@);
    if digits_from(word, 0) {
        return true;
    }
    word[0] == '+' && digits_from(word, 1)
}

/// Whether some segment is `live`.
pub(crate) fn check_live_segment(segments: &Vec<Vec<char>>) -> (r: bool)
    ensures
        r == views(segments@).contains("live"@),
{
    let live = chars_of("live");
    let mut i: usize = 0;
    while i < segments.len()
        invariant
            i <= segments.len(),
            live@ == "live"@,
            forall|j: int| 0 <= j < i ==> views(segments@)[j] != "live"@,
        decreases segments.len() - i,
    {
        if same_chars(&segments[i], &live) {
            assert(views(segments@)[i as int] == "live"@);
            return true;
        }
        i += 1;
    }
    false
}

/// The reason for which `path` is refused, or `None` if it is accepted.
/// `text` is the path as a string.
fn check_path(path: &Vec<char>, text: &str) -> (r: Option<&'static str>)
    requires
        text@ == path@,
    ensures
        r is None <==> rejection(path@) is None,
        r matches Some(reason) ==> rejection(path@) == Some(reason@),
{
    if !has_prefix(path, &chars_of("/news")) {
        return Some("Does not start with /news");
    }
    let in_namespace = match is_match("/(Special:|File:)", text) {
        Some(found) => found,
        None => false,
    };
    if in_namespace {
        return Some("Contains Special: or File:");
    }
    let segments = split_chars(path, '/');
    proof {
        lemma_split_nonempty(path@, '/');
    }
    let words = split_chars(&segments[segments.len() - 1], '-');
    proof {
        lemma_split_nonempty(segments[segments.len() - 1]@, '-');
        assert(views(segments@).last() == segments[segments.len() - 1]@);
        assert(views(words@).last() == words[words.len() - 1]@);
    }
    if check_live_segment(&segments) {
        return Some("Contains live segment");
    }
    let ends_with_number = check_article_number(&words[words.len() - 1]);
    assert(views(segments@).len() > 2 ==> views(segments@)[2] == segments[2]@);
    let has_article_or_number = segments.len() > 2 && (same_chars(
        &segments[2],
        &chars_of("articles"),
    ) || ends_with_number);
    if !has_article_or_number {
        return Some("Does not contain article or number");
    }
    None
}

/// A validated BBC address: a path below `https://www.bbc.co.uk`.
#[derive(Debug, Hash)]
pub struct BBCUrl(String);

impl BBCUrl {
    /// Every value holds a path that the rule accepts.
    #[verifier::type_invariant]
    closed spec fn holds_accepted_path(self) -> bool {
        accepts_path(self.0@)
    }
}

impl Clone for BBCUrl {
    fn clone(&self) -> (r: Self)
        ensures
            r == *self,
    {
        proof {
            use_type_invariant(self);
        }
        BBCUrl(self.0.clone())
    }
}

impl PartialEq for BBCUrl {
    fn eq(&self, other: &Self) -> (r: bool) {
        self.0 == other.0
    }
}

impl Eq for BBCUrl {

}

impl PartialEqSpecImpl for BBCUrl {
    open spec fn obeys_eq_spec() -> bool {
        true
    }

    closed spec fn eq_spec(&self, other: &Self) -> bool {
        self.0@ == other.0@
    }
}

impl TryFrom<String> for BBCUrl {
    type Error = Error;

    /// Validates `url` and makes an address of it.
    fn try_from(url: String) -> (r: Result<Self, Error>)
        ensures
            r is Ok <==> accepts_path(canonical_path(url@)),
            r matches Ok(u) ==> u.path() == canonical_path(url@),
            r matches Err(e) ==> refuses(e, url@),
    {
        Self::parse(url.as_str())
    }
}

/// The general law of `TryFrom` claims nothing here: what `try_from` returns
/// is stated on `try_from` itself.
impl TryFromSpecImpl<String> for BBCUrl {
    open spec fn obeys_try_from_spec() -> bool {
        false
    }

    open spec fn try_from_spec(url: String) -> Result<Self, Error> {
        Err(Error::Custom(url))
    }
}

impl From<BBCUrl> for String {
    fn from(url: BBCUrl) -> (r: String) {
        url.0
    }
}

impl FromSpecImpl<BBCUrl> for String {
    open spec fn obeys_from_spec() -> bool {
        true
    }

    closed spec fn from_spec(url: BBCUrl) -> String {
        url.0
    }
}

/// `e` is the refusal of the raw text `raw`, with the reason that the rule
/// gives for it.
pub open spec fn refuses(e: Error, raw: Seq<char>) -> bool {
    e matches Error::BBCError(BBCError::InvalidUrl { url, reason }) && url@ == raw && rejection(
        canonical_path(raw),
    ) == Some(reason@)
}

impl UrlTrait for BBCUrl {
    closed spec fn path(&self) -> Seq<char> {
        self.0@
    }

    open spec fn base() -> Seq<char> {
        base()
    }

    open spec fn canonical(raw: Seq<char>) -> Seq<char> {
        canonical_path(raw)
    }

    open spec fn accepts(path: Seq<char>) -> bool {
        accepts_path(path)
    }

    fn same_address(&self, other: &Self) -> (r: bool) {
        self.0 == other.0
    }

    fn parse(url: &str) -> (r: Result<Self, Error>)
        ensures
            r matches Err(e) ==> refuses(e, url@),
    {
        match Self::parse_url(url) {
            Ok(path) => Ok(BBCUrl(path)),
            Err(e) => Err(e),
        }
    }

    fn base_url() -> (r: &'static str) {
        "https://www.bbc.co.uk"
    }

    fn to_string(&self) -> (r: String) {
        proof {
            use_type_invariant(self);
        }
        let path = self.0.clone();
        assert(Self::accepts(path@));
        path
    }

    fn parse_url(url: &str) -> (r: Result<String, Error>)
        ensures
            r matches Err(e) ==> refuses(e, url@),
    {
        let raw = chars_of(url);
        let base = chars_of("https://www.bbc.co.uk");
        let (start, end) = trim_bounds(&raw);
        let trimmed = copy_range(&raw, start, end);
        let (from, to) = if has_prefix(&trimmed, &base) {
            assert(trimmed@.skip(base@.len() as int) =~= raw@.subrange(
                start + base@.len(),
                end as int,
            ));
            (start + base.len(), end)
        } else {
            assert(raw@.subrange(0, raw@.len() as int) =~= raw@);
            (0, raw.len())
        };
        let path = copy_range(&raw, from, to);
        let text = url.substring_char(from, to);
        match check_path(&path, text) {
            None => Ok(String::from_str(text)),
            Some(reason) => Err(
                Error::BBCError(
                    BBCError::InvalidUrl {
                        url: String::from_str(url),
                        reason: String::from_str(reason),
                    },
                ),
            ),
        }
    }
}

} // verus!
