//! Addresses of Wikipedia pages.

use vstd::prelude::*;
use vstd::std_specs::cmp::PartialEqSpecImpl;
use vstd::std_specs::convert::FromSpecImpl;
use vstd::std_specs::convert::TryFromSpecImpl;
use crate::common::url::UrlTrait;
use crate::error::Error;
use crate::sites::wikipedia::error::WikipediaError;
use crate::pattern::is_match;
use crate::text::{chars_of, contains, copy_range, has_prefix, starts_with};

verus! {

/// The base of every Wikipedia address.
pub open spec fn base() -> Seq<char> {
    "https://en.wikipedia.org"@
}

/// The path that validation examines: what follows the base where the text
/// begins with it, and the text as given otherwise.
pub open spec fn canonical_path(raw: Seq<char>) -> Seq<char> {
    if starts_with(raw, base()) {
        raw.skip(base().len() as int)
    } else {
        raw
    }
}

/// The full address of a path leads back to the path: the canonical path of
/// the base followed by `path` is `path`.
pub proof fn lemma_full_address_leads_back(path: Seq<char>)
    ensures
        canonical_path(base() + path) == path,
{
    let full = base() + path;
    assert(full.subrange(0, base().len() as int) =~= base());
    assert(full.skip(base().len() as int) =~= path);
}

/// Why `path` cannot be a Wikipedia address, or `None` if it can. The checks
/// are made in this order and the first that fails gives the reason.
pub open spec fn rejection(path: Seq<char>) -> Option<Seq<char>> {
    if !starts_with(path, "/wiki"@) {
        Some("Does not start with /wiki"@)
    } else if contains(path, "/Special:"@) || contains(path, "/File:"@) {
        Some("Contains Special: or File:"@)
    } else {
        None
    }
}

/// The rule for Wikipedia addresses.
pub open spec fn accepts_path(path: Seq<char>) -> bool {
    rejection(path) is None
}

/// `e` is the refusal of the raw text `raw`, with the reason that the rule
/// gives for it.
pub open spec fn refuses(e: Error, raw: Seq<char>) -> bool {
    e matches Error::WikipediaError(WikipediaError::InvalidUrl { url, reason }) && url@ == raw
        && rejection(canonical_path(raw)) == Some(reason@)
}

/// The reason for which `path` is refused, or `None` if it is accepted.
/// `text` is the path as a string.
fn check_path(path: &Vec<char>, text: &str) -> (r: Option<&'static str>)
    requires
        text@ == path@,
    ensures
        r is None <==> rejection(path@) is None,
        r matches Some(reason) ==> rejection(path@) == Some(reason@),
{
    if !has_prefix(path, &chars_of("/wiki")) {
        return Some("Does not start with /wiki");
    }
    let in_namespace = match is_match("/(Special:|File:)", text) {
        Some(found) => found,
        None => false,
    };
    if in_namespace {
        return Some("Contains Special: or File:");
    }
    None
}

/// A validated Wikipedia address: a path below `https://en.wikipedia.org`.
#[derive(Debug, Hash)]
pub struct WikipediaUrl(String);

impl WikipediaUrl {
    /// Every value holds a path that the rule accepts.
    #[verifier::type_invariant]
    closed spec fn holds_accepted_path(self) -> bool {
        accepts_path(self.0@)
    }
}

impl Clone for WikipediaUrl {
    fn clone(&self) -> (r: Self)
        ensures
            r == *self,
    {
        proof {
            use_type_invariant(self);
        }
        WikipediaUrl(self.0.clone())
    }
}

impl PartialEq for WikipediaUrl {
    fn eq(&self, other: &Self) -> (r: bool) {
        self.0 == other.0
    }
}

impl Eq for WikipediaUrl {

}

impl PartialEqSpecImpl for WikipediaUrl {
    open spec fn obeys_eq_spec() -> bool {
        true
    }

    closed spec fn eq_spec(&self, other: &Self) -> bool {
        self.0@ == other.0@
    }
}

impl TryFrom<String> for WikipediaUrl {
    type Error = Error;

    /// Validates `url` and makes an address of it.
    fn try_from(url: String) -> (r: Result<Self, Error>)
        ensures
            r is Ok <==> accepts_path(canonical_path(url@)),
            r matches Ok(u) ==> u.path() == canonical_path(url@),
            r matches Err(e) ==> refuses(e, url@),
    {
        Self::parse(url.as_str())
    }
}

/// The general law of `TryFrom` claims nothing here: what `try_from` returns
/// is stated on `try_from` itself.
impl TryFromSpecImpl<String> for WikipediaUrl {
    open spec fn obeys_try_from_spec() -> bool {
        false
    }

    open spec fn try_from_spec(url: String) -> Result<Self, Error> {
        Err(Error::Custom(url))
    }
}

impl From<WikipediaUrl> for String {
    fn from(url: WikipediaUrl) -> (r: String) {
        url.0
    }
}

impl FromSpecImpl<WikipediaUrl> for String {
    open spec fn obeys_from_spec() -> bool {
        true
    }

    closed spec fn from_spec(url: WikipediaUrl) -> String {
        url.0
    }
}

impl UrlTrait for WikipediaUrl {
    closed spec fn path(&self) -> Seq<char> {
        self.0@
    }

    open spec fn base() -> Seq<char> {
        base()
    }

    open spec fn canonical(raw: Seq<char>) -> Seq<char> {
        canonical_path(raw)
    }

    open spec fn accepts(path: Seq<char>) -> bool {
        accepts_path(path)
    }

    fn same_address(&self, other: &Self) -> (r: bool) {
        self.0 == other.0
    }

    fn parse(url: &str) -> (r: Result<Self, Error>)
        ensures
            r matches Err(e) ==> refuses(e, url@),
    {
        match Self::parse_url(url) {
            Ok(path) => Ok(WikipediaUrl(path)),
            Err(e) => Err(e),
        }
    }

    fn base_url() -> (r: &'static str) {
        "https://en.wikipedia.org"
    }

    fn to_string(&self) -> (r: String) {
        proof {
            use_type_invariant(self);
        }
        let path = self.0.clone();
        assert(Self::accepts(path@));
        path
    }

    fn parse_url(url: &str) -> (r: Result<String, Error>)
        ensures
            r matches Err(e) ==> refuses(e, url@),
    {
        let raw = chars_of(url);
        let base = chars_of("https://en.wikipedia.org");
        let from = if has_prefix(&raw, &base) {
            base.len()
        } else {
            0
        };
        assert(raw@.skip(from as int) =~= raw@.subrange(from as int, raw@.len() as int));
        assert(raw@.skip(0) =~= raw@);
        let path = copy_range(&raw, from, raw.len());
        let text = url.substring_char(from, raw.len());
        match check_path(&path, text) {
            None => Ok(String::from_str(text)),
            Some(reason) => Err(
                Error::WikipediaError(
                    WikipediaError::InvalidUrl {
                        url: String::from_str(url),
                        reason: String::from_str(reason),
                    },
                ),
            ),
        }
    }
}

} // verus!
