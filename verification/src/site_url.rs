//! An address of any of the sites.

use vstd::prelude::*;
use vstd::std_specs::convert::FromSpecImpl;
use crate::common::url::UrlTrait;
use crate::sites::bbc::url::BBCUrl;
use crate::sites::wikipedia::url::WikipediaUrl;

verus! {

/// An address, tagged with the site it belongs to.
#[derive(Debug, PartialEq, Eq, Hash)]
pub enum Url {
    /// An address of BBC News.
    BBC(BBCUrl),
    /// An address of Wikipedia.
    Wikipedia(WikipediaUrl),
}

/// A site that this crate reads.
#[derive(Debug, Clone, Copy, PartialEq, Eq, Structural)]
pub enum Site {
    /// BBC News.
    BBC,
    /// Wikipedia.
    Wikipedia,
}

/// The canonical paths of a sequence of addresses.
pub open spec fn site_paths(urls: Seq<Url>) -> Seq<Seq<char>> {
    Seq::new(urls.len(), |i: int| urls[i].path())
}

/// The full addresses of a sequence of addresses.
pub open spec fn addresses(urls: Seq<Url>) -> Seq<Seq<char>> {
    Seq::new(urls.len(), |i: int| urls[i].full())
}

/// Two addresses are the same address of the same site exactly if their
/// full addresses are the same text.
pub proof fn lemma_full_identifies(a: Url, b: Url)
    ensures
        a.full() == b.full() <==> a.site() == b.site() && a.path() == b.path(),
{
    reveal_strlit("https://www.bbc.co.uk");
    reveal_strlit("https://en.wikipedia.org");
    let bbc = BBCUrl::base();
    let wikipedia = WikipediaUrl::base();
    assert(bbc[8] == 'w' && wikipedia[8] == 'e');
    if a.full() == b.full() {
        if a.site() == b.site() {
            let base = if a.site() == Site::BBC {
                bbc
            } else {
                wikipedia
            };
            assert(a.full().skip(base.len() as int) =~= a.path());
            assert(b.full().skip(base.len() as int) =~= b.path());
        } else {
            assert(a.full()[8] != b.full()[8]);
        }
    }
}

impl Url {
    /// The site of the address.
    pub open spec fn site(&self) -> Site {
        match self {
            Url::BBC(_) => Site::BBC,
            Url::Wikipedia(_) => Site::Wikipedia,
        }
    }

    /// The canonical path of the address.
    pub open spec fn path(&self) -> Seq<char> {
        match self {
            Url::BBC(url) => url.path(),
            Url::Wikipedia(url) => url.path(),
        }
    }

    /// The full address: the base of the site followed by the canonical
    /// path.
    pub open spec fn full(&self) -> Seq<char> {
        match self {
            Url::BBC(url) => BBCUrl::base() + url.path(),
            Url::Wikipedia(url) => WikipediaUrl::base() + url.path(),
        }
    }

    /// The full address to fetch.
    pub fn url(&self) -> (r: String)
        ensures
            r@ == self.full(),
    {
        match self {
            Url::BBC(url) => url.full_url(),
            Url::Wikipedia(url) => url.full_url(),
        }
    }

    /// Whether `other` is the same address of the same site.
    pub fn same_url(&self, other: &Url) -> (r: bool)
        ensures
            r == (self.site() == other.site() && self.path() == other.path()),
            r == (self.full() == other.full()),
    {
        proof {
            lemma_full_identifies(*self, *other);
        }
        match self {
            Url::BBC(a) => match other {
                Url::BBC(b) => a.same_address(b),
                Url::Wikipedia(_) => false,
            },
            Url::Wikipedia(a) => match other {
                Url::BBC(_) => false,
                Url::Wikipedia(b) => a.same_address(b),
            },
        }
    }
}

impl Clone for Url {
    fn clone(&self) -> (r: Self)
        ensures
            r == *self,
    {
        match self {
            Url::BBC(url) => Url::BBC(url.clone()),
            Url::Wikipedia(url) => Url::Wikipedia(url.clone()),
        }
    }
}

/// Whether `url` is among `urls`.
pub fn is_among(urls: &Vec<Url>, url: &Url) -> (r: bool)
    ensures
        r == addresses(urls@).contains(url.full()),
{
    let mut i: usize = 0;
    while i < urls.len()
        invariant
            i <= urls.len(),
            forall|j: int| 0 <= j < i ==> addresses(urls@)[j] != url.full(),
        decreases urls.len() - i,
    {
        if urls[i].same_url(url) {
            assert(addresses(urls@)[i as int] == url.full());
            return true;
        }
        i += 1;
    }
    false
}

impl From<BBCUrl> for Url {
    fn from(url: BBCUrl) -> (r: Self) {
        Url::BBC(url)
    }
}

impl FromSpecImpl<BBCUrl> for Url {
    open spec fn obeys_from_spec() -> bool {
        true
    }

    open spec fn from_spec(url: BBCUrl) -> Self {
        Url::BBC(url)
    }
}

impl From<WikipediaUrl> for Url {
    fn from(url: WikipediaUrl) -> (r: Self) {
        Url::Wikipedia(url)
    }
}

impl FromSpecImpl<WikipediaUrl> for Url {
    open spec fn obeys_from_spec() -> bool {
        true
    }

    open spec fn from_spec(url: WikipediaUrl) -> Self {
        Url::Wikipedia(url)
    }
}

} // verus!
