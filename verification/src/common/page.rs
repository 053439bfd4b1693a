//! Pages and the states they pass through.
//!
//! A page is an address together with a state. It starts as work to do,
//! either a bare seed ([`ToScrape`]) or a link found on another page
//! ([`LinkTo`]), and its only transition, [`Page::scrape`], makes it a page
//! with content ([`WasScraped`]). A page whose retrieval or extraction fails
//! is dropped: there is no failed state.

use vstd::prelude::*;
use std::fmt::Debug;
use std::sync::Arc;
use scraper::Html;
use crate::common::url::UrlTrait;
use crate::error::{Error, FetchError};
use crate::text::{starts_with, text_of};

verus! {

/// What the crawl knows of a page that waits to be scraped: its canonical
/// path and, where it was found as a link, the text of that link.
pub struct PageView {
    pub url: Seq<char>,
    pub title: Option<Seq<char>>,
}

/// Calls `Arc::clone`, which makes another pointer to the same value.
/// Trusted: the new pointer leads to the value that `shared` leads to.
#[verifier::external_body]
pub(crate) fn share<T>(shared: &Arc<T>) -> (r: Arc<T>)
    ensures
        *r == **shared,
{
    Arc::clone(shared)
}

/// What `{:?}` writes for the state of a page that was found as a link
/// with the text `title`.
pub uninterp spec fn link_written(title: Seq<char>) -> Seq<char>;

/// What `{:?}` writes for the state of a page that waits, found as a link
/// with the text `title` if there is one.
pub uninterp spec fn pending_written(title: Option<Seq<char>>) -> Seq<char>;

/// Formats `state` with `{:?}`, through the `Debug` that is derived for
/// `ToScrape`. Trusted: for a struct without fields the text is the name of
/// the struct.
#[verifier::external_body]
fn write_seed(state: &ToScrape) -> (r: String)
    ensures
        r@ == "ToScrape"@,
{
    format!("{:?}", state)
}

/// Formats `state` with `{:?}`, through the `Debug` that is derived for
/// `LinkTo`. Trusted: the text depends on the text of the link alone.
#[verifier::external_body]
fn write_link(state: &LinkTo) -> (r: String)
    ensures
        r@ == link_written(state.title@),
{
    format!("{:?}", state)
}

/// Formats `state` with `{:?}`, through the `Debug` that is derived for
/// `Pending`. Trusted: the text depends on the text of the link alone.
#[verifier::external_body]
fn write_pending(state: &Pending) -> (r: String)
    ensures
        r@ == pending_written(text_of(state.title)),
{
    format!("{:?}", state)
}

/// Formats `value` with `{:?}`. Trusted; nothing is claimed of the text,
/// which is meant for people.
#[verifier::external_body]
pub(crate) fn debug_text<T: Debug>(value: &T) -> String {
    format!("{:?}", value)
}

/// A state that a page can be in.
pub trait PageState: Debug {
    /// A description of the state, for diagnostics.
    fn audit(&self) -> String;
}

/// The state of a seed: a page that is yet to be scraped.
#[derive(Debug, PartialEq, Eq, Hash)]
pub struct ToScrape;

/// The state of a page that was found as a link and is yet to be scraped.
#[derive(Debug, PartialEq, Eq, Hash)]
pub struct LinkTo {
    title: String,
}

/// The state of any page that is yet to be scraped, seed or link: all that
/// the crawl needs of it is the text of the link, if there was one.
#[derive(Debug, PartialEq, Eq, Hash)]
pub struct Pending {
    title: Option<String>,
}

/// The state of a page that has been scraped: what was extracted from it, and
/// the text of the link that led to it, if there was one.
#[derive(Debug, PartialEq, Eq)]
pub struct WasScraped<C: ScrapableContent> {
    content: C,
    link_title: Option<String>,
}

impl Clone for ToScrape {
    fn clone(&self) -> (r: Self)
        ensures
            r == *self,
    {
        ToScrape
    }
}

impl Clone for LinkTo {
    fn clone(&self) -> (r: Self)
        ensures
            r == *self,
    {
        LinkTo { title: self.title.clone() }
    }
}

impl Clone for Pending {
    fn clone(&self) -> (r: Self)
        ensures
            r.title() == self.title(),
    {
        match &self.title {
            Some(title) => Pending { title: Some(title.clone()) },
            None => Pending { title: None },
        }
    }
}

impl PageState for ToScrape {
    fn audit(&self) -> (r: String)
        ensures
            r@ == "ToScrape"@,
    {
        write_seed(self)
    }
}

impl PageState for LinkTo {
    fn audit(&self) -> (r: String)
        ensures
            r@ == link_written(self.title()->Some_0),
    {
        write_link(self)
    }
}

impl PageState for Pending {
    fn audit(&self) -> (r: String)
        ensures
            r@ == pending_written(self.title()),
    {
        write_pending(self)
    }
}

impl<C: ScrapableContent> PageState for WasScraped<C> {
    fn audit(&self) -> (r: String)
        ensures
            starts_with(r@, "Scraped: "@),
    {
        let described = debug_text(self);
        let r = String::from_str("Scraped: ").concat(described.as_str());
        assert(r@.subrange(0, "Scraped: "@.len() as int) =~= "Scraped: "@);
        r
    }
}

/// A state from which a page can be scraped.
pub trait Scrapable: PageState {
    /// The text of the link that led to the page, if there was one.
    spec fn title(&self) -> Option<Seq<char>>;

    /// The text of the link that led to the page, if there was one.
    fn get_title(&self) -> (r: Option<String>)
        ensures
            text_of(r) == self.title(),
    ;
}

impl Scrapable for ToScrape {
    open spec fn title(&self) -> Option<Seq<char>> {
        None
    }

    fn get_title(&self) -> (r: Option<String>) {
        None
    }
}

impl Scrapable for LinkTo {
    closed spec fn title(&self) -> Option<Seq<char>> {
        Some(self.title@)
    }

    fn get_title(&self) -> (r: Option<String>) {
        Some(self.title.clone())
    }
}

impl Scrapable for Pending {
    closed spec fn title(&self) -> Option<Seq<char>> {
        text_of(self.title)
    }

    fn get_title(&self) -> (r: Option<String>) {
        match &self.title {
            Some(title) => Some(title.clone()),
            None => None,
        }
    }
}

/// A state in which a page has content.
pub trait Scraped: PageState {

}

impl<C: ScrapableContent> Scraped for WasScraped<C> {

}

/// What is extracted from the pages of one site.
pub trait ScrapableContent: Debug + Eq + Sized {
    /// The addresses of the site.
    type Url: UrlTrait;

    /// The pages that this content links to, as the crawl sees them.
    spec fn related(&self) -> Seq<PageView>;

    /// Extracts the content of the page at `url` from its document, or says
    /// what the document lacks.
    fn from_scraped_page(url: &Self::Url, document: &Html) -> Result<Self, Error>;

    /// The pages that this content links to. No two of them are equal in
    /// both address and title.
    fn get_related_pages(&self) -> (r: Vec<Page<LinkTo, Self::Url>>)
        ensures
            Seq::new(r.len() as nat, |i: int| r[i]@) == self.related(),
            self.related().no_duplicates(),
    ;
}

/// A page: an address and the state the page is in.
#[derive(Debug, PartialEq, Eq)]
pub struct Page<S: PageState, U: UrlTrait> {
    url: Arc<U>,
    state: S,
}

impl<S: PageState, U: UrlTrait> Page<S, U> {
    /// The address of the page.
    pub closed spec fn address(&self) -> U {
        *self.url
    }

    /// The state of the page.
    pub closed spec fn state(&self) -> S {
        self.state
    }

    /// The canonical path of the page's address.
    pub open spec fn url_path(&self) -> Seq<char> {
        self.address().path()
    }

    /// The page in the state `next`, at the same address.
    fn transition<N: PageState>(self, next: N) -> (r: Page<N, U>)
        ensures
            r.url == self.url,
            r.state == next,
    {
        Page { url: self.url, state: next }
    }

    /// The page in the state `next`, at the same address, for a page held in
    /// a box.
    fn transition_in_place<N: PageState>(self: Box<Self>, next: N) -> (r: Box<Page<N, U>>)
        ensures
            r.url == self.url,
            r.state == next,
    {
        let page = *self;
        Box::new(Page { url: page.url, state: next })
    }

    /// The address of the page, shared.
    pub fn get_url_arc(&self) -> (r: Arc<U>)
        ensures
            *r == self.address(),
    {
        share(&self.url)
    }

    /// The address of the page.
    pub fn url(&self) -> (r: &U)
        ensures
            *r == self.address(),
    {
        &*self.url
    }
}

impl<S: Scrapable, U: UrlTrait> View for Page<S, U> {
    type V = PageView;

    open spec fn view(&self) -> PageView {
        PageView { url: self.address().path(), title: self.state().title() }
    }
}

impl<U: UrlTrait> Page<ToScrape, U> {
    /// A seed page at `url`.
    pub fn new(url: U) -> (r: Self)
        ensures
            r@ == (PageView { url: url.path(), title: None }),
            r.url_path() == url.path(),
    {
        Page { url: Arc::new(url), state: ToScrape }
    }

    /// A seed page at `url`.
    pub fn new_to_scrape(url: U) -> (r: Self)
        ensures
            r@ == (PageView { url: url.path(), title: None }),
            r.url_path() == url.path(),
    {
        Self::new(url)
    }
}

impl<U: UrlTrait> Page<LinkTo, U> {
    /// A page at `url` that a link with the text `title` leads to.
    pub fn new(url: U, title: &str) -> (r: Self)
        ensures
            r@ == (PageView { url: url.path(), title: Some(title@) }),
            r.url_path() == url.path(),
    {
        Page { url: Arc::new(url), state: LinkTo { title: String::from_str(title) } }
    }

    /// A page at `url` that a link with the text `title` leads to.
    pub fn new_link_to(url: U, title: &str) -> (r: Self)
        ensures
            r@ == (PageView { url: url.path(), title: Some(title@) }),
            r.url_path() == url.path(),
    {
        Self::new(url, title)
    }
}

impl<U: UrlTrait> Page<LinkTo, U> {
    /// The text of the link that leads to the page.
    pub fn title(&self) -> (r: &String)
        ensures
            self@.title == Some(r@),
    {
        &self.state.title
    }

    /// Whether `other` is a link to the same address with the same text.
    pub fn same_link(&self, other: &Self) -> (r: bool)
        ensures
            r == (self@ == other@),
    {
        self.url.same_address(&*other.url) && self.state.title == other.state.title
    }
}

impl<U: UrlTrait> Clone for Page<LinkTo, U> {
    fn clone(&self) -> (r: Self)
        ensures
            r@ == self@,
            r.url_path() == self.url_path(),
    {
        Page { url: share(&self.url), state: self.state.clone() }
    }
}

impl<U: UrlTrait> Clone for Page<ToScrape, U> {
    fn clone(&self) -> (r: Self)
        ensures
            r@ == self@,
            r.url_path() == self.url_path(),
    {
        Page { url: share(&self.url), state: ToScrape }
    }
}

impl<U: UrlTrait> Clone for Page<Pending, U> {
    fn clone(&self) -> (r: Self)
        ensures
            r@ == self@,
            r.url_path() == self.url_path(),
    {
        Page { url: share(&self.url), state: self.state.clone() }
    }
}

impl<S: Scrapable, U: UrlTrait> Page<S, U> {
    /// The same page as one that waits to be scraped, whichever kind it was.
    pub fn into_pending(self) -> (r: Page<Pending, U>)
        ensures
            r@ == self@,
            r.url_path() == self.url_path(),
    {
        let title = self.state.get_title();
        self.transition(Pending { title })
    }

    /// The text of the link that led to the page, if there was one.
    pub fn get_title(&self) -> (r: Option<String>)
        ensures
            text_of(r) == self@.title,
    {
        self.state.get_title()
    }

    /// The one transition of a page: from waiting to scraped.
    ///
    /// `fetched` is the outcome of retrieving the page at this address. A
    /// failed retrieval fails the transition with that failure. Otherwise
    /// the content is extracted from the document, and the page is returned
    /// with it, at the same address and with the same link text, or the
    /// extractor's error is returned.
    pub fn scrape<C: ScrapableContent<Url = U>>(self, fetched: Result<Html, FetchError>) -> (r:
        Result<Page<WasScraped<C>, U>, Error>)
        ensures
            fetched matches Err(failure) ==> r == Err::<Page<WasScraped<C>, U>, Error>(
                Error::Fetch(failure),
            ),
            fetched matches Ok(document) ==> match r {
                Ok(page) => {
                    &&& page.url_path() == self.url_path()
                    &&& page.link_title() == self@.title
                    &&& call_ensures(
                        C::from_scraped_page,
                        (&self.address(), &document),
                        Ok::<C, Error>(page.content()),
                    )
                },
                Err(e) => call_ensures(
                    C::from_scraped_page,
                    (&self.address(), &document),
                    Err::<C, Error>(e),
                ),
            },
    {
        let title = self.state.get_title();
        match fetched {
            Err(failure) => Err(Error::Fetch(failure)),
            Ok(document) => {
                match C::from_scraped_page(&*self.url, &document) {
                    Ok(content) => Ok(self.transition(WasScraped { content, link_title: title })),
                    Err(e) => Err(e),
                }
            },
        }
    }

    /// The transition [`Page::scrape`] for a page held in a box.
    pub fn scrape_in_place<C: ScrapableContent<Url = U>>(
        self: Box<Self>,
        fetched: Result<Html, FetchError>,
    ) -> (r: Result<Page<WasScraped<C>, U>, Error>)
        ensures
            fetched matches Err(failure) ==> r == Err::<Page<WasScraped<C>, U>, Error>(
                Error::Fetch(failure),
            ),
            fetched matches Ok(document) ==> match r {
                Ok(page) => {
                    &&& page.url_path() == self.url_path()
                    &&& page.link_title() == self@.title
                    &&& call_ensures(
                        C::from_scraped_page,
                        (&self.address(), &document),
                        Ok::<C, Error>(page.content()),
                    )
                },
                Err(e) => call_ensures(
                    C::from_scraped_page,
                    (&self.address(), &document),
                    Err::<C, Error>(e),
                ),
            },
    {
        let title = self.state.get_title();
        match fetched {
            Err(failure) => Err(Error::Fetch(failure)),
            Ok(document) => {
                match C::from_scraped_page(&*self.url, &document) {
                    Ok(content) => Ok(
                        *self.transition_in_place(WasScraped { content, link_title: title }),
                    ),
                    Err(e) => Err(e),
                }
            },
        }
    }
}

impl<U, C> Page<WasScraped<C>, U> where U: UrlTrait, C: ScrapableContent<Url = U> {
    /// What was extracted from the page.
    pub closed spec fn content(&self) -> C {
        self.state.content
    }

    /// The text of the link that led to the page, if there was one.
    pub closed spec fn link_title(&self) -> Option<Seq<char>> {
        text_of(self.state.link_title)
    }

    /// What was extracted from the page.
    pub fn get_content(&self) -> (r: &C)
        ensures
            *r == self.content(),
    {
        &self.state.content
    }

    /// The text of the link that led to the page, if there was one.
    pub fn get_link_title(&self) -> (r: Option<String>)
        ensures
            text_of(r) == self.link_title(),
    {
        match &self.state.link_title {
            Some(title) => Some(title.clone()),
            None => None,
        }
    }

    /// The pages that this page links to. No two of them are equal in both
    /// address and title.
    pub fn get_all_page_links(&self) -> (r: Vec<Page<LinkTo, U>>)
        ensures
            Seq::new(r.len() as nat, |i: int| r[i]@) == self.content().related(),
            self.content().related().no_duplicates(),
    {
        self.state.content.get_related_pages()
    }
}

} // verus!
