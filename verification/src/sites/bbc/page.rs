//! What is read from a BBC News article.

use vstd::prelude::*;
use scraper::{ElementRef, Html};
use crate::common::handler::page_views;
use crate::common::page::{LinkTo, Page, PageView, ScrapableContent};
use crate::common::url::UrlTrait;
use crate::text::texts;
use crate::error::Error;
use crate::html::{
    attribute, attribute_of, attribute_or_nothing, find_in, find_in_document, found_in, text_in,
    text_of, texts_of,
};
use crate::pages::bbc::document::{articles_in, blocks_in, title_in, topics_in};
use crate::sites::bbc::error::BBCError;
use crate::sites::bbc::url::{accepts_path, base, canonical_path, BBCUrl};

verus! {

/// The pages that the links `links`, each an address and a text, lead to: a
/// page for every link whose address the rule for BBC addresses accepts, in
/// the order of the links, where of equal pages only the first stays.
pub open spec fn linked_pages(links: Seq<(Seq<char>, Seq<char>)>) -> Seq<PageView>
    decreases links.len(),
{
    if links.len() == 0 {
        Seq::empty()
    } else {
        let earlier = linked_pages(links.drop_last());
        let page = PageView { url: canonical_path(links.last().0), title: Some(links.last().1) };
        if accepts_path(page.url) && !earlier.contains(page) {
            earlier.push(page)
        } else {
            earlier
        }
    }
}

/// The texts of a sequence of links.
pub open spec fn link_texts(links: Seq<(String, String)>) -> Seq<(Seq<char>, Seq<char>)> {
    Seq::new(links.len(), |i: int| (links[i].0@, links[i].1@))
}

/// No page is twice among the pages that links lead to.
pub proof fn lemma_linked_pages_differ(links: Seq<(Seq<char>, Seq<char>)>)
    ensures
        linked_pages(links).no_duplicates(),
    decreases links.len(),
{
    if links.len() > 0 {
        lemma_linked_pages_differ(links.drop_last());
    }
}

/// The address and the text of every link of `article` that has an
/// address, in the order in which they are found.
pub open spec fn links_in(article: ElementRef) -> Seq<(Seq<char>, Seq<char>)> {
    found_in(article, "a"@).filter(|anchor: ElementRef| attribute(anchor, "href"@) is Some)
        .map_values(|anchor: ElementRef| (attribute(anchor, "href"@)->Some_0, text_in(anchor)))
}

/// The time of publication of `article`: the `datetime` attribute of its
/// first `time` element, empty if there is none.
pub open spec fn time_in(article: ElementRef) -> Seq<char> {
    let found = found_in(article, "time"@);
    if found.len() == 0 {
        Seq::empty()
    } else {
        attribute_or_nothing(found[0], "datetime"@)
    }
}

/// `e` says that the article at `url` lacks a part.
pub open spec fn is_missing_part(e: Error, url: Seq<char>) -> bool {
    ||| e matches Error::BBCError(BBCError::NoArticleFound { url: u }) && u@ == url
    ||| e matches Error::BBCError(BBCError::NoTitleFound { url: u }) && u@ == url
    ||| e matches Error::BBCError(BBCError::NoContentFound { url: u }) && u@ == url
    ||| e matches Error::BBCError(BBCError::NoRelatedTopicsFound { url: u }) && u@ == url
}

/// What accompanies the text of an article.
#[derive(Debug, PartialEq, Eq)]
struct Metadata {
    related_topics: Vec<String>,
    timestamp: String,
    page_links: Vec<Page<LinkTo, BBCUrl>>,
}

/// The content of a BBC News article.
#[derive(Debug, PartialEq, Eq)]
pub struct BBCContent {
    title: String,
    content: Vec<String>,
    metadata: Metadata,
}

impl BBCContent {
    /// No page is twice among the linked pages.
    #[verifier::type_invariant]
    closed spec fn links_differ(self) -> bool {
        page_views(self.metadata.page_links@).no_duplicates()
    }

    /// The headline.
    pub closed spec fn title_text(&self) -> Seq<char> {
        self.title@
    }

    /// The text blocks, in order.
    pub closed spec fn paragraphs(&self) -> Seq<Seq<char>> {
        texts(self.content@)
    }

    /// The related topics, in order.
    pub closed spec fn topics(&self) -> Seq<Seq<char>> {
        texts(self.metadata.related_topics@)
    }

    /// The time of publication as the page gives it, empty if it gives none.
    pub closed spec fn time_text(&self) -> Seq<char> {
        self.metadata.timestamp@
    }

    /// The headline.
    pub fn title(&self) -> (r: &String)
        ensures
            r@ == self.title_text(),
    {
        &self.title
    }

    /// The text blocks, in order.
    pub fn content(&self) -> (r: &Vec<String>)
        ensures
            texts(r@) == self.paragraphs(),
    {
        &self.content
    }

    /// The related topics, in order.
    pub fn related_topics(&self) -> (r: &Vec<String>)
        ensures
            texts(r@) == self.topics(),
    {
        &self.metadata.related_topics
    }

    /// The time of publication as the page gives it, empty if it gives none.
    pub fn timestamp(&self) -> (r: &String)
        ensures
            r@ == self.time_text(),
    {
        &self.metadata.timestamp
    }

    /// The content made of its parts.
    fn new(
        title: String,
        content: Vec<String>,
        related_topics: Vec<String>,
        timestamp: String,
        page_links: Vec<Page<LinkTo, BBCUrl>>,
    ) -> (r: Self)
        requires
            page_views(page_links@).no_duplicates(),
        ensures
            r.title_text() == title@,
            r.paragraphs() == texts(content@),
            r.topics() == texts(related_topics@),
            r.time_text() == timestamp@,
            r.related() == page_views(page_links@),
    {
        BBCContent { title, content, metadata: Metadata { related_topics, timestamp, page_links } }
    }

    /// The pages that `links` lead to.
    fn link_pages(links: &Vec<(String, String)>) -> (pages: Vec<Page<LinkTo, BBCUrl>>)
        ensures
            page_views(pages@) == linked_pages(link_texts(links@)),
    {
        let ghost all = link_texts(links@);
        let mut pages: Vec<Page<LinkTo, BBCUrl>> = Vec::new();
        let mut i: usize = 0;
        assert(all.take(0) =~= Seq::<(Seq<char>, Seq<char>)>::empty());
        assert(page_views(pages@) =~= linked_pages(all.take(0)));
        while i < links.len()
            invariant
                i <= links.len(),
                all == link_texts(links@),
                page_views(pages@) == linked_pages(all.take(i as int)),
            decreases links.len() - i,
        {
            let ghost earlier = page_views(pages@);
            proof {
                assert(all.take(i + 1).drop_last() =~= all.take(i as int));
                assert(all.take(i + 1).last() == (links[i as int].0@, links[i as int].1@));
            }
            match BBCUrl::parse(links[i].0.as_str()) {
                Ok(url) => {
                    let page = Page::<LinkTo, BBCUrl>::new(url, links[i].1.as_str());
                    if !Self::holds_page(&pages, &page) {
                        pages.push(page);
                        assert(page_views(pages@) =~= earlier.push(page@));
                    }
                },
                Err(_) => {},
            }
            i += 1;
        }
        assert(all.take(i as int) =~= all);
        pages
    }

    /// Whether `page` is among `pages`.
    fn holds_page(pages: &Vec<Page<LinkTo, BBCUrl>>, page: &Page<LinkTo, BBCUrl>) -> (r: bool)
        ensures
            r == page_views(pages@).contains(page@),
    {
        let mut i: usize = 0;
        while i < pages.len()
            invariant
                i <= pages.len(),
                forall|j: int| 0 <= j < i ==> page_views(pages@)[j] != page@,
            decreases pages.len() - i,
        {
            if pages[i].same_link(page) {
                assert(page_views(pages@)[i as int] == page@);
                return true;
            }
            i += 1;
        }
        false
    }

    /// The content of the article at `url`, from what was found in its
    /// document.
    ///
    /// `title` is the headline, `content` the text blocks, and
    /// `related_topics` the entries of the topic list, each `None` where the
    /// document has none; `timestamp` is the time of publication and `links`
    /// the address and text of every link. The first part that is missing,
    /// in this order, gives the error. Of the links, those with an address
    /// that the rule for BBC addresses accepts become the linked pages.
    pub fn assemble(
        url: &BBCUrl,
        title: Option<String>,
        content: Option<Vec<String>>,
        related_topics: Option<Vec<String>>,
        timestamp: String,
        links: Vec<(String, String)>,
    ) -> (r: Result<Self, Error>)
        ensures
            r is Ok <==> title is Some && content is Some && related_topics is Some,
            r matches Ok(c) ==> {
                &&& c.title_text() == title->Some_0@
                &&& c.paragraphs() == texts(content->Some_0@)
                &&& c.topics() == texts(related_topics->Some_0@)
                &&& c.time_text() == timestamp@
                &&& c.related() == linked_pages(link_texts(links@))
            },
            r matches Err(e) ==> {
                if title is None {
                    e matches Error::BBCError(BBCError::NoTitleFound { url: u }) && u@ == base()
                        + url.path()
                } else if content is None {
                    e matches Error::BBCError(BBCError::NoContentFound { url: u }) && u@ == base()
                        + url.path()
                } else {
                    e matches Error::BBCError(BBCError::NoRelatedTopicsFound { url: u }) && u@
                        == base() + url.path()
                }
            },
    {
        let title = match title {
            Some(title) => title,
            None => {
                return Err(Error::BBCError(BBCError::NoTitleFound { url: url.full_url() }));
            },
        };
        let content = match content {
            Some(content) => content,
            None => {
                return Err(Error::BBCError(BBCError::NoContentFound { url: url.full_url() }));
            },
        };
        let related_topics = match related_topics {
            Some(related_topics) => related_topics,
            None => {
                return Err(
                    Error::BBCError(BBCError::NoRelatedTopicsFound { url: url.full_url() }),
                );
            },
        };
        let page_links = Self::link_pages(&links);
        proof {
            lemma_linked_pages_differ(link_texts(links@));
        }
        Ok(BBCContent::new(title, content, related_topics, timestamp, page_links))
    }

    /// The first `article` element of the document.
    fn extract_article<'a>(document: &'a Html) -> (r: Option<ElementRef<'a>>)
        ensures
            r is Some <==> articles_in(document).len() > 0,
            r matches Some(article) ==> article == articles_in(document)[0],
    {
        let mut found = find_in_document(document, "article");
        if found.len() > 0 {
            Some(found.remove(0))
        } else {
            None
        }
    }

    /// The text of the first `h1` element of the article.
    fn extract_title(article: &ElementRef) -> (r: Option<String>)
        ensures
            crate::text::text_of(r) == title_in(*article),
    {
        let found = find_in(article, "h1");
        if found.len() > 0 {
            Some(text_of(&found[0]))
        } else {
            None
        }
    }

    /// The texts of the text blocks of the article, `None` if it has none.
    fn extract_content(article: &ElementRef) -> (r: Option<Vec<String>>)
        ensures
            r is Some <==> blocks_in(*article).len() > 0,
            r matches Some(blocks) ==> texts(blocks@) == blocks_in(*article),
    {
        let found = find_in(article, "div[data-component='text-block']");
        let content = texts_of(&found);
        if content.len() == 0 {
            None
        } else {
            Some(content)
        }
    }

    /// The texts of the entries of the first topic list of the article,
    /// `None` if it has no topic list. A topic list may be empty.
    fn extract_related_topics(article: &ElementRef) -> (r: Option<Vec<String>>)
        ensures
            r is Some <==> topics_in(*article) is Some,
            r matches Some(topics) ==> Some(texts(topics@)) == topics_in(*article),
    {
        let lists = find_in(article, "div[data-component='topic-list']");
        if lists.len() == 0 {
            return None;
        }
        let entries = find_in(&lists[0], "li");
        Some(texts_of(&entries))
    }

    /// The address and the text of every link of the article that has an
    /// address.
    fn extract_related_links(article: &ElementRef) -> (r: Vec<(String, String)>)
        ensures
            link_texts(r@) == links_in(*article),
    {
        let anchors = find_in(article, "a");
        let ghost has = |anchor: ElementRef| attribute(anchor, "href"@) is Some;
        let ghost link = |anchor: ElementRef|
            (attribute(anchor, "href"@)->Some_0, text_in(anchor));
        let mut links: Vec<(String, String)> = Vec::new();
        let mut i: usize = 0;
        proof {
            reveal(Seq::filter);
            assert(anchors@.take(0) =~= Seq::<ElementRef>::empty());
            assert(link_texts(links@) =~= anchors@.take(0).filter(has).map_values(link));
        }
        while i < anchors.len()
            invariant
                i <= anchors.len(),
                has == |anchor: ElementRef| attribute(anchor, "href"@) is Some,
                link == |anchor: ElementRef|
                    (attribute(anchor, "href"@)->Some_0, text_in(anchor)),
                link_texts(links@) == anchors@.take(i as int).filter(has).map_values(link),
            decreases anchors.len() - i,
        {
            let ghost before = link_texts(links@);
            let ghost earlier = anchors@.take(i as int);
            proof {
                assert(anchors@.take(i + 1) =~= earlier.push(anchors[i as int]));
                Seq::lemma_filter_push(earlier, anchors[i as int], has);
            }
            match attribute_of(&anchors[i], "href") {
                Some(href) => {
                    let text = text_of(&anchors[i]);
                    links.push((href, text));
                    assert(link_texts(links@) =~= before.push((href@, text@)));
                    assert(earlier.filter(has).push(anchors[i as int]).map_values(link)
                        =~= earlier.filter(has).map_values(link).push(link(anchors[i as int])));
                },
                None => {},
            }
            i += 1;
        }
        assert(anchors@.take(i as int) =~= anchors@);
        links
    }

    /// The `datetime` attribute of the first `time` element of the article,
    /// empty if there is none.
    fn extract_timestamp(article: &ElementRef) -> (r: String)
        ensures
            r@ == time_in(*article),
    {
        let found = find_in(article, "time");
        if found.len() == 0 {
            return String::new();
        }
        match attribute_of(&found[0], "datetime") {
            Some(datetime) => datetime,
            None => String::new(),
        }
    }
}

impl ScrapableContent for BBCContent {
    type Url = BBCUrl;

    closed spec fn related(&self) -> Seq<PageView> {
        page_views(self.metadata.page_links@)
    }

    /// Reads the article out of `document`. What the document lacks, in the
    /// order article, headline, text blocks, topic list, is the error.
    fn from_scraped_page(url: &BBCUrl, document: &Html) -> (r: Result<Self, Error>)
        ensures
            r matches Err(e) ==> is_missing_part(e, base() + url.path()),
            r matches Ok(c) ==> c.paragraphs().len() > 0,
            r is Ok <==> {
                &&& articles_in(document).len() > 0
                &&& title_in(articles_in(document)[0]) is Some
                &&& blocks_in(articles_in(document)[0]).len() > 0
                &&& topics_in(articles_in(document)[0]) is Some
            },
            r matches Ok(c) ==> {
                let article = articles_in(document)[0];
                &&& Some(c.title_text()) == title_in(article)
                &&& c.paragraphs() == blocks_in(article)
                &&& Some(c.topics()) == topics_in(article)
                &&& c.time_text() == time_in(article)
                &&& c.related() == linked_pages(links_in(article))
            },
            r matches Err(e) ==> {
                if articles_in(document).len() == 0 {
                    e is BBCError && e->BBCError_0 is NoArticleFound
                } else if title_in(articles_in(document)[0]) is None {
                    e is BBCError && e->BBCError_0 is NoTitleFound
                } else if blocks_in(articles_in(document)[0]).len() == 0 {
                    e is BBCError && e->BBCError_0 is NoContentFound
                } else {
                    e is BBCError && e->BBCError_0 is NoRelatedTopicsFound
                }
            },
    {
        let article = match Self::extract_article(document) {
            Some(article) => article,
            None => {
                return Err(Error::BBCError(BBCError::NoArticleFound { url: url.full_url() }));
            },
        };
        let title = Self::extract_title(&article);
        let content = Self::extract_content(&article);
        let related_topics = Self::extract_related_topics(&article);
        let timestamp = Self::extract_timestamp(&article);
        let links = Self::extract_related_links(&article);
        Self::assemble(url, title, content, related_topics, timestamp, links)
    }

    fn get_related_pages(&self) -> (r: Vec<Page<LinkTo, BBCUrl>>) {
        proof {
            use_type_invariant(self);
        }
        let pages = self.metadata.page_links.clone();
        assert(Seq::new(pages.len() as nat, |i: int| pages[i]@) =~= page_views(
            self.metadata.page_links@,
        ));
        pages
    }
}

} // verus!
