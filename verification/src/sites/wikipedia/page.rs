//! What is kept of a Wikipedia page.

use vstd::prelude::*;
use crate::common::url::UrlTrait;
use crate::sites::wikipedia::url::WikipediaUrl;
use crate::text::{each_once, lemma_extended_distinct, texts};

verus! {

/// The canonical paths of a sequence of addresses.
pub open spec fn paths_of(urls: Seq<WikipediaUrl>) -> Seq<Seq<char>> {
    Seq::new(urls.len(), |i: int| urls[i].path())
}

/// The content of a Wikipedia page: its title, its short description, the
/// paragraphs before its first section, and the pages it links to, each
/// once.
#[derive(Debug, Clone, PartialEq, Eq)]
pub struct WikipediaContent {
    title: String,
    short_description: String,
    abstract_text: Vec<String>,
    page_links: Vec<WikipediaUrl>,
}

impl WikipediaContent {
    /// The title.
    pub closed spec fn title_text(&self) -> Seq<char> {
        self.title@
    }

    /// The short description.
    pub closed spec fn description_text(&self) -> Seq<char> {
        self.short_description@
    }

    /// The paragraphs before the first section.
    pub closed spec fn abstract_texts(&self) -> Seq<Seq<char>> {
        texts(self.abstract_text@)
    }

    /// The canonical paths of the pages that the page links to.
    pub closed spec fn linked_paths(&self) -> Seq<Seq<char>> {
        paths_of(self.page_links@)
    }

    /// The content with the given title, short description and paragraphs,
    /// and with each of `page_links` once.
    pub fn new(
        title: String,
        short_description: String,
        abstract_text: Vec<String>,
        page_links: Vec<WikipediaUrl>,
    ) -> (r: Self)
        ensures
            r.title_text() == title@,
            r.description_text() == short_description@,
            r.abstract_texts() == texts(abstract_text@),
            r.linked_paths() == each_once(paths_of(page_links@)),
            r.linked_paths().no_duplicates(),
    {
        let ghost all = paths_of(page_links@);
        let mut kept: Vec<WikipediaUrl> = Vec::new();
        let mut i: usize = 0;
        assert(all.take(0) =~= Seq::<Seq<char>>::empty());
        assert(paths_of(kept@) =~= each_once(all.take(0)));
        while i < page_links.len()
            invariant
                i <= page_links.len(),
                all == paths_of(page_links@),
                paths_of(kept@) == each_once(all.take(i as int)),
            decreases page_links.len() - i,
        {
            let ghost before = paths_of(kept@);
            proof {
                assert(all.take(i + 1).drop_last() =~= all.take(i as int));
                assert(all.take(i + 1).last() == page_links[i as int].path());
            }
            if !Self::holds(&kept, &page_links[i]) {
                kept.push(page_links[i].clone());
                assert(paths_of(kept@) =~= before.push(page_links[i as int].path()));
            }
            i += 1;
        }
        proof {
            assert(all.take(i as int) =~= all);
            lemma_extended_distinct(Seq::empty(), all);
        }
        WikipediaContent { title, short_description, abstract_text, page_links: kept }
    }

    /// Whether `url` is among `urls`.
    fn holds(urls: &Vec<WikipediaUrl>, url: &WikipediaUrl) -> (r: bool)
        ensures
            r == paths_of(urls@).contains(url.path()),
    {
        let mut i: usize = 0;
        while i < urls.len()
            invariant
                i <= urls.len(),
                forall|j: int| 0 <= j < i ==> paths_of(urls@)[j] != url.path(),
            decreases urls.len() - i,
        {
            if urls[i].same_address(url) {
                assert(paths_of(urls@)[i as int] == url.path());
                return true;
            }
            i += 1;
        }
        false
    }

    /// The title.
    pub fn title(&self) -> (r: &String)
        ensures
            r@ == self.title_text(),
    {
        &self.title
    }

    /// The short description.
    pub fn short_description(&self) -> (r: &String)
        ensures
            r@ == self.description_text(),
    {
        &self.short_description
    }

    /// The paragraphs before the first section.
    pub fn abstract_text(&self) -> (r: &Vec<String>)
        ensures
            texts(r@) == self.abstract_texts(),
    {
        &self.abstract_text
    }

    /// The pages that the page links to.
    pub fn page_links(&self) -> (r: &Vec<WikipediaUrl>)
        ensures
            paths_of(r@) == self.linked_paths(),
    {
        &self.page_links
    }
}

} // verus!
