//! Pages with their content, site by site.

pub mod bbc;
pub mod error;
pub mod wikipedia;

use vstd::prelude::*;
use crate::common::handler::{
    has_url, lemma_count_url_zero, lemma_unique_by_url_counts, page_views, unique_by_url,
};
use crate::common::page::{PageView, ScrapableContent};
use crate::common::url::UrlTrait;
use crate::pages::wikipedia::WikipediaPage;
use crate::site_url::{addresses, site_paths, Site, Url};
use crate::sites::bbc::page::BBCContent;
use crate::sites::bbc::url::BBCUrl;
use crate::sites::wikipedia::url::WikipediaUrl;

verus! {

/// The addresses of a sequence of pages.
pub open spec fn page_urls(pages: Seq<PageView>) -> Seq<Seq<char>> {
    Seq::new(pages.len(), |i: int| pages[i].url)
}

/// The base of the addresses of `site`.
pub open spec fn base_of(site: Site) -> Seq<char> {
    match site {
        Site::BBC => BBCUrl::base(),
        Site::Wikipedia => WikipediaUrl::base(),
    }
}

/// A page that was scraped, of any site.
#[derive(Debug, PartialEq, Eq)]
pub enum ScrapedPage {
    /// An article of BBC News.
    BBCNews(BBCContent),
    /// A page of Wikipedia.
    Wikipedia(WikipediaPage),
}

impl ScrapedPage {
    /// The site of the page.
    pub open spec fn site(&self) -> Site {
        match self {
            ScrapedPage::BBCNews(_) => Site::BBC,
            ScrapedPage::Wikipedia(_) => Site::Wikipedia,
        }
    }

    /// The canonical paths of the pages that the page leads to, each once.
    pub open spec fn linked_paths(&self) -> Seq<Seq<char>> {
        match self {
            ScrapedPage::BBCNews(content) => page_urls(unique_by_url(content.related())),
            ScrapedPage::Wikipedia(page) => page.all_linked_paths(),
        }
    }

    /// The full addresses of the pages that the page leads to, each once.
    pub open spec fn linked(&self) -> Seq<Seq<char>> {
        Seq::new(
            self.linked_paths().len(),
            |i: int| base_of(self.site()) + self.linked_paths()[i],
        )
    }

    /// The addresses of the pages that the page leads to, each once. They
    /// are addresses of the site of the page.
    pub fn get_urls(&self) -> (r: Vec<Url>)
        ensures
            site_paths(r@) == self.linked_paths(),
            forall|i: int| 0 <= i < r.len() ==> (#[trigger] r[i]).site() == self.site(),
            addresses(r@) == self.linked(),
    {
        let urls = self.urls_of_site();
        assert(addresses(urls@) =~= self.linked());
        urls
    }

    /// The addresses of `get_urls`, by site and path.
    fn urls_of_site(&self) -> (r: Vec<Url>)
        ensures
            site_paths(r@) == self.linked_paths(),
            forall|i: int| 0 <= i < r.len() ==> (#[trigger] r[i]).site() == self.site(),
    {
        let mut urls: Vec<Url> = Vec::new();
        match self {
            ScrapedPage::Wikipedia(page) => {
                let links = page.get_all_page_links();
                let mut i: usize = 0;
                while i < links.len()
                    invariant
                        i <= links.len(),
                        urls.len() == i,
                        forall|j: int|
                            0 <= j < i ==> (#[trigger] urls[j]).site() == Site::Wikipedia
                                && urls[j].path() == links[j].path(),
                    decreases links.len() - i,
                {
                    urls.push(Url::Wikipedia(links[i].clone()));
                    i += 1;
                }
                assert(site_paths(urls@) =~= page.all_linked_paths());
            },
            ScrapedPage::BBCNews(content) => {
                let links = content.get_related_pages();
                let ghost all = page_views(links@);
                let mut i: usize = 0;
                assert(all.take(0) =~= Seq::<PageView>::empty());
                assert(site_paths(urls@) =~= page_urls(unique_by_url(all.take(0))));
                while i < links.len()
                    invariant
                        i <= links.len(),
                        all == page_views(links@),
                        site_paths(urls@) == page_urls(unique_by_url(all.take(i as int))),
                        forall|j: int| 0 <= j < urls.len() ==> (#[trigger] urls[j]).site()
                            == Site::BBC,
                    decreases links.len() - i,
                {
                    let ghost before = site_paths(urls@);
                    let ghost kept = unique_by_url(all.take(i as int));
                    proof {
                        assert(all.take(i + 1).drop_last() =~= all.take(i as int));
                        assert(all.take(i + 1).last() == links[i as int]@);
                        lemma_unique_by_url_counts(
                            all.take(i as int),
                            links[i as int]@.url,
                        );
                        lemma_count_url_zero(kept, links[i as int]@.url);
                        if has_url(kept, links[i as int]@.url) {
                            let k = choose|k: int|
                                0 <= k < kept.len() && (#[trigger] kept[k]).url == links[i
                                    as int]@.url;
                            assert(page_urls(kept)[k] == links[i as int]@.url);
                        }
                        if before.contains(links[i as int]@.url) {
                            let k = choose|k: int|
                                0 <= k < before.len() && before[k] == links[i as int]@.url;
                            assert(kept[k].url == links[i as int]@.url);
                        }
                    }
                    let url = Url::BBC(links[i].url().clone());
                    if !Self::holds(&urls, &url) {
                        urls.push(url);
                        assert(site_paths(urls@) =~= before.push(links[i as int]@.url));
                        assert(page_urls(kept.push(links[i as int]@)) =~= page_urls(kept).push(
                            links[i as int]@.url,
                        ));
                    }
                    i += 1;
                }
                assert(all.take(i as int) =~= all);
            },
        }
        urls
    }

    /// Whether `url` is among `urls`, all of one site.
    fn holds(urls: &Vec<Url>, url: &Url) -> (r: bool)
        requires
            forall|j: int| 0 <= j < urls.len() ==> (#[trigger] urls[j]).site() == url.site(),
        ensures
            r == site_paths(urls@).contains(url.path()),
    {
        let mut i: usize = 0;
        while i < urls.len()
            invariant
                i <= urls.len(),
                forall|j: int| 0 <= j < urls.len() ==> (#[trigger] urls[j]).site() == url.site(),
                forall|j: int| 0 <= j < i ==> site_paths(urls@)[j] != url.path(),
            decreases urls.len() - i,
        {
            if urls[i].same_url(url) {
                assert(site_paths(urls@)[i as int] == url.path());
                return true;
            }
            i += 1;
        }
        false
    }
}

} // verus!
