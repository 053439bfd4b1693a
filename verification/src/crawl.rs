//! A crawl over the addresses of every site.
//!
//! [`Scraper`] keeps the addresses that wait to be scraped and those that
//! were scraped. [`Scraper::get_pages_recursive_internal`] opens a round and
//! hands out the addresses to retrieve, each once and none that was scraped
//! before. The caller retrieves them, [`Scraper::scrape_page`] reads what
//! came back, and [`Scraper::settle`] takes in each page that was read: the
//! addresses it leads to wait for the next round, and its own address counts
//! as scraped.

use vstd::prelude::*;
use std::collections::VecDeque;
use scraper::Html;
use crate::common::handler::{clamped_depth, Depth, MAX_DEPTH};
use crate::error::FetchError;
use crate::pages::wikipedia::document::{failure_in, is_page_in};
use crate::pages::wikipedia::WikipediaPage;
use crate::pages::ScrapedPage;
use crate::site_url::{addresses, is_among, Url};
use crate::text::{each_once, lemma_extended_distinct, lemma_extended_holds};

verus! {

/// `found` without the addresses that are in `visited`.
pub open spec fn fresh(found: Seq<Seq<char>>, visited: Set<Seq<char>>) -> Seq<Seq<char>> {
    found.filter(|address: Seq<char>| !visited.contains(address))
}

/// The addresses of a round opened on `queue` with `visited` already
/// scraped: every address of the queue that was not scraped, once, in the
/// order in which each first occurs.
pub open spec fn round_of(queue: Seq<Seq<char>>, visited: Set<Seq<char>>) -> Seq<Seq<char>> {
    fresh(each_once(queue), visited)
}

/// Filtering keeps exactly those that pass, and adds none.
pub proof fn lemma_fresh_holds(found: Seq<Seq<char>>, visited: Set<Seq<char>>, address: Seq<char>)
    ensures
        fresh(found, visited).contains(address) <==> found.contains(address) && !visited.contains(
            address,
        ),
{
    let keep = |a: Seq<char>| !visited.contains(a);
    if found.filter(keep).contains(address) {
        found.lemma_filter_contains_rev(keep, address);
    }
    if found.contains(address) && keep(address) {
        let i = choose|i: int| 0 <= i < found.len() && found[i] == address;
        found.lemma_filter_contains(keep, i);
    }
}

/// Filtering leaves no address twice where none was there twice.
pub proof fn lemma_fresh_distinct(found: Seq<Seq<char>>, visited: Set<Seq<char>>)
    requires
        found.no_duplicates(),
    ensures
        fresh(found, visited).no_duplicates(),
    decreases found.len(),
{
    reveal(Seq::filter);
    if found.len() > 0 {
        let earlier = found.drop_last();
        lemma_fresh_distinct(earlier, visited);
        lemma_fresh_holds(earlier, visited, found.last());
        assert(found =~= earlier.push(found.last()));
        Seq::lemma_filter_push(earlier, found.last(), |a: Seq<char>| !visited.contains(a));
        if earlier.contains(found.last()) {
            let i = choose|i: int| 0 <= i < earlier.len() && earlier[i] == found.last();
            assert(found[i] == found[found.len() - 1]);
        }
    }
}

/// A round retrieves an address exactly if it waits in the queue and was
/// not scraped before, and retrieves no address twice.
pub proof fn lemma_round_of(queue: Seq<Seq<char>>, visited: Set<Seq<char>>, address: Seq<char>)
    ensures
        round_of(queue, visited).no_duplicates(),
        round_of(queue, visited).contains(address) <==> queue.contains(address)
            && !visited.contains(address),
{
    lemma_extended_distinct(Seq::empty(), queue);
    lemma_extended_holds(Seq::empty(), queue, address);
    lemma_fresh_holds(each_once(queue), visited, address);
    lemma_fresh_distinct(each_once(queue), visited);
}

/// The addresses that wait to be scraped and those that were scraped, of
/// every site, with the depth the crawl has reached and the depth it may
/// reach.
#[derive(Debug)]
pub struct Scraper {
    visited: Vec<Url>,
    to_visit: VecDeque<Url>,
    depth: Depth,
}

impl Scraper {
    /// The full addresses that were scraped.
    pub closed spec fn visited(&self) -> Set<Seq<char>> {
        addresses(self.visited@).to_set()
    }

    /// The full addresses that wait to be scraped, oldest first.
    pub closed spec fn queue(&self) -> Seq<Seq<char>> {
        addresses(self.to_visit@)
    }

    /// How many rounds of the crawl have been opened.
    pub closed spec fn depth(&self) -> nat {
        self.depth.reached as nat
    }

    /// The depth the crawl may reach: rounds are opened while `depth()` is at
    /// most this.
    pub closed spec fn depth_cap(&self) -> nat {
        self.depth.cap as nat
    }

    /// A crawl with nothing waiting and nothing scraped.
    pub fn new() -> (r: Self)
        ensures
            r.queue() == Seq::<Seq<char>>::empty(),
            r.visited() == Set::<Seq<char>>::empty(),
            r.depth() == 0,
            r.depth_cap() == 0,
    {
        let r = Scraper { visited: Vec::new(), to_visit: VecDeque::new(), depth: Depth::start(0) };
        assert(r.queue() =~= Seq::<Seq<char>>::empty());
        assert(r.visited() =~= Set::<Seq<char>>::empty());
        r
    }

    /// Appends `url` to the addresses that wait.
    pub fn add_links(&mut self, url: &Url)
        ensures
            final(self).queue() == old(self).queue().push(url.full()),
            final(self).visited() == old(self).visited(),
            final(self).depth() == old(self).depth(),
            final(self).depth_cap() == old(self).depth_cap(),
    {
        self.to_visit.push_back(url.clone());
        assert(self.queue() =~= old(self).queue().push(url.full()));
    }

    /// How many addresses wait to be scraped.
    pub fn waiting(&self) -> (r: usize)
        ensures
            r == self.queue().len(),
    {
        self.to_visit.len()
    }

    /// How many rounds of the crawl have been opened.
    pub fn current_depth(&self) -> (r: u32)
        ensures
            r == self.depth(),
    {
        self.depth.reached
    }

    /// The depth the crawl may reach.
    pub fn max_depth(&self) -> (r: u32)
        ensures
            r == self.depth_cap(),
            r <= MAX_DEPTH,
    {
        self.depth.limit()
    }

    /// Whether `url` was scraped.
    pub fn is_visited(&self, url: &Url) -> (r: bool)
        ensures
            r == self.visited().contains(url.full()),
    {
        is_among(&self.visited, url)
    }

    /// Starts a crawl to the depth `max_depth`, or to the greatest depth if
    /// `max_depth` is beyond it.
    pub fn get_pages_recursive(&mut self, max_depth: u32)
        ensures
            final(self).depth_cap() == clamped_depth(max_depth),
            final(self).depth_cap() <= MAX_DEPTH,
            final(self).depth() == 0,
            final(self).queue() == old(self).queue(),
            final(self).visited() == old(self).visited(),
    {
        self.depth = Depth::start(max_depth);
    }

    /// Takes every address out of the queue, each once, in the order in
    /// which each first occurs.
    pub(crate) fn drain_once(&mut self) -> (unique: Vec<Url>)
        ensures
            addresses(unique@) == each_once(old(self).queue()),
            final(self).queue() == Seq::<Seq<char>>::empty(),
            final(self).visited() == old(self).visited(),
            final(self).depth() == old(self).depth(),
            final(self).depth_cap() == old(self).depth_cap(),
    {
        let ghost all = self.queue();
        let ghost taken: int = 0;
        let mut unique: Vec<Url> = Vec::new();
        assert(all.take(0) =~= Seq::<Seq<char>>::empty());
        assert(addresses(unique@) =~= each_once(all.take(0)));
        assert(all.skip(0) =~= all);
        while self.to_visit.len() > 0
            invariant
                0 <= taken <= all.len(),
                self.queue() == all.skip(taken),
                addresses(unique@) == each_once(all.take(taken)),
                self.visited == old(self).visited,
                self.depth == old(self).depth,
            decreases self.to_visit.len(),
        {
            let ghost kept = addresses(unique@);
            let ghost waiting = self.queue();
            match self.to_visit.pop_front() {
                Some(url) => {
                    proof {
                        assert(url.full() == waiting[0]);
                        assert(self.queue() =~= waiting.skip(1));
                        assert(all.skip(taken).skip(1) =~= all.skip(taken + 1));
                        assert(all.take(taken + 1).drop_last() =~= all.take(taken));
                        assert(all.take(taken + 1).last() == url.full());
                    }
                    if !is_among(&unique, &url) {
                        unique.push(url);
                        assert(addresses(unique@) =~= kept.push(url.full()));
                    }
                    proof {
                        taken = taken + 1;
                    }
                },
                None => {},
            }
        }
        assert(all.take(taken) =~= all);
        assert(self.queue() =~= Seq::<Seq<char>>::empty());
        unique
    }

    /// Those of `found` that were not scraped, in order.
    pub(crate) fn not_visited(&self, found: &Vec<Url>) -> (kept: Vec<Url>)
        ensures
            addresses(kept@) == fresh(addresses(found@), self.visited()),
    {
        let ghost all = addresses(found@);
        let ghost keep = |address: Seq<char>| !self.visited().contains(address);
        let mut kept: Vec<Url> = Vec::new();
        let mut i: usize = 0;
        proof {
            reveal(Seq::filter);
            assert(all.take(0) =~= Seq::<Seq<char>>::empty());
            assert(addresses(kept@) =~= all.take(0).filter(keep));
        }
        while i < found.len()
            invariant
                i <= found.len(),
                all == addresses(found@),
                keep == |address: Seq<char>| !self.visited().contains(address),
                addresses(kept@) == all.take(i as int).filter(keep),
            decreases found.len() - i,
        {
            let ghost before = addresses(kept@);
            proof {
                assert(all.take(i + 1) =~= all.take(i as int).push(found[i as int].full()));
                Seq::lemma_filter_push(all.take(i as int), found[i as int].full(), keep);
            }
            if !self.is_visited(&found[i]) {
                kept.push(found[i].clone());
                assert(addresses(kept@) =~= before.push(found[i as int].full()));
            }
            i += 1;
        }
        assert(all.take(i as int) =~= all);
        kept
    }

    /// Opens the next round of the crawl and returns the addresses to
    /// retrieve, or returns `None` where the crawl has ended: beyond the
    /// depth it may reach, or with no address waiting. Ending changes
    /// nothing.
    ///
    /// The addresses are those that waited and were not scraped before, each
    /// once. None waits afterwards, so that what the pages of this round
    /// lead to is what the next round finds.
    pub fn get_pages_recursive_internal(&mut self) -> (batch: Option<Vec<Url>>)
        ensures
            final(self).visited() == old(self).visited(),
            final(self).depth_cap() == old(self).depth_cap(),
            batch is None <==> old(self).depth() > old(self).depth_cap() || old(
                self,
            ).queue().len() == 0,
            batch is None ==> final(self).queue() == old(self).queue() && final(self).depth()
                == old(self).depth(),
            batch matches Some(urls) ==> {
                &&& addresses(urls@) == round_of(old(self).queue(), old(self).visited())
                &&& final(self).queue() == Seq::<Seq<char>>::empty()
                &&& final(self).depth() == old(self).depth() + 1
            },
    {
        if self.depth.exhausted() || self.to_visit.len() == 0 {
            return None;
        }
        let unique = self.drain_once();
        let batch = self.not_visited(&unique);
        self.depth.advance();
        Some(batch)
    }

    /// The page at `url` from the outcome of retrieving it, or `None` where
    /// there is none to take in: the retrieval failed, the document is not
    /// that of a page, or the address is one of BBC News, whose pages this
    /// crawl does not read.
    pub fn scrape_page(url: &Url, fetched: Result<Html, FetchError>) -> (page: Option<ScrapedPage>)
        ensures
            url is BBC || fetched is Err ==> page is None,
            url is Wikipedia ==> (fetched matches Ok(document) ==> {
                &&& page is Some <==> failure_in(&document) is None
                &&& page matches Some(scraped) ==> scraped matches ScrapedPage::Wikipedia(read)
                    && is_page_in(read, &document, true)
            }),
    {
        match url {
            Url::BBC(_) => None,
            Url::Wikipedia(_) => match WikipediaPage::get_page_with_content(fetched) {
                Ok(page) => Some(ScrapedPage::Wikipedia(page)),
                Err(_) => None,
            },
        }
    }

    /// Takes in the page `page` that was scraped at `url`: the addresses it
    /// leads to that were not scraped are appended to those that wait, then
    /// `url` is marked as scraped.
    pub fn settle(&mut self, url: Url, page: &ScrapedPage)
        ensures
            final(self).queue() == old(self).queue() + fresh(page.linked(), old(self).visited()),
            final(self).visited() == old(self).visited().insert(url.full()),
            final(self).depth() == old(self).depth(),
            final(self).depth_cap() == old(self).depth_cap(),
    {
        let found = self.not_visited(&page.get_urls());
        let ghost all = addresses(found@);
        let ghost queue_before = self.queue();
        let mut i: usize = 0;
        assert(self.queue() =~= queue_before + all.take(0));
        while i < found.len()
            invariant
                i <= found.len(),
                all == addresses(found@),
                self.queue() == queue_before + all.take(i as int),
                self.visited == old(self).visited,
                self.depth == old(self).depth,
            decreases found.len() - i,
        {
            let ghost before = self.queue();
            self.to_visit.push_back(found[i].clone());
            proof {
                assert(self.queue() =~= before.push(found[i as int].full()));
                assert(all.take(i + 1) =~= all.take(i as int).push(found[i as int].full()));
            }
            i += 1;
        }
        assert(all.take(i as int) =~= all);
        if !is_among(&self.visited, &url) {
            let ghost before = addresses(self.visited@);
            self.visited.push(url);
            proof {
                assert(addresses(self.visited@) =~= before.push(url.full()));
                before.lemma_push_to_set_commute(url.full());
            }
        } else {
            assert(self.visited() =~= self.visited().insert(url.full()));
        }
    }
}

} // verus!
