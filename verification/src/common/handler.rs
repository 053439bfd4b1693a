//! The crawl: a queue of pages to scrape, the set of addresses already
//! scraped, and the rounds that move pages from the one to the other.
//!
//! A crawl proceeds in rounds. [`PageHandler::get_pages_recursive_internal`]
//! opens a round: it empties the queue and hands out the batch to scrape,
//! each address once and none that was scraped before. The caller retrieves
//! and scrapes the pages of the batch, in any order or at the same time, and
//! reports each outcome to [`PageHandler::settle`], which appends the links
//! of a scraped page to the queue and then marks its address as visited. A
//! page that failed changes nothing. The crawl ends when a round is opened on
//! an empty queue, or beyond the depth that was asked for.

use vstd::prelude::*;
use std::collections::VecDeque;
use std::sync::Arc;
use crate::common::page::{Page, PageView, Pending, Scrapable, ScrapableContent, WasScraped};
use crate::common::url::UrlTrait;
use crate::error::Error;

verus! {

/// The greatest depth a crawl can run to, whatever depth is asked for.
pub const MAX_DEPTH: u32 = 10;

/// The depth a crawl runs to when `requested` is asked for.
pub open spec fn clamped_depth(requested: u32) -> u32 {
    if requested > MAX_DEPTH {
        MAX_DEPTH
    } else {
        requested
    }
}

/// Some page of `pages` is at the address `url`.
pub open spec fn has_url(pages: Seq<PageView>, url: Seq<char>) -> bool {
    exists|i: int| 0 <= i < pages.len() && (#[trigger] pages[i]).url == url
}

/// `pages` without every page whose address occurred earlier in `pages`:
/// of the pages at one address the first stays.
pub open spec fn unique_by_url(pages: Seq<PageView>) -> Seq<PageView>
    decreases pages.len(),
{
    if pages.len() == 0 {
        pages
    } else if has_url(pages.drop_last(), pages.last().url) {
        unique_by_url(pages.drop_last())
    } else {
        unique_by_url(pages.drop_last()).push(pages.last())
    }
}

/// `pages` without the pages whose address is in `visited`.
pub open spec fn unvisited(pages: Seq<PageView>, visited: Set<Seq<char>>) -> Seq<PageView> {
    pages.filter(|page: PageView| !visited.contains(page.url))
}

/// The batch of a round opened on `queue` with `visited` already scraped.
pub open spec fn batch_of(queue: Seq<PageView>, visited: Set<Seq<char>>) -> Seq<PageView> {
    unvisited(unique_by_url(queue), visited)
}

/// How many pages of `pages` are at the address `url`.
pub open spec fn count_url(pages: Seq<PageView>, url: Seq<char>) -> nat {
    pages.filter(|page: PageView| page.url == url).len()
}

/// The views of a sequence of pages.
pub open spec fn page_views<S: Scrapable, U: UrlTrait>(pages: Seq<Page<S, U>>) -> Seq<PageView> {
    Seq::new(pages.len(), |i: int| pages[i]@)
}

/// One more page adds one to the count of its own address and nothing to
/// the count of any other.
pub proof fn lemma_count_url_push(pages: Seq<PageView>, page: PageView, url: Seq<char>)
    ensures
        count_url(pages.push(page), url) == count_url(pages, url) + if page.url == url {
            1nat
        } else {
            0nat
        },
{
    Seq::lemma_filter_push(pages, page, |p: PageView| p.url == url);
}

/// An address has a page in `pages` exactly if its count there is not zero.
pub proof fn lemma_count_url_zero(pages: Seq<PageView>, url: Seq<char>)
    ensures
        has_url(pages, url) <==> count_url(pages, url) > 0,
    decreases pages.len(),
{
    reveal(Seq::filter);
    if pages.len() > 0 {
        let earlier = pages.drop_last();
        lemma_count_url_zero(earlier, url);
        assert(pages =~= earlier.push(pages.last()));
        lemma_count_url_push(earlier, pages.last(), url);
        if has_url(pages, url) {
            let i = choose|i: int| 0 <= i < pages.len() && (#[trigger] pages[i]).url == url;
            if i < pages.len() - 1 {
                assert(earlier[i].url == url);
            }
        }
        if has_url(earlier, url) {
            let i = choose|i: int| 0 <= i < earlier.len() && (#[trigger] earlier[i]).url == url;
            assert(pages[i].url == url);
        }
        if pages.last().url == url {
            assert(pages[pages.len() - 1].url == url);
        }
    }
}

/// Removing repeated addresses keeps one page of every address that
/// occurred, and none of any other.
pub proof fn lemma_unique_by_url_counts(pages: Seq<PageView>, url: Seq<char>)
    ensures
        count_url(unique_by_url(pages), url) == if has_url(pages, url) {
            1nat
        } else {
            0nat
        },
    decreases pages.len(),
{
    reveal(Seq::filter);
    if pages.len() > 0 {
        let earlier = pages.drop_last();
        let last = pages.last();
        lemma_unique_by_url_counts(earlier, url);
        lemma_count_url_zero(pages, url);
        lemma_count_url_zero(earlier, url);
        assert(pages =~= earlier.push(last));
        lemma_count_url_push(earlier, last, url);
        if has_url(earlier, last.url) {
            lemma_count_url_zero(earlier, last.url);
        } else {
            lemma_count_url_zero(earlier, last.url);
            lemma_count_url_push(unique_by_url(earlier), last, url);
        }
    }
}

/// Removing repeated addresses leaves pages of the sequence, no two of them
/// at one address, and a page at every address that occurred.
pub proof fn lemma_unique_by_url(pages: Seq<PageView>)
    ensures
        forall|i: int, j: int|
            0 <= i < j < unique_by_url(pages).len() ==> (#[trigger] unique_by_url(pages)[i]).url != (
            #[trigger] unique_by_url(pages)[j]).url,
        forall|i: int|
            0 <= i < unique_by_url(pages).len() ==> pages.contains(#[trigger] unique_by_url(pages)[i]),
        forall|url: Seq<char>| has_url(unique_by_url(pages), url) <==> has_url(pages, url),
    decreases pages.len(),
{
    let unique = unique_by_url(pages);
    assert forall|url: Seq<char>| has_url(unique, url) <==> has_url(pages, url) by {
        lemma_unique_by_url_counts(pages, url);
        lemma_count_url_zero(unique, url);
    }
    if pages.len() > 0 {
        let earlier = pages.drop_last();
        let last = pages.last();
        let kept = unique_by_url(earlier);
        lemma_unique_by_url(earlier);
        assert forall|i: int| 0 <= i < unique.len() implies pages.contains(#[trigger] unique[i]) by {
            if i < kept.len() {
                assert(earlier.contains(kept[i]));
                let k = choose|k: int| 0 <= k < earlier.len() && earlier[k] == kept[i];
                assert(pages[k] == kept[i]);
            } else {
                assert(pages[pages.len() - 1] == last);
            }
        }
        assert forall|i: int, j: int| 0 <= i < j < unique.len() implies (#[trigger] unique[i]).url != (
        #[trigger] unique[j]).url by {
            if j == kept.len() {
                if kept[i].url == last.url {
                    assert(has_url(kept, last.url));
                }
            }
        }
    }
}

/// Removing the visited pages leaves pages of the sequence, none of them
/// visited, and every page of the sequence that is not visited.
pub proof fn lemma_unvisited(pages: Seq<PageView>, visited: Set<Seq<char>>)
    ensures
        forall|i: int|
            0 <= i < unvisited(pages, visited).len() ==> {
                &&& !visited.contains((#[trigger] unvisited(pages, visited)[i]).url)
                &&& pages.contains(unvisited(pages, visited)[i])
            },
        forall|j: int|
            0 <= j < pages.len() && !visited.contains((#[trigger] pages[j]).url) ==> unvisited(
                pages,
                visited,
            ).contains(pages[j]),
{
    let keep = |page: PageView| !visited.contains(page.url);
    assert forall|i: int| 0 <= i < unvisited(pages, visited).len() implies {
        &&& !visited.contains((#[trigger] unvisited(pages, visited)[i]).url)
        &&& pages.contains(unvisited(pages, visited)[i])
    } by {
        pages.lemma_filter_pred(keep, i);
        assert(pages.filter(keep).contains(pages.filter(keep)[i]));
        pages.lemma_filter_contains_rev(keep, pages.filter(keep)[i]);
    }
    assert forall|j: int|
        0 <= j < pages.len() && !visited.contains((#[trigger] pages[j]).url) implies unvisited(
        pages,
        visited,
    ).contains(pages[j]) by {
        pages.lemma_filter_contains(keep, j);
    }
}

/// Removing the visited pages keeps the count of every address that is not
/// visited and leaves no page of one that is.
pub proof fn lemma_unvisited_counts(pages: Seq<PageView>, visited: Set<Seq<char>>, url: Seq<char>)
    ensures
        count_url(unvisited(pages, visited), url) == if visited.contains(url) {
            0nat
        } else {
            count_url(pages, url)
        },
    decreases pages.len(),
{
    reveal(Seq::filter);
    if pages.len() > 0 {
        let earlier = pages.drop_last();
        let last = pages.last();
        lemma_unvisited_counts(earlier, visited, url);
        assert(pages =~= earlier.push(last));
        lemma_count_url_push(earlier, last, url);
        Seq::lemma_filter_push(earlier, last, |page: PageView| !visited.contains(page.url));
        if !visited.contains(last.url) {
            lemma_count_url_push(unvisited(earlier, visited), last, url);
        }
    }
}

/// However many pages of a queue share one address, a round scrapes that
/// address once if it was not scraped before, and not at all if it was or if
/// no page of the queue is at it.
pub proof fn lemma_one_fetch_per_address(
    queue: Seq<PageView>,
    visited: Set<Seq<char>>,
    url: Seq<char>,
)
    ensures
        count_url(batch_of(queue, visited), url) == if has_url(queue, url) && !visited.contains(
            url,
        ) {
            1nat
        } else {
            0nat
        },
{
    lemma_unique_by_url_counts(queue, url);
    lemma_unvisited_counts(unique_by_url(queue), visited, url);
}

/// An address that was scraped is in no batch of any later round: the set of
/// visited addresses only grows, and a batch holds no visited address.
pub proof fn lemma_never_fetched_again(
    queue: Seq<PageView>,
    earlier: Set<Seq<char>>,
    later: Set<Seq<char>>,
    url: Seq<char>,
)
    requires
        earlier.subset_of(later),
        earlier.contains(url),
    ensures
        !has_url(batch_of(queue, later), url),
{
    lemma_one_fetch_per_address(queue, later, url);
    lemma_count_url_zero(batch_of(queue, later), url);
}

/// Asking for any depth beyond the greatest is asking for the greatest.
pub proof fn lemma_depth_is_clamped(requested: u32)
    requires
        requested > MAX_DEPTH,
    ensures
        clamped_depth(requested) == clamped_depth(MAX_DEPTH),
{
}

/// The queue of pages to scrape and the set of addresses already scraped,
/// with the depth the crawl has reached and the depth it may reach.
#[derive(Debug)]
pub struct PageHandler<U: UrlTrait> {
    visited: VisitedSet<U>,
    pages_queue: VecDeque<Page<Pending, U>>,
    depth: Depth,
}

/// The addresses that were scraped. An address is held once, however often
/// it is inserted, and none is ever removed.
#[derive(Debug)]
pub struct VisitedSet<U: UrlTrait> {
    urls: Vec<Arc<U>>,
}

/// How far a crawl has come and how far it may go.
#[derive(Debug)]
pub(crate) struct Depth {
    pub(crate) cap: u32,
    pub(crate) reached: u32,
}

impl Depth {
    /// The cap is at most the greatest depth, and the depth reached is at
    /// most one beyond the cap.
    #[verifier::type_invariant]
    pub(crate) closed spec fn within_bounds(self) -> bool {
        self.cap <= MAX_DEPTH && self.reached <= self.cap + 1
    }

    /// The depths of a crawl that was asked to run to `requested`.
    pub(crate) fn start(requested: u32) -> (r: Self)
        ensures
            r.cap == clamped_depth(requested),
            r.reached == 0,
    {
        if requested > MAX_DEPTH {
            Depth { cap: MAX_DEPTH, reached: 0 }
        } else {
            Depth { cap: requested, reached: 0 }
        }
    }

    /// The depth the crawl may reach.
    pub(crate) fn limit(&self) -> (r: u32)
        ensures
            r == self.cap,
            r <= MAX_DEPTH,
    {
        proof {
            use_type_invariant(self);
        }
        self.cap
    }

    /// Whether the crawl has gone beyond its cap.
    pub(crate) fn exhausted(&self) -> (r: bool)
        ensures
            r == (self.reached > self.cap),
    {
        self.reached > self.cap
    }

    /// Counts one more round.
    pub(crate) fn advance(&mut self)
        requires
            old(self).reached <= old(self).cap,
        ensures
            final(self).cap == old(self).cap,
            final(self).reached == old(self).reached + 1,
    {
        proof {
            use_type_invariant(&*self);
        }
        self.reached = self.reached + 1;
    }
}

impl<U: UrlTrait> VisitedSet<U> {
    /// No address is held twice.
    #[verifier::type_invariant]
    closed spec fn held_once(self) -> bool {
        self.paths().no_duplicates()
    }

    /// The paths of the addresses, in the order they were inserted.
    closed spec fn paths(self) -> Seq<Seq<char>> {
        Seq::new(self.urls.len() as nat, |i: int| self.urls[i].path())
    }

    /// The canonical paths of the addresses in the set.
    pub closed spec fn view(&self) -> Set<Seq<char>> {
        self.paths().to_set()
    }

    /// The empty set.
    pub fn new() -> (r: Self)
        ensures
            r@ == Set::<Seq<char>>::empty(),
    {
        let r = VisitedSet { urls: Vec::new() };
        assert(r@ =~= Set::<Seq<char>>::empty());
        r
    }

    /// How many addresses are in the set.
    pub fn len(&self) -> (r: usize)
        ensures
            r == self@.len(),
            self@.finite(),
    {
        proof {
            use_type_invariant(self);
            self.paths().unique_seq_to_set();
        }
        self.urls.len()
    }

    /// Whether the address `url` is in the set.
    pub fn contains(&self, url: &U) -> (r: bool)
        ensures
            r == self@.contains(url.path()),
    {
        let mut i: usize = 0;
        while i < self.urls.len()
            invariant
                i <= self.urls.len(),
                forall|j: int| 0 <= j < i ==> self.paths()[j] != url.path(),
            decreases self.urls.len() - i,
        {
            if self.urls[i].same_address(url) {
                assert(self.paths()[i as int] == url.path());
                return true;
            }
            i += 1;
        }
        false
    }

    /// Puts the address `url` into the set. Returns whether it was new.
    pub fn insert(&mut self, url: Arc<U>) -> (fresh: bool)
        ensures
            final(self)@ == old(self)@.insert(url.path()),
            fresh == !old(self)@.contains(url.path()),
    {
        proof {
            use_type_invariant(&*self);
        }
        if self.contains(&*url) {
            assert(self@ =~= self@.insert(url.path()));
            return false;
        }
        let ghost before = self.paths();
        let mut urls: Vec<Arc<U>> = Vec::new();
        assert(Seq::new(urls.len() as nat, |i: int| urls[i].path()) =~= Seq::<Seq<char>>::empty());
        core::mem::swap(&mut self.urls, &mut urls);
        assert(Seq::new(urls.len() as nat, |i: int| urls[i].path()) =~= before);
        urls.push(url);
        proof {
            let after = Seq::new(urls.len() as nat, |i: int| urls[i].path());
            assert(after =~= before.push(url.path()));
            before.lemma_push_to_set_commute(url.path());
            assert forall|i: int, j: int|
                0 <= i < after.len() && 0 <= j < after.len() && i != j implies after[i]
                != after[j] by {
                if i < before.len() {
                    assert(before.to_set().contains(before[i]));
                }
                if j < before.len() {
                    assert(before.to_set().contains(before[j]));
                }
            }
        }
        self.urls = urls;
        true
    }
}

/// Storage for extracted content. The crawl itself stores nothing: whoever
/// runs it passes the pages that [`PageHandler::settle`] hands back to an
/// implementation of this trait.
pub trait DatabaseService<C> {
    /// Stores `content`.
    fn save_content(&self, content: &C) -> Result<(), Error>;
}

/// What a crawl offers to whoever feeds and starts it.
pub trait PageScraper<U: UrlTrait> {
    /// Appends `page` to the queue.
    fn add_page(&mut self, page: Page<Pending, U>);

    /// Appends `pages` to the queue, in order.
    fn add_pages(&mut self, pages: Vec<Page<Pending, U>>);

    /// Starts a crawl to the depth `max_depth`, or to the greatest depth if
    /// `max_depth` is beyond it.
    fn scrape_pages_recursive(&mut self, max_depth: u32);
}

impl<U: UrlTrait> PageHandler<U> {
    /// The canonical paths of the addresses that were scraped.
    pub closed spec fn visited(&self) -> Set<Seq<char>> {
        self.visited@
    }

    /// The pages that wait to be scraped, oldest first.
    pub closed spec fn queue(&self) -> Seq<PageView> {
        page_views(self.pages_queue@)
    }

    /// How many rounds of the crawl have been opened.
    pub closed spec fn depth(&self) -> nat {
        self.depth.reached as nat
    }

    /// The depth the crawl may reach: rounds are opened while `depth()` is at
    /// most this.
    pub closed spec fn depth_cap(&self) -> nat {
        self.depth.cap as nat
    }

    /// A handler with an empty queue and no visited address.
    pub fn new() -> (r: Self)
        ensures
            r.queue() == Seq::<PageView>::empty(),
            r.visited() == Set::<Seq<char>>::empty(),
            r.depth() == 0,
            r.depth_cap() == 0,
    {
        let r = PageHandler {
            visited: VisitedSet::new(),
            pages_queue: VecDeque::new(),
            depth: Depth::start(0),
        };
        assert(r.queue() =~= Seq::<PageView>::empty());
        r
    }

    /// How many addresses were scraped.
    pub fn visited_count(&self) -> (r: usize)
        ensures
            r == self.visited().len(),
    {
        self.visited.len()
    }

    /// How many pages wait to be scraped.
    pub fn queue_len(&self) -> (r: usize)
        ensures
            r == self.queue().len(),
    {
        self.pages_queue.len()
    }

    /// How many rounds of the crawl have been opened.
    pub fn current_depth(&self) -> (r: u32)
        ensures
            r == self.depth(),
    {
        self.depth.reached
    }

    /// The depth the crawl may reach.
    pub fn max_depth(&self) -> (r: u32)
        ensures
            r == self.depth_cap(),
            r <= MAX_DEPTH,
    {
        self.depth.limit()
    }

    /// Whether the address `url` was scraped.
    pub fn is_visited(&self, url: &U) -> (r: bool)
        ensures
            r == self.visited().contains(url.path()),
    {
        self.visited.contains(url)
    }

    /// Takes every page out of the queue, oldest first.
    pub(crate) fn drain_pages(&mut self) -> (pages: Vec<Page<Pending, U>>)
        ensures
            page_views(pages@) == old(self).queue(),
            final(self).queue() == Seq::<PageView>::empty(),
            final(self).visited() == old(self).visited(),
            final(self).depth() == old(self).depth(),
            final(self).depth_cap() == old(self).depth_cap(),
    {
        let mut pages: Vec<Page<Pending, U>> = Vec::new();
        let ghost all = self.pages_queue@;
        assert(pages@ + self.pages_queue@ =~= all);
        while self.pages_queue.len() > 0
            invariant
                pages@ + self.pages_queue@ == all,
                self.visited == old(self).visited,
                self.depth == old(self).depth,
            decreases self.pages_queue.len(),
        {
            match self.pages_queue.pop_front() {
                Some(page) => {
                    pages.push(page);
                    assert(pages@ + self.pages_queue@ =~= all);
                },
                None => {},
            }
        }
        assert(pages@ =~= all);
        assert(self.queue() =~= Seq::<PageView>::empty());
        pages
    }

    /// `pages` without every page whose address occurred earlier in `pages`:
    /// of the pages at one address the first stays, so that the result holds
    /// one page of every address of `pages`, each a page of `pages`, and no
    /// two at one address.
    pub(crate) fn get_unique_pages_to_scrape(&self, pages: Vec<Page<Pending, U>>) -> (unique: Vec<
        Page<Pending, U>,
    >)
        ensures
            page_views(unique@) == unique_by_url(page_views(pages@)),
            forall|url: Seq<char>|
                count_url(page_views(unique@), url) == if has_url(page_views(pages@), url) {
                    1nat
                } else {
                    0nat
                },
            forall|url: Seq<char>|
                has_url(page_views(unique@), url) <==> has_url(page_views(pages@), url),
            forall|i: int, j: int|
                0 <= i < j < unique.len() ==> (#[trigger] unique[i]).url_path() != (
                #[trigger] unique[j]).url_path(),
            forall|i: int|
                0 <= i < unique.len() ==> page_views(pages@).contains((#[trigger] unique[i])@),
    {
        let ghost all = page_views(pages@);
        let mut unique: Vec<Page<Pending, U>> = Vec::new();
        let mut i: usize = 0;
        assert(all.take(0) =~= Seq::<PageView>::empty());
        assert(page_views(unique@) =~= unique_by_url(all.take(0)));
        while i < pages.len()
            invariant
                i <= pages.len(),
                all == page_views(pages@),
                page_views(unique@) == unique_by_url(all.take(i as int)),
            decreases pages.len() - i,
        {
            let ghost earlier = all.take(i as int);
            let ghost kept = page_views(unique@);
            proof {
                assert(all.take(i + 1).drop_last() =~= earlier);
                assert(all.take(i + 1).last() == pages[i as int]@);
                assert forall|url: Seq<char>| has_url(kept, url) == has_url(earlier, url) by {
                    lemma_unique_by_url_counts(earlier, url);
                    lemma_count_url_zero(kept, url);
                }
            }
            if !holds_url(&unique, pages[i].url()) {
                unique.push(pages[i].clone());
                assert(page_views(unique@) =~= kept.push(pages[i as int]@));
            }
            i += 1;
        }
        assert(all.take(i as int) =~= all);
        proof {
            lemma_unique_by_url(all);
            assert forall|url: Seq<char>|
                count_url(page_views(unique@), url) == if has_url(all, url) {
                    1nat
                } else {
                    0nat
                } by {
                lemma_unique_by_url_counts(all, url);
            }
            assert forall|i: int, j: int| 0 <= i < j < unique.len() implies (
            #[trigger] unique[i]).url_path() != (#[trigger] unique[j]).url_path() by {
                assert(page_views(unique@)[i].url != page_views(unique@)[j].url);
            }
            assert forall|i: int| 0 <= i < unique.len() implies all.contains(
                (#[trigger] unique[i])@,
            ) by {
                assert(all.contains(page_views(unique@)[i]));
            }
        }
        unique
    }

    /// Removes from `pages` the pages whose address was scraped. The others
    /// stay, in their order.
    pub(crate) fn remove_visited_pages(&self, pages: &mut Vec<Page<Pending, U>>)
        ensures
            page_views(final(pages)@) == unvisited(page_views(old(pages)@), self.visited()),
            forall|i: int|
                0 <= i < final(pages).len() ==> {
                    &&& !self.visited().contains((#[trigger] final(pages)[i]).url_path())
                    &&& page_views(old(pages)@).contains(final(pages)[i]@)
                },
            forall|j: int|
                0 <= j < old(pages).len() && !self.visited().contains(
                    (#[trigger] old(pages)[j]).url_path(),
                ) ==> page_views(final(pages)@).contains(old(pages)[j]@),
    {
        let ghost all = page_views(pages@);
        let ghost keep = |page: PageView| !self.visited().contains(page.url);
        let mut kept: Vec<Page<Pending, U>> = Vec::new();
        let mut i: usize = 0;
        proof {
            reveal(Seq::filter);
            assert(all.take(0) =~= Seq::<PageView>::empty());
            assert(page_views(kept@) =~= all.take(0).filter(keep));
        }
        while i < pages.len()
            invariant
                i <= pages.len(),
                all == page_views(pages@),
                keep == |page: PageView| !self.visited().contains(page.url),
                page_views(kept@) == all.take(i as int).filter(keep),
            decreases pages.len() - i,
        {
            let ghost before = page_views(kept@);
            proof {
                assert(all.take(i + 1) =~= all.take(i as int).push(pages[i as int]@));
                Seq::lemma_filter_push(all.take(i as int), pages[i as int]@, keep);
            }
            if !self.is_visited(pages[i].url()) {
                kept.push(pages[i].clone());
                assert(page_views(kept@) =~= before.push(pages[i as int]@));
            }
            i += 1;
        }
        assert(all.take(i as int) =~= all);
        proof {
            lemma_unvisited(all, self.visited());
            assert forall|k: int| 0 <= k < kept.len() implies {
                &&& !self.visited().contains((#[trigger] kept[k]).url_path())
                &&& all.contains(kept[k]@)
            } by {
                assert(page_views(kept@)[k] == unvisited(all, self.visited())[k]);
            }
            assert forall|j: int|
                0 <= j < old(pages).len() && !self.visited().contains(
                    (#[trigger] old(pages)[j]).url_path(),
                ) implies page_views(kept@).contains(old(pages)[j]@) by {
                assert(all[j] == old(pages)[j]@);
            }
        }
        *pages = kept;
    }

    /// Opens the next round of the crawl and returns its batch, or returns
    /// `None` where the crawl has ended: beyond the depth it may reach, or on
    /// an empty queue. Ending changes nothing.
    ///
    /// The batch holds one page, the first, of every address in the queue
    /// that was not scraped before, in the order of the queue. The queue is
    /// empty afterwards, so that what the pages of this round link to is
    /// what the next round finds there.
    pub fn get_pages_recursive_internal(&mut self) -> (batch: Option<Vec<Page<Pending, U>>>)
        ensures
            final(self).visited() == old(self).visited(),
            final(self).depth_cap() == old(self).depth_cap(),
            batch is None <==> old(self).depth() > old(self).depth_cap() || old(
                self,
            ).queue().len() == 0,
            batch is None ==> final(self).queue() == old(self).queue() && final(self).depth()
                == old(self).depth(),
            batch matches Some(pages) ==> {
                &&& page_views(pages@) == batch_of(old(self).queue(), old(self).visited())
                &&& final(self).queue() == Seq::<PageView>::empty()
                &&& final(self).depth() == old(self).depth() + 1
            },
    {
        if self.depth.exhausted() || self.pages_queue.len() == 0 {
            return None;
        }
        let drained = self.drain_pages();
        let mut pages = self.get_unique_pages_to_scrape(drained);
        self.remove_visited_pages(&mut pages);
        self.depth.advance();
        Some(pages)
    }

    /// Takes in the outcome of scraping one page of a batch.
    ///
    /// A failure is dropped: nothing changes and nothing is handed back. For
    /// a scraped page, the pages it links to are appended to the queue, then
    /// its address is marked as visited, and the page is handed back.
    pub fn settle<C: ScrapableContent<Url = U>>(
        &mut self,
        outcome: Result<Page<WasScraped<C>, U>, Error>,
    ) -> (scraped: Option<Page<WasScraped<C>, U>>)
        ensures
            final(self).depth() == old(self).depth(),
            final(self).depth_cap() == old(self).depth_cap(),
            old(self).visited().subset_of(final(self).visited()),
            match outcome {
                Ok(page) => {
                    &&& scraped == Some(page)
                    &&& final(self).queue() == old(self).queue() + page.content().related()
                    &&& final(self).visited() == old(self).visited().insert(page.url_path())
                },
                Err(_) => {
                    &&& scraped is None
                    &&& final(self).queue() == old(self).queue()
                    &&& final(self).visited() == old(self).visited()
                },
            },
    {
        match outcome {
            Err(_) => None,
            Ok(page) => {
                let links = page.get_all_page_links();
                let ghost found = page.content().related();
                let ghost queue_before = self.queue();
                let mut i: usize = 0;
                assert(found.take(0) =~= Seq::<PageView>::empty());
                assert(self.queue() =~= queue_before + found.take(0));
                while i < links.len()
                    invariant
                        i <= links.len(),
                        found == Seq::new(links.len() as nat, |k: int| links[k]@),
                        self.queue() == queue_before + found.take(i as int),
                        self.visited == old(self).visited,
                        self.depth == old(self).depth,
                    decreases links.len() - i,
                {
                    let ghost before = self.queue();
                    self.pages_queue.push_back(links[i].clone().into_pending());
                    proof {
                        assert(self.queue() =~= before.push(links[i as int]@));
                        assert(found.take(i + 1) =~= found.take(i as int).push(links[i as int]@));
                    }
                    i += 1;
                }
                assert(found.take(i as int) =~= found);
                self.visited.insert(page.get_url_arc());
                Some(page)
            },
        }
    }
}

/// Whether some page of `pages` is at the address `url`.
fn holds_url<U: UrlTrait>(pages: &Vec<Page<Pending, U>>, url: &U) -> (r: bool)
    ensures
        r == has_url(page_views(pages@), url.path()),
{
    let mut i: usize = 0;
    while i < pages.len()
        invariant
            i <= pages.len(),
            forall|j: int| 0 <= j < i ==> (#[trigger] page_views(pages@)[j]).url != url.path(),
        decreases pages.len() - i,
    {
        if pages[i].url().same_address(url) {
            assert(page_views(pages@)[i as int].url == url.path());
            return true;
        }
        i += 1;
    }
    false
}

impl<U: UrlTrait> PageScraper<U> for PageHandler<U> {
    fn add_page(&mut self, page: Page<Pending, U>)
        ensures
            final(self).queue() == old(self).queue().push(page@),
            final(self).visited() == old(self).visited(),
            final(self).depth() == old(self).depth(),
            final(self).depth_cap() == old(self).depth_cap(),
    {
        self.pages_queue.push_back(page);
        assert(self.queue() =~= old(self).queue().push(page@));
    }

    fn add_pages(&mut self, pages: Vec<Page<Pending, U>>)
        ensures
            final(self).queue() == old(self).queue() + page_views(pages@),
            final(self).visited() == old(self).visited(),
            final(self).depth() == old(self).depth(),
            final(self).depth_cap() == old(self).depth_cap(),
    {
        let ghost all = page_views(pages@);
        let ghost queue_before = self.queue();
        let mut i: usize = 0;
        assert(self.queue() =~= queue_before + all.take(0));
        while i < pages.len()
            invariant
                i <= pages.len(),
                all == page_views(pages@),
                self.queue() == queue_before + all.take(i as int),
                self.visited == old(self).visited,
                self.depth == old(self).depth,
            decreases pages.len() - i,
        {
            let ghost before = self.queue();
            self.pages_queue.push_back(pages[i].clone());
            proof {
                assert(self.queue() =~= before.push(pages[i as int]@));
                assert(all.take(i + 1) =~= all.take(i as int).push(pages[i as int]@));
            }
            i += 1;
        }
        assert(all.take(i as int) =~= all);
    }

    fn scrape_pages_recursive(&mut self, max_depth: u32)
        ensures
            final(self).depth_cap() == clamped_depth(max_depth),
            final(self).depth() == 0,
            final(self).queue() == old(self).queue(),
            final(self).visited() == old(self).visited(),
    {
        self.depth = Depth::start(max_depth);
    }
}

} // verus!
