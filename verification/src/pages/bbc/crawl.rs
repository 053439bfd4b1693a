//! The rounds of a crawl over BBC News articles.
//!
//! The addresses to fetch and the addresses already scraped are kept by
//! whoever runs the crawl. [`get_pages_recursive_internal`] opens a round on
//! them, [`scrape_urls`] keeps the articles that were read, and
//! [`insert_data`] takes these in: their addresses count as scraped, and
//! the addresses they link to are what the next round is opened on.

use vstd::prelude::*;
use crate::common::handler::{clamped_depth, MAX_DEPTH};
use crate::crawl::round_of;
use crate::pages::bbc::{url_texts, LinkedArticle, URL};
use crate::pages::error::Error;
use crate::text::{each_once, same_text};

verus! {

/// The articles among `outcomes`, in order.
pub open spec fn scraped(outcomes: Seq<Result<LinkedArticle, Error>>) -> Seq<LinkedArticle> {
    outcomes.filter(|outcome: Result<LinkedArticle, Error>| outcome is Ok).map_values(
        |outcome: Result<LinkedArticle, Error>| outcome->Ok_0,
    )
}

/// The addresses of `articles`.
pub open spec fn addresses_of(articles: Seq<LinkedArticle>) -> Seq<Seq<char>> {
    Seq::new(articles.len(), |i: int| articles[i].article.url.0@)
}

/// The addresses that `articles` link to, article by article.
pub open spec fn linked_from(articles: Seq<LinkedArticle>) -> Seq<Seq<char>>
    decreases articles.len(),
{
    if articles.len() == 0 {
        Seq::empty()
    } else {
        linked_from(articles.drop_last()) + url_texts(articles.last().links@)
    }
}

/// Whether `url` is among `urls`.
fn holds(urls: &Vec<URL>, url: &URL) -> (r: bool)
    ensures
        r == url_texts(urls@).contains(url.0@),
{
    let mut i: usize = 0;
    while i < urls.len()
        invariant
            i <= urls.len(),
            forall|j: int| 0 <= j < i ==> url_texts(urls@)[j] != url.0@,
        decreases urls.len() - i,
    {
        if same_text(urls[i].0.as_str(), url.0.as_str()) {
            assert(url_texts(urls@)[i as int] == url.0@);
            return true;
        }
        i += 1;
    }
    false
}

/// The depth a crawl runs to when `max_depth` is asked for: `max_depth`, or
/// the greatest depth if `max_depth` is beyond it. The first round is the
/// round of depth zero.
pub fn get_pages_recursive(max_depth: u32) -> (depth: u32)
    ensures
        depth == clamped_depth(max_depth),
        depth <= MAX_DEPTH,
{
    if max_depth > MAX_DEPTH {
        MAX_DEPTH
    } else {
        max_depth
    }
}

/// Opens the round of depth `current_depth` of a crawl that runs to
/// `max_depth`. Returns whether there is a round: there is none beyond
/// `max_depth`, and none where nothing is to fetch, and then nothing
/// changes. Otherwise `articles_to_fetch` becomes the addresses of the
/// round: those it held that are not in `visited`, each once.
pub fn get_pages_recursive_internal(
    max_depth: u32,
    current_depth: u32,
    articles_to_fetch: &mut Vec<URL>,
    visited: &Vec<URL>,
) -> (open: bool)
    ensures
        open == (current_depth <= max_depth && old(articles_to_fetch).len() > 0),
        !open ==> *final(articles_to_fetch) == *old(articles_to_fetch),
        open ==> url_texts(final(articles_to_fetch)@) == round_of(
            url_texts(old(articles_to_fetch)@),
            url_texts(visited@).to_set(),
        ),
{
    if current_depth > max_depth || articles_to_fetch.len() == 0 {
        return false;
    }
    let ghost all = url_texts(articles_to_fetch@);
    let ghost seen = url_texts(visited@).to_set();
    let ghost keep = |address: Seq<char>| !seen.contains(address);
    let mut unique: Vec<URL> = Vec::new();
    let mut batch: Vec<URL> = Vec::new();
    let mut i: usize = 0;
    proof {
        reveal(Seq::filter);
        assert(all.take(0) =~= Seq::<Seq<char>>::empty());
        assert(url_texts(unique@) =~= each_once(all.take(0)));
        assert(url_texts(batch@) =~= each_once(all.take(0)).filter(keep));
    }
    while i < articles_to_fetch.len()
        invariant
            i <= articles_to_fetch.len(),
            all == url_texts(articles_to_fetch@),
            seen == url_texts(visited@).to_set(),
            keep == |address: Seq<char>| !seen.contains(address),
            url_texts(unique@) == each_once(all.take(i as int)),
            url_texts(batch@) == each_once(all.take(i as int)).filter(keep),
        decreases articles_to_fetch.len() - i,
    {
        let ghost once = url_texts(unique@);
        let ghost kept = url_texts(batch@);
        let url = &articles_to_fetch[i];
        proof {
            assert(all.take(i + 1).drop_last() =~= all.take(i as int));
            assert(all.take(i + 1).last() == url.0@);
        }
        if !holds(&unique, url) {
            proof {
                Seq::lemma_filter_push(once, url.0@, keep);
            }
            unique.push(url.clone());
            assert(url_texts(unique@) =~= once.push(url.0@));
            if !holds(visited, url) {
                batch.push(url.clone());
                assert(url_texts(batch@) =~= kept.push(url.0@));
            }
        }
        i += 1;
    }
    assert(all.take(i as int) =~= all);
    *articles_to_fetch = batch;
    true
}

/// The articles that were read, in order: a page that failed is dropped.
pub fn scrape_urls(outcomes: Vec<Result<LinkedArticle, Error>>) -> (articles: Vec<LinkedArticle>)
    ensures
        articles@ == scraped(outcomes@),
{
    let ghost is_ok = |outcome: Result<LinkedArticle, Error>| outcome is Ok;
    let ghost article_of = |outcome: Result<LinkedArticle, Error>| outcome->Ok_0;
    let mut articles: Vec<LinkedArticle> = Vec::new();
    proof {
        reveal(Seq::filter);
        assert(outcomes@.take(0) =~= Seq::<Result<LinkedArticle, Error>>::empty());
        assert(articles@ =~= outcomes@.take(0).filter(is_ok).map_values(article_of));
    }
    for outcome in it: outcomes
        invariant
            it.seq() == outcomes@,
            is_ok == |outcome: Result<LinkedArticle, Error>| outcome is Ok,
            article_of == |outcome: Result<LinkedArticle, Error>| outcome->Ok_0,
            articles@ == it.seq().take(it.index() as int).filter(is_ok).map_values(article_of),
    {
        let ghost before = articles@;
        let ghost earlier = it.seq().take(it.index() as int);
        proof {
            assert(it.seq().take(it.index() + 1) =~= earlier.push(outcome));
            Seq::lemma_filter_push(earlier, outcome, is_ok);
        }
        match outcome {
            Ok(article) => {
                articles.push(article);
                assert(articles@ =~= earlier.filter(is_ok).push(outcome).map_values(article_of));
            },
            Err(_) => {},
        }
    }
    assert(outcomes@.take(outcomes@.len() as int) =~= outcomes@);
    articles
}

/// Takes in the articles of a round: the address of each is put into
/// `visited`, once, and `articles_to_fetch` becomes the addresses they link
/// to, article by article.
pub fn insert_data(
    linked_articles: &Vec<LinkedArticle>,
    visited: &mut Vec<URL>,
    articles_to_fetch: &mut Vec<URL>,
)
    ensures
        url_texts(final(visited)@).to_set() == url_texts(old(visited)@).to_set().union(
            addresses_of(linked_articles@).to_set(),
        ),
        url_texts(old(visited)@).no_duplicates() ==> url_texts(final(visited)@).no_duplicates(),
        url_texts(final(articles_to_fetch)@) == linked_from(linked_articles@),
{
    let ghost before = url_texts(visited@).to_set();
    let mut found: Vec<URL> = Vec::new();
    let mut i: usize = 0;
    proof {
        assert(linked_articles@.take(0) =~= Seq::<LinkedArticle>::empty());
        assert(url_texts(found@) =~= linked_from(linked_articles@.take(0)));
        assert(url_texts(visited@).to_set() =~= before.union(
            addresses_of(linked_articles@.take(0)).to_set(),
        ));
    }
    while i < linked_articles.len()
        invariant
            i <= linked_articles.len(),
            url_texts(visited@).to_set() == before.union(
                addresses_of(linked_articles@.take(i as int)).to_set(),
            ),
            url_texts(old(visited)@).no_duplicates() ==> url_texts(visited@).no_duplicates(),
            url_texts(found@) == linked_from(linked_articles@.take(i as int)),
        decreases linked_articles.len() - i,
    {
        let linked = &linked_articles[i];
        let ghost held = url_texts(visited@);
        let ghost taken = addresses_of(linked_articles@.take(i as int));
        proof {
            assert(linked_articles@.take(i + 1).drop_last() =~= linked_articles@.take(i as int));
            assert(linked_articles@.take(i + 1).last() == *linked);
            assert(addresses_of(linked_articles@.take(i + 1)) =~= taken.push(
                linked.article.url.0@,
            ));
            taken.lemma_push_to_set_commute(linked.article.url.0@);
        }
        if !holds(visited, &linked.article.url) {
            visited.push(linked.article.url.clone());
            proof {
                assert(url_texts(visited@) =~= held.push(linked.article.url.0@));
                held.lemma_push_to_set_commute(linked.article.url.0@);
                assert(url_texts(visited@).to_set() =~= before.union(
                    addresses_of(linked_articles@.take(i + 1)).to_set(),
                ));
            }
        } else {
            assert(url_texts(visited@).to_set() =~= before.union(
                addresses_of(linked_articles@.take(i + 1)).to_set(),
            ));
        }
        let ghost links = url_texts(linked.links@);
        let ghost found_before = url_texts(found@);
        let mut j: usize = 0;
        assert(url_texts(found@) =~= found_before + links.take(0));
        while j < linked.links.len()
            invariant
                j <= linked.links.len(),
                links == url_texts(linked.links@),
                url_texts(found@) == found_before + links.take(j as int),
            decreases linked.links.len() - j,
        {
            let ghost so_far = url_texts(found@);
            found.push(linked.links[j].clone());
            proof {
                assert(url_texts(found@) =~= so_far.push(linked.links[j as int].0@));
                assert(links.take(j + 1) =~= links.take(j as int).push(linked.links[j as int].0@));
            }
            j += 1;
        }
        assert(links.take(j as int) =~= links);
        i += 1;
    }
    assert(linked_articles@.take(i as int) =~= linked_articles@);
    *articles_to_fetch = found;
}

} // verus!
