//! Reading BBC News articles and the links of the front page out of their
//! documents.

use vstd::prelude::*;
use scraper::{ElementRef, Html};
use crate::error::FetchError;
use crate::html::{
    find_in, find_in_document, first_text_in, found_in, found_in_document, hrefs, hrefs_of,
    text_of, texts_in, texts_of,
};
use crate::pages::bbc::{article_urls, url_texts, Article, LinkedArticle, URL};
use crate::pages::error::Error;
use crate::text::{each_once, join, joined, texts};

verus! {

/// The article at `url` from what was found in its document: the headline,
/// the text blocks, and the entries of the topic list, `None` for what the
/// document lacks, and the addresses of its links. The text of the article
/// is the text blocks with an empty line between each two. The first part
/// that is missing, in the order headline, text, topic list, gives the
/// error; an empty text counts as missing.
pub fn article_from_parts(
    url: &URL,
    title: Option<String>,
    blocks: Vec<String>,
    related_topics: Option<Vec<String>>,
    links: Vec<String>,
) -> (r: Result<LinkedArticle, Error>)
    ensures
        r is Ok <==> title is Some && joined(texts(blocks@), "\n\n"@).len() > 0
            && related_topics is Some,
        r matches Ok(linked) ==> {
            &&& linked.article.url.0@ == url.0@
            &&& linked.article.title@ == title->Some_0@
            &&& linked.article.content@ == joined(texts(blocks@), "\n\n"@)
            &&& linked.article.related_topics == related_topics->Some_0
            &&& url_texts(linked.links@) == article_urls(texts(links@))
        },
        r matches Err(e) ==> e == if title is None {
            Error::NoTitleFound
        } else if joined(texts(blocks@), "\n\n"@).len() == 0 {
            Error::NoContentFound
        } else {
            Error::NoRelatedTopicsFound
        },
{
    let title = match title {
        Some(title) => title,
        None => {
            return Err(Error::NoTitleFound);
        },
    };
    let content = join(&blocks, "\n\n");
    if content.as_str().is_empty() {
        return Err(Error::NoContentFound);
    }
    let related_topics = match related_topics {
        Some(related_topics) => related_topics,
        None => {
            return Err(Error::NoRelatedTopicsFound);
        },
    };
    let article = Article::new(URL(url.0.clone()), title.as_str(), content.as_str(), related_topics);
    Ok(LinkedArticle::new(article, links))
}

/// The addresses that were found, or the error that none was.
pub fn found_urls(urls: Vec<String>) -> (r: Result<Vec<String>, Error>)
    ensures
        r is Ok <==> urls.len() > 0,
        r matches Ok(found) ==> found == urls,
        r matches Err(e) ==> e == Error::NoUrlsFound,
{
    if urls.len() == 0 {
        Err(Error::NoUrlsFound)
    } else {
        Ok(urls)
    }
}

/// The addresses of the articles that the links of the headlines and of
/// the most read articles name, each once.
pub fn base_urls(headline: Vec<String>, most_read: Vec<String>) -> (r: Vec<URL>)
    ensures
        url_texts(r@) == each_once(article_urls(texts(headline@) + texts(most_read@))),
{
    let mut all = headline;
    let mut more = most_read;
    let ghost before = texts(all@);
    let ghost added = texts(more@);
    all.append(&mut more);
    assert(texts(all@) =~= before + added);
    let urls = URL::from_list(all);
    let ghost found = url_texts(urls@);
    let mut out: Vec<URL> = Vec::new();
    let mut i: usize = 0;
    assert(found.take(0) =~= Seq::<Seq<char>>::empty());
    assert(url_texts(out@) =~= each_once(found.take(0)));
    while i < urls.len()
        invariant
            i <= urls.len(),
            found == url_texts(urls@),
            url_texts(out@) == each_once(found.take(i as int)),
        decreases urls.len() - i,
    {
        let ghost kept = url_texts(out@);
        proof {
            assert(found.take(i + 1).drop_last() =~= found.take(i as int));
            assert(found.take(i + 1).last() == urls[i as int].0@);
        }
        if !holds(&out, &urls[i]) {
            out.push(URL(urls[i].0.clone()));
            assert(url_texts(out@) =~= kept.push(urls[i as int].0@));
        }
        i += 1;
    }
    assert(found.take(i as int) =~= found);
    out
}

/// Whether `url` is among `urls`.
fn holds(urls: &Vec<URL>, url: &URL) -> (r: bool)
    ensures
        r == url_texts(urls@).contains(url.0@),
{
    let mut i: usize = 0;
    while i < urls.len()
        invariant
            i <= urls.len(),
            forall|j: int| 0 <= j < i ==> url_texts(urls@)[j] != url.0@,
        decreases urls.len() - i,
    {
        if urls[i].0 == url.0 {
            assert(url_texts(urls@)[i as int] == url.0@);
            return true;
        }
        i += 1;
    }
    false
}

/// The addresses of the links in `element` that have one, in the order in
/// which they are found.
pub open spec fn addresses_in(element: ElementRef) -> Seq<Seq<char>> {
    hrefs(found_in(element, "a"@))
}

/// The addresses of the links in the first element of `document` that
/// `selector` selects; `None` if nothing is selected or the element holds
/// no link with an address.
pub open spec fn addresses_within(document: &Html, selector: Seq<char>) -> Option<Seq<Seq<char>>> {
    let found = found_in_document(document, selector);
    if found.len() == 0 || addresses_in(found[0]).len() == 0 {
        None
    } else {
        Some(addresses_in(found[0]))
    }
}

/// The addresses of the links in `element` that have one.
fn link_addresses(element: &ElementRef) -> (r: Vec<String>)
    ensures
        texts(r@) == addresses_in(*element),
{
    hrefs_of(&find_in(element, "a"))
}

/// The addresses of the links in the first element of `document` that
/// `selector` selects, or the error that there is none.
fn links_within(document: &Html, selector: &str) -> (r: Result<Vec<String>, Error>)
    ensures
        r is Ok <==> addresses_within(document, selector@) is Some,
        r matches Ok(urls) ==> Some(texts(urls@)) == addresses_within(document, selector@),
        r matches Err(e) ==> e == Error::NoUrlsFound,
{
    let found = find_in_document(document, selector);
    if found.len() == 0 {
        return Err(Error::NoUrlsFound);
    }
    found_urls(link_addresses(&found[0]))
}

/// The addresses of the links among the most read articles.
pub fn scrape_most_read(document: &Html) -> (r: Result<Vec<String>, Error>)
    ensures
        r is Ok <==> addresses_within(document, "div[data-component='mostRead']"@) is Some,
        r matches Ok(urls) ==> Some(texts(urls@)) == addresses_within(
            document,
            "div[data-component='mostRead']"@,
        ),
        r matches Err(e) ==> e == Error::NoUrlsFound,
{
    links_within(document, "div[data-component='mostRead']")
}

/// The addresses of the links among the headlines.
pub fn scrape_headline(document: &Html) -> (r: Result<Vec<String>, Error>)
    ensures
        r is Ok <==> addresses_within(document, "div#nations-news-uk"@) is Some,
        r matches Ok(urls) ==> Some(texts(urls@)) == addresses_within(
            document,
            "div#nations-news-uk"@,
        ),
        r matches Err(e) ==> e == Error::NoUrlsFound,
{
    links_within(document, "div#nations-news-uk")
}

/// The addresses of the articles that the front page leads to, each once,
/// from the outcome of retrieving the front page.
pub fn scrape_base_url(fetched: Result<Html, FetchError>) -> (r: Result<Vec<URL>, Error>)
    ensures
        fetched matches Err(failure) ==> r == Err::<Vec<URL>, Error>(Error::Fetch(failure)),
        fetched matches Ok(document) ==> {
            let headline = addresses_within(&document, "div#nations-news-uk"@);
            let most_read = addresses_within(&document, "div[data-component='mostRead']"@);
            &&& r is Ok <==> headline is Some && most_read is Some
            &&& r matches Ok(urls) ==> url_texts(urls@) == each_once(
                article_urls(headline->Some_0 + most_read->Some_0),
            )
            &&& r matches Err(e) ==> e == Error::NoUrlsFound
        },
{
    let document = match fetched {
        Ok(document) => document,
        Err(failure) => {
            return Err(Error::Fetch(failure));
        },
    };
    let headline = match scrape_headline(&document) {
        Ok(headline) => headline,
        Err(e) => {
            return Err(e);
        },
    };
    let most_read = match scrape_most_read(&document) {
        Ok(most_read) => most_read,
        Err(e) => {
            return Err(e);
        },
    };
    Ok(base_urls(headline, most_read))
}

/// The `article` elements of a document.
pub open spec fn articles_in(document: &Html) -> Seq<ElementRef> {
    found_in_document(document, "article"@)
}

/// The headline of an article: the text of its first `h1` element.
pub open spec fn title_in(article: ElementRef) -> Option<Seq<char>> {
    first_text_in(found_in(article, "h1"@))
}

/// The texts of the text blocks of an article.
pub open spec fn blocks_in(article: ElementRef) -> Seq<Seq<char>> {
    texts_in(found_in(article, "div[data-component='text-block']"@))
}

/// The texts of the entries of the first topic list of an article, `None`
/// if it has no topic list.
pub open spec fn topics_in(article: ElementRef) -> Option<Seq<Seq<char>>> {
    let lists = found_in(article, "div[data-component='topic-list']"@);
    if lists.len() == 0 {
        None
    } else {
        Some(texts_in(found_in(lists[0], "li"@)))
    }
}

/// The first `article` element of the document.
fn extract_article<'a>(document: &'a Html) -> (r: Result<ElementRef<'a>, Error>)
    ensures
        r is Ok <==> articles_in(document).len() > 0,
        r matches Ok(article) ==> article == articles_in(document)[0],
        r matches Err(e) ==> e == Error::NoArticleFound,
{
    let mut found = find_in_document(document, "article");
    if found.len() > 0 {
        Ok(found.remove(0))
    } else {
        Err(Error::NoArticleFound)
    }
}

/// The text of the first `h1` element of the article.
fn extract_title(article: &ElementRef) -> (r: Option<String>)
    ensures
        crate::text::text_of(r) == title_in(*article),
{
    let found = find_in(article, "h1");
    if found.len() > 0 {
        Some(text_of(&found[0]))
    } else {
        None
    }
}

/// The texts of the text blocks of the article.
fn extract_content(article: &ElementRef) -> (r: Vec<String>)
    ensures
        texts(r@) == blocks_in(*article),
{
    texts_of(&find_in(article, "div[data-component='text-block']"))
}

/// The texts of the entries of the first topic list of the article, `None`
/// if it has no topic list.
fn extract_related_topics(article: &ElementRef) -> (r: Option<Vec<String>>)
    ensures
        r is Some <==> topics_in(*article) is Some,
        r matches Some(topics) ==> Some(texts(topics@)) == topics_in(*article),
{
    let lists = find_in(article, "div[data-component='topic-list']");
    if lists.len() == 0 {
        return None;
    }
    Some(texts_of(&find_in(&lists[0], "li")))
}

/// The addresses of the links of the article.
fn extract_related_links(article: &ElementRef) -> (r: Vec<String>)
    ensures
        texts(r@) == addresses_in(*article),
{
    link_addresses(article)
}

/// What a document lacks of an article, in the order article, headline,
/// text, topic list; `None` if it lacks nothing. An empty text counts as
/// missing.
pub open spec fn missing_in(document: &Html) -> Option<Error> {
    if articles_in(document).len() == 0 {
        Some(Error::NoArticleFound)
    } else if title_in(articles_in(document)[0]) is None {
        Some(Error::NoTitleFound)
    } else if joined(blocks_in(articles_in(document)[0]), "\n\n"@).len() == 0 {
        Some(Error::NoContentFound)
    } else if topics_in(articles_in(document)[0]) is None {
        Some(Error::NoRelatedTopicsFound)
    } else {
        None
    }
}

/// The article at `url` with the articles it links to, read out of
/// `document`.
pub fn scrape_article(url: &URL, document: &Html) -> (r: Result<LinkedArticle, Error>)
    ensures
        r is Ok <==> missing_in(document) is None,
        r matches Err(e) ==> Some(e) == missing_in(document),
        r matches Ok(linked) ==> {
            let article = articles_in(document)[0];
            &&& linked.article.url.0@ == url.0@
            &&& Some(linked.article.title@) == title_in(article)
            &&& linked.article.content@ == joined(blocks_in(article), "\n\n"@)
            &&& Some(texts(linked.article.related_topics@)) == topics_in(article)
            &&& url_texts(linked.links@) == article_urls(addresses_in(article))
        },
{
    let article = match extract_article(document) {
        Ok(article) => article,
        Err(e) => {
            return Err(e);
        },
    };
    article_from_parts(
        url,
        extract_title(&article),
        extract_content(&article),
        extract_related_topics(&article),
        extract_related_links(&article),
    )
}

/// The article at `url` with the articles it links to, from the outcome of
/// retrieving it.
pub fn scrape_page(url: &URL, fetched: Result<Html, FetchError>) -> (r: Result<
    LinkedArticle,
    Error,
>)
    ensures
        fetched matches Err(failure) ==> r == Err::<LinkedArticle, Error>(Error::Fetch(failure)),
        fetched matches Ok(document) ==> {
            &&& r is Ok <==> missing_in(&document) is None
            &&& r matches Err(e) ==> Some(e) == missing_in(&document)
            &&& r matches Ok(linked) ==> {
                let article = articles_in(&document)[0];
                &&& linked.article.url.0@ == url.0@
                &&& Some(linked.article.title@) == title_in(article)
                &&& linked.article.content@ == joined(blocks_in(article), "\n\n"@)
                &&& Some(texts(linked.article.related_topics@)) == topics_in(article)
                &&& url_texts(linked.links@) == article_urls(addresses_in(article))
            }
        },
{
    match fetched {
        Ok(document) => scrape_article(url, &document),
        Err(failure) => Err(Error::Fetch(failure)),
    }
}

} // verus!
