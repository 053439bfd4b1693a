use page_crawler::common::handler::MAX_DEPTH;
use page_crawler::common::{
    LinkTo, Page, PageHandler, PageScraper, PageState, Pending, Scrapable, ScrapableContent,
    ToScrape, UrlTrait,
};
use page_crawler::error::{Error, FetchError};
use page_crawler::sites::bbc::error::BBCError;
use page_crawler::sites::bbc::{BBCContent, BBCUrl};
use scraper::Html;

fn seed(path: &str) -> Page<Pending, BBCUrl> {
    Page::new_to_scrape(BBCUrl::parse(path).unwrap()).into_pending()
}

fn link(path: &str, title: &str) -> Page<Pending, BBCUrl> {
    Page::new_link_to(BBCUrl::parse(path).unwrap(), title).into_pending()
}

fn article(links: &[(&str, &str)]) -> String {
    let mut anchors = String::new();
    for (href, text) in links {
        anchors.push_str(&format!("<a href=\"{}\">{}</a>", href, text));
    }
    format!(
        "<html><body><article><h1>Headline</h1>\
         <div data-component='text-block'>Some text.</div>\
         <div data-component='topic-list'><ul><li>Topic</li></ul></div>{}</article></body></html>",
        anchors
    )
}

/// Runs a crawl to the end against the documents of `site`, a list of
/// paths and what is served there. Returns the paths that were fetched, in
/// order, and how many pages were scraped.
fn run(
    handler: &mut PageHandler<BBCUrl>,
    depth: u32,
    site: &[(&str, Result<String, FetchError>)],
) -> (Vec<String>, usize) {
    let mut fetched: Vec<String> = Vec::new();
    let mut scraped = 0;
    handler.scrape_pages_recursive(depth);
    while let Some(batch) = handler.get_pages_recursive_internal() {
        for page in batch {
            if handler.is_visited(page.url()) {
                continue;
            }
            let path = page.url().to_string();
            fetched.push(path.clone());
            let served = site
                .iter()
                .find(|(p, _)| *p == path)
                .map(|(_, r)| r.clone())
                .unwrap_or(Err(FetchError::Status(404)));
            let document = served.map(|text| Html::parse_document(&text));
            if handler.settle(page.scrape::<BBCContent>(document)).is_some() {
                scraped += 1;
            }
        }
    }
    (fetched, scraped)
}

#[test]
fn one_fetch_for_pages_that_share_an_address() {
    let mut handler = PageHandler::<BBCUrl>::new();
    handler.add_pages(vec![
        seed("/news/articles/a"),
        link("/news/articles/a", "again"),
        seed("/news/articles/b"),
        link("https://www.bbc.co.uk/news/articles/a", "and again"),
    ]);
    handler.scrape_pages_recursive(3);
    let batch = handler.get_pages_recursive_internal().unwrap();
    let paths: Vec<String> = batch.iter().map(|p| p.url().to_string()).collect();
    assert_eq!(paths, vec!["/news/articles/a", "/news/articles/b"]);
    assert_eq!(batch[0].get_title(), None);
    assert_eq!(handler.queue_len(), 0);
    assert_eq!(handler.current_depth(), 1);
}

#[test]
fn same_address_with_different_titles_is_fetched_once() {
    let mut handler = PageHandler::<BBCUrl>::new();
    handler.add_page(link("/news/articles/abc12345", "One title"));
    handler.add_page(link("/news/articles/abc12345", "Another title"));
    assert_eq!(handler.queue_len(), 2);
    let site = [("/news/articles/abc12345", Ok(article(&[])))];
    let (fetched, scraped) = run(&mut handler, 0, &site);
    assert_eq!(fetched, vec!["/news/articles/abc12345"]);
    assert_eq!(scraped, 1);
    assert_eq!(handler.visited_count(), 1);
}

#[test]
fn the_first_of_equal_addresses_stays() {
    let mut handler = PageHandler::<BBCUrl>::new();
    handler.add_page(link("/news/articles/a", "first"));
    handler.add_page(link("/news/articles/a", "second"));
    handler.scrape_pages_recursive(1);
    let batch = handler.get_pages_recursive_internal().unwrap();
    assert_eq!(batch.len(), 1);
    assert_eq!(batch[0].get_title(), Some("first".to_string()));
}

#[test]
fn visited_addresses_are_not_fetched_again() {
    let mut handler = PageHandler::<BBCUrl>::new();
    handler.add_page(seed("/news/articles/a"));
    let site = [
        ("/news/articles/a", Ok(article(&[("/news/articles/b", "b"), ("/news/articles/a", "self")]))),
        ("/news/articles/b", Ok(article(&[("/news/articles/a", "back"), ("/news/articles/b", "self")]))),
    ];
    let (fetched, scraped) = run(&mut handler, 5, &site);
    assert_eq!(fetched, vec!["/news/articles/a", "/news/articles/b"]);
    assert_eq!(scraped, 2);
    assert_eq!(handler.visited_count(), 2);
    assert!(handler.is_visited(&BBCUrl::parse("/news/articles/a").unwrap()));
    assert!(handler.is_visited(&BBCUrl::parse("/news/articles/b").unwrap()));
    assert!(!handler.is_visited(&BBCUrl::parse("/news/articles/c").unwrap()));
}

#[test]
fn depth_fifteen_is_depth_ten() {
    let mut fifteen = PageHandler::<BBCUrl>::new();
    fifteen.scrape_pages_recursive(15);
    let mut ten = PageHandler::<BBCUrl>::new();
    ten.scrape_pages_recursive(10);
    assert_eq!(fifteen.max_depth(), 10);
    assert_eq!(ten.max_depth(), 10);
    assert_eq!(MAX_DEPTH, 10);
    let mut three = PageHandler::<BBCUrl>::new();
    three.scrape_pages_recursive(3);
    assert_eq!(three.max_depth(), 3);
}

fn chain(n: usize) -> Vec<(String, String)> {
    (0..n)
        .map(|i| {
            let next = format!("/news/articles/p{}", i + 1);
            (format!("/news/articles/p{}", i), article(&[(next.as_str(), "next")]))
        })
        .collect()
}

#[test]
fn a_crawl_stops_beyond_its_depth() {
    let pages = chain(20);
    let site: Vec<(&str, Result<String, FetchError>)> =
        pages.iter().map(|(p, d)| (p.as_str(), Ok(d.clone()))).collect();
    let mut handler = PageHandler::<BBCUrl>::new();
    handler.add_page(seed("/news/articles/p0"));
    let (fetched, _) = run(&mut handler, 2, &site);
    assert_eq!(fetched.len(), 3);
    assert_eq!(handler.queue_len(), 1);

    let mut deep = PageHandler::<BBCUrl>::new();
    deep.add_page(seed("/news/articles/p0"));
    let (fetched_fifteen, _) = run(&mut deep, 15, &site);
    let mut capped = PageHandler::<BBCUrl>::new();
    capped.add_page(seed("/news/articles/p0"));
    let (fetched_ten, _) = run(&mut capped, 10, &site);
    assert_eq!(fetched_fifteen.len(), 11);
    assert_eq!(fetched_fifteen, fetched_ten);
}

#[test]
fn an_empty_queue_ends_the_crawl() {
    let mut handler = PageHandler::<BBCUrl>::new();
    handler.scrape_pages_recursive(5);
    assert!(handler.get_pages_recursive_internal().is_none());
    assert_eq!(handler.current_depth(), 0);
    assert_eq!(handler.visited_count(), 0);
    let (fetched, scraped) = run(&mut handler, 5, &[]);
    assert!(fetched.is_empty());
    assert_eq!(scraped, 0);
}

#[test]
fn a_failed_page_is_dropped_and_the_rest_goes_on() {
    let mut handler = PageHandler::<BBCUrl>::new();
    handler.add_pages(vec![
        seed("/news/articles/a"),
        seed("/news/articles/b"),
        seed("/news/articles/c"),
    ]);
    let site = [
        ("/news/articles/a", Ok(article(&[]))),
        ("/news/articles/b", Ok("<html><body><p>no article here</p></body></html>".to_string())),
        ("/news/articles/c", Ok(article(&[]))),
    ];
    let (fetched, scraped) = run(&mut handler, 0, &site);
    assert_eq!(fetched.len(), 3);
    assert_eq!(scraped, 2);
    assert_eq!(handler.visited_count(), 2);
    assert!(!handler.is_visited(&BBCUrl::parse("/news/articles/b").unwrap()));
}

#[test]
fn a_failed_fetch_changes_nothing() {
    let mut handler = PageHandler::<BBCUrl>::new();
    handler.add_page(seed("/news/articles/a"));
    let outcome = seed("/news/articles/b").scrape::<BBCContent>(Err(FetchError::Timeout));
    assert!(matches!(outcome, Err(Error::Fetch(FetchError::Timeout))));
    assert!(handler.settle(outcome).is_none());
    assert_eq!(handler.queue_len(), 1);
    assert_eq!(handler.visited_count(), 0);
    let missing = seed("/news/articles/b")
        .scrape::<BBCContent>(Ok(Html::parse_document("<html></html>")));
    match missing {
        Err(Error::BBCError(BBCError::NoArticleFound { url })) => {
            assert_eq!(url, "https://www.bbc.co.uk/news/articles/b")
        }
        other => panic!("expected a missing article, got {:?}", other),
    }
}

#[test]
fn seed_with_one_valid_and_one_invalid_link() {
    let mut handler = PageHandler::<BBCUrl>::new();
    handler.add_page(seed("/news/articles/abc12345"));
    let first = article(&[("/news/articles/def67890", "valid"), ("/news/live/xyz", "invalid")]);
    match BBCUrl::parse("/news/live/xyz") {
        Err(Error::BBCError(BBCError::InvalidUrl { url, reason })) => {
            assert_eq!(url, "/news/live/xyz");
            assert_eq!(reason, "Contains live segment");
        }
        other => panic!("expected a refusal, got {:?}", other),
    }
    handler.scrape_pages_recursive(5);

    let batch = handler.get_pages_recursive_internal().unwrap();
    assert_eq!(batch.len(), 1);
    for page in batch {
        let outcome = page.scrape::<BBCContent>(Ok(Html::parse_document(&first)));
        assert!(handler.settle(outcome).is_some());
    }
    assert_eq!(handler.visited_count(), 1);
    assert!(handler.is_visited(&BBCUrl::parse("/news/articles/abc12345").unwrap()));
    assert_eq!(handler.queue_len(), 1);

    let batch = handler.get_pages_recursive_internal().unwrap();
    assert_eq!(batch.len(), 1);
    assert_eq!(batch[0].url().to_string(), "/news/articles/def67890");
    assert_eq!(batch[0].get_title(), Some("valid".to_string()));
    for page in batch {
        let outcome = page.scrape::<BBCContent>(Ok(Html::parse_document(&article(&[]))));
        assert!(handler.settle(outcome).is_some());
    }
    assert_eq!(handler.visited_count(), 2);
    assert!(handler.is_visited(&BBCUrl::parse("/news/articles/def67890").unwrap()));
    assert_eq!(handler.queue_len(), 0);
    assert!(handler.get_pages_recursive_internal().is_none());
    assert_eq!(handler.current_depth(), 2);
}

#[test]
fn a_scraped_page_keeps_address_and_title() {
    let page = Page::new_link_to(BBCUrl::parse("/news/articles/a").unwrap(), "Hello");
    assert_eq!(page.title(), "Hello");
    let copy = page.clone();
    assert!(page.same_link(&copy));
    assert!(!page.same_link(&Page::new_link_to(BBCUrl::parse("/news/articles/a").unwrap(), "Bye")));
    let document = Html::parse_document(&article(&[
        ("/news/articles/b", "b"),
        ("/news/articles/b", "b"),
        ("/news/articles/b", "other text"),
        ("/somewhere/else", "x"),
    ]));
    let scraped = Box::new(page).scrape_in_place::<BBCContent>(Ok(document)).unwrap();
    assert_eq!(scraped.url().to_string(), "/news/articles/a");
    assert_eq!(scraped.get_url_arc().to_string(), "/news/articles/a");
    assert_eq!(scraped.get_link_title(), Some("Hello".to_string()));
    let content = scraped.get_content();
    assert_eq!(content.title(), "Headline");
    assert_eq!(content.content(), &vec!["Some text.".to_string()]);
    assert_eq!(content.related_topics(), &vec!["Topic".to_string()]);
    assert_eq!(content.timestamp(), "");
    let links = scraped.get_all_page_links();
    let seen: Vec<(String, String)> =
        links.iter().map(|l| (l.url().to_string(), l.title().clone())).collect();
    assert_eq!(
        seen,
        vec![
            ("/news/articles/b".to_string(), "b".to_string()),
            ("/news/articles/b".to_string(), "other text".to_string()),
        ]
    );
    assert_eq!(content.get_related_pages().len(), 2);
}

#[test]
fn states_describe_themselves() {
    assert_eq!(ToScrape.audit(), "ToScrape");
    let page = Page::<LinkTo, BBCUrl>::new(BBCUrl::parse("/news/articles/a").unwrap(), "t");
    assert_eq!(page.get_title(), Some("t".to_string()));
    let pending = page.into_pending();
    assert_eq!(pending.get_title(), Some("t".to_string()));
    let plain = Page::<ToScrape, BBCUrl>::new(BBCUrl::parse("/news/articles/a").unwrap());
    assert_eq!(plain.get_title(), None);
    assert_eq!(ToScrape.get_title(), None);
}
