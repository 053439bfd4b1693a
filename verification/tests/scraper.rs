use page_crawler::common::UrlTrait;
use page_crawler::crawl::Scraper;
use page_crawler::error::FetchError;
use page_crawler::pages::wikipedia::{SectionContentType, WikipediaPage};
use page_crawler::pages::ScrapedPage;
use page_crawler::site_url::{is_among, Url};
use page_crawler::sites::bbc::BBCUrl;
use page_crawler::sites::wikipedia::WikipediaUrl;
use scraper::Html;

fn wiki(path: &str) -> Url {
    Url::Wikipedia(WikipediaUrl::parse(path).unwrap())
}

fn bbc(path: &str) -> Url {
    Url::BBC(BBCUrl::parse(path).unwrap())
}

fn full(urls: &[Url]) -> Vec<String> {
    urls.iter().map(|url| url.url()).collect()
}

fn page_with_links(links: &[&str]) -> ScrapedPage {
    let links = links.iter().map(|path| WikipediaUrl::parse(path).unwrap()).collect();
    ScrapedPage::Wikipedia(
        WikipediaPage::new(
            "T".to_string(),
            "D".to_string(),
            vec![],
            SectionContentType::Empty,
            vec![],
            links,
        )
        .unwrap(),
    )
}

#[test]
fn same_path_on_two_sites_is_two_addresses() {
    let a = Url::Wikipedia(WikipediaUrl::parse("/wiki/news/articles/x").unwrap());
    let b = bbc("/news/articles/x");
    assert!(!a.same_url(&b));
    assert!(a.same_url(&a.clone()));
    assert_ne!(a.url(), b.url());
    assert!(is_among(&[a.clone(), b.clone()].to_vec(), &b));
    assert!(!is_among(&[a].to_vec(), &b));
}

#[test]
fn a_round_hands_out_each_waiting_address_once() {
    let mut scraper = Scraper::new();
    scraper.add_links(&wiki("/wiki/A"));
    scraper.add_links(&wiki("/wiki/B"));
    scraper.add_links(&wiki("/wiki/A"));
    scraper.add_links(&bbc("/news/articles/abc12345"));
    assert_eq!(scraper.waiting(), 4);
    scraper.get_pages_recursive(3);
    let batch = scraper.get_pages_recursive_internal().unwrap();
    assert_eq!(
        full(&batch),
        vec![
            "https://en.wikipedia.org/wiki/A",
            "https://en.wikipedia.org/wiki/B",
            "https://www.bbc.co.uk/news/articles/abc12345",
        ]
    );
    assert_eq!(scraper.waiting(), 0);
    assert_eq!(scraper.current_depth(), 1);
}

#[test]
fn scraper_depth_is_clamped() {
    let mut high = Scraper::new();
    high.get_pages_recursive(15);
    let mut ten = Scraper::new();
    ten.get_pages_recursive(10);
    assert_eq!(high.max_depth(), 10);
    assert_eq!(high.max_depth(), ten.max_depth());
    let mut low = Scraper::new();
    low.get_pages_recursive(4);
    assert_eq!(low.max_depth(), 4);
}

#[test]
fn scraper_ends_on_nothing_waiting_and_beyond_its_depth() {
    let mut scraper = Scraper::new();
    scraper.get_pages_recursive(2);
    assert!(scraper.get_pages_recursive_internal().is_none());
    assert_eq!(scraper.current_depth(), 0);

    let mut scraper = Scraper::new();
    scraper.get_pages_recursive(0);
    scraper.add_links(&wiki("/wiki/A"));
    assert_eq!(scraper.get_pages_recursive_internal().unwrap().len(), 1);
    scraper.add_links(&wiki("/wiki/B"));
    assert!(scraper.get_pages_recursive_internal().is_none());
    assert_eq!(scraper.waiting(), 1);
    assert_eq!(scraper.current_depth(), 1);
}

#[test]
fn settled_pages_feed_the_next_round() {
    let mut scraper = Scraper::new();
    scraper.add_links(&wiki("/wiki/A"));
    scraper.get_pages_recursive(5);
    let batch = scraper.get_pages_recursive_internal().unwrap();
    assert_eq!(batch.len(), 1);
    let page = page_with_links(&["/wiki/B", "/wiki/A", "/wiki/B", "/wiki/C"]);
    scraper.settle(batch[0].clone(), &page);
    assert!(scraper.is_visited(&wiki("/wiki/A")));
    assert!(!scraper.is_visited(&wiki("/wiki/B")));
    assert_eq!(scraper.waiting(), 3);

    let batch = scraper.get_pages_recursive_internal().unwrap();
    assert_eq!(
        full(&batch),
        vec!["https://en.wikipedia.org/wiki/B", "https://en.wikipedia.org/wiki/C"]
    );
    scraper.settle(batch[0].clone(), &page_with_links(&["/wiki/A", "/wiki/B", "/wiki/D"]));
    scraper.settle(batch[1].clone(), &page_with_links(&["/wiki/B", "/wiki/D"]));
    assert_eq!(scraper.waiting(), 3);
    let batch = scraper.get_pages_recursive_internal().unwrap();
    assert_eq!(full(&batch), vec!["https://en.wikipedia.org/wiki/D"]);
    assert_eq!(scraper.current_depth(), 3);
}

#[test]
fn a_visited_address_waits_in_vain() {
    let mut scraper = Scraper::new();
    scraper.get_pages_recursive(5);
    scraper.settle(wiki("/wiki/A"), &page_with_links(&[]));
    scraper.settle(wiki("/wiki/A"), &page_with_links(&[]));
    scraper.add_links(&wiki("/wiki/A"));
    scraper.add_links(&wiki("/wiki/B"));
    let batch = scraper.get_pages_recursive_internal().unwrap();
    assert_eq!(full(&batch), vec!["https://en.wikipedia.org/wiki/B"]);
}

#[test]
fn only_wikipedia_pages_are_read() {
    let document = "<main><h1 id='firstHeading'>T</h1><div class='mw-content-ltr'>\
                    <div class='shortdescription'>D</div><p><a href='/wiki/Next'>n</a></p></div>\
                    <div id='catlinks'><ul></ul></div></main>";
    let read = Scraper::scrape_page(&wiki("/wiki/T"), Ok(Html::parse_document(document)));
    match read {
        Some(ScrapedPage::Wikipedia(page)) => {
            assert_eq!(page.title(), "T");
            assert_eq!(page.get_all_page_links().len(), 1);
        }
        _ => panic!("expected a page"),
    }
    assert!(Scraper::scrape_page(&wiki("/wiki/T"), Err(FetchError::Timeout)).is_none());
    assert!(Scraper::scrape_page(&wiki("/wiki/T"), Ok(Html::parse_document("<p>x</p>"))).is_none());
    assert!(Scraper::scrape_page(
        &bbc("/news/articles/abc12345"),
        Ok(Html::parse_document(document))
    )
    .is_none());
}
