use page_crawler::error::FetchError;
use page_crawler::pages::bbc::crawl::{
    get_pages_recursive, get_pages_recursive_internal, insert_data, scrape_urls,
};
use page_crawler::pages::bbc::{Article, LinkedArticle, URL};
use page_crawler::pages::error::Error;

fn url(path: &str) -> URL {
    URL::new(path).unwrap()
}

fn texts(urls: &[URL]) -> Vec<String> {
    urls.iter().map(|u| u.url()).collect()
}

fn linked(path: &str, links: &[&str]) -> LinkedArticle {
    LinkedArticle::new(
        Article::new(url(path), "title", "text", vec![]),
        links.iter().map(|l| l.to_string()).collect(),
    )
}

#[test]
fn article_crawl_depth_is_clamped() {
    assert_eq!(get_pages_recursive(15), 10);
    assert_eq!(get_pages_recursive(15), get_pages_recursive(10));
    assert_eq!(get_pages_recursive(11), 10);
    assert_eq!(get_pages_recursive(3), 3);
    assert_eq!(get_pages_recursive(0), 0);
}

#[test]
fn article_round_keeps_each_unvisited_address_once() {
    let mut to_fetch = vec![
        url("/news/article/a"),
        url("/news/article/b"),
        url("/news/article/a"),
        url("/news/article/c"),
        url("/news/article/b"),
    ];
    let visited = vec![url("/news/article/b")];
    assert!(get_pages_recursive_internal(3, 0, &mut to_fetch, &visited));
    assert_eq!(
        texts(&to_fetch),
        vec!["https://www.bbc.co.uk/news/article/a", "https://www.bbc.co.uk/news/article/c"]
    );
}

#[test]
fn article_round_ends_beyond_the_depth_or_on_nothing() {
    let mut to_fetch = vec![url("/news/article/a"), url("/news/article/a")];
    assert!(!get_pages_recursive_internal(3, 4, &mut to_fetch, &vec![]));
    assert_eq!(to_fetch.len(), 2);
    assert!(get_pages_recursive_internal(3, 3, &mut to_fetch, &vec![]));
    assert_eq!(to_fetch.len(), 1);
    let mut nothing: Vec<URL> = vec![];
    assert!(!get_pages_recursive_internal(3, 0, &mut nothing, &vec![]));
    let mut all_visited = vec![url("/news/article/a")];
    assert!(get_pages_recursive_internal(3, 0, &mut all_visited, &vec![url("/news/article/a")]));
    assert!(all_visited.is_empty());
}

#[test]
fn failed_articles_are_dropped_in_order() {
    let outcomes = vec![
        Ok(linked("/news/article/a", &[])),
        Err(Error::NoContentFound),
        Err(Error::Fetch(FetchError::Timeout)),
        Ok(linked("/news/article/b", &[])),
    ];
    let articles = scrape_urls(outcomes);
    assert_eq!(articles.len(), 2);
    assert_eq!(articles[0].article.url, url("/news/article/a"));
    assert_eq!(articles[1].article.url, url("/news/article/b"));
    assert!(scrape_urls(vec![Err(Error::NoTitleFound)]).is_empty());
}

#[test]
fn inserted_articles_are_visited_and_their_links_come_next() {
    let articles = vec![
        linked("/news/article/a", &["/news/article/b", "/sport/x", "/news/article/c"]),
        linked("/news/article/b", &["/news/article/a", "/news/live/article"]),
        linked("/news/article/a", &[]),
    ];
    let mut visited = vec![url("/news/article/z")];
    let mut to_fetch = vec![url("/news/article/a"), url("/news/article/b")];
    insert_data(&articles, &mut visited, &mut to_fetch);
    assert_eq!(
        texts(&visited),
        vec![
            "https://www.bbc.co.uk/news/article/z",
            "https://www.bbc.co.uk/news/article/a",
            "https://www.bbc.co.uk/news/article/b",
        ]
    );
    assert_eq!(
        texts(&to_fetch),
        vec![
            "https://www.bbc.co.uk/news/article/b",
            "https://www.bbc.co.uk/news/article/c",
            "https://www.bbc.co.uk/news/article/a",
        ]
    );
    assert!(get_pages_recursive_internal(2, 1, &mut to_fetch, &visited));
    assert_eq!(texts(&to_fetch), vec!["https://www.bbc.co.uk/news/article/c"]);
}
