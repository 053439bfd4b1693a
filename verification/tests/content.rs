use page_crawler::common::{ScrapableContent, UrlTrait};
use page_crawler::error::{Error, FetchError};
use page_crawler::sites::error::ScraperError;
use page_crawler::sites::wikipedia::error::WikipediaError;
use page_crawler::sites::bbc::error::BBCError;
use page_crawler::sites::bbc::{BBCContent, BBCUrl};
use scraper::Html;

fn url() -> BBCUrl {
    BBCUrl::parse("/news/articles/a").unwrap()
}

const FULL: &str = "https://www.bbc.co.uk/news/articles/a";

#[test]
fn bbc_article_is_read_from_its_document() {
    let document = Html::parse_document(
        "<html><body><a href='/news/articles/outside'>outside the article</a><article>\
         <h1>The <b>headline</b></h1><h1>Second</h1>\
         <time datetime='2024-06-10T06:58:21.378Z'>10 June 2024</time>\
         <div data-component='text-block'><p>First.</p></div>\
         <div data-component='text-block'><p>Second.</p></div>\
         <div data-component='topic-list'><ul><li>One</li><li>Two</li></ul></div>\
         <a href='/news/articles/b'>B</a><a>no address</a>\
         <a href='https://www.bbc.co.uk/news/uk-12345678'>C</a>\
         <a href='/news/live/x'>live</a>\
         </article></body></html>",
    );
    let content = BBCContent::from_scraped_page(&url(), &document).unwrap();
    assert_eq!(content.title(), "The headline");
    assert_eq!(content.content(), &vec!["First.".to_string(), "Second.".to_string()]);
    assert_eq!(content.related_topics(), &vec!["One".to_string(), "Two".to_string()]);
    assert_eq!(content.timestamp(), "2024-06-10T06:58:21.378Z");
    let links: Vec<(String, String)> = content
        .get_related_pages()
        .iter()
        .map(|p| (p.url().to_string(), p.title().clone()))
        .collect();
    assert_eq!(
        links,
        vec![
            ("/news/articles/b".to_string(), "B".to_string()),
            ("/news/uk-12345678".to_string(), "C".to_string()),
        ]
    );
}

#[test]
fn bbc_article_missing_parts_in_order() {
    let cases = [
        ("<html><body><h1>x</h1></body></html>", "article"),
        ("<article><div data-component='text-block'>t</div></article>", "title"),
        ("<article><h1>t</h1><div data-component='topic-list'></div></article>", "content"),
        ("<article><h1>t</h1><div data-component='text-block'>t</div></article>", "topics"),
    ];
    for (text, missing) in cases {
        let result = BBCContent::from_scraped_page(&url(), &Html::parse_document(text));
        let (found, at) = match result {
            Err(Error::BBCError(BBCError::NoArticleFound { url })) => ("article", url),
            Err(Error::BBCError(BBCError::NoTitleFound { url })) => ("title", url),
            Err(Error::BBCError(BBCError::NoContentFound { url })) => ("content", url),
            Err(Error::BBCError(BBCError::NoRelatedTopicsFound { url })) => ("topics", url),
            other => panic!("expected a missing part, got {:?}", other),
        };
        assert_eq!(found, missing);
        assert_eq!(at, FULL);
    }
}

#[test]
fn bbc_article_may_have_an_empty_topic_list() {
    let document = Html::parse_document(
        "<article><h1>t</h1><div data-component='text-block'>x</div>\
         <div data-component='topic-list'></div></article>",
    );
    let content = BBCContent::from_scraped_page(&url(), &document).unwrap();
    assert!(content.related_topics().is_empty());
    assert!(content.get_related_pages().is_empty());
}

#[test]
fn assemble_reports_the_first_missing_part() {
    let some = |s: &str| Some(s.to_string());
    let texts = || Some(vec!["x".to_string()]);
    let none = BBCContent::assemble(&url(), None, None, None, String::new(), vec![]);
    assert!(matches!(none, Err(Error::BBCError(BBCError::NoTitleFound { .. }))));
    let no_content = BBCContent::assemble(&url(), some("t"), None, None, String::new(), vec![]);
    assert!(matches!(no_content, Err(Error::BBCError(BBCError::NoContentFound { .. }))));
    let no_topics = BBCContent::assemble(&url(), some("t"), texts(), None, String::new(), vec![]);
    match no_topics {
        Err(Error::BBCError(BBCError::NoRelatedTopicsFound { url })) => assert_eq!(url, FULL),
        other => panic!("expected missing topics, got {:?}", other),
    }
    let whole = BBCContent::assemble(
        &url(),
        some("t"),
        texts(),
        Some(vec![]),
        "now".to_string(),
        vec![
            ("/news/articles/b".to_string(), "B".to_string()),
            ("/elsewhere".to_string(), "E".to_string()),
            ("/news/articles/b".to_string(), "B".to_string()),
        ],
    )
    .unwrap();
    assert_eq!(whole.title(), "t");
    assert_eq!(whole.timestamp(), "now");
    assert_eq!(whole.get_related_pages().len(), 1);
}

#[test]
fn errors_convert_into_the_crate_error() {
    assert_eq!(Error::from("m".to_string()), Error::Custom("m".to_string()));
    assert_eq!(Error::custom("m"), Error::Custom("m".to_string()));
    assert_eq!(Error::from("m"), Error::Custom("m".to_string()));
    assert_eq!(
        Error::from(BBCError::from("b".to_string())),
        Error::BBCError(BBCError::Custom("b".to_string()))
    );
    assert_eq!(
        Error::from(WikipediaError::from("w".to_string())),
        Error::WikipediaError(WikipediaError::Custom("w".to_string()))
    );
    assert_eq!(
        Error::from(ScraperError::from((2, 1))),
        Error::ScraperError(ScraperError::ExampleError { too_high: 2, too_low: 1 })
    );
    assert_eq!(Error::from(FetchError::Status(500)), Error::Fetch(FetchError::Status(500)));
}

#[test]
fn scraped_bbc_page_gives_each_address_once() {
    let whole = BBCContent::assemble(
        &url(),
        Some("t".to_string()),
        Some(vec!["x".to_string()]),
        Some(vec![]),
        String::new(),
        vec![
            ("/news/articles/b".to_string(), "B".to_string()),
            ("/news/articles/c".to_string(), "C".to_string()),
            ("/news/articles/b".to_string(), "B with another text".to_string()),
        ],
    )
    .unwrap();
    assert_eq!(whole.get_related_pages().len(), 3);
    let urls = page_crawler::pages::ScrapedPage::BBCNews(whole).get_urls();
    let full: Vec<String> = urls.iter().map(|u| u.url()).collect();
    assert_eq!(
        full,
        vec!["https://www.bbc.co.uk/news/articles/b", "https://www.bbc.co.uk/news/articles/c"]
    );
}

#[test]
fn fetch_policy_and_answers() {
    use_policy();
}

fn use_policy() {
    let policy = page_crawler::common::FetchPolicy::default();
    assert_eq!(policy.max_in_flight, 50);
    assert_eq!(policy.delay_ms, 50);
    assert_eq!(policy.timeout_secs, 12);
    assert_eq!(policy.connect_timeout_secs, 10);
    assert_eq!(policy.pool_idle_timeout_secs, 10);
    assert_eq!(policy.pool_max_idle_per_host, 10);
    assert_eq!(policy.user_agents.len(), 6);
    assert_eq!(
        policy.user_agents[1],
        "Mozilla/5.0 (X11; Ubuntu; Linux x86_64; rv:78.0) Gecko/20100101 Firefox/78.0"
    );
    assert_eq!(
        policy.user_agents[5],
        "Mozilla/5.0 (X11; Ubuntu; Linux x86_64; rv:88.0) Gecko/20100101 Firefox/88.0"
    );
    for _ in 0..20 {
        let agent = policy.user_agent().unwrap();
        assert!(policy.user_agents.contains(agent));
        assert!(agent.starts_with("Mozilla/5.0"));
    }
    let mut none = policy.clone();
    none.user_agents.clear();
    assert!(none.user_agent().is_none());
    assert_eq!(page_crawler::common::transport_failure(true), FetchError::Timeout);
    assert_eq!(page_crawler::common::transport_failure(false), FetchError::Network);
    assert!(page_crawler::common::read_response(200, "<html></html>").is_ok());
    assert!(page_crawler::common::read_response(299, "").is_ok());
    assert_eq!(page_crawler::common::read_response(199, "x").unwrap_err(), FetchError::Status(199));
    assert_eq!(page_crawler::common::read_response(404, "x").unwrap_err(), FetchError::Status(404));
    assert_eq!(page_crawler::common::read_response(300, "x").unwrap_err(), FetchError::Status(300));
    let document = page_crawler::common::read_response(
        200,
        "<article><h1>t</h1><div data-component='text-block'>x</div>\
         <div data-component='topic-list'></div></article>",
    )
    .unwrap();
    assert!(BBCContent::from_scraped_page(&url(), &document).is_ok());
}
