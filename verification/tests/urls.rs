use page_crawler::common::UrlTrait;
use page_crawler::error::Error;
use page_crawler::pages::bbc::{Article, LinkedArticle, URL};
use page_crawler::site_url::Url;
use page_crawler::sites::bbc::error::BBCError;
use page_crawler::sites::bbc::BBCUrl;
use page_crawler::sites::wikipedia::error::WikipediaError;
use page_crawler::sites::wikipedia::WikipediaUrl;
use page_crawler::text::trimmed;

fn bbc_reason(raw: &str) -> String {
    match BBCUrl::parse(raw) {
        Err(Error::BBCError(BBCError::InvalidUrl { url, reason })) => {
            assert_eq!(url, raw);
            reason
        }
        other => panic!("expected a refusal, got {:?}", other),
    }
}

fn wikipedia_reason(raw: &str) -> String {
    match WikipediaUrl::parse(raw) {
        Err(Error::WikipediaError(WikipediaError::InvalidUrl { url, reason })) => {
            assert_eq!(url, raw);
            reason
        }
        other => panic!("expected a refusal, got {:?}", other),
    }
}

#[test]
fn bbc_accepts_articles_path() {
    let url = BBCUrl::parse("/news/articles/abc12345").unwrap();
    assert_eq!(url.to_string(), "/news/articles/abc12345");
    assert_eq!(url.full_url(), "https://www.bbc.co.uk/news/articles/abc12345");
}

#[test]
fn bbc_strips_base_and_surrounding_whitespace() {
    let url = BBCUrl::parse("  https://www.bbc.co.uk/news/articles/ceddenl8xz4o \n").unwrap();
    assert_eq!(url.to_string(), "/news/articles/ceddenl8xz4o");
}

#[test]
fn bbc_keeps_whitespace_where_no_base_is_stripped() {
    let url = BBCUrl::parse("/news/articles/x  ").unwrap();
    assert_eq!(url.to_string(), "/news/articles/x  ");
    assert_eq!(bbc_reason("  /news/articles/x"), "Does not start with /news");
}

#[test]
fn bbc_accepts_trailing_article_number() {
    assert!(BBCUrl::parse("/news/uk-politics-12345678").is_ok());
    assert!(BBCUrl::parse("/news/world/europe-87654321").is_ok());
    assert!(BBCUrl::parse("/news/world/+1234567").is_ok());
}

#[test]
fn bbc_refuses_what_is_no_article_number() {
    assert!(BBCUrl::parse("/news/12345678").is_ok());
    assert_eq!(bbc_reason("/news-12345678"), "Does not contain article or number");
    assert_eq!(bbc_reason("/news/world/europe-1234567"), "Does not contain article or number");
    assert_eq!(bbc_reason("/news/world/europe-123456789"), "Does not contain article or number");
    assert_eq!(bbc_reason("/news/world/europe-1234567a"), "Does not contain article or number");
    assert_eq!(bbc_reason("/news/world/-1234567"), "Does not contain article or number");
    assert_eq!(bbc_reason("/news/world/++123456"), "Does not contain article or number");
    assert_eq!(bbc_reason("/news"), "Does not contain article or number");
}

#[test]
fn bbc_refusals_in_order() {
    assert_eq!(bbc_reason("/sport/articles/abc"), "Does not start with /news");
    assert_eq!(bbc_reason(""), "Does not start with /news");
    assert_eq!(bbc_reason("/news/articles/File:x"), "Contains Special: or File:");
    assert_eq!(bbc_reason("/news/Special:x/live"), "Contains Special: or File:");
    assert_eq!(bbc_reason("/news/live/xyz"), "Contains live segment");
    assert_eq!(bbc_reason("/news/live"), "Contains live segment");
    assert_eq!(bbc_reason("/news/world/live"), "Contains live segment");
    assert_eq!(bbc_reason("/news/world/alive"), "Does not contain article or number");
    assert_eq!(bbc_reason("/news/articles/live"), "Contains live segment");
    assert_eq!(bbc_reason("/news/live/world-12345678"), "Contains live segment");
}

#[test]
fn bbc_live_must_be_a_whole_segment() {
    assert!(BBCUrl::parse("/news/articles/liveblog").is_ok());
    assert!(BBCUrl::parse("/news/articles/a-live").is_ok());
}

#[test]
fn bbc_try_from_and_into_string() {
    let url = BBCUrl::try_from("/news/articles/abc".to_string()).unwrap();
    let text: String = url.into();
    assert_eq!(text, "/news/articles/abc");
    assert!(BBCUrl::try_from("/nope".to_string()).is_err());
}

#[test]
fn bbc_parse_url_gives_the_path() {
    assert_eq!(BBCUrl::parse_url("https://www.bbc.co.uk/news/articles/a").unwrap(), "/news/articles/a");
    assert!(BBCUrl::parse_url("https://www.bbc.co.uk/weather").is_err());
    assert_eq!(BBCUrl::base_url(), "https://www.bbc.co.uk");
}

#[test]
fn bbc_equality_is_by_path() {
    let a = BBCUrl::parse("https://www.bbc.co.uk/news/articles/a").unwrap();
    let b = BBCUrl::parse("/news/articles/a").unwrap();
    let c = BBCUrl::parse("/news/articles/c").unwrap();
    assert!(a == b);
    assert!(a.same_address(&b));
    assert!(a != c);
    assert!(!a.same_address(&c));
    assert!(a.clone() == a);
}

#[test]
fn bbc_from_collection_keeps_the_valid_in_order() {
    let urls = BBCUrl::from_collection(vec![
        "/news/articles/a".to_string(),
        "/sport/b".to_string(),
        "https://www.bbc.co.uk/news/articles/c".to_string(),
        "/news/live/d".to_string(),
    ]);
    let paths: Vec<String> = urls.iter().map(|u| u.to_string()).collect();
    assert_eq!(paths, vec!["/news/articles/a", "/news/articles/c"]);
}

#[test]
fn wikipedia_accepts_wiki_paths() {
    let url = WikipediaUrl::parse("https://en.wikipedia.org/wiki/Rust_(programming_language)").unwrap();
    assert_eq!(url.to_string(), "/wiki/Rust_(programming_language)");
    assert_eq!(url.full_url(), "https://en.wikipedia.org/wiki/Rust_(programming_language)");
    assert!(WikipediaUrl::parse("/wiki/Special_relativity").is_ok());
    assert_eq!(WikipediaUrl::base_url(), "https://en.wikipedia.org");
}

#[test]
fn wikipedia_refusals_in_order() {
    assert_eq!(wikipedia_reason("/w/index.php"), "Does not start with /wiki");
    assert_eq!(wikipedia_reason(" https://en.wikipedia.org/wiki/A"), "Does not start with /wiki");
    assert_eq!(wikipedia_reason("/wiki/Special:Random"), "Contains Special: or File:");
    assert_eq!(wikipedia_reason("/wiki/File:Rust.png"), "Contains Special: or File:");
    assert_eq!(wikipedia_reason("/w/File:Rust.png"), "Does not start with /wiki");
}

#[test]
fn wikipedia_try_from_equality_and_collection() {
    let a = WikipediaUrl::try_from("/wiki/A".to_string()).unwrap();
    let b = WikipediaUrl::parse("https://en.wikipedia.org/wiki/A").unwrap();
    assert!(a == b && a.same_address(&b));
    let text: String = a.into();
    assert_eq!(text, "/wiki/A");
    let urls = WikipediaUrl::from_collection(vec!["/wiki/A".to_string(), "/x".to_string()]);
    assert_eq!(urls.len(), 1);
    assert_eq!(WikipediaUrl::parse_url("/wiki/B").unwrap(), "/wiki/B");
}

#[test]
fn site_url_gives_the_full_address() {
    let bbc: Url = BBCUrl::parse("/news/articles/a").unwrap().into();
    let wiki = Url::from(WikipediaUrl::parse("/wiki/A").unwrap());
    assert_eq!(bbc.url(), "https://www.bbc.co.uk/news/articles/a");
    assert_eq!(wiki.url(), "https://en.wikipedia.org/wiki/A");
    assert!(bbc.same_url(&bbc.clone()));
    assert!(!bbc.same_url(&wiki));
}

#[test]
fn article_url_keeps_the_full_address() {
    let url = URL::new("/news/article/something").unwrap();
    assert_eq!(url.url(), "https://www.bbc.co.uk/news/article/something");
    let full = URL::new("https://www.bbc.co.uk/news/uk-12345678").unwrap();
    assert_eq!(full.0, "https://www.bbc.co.uk/news/uk-12345678");
}

#[test]
fn article_url_refuses_what_is_no_article() {
    assert!(URL::new("/sport/article/x").is_none());
    assert!(URL::new("/news/articles/x").is_none());
    assert!(URL::new("/news/article/live").is_none());
    assert!(URL::new("/news").is_none());
    assert!(URL::new(" /news/article/x").is_none());
    assert_eq!(URL::parse_url("/news/article/x"), Some("https://www.bbc.co.uk/news/article/x".to_string()));
}

#[test]
fn linked_article_keeps_the_article_links() {
    let article = Article::new(
        URL::new("/news/article/a").unwrap(),
        "Title",
        "Text",
        vec!["Topic".to_string()],
    );
    let linked = LinkedArticle::new(
        article.clone(),
        vec!["/news/article/b".to_string(), "/weather".to_string(), "/news/uk-12345678".to_string()],
    );
    assert_eq!(linked.article, article);
    let links: Vec<String> = linked.links.iter().map(|u| u.url()).collect();
    assert_eq!(
        links,
        vec!["https://www.bbc.co.uk/news/article/b", "https://www.bbc.co.uk/news/uk-12345678"]
    );
    let empty = URL::new("/news/article/c").unwrap().to_article();
    assert_eq!(empty.title, "");
    assert_eq!(empty.content, "");
    assert!(empty.related_topics.is_empty());
    assert_eq!(URL::from_list(vec!["/x".to_string()]).len(), 0);
}

fn listed_as_whitespace(c: char) -> bool {
    matches!(
        c,
        '\u{9}'..='\u{d}'
            | ' '
            | '\u{85}'
            | '\u{a0}'
            | '\u{1680}'
            | '\u{2000}'..='\u{200a}'
            | '\u{2028}'
            | '\u{2029}'
            | '\u{202f}'
            | '\u{205f}'
            | '\u{3000}'
    )
}

#[test]
fn what_is_trimmed_is_the_listed_whitespace() {
    let mut code: u32 = 0;
    while code < 0x3200 {
        if let Some(c) = char::from_u32(code) {
            let text = format!("{}x{}", c, c);
            if listed_as_whitespace(c) {
                assert_eq!(trimmed(&text), "x", "U+{:04X}", code);
            } else {
                assert_eq!(trimmed(&text), text, "U+{:04X}", code);
            }
        }
        code += 1;
    }
    for c in ['\u{feff}', '\u{180e}', '\u{200b}', '\u{2060}', '\u{e0020}', '\u{10ffff}'] {
        let text = format!("{}x{}", c, c);
        assert_eq!(trimmed(&text), text);
    }
}

#[test]
fn a_full_address_leads_back_to_its_path() {
    for path in ["/news/articles/abc12345", "/news/world/europe-12345678", "/news/articles/a b"] {
        let url = BBCUrl::parse(path).unwrap();
        let again = BBCUrl::parse(&url.full_url()).unwrap();
        assert_eq!(again.to_string(), path);
        assert!(again.same_address(&url));
    }
    for path in ["/wiki/Rust", "/wiki/A b ", "/wiki"] {
        let url = WikipediaUrl::parse(path).unwrap();
        let again = WikipediaUrl::parse(&url.full_url()).unwrap();
        assert_eq!(again.to_string(), path);
    }
}

#[test]
fn a_bbc_path_that_ends_in_whitespace_is_cut_short_by_its_full_address() {
    let url = BBCUrl::parse("/news/articles/abc ").unwrap();
    assert_eq!(url.to_string(), "/news/articles/abc ");
    let again = BBCUrl::parse(&url.full_url()).unwrap();
    assert_eq!(again.to_string(), "/news/articles/abc");
}

#[test]
fn namespaces_are_refused_on_both_sites() {
    assert_eq!(bbc_reason("/news/articles/x/Special:y"), "Contains Special: or File:");
    assert!(BBCUrl::parse("/news/articles/Special:y").is_err());
    assert!(BBCUrl::parse("/news/articles/xSpecial:y").is_ok());
    assert!(BBCUrl::parse("/news/articles/File").is_ok());
    assert!(WikipediaUrl::parse("/wiki/File:x.png").is_err());
    assert!(WikipediaUrl::parse("/wiki/Special:Random").is_err());
    assert!(WikipediaUrl::parse("/wiki/MyFile:x").is_ok());
    assert!(WikipediaUrl::parse("/wiki/Special").is_ok());
}
