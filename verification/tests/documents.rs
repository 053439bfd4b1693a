use page_crawler::common::UrlTrait;
use page_crawler::error::FetchError;
use page_crawler::pages::bbc::document::{
    article_from_parts, base_urls, found_urls, scrape_article, scrape_base_url, scrape_headline,
    scrape_most_read, scrape_page,
};
use page_crawler::pages::bbc::URL;
use page_crawler::pages::error::Error as PageError;
use page_crawler::pages::wikipedia::document::{
    extract_simple_table_data, finish, handle_rowspan_and_colspan, heading_level,
    is_complex_table, read_piece,
};
use page_crawler::pages::wikipedia::error::Error as WikiError;
use page_crawler::pages::wikipedia::sections::{build_sections, Piece};
use page_crawler::pages::wikipedia::table::{simple_table, spanned_table, Cell};
use page_crawler::pages::wikipedia::{
    Column, ContentValue, Link, SectionContent, SectionContentType, WikipediaPage,
};
use page_crawler::sites::wikipedia::{WikipediaContent, WikipediaUrl};
use page_crawler::text::parse_usize;
use scraper::{Html, Selector};

fn s(text: &str) -> String {
    text.to_string()
}

fn strings(texts: &[&str]) -> Vec<String> {
    texts.iter().map(|t| t.to_string()).collect()
}

fn column_data(columns: &[Column]) -> Vec<(String, Vec<String>)> {
    columns.iter().map(|c| (c.title().clone(), c.data().clone())).collect()
}

fn cell(text: &str, rowspan: usize, colspan: usize) -> Cell {
    Cell { text: s(text), rowspan, colspan }
}

#[test]
fn numbers_are_parsed_as_written() {
    assert_eq!(parse_usize("0"), Some(0));
    assert_eq!(parse_usize("007"), Some(7));
    assert_eq!(parse_usize("+12"), Some(12));
    assert_eq!(parse_usize("18446744073709551615"), Some(usize::MAX));
    assert_eq!(parse_usize("18446744073709551616"), None);
    assert_eq!(parse_usize("99999999999999999999999"), None);
    assert_eq!(parse_usize(""), None);
    assert_eq!(parse_usize("+"), None);
    assert_eq!(parse_usize("-1"), None);
    assert_eq!(parse_usize("1 "), None);
    assert_eq!(parse_usize("1_000"), None);
    assert_eq!(parse_usize("++1"), None);
}

#[test]
fn heading_levels() {
    assert_eq!(heading_level("h1"), Some(1));
    assert_eq!(heading_level("h6"), Some(6));
    assert_eq!(heading_level("h0"), Some(0));
    assert_eq!(heading_level("p"), None);
    assert_eq!(heading_level("h"), None);
    assert_eq!(heading_level("header"), None);
    assert_eq!(heading_level("thead"), None);
    assert_eq!(heading_level("xh1"), None);
    assert_eq!(heading_level("h1x"), Some(1));
}

#[test]
fn simple_table_takes_cells_by_position() {
    let table = simple_table(
        &strings(&["Name", "Year", "Empty"]),
        &vec![strings(&["Rust", "2010", ""]), strings(&["Go"]), strings(&["C", "1972", " ", "extra"])],
    )
    .unwrap();
    assert_eq!(
        column_data(table.columns()),
        vec![
            (s("Name"), strings(&["Rust", "Go", "C"])),
            (s("Year"), strings(&["2010", "1972"])),
        ]
    );
    assert!(simple_table(&vec![], &vec![strings(&["a"])]).is_none());
    assert!(simple_table(&strings(&["A"]), &vec![]).is_none());
}

#[test]
fn spanned_table_carries_cells_down_and_across() {
    let table = spanned_table(
        &strings(&["A", "B", "C"]),
        &vec![
            vec![cell("x", 2, 1), cell("y", 1, 2)],
            vec![cell("z", 1, 1)],
            vec![cell("w", 1, 1)],
            vec![],
        ],
    );
    assert_eq!(
        column_data(table.columns()),
        vec![
            (s("A"), strings(&["", "x", "x", ""])),
            (s("B"), strings(&["", "y", "z", "w", ""])),
            (s("C"), strings(&["", "y", "", "", ""])),
        ]
    );
}

#[test]
fn spanned_table_ignores_what_goes_beyond_the_columns() {
    let table = spanned_table(
        &strings(&["A", "B"]),
        &vec![vec![cell("x", 1, usize::MAX), cell("y", 3, 1)], vec![cell("z", 5, 0), cell("v", 1, 1)]],
    );
    assert_eq!(
        column_data(table.columns()),
        vec![(s("A"), strings(&["", "x", "v"])), (s("B"), strings(&["", "x", ""]))]
    );
    let none = spanned_table(&vec![], &vec![vec![cell("x", 1, 1)]]);
    assert!(none.columns().is_empty());
}

#[test]
fn tables_are_read_from_their_elements() {
    let document = Html::parse_document(
        "<table id='simple'><tr><th> Name </th><th>Year<sup>[1]</sup></th></tr>\
         <tr><td>Rust</td><td>2010</td></tr><tr><td><b>Go</b> lang</td><td>2009</td></tr></table>\
         <table id='spanned'><tr><th>A</th><th>B</th></tr>\
         <tr><td rowspan='2'>x</td><td>y</td></tr><tr><td>z</td></tr>\
         <tr><td colspan='2'>w</td></tr><tr><td colspan='many'>v</td></tr></table>",
    );
    let tables: Vec<_> = document.select(&Selector::parse("table").unwrap()).collect();
    assert!(!is_complex_table(&tables[0]));
    assert!(is_complex_table(&tables[1]));
    let simple = extract_simple_table_data(&tables[0]).unwrap();
    assert_eq!(
        column_data(simple.columns()),
        vec![
            (s("Name"), strings(&["Rust", "Go  lang"])),
            (s("Year"), strings(&["2010", "2009"])),
        ]
    );
    let spanned = handle_rowspan_and_colspan(&tables[1]);
    assert_eq!(
        column_data(spanned.columns()),
        vec![
            (s("A"), strings(&["", "x", "x", "v"])),
            (s("B"), strings(&["", "y", "z", "w", ""])),
        ]
    );
}

fn heading(level: u32, text: &str) -> Piece {
    Piece::Heading { level, section: SectionContent::new(s(text), level) }
}

fn text(value: &str) -> Piece {
    Piece::Values(vec![ContentValue::Text(s(value))])
}

fn outline(sections: &[SectionContent], depth: usize, out: &mut Vec<String>) {
    for section in sections {
        out.push(format!("{}{} ({})", "  ".repeat(depth), section.heading(), section.level()));
        for value in section.content() {
            match value {
                ContentValue::Text(t) => out.push(format!("{}- {}", "  ".repeat(depth + 1), t)),
                ContentValue::Nested(inner) => {
                    outline(std::slice::from_ref(&**inner), depth + 1, out)
                }
                ContentValue::Link(l) => out.push(format!("{}> {}", "  ".repeat(depth + 1), l.title())),
                _ => out.push(format!("{}?", "  ".repeat(depth + 1))),
            }
        }
    }
}

fn outlined(sections: &[SectionContent]) -> Vec<String> {
    let mut out = Vec::new();
    outline(sections, 0, &mut out);
    out
}

#[test]
fn sections_nest_by_the_rank_of_their_headings() {
    let sections = build_sections(vec![
        text("before any heading"),
        heading(2, "History"),
        text("h1"),
        heading(3, "Early"),
        text("e1"),
        heading(4, "Very early"),
        text("v1"),
        heading(3, "Late"),
        text("l1"),
        heading(2, "Design"),
        text("d1"),
        heading(3, "Empty"),
        heading(2, "[1]"),
        text("lost"),
        heading(2, "See also"),
    ]);
    assert_eq!(
        outlined(&sections),
        vec![
            "History (2)",
            "  - h1",
            "  Early (3)",
            "    - e1",
            "    Very early (4)",
            "      - v1",
            "  Late (3)",
            "    - l1",
            "Design (2)",
            "  - d1",
        ]
    );
}

#[test]
fn sections_without_content_vanish_with_what_is_in_them() {
    assert!(build_sections(vec![]).is_empty());
    assert!(build_sections(vec![heading(2, "A"), heading(3, "B")]).is_empty());
    let only_inner = build_sections(vec![heading(2, "A"), heading(3, "B"), text("b")]);
    assert_eq!(outlined(&only_inner), vec!["A (2)", "  B (3)", "    - b"]);
    let skipped_rank = build_sections(vec![heading(4, "Deep"), text("d"), heading(2, "Top"), text("t")]);
    assert_eq!(outlined(&skipped_rank), vec!["Deep (4)", "  - d", "Top (2)", "  - t"]);
}

const PAGE: &str = "<html><body><main>\
    <h1 id='firstHeading'>Rust (programming language)</h1>\
    <div class='mw-content-ltr'>\
      <div class='shortdescription nomobile'>General-purpose programming language</div>\
      <table class='infobox vevent'><tr><th>Paradigm</th></tr></table>\
      <p>Rust is a language.[1]</p>\
      <div>not the abstract</div>\
      <p>  </p>\
      <p>It is <a href='/wiki/Memory_safety'>memory safe</a>.</p>\
      <h2>History[edit]</h2>\
      <p>Began in 2006.[2]</p>\
      <ul><li>First item</li><li>[3]</li><li>Second item</li></ul>\
      <div role='note'>See <a href='/wiki/Mozilla'>Mozilla</a> and \
        <a href='https://example.com/x'>elsewhere</a></div>\
      <div role='other'><a href='/wiki/Ignored'>ignored</a></div>\
      <h3>Early years</h3>\
      <figure><a href='/wiki/File_of_Ferris'><img src='//upload/ferris.png' alt='Ferris'></a>\
        <figcaption>Ferris the crab</figcaption></figure>\
      <table><tr><th>Year</th><th>Event</th></tr><tr><td>2010</td><td>Announced</td></tr></table>\
      <dl><dt>Term</dt><dd>Definition</dd></dl>\
      <h2>Empty section</h2>\
      <h2>Syntax</h2>\
      <p>Like C.</p>\
    </div>\
    <div id='catlinks'><ul><li><a href='/wiki/Category:Languages'>Languages</a></li>\
      <li><a href='/wiki/Special:Categories'>Special</a></li></ul></div>\
    <a href='/wiki/Memory_safety'>again</a><a>nowhere</a>\
    </main><a href='/wiki/Outside_main'>outside</a></body></html>";

#[test]
fn wikipedia_page_is_read_with_its_sections() {
    let page = WikipediaPage::from_document(&Html::parse_document(PAGE), true).unwrap();
    assert_eq!(page.title(), "Rust (programming language)");
    assert_eq!(page.short_description(), "General-purpose programming language");
    assert_eq!(page.abstract_text(), &strings(&["Rust is a language.", "It is memory safe."]));
    let categories: Vec<(String, String)> =
        page.categories().iter().map(|l| (l.title().clone(), l.url().to_string())).collect();
    assert_eq!(categories, vec![(s("Languages"), s("/wiki/Category:Languages"))]);
    let sections = match page.content() {
        SectionContentType::Content(sections) => sections,
        SectionContentType::Empty => panic!("expected sections"),
    };
    assert_eq!(
        outlined(sections),
        vec![
            "History (2)",
            "  - Began in 2006.",
            "  - First item",
            "  - Second item",
            "  > Mozilla",
            "  Early years (3)",
            "    ?",
            "    ?",
            "Syntax (2)",
            "  - Like C.",
        ]
    );
    let links: Vec<String> = page.get_all_page_links().iter().map(|u| u.to_string()).collect();
    assert_eq!(
        links,
        vec![
            "/wiki/Memory_safety",
            "/wiki/Mozilla",
            "/wiki/Ignored",
            "/wiki/File_of_Ferris",
            "/wiki/Category:Languages",
        ]
    );
}

#[test]
fn wikipedia_page_without_sections_and_failures() {
    let document = Html::parse_document(PAGE);
    let page = WikipediaPage::get_page_without_content(Ok(document.clone())).unwrap();
    assert!(matches!(page.content(), SectionContentType::Empty));
    let with = WikipediaPage::get_page_with_content(Ok(document)).unwrap();
    assert!(matches!(with.content(), SectionContentType::Content(_)));
    assert_eq!(
        WikipediaPage::get_page_with_content(Err(FetchError::Network)).unwrap_err(),
        WikiError::Fetch(FetchError::Network)
    );
    assert_eq!(
        WikipediaPage::get_page_without_content(Err(FetchError::Status(500))).unwrap_err(),
        WikiError::Fetch(FetchError::Status(500))
    );
    let read = |text: &str| WikipediaPage::from_document(&Html::parse_document(text), true);
    assert_eq!(read("<p>x</p>").unwrap_err(), WikiError::NoPageContentFound);
    assert_eq!(read("<main><p>x</p></main>").unwrap_err(), WikiError::NoTitleFound);
    assert_eq!(
        read("<main><h1 id='firstHeading'>T</h1></main>").unwrap_err(),
        WikiError::NoPageContentFound
    );
    let body = "<main><h1 id='firstHeading'>T</h1><div class='mw-content-ltr'>\
                <div class='shortdescription'>D</div></div>";
    assert_eq!(read(&format!("{}</main>", body)).unwrap_err(), WikiError::NoCategoriesFound);
    assert_eq!(
        read(&format!("{}<div id='catlinks'></div></main>", body)).unwrap_err(),
        WikiError::NoCategoriesFound
    );
    assert!(read(&format!("{}<div id='catlinks'><ul></ul></div></main>", body)).is_ok());
    let no_description = "<main><h1 id='firstHeading'>T</h1><div class='mw-content-ltr'></div>\
                          <div id='catlinks'><ul></ul></div></main>";
    assert_eq!(read(no_description).unwrap_err(), WikiError::UnableToExtractContent);
}

#[test]
fn finish_gives_the_page_or_the_reason() {
    let none = finish(s("T"), s("D"), vec![], SectionContentType::Empty, None, vec![]);
    assert_eq!(none.unwrap_err(), WikiError::NoCategoriesFound);
    let unreadable = finish(s("[1]"), s("D"), vec![], SectionContentType::Empty, Some(vec![]), vec![]);
    assert_eq!(unreadable.unwrap_err(), WikiError::UnableToExtractContent);
    let page = finish(
        s("T"),
        s("D"),
        strings(&["a", " "]),
        SectionContentType::Empty,
        Some(vec![Link::new(s("C"), "/wiki/C").unwrap()]),
        vec![WikipediaUrl::parse("/wiki/A").unwrap()],
    )
    .unwrap();
    assert_eq!(page.abstract_text(), &strings(&["a"]));
    assert_eq!(page.categories().len(), 1);
}

#[test]
fn pieces_are_read_from_elements() {
    let document = Html::parse_fragment(
        "<h2>Title[edit]</h2><p> text </p><span>other</span><h3>[1]</h3>",
    );
    let pieces: Vec<Piece> = document.root_element().child_elements().map(|e| read_piece(&e)).collect();
    assert_eq!(pieces.len(), 4);
    match &pieces[0] {
        Piece::Heading { level, section } => {
            assert_eq!(*level, 2);
            assert_eq!(section.as_ref().unwrap().heading(), "Title");
        }
        other => panic!("expected a heading, got {:?}", other),
    }
    assert_eq!(pieces[1], Piece::Values(vec![ContentValue::Text(s("text"))]));
    assert_eq!(pieces[2], Piece::Values(vec![]));
    assert_eq!(pieces[3], Piece::Heading { level: 3, section: None });
}

#[test]
fn wikipedia_content_keeps_each_link_once() {
    let content = WikipediaContent::new(
        s("T"),
        s("D"),
        strings(&["a"]),
        vec![
            WikipediaUrl::parse("/wiki/A").unwrap(),
            WikipediaUrl::parse("/wiki/B").unwrap(),
            WikipediaUrl::parse("https://en.wikipedia.org/wiki/A").unwrap(),
        ],
    );
    assert_eq!(content.title(), "T");
    assert_eq!(content.short_description(), "D");
    assert_eq!(content.abstract_text(), &strings(&["a"]));
    let links: Vec<String> = content.page_links().iter().map(|u| u.to_string()).collect();
    assert_eq!(links, vec!["/wiki/A", "/wiki/B"]);
}

const ARTICLE: &str = "<html><body><article><h1>Headline</h1>\
    <div data-component='text-block'>First.</div><div data-component='text-block'>Second.</div>\
    <div data-component='topic-list'><ul><li>UK</li></ul></div>\
    <a href='/news/article/next'>next</a><a href='/sport/x'>sport</a><a>none</a>\
    <a href='https://www.bbc.co.uk/news/uk-12345678'>numbered</a></article></body></html>";

#[test]
fn article_is_read_with_its_links() {
    let url = URL::new("/news/article/this").unwrap();
    let linked = scrape_article(&url, &Html::parse_document(ARTICLE)).unwrap();
    assert_eq!(linked.article.url, url);
    assert_eq!(linked.article.title, "Headline");
    assert_eq!(linked.article.content, "First.\n\nSecond.");
    assert_eq!(linked.article.related_topics, strings(&["UK"]));
    let links: Vec<String> = linked.links.iter().map(|u| u.url()).collect();
    assert_eq!(
        links,
        vec!["https://www.bbc.co.uk/news/article/next", "https://www.bbc.co.uk/news/uk-12345678"]
    );
    assert!(scrape_page(&url, Ok(Html::parse_document(ARTICLE))).is_ok());
    assert_eq!(
        scrape_page(&url, Err(FetchError::Timeout)).unwrap_err(),
        PageError::Fetch(FetchError::Timeout)
    );
}

#[test]
fn article_missing_parts_in_order() {
    let url = URL::new("/news/article/this").unwrap();
    let read = |text: &str| scrape_article(&url, &Html::parse_document(text)).unwrap_err();
    assert_eq!(read("<p>x</p>"), PageError::NoArticleFound);
    assert_eq!(read("<article><p>x</p></article>"), PageError::NoTitleFound);
    assert_eq!(read("<article><h1>t</h1></article>"), PageError::NoContentFound);
    assert_eq!(
        read("<article><h1>t</h1><div data-component='text-block'></div></article>"),
        PageError::NoContentFound
    );
    assert_eq!(
        read("<article><h1>t</h1><div data-component='text-block'>x</div></article>"),
        PageError::NoRelatedTopicsFound
    );
    let parts = article_from_parts(&url, Some(s("t")), strings(&["", ""]), None, vec![]);
    assert_eq!(parts.unwrap_err(), PageError::NoRelatedTopicsFound);
    let empty = article_from_parts(&url, Some(s("t")), strings(&[""]), Some(vec![]), vec![]);
    assert_eq!(empty.unwrap_err(), PageError::NoContentFound);
    let whole = article_from_parts(&url, Some(s("t")), strings(&["", ""]), Some(vec![]), vec![]);
    assert_eq!(whole.unwrap().article.content, "\n\n");
}

#[test]
fn front_page_links_are_collected_once_each() {
    let front = "<div id='nations-news-uk'><a href='/news/article/a'>a</a>\
                 <a href='/news/live/x'>live</a><a href='/news/article/b'>b</a></div>\
                 <div data-component='mostRead'><a href='/news/article/b'>b</a>\
                 <a href='https://www.bbc.co.uk/news/article/a'>a</a><a href='/news/uk-12345678'>c</a></div>";
    let document = Html::parse_document(front);
    assert_eq!(
        scrape_headline(&document).unwrap(),
        strings(&["/news/article/a", "/news/live/x", "/news/article/b"])
    );
    assert_eq!(scrape_most_read(&document).unwrap().len(), 3);
    let urls: Vec<String> = scrape_base_url(Ok(document)).unwrap().iter().map(|u| u.url()).collect();
    assert_eq!(
        urls,
        vec![
            "https://www.bbc.co.uk/news/article/a",
            "https://www.bbc.co.uk/news/article/b",
            "https://www.bbc.co.uk/news/uk-12345678",
        ]
    );
    let nothing = Html::parse_document("<div id='nations-news-uk'></div>");
    assert_eq!(scrape_headline(&nothing).unwrap_err(), PageError::NoUrlsFound);
    assert_eq!(scrape_most_read(&nothing).unwrap_err(), PageError::NoUrlsFound);
    assert_eq!(scrape_base_url(Ok(nothing)).unwrap_err(), PageError::NoUrlsFound);
    assert_eq!(
        scrape_base_url(Err(FetchError::Network)).unwrap_err(),
        PageError::Fetch(FetchError::Network)
    );
    assert_eq!(found_urls(vec![]).unwrap_err(), PageError::NoUrlsFound);
    assert_eq!(found_urls(strings(&["x"])).unwrap(), strings(&["x"]));
    assert_eq!(base_urls(strings(&["/x"]), strings(&["/news/article/a", "/news/article/a"])).len(), 1);
}
