use page_crawler::common::UrlTrait;
use page_crawler::pages::wikipedia::{
    clean, parse_text, Column, ContentValue, Figure, Link, SectionContent, SectionContentType,
    Table, WikipediaPage,
};
use page_crawler::pages::ScrapedPage;
use page_crawler::sites::wikipedia::WikipediaUrl;

fn s(text: &str) -> String {
    text.to_string()
}

fn wiki(path: &str) -> WikipediaUrl {
    WikipediaUrl::parse(path).unwrap()
}

fn paths(urls: &[WikipediaUrl]) -> Vec<String> {
    urls.iter().map(|u| u.to_string()).collect()
}

#[test]
fn parse_text_removes_references_and_trims() {
    assert_eq!(parse_text("  Rust[1] is a language[note 2].  "), Some(s("Rust is a language.")));
    assert_eq!(parse_text("a [b] c [d] e"), Some(s("a  c  e")));
    assert_eq!(parse_text("[only a reference]"), None);
    assert_eq!(parse_text("   "), None);
    assert_eq!(parse_text(""), None);
    assert_eq!(parse_text("open [ bracket"), Some(s("open [ bracket")));
}

#[test]
fn parse_text_replaces_escaped_code_points() {
    assert_eq!(parse_text("a\\u{a0}b"), Some(s("a b")));
    assert_eq!(parse_text("\\u{1F600}"), None);
    assert_eq!(parse_text("a\\u{1234567}b"), Some(s("a\\u{1234567}b")));
}

#[test]
fn parse_text_empties_what_stands_between_full_stops() {
    assert_eq!(parse_text(".mw-parser-output .hatnote{}."), None);
    assert_eq!(parse_text("."), Some(s(".")));
    assert_eq!(parse_text(".."), None);
    assert_eq!(parse_text(".a.\n.b."), Some(s(".a.\n.b.")));
    assert_eq!(parse_text("A sentence."), Some(s("A sentence.")));
}

#[test]
fn clean_trims_or_gives_nothing() {
    assert_eq!(clean(" \t x y \n"), Some(s("x y")));
    assert_eq!(clean("\u{a0}\u{2003}"), None);
    assert_eq!(clean(""), None);
}

#[test]
fn column_keeps_readable_cells() {
    let column = Column::new(s(" Name[1] "), vec![s(" a "), s("[x]"), s("b")]).unwrap();
    assert_eq!(column.title(), "Name");
    assert_eq!(column.data(), &vec![s("a"), s(""), s("b")]);
    assert!(Column::new(s("Name"), vec![s(" "), s("[x]")]).is_none());
    assert!(Column::new(s("Name"), vec![]).is_none());
    assert!(Column::new(s("[1]"), vec![s("a")]).is_none());
}

#[test]
fn table_keeps_columns_with_text() {
    let table = Table::new(vec![
        Column::raw(s("A"), vec![s("1"), s("2")]),
        Column::raw(s("B"), vec![s(""), s(" ")]),
        Column::raw(s(" "), vec![s("x")]),
        Column::raw(s("C [c]"), vec![s("[r]"), s(" 3 ")]),
    ])
    .unwrap();
    let titles: Vec<&String> = table.columns().iter().map(|c| c.title()).collect();
    assert_eq!(titles, vec!["A", "C"]);
    assert_eq!(table.columns()[1].data(), &vec![s(""), s("3")]);
    assert!(Table::new(vec![]).is_none());
    assert!(Table::new(vec![Column::raw(s("A"), vec![s("")])]).is_none());
}

#[test]
fn link_needs_a_title_and_a_page() {
    let link = Link::new(s(" Rust [1]"), "https://en.wikipedia.org/wiki/Rust").unwrap();
    assert_eq!(link.title(), "Rust");
    assert_eq!(link.url().to_string(), "/wiki/Rust");
    assert!(Link::new(s("[1]"), "/wiki/Rust").is_none());
    assert!(Link::new(s("Rust"), "/wiki/File:Rust.png").is_none());
    assert!(Link::new(s("Rust"), "").is_none());
}

#[test]
fn figure_needs_a_caption_and_a_page() {
    let figure =
        Figure::new(s(" A crab "), s(" "), s("//upload/x.png"), s("/wiki/Crab")).unwrap();
    assert_eq!(figure.caption(), "A crab");
    assert_eq!(figure.wiki_url().to_string(), "/wiki/Crab");
    assert!(Figure::new(s(""), s("alt"), s("x"), s("/wiki/Crab")).is_none());
    assert!(Figure::new(s("c"), s("alt"), s("x"), s("/w/Crab")).is_none());
}

#[test]
fn section_collects_what_is_added() {
    assert!(SectionContent::new(s(" [edit] "), 2).is_none());
    let mut section = SectionContent::new(s("History[edit]"), 2).unwrap();
    assert_eq!(section.heading(), "History");
    assert_eq!(section.level(), 2);
    assert!(section.is_empty_content());
    section.add_text(s("  "));
    assert!(section.is_empty_content());
    section.add_text(s(" First. "));
    section.add_link(Link::new(s("Rust"), "/wiki/Rust").unwrap());
    let mut inner = SectionContent::new(s("Early"), 3).unwrap();
    inner.add_figure(Figure::new(s("c"), s("a"), s("u"), s("/wiki/Image")).unwrap());
    inner.add_table(Table::new(vec![Column::raw(s("A"), vec![s("1")])]).unwrap());
    section.add_nested(inner);
    assert_eq!(section.content().len(), 3);
    assert_eq!(section.content()[0], ContentValue::Text(s("First.")));
    assert!(section.content()[0].nested().is_none());
    let nested = section.content()[2].nested().unwrap();
    assert_eq!(nested.heading(), "Early");
    assert_eq!(nested.content().len(), 2);
    let mut value = ContentValue::Nested(Box::new(SectionContent::new(s("Open"), 2).unwrap()));
    value.get_nested().unwrap().add_text(s("added"));
    assert_eq!(value.nested().unwrap().content(), &vec![ContentValue::Text(s("added"))]);
    assert!(ContentValue::Text(s("t")).get_nested().is_none());
}

fn sections() -> Vec<SectionContent> {
    let mut first = SectionContent::new(s("One"), 2).unwrap();
    first.add_link(Link::new(s("b"), "/wiki/B").unwrap());
    first.add_text(s("text"));
    let mut inner = SectionContent::new(s("Inner"), 3).unwrap();
    inner.add_link(Link::new(s("c"), "/wiki/C").unwrap());
    inner.add_link(Link::new(s("a again"), "/wiki/A").unwrap());
    let mut innermost = SectionContent::new(s("Innermost"), 4).unwrap();
    innermost.add_link(Link::new(s("d"), "/wiki/D").unwrap());
    inner.add_nested(innermost);
    first.add_nested(inner);
    first.add_link(Link::new(s("b again"), "/wiki/B").unwrap());
    first.add_link(Link::new(s("e"), "/wiki/E").unwrap());
    let mut second = SectionContent::new(s("Two"), 2).unwrap();
    second.add_link(Link::new(s("f"), "/wiki/F").unwrap());
    second.add_link(Link::new(s("c again"), "/wiki/C").unwrap());
    vec![first, second]
}

#[test]
fn page_links_are_collected_once_each() {
    let page = WikipediaPage::new(
        s(" Title "),
        s("Short[1]"),
        vec![s("First."), s("[x]"), s(" Second. ")],
        SectionContentType::Content(sections()),
        vec![
            Link::new(s("Cat"), "/wiki/Category:X").unwrap(),
            Link::new(s("Cat again"), "/wiki/Category:X").unwrap(),
            Link::new(s("Other"), "/wiki/Category:Y").unwrap(),
        ],
        vec![wiki("/wiki/A"), wiki("/wiki/Z"), wiki("/wiki/A")],
    )
    .unwrap();
    assert_eq!(page.title(), "Title");
    assert_eq!(page.short_description(), "Short");
    assert_eq!(page.abstract_text(), &vec![s("First."), s("Second.")]);
    assert_eq!(page.categories().len(), 3);
    assert_eq!(
        paths(&page.get_all_page_links()),
        vec!["/wiki/A", "/wiki/Z", "/wiki/B", "/wiki/C", "/wiki/D", "/wiki/E", "/wiki/F"]
    );
    assert_eq!(
        paths(&page.get_category_links()),
        vec!["/wiki/Category:X", "/wiki/Category:Y"]
    );
    let first = &sections()[0];
    assert_eq!(
        paths(&WikipediaPage::extract_urls_from_content(first)),
        vec!["/wiki/B", "/wiki/C", "/wiki/A", "/wiki/D", "/wiki/E"]
    );
    let urls = ScrapedPage::Wikipedia(page).get_urls();
    assert_eq!(urls.len(), 7);
    assert_eq!(urls[2].url(), "https://en.wikipedia.org/wiki/B");
}

#[test]
fn page_without_sections_has_only_its_own_links() {
    let page = WikipediaPage::new(
        s("T"),
        s("D"),
        vec![],
        SectionContentType::Empty,
        vec![],
        vec![wiki("/wiki/A")],
    )
    .unwrap();
    assert!(matches!(page.content(), SectionContentType::Empty));
    assert_eq!(paths(&page.get_all_page_links()), vec!["/wiki/A"]);
    assert!(WikipediaPage::new(s(" "), s("D"), vec![], SectionContentType::Empty, vec![], vec![])
        .is_none());
    assert!(WikipediaPage::new(s("T"), s("[1]"), vec![], SectionContentType::Empty, vec![], vec![])
        .is_none());
}
