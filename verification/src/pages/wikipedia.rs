//! Wikipedia pages: their text, tables, figures, links and sections.

pub mod document;
pub mod error;
pub mod sections;
pub mod table;

use vstd::prelude::*;
use crate::common::url::UrlTrait;
use crate::pattern::{replace_all, replaced};
use crate::sites::wikipedia::url::{accepts_path, canonical_path, WikipediaUrl};
use crate::text::{
    chars_of, extended, lemma_extended_distinct, lemma_extended_holds, lemma_extended_twice,
    text_of, texts, trim, trim_bounds,
};

verus! {

/// The pattern for what stands in square brackets, such as references.
pub open spec fn bracketed() -> Seq<char> {
    "\\[.*?\\]"@
}

/// The pattern for an escaped code point, written `\u{..}`.
pub open spec fn escaped() -> Seq<char> {
    "\\\\u\\{\\w{1,6}\\}"@
}

/// The pattern for a text that begins and ends with a full stop.
pub open spec fn dotted() -> Seq<char> {
    "^\\..*\\.$"@
}

/// `text` without the whitespace around it, or `None` if nothing is left.
pub open spec fn cleaned(text: Seq<char>) -> Option<Seq<char>> {
    if trim(text).len() == 0 {
        None
    } else {
        Some(trim(text))
    }
}

/// The readable text in `text`: what stands in square brackets is removed,
/// every escaped code point becomes a space, a text between two full stops
/// is emptied, and the whitespace around what is left is removed. `None` if
/// nothing is left.
pub open spec fn parsed_text(text: Seq<char>) -> Option<Seq<char>> {
    match replaced(bracketed(), text, ""@) {
        Some(unbracketed) => match replaced(escaped(), unbracketed, " "@) {
            Some(unescaped) => match replaced(dotted(), unescaped, ""@) {
                Some(undotted) => cleaned(undotted),
                None => None,
            },
            None => None,
        },
        None => None,
    }
}

/// The readable text in `text`, empty if there is none.
pub open spec fn parsed_or_empty(text: Seq<char>) -> Seq<char> {
    match parsed_text(text) {
        Some(parsed) => parsed,
        None => Seq::empty(),
    }
}

/// Every text of `data` as its readable text, empty where it has none.
pub open spec fn normalized(data: Seq<Seq<char>>) -> Seq<Seq<char>> {
    Seq::new(data.len(), |i: int| parsed_or_empty(data[i]))
}

/// Some text of `data` is not empty.
pub open spec fn has_text(data: Seq<Seq<char>>) -> bool {
    exists|i: int| 0 <= i < data.len() && (#[trigger] data[i]).len() > 0
}

/// The readable texts among `data`, in order.
pub open spec fn readable(data: Seq<Seq<char>>) -> Seq<Seq<char>>
    decreases data.len(),
{
    if data.len() == 0 {
        Seq::empty()
    } else {
        match parsed_text(data.last()) {
            Some(parsed) => readable(data.drop_last()).push(parsed),
            None => readable(data.drop_last()),
        }
    }
}

/// `text` without the whitespace around it, or `None` if nothing is left.
pub fn clean(text: &str) -> (r: Option<String>)
    ensures
        text_of(r) == cleaned(text@),
{
    let chars = chars_of(text);
    let (start, end) = trim_bounds(&chars);
    if start == end {
        None
    } else {
        Some(String::from_str(text.substring_char(start, end)))
    }
}

/// The readable text in `text`, or `None` if there is none.
pub fn parse_text(text: &str) -> (r: Option<String>)
    ensures
        text_of(r) == parsed_text(text@),
{
    let unbracketed = match replace_all("\\[.*?\\]", text, "") {
        Some(unbracketed) => unbracketed,
        None => {
            return None;
        },
    };
    let unescaped = match replace_all("\\\\u\\{\\w{1,6}\\}", unbracketed.as_str(), " ") {
        Some(unescaped) => unescaped,
        None => {
            return None;
        },
    };
    match replace_all("^\\..*\\.$", unescaped.as_str(), "") {
        Some(undotted) => clean(undotted.as_str()),
        None => None,
    }
}

/// The readable text of every text of `data`, empty where it has none.
fn normalize(data: &Vec<String>) -> (r: Vec<String>)
    ensures
        texts(r@) == normalized(texts(data@)),
{
    let mut out: Vec<String> = Vec::new();
    let mut i: usize = 0;
    while i < data.len()
        invariant
            i <= data.len(),
            out.len() == i,
            forall|j: int| 0 <= j < i ==> (#[trigger] out[j])@ == parsed_or_empty(data[j]@),
        decreases data.len() - i,
    {
        match parse_text(data[i].as_str()) {
            Some(parsed) => {
                out.push(parsed);
            },
            None => {
                out.push(String::new());
            },
        }
        i += 1;
    }
    assert(texts(out@) =~= normalized(texts(data@)));
    out
}

/// Whether some text of `data` is not empty.
fn any_text(data: &Vec<String>) -> (r: bool)
    ensures
        r == has_text(texts(data@)),
{
    let mut i: usize = 0;
    while i < data.len()
        invariant
            i <= data.len(),
            forall|j: int| 0 <= j < i ==> (#[trigger] texts(data@)[j]).len() == 0,
        decreases data.len() - i,
    {
        if !data[i].as_str().is_empty() {
            assert(texts(data@)[i as int].len() > 0);
            return true;
        }
        i += 1;
    }
    false
}

/// What a column holds: its title and its cells from top to bottom.
pub struct ColumnView {
    pub title: Seq<char>,
    pub data: Seq<Seq<char>>,
}

/// The column that is kept of `column`: its cells as readable text under
/// its title as readable text, or `None` if no cell has readable text or
/// the title has none.
pub open spec fn kept_column(column: ColumnView) -> Option<ColumnView> {
    if has_text(normalized(column.data)) && parsed_text(column.title) is Some {
        Some(
            ColumnView { title: parsed_text(column.title)->Some_0, data: normalized(column.data) },
        )
    } else {
        None
    }
}

/// The columns that are kept of `columns`, in order.
pub open spec fn kept_columns(columns: Seq<ColumnView>) -> Seq<ColumnView>
    decreases columns.len(),
{
    if columns.len() == 0 {
        Seq::empty()
    } else {
        match kept_column(columns.last()) {
            Some(column) => kept_columns(columns.drop_last()).push(column),
            None => kept_columns(columns.drop_last()),
        }
    }
}

/// The views of a sequence of columns.
pub open spec fn column_views(columns: Seq<Column>) -> Seq<ColumnView> {
    Seq::new(columns.len(), |i: int| columns[i]@)
}

/// A column of a table: a title and the cells below it.
#[derive(Debug, Clone, PartialEq, Eq)]
pub struct Column {
    title: String,
    data: Vec<String>,
}

impl View for Column {
    type V = ColumnView;

    closed spec fn view(&self) -> ColumnView {
        ColumnView { title: self.title@, data: texts(self.data@) }
    }
}

impl Column {
    /// The column of the cells `data` under `title`, all as readable text,
    /// or `None` if no cell has readable text or the title has none.
    pub fn new(title: String, data: Vec<String>) -> (r: Option<Self>)
        ensures
            text_views(r) == kept_column(ColumnView { title: title@, data: texts(data@) }),
    {
        Self::from_texts(title.as_str(), &data)
    }

    /// The column that [`Column::new`] makes, from borrowed texts.
    fn from_texts(title: &str, data: &Vec<String>) -> (r: Option<Self>)
        ensures
            text_views(r) == kept_column(ColumnView { title: title@, data: texts(data@) }),
    {
        let data = normalize(data);
        if !any_text(&data) {
            return None;
        }
        match parse_text(title) {
            Some(title) => Some(Column { title, data }),
            None => None,
        }
    }

    /// The column with title and cells left as they are.
    pub fn raw(title: String, data: Vec<String>) -> (r: Self)
        ensures
            r@ == (ColumnView { title: title@, data: texts(data@) }),
    {
        Column { title, data }
    }

    /// The title.
    pub fn title(&self) -> (r: &String)
        ensures
            r@ == self@.title,
    {
        &self.title
    }

    /// The cells from top to bottom.
    pub fn data(&self) -> (r: &Vec<String>)
        ensures
            texts(r@) == self@.data,
    {
        &self.data
    }
}

/// The view of an optional column.
pub open spec fn text_views(column: Option<Column>) -> Option<ColumnView> {
    match column {
        Some(c) => Some(c@),
        None => None,
    }
}

/// A table: its columns from left to right.
#[derive(Debug, Clone, PartialEq, Eq)]
pub struct Table {
    columns: Vec<Column>,
}

impl Table {
    /// The columns from left to right.
    pub closed spec fn view(&self) -> Seq<ColumnView> {
        column_views(self.columns@)
    }

    /// The table of those of `columns` that are kept, or `None` if none is.
    pub fn new(columns: Vec<Column>) -> (r: Option<Self>)
        ensures
            r is Some <==> kept_columns(column_views(columns@)).len() > 0,
            r matches Some(table) ==> table@ == kept_columns(column_views(columns@)),
    {
        let ghost all = column_views(columns@);
        let mut kept: Vec<Column> = Vec::new();
        let mut i: usize = 0;
        assert(all.take(0) =~= Seq::<ColumnView>::empty());
        assert(column_views(kept@) =~= kept_columns(all.take(0)));
        while i < columns.len()
            invariant
                i <= columns.len(),
                all == column_views(columns@),
                column_views(kept@) == kept_columns(all.take(i as int)),
            decreases columns.len() - i,
        {
            let ghost before = column_views(kept@);
            proof {
                assert(all.take(i + 1).drop_last() =~= all.take(i as int));
                assert(all.take(i + 1).last() == columns[i as int]@);
            }
            match Column::from_texts(columns[i].title.as_str(), &columns[i].data) {
                Some(column) => {
                    kept.push(column);
                    assert(column_views(kept@) =~= before.push(column@));
                },
                None => {},
            }
            i += 1;
        }
        assert(all.take(i as int) =~= all);
        if kept.len() == 0 {
            None
        } else {
            Some(Table { columns: kept })
        }
    }

    /// The table of `columns` as they are.
    pub(crate) fn raw(columns: Vec<Column>) -> (r: Self)
        ensures
            r@ == column_views(columns@),
    {
        Table { columns }
    }

    /// The columns from left to right.
    pub fn columns(&self) -> (r: &Vec<Column>)
        ensures
            column_views(r@) == self@,
    {
        &self.columns
    }
}

/// What a link holds: its text and the canonical path it leads to.
pub struct LinkView {
    pub title: Seq<char>,
    pub url: Seq<char>,
}

/// A link to another Wikipedia page.
#[derive(Debug, Clone, PartialEq, Eq)]
pub struct Link {
    title: String,
    url: WikipediaUrl,
}

impl View for Link {
    type V = LinkView;

    closed spec fn view(&self) -> LinkView {
        LinkView { title: self.title@, url: self.url.path() }
    }
}

impl Link {
    /// The link with the readable text of `title` to the page that `url`
    /// names, or `None` if the title has no readable text or `url` names no
    /// page.
    pub fn new(title: String, url: &str) -> (r: Option<Self>)
        ensures
            r is Some <==> parsed_text(title@) is Some && accepts_path(canonical_path(url@)),
            r matches Some(link) ==> link@ == (LinkView {
                title: parsed_text(title@)->Some_0,
                url: canonical_path(url@),
            }),
    {
        let title = match parse_text(title.as_str()) {
            Some(title) => title,
            None => {
                return None;
            },
        };
        match WikipediaUrl::parse(url) {
            Ok(url) => Some(Link { title, url }),
            Err(_) => None,
        }
    }

    /// The text of the link.
    pub fn title(&self) -> (r: &String)
        ensures
            r@ == self@.title,
    {
        &self.title
    }

    /// The page that the link leads to.
    pub fn url(&self) -> (r: &WikipediaUrl)
        ensures
            r.path() == self@.url,
    {
        &self.url
    }
}

/// What a figure holds.
pub struct FigureView {
    pub caption: Seq<char>,
    pub alt_text: Option<Seq<char>>,
    pub true_url: Seq<char>,
    pub wiki_url: Seq<char>,
}

/// A figure: an image with its caption.
#[derive(Debug, Clone, PartialEq, Eq)]
pub struct Figure {
    caption: String,
    alt_text: Option<String>,
    true_url: String,
    wiki_url: WikipediaUrl,
}

impl View for Figure {
    type V = FigureView;

    closed spec fn view(&self) -> FigureView {
        FigureView {
            caption: self.caption@,
            alt_text: text_of(self.alt_text),
            true_url: self.true_url@,
            wiki_url: self.wiki_url.path(),
        }
    }
}

impl Figure {
    /// The figure with the readable text of `caption` and of `alt_text`,
    /// the address `true_url` of the image and the page `wiki_url` of the
    /// figure, or `None` if the caption has no readable text or `wiki_url`
    /// names no page.
    pub fn new(caption: String, alt_text: String, true_url: String, wiki_url: String) -> (r:
        Option<Self>)
        ensures
            r is Some <==> parsed_text(caption@) is Some && accepts_path(
                canonical_path(wiki_url@),
            ),
            r matches Some(figure) ==> figure@ == (FigureView {
                caption: parsed_text(caption@)->Some_0,
                alt_text: parsed_text(alt_text@),
                true_url: true_url@,
                wiki_url: canonical_path(wiki_url@),
            }),
    {
        let caption = match parse_text(caption.as_str()) {
            Some(caption) => caption,
            None => {
                return None;
            },
        };
        let alt_text = parse_text(alt_text.as_str());
        match WikipediaUrl::parse(wiki_url.as_str()) {
            Ok(wiki_url) => Some(Figure { caption, alt_text, true_url, wiki_url }),
            Err(_) => None,
        }
    }

    /// The caption.
    pub fn caption(&self) -> (r: &String)
        ensures
            r@ == self@.caption,
    {
        &self.caption
    }

    /// The text that stands in for the image, if it has readable text.
    pub fn alt_text(&self) -> (r: &Option<String>)
        ensures
            text_of(*r) == self@.alt_text,
    {
        &self.alt_text
    }

    /// The address of the image.
    pub fn true_url(&self) -> (r: &String)
        ensures
            r@ == self@.true_url,
    {
        &self.true_url
    }

    /// The page of the figure.
    pub fn wiki_url(&self) -> (r: &WikipediaUrl)
        ensures
            r.path() == self@.wiki_url,
    {
        &self.wiki_url
    }
}

/// The canonical paths of a sequence of addresses.
pub open spec fn url_paths(urls: Seq<WikipediaUrl>) -> Seq<Seq<char>> {
    Seq::new(urls.len(), |i: int| urls[i].path())
}

/// The canonical paths that a sequence of links leads to.
pub open spec fn link_paths(links: Seq<Link>) -> Seq<Seq<char>> {
    Seq::new(links.len(), |i: int| links[i]@.url)
}

/// Whether `url` is among `urls`.
fn holds_url(urls: &Vec<WikipediaUrl>, url: &WikipediaUrl) -> (r: bool)
    ensures
        r == url_paths(urls@).contains(url.path()),
{
    let mut i: usize = 0;
    while i < urls.len()
        invariant
            i <= urls.len(),
            forall|j: int| 0 <= j < i ==> url_paths(urls@)[j] != url.path(),
        decreases urls.len() - i,
    {
        if urls[i].same_address(url) {
            assert(url_paths(urls@)[i as int] == url.path());
            return true;
        }
        i += 1;
    }
    false
}

/// Appends `url` to `urls` unless it is among them.
fn add_url(urls: &mut Vec<WikipediaUrl>, url: &WikipediaUrl)
    ensures
        url_paths(final(urls)@) == extended(url_paths(old(urls)@), seq![url.path()]),
{
    let ghost before = url_paths(urls@);
    proof {
        assert(seq![url.path()].drop_last() =~= Seq::<Seq<char>>::empty());
        assert(seq![url.path()].last() == url.path());
        assert(extended(before, seq![url.path()].drop_last()) == before);
    }
    if !holds_url(urls, url) {
        urls.push(url.clone());
        assert(url_paths(urls@) =~= before.push(url.path()));
    }
}

/// One thing that a section holds.
#[derive(Debug, PartialEq, Eq)]
pub enum ContentValue {
    /// A paragraph or a list entry.
    Text(String),
    /// A link to another page.
    Link(Link),
    /// A figure.
    Figure(Figure),
    /// A table.
    Table(Table),
    /// A section below this one.
    Nested(Box<SectionContent>),
}

/// A section of a page: its heading, the level of the heading, and what
/// stands in the section, in order.
#[derive(Debug, PartialEq, Eq)]
pub struct SectionContent {
    heading: String,
    level: u32,
    content: Vec<ContentValue>,
}

/// The sections of a page, or nothing where they were not read.
#[derive(Debug, PartialEq, Eq)]
pub enum SectionContentType {
    /// The sections from top to bottom.
    Content(Vec<SectionContent>),
    /// The sections were not read.
    Empty,
}

/// What one thing in a section holds.
pub enum ValueView {
    Text(Seq<char>),
    Link(LinkView),
    Figure(FigureView),
    Table(Seq<ColumnView>),
    Nested(Box<SectionView>),
}

/// What a section holds: its heading, the level of the heading, and what
/// stands in it, in order.
pub struct SectionView {
    pub heading: Seq<char>,
    pub level: u32,
    pub content: Seq<ValueView>,
}

/// What each of `values` holds.
pub closed spec fn value_views(values: Seq<ContentValue>) -> Seq<ValueView>
    decreases values,
{
    if values.len() == 0 {
        Seq::empty()
    } else {
        value_views(values.drop_last()).push(
            match values.last() {
                ContentValue::Text(text) => ValueView::Text(text@),
                ContentValue::Link(link) => ValueView::Link(link@),
                ContentValue::Figure(figure) => ValueView::Figure(figure@),
                ContentValue::Table(table) => ValueView::Table(table@),
                ContentValue::Nested(section) => ValueView::Nested(
                    Box::new(
                        SectionView {
                            heading: section.heading@,
                            level: section.level,
                            content: value_views(section.content@),
                        },
                    ),
                ),
            },
        )
    }
}

/// What each of `sections` holds.
pub open spec fn section_views(sections: Seq<SectionContent>) -> Seq<SectionView> {
    Seq::new(sections.len(), |i: int| sections[i]@)
}

impl View for ContentValue {
    type V = ValueView;

    open spec fn view(&self) -> ValueView {
        match self {
            ContentValue::Text(text) => ValueView::Text(text@),
            ContentValue::Link(link) => ValueView::Link(link@),
            ContentValue::Figure(figure) => ValueView::Figure(figure@),
            ContentValue::Table(table) => ValueView::Table(table@),
            ContentValue::Nested(section) => ValueView::Nested(Box::new(section@)),
        }
    }
}

impl View for SectionContent {
    type V = SectionView;

    closed spec fn view(&self) -> SectionView {
        SectionView {
            heading: self.heading@,
            level: self.level,
            content: value_views(self.content@),
        }
    }
}

/// The views of values, one by one.
pub proof fn lemma_value_views(values: Seq<ContentValue>)
    ensures
        value_views(values) == Seq::new(values.len(), |i: int| values[i]@),
    decreases values.len(),
{
    if values.len() > 0 {
        lemma_value_views(values.drop_last());
        assert(value_views(values) =~= Seq::new(values.len(), |i: int| values[i]@));
    } else {
        assert(value_views(values) =~= Seq::new(values.len(), |i: int| values[i]@));
    }
}

/// The canonical paths that the links among `values` lead to, those of the
/// sections below included, in the order they stand in.
pub open spec fn content_links(values: Seq<ContentValue>) -> Seq<Seq<char>>
    decreases values,
{
    if values.len() == 0 {
        Seq::empty()
    } else {
        let earlier = content_links(values.drop_last());
        match values.last() {
            ContentValue::Link(link) => earlier.push(link@.url),
            ContentValue::Nested(section) => earlier + content_links(section.values()),
            _ => earlier,
        }
    }
}

/// The canonical paths that the links in `sections` lead to, in the order
/// they stand in.
pub open spec fn section_links(sections: Seq<SectionContent>) -> Seq<Seq<char>>
    decreases sections.len(),
{
    if sections.len() == 0 {
        Seq::empty()
    } else {
        section_links(sections.drop_last()) + content_links(sections.last().values())
    }
}

impl ContentValue {
    /// The section in this value, if it is one, to read or to change.
    pub fn get_nested(&mut self) -> (r: Option<&mut SectionContent>)
        ensures
            r is Some <==> *old(self) is Nested,
            r matches Some(section) ==> *old(self) == ContentValue::Nested(Box::new(*section))
                && *final(self) == ContentValue::Nested(Box::new(*final(section))),
            r is None ==> *final(self) == *old(self),
    {
        match self {
            ContentValue::Nested(content) => Some(&mut **content),
            _ => None,
        }
    }

    /// The section in this value, if it is one.
    pub fn nested(&self) -> (r: Option<&SectionContent>)
        ensures
            r is Some <==> self is Nested,
            r matches Some(section) ==> *self == ContentValue::Nested(Box::new(*section)),
    {
        match self {
            ContentValue::Nested(content) => Some(&**content),
            _ => None,
        }
    }
}

impl SectionContent {
    /// The heading.
    pub closed spec fn heading_text(&self) -> Seq<char> {
        self.heading@
    }

    /// The level of the heading.
    pub closed spec fn heading_level(&self) -> u32 {
        self.level
    }

    /// What stands in the section, in order.
    pub closed spec fn values(&self) -> Seq<ContentValue> {
        self.content@
    }

    /// The view of a section is made of its heading, its level and the
    /// views of what stands in it.
    pub proof fn lemma_view(&self)
        ensures
            self@.heading == self.heading_text(),
            self@.level == self.heading_level(),
            self@.content == Seq::new(self.values().len(), |i: int| self.values()[i]@),
    {
        lemma_value_views(self.content@);
    }

    /// Appends `values`, in order.
    pub fn add_values(&mut self, values: Vec<ContentValue>)
        ensures
            final(self).values() == old(self).values() + values@,
            final(self).heading_text() == old(self).heading_text(),
            final(self).heading_level() == old(self).heading_level(),
    {
        let mut values = values;
        self.content.append(&mut values);
    }

    /// The empty section under the readable text of `heading`, or `None` if
    /// the heading has no readable text.
    pub fn new(heading: String, level: u32) -> (r: Option<Self>)
        ensures
            r is Some <==> parsed_text(heading@) is Some,
            r matches Some(section) ==> {
                &&& Some(section.heading_text()) == parsed_text(heading@)
                &&& section.heading_level() == level
                &&& section.values() == Seq::<ContentValue>::empty()
            },
    {
        match parse_text(heading.as_str()) {
            Some(heading) => Some(SectionContent { heading, level, content: Vec::new() }),
            None => None,
        }
    }

    /// The heading.
    pub fn heading(&self) -> (r: &String)
        ensures
            r@ == self.heading_text(),
    {
        &self.heading
    }

    /// The level of the heading.
    pub fn level(&self) -> (r: u32)
        ensures
            r == self.heading_level(),
    {
        self.level
    }

    /// What stands in the section, in order.
    pub fn content(&self) -> (r: &Vec<ContentValue>)
        ensures
            r@ == self.values(),
    {
        &self.content
    }

    /// Whether nothing stands in the section.
    pub fn is_empty_content(&self) -> (r: bool)
        ensures
            r == (self.values().len() == 0),
    {
        self.content.len() == 0
    }

    /// Appends the section `nested` below this one.
    pub fn add_nested(&mut self, nested: SectionContent)
        ensures
            final(self).values() == old(self).values().push(ContentValue::Nested(Box::new(nested))),
            final(self).heading_text() == old(self).heading_text(),
            final(self).heading_level() == old(self).heading_level(),
    {
        self.content.push(ContentValue::Nested(Box::new(nested)));
    }

    /// Appends the readable text of `text`, if it has any.
    pub fn add_text(&mut self, text: String)
        ensures
            final(self).heading_text() == old(self).heading_text(),
            final(self).heading_level() == old(self).heading_level(),
            match parsed_text(text@) {
                Some(parsed) => {
                    &&& final(self).values().len() == old(self).values().len() + 1
                    &&& final(self).values().drop_last() == old(self).values()
                    &&& final(self).values().last() matches ContentValue::Text(added)
                    &&& added@ == parsed
                },
                None => final(self).values() == old(self).values(),
            },
    {
        match parse_text(text.as_str()) {
            Some(parsed) => {
                self.content.push(ContentValue::Text(parsed));
                assert(self.values().drop_last() =~= old(self).values());
            },
            None => {},
        }
    }

    /// Appends `link`.
    pub fn add_link(&mut self, link: Link)
        ensures
            final(self).values() == old(self).values().push(ContentValue::Link(link)),
            final(self).heading_text() == old(self).heading_text(),
            final(self).heading_level() == old(self).heading_level(),
    {
        self.content.push(ContentValue::Link(link));
    }

    /// Appends `figure`.
    pub fn add_figure(&mut self, figure: Figure)
        ensures
            final(self).values() == old(self).values().push(ContentValue::Figure(figure)),
            final(self).heading_text() == old(self).heading_text(),
            final(self).heading_level() == old(self).heading_level(),
    {
        self.content.push(ContentValue::Figure(figure));
    }

    /// Appends `table`.
    pub fn add_table(&mut self, table: Table)
        ensures
            final(self).values() == old(self).values().push(ContentValue::Table(table)),
            final(self).heading_text() == old(self).heading_text(),
            final(self).heading_level() == old(self).heading_level(),
    {
        self.content.push(ContentValue::Table(table));
    }

    /// Appends to `urls` the pages that the links in this section lead to,
    /// those of the sections below included, each once.
    fn collect_links(&self, urls: &mut Vec<WikipediaUrl>)
        ensures
            url_paths(final(urls)@) == extended(
                url_paths(old(urls)@),
                content_links(self.content@),
            ),
        decreases self,
    {
        let ghost start = url_paths(urls@);
        let ghost all = self.content@;
        let mut i: usize = 0;
        assert(all.take(0) =~= Seq::<ContentValue>::empty());
        while i < self.content.len()
            invariant
                i <= self.content.len(),
                all == self.content@,
                url_paths(urls@) == extended(start, content_links(all.take(i as int))),
            decreases self.content.len() - i,
        {
            let ghost earlier = content_links(all.take(i as int));
            proof {
                assert(all.take(i + 1).drop_last() =~= all.take(i as int));
                assert(all.take(i + 1).last() == all[i as int]);
            }
            match &self.content[i] {
                ContentValue::Link(link) => {
                    add_url(urls, &link.url);
                    proof {
                        lemma_extended_twice(start, earlier, seq![link@.url]);
                        assert(earlier + seq![link@.url] =~= earlier.push(link@.url));
                    }
                },
                ContentValue::Nested(nested) => {
                    nested.collect_links(urls);
                    proof {
                        lemma_extended_twice(start, earlier, content_links(nested.content@));
                    }
                },
                _ => {},
            }
            i += 1;
        }
        assert(all.take(i as int) =~= all);
    }
}

/// A Wikipedia page as it was read.
#[derive(Debug, PartialEq, Eq)]
pub struct WikipediaPage {
    title: String,
    short_description: String,
    abstract_text: Vec<String>,
    content: SectionContentType,
    categories: Vec<Link>,
    page_links: Vec<WikipediaUrl>,
}

impl WikipediaPage {
    /// The title.
    pub closed spec fn title_text(&self) -> Seq<char> {
        self.title@
    }

    /// The short description.
    pub closed spec fn description_text(&self) -> Seq<char> {
        self.short_description@
    }

    /// The paragraphs before the first section.
    pub closed spec fn abstract_texts(&self) -> Seq<Seq<char>> {
        texts(self.abstract_text@)
    }

    /// The sections.
    pub closed spec fn sections(&self) -> SectionContentType {
        self.content
    }

    /// The categories of the page.
    pub closed spec fn category_links(&self) -> Seq<Link> {
        self.categories@
    }

    /// The pages that the page links to anywhere, each once.
    pub closed spec fn linked_paths(&self) -> Seq<Seq<char>> {
        url_paths(self.page_links@)
    }

    /// The canonical paths that the links in the sections lead to.
    pub open spec fn section_paths(&self) -> Seq<Seq<char>> {
        match self.sections() {
            SectionContentType::Content(sections) => section_links(sections@),
            SectionContentType::Empty => Seq::empty(),
        }
    }

    /// Every page that this page leads to, each once: those it links to
    /// anywhere, then those that the links in its sections lead to.
    pub open spec fn all_linked_paths(&self) -> Seq<Seq<char>> {
        extended(extended(Seq::empty(), self.linked_paths()), self.section_paths())
    }

    /// The page with the readable text of `title`, of `short_description`
    /// and of those of `abstract_text` that have any, and with each of
    /// `page_links` once. `None` if the title or the short description has
    /// no readable text.
    pub fn new(
        title: String,
        short_description: String,
        abstract_text: Vec<String>,
        content: SectionContentType,
        categories: Vec<Link>,
        page_links: Vec<WikipediaUrl>,
    ) -> (r: Option<Self>)
        ensures
            r is Some <==> parsed_text(title@) is Some && parsed_text(short_description@) is Some,
            r matches Some(page) ==> {
                &&& Some(page.title_text()) == parsed_text(title@)
                &&& Some(page.description_text()) == parsed_text(short_description@)
                &&& page.abstract_texts() == readable(texts(abstract_text@))
                &&& page.sections() == content
                &&& page.category_links() == categories@
                &&& page.linked_paths() == extended(Seq::empty(), url_paths(page_links@))
            },
    {
        let title = match parse_text(title.as_str()) {
            Some(title) => title,
            None => {
                return None;
            },
        };
        let short_description = match parse_text(short_description.as_str()) {
            Some(short_description) => short_description,
            None => {
                return None;
            },
        };
        let abstract_text = Self::readable_texts(&abstract_text);
        let page_links = Self::each_once(&page_links);
        Some(
            WikipediaPage {
                title,
                short_description,
                abstract_text,
                content,
                categories,
                page_links,
            },
        )
    }

    /// The readable texts among `data`, in order.
    fn readable_texts(data: &Vec<String>) -> (r: Vec<String>)
        ensures
            texts(r@) == readable(texts(data@)),
    {
        let ghost all = texts(data@);
        let mut out: Vec<String> = Vec::new();
        let mut i: usize = 0;
        assert(all.take(0) =~= Seq::<Seq<char>>::empty());
        assert(texts(out@) =~= readable(all.take(0)));
        while i < data.len()
            invariant
                i <= data.len(),
                all == texts(data@),
                texts(out@) == readable(all.take(i as int)),
            decreases data.len() - i,
        {
            let ghost before = texts(out@);
            proof {
                assert(all.take(i + 1).drop_last() =~= all.take(i as int));
                assert(all.take(i + 1).last() == data[i as int]@);
            }
            match parse_text(data[i].as_str()) {
                Some(parsed) => {
                    out.push(parsed);
                    assert(texts(out@) =~= before.push(parsed@));
                },
                None => {},
            }
            i += 1;
        }
        assert(all.take(i as int) =~= all);
        out
    }

    /// Each of `urls` once, in the order of their first occurrence.
    fn each_once(urls: &Vec<WikipediaUrl>) -> (r: Vec<WikipediaUrl>)
        ensures
            url_paths(r@) == extended(Seq::empty(), url_paths(urls@)),
    {
        let mut out: Vec<WikipediaUrl> = Vec::new();
        Self::add_urls(&mut out, urls);
        assert(url_paths(Seq::<WikipediaUrl>::empty()) =~= Seq::<Seq<char>>::empty());
        out
    }

    /// Appends to `out` those of `urls` that are not in it yet, each once.
    fn add_urls(out: &mut Vec<WikipediaUrl>, urls: &Vec<WikipediaUrl>)
        ensures
            url_paths(final(out)@) == extended(url_paths(old(out)@), url_paths(urls@)),
    {
        let ghost start = url_paths(out@);
        let ghost all = url_paths(urls@);
        let mut i: usize = 0;
        assert(all.take(0) =~= Seq::<Seq<char>>::empty());
        while i < urls.len()
            invariant
                i <= urls.len(),
                all == url_paths(urls@),
                url_paths(out@) == extended(start, all.take(i as int)),
            decreases urls.len() - i,
        {
            proof {
                lemma_extended_twice(start, all.take(i as int), seq![urls[i as int].path()]);
                assert(all.take(i as int) + seq![urls[i as int].path()] =~= all.take(i + 1));
            }
            add_url(out, &urls[i]);
            i += 1;
        }
        assert(all.take(i as int) =~= all);
    }

    /// The title.
    pub fn title(&self) -> (r: &String)
        ensures
            r@ == self.title_text(),
    {
        &self.title
    }

    /// The short description.
    pub fn short_description(&self) -> (r: &String)
        ensures
            r@ == self.description_text(),
    {
        &self.short_description
    }

    /// The paragraphs before the first section.
    pub fn abstract_text(&self) -> (r: &Vec<String>)
        ensures
            texts(r@) == self.abstract_texts(),
    {
        &self.abstract_text
    }

    /// The sections.
    pub fn content(&self) -> (r: &SectionContentType)
        ensures
            *r == self.sections(),
    {
        &self.content
    }

    /// The categories of the page.
    pub fn categories(&self) -> (r: &Vec<Link>)
        ensures
            r@ == self.category_links(),
    {
        &self.categories
    }

    /// The pages that the categories of the page lead to, each once.
    pub fn get_category_links(&self) -> (r: Vec<WikipediaUrl>)
        ensures
            url_paths(r@) == extended(Seq::empty(), link_paths(self.category_links())),
    {
        let ghost all = link_paths(self.categories@);
        let mut out: Vec<WikipediaUrl> = Vec::new();
        let mut i: usize = 0;
        assert(all.take(0) =~= Seq::<Seq<char>>::empty());
        assert(url_paths(out@) =~= Seq::<Seq<char>>::empty());
        while i < self.categories.len()
            invariant
                i <= self.categories.len(),
                all == link_paths(self.categories@),
                url_paths(out@) == extended(Seq::empty(), all.take(i as int)),
            decreases self.categories.len() - i,
        {
            proof {
                lemma_extended_twice(
                    Seq::empty(),
                    all.take(i as int),
                    seq![self.categories[i as int]@.url],
                );
                assert(all.take(i as int) + seq![self.categories[i as int]@.url] =~= all.take(
                    i + 1,
                ));
            }
            add_url(&mut out, &self.categories[i].url);
            i += 1;
        }
        assert(all.take(i as int) =~= all);
        out
    }

    /// The pages that the links in `content` lead to, those of the sections
    /// below included, each once.
    pub fn extract_urls_from_content(content: &SectionContent) -> (r: Vec<WikipediaUrl>)
        ensures
            url_paths(r@) == extended(Seq::empty(), content_links(content.values())),
    {
        let mut out: Vec<WikipediaUrl> = Vec::new();
        assert(url_paths(out@) =~= Seq::<Seq<char>>::empty());
        content.collect_links(&mut out);
        out
    }

    /// Every page that this page leads to, each once: those it links to
    /// anywhere, then those that the links in its sections lead to.
    pub fn get_all_page_links(&self) -> (r: Vec<WikipediaUrl>)
        ensures
            url_paths(r@) == self.all_linked_paths(),
            url_paths(r@).no_duplicates(),
            forall|path: Seq<char>|
                url_paths(r@).contains(path) <==> self.linked_paths().contains(path)
                    || self.section_paths().contains(path),
    {
        let mut out: Vec<WikipediaUrl> = Vec::new();
        assert(url_paths(out@) =~= Seq::<Seq<char>>::empty());
        Self::add_urls(&mut out, &self.page_links);
        let ghost start = url_paths(out@);
        match &self.content {
            SectionContentType::Content(sections) => {
                let mut i: usize = 0;
                assert(sections@.take(0) =~= Seq::<SectionContent>::empty());
                while i < sections.len()
                    invariant
                        i <= sections.len(),
                        url_paths(out@) == extended(start, section_links(sections@.take(i as int))),
                    decreases sections.len() - i,
                {
                    proof {
                        assert(sections@.take(i + 1).drop_last() =~= sections@.take(i as int));
                        assert(sections@.take(i + 1).last() == sections[i as int]);
                        lemma_extended_twice(
                            start,
                            section_links(sections@.take(i as int)),
                            content_links(sections[i as int].content@),
                        );
                    }
                    sections[i].collect_links(&mut out);
                    i += 1;
                }
                assert(sections@.take(i as int) =~= sections@);
            },
            SectionContentType::Empty => {},
        }
        proof {
            lemma_extended_distinct(Seq::empty(), self.linked_paths());
            lemma_extended_distinct(start, self.section_paths());
            assert forall|path: Seq<char>|
                url_paths(out@).contains(path) <==> self.linked_paths().contains(path)
                    || self.section_paths().contains(path) by {
                lemma_extended_holds(Seq::empty(), self.linked_paths(), path);
                lemma_extended_holds(start, self.section_paths(), path);
            }
        }
        out
    }
}

} // verus!
