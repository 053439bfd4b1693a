//! Reading a Wikipedia page out of its document.

use vstd::prelude::*;
use scraper::{ElementRef, Html};
use crate::common::url::UrlTrait;
use crate::error::FetchError;
use crate::html::{
    attribute, attribute_of, attribute_or_nothing, children, children_of, classes, classes_of,
    element_name, find_in, find_in_document, first_text_in, found_in, found_in_document, name_of,
    spaced_text_in, spaced_text_of, spaced_texts_in, text_in, text_of, texts_in,
};
use crate::pages::wikipedia::error::Error;
use crate::pages::wikipedia::sections::{build_sections, built, piece_views, Piece, PieceView};
use crate::pages::wikipedia::table::{
    cell_views, raw_columns, row_texts, row_views, simple_table, spanned_columns, spanned_table,
    Cell, CellView,
};
use crate::pages::wikipedia::{
    kept_columns, parse_text, parsed_text, readable, section_views, url_paths, ColumnView,
    ContentValue, Figure, FigureView, Link, LinkView, SectionContent, SectionContentType,
    SectionView, Table, ValueView, WikipediaPage,
};
use crate::pattern::{is_match, matched};
use crate::sites::wikipedia::url::{accepts_path, canonical_path, WikipediaUrl};
use crate::text::{
    chars_of, contains, digit_value, extended, is_digit, parse_usize, same_text, text_contains,
    texts, written_number,
};

verus! {

/// The rank of the heading that an element of the name `name` is: the
/// digit after the first character, where the name holds an `h` and a
/// digit after it. `None` for the name of any other element.
pub open spec fn heading_rank(name: Seq<char>) -> Option<u32> {
    if matched("h\\d"@, name) == Some(true) && name.len() > 1 && is_digit(name[1]) {
        Some(digit_value(name[1]) as u32)
    } else {
        None
    }
}

/// The rank of the heading that an element of the name `name` is, if it is
/// one.
pub fn heading_level(name: &str) -> (r: Option<u32>)
    ensures
        r == heading_rank(name@),
{
    match is_match("h\\d", name) {
        Some(true) => {
            let chars = chars_of(name);
            if chars.len() > 1 && chars[1] >= '0' && chars[1] <= '9' {
                Some(chars[1] as u32 - '0' as u32)
            } else {
                None
            }
        },
        _ => None,
    }
}

/// What is left of a page once its parts are found: the page, or the
/// reason for which there is none. A page needs a list of categories, and a
/// title and a short description with readable text.
pub fn finish(
    title: String,
    short_description: String,
    abstract_text: Vec<String>,
    content: SectionContentType,
    categories: Option<Vec<Link>>,
    page_links: Vec<WikipediaUrl>,
) -> (r: Result<WikipediaPage, Error>)
    ensures
        r is Ok <==> categories is Some && parsed_text(title@) is Some && parsed_text(
            short_description@,
        ) is Some,
        r matches Ok(page) ==> {
            &&& Some(page.title_text()) == parsed_text(title@)
            &&& Some(page.description_text()) == parsed_text(short_description@)
            &&& page.abstract_texts() == readable(texts(abstract_text@))
            &&& page.sections() == content
            &&& page.category_links() == categories->Some_0@
            &&& page.linked_paths() == extended(Seq::empty(), url_paths(page_links@))
        },
        r matches Err(e) ==> e == if categories is None {
            Error::NoCategoriesFound
        } else {
            Error::UnableToExtractContent
        },
{
    let categories = match categories {
        Some(categories) => categories,
        None => {
            return Err(Error::NoCategoriesFound);
        },
    };
    match WikipediaPage::new(
        title,
        short_description,
        abstract_text,
        content,
        categories,
        page_links,
    ) {
        Some(page) => Ok(page),
        None => Err(Error::UnableToExtractContent),
    }
}

/// The cell spans several rows or columns: it says how many.
pub open spec fn spans(cell: ElementRef) -> bool {
    attribute(cell, "rowspan"@) is Some || attribute(cell, "colspan"@) is Some
}

/// Some cell of `table` spans several rows or columns.
pub open spec fn is_complex(table: ElementRef) -> bool {
    exists|i: int|
        0 <= i < found_in(table, "th, td"@).len() && spans(#[trigger] found_in(table, "th, td"@)[i])
}

/// The titles of a table with the rows `rows`: the spaced texts of the
/// header cells of the first row.
pub open spec fn header_texts(rows: Seq<ElementRef>) -> Seq<Seq<char>> {
    if rows.len() == 0 {
        Seq::empty()
    } else {
        spaced_texts_in(found_in(rows[0], "th"@))
    }
}

/// The spaced texts of the cells of every row of `rows` but the first.
pub open spec fn plain_rows(rows: Seq<ElementRef>) -> Seq<Seq<Seq<char>>> {
    if rows.len() == 0 {
        Seq::empty()
    } else {
        Seq::new((rows.len() - 1) as nat, |i: int| spaced_texts_in(found_in(rows[i + 1], "td"@)))
    }
}

/// The columns of `table` with every cell taken as it is, of which those
/// with readable text under a readable title are kept.
pub open spec fn simple_table_in(table: ElementRef) -> Seq<ColumnView> {
    let rows = found_in(table, "tr"@);
    kept_columns(raw_columns(header_texts(rows), plain_rows(rows)))
}

/// How many rows or columns `cell` spans, as its attribute `name` says: the
/// number written there, and one where there is no attribute, no number, or
/// a number too great to hold.
pub open spec fn span_in(cell: ElementRef, name: Seq<char>) -> nat {
    match attribute(cell, name) {
        Some(written) => match written_number(written) {
            Some(value) => if value <= usize::MAX {
                value
            } else {
                1
            },
            None => 1,
        },
        None => 1,
    }
}

/// A cell of a table with its text and its spans.
pub open spec fn cell_in(cell: ElementRef) -> CellView {
    CellView {
        text: spaced_text_in(cell),
        rowspan: span_in(cell, "rowspan"@),
        colspan: span_in(cell, "colspan"@),
    }
}

/// The cells of a row.
pub open spec fn cells_in(row: ElementRef) -> Seq<CellView> {
    Seq::new(found_in(row, "td"@).len(), |j: int| cell_in(found_in(row, "td"@)[j]))
}

/// The cells of every row of `rows` but the first.
pub open spec fn spanned_rows(rows: Seq<ElementRef>) -> Seq<Seq<CellView>> {
    if rows.len() == 0 {
        Seq::empty()
    } else {
        Seq::new((rows.len() - 1) as nat, |i: int| cells_in(rows[i + 1]))
    }
}

/// The columns of `table` with the cells that span rows or columns spread
/// over them; none for a table without rows.
pub open spec fn spanned_table_in(table: ElementRef) -> Seq<ColumnView> {
    let rows = found_in(table, "tr"@);
    if rows.len() == 0 {
        Seq::empty()
    } else {
        spanned_columns(header_texts(rows), spanned_rows(rows))
    }
}

/// The link that the anchor `anchor` is, if its text is readable and its
/// address names a page.
pub open spec fn link_in(anchor: ElementRef) -> Option<LinkView> {
    let address = canonical_path(attribute_or_nothing(anchor, "href"@));
    match parsed_text(text_in(anchor)) {
        Some(title) => if accepts_path(address) {
            Some(LinkView { title, url: address })
        } else {
            None
        },
        None => None,
    }
}

/// The links among `anchors`, in order.
pub open spec fn links_among(anchors: Seq<ElementRef>) -> Seq<LinkView> {
    anchors.filter(|anchor: ElementRef| link_in(anchor) is Some).map_values(
        |anchor: ElementRef| link_in(anchor)->Some_0,
    )
}

/// What each of `links` holds.
pub open spec fn link_views(links: Seq<Link>) -> Seq<LinkView> {
    Seq::new(links.len(), |i: int| links[i]@)
}

/// What each of `values` holds.
pub open spec fn values_held(values: Seq<ContentValue>) -> Seq<ValueView> {
    Seq::new(values.len(), |i: int| values[i]@)
}

/// The text of the first of `elements`, empty if there is none.
pub open spec fn first_text_or_nothing(elements: Seq<ElementRef>) -> Seq<char> {
    match first_text_in(elements) {
        Some(text) => text,
        None => Seq::empty(),
    }
}

/// The address that the first of `anchors` has, empty if there is no anchor
/// or it has no address.
pub open spec fn first_address(anchors: Seq<ElementRef>) -> Seq<char> {
    if anchors.len() > 0 {
        attribute_or_nothing(anchors[0], "href"@)
    } else {
        Seq::empty()
    }
}

/// The figure in `element`: its first image with the caption of the
/// element and the page that its first link leads to. `None` if it holds no
/// image, the caption has no readable text, or the link names no page.
pub open spec fn figure_in(element: ElementRef) -> Option<FigureView> {
    let images = found_in(element, "img"@);
    let caption = first_text_or_nothing(found_in(element, "figcaption"@));
    let address = canonical_path(first_address(found_in(element, "a"@)));
    if images.len() > 0 && parsed_text(caption) is Some && accepts_path(address) {
        Some(
            FigureView {
                caption: parsed_text(caption)->Some_0,
                alt_text: parsed_text(attribute_or_nothing(images[0], "alt"@)),
                true_url: attribute_or_nothing(images[0], "src"@),
                wiki_url: address,
            },
        )
    } else {
        None
    }
}

/// The readable texts of `elements` as values of a section.
pub open spec fn texts_among(elements: Seq<ElementRef>) -> Seq<ValueView> {
    readable(texts_in(elements)).map_values(|text: Seq<char>| ValueView::Text(text))
}

/// What an element that is no heading adds to the section it stands in: a
/// paragraph its readable text, a list the readable texts of its entries, a
/// note its links, a figure itself, and a table itself, taken as a simple
/// table; any other element adds nothing.
pub open spec fn values_in(element: ElementRef) -> Seq<ValueView> {
    let name = element_name(element);
    if name == "p"@ {
        texts_among(seq![element])
    } else if name == "ul"@ {
        texts_among(found_in(element, "li"@))
    } else if name == "div"@ {
        if attribute(element, "role"@) == Some("note"@) {
            links_among(found_in(element, "a"@)).map_values(|link: LinkView| ValueView::Link(link))
        } else {
            Seq::empty()
        }
    } else if name == "figure"@ {
        match figure_in(element) {
            Some(figure) => seq![ValueView::Figure(figure)],
            None => Seq::empty(),
        }
    } else if name == "table"@ {
        if simple_table_in(element).len() > 0 {
            seq![ValueView::Table(simple_table_in(element))]
        } else {
            Seq::empty()
        }
    } else {
        Seq::empty()
    }
}

/// What `element` of the body of a page contributes to the sections: a
/// heading opens an empty section under its readable text, and any other
/// element adds its values.
pub open spec fn piece_in(element: ElementRef) -> PieceView {
    match heading_rank(element_name(element)) {
        Some(level) => PieceView::Heading {
            level,
            section: match parsed_text(text_in(element)) {
                Some(heading) => Some(SectionView { heading, level, content: Seq::empty() }),
                None => None,
            },
        },
        None => PieceView::Values(values_in(element)),
    }
}

/// What each of `elements` contributes.
pub open spec fn pieces_in(elements: Seq<ElementRef>) -> Seq<PieceView> {
    Seq::new(elements.len(), |i: int| piece_in(elements[i]))
}

/// Whether some cell of `table` spans several rows or columns.
pub fn is_complex_table(table: &ElementRef) -> (r: bool)
    ensures
        r == is_complex(*table),
{
    let cells = find_in(table, "th, td");
    let mut i: usize = 0;
    while i < cells.len()
        invariant
            i <= cells.len(),
            cells@ == found_in(*table, "th, td"@),
            forall|j: int| 0 <= j < i ==> !spans(#[trigger] cells[j]),
        decreases cells.len() - i,
    {
        if attribute_of(&cells[i], "rowspan").is_some() || attribute_of(
            &cells[i],
            "colspan",
        ).is_some() {
            assert(spans(cells[i as int]));
            return true;
        }
        i += 1;
    }
    false
}

/// The texts of `elements`, each with a space between its text nodes and
/// without the whitespace around it.
fn spaced_texts_of(elements: &Vec<ElementRef>) -> (r: Vec<String>)
    ensures
        texts(r@) == spaced_texts_in(elements@),
{
    let mut out: Vec<String> = Vec::new();
    let mut i: usize = 0;
    while i < elements.len()
        invariant
            i <= elements.len(),
            out.len() == i,
            forall|j: int| 0 <= j < i ==> (#[trigger] out[j])@ == spaced_text_in(elements[j]),
        decreases elements.len() - i,
    {
        out.push(spaced_text_of(&elements[i]));
        i += 1;
    }
    assert(texts(out@) =~= spaced_texts_in(elements@));
    out
}

/// The table in `table` with every cell taken as it is: the header cells
/// of the first row are the titles, and the cells of every other row go to
/// the columns by their position.
pub fn extract_simple_table_data(table: &ElementRef) -> (r: Option<Table>)
    ensures
        r is Some <==> simple_table_in(*table).len() > 0,
        r matches Some(found) ==> found@ == simple_table_in(*table),
{
    let rows = find_in(table, "tr");
    let mut headers: Vec<String> = Vec::new();
    let mut cells: Vec<Vec<String>> = Vec::new();
    let mut i: usize = 0;
    assert(texts(headers@) =~= Seq::<Seq<char>>::empty());
    while i < rows.len()
        invariant
            i <= rows.len(),
            i == 0 ==> texts(headers@) == Seq::<Seq<char>>::empty() && cells.len() == 0,
            i > 0 ==> texts(headers@) == header_texts(rows@) && cells.len() == i - 1,
            forall|k: int|
                0 <= k < cells.len() ==> texts((#[trigger] cells[k])@) == spaced_texts_in(
                    found_in(rows[k + 1], "td"@),
                ),
        decreases rows.len() - i,
    {
        if i == 0 {
            headers = spaced_texts_of(&find_in(&rows[i], "th"));
        } else {
            cells.push(spaced_texts_of(&find_in(&rows[i], "td")));
        }
        i += 1;
    }
    assert(texts(headers@) =~= header_texts(rows@));
    assert(row_texts(cells@) =~= plain_rows(rows@));
    simple_table(&headers, &cells)
}

/// How many rows or columns a cell spans, as its attribute `name` says, and
/// one where it does not say.
fn span_of(cell: &ElementRef, name: &str) -> (r: usize)
    ensures
        r as nat == span_in(*cell, name@),
{
    match attribute_of(cell, name) {
        Some(written) => match parse_usize(written.as_str()) {
            Some(span) => span,
            None => 1,
        },
        None => 1,
    }
}

/// The cells of a row with their spans.
fn cells_of(row: &ElementRef) -> (r: Vec<Cell>)
    ensures
        cell_views(r@) == cells_in(*row),
{
    let found = find_in(row, "td");
    let mut cells: Vec<Cell> = Vec::new();
    let mut j: usize = 0;
    while j < found.len()
        invariant
            j <= found.len(),
            found@ == found_in(*row, "td"@),
            cells.len() == j,
            forall|k: int| 0 <= k < j ==> (#[trigger] cells[k])@ == cell_in(found[k]),
        decreases found.len() - j,
    {
        cells.push(
            Cell {
                text: spaced_text_of(&found[j]),
                rowspan: span_of(&found[j], "rowspan"),
                colspan: span_of(&found[j], "colspan"),
            },
        );
        j += 1;
    }
    assert(cell_views(cells@) =~= cells_in(*row));
    cells
}

/// The table in `table` with the cells that span rows or columns spread
/// over them. Without a row there is no column.
pub fn handle_rowspan_and_colspan(table: &ElementRef) -> (r: Table)
    ensures
        r@ == spanned_table_in(*table),
{
    let rows = find_in(table, "tr");
    let mut headers: Vec<String> = Vec::new();
    let mut cells: Vec<Vec<Cell>> = Vec::new();
    let mut i: usize = 0;
    assert(texts(headers@) =~= Seq::<Seq<char>>::empty());
    while i < rows.len()
        invariant
            i <= rows.len(),
            i == 0 ==> texts(headers@) == Seq::<Seq<char>>::empty() && cells.len() == 0,
            i > 0 ==> texts(headers@) == header_texts(rows@) && cells.len() == i - 1,
            forall|k: int|
                0 <= k < cells.len() ==> cell_views((#[trigger] cells[k])@) == cells_in(
                    rows[k + 1],
                ),
        decreases rows.len() - i,
    {
        if i == 0 {
            headers = spaced_texts_of(&find_in(&rows[i], "th"));
        } else {
            cells.push(cells_of(&rows[i]));
        }
        i += 1;
    }
    if rows.len() == 0 {
        let columns = Vec::new();
        assert(crate::pages::wikipedia::column_views(columns@) =~= Seq::<ColumnView>::empty());
        Table::raw(columns)
    } else {
        assert(row_views(cells@) =~= spanned_rows(rows@));
        spanned_table(&headers, &cells)
    }
}

/// The value of the attribute `name` of `element`, empty if it has none.
fn attribute_or_empty(element: &ElementRef, name: &str) -> (r: String)
    ensures
        r@ == attribute_or_nothing(*element, name@),
{
    match attribute_of(element, name) {
        Some(value) => value,
        None => String::new(),
    }
}

/// The links among `anchors` that have a readable text and lead to a page.
fn links_of(anchors: &Vec<ElementRef>) -> (r: Vec<Link>)
    ensures
        link_views(r@) == links_among(anchors@),
{
    let ghost is_link = |anchor: ElementRef| link_in(anchor) is Some;
    let ghost link_of = |anchor: ElementRef| link_in(anchor)->Some_0;
    let mut links: Vec<Link> = Vec::new();
    let mut i: usize = 0;
    proof {
        reveal(Seq::filter);
        assert(anchors@.take(0) =~= Seq::<ElementRef>::empty());
        assert(link_views(links@) =~= anchors@.take(0).filter(is_link).map_values(link_of));
    }
    while i < anchors.len()
        invariant
            i <= anchors.len(),
            is_link == |anchor: ElementRef| link_in(anchor) is Some,
            link_of == |anchor: ElementRef| link_in(anchor)->Some_0,
            link_views(links@) == anchors@.take(i as int).filter(is_link).map_values(link_of),
        decreases anchors.len() - i,
    {
        let ghost before = link_views(links@);
        let ghost earlier = anchors@.take(i as int);
        proof {
            assert(anchors@.take(i + 1) =~= earlier.push(anchors[i as int]));
            Seq::lemma_filter_push(earlier, anchors[i as int], is_link);
        }
        let title = text_of(&anchors[i]);
        let url = attribute_or_empty(&anchors[i], "href");
        match Link::new(title, url.as_str()) {
            Some(link) => {
                links.push(link);
                assert(link_views(links@) =~= before.push(link@));
                assert(earlier.filter(is_link).push(anchors[i as int]).map_values(link_of)
                    =~= earlier.filter(is_link).map_values(link_of).push(
                    link_of(anchors[i as int]),
                ));
            },
            None => {},
        }
        i += 1;
    }
    assert(anchors@.take(i as int) =~= anchors@);
    links
}

/// The figure in `element`, if it holds an image with a caption of
/// readable text that leads to a page.
fn figure_of(element: &ElementRef) -> (r: Option<Figure>)
    ensures
        r is Some <==> figure_in(*element) is Some,
        r matches Some(figure) ==> Some(figure@) == figure_in(*element),
{
    let images = find_in(element, "img");
    if images.len() == 0 {
        return None;
    }
    let alt_text = attribute_or_empty(&images[0], "alt");
    let true_url = attribute_or_empty(&images[0], "src");
    let captions = find_in(element, "figcaption");
    let caption = if captions.len() > 0 {
        text_of(&captions[0])
    } else {
        String::new()
    };
    let anchors = find_in(element, "a");
    let wiki_url = if anchors.len() > 0 {
        attribute_or_empty(&anchors[0], "href")
    } else {
        String::new()
    };
    Figure::new(caption, alt_text, true_url, wiki_url)
}

/// The readable texts of `elements` as values of a section.
fn text_values(elements: &Vec<ElementRef>) -> (r: Vec<ContentValue>)
    ensures
        values_held(r@) == texts_among(elements@),
{
    let ghost as_text = |text: Seq<char>| ValueView::Text(text);
    let mut values: Vec<ContentValue> = Vec::new();
    let mut i: usize = 0;
    proof {
        assert(texts_in(elements@.take(0)) =~= Seq::<Seq<char>>::empty());
        assert(values_held(values@) =~= readable(texts_in(elements@.take(0))).map_values(as_text));
    }
    while i < elements.len()
        invariant
            i <= elements.len(),
            as_text == |text: Seq<char>| ValueView::Text(text),
            values_held(values@) == readable(texts_in(elements@.take(i as int))).map_values(
                as_text,
            ),
        decreases elements.len() - i,
    {
        let ghost before = values_held(values@);
        let ghost earlier = texts_in(elements@.take(i as int));
        proof {
            assert(texts_in(elements@.take(i + 1)).drop_last() =~= earlier);
            assert(texts_in(elements@.take(i + 1)).last() == text_in(elements[i as int]));
        }
        match parse_text(text_of(&elements[i]).as_str()) {
            Some(text) => {
                values.push(ContentValue::Text(text));
                assert(values_held(values@) =~= before.push(ValueView::Text(text@)));
                assert(readable(earlier).push(text@).map_values(as_text) =~= readable(
                    earlier,
                ).map_values(as_text).push(as_text(text@)));
            },
            None => {},
        }
        i += 1;
    }
    assert(elements@.take(i as int) =~= elements@);
    values
}

/// The links `links` as values of a section.
fn link_values(links: Vec<Link>) -> (r: Vec<ContentValue>)
    ensures
        values_held(r@) == link_views(links@).map_values(|link: LinkView| ValueView::Link(link)),
{
    let ghost as_link = |link: LinkView| ValueView::Link(link);
    let mut values: Vec<ContentValue> = Vec::new();
    for link in it: links
        invariant
            it.seq() == links@,
            as_link == |link: LinkView| ValueView::Link(link),
            values.len() == it.index(),
            forall|k: int| 0 <= k < values.len() ==> (#[trigger] values[k])@ == as_link(links[k]@),
    {
        values.push(ContentValue::Link(link));
    }
    assert(values_held(values@) =~= link_views(links@).map_values(as_link));
    values
}

/// What `element` of the body of a page contributes to the sections: a
/// heading opens a section; a paragraph adds its text, a list the texts of
/// its entries, a note its links, a figure itself, and a table itself; any
/// other element adds nothing.
pub fn read_piece(element: &ElementRef) -> (piece: Piece)
    ensures
        piece@ == piece_in(*element),
        piece matches Piece::Heading { level, section } ==> level <= 9 && (section matches Some(
            opened,
        ) ==> opened.heading_level() == level && opened.values().len() == 0),
{
    let name = name_of(element);
    match heading_level(name.as_str()) {
        Some(level) => {
            let section = SectionContent::new(text_of(element), level);
            proof {
                match &section {
                    Some(opened) => {
                        opened.lemma_view();
                        assert(opened@ =~= (SectionView {
                            heading: parsed_text(text_in(*element))->Some_0,
                            level,
                            content: Seq::empty(),
                        })) by {
                            assert(opened@.content =~= Seq::<ValueView>::empty());
                        }
                    },
                    None => {},
                }
            }
            return Piece::Heading { level, section };
        },
        None => {},
    }
    let mut values: Vec<ContentValue> = Vec::new();
    assert(values_held(values@) =~= Seq::<ValueView>::empty());
    if same_text(name.as_str(), "p") {
        let mut paragraph: Vec<ElementRef> = Vec::new();
        paragraph.push(*element);
        assert(paragraph@ =~= seq![*element]);
        values = text_values(&paragraph);
    } else if same_text(name.as_str(), "ul") {
        values = text_values(&find_in(element, "li"));
    } else if same_text(name.as_str(), "div") {
        let is_note = match attribute_of(element, "role") {
            Some(role) => same_text(role.as_str(), "note"),
            None => false,
        };
        if is_note {
            values = link_values(links_of(&find_in(element, "a")));
        }
    } else if same_text(name.as_str(), "figure") {
        match figure_of(element) {
            Some(figure) => {
                values.push(ContentValue::Figure(figure));
                assert(values_held(values@) =~= seq![ValueView::Figure(figure@)]);
            },
            None => {},
        }
    } else if same_text(name.as_str(), "table") {
        match extract_simple_table_data(element) {
            Some(table) => {
                values.push(ContentValue::Table(table));
                assert(values_held(values@) =~= seq![ValueView::Table(table@)]);
            },
            None => {},
        }
    }
    let piece = Piece::Values(values);
    assert(piece@ =~= PieceView::Values(values_held(values@))) by {
        assert(Seq::new(values.len() as nat, |i: int| values[i]@) =~= values_held(values@));
    }
    piece
}

impl SectionContent {
    /// The sections that `elements`, the elements of the body of a page in
    /// order, make.
    pub fn extract_content(elements: &Vec<ElementRef>) -> (r: Vec<SectionContent>)
        ensures
            section_views(r@) == built(pieces_in(elements@)),
    {
        let mut pieces: Vec<Piece> = Vec::new();
        let mut i: usize = 0;
        while i < elements.len()
            invariant
                i <= elements.len(),
                pieces.len() == i,
                forall|j: int| 0 <= j < i ==> (#[trigger] pieces[j])@ == piece_in(elements[j]),
            decreases elements.len() - i,
        {
            pieces.push(read_piece(&elements[i]));
            i += 1;
        }
        assert(piece_views(pieces@) =~= pieces_in(elements@));
        build_sections(pieces)
    }
}

/// Whether `class` is among the classes of `element`.
fn has_class(element: &ElementRef, class: &str) -> (r: bool)
    ensures
        r == classes(*element).contains(class@),
{
    let found = classes_of(element);
    let mut i: usize = 0;
    while i < found.len()
        invariant
            i <= found.len(),
            texts(found@) == classes(*element),
            forall|j: int| 0 <= j < i ==> texts(found@)[j] != class@,
        decreases found.len() - i,
    {
        if same_text(found[i].as_str(), class) {
            assert(texts(found@)[i as int] == class@);
            return true;
        }
        i += 1;
    }
    false
}

/// The `main` elements of a document.
pub open spec fn mains_in(document: &Html) -> Seq<ElementRef> {
    found_in_document(document, "main"@)
}

/// The bodies in the main part of a page.
pub open spec fn bodies_in(main: ElementRef) -> Seq<ElementRef> {
    found_in(main, "div.mw-content-ltr"@)
}

/// The title in the main part of a page: the text of its first heading.
pub open spec fn title_in(main: ElementRef) -> Option<Seq<char>> {
    first_text_in(found_in(main, "h1#firstHeading"@))
}

/// The element holds the short description of a page.
pub open spec fn is_description(element: ElementRef) -> bool {
    element_name(element) == "div"@ && classes(element).contains("shortdescription"@)
}

/// The element is a table of key facts.
pub open spec fn is_infobox(element: ElementRef) -> bool {
    &&& element_name(element) == "table"@
    &&& attribute(element, "class"@) matches Some(class) && contains(class, "infobox"@)
}

/// The short description among `elements`: the text of the last element
/// that holds one, empty if none does.
pub open spec fn description_in(elements: Seq<ElementRef>) -> Seq<char>
    decreases elements.len(),
{
    if elements.len() == 0 {
        Seq::empty()
    } else if is_description(elements.last()) {
        text_in(elements.last())
    } else {
        description_in(elements.drop_last())
    }
}

/// The table of key facts among `elements`: the last, if there is one.
pub open spec fn infobox_in(elements: Seq<ElementRef>) -> Option<ElementRef>
    decreases elements.len(),
{
    if elements.len() == 0 {
        None
    } else if is_infobox(elements.last()) {
        Some(elements.last())
    } else {
        infobox_in(elements.drop_last())
    }
}

/// The texts of the paragraphs among `elements`, in order.
pub open spec fn paragraphs_in(elements: Seq<ElementRef>) -> Seq<Seq<char>>
    decreases elements.len(),
{
    if elements.len() == 0 {
        Seq::empty()
    } else if element_name(elements.last()) == "p"@ {
        paragraphs_in(elements.drop_last()).push(text_in(elements.last()))
    } else {
        paragraphs_in(elements.drop_last())
    }
}

/// The canonical paths of the pages that `anchors` lead to, in order.
pub open spec fn paths_among(anchors: Seq<ElementRef>) -> Seq<Seq<char>> {
    anchors.map_values(
        |anchor: ElementRef| canonical_path(attribute_or_nothing(anchor, "href"@)),
    ).filter(|path: Seq<char>| accepts_path(path))
}

/// The links of the list of categories in the main part of a page, `None`
/// if it has no such list.
pub open spec fn categories_in(main: ElementRef) -> Option<Seq<LinkView>> {
    let boxes = found_in(main, "div#catlinks"@);
    if boxes.len() == 0 || found_in(boxes[0], "ul"@).len() == 0 {
        None
    } else {
        Some(links_among(found_in(found_in(boxes[0], "ul"@)[0], "a"@)))
    }
}

/// How many of `elements` stand before the first `h2` heading.
pub open spec fn heading_index(elements: Seq<ElementRef>) -> int
    decreases elements.len(),
{
    if elements.len() == 0 || element_name(elements[0]) == "h2"@ {
        0
    } else {
        1 + heading_index(elements.skip(1))
    }
}

/// The first `h2` heading among `elements` stands at `at`, or there is none
/// and `at` is their number.
pub proof fn lemma_heading_index(elements: Seq<ElementRef>, at: int)
    requires
        0 <= at <= elements.len(),
        forall|j: int| 0 <= j < at ==> element_name(#[trigger] elements[j]) != "h2"@,
        at < elements.len() ==> element_name(elements[at]) == "h2"@,
    ensures
        heading_index(elements) == at,
    decreases at,
{
    if at > 0 {
        let rest = elements.skip(1);
        assert(element_name(elements[0]) != "h2"@);
        assert forall|j: int| 0 <= j < at - 1 implies element_name(#[trigger] rest[j]) != "h2"@ by {
            assert(rest[j] == elements[j + 1]);
        }
        if at < elements.len() {
            assert(rest[at - 1] == elements[at]);
        }
        lemma_heading_index(rest, at - 1);
    }
}

/// What stands in the body of a page before its first section.
pub open spec fn lead_of(body: ElementRef) -> Seq<ElementRef> {
    children(body).take(heading_index(children(body)))
}

/// What stands in the body of a page from its first section on.
pub open spec fn rest_of(body: ElementRef) -> Seq<ElementRef> {
    children(body).skip(heading_index(children(body)))
}

/// Why `document` holds no page, or `None` if it holds one. A page needs a
/// main part, in it a title, a body and a list of categories, and readable
/// text in the title and in the short description. What is missing first,
/// in this order, gives the reason.
pub open spec fn failure_in(document: &Html) -> Option<Error> {
    if mains_in(document).len() == 0 {
        Some(Error::NoPageContentFound)
    } else if title_in(mains_in(document)[0]) is None {
        Some(Error::NoTitleFound)
    } else if bodies_in(mains_in(document)[0]).len() == 0 {
        Some(Error::NoPageContentFound)
    } else if categories_in(mains_in(document)[0]) is None {
        Some(Error::NoCategoriesFound)
    } else if parsed_text(title_in(mains_in(document)[0])->Some_0) is None || parsed_text(
        description_in(lead_of(bodies_in(mains_in(document)[0])[0])),
    ) is None {
        Some(Error::UnableToExtractContent)
    } else {
        None
    }
}

/// `page` is the page that `document` holds, with its sections if
/// `with_content` says so.
pub open spec fn is_page_in(page: WikipediaPage, document: &Html, with_content: bool) -> bool {
    let main = mains_in(document)[0];
    let body = bodies_in(main)[0];
    &&& Some(page.title_text()) == parsed_text(title_in(main)->Some_0)
    &&& Some(page.description_text()) == parsed_text(description_in(lead_of(body)))
    &&& page.abstract_texts() == readable(paragraphs_in(lead_of(body)))
    &&& if with_content {
        page.sections() matches SectionContentType::Content(sections) && section_views(sections@)
            == built(pieces_in(rest_of(body)))
    } else {
        page.sections() is Empty
    }
    &&& Some(link_views(page.category_links())) == categories_in(main)
    &&& page.linked_paths() == extended(Seq::empty(), paths_among(found_in(main, "a"@)))
}

impl WikipediaPage {
    /// The main part of the document.
    fn scrape_main_content<'a>(document: &'a Html) -> (r: Result<ElementRef<'a>, Error>)
        ensures
            r is Ok <==> mains_in(document).len() > 0,
            r matches Ok(main) ==> main == mains_in(document)[0],
            r matches Err(e) ==> e == Error::NoPageContentFound,
    {
        let mut found = find_in_document(document, "main");
        if found.len() > 0 {
            Ok(found.remove(0))
        } else {
            Err(Error::NoPageContentFound)
        }
    }

    /// The body in the main part of a page.
    fn scrape_body_content<'a>(main: &ElementRef<'a>) -> (r: Result<ElementRef<'a>, Error>)
        ensures
            r is Ok <==> bodies_in(*main).len() > 0,
            r matches Ok(body) ==> body == bodies_in(*main)[0],
            r matches Err(e) ==> e == Error::NoPageContentFound,
    {
        let mut found = find_in(main, "div.mw-content-ltr");
        if found.len() > 0 {
            Ok(found.remove(0))
        } else {
            Err(Error::NoPageContentFound)
        }
    }

    /// The title in the main part of a page.
    fn scrape_title(main: &ElementRef) -> (r: Result<String, Error>)
        ensures
            r is Ok <==> title_in(*main) is Some,
            r matches Ok(title) ==> Some(title@) == title_in(*main),
            r matches Err(e) ==> e == Error::NoTitleFound,
    {
        let found = find_in(main, "h1#firstHeading");
        if found.len() > 0 {
            Ok(text_of(&found[0]))
        } else {
            Err(Error::NoTitleFound)
        }
    }

    /// What stands before the first section of a page: the short
    /// description, which is empty if there is none, the table of key
    /// facts, if there is one, and the texts of the paragraphs.
    fn extract_from_abstract_iter<'a>(elements: &Vec<ElementRef<'a>>) -> (r: (
        String,
        Option<ElementRef<'a>>,
        Vec<String>,
    ))
        ensures
            r.0@ == description_in(elements@),
            r.1 == infobox_in(elements@),
            texts(r.2@) == paragraphs_in(elements@),
    {
        let mut short_description = String::new();
        let mut table_element: Option<ElementRef<'a>> = None;
        let mut abstract_text: Vec<String> = Vec::new();
        let mut i: usize = 0;
        proof {
            reveal_strlit("div");
            reveal_strlit("table");
            reveal_strlit("p");
            assert("div"@.len() == 3 && "table"@.len() == 5 && "p"@.len() == 1);
            assert(elements@.take(0) =~= Seq::<ElementRef>::empty());
            assert(texts(abstract_text@) =~= paragraphs_in(elements@.take(0)));
        }
        while i < elements.len()
            invariant
                i <= elements.len(),
                "div"@.len() == 3 && "table"@.len() == 5 && "p"@.len() == 1,
                short_description@ == description_in(elements@.take(i as int)),
                table_element == infobox_in(elements@.take(i as int)),
                texts(abstract_text@) == paragraphs_in(elements@.take(i as int)),
            decreases elements.len() - i,
        {
            let ghost before = texts(abstract_text@);
            proof {
                assert(elements@.take(i + 1).drop_last() =~= elements@.take(i as int));
                assert(elements@.take(i + 1).last() == elements[i as int]);
            }
            let name = name_of(&elements[i]);
            let is_infobox = match attribute_of(&elements[i], "class") {
                Some(class) => text_contains(class.as_str(), "infobox"),
                None => false,
            };
            if same_text(name.as_str(), "div") && has_class(&elements[i], "shortdescription") {
                short_description = text_of(&elements[i]);
            } else if same_text(name.as_str(), "table") && is_infobox {
                table_element = Some(elements[i]);
            } else if same_text(name.as_str(), "p") {
                abstract_text.push(text_of(&elements[i]));
                assert(texts(abstract_text@) =~= before.push(text_in(elements[i as int])));
            }
            i += 1;
        }
        assert(elements@.take(i as int) =~= elements@);
        (short_description, table_element, abstract_text)
    }

    /// The pages that `anchors` lead to.
    fn urls_of(anchors: &Vec<ElementRef>) -> (r: Vec<WikipediaUrl>)
        ensures
            url_paths(r@) == paths_among(anchors@),
    {
        let ghost path_of = |anchor: ElementRef|
            canonical_path(attribute_or_nothing(anchor, "href"@));
        let ghost accepted = |path: Seq<char>| accepts_path(path);
        let mut urls: Vec<WikipediaUrl> = Vec::new();
        let mut i: usize = 0;
        proof {
            reveal(Seq::filter);
            assert(anchors@.take(0).map_values(path_of) =~= Seq::<Seq<char>>::empty());
            assert(url_paths(urls@) =~= anchors@.take(0).map_values(path_of).filter(accepted));
        }
        while i < anchors.len()
            invariant
                i <= anchors.len(),
                path_of == |anchor: ElementRef|
                    canonical_path(attribute_or_nothing(anchor, "href"@)),
                accepted == |path: Seq<char>| accepts_path(path),
                url_paths(urls@) == anchors@.take(i as int).map_values(path_of).filter(accepted),
            decreases anchors.len() - i,
        {
            let ghost before = url_paths(urls@);
            let ghost earlier = anchors@.take(i as int).map_values(path_of);
            proof {
                assert(anchors@.take(i + 1).map_values(path_of) =~= earlier.push(
                    path_of(anchors[i as int]),
                ));
                Seq::lemma_filter_push(earlier, path_of(anchors[i as int]), accepted);
            }
            match WikipediaUrl::parse(attribute_or_empty(&anchors[i], "href").as_str()) {
                Ok(url) => {
                    urls.push(url);
                    assert(url_paths(urls@) =~= before.push(url.path()));
                },
                Err(_) => {},
            }
            i += 1;
        }
        assert(anchors@.take(i as int) =~= anchors@);
        urls
    }

    /// The links of the list of categories in the main part of a page, or
    /// `None` if it has no such list.
    fn categories_of(main: &ElementRef) -> (r: Option<Vec<Link>>)
        ensures
            r is Some <==> categories_in(*main) is Some,
            r matches Some(links) ==> Some(link_views(links@)) == categories_in(*main),
    {
        let boxes = find_in(main, "div#catlinks");
        if boxes.len() == 0 {
            return None;
        }
        let lists = find_in(&boxes[0], "ul");
        if lists.len() == 0 {
            return None;
        }
        Some(links_of(&find_in(&lists[0], "a")))
    }

    /// The page in `document`, with its sections if `extract_content` says
    /// so.
    pub fn from_document(document: &Html, extract_content: bool) -> (r: Result<
        WikipediaPage,
        Error,
    >)
        ensures
            r is Ok <==> failure_in(document) is None,
            r matches Err(e) ==> Some(e) == failure_in(document),
            r matches Ok(page) ==> is_page_in(page, document, extract_content),
            r matches Ok(page) ==> extract_content == (page.sections() is Content),
            r matches Err(e) ==> e != Error::NoContentFound && !(e is Fetch),
    {
        let main = match Self::scrape_main_content(document) {
            Ok(main) => main,
            Err(e) => {
                return Err(e);
            },
        };
        let title = match Self::scrape_title(&main) {
            Ok(title) => title,
            Err(e) => {
                return Err(e);
            },
        };
        let body = match Self::scrape_body_content(&main) {
            Ok(body) => body,
            Err(e) => {
                return Err(e);
            },
        };
        let elements = children_of(&body);
        let mut before: Vec<ElementRef> = Vec::new();
        let mut from_heading: Vec<ElementRef> = Vec::new();
        let mut seen_heading = false;
        let mut i: usize = 0;
        assert(before@ + from_heading@ =~= elements@.take(0));
        while i < elements.len()
            invariant
                i <= elements.len(),
                before@ + from_heading@ == elements@.take(i as int),
                seen_heading == (from_heading.len() > 0),
                forall|j: int| 0 <= j < before.len() ==> element_name(#[trigger] before[j]) != "h2"@,
                seen_heading ==> element_name(from_heading[0]) == "h2"@,
            decreases elements.len() - i,
        {
            let ghost lead = before@;
            let ghost rest = from_heading@;
            if !seen_heading && same_text(name_of(&elements[i]).as_str(), "h2") {
                seen_heading = true;
            }
            if seen_heading {
                from_heading.push(elements[i]);
                assert(before@ + from_heading@ =~= (lead + rest).push(elements[i as int]));
            } else {
                before.push(elements[i]);
                assert(rest =~= Seq::<ElementRef>::empty());
                assert(before@ + from_heading@ =~= (lead + rest).push(elements[i as int]));
            }
            assert(elements@.take(i + 1) =~= elements@.take(i as int).push(elements[i as int]));
            i += 1;
        }
        proof {
            assert(elements@.take(i as int) =~= elements@);
            let at = before.len() as int;
            assert forall|j: int| 0 <= j < at implies element_name(#[trigger] elements[j])
                != "h2"@ by {
                assert(elements[j] == (before@ + from_heading@)[j]);
                assert(elements[j] == before[j]);
            }
            if at < elements.len() {
                assert(elements[at] == (before@ + from_heading@)[at]);
                assert(elements[at] == from_heading[0]);
            }
            lemma_heading_index(elements@, at);
            assert(before@ =~= lead_of(body));
            assert(from_heading@ =~= rest_of(body));
        }
        let (short_description, _table, abstract_text) = Self::extract_from_abstract_iter(&before);
        let content = if extract_content {
            SectionContentType::Content(SectionContent::extract_content(&from_heading))
        } else {
            SectionContentType::Empty
        };
        let categories = Self::categories_of(&main);
        let page_links = Self::urls_of(&find_in(&main, "a"));
        finish(title, short_description, abstract_text, content, categories, page_links)
    }

    /// The page, with its sections, from the outcome of retrieving it.
    pub fn get_page_with_content(fetched: Result<Html, FetchError>) -> (r: Result<
        WikipediaPage,
        Error,
    >)
        ensures
            fetched matches Err(failure) ==> r == Err::<WikipediaPage, Error>(
                Error::Fetch(failure),
            ),
            fetched matches Ok(document) ==> {
                &&& r is Ok <==> failure_in(&document) is None
                &&& r matches Err(e) ==> Some(e) == failure_in(&document)
                &&& r matches Ok(page) ==> is_page_in(page, &document, true)
            },
            fetched is Ok ==> (r matches Ok(page) ==> page.sections() is Content),
    {
        match fetched {
            Ok(document) => Self::from_document(&document, true),
            Err(failure) => Err(Error::Fetch(failure)),
        }
    }

    /// The page, without its sections, from the outcome of retrieving it.
    pub fn get_page_without_content(fetched: Result<Html, FetchError>) -> (r: Result<
        WikipediaPage,
        Error,
    >)
        ensures
            fetched matches Err(failure) ==> r == Err::<WikipediaPage, Error>(
                Error::Fetch(failure),
            ),
            fetched matches Ok(document) ==> {
                &&& r is Ok <==> failure_in(&document) is None
                &&& r matches Err(e) ==> Some(e) == failure_in(&document)
                &&& r matches Ok(page) ==> is_page_in(page, &document, false)
            },
            fetched is Ok ==> (r matches Ok(page) ==> page.sections() is Empty),
    {
        match fetched {
            Ok(document) => Self::from_document(&document, false),
            Err(failure) => Err(Error::Fetch(failure)),
        }
    }
}

} // verus!
