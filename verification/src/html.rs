//! Access to parsed HTML documents.
//!
//! Documents, elements and selectors are values of the `scraper` crate. They
//! are opaque here. What a query returns has a name, which says that the
//! answer depends on what was asked and on nothing else; the code that uses
//! these functions is verified for every answer they may give.

use vstd::prelude::*;
use scraper::{ElementRef, Html, Selector};
use crate::text::{join, joined, texts, trim, trimmed};

verus! {

/// `scraper::Html`, a parsed HTML document.
#[verifier::external_type_specification]
#[verifier::external_body]
pub struct ExHtml(scraper::Html);

/// `scraper::ElementRef`, a reference to one element of a document.
#[verifier::external_type_specification]
#[verifier::external_body]
pub struct ExElementRef<'a>(scraper::ElementRef<'a>);

/// `scraper::Selector`, a parsed group of CSS selectors.
#[verifier::external_type_specification]
#[verifier::external_body]
pub struct ExSelector(scraper::Selector);

/// The document that `Html::parse_document` makes of a text.
pub uninterp spec fn document_of(text: Seq<char>) -> Html;

/// The selector that `Selector::parse` makes of a text, `None` where the
/// text is no group of CSS selectors.
pub uninterp spec fn selector_of(selector: Seq<char>) -> Option<Selector>;

/// The elements of a document that match a selector, in the order in
/// which `Html::select` yields them.
pub uninterp spec fn selected_in_document(document: &Html, selector: Selector) -> Seq<ElementRef>;

/// The descendants of an element that match a selector, in the order in
/// which `ElementRef::select` yields them.
pub uninterp spec fn selected_in(scope: ElementRef, selector: Selector) -> Seq<ElementRef>;

/// The text nodes below an element, in the order in which
/// `ElementRef::text` yields them.
pub uninterp spec fn text_nodes(element: ElementRef) -> Seq<Seq<char>>;

/// The children of an element that are elements, in the order in which
/// `ElementRef::child_elements` yields them.
pub uninterp spec fn children(element: ElementRef) -> Seq<ElementRef>;

/// The name of an element, as `Element::name` gives it.
pub uninterp spec fn element_name(element: ElementRef) -> Seq<char>;

/// The classes of an element, as `Element::classes` yields them.
pub uninterp spec fn classes(element: ElementRef) -> Seq<Seq<char>>;

/// The value of an attribute of an element, as `ElementRef::attr` gives
/// it, `None` where the element has no such attribute.
pub uninterp spec fn attribute(element: ElementRef, name: Seq<char>) -> Option<Seq<char>>;

/// The elements of `document` that match the selector written as
/// `selector`, none if it is no selector.
pub open spec fn found_in_document(document: &Html, selector: Seq<char>) -> Seq<ElementRef> {
    match selector_of(selector) {
        Some(parsed) => selected_in_document(document, parsed),
        None => Seq::empty(),
    }
}

/// The descendants of `scope` that match the selector written as
/// `selector`, none if it is no selector.
pub open spec fn found_in(scope: ElementRef, selector: Seq<char>) -> Seq<ElementRef> {
    match selector_of(selector) {
        Some(parsed) => selected_in(scope, parsed),
        None => Seq::empty(),
    }
}

/// The text of `element`: its text nodes one after the other.
pub open spec fn text_in(element: ElementRef) -> Seq<char> {
    joined(text_nodes(element), ""@)
}

/// The text of `element` with a space between each two of its text nodes
/// and without the whitespace around it.
pub open spec fn spaced_text_in(element: ElementRef) -> Seq<char> {
    trim(joined(text_nodes(element), " "@))
}

/// The texts of `elements`, in order.
pub open spec fn texts_in(elements: Seq<ElementRef>) -> Seq<Seq<char>> {
    Seq::new(elements.len(), |i: int| text_in(elements[i]))
}

/// The spaced texts of `elements`, in order.
pub open spec fn spaced_texts_in(elements: Seq<ElementRef>) -> Seq<Seq<char>> {
    Seq::new(elements.len(), |i: int| spaced_text_in(elements[i]))
}

/// The text of the first of `elements`, `None` if there is none.
pub open spec fn first_text_in(elements: Seq<ElementRef>) -> Option<Seq<char>> {
    if elements.len() > 0 {
        Some(text_in(elements[0]))
    } else {
        None
    }
}

/// The addresses of the links among `anchors` that have one, in order.
pub open spec fn hrefs(anchors: Seq<ElementRef>) -> Seq<Seq<char>> {
    anchors.filter(|anchor: ElementRef| attribute(anchor, "href"@) is Some).map_values(
        |anchor: ElementRef| attribute(anchor, "href"@)->Some_0,
    )
}

/// The value of the attribute `name` of `element`, empty if it has none.
pub open spec fn attribute_or_nothing(element: ElementRef, name: Seq<char>) -> Seq<char> {
    match attribute(element, name) {
        Some(value) => value,
        None => Seq::empty(),
    }
}

/// Calls `Html::parse_document`, which parses `text` as an HTML document and
/// never fails. Trusted: the document depends on the text alone.
#[verifier::external_body]
pub(crate) fn parse_document(text: &str) -> (r: Html)
    ensures
        r == document_of(text@),
{
    Html::parse_document(text)
}

/// Calls `Selector::parse`. Trusted: the selector depends on the text
/// alone; `None` stands for the crate's parse error.
#[verifier::external_body]
pub(crate) fn parse_selector(selector: &str) -> (r: Option<Selector>)
    ensures
        r == selector_of(selector@),
{
    Selector::parse(selector).ok()
}

/// Calls `Html::select` and collects the elements it yields, in its order.
/// Trusted: they depend on the document and the selector alone.
#[verifier::external_body]
pub(crate) fn select_in_document<'a>(document: &'a Html, selector: &Selector) -> (r: Vec<
    ElementRef<'a>,
>)
    ensures
        r@ == selected_in_document(document, *selector),
{
    document.select(selector).collect()
}

/// Calls `ElementRef::select` and collects the descendants it yields, in its
/// order. Trusted: they depend on the element and the selector alone.
#[verifier::external_body]
pub(crate) fn select_in<'a>(scope: &ElementRef<'a>, selector: &Selector) -> (r: Vec<
    ElementRef<'a>,
>)
    ensures
        r@ == selected_in(*scope, *selector),
{
    scope.select(selector).collect()
}

/// Calls `ElementRef::text` and collects the text nodes it yields, in its
/// order. Trusted: they depend on the element alone.
#[verifier::external_body]
pub(crate) fn text_nodes_of(element: &ElementRef) -> (r: Vec<String>)
    ensures
        texts(r@) == text_nodes(*element),
{
    element.text().map(String::from).collect()
}

/// Calls `ElementRef::child_elements` and collects the elements it yields,
/// in its order. Trusted: they depend on the element alone.
#[verifier::external_body]
pub(crate) fn children_of<'a>(element: &ElementRef<'a>) -> (r: Vec<ElementRef<'a>>)
    ensures
        r@ == children(*element),
{
    element.child_elements().collect()
}

/// Calls `Element::name` on the element that `ElementRef::value` gives.
/// Trusted: the name depends on the element alone.
#[verifier::external_body]
pub(crate) fn name_of(element: &ElementRef) -> (r: String)
    ensures
        r@ == element_name(*element),
{
    String::from(element.value().name())
}

/// Calls `Element::classes` on the element that `ElementRef::value` gives
/// and collects the classes it yields. Trusted: they depend on the element
/// alone.
#[verifier::external_body]
pub(crate) fn classes_of(element: &ElementRef) -> (r: Vec<String>)
    ensures
        texts(r@) == classes(*element),
{
    element.value().classes().map(String::from).collect()
}

/// The text of `element`: its text nodes one after the other.
pub(crate) fn text_of(element: &ElementRef) -> (r: String)
    ensures
        r@ == text_in(*element),
{
    join(&text_nodes_of(element), "")
}

/// The text of `element` with a space between each two of its text nodes
/// and without the whitespace around it.
pub(crate) fn spaced_text_of(element: &ElementRef) -> (r: String)
    ensures
        r@ == spaced_text_in(*element),
{
    trimmed(join(&text_nodes_of(element), " ").as_str())
}

/// Calls `ElementRef::attr`. Trusted: the value depends on the element and
/// the name alone.
#[verifier::external_body]
pub(crate) fn attribute_of(element: &ElementRef, name: &str) -> (r: Option<String>)
    ensures
        crate::text::text_of(r) == attribute(*element, name@),
{
    element.attr(name).map(String::from)
}

/// The elements of `document` that match `selector`, none if `selector` is
/// no selector.
pub(crate) fn find_in_document<'a>(document: &'a Html, selector: &str) -> (r: Vec<ElementRef<'a>>)
    ensures
        r@ == found_in_document(document, selector@),
{
    match parse_selector(selector) {
        Some(parsed) => select_in_document(document, &parsed),
        None => Vec::new(),
    }
}

/// The descendants of `scope` that match `selector`, none if `selector` is
/// no selector.
pub(crate) fn find_in<'a>(scope: &ElementRef<'a>, selector: &str) -> (r: Vec<ElementRef<'a>>)
    ensures
        r@ == found_in(*scope, selector@),
{
    match parse_selector(selector) {
        Some(parsed) => select_in(scope, &parsed),
        None => Vec::new(),
    }
}

/// The addresses of the links among `anchors` that have one, in order.
pub(crate) fn hrefs_of(anchors: &Vec<ElementRef>) -> (r: Vec<String>)
    ensures
        texts(r@) == hrefs(anchors@),
{
    let ghost has = |anchor: ElementRef| attribute(anchor, "href"@) is Some;
    let ghost href = |anchor: ElementRef| attribute(anchor, "href"@)->Some_0;
    let mut urls: Vec<String> = Vec::new();
    let mut i: usize = 0;
    proof {
        reveal(Seq::filter);
        assert(anchors@.take(0) =~= Seq::<ElementRef>::empty());
        assert(texts(urls@) =~= anchors@.take(0).filter(has).map_values(href));
    }
    while i < anchors.len()
        invariant
            i <= anchors.len(),
            has == |anchor: ElementRef| attribute(anchor, "href"@) is Some,
            href == |anchor: ElementRef| attribute(anchor, "href"@)->Some_0,
            texts(urls@) == anchors@.take(i as int).filter(has).map_values(href),
        decreases anchors.len() - i,
    {
        let ghost before = texts(urls@);
        let ghost earlier = anchors@.take(i as int);
        proof {
            assert(anchors@.take(i + 1) =~= earlier.push(anchors[i as int]));
            Seq::lemma_filter_push(earlier, anchors[i as int], has);
        }
        match attribute_of(&anchors[i], "href") {
            Some(address) => {
                urls.push(address);
                assert(texts(urls@) =~= before.push(address@));
                assert(earlier.filter(has).push(anchors[i as int]).map_values(href)
                    =~= earlier.filter(has).map_values(href).push(href(anchors[i as int])));
            },
            None => {},
        }
        i += 1;
    }
    assert(anchors@.take(i as int) =~= anchors@);
    urls
}

/// The texts of `elements`, in order.
pub(crate) fn texts_of(elements: &Vec<ElementRef>) -> (r: Vec<String>)
    ensures
        texts(r@) == texts_in(elements@),
{
    let mut out: Vec<String> = Vec::new();
    let mut i: usize = 0;
    while i < elements.len()
        invariant
            i <= elements.len(),
            out.len() == i,
            forall|j: int| 0 <= j < i ==> (#[trigger] out[j])@ == text_in(elements[j]),
        decreases elements.len() - i,
    {
        out.push(text_of(&elements[i]));
        i += 1;
    }
    assert(texts(out@) =~= texts_in(elements@));
    out
}

} // verus!
