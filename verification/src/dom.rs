//! The documents, selectors and elements of the `scraper` crate, as far as
//! the extraction reads them.
//!
//! Nothing in here is proved. What `scraper` finds in a document is given a
//! name as a function of the markup, of the selector's text and of the
//! node that the search starts from; the functions at the end of the file
//! call `scraper` and are taken to return what those names say. A
//! `Document`, a `Query` or an `Element` is only ever made by one of these
//! functions, which is what ties the value to its view.

use vstd::prelude::*;

verus! {

/// A document as `scraper` holds it, carried through unopened.
#[verifier::external_type_specification]
#[verifier::external_body]
pub struct ExHtml(scraper::Html);

/// A selector as `scraper` holds it, carried through unopened.
#[verifier::external_type_specification]
#[verifier::external_body]
pub struct ExSelector(scraper::Selector);

/// A reference to an element of a document, carried through unopened.
#[verifier::external_type_specification]
#[verifier::external_body]
pub struct ExElementRef<'a>(scraper::ElementRef<'a>);

/// Whether `Selector::parse` accepts a selector text.
pub uninterp spec fn selector_compiles(css: Seq<char>) -> bool;

/// The nodes that `Html::select` yields, in the order it yields them, for
/// the document parsed from `markup` and the selector compiled from `css`.
/// A node is given by its place in the parsed tree.
pub uninterp spec fn document_matches(markup: Seq<char>, css: Seq<char>) -> Seq<int>;

/// The nodes that `ElementRef::select` yields, in the order it yields them,
/// below the element at `node` of the document parsed from `markup`.
pub uninterp spec fn element_matches(markup: Seq<char>, node: int, css: Seq<char>) -> Seq<int>;

/// The text nodes below the element at `node`, joined in the order in which
/// `ElementRef::text` yields them.
pub uninterp spec fn element_text(markup: Seq<char>, node: int) -> Seq<char>;

/// What `Element::attr` finds under `name` on the element at `node`.
pub uninterp spec fn element_attribute(markup: Seq<char>, node: int, name: Seq<char>) -> Option<
    Seq<char>,
>;

/// A parsed document. Its view is the markup it was parsed from.
pub struct Document {
    tree: scraper::Html,
    markup: Ghost<Seq<char>>,
}

impl View for Document {
    type V = Seq<char>;

    closed spec fn view(&self) -> Seq<char> {
        self.markup@
    }
}

/// A compiled selector. Its view is the text it was compiled from.
pub struct Query {
    selector: scraper::Selector,
    css: Ghost<Seq<char>>,
}

impl View for Query {
    type V = Seq<char>;

    closed spec fn view(&self) -> Seq<char> {
        self.css@
    }
}

/// Where an element stands: the markup of its document, and its node.
pub ghost struct Place {
    pub markup: Seq<char>,
    pub node: int,
}

/// An element of a parsed document. Its view is its place.
pub struct Element<'a> {
    handle: scraper::ElementRef<'a>,
    place: Ghost<Place>,
}

impl<'a> View for Element<'a> {
    type V = Place;

    closed spec fn view(&self) -> Place {
        self.place@
    }
}

/// The places of a sequence of elements.
pub open spec fn places(elements: Seq<Element>) -> Seq<Place> {
    elements.map_values(|e: Element| e@)
}

/// The places of the given nodes in the document parsed from `markup`.
pub open spec fn places_in(markup: Seq<char>, nodes: Seq<int>) -> Seq<Place> {
    nodes.map_values(|n: int| Place { markup, node: n })
}

/// Calls `Html::parse_document`, which never fails: what it cannot make
/// sense of it repairs as a browser would.
#[verifier::external_body]
pub(crate) fn parse_document(markup: &str) -> (document: Document)
    ensures
        document@ == markup@,
{
    Document { tree: scraper::Html::parse_document(markup), markup: Ghost(markup@) }
}

/// Calls `Selector::parse`. A text that it refuses gives `None`.
#[verifier::external_body]
pub(crate) fn compile_selector(css: &str) -> (query: Option<Query>)
    ensures
        query is Some <==> selector_compiles(css@),
        query matches Some(q) ==> q@ == css@,
{
    match scraper::Selector::parse(css) {
        Ok(selector) => Some(Query { selector, css: Ghost(css@) }),
        Err(_) => None,
    }
}

/// Calls `Html::select` and collects every element that it yields. The
/// place that goes with each element is the node that the selection names.
#[verifier::external_body]
pub(crate) fn select_in_document<'a>(document: &'a Document, query: &Query) -> (found: Vec<
    Element<'a>,
>)
    ensures
        places(found@) == places_in(document@, document_matches(document@, query@)),
{
    document.tree.select(&query.selector).map(
        |handle| Element { handle, place: Ghost(arbitrary()) },
    ).collect()
}

/// Calls `ElementRef::select` and collects every element that it yields:
/// the descendants of `scope` that match, in document order. The place
/// that goes with each element is the node that the selection names.
#[verifier::external_body]
pub(crate) fn select_in_element<'a>(scope: &Element<'a>, query: &Query) -> (found: Vec<
    Element<'a>,
>)
    ensures
        places(found@) == places_in(
            scope@.markup,
            element_matches(scope@.markup, scope@.node, query@),
        ),
{
    scope.handle.select(&query.selector).map(
        |handle| Element { handle, place: Ghost(arbitrary()) },
    ).collect()
}

/// Calls `ElementRef::text` and joins the pieces that it yields.
#[verifier::external_body]
pub(crate) fn text_of(element: &Element) -> (text: String)
    ensures
        text@ == element_text(element@.markup, element@.node),
{
    element.handle.text().collect::<String>()
}

/// Calls `Element::attr` on the element's value.
#[verifier::external_body]
pub(crate) fn attribute_of(element: &Element, name: &str) -> (value: Option<String>)
    ensures
        value is Some <==> element_attribute(element@.markup, element@.node, name@) is Some,
        value matches Some(v) ==> v@ == element_attribute(
            element@.markup,
            element@.node,
            name@,
        )->0,
{
    element.handle.value().attr(name).map(|v| v.to_string())
}

} // verus!
