//! Reading a series off its page: what the selectors find, and the record
//! that is made of it.

use vstd::prelude::*;
use vstd::string::StringExecFns;
use crate::dom::{
    document_matches, element_matches, parse_document, places, places_in, select_in_document,
    select_in_element, selector_compiles, Document, Element, Place, Query,
};
use crate::error::{ErrorKind, SourceError};
use crate::parser::{
    attribute_at, compile, construct_url_from_id, extract_id_from_url, first_capture,
    first_element, first_node, invalid_selector, node_attribute, node_text, text_at,
    Failure, SERIES_PATTERN, SERIES_URL_PREFIX, UNTITLED,
};
use crate::structs::{chapter_views, ChapterEntry, ChapterEntryView, Manga, MangaView};
use crate::text::{
    contains, has_substring, lowercase, split_trimmed, text_of_option, text_or, texts,
    to_lowercase, trimmed_pieces,
};

verus! {

/// The detail of the failure when a series page has no chapter list.
pub const NO_CHAPTER_LIST: &'static str = "Could not find chapter list";

/// The detail of the failure when an identifier names no series.
pub const NO_SERIES_ID: &'static str = "Failed to extract series ID from URL";

/// What stands in for a release date that the page does not give.
pub const UNKNOWN: &'static str = "Unknown";

/// The selectors by which a source finds the parts of a series page.
#[derive(Debug)]
pub struct DetailSelectors {
    pub title: String,
    pub image: String,
    pub description: String,
    /// One labelled row of attributes.
    pub item: String,
    /// The label of a row, below the row.
    pub item_label: String,
    /// The content of a row, below the row.
    pub item_content: String,
    /// The container that encloses every chapter.
    pub chapter_list: String,
    /// One chapter, below the chapter list.
    pub chapter_item: String,
    pub chapter_title: String,
    pub chapter_url: String,
    pub chapter_date: String,
}

pub ghost struct DetailSelectorsView {
    pub title: Seq<char>,
    pub image: Seq<char>,
    pub description: Seq<char>,
    pub item: Seq<char>,
    pub item_label: Seq<char>,
    pub item_content: Seq<char>,
    pub chapter_list: Seq<char>,
    pub chapter_item: Seq<char>,
    pub chapter_title: Seq<char>,
    pub chapter_url: Seq<char>,
    pub chapter_date: Seq<char>,
}

impl View for DetailSelectors {
    type V = DetailSelectorsView;

    open spec fn view(&self) -> DetailSelectorsView {
        DetailSelectorsView {
            title: self.title@,
            image: self.image@,
            description: self.description@,
            item: self.item@,
            item_label: self.item_label@,
            item_content: self.item_content@,
            chapter_list: self.chapter_list@,
            chapter_item: self.chapter_item@,
            chapter_title: self.chapter_title@,
            chapter_url: self.chapter_url@,
            chapter_date: self.chapter_date@,
        }
    }
}

impl DetailSelectorsView {
    /// The selectors in the order in which they are compiled.
    pub open spec fn all(self) -> Seq<Seq<char>> {
        seq![
            self.title,
            self.image,
            self.description,
            self.item,
            self.item_label,
            self.item_content,
            self.chapter_list,
            self.chapter_item,
            self.chapter_title,
            self.chapter_url,
            self.chapter_date,
        ]
    }

    /// The first of the selectors that does not compile, if there is one.
    pub open spec fn first_invalid(self) -> Option<Seq<char>> {
        first_invalid_of(self.all())
    }
}

/// The first of the texts that does not compile as a selector.
pub open spec fn first_invalid_of(selectors: Seq<Seq<char>>) -> Option<Seq<char>>
    decreases selectors.len(),
{
    if selectors.len() == 0 {
        None
    } else if !selector_compiles(selectors[0]) {
        Some(selectors[0])
    } else {
        first_invalid_of(selectors.drop_first())
    }
}

/// The compiled selectors of a series page.
struct DetailQueries {
    title: Query,
    image: Query,
    description: Query,
    item: Query,
    item_label: Query,
    item_content: Query,
    chapter_list: Query,
    chapter_item: Query,
    chapter_title: Query,
    chapter_url: Query,
    chapter_date: Query,
}

impl View for DetailQueries {
    type V = DetailSelectorsView;

    closed spec fn view(&self) -> DetailSelectorsView {
        DetailSelectorsView {
            title: self.title@,
            image: self.image@,
            description: self.description@,
            item: self.item@,
            item_label: self.item_label@,
            item_content: self.item_content@,
            chapter_list: self.chapter_list@,
            chapter_item: self.chapter_item@,
            chapter_title: self.chapter_title@,
            chapter_url: self.chapter_url@,
            chapter_date: self.chapter_date@,
        }
    }
}

/// Compiles the next selector, given that those before it compiled.
fn compile_next(css: &str, Ghost(all): Ghost<Seq<Seq<char>>>, Ghost(at): Ghost<int>) -> (compiled:
    Result<Query, SourceError>)
    requires
        0 <= at < all.len(),
        all[at] == css@,
        first_invalid_of(all) == first_invalid_of(all.skip(at)),
    ensures
        compiled matches Ok(query) ==> query@ == css@ && first_invalid_of(all) == first_invalid_of(
            all.skip(at + 1),
        ),
        compiled matches Err(e) ==> first_invalid_of(all) is Some && e@ == invalid_selector(
            first_invalid_of(all)->0,
        ),
{
    proof {
        assert(all.skip(at)[0] == all[at]);
        assert(all.skip(at).drop_first() =~= all.skip(at + 1));
    }
    compile(css)
}

fn compile_detail(selectors: &DetailSelectors) -> (compiled: Result<DetailQueries, SourceError>)
    ensures
        compiled is Ok <==> selectors@.first_invalid() is None,
        compiled matches Ok(queries) ==> queries@ == selectors@,
        compiled matches Err(e) ==> e@ == invalid_selector(selectors@.first_invalid()->0),
{
    let ghost all = selectors@.all();
    assert(all.skip(0) =~= all);
    let title = match compile_next(selectors.title.as_str(), Ghost(all), Ghost(0)) {
        Ok(query) => query,
        Err(e) => { return Err(e); },
    };
    let image = match compile_next(selectors.image.as_str(), Ghost(all), Ghost(1)) {
        Ok(query) => query,
        Err(e) => { return Err(e); },
    };
    let description = match compile_next(selectors.description.as_str(), Ghost(all), Ghost(2)) {
        Ok(query) => query,
        Err(e) => { return Err(e); },
    };
    let item = match compile_next(selectors.item.as_str(), Ghost(all), Ghost(3)) {
        Ok(query) => query,
        Err(e) => { return Err(e); },
    };
    let item_label = match compile_next(selectors.item_label.as_str(), Ghost(all), Ghost(4)) {
        Ok(query) => query,
        Err(e) => { return Err(e); },
    };
    let item_content = match compile_next(selectors.item_content.as_str(), Ghost(all), Ghost(5)) {
        Ok(query) => query,
        Err(e) => { return Err(e); },
    };
    let chapter_list = match compile_next(selectors.chapter_list.as_str(), Ghost(all), Ghost(6)) {
        Ok(query) => query,
        Err(e) => { return Err(e); },
    };
    let chapter_item = match compile_next(selectors.chapter_item.as_str(), Ghost(all), Ghost(7)) {
        Ok(query) => query,
        Err(e) => { return Err(e); },
    };
    let chapter_title = match compile_next(selectors.chapter_title.as_str(), Ghost(all), Ghost(8)) {
        Ok(query) => query,
        Err(e) => { return Err(e); },
    };
    let chapter_url = match compile_next(selectors.chapter_url.as_str(), Ghost(all), Ghost(9)) {
        Ok(query) => query,
        Err(e) => { return Err(e); },
    };
    let chapter_date = match compile_next(selectors.chapter_date.as_str(), Ghost(all), Ghost(10)) {
        Ok(query) => query,
        Err(e) => { return Err(e); },
    };
    assert(all.skip(11) =~= Seq::<Seq<char>>::empty());
    Ok(
        DetailQueries {
            title,
            image,
            description,
            item,
            item_label,
            item_content,
            chapter_list,
            chapter_item,
            chapter_title,
            chapter_url,
            chapter_date,
        },
    )
}

/// One labelled row of a series page, read off the page as it stands.
#[derive(Debug)]
pub struct DetailAttribute {
    /// The label in lowercase, without the whitespace at its ends.
    pub label: Option<String>,
    /// The content, without the whitespace at its ends.
    pub content: Option<String>,
}

pub ghost struct DetailAttributeView {
    pub label: Option<Seq<char>>,
    pub content: Option<Seq<char>>,
}

impl View for DetailAttribute {
    type V = DetailAttributeView;

    open spec fn view(&self) -> DetailAttributeView {
        DetailAttributeView {
            label: text_of_option(self.label),
            content: text_of_option(self.content),
        }
    }
}

/// One chapter of a series page, read off the page as it stands.
#[derive(Debug)]
pub struct ChapterItem {
    pub title: Option<String>,
    pub url: Option<String>,
    pub released_since: Option<String>,
}

pub ghost struct ChapterItemView {
    pub title: Option<Seq<char>>,
    pub url: Option<Seq<char>>,
    pub released_since: Option<Seq<char>>,
}

impl View for ChapterItem {
    type V = ChapterItemView;

    open spec fn view(&self) -> ChapterItemView {
        ChapterItemView {
            title: text_of_option(self.title),
            url: text_of_option(self.url),
            released_since: text_of_option(self.released_since),
        }
    }
}

/// What a series page shows, read off the page as it stands.
#[derive(Debug)]
pub struct DetailPage {
    pub title: Option<String>,
    pub cover_url: Option<String>,
    pub description: Option<String>,
    /// The labelled rows, in the order of the page.
    pub attributes: Vec<DetailAttribute>,
    /// The chapters, in the order of the page; `None` where the page has no
    /// chapter list.
    pub chapters: Option<Vec<ChapterItem>>,
}

pub ghost struct DetailPageView {
    pub title: Option<Seq<char>>,
    pub cover_url: Option<Seq<char>>,
    pub description: Option<Seq<char>>,
    pub attributes: Seq<DetailAttributeView>,
    pub chapters: Option<Seq<ChapterItemView>>,
}

/// The views of a sequence of rows.
pub open spec fn attribute_views(rows: Seq<DetailAttribute>) -> Seq<DetailAttributeView> {
    rows.map_values(|row: DetailAttribute| row@)
}

/// The views of a sequence of chapters as read.
pub open spec fn chapter_item_views(chapters: Seq<ChapterItem>) -> Seq<ChapterItemView> {
    chapters.map_values(|chapter: ChapterItem| chapter@)
}

impl View for DetailPage {
    type V = DetailPageView;

    open spec fn view(&self) -> DetailPageView {
        DetailPageView {
            title: text_of_option(self.title),
            cover_url: text_of_option(self.cover_url),
            description: text_of_option(self.description),
            attributes: attribute_views(self.attributes@),
            chapters: match self.chapters {
                Some(chapters) => Some(chapter_item_views(chapters@)),
                None => None,
            },
        }
    }
}

/// The lowercase form of an optional text.
pub open spec fn lowered(text: Option<Seq<char>>) -> Option<Seq<char>> {
    match text {
        Some(t) => Some(lowercase(t)),
        None => None,
    }
}

/// What the page shows of the row at `node`.
pub open spec fn attribute_at_node(
    markup: Seq<char>,
    node: int,
    selectors: DetailSelectorsView,
) -> DetailAttributeView {
    DetailAttributeView {
        label: lowered(
            node_text(markup, first_node(element_matches(markup, node, selectors.item_label))),
        ),
        content: node_text(
            markup,
            first_node(element_matches(markup, node, selectors.item_content)),
        ),
    }
}

/// What the page shows of the chapter at `node`.
pub open spec fn chapter_at_node(
    markup: Seq<char>,
    node: int,
    selectors: DetailSelectorsView,
) -> ChapterItemView {
    ChapterItemView {
        title: node_text(
            markup,
            first_node(element_matches(markup, node, selectors.chapter_title)),
        ),
        url: node_attribute(
            markup,
            first_node(element_matches(markup, node, selectors.chapter_url)),
            "href"@,
        ),
        released_since: node_text(
            markup,
            first_node(element_matches(markup, node, selectors.chapter_date)),
        ),
    }
}

/// What a series page shows: title, cover and description from the first
/// match of each selector in the document, every labelled row, and the
/// chapters below the first chapter list.
pub open spec fn detail_page(markup: Seq<char>, selectors: DetailSelectorsView) -> DetailPageView {
    DetailPageView {
        title: node_text(markup, first_node(document_matches(markup, selectors.title))),
        cover_url: node_attribute(
            markup,
            first_node(document_matches(markup, selectors.image)),
            "src"@,
        ),
        description: node_text(
            markup,
            first_node(document_matches(markup, selectors.description)),
        ),
        attributes: document_matches(markup, selectors.item).map_values(
            |node: int| attribute_at_node(markup, node, selectors),
        ),
        chapters: match first_node(document_matches(markup, selectors.chapter_list)) {
            Some(list) => Some(
                element_matches(markup, list, selectors.chapter_item).map_values(
                    |node: int| chapter_at_node(markup, node, selectors),
                ),
            ),
            None => None,
        },
    }
}

/// The trimmed text of the first match of a selector in the document.
fn first_text_in(document: &Document, query: &Query) -> (text: Option<String>)
    ensures
        text_of_option(text) == node_text(
            document@,
            first_node(document_matches(document@, query@)),
        ),
{
    let found = select_in_document(document, query);
    let first = first_element(
        &found,
        Ghost(document@),
        Ghost(document_matches(document@, query@)),
    );
    text_at(first)
}

/// An attribute of the first match of a selector in the document.
fn first_attribute_in(document: &Document, query: &Query, name: &str) -> (value: Option<String>)
    ensures
        text_of_option(value) == node_attribute(
            document@,
            first_node(document_matches(document@, query@)),
            name@,
        ),
{
    let found = select_in_document(document, query);
    let first = first_element(
        &found,
        Ghost(document@),
        Ghost(document_matches(document@, query@)),
    );
    attribute_at(first, name)
}

/// The trimmed text of the first match of a selector below an element.
fn first_text_under(scope: &Element, query: &Query) -> (text: Option<String>)
    ensures
        text_of_option(text) == node_text(
            scope@.markup,
            first_node(element_matches(scope@.markup, scope@.node, query@)),
        ),
{
    let found = select_in_element(scope, query);
    let first = first_element(
        &found,
        Ghost(scope@.markup),
        Ghost(element_matches(scope@.markup, scope@.node, query@)),
    );
    text_at(first)
}

/// An attribute of the first match of a selector below an element.
fn first_attribute_under(scope: &Element, query: &Query, name: &str) -> (value: Option<String>)
    ensures
        text_of_option(value) == node_attribute(
            scope@.markup,
            first_node(element_matches(scope@.markup, scope@.node, query@)),
            name@,
        ),
{
    let found = select_in_element(scope, query);
    let first = first_element(
        &found,
        Ghost(scope@.markup),
        Ghost(element_matches(scope@.markup, scope@.node, query@)),
    );
    attribute_at(first, name)
}

fn read_attribute(row: &Element, queries: &DetailQueries) -> (read: DetailAttribute)
    ensures
        read@ == attribute_at_node(row@.markup, row@.node, queries@),
{
    let label = match first_text_under(row, &queries.item_label) {
        Some(text) => Some(to_lowercase(text.as_str())),
        None => None,
    };
    let content = first_text_under(row, &queries.item_content);
    DetailAttribute { label, content }
}

fn read_chapter(chapter: &Element, queries: &DetailQueries) -> (read: ChapterItem)
    ensures
        read@ == chapter_at_node(chapter@.markup, chapter@.node, queries@),
{
    let title = first_text_under(chapter, &queries.chapter_title);
    let url = first_attribute_under(chapter, &queries.chapter_url, "href");
    let released_since = first_text_under(chapter, &queries.chapter_date);
    ChapterItem { title, url, released_since }
}

fn read_attributes(document: &Document, queries: &DetailQueries) -> (rows: Vec<DetailAttribute>)
    ensures
        attribute_views(rows@) == document_matches(document@, queries@.item).map_values(
            |node: int| attribute_at_node(document@, node, queries@),
        ),
{
    let ghost markup = document@;
    let ghost nodes = document_matches(markup, queries@.item);
    let elements = select_in_document(document, &queries.item);
    let n = elements.len();
    let mut rows: Vec<DetailAttribute> = Vec::new();
    let mut i: usize = 0;
    assert(places(elements@).len() == elements@.len());
    assert(places_in(markup, nodes).len() == nodes.len());
    while i < n
        invariant
            n == elements@.len(),
            n == nodes.len(),
            i <= n,
            places(elements@) == places_in(markup, nodes),
            rows@.len() == i,
            forall|k: int|
                0 <= k < i ==> (#[trigger] rows@[k])@ == attribute_at_node(
                    markup,
                    nodes[k],
                    queries@,
                ),
        decreases n - i,
    {
        assert(places(elements@)[i as int] == elements@[i as int]@);
        assert(places_in(markup, nodes)[i as int] == Place { markup, node: nodes[i as int] });
        let row = read_attribute(&elements[i], queries);
        rows.push(row);
        i += 1;
    }
    assert(attribute_views(rows@) =~= nodes.map_values(
        |node: int| attribute_at_node(markup, node, queries@),
    ));
    rows
}

fn read_chapters(list: &Element, queries: &DetailQueries) -> (chapters: Vec<ChapterItem>)
    ensures
        chapter_item_views(chapters@) == element_matches(
            list@.markup,
            list@.node,
            queries@.chapter_item,
        ).map_values(|node: int| chapter_at_node(list@.markup, node, queries@)),
{
    let ghost markup = list@.markup;
    let ghost nodes = element_matches(markup, list@.node, queries@.chapter_item);
    let elements = select_in_element(list, &queries.chapter_item);
    let n = elements.len();
    let mut chapters: Vec<ChapterItem> = Vec::new();
    let mut i: usize = 0;
    assert(places(elements@).len() == elements@.len());
    assert(places_in(markup, nodes).len() == nodes.len());
    while i < n
        invariant
            n == elements@.len(),
            n == nodes.len(),
            i <= n,
            places(elements@) == places_in(markup, nodes),
            chapters@.len() == i,
            forall|k: int|
                0 <= k < i ==> (#[trigger] chapters@[k])@ == chapter_at_node(
                    markup,
                    nodes[k],
                    queries@,
                ),
        decreases n - i,
    {
        assert(places(elements@)[i as int] == elements@[i as int]@);
        assert(places_in(markup, nodes)[i as int] == Place { markup, node: nodes[i as int] });
        let chapter = read_chapter(&elements[i], queries);
        chapters.push(chapter);
        i += 1;
    }
    assert(chapter_item_views(chapters@) =~= nodes.map_values(
        |node: int| chapter_at_node(markup, node, queries@),
    ));
    chapters
}

/// What reading a series page comes to: what the page shows, or the failure
/// to compile a selector.
pub open spec fn detail_page_of(markup: Seq<char>, selectors: DetailSelectorsView) -> Result<
    DetailPageView,
    Failure,
> {
    match selectors.first_invalid() {
        Some(css) => Err(invalid_selector(css)),
        None => Ok(detail_page(markup, selectors)),
    }
}

/// The view of what reading a series page gave.
pub open spec fn page_outcome(read: Result<DetailPage, SourceError>) -> Result<
    DetailPageView,
    Failure,
> {
    match read {
        Ok(page) => Ok(page@),
        Err(e) => Err(e@),
    }
}

/// Reads off a series page what it shows.
pub fn read_detail_page(html_content: &str, selectors: &DetailSelectors) -> (read: Result<
    DetailPage,
    SourceError,
>)
    ensures
        page_outcome(read) == detail_page_of(html_content@, selectors@),
{
    let document = parse_document(html_content);
    let queries = match compile_detail(selectors) {
        Ok(queries) => queries,
        Err(e) => { return Err(e); },
    };
    let title = first_text_in(&document, &queries.title);
    let cover_url = first_attribute_in(&document, &queries.image, "src");
    let description = first_text_in(&document, &queries.description);
    let attributes = read_attributes(&document, &queries);
    let lists = select_in_document(&document, &queries.chapter_list);
    let chapters = match first_element(
        &lists,
        Ghost(document@),
        Ghost(document_matches(document@, queries@.chapter_list)),
    ) {
        Some(list) => Some(read_chapters(list, &queries)),
        None => None,
    };
    Ok(DetailPage { title, cover_url, description, attributes, chapters })
}

/// What a labelled row tells of.
#[derive(Debug, Clone, Copy, PartialEq, Eq, Structural)]
pub enum AttributeKind {
    Author,
    Artist,
    Genre,
}

/// What a row tells of, going by its label: the first of "author",
/// "artist" and "genre" that the label holds. A row without a label or
/// without content tells nothing.
pub open spec fn row_kind(row: DetailAttributeView) -> Option<AttributeKind> {
    if row.label is Some && row.content is Some {
        if has_substring(row.label->0, "author"@) {
            Some(AttributeKind::Author)
        } else if has_substring(row.label->0, "artist"@) {
            Some(AttributeKind::Artist)
        } else if has_substring(row.label->0, "genre"@) {
            Some(AttributeKind::Genre)
        } else {
            None
        }
    } else {
        None
    }
}

/// The content of the last row of the given kind.
pub open spec fn last_content(rows: Seq<DetailAttributeView>, kind: AttributeKind) -> Option<
    Seq<char>,
>
    decreases rows.len(),
{
    if rows.len() == 0 {
        None
    } else if row_kind(rows.last()) == Some(kind) {
        rows.last().content
    } else {
        last_content(rows.drop_last(), kind)
    }
}

/// The names that a row's content lists.
pub open spec fn names_in(content: Option<Seq<char>>, separator: char) -> Seq<Seq<char>> {
    match content {
        Some(c) => trimmed_pieces(c, separator),
        None => Seq::empty(),
    }
}

/// The chapter that a chapter of the page becomes.
pub open spec fn chapter_of(item: ChapterItemView) -> ChapterEntryView {
    ChapterEntryView {
        title: text_or(item.title, UNTITLED@),
        url: text_or(item.url, Seq::empty()),
        released_since: text_or(item.released_since, UNKNOWN@),
    }
}

/// The record of the series that a page shows. A page without a chapter
/// list gives none.
pub open spec fn details_of(page: DetailPageView, identifier: Seq<char>) -> Result<
    MangaView,
    Failure,
> {
    match page.chapters {
        Some(chapters) => Ok(
            MangaView {
                identifier,
                title: text_or(page.title, UNTITLED@),
                artists: names_in(last_content(page.attributes, AttributeKind::Artist), '/'),
                authors: names_in(last_content(page.attributes, AttributeKind::Author), '/'),
                genres: names_in(last_content(page.attributes, AttributeKind::Genre), ','),
                description: text_or(page.description, UNTITLED@),
                cover_url: text_or(page.cover_url, Seq::empty()),
                chapters: chapters.map_values(|item: ChapterItemView| chapter_of(item)),
            },
        ),
        None => Err((ErrorKind::Parsing, NO_CHAPTER_LIST@)),
    }
}

/// The view of what an extraction of details gave.
pub open spec fn details_outcome(extracted: Result<Manga, SourceError>) -> Result<
    MangaView,
    Failure,
> {
    match extracted {
        Ok(manga) => Ok(manga@),
        Err(e) => Err(e@),
    }
}

/// What a row tells of, going by its label.
pub fn classify(row: &DetailAttribute) -> (kind: Option<AttributeKind>)
    ensures
        kind == row_kind(row@),
{
    match (&row.label, &row.content) {
        (Some(label), Some(_)) => {
            if contains(label.as_str(), "author") {
                Some(AttributeKind::Author)
            } else if contains(label.as_str(), "artist") {
                Some(AttributeKind::Artist)
            } else if contains(label.as_str(), "genre") {
                Some(AttributeKind::Genre)
            } else {
                None
            }
        },
        _ => None,
    }
}

/// A text, or what stands in for it where there is none.
fn owned_or(text: &Option<String>, fallback: &str) -> (owned: String)
    ensures
        owned@ == text_or(text_of_option(*text), fallback@),
{
    match text {
        Some(t) => t.clone(),
        None => String::from_str(fallback),
    }
}

/// The record of the series that a page shows, under the given identifier.
/// Authors and artists are listed with `/` between them, genres with `,`;
/// where a label comes twice, the last row counts. A page without a chapter
/// list is a failure.
pub fn details_from_page(page: &DetailPage, identifier: String) -> (extracted: Result<
    Manga,
    SourceError,
>)
    ensures
        details_outcome(extracted) == details_of(page@, identifier@),
{
    let ghost rows = page@.attributes;
    let mut genres: Vec<String> = Vec::new();
    let mut authors: Vec<String> = Vec::new();
    let mut artists: Vec<String> = Vec::new();
    let n = page.attributes.len();
    let mut i: usize = 0;
    assert(rows.take(0) =~= Seq::<DetailAttributeView>::empty());
    assert(texts(authors@) =~= Seq::<Seq<char>>::empty());
    assert(texts(artists@) =~= Seq::<Seq<char>>::empty());
    assert(texts(genres@) =~= Seq::<Seq<char>>::empty());
    while i < n
        invariant
            n == page.attributes@.len(),
            rows == attribute_views(page.attributes@),
            i <= n,
            texts(authors@) == names_in(
                last_content(rows.take(i as int), AttributeKind::Author),
                '/',
            ),
            texts(artists@) == names_in(
                last_content(rows.take(i as int), AttributeKind::Artist),
                '/',
            ),
            texts(genres@) == names_in(
                last_content(rows.take(i as int), AttributeKind::Genre),
                ',',
            ),
        decreases n - i,
    {
        let row = &page.attributes[i];
        proof {
            assert(rows.take(i + 1).drop_last() =~= rows.take(i as int));
            assert(rows.take(i + 1).last() == row@);
        }
        match (classify(row), &row.content) {
            (Some(AttributeKind::Author), Some(data)) => {
                authors = split_trimmed(data.as_str(), '/');
            },
            (Some(AttributeKind::Artist), Some(data)) => {
                artists = split_trimmed(data.as_str(), '/');
            },
            (Some(AttributeKind::Genre), Some(data)) => {
                genres = split_trimmed(data.as_str(), ',');
            },
            _ => {},
        }
        i += 1;
    }
    assert(rows.take(n as int) =~= rows);
    let items = match &page.chapters {
        Some(items) => items,
        None => { return Err(SourceError::parsing(NO_CHAPTER_LIST)); },
    };
    let m = items.len();
    let mut chapters: Vec<ChapterEntry> = Vec::new();
    let mut k: usize = 0;
    while k < m
        invariant
            m == items@.len(),
            k <= m,
            chapters@.len() == k,
            forall|j: int| 0 <= j < k ==> (#[trigger] chapters@[j])@ == chapter_of(items@[j]@),
        decreases m - k,
    {
        let item = &items[k];
        proof {
            reveal_strlit("");
            assert(""@ =~= Seq::<char>::empty());
        }
        chapters.push(
            ChapterEntry {
                title: owned_or(&item.title, UNTITLED),
                url: owned_or(&item.url, ""),
                released_since: owned_or(&item.released_since, UNKNOWN),
            },
        );
        k += 1;
    }
    proof {
        reveal_strlit("");
        assert(""@ =~= Seq::<char>::empty());
        assert(chapter_views(chapters@) =~= chapter_item_views(items@).map_values(
            |item: ChapterItemView| chapter_of(item),
        ));
    }
    Ok(
        Manga {
            identifier,
            title: owned_or(&page.title, UNTITLED),
            artists,
            authors,
            genres,
            description: owned_or(&page.description, UNTITLED),
            cover_url: owned_or(&page.cover_url, ""),
            chapters,
        },
    )
}

/// The record of the series with the given identifier that a page shows: a
/// failure where the identifier names no series, where a selector does not
/// compile, or where the page has no chapter list.
pub open spec fn details_on(
    markup: Seq<char>,
    selectors: DetailSelectorsView,
    identifier: Seq<char>,
) -> Result<MangaView, Failure> {
    match first_capture(SERIES_PATTERN@, SERIES_URL_PREFIX@ + identifier) {
        Some(number) => match detail_page_of(markup, selectors) {
            Ok(page) => details_of(page, number),
            Err(failure) => Err(failure),
        },
        None => Err((ErrorKind::Parsing, NO_SERIES_ID@)),
    }
}

/// The record of the series with the given identifier, read off its page.
/// The record's identifier is the number that the series' address names.
pub fn extract_details(
    html_content: &str,
    selectors: &DetailSelectors,
    identifier: &str,
) -> (extracted: Result<Manga, SourceError>)
    ensures
        details_outcome(extracted) == details_on(html_content@, selectors@, identifier@),
{
    let url = construct_url_from_id(identifier);
    let number = match extract_id_from_url(url.as_str()) {
        Some(number) => number,
        None => { return Err(SourceError::parsing(NO_SERIES_ID)); },
    };
    match read_detail_page(html_content, selectors) {
        Ok(page) => details_from_page(&page, number),
        Err(e) => Err(e),
    }
}

/// The selectors of a series page of this source.
pub open spec fn series_selectors_view() -> DetailSelectorsView {
    DetailSelectorsView {
        title: "h3.item-title"@,
        image: "div.attr-cover > img"@,
        description: "div.limit-html"@,
        item: "div.attr-item"@,
        item_label: "div.attr-item > b"@,
        item_content: "div.attr-item > span"@,
        chapter_list: "div.main"@,
        chapter_item: "div.item"@,
        chapter_title: "a.chapt > b"@,
        chapter_url: "a.chapt"@,
        chapter_date: "i.ps-3"@,
    }
}

/// The selectors of a series page of this source.
pub fn series_selectors() -> (selectors: DetailSelectors)
    ensures
        selectors@ == series_selectors_view(),
{
    DetailSelectors {
        title: String::from_str("h3.item-title"),
        image: String::from_str("div.attr-cover > img"),
        description: String::from_str("div.limit-html"),
        item: String::from_str("div.attr-item"),
        item_label: String::from_str("div.attr-item > b"),
        item_content: String::from_str("div.attr-item > span"),
        chapter_list: String::from_str("div.main"),
        chapter_item: String::from_str("div.item"),
        chapter_title: String::from_str("a.chapt > b"),
        chapter_url: String::from_str("a.chapt"),
        chapter_date: String::from_str("i.ps-3"),
    }
}

/// The record of the series with the given identifier, read off its page on
/// this source.
pub fn extract_series_details(html_content: &str, identifier: &str) -> (extracted: Result<
    Manga,
    SourceError,
>)
    ensures
        details_outcome(extracted) == details_on(
            html_content@,
            series_selectors_view(),
            identifier@,
        ),
{
    extract_details(html_content, &series_selectors(), identifier)
}

} // verus!
