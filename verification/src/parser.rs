//! Reading a listing off a page: the items that the selectors find, the
//! titles that are listed, and the entries of the titles that are missing.

use vstd::prelude::*;
use vstd::string::StringExecFns;
use crate::dom::{
    attribute_of, compile_selector, document_matches, element_attribute, element_matches,
    element_text, parse_document, places, places_in, select_in_document, select_in_element,
    selector_compiles, text_of, Element, Place, Query,
};
use crate::error::{ErrorKind, SourceError};
use crate::structs::{MangaEntry, MangaEntryView};
use crate::text::{
    lemma_trimmed_is_trimmed, same_text, text_of_option, texts, trim, trimmed,
};

verus! {

/// The pattern that finds the number of a series in a link.
pub const SERIES_PATTERN: &'static str = "/series/(\\d+)";

/// The address under which the site serves a series.
pub const SERIES_URL_PREFIX: &'static str = "https://battwo.com/series/";

/// What the first capture group of `pattern` holds in the leftmost match
/// that the `regex` crate finds in `text`; `None` where nothing matches,
/// where the group took no part in the match, or where `pattern` is no
/// valid expression.
pub uninterp spec fn first_capture(pattern: Seq<char>, text: Seq<char>) -> Option<Seq<char>>;

/// Calls `Regex::new`, then `Regex::captures` and `Captures::get(1)`.
/// A pattern that does not compile gives `None`, as does a text without a
/// match.
#[verifier::external_body]
fn capture_first_group(pattern: &str, text: &str) -> (found: Option<String>)
    ensures
        text_of_option(found) == first_capture(pattern@, text@),
{
    let expression = regex::Regex::new(pattern).ok()?;
    expression.captures(text)?.get(1).map(|m| m.as_str().to_string())
}

/// The address of the series with the given identifier.
pub fn construct_url_from_id(identifier: &str) -> (url: String)
    ensures
        url@ == SERIES_URL_PREFIX@ + identifier@,
{
    String::from_str(SERIES_URL_PREFIX).concat(identifier)
}

/// The number of the series that a link points to, if it names one.
pub fn extract_id_from_url(url: &str) -> (identifier: Option<String>)
    ensures
        text_of_option(identifier) == first_capture(SERIES_PATTERN@, url@),
{
    capture_first_group(SERIES_PATTERN, url)
}

/// The words that introduce a selector that did not compile.
pub const INVALID_SELECTOR: &'static str = "Invalid selector: ";

/// The detail of the failure when a listing has no base container.
pub const NO_BASE_CONTAINER: &'static str = "Could not find base container";

/// The view of a failure: its kind and its detail.
pub type Failure = (ErrorKind, Seq<char>);

/// What a failed compilation of `css` reports.
pub open spec fn invalid_selector(css: Seq<char>) -> Failure {
    (ErrorKind::Parsing, INVALID_SELECTOR@ + css)
}

/// Compiles one selector.
pub fn compile(css: &str) -> (compiled: Result<Query, SourceError>)
    ensures
        compiled is Ok <==> selector_compiles(css@),
        compiled matches Ok(query) ==> query@ == css@,
        compiled matches Err(e) ==> e@ == invalid_selector(css@),
{
    match compile_selector(css) {
        Some(query) => Ok(query),
        None => Err(SourceError::Parsing(String::from_str(INVALID_SELECTOR).concat(css))),
    }
}

/// The selectors by which a source finds the items of a listing.
#[derive(Debug)]
pub struct ListingSelectors {
    /// The container that encloses every item of the listing.
    pub base: String,
    /// One item, below the base container.
    pub item: String,
    /// The anchor that holds an item's title and link, below the item.
    pub title: String,
    /// The cover image, below the item.
    pub cover: String,
}

pub ghost struct ListingSelectorsView {
    pub base: Seq<char>,
    pub item: Seq<char>,
    pub title: Seq<char>,
    pub cover: Seq<char>,
}

impl View for ListingSelectors {
    type V = ListingSelectorsView;

    open spec fn view(&self) -> ListingSelectorsView {
        ListingSelectorsView {
            base: self.base@,
            item: self.item@,
            title: self.title@,
            cover: self.cover@,
        }
    }
}

impl ListingSelectorsView {
    /// The first of the selectors that does not compile, if there is one.
    pub open spec fn first_invalid(self) -> Option<Seq<char>> {
        if !selector_compiles(self.base) {
            Some(self.base)
        } else if !selector_compiles(self.item) {
            Some(self.item)
        } else if !selector_compiles(self.title) {
            Some(self.title)
        } else if !selector_compiles(self.cover) {
            Some(self.cover)
        } else {
            None
        }
    }
}

/// The compiled selectors of a listing.
struct ListingQueries {
    base: Query,
    item: Query,
    title: Query,
    cover: Query,
}

impl View for ListingQueries {
    type V = ListingSelectorsView;

    closed spec fn view(&self) -> ListingSelectorsView {
        ListingSelectorsView {
            base: self.base@,
            item: self.item@,
            title: self.title@,
            cover: self.cover@,
        }
    }
}

fn compile_listing(selectors: &ListingSelectors) -> (compiled: Result<ListingQueries, SourceError>)
    ensures
        compiled is Ok <==> selectors@.first_invalid() is None,
        compiled matches Ok(queries) ==> queries@ == selectors@,
        compiled matches Err(e) ==> e@ == invalid_selector(selectors@.first_invalid()->0),
{
    let base = match compile(selectors.base.as_str()) {
        Ok(query) => query,
        Err(e) => { return Err(e); },
    };
    let item = match compile(selectors.item.as_str()) {
        Ok(query) => query,
        Err(e) => { return Err(e); },
    };
    let title = match compile(selectors.title.as_str()) {
        Ok(query) => query,
        Err(e) => { return Err(e); },
    };
    let cover = match compile(selectors.cover.as_str()) {
        Ok(query) => query,
        Err(e) => { return Err(e); },
    };
    Ok(ListingQueries { base, item, title, cover })
}

/// What a listing shows of one item, read off the page as it stands.
#[derive(Debug)]
pub struct ListingItem {
    /// The text of the title anchor, without the whitespace at its ends;
    /// `None` where the item has no such anchor.
    pub title: Option<String>,
    /// Where the title anchor points; `None` where there is no anchor or it
    /// has no target.
    pub link: Option<String>,
    /// The number of the series that the link names, if it names one.
    pub identifier: Option<String>,
    /// The address of the cover image, if the item has one.
    pub cover_url: Option<String>,
}

pub ghost struct ListingItemView {
    pub title: Option<Seq<char>>,
    pub link: Option<Seq<char>>,
    pub identifier: Option<Seq<char>>,
    pub cover_url: Option<Seq<char>>,
}

impl View for ListingItem {
    type V = ListingItemView;

    open spec fn view(&self) -> ListingItemView {
        ListingItemView {
            title: text_of_option(self.title),
            link: text_of_option(self.link),
            identifier: text_of_option(self.identifier),
            cover_url: text_of_option(self.cover_url),
        }
    }
}

/// The views of a sequence of items.
pub open spec fn item_views(items: Seq<ListingItem>) -> Seq<ListingItemView> {
    items.map_values(|item: ListingItem| item@)
}

/// The first of the nodes, if there is one.
pub open spec fn first_node(nodes: Seq<int>) -> Option<int> {
    if nodes.len() > 0 {
        Some(nodes[0])
    } else {
        None
    }
}

/// The text below a node, without the whitespace at its ends.
pub open spec fn node_text(markup: Seq<char>, node: Option<int>) -> Option<Seq<char>> {
    match node {
        Some(n) => Some(trimmed(element_text(markup, n))),
        None => None,
    }
}

/// The value of an attribute of a node.
pub open spec fn node_attribute(markup: Seq<char>, node: Option<int>, name: Seq<char>) -> Option<
    Seq<char>,
> {
    match node {
        Some(n) => element_attribute(markup, n, name),
        None => None,
    }
}

/// The number of the series that a link names.
pub open spec fn series_in(link: Option<Seq<char>>) -> Option<Seq<char>> {
    match link {
        Some(l) => first_capture(SERIES_PATTERN@, l),
        None => None,
    }
}

/// What the page shows of the item at `node`.
pub open spec fn listing_item_at(
    markup: Seq<char>,
    node: int,
    selectors: ListingSelectorsView,
) -> ListingItemView {
    let anchor = first_node(element_matches(markup, node, selectors.title));
    let image = first_node(element_matches(markup, node, selectors.cover));
    let link = node_attribute(markup, anchor, "href"@);
    ListingItemView {
        title: node_text(markup, anchor),
        link,
        identifier: series_in(link),
        cover_url: node_attribute(markup, image, "src"@),
    }
}

/// The items of the listing on a page, in the order of the page: those that
/// match the item selector below the first match of the base selector.
/// `None` where nothing matches the base selector.
pub open spec fn listing_items(markup: Seq<char>, selectors: ListingSelectorsView) -> Option<
    Seq<ListingItemView>,
> {
    match first_node(document_matches(markup, selectors.base)) {
        Some(base) => Some(
            element_matches(markup, base, selectors.item).map_values(
                |node: int| listing_item_at(markup, node, selectors),
            ),
        ),
        None => None,
    }
}

/// The first of the elements found, with the node that it stands at.
pub(crate) fn first_element<'a, 'b>(
    found: &'b Vec<Element<'a>>,
    Ghost(markup): Ghost<Seq<char>>,
    Ghost(nodes): Ghost<Seq<int>>,
) -> (first: Option<&'b Element<'a>>)
    requires
        places(found@) == places_in(markup, nodes),
    ensures
        first is Some <==> first_node(nodes) is Some,
        first matches Some(element) ==> element@ == (Place { markup, node: first_node(nodes)->0 }),
        found@.len() == nodes.len(),
{
    assert(places(found@).len() == found@.len());
    assert(places_in(markup, nodes).len() == nodes.len());
    if found.len() > 0 {
        assert(places(found@)[0] == found@[0]@);
        assert(places_in(markup, nodes)[0] == Place { markup, node: nodes[0] });
        Some(&found[0])
    } else {
        None
    }
}

/// The trimmed text of an element, where there is one.
pub(crate) fn text_at(element: Option<&Element>) -> (text: Option<String>)
    ensures
        element is None ==> text is None,
        element matches Some(e) ==> text_of_option(text) == node_text(e@.markup, Some(e@.node)),
{
    match element {
        Some(e) => {
            let raw = text_of(e);
            Some(trim(raw.as_str()))
        },
        None => None,
    }
}

/// An attribute of an element, where there is one.
pub(crate) fn attribute_at(element: Option<&Element>, name: &str) -> (value: Option<String>)
    ensures
        element is None ==> value is None,
        element matches Some(e) ==> text_of_option(value) == node_attribute(
            e@.markup,
            Some(e@.node),
            name@,
        ),
{
    match element {
        Some(e) => attribute_of(e, name),
        None => None,
    }
}

/// Reads off the page what it shows of one item.
fn read_item(item: &Element, queries: &ListingQueries) -> (read: ListingItem)
    ensures
        read@ == listing_item_at(item@.markup, item@.node, queries@),
{
    let ghost markup = item@.markup;
    let anchors = select_in_element(item, &queries.title);
    let images = select_in_element(item, &queries.cover);
    let anchor = first_element(
        &anchors,
        Ghost(markup),
        Ghost(element_matches(markup, item@.node, queries@.title)),
    );
    let image = first_element(
        &images,
        Ghost(markup),
        Ghost(element_matches(markup, item@.node, queries@.cover)),
    );
    let title = text_at(anchor);
    let link = attribute_at(anchor, "href");
    let identifier = match &link {
        Some(l) => extract_id_from_url(l.as_str()),
        None => None,
    };
    let cover_url = attribute_at(image, "src");
    ListingItem { title, link, identifier, cover_url }
}

/// What reading the listing off a page comes to: the items, or the failure
/// to compile a selector or to find the base container.
pub open spec fn page_of(markup: Seq<char>, selectors: ListingSelectorsView) -> Result<
    Seq<ListingItemView>,
    Failure,
> {
    match selectors.first_invalid() {
        Some(css) => Err(invalid_selector(css)),
        None => match listing_items(markup, selectors) {
            Some(items) => Ok(items),
            None => Err((ErrorKind::Parsing, NO_BASE_CONTAINER@)),
        },
    }
}

/// The view of what reading a listing gave.
pub open spec fn items_outcome(read: Result<Vec<ListingItem>, SourceError>) -> Result<
    Seq<ListingItemView>,
    Failure,
> {
    match read {
        Ok(items) => Ok(item_views(items@)),
        Err(e) => Err(e@),
    }
}

/// Reads the items of the listing off a page.
pub fn read_listing(html_content: &str, selectors: &ListingSelectors) -> (read: Result<
    Vec<ListingItem>,
    SourceError,
>)
    ensures
        items_outcome(read) == page_of(html_content@, selectors@),
{
    let document = parse_document(html_content);
    let queries = match compile_listing(selectors) {
        Ok(queries) => queries,
        Err(e) => { return Err(e); },
    };
    let ghost markup = html_content@;
    let bases = select_in_document(&document, &queries.base);
    let base = match first_element(
        &bases,
        Ghost(markup),
        Ghost(document_matches(markup, queries@.base)),
    ) {
        Some(base) => base,
        None => { return Err(SourceError::parsing(NO_BASE_CONTAINER)); },
    };
    let ghost nodes = element_matches(markup, base@.node, queries@.item);
    let elements = select_in_element(base, &queries.item);
    let n = elements.len();
    let mut items: Vec<ListingItem> = Vec::new();
    let mut i: usize = 0;
    assert(places(elements@).len() == elements@.len());
    assert(places_in(markup, nodes).len() == nodes.len());
    while i < n
        invariant
            n == elements@.len(),
            n == nodes.len(),
            i <= n,
            places(elements@) == places_in(markup, nodes),
            queries@ == selectors@,
            items@.len() == i,
            forall|k: int|
                0 <= k < i ==> (#[trigger] items@[k])@ == listing_item_at(
                    markup,
                    nodes[k],
                    selectors@,
                ),
        decreases n - i,
    {
        assert(places(elements@)[i as int] == elements@[i as int]@);
        assert(places_in(markup, nodes)[i as int] == Place { markup, node: nodes[i as int] });
        let item = read_item(&elements[i], &queries);
        items.push(item);
        i += 1;
    }
    assert(item_views(items@) =~= nodes.map_values(
        |node: int| listing_item_at(markup, node, selectors@),
    ));
    Ok(items)
}

/// The title that stands in for an item without one.
pub const UNTITLED: &'static str = "Untitled";

/// The name under which this source files its entries.
pub const SOURCE_NAME: &'static str = "batoto";

/// The first `limit` elements of a sequence, or all of it if it has fewer.
pub open spec fn first_n<T>(s: Seq<T>, limit: nat) -> Seq<T> {
    if limit < s.len() {
        s.take(limit as int)
    } else {
        s
    }
}

/// The title under which an item is listed: its own, unless it has none,
/// an empty one, or the placeholder.
pub open spec fn accepted_title(item: ListingItemView) -> Option<Seq<char>> {
    match item.title {
        Some(title) => if title.len() > 0 && title != UNTITLED@ {
            Some(title)
        } else {
            None
        },
        None => None,
    }
}

/// The titles of the items that are listed, in the order of the page.
pub open spec fn accepted_titles(items: Seq<ListingItemView>) -> Seq<Seq<char>> {
    items.filter_map(|item: ListingItemView| accepted_title(item))
}

/// The titles that a listing of at most `limit` titles shows.
pub open spec fn listed_titles(items: Seq<ListingItemView>, limit: nat) -> Seq<Seq<char>> {
    first_n(accepted_titles(items), limit)
}

/// The entry that an item gives when its title is among `missing`: it needs
/// a title, a link, and an identifier that the link names.
pub open spec fn entry_of(
    item: ListingItemView,
    missing: Seq<Seq<char>>,
    source: Seq<char>,
) -> Option<MangaEntryView> {
    if item.title is Some && missing.contains(item.title->0) && item.title->0.len() > 0
        && item.link is Some && item.link->0.len() > 0 && item.identifier is Some {
        Some(
            MangaEntryView {
                source,
                identifier: item.identifier->0,
                title: item.title->0,
                cover_url: match item.cover_url {
                    Some(url) => url,
                    None => Seq::empty(),
                },
            },
        )
    } else {
        None
    }
}

/// The entries of the items whose title is among `missing`, in the order of
/// the page.
pub open spec fn found_entries(
    items: Seq<ListingItemView>,
    missing: Seq<Seq<char>>,
    source: Seq<char>,
) -> Seq<MangaEntryView> {
    items.filter_map(|item: ListingItemView| entry_of(item, missing, source))
}

/// The entries that an extraction of at most `limit` entries gives.
pub open spec fn listed_entries(
    items: Seq<ListingItemView>,
    missing: Seq<Seq<char>>,
    limit: nat,
    source: Seq<char>,
) -> Seq<MangaEntryView> {
    first_n(found_entries(items, missing, source), limit)
}

/// The views of a sequence of entries.
pub open spec fn views_of(entries: Seq<MangaEntry>) -> Seq<MangaEntryView> {
    entries.map_values(|e: MangaEntry| e@)
}

/// One more item adds its title to the accepted ones, or nothing.
pub proof fn lemma_accepted_titles_step(items: Seq<ListingItemView>, i: int)
    requires
        0 <= i < items.len(),
    ensures
        accepted_titles(items.take(i + 1)) == accepted_titles(items.take(i)) + (match accepted_title(
            items[i],
        ) {
            Some(title) => seq![title],
            None => Seq::empty(),
        }),
{
    items.lemma_filter_map_take_succ(|item: ListingItemView| accepted_title(item), i);
}

/// One more item adds its entry to the found ones, or nothing.
pub proof fn lemma_found_entries_step(
    items: Seq<ListingItemView>,
    missing: Seq<Seq<char>>,
    source: Seq<char>,
    i: int,
)
    requires
        0 <= i < items.len(),
    ensures
        found_entries(items.take(i + 1), missing, source) == found_entries(
            items.take(i),
            missing,
            source,
        ) + (match entry_of(items[i], missing, source) {
            Some(entry) => seq![entry],
            None => Seq::empty(),
        }),
{
    items.lemma_filter_map_take_succ(|item: ListingItemView| entry_of(item, missing, source), i);
}

/// What is accepted of the first items of a page opens what is accepted of
/// the whole page.
pub proof fn lemma_accepted_titles_prefix(items: Seq<ListingItemView>, i: int)
    requires
        0 <= i <= items.len(),
    ensures
        accepted_titles(items.take(i)).len() <= accepted_titles(items).len(),
        accepted_titles(items.take(i)) == accepted_titles(items).take(
            accepted_titles(items.take(i)).len() as int,
        ),
    decreases items.len() - i,
{
    if i == items.len() {
        assert(items.take(i) =~= items);
        assert(accepted_titles(items).take(accepted_titles(items).len() as int) =~= accepted_titles(
            items,
        ));
    } else {
        lemma_accepted_titles_prefix(items, i + 1);
        lemma_accepted_titles_step(items, i);
        let shorter = accepted_titles(items.take(i));
        let longer = accepted_titles(items.take(i + 1));
        assert(shorter =~= longer.take(shorter.len() as int));
        assert(longer.take(shorter.len() as int) =~= accepted_titles(items).take(
            shorter.len() as int,
        ));
    }
}

/// What is found in the first items of a page opens what is found in the
/// whole page.
pub proof fn lemma_found_entries_prefix(
    items: Seq<ListingItemView>,
    missing: Seq<Seq<char>>,
    source: Seq<char>,
    i: int,
)
    requires
        0 <= i <= items.len(),
    ensures
        found_entries(items.take(i), missing, source).len() <= found_entries(
            items,
            missing,
            source,
        ).len(),
        found_entries(items.take(i), missing, source) == found_entries(items, missing, source).take(
            found_entries(items.take(i), missing, source).len() as int,
        ),
    decreases items.len() - i,
{
    let all = found_entries(items, missing, source);
    if i == items.len() {
        assert(items.take(i) =~= items);
        assert(all.take(all.len() as int) =~= all);
    } else {
        lemma_found_entries_prefix(items, missing, source, i + 1);
        lemma_found_entries_step(items, missing, source, i);
        let shorter = found_entries(items.take(i), missing, source);
        let longer = found_entries(items.take(i + 1), missing, source);
        assert(shorter =~= longer.take(shorter.len() as int));
        assert(longer.take(shorter.len() as int) =~= all.take(shorter.len() as int));
    }
}

/// Every title that is listed is the title of an item, is not empty and is
/// not the placeholder; and no more than `limit` titles are listed.
pub proof fn lemma_listed_titles_are_accepted(items: Seq<ListingItemView>, limit: nat)
    ensures
        listed_titles(items, limit).len() <= limit,
        forall|title: Seq<char>| #[trigger]
            listed_titles(items, limit).contains(title) ==> {
                &&& title.len() > 0
                &&& title != UNTITLED@
                &&& accepted_titles(items).contains(title)
                &&& exists|i: int|
                    0 <= i < items.len() && (#[trigger] items[i]).title == Some(title)
            },
{
    let all = accepted_titles(items);
    let listed = listed_titles(items, limit);
    assert forall|title: Seq<char>| #[trigger] listed.contains(title) implies {
        &&& title.len() > 0
        &&& title != UNTITLED@
        &&& all.contains(title)
        &&& exists|i: int| 0 <= i < items.len() && (#[trigger] items[i]).title == Some(title)
    } by {
        let k = choose|k: int| 0 <= k < listed.len() && listed[k] == title;
        assert(all[k] == title);
        items.lemma_filter_map_contains(|item: ListingItemView| accepted_title(item), title);
        let item = choose|item: ListingItemView| #[trigger]
            items.contains(item) && accepted_title(item) == Some(title);
        let i = choose|i: int| 0 <= i < items.len() && items[i] == item;
        assert(items[i].title == Some(title));
    }
}

/// Whether a list of titles is as a page lists them: no more than `limit`
/// of them, none empty, none the placeholder, and none with whitespace at
/// either end.
pub open spec fn clean_titles(titles: Seq<Seq<char>>, limit: nat) -> bool {
    &&& titles.len() <= limit
    &&& forall|k: int|
        0 <= k < titles.len() ==> {
            &&& (#[trigger] titles[k]).len() > 0
            &&& titles[k] != UNTITLED@
            &&& trimmed(titles[k]) == titles[k]
        }
}

/// On a page whose selectors compile and whose base container is there, the
/// titles are listed: they are the first `limit` accepted titles in the
/// order of the page, none is empty or the placeholder, and none has
/// whitespace left at either end. On every other page listing fails.
pub proof fn lemma_titles_on_a_page(markup: Seq<char>, selectors: ListingSelectorsView, limit: nat)
    ensures
        titles_on(markup, selectors, limit) is Ok <==> selectors.first_invalid() is None
            && listing_items(markup, selectors) is Some,
        titles_on(markup, selectors, limit) matches Ok(titles) ==> clean_titles(titles, limit)
            && titles == first_n(accepted_titles(listing_items(markup, selectors)->0), limit),
{
    if titles_on(markup, selectors, limit) is Ok {
        let items = listing_items(markup, selectors)->0;
        let titles = listed_titles(items, limit);
        lemma_listed_titles_are_accepted(items, limit);
        let base = first_node(document_matches(markup, selectors.base))->0;
        let nodes = element_matches(markup, base, selectors.item);
        assert forall|k: int| 0 <= k < titles.len() implies {
            &&& (#[trigger] titles[k]).len() > 0
            &&& titles[k] != UNTITLED@
            &&& trimmed(titles[k]) == titles[k]
        } by {
            let title = titles[k];
            assert(titles.contains(title));
            let i = choose|i: int|
                0 <= i < items.len() && (#[trigger] items[i]).title == Some(title);
            assert(items[i] == listing_item_at(markup, nodes[i], selectors));
            let anchor = first_node(element_matches(markup, nodes[i], selectors.title));
            lemma_trimmed_is_trimmed(element_text(markup, anchor->0));
        }
    }
}

/// Every entry that is found carries one of the missing titles and comes
/// from an item with that title.
pub proof fn lemma_entries_carry_missing_titles(
    items: Seq<ListingItemView>,
    missing: Seq<Seq<char>>,
    limit: nat,
    source: Seq<char>,
)
    ensures
        forall|k: int|
            0 <= k < listed_entries(items, missing, limit, source).len() ==> {
                let entry = #[trigger] listed_entries(items, missing, limit, source)[k];
                &&& missing.contains(entry.title)
                &&& exists|i: int|
                    0 <= i < items.len() && (#[trigger] items[i]).title == Some(entry.title)
            },
{
    let found = found_entries(items, missing, source);
    let listed = listed_entries(items, missing, limit, source);
    assert forall|k: int| 0 <= k < listed.len() implies {
        let entry = #[trigger] listed[k];
        &&& missing.contains(entry.title)
        &&& exists|i: int| 0 <= i < items.len() && (#[trigger] items[i]).title == Some(entry.title)
    } by {
        let entry = listed[k];
        assert(found[k] == entry);
        assert(found.contains(entry));
        items.lemma_filter_map_contains(
            |item: ListingItemView| entry_of(item, missing, source),
            entry,
        );
        let item = choose|item: ListingItemView| #[trigger]
            items.contains(item) && entry_of(item, missing, source) == Some(entry);
        let i = choose|i: int| 0 <= i < items.len() && items[i] == item;
        assert(items[i].title == Some(entry.title));
    }
}

/// The titles of the items that are listed, in the order of the page and at
/// most `limit` of them. An item without a title, with an empty title or
/// with the placeholder for one is passed over.
pub fn titles_from_items(items: &Vec<ListingItem>, limit: usize) -> (titles: Vec<String>)
    ensures
        texts(titles@) == listed_titles(item_views(items@), limit as nat),
        titles@.len() <= limit,
        forall|k: int|
            0 <= k < titles@.len() ==> (#[trigger] titles@[k])@.len() > 0 && titles@[k]@
                != UNTITLED@,
{
    let n = items.len();
    let ghost page = item_views(items@);
    let mut titles: Vec<String> = Vec::new();
    let mut i: usize = 0;
    proof {
        assert(page.take(0).filter_map(|item: ListingItemView| accepted_title(item))
            =~= Seq::<Seq<char>>::empty());
        assert(texts(titles@) =~= accepted_titles(page.take(0)));
    }
    while i < n && titles.len() < limit
        invariant
            n == items@.len(),
            page == item_views(items@),
            i <= n,
            titles@.len() <= limit,
            texts(titles@) == accepted_titles(page.take(i as int)),
        decreases n - i,
    {
        proof {
            lemma_accepted_titles_step(page, i as int);
            assert(page[i as int] == items@[i as int]@);
        }
        let ghost before = titles@;
        match &items[i].title {
            Some(title) => {
                if !title.as_str().is_empty() && !same_text(title.as_str(), UNTITLED) {
                    titles.push(title.clone());
                    assert(texts(titles@) =~= texts(before) + seq![title@]);
                }
            },
            None => {},
        }
        assert(texts(titles@) =~= accepted_titles(page.take(i + 1)));
        i += 1;
    }
    proof {
        lemma_accepted_titles_prefix(page, i as int);
        if i == n {
            assert(page.take(i as int) =~= page);
        }
        let listed = listed_titles(page, limit as nat);
        lemma_listed_titles_are_accepted(page, limit as nat);
        assert forall|k: int| 0 <= k < titles@.len() implies (#[trigger] titles@[k])@.len() > 0
            && titles@[k]@ != UNTITLED@ by {
            assert(texts(titles@)[k] == titles@[k]@);
            assert(listed.contains(listed[k]));
        }
    }
    titles
}

/// Whether a text is among the given ones.
pub fn contains_text(list: &[String], text: &str) -> (found: bool)
    ensures
        found == texts(list@).contains(text@),
{
    let n = list.len();
    let mut i: usize = 0;
    while i < n
        invariant
            n == list@.len(),
            i <= n,
            forall|k: int| 0 <= k < i ==> texts(list@)[k] != text@,
        decreases n - i,
    {
        if same_text(list[i].as_str(), text) {
            assert(texts(list@)[i as int] == text@);
            return true;
        }
        i += 1;
    }
    false
}

/// The entries of the items whose title is among `missing_titles`, in the
/// order of the page and at most `limit` of them. An item without a title,
/// without a link, or with a link that names no series is passed over.
pub fn entries_from_items(
    items: &Vec<ListingItem>,
    missing_titles: &[String],
    limit: usize,
    source: &str,
) -> (entries: Vec<MangaEntry>)
    ensures
        views_of(entries@) == listed_entries(
            item_views(items@),
            texts(missing_titles@),
            limit as nat,
            source@,
        ),
        forall|k: int|
            0 <= k < entries@.len() ==> texts(missing_titles@).contains(
                (#[trigger] entries@[k]).title@,
            ),
{
    let n = items.len();
    let ghost page = item_views(items@);
    let ghost missing = texts(missing_titles@);
    let mut entries: Vec<MangaEntry> = Vec::new();
    let mut i: usize = 0;
    proof {
        assert(page.take(0).filter_map(|item: ListingItemView| entry_of(item, missing, source@))
            =~= Seq::<MangaEntryView>::empty());
        assert(views_of(entries@) =~= found_entries(page.take(0), missing, source@));
    }
    while i < n && entries.len() < limit
        invariant
            n == items@.len(),
            page == item_views(items@),
            missing == texts(missing_titles@),
            i <= n,
            entries@.len() <= limit,
            views_of(entries@) == found_entries(page.take(i as int), missing, source@),
            forall|k: int|
                0 <= k < entries@.len() ==> missing.contains((#[trigger] entries@[k]).title@),
        decreases n - i,
    {
        proof {
            lemma_found_entries_step(page, missing, source@, i as int);
            assert(page[i as int] == items@[i as int]@);
        }
        let ghost before = entries@;
        let item = &items[i];
        match (&item.title, &item.link, &item.identifier) {
            (Some(title), Some(link), Some(identifier)) => {
                if contains_text(missing_titles, title.as_str()) && !title.as_str().is_empty()
                    && !link.as_str().is_empty() {
                    let cover_url = match &item.cover_url {
                        Some(url) => url.clone(),
                        None => String::new(),
                    };
                    let entry = MangaEntry {
                        source: String::from_str(source),
                        identifier: identifier.clone(),
                        title: title.clone(),
                        cover_url,
                    };
                    assert(entry@ == entry_of(page[i as int], missing, source@)->0);
                    entries.push(entry);
                    assert(views_of(entries@) =~= views_of(before) + seq![entry@]);
                }
            },
            _ => {},
        }
        assert(views_of(entries@) =~= found_entries(page.take(i + 1), missing, source@));
        i += 1;
    }
    proof {
        lemma_found_entries_prefix(page, missing, source@, i as int);
        if i == n {
            assert(page.take(i as int) =~= page);
        }
    }
    entries
}

/// The view of what an extraction of titles gave.
pub open spec fn titles_outcome(extracted: Result<Vec<String>, SourceError>) -> Result<
    Seq<Seq<char>>,
    Failure,
> {
    match extracted {
        Ok(titles) => Ok(texts(titles@)),
        Err(e) => Err(e@),
    }
}

/// The view of what an extraction of entries gave.
pub open spec fn entries_outcome(extracted: Result<Vec<MangaEntry>, SourceError>) -> Result<
    Seq<MangaEntryView>,
    Failure,
> {
    match extracted {
        Ok(entries) => Ok(views_of(entries@)),
        Err(e) => Err(e@),
    }
}

/// The titles that a page lists, or why it lists none.
pub open spec fn titles_on(
    markup: Seq<char>,
    selectors: ListingSelectorsView,
    limit: nat,
) -> Result<Seq<Seq<char>>, Failure> {
    match page_of(markup, selectors) {
        Ok(items) => Ok(listed_titles(items, limit)),
        Err(failure) => Err(failure),
    }
}

/// The entries that a page gives for the missing titles, or why it gives
/// none.
pub open spec fn entries_on(
    markup: Seq<char>,
    selectors: ListingSelectorsView,
    missing: Seq<Seq<char>>,
    limit: nat,
    source: Seq<char>,
) -> Result<Seq<MangaEntryView>, Failure> {
    match page_of(markup, selectors) {
        Ok(items) => Ok(listed_entries(items, missing, limit, source)),
        Err(failure) => Err(failure),
    }
}

/// The titles that the page lists, in the order of the page and at most
/// `limit` of them. A page without the base container is a failure, not an
/// empty listing.
pub fn extract_titles(html_content: &str, selectors: &ListingSelectors, limit: usize) -> (extracted:
    Result<Vec<String>, SourceError>)
    ensures
        titles_outcome(extracted) == titles_on(html_content@, selectors@, limit as nat),
        extracted is Ok <==> selectors@.first_invalid() is None && listing_items(
            html_content@,
            selectors@,
        ) is Some,
        extracted matches Ok(titles) ==> clean_titles(texts(titles@), limit as nat),
{
    proof {
        lemma_titles_on_a_page(html_content@, selectors@, limit as nat);
    }
    match read_listing(html_content, selectors) {
        Ok(items) => Ok(titles_from_items(&items, limit)),
        Err(e) => Err(e),
    }
}

/// The entries of the items of the page whose title is among
/// `missing_titles`, in the order of the page and at most `limit` of them.
/// No entry has a title that is not among `missing_titles`.
pub fn extract_entries(
    html_content: &str,
    selectors: &ListingSelectors,
    missing_titles: &[String],
    limit: usize,
    source: &str,
) -> (extracted: Result<Vec<MangaEntry>, SourceError>)
    ensures
        entries_outcome(extracted) == entries_on(
            html_content@,
            selectors@,
            texts(missing_titles@),
            limit as nat,
            source@,
        ),
        extracted matches Ok(entries) ==> forall|k: int|
            0 <= k < entries@.len() ==> texts(missing_titles@).contains(
                (#[trigger] entries@[k]).title@,
            ),
{
    match read_listing(html_content, selectors) {
        Ok(items) => Ok(entries_from_items(&items, missing_titles, limit, source)),
        Err(e) => Err(e),
    }
}

/// The selectors of the listing of popular releases.
pub open spec fn popular_selectors_view() -> ListingSelectorsView {
    ListingSelectorsView {
        base: "div.home-popular"@,
        item: "div.col.item"@,
        title: "a.item-title"@,
        cover: "a.item-cover > img"@,
    }
}

/// The selectors of the listing of latest releases.
pub open spec fn latest_selectors_view() -> ListingSelectorsView {
    ListingSelectorsView {
        base: "div.series-list"@,
        item: "div.col.item"@,
        title: "a.item-title"@,
        cover: "a.item-cover > img"@,
    }
}

/// The selectors of the listing of popular releases.
pub fn popular_selectors() -> (selectors: ListingSelectors)
    ensures
        selectors@ == popular_selectors_view(),
{
    ListingSelectors {
        base: String::from_str("div.home-popular"),
        item: String::from_str("div.col.item"),
        title: String::from_str("a.item-title"),
        cover: String::from_str("a.item-cover > img"),
    }
}

/// The selectors of the listing of latest releases.
pub fn latest_selectors() -> (selectors: ListingSelectors)
    ensures
        selectors@ == latest_selectors_view(),
{
    ListingSelectors {
        base: String::from_str("div.series-list"),
        item: String::from_str("div.col.item"),
        title: String::from_str("a.item-title"),
        cover: String::from_str("a.item-cover > img"),
    }
}

/// The titles of the latest releases that the page lists.
pub fn extract_latest_titles(html_content: &str, limit: usize) -> (extracted: Result<
    Vec<String>,
    SourceError,
>)
    ensures
        titles_outcome(extracted) == titles_on(
            html_content@,
            latest_selectors_view(),
            limit as nat,
        ),
        extracted is Ok <==> latest_selectors_view().first_invalid() is None && listing_items(
            html_content@,
            latest_selectors_view(),
        ) is Some,
        extracted matches Ok(titles) ==> clean_titles(texts(titles@), limit as nat),
{
    extract_titles(html_content, &latest_selectors(), limit)
}

/// The entries of the latest releases whose title is among `missing_titles`.
pub fn extract_latest_entries(
    html_content: &str,
    missing_titles: &[String],
    limit: usize,
) -> (extracted: Result<Vec<MangaEntry>, SourceError>)
    ensures
        entries_outcome(extracted) == entries_on(
            html_content@,
            latest_selectors_view(),
            texts(missing_titles@),
            limit as nat,
            SOURCE_NAME@,
        ),
        extracted matches Ok(entries) ==> forall|k: int|
            0 <= k < entries@.len() ==> texts(missing_titles@).contains(
                (#[trigger] entries@[k]).title@,
            ),
{
    extract_entries(html_content, &latest_selectors(), missing_titles, limit, SOURCE_NAME)
}

/// The titles of the popular releases that the page lists.
pub fn extract_popular_titles(html_content: &str, limit: usize) -> (extracted: Result<
    Vec<String>,
    SourceError,
>)
    ensures
        titles_outcome(extracted) == titles_on(
            html_content@,
            popular_selectors_view(),
            limit as nat,
        ),
        extracted is Ok <==> popular_selectors_view().first_invalid() is None && listing_items(
            html_content@,
            popular_selectors_view(),
        ) is Some,
        extracted matches Ok(titles) ==> clean_titles(texts(titles@), limit as nat),
{
    extract_titles(html_content, &popular_selectors(), limit)
}

/// The entries of the popular releases whose title is among
/// `missing_titles`.
pub fn extract_popular_entries(
    html_content: &str,
    missing_titles: &[String],
    limit: usize,
) -> (extracted: Result<Vec<MangaEntry>, SourceError>)
    ensures
        entries_outcome(extracted) == entries_on(
            html_content@,
            popular_selectors_view(),
            texts(missing_titles@),
            limit as nat,
            SOURCE_NAME@,
        ),
        extracted matches Ok(entries) ==> forall|k: int|
            0 <= k < entries@.len() ==> texts(missing_titles@).contains(
                (#[trigger] entries@[k]).title@,
            ),
{
    extract_entries(html_content, &popular_selectors(), missing_titles, limit, SOURCE_NAME)
}

} // verus!
