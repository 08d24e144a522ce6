use manga_core::error::{ErrorKind, SourceError};
use manga_core::parser::{
    entries_from_items, extract_entries, extract_latest_titles, extract_popular_entries,
    extract_popular_titles, extract_titles, latest_selectors, popular_selectors, read_listing,
    titles_from_items, ListingItem, ListingSelectors,
};

fn item(title: &str, href: &str, cover: &str) -> String {
    format!(
        "<div class=\"col item\"><a class=\"item-cover\" href=\"{href}\"><img src=\"{cover}\"></a>\
         <a class=\"item-title\" href=\"{href}\">{title}</a></div>"
    )
}

fn popular_page(items: &[String]) -> String {
    format!(
        "<html><body><div class=\"home-popular\">{}</div></body></html>",
        items.concat()
    )
}

fn strings(values: &[&str]) -> Vec<String> {
    values.iter().map(|v| v.to_string()).collect()
}

fn plain(title: Option<&str>, link: Option<&str>, id: Option<&str>, cover: Option<&str>) -> ListingItem {
    ListingItem {
        title: title.map(str::to_string),
        link: link.map(str::to_string),
        identifier: id.map(str::to_string),
        cover_url: cover.map(str::to_string),
    }
}

#[test]
fn titles_skip_the_empty_one() {
    let page = popular_page(&[
        item("Foo", "/series/1/foo", "/c/1.jpg"),
        item("", "/series/2/x", "/c/2.jpg"),
        item("Bar", "/series/3/bar", "/c/3.jpg"),
    ]);
    assert_eq!(extract_popular_titles(&page, 10).unwrap(), strings(&["Foo", "Bar"]));
}

#[test]
fn titles_come_in_document_order_and_stop_at_the_limit() {
    let page = popular_page(&[
        item("  Zeta \n", "/series/1", "a"),
        item("Alpha", "/series/2", "b"),
        item("Untitled", "/series/3", "c"),
        "<div class=\"col item\"><span>no anchor</span></div>".to_string(),
        item("Mid", "/series/4", "d"),
    ]);
    assert_eq!(extract_popular_titles(&page, 10).unwrap(), strings(&["Zeta", "Alpha", "Mid"]));
    assert_eq!(extract_popular_titles(&page, 2).unwrap(), strings(&["Zeta", "Alpha"]));
    assert_eq!(extract_popular_titles(&page, 3).unwrap(), strings(&["Zeta", "Alpha", "Mid"]));
}

#[test]
fn a_limit_of_zero_gives_no_titles_and_no_entries() {
    let page = popular_page(&[item("Foo", "/series/1", "a")]);
    assert_eq!(extract_popular_titles(&page, 0).unwrap(), Vec::<String>::new());
    let entries = extract_popular_entries(&page, &strings(&["Foo"]), 0).unwrap();
    assert!(entries.is_empty());
}

#[test]
fn a_page_without_the_base_container_is_a_parsing_failure() {
    let page = "<html><body><div class=\"other\"></div></body></html>";
    let failure = extract_popular_titles(page, 10).unwrap_err();
    assert_eq!(failure.kind(), ErrorKind::Parsing);
    assert_eq!(failure.detail(), "Could not find base container");
    assert_eq!(failure.message(), "Parsing error: Could not find base container");
    let failure = extract_popular_entries(page, &strings(&["Foo"]), 10).unwrap_err();
    assert_eq!(failure.kind(), ErrorKind::Parsing);
    assert!(matches!(extract_latest_titles(page, 10), Err(SourceError::Parsing(_))));
}

#[test]
fn an_empty_base_container_lists_nothing() {
    let page = popular_page(&[]);
    assert_eq!(extract_popular_titles(&page, 10).unwrap(), Vec::<String>::new());
}

#[test]
fn latest_and_popular_read_their_own_container() {
    let page = format!(
        "<div class=\"home-popular\">{}</div><div class=\"series-list\">{}</div>",
        item("Pop", "/series/1", "a"),
        item("New", "/series/2", "b")
    );
    assert_eq!(extract_popular_titles(&page, 10).unwrap(), strings(&["Pop"]));
    assert_eq!(extract_latest_titles(&page, 10).unwrap(), strings(&["New"]));
}

#[test]
fn entries_are_emitted_only_for_missing_titles() {
    let page = popular_page(&[
        item("Foo", "/series/11/foo", "/c/11.jpg"),
        item("Bar", "/series/22/bar", "/c/22.jpg"),
        item("Baz", "/series/33/baz", "/c/33.jpg"),
    ]);
    let entries = extract_popular_entries(&page, &strings(&["Baz", "Foo"]), 10).unwrap();
    assert_eq!(entries.len(), 2);
    assert_eq!(entries[0].title, "Foo");
    assert_eq!(entries[0].identifier, "11");
    assert_eq!(entries[0].cover_url, "/c/11.jpg");
    assert_eq!(entries[0].source, "batoto");
    assert_eq!(entries[1].title, "Baz");
    assert_eq!(entries[1].identifier, "33");
}

#[test]
fn every_entry_carries_one_of_the_missing_titles() {
    let page = popular_page(&[
        item("Foo", "/series/11/foo", "a"),
        item("Bar", "/series/22/bar", "b"),
        item("Baz", "/nowhere", "c"),
    ]);
    let titles = extract_popular_titles(&page, 10).unwrap();
    let missing = strings(&["Bar", "Baz", "Absent"]);
    let entries = extract_popular_entries(&page, &missing, 10).unwrap();
    for entry in &entries {
        assert!(missing.contains(&entry.title));
        assert!(titles.contains(&entry.title));
    }
    assert_eq!(entries.len(), 1);
    assert_eq!(entries[0].title, "Bar");
}

#[test]
fn malformed_items_are_skipped_not_failed() {
    let page = popular_page(&[
        "<div class=\"col item\"><a class=\"item-title\">NoLink</a></div>".to_string(),
        item("BadLink", "/title/5", "a"),
        "<div class=\"col item\"><a class=\"item-title\" href=\"/series/9\">NoCover</a></div>".to_string(),
    ]);
    let missing = strings(&["NoLink", "BadLink", "NoCover"]);
    let entries = extract_popular_entries(&page, &missing, 10).unwrap();
    assert_eq!(entries.len(), 1);
    assert_eq!(entries[0].title, "NoCover");
    assert_eq!(entries[0].identifier, "9");
    assert_eq!(entries[0].cover_url, "");
}

#[test]
fn the_entry_limit_counts_entries_not_items() {
    let page = popular_page(&[
        item("A", "/series/1", "a"),
        item("B", "/series/2", "b"),
        item("C", "/series/3", "c"),
        item("D", "/series/4", "d"),
    ]);
    let entries = extract_popular_entries(&page, &strings(&["B", "D", "C"]), 2).unwrap();
    assert_eq!(entries.len(), 2);
    assert_eq!(entries[0].title, "B");
    assert_eq!(entries[1].title, "C");
}

#[test]
fn an_invalid_selector_is_a_parsing_failure() {
    let mut selectors: ListingSelectors = popular_selectors();
    selectors.item = "div..".to_string();
    let failure = extract_titles("<div class=\"home-popular\"></div>", &selectors, 5).unwrap_err();
    assert_eq!(failure.kind(), ErrorKind::Parsing);
    assert_eq!(failure.detail(), "Invalid selector: div..");
    let failure = extract_entries("<p></p>", &selectors, &[], 5, "x").unwrap_err();
    assert_eq!(failure.detail(), "Invalid selector: div..");
}

#[test]
fn the_page_is_read_as_it_stands() {
    let page = format!(
        "<div class=\"series-list\">{}<div class=\"col item\"></div></div>",
        item(" Foo ", "/series/7/foo", "/c.jpg")
    );
    let items = read_listing(&page, &latest_selectors()).unwrap();
    assert_eq!(items.len(), 2);
    assert_eq!(items[0].title.as_deref(), Some("Foo"));
    assert_eq!(items[0].link.as_deref(), Some("/series/7/foo"));
    assert_eq!(items[0].identifier.as_deref(), Some("7"));
    assert_eq!(items[0].cover_url.as_deref(), Some("/c.jpg"));
    assert!(items[1].title.is_none());
    assert!(items[1].link.is_none());
    assert!(items[1].identifier.is_none());
    assert!(items[1].cover_url.is_none());
}

#[test]
fn titles_from_plain_items() {
    let items = vec![
        plain(Some("Foo"), None, None, None),
        plain(None, None, None, None),
        plain(Some(""), None, None, None),
        plain(Some("Untitled"), None, None, None),
        plain(Some("Bar"), None, None, None),
    ];
    assert_eq!(titles_from_items(&items, 10), strings(&["Foo", "Bar"]));
    assert_eq!(titles_from_items(&items, 1), strings(&["Foo"]));
    assert_eq!(titles_from_items(&items, 0), Vec::<String>::new());
}

#[test]
fn entries_from_plain_items() {
    let items = vec![
        plain(Some("Foo"), Some("/series/1"), Some("1"), Some("c1")),
        plain(Some("Bar"), Some(""), Some("2"), Some("c2")),
        plain(Some("Baz"), Some("/series/3"), None, Some("c3")),
        plain(Some("Qux"), Some("/series/4"), Some("4"), None),
        plain(Some(""), Some("/series/5"), Some("5"), None),
    ];
    let missing = strings(&["Foo", "Bar", "Baz", "Qux", ""]);
    let entries = entries_from_items(&items, &missing, 10, "src");
    assert_eq!(entries.len(), 2);
    assert_eq!(entries[0].title, "Foo");
    assert_eq!(entries[0].identifier, "1");
    assert_eq!(entries[0].cover_url, "c1");
    assert_eq!(entries[0].source, "src");
    assert_eq!(entries[1].title, "Qux");
    assert_eq!(entries[1].cover_url, "");
    let entries = entries_from_items(&items, &strings(&["Qux"]), 10, "src");
    assert_eq!(entries.len(), 1);
    assert_eq!(entries[0].identifier, "4");
}
