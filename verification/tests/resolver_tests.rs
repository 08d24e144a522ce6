use std::sync::Arc;

use manga_core::cache::TimedCache;
use manga_core::error::ErrorKind;
use manga_core::handler::{
    get_batoto_manga, get_batoto_page, get_explore_page, load_explore_pages, load_manga_source,
    select_source,
};
use manga_core::resolver::{
    cache_new_entries, get_cached_data, order_entries_by_titles, resolve_detail, resolve_listing,
    EntryCache, MangaCache,
};
use manga_core::detail::series_selectors;
use manga_core::source::{
    latest_listing, popular_listing, series_path, BatotoSource, SourceMethods,
};
use manga_core::structs::MangaEntry;

fn item(title: &str, href: &str, cover: &str) -> String {
    format!(
        "<div class=\"col item\"><a class=\"item-cover\" href=\"{href}\"><img src=\"{cover}\"></a>\
         <a class=\"item-title\" href=\"{href}\">{title}</a></div>"
    )
}

fn front_page(popular: &[String], latest: &[String]) -> String {
    format!(
        "<html><body><div class=\"home-popular\">{}</div><div class=\"series-list\">{}</div></body></html>",
        popular.concat(),
        latest.concat()
    )
}

fn entry(title: &str, identifier: &str) -> MangaEntry {
    MangaEntry {
        source: "batoto".to_string(),
        identifier: identifier.to_string(),
        title: title.to_string(),
        cover_url: format!("/covers/{identifier}.jpg"),
    }
}

fn strings(values: &[&str]) -> Vec<String> {
    values.iter().map(|v| v.to_string()).collect()
}

fn titles_of(entries: &[Arc<MangaEntry>]) -> Vec<String> {
    entries.iter().map(|e| e.title.clone()).collect()
}

#[test]
fn a_cached_entry_is_reused_and_only_the_missing_one_is_extracted() {
    let mut cache: EntryCache = TimedCache::new(10, 100);
    let foo = Arc::new(entry("Foo", "stale-1"));
    cache.insert("Foo".to_string(), Arc::clone(&foo), 0);
    let page = front_page(
        &[item("Foo", "/series/1/foo", "a"), item("Bar", "/series/2/bar", "b")],
        &[],
    );
    let (cached, missing) = get_cached_data(&strings(&["Foo", "Bar"]), &cache, 1);
    assert_eq!(missing, strings(&["Bar"]));
    assert_eq!(cached.len(), 1);
    assert!(Arc::ptr_eq(&cached[0], &foo));

    let resolved = resolve_listing(&mut cache, &page, 10, 1, &popular_listing()).unwrap();
    assert_eq!(titles_of(&resolved), strings(&["Foo", "Bar"]));
    assert!(Arc::ptr_eq(&resolved[0], &foo));
    assert_eq!(resolved[0].identifier, "stale-1");
    assert_eq!(resolved[1].identifier, "2");
    let bar = cache.get("Bar", 1).unwrap();
    assert!(Arc::ptr_eq(&bar, &resolved[1]));
    assert_eq!(cache.len(), 2);
}

#[test]
fn the_result_follows_the_order_of_the_page() {
    let page = front_page(
        &[
            item("A", "/series/1", "a"),
            item("B", "/series/2", "b"),
            item("C", "/series/3", "c"),
        ],
        &[],
    );
    let mut first: EntryCache = TimedCache::new(10, 100);
    first.insert("C".to_string(), Arc::new(entry("C", "30")), 0);
    first.insert("A".to_string(), Arc::new(entry("A", "10")), 0);
    let mut second: EntryCache = TimedCache::new(10, 100);
    second.insert("A".to_string(), Arc::new(entry("A", "10")), 0);
    second.insert("C".to_string(), Arc::new(entry("C", "30")), 0);
    let one = resolve_listing(&mut first, &page, 10, 5, &popular_listing()).unwrap();
    let two = resolve_listing(&mut second, &page, 10, 5, &popular_listing()).unwrap();
    assert_eq!(titles_of(&one), strings(&["A", "B", "C"]));
    assert_eq!(titles_of(&two), strings(&["A", "B", "C"]));
    let ids: Vec<&str> = one.iter().map(|e| e.identifier.as_str()).collect();
    assert_eq!(ids, vec!["10", "2", "30"]);
}

#[test]
fn a_limit_of_zero_resolves_to_nothing_and_stores_nothing() {
    let mut cache: EntryCache = TimedCache::new(10, 100);
    let page = front_page(&[item("A", "/series/1", "a")], &[]);
    let resolved = resolve_listing(&mut cache, &page, 0, 1, &popular_listing()).unwrap();
    assert!(resolved.is_empty());
    assert_eq!(cache.len(), 0);
}

#[test]
fn a_missing_base_container_fails_and_leaves_the_cache_alone() {
    let mut cache: EntryCache = TimedCache::new(10, 100);
    cache.insert("Foo".to_string(), Arc::new(entry("Foo", "1")), 0);
    let page = "<html><body><p>maintenance</p></body></html>";
    let failure = resolve_listing(&mut cache, page, 10, 1, &popular_listing()).unwrap_err();
    assert_eq!(failure.kind(), ErrorKind::Parsing);
    assert_eq!(failure.detail(), "Could not find base container");
    assert_eq!(cache.len(), 1);
    assert!(cache.get("Foo", 1).is_some());
}

#[test]
fn resolving_twice_gives_equal_lists() {
    let mut cache: EntryCache = TimedCache::new(10, 100);
    let page = front_page(
        &[
            item("A", "/series/1", "a"),
            "<div class=\"col item\"><a class=\"item-title\">Broken</a></div>".to_string(),
            item("B", "/series/2", "b"),
        ],
        &[],
    );
    let first = resolve_listing(&mut cache, &page, 10, 7, &popular_listing()).unwrap();
    let again = resolve_listing(&mut cache, &page, 10, 7, &popular_listing()).unwrap();
    assert_eq!(titles_of(&first), strings(&["A", "B"]));
    assert_eq!(first.len(), again.len());
    for (one, two) in first.iter().zip(again.iter()) {
        assert_eq!(one.title, two.title);
        assert_eq!(one.identifier, two.identifier);
        assert_eq!(one.cover_url, two.cover_url);
        assert_eq!(one.source, two.source);
        assert!(Arc::ptr_eq(one, two));
    }
}

#[test]
fn an_item_that_cannot_be_extracted_is_dropped_from_the_result() {
    let mut cache: EntryCache = TimedCache::new(10, 100);
    let page = front_page(
        &[item("A", "/series/1", "a"), item("NoId", "/elsewhere", "b")],
        &[],
    );
    let resolved = resolve_listing(&mut cache, &page, 10, 1, &popular_listing()).unwrap();
    assert_eq!(titles_of(&resolved), strings(&["A"]));
    assert!(cache.get("NoId", 1).is_none());
}

#[test]
fn a_title_shared_by_two_sections_shares_one_record() {
    let mut cache: EntryCache = TimedCache::new(10, 100);
    let page = front_page(
        &[item("Both", "/series/1", "a"), item("Pop", "/series/2", "b")],
        &[item("New", "/series/3", "c"), item("Both", "/series/1", "a")],
    );
    let source = BatotoSource::new();
    let popular = source.get_popular_manga(&mut cache, &page, 10, 1).unwrap();
    let latest = source.get_latest_manga(&mut cache, &page, 10, 1).unwrap();
    assert_eq!(titles_of(&popular), strings(&["Both", "Pop"]));
    assert_eq!(titles_of(&latest), strings(&["New", "Both"]));
    assert!(Arc::ptr_eq(&popular[0], &latest[1]));
    let direct = source
        .get_homepage(&mut cache, &page, 1, 1, &latest_listing())
        .unwrap();
    assert_eq!(titles_of(&direct), strings(&["New"]));
}

#[test]
fn the_pool_is_ordered_by_the_titles_and_the_last_entry_wins() {
    let pool = vec![
        Arc::new(entry("B", "1")),
        Arc::new(entry("A", "2")),
        Arc::new(entry("B", "3")),
    ];
    let ordered = order_entries_by_titles(&strings(&["A", "X", "B", "A"]), &pool).unwrap();
    let ids: Vec<&str> = ordered.iter().map(|e| e.identifier.as_str()).collect();
    assert_eq!(ids, vec!["2", "3"]);
    assert!(Arc::ptr_eq(&ordered[1], &pool[2]));
    let via_source = BatotoSource::new()
        .order_entries_by_titles(&strings(&["B"]), &pool)
        .unwrap();
    assert_eq!(via_source[0].identifier, "3");
}

#[test]
fn new_entries_are_stored_under_their_titles() {
    let mut cache: EntryCache = TimedCache::new(10, 100);
    let mut pool = vec![Arc::new(entry("Old", "0"))];
    cache_new_entries(vec![entry("A", "1"), entry("B", "2")], &mut cache, &mut pool, 4);
    assert_eq!(pool.len(), 3);
    assert_eq!(pool[1].title, "A");
    assert_eq!(pool[2].title, "B");
    assert!(Arc::ptr_eq(&cache.get("A", 4).unwrap(), &pool[1]));
    assert!(cache.get("Old", 4).is_none());
}

#[test]
fn the_front_page_becomes_a_page_of_two_sections() {
    let mut cache: EntryCache = TimedCache::with_defaults();
    let page = front_page(
        &[item("Red", "/series/1", "a"), item("Blue", "/series/2", "b")],
        &[item("Green", "/series/3", "c")],
    );
    let built = get_batoto_page(&mut cache, 1, &page, 0).unwrap();
    assert_eq!(built.source, "batoto");
    assert_eq!(built.sections.len(), 2);
    assert_eq!(built.sections[0].title, "Popular Releases");
    assert_eq!(titles_of(&built.sections[0].entries), strings(&["Red"]));
    assert_eq!(built.sections[1].title, "Latest Releases");
    assert_eq!(titles_of(&built.sections[1].entries), strings(&["Green"]));

    let pages = load_explore_pages(&mut cache, "batoto", 10, &page, 0).unwrap();
    assert_eq!(pages.len(), 1);
    assert_eq!(titles_of(&pages[0].sections[0].entries), strings(&["Red", "Blue"]));

    let fixed = get_explore_page(&mut cache, &page, 0).unwrap();
    assert_eq!(fixed.sections.len(), 2);
    assert_eq!(get_explore_page(&mut cache, "<p></p>", 0).unwrap_err(), "Parsing error: Could not find base container");
}

#[test]
fn an_unknown_source_is_refused() {
    let mut entries: EntryCache = TimedCache::with_defaults();
    let mut records: MangaCache = TimedCache::with_defaults();
    let failure = load_explore_pages(&mut entries, "nowhere", 10, "<p></p>", 0).unwrap_err();
    assert_eq!(failure.kind(), ErrorKind::Unexpected);
    assert_eq!(failure.detail(), "Unsupported source");
    assert_eq!(failure.message(), "An unexpected error occurred: Unsupported source");
    let failure = load_manga_source(&mut records, "nowhere", "1", "<p></p>", 0).unwrap_err();
    assert_eq!(failure.kind(), ErrorKind::Unexpected);
    assert!(select_source("nowhere").is_err());
    assert!(select_source("batoto").is_ok());
}

fn series_page(title: &str) -> String {
    format!(
        "<h3 class=\"item-title\">{title}</h3><div class=\"main\">\
         <div class=\"item\"><a class=\"chapt\" href=\"/c/1\"><b>Ch 1</b></a><i class=\"ps-3\">today</i></div></div>"
    )
}

#[test]
fn a_series_is_read_once_and_then_comes_from_the_cache() {
    let mut cache: MangaCache = TimedCache::new(10, 100);
    let first = resolve_detail(&mut cache, &series_page("One"), "5", &series_selectors(), 0).unwrap();
    assert_eq!(first.title, "One");
    assert_eq!(first.identifier, "5");
    let again = resolve_detail(&mut cache, &series_page("Changed"), "5", &series_selectors(), 50).unwrap();
    assert!(Arc::ptr_eq(&first, &again));
    let later = resolve_detail(&mut cache, &series_page("Changed"), "5", &series_selectors(), 100).unwrap();
    assert_eq!(later.title, "Changed");
    assert_eq!(cache.len(), 1);
}

#[test]
fn a_failed_series_page_stores_nothing() {
    let mut cache: MangaCache = TimedCache::new(10, 100);
    let failure = get_batoto_manga(&mut cache, "5".to_string(), "<p></p>", 0).unwrap_err();
    assert_eq!(failure.kind(), ErrorKind::Parsing);
    assert_eq!(cache.len(), 0);
    let found = load_manga_source(&mut cache, "batoto", "5", &series_page("T"), 0).unwrap();
    assert_eq!(found.chapters.len(), 1);
    let via_source = BatotoSource::new()
        .get_manga_details(&mut cache, "<p></p>", "5", 1)
        .unwrap();
    assert!(Arc::ptr_eq(&found, &via_source));
}

#[test]
fn the_source_knows_its_addresses() {
    let source = BatotoSource::new();
    assert_eq!(source.request_url(None), "https://battwo.com/");
    assert_eq!(source.request_url(Some(series_path("12"))), "https://battwo.com/series/12");
    assert_eq!(source.source_client().timeout_secs, 30);
    assert_eq!(
        source.source_client().user_agent,
        "Mozilla/5.0 (Windows NT 10.0; Win64; x64) AppleWebKit/537.36"
    );
}

#[test]
fn the_fixed_page_is_loaded_by_the_name_of_its_source() {
    let mut cache: EntryCache = TimedCache::with_defaults();
    let page = front_page(&[item("Red", "/series/1", "a")], &[item("Green", "/series/3", "c")]);
    let pages = manga_core::pages::load_explore_pages(&mut cache, "batoto", &page, 0).unwrap();
    assert_eq!(pages.len(), 1);
    assert_eq!(pages[0].source, "batoto");
    assert_eq!(titles_of(&pages[0].sections[1].entries), strings(&["Green"]));
    assert_eq!(
        manga_core::pages::load_explore_pages(&mut cache, "nowhere", &page, 0).unwrap_err(),
        "Unsupported source: nowhere"
    );
    assert_eq!(
        manga_core::pages::load_explore_pages(&mut cache, "batoto", "<p></p>", 0).unwrap_err(),
        "Parsing error: Could not find base container"
    );
}

#[test]
fn a_title_that_the_page_lists_twice_comes_once() {
    let mut cache: EntryCache = TimedCache::new(10, 100);
    cache.insert("Twice".to_string(), Arc::new(entry("Twice", "held")), 0);
    let page = front_page(
        &[
            item("Twice", "/series/1", "a"),
            item("Once", "/series/2", "b"),
            item("Twice", "/series/3", "c"),
            item("Again", "/series/4", "d"),
            item("Again", "/series/5", "e"),
        ],
        &[],
    );
    let resolved = resolve_listing(&mut cache, &page, 10, 1, &popular_listing()).unwrap();
    assert_eq!(titles_of(&resolved), strings(&["Twice", "Once", "Again"]));
    let ids: Vec<&str> = resolved.iter().map(|e| e.identifier.as_str()).collect();
    assert_eq!(ids, vec!["held", "2", "5"]);
    let again = resolve_listing(&mut cache, &page, 10, 1, &popular_listing()).unwrap();
    assert_eq!(titles_of(&again), strings(&["Twice", "Once", "Again"]));
}

#[test]
fn repeated_titles_are_ordered_where_they_stand_first() {
    let pool = vec![Arc::new(entry("A", "1")), Arc::new(entry("B", "2"))];
    let ordered = order_entries_by_titles(&strings(&["B", "A", "B", "B", "A"]), &pool).unwrap();
    assert_eq!(titles_of(&ordered), strings(&["B", "A"]));
    let ordered = order_entries_by_titles(&strings(&["X", "A", "X", "A"]), &pool).unwrap();
    assert_eq!(titles_of(&ordered), strings(&["A"]));
    let ordered = order_entries_by_titles(&[], &pool).unwrap();
    assert!(ordered.is_empty());
}
