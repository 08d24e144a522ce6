use std::cell::RefCell;
use std::sync::Arc;

use manga_core::cache::TimedCache;
use manga_core::error::SourceError;
use manga_core::resolver::{resolve_listing, EntryCache, ListingExtractor};
use manga_core::structs::MangaEntry;

/// A source that lists fixed titles and remembers what it was asked to
/// extract.
struct Scripted {
    titles: Result<Vec<String>, String>,
    broken: Vec<String>,
    asked: RefCell<Vec<Vec<String>>>,
}

impl Scripted {
    fn listing(titles: &[&str]) -> Self {
        Scripted {
            titles: Ok(titles.iter().map(|t| t.to_string()).collect()),
            broken: Vec::new(),
            asked: RefCell::new(Vec::new()),
        }
    }
}

impl ListingExtractor for Scripted {
    fn extract_titles(&self, _html_content: &str, limit: usize) -> Result<Vec<String>, SourceError> {
        match &self.titles {
            Ok(titles) => Ok(titles.iter().take(limit).cloned().collect()),
            Err(detail) => Err(SourceError::Parsing(detail.clone())),
        }
    }

    fn extract_entries(
        &self,
        _html_content: &str,
        missing_titles: &[String],
        limit: usize,
    ) -> Result<Vec<MangaEntry>, SourceError> {
        self.asked.borrow_mut().push(missing_titles.to_vec());
        Ok(missing_titles
            .iter()
            .filter(|title| !self.broken.contains(title))
            .take(limit)
            .map(|title| MangaEntry {
                source: "scripted".to_string(),
                identifier: format!("fresh-{title}"),
                title: title.clone(),
                cover_url: String::new(),
            })
            .collect())
    }
}

fn cached(title: &str) -> Arc<MangaEntry> {
    Arc::new(MangaEntry {
        source: "scripted".to_string(),
        identifier: format!("cached-{title}"),
        title: title.to_string(),
        cover_url: String::new(),
    })
}

fn identifiers(entries: &[Arc<MangaEntry>]) -> Vec<String> {
    entries.iter().map(|e| e.identifier.clone()).collect()
}

#[test]
fn only_the_missing_title_is_handed_to_the_extraction() {
    let mut cache: EntryCache = TimedCache::new(10, 100);
    cache.insert("Foo".to_string(), cached("Foo"), 0);
    let source = Scripted::listing(&["Foo", "Bar"]);
    let resolved = resolve_listing(&mut cache, "", 10, 1, &source).unwrap();
    assert_eq!(*source.asked.borrow(), vec![vec!["Bar".to_string()]]);
    assert_eq!(identifiers(&resolved), vec!["cached-Foo", "fresh-Bar"]);
}

#[test]
fn hits_around_a_miss_keep_the_order_of_the_titles() {
    let mut cache: EntryCache = TimedCache::new(10, 100);
    cache.insert("C".to_string(), cached("C"), 0);
    cache.insert("A".to_string(), cached("A"), 0);
    let source = Scripted::listing(&["A", "B", "C"]);
    let resolved = resolve_listing(&mut cache, "", 10, 1, &source).unwrap();
    assert_eq!(identifiers(&resolved), vec!["cached-A", "fresh-B", "cached-C"]);
    assert_eq!(*source.asked.borrow(), vec![vec!["B".to_string()]]);
}

#[test]
fn nothing_is_extracted_when_nothing_is_wanted_or_missing() {
    let mut cache: EntryCache = TimedCache::new(10, 100);
    let source = Scripted::listing(&["A", "B"]);
    let resolved = resolve_listing(&mut cache, "", 0, 1, &source).unwrap();
    assert!(resolved.is_empty());
    assert!(source.asked.borrow().is_empty());
    assert_eq!(cache.len(), 0);

    cache.insert("A".to_string(), cached("A"), 0);
    cache.insert("B".to_string(), cached("B"), 0);
    let resolved = resolve_listing(&mut cache, "", 10, 1, &source).unwrap();
    assert_eq!(identifiers(&resolved), vec!["cached-A", "cached-B"]);
    assert!(source.asked.borrow().is_empty());
}

#[test]
fn a_failure_to_list_is_passed_on_and_nothing_is_stored() {
    let mut cache: EntryCache = TimedCache::new(10, 100);
    let source = Scripted {
        titles: Err("Could not find base container".to_string()),
        broken: Vec::new(),
        asked: RefCell::new(Vec::new()),
    };
    let failure = resolve_listing(&mut cache, "", 10, 1, &source).unwrap_err();
    assert_eq!(failure.message(), "Parsing error: Could not find base container");
    assert!(source.asked.borrow().is_empty());
    assert_eq!(cache.len(), 0);
}

#[test]
fn a_title_without_an_entry_is_left_out_and_asked_for_again() {
    let mut cache: EntryCache = TimedCache::new(10, 100);
    let mut source = Scripted::listing(&["A", "B", "C"]);
    source.broken = vec!["B".to_string()];
    let first = resolve_listing(&mut cache, "", 10, 1, &source).unwrap();
    let again = resolve_listing(&mut cache, "", 10, 1, &source).unwrap();
    assert_eq!(identifiers(&first), vec!["fresh-A", "fresh-C"]);
    assert_eq!(identifiers(&again), identifiers(&first));
    assert_eq!(source.asked.borrow().len(), 2);
    assert_eq!(source.asked.borrow()[1], vec!["B".to_string()]);
}

#[test]
fn an_expired_entry_is_extracted_anew() {
    let mut cache: EntryCache = TimedCache::new(10, 100);
    cache.insert("A".to_string(), cached("A"), 0);
    let source = Scripted::listing(&["A"]);
    let resolved = resolve_listing(&mut cache, "", 10, 100, &source).unwrap();
    assert_eq!(identifiers(&resolved), vec!["fresh-A"]);
    assert_eq!(cache.get("A", 100).unwrap().identifier, "fresh-A");
    assert_eq!(cache.len(), 1);
}

#[test]
fn a_title_listed_twice_and_cached_is_returned_once() {
    let mut cache: EntryCache = TimedCache::new(10, 100);
    cache.insert("Foo".to_string(), cached("Foo"), 0);
    let source = Scripted::listing(&["Foo", "Bar", "Foo", "Bar"]);
    let resolved = resolve_listing(&mut cache, "", 10, 1, &source).unwrap();
    assert_eq!(identifiers(&resolved), vec!["cached-Foo", "fresh-Bar"]);
    for (i, one) in resolved.iter().enumerate() {
        for other in &resolved[i + 1..] {
            assert_ne!(one.title, other.title);
        }
    }
}
