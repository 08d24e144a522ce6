use std::sync::Arc;

use manga_core::cache::{TimedCache, DEFAULT_CAPACITY, DEFAULT_TIME_TO_LIVE};
use manga_core::structs::MangaEntry;

fn entry(title: &str) -> Arc<MangaEntry> {
    Arc::new(MangaEntry {
        source: "s".to_string(),
        identifier: title.to_lowercase(),
        title: title.to_string(),
        cover_url: String::new(),
    })
}

#[test]
fn a_stored_value_is_read_until_it_expires() {
    let mut cache: TimedCache<MangaEntry> = TimedCache::new(4, 10);
    let a = entry("A");
    cache.insert("A".to_string(), Arc::clone(&a), 100);
    assert!(Arc::ptr_eq(&cache.get("A", 100).unwrap(), &a));
    assert!(cache.get("A", 109).is_some());
    assert!(cache.get("A", 110).is_none());
    assert!(cache.get("A", 50).is_some());
    assert!(cache.get("B", 100).is_none());
}

#[test]
fn storing_under_a_key_replaces_what_was_there() {
    let mut cache: TimedCache<MangaEntry> = TimedCache::new(4, 10);
    cache.insert("A".to_string(), entry("First"), 0);
    cache.insert("A".to_string(), entry("Second"), 1);
    assert_eq!(cache.len(), 1);
    assert_eq!(cache.get("A", 1).unwrap().title, "Second");
}

#[test]
fn a_full_cache_drops_its_oldest_entry() {
    let mut cache: TimedCache<MangaEntry> = TimedCache::new(2, 100);
    cache.insert("A".to_string(), entry("A"), 0);
    cache.insert("B".to_string(), entry("B"), 1);
    cache.insert("C".to_string(), entry("C"), 2);
    assert_eq!(cache.len(), 2);
    assert!(cache.get("A", 2).is_none());
    assert!(cache.get("B", 2).is_some());
    assert!(cache.get("C", 2).is_some());
}

#[test]
fn expired_entries_make_room() {
    let mut cache: TimedCache<MangaEntry> = TimedCache::new(2, 10);
    cache.insert("A".to_string(), entry("A"), 0);
    cache.insert("B".to_string(), entry("B"), 5);
    cache.insert("C".to_string(), entry("C"), 12);
    assert_eq!(cache.len(), 2);
    assert!(cache.get("B", 12).is_some());
    assert!(cache.get("C", 12).is_some());
}

#[test]
fn a_cache_without_capacity_stores_nothing() {
    let mut cache: TimedCache<MangaEntry> = TimedCache::new(0, 10);
    cache.insert("A".to_string(), entry("A"), 0);
    assert_eq!(cache.len(), 0);
    assert!(cache.get("A", 0).is_none());
}

#[test]
fn clearing_drops_everything() {
    let mut cache: TimedCache<MangaEntry> = TimedCache::with_defaults();
    assert_eq!(cache.capacity(), DEFAULT_CAPACITY);
    assert_eq!(cache.capacity(), 1000);
    assert_eq!(cache.time_to_live(), DEFAULT_TIME_TO_LIVE);
    assert_eq!(cache.time_to_live(), 3600);
    cache.insert("A".to_string(), entry("A"), 0);
    cache.clear();
    assert_eq!(cache.len(), 0);
    assert!(cache.get("A", 0).is_none());
}

#[test]
fn a_time_to_live_that_overflows_never_expires() {
    let mut cache: TimedCache<MangaEntry> = TimedCache::new(2, u64::MAX);
    cache.insert("A".to_string(), entry("A"), 5);
    assert!(cache.get("A", u64::MAX).is_some());
}
