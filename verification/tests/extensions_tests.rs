use manga_core::extensions::{
    Capabilities, Extension, ExtensionManager, ExtensionMetadata, Language, Setting, REQUIRED_PATHS,
};
use serde_json::Value;

fn metadata(language: &str, search: bool, settings: Vec<Setting>) -> ExtensionMetadata {
    ExtensionMetadata {
        name: "Name".to_string(),
        version: "1.0".to_string(),
        description: String::new(),
        author: String::new(),
        homepage_url: String::new(),
        icon_url: String::new(),
        language: Language {
            key: language.to_string(),
            name: language.to_string(),
            flag_code: String::new(),
            iso639_1: String::new(),
        },
        intents: vec![],
        content_rating: "safe".to_string(),
        capabilities: Capabilities {
            search,
            home_sections: true,
            manga_details: false,
            chapter_reading: false,
            manga_tracking: true,
        },
        settings,
    }
}

fn setting(key: &str, default: Value) -> Setting {
    Setting {
        key: key.to_string(),
        name: key.to_string(),
        description: String::new(),
        setting_type: "text".to_string(),
        default,
    }
}

fn manager() -> ExtensionManager {
    let mut m = ExtensionManager::new();
    m.add_extension("One".into(), "one".into(), "1".into(), "r1".into(), Some(metadata("en", true, vec![]))).unwrap();
    m.add_extension("Two".into(), "two".into(), "1".into(), "r2".into(), None).unwrap();
    m.add_extension("Three".into(), "three".into(), "1".into(), "r3".into(), Some(metadata("Multi", false, vec![]))).unwrap();
    m
}

#[test]
fn an_extension_is_added_once() {
    let mut m = manager();
    assert_eq!(m.list_extensions().len(), 3);
    assert_eq!(
        m.add_extension("Again".into(), "two".into(), "2".into(), "r".into(), None).unwrap_err(),
        "Extension 'two' already exists"
    );
    assert_eq!(m.extensions.len(), 3);
    assert!(m.extension_exists("two"));
    assert!(!m.extension_exists("four"));
    assert_eq!(m.get_extension("three").unwrap().name, "Three");
    assert!(m.get_extension("four").is_none());
}

#[test]
fn an_extension_is_removed() {
    let mut m = manager();
    m.remove_extension("two").unwrap();
    let slugs: Vec<&str> = m.extensions.iter().map(|e| e.slug.as_str()).collect();
    assert_eq!(slugs, vec!["one", "three"]);
    assert_eq!(m.remove_extension("two").unwrap_err(), "Extension 'two' not found");
    assert_eq!(m.extensions.len(), 2);
}

#[test]
fn an_extension_is_updated() {
    let mut m = manager();
    m.update_extension("two", Some("2".into()), None, Some(metadata("fr", true, vec![]))).unwrap();
    let two = m.get_extension("two").unwrap();
    assert_eq!(two.version, "2");
    assert_eq!(two.repository, "r2");
    assert_eq!(two.metadata.as_ref().unwrap().language.key, "fr");
    m.update_extension("two", None, Some("elsewhere".into()), None).unwrap();
    let two = m.get_extension("two").unwrap();
    assert_eq!(two.version, "2");
    assert_eq!(two.repository, "elsewhere");
    assert!(two.metadata.is_none());
    assert_eq!(
        m.update_extension("four", None, None, None).unwrap_err(),
        "Extension 'four' not found"
    );
    m.refresh_extension_metadata("one", None).unwrap();
    assert!(m.get_extension("one").unwrap().metadata.is_none());
    assert_eq!(m.get_extension("one").unwrap().repository, "r1");
    assert_eq!(
        m.refresh_extension_metadata("four", None).unwrap_err(),
        "Extension 'four' not found"
    );
}

#[test]
fn every_extension_is_refreshed_in_order() {
    let mut m = manager();
    m.refresh_all_metadata(vec![None, Some(metadata("de", false, vec![]))]);
    assert!(m.extensions[0].metadata.is_none());
    assert_eq!(m.extensions[1].metadata.as_ref().unwrap().language.key, "de");
    assert!(m.extensions[2].metadata.is_none());
    assert_eq!(m.extensions[2].slug, "three");
    m.refresh_all_metadata(vec![
        Some(metadata("a", false, vec![])),
        None,
        Some(metadata("c", false, vec![])),
        Some(metadata("extra", false, vec![])),
    ]);
    assert_eq!(m.extensions.len(), 3);
    assert_eq!(m.extensions[0].metadata.as_ref().unwrap().language.key, "a");
    assert!(m.extensions[1].metadata.is_none());
    assert_eq!(m.extensions[2].metadata.as_ref().unwrap().language.key, "c");
}

#[test]
fn extensions_are_found_by_what_they_can_do() {
    let m = manager();
    let found = m.get_extensions_by_capability("search");
    assert_eq!(found.len(), 1);
    assert_eq!(found[0].slug, "one");
    let found = m.get_extensions_by_capability("home_sections");
    let slugs: Vec<&str> = found.iter().map(|e| e.slug.as_str()).collect();
    assert_eq!(slugs, vec!["one", "three"]);
    assert!(m.get_extensions_by_capability("manga_details").is_empty());
    assert!(m.get_extensions_by_capability("flying").is_empty());
    assert!(m.extensions[0].has_capability("manga_tracking"));
    assert!(!m.extensions[0].has_capability("chapter_reading"));
    assert!(!m.extensions[1].has_capability("search"));
    assert!(m.extensions[0].metadata.as_ref().unwrap().capabilities.has("search"));
}

#[test]
fn extensions_are_found_by_language() {
    let m = manager();
    let found = m.get_extensions_by_language("en");
    let slugs: Vec<&str> = found.iter().map(|e| e.slug.as_str()).collect();
    assert_eq!(slugs, vec!["one", "three"]);
    let found = m.get_extensions_by_language("fr");
    assert_eq!(found.len(), 1);
    assert_eq!(found[0].slug, "three");
    assert!(m.extensions[2].supports_language("anything"));
    assert!(!m.extensions[1].supports_language("en"));
}

#[test]
fn a_setting_is_found_by_its_key() {
    let mut extension = Extension::new("N".into(), "n".into(), "1".into(), "r".into());
    assert!(extension.metadata.is_none());
    assert!(extension.get_setting("a").is_none());
    extension.metadata = Some(metadata(
        "en",
        false,
        vec![setting("a", Value::from(1)), setting("b", Value::from("x")), setting("a", Value::Null)],
    ));
    assert_eq!(extension.get_setting("a").unwrap().default, Value::from(1));
    assert_eq!(extension.get_setting("b").unwrap().default, Value::from("x"));
    assert!(extension.get_setting("c").is_none());
}

#[test]
fn the_directory_of_an_extension_must_be_complete() {
    let m = ExtensionManager::new();
    assert_eq!(REQUIRED_PATHS, ["src", "Cargo.toml", "metadata.json"]);
    assert!(m.validate_extension_structure(true, &[true, true, true]));
    assert!(!m.validate_extension_structure(true, &[true, false, true]));
    assert!(!m.validate_extension_structure(false, &[true, true, true]));
    assert!(m.validate_extension_structure(true, &[]));
}
