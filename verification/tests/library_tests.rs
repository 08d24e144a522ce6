use std::sync::Arc;

use manga_core::library::{category_file_name, check_removal_request, Category, Library};
use manga_core::structs::MangaEntry;

fn entry(title: &str, identifier: &str, source: &str) -> Arc<MangaEntry> {
    Arc::new(MangaEntry {
        source: source.to_string(),
        identifier: identifier.to_string(),
        title: title.to_string(),
        cover_url: String::new(),
    })
}

fn titles(category: &Category) -> Vec<&str> {
    category.entries.iter().map(|e| e.title.as_str()).collect()
}

fn shelf() -> (Library, Vec<Category>) {
    let (mut library, all) = Library::create_default();
    let reading = library.create_category("Now Reading").unwrap();
    (library, vec![all, reading])
}

#[test]
fn a_new_library_has_the_category_of_every_entry() {
    let empty = Library::new();
    assert!(empty.categories.is_empty());
    let (library, all) = Library::create_default();
    assert_eq!(library.categories.len(), 1);
    assert_eq!(library.categories[0].title, "All Titles");
    assert_eq!(library.categories[0].slug, "all-titles");
    assert_eq!(library.categories[0].sort_by, "title");
    assert_eq!(library.categories[0].sort_order, "asc");
    assert_eq!(all.title, "All Titles");
    assert_eq!(all.slug, "all-titles");
    assert!(all.entries.is_empty());
}

#[test]
fn a_category_is_created_once() {
    let mut library = Library::new();
    let made = library.create_category("Sci-Fi & Fantasy").unwrap();
    assert_eq!(made.title, "Sci-Fi & Fantasy");
    assert_eq!(made.slug, "sci-fi--fantasy");
    assert_eq!(made.sort_by, "title");
    assert_eq!(made.sort_order, "asc");
    assert_eq!(library.categories.len(), 1);
    assert_eq!(library.categories[0].slug, "sci-fi--fantasy");
    assert_eq!(
        library.create_category("Sci-Fi & Fantasy").unwrap_err(),
        "Category 'Sci-Fi & Fantasy' already exists"
    );
    assert_eq!(library.categories.len(), 1);
    assert!(library.load_category_by_slug("sci-fi--fantasy").is_ok());
    assert_eq!(
        library.load_category_by_slug("other").unwrap_err(),
        "Category with slug 'other' not found"
    );
}

#[test]
fn an_added_entry_also_goes_to_the_category_of_every_entry() {
    let (library, mut categories) = shelf();
    library.add_manga(&mut categories, "Now Reading", entry("Zeta", "1", "s")).unwrap();
    library.add_manga(&mut categories, "Now Reading", entry("Alpha", "2", "s")).unwrap();
    library.add_manga(&mut categories, "All Titles", entry("Mid", "3", "s")).unwrap();
    library.add_manga(&mut categories, "Now Reading", entry("Beta", "4", "s")).unwrap();
    assert_eq!(titles(&categories[1]), vec!["Zeta", "Alpha", "Beta"]);
    assert_eq!(titles(&categories[0]), vec!["Alpha", "Beta", "Mid", "Zeta"]);
}

#[test]
fn an_entry_is_not_added_twice() {
    let (library, mut categories) = shelf();
    library.add_manga(&mut categories, "Now Reading", entry("A", "1", "s")).unwrap();
    assert_eq!(
        library.add_manga(&mut categories, "All Titles", entry("Again", "1", "s")).unwrap_err(),
        "Manga already exists in library"
    );
    assert!(library.add_manga(&mut categories, "Now Reading", entry("A", "1", "t")).is_ok());
    assert!(library.manga_exists(&categories, &entry("x", "1", "s")).unwrap());
    assert!(!library.manga_exists(&categories, &entry("x", "9", "s")).unwrap());
}

#[test]
fn adding_needs_the_category_and_the_category_of_every_entry() {
    let (library, mut categories) = shelf();
    assert_eq!(
        library.add_manga(&mut categories, "Nowhere", entry("A", "1", "s")).unwrap_err(),
        "Category 'Nowhere' does not exist"
    );
    let mut lonely = Library::new();
    let only = lonely.create_category("Only").unwrap();
    let mut opened = vec![only];
    assert_eq!(
        lonely.add_manga(&mut opened, "Only", entry("A", "1", "s")).unwrap_err(),
        "Default category 'All Titles' does not exist"
    );
    assert_eq!(titles(&opened[0]), vec!["A"]);
    let mut unopened: Vec<Category> = Vec::new();
    assert_eq!(
        lonely.add_manga(&mut unopened, "Only", entry("B", "2", "s")).unwrap_err(),
        "Category file for 'only' does not exist"
    );
}

#[test]
fn a_removed_entry_leaves_both_categories() {
    let (library, mut categories) = shelf();
    library.add_manga(&mut categories, "Now Reading", entry("A", "1", "s")).unwrap();
    library.add_manga(&mut categories, "Now Reading", entry("B", "2", "s")).unwrap();
    library.remove_manga(&mut categories, "Now Reading", "1", "s").unwrap();
    assert_eq!(titles(&categories[1]), vec!["B"]);
    assert_eq!(titles(&categories[0]), vec!["B"]);
    assert_eq!(
        library.remove_manga(&mut categories, "Now Reading", "1", "s").unwrap_err(),
        "Manga not found in category 'Now Reading'"
    );
    assert_eq!(
        library.remove_manga(&mut categories, "Gone", "2", "s").unwrap_err(),
        "Category 'Gone' does not exist"
    );
    library.remove_manga(&mut categories, "All Titles", "2", "s").unwrap();
    assert!(categories[0].entries.is_empty());
    assert_eq!(titles(&categories[1]), vec!["B"]);
}

#[test]
fn the_category_of_an_entry_is_found() {
    let (library, mut categories) = shelf();
    library.add_manga(&mut categories, "Now Reading", entry("A", "1", "s")).unwrap();
    assert_eq!(
        library.find_category_for_manga(&categories, &entry("A", "1", "s")).unwrap(),
        "All Titles"
    );
    assert_eq!(
        library.find_category_for_manga(&categories, &entry("A", "7", "s")).unwrap_err(),
        "Manga entry not found in any category."
    );
    assert_eq!(library.locate(&categories, "1", "s").unwrap().as_deref(), Some("All Titles"));
    assert_eq!(library.locate(&categories, "1", "t").unwrap(), None);
    let none: Vec<Category> = Vec::new();
    assert_eq!(
        library.find_category_for_manga(&none, &entry("A", "1", "s")).unwrap_err(),
        "Category file for 'all-titles' does not exist"
    );
}

#[test]
fn a_category_sorts_by_title_and_keeps_ties_in_order() {
    let mut category = Category::new("C", "c");
    category.push(entry("b", "1", "s"));
    category.push(entry("B", "2", "s"));
    category.push(entry("a", "3", "s"));
    category.push(entry("b", "4", "s"));
    category.push(entry("", "5", "s"));
    category.push(entry("ab", "6", "s"));
    category.sort_by_title();
    let ids: Vec<&str> = category.entries.iter().map(|e| e.identifier.as_str()).collect();
    assert_eq!(ids, vec!["5", "2", "3", "6", "1", "4"]);
    let mut expected: Vec<String> = category.entries.iter().map(|e| e.title.clone()).collect();
    expected.sort();
    assert_eq!(titles(&category), expected.iter().map(String::as_str).collect::<Vec<_>>());
    assert!(category.contains("6", "s"));
    assert!(!category.contains("6", "t"));
    category.remove("1", "s");
    assert_eq!(category.entries.len(), 5);
}

#[test]
fn a_removal_must_say_what_to_remove() {
    assert!(check_removal_request("Now Reading", "1", "s").is_ok());
    assert_eq!(
        check_removal_request(" ", "1", "s").unwrap_err(),
        "Category name, manga ID, and source are required"
    );
    assert!(check_removal_request("c", "", "s").is_err());
    assert!(check_removal_request("c", "1", "\t\n").is_err());
    assert_eq!(category_file_name("all-titles"), "all-titles.json");
}
