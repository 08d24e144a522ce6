use manga_core::parser::{construct_url_from_id, extract_id_from_url};
use manga_core::text::{comes_first_or_same, contains, same_text, split_trimmed, trim};
use manga_core::utils::slugify;

#[test]
fn trim_removes_whitespace_at_both_ends() {
    assert_eq!(trim("  Foo Bar \n"), "Foo Bar");
    assert_eq!(trim(""), "");
    assert_eq!(trim(" \t "), "");
}

#[test]
fn contains_finds_a_substring() {
    assert!(contains("the authors", "author"));
    assert!(!contains("artist", "author"));
    assert!(contains("abc", ""));
    assert!(!contains("ab", "abc"));
}

#[test]
fn split_trimmed_cuts_and_trims() {
    assert_eq!(split_trimmed("Alice / Bob", '/'), vec!["Alice", "Bob"]);
    assert_eq!(split_trimmed("", ','), vec![""]);
    assert_eq!(split_trimmed("a,,b,", ','), vec!["a", "", "b", ""]);
}

#[test]
fn slugify_lowers_and_hyphenates() {
    assert_eq!(slugify("All Titles"), "all-titles");
    assert_eq!(slugify("Sci-Fi & Fantasy!"), "sci-fi--fantasy");
    assert_eq!(slugify(""), "");
}

#[test]
fn series_url_round_trip() {
    let url = construct_url_from_id("12345");
    assert_eq!(url, "https://battwo.com/series/12345");
    assert_eq!(extract_id_from_url(&url), Some("12345".to_string()));
    assert_eq!(extract_id_from_url("/series/77/some-title"), Some("77".to_string()));
    assert_eq!(extract_id_from_url("/title/77"), None);
}

#[test]
fn texts_are_ordered_by_their_first_difference() {
    assert!(comes_first_or_same("", ""));
    assert!(comes_first_or_same("", "a"));
    assert!(!comes_first_or_same("a", ""));
    assert!(comes_first_or_same("abc", "abd"));
    assert!(!comes_first_or_same("abd", "abc"));
    assert!(comes_first_or_same("ab", "abc"));
    assert!(!comes_first_or_same("abc", "ab"));
    assert!(comes_first_or_same("Zebra", "apple"));
    assert!(comes_first_or_same("same", "same"));
    assert!(same_text("same", "same"));
    assert!(!same_text("same", "Same"));
    for (a, b) in [("a", "b"), ("é", "z"), ("zz", "é"), ("", "x")] {
        assert_eq!(comes_first_or_same(a, b), a <= b);
        assert_eq!(comes_first_or_same(b, a), b <= a);
    }
}

#[test]
fn whitespace_of_every_kind_is_trimmed() {
    assert_eq!(trim("\u{a0}\u{2003}x y\u{3000}\r\n"), "x y");
    assert_eq!(trim("x"), "x");
}

#[test]
fn a_slug_keeps_ascii_only() {
    assert_eq!(slugify("Über Cool 2"), "ber-cool-2");
    assert_eq!(slugify("A  B"), "a--b");
    assert_eq!(manga_core::utils::slug_from_lowercase("Keep-Case 1"), "Keep-Case-1");
}
