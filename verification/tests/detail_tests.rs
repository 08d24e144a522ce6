use manga_core::detail::{
    classify, details_from_page, extract_details, extract_series_details, read_detail_page,
    series_selectors, AttributeKind, ChapterItem, DetailAttribute, DetailPage,
};
use manga_core::error::ErrorKind;

fn series_page() -> String {
    "<html><body>\
     <h3 class=\"item-title\"> A Tale </h3>\
     <div class=\"attr-cover\"><img src=\"/covers/9.jpg\"></div>\
     <div class=\"limit-html\">  Once upon a time. </div>\
     <div class=\"attr-item\"><b>Genres:</b><span> Action , Drama,Slice of Life </span></div>\
     <div class=\"attr-item\"><b>Authors:</b><span>Old Name</span></div>\
     <div class=\"attr-item\"><b> ARTISTS: </b><span>Ann / Bob</span></div>\
     <div class=\"attr-item\"><b>Authors:</b><span>Cid/ Dee </span></div>\
     <div class=\"attr-item\"><b>Status:</b><span>Ongoing</span></div>\
     <div class=\"main\">\
       <div class=\"item\"><a class=\"chapt\" href=\"/chapter/2\"><b> Chapter 2 </b></a><i class=\"ps-3\"> 3 days ago </i></div>\
       <div class=\"item\"><a class=\"chapt\" href=\"/chapter/1\"><b>Chapter 1</b></a></div>\
       <div class=\"item\"><span>bare</span></div>\
     </div>\
     </body></html>"
        .to_string()
}

#[test]
fn a_series_page_becomes_a_record() {
    let manga = extract_series_details(&series_page(), "9").unwrap();
    assert_eq!(manga.identifier, "9");
    assert_eq!(manga.title, "A Tale");
    assert_eq!(manga.cover_url, "/covers/9.jpg");
    assert_eq!(manga.description, "Once upon a time.");
    assert_eq!(manga.genres, vec!["Action", "Drama", "Slice of Life"]);
    assert_eq!(manga.artists, vec!["Ann", "Bob"]);
    assert_eq!(manga.authors, vec!["Cid", "Dee"]);
    assert_eq!(manga.chapters.len(), 3);
    assert_eq!(manga.chapters[0].title, "Chapter 2");
    assert_eq!(manga.chapters[0].url, "/chapter/2");
    assert_eq!(manga.chapters[0].released_since, "3 days ago");
    assert_eq!(manga.chapters[1].title, "Chapter 1");
    assert_eq!(manga.chapters[1].released_since, "Unknown");
    assert_eq!(manga.chapters[2].title, "Untitled");
    assert_eq!(manga.chapters[2].url, "");
}

#[test]
fn the_identifier_is_the_number_in_the_series_address() {
    let manga = extract_series_details(&series_page(), "42/a-tale").unwrap();
    assert_eq!(manga.identifier, "42");
}

#[test]
fn an_identifier_that_names_no_series_is_a_parsing_failure() {
    let failure = extract_series_details(&series_page(), "a-tale").unwrap_err();
    assert_eq!(failure.kind(), ErrorKind::Parsing);
    assert_eq!(failure.detail(), "Failed to extract series ID from URL");
}

#[test]
fn a_page_without_a_chapter_list_is_a_parsing_failure() {
    let page = "<html><body><h3 class=\"item-title\">T</h3></body></html>";
    let failure = extract_series_details(page, "9").unwrap_err();
    assert_eq!(failure.kind(), ErrorKind::Parsing);
    assert_eq!(failure.detail(), "Could not find chapter list");
}

#[test]
fn a_bare_page_with_a_chapter_list_gets_the_placeholders() {
    let page = "<html><body><div class=\"main\"></div></body></html>";
    let manga = extract_series_details(page, "9").unwrap();
    assert_eq!(manga.title, "Untitled");
    assert_eq!(manga.description, "Untitled");
    assert_eq!(manga.cover_url, "");
    assert!(manga.authors.is_empty());
    assert!(manga.artists.is_empty());
    assert!(manga.genres.is_empty());
    assert!(manga.chapters.is_empty());
}

#[test]
fn an_invalid_detail_selector_is_a_parsing_failure() {
    let mut selectors = series_selectors();
    selectors.chapter_date = "i[".to_string();
    let failure = extract_details(&series_page(), &selectors, "9").unwrap_err();
    assert_eq!(failure.kind(), ErrorKind::Parsing);
    assert_eq!(failure.detail(), "Invalid selector: i[");
    assert!(read_detail_page(&series_page(), &selectors).is_err());
}

#[test]
fn the_series_page_is_read_as_it_stands() {
    let page = read_detail_page(&series_page(), &series_selectors()).unwrap();
    assert_eq!(page.title.as_deref(), Some("A Tale"));
    assert_eq!(page.attributes.len(), 5);
    assert_eq!(page.attributes[2].label.as_deref(), Some("artists:"));
    assert_eq!(page.attributes[2].content.as_deref(), Some("Ann / Bob"));
    assert_eq!(page.chapters.as_ref().map(Vec::len), Some(3));
}

fn row(label: Option<&str>, content: Option<&str>) -> DetailAttribute {
    DetailAttribute { label: label.map(str::to_string), content: content.map(str::to_string) }
}

#[test]
fn rows_are_told_apart_by_their_label() {
    assert_eq!(classify(&row(Some("authors:"), Some("x"))), Some(AttributeKind::Author));
    assert_eq!(classify(&row(Some("artist"), Some("x"))), Some(AttributeKind::Artist));
    assert_eq!(classify(&row(Some("genres"), Some("x"))), Some(AttributeKind::Genre));
    assert_eq!(classify(&row(Some("author and artist"), Some("x"))), Some(AttributeKind::Author));
    assert_eq!(classify(&row(Some("status"), Some("x"))), None);
    assert_eq!(classify(&row(Some("authors"), None)), None);
    assert_eq!(classify(&row(None, Some("x"))), None);
}

#[test]
fn a_record_from_a_plain_page() {
    let page = DetailPage {
        title: None,
        cover_url: Some("c".to_string()),
        description: Some("d".to_string()),
        attributes: vec![
            row(Some("genre"), Some("a,b")),
            row(Some("genre"), Some("c")),
            row(Some("author"), Some("")),
        ],
        chapters: Some(vec![ChapterItem {
            title: Some("One".to_string()),
            url: None,
            released_since: None,
        }]),
    };
    let manga = details_from_page(&page, "5".to_string()).unwrap();
    assert_eq!(manga.identifier, "5");
    assert_eq!(manga.title, "Untitled");
    assert_eq!(manga.genres, vec!["c"]);
    assert_eq!(manga.authors, vec![""]);
    assert!(manga.artists.is_empty());
    assert_eq!(manga.chapters[0].title, "One");
    assert_eq!(manga.chapters[0].url, "");
    assert_eq!(manga.chapters[0].released_since, "Unknown");
    let bare = DetailPage { title: None, cover_url: None, description: None, attributes: vec![], chapters: None };
    assert!(details_from_page(&bare, "5".to_string()).is_err());
}
