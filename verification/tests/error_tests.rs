use manga_core::error::{ErrorKind, SourceError};

#[test]
fn every_kind_of_failure_has_its_words() {
    let cases = vec![
        (SourceError::Network("timed out".to_string()), ErrorKind::Network, "Network error: timed out"),
        (SourceError::Parsing("no list".to_string()), ErrorKind::Parsing, "Parsing error: no list"),
        (SourceError::ApiError("500".to_string()), ErrorKind::ApiError, "API error from source: 500"),
        (SourceError::NotFound("42".to_string()), ErrorKind::NotFound, "Manga or Chapter not found: 42"),
        (
            SourceError::Configuration("no base".to_string()),
            ErrorKind::Configuration,
            "Source configuration error: no base",
        ),
        (
            SourceError::Unexpected("odd".to_string()),
            ErrorKind::Unexpected,
            "An unexpected error occurred: odd",
        ),
    ];
    for (failure, kind, message) in cases {
        assert_eq!(failure.kind(), kind);
        assert_eq!(failure.message(), message);
        assert!(message.ends_with(failure.detail()));
    }
}

#[test]
fn a_parsing_failure_is_made_from_its_detail() {
    let failure = SourceError::parsing("broken");
    assert_eq!(failure.kind(), ErrorKind::Parsing);
    assert_eq!(failure.detail(), "broken");
    assert_eq!(failure.message(), "Parsing error: broken");
    let empty = SourceError::Network(String::new());
    assert_eq!(empty.message(), "Network error: ");
}
