use tui_document::{Document, SearchError, SearchIter};

#[test]
fn search_runs_through_slice_without_match() {
    let doc = Document::from_str("hello world");
    let slice = doc.displayed_slice();
    let mut search = SearchIter::from_rope_slice(&slice, "wor");
    assert_eq!(search.next(), None);
    assert_eq!(search.next(), None);
}

#[test]
fn search_error_messages() {
    assert_eq!(SearchError::EmptyPattern.message(), "Can't search on empty pattern.");
    assert_eq!(SearchError::InvalidPattern("x").message(), "Pattern can no be used to search.");
}
