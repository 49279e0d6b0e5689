use ratatui::layout::Alignment;
use ratatui::style::{Style, Stylize};
use ratatui::widgets::{Block, Wrap};
use tui_document::{CharBound, CharRange, Document, RopeError};

fn range(start: CharBound, end: CharBound) -> CharRange {
    CharRange { start, end }
}

fn text_of(doc: &Document) -> String {
    doc.chunks().collect::<String>()
}

#[test]
fn new_document_is_empty() {
    let doc = Document::new();
    assert_eq!(doc.len_lines(), 2);
    assert_eq!(doc.len_chars(), 0);
    assert_eq!(doc.len_bytes(), 0);
    assert!(doc.is_empty());
}

#[test]
fn default_document_is_empty() {
    let doc = Document::default();
    assert_eq!(doc.is_empty(), true);
    assert_eq!(text_of(&doc), "");
}

#[test]
fn lengths_of_multibyte_text() {
    let doc = Document::from_str("héllo\nwörld");
    assert_eq!(doc.len_chars(), 11);
    assert_eq!(doc.len_bytes(), 13);
    assert_eq!(doc.len_lines(), 3);
    assert!(!doc.is_empty());
}

#[test]
fn chars_at_yields_from_position() {
    let doc = Document::from_str("hi");
    let mut iter = doc.chars_at(0);
    assert_eq!(iter.next(), Some('h'));
    assert_eq!(iter.next(), Some('i'));
    assert_eq!(iter.next(), None);
    let mut end = doc.chars_at(2);
    assert_eq!(end.next(), None);
}

#[test]
fn lines_at_yields_from_row() {
    let doc = Document::from_str("Hello\n world!");
    let mut lines = doc.lines_at(1);
    assert_eq!(lines.next().unwrap().as_str(), Some(" world!"));
    assert_eq!(lines.next(), None);
}

#[test]
fn lines_keep_their_breaks() {
    let doc = Document::from_str("Hello\n world!");
    let mut lines = doc.lines();
    assert_eq!(lines.next().unwrap().as_str(), Some("Hello\n"));
    assert_eq!(lines.next().unwrap().as_str(), Some(" world!"));
    assert_eq!(lines.next(), None);
}

#[test]
fn trailing_break_gives_empty_last_line() {
    let doc = Document::from_str("Hello\nworld\n");
    let lines: Vec<String> = doc.lines().map(|l| l.to_string()).collect();
    assert_eq!(lines, vec!["Hello\n", "world\n", ""]);
    assert_eq!(doc.len_lines(), 4);
}

#[test]
fn crlf_is_one_line_break() {
    let doc = Document::from_str("a\r\nb\rc");
    let lines: Vec<String> = doc.lines().map(|l| l.to_string()).collect();
    assert_eq!(lines, vec!["a\r\n", "b\r", "c"]);
    assert_eq!(doc.cursor_to_char(1, 0), 3);
    assert_eq!(doc.cursor_to_char(2, 0), 5);
}

#[test]
fn lines_put_together_give_the_text() {
    let text = "one\ntwo\r\nthree\u{2028}four\n";
    let doc = Document::from_str(text);
    let joined: String = doc.lines().map(|l| l.to_string()).collect();
    assert_eq!(joined, text);
}

#[test]
fn chunks_give_the_text() {
    let doc = Document::from_str("Hello world!");
    let mut chunk = doc.chunks();
    assert_eq!(chunk.next(), Some("Hello world!"));
    assert_eq!(chunk.next(), None);
}

#[test]
fn visible_slice_of_ascii_text_is_whole_text() {
    let doc = Document::from_str("Hello\nworld!");
    let expected = doc.visible_slice().unwrap().as_str();
    assert_eq!(expected, Some("Hello\nworld!"));
}

#[test]
fn visible_slice_of_multibyte_text_is_whole_text() {
    let doc = Document::from_str("héllo");
    assert_eq!(doc.visible_slice().unwrap().to_string(), "héllo");
    assert_eq!(doc.displayed_slice().to_string(), "héllo");
}

#[test]
fn visible_slice_of_empty_piece_document() {
    let doc = Document::from_pieces(&["ab", "cd"]);
    assert_eq!(doc.visible_slice().unwrap().to_string(), "");
    assert_eq!(doc.displayed_slice().to_string(), "");
}

#[test]
fn loaded_text_is_fully_visible() {
    let doc = Document::from_loaded_text("héllo");
    assert_eq!(doc.visible_slice().unwrap().to_string(), "héllo");
}

#[test]
fn slice_by_char_range() {
    let doc = Document::from_str("Hello\nworld!");
    let expected = doc.slice(range(CharBound::Unbounded, CharBound::Excluded(6))).unwrap().as_str();
    assert_eq!(expected, Some("Hello\n"));
    let tail = doc.slice(range(CharBound::Included(6), CharBound::Unbounded)).unwrap();
    assert_eq!(tail.to_string(), "world!");
    let inclusive = doc.slice(range(CharBound::Excluded(0), CharBound::Included(3))).unwrap();
    assert_eq!(inclusive.to_string(), "ell");
    assert!(doc.slice(range(CharBound::Included(3), CharBound::Excluded(2))).is_none());
    assert!(doc.slice(range(CharBound::Included(3), CharBound::Excluded(13))).is_none());
}

#[test]
fn cursor_to_char_adds_column_to_line_start() {
    let doc = Document::from_str("Hello \nworld!");
    assert_eq!(doc.cursor_to_char(0, 1), 1);
    assert_eq!(doc.cursor_to_char(1, 1), 8);
    assert_eq!(doc.cursor_to_char(2, 0), 13);
}

#[test]
fn insert_char_at_cursor() {
    let mut doc = Document::from_str("ab");
    assert_eq!(doc.insert_char('c', 0, 2), Ok(()));
    let mut iter = doc.chars_at(2);
    assert_eq!(iter.next(), Some('c'));
    assert_eq!(text_of(&doc), "abc");
}

#[test]
fn insert_char_on_second_line() {
    let mut doc = Document::from_str("ab\ncd");
    assert_eq!(doc.insert_char('X', 1, 1), Ok(()));
    assert_eq!(text_of(&doc), "ab\ncXd");
}

#[test]
fn insert_char_past_end_is_an_error() {
    let mut doc = Document::from_str("ab");
    assert_eq!(doc.insert_char('c', 0, 3), Err(RopeError::CharIndexOutOfBounds(3, 2)));
    assert_eq!(text_of(&doc), "ab");
}

#[test]
fn insert_char_past_last_line_is_an_error() {
    let mut doc = Document::from_str("ab");
    assert_eq!(doc.insert_char('c', 2, 0), Err(RopeError::LineIndexOutOfBounds(2, 1)));
    assert_eq!(text_of(&doc), "ab");
}

#[test]
fn insert_char_with_huge_column_does_not_panic() {
    let mut doc = Document::from_str("ab\ncd");
    assert_eq!(
        doc.insert_char('c', 1, usize::MAX),
        Err(RopeError::CharIndexOutOfBounds(usize::MAX, 5))
    );
}

#[test]
fn insert_drops_line_breaks() {
    let mut doc = Document::from_str("Hello beautiful world!");
    assert_eq!(doc.insert(0, 22, "\nGoodbye cruel world!"), Ok(()));
    let expected = doc.slice(range(CharBound::Included(22), CharBound::Unbounded)).unwrap().as_str();
    assert_eq!(expected, Some("Goodbye cruel world!"));
    assert_eq!(text_of(&doc), "Hello beautiful world!Goodbye cruel world!");
}

#[test]
fn insert_strips_carriage_returns_before_newlines() {
    let mut doc = Document::from_str("[]");
    assert_eq!(doc.insert(0, 1, "a\r\nb\r\nc\r"), Ok(()));
    assert_eq!(text_of(&doc), "[abc]");
}

#[test]
fn insert_single_line_is_plain_insertion() {
    let mut doc = Document::from_str("ab\ncd");
    assert_eq!(doc.insert(1, 1, "xyz"), Ok(()));
    assert_eq!(text_of(&doc), "ab\ncxyzd");
}

#[test]
fn insert_multibyte_pieces_side_by_side() {
    let mut doc = Document::from_str("0123");
    assert_eq!(doc.insert(0, 1, "é\nX"), Ok(()));
    assert_eq!(text_of(&doc), "0éX123");
}

#[test]
fn insert_multibyte_into_empty_document() {
    let mut doc = Document::new();
    assert_eq!(doc.insert(0, 0, "é\nx"), Ok(()));
    assert_eq!(text_of(&doc), "éx");
    let mut other = Document::from_str("ab");
    assert_eq!(other.insert(0, 1, "ééé\nZ"), Ok(()));
    assert_eq!(text_of(&other), "aéééZb");
}

#[test]
fn insert_past_end_of_text_is_an_error() {
    let mut doc = Document::from_str("ab");
    assert_eq!(doc.insert(0, 3, "x\ny"), Err(RopeError::CharIndexOutOfBounds(3, 2)));
    assert_eq!(text_of(&doc), "ab");
}

#[test]
fn insert_past_last_line_is_an_error() {
    let mut doc = Document::from_str("ab");
    assert_eq!(doc.insert(5, 0, "x"), Err(RopeError::LineIndexOutOfBounds(5, 1)));
    assert_eq!(text_of(&doc), "ab");
}

#[test]
fn insert_marks_document_modified() {
    let mut doc = Document::from_str("ab");
    assert!(format!("{:?}", doc).contains("modified: false"));
    let _ = doc.insert(9, 0, "x");
    assert!(format!("{:?}", doc).contains("modified: true"));
}

#[test]
fn remove_open_range() {
    let mut doc = Document::from_str("Hello world!");
    assert_eq!(doc.remove(range(CharBound::Included(5), CharBound::Unbounded)), Ok(()));
    let expected = doc.slice(range(CharBound::Unbounded, CharBound::Unbounded)).unwrap().as_str();
    assert_eq!(expected, Some("Hello"));
}

#[test]
fn remove_errors() {
    let mut doc = Document::from_str("Hello");
    assert_eq!(
        doc.remove(range(CharBound::Included(2), CharBound::Excluded(9))),
        Err(RopeError::CharRangeOutOfBounds(Some(2), Some(9), 5))
    );
    assert_eq!(
        doc.remove(range(CharBound::Included(4), CharBound::Excluded(2))),
        Err(RopeError::CharRangeInvalid(4, 2))
    );
    assert_eq!(
        doc.remove(range(CharBound::Included(7), CharBound::Unbounded)),
        Err(RopeError::CharRangeOutOfBounds(Some(7), None, 5))
    );
    assert_eq!(text_of(&doc), "Hello");
    assert!(format!("{:?}", doc).contains("modified: false"));
}

#[test]
fn remove_undoes_insert_char() {
    let mut doc = Document::from_str("abc\ndef");
    let before = text_of(&doc);
    assert_eq!(doc.insert_char('Z', 1, 2), Ok(()));
    let pos = doc.cursor_to_char(1, 2);
    assert_eq!(doc.remove(range(CharBound::Included(pos), CharBound::Excluded(pos + 1))), Ok(()));
    assert_eq!(text_of(&doc), before);
}

#[test]
fn from_pieces_concatenates() {
    let doc = Document::from_pieces(&["apple\n", "banana", "", "mango"]);
    assert_eq!(text_of(&doc), "apple\nbananamango");
    let empty = Document::from_pieces(&[]);
    assert!(empty.is_empty());
}

#[test]
fn builders_set_settings() {
    let doc = Document::from_str("Hello, world!")
        .block(Block::bordered().title("Document"))
        .wrap(Wrap { trim: true })
        .alignment(Alignment::Center)
        .set_style(Style::new().red().on_white());
    assert_eq!(doc.drawn_wrap(), Wrap { trim: true });
    assert_eq!(text_of(&doc), "Hello, world!");
    let shown = format!("{:?}", doc);
    assert!(shown.contains("Center"));
}

#[test]
fn name_is_set_once_and_rename_replaces_it() {
    let mut doc = Document::from_str("Hello, world!");
    doc.name("example.txt");
    doc.name("ignored.txt");
    let shown = format!("{:?}", doc);
    assert!(shown.contains("example.txt"));
    assert!(!shown.contains("ignored.txt"));
    doc.rename("rename_example.txt");
    let shown = format!("{:?}", doc);
    assert!(shown.contains("rename_example.txt"));
    assert!(!shown.contains("\"example.txt\""));
}

#[test]
fn clone_is_equal() {
    let mut doc = Document::from_str("abc").wrap(Wrap { trim: false });
    doc.name("a.txt");
    let copy = doc.clone();
    assert_eq!(copy, doc);
    assert_eq!(text_of(&copy), "abc");
}

#[test]
fn lines_at_on_empty_document_yields_its_empty_line() {
    let doc = Document::new();
    let mut lines = doc.lines_at(1);
    assert_eq!(lines.next().unwrap().to_string(), "");
    assert_eq!(lines.next(), None);
}

#[test]
fn chunks_keep_crlf_together() {
    let text = "ab\r\n".repeat(2000);
    let doc = Document::from_str(&text);
    let chunks: Vec<&str> = doc.chunks().filter(|c| !c.is_empty()).collect();
    assert_eq!(chunks.concat(), text);
    for pair in chunks.windows(2) {
        assert!(!(pair[0].ends_with('\r') && pair[1].starts_with('\n')));
    }
}

#[test]
fn compare_with_self_and_clone_is_equal() {
    let doc = Document::from_str(&"some text\n".repeat(500));
    assert_eq!(doc.compare(&doc), std::cmp::Ordering::Equal);
    assert_eq!(doc.compare(&doc.clone()), std::cmp::Ordering::Equal);
    assert_eq!(doc.clone().compare(&doc), std::cmp::Ordering::Equal);
}

#[test]
fn compare_orders_texts() {
    let a = Document::from_str("apple");
    let b = Document::from_str("banana");
    assert_eq!(a.compare(&b), std::cmp::Ordering::Less);
    assert_eq!(b.compare(&a), std::cmp::Ordering::Greater);
    assert_eq!(a.compare(&Document::from_str("apple")), std::cmp::Ordering::Equal);
}

#[test]
fn empty_text_compares_less() {
    let empty = Document::new();
    let long = Document::from_str(&"x".repeat(5000));
    assert_eq!(empty.compare(&long), std::cmp::Ordering::Less);
    assert_eq!(long.compare(&empty), std::cmp::Ordering::Greater);
    assert_eq!(empty.compare(&Document::default()), std::cmp::Ordering::Equal);
}

#[test]
fn drawing_settings_follow_builders() {
    let block = Block::bordered().title("Document");
    let style = Style::new().red().on_white();
    let doc = Document::from_str("Hello")
        .block(block.clone())
        .set_style(style)
        .alignment(Alignment::Right);
    assert_eq!(doc.drawn_block(), block);
    assert_eq!(doc.style_setting(), style);
    assert_eq!(doc.alignment_setting(), Alignment::Right);
    assert_eq!(Document::new().drawn_block(), Block::default());
    assert_eq!(Document::new().drawn_wrap(), Wrap { trim: true });
    assert_eq!(Document::new().wrap(Wrap { trim: false }).drawn_wrap(), Wrap { trim: false });
}
