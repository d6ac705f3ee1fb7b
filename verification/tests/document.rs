use clack::document::Document;
use clack::editor::Position;
use clack::utils::SearchDirection;

fn texts(doc: &Document) -> Vec<String> {
    (0..doc.row_count()).map(|y| String::from(doc.get_row(y).unwrap().as_str())).collect()
}

#[test]
fn document_row_len_is_zero_outside() {
    let doc = Document::open("f", "abc\nde");
    assert_eq!(doc.row_len(0), 3);
    assert_eq!(doc.row_len(1), 2);
    assert_eq!(doc.row_len(2), 0);
}

#[test]
fn document_default_is_empty_and_clean() {
    let doc = Document::default();
    assert_eq!(doc.row_count(), 0);
    assert!(!doc.is_dirty());
    assert!(doc.file_name.is_none());
    assert!(doc.get_row(0).is_none());
}

#[test]
fn document_open_splits_lines() {
    let doc = Document::open("notes.txt", "ab\ncd\n");
    assert_eq!(texts(&doc), vec!["ab", "cd", ""]);
    assert_eq!(doc.file_name, Some(String::from("notes.txt")));
    assert!(!doc.is_dirty());
}

#[test]
fn document_open_empty_text_has_one_row() {
    let doc = Document::open("empty", "");
    assert_eq!(texts(&doc), vec![""]);
}

#[test]
fn document_contents_ends_each_row() {
    let doc = Document::open("f", "ab\ncd");
    assert_eq!(doc.contents(), "ab\ncd\n");
    assert_eq!(Document::default().contents(), "");
}

#[test]
fn document_insert_two_characters() {
    let mut doc = Document::open("f", "");
    doc.insert(&Position { x: 0, y: 0 }, 'h');
    doc.insert(&Position { x: 1, y: 0 }, 'i');
    assert_eq!(doc.get_row(0).unwrap().as_str(), "hi");
    assert_eq!(doc.get_row(0).unwrap().len(), 2);
    assert_eq!(doc.row_count(), 1);
    assert!(doc.is_dirty());
}

#[test]
fn document_delete_at_row_end_joins_rows() {
    let mut doc = Document::open("f", "ab\ncd");
    doc.delete(&Position { x: 2, y: 0 });
    assert_eq!(texts(&doc), vec!["abcd"]);
    assert_eq!(doc.row_count(), 1);
    assert!(doc.is_dirty());
}

#[test]
fn document_find_forward_moves_to_next_row() {
    let doc = Document::open("f", "ab\ncd");
    let found = doc.find("cd", &Position { x: 0, y: 0 }, SearchDirection::Forward);
    assert_eq!(found, Some(Position { x: 0, y: 1 }));
}

#[test]
fn document_find_respects_start_column() {
    let doc = Document::open("f", "ab ab\nab");
    let forward = SearchDirection::Forward;
    assert_eq!(doc.find("ab", &Position { x: 0, y: 0 }, forward), Some(Position { x: 0, y: 0 }));
    assert_eq!(doc.find("ab", &Position { x: 1, y: 0 }, forward), Some(Position { x: 3, y: 0 }));
    assert_eq!(doc.find("ab", &Position { x: 4, y: 0 }, forward), Some(Position { x: 0, y: 1 }));
    assert_eq!(doc.find("ab", &Position { x: 1, y: 1 }, forward), None);
    assert_eq!(doc.find("ab", &Position { x: 0, y: 2 }, forward), None);
}

#[test]
fn document_find_backward_walks_up() {
    let doc = Document::open("f", "ab ab\nxy");
    let backward = SearchDirection::Backward;
    assert_eq!(doc.find("ab", &Position { x: 2, y: 1 }, backward), Some(Position { x: 3, y: 0 }));
    assert_eq!(doc.find("ab", &Position { x: 4, y: 0 }, backward), Some(Position { x: 0, y: 0 }));
    assert_eq!(doc.find("ab", &Position { x: 1, y: 0 }, backward), None);
    assert_eq!(doc.find("xy", &Position { x: 2, y: 1 }, backward), Some(Position { x: 0, y: 1 }));
}

#[test]
fn document_insert_below_last_row_adds_row() {
    let mut doc = Document::open("f", "ab");
    doc.insert(&Position { x: 5, y: 1 }, 'z');
    assert_eq!(texts(&doc), vec!["ab", "z"]);
    assert!(doc.is_dirty());
}

#[test]
fn document_insert_far_below_is_ignored() {
    let mut doc = Document::open("f", "ab");
    doc.insert(&Position { x: 0, y: 2 }, 'z');
    assert_eq!(texts(&doc), vec!["ab"]);
    assert!(!doc.is_dirty());
}

#[test]
fn document_insert_beyond_row_end_is_ignored() {
    let mut doc = Document::open("f", "ab\ncd");
    doc.insert(&Position { x: 3, y: 0 }, 'z');
    doc.insert(&Position { x: 9, y: 1 }, 'z');
    assert_eq!(texts(&doc), vec!["ab", "cd"]);
    assert_eq!(doc.row_count(), 2);
    assert!(!doc.is_dirty());
}

#[test]
fn document_insert_line_break_beyond_row_end_is_ignored() {
    let mut doc = Document::open("f", "ab\ncd");
    doc.insert(&Position { x: 3, y: 0 }, '\n');
    assert_eq!(texts(&doc), vec!["ab", "cd"]);
    assert!(!doc.is_dirty());
}

#[test]
fn document_insert_beyond_empty_row_is_ignored() {
    let mut doc = Document::open("f", "");
    doc.insert(&Position { x: 1, y: 0 }, 'z');
    assert_eq!(texts(&doc), vec![""]);
    assert!(!doc.is_dirty());
}

#[test]
fn document_insert_at_row_end_appends() {
    let mut doc = Document::open("f", "ab\ncd");
    doc.insert(&Position { x: 2, y: 0 }, 'z');
    assert_eq!(texts(&doc), vec!["abz", "cd"]);
    assert!(doc.is_dirty());
}

#[test]
fn document_insert_into_empty_document() {
    let mut doc = Document::default();
    doc.insert(&Position { x: 0, y: 0 }, 'a');
    assert_eq!(texts(&doc), vec!["a"]);
    assert!(doc.is_dirty());
}

#[test]
fn document_insert_line_break_splits_row() {
    let mut doc = Document::open("f", "abcd\nef");
    doc.insert(&Position { x: 2, y: 0 }, '\n');
    assert_eq!(texts(&doc), vec!["ab", "cd", "ef"]);
    assert!(doc.is_dirty());
}

#[test]
fn document_insert_line_break_below_last_row() {
    let mut doc = Document::open("f", "ab");
    doc.insert(&Position { x: 0, y: 1 }, '\n');
    assert_eq!(texts(&doc), vec!["ab", ""]);
}

#[test]
fn document_insert_line_break_at_row_end() {
    let mut doc = Document::open("f", "ab");
    doc.insert(&Position { x: 2, y: 0 }, '\n');
    assert_eq!(texts(&doc), vec!["ab", ""]);
}

#[test]
fn document_delete_inside_row() {
    let mut doc = Document::open("f", "abc\nde");
    doc.delete(&Position { x: 1, y: 0 });
    assert_eq!(texts(&doc), vec!["ac", "de"]);
    assert!(doc.is_dirty());
}

#[test]
fn document_delete_at_end_of_last_row_keeps_rows() {
    let mut doc = Document::open("f", "ab\ncd");
    doc.delete(&Position { x: 2, y: 1 });
    assert_eq!(texts(&doc), vec!["ab", "cd"]);
    assert!(doc.is_dirty());
}

#[test]
fn document_delete_below_document_is_ignored() {
    let mut doc = Document::open("f", "ab");
    doc.delete(&Position { x: 0, y: 1 });
    assert_eq!(texts(&doc), vec!["ab"]);
    assert!(!doc.is_dirty());
}

#[test]
fn document_mark_saved_clears_dirty() {
    let mut doc = Document::open("f", "ab");
    doc.insert(&Position { x: 0, y: 0 }, 'x');
    assert!(doc.is_dirty());
    doc.mark_saved();
    assert!(!doc.is_dirty());
    assert_eq!(texts(&doc), vec!["xab"]);
    assert_eq!(doc.file_name, Some(String::from("f")));
}

#[test]
fn position_default_is_origin() {
    assert_eq!(Position::default(), Position { x: 0, y: 0 });
}
