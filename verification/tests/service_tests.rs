use unicode_lsp::change::{Change, CodeUnitIndex, Position, Range};
use unicode_lsp::encoding::Encoding;
use unicode_lsp::error::ServiceError;
use unicode_lsp::store::DocumentStore;

fn insert_at(line: usize, unit: usize, text: &str) -> Change {
    let p = Position { line, codeunit: CodeUnitIndex::Utf16(unit) };
    Change { range: Some(Range { start: p, end: p }), new_content: text.to_string() }
}

#[test]
fn negotiation_defaults_to_utf16() {
    assert_eq!(Encoding::negotiate(&None), Ok(Encoding::Utf16));
    assert_eq!(Encoding::negotiate(&Some(vec![])), Ok(Encoding::Utf16));
}

#[test]
fn negotiation_takes_first_preference() {
    let prefs = Some(vec!["utf-32".to_string(), "utf-16".to_string()]);
    assert_eq!(Encoding::negotiate(&prefs), Ok(Encoding::Utf32));
    let prefs8 = Some(vec!["utf-8".to_string()]);
    assert_eq!(Encoding::negotiate(&prefs8), Ok(Encoding::Utf8));
}

#[test]
fn negotiation_refuses_unknown_encoding() {
    let prefs = Some(vec!["utf-64".to_string()]);
    assert_eq!(Encoding::negotiate(&prefs), Err(ServiceError::UnsupportedEncoding));
    assert_eq!(
        Encoding::from_name(&"wtf-8".to_string()),
        Err(ServiceError::UnsupportedEncoding)
    );
}

#[test]
fn code_unit_index_follows_encoding() {
    assert_eq!(CodeUnitIndex::new(Encoding::Utf8, 7), CodeUnitIndex::Utf8(7));
    assert_eq!(CodeUnitIndex::new(Encoding::Utf16, 7), CodeUnitIndex::Utf16(7));
    assert_eq!(CodeUnitIndex::new(Encoding::Utf32, 7), CodeUnitIndex::Utf32(7));
}

#[test]
fn open_change_read_close() {
    let mut store = DocumentStore::new();
    assert!(!store.contains(1));
    store.open(1, "héllo\nworld");
    assert!(store.contains(1));
    let r = store.change(1, vec![insert_at(0, 1, "X")]);
    assert_eq!(r, Ok(()));
    assert_eq!(store.snapshot(1).unwrap().text(), "hXéllo\nworld");
    store.close(1);
    assert!(!store.contains(1));
    assert!(store.snapshot(1).is_none());
}

#[test]
fn change_on_missing_document_is_reported() {
    let mut store = DocumentStore::new();
    store.open(1, "abc");
    let r = store.change(2, vec![insert_at(0, 0, "X")]);
    assert_eq!(r, Err(ServiceError::MissingDocument));
    // the open document is untouched
    assert_eq!(store.snapshot(1).unwrap().text(), "abc");
}

#[test]
fn documents_are_independent() {
    let mut store = DocumentStore::new();
    store.open(1, "one");
    store.open(2, "two");
    assert_eq!(store.change(1, vec![insert_at(0, 3, "!")]), Ok(()));
    assert_eq!(store.snapshot(1).unwrap().text(), "one!");
    assert_eq!(store.snapshot(2).unwrap().text(), "two");
}

#[test]
fn reopening_replaces_wholesale() {
    let mut store = DocumentStore::new();
    store.open(1, "old text");
    store.open(1, "new text");
    assert_eq!(store.snapshot(1).unwrap().text(), "new text");
}

#[test]
fn failed_batch_keeps_earlier_edits_in_store() {
    let mut store = DocumentStore::new();
    store.open(7, "ab");
    let bad = Change {
        range: Some(Range {
            start: Position { line: 4, codeunit: CodeUnitIndex::Utf16(0) },
            end: Position { line: 4, codeunit: CodeUnitIndex::Utf16(0) },
        }),
        new_content: "?".to_string(),
    };
    let r = store.change(7, vec![insert_at(0, 2, "c"), bad]);
    assert_eq!(r, Err(ServiceError::OutOfRangeLine));
    assert_eq!(store.snapshot(7).unwrap().text(), "abc");
}
