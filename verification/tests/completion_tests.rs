use unicode_lsp::change::{CodeUnitIndex, Position};
use unicode_lsp::completion::{build_label, completion, completion_context, completion_items, UnicodeEntry};
use unicode_lsp::error::ServiceError;
use unicode_lsp::virtual_file::VirtualFile;

fn pos(line: usize, cu: CodeUnitIndex) -> Position {
    Position { line, codeunit: cu }
}

fn table() -> Vec<UnicodeEntry> {
    vec![
        UnicodeEntry { codepoint: 0x3B1, name: "GREEK SMALL LETTER ALPHA".to_string() },
        UnicodeEntry { codepoint: 0x42, name: "LATIN CAPITAL LETTER B".to_string() },
    ]
}

#[test]
fn no_trigger_on_line_means_no_context() {
    let f = VirtualFile::new("héllo\nworld");
    let r = completion_context(&f, &pos(1, CodeUnitIndex::Utf16(3)));
    assert!(matches!(r, Ok(None)));
}

#[test]
fn trigger_and_query_on_line() {
    let f = VirtualFile::new("\\alp");
    let r = completion_context(&f, &pos(0, CodeUnitIndex::Utf32(4)));
    let ctx = r.unwrap().unwrap();
    assert_eq!(ctx.query, "alp");
    assert_eq!(ctx.line, 0);
    assert_eq!(ctx.start_in_line, 0);
    assert_eq!(ctx.cursor_in_line, 4);
}

#[test]
fn nearest_trigger_before_cursor_wins() {
    let f = VirtualFile::new("x\\a \\bc tail");
    let r = completion_context(&f, &pos(0, CodeUnitIndex::Utf32(7)));
    let ctx = r.unwrap().unwrap();
    assert_eq!(ctx.start_in_line, 4);
    assert_eq!(ctx.query, "bc");
    assert_eq!(ctx.cursor_in_line, 7);
}

#[test]
fn scan_never_crosses_into_previous_line() {
    let f = VirtualFile::new("\\ab\ncd");
    let r = completion_context(&f, &pos(1, CodeUnitIndex::Utf32(2)));
    assert!(matches!(r, Ok(None)));
}

#[test]
fn context_line_out_of_range_is_error() {
    let f = VirtualFile::new("abc");
    let r = completion_context(&f, &pos(5, CodeUnitIndex::Utf32(0)));
    assert!(matches!(r, Err(ServiceError::OutOfRangeLine)));
}

#[test]
fn context_at_document_end_line_is_empty() {
    let f = VirtualFile::new("\\ab\ncd");
    // the line one past the last is the empty end-of-document position
    let r = completion_context(&f, &pos(2, CodeUnitIndex::Utf32(0)));
    assert!(matches!(r, Ok(None)));
}

#[test]
fn items_filter_by_matcher_score() {
    let items = completion_items(&table(), &"alpha".to_string());
    assert_eq!(items.len(), 1);
    assert_eq!(items[0].label, "α - GREEK SMALL LETTER ALPHA U+945");
    assert_eq!(items[0].replacement, 'α');
}

#[test]
fn items_empty_when_nothing_matches() {
    let items = completion_items(&table(), &"zzzzq".to_string());
    assert_eq!(items.len(), 0);
}

#[test]
fn label_shape_and_decimal_codepoint() {
    assert_eq!(build_label(&"CUBE ROOT".to_string(), 0x221B), "∛ - CUBE ROOT U+8731");
    assert_eq!(build_label(&"NULL".to_string(), 0), "\u{0} - NULL U+0");
}

#[test]
fn label_glyph_falls_back_on_invalid_scalar() {
    // a surrogate codepoint is no Unicode scalar value
    assert_eq!(build_label(&"X".to_string(), 0xD800), "\u{FFFD} - X U+55296");
}

#[test]
fn completion_end_to_end() {
    let f = VirtualFile::new("say \\alpha");
    let r = completion(&f, &pos(0, CodeUnitIndex::Utf32(10)), &table());
    let (ctx, items) = r.unwrap().unwrap();
    assert_eq!(ctx.query, "alpha");
    assert_eq!(ctx.start_in_line, 4);
    assert_eq!(ctx.cursor_in_line, 10);
    assert_eq!(items.len(), 1);
    assert_eq!(items[0].replacement, 'α');
}

#[test]
fn completion_without_context_is_empty_answer() {
    let f = VirtualFile::new("say alpha");
    let r = completion(&f, &pos(0, CodeUnitIndex::Utf32(9)), &table());
    assert!(matches!(r, Ok(None)));
}
