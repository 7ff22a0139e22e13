use unicode_lsp::change::{Change, CodeUnitIndex, Position, Range};
use unicode_lsp::encoding::Encoding;
use unicode_lsp::error::ServiceError;
use unicode_lsp::virtual_file::VirtualFile;

fn pos(line: usize, cu: CodeUnitIndex) -> Position {
    Position { line, codeunit: cu }
}

fn edit(start: Position, end: Position, text: &str) -> Change {
    Change {
        range: Some(Range { start, end }),
        new_content: text.to_string(),
    }
}

#[test]
fn create_and_read_back() {
    let f = VirtualFile::new("héllo\nworld");
    assert_eq!(f.text(), "héllo\nworld");
    assert_eq!(f.char_count(), 11);
    assert_eq!(f.line_count(), 2);
}

#[test]
fn line_starts_in_each_space() {
    let f = VirtualFile::new("héllo\nworld");
    // char space
    assert_eq!(f.line_start_in(0, Encoding::Utf32), Ok(0));
    assert_eq!(f.line_start_in(1, Encoding::Utf32), Ok(6));
    // byte space: é takes two bytes
    assert_eq!(f.line_start_in(1, Encoding::Utf8), Ok(7));
    // UTF-16 space: every char of the document is one unit
    assert_eq!(f.line_start_in(1, Encoding::Utf16), Ok(6));
    // one past the last line is the logical end of the document
    assert_eq!(f.line_start_in(2, Encoding::Utf32), Ok(11));
    assert_eq!(f.line_start_in(2, Encoding::Utf8), Ok(12));
    // beyond that is out of range
    assert_eq!(f.line_start_in(3, Encoding::Utf32), Err(ServiceError::OutOfRangeLine));
}

#[test]
fn resolve_line_start_every_encoding() {
    let f = VirtualFile::new("héllo\nworld");
    for cu in [CodeUnitIndex::Utf8(0), CodeUnitIndex::Utf16(0), CodeUnitIndex::Utf32(0)] {
        assert_eq!(f.get_index_of(&pos(0, cu)), Ok(0));
        assert_eq!(f.get_index_of(&pos(1, cu)), Ok(6));
    }
}

#[test]
fn resolve_past_line_end_clamps_to_next_line() {
    let f = VirtualFile::new("héllo\nworld");
    for cu in [CodeUnitIndex::Utf8(99), CodeUnitIndex::Utf16(99), CodeUnitIndex::Utf32(99)] {
        assert_eq!(f.get_index_of(&pos(0, cu)), Ok(6));
        assert_eq!(f.get_index_of(&pos(1, cu)), Ok(11));
    }
}

#[test]
fn resolve_at_line_count_is_document_end() {
    let f = VirtualFile::new("héllo\nworld");
    for cu in [CodeUnitIndex::Utf8(0), CodeUnitIndex::Utf8(7), CodeUnitIndex::Utf16(3), CodeUnitIndex::Utf32(5)] {
        assert_eq!(f.get_index_of(&pos(2, cu)), Ok(11));
    }
}

#[test]
fn resolve_rejects_line_out_of_range() {
    let f = VirtualFile::new("héllo\nworld");
    assert_eq!(
        f.get_index_of(&pos(3, CodeUnitIndex::Utf32(0))),
        Err(ServiceError::OutOfRangeLine)
    );
}

#[test]
fn resolve_byte_inside_multibyte_char_falls_back() {
    let f = VirtualFile::new("héllo\nworld");
    // é spans bytes 1..3 of line 0; byte 2 is no boundary
    assert_eq!(f.get_index_of(&pos(0, CodeUnitIndex::Utf8(2))), Ok(6));
    // byte 3 is the boundary after é: character 2
    assert_eq!(f.get_index_of(&pos(0, CodeUnitIndex::Utf8(3))), Ok(2));
}

#[test]
fn resolve_utf16_inside_surrogate_pair_falls_back() {
    let f = VirtualFile::new("a𝄞b");
    // 𝄞 takes units 1..3; unit 2 is mid-pair
    assert_eq!(f.get_index_of(&pos(0, CodeUnitIndex::Utf16(2))), Ok(3));
    assert_eq!(f.get_index_of(&pos(0, CodeUnitIndex::Utf16(1))), Ok(1));
    assert_eq!(f.get_index_of(&pos(0, CodeUnitIndex::Utf16(3))), Ok(2));
}

#[test]
fn conversions_round_trip_on_boundaries() {
    let f = VirtualFile::new("h馬é𝄞llo\nwörld");
    let n = f.char_count();
    for c in 0..=n {
        assert_eq!(f.byte_to_char(f.char_to_byte(c)), c);
        assert_eq!(f.utf16_to_char(f.char_to_utf16(c)), c);
    }
}

#[test]
fn scenario_utf16_insert_after_first_char() {
    let mut f = VirtualFile::new("héllo\nworld");
    let p = pos(0, CodeUnitIndex::Utf16(1));
    let r = f.apply_changes(vec![edit(p, p, "X")]);
    assert_eq!(r, Ok(()));
    assert_eq!(f.text(), "hXéllo\nworld");
}

#[test]
fn empty_batch_changes_nothing() {
    let mut f = VirtualFile::new("héllo\nworld");
    let before_text = f.text();
    let before_bytes: Vec<usize> = (0..=f.char_count()).map(|c| f.char_to_byte(c)).collect();
    let before_units: Vec<usize> = (0..=f.char_count()).map(|c| f.char_to_utf16(c)).collect();
    assert_eq!(f.apply_changes(vec![]), Ok(()));
    assert_eq!(f.text(), before_text);
    let after_bytes: Vec<usize> = (0..=f.char_count()).map(|c| f.char_to_byte(c)).collect();
    let after_units: Vec<usize> = (0..=f.char_count()).map(|c| f.char_to_utf16(c)).collect();
    assert_eq!(before_bytes, after_bytes);
    assert_eq!(before_units, after_units);
}

#[test]
fn later_edit_sees_earlier_edits_state() {
    // the second edit's line exists only once the first has inserted a
    // line break
    let mut f = VirtualFile::new("ab");
    let p1 = pos(0, CodeUnitIndex::Utf32(1));
    let p2 = pos(1, CodeUnitIndex::Utf32(0));
    let r = f.apply_changes(vec![edit(p1, p1, "\n"), edit(p2, p2, "X")]);
    assert_eq!(r, Ok(()));
    assert_eq!(f.text(), "a\nXb");
}

#[test]
fn out_of_range_edit_aborts_rest_of_batch() {
    let mut f = VirtualFile::new("one\ntwo");
    let good = edit(pos(0, CodeUnitIndex::Utf32(0)), pos(0, CodeUnitIndex::Utf32(3)), "1");
    let bad = edit(pos(9, CodeUnitIndex::Utf32(0)), pos(9, CodeUnitIndex::Utf32(0)), "?");
    let never = edit(pos(1, CodeUnitIndex::Utf32(0)), pos(1, CodeUnitIndex::Utf32(3)), "2");
    let r = f.apply_changes(vec![good, bad, never]);
    assert_eq!(r, Err(ServiceError::OutOfRangeLine));
    // the first edit stays applied; the third never ran
    assert_eq!(f.text(), "1\ntwo");
}

#[test]
fn rangeless_change_is_malformed() {
    let mut f = VirtualFile::new("abc");
    let r = f.apply_changes(vec![Change { range: None, new_content: "xyz".to_string() }]);
    assert_eq!(r, Err(ServiceError::MalformedEdit));
    assert_eq!(f.text(), "abc");
}

#[test]
fn replacement_edit_removes_then_inserts() {
    let mut f = VirtualFile::new("héllo\nworld");
    let r = f.apply_changes(vec![edit(
        pos(1, CodeUnitIndex::Utf32(0)),
        pos(1, CodeUnitIndex::Utf32(5)),
        "there",
    )]);
    assert_eq!(r, Ok(()));
    assert_eq!(f.text(), "héllo\nthere");
}

#[test]
fn snapshot_is_unaffected_by_later_edits() {
    let mut f = VirtualFile::new("abc");
    let snap = f.snapshot();
    let p = pos(0, CodeUnitIndex::Utf32(0));
    assert_eq!(f.apply_changes(vec![edit(p, p, "Z")]), Ok(()));
    assert_eq!(f.text(), "Zabc");
    assert_eq!(snap.text(), "abc");
}

#[test]
fn line_chars_includes_line_break() {
    let f = VirtualFile::new("héllo\nworld");
    assert_eq!(f.line_chars(0), Ok("héllo\n".chars().collect()));
    assert_eq!(f.line_chars(1), Ok("world".chars().collect()));
    assert_eq!(f.line_chars(2), Err(ServiceError::OutOfRangeLine));
}
