//! Positions, ranges and edits as the client sends them: a line index
//! plus a code-unit offset whose unit system is the negotiated encoding.
use crate::encoding::Encoding;
use vstd::prelude::*;

verus! {

/// An offset within a line, tagged with the unit system it counts in.
#[derive(Copy, Clone, Debug, PartialEq, Eq, Structural)]
pub enum CodeUnitIndex {
    Utf8(usize),
    Utf16(usize),
    Utf32(usize),
}

/// The code-unit tag that the negotiated encoding assigns to an offset.
pub open spec fn code_unit_spec(pos_encoding: Encoding, i: usize) -> CodeUnitIndex {
    match pos_encoding {
        Encoding::Utf8 => CodeUnitIndex::Utf8(i),
        Encoding::Utf16 => CodeUnitIndex::Utf16(i),
        Encoding::Utf32 => CodeUnitIndex::Utf32(i),
    }
}

impl CodeUnitIndex {
    pub fn new(pos_encoding: Encoding, i: usize) -> (r: CodeUnitIndex)
        ensures
            r == code_unit_spec(pos_encoding, i),
    {
        match pos_encoding {
            Encoding::Utf8 => CodeUnitIndex::Utf8(i),
            Encoding::Utf16 => CodeUnitIndex::Utf16(i),
            Encoding::Utf32 => CodeUnitIndex::Utf32(i),
        }
    }
}

/// A logical position: zero-based line, code-unit offset within it.
#[derive(Copy, Clone, Debug, PartialEq, Eq, Structural)]
pub struct Position {
    pub line: usize,
    pub codeunit: CodeUnitIndex,
}

impl Position {
    pub fn new(pos_encoding: Encoding, line: usize, character: usize) -> (r: Position)
        ensures
            r == (Position { line, codeunit: code_unit_spec(pos_encoding, character) }),
    {
        Position { line, codeunit: CodeUnitIndex::new(pos_encoding, character) }
    }
}

#[derive(Copy, Clone, Debug, PartialEq, Eq, Structural)]
pub struct Range {
    pub start: Position,
    pub end: Position,
}

impl Range {
    /// Builds a range from the four raw position fields of a protocol
    /// range, under the negotiated encoding.
    pub fn from_raw(
        pos_encoding: Encoding,
        start_line: usize,
        start_character: usize,
        end_line: usize,
        end_character: usize,
    ) -> (r: Range)
        ensures
            r.start == (Position {
                line: start_line,
                codeunit: code_unit_spec(pos_encoding, start_character),
            }),
            r.end == (Position {
                line: end_line,
                codeunit: code_unit_spec(pos_encoding, end_character),
            }),
    {
        Range {
            start: Position::new(pos_encoding, start_line, start_character),
            end: Position::new(pos_encoding, end_line, end_character),
        }
    }
}

/// One incremental edit: replace the text in `range` with
/// `new_content`. A change without a range asks for whole-document
/// replacement, which this service refuses as malformed.
pub struct Change {
    pub range: Option<Range>,
    pub new_content: String,
}

} // verus!
