//! Trusted interface to the rope that backs a document's text.
//!
//! The rope is built without its optional line-break features, so the
//! only line break it recognizes is `'\n'` — exactly the line model of
//! `crate::text`. Every contract below is stated over `rope_text`, the
//! character sequence the rope holds.
use crate::text::{byte_len, char_at_byte, char_at_u16, line_count, line_start, u16_len};
use vstd::prelude::*;

verus! {

#[verifier::external_type_specification]
#[verifier::external_body]
pub struct ExRope(ropey::Rope);

/// The sequence of characters a rope holds.
pub uninterp spec fn rope_text(r: ropey::Rope) -> Seq<char>;

/// Relies on ropey::Rope::from_str: builds a rope holding exactly the
/// characters of the given string.
#[verifier::external_body]
pub(crate) fn rope_from_str(s: &str) -> (r: ropey::Rope)
    ensures
        rope_text(r) == s@,
{
    ropey::Rope::from_str(s)
}

/// Relies on ropey::Rope::clone: a clone holds the same text.
#[verifier::external_body]
pub(crate) fn rope_clone(r: &ropey::Rope) -> (res: ropey::Rope)
    ensures
        rope_text(res) == rope_text(*r),
{
    r.clone()
}

/// Relies on ropey::Rope::len_chars: the number of characters held.
#[verifier::external_body]
pub(crate) fn rope_len_chars(r: &ropey::Rope) -> (res: usize)
    ensures
        res == rope_text(*r).len(),
{
    r.len_chars()
}

/// Relies on ropey::Rope::len_bytes: the total UTF-8 byte length.
#[verifier::external_body]
pub(crate) fn rope_len_bytes(r: &ropey::Rope) -> (res: usize)
    ensures
        res == byte_len(rope_text(*r)),
{
    r.len_bytes()
}

/// Relies on ropey::Rope::len_utf16_cu: the total UTF-16 code-unit
/// length.
#[verifier::external_body]
pub(crate) fn rope_len_u16(r: &ropey::Rope) -> (res: usize)
    ensures
        res == u16_len(rope_text(*r)),
{
    r.len_utf16_cu()
}

/// Relies on ropey::Rope::len_lines: one more than the number of line
/// breaks.
#[verifier::external_body]
pub(crate) fn rope_len_lines(r: &ropey::Rope) -> (res: usize)
    ensures
        res == line_count(rope_text(*r)),
{
    r.len_lines()
}

/// Relies on ropey::Rope::line_to_char: the character index where a line
/// starts; one past the last line gives the total character count.
#[verifier::external_body]
pub(crate) fn rope_line_to_char(r: &ropey::Rope, line: usize) -> (res: usize)
    requires
        line <= line_count(rope_text(*r)),
    ensures
        res == line_start(rope_text(*r), line as int),
{
    r.line_to_char(line)
}

/// Relies on ropey::Rope::line_to_byte: the byte index where a line
/// starts.
#[verifier::external_body]
pub(crate) fn rope_line_to_byte(r: &ropey::Rope, line: usize) -> (res: usize)
    requires
        line <= line_count(rope_text(*r)),
    ensures
        res == byte_len(rope_text(*r).take(line_start(rope_text(*r), line as int) as int)),
{
    r.line_to_byte(line)
}

/// Relies on ropey::Rope::char_to_byte: the byte offset of a character
/// boundary.
#[verifier::external_body]
pub(crate) fn rope_char_to_byte(r: &ropey::Rope, c: usize) -> (res: usize)
    requires
        c <= rope_text(*r).len(),
    ensures
        res == byte_len(rope_text(*r).take(c as int)),
{
    r.char_to_byte(c)
}

/// Relies on ropey::Rope::char_to_utf16_cu: the UTF-16 offset of a
/// character boundary.
#[verifier::external_body]
pub(crate) fn rope_char_to_u16(r: &ropey::Rope, c: usize) -> (res: usize)
    requires
        c <= rope_text(*r).len(),
    ensures
        res == u16_len(rope_text(*r).take(c as int)),
{
    r.char_to_utf16_cu(c)
}

/// Relies on ropey::Rope::byte_to_char: the index of the character that
/// contains the given byte, flooring inside multi-byte characters.
#[verifier::external_body]
pub(crate) fn rope_byte_to_char(r: &ropey::Rope, b: usize) -> (res: usize)
    requires
        b <= byte_len(rope_text(*r)),
    ensures
        res == char_at_byte(rope_text(*r), b as int),
{
    r.byte_to_char(b)
}

/// Relies on ropey::Rope::utf16_cu_to_char: the index of the character
/// that contains the given UTF-16 code unit, flooring inside surrogate
/// pairs.
#[verifier::external_body]
pub(crate) fn rope_u16_to_char(r: &ropey::Rope, u: usize) -> (res: usize)
    requires
        u <= u16_len(rope_text(*r)),
    ensures
        res == char_at_u16(rope_text(*r), u as int),
{
    r.utf16_cu_to_char(u)
}

/// Relies on ropey::Rope::remove: removes the character range
/// `[start, end)`.
#[verifier::external_body]
pub(crate) fn rope_remove(r: &mut ropey::Rope, start: usize, end: usize)
    requires
        start <= end <= rope_text(*old(r)).len(),
    ensures
        rope_text(*final(r)) == rope_text(*old(r)).take(start as int) + rope_text(*old(r)).skip(
            end as int,
        ),
{
    r.remove(start..end)
}

/// Relies on ropey::Rope::insert: inserts the string's characters at the
/// given character index.
#[verifier::external_body]
pub(crate) fn rope_insert(r: &mut ropey::Rope, at: usize, text: &str)
    requires
        at <= rope_text(*old(r)).len(),
    ensures
        rope_text(*final(r)) == rope_text(*old(r)).take(at as int) + text@ + rope_text(*old(r)).skip(
            at as int,
        ),
{
    r.insert(at, text)
}

/// Relies on ropey::Rope::to_string (through Display): writes out
/// exactly the characters the rope holds.
#[verifier::external_body]
pub(crate) fn rope_to_string(r: &ropey::Rope) -> (res: String)
    ensures
        res@ == rope_text(*r),
{
    r.to_string()
}

/// Relies on ropey::Rope::line: the slice of one line, including its
/// terminating line break if it has one.
#[verifier::external_body]
pub(crate) fn rope_line_chars(r: &ropey::Rope, line: usize) -> (res: Vec<char>)
    requires
        line < line_count(rope_text(*r)),
    ensures
        res@ == rope_text(*r).subrange(
            line_start(rope_text(*r), line as int) as int,
            line_start(rope_text(*r), line as int + 1) as int,
        ),
{
    r.line(line).chars().collect()
}

} // verus!
