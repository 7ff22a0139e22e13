//! The general guarantees of position resolution and edit application,
//! stated over the document model and proved once for every document.
use crate::change::Change;
use crate::text::{
    byte_len, char_at_byte, char_at_u16, lemma_byte_len_take_monotone,
    lemma_char_at_byte_monotone, lemma_char_at_byte_roundtrip, lemma_char_at_u16_monotone,
    lemma_char_at_u16_roundtrip, lemma_line_start_le_len, lemma_line_start_monotone,
    lemma_line_start_past, lemma_u16_len_take_monotone, line_count, line_start, u16_len,
};
use crate::virtual_file::{
    apply_batch_spec, batch_ok, resolve_byte_spec, resolve_char_spec, resolve_u16_spec,
};
use vstd::prelude::*;

verus! {

/// Resolving the position at offset zero of any line that exists (the
/// line one past the last included) lands exactly on that line's first
/// character, whichever unit system the offset counts in.
pub proof fn lemma_resolve_at_line_start(s: Seq<char>, line: int)
    requires
        0 <= line <= line_count(s),
    ensures
        resolve_char_spec(s, line, 0) == line_start(s, line),
        resolve_byte_spec(s, line, 0) == line_start(s, line),
        resolve_u16_spec(s, line, 0) == line_start(s, line),
{
    let ls = line_start(s, line) as int;
    lemma_line_start_monotone(s, line, line + 1);
    lemma_line_start_le_len(s, line);
    lemma_line_start_le_len(s, line + 1);
    assert(s.take(s.len() as int) =~= s);
    lemma_byte_len_take_monotone(s, ls, s.len() as int);
    lemma_u16_len_take_monotone(s, ls, s.len() as int);
    lemma_char_at_byte_roundtrip(s, ls);
    lemma_char_at_u16_roundtrip(s, ls);
}

/// Resolution never yields an index out of bounds, and any offset at or
/// past the end of its line clamps exactly to the next line's first
/// character.
pub proof fn lemma_resolve_clamps(s: Seq<char>, line: int, i: nat)
    requires
        0 <= line <= line_count(s),
    ensures
        resolve_char_spec(s, line, i) <= s.len(),
        resolve_byte_spec(s, line, i) <= s.len(),
        resolve_u16_spec(s, line, i) <= s.len(),
        i >= line_start(s, line + 1) - line_start(s, line) ==> resolve_char_spec(s, line, i)
            == line_start(s, line + 1),
        i >= byte_len(s.take(line_start(s, line + 1) as int)) - byte_len(
            s.take(line_start(s, line) as int),
        ) ==> resolve_byte_spec(s, line, i) == line_start(s, line + 1),
        i >= u16_len(s.take(line_start(s, line + 1) as int)) - u16_len(
            s.take(line_start(s, line) as int),
        ) ==> resolve_u16_spec(s, line, i) == line_start(s, line + 1),
{
    let ls = line_start(s, line) as int;
    let nls = line_start(s, line + 1) as int;
    lemma_line_start_monotone(s, line, line + 1);
    lemma_line_start_le_len(s, line);
    lemma_line_start_le_len(s, line + 1);
    assert(s.take(s.len() as int) =~= s);
    lemma_byte_len_take_monotone(s, ls, nls);
    lemma_byte_len_take_monotone(s, nls, s.len() as int);
    lemma_u16_len_take_monotone(s, ls, nls);
    lemma_u16_len_take_monotone(s, nls, s.len() as int);
    lemma_char_at_byte_roundtrip(s, nls);
    lemma_char_at_u16_roundtrip(s, nls);
    let bt = byte_len(s.take(ls)) + i;
    if bt <= byte_len(s) && i >= byte_len(s.take(nls)) - byte_len(s.take(ls)) {
        lemma_char_at_byte_monotone(s, byte_len(s.take(nls)) as int, bt as int);
    }
    let ut = u16_len(s.take(ls)) + i;
    if ut <= u16_len(s) && i >= u16_len(s.take(nls)) - u16_len(s.take(ls)) {
        lemma_char_at_u16_monotone(s, u16_len(s.take(nls)) as int, ut as int);
    }
}

/// Resolving any offset on the line one past the last — the logical
/// end-of-document position — yields the document's total character
/// count, whichever unit system the offset counts in.
pub proof fn lemma_resolve_at_document_end(s: Seq<char>, i: nat)
    ensures
        resolve_char_spec(s, line_count(s) as int, i) == s.len(),
        resolve_byte_spec(s, line_count(s) as int, i) == s.len(),
        resolve_u16_spec(s, line_count(s) as int, i) == s.len(),
{
    let lc = line_count(s) as int;
    lemma_line_start_past(s, lc);
    lemma_line_start_past(s, lc + 1);
    assert(s.take(s.len() as int) =~= s);
    lemma_char_at_byte_roundtrip(s, s.len() as int);
    lemma_char_at_u16_roundtrip(s, s.len() as int);
}

/// A resolved position never leaves its line: it lands between the
/// line's first character and the next line's first character.
pub proof fn lemma_resolve_within_line(s: Seq<char>, line: int, i: nat)
    requires
        0 <= line <= line_count(s),
    ensures
        line_start(s, line) <= resolve_char_spec(s, line, i) <= line_start(s, line + 1),
        line_start(s, line) <= resolve_byte_spec(s, line, i) <= line_start(s, line + 1),
        line_start(s, line) <= resolve_u16_spec(s, line, i) <= line_start(s, line + 1),
{
    let ls = line_start(s, line) as int;
    lemma_line_start_monotone(s, line, line + 1);
    lemma_line_start_le_len(s, line);
    lemma_line_start_le_len(s, line + 1);
    assert(s.take(s.len() as int) =~= s);
    lemma_byte_len_take_monotone(s, ls, s.len() as int);
    lemma_u16_len_take_monotone(s, ls, s.len() as int);
    lemma_char_at_byte_roundtrip(s, ls);
    lemma_char_at_u16_roundtrip(s, ls);
    let bt = byte_len(s.take(ls)) + i;
    if bt <= byte_len(s) {
        lemma_char_at_byte_monotone(s, byte_len(s.take(ls)) as int, bt as int);
    }
    let ut = u16_len(s.take(ls)) + i;
    if ut <= u16_len(s) {
        lemma_char_at_u16_monotone(s, u16_len(s.take(ls)) as int, ut as int);
    }
}

/// The same bound, stated for a whole logical position whatever its
/// unit system.
pub proof fn lemma_resolve_spec_within_line(s: Seq<char>, pos: crate::change::Position)
    requires
        pos.line <= line_count(s),
    ensures
        line_start(s, pos.line as int) <= crate::virtual_file::resolve_spec(s, pos) <= line_start(
            s,
            pos.line as int + 1,
        ),
{
    match pos.codeunit {
        crate::change::CodeUnitIndex::Utf8(i) => lemma_resolve_within_line(
            s,
            pos.line as int,
            i as nat,
        ),
        crate::change::CodeUnitIndex::Utf16(i) => lemma_resolve_within_line(
            s,
            pos.line as int,
            i as nat,
        ),
        crate::change::CodeUnitIndex::Utf32(i) => lemma_resolve_within_line(
            s,
            pos.line as int,
            i as nat,
        ),
    }
}

/// An empty change batch applies in full and leaves the text — and with
/// it every index conversion, which is a function of the text — exactly
/// as it was.
pub proof fn lemma_empty_batch(s: Seq<char>, cs: Seq<Change>)
    requires
        cs.len() == 0,
    ensures
        apply_batch_spec(s, cs) == s,
        batch_ok(s, cs),
{
}

/// Converting a character boundary out to its byte or UTF-16 offset and
/// back lands on the same boundary.
pub proof fn lemma_conversion_roundtrip(s: Seq<char>, c: int)
    requires
        0 <= c <= s.len(),
    ensures
        char_at_byte(s, byte_len(s.take(c)) as int) == c,
        char_at_u16(s, u16_len(s.take(c)) as int) == c,
{
    lemma_char_at_byte_roundtrip(s, c);
    lemma_char_at_u16_roundtrip(s, c);
}

} // verus!
