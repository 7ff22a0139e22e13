//! Mathematical model of a document's text: a sequence of characters,
//! measured in three unit systems (UTF-8 bytes, UTF-16 code units,
//! codepoints) and divided into lines by `'\n'`.
use vstd::prelude::*;

verus! {

/// Number of bytes that one character occupies in UTF-8.
pub open spec fn utf8_len(c: char) -> nat {
    if (c as u32) < 0x80 {
        1
    } else if (c as u32) < 0x800 {
        2
    } else if (c as u32) < 0x10000 {
        3
    } else {
        4
    }
}

/// Number of code units that one character occupies in UTF-16.
pub open spec fn utf16_len(c: char) -> nat {
    if (c as u32) < 0x10000 {
        1
    } else {
        2
    }
}

/// Total UTF-8 byte length of a character sequence.
pub open spec fn byte_len(s: Seq<char>) -> nat
    decreases s.len(),
{
    if s.len() == 0 {
        0
    } else {
        utf8_len(s[0]) + byte_len(s.drop_first())
    }
}

/// Total UTF-16 code-unit length of a character sequence.
pub open spec fn u16_len(s: Seq<char>) -> nat
    decreases s.len(),
{
    if s.len() == 0 {
        0
    } else {
        utf16_len(s[0]) + u16_len(s.drop_first())
    }
}

/// Index of the character containing byte `b` (one past the end when `b`
/// is at or beyond the total byte length).
pub open spec fn char_at_byte(s: Seq<char>, b: int) -> nat
    decreases s.len(),
{
    if s.len() == 0 || b < utf8_len(s[0]) {
        0
    } else {
        1 + char_at_byte(s.drop_first(), b - utf8_len(s[0]))
    }
}

/// Index of the character containing UTF-16 code unit `u` (one past the
/// end when `u` is at or beyond the total code-unit length).
pub open spec fn char_at_u16(s: Seq<char>, u: int) -> nat
    decreases s.len(),
{
    if s.len() == 0 || u < utf16_len(s[0]) {
        0
    } else {
        1 + char_at_u16(s.drop_first(), u - utf16_len(s[0]))
    }
}

/// Number of `'\n'` characters in the sequence.
pub open spec fn newline_count(s: Seq<char>) -> nat
    decreases s.len(),
{
    if s.len() == 0 {
        0
    } else {
        (if s[0] == '\n' {
            1nat
        } else {
            0nat
        }) + newline_count(s.drop_first())
    }
}

/// Number of lines of a document: one more than its newline count, so an
/// empty document has one (empty) line.
pub open spec fn line_count(s: Seq<char>) -> nat {
    newline_count(s) + 1
}

/// Character index of the first character of line `line`; the whole
/// length when `line` is at or beyond the line count.
pub open spec fn line_start(s: Seq<char>, line: int) -> nat
    decreases s.len(),
{
    if line <= 0 || s.len() == 0 {
        0
    } else if s[0] == '\n' {
        1 + line_start(s.drop_first(), line - 1)
    } else {
        1 + line_start(s.drop_first(), line)
    }
}

/// Byte lengths of prefixes are the running sums of the characters' byte
/// lengths.
pub proof fn lemma_byte_len_take_succ(s: Seq<char>, c: int)
    requires
        0 <= c < s.len(),
    ensures
        byte_len(s.take(c + 1)) == byte_len(s.take(c)) + utf8_len(s[c]),
    decreases s.len(),
{
    if c == 0 {
        assert(s.take(1).drop_first() =~= Seq::<char>::empty());
        assert(s.take(0) =~= Seq::<char>::empty());
    } else {
        lemma_byte_len_take_succ(s.drop_first(), c - 1);
        assert(s.take(c + 1).drop_first() =~= s.drop_first().take(c));
        assert(s.take(c).drop_first() =~= s.drop_first().take(c - 1));
    }
}

pub proof fn lemma_u16_len_take_succ(s: Seq<char>, c: int)
    requires
        0 <= c < s.len(),
    ensures
        u16_len(s.take(c + 1)) == u16_len(s.take(c)) + utf16_len(s[c]),
    decreases s.len(),
{
    if c == 0 {
        assert(s.take(1).drop_first() =~= Seq::<char>::empty());
        assert(s.take(0) =~= Seq::<char>::empty());
    } else {
        lemma_u16_len_take_succ(s.drop_first(), c - 1);
        assert(s.take(c + 1).drop_first() =~= s.drop_first().take(c));
        assert(s.take(c).drop_first() =~= s.drop_first().take(c - 1));
    }
}

/// Byte offsets of character boundaries grow with the character index.
pub proof fn lemma_byte_len_take_monotone(s: Seq<char>, c1: int, c2: int)
    requires
        0 <= c1 <= c2 <= s.len(),
    ensures
        byte_len(s.take(c1)) <= byte_len(s.take(c2)),
    decreases c2 - c1,
{
    if c1 < c2 {
        lemma_byte_len_take_succ(s, c1);
        lemma_byte_len_take_monotone(s, c1 + 1, c2);
    }
}

pub proof fn lemma_u16_len_take_monotone(s: Seq<char>, c1: int, c2: int)
    requires
        0 <= c1 <= c2 <= s.len(),
    ensures
        u16_len(s.take(c1)) <= u16_len(s.take(c2)),
    decreases c2 - c1,
{
    if c1 < c2 {
        lemma_u16_len_take_succ(s, c1);
        lemma_u16_len_take_monotone(s, c1 + 1, c2);
    }
}

/// The character containing any byte index is a valid boundary index.
pub proof fn lemma_char_at_byte_le_len(s: Seq<char>, b: int)
    ensures
        char_at_byte(s, b) <= s.len(),
    decreases s.len(),
{
    if s.len() != 0 && b >= utf8_len(s[0]) {
        lemma_char_at_byte_le_len(s.drop_first(), b - utf8_len(s[0]));
    }
}

pub proof fn lemma_char_at_u16_le_len(s: Seq<char>, u: int)
    ensures
        char_at_u16(s, u) <= s.len(),
    decreases s.len(),
{
    if s.len() != 0 && u >= utf16_len(s[0]) {
        lemma_char_at_u16_le_len(s.drop_first(), u - utf16_len(s[0]));
    }
}

/// Looking up the byte offset of a character boundary lands back on the
/// same character: the byte-to-character conversion inverts the
/// character-to-byte one on boundaries.
pub proof fn lemma_char_at_byte_roundtrip(s: Seq<char>, c: int)
    requires
        0 <= c <= s.len(),
    ensures
        char_at_byte(s, byte_len(s.take(c)) as int) == c,
    decreases s.len(),
{
    if s.len() == 0 {
    } else if c == 0 {
        assert(s.take(0) =~= Seq::<char>::empty());
    } else {
        lemma_char_at_byte_roundtrip(s.drop_first(), c - 1);
        assert(s.take(c).drop_first() =~= s.drop_first().take(c - 1));
        assert(s.take(c)[0] == s[0]);
    }
}

pub proof fn lemma_char_at_u16_roundtrip(s: Seq<char>, c: int)
    requires
        0 <= c <= s.len(),
    ensures
        char_at_u16(s, u16_len(s.take(c)) as int) == c,
    decreases s.len(),
{
    if s.len() == 0 {
    } else if c == 0 {
        assert(s.take(0) =~= Seq::<char>::empty());
    } else {
        lemma_char_at_u16_roundtrip(s.drop_first(), c - 1);
        assert(s.take(c).drop_first() =~= s.drop_first().take(c - 1));
        assert(s.take(c)[0] == s[0]);
    }
}

/// The byte-to-character conversion never moves backward as the byte
/// index grows.
pub proof fn lemma_char_at_byte_monotone(s: Seq<char>, b1: int, b2: int)
    requires
        b1 <= b2,
    ensures
        char_at_byte(s, b1) <= char_at_byte(s, b2),
    decreases s.len(),
{
    if s.len() != 0 && b1 >= utf8_len(s[0]) {
        lemma_char_at_byte_monotone(s.drop_first(), b1 - utf8_len(s[0]), b2 - utf8_len(s[0]));
    }
}

pub proof fn lemma_char_at_u16_monotone(s: Seq<char>, u1: int, u2: int)
    requires
        u1 <= u2,
    ensures
        char_at_u16(s, u1) <= char_at_u16(s, u2),
    decreases s.len(),
{
    if s.len() != 0 && u1 >= utf16_len(s[0]) {
        lemma_char_at_u16_monotone(s.drop_first(), u1 - utf16_len(s[0]), u2 - utf16_len(s[0]));
    }
}

/// A line's first character never lies beyond the end of the document.
pub proof fn lemma_line_start_le_len(s: Seq<char>, line: int)
    ensures
        line_start(s, line) <= s.len(),
    decreases s.len(),
{
    if line > 0 && s.len() != 0 {
        if s[0] == '\n' {
            lemma_line_start_le_len(s.drop_first(), line - 1);
        } else {
            lemma_line_start_le_len(s.drop_first(), line);
        }
    }
}

/// Later lines start at or after earlier ones.
pub proof fn lemma_line_start_monotone(s: Seq<char>, l1: int, l2: int)
    requires
        l1 <= l2,
    ensures
        line_start(s, l1) <= line_start(s, l2),
    decreases s.len(),
{
    if l1 > 0 && s.len() != 0 {
        if s[0] == '\n' {
            lemma_line_start_monotone(s.drop_first(), l1 - 1, l2 - 1);
        } else {
            lemma_line_start_monotone(s.drop_first(), l1, l2);
        }
    }
}

/// Past the last line, every line start is the document's length.
pub proof fn lemma_line_start_past(s: Seq<char>, line: int)
    requires
        line > newline_count(s),
    ensures
        line_start(s, line) == s.len(),
    decreases s.len(),
{
    if line > 0 && s.len() != 0 {
        if s[0] == '\n' {
            lemma_line_start_past(s.drop_first(), line - 1);
        } else {
            lemma_line_start_past(s.drop_first(), line);
        }
    }
}

} // verus!
