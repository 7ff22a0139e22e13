//! One open document: its text, the three index-space views onto it,
//! and position resolution with the clamping rules.
use crate::change::{Change, CodeUnitIndex, Position};
use crate::encoding::Encoding;
use crate::error::ServiceError;
use crate::rope_text::{
    rope_byte_to_char, rope_char_to_byte, rope_char_to_u16, rope_clone, rope_from_str, rope_insert,
    rope_len_bytes, rope_len_chars, rope_len_lines, rope_len_u16, rope_line_chars,
    rope_line_to_byte, rope_line_to_char, rope_remove, rope_text, rope_u16_to_char,
};
use crate::text::{
    byte_len, char_at_byte, char_at_u16, lemma_byte_len_take_monotone, lemma_char_at_byte_le_len,
    lemma_char_at_u16_le_len, lemma_line_start_le_len, lemma_line_start_monotone,
    lemma_line_start_past, lemma_u16_len_take_monotone, line_count, line_start, u16_len,
};
use vstd::prelude::*;

verus! {

/// Resolution of a byte offset within a line: land on the character at
/// that byte if it is a character boundary inside the document, fall
/// back to the next line's start otherwise, and never pass the next
/// line's start.
pub open spec fn resolve_byte_spec(s: Seq<char>, line: int, i: nat) -> nat {
    let nls = line_start(s, line + 1);
    let target = byte_len(s.take(line_start(s, line) as int)) + i;
    if target <= byte_len(s) && byte_len(s.take(char_at_byte(s, target as int) as int))
        == target {
        vstd::math::min(char_at_byte(s, target as int) as int, nls as int) as nat
    } else {
        nls
    }
}

/// Resolution of a UTF-16 offset within a line, with the same clamping
/// rules as the byte case.
pub open spec fn resolve_u16_spec(s: Seq<char>, line: int, i: nat) -> nat {
    let nls = line_start(s, line + 1);
    let target = u16_len(s.take(line_start(s, line) as int)) + i;
    if target <= u16_len(s) && u16_len(s.take(char_at_u16(s, target as int) as int)) == target {
        vstd::math::min(char_at_u16(s, target as int) as int, nls as int) as nat
    } else {
        nls
    }
}

/// Resolution of a codepoint offset within a line: codepoint index and
/// character index coincide, so only the clamp remains.
pub open spec fn resolve_char_spec(s: Seq<char>, line: int, i: nat) -> nat {
    vstd::math::min(line_start(s, line) + i as int, line_start(s, line + 1) as int) as nat
}

/// The character index a logical position resolves to, assuming its
/// line is in range.
pub open spec fn resolve_spec(s: Seq<char>, pos: Position) -> nat {
    match pos.codeunit {
        CodeUnitIndex::Utf8(i) => resolve_byte_spec(s, pos.line as int, i as nat),
        CodeUnitIndex::Utf16(i) => resolve_u16_spec(s, pos.line as int, i as nat),
        CodeUnitIndex::Utf32(i) => resolve_char_spec(s, pos.line as int, i as nat),
    }
}

/// Whether one change can be applied to a document: it must carry a
/// range, and both endpoints must name lines that are in range.
pub open spec fn change_ok(s: Seq<char>, c: Change) -> bool {
    &&& c.range is Some
    &&& c.range->0.start.line <= line_count(s)
    &&& c.range->0.end.line <= line_count(s)
}

/// The error a failing change reports: a missing range is malformed,
/// anything else that fails here named a line out of range.
pub open spec fn change_err(c: Change) -> ServiceError {
    if c.range is None {
        ServiceError::MalformedEdit
    } else {
        ServiceError::OutOfRangeLine
    }
}

/// The text after one change: both endpoints resolve against `s`, the
/// resolved span is replaced by the new content. A pair that resolves
/// out of order keeps the text at the start position and only inserts.
pub open spec fn apply_change_spec(s: Seq<char>, c: Change) -> Seq<char>
    recommends
        change_ok(s, c),
{
    let a = resolve_spec(s, c.range->0.start);
    let b = resolve_spec(s, c.range->0.end);
    if a <= b {
        s.take(a as int) + c.new_content@ + s.skip(b as int)
    } else {
        s.take(a as int) + c.new_content@ + s.skip(a as int)
    }
}

/// The text after a batch: each change resolves against the state the
/// earlier ones left, and the first failing change stops the batch with
/// everything before it still applied.
pub open spec fn apply_batch_spec(s: Seq<char>, cs: Seq<Change>) -> Seq<char>
    decreases cs.len(),
{
    if cs.len() == 0 {
        s
    } else if !change_ok(s, cs[0]) {
        s
    } else {
        apply_batch_spec(apply_change_spec(s, cs[0]), cs.drop_first())
    }
}

/// Whether every change of a batch applies.
pub open spec fn batch_ok(s: Seq<char>, cs: Seq<Change>) -> bool
    decreases cs.len(),
{
    cs.len() == 0 || (change_ok(s, cs[0]) && batch_ok(apply_change_spec(s, cs[0]), cs.drop_first()))
}

/// The error of the first failing change of a batch.
pub open spec fn batch_err(s: Seq<char>, cs: Seq<Change>) -> ServiceError
    decreases cs.len(),
{
    if cs.len() == 0 {
        ServiceError::OutOfRangeLine
    } else if !change_ok(s, cs[0]) {
        change_err(cs[0])
    } else {
        batch_err(apply_change_spec(s, cs[0]), cs.drop_first())
    }
}

/// A batch splits at any prefix whose changes all applied: the rest of
/// the batch runs from the state the prefix left.
pub proof fn lemma_batch_split(s: Seq<char>, cs: Seq<Change>, i: int)
    requires
        0 <= i <= cs.len(),
        batch_ok(s, cs.take(i)),
    ensures
        apply_batch_spec(s, cs) == apply_batch_spec(apply_batch_spec(s, cs.take(i)), cs.skip(i)),
        batch_ok(s, cs) == batch_ok(apply_batch_spec(s, cs.take(i)), cs.skip(i)),
        !batch_ok(s, cs) ==> batch_err(s, cs) == batch_err(
            apply_batch_spec(s, cs.take(i)),
            cs.skip(i),
        ),
    decreases i,
{
    if i == 0 {
        assert(cs.take(0) =~= Seq::<Change>::empty());
        assert(cs.skip(0) =~= cs);
    } else {
        assert(cs.take(i)[0] == cs[0]);
        let s1 = apply_change_spec(s, cs[0]);
        assert(cs.take(i).drop_first() =~= cs.drop_first().take(i - 1));
        assert(cs.drop_first().skip(i - 1) =~= cs.skip(i));
        lemma_batch_split(s1, cs.drop_first(), i - 1);
    }
}

/// Extending an all-applied prefix by one applicable change applies
/// that change to the prefix's final state.
pub proof fn lemma_batch_snoc(s: Seq<char>, cs: Seq<Change>, i: int)
    requires
        0 <= i < cs.len(),
        batch_ok(s, cs.take(i)),
        change_ok(apply_batch_spec(s, cs.take(i)), cs[i]),
    ensures
        batch_ok(s, cs.take(i + 1)),
        apply_batch_spec(s, cs.take(i + 1)) == apply_change_spec(
            apply_batch_spec(s, cs.take(i)),
            cs[i],
        ),
    decreases i,
{
    if i == 0 {
        assert(cs.take(0) =~= Seq::<Change>::empty());
        assert(apply_batch_spec(s, cs.take(0)) == s);
        assert(cs.take(1).len() == 1);
        assert(cs.take(1)[0] == cs[0]);
        assert(cs.take(1).drop_first() =~= Seq::<Change>::empty());
        let s1 = apply_change_spec(s, cs[0]);
        assert(apply_batch_spec(s, cs.take(1)) == apply_batch_spec(s1, cs.take(1).drop_first()));
        assert(apply_batch_spec(s1, Seq::<Change>::empty()) == s1);
        assert(batch_ok(s1, Seq::<Change>::empty()));
        assert(batch_ok(s, cs.take(1)));
    } else {
        assert(cs.take(i).len() == i);
        assert(cs.take(i)[0] == cs[0]);
        assert(cs.take(i + 1)[0] == cs[0]);
        assert(change_ok(s, cs[0]));
        let s1 = apply_change_spec(s, cs[0]);
        assert(cs.take(i).drop_first() =~= cs.drop_first().take(i - 1));
        assert(batch_ok(s1, cs.drop_first().take(i - 1)));
        assert(apply_batch_spec(s, cs.take(i)) == apply_batch_spec(
            s1,
            cs.drop_first().take(i - 1),
        ));
        assert(cs.drop_first()[i - 1] == cs[i]);
        lemma_batch_snoc(s1, cs.drop_first(), i - 1);
        assert(cs.take(i + 1).drop_first() =~= cs.drop_first().take(i));
        assert(apply_batch_spec(s, cs.take(i + 1)) == apply_batch_spec(
            s1,
            cs.drop_first().take(i),
        ));
        assert(batch_ok(s, cs.take(i + 1)));
    }
}

/// A document's text, held as a rope. Its view is the character
/// sequence the rope holds.
pub struct VirtualFile {
    pub content: ropey::Rope,
}

impl View for VirtualFile {
    type V = Seq<char>;

    open spec fn view(&self) -> Seq<char> {
        rope_text(self.content)
    }
}

impl VirtualFile {
    pub fn new(content: &str) -> (f: Self)
        ensures
            f@ == content@,
    {
        VirtualFile { content: rope_from_str(content) }
    }

    /// A cheap copy of the document's current text, for read-only work
    /// that must not block later edits.
    pub fn snapshot(&self) -> (f: Self)
        ensures
            f@ == self@,
    {
        VirtualFile { content: rope_clone(&self.content) }
    }

    /// The document's whole text.
    pub fn text(&self) -> (r: String)
        ensures
            r@ == self@,
    {
        crate::rope_text::rope_to_string(&self.content)
    }

    pub fn char_count(&self) -> (r: usize)
        ensures
            r == self@.len(),
    {
        rope_len_chars(&self.content)
    }

    pub fn line_count(&self) -> (r: usize)
        ensures
            r == line_count(self@),
    {
        rope_len_lines(&self.content)
    }

    /// The offset of the first character of `line`, in the index space
    /// that `space` selects (`Utf32` is the character space). The line
    /// one past the last denotes the logical end of the document and
    /// succeeds; lines beyond it are out of range.
    pub fn line_start_in(&self, line: usize, space: Encoding) -> (r: Result<usize, ServiceError>)
        ensures
            r is Ok <==> line <= line_count(self@),
            r is Err ==> r->Err_0 == ServiceError::OutOfRangeLine,
            r is Ok ==> r->Ok_0 == (match space {
                Encoding::Utf32 => line_start(self@, line as int) as int,
                Encoding::Utf8 => byte_len(
                    self@.take(line_start(self@, line as int) as int),
                ) as int,
                Encoding::Utf16 => u16_len(
                    self@.take(line_start(self@, line as int) as int),
                ) as int,
            }),
    {
        let lc = rope_len_lines(&self.content);
        if line > lc {
            return Err(ServiceError::OutOfRangeLine);
        }
        match space {
            Encoding::Utf32 => Ok(rope_line_to_char(&self.content, line)),
            Encoding::Utf8 => Ok(rope_line_to_byte(&self.content, line)),
            Encoding::Utf16 => {
                let ls = rope_line_to_char(&self.content, line);
                proof {
                    lemma_line_start_le_len(self@, line as int);
                }
                Ok(rope_char_to_u16(&self.content, ls))
            },
        }
    }

    /// The byte offset of a character boundary.
    pub fn char_to_byte(&self, c: usize) -> (r: usize)
        requires
            c <= self@.len(),
        ensures
            r == byte_len(self@.take(c as int)),
    {
        rope_char_to_byte(&self.content, c)
    }

    /// The character containing the given byte; inside a multi-byte
    /// character this floors, and the caller's clamping policy decides
    /// what to make of such an offset.
    pub fn byte_to_char(&self, b: usize) -> (r: usize)
        requires
            b <= byte_len(self@),
        ensures
            r == char_at_byte(self@, b as int),
    {
        rope_byte_to_char(&self.content, b)
    }

    /// The UTF-16 offset of a character boundary.
    pub fn char_to_utf16(&self, c: usize) -> (r: usize)
        requires
            c <= self@.len(),
        ensures
            r == u16_len(self@.take(c as int)),
    {
        rope_char_to_u16(&self.content, c)
    }

    /// The character containing the given UTF-16 code unit; inside a
    /// surrogate pair this floors.
    pub fn utf16_to_char(&self, u: usize) -> (r: usize)
        requires
            u <= u16_len(self@),
        ensures
            r == char_at_u16(self@, u as int),
    {
        rope_u16_to_char(&self.content, u)
    }

    /// The characters of one line, including its line break if it has
    /// one.
    pub fn line_chars(&self, line: usize) -> (r: Result<Vec<char>, ServiceError>)
        ensures
            r is Ok <==> line < line_count(self@),
            r is Err ==> r->Err_0 == ServiceError::OutOfRangeLine,
            r is Ok ==> r->Ok_0@ == self@.subrange(
                line_start(self@, line as int) as int,
                line_start(self@, line as int + 1) as int,
            ),
    {
        let lc = rope_len_lines(&self.content);
        if line >= lc {
            return Err(ServiceError::OutOfRangeLine);
        }
        Ok(rope_line_chars(&self.content, line))
    }

    pub fn remove_chars(&mut self, start: usize, end: usize)
        requires
            start <= end <= old(self)@.len(),
        ensures
            final(self)@ == old(self)@.take(start as int) + old(self)@.skip(end as int),
    {
        rope_remove(&mut self.content, start, end)
    }

    pub fn insert_chars(&mut self, at: usize, text: &str)
        requires
            at <= old(self)@.len(),
        ensures
            final(self)@ == old(self)@.take(at as int) + text@ + old(self)@.skip(at as int),
    {
        rope_insert(&mut self.content, at, text)
    }

    /// One resolved edit: remove the character range, then insert the
    /// replacement at its start.
    pub fn apply_edit(&mut self, start: usize, end: usize, text: &str)
        requires
            start <= end <= old(self)@.len(),
        ensures
            final(self)@ == old(self)@.take(start as int) + text@ + old(self)@.skip(end as int),
    {
        let ghost s = self@;
        self.remove_chars(start, end);
        let ghost t = self@;
        self.insert_chars(start, text);
        proof {
            assert(t.take(start as int) =~= s.take(start as int));
            assert(t.skip(start as int) =~= s.skip(end as int));
        }
    }

    /// Resolves a logical position to a character index, under the
    /// clamping rules: a line at most one past the last succeeds, an
    /// offset past the end of its line clamps to the next line's start.
    pub fn get_index_of(&self, pos: &Position) -> (r: Result<usize, ServiceError>)
        ensures
            r is Ok <==> pos.line <= line_count(self@),
            r is Err ==> r->Err_0 == ServiceError::OutOfRangeLine,
            r is Ok ==> r->Ok_0 == resolve_spec(self@, *pos) && r->Ok_0 <= self@.len(),
    {
        let ghost s = self@;
        let lc = rope_len_lines(&self.content);
        if pos.line > lc {
            return Err(ServiceError::OutOfRangeLine);
        }
        let nls: usize = if pos.line < lc {
            rope_line_to_char(&self.content, pos.line + 1)
        } else {
            proof {
                lemma_line_start_past(s, pos.line as int + 1);
            }
            rope_len_chars(&self.content)
        };
        proof {
            lemma_line_start_le_len(s, pos.line as int + 1);
            assert(nls == line_start(s, pos.line as int + 1));
        }
        match pos.codeunit {
            CodeUnitIndex::Utf8(i) => {
                let ls_b = rope_line_to_byte(&self.content, pos.line);
                let total_b = rope_len_bytes(&self.content);
                proof {
                    lemma_line_start_le_len(s, pos.line as int);
                    lemma_byte_len_take_monotone(
                        s,
                        line_start(s, pos.line as int) as int,
                        s.len() as int,
                    );
                    assert(s.take(s.len() as int) =~= s);
                }
                if i <= total_b - ls_b {
                    let target = ls_b + i;
                    let c = rope_byte_to_char(&self.content, target);
                    proof {
                        lemma_char_at_byte_le_len(s, target as int);
                    }
                    let cb = rope_char_to_byte(&self.content, c);
                    if cb == target {
                        if c < nls {
                            Ok(c)
                        } else {
                            Ok(nls)
                        }
                    } else {
                        Ok(nls)
                    }
                } else {
                    Ok(nls)
                }
            },
            CodeUnitIndex::Utf16(i) => {
                let ls_c = rope_line_to_char(&self.content, pos.line);
                proof {
                    lemma_line_start_le_len(s, pos.line as int);
                }
                let ls_u = rope_char_to_u16(&self.content, ls_c);
                let total_u = rope_len_u16(&self.content);
                proof {
                    lemma_u16_len_take_monotone(s, ls_c as int, s.len() as int);
                    assert(s.take(s.len() as int) =~= s);
                }
                if i <= total_u - ls_u {
                    let target = ls_u + i;
                    let c = rope_u16_to_char(&self.content, target);
                    proof {
                        lemma_char_at_u16_le_len(s, target as int);
                    }
                    let cu = rope_char_to_u16(&self.content, c);
                    if cu == target {
                        if c < nls {
                            Ok(c)
                        } else {
                            Ok(nls)
                        }
                    } else {
                        Ok(nls)
                    }
                } else {
                    Ok(nls)
                }
            },
            CodeUnitIndex::Utf32(i) => {
                let ls_c = rope_line_to_char(&self.content, pos.line);
                proof {
                    lemma_line_start_monotone(s, pos.line as int, pos.line as int + 1);
                }
                if i < nls - ls_c {
                    Ok(ls_c + i)
                } else {
                    Ok(nls)
                }
            },
        }
    }

    /// Applies a batch of changes in order, each resolved against the
    /// state the earlier ones left. The first change that carries no
    /// range or names an out-of-range line stops the batch; changes
    /// already applied stay applied.
    pub fn apply_changes(&mut self, changes: Vec<Change>) -> (r: Result<(), ServiceError>)
        ensures
            final(self)@ == apply_batch_spec(old(self)@, changes@),
            r is Ok <==> batch_ok(old(self)@, changes@),
            r is Err ==> r->Err_0 == batch_err(old(self)@, changes@),
    {
        let ghost s0 = self@;
        let n = changes.len();
        let mut i: usize = 0;
        while i < n
            invariant
                i <= n,
                n == changes@.len(),
                s0 == old(self)@,
                batch_ok(s0, changes@.take(i as int)),
                self@ == apply_batch_spec(s0, changes@.take(i as int)),
            decreases n - i,
        {
            let ghost si = self@;
            proof {
                lemma_batch_split(s0, changes@, i as int);
                assert(changes@.skip(i as int)[0] == changes@[i as int]);
            }
            let c = &changes[i];
            match &c.range {
                None => {
                    proof {
                        assert(!change_ok(si, changes@[i as int]));
                        assert(apply_batch_spec(si, changes@.skip(i as int)) == si);
                        assert(!batch_ok(si, changes@.skip(i as int)));
                        assert(batch_err(si, changes@.skip(i as int)) == change_err(
                            changes@[i as int],
                        ));
                    }
                    return Err(ServiceError::MalformedEdit);
                },
                Some(range) => {
                    let a = match self.get_index_of(&range.start) {
                        Ok(a) => a,
                        Err(_) => {
                            proof {
                                assert(!change_ok(si, changes@[i as int]));
                                assert(apply_batch_spec(si, changes@.skip(i as int)) == si);
                                assert(!batch_ok(si, changes@.skip(i as int)));
                                assert(batch_err(si, changes@.skip(i as int)) == change_err(
                                    changes@[i as int],
                                ));
                            }
                            return Err(ServiceError::OutOfRangeLine);
                        },
                    };
                    let b = match self.get_index_of(&range.end) {
                        Ok(b) => b,
                        Err(_) => {
                            proof {
                                assert(!change_ok(si, changes@[i as int]));
                                assert(apply_batch_spec(si, changes@.skip(i as int)) == si);
                                assert(!batch_ok(si, changes@.skip(i as int)));
                                assert(batch_err(si, changes@.skip(i as int)) == change_err(
                                    changes@[i as int],
                                ));
                            }
                            return Err(ServiceError::OutOfRangeLine);
                        },
                    };
                    if a <= b {
                        self.apply_edit(a, b, c.new_content.as_str());
                    } else {
                        self.insert_chars(a, c.new_content.as_str());
                    }
                    proof {
                        lemma_batch_snoc(s0, changes@, i as int);
                    }
                },
            }
            i = i + 1;
        }
        proof {
            assert(changes@.take(n as int) =~= changes@);
        }
        Ok(())
    }
}

} // verus!
