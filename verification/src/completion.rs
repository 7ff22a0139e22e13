//! Completion over a document: find the trigger character before the
//! cursor, extract the query, and label the candidates that the
//! matcher scores.
use crate::change::Position;
use crate::encoding::Encoding;
use crate::error::ServiceError;
use crate::laws::lemma_resolve_spec_within_line;
use crate::text::{line_count, line_start};
use crate::virtual_file::{resolve_spec, VirtualFile};
use vstd::prelude::*;

verus! {

/// The trigger character that opens a completion context.
pub open spec fn trigger_char() -> char {
    '\\'
}

/// No trigger character occurs at the indices `[lo, hi)`.
pub open spec fn no_trigger_in(s: Seq<char>, lo: int, hi: int) -> bool {
    forall|j: int| lo <= j < hi ==> s[j] != trigger_char()
}

/// One candidate of the static reference table: a codepoint and its
/// name.
pub struct UnicodeEntry {
    pub codepoint: u32,
    pub name: String,
}

/// A found completion context: the query between the trigger and the
/// cursor, and the character offsets, within the cursor's line, of the
/// trigger and the cursor — the replacement range.
pub struct CompletionContext {
    pub query: String,
    pub line: usize,
    pub start_in_line: usize,
    pub cursor_in_line: usize,
}

/// One offered completion: its display label and the character that
/// replaces the context when taken.
pub struct CompletionItem {
    pub label: String,
    pub replacement: char,
}

/// What the matcher scores a candidate name against a query; a function
/// of the two strings alone.
pub uninterp spec fn fuzzy_score(name: Seq<char>, query: Seq<char>) -> Option<i64>;

/// Relies on fuzzy_matcher::clangd::fuzzy_match: a deterministic score
/// computed from the candidate and the pattern alone, absent when they
/// do not match.
#[verifier::external_body]
fn fuzzy_match_score(name: &str, query: &str) -> (r: Option<i64>)
    ensures
        r == fuzzy_score(name@, query@),
{
    fuzzy_matcher::clangd::fuzzy_match(name, query)
}

/// Relies on String's FromIterator impl: collects exactly the given
/// characters, in order.
#[verifier::external_body]
fn chars_to_string(v: &Vec<char>) -> (r: String)
    ensures
        r@ == v@,
{
    v.iter().collect()
}

/// Relies on str::chars: yields exactly the string's characters, in
/// order.
#[verifier::external_body]
fn string_chars(s: &String) -> (r: Vec<char>)
    ensures
        r@ == s@,
{
    s.as_str().chars().collect()
}

/// Relies on char::from_u32: the value back as a character for every
/// Unicode scalar value, nothing for surrogates and out-of-range
/// values.
#[verifier::external_body]
fn char_from_u32(v: u32) -> (r: Option<char>)
    ensures
        r is Some <==> (v < 0xD800 || (0xE000 <= v && v <= 0x10FFFF)),
        r is Some ==> r->0 == v as char,
{
    char::from_u32(v)
}

/// The glyph shown for a codepoint: the character itself, or the
/// replacement character for values that are no Unicode scalar value.
pub open spec fn glyph_spec(cp: u32) -> char {
    if cp < 0xD800 || (0xE000 <= cp && cp <= 0x10FFFF) {
        cp as char
    } else {
        '\u{FFFD}'
    }
}

pub fn glyph_of(cp: u32) -> (r: char)
    ensures
        r == glyph_spec(cp),
{
    match char_from_u32(cp) {
        Some(c) => c,
        None => '\u{FFFD}',
    }
}

/// The decimal digit character for one value below ten.
pub open spec fn digit_char(d: nat) -> char
    recommends
        d < 10,
{
    ((48 + d) as u32) as char
}

/// The decimal digits of a number, most significant first.
pub open spec fn dec_digits(n: nat) -> Seq<char>
    decreases n,
{
    if n < 10 {
        seq![digit_char(n)]
    } else {
        dec_digits(n / 10).push(digit_char(n % 10))
    }
}

/// The decimal digits of a number as characters.
pub fn u32_dec_chars(n: u32) -> (r: Vec<char>)
    ensures
        r@ == dec_digits(n as nat),
{
    let mut digits: Vec<char> = Vec::new();
    if n < 10 {
        let d: u8 = 48 + (n as u8);
        digits.push(d as char);
        return digits;
    }
    let mut m = n;
    while m > 0
        invariant
            m > 0 ==> dec_digits(n as nat) == dec_digits(m as nat) + digits@,
            m == 0 ==> dec_digits(n as nat) == digits@,
        decreases m,
    {
        let ghost pre = digits@;
        let d: u8 = 48 + ((m % 10) as u8);
        digits.insert(0, d as char);
        proof {
            assert(digits@ =~= seq![digit_char((m % 10) as nat)] + pre);
            if m >= 10 {
                assert(dec_digits(m as nat) == dec_digits((m / 10) as nat).push(
                    digit_char((m % 10) as nat),
                ));
                assert(dec_digits((m / 10) as nat).push(digit_char((m % 10) as nat))
                    =~= dec_digits((m / 10) as nat) + seq![digit_char((m % 10) as nat)]);
                assert(dec_digits(n as nat) =~= dec_digits((m / 10) as nat) + digits@);
            } else {
                assert(dec_digits(m as nat) =~= seq![digit_char(m as nat)]);
                assert(dec_digits(n as nat) =~= digits@);
            }
        }
        m = m / 10;
    }
    digits
}

/// The label of a candidate: its glyph, its name, and its codepoint in
/// decimal, in the service's display shape.
pub open spec fn label_spec(name: Seq<char>, cp: u32) -> Seq<char> {
    seq![glyph_spec(cp), ' ', '-', ' '] + name + seq![' ', 'U', '+'] + dec_digits(cp as nat)
}

pub fn build_label(name: &String, cp: u32) -> (r: String)
    ensures
        r@ == label_spec(name@, cp),
{
    let mut v: Vec<char> = Vec::new();
    v.push(glyph_of(cp));
    v.push(' ');
    v.push('-');
    v.push(' ');
    let ghost head = v@;
    proof {
        assert(head =~= seq![glyph_spec(cp), ' ', '-', ' ']);
    }
    let name_chars = string_chars(name);
    let mut k: usize = 0;
    while k < name_chars.len()
        invariant
            k <= name_chars@.len(),
            name_chars@ == name@,
            head =~= seq![glyph_spec(cp), ' ', '-', ' '],
            v@ == head + name@.take(k as int),
        decreases name_chars@.len() - k,
    {
        v.push(name_chars[k]);
        proof {
            assert(name@.take(k as int + 1) =~= name@.take(k as int).push(name@[k as int]));
        }
        k = k + 1;
    }
    proof {
        assert(name@.take(name@.len() as int) =~= name@);
    }
    v.push(' ');
    v.push('U');
    v.push('+');
    let ghost mid = v@;
    proof {
        assert(mid =~= seq![glyph_spec(cp), ' ', '-', ' '] + name@ + seq![' ', 'U', '+']);
    }
    let digits = u32_dec_chars(cp);
    let mut k2: usize = 0;
    while k2 < digits.len()
        invariant
            k2 <= digits@.len(),
            digits@ == dec_digits(cp as nat),
            v@ == mid + digits@.take(k2 as int),
            mid =~= seq![glyph_spec(cp), ' ', '-', ' '] + name@ + seq![' ', 'U', '+'],
        decreases digits@.len() - k2,
    {
        v.push(digits[k2]);
        proof {
            assert(digits@.take(k2 as int + 1) =~= digits@.take(k2 as int).push(
                digits@[k2 as int],
            ));
        }
        k2 = k2 + 1;
    }
    proof {
        assert(digits@.take(digits@.len() as int) =~= digits@);
        assert(v@ =~= label_spec(name@, cp));
    }
    chars_to_string(&v)
}

/// The candidates a query matches, in table order.
pub open spec fn matching_entries(entries: Seq<UnicodeEntry>, query: Seq<char>) -> Seq<
    UnicodeEntry,
>
    decreases entries.len(),
{
    if entries.len() == 0 {
        Seq::empty()
    } else {
        let rest = matching_entries(entries.drop_last(), query);
        if fuzzy_score(entries.last().name@, query) is Some {
            rest.push(entries.last())
        } else {
            rest
        }
    }
}

/// One offered item presents one matching candidate.
pub open spec fn item_for(it: CompletionItem, e: UnicodeEntry) -> bool {
    &&& it.label@ == label_spec(e.name@, e.codepoint)
    &&& it.replacement == glyph_spec(e.codepoint)
}

/// Labels every candidate of the table that the query matches, in
/// table order.
pub fn completion_items(data: &Vec<UnicodeEntry>, query: &String) -> (r: Vec<CompletionItem>)
    ensures
        r@.len() == matching_entries(data@, query@).len(),
        forall|k: int|
            0 <= k < r@.len() ==> item_for(#[trigger] r@[k], matching_entries(data@, query@)[k]),
{
    let mut r: Vec<CompletionItem> = Vec::new();
    let mut i: usize = 0;
    while i < data.len()
        invariant
            i <= data@.len(),
            r@.len() == matching_entries(data@.take(i as int), query@).len(),
            forall|k: int|
                0 <= k < r@.len() ==> item_for(
                    #[trigger] r@[k],
                    matching_entries(data@.take(i as int), query@)[k],
                ),
        decreases data@.len() - i,
    {
        let ghost prefix = data@.take(i as int);
        let e = &data[i];
        proof {
            assert(data@.take(i as int + 1).drop_last() =~= prefix);
            assert(data@.take(i as int + 1).last() == data@[i as int]);
        }
        match fuzzy_match_score(e.name.as_str(), query.as_str()) {
            Some(_) => {
                let item = CompletionItem {
                    label: build_label(&e.name, e.codepoint),
                    replacement: glyph_of(e.codepoint),
                };
                r.push(item);
            },
            None => {
            },
        }
        i = i + 1;
    }
    proof {
        assert(data@.take(data@.len() as int) =~= data@);
    }
    r
}

/// A found context satisfies this: the trigger stands before the
/// cursor on its line, nothing between them is a trigger, and the
/// query is exactly the text between them.
pub open spec fn context_found_spec(s: Seq<char>, pos: Position, ctx: CompletionContext) -> bool {
    let ls = line_start(s, pos.line as int) as int;
    let cur = resolve_spec(s, pos) as int;
    &&& ctx.line == pos.line
    &&& ctx.cursor_in_line == cur - ls
    &&& ctx.start_in_line < ctx.cursor_in_line
    &&& s[ls + ctx.start_in_line] == trigger_char()
    &&& no_trigger_in(s, ls + ctx.start_in_line + 1, cur)
    &&& ctx.query@ == s.subrange(ls + ctx.start_in_line + 1, cur)
}

/// No context: no trigger character stands between the cursor's line
/// start and the cursor.
pub open spec fn no_context_spec(s: Seq<char>, pos: Position) -> bool {
    no_trigger_in(s, line_start(s, pos.line as int) as int, resolve_spec(s, pos) as int)
}

/// Finds the nearest trigger character strictly before `cursor`,
/// scanning only within the given line.
fn find_trigger(line: &Vec<char>, cursor: usize) -> (r: Option<usize>)
    requires
        cursor <= line@.len(),
    ensures
        match r {
            Some(t) => t < cursor && line@[t as int] == trigger_char() && no_trigger_in(
                line@,
                t as int + 1,
                cursor as int,
            ),
            None => no_trigger_in(line@, 0, cursor as int),
        },
{
    let mut j = cursor;
    while j > 0
        invariant
            j <= cursor <= line@.len(),
            no_trigger_in(line@, j as int, cursor as int),
        decreases j,
    {
        j = j - 1;
        if line[j] == '\\' {
            return Some(j);
        }
    }
    None
}

/// Resolves the cursor and scans its line, backward from the cursor and
/// never into an earlier line, for a completion context.
pub fn completion_context(file: &VirtualFile, pos: &Position) -> (r: Result<
    Option<CompletionContext>,
    ServiceError,
>)
    ensures
        r is Ok <==> pos.line <= line_count(file@),
        r is Err ==> r->Err_0 == ServiceError::OutOfRangeLine,
        r is Ok && r->Ok_0 is Some ==> context_found_spec(file@, *pos, r->Ok_0->0),
        r is Ok && r->Ok_0 is None ==> no_context_spec(file@, *pos),
{
    let ghost s = file@;
    let lc = file.line_count();
    if pos.line > lc {
        return Err(ServiceError::OutOfRangeLine);
    }
    let cursor = match file.get_index_of(pos) {
        Ok(c) => c,
        Err(e) => {
            return Err(e);
        },
    };
    proof {
        lemma_resolve_spec_within_line(s, *pos);
    }
    if pos.line == lc {
        proof {
            crate::text::lemma_line_start_past(s, pos.line as int);
            crate::text::lemma_line_start_past(s, pos.line as int + 1);
        }
        return Ok(None);
    }
    let ls = match file.line_start_in(pos.line, Encoding::Utf32) {
        Ok(v) => v,
        Err(e) => {
            return Err(e);
        },
    };
    let line_vec = match file.line_chars(pos.line) {
        Ok(v) => v,
        Err(e) => {
            return Err(e);
        },
    };
    proof {
        crate::text::lemma_line_start_monotone(s, pos.line as int, pos.line as int + 1);
        crate::text::lemma_line_start_le_len(s, pos.line as int + 1);
        assert(line_vec@.len() == line_start(s, pos.line as int + 1) - line_start(
            s,
            pos.line as int,
        ));
    }
    let k = cursor - ls;
    match find_trigger(&line_vec, k) {
        None => {
            proof {
                assert forall|j: int| ls <= j < cursor implies s[j] != trigger_char() by {
                    assert(s[j] == line_vec@[j - ls]);
                }
            }
            Ok(None)
        },
        Some(t) => {
            let mut q: Vec<char> = Vec::new();
            let mut idx = t + 1;
            while idx < k
                invariant
                    t + 1 <= idx <= k,
                    k <= line_vec@.len(),
                    q@ == line_vec@.subrange(t as int + 1, idx as int),
                decreases k - idx,
            {
                q.push(line_vec[idx]);
                proof {
                    assert(line_vec@.subrange(t as int + 1, idx as int + 1) =~= line_vec@.subrange(
                        t as int + 1,
                        idx as int,
                    ).push(line_vec@[idx as int]));
                }
                idx = idx + 1;
            }
            let query = chars_to_string(&q);
            let ctx = CompletionContext { query, line: pos.line, start_in_line: t, cursor_in_line: k };
            proof {
                assert(s[ls + t] == line_vec@[t as int]);
                assert forall|j: int| ls + t + 1 <= j < cursor implies s[j] != trigger_char() by {
                    assert(s[j] == line_vec@[j - ls]);
                }
                assert(ctx.query@ =~= s.subrange(ls + t + 1, cursor as int));
            }
            Ok(Some(ctx))
        },
    }
}

/// Answers a completion query: resolve the cursor, find the context,
/// and label every candidate the query matches. No context is an empty
/// answer, not an error.
pub fn completion(file: &VirtualFile, pos: &Position, data: &Vec<UnicodeEntry>) -> (r: Result<
    Option<(CompletionContext, Vec<CompletionItem>)>,
    ServiceError,
>)
    ensures
        r is Ok <==> pos.line <= line_count(file@),
        r is Err ==> r->Err_0 == ServiceError::OutOfRangeLine,
        r is Ok && r->Ok_0 is Some ==> {
            let (ctx, items) = r->Ok_0->0;
            &&& context_found_spec(file@, *pos, ctx)
            &&& items@.len() == matching_entries(data@, ctx.query@).len()
            &&& forall|k: int|
                0 <= k < items@.len() ==> item_for(
                    #[trigger] items@[k],
                    matching_entries(data@, ctx.query@)[k],
                )
        },
        r is Ok && r->Ok_0 is None ==> no_context_spec(file@, *pos),
{
    let ctx = match completion_context(file, pos) {
        Ok(Some(ctx)) => ctx,
        Ok(None) => {
            return Ok(None);
        },
        Err(e) => {
            return Err(e);
        },
    };
    let items = completion_items(data, &ctx.query);
    Ok(Some((ctx, items)))
}

} // verus!
