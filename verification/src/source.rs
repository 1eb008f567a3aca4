//! Byte offsets into PDL source text: line and column numbers, line
//! bounds, and the one-line rendering of a diagnostic.
use vstd::prelude::*;
use vstd::string::StringSliceAdditionalSpecFns;
use vstd::utf8::*;

use crate::diagnostic::Diagnostic;
use crate::text::{decimal, push_char, push_decimal, push_str};

verus! {

/// The number of newline bytes (`\n`) in `b`.
pub open spec fn newline_count(b: Seq<u8>) -> nat
    decreases b.len(),
{
    if b.len() == 0 {
        0
    } else {
        newline_count(b.drop_last()) + if b.last() == 10u8 { 1nat } else { 0nat }
    }
}

/// The number of characters that start in `b`: its bytes that are not
/// UTF-8 continuation bytes.
pub open spec fn char_count(b: Seq<u8>) -> nat
    decreases b.len(),
{
    if b.len() == 0 {
        0
    } else {
        char_count(b.drop_last()) + if is_continuation_byte(b.last()) { 0nat } else { 1nat }
    }
}

/// The index just after the last newline in `b`, or 0 when there is none.
pub open spec fn line_start_before(b: Seq<u8>) -> int
    decreases b.len(),
{
    if b.len() == 0 {
        0
    } else if b.last() == 10u8 {
        b.len() as int
    } else {
        line_start_before(b.drop_last())
    }
}

/// The index of the first newline in `b`, or `b.len()` when there is none.
pub open spec fn first_newline(b: Seq<u8>) -> int
    decreases b.len(),
{
    if b.len() == 0 {
        0
    } else if b[0] == 10u8 {
        0
    } else {
        1 + first_newline(b.drop_first())
    }
}

/// `offset`, or the length of `b` when the offset lies past the end.
pub open spec fn clamp_offset(b: Seq<u8>, offset: int) -> int {
    if offset < b.len() {
        offset
    } else {
        b.len() as int
    }
}

/// Line and column (both from 1) of the character at byte `offset`:
/// one line per newline among the characters that start before `offset`,
/// one column per character after the last of those newlines.
pub open spec fn line_col_spec(bytes: Seq<u8>, offset: int) -> (int, int) {
    let p = bytes.take(clamp_offset(bytes, offset));
    (1 + newline_count(p) as int, 1 + char_count(p.skip(line_start_before(p))) as int)
}

/// Byte bounds `[start, end)` of the line holding byte `offset`, newline
/// excluded; an offset past the end stands for the end of the text.
pub open spec fn line_bounds_spec(bytes: Seq<u8>, offset: int) -> (int, int) {
    let o = clamp_offset(bytes, offset);
    (line_start_before(bytes.take(o)), o + first_newline(bytes.skip(o)))
}

proof fn lemma_first_newline_bounds(b: Seq<u8>)
    ensures
        0 <= first_newline(b) <= b.len(),
        first_newline(b) < b.len() ==> b[first_newline(b)] == 10u8,
    decreases b.len(),
{
    if b.len() > 0 && b[0] != 10u8 {
        lemma_first_newline_bounds(b.drop_first());
    }
}

proof fn lemma_line_start_bounds(b: Seq<u8>)
    ensures
        0 <= line_start_before(b) <= b.len(),
        line_start_before(b) > 0 ==> b[line_start_before(b) - 1] == 10u8,
    decreases b.len(),
{
    if b.len() > 0 && b.last() != 10u8 {
        lemma_line_start_bounds(b.drop_last());
    }
}

/// In valid UTF-8, the first byte and any byte that follows an ASCII byte
/// start a character.
pub proof fn lemma_after_ascii_starts_char(b: Seq<u8>, i: int)
    requires
        valid_utf8(b),
        0 <= i < b.len(),
        i == 0 || b[i - 1] < 0x80,
    ensures
        !is_continuation_byte(b[i]),
    decreases b.len(),
{
    let l = length_of_first_scalar(b);
    if i >= l {
        let rest = pop_first_scalar(b);
        assert(rest[i - l] == b[i]);
        if i - l > 0 {
            assert(rest[i - l - 1] == b[i - 1]);
        }
        lemma_after_ascii_starts_char(rest, i - l);
    }
}

/// Positions just after a newline byte and positions of newline bytes are
/// character boundaries.
pub proof fn lemma_newline_boundaries(b: Seq<u8>, i: int)
    requires
        valid_utf8(b),
        0 <= i <= b.len(),
        i == 0 || i == b.len() || b[i - 1] == 10u8 || b[i] == 10u8,
    ensures
        is_char_boundary(b, i),
{
    is_char_boundary_start_end_of_seq(b);
    if 0 < i < b.len() {
        if b[i - 1] == 10u8 {
            lemma_after_ascii_starts_char(b, i);
        }
        is_char_boundary_iff_not_is_continuation_byte(b, i);
    }
}

/// The line bounds around any offset are character boundaries with the
/// clamped offset between them.
pub proof fn lemma_line_bounds_valid(bytes: Seq<u8>, offset: int)
    requires
        valid_utf8(bytes),
        0 <= offset,
    ensures
        ({
            let (ls, le) = line_bounds_spec(bytes, offset);
            let o = clamp_offset(bytes, offset);
            &&& 0 <= ls <= o <= le <= bytes.len()
            &&& is_char_boundary(bytes, ls)
            &&& is_char_boundary(bytes, le)
        }),
{
    let o = clamp_offset(bytes, offset);
    let p = bytes.take(o);
    lemma_line_start_bounds(p);
    lemma_first_newline_bounds(bytes.skip(o));
    let (ls, le) = line_bounds_spec(bytes, offset);
    if ls > 0 {
        assert(p[ls - 1] == bytes[ls - 1]);
        assert(bytes[ls - 1] == 10u8);
    }
    lemma_newline_boundaries(bytes, ls);
    if le < bytes.len() {
        assert(bytes.skip(o)[le - o] == bytes[le]);
        assert(bytes[le] == 10u8);
    }
    lemma_newline_boundaries(bytes, le);
}

/// The number of characters that start among `bytes[from..to]`.
pub fn count_chars(bytes: &[u8], from: usize, to: usize) -> (r: usize)
    requires
        from <= to <= bytes.len(),
    ensures
        r == char_count(bytes@.subrange(from as int, to as int)),
        r <= to - from,
{
    let mut i = from;
    let mut count: usize = 0;
    while i < to
        invariant
            from <= i <= to <= bytes.len(),
            count == char_count(bytes@.subrange(from as int, i as int)),
            count <= i - from,
        decreases to - i,
    {
        let b = bytes[i];
        assert(bytes@.subrange(from as int, i + 1).drop_last() =~= bytes@.subrange(from as int, i as int));
        if !(0x80 <= b && b <= 0xbf) {
            count += 1;
        }
        i += 1;
    }
    count
}

/// Line and column (both from 1) of byte `byte_offset` in `source`.
pub fn line_col(source: &str, byte_offset: usize) -> (r: (usize, usize))
    requires
        source.spec_bytes().len() < usize::MAX,
    ensures
        (r.0 as int, r.1 as int) == line_col_spec(source.spec_bytes(), byte_offset as int),
{
    let bytes = source.as_bytes();
    let o = if byte_offset < bytes.len() { byte_offset } else { bytes.len() };
    let mut line: usize = 1;
    let mut col: usize = 1;
    let mut i: usize = 0;
    while i < o
        invariant
            o <= bytes.len(),
            bytes.len() < usize::MAX,
            i <= o,
            1 <= line <= i + 1,
            1 <= col <= i + 1,
            line == 1 + newline_count(bytes@.take(i as int)),
            col == 1 + char_count(
                bytes@.take(i as int).skip(line_start_before(bytes@.take(i as int))),
            ),
        decreases o - i,
    {
        let b = bytes[i];
        let ghost p = bytes@.take(i as int);
        let ghost q = bytes@.take(i + 1);
        proof {
            assert(q.drop_last() =~= p);
            lemma_line_start_bounds(p);
        }
        if b == 10 {
            line += 1;
            col = 1;
            assert(q.skip(q.len() as int) =~= Seq::<u8>::empty());
        } else {
            if !(0x80 <= b && b <= 0xbf) {
                col += 1;
            }
            assert(q.skip(line_start_before(p)).drop_last() =~= p.skip(line_start_before(p)));
        }
        i += 1;
    }
    assert(bytes@.take(o as int) == bytes@.take(
        clamp_offset(source.spec_bytes(), byte_offset as int),
    ));
    (line, col)
}

/// Byte bounds `[start, end)` of the line holding `byte_offset`, newline
/// excluded.
pub fn line_bounds(source: &str, byte_offset: usize) -> (r: (usize, usize))
    ensures
        (r.0 as int, r.1 as int) == line_bounds_spec(source.spec_bytes(), byte_offset as int),
{
    let bytes = source.as_bytes();
    let o = if byte_offset < bytes.len() { byte_offset } else { bytes.len() };
    let mut start = o;
    while start > 0 && bytes[start - 1] != 10
        invariant
            start <= o <= bytes.len(),
            line_start_before(bytes@.take(o as int)) == line_start_before(
                bytes@.take(start as int),
            ),
        decreases start,
    {
        assert(bytes@.take(start as int).drop_last() =~= bytes@.take(start - 1));
        start -= 1;
    }
    let mut end = o;
    while end < bytes.len() && bytes[end] != 10
        invariant
            o <= end <= bytes.len(),
            o + first_newline(bytes@.skip(o as int)) == end + first_newline(
                bytes@.skip(end as int),
            ),
        decreases bytes.len() - end,
    {
        assert(bytes@.skip(end as int).drop_first() =~= bytes@.skip(end + 1));
        end += 1;
    }
    (start, end)
}

/// The one-line rendering `severity[code] name:line:col: message`.
pub open spec fn one_line_diagnostic(
    source_name: Seq<char>,
    source: Seq<u8>,
    d: crate::diagnostic::DiagnosticView,
) -> Seq<char> {
    let (line, col) = line_col_spec(source, d.span.start as int);
    d.severity.spec_label() + seq!['['] + d.code + seq![']', ' '] + source_name + seq![':']
        + decimal(line as nat) + seq![':'] + decimal(col as nat) + seq![':', ' '] + d.message
}

/// `severity[code] name:line:col: message`, with the position of the
/// diagnostic's start.
pub fn render_diagnostic(source_name: &str, source: &str, diagnostic: &Diagnostic) -> (r: String)
    requires
        source.spec_bytes().len() < usize::MAX,
    ensures
        r@ == one_line_diagnostic(source_name@, source.spec_bytes(), diagnostic@),
{
    let (line, col) = line_col(source, diagnostic.span.start);
    let mut out = String::new();
    push_str(&mut out, diagnostic.severity.label());
    push_char(&mut out, '[');
    push_str(&mut out, diagnostic.code.as_str());
    push_char(&mut out, ']');
    push_char(&mut out, ' ');
    push_str(&mut out, source_name);
    push_char(&mut out, ':');
    push_decimal(&mut out, line);
    push_char(&mut out, ':');
    push_decimal(&mut out, col);
    push_char(&mut out, ':');
    push_char(&mut out, ' ');
    push_str(&mut out, diagnostic.message.as_str());
    assert(out@ =~= one_line_diagnostic(source_name@, source.spec_bytes(), diagnostic@));
    out
}

} // verus!
