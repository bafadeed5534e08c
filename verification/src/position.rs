//! Document text and the positions in it.
//!
//! A document is a [`Rope`]. Syntax nodes carry byte spans; editors speak of
//! lines and UTF-16 columns. This module holds the two conversions and the
//! edit types that carry their results.

use ropey::Rope;
use vstd::prelude::*;

verus! {

/// A zero-based line and a zero-based UTF-16 column.
#[derive(Debug, Clone, Copy, PartialEq, Eq, Structural)]
pub struct Position {
    pub line: u32,
    pub character: u32,
}

/// From `start` up to, but without, `end`.
#[derive(Debug, Clone, Copy, PartialEq, Eq, Structural)]
pub struct Range {
    pub start: Position,
    pub end: Position,
}

/// A half-open span of byte offsets.
#[derive(Debug, Clone, Copy, PartialEq, Eq, Structural)]
pub struct Span {
    pub start: usize,
    pub end: usize,
}

/// The text of `range` is replaced by `new_text`.
#[derive(Debug)]
pub struct TextEdit {
    pub range: Range,
    pub new_text: String,
}

/// The model of a [`TextEdit`].
pub struct EditV {
    pub range: Range,
    pub new_text: Seq<char>,
}

impl View for TextEdit {
    type V = EditV;

    open spec fn view(&self) -> EditV {
        EditV { range: self.range, new_text: self.new_text@ }
    }
}

/// The models of a sequence of edits.
pub open spec fn edits_view(v: Seq<TextEdit>) -> Seq<EditV> {
    Seq::new(v.len(), |i: int| v[i]@)
}

impl Position {
    pub fn new(line: u32, character: u32) -> (r: Position)
        ensures
            r == (Position { line, character }),
    {
        Position { line, character }
    }

    /// `self` stands before `other` or is the same position.
    pub open spec fn le_spec(self, other: Position) -> bool {
        self.line < other.line || (self.line == other.line && self.character <= other.character)
    }

    pub fn le(self, other: Position) -> (r: bool)
        ensures
            r == self.le_spec(other),
    {
        self.line < other.line || (self.line == other.line && self.character <= other.character)
    }
}

/// `pos` lies in `range`, both ends included.
pub open spec fn range_contains(range: Range, pos: Position) -> bool {
    range.start.le_spec(pos) && pos.le_spec(range.end)
}

pub fn contains(range: &Range, pos: Position) -> (r: bool)
    ensures
        r == range_contains(*range, pos),
{
    range.start.le(pos) && pos.le(range.end)
}

/// `inner` lies in `outer`.
pub open spec fn range_within(outer: Range, inner: Range) -> bool {
    outer.start.le_spec(inner.start) && inner.end.le_spec(outer.end)
}

pub fn within(outer: &Range, inner: Range) -> (r: bool)
    ensures
        r == range_within(*outer, inner),
{
    outer.start.le(inner.start) && inner.end.le(outer.end)
}

// ---------------------------------------------------------------------
// The rope

#[verifier::external_type_specification]
#[verifier::external_body]
pub struct ExRope(ropey::Rope);

/// The characters that a rope holds.
pub uninterp spec fn rope_text(rope: Rope) -> Seq<char>;

/// The width of a character in UTF-8.
pub open spec fn utf8_width(c: char) -> nat {
    if (c as u32) < 0x80 {
        1
    } else if (c as u32) < 0x800 {
        2
    } else if (c as u32) < 0x10000 {
        3
    } else {
        4
    }
}

/// The width of a character in UTF-16.
pub open spec fn utf16_width(c: char) -> nat {
    if (c as u32) < 0x10000 {
        1
    } else {
        2
    }
}

pub open spec fn utf8_len(t: Seq<char>) -> nat
    decreases t.len(),
{
    if t.len() == 0 {
        0
    } else {
        utf8_len(t.drop_last()) + utf8_width(t.last())
    }
}

pub open spec fn utf16_len(t: Seq<char>) -> nat
    decreases t.len(),
{
    if t.len() == 0 {
        0
    } else {
        utf16_len(t.drop_last()) + utf16_width(t.last())
    }
}

/// Character `i` ends a line. A carriage return that a line feed follows
/// does not: the line feed does.
pub open spec fn ends_line(t: Seq<char>, i: int) -> bool {
    let c = t[i] as u32;
    ||| c == 0x0a
    ||| c == 0x0b
    ||| c == 0x0c
    ||| c == 0x85
    ||| c == 0x2028
    ||| c == 0x2029
    ||| c == 0x0d && !(i + 1 < t.len() && t[i + 1] as u32 == 0x0a)
}

/// How many lines end before character `k`.
pub open spec fn line_of(t: Seq<char>, k: int) -> nat
    decreases k,
{
    if k <= 0 {
        0
    } else {
        line_of(t, k - 1) + if ends_line(t, k - 1) { 1nat } else { 0nat }
    }
}

/// How many lines `t` has; text that ends in a line break has an empty last line.
pub open spec fn line_count(t: Seq<char>) -> nat {
    line_of(t, t.len() as int) + 1
}

/// The first character at or after `k` before which `l` lines have ended.
pub open spec fn line_start_from(t: Seq<char>, l: nat, k: int) -> int
    decreases t.len() - k,
{
    if k >= t.len() || line_of(t, k) >= l {
        k
    } else {
        line_start_from(t, l, k + 1)
    }
}

/// The index of the first character of line `l`, or the length of the text
/// where there is no such line.
pub open spec fn line_start(t: Seq<char>, l: nat) -> int {
    line_start_from(t, l, 0)
}

/// The last character index at or before byte `b` and not before `k`.
pub open spec fn char_at_byte_from(t: Seq<char>, b: nat, k: int) -> int
    decreases t.len() - k,
{
    if k >= t.len() || utf8_len(t.take(k + 1)) > b {
        k
    } else {
        char_at_byte_from(t, b, k + 1)
    }
}

/// The index of the character that byte `b` belongs to.
pub open spec fn char_at_byte(t: Seq<char>, b: nat) -> int {
    char_at_byte_from(t, b, 0)
}

/// The last character index at or before UTF-16 unit `u` and not before `k`.
pub open spec fn char_at_utf16_from(t: Seq<char>, u: nat, k: int) -> int
    decreases t.len() - k,
{
    if k >= t.len() || utf16_len(t.take(k + 1)) > u {
        k
    } else {
        char_at_utf16_from(t, u, k + 1)
    }
}

/// The index of the character that UTF-16 unit `u` belongs to.
pub open spec fn char_at_utf16(t: Seq<char>, u: nat) -> int {
    char_at_utf16_from(t, u, 0)
}

/// `Rope::from_str` holds the given text.
#[verifier::external_body]
pub(crate) fn rope_from_str(text: &str) -> (r: Rope)
    ensures
        rope_text(r) == text@,
{
    Rope::from_str(text)
}

/// `Rope`'s `to_string` gives the text back.
#[verifier::external_body]
pub(crate) fn rope_to_string(rope: &Rope) -> (r: String)
    ensures
        r@ == rope_text(*rope),
{
    rope.to_string()
}

/// `Rope::len_bytes` is the length of the text in UTF-8.
#[verifier::external_body]
pub(crate) fn rope_len_bytes(rope: &Rope) -> (r: usize)
    ensures
        r == utf8_len(rope_text(*rope)),
{
    rope.len_bytes()
}

/// `Rope::len_chars` is the number of characters.
#[verifier::external_body]
pub(crate) fn rope_len_chars(rope: &Rope) -> (r: usize)
    ensures
        r == rope_text(*rope).len(),
{
    rope.len_chars()
}

/// `Rope::len_lines` counts the line breaks and adds one.
#[verifier::external_body]
pub(crate) fn rope_len_lines(rope: &Rope) -> (r: usize)
    ensures
        r == line_count(rope_text(*rope)),
{
    rope.len_lines()
}

/// `Rope::byte_to_char` gives the character that the byte belongs to, and the
/// number of characters for the byte one past the end. It panics past that.
#[verifier::external_body]
pub(crate) fn rope_byte_to_char(rope: &Rope, byte: usize) -> (r: usize)
    requires
        byte <= utf8_len(rope_text(*rope)),
    ensures
        r == char_at_byte(rope_text(*rope), byte as nat),
        r <= rope_text(*rope).len(),
{
    rope.byte_to_char(byte)
}

/// `Rope::char_to_byte` gives the offset at which the character starts. It
/// panics beyond one past the last character.
#[verifier::external_body]
pub(crate) fn rope_char_to_byte(rope: &Rope, k: usize) -> (r: usize)
    requires
        k <= rope_text(*rope).len(),
    ensures
        r == utf8_len(rope_text(*rope).take(k as int)),
{
    rope.char_to_byte(k)
}

/// `Rope::char_to_line` counts the line breaks before the character. It
/// panics beyond one past the last character.
#[verifier::external_body]
pub(crate) fn rope_char_to_line(rope: &Rope, k: usize) -> (r: usize)
    requires
        k <= rope_text(*rope).len(),
    ensures
        r == line_of(rope_text(*rope), k as int),
{
    rope.char_to_line(k)
}

/// `Rope::line_to_char` gives the first character of the line, and the number
/// of characters for the line one past the last. It panics past that.
#[verifier::external_body]
pub(crate) fn rope_line_to_char(rope: &Rope, line: usize) -> (r: usize)
    requires
        line <= line_count(rope_text(*rope)),
    ensures
        r == line_start(rope_text(*rope), line as nat),
        r <= rope_text(*rope).len(),
{
    rope.line_to_char(line)
}

/// `Rope::char_to_utf16_cu` is the length in UTF-16 of what stands before the
/// character. It panics beyond one past the last character.
#[verifier::external_body]
pub(crate) fn rope_char_to_utf16(rope: &Rope, k: usize) -> (r: usize)
    requires
        k <= rope_text(*rope).len(),
    ensures
        r == utf16_len(rope_text(*rope).take(k as int)),
{
    rope.char_to_utf16_cu(k)
}

/// `Rope::utf16_cu_to_char` gives the character that the unit belongs to. It
/// panics beyond one past the last unit.
#[verifier::external_body]
pub(crate) fn rope_utf16_to_char(rope: &Rope, unit: usize) -> (r: usize)
    requires
        unit <= utf16_len(rope_text(*rope)),
    ensures
        r == char_at_utf16(rope_text(*rope), unit as nat),
        r <= rope_text(*rope).len(),
{
    rope.utf16_cu_to_char(unit)
}

/// `Rope::slice` with `to_string` copies the characters between two indices.
/// It panics where they are out of order or out of bounds.
#[verifier::external_body]
pub(crate) fn rope_slice(rope: &Rope, from: usize, to: usize) -> (r: String)
    requires
        from <= to <= rope_text(*rope).len(),
    ensures
        r@ == rope_text(*rope).subrange(from as int, to as int),
{
    rope.slice(from..to).to_string()
}

// ---------------------------------------------------------------------
// Offsets and positions

/// The position of character `k`.
pub open spec fn char_position(t: Seq<char>, k: int) -> (int, int) {
    let l = line_of(t, k);
    (l as int, utf16_len(t.take(k)) - utf16_len(t.take(line_start(t, l))))
}

/// The position of a byte offset; `None` past the end of the text, or where
/// the line or the column does not fit.
pub open spec fn offset_position(t: Seq<char>, b: int) -> Option<Position> {
    if 0 <= b <= utf8_len(t) {
        let p = char_position(t, char_at_byte(t, b as nat));
        if p.0 <= u32::MAX && 0 <= p.1 <= u32::MAX {
            Some(Position { line: p.0 as u32, character: p.1 as u32 })
        } else {
            None
        }
    } else {
        None
    }
}

/// The byte offset of a position; `None` where there is no such line, or the
/// line ends before the column.
pub open spec fn position_offset(t: Seq<char>, p: Position) -> Option<int> {
    if p.line >= line_count(t) {
        None
    } else {
        let from = utf16_len(t.take(line_start(t, p.line as nat)));
        let to = utf16_len(t.take(line_start(t, p.line as nat + 1)));
        if from + p.character > to {
            None
        } else {
            Some(utf8_len(t.take(char_at_utf16(t, (from + p.character) as nat))) as int)
        }
    }
}

pub open spec fn span_range(t: Seq<char>, s: Span) -> Option<Range> {
    match (offset_position(t, s.start as int), offset_position(t, s.end as int)) {
        (Some(start), Some(end)) => Some(Range { start, end }),
        _ => None,
    }
}

/// The position of a byte offset.
pub fn byte_offset_to_lsp_position(rope: &Rope, byte: usize) -> (r: Option<Position>)
    ensures
        r == offset_position(rope_text(*rope), byte as int),
{
    if byte > rope_len_bytes(rope) {
        return None;
    }
    let ghost t = rope_text(*rope);
    let k = rope_byte_to_char(rope, byte);
    let line = rope_char_to_line(rope, k);
    proof {
        lemma_line_of_monotone(t, k as int, t.len() as int);
    }
    let start = rope_line_to_char(rope, line);
    let to = rope_char_to_utf16(rope, k);
    let from = rope_char_to_utf16(rope, start);
    if to < from {
        return None;
    }
    let column: usize = to - from;
    if line > u32::MAX as usize || column > u32::MAX as usize {
        return None;
    }
    Some(Position { line: line as u32, character: column as u32 })
}

/// The byte offset of a position.
pub fn lsp_position_to_byte_offset(rope: &Rope, pos: Position) -> (r: Option<usize>)
    ensures
        match r {
            Some(b) => position_offset(rope_text(*rope), pos) == Some(b as int),
            None => position_offset(rope_text(*rope), pos) is None,
        },
{
    let ghost t = rope_text(*rope);
    let lines = rope_len_lines(rope);
    if pos.line as usize >= lines {
        return None;
    }
    let line: usize = pos.line as usize;
    let from_char = rope_line_to_char(rope, line);
    let to_char = rope_line_to_char(rope, line + 1);
    let from = rope_char_to_utf16(rope, from_char);
    let to = rope_char_to_utf16(rope, to_char);
    if from > to || pos.character as usize > to - from {
        return None;
    }
    proof {
        lemma_utf16_len_monotone(t, to_char as int, t.len() as int);
        assert(t.take(t.len() as int) =~= t);
    }
    let k = rope_utf16_to_char(rope, from + pos.character as usize);
    Some(rope_char_to_byte(rope, k))
}

/// The range of a byte span.
pub fn hcl_span_to_lsp_range(rope: &Rope, span: Span) -> (r: Option<Range>)
    ensures
        r == span_range(rope_text(*rope), span),
{
    match (
        byte_offset_to_lsp_position(rope, span.start),
        byte_offset_to_lsp_position(rope, span.end),
    ) {
        (Some(start), Some(end)) => Some(Range { start, end }),
        _ => None,
    }
}

pub proof fn lemma_line_of_monotone(t: Seq<char>, a: int, b: int)
    requires
        0 <= a <= b,
    ensures
        line_of(t, a) <= line_of(t, b),
    decreases b - a,
{
    if a < b {
        lemma_line_of_monotone(t, a, b - 1);
    }
}

proof fn lemma_utf16_len_monotone(t: Seq<char>, a: int, b: int)
    requires
        0 <= a <= b <= t.len(),
    ensures
        utf16_len(t.take(a)) <= utf16_len(t.take(b)),
        utf16_len(t.take(b)) - utf16_len(t.take(a)) >= b - a,
    decreases b - a,
{
    if a < b {
        lemma_utf16_len_monotone(t, a, b - 1);
        assert(t.take(b).drop_last() =~= t.take(b - 1));
    }
}

proof fn lemma_utf8_len_monotone(t: Seq<char>, a: int, b: int)
    requires
        0 <= a <= b <= t.len(),
    ensures
        utf8_len(t.take(b)) - utf8_len(t.take(a)) >= b - a,
    decreases b - a,
{
    if a < b {
        lemma_utf8_len_monotone(t, a, b - 1);
        assert(t.take(b).drop_last() =~= t.take(b - 1));
    }
}

pub proof fn lemma_char_at_byte(t: Seq<char>, k: int, j: int)
    requires
        0 <= j <= k <= t.len(),
    ensures
        char_at_byte_from(t, utf8_len(t.take(k)), j) == k,
    decreases k - j,
{
    if j < k {
        lemma_utf8_len_monotone(t, j + 1, k);
        lemma_char_at_byte(t, k, j + 1);
    } else if k < t.len() {
        lemma_utf8_len_monotone(t, k, k + 1);
    }
}

proof fn lemma_char_at_utf16(t: Seq<char>, k: int, j: int)
    requires
        0 <= j <= k <= t.len(),
    ensures
        char_at_utf16_from(t, utf16_len(t.take(k)), j) == k,
    decreases k - j,
{
    if j < k {
        lemma_utf16_len_monotone(t, j + 1, k);
        lemma_char_at_utf16(t, k, j + 1);
    } else if k < t.len() {
        lemma_utf16_len_monotone(t, k, k + 1);
    }
}

/// Later bytes belong to later characters.
pub proof fn lemma_char_at_byte_monotone(t: Seq<char>, a: nat, b: nat, j: int)
    requires
        a <= b,
        0 <= j <= t.len(),
    ensures
        j <= char_at_byte_from(t, a, j) <= char_at_byte_from(t, b, j) <= t.len(),
    decreases t.len() - j,
{
    if j < t.len() {
        lemma_char_at_byte_monotone(t, a, b, j + 1);
    }
}

pub proof fn lemma_line_start_before(t: Seq<char>, k: int, j: int)
    requires
        0 <= j <= k <= t.len(),
    ensures
        line_start_from(t, line_of(t, k), j) <= k,
    decreases k - j,
{
    if j < k && line_of(t, j) < line_of(t, k) {
        lemma_line_start_before(t, k, j + 1);
    }
}

pub proof fn lemma_next_line_after(t: Seq<char>, k: int, j: int)
    requires
        0 <= j <= k <= t.len(),
    ensures
        k <= line_start_from(t, line_of(t, k) + 1, j) <= t.len(),
    decreases t.len() - j,
{
    if j < k {
        lemma_line_of_monotone(t, j, k);
        lemma_next_line_after(t, k, j + 1);
    } else if j < t.len() {
        lemma_line_start_bound(t, line_of(t, k) + 1, j);
    }
}

pub proof fn lemma_line_start_bound(t: Seq<char>, l: nat, j: int)
    requires
        0 <= j <= t.len(),
    ensures
        j <= line_start_from(t, l, j) <= t.len(),
    decreases t.len() - j,
{
    if j < t.len() && line_of(t, j) < l {
        lemma_line_start_bound(t, l, j + 1);
    }
}

/// A line does not start before the one above it.
pub proof fn lemma_line_start_ordered(t: Seq<char>, l: nat, j: int)
    requires
        0 <= j <= t.len(),
    ensures
        line_start_from(t, l, j) <= line_start_from(t, l + 1, j) <= t.len(),
    decreases t.len() - j,
{
    lemma_line_start_bound(t, l + 1, j);
    if j < t.len() && line_of(t, j) < l {
        lemma_line_start_ordered(t, l, j + 1);
    }
}

/// Beyond the last line there is only the end of the text.
pub proof fn lemma_line_start_past(t: Seq<char>, l: nat, j: int)
    requires
        0 <= j <= t.len(),
        l >= line_count(t),
    ensures
        line_start_from(t, l, j) == t.len(),
    decreases t.len() - j,
{
    if j < t.len() {
        lemma_line_of_monotone(t, j, t.len() as int);
        lemma_line_start_past(t, l, j + 1);
    }
}

/// A number, or the largest that fits.
pub open spec fn min_u32(n: nat) -> u32 {
    if n > u32::MAX {
        u32::MAX
    } else {
        n as u32
    }
}

/// The byte offset of a character.
pub open spec fn char_offset(t: Seq<char>, k: int) -> int {
    utf8_len(t.take(k)) as int
}

/// The position of a character is found back: its offset gives the position,
/// and the position gives the offset.
pub proof fn position_round_trip(t: Seq<char>, k: int)
    requires
        0 <= k <= t.len(),
    ensures
        offset_position(t, char_offset(t, k)) matches Some(p) ==> position_offset(t, p) == Some(
            char_offset(t, k),
        ),
{
    let b = char_offset(t, k);
    lemma_utf8_len_monotone(t, k, t.len() as int);
    assert(t.take(t.len() as int) =~= t);
    lemma_char_at_byte(t, k, 0);
    lemma_char_at_utf16(t, k, 0);
    lemma_line_start_before(t, k, 0);
    lemma_next_line_after(t, k, 0);
    lemma_line_of_monotone(t, k, t.len() as int);
    let l = line_of(t, k);
    lemma_line_start_bound(t, l, 0);
    lemma_utf16_len_monotone(t, line_start(t, l), k);
    lemma_utf16_len_monotone(t, k, line_start(t, l + 1));
}

/// Every character of a text with fewer than 2^32 UTF-16 units has a position.
pub proof fn short_text_has_positions(t: Seq<char>, k: int)
    requires
        0 <= k <= t.len(),
        utf16_len(t) <= u32::MAX,
    ensures
        offset_position(t, char_offset(t, k)) is Some,
{
    lemma_utf8_len_monotone(t, k, t.len() as int);
    assert(t.take(t.len() as int) =~= t);
    lemma_char_at_byte(t, k, 0);
    lemma_line_start_before(t, k, 0);
    lemma_line_start_bound(t, line_of(t, k), 0);
    lemma_utf16_len_monotone(t, line_start(t, line_of(t, k)), k);
    lemma_utf16_len_monotone(t, k, t.len() as int);
    lemma_utf16_len_monotone(t, 0, k);
    lemma_line_of_bound(t, k);
}

proof fn lemma_line_of_bound(t: Seq<char>, k: int)
    requires
        0 <= k,
    ensures
        line_of(t, k) <= k,
    decreases k,
{
    if k > 0 {
        lemma_line_of_bound(t, k - 1);
    }
}

/// The position of a character index.
pub fn char_to_lsp_position(rope: &Rope, k: usize) -> (r: Option<Position>)
    requires
        k <= rope_text(*rope).len(),
    ensures
        r == offset_position(rope_text(*rope), char_offset(rope_text(*rope), k as int)),
{
    byte_offset_to_lsp_position(rope, rope_char_to_byte(rope, k))
}

/// The text between two byte offsets.
pub open spec fn text_between(t: Seq<char>, from: int, to: int) -> Seq<char> {
    t.subrange(char_at_byte(t, from as nat), char_at_byte(t, to as nat))
}

/// The text between two byte offsets; `None` where they are out of order or
/// out of bounds.
pub fn rope_between(rope: &Rope, from: usize, to: usize) -> (r: Option<String>)
    ensures
        match r {
            Some(s) => from <= to <= utf8_len(rope_text(*rope)) && s@ == text_between(
                rope_text(*rope),
                from as int,
                to as int,
            ),
            None => !(from <= to <= utf8_len(rope_text(*rope))),
        },
{
    if from > to || to > rope_len_bytes(rope) {
        return None;
    }
    let a = rope_byte_to_char(rope, from);
    let b = rope_byte_to_char(rope, to);
    proof {
        lemma_char_at_byte_monotone(rope_text(*rope), from as nat, to as nat, 0);
    }
    Some(rope_slice(rope, a, b))
}

/// The text of a range; `None` where it has no offsets or they are out of order.
pub open spec fn range_text(t: Seq<char>, range: Range) -> Option<Seq<char>> {
    match (position_offset(t, range.start), position_offset(t, range.end)) {
        (Some(a), Some(b)) => if a <= b {
            Some(text_between(t, a, b))
        } else {
            None
        },
        _ => None,
    }
}

/// The text that a range covers.
pub fn slice_text(rope: &Rope, range: Range) -> (r: Option<String>)
    ensures
        crate::text::opt_view(r) == range_text(rope_text(*rope), range),
{
    let ghost t = rope_text(*rope);
    let start = match lsp_position_to_byte_offset(rope, range.start) {
        Some(b) => b,
        None => {
            return None;
        },
    };
    let end = match lsp_position_to_byte_offset(rope, range.end) {
        Some(b) => b,
        None => {
            return None;
        },
    };
    proof {
        lemma_position_offset_bound(t, range.end);
    }
    rope_between(rope, start, end)
}

/// The offset of a position lies within the text.
pub proof fn lemma_position_offset_bound(t: Seq<char>, p: Position)
    ensures
        position_offset(t, p) matches Some(b) ==> 0 <= b <= utf8_len(t),
{
    if position_offset(t, p) is Some {
        let from = utf16_len(t.take(line_start(t, p.line as nat)));
        let k = char_at_utf16(t, (from + p.character) as nat);
        lemma_char_at_utf16_bound(t, (from + p.character) as nat, 0);
        lemma_utf8_len_monotone(t, k, t.len() as int);
        assert(t.take(t.len() as int) =~= t);
    }
}

proof fn lemma_char_at_utf16_bound(t: Seq<char>, u: nat, j: int)
    requires
        0 <= j <= t.len(),
    ensures
        j <= char_at_utf16_from(t, u, j) <= t.len(),
    decreases t.len() - j,
{
    if j < t.len() {
        lemma_char_at_utf16_bound(t, u, j + 1);
    }
}

/// The length of a text in UTF-8.
pub fn byte_len(s: &str) -> (r: usize)
    ensures
        r == utf8_len(s@),
{
    rope_len_bytes(&rope_from_str(s))
}

/// The byte offset of a character of a text.
pub fn byte_index(s: &str, k: usize) -> (r: usize)
    requires
        k <= s@.len(),
    ensures
        r == utf8_len(s@.take(k as int)),
{
    rope_char_to_byte(&rope_from_str(s), k)
}

/// The position `rel` bytes behind an offset.
pub fn position_behind(rope: &Rope, base: usize, rel: usize) -> (r: Option<Position>)
    ensures
        r == offset_position(rope_text(*rope), base + rel),
{
    let total = rope_len_bytes(rope);
    if base > total || rel > total - base {
        return None;
    }
    byte_offset_to_lsp_position(rope, base + rel)
}

pub proof fn lemma_utf8_len_add(a: Seq<char>, b: Seq<char>)
    ensures
        utf8_len(a + b) == utf8_len(a) + utf8_len(b),
    decreases b.len(),
{
    if b.len() == 0 {
        assert(a + b =~= a);
    } else {
        lemma_utf8_len_add(a, b.drop_last());
        assert((a + b).drop_last() =~= a + b.drop_last());
    }
}

/// The offset of a position is that of a character.
pub proof fn lemma_position_is_char(t: Seq<char>, p: Position) -> (k: int)
    requires
        position_offset(t, p) is Some,
    ensures
        0 <= k <= t.len(),
        position_offset(t, p) == Some(char_offset(t, k)),
        char_at_byte(t, char_offset(t, k) as nat) == k,
{
    let from = utf16_len(t.take(line_start(t, p.line as nat)));
    let k = char_at_utf16(t, (from + p.character) as nat);
    lemma_char_at_utf16_bound(t, (from + p.character) as nat, 0);
    lemma_char_at_byte(t, k, 0);
    k
}

/// The part of a range's text from its character `i` on, `n` characters long,
/// has a range of its own, and that holds the part.
pub proof fn part_of_range_holds_part(t: Seq<char>, range: Range, i: int, n: int)
    requires
        range_text(t, range) is Some,
        0 <= i,
        0 <= n,
        i + n <= range_text(t, range)->0.len(),
    ensures
        ({
            let text = range_text(t, range)->0;
            let a = position_offset(t, range.start)->0 + utf8_len(text.take(i));
            let b = a + utf8_len(text.subrange(i, i + n));
            (offset_position(t, a), offset_position(t, b)) matches (Some(start), Some(end))
                ==> range_text(t, Range { start, end }) == Some(text.subrange(i, i + n))
        }),
{
    let text = range_text(t, range)->0;
    let k = lemma_position_is_char(t, range.start);
    let e = lemma_position_is_char(t, range.end);
    assert(text == t.subrange(k, e));
    assert(k <= e) by {
        lemma_char_at_byte_monotone(
            t,
            char_offset(t, k) as nat,
            char_offset(t, e) as nat,
            0,
        );
    }
    let part = text.subrange(i, i + n);
    assert(text.take(i) =~= t.subrange(k, k + i));
    assert(part =~= t.subrange(k + i, k + i + n));
    lemma_utf8_len_add(t.take(k), t.subrange(k, k + i));
    assert(t.take(k) + t.subrange(k, k + i) =~= t.take(k + i));
    lemma_utf8_len_add(t.take(k + i), part);
    assert(t.take(k + i) + part =~= t.take(k + i + n));
    position_round_trip(t, k + i);
    position_round_trip(t, k + i + n);
    lemma_char_at_byte(t, k + i, 0);
    lemma_char_at_byte(t, k + i + n, 0);
}

/// A later offset has no earlier position.
pub proof fn positions_keep_order(t: Seq<char>, a: int, b: int)
    requires
        a <= b,
        offset_position(t, a) is Some,
        offset_position(t, b) is Some,
    ensures
        offset_position(t, a)->0.le_spec(offset_position(t, b)->0),
{
    let i = char_at_byte(t, a as nat);
    let j = char_at_byte(t, b as nat);
    lemma_char_at_byte_monotone(t, a as nat, b as nat, 0);
    lemma_line_of_monotone(t, i, j);
    lemma_utf16_len_monotone(t, i, j);
}

} // verus!
