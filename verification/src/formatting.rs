//! Formatting: what is handed to the formatter, and the edits that its result
//! becomes.

use crate::actions::{
    actions_view, with_edits, CodeAction, CodeActionV, EditMap, EditMapV, WorkspaceEdit,
    WorkspaceEditV,
};
use crate::hcl::{
    block_pointees, blocks, lemma_block_smaller, list_blocks, Block, Body,
};
use crate::minimal_edits::{lemma_joined_step, lemma_line_starts};
use crate::position::{
    byte_offset_to_lsp_position, char_offset, char_to_lsp_position, contains, edits_view,
    hcl_span_to_lsp_range, line_count, offset_position, range_contains, range_text, rope_from_str,
    rope_len_bytes, rope_len_chars, rope_len_lines, rope_text, rope_to_string, slice_text,
    span_range, utf8_len, EditV, Position, Range, TextEdit,
};
use crate::quick_fixes::{change_for, one_file, opt_edit};
use crate::scope::{
    doc_pointees, for_each_doc_in_scope, kind_of, opt_action, plural_suffix, scope_docs,
    scope_kind, Scope,
};
use crate::seqs::{filter_map, flat_map, lemma_filter_map_step, lemma_take_full};
use crate::state::{DocUri, DocumentState, StateStore};
use crate::text::{chars_of, decimal, opt_view, str_eq, string_sub, texts, u64_text};
use crate::state::{find_doc, primary_doc};
use ropey::Rope;
use vstd::prelude::*;

verus! {

// ---------------------------------------------------------------------
// The whole document

pub open spec fn zero() -> Position {
    Position { line: 0, character: 0 }
}

/// From the start to past the last character.
pub open spec fn document_range(t: Seq<char>) -> Range {
    Range {
        start: zero(),
        end: match offset_position(t, utf8_len(t) as int) {
            Some(p) => p,
            None => Position {
                line: crate::position::min_u32((line_count(t) - 1) as nat),
                character: 0,
            },
        },
    }
}

/// The range of a whole document; its end is a column in UTF-16 units.
pub fn whole_document_range(rope: &Rope) -> (r: Range)
    ensures
        r == document_range(rope_text(*rope)),
{
    let end = match byte_offset_to_lsp_position(rope, rope_len_bytes(rope)) {
        Some(p) => p,
        None => {
            let last: usize = rope_len_lines(rope) - 1;
            Position {
                line: if last > u32::MAX as usize {
                    u32::MAX
                } else {
                    last as u32
                },
                character: 0,
            }
        },
    };
    Range { start: Position { line: 0, character: 0 }, end }
}

/// The edit that puts the formatter's result in place of a document; none
/// where it changes nothing, the document is empty or the formatter refused.
pub open spec fn format_edit(t: Seq<char>, formatted: Option<Seq<char>>) -> Option<EditV> {
    match formatted {
        Some(f) => if f == t || t.len() == 0 {
            None
        } else {
            Some(EditV { range: document_range(t), new_text: f })
        },
        None => None,
    }
}

pub fn scan_format(rope: &Rope, formatted: &Option<String>) -> (r: Option<TextEdit>)
    ensures
        opt_edit(r) == format_edit(rope_text(*rope), opt_view(*formatted)),
{
    match formatted {
        Some(f) => {
            let text = rope_to_string(rope);
            if *f == text || text.as_str().is_empty() {
                None
            } else {
                Some(TextEdit { range: whole_document_range(rope), new_text: f.clone() })
            }
        },
        None => None,
    }
}

// ---------------------------------------------------------------------
// Part of a document

/// `s` without its trailing line feeds.
pub open spec fn without_newlines(s: Seq<char>) -> Seq<char>
    decreases s.len(),
{
    if s.len() > 0 && s.last() == '\n' {
        without_newlines(s.drop_last())
    } else {
        s
    }
}

/// The formatter's result for a slice that need not end its last line: it
/// ends with a line feed only where the slice does.
pub open spec fn matched(formatted: Seq<char>, slice: Seq<char>) -> Seq<char> {
    if slice.len() > 0 && slice.last() == '\n' {
        formatted
    } else {
        without_newlines(formatted)
    }
}

pub fn match_trailing_newline(formatted: String, slice: &str) -> (r: String)
    ensures
        r@ == matched(formatted@, slice@),
{
    let sc = chars_of(slice);
    let sn: usize = sc.len();
    if sn > 0 && sc[sn - 1] == '\n' {
        return formatted;
    }
    let c = chars_of(formatted.as_str());
    let mut n: usize = c.len();
    assert(formatted@.take(n as int) =~= formatted@);
    while n > 0 && c[n - 1] == '\n'
        invariant
            c@ == formatted@,
            n <= c@.len(),
            without_newlines(formatted@) == without_newlines(formatted@.take(n as int)),
        ensures
            c@ == formatted@,
            n <= c@.len(),
            without_newlines(formatted@) == formatted@.take(n as int),
        decreases n,
    {
        assert(formatted@.take(n as int).drop_last() =~= formatted@.take(n - 1));
        n -= 1;
    }
    assert(formatted@.subrange(0, n as int) =~= formatted@.take(n as int));
    string_sub(c.as_slice(), 0, n)
}

/// A slice that does not end its last line gets no line feed at its end.
pub proof fn matched_ends_like_slice(formatted: Seq<char>, slice: Seq<char>)
    requires
        slice.len() == 0 || slice.last() != '\n',
    ensures
        matched(formatted, slice).len() == 0 || matched(formatted, slice).last() != '\n',
    decreases formatted.len(),
{
    if formatted.len() > 0 && formatted.last() == '\n' {
        matched_ends_like_slice(formatted.drop_last(), slice);
    }
}

/// The edits for a formatted range: none where nothing changes.
pub open spec fn range_edits(range: Range, slice: Seq<char>, formatted: Option<Seq<char>>) -> Option<
    Seq<EditV>,
> {
    match formatted {
        Some(f) => if matched(f, slice) == slice {
            Some(Seq::empty())
        } else {
            Some(seq![EditV { range, new_text: matched(f, slice) }])
        },
        None => None,
    }
}

pub open spec fn opt_edits(v: Option<Vec<TextEdit>>) -> Option<Seq<EditV>> {
    match v {
        Some(v) => Some(edits_view(v@)),
        None => None,
    }
}

/// The edits for a range whose text the formatter turned into `formatted`;
/// `None` where it refused the text.
pub fn range_formatting(range: Range, slice: &str, formatted: Option<String>) -> (r: Option<
    Vec<TextEdit>,
>)
    ensures
        opt_edits(r) == range_edits(range, slice@, opt_view(formatted)),
{
    match formatted {
        Some(f) => {
            let new_text = match_trailing_newline(f, slice);
            let mut out: Vec<TextEdit> = Vec::new();
            if !str_eq(new_text.as_str(), slice) {
                out.push(TextEdit { range, new_text });
            }
            assert(edits_view(out@) =~= range_edits(range, slice@, opt_view(formatted))->0);
            Some(out)
        },
        None => None,
    }
}

/// The characters that have the enclosing block formatted when typed.
pub open spec fn triggers_format(ch: Seq<char>) -> bool {
    ch == "}"@ || ch == "="@
}

/// The size of a range: lines first, then columns.
pub open spec fn range_area(r: Range) -> int {
    (if r.end.line >= r.start.line {
        r.end.line - r.start.line
    } else {
        0
    }) * 10_000 + (if r.end.character >= r.start.character {
        r.end.character - r.start.character
    } else {
        0
    })
}

fn area(r: &Range) -> (a: u64)
    ensures
        a == range_area(*r),
{
    let lines: u64 = if r.end.line >= r.start.line {
        (r.end.line - r.start.line) as u64
    } else {
        0
    };
    let columns: u64 = if r.end.character >= r.start.character {
        (r.end.character - r.start.character) as u64
    } else {
        0
    };
    lines * 10_000 + columns
}

/// The range of a block that holds a position.
pub open spec fn holding_range(t: Seq<char>, pos: Position, b: Block) -> Option<Range> {
    match b.span {
        Some(span) => match span_range(t, span) {
            Some(range) => if range_contains(range, pos) {
                Some(range)
            } else {
                None
            },
            None => None,
        },
        None => None,
    }
}

/// The better of the range found so far and that of a block: the smaller one.
pub open spec fn smaller(best: Option<Range>, range: Range) -> Range {
    match best {
        Some(b) => if range_area(b) <= range_area(range) {
            b
        } else {
            range
        },
        None => range,
    }
}

/// The range of the innermost block that holds a position.
pub open spec fn enclosing(body: Body, t: Seq<char>, pos: Position) -> Option<Range>
    decreases body, blocks(body).len() + 1,
{
    enclosing_upto(body, t, pos, blocks(body).len() as int)
}

pub open spec fn enclosing_upto(body: Body, t: Seq<char>, pos: Position, n: int) -> Option<Range>
    decreases body, n,
{
    if n <= 0 || n > blocks(body).len() {
        None
    } else {
        proof {
            lemma_block_smaller(body, n - 1);
        }
        let best = enclosing_upto(body, t, pos, n - 1);
        let b = blocks(body)[n - 1];
        match holding_range(t, pos, b) {
            Some(range) => match enclosing(b.body, t, pos) {
                Some(inner) => Some(inner),
                None => Some(smaller(best, range)),
            },
            None => best,
        }
    }
}

/// The range of the innermost block that holds a position.
pub fn enclosing_block_range(body: &Body, rope: &Rope, pos: Position) -> (r: Option<Range>)
    ensures
        r == enclosing(*body, rope_text(*rope), pos),
    decreases *body,
{
    let ghost t = rope_text(*rope);
    let bs = list_blocks(body);
    let ghost s = blocks(*body);
    let mut best: Option<Range> = None;
    for i in 0..bs.len()
        invariant
            t == rope_text(*rope),
            s == blocks(*body),
            block_pointees(bs@) == s,
            best == enclosing_upto(*body, t, pos, i as int),
    {
        proof {
            assert(s[i as int] == *bs@[i as int]);
            lemma_block_smaller(*body, i as int);
            assert(block_pointees(bs@).len() == bs@.len());
        }
        if let Some(span) = bs[i].span {
            if let Some(range) = hcl_span_to_lsp_range(rope, span) {
                if contains(&range, pos) {
                    best = match enclosing_block_range(&bs[i].body, rope, pos) {
                        Some(inner) => Some(inner),
                        None => match best {
                            Some(b) => if area(&b) <= area(&range) {
                                Some(b)
                            } else {
                                Some(range)
                            },
                            None => Some(range),
                        },
                    };
                }
            }
        }
    }
    assert(block_pointees(bs@).len() == bs@.len());
    best
}

/// What typing a character has formatted: the enclosing block and its text.
pub open spec fn on_type_slice(ch: Seq<char>, body: Body, t: Seq<char>, pos: Position) -> Option<
    (Range, Seq<char>),
> {
    if triggers_format(ch) {
        match enclosing(body, t, pos) {
            Some(range) => match range_text(t, range) {
                Some(s) => Some((range, s)),
                None => None,
            },
            None => None,
        }
    } else {
        None
    }
}

/// The range to format after a character was typed, and its text.
pub fn on_type_formatting(ch: &str, body: &Body, rope: &Rope, pos: Position) -> (r: Option<
    (Range, String),
>)
    ensures
        match r {
            Some(x) => on_type_slice(ch@, *body, rope_text(*rope), pos) == Some((x.0, x.1@)),
            None => on_type_slice(ch@, *body, rope_text(*rope), pos) is None,
        },
{
    if !(str_eq(ch, "}") || str_eq(ch, "=")) {
        return None;
    }
    match enclosing_block_range(body, rope, pos) {
        Some(range) => match slice_text(rope, range) {
            Some(s) => Some((range, s)),
            None => None,
        },
        None => None,
    }
}

// ---------------------------------------------------------------------
// Minimal edits

/// A stretch of lines of the old text and the stretch of the new text that
/// stands for it.
#[derive(Debug, Clone, Copy, PartialEq, Eq, Structural)]
pub struct Hunk {
    pub equal: bool,
    pub old_start: usize,
    pub old_end: usize,
    pub new_start: usize,
    pub new_end: usize,
}

/// The hunks of a line diff.
pub uninterp spec fn line_diff_hunks(old: Seq<char>, new: Seq<char>) -> Seq<Hunk>;

/// `similar::TextDiff::from_lines`, whose `ops` depend on the two texts alone,
/// each as its tag and its two line ranges. Nothing is claimed of the ranges.
#[verifier::external_body]
fn line_diff(old: &str, new: &str) -> (r: Vec<Hunk>)
    ensures
        r@ == line_diff_hunks(old@, new@),
{
    let diff = similar::TextDiff::from_lines(old, new);
    diff.ops().iter().map(|op| {
        let (tag, o, n) = op.as_tag_tuple();
        Hunk {
            equal: tag == similar::DiffTag::Equal,
            old_start: o.start,
            old_end: o.end,
            new_start: n.start,
            new_end: n.end,
        }
    }).collect()
}

/// Character `i` ends a line of a diff: a line feed, or a carriage return that
/// no line feed follows.
pub open spec fn ends_diff_line(t: Seq<char>, i: int) -> bool {
    t[i] == '\n' || (t[i] == '\r' && !(i + 1 < t.len() && t[i + 1] == '\n'))
}

/// The lines of a text from character `from` on, `k` being the first one not
/// looked at.
pub open spec fn diff_lines_from(t: Seq<char>, from: int, k: int) -> Seq<Seq<char>>
    decreases t.len() - k,
{
    if k >= t.len() {
        if from < t.len() {
            seq![t.subrange(from, t.len() as int)]
        } else {
            Seq::empty()
        }
    } else if ends_diff_line(t, k) {
        seq![t.subrange(from, k + 1)] + diff_lines_from(t, k + 1, k + 1)
    } else {
        diff_lines_from(t, from, k + 1)
    }
}

/// The lines of a text, each with its line break.
pub open spec fn diff_lines(t: Seq<char>) -> Seq<Seq<char>> {
    diff_lines_from(t, 0, 0)
}

fn list_diff_lines(s: &str) -> (r: Vec<String>)
    ensures
        texts(r@) == diff_lines(s@),
{
    let c = chars_of(s);
    let n: usize = c.len();
    let mut out: Vec<String> = Vec::new();
    let mut from: usize = 0;
    let mut k: usize = 0;
    assert(texts(out@) + diff_lines_from(s@, 0, 0) =~= diff_lines(s@));
    while k < n
        invariant
            c@ == s@,
            n == c@.len(),
            from <= k <= n,
            texts(out@) + diff_lines_from(s@, from as int, k as int) == diff_lines(s@),
        decreases n - k,
    {
        let ends = c[k] == '\n' || (c[k] == '\r' && !(k + 1 < n && c[k + 1] == '\n'));
        if ends {
            let ghost before = texts(out@);
            out.push(string_sub(c.as_slice(), from, k + 1));
            proof {
                let line = s@.subrange(from as int, k + 1);
                assert(texts(out@) =~= before.push(line));
                assert(before.push(line) + diff_lines_from(s@, k + 1, k + 1) =~= before + (
                seq![line] + diff_lines_from(s@, k + 1, k + 1)));
            }
            from = k + 1;
        }
        k += 1;
    }
    if from < n {
        let ghost before = texts(out@);
        out.push(string_sub(c.as_slice(), from, n));
        assert(texts(out@) =~= before + seq![s@.subrange(from as int, n as int)]);
    } else {
        assert(texts(out@) + Seq::<Seq<char>>::empty() =~= texts(out@));
    }
    out
}

pub open spec fn identity() -> spec_fn(Seq<char>) -> Seq<char> {
    |s: Seq<char>| s
}

/// The lines between two indices, joined; nothing where they are out of range.
pub open spec fn joined(lines: Seq<Seq<char>>, a: int, b: int) -> Seq<char> {
    if 0 <= a <= b <= lines.len() {
        flat_map(lines.subrange(a, b), identity())
    } else {
        Seq::empty()
    }
}

/// The position where line `o` of a diff starts; behind the last line it is the
/// end of the text.
pub open spec fn line_position(t: Seq<char>, lines: Seq<Seq<char>>, o: int) -> Position {
    match offset_position(t, char_offset(t, joined(lines, 0, o).len() as int)) {
        Some(p) => p,
        None => zero(),
    }
}

/// The edits of the hunks from `i` on, which take the old lines from `o` and the
/// new lines from `n` as they come. `None` where they do not go through both
/// texts to the end, or call lines equal that are not.
pub open spec fn edits_from(
    t: Seq<char>,
    old: Seq<Seq<char>>,
    new: Seq<Seq<char>>,
    hunks: Seq<Hunk>,
    i: int,
    o: int,
    n: int,
) -> Option<Seq<EditV>>
    decreases hunks.len() - i,
{
    if i < 0 || i >= hunks.len() {
        if o == old.len() && n == new.len() {
            Some(Seq::empty())
        } else {
            None
        }
    } else {
        let h = hunks[i];
        let oe = o + (h.old_end - h.old_start);
        let ne = n + (h.new_end - h.new_start);
        if o <= oe <= old.len() && n <= ne <= new.len() && (h.equal ==> old.subrange(o, oe)
            == new.subrange(n, ne)) {
            match edits_from(t, old, new, hunks, i + 1, oe, ne) {
                Some(rest) => Some(
                    if h.equal {
                        rest
                    } else {
                        seq![
                            EditV {
                                range: Range {
                                    start: line_position(t, old, o),
                                    end: line_position(t, old, oe),
                                },
                                new_text: joined(new, n, ne),
                            },
                        ] + rest
                    },
                ),
                None => None,
            }
        } else {
            None
        }
    }
}

/// The edits of the hunks that change something, over whole lines.
pub open spec fn hunk_edits(old: Seq<char>, new: Seq<char>, hunks: Seq<Hunk>) -> Option<
    Seq<EditV>,
> {
    edits_from(old, diff_lines(old), diff_lines(new), hunks, 0, 0, 0)
}

/// The edits of the hunks, or one edit over the whole text where the hunks do
/// not go through both texts.
pub open spec fn edits_between(old: Seq<char>, new: Seq<char>, hunks: Seq<Hunk>) -> Seq<EditV> {
    match hunk_edits(old, new, hunks) {
        Some(edits) => edits,
        None => seq![EditV { range: document_range(old), new_text: new }],
    }
}

fn position_of(rope: &Rope, k: usize) -> (r: Position)
    requires
        k <= rope_text(*rope).len(),
    ensures
        offset_position(rope_text(*rope), char_offset(rope_text(*rope), k as int)) matches Some(p)
            ==> r == p,
        offset_position(rope_text(*rope), char_offset(rope_text(*rope), k as int)) is None ==> r
            == zero(),
{
    match char_to_lsp_position(rope, k) {
        Some(p) => p,
        None => Position { line: 0, character: 0 },
    }
}

fn join_lines(lines: &Vec<String>, a: usize, b: usize) -> (r: String)
    ensures
        r@ == joined(texts(lines@), a as int, b as int),
{
    let mut out = String::new();
    let ghost all = texts(lines@);
    if a <= b && b <= lines.len() {
        let ghost s = all.subrange(a as int, b as int);
        let ghost f = identity();
        assert(s.take(0) =~= Seq::<Seq<char>>::empty());
        for i in a..b
            invariant
                a <= b <= lines@.len(),
                all == texts(lines@),
                s == all.subrange(a as int, b as int),
                f == identity(),
                out@ == flat_map(s.take(i - a), f),
        {
            proof {
                crate::seqs::lemma_flat_map_step(s, f, i - a);
                assert(s[i - a] == lines@[i as int]@);
            }
            out.append(lines[i].as_str());
        }
        assert(s.take(b - a) =~= s);
    } else {
        assert(out@ =~= joined(all, a as int, b as int));
    }
    out
}

/// Are `len` lines the same from `o` and from `n` on?
fn lines_agree(old: &Vec<String>, new: &Vec<String>, o: usize, n: usize, len: usize) -> (r: bool)
    requires
        o + len <= old@.len(),
        n + len <= new@.len(),
    ensures
        r == (texts(old@).subrange(o as int, o + len) == texts(new@).subrange(n as int, n + len)),
{
    let ghost a = texts(old@).subrange(o as int, o + len);
    let ghost b = texts(new@).subrange(n as int, n + len);
    let (old_len, new_len): (usize, usize) = (old.len(), new.len());
    for i in 0..len
        invariant
            old_len == old@.len(),
            new_len == new@.len(),
            o + len <= old@.len(),
            n + len <= new@.len(),
            a == texts(old@).subrange(o as int, o + len),
            b == texts(new@).subrange(n as int, n + len),
            forall|j: int| 0 <= j < i ==> #[trigger] a[j] == b[j],
    {
        assert(a[i as int] == old@[o + i]@ && b[i as int] == new@[n + i]@);
        if !str_eq(old[o + i].as_str(), new[n + i].as_str()) {
            return false;
        }
    }
    assert(a =~= b);
    true
}

/// The character where line `e` starts, given that line `o` starts at `k`.
fn start_of_line(t: &str, lines: &Vec<String>, o: usize, e: usize, k: usize) -> (r: usize)
    requires
        texts(lines@) == diff_lines(t@),
        o <= e <= lines@.len(),
        k == joined(diff_lines(t@), 0, o as int).len(),
        t@.len() <= usize::MAX,
    ensures
        r == joined(diff_lines(t@), 0, e as int).len(),
        r <= t@.len(),
{
    let ghost all = texts(lines@);
    let mut r: usize = k;
    proof {
        lemma_line_starts(t@, o as int);
    }
    for j in o..e
        invariant
            all == texts(lines@),
            all == diff_lines(t@),
            o <= e <= lines@.len(),
            t@.len() <= usize::MAX,
            r == joined(all, 0, j as int).len(),
            r <= t@.len(),
    {
        proof {
            assert(all[j as int] == lines@[j as int]@);
            lemma_line_starts(t@, j + 1);
            lemma_joined_step(all, j as int);
        }
        let line = chars_of(lines[j].as_str());
        r = r + line.len();
    }
    r
}

fn edits_of_fitting(old: &str, new: &str, hunks: &Vec<Hunk>) -> (r: Option<Vec<TextEdit>>)
    ensures
        opt_edits(r) == hunk_edits(old@, new@, hunks@),
{
    let rope = rope_from_str(old);
    let size = rope_len_chars(&rope);
    let old_lines = list_diff_lines(old);
    let new_lines = list_diff_lines(new);
    let ghost ol = diff_lines(old@);
    let ghost nl = diff_lines(new@);
    let mut out: Vec<TextEdit> = Vec::new();
    let mut o: usize = 0;
    let mut n: usize = 0;
    let mut k: usize = 0;
    proof {
        lemma_line_starts(old@, 0);
        assert(edits_view(out@) =~= Seq::<EditV>::empty());
    }
    assert(texts(old_lines@).len() == old_lines@.len());
    assert(texts(new_lines@).len() == new_lines@.len());
    for i in 0..hunks.len()
        invariant
            rope_text(rope) == old@,
            size == old@.len(),
            texts(old_lines@) == ol,
            texts(new_lines@) == nl,
            ol == diff_lines(old@),
            nl == diff_lines(new@),
            ol.len() == old_lines@.len(),
            nl.len() == new_lines@.len(),
            o <= ol.len(),
            n <= nl.len(),
            k == joined(ol, 0, o as int).len(),
            k <= old@.len(),
            match edits_from(old@, ol, nl, hunks@, i as int, o as int, n as int) {
                Some(rest) => hunk_edits(old@, new@, hunks@) == Some(edits_view(out@) + rest),
                None => hunk_edits(old@, new@, hunks@) is None,
            },
    {
        let h = hunks[i];
        if h.old_start > h.old_end || h.new_start > h.new_end {
            return None;
        }
        let taken: usize = h.old_end - h.old_start;
        let given: usize = h.new_end - h.new_start;
        if taken > old_lines.len() - o || given > new_lines.len() - n {
            return None;
        }
        if h.equal && (taken != given || !lines_agree(&old_lines, &new_lines, o, n, taken)) {
            assert(ol.subrange(o as int, o + taken).len() == taken);
            assert(nl.subrange(n as int, n + given).len() == given);
            return None;
        }
        let end = start_of_line(old, &old_lines, o, o + taken, k);
        let ghost before = edits_view(out@);
        if !h.equal {
            let e = TextEdit {
                range: Range { start: position_of(&rope, k), end: position_of(&rope, end) },
                new_text: join_lines(&new_lines, n, n + given),
            };
            out.push(e);
            assert(edits_view(out@) =~= before.push(e@));
        }
        proof {
            match edits_from(old@, ol, nl, hunks@, i + 1, o + taken, n + given) {
                Some(rest) => {
                    assert(edits_view(out@) + rest =~= before + edits_from(
                        old@,
                        ol,
                        nl,
                        hunks@,
                        i as int,
                        o as int,
                        n as int,
                    )->0);
                },
                None => {},
            }
        }
        o = o + taken;
        n = n + given;
        k = end;
    }
    if o == old_lines.len() && n == new_lines.len() {
        assert(edits_view(out@) + Seq::<EditV>::empty() =~= edits_view(out@));
        Some(out)
    } else {
        None
    }
}

/// The edits of given hunks: one per hunk that changes something, over whole
/// lines, or one over the whole text where the hunks do not fit the texts.
pub fn edits_of_hunks(old: &str, new: &str, hunks: &Vec<Hunk>) -> (r: Vec<TextEdit>)
    ensures
        edits_view(r@) == edits_between(old@, new@, hunks@),
{
    match edits_of_fitting(old, new, hunks) {
        Some(edits) => edits,
        None => {
            let rope = rope_from_str(old);
            let e = TextEdit { range: whole_document_range(&rope), new_text: new.to_owned() };
            let out = vec![e];
            assert(edits_view(out@) =~= seq![e@]);
            out
        },
    }
}

/// The edits from one text to another, over the lines that differ.
pub fn minimal_text_edits(old: &str, new: &str) -> (r: Vec<TextEdit>)
    ensures
        edits_view(r@) == edits_between(old@, new@, line_diff_hunks(old@, new@)),
{
    let hunks = line_diff(old, new);
    edits_of_hunks(old, new, &hunks)
}

/// The answer to a formatting request: `None` where the formatter refused the
/// text, no edits where it changes nothing.
pub open spec fn formatting_answer(t: Seq<char>, formatted: Option<Seq<char>>) -> Option<
    Seq<EditV>,
> {
    match formatted {
        Some(f) => if f == t {
            Some(Seq::empty())
        } else {
            Some(edits_between(t, f, line_diff_hunks(t, f)))
        },
        None => None,
    }
}

pub fn formatting(rope: &Rope, formatted: &Option<String>) -> (r: Option<Vec<TextEdit>>)
    ensures
        opt_edits(r) == formatting_answer(rope_text(*rope), opt_view(*formatted)),
{
    match formatted {
        Some(f) => {
            let text = rope_to_string(rope);
            if *f == text {
                let out: Vec<TextEdit> = Vec::new();
                assert(edits_view(out@) =~= Seq::<EditV>::empty());
                Some(out)
            } else {
                Some(minimal_text_edits(text.as_str(), f.as_str()))
            }
        },
        None => None,
    }
}

// ---------------------------------------------------------------------
// Format actions

/// The edits of the first `n` documents.
pub open spec fn format_edits_upto(within: Seq<DocumentState>, n: int) -> EditMapV
    decreases n,
{
    if n <= 0 {
        EditMapV::empty()
    } else {
        let m = format_edits_upto(within, n - 1);
        let d = within[n - 1];
        match format_edit(rope_text(d.rope), opt_view(d.formatted)) {
            Some(e) => with_edits(m, d.uri.text@, seq![e]),
            None => m,
        }
    }
}

pub open spec fn format_title(scope: Scope, count: nat) -> Seq<char> {
    match scope {
        Scope::Module => "Format "@ + decimal(count) + " .tf file"@ + plural_suffix(count)
            + " in this module"@,
        Scope::Workspace => "Format "@ + decimal(count) + " .tf file"@ + plural_suffix(count)
            + " in workspace"@,
        _ => "Format file"@,
    }
}

/// The format action for a file, a module or the workspace: none where every
/// document is formatted.
pub open spec fn format_action(state: StateStore, primary: DocUri) -> spec_fn(Scope) -> Option<
    CodeActionV,
> {
    |scope: Scope|
        {
            let within = scope_docs(state.documents@, primary, scope);
            let m = format_edits_upto(within, within.len() as int);
            if m.len() == 0 {
                None
            } else {
                Some(
                    CodeActionV {
                        title: format_title(scope, m.len()),
                        kind: kind_of(scope, "format"@),
                        diagnostics: None,
                        edit: WorkspaceEditV::Changes(m),
                        is_preferred: None,
                    },
                )
            }
        }
}

/// How many lines a selection touches.
pub open spec fn selected_lines(range: Range) -> nat {
    if range.end.line >= range.start.line {
        (range.end.line - range.start.line + 1) as nat
    } else {
        1
    }
}

/// The action that formats a selection, given what the formatter made of it.
pub open spec fn format_selection(
    state: StateStore,
    primary: DocUri,
    range: Range,
    formatted: Option<Seq<char>>,
) -> Option<CodeActionV> {
    match (crate::seqs::find_map(state.documents@, primary_doc(primary)), formatted) {
        (Some(d), Some(f)) => match range_text(rope_text(d.rope), range) {
            Some(slice) => if f == slice {
                None
            } else {
                Some(
                    CodeActionV {
                        title: "Format selection ("@ + decimal(selected_lines(range)) + " lines)"@,
                        kind: kind_of(Scope::Selection { range }, "format"@),
                        diagnostics: None,
                        edit: one_file(primary.text@, seq![EditV { range, new_text: f }]),
                        is_preferred: None,
                    },
                )
            },
            None => None,
        },
        _ => None,
    }
}

fn format_selection_action(
    state: &StateStore,
    primary_uri: &DocUri,
    range: Range,
    formatted: &Option<String>,
) -> (r: Option<CodeAction>)
    ensures
        opt_action(r) == format_selection(*state, *primary_uri, range, opt_view(*formatted)),
{
    let doc = match find_doc(state, primary_uri) {
        Some(d) => d,
        None => {
            return None;
        },
    };
    let f = match formatted {
        Some(f) => f,
        None => {
            return None;
        },
    };
    let slice = match slice_text(&doc.rope, range) {
        Some(s) => s,
        None => {
            return None;
        },
    };
    if *f == slice {
        return None;
    }
    let lines: u64 = if range.end.line >= range.start.line {
        (range.end.line - range.start.line) as u64 + 1
    } else {
        1
    };
    let mut title = "Format selection (".to_owned();
    title.append(u64_text(lines).as_str());
    title.append(" lines)");
    Some(
        CodeAction {
            title,
            kind: scope_kind(Scope::Selection { range }, "format"),
            diagnostics: None,
            edit: change_for(
                primary_uri.text.as_str(),
                TextEdit { range, new_text: f.clone() },
            ),
            is_preferred: None,
        },
    )
}

fn format_action_for(state: &StateStore, primary_uri: &DocUri, scope: Scope) -> (r: Option<
    CodeAction,
>)
    ensures
        opt_action(r) == format_action(*state, *primary_uri)(scope),
{
    let docs = for_each_doc_in_scope(state, primary_uri, scope);
    let ghost within = scope_docs(state.documents@, *primary_uri, scope);
    let mut edits = EditMap::new();
    for i in 0..docs.len()
        invariant
            doc_pointees(docs@) == within,
            edits@ == format_edits_upto(within, i as int),
    {
        assert(within[i as int] == *docs@[i as int]);
        if let Some(e) = scan_format(&docs[i].rope, &docs[i].formatted) {
            let v = vec![e];
            assert(edits_view(v@) =~= seq![e@]);
            edits.add(docs[i].uri.text.as_str(), v);
        }
    }
    let count: usize = edits.entries.len();
    if count == 0 {
        return None;
    }
    let title = match scope {
        Scope::Module => {
            let mut s = "Format ".to_owned();
            s.append(u64_text(count as u64).as_str());
            s.append(" .tf file");
            s.append(if count == 1 { "" } else { "s" });
            s.append(" in this module");
            s
        },
        Scope::Workspace => {
            let mut s = "Format ".to_owned();
            s.append(u64_text(count as u64).as_str());
            s.append(" .tf file");
            s.append(if count == 1 { "" } else { "s" });
            s.append(" in workspace");
            s
        },
        _ => "Format file".to_owned(),
    };
    Some(
        CodeAction {
            title,
            kind: scope_kind(scope, "format"),
            diagnostics: None,
            edit: WorkspaceEdit::Changes(edits),
            is_preferred: None,
        },
    )
}

/// All format actions: for the selection, then for the file, the module and
/// the workspace.
pub open spec fn format_actions(
    state: StateStore,
    primary: DocUri,
    selection: Option<Range>,
    formatted: Option<Seq<char>>,
) -> Seq<CodeActionV> {
    (match selection {
        Some(range) => crate::move_blocks::one_or_none(
            format_selection(state, primary, range, formatted),
        ),
        None => Seq::empty(),
    }) + filter_map(
        seq![Scope::File, Scope::Module, Scope::Workspace],
        format_action(state, primary),
    )
}

/// Offer to format what is not formatted yet. `formatted_selection` is what
/// the formatter made of the selected text, where it accepts it.
pub fn emit_format_actions(
    state: &StateStore,
    primary_uri: &DocUri,
    selection: Option<Range>,
    formatted_selection: &Option<String>,
    actions: &mut Vec<CodeAction>,
)
    ensures
        actions_view(final(actions)@) == actions_view(old(actions)@) + format_actions(
            *state,
            *primary_uri,
            selection,
            opt_view(*formatted_selection),
        ),
{
    let ghost start = actions_view(actions@);
    if let Some(range) = selection {
        if let Some(a) = format_selection_action(
            state,
            primary_uri,
            range,
            formatted_selection,
        ) {
            actions.push(a);
            assert(actions_view(actions@) =~= start.push(a@));
        }
    }
    let ghost head = actions_view(actions@);
    let ghost s = seq![Scope::File, Scope::Module, Scope::Workspace];
    let ghost f = format_action(*state, *primary_uri);
    let scopes = vec![Scope::File, Scope::Module, Scope::Workspace];
    assert(scopes@ =~= s);
    proof {
        lemma_take_full(s);
    }
    assert(head =~= head + filter_map(s.take(0), f));
    for i in 0..scopes.len()
        invariant
            scopes@ == s,
            f == format_action(*state, *primary_uri),
            actions_view(actions@) == head + filter_map(s.take(i as int), f),
    {
        proof {
            lemma_filter_map_step(s, f, i as int);
        }
        let ghost before = actions_view(actions@);
        if let Some(a) = format_action_for(state, primary_uri, scopes[i]) {
            actions.push(a);
            assert(actions_view(actions@) =~= before.push(a@));
        }
        assert(actions_view(actions@) =~= head + filter_map(s.take(i + 1), f));
    }
    assert(actions_view(actions@) =~= start + format_actions(
        *state,
        *primary_uri,
        selection,
        opt_view(*formatted_selection),
    ));
}

} // verus!
