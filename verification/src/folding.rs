//! Folding ranges and selection ranges.

use crate::formatting::holding_range;
use crate::state::{find_doc, primary_doc};
use crate::hcl::{
    attr_pointees, attributes, block_pointees, blocks, expr_list, lemma_block_smaller,
    list_attributes, list_blocks, pointees, walk_expression, Attribute, Block, Body, ExprKind,
    Expression, Structure,
};
use crate::position::{
    contains, hcl_span_to_lsp_range, line_count, line_start, positions_keep_order, range_contains,
    range_within, rope_len_lines, rope_line_to_char, rope_slice, rope_text, span_range, Position,
    Range, Span,
};
use crate::seqs::{
    find_map, flat_map, lemma_find_map_step, lemma_flat_map_step, lemma_take_full, position_from,
};
use crate::state::{DocUri, StateStore};
use crate::text::{char_is_whitespace, chars_of, is_whitespace};
use ropey::Rope;
use vstd::prelude::*;

verus! {

/// A fold from a place on one line to the end of a later line.
#[derive(Debug, Clone, Copy, PartialEq, Eq, Structural)]
pub struct FoldingRange {
    pub start_line: u32,
    pub start_character: u32,
    pub end_line: u32,
}

// ---------------------------------------------------------------------
// Folds

/// The text of a line with its line break.
pub open spec fn line_text(t: Seq<char>, l: nat) -> Seq<char> {
    t.subrange(line_start(t, l), line_start(t, l + 1))
}

pub open spec fn is_blank(s: Seq<char>) -> bool {
    forall|i: int| 0 <= i < s.len() ==> char_is_whitespace(#[trigger] s[i])
}

/// The last line at or before `e`, not before `start`, that is not blank.
pub open spec fn last_content(t: Seq<char>, start: u32, e: u32) -> u32
    decreases e,
{
    if e > start && is_blank(line_text(t, e as nat)) {
        last_content(t, start, (e - 1) as u32)
    } else {
        e
    }
}

/// The last line of a document, or the given one where that comes first.
pub open spec fn clamp_line(t: Seq<char>, line: u32) -> u32 {
    if line < line_count(t) {
        line
    } else {
        (line_count(t) - 1) as u32
    }
}

fn line_is_blank(rope: &Rope, line: usize) -> (r: bool)
    requires
        line < line_count(rope_text(*rope)),
    ensures
        r == is_blank(line_text(rope_text(*rope), line as nat)),
{
    let ghost t = rope_text(*rope);
    let lines = rope_len_lines(rope);
    let from = rope_line_to_char(rope, line);
    let to = rope_line_to_char(rope, line + 1);
    proof {
        crate::position::lemma_line_start_ordered(t, line as nat, 0);
    }
    let text = rope_slice(rope, from, to);
    let c = chars_of(text.as_str());
    let ghost s = line_text(t, line as nat);
    for i in 0..c.len()
        invariant
            c@ == s,
            s == line_text(rope_text(*rope), line as nat),
            forall|j: int| 0 <= j < i ==> char_is_whitespace(#[trigger] s[j]),
    {
        if !is_whitespace(c[i]) {
            assert(!char_is_whitespace(s[i as int]));
            return false;
        }
    }
    true
}

/// The last line from `end_line` back to `start_line` that carries content.
pub fn last_content_line(rope: &Rope, start_line: u32, end_line: u32) -> (r: u32)
    ensures
        r == last_content(
            rope_text(*rope),
            start_line,
            clamp_line(rope_text(*rope), end_line),
        ),
{
    let ghost t = rope_text(*rope);
    let total = rope_len_lines(rope);
    let mut e: u32 = if (end_line as usize) < total {
        end_line
    } else {
        (total - 1) as u32
    };
    let ghost first = e;
    while e > start_line
        invariant
            e < line_count(t),
            t == rope_text(*rope),
            last_content(t, start_line, first) == last_content(t, start_line, e),
        ensures
            last_content(t, start_line, first) == e,
        decreases e,
    {
        if !line_is_blank(rope, e as usize) {
            break;
        }
        e -= 1;
    }
    e
}

/// The fold for a span that covers more than one line, trailing blank lines
/// left out.
pub open spec fn fold_of(t: Seq<char>, span: Option<Span>) -> Seq<FoldingRange> {
    match span {
        Some(s) => match span_range(t, s) {
            Some(range) => {
                let end = last_content(t, range.start.line, clamp_line(t, range.end.line));
                if end > range.start.line {
                    seq![
                        FoldingRange {
                            start_line: range.start.line,
                            start_character: range.start.character,
                            end_line: end,
                        },
                    ]
                } else {
                    Seq::empty()
                }
            },
            None => Seq::empty(),
        },
        None => Seq::empty(),
    }
}

fn push_multiline_fold(span: Option<Span>, rope: &Rope, out: &mut Vec<FoldingRange>)
    ensures
        final(out)@ == old(out)@ + fold_of(rope_text(*rope), span),
{
    if let Some(s) = span {
        if let Some(range) = hcl_span_to_lsp_range(rope, s) {
            let end_line = last_content_line(rope, range.start.line, range.end.line);
            if end_line > range.start.line {
                out.push(
                    FoldingRange {
                        start_line: range.start.line,
                        start_character: range.start.character,
                        end_line,
                    },
                );
            }
        }
    }
    assert(out@ =~= old(out)@ + fold_of(rope_text(*rope), span));
}

/// The expression visibly encloses what it holds.
pub open spec fn is_container(e: Expression) -> bool {
    match e.kind {
        ExprKind::Array(_) => true,
        ExprKind::Object(_) => true,
        ExprKind::HeredocTemplate(_) => true,
        ExprKind::StringTemplate(_) => true,
        ExprKind::Parenthesis(_) => true,
        ExprKind::FuncCall(_) => true,
        ExprKind::Conditional(_) => true,
        ExprKind::ForExpr(_) => true,
        _ => false,
    }
}

pub open spec fn expr_fold(t: Seq<char>) -> spec_fn(Expression) -> Seq<FoldingRange> {
    |e: Expression|
        if is_container(e) {
            fold_of(t, e.span)
        } else {
            Seq::empty()
        }
}

fn container(e: &Expression) -> (r: bool)
    ensures
        r == is_container(*e),
{
    match &e.kind {
        ExprKind::Array(_) => true,
        ExprKind::Object(_) => true,
        ExprKind::HeredocTemplate(_) => true,
        ExprKind::StringTemplate(_) => true,
        ExprKind::Parenthesis(_) => true,
        ExprKind::FuncCall(_) => true,
        ExprKind::Conditional(_) => true,
        ExprKind::ForExpr(_) => true,
        _ => false,
    }
}

/// A fold for every container inside an expression that covers several lines.
fn collect_expr_folds(expr: &Expression, rope: &Rope, out: &mut Vec<FoldingRange>)
    ensures
        final(out)@ == old(out)@ + flat_map(expr_list(*expr), expr_fold(rope_text(*rope))),
{
    let list = walk_expression(expr);
    let ghost s = expr_list(*expr);
    let ghost f = expr_fold(rope_text(*rope));
    let ghost start = out@;
    proof {
        lemma_take_full(s);
    }
    assert(out@ =~= start + flat_map(s.take(0), f));
    for i in 0..list.len()
        invariant
            pointees(list@) == s,
            f == expr_fold(rope_text(*rope)),
            out@ == start + flat_map(s.take(i as int), f),
    {
        proof {
            lemma_flat_map_step(s, f, i as int);
            assert(s[i as int] == *list@[i as int]);
        }
        if container(list[i]) {
            push_multiline_fold(list[i].span, rope, out);
        }
        assert(out@ =~= start + flat_map(s.take(i + 1), f));
    }
}

/// The folds of a body: for each block and what it holds, and for each
/// container of an attribute's value.
pub open spec fn folds(body: Body, t: Seq<char>) -> Seq<FoldingRange>
    decreases body, body.structures@.len() + 1,
{
    folds_upto(body, t, body.structures@.len() as int)
}

pub open spec fn folds_upto(body: Body, t: Seq<char>, n: int) -> Seq<FoldingRange>
    decreases body, n,
{
    if n <= 0 || n > body.structures@.len() {
        Seq::empty()
    } else {
        folds_upto(body, t, n - 1) + match body.structures@[n - 1] {
            Structure::Attribute(a) => flat_map(expr_list(a.value), expr_fold(t)),
            Structure::Block(b) => fold_of(t, b.span) + folds(b.body, t),
        }
    }
}

pub fn collect_block_folds(body: &Body, rope: &Rope, out: &mut Vec<FoldingRange>)
    ensures
        final(out)@ == old(out)@ + folds(*body, rope_text(*rope)),
    decreases *body,
{
    let ghost t = rope_text(*rope);
    let ghost start = out@;
    assert(out@ =~= start + folds_upto(*body, t, 0));
    for i in 0..body.structures.len()
        invariant
            t == rope_text(*rope),
            out@ == start + folds_upto(*body, t, i as int),
    {
        proof {
            assert(decreases_to!(*body => body.structures));
            assert(decreases_to!(body.structures => body.structures@));
            assert(decreases_to!(body.structures@ => body.structures@[i as int]));
        }
        match &body.structures[i] {
            Structure::Attribute(a) => collect_expr_folds(&a.value, rope, out),
            Structure::Block(b) => {
                push_multiline_fold(b.span, rope, out);
                collect_block_folds(&b.body, rope, out);
            },
        }
        assert(out@ =~= start + folds_upto(*body, t, i + 1));
    }
}

/// The two folds cover the same lines.
pub open spec fn same_lines(a: FoldingRange, b: FoldingRange) -> bool {
    a.start_line == b.start_line && a.end_line == b.end_line
}

pub open spec fn covered(s: Seq<FoldingRange>, f: FoldingRange) -> bool {
    exists|i: int| 0 <= i < s.len() && same_lines(#[trigger] s[i], f)
}

/// Of the folds that cover the same lines, the first.
pub open spec fn first_folds(s: Seq<FoldingRange>) -> Seq<FoldingRange>
    decreases s.len(),
{
    if s.len() == 0 {
        Seq::empty()
    } else {
        let rest = first_folds(s.drop_last());
        if covered(rest, s.last()) {
            rest
        } else {
            rest.push(s.last())
        }
    }
}

fn is_covered(v: &Vec<FoldingRange>, f: FoldingRange) -> (r: bool)
    ensures
        r == covered(v@, f),
{
    for i in 0..v.len()
        invariant
            forall|j: int| 0 <= j < i ==> !same_lines(#[trigger] v@[j], f),
    {
        if v[i].start_line == f.start_line && v[i].end_line == f.end_line {
            assert(same_lines(v@[i as int], f));
            return true;
        }
    }
    false
}

fn keep_first_folds(v: &Vec<FoldingRange>) -> (r: Vec<FoldingRange>)
    ensures
        r@ == first_folds(v@),
{
    let mut out: Vec<FoldingRange> = Vec::new();
    proof {
        lemma_take_full(v@);
    }
    for i in 0..v.len()
        invariant
            out@ == first_folds(v@.take(i as int)),
    {
        assert(v@.take(i + 1).drop_last() =~= v@.take(i as int));
        if !is_covered(&out, v[i]) {
            out.push(v[i]);
        }
    }
    proof {
        lemma_take_full(v@);
    }
    out
}

/// The folds of a document, `None` where there are none.
pub open spec fn document_folds(state: StateStore, uri: DocUri) -> Option<Seq<FoldingRange>> {
    match find_map(state.documents@, primary_doc(uri)) {
        Some(doc) => match doc.body {
            Some(body) => {
                let v = first_folds(folds(body, rope_text(doc.rope)));
                if v.len() == 0 {
                    None
                } else {
                    Some(v)
                }
            },
            None => None,
        },
        None => None,
    }
}

pub open spec fn opt_folds(v: Option<Vec<FoldingRange>>) -> Option<Seq<FoldingRange>> {
    match v {
        Some(v) => Some(v@),
        None => None,
    }
}

/// The folding ranges of a document.
pub fn folding_range(state: &StateStore, uri: &DocUri) -> (r: Option<Vec<FoldingRange>>)
    ensures
        opt_folds(r) == document_folds(*state, *uri),
{
    let doc = match find_doc(state, uri) {
        Some(d) => d,
        None => {
            return None;
        },
    };
    let body = match &doc.body {
        Some(b) => b,
        None => {
            return None;
        },
    };
    let mut all: Vec<FoldingRange> = Vec::new();
    collect_block_folds(body, &doc.rope, &mut all);
    assert(all@ =~= folds(*body, rope_text(doc.rope)));
    let out = keep_first_folds(&all);
    if out.len() == 0 {
        None
    } else {
        Some(out)
    }
}

/// No two folds of the answer cover the same lines.
pub proof fn folds_cover_distinct_lines(s: Seq<FoldingRange>, i: int, j: int)
    requires
        0 <= i < j < first_folds(s).len(),
    ensures
        !same_lines(first_folds(s)[i], first_folds(s)[j]),
    decreases s.len(),
{
    let rest = first_folds(s.drop_last());
    if j < rest.len() {
        folds_cover_distinct_lines(s.drop_last(), i, j);
    } else {
        assert(!covered(rest, s.last()));
        assert(!same_lines(rest[i], s.last()));
    }
}

/// A fold covers more than one line, and its last line is not blank.
pub proof fn folds_end_on_content(t: Seq<char>, span: Option<Span>)
    ensures
        fold_of(t, span).len() > 0 ==> fold_of(t, span)[0].end_line > fold_of(
            t,
            span,
        )[0].start_line && !is_blank(line_text(t, fold_of(t, span)[0].end_line as nat)),
{
    if fold_of(t, span).len() > 0 {
        let range = span_range(t, span->0)->0;
        lemma_last_content(t, range.start.line, clamp_line(t, range.end.line));
    }
}

proof fn lemma_last_content(t: Seq<char>, start: u32, e: u32)
    ensures
        last_content(t, start, e) > start ==> !is_blank(
            line_text(t, last_content(t, start, e) as nat),
        ),
    decreases e,
{
    if e > start && is_blank(line_text(t, e as nat)) {
        lemma_last_content(t, start, (e - 1) as u32);
    }
}

// ---------------------------------------------------------------------
// Selection ranges

/// A range and the one that encloses it.
#[derive(Debug)]
pub struct SelectionRange {
    pub range: Range,
    pub parent: Option<Box<SelectionRange>>,
}

pub open spec fn holds(t: Seq<char>, pos: Position) -> spec_fn(Block) -> bool {
    |b: Block| holding_range(t, pos, b) is Some
}

pub open spec fn attribute_range(t: Seq<char>, pos: Position) -> spec_fn(Attribute) -> Option<
    Range,
> {
    |a: Attribute|
        match a.span {
            Some(s) => match span_range(t, s) {
                Some(range) => if range_contains(range, pos) {
                    Some(range)
                } else {
                    None
                },
                None => None,
            },
            None => None,
        }
}

/// The ranges around a position, from the outermost block in: on each level
/// the first block that holds it, and the attribute that holds it where no
/// block does.
pub open spec fn ancestors(body: Body, t: Seq<char>, pos: Position) -> Seq<Range>
    decreases body,
{
    match position_from(blocks(body), holds(t, pos), 0) {
        Some(i) => if 0 <= i < blocks(body).len() {
            proof {
                lemma_block_smaller(body, i);
            }
            match holding_range(t, pos, blocks(body)[i]) {
                Some(range) => seq![range] + ancestors(blocks(body)[i].body, t, pos),
                None => Seq::empty(),
            }
        } else {
            Seq::empty()
        },
        None => match find_map(attributes(body), attribute_range(t, pos)) {
            Some(range) => seq![range],
            None => Seq::empty(),
        },
    }
}

fn block_range_at(b: &Block, rope: &Rope, pos: Position) -> (r: Option<Range>)
    ensures
        r == holding_range(rope_text(*rope), pos, *b),
{
    if let Some(span) = b.span {
        if let Some(range) = hcl_span_to_lsp_range(rope, span) {
            if contains(&range, pos) {
                return Some(range);
            }
        }
    }
    None
}

fn attribute_range_at(body: &Body, rope: &Rope, pos: Position) -> (r: Option<Range>)
    ensures
        r == find_map(attributes(*body), attribute_range(rope_text(*rope), pos)),
{
    let list = list_attributes(body);
    let ghost s = attributes(*body);
    let ghost f = attribute_range(rope_text(*rope), pos);
    proof {
        lemma_take_full(s);
    }
    for i in 0..list.len()
        invariant
            attr_pointees(list@) == s,
            s == attributes(*body),
            f == attribute_range(rope_text(*rope), pos),
            find_map(s, f) == find_map(s.skip(i as int), f),
    {
        proof {
            lemma_find_map_step(s, f, i as int);
            assert(s[i as int] == *list@[i as int]);
        }
        if let Some(span) = list[i].span {
            if let Some(range) = hcl_span_to_lsp_range(rope, span) {
                if contains(&range, pos) {
                    return Some(range);
                }
            }
        }
    }
    None
}

fn visit_chain(body: &Body, rope: &Rope, pos: Position, out: &mut Vec<Range>)
    ensures
        final(out)@ == old(out)@ + ancestors(*body, rope_text(*rope), pos),
    decreases *body,
{
    let ghost t = rope_text(*rope);
    let list = list_blocks(body);
    let ghost s = blocks(*body);
    let ghost p = holds(t, pos);
    for i in 0..list.len()
        invariant
            t == rope_text(*rope),
            block_pointees(list@) == s,
            s == blocks(*body),
            p == holds(t, pos),
            out@ == old(out)@,
            position_from(s, p, 0) == position_from(s, p, i as int),
    {
        proof {
            assert(s[i as int] == *list@[i as int]);
            assert(block_pointees(list@).len() == list@.len());
            lemma_block_smaller(*body, i as int);
        }
        if let Some(range) = block_range_at(list[i], rope, pos) {
            out.push(range);
            visit_chain(&list[i].body, rope, pos, out);
            assert(out@ =~= old(out)@ + ancestors(*body, t, pos));
            return;
        }
    }
    assert(block_pointees(list@).len() == list@.len());
    if let Some(range) = attribute_range_at(body, rope, pos) {
        out.push(range);
    }
    assert(out@ =~= old(out)@ + ancestors(*body, t, pos));
}

/// The first `n` ranges as a chain, the last of them first.
pub open spec fn chain(ranges: Seq<Range>, n: int) -> Option<Box<SelectionRange>>
    decreases n,
{
    if n <= 0 {
        None
    } else {
        Some(
            Box::new(SelectionRange { range: ranges[n - 1], parent: chain(ranges, n - 1) }),
        )
    }
}

/// The position itself, and outward from it the ranges that enclose it.
pub open spec fn selection_chain(body: Body, t: Seq<char>, pos: Position) -> SelectionRange {
    let around = ancestors(body, t, pos);
    SelectionRange {
        range: Range { start: pos, end: pos },
        parent: chain(around, around.len() as int),
    }
}

pub fn build_selection_chain(body: &Body, rope: &Rope, pos: Position) -> (r: SelectionRange)
    ensures
        r == selection_chain(*body, rope_text(*rope), pos),
{
    let mut around: Vec<Range> = Vec::new();
    visit_chain(body, rope, pos, &mut around);
    assert(around@ =~= ancestors(*body, rope_text(*rope), pos));
    let mut parent: Option<Box<SelectionRange>> = None;
    for i in 0..around.len()
        invariant
            parent == chain(around@, i as int),
    {
        let inner = SelectionRange { range: around[i], parent };
        parent = Some(Box::new(inner));
    }
    SelectionRange { range: Range { start: pos, end: pos }, parent }
}

/// The selection ranges for each position.
pub open spec fn selections(state: StateStore, uri: DocUri, positions: Seq<Position>) -> Option<
    Seq<SelectionRange>,
> {
    match find_map(state.documents@, primary_doc(uri)) {
        Some(doc) => match doc.body {
            Some(body) => Some(
                Seq::new(
                    positions.len(),
                    |i: int| selection_chain(body, rope_text(doc.rope), positions[i]),
                ),
            ),
            None => None,
        },
        None => None,
    }
}

pub open spec fn opt_selections(v: Option<Vec<SelectionRange>>) -> Option<Seq<SelectionRange>> {
    match v {
        Some(v) => Some(v@),
        None => None,
    }
}

pub fn selection_range(state: &StateStore, uri: &DocUri, positions: &Vec<Position>) -> (r: Option<
    Vec<SelectionRange>,
>)
    ensures
        opt_selections(r) == selections(*state, *uri, positions@),
{
    let doc = match find_doc(state, uri) {
        Some(d) => d,
        None => {
            return None;
        },
    };
    let body = match &doc.body {
        Some(b) => b,
        None => {
            return None;
        },
    };
    let mut out: Vec<SelectionRange> = Vec::new();
    for i in 0..positions.len()
        invariant
            out@.len() == i,
            forall|j: int|
                0 <= j < i ==> #[trigger] out@[j] == selection_chain(
                    *body,
                    rope_text(doc.rope),
                    positions@[j],
                ),
    {
        out.push(build_selection_chain(body, &doc.rope, positions[i]));
    }
    assert(out@ =~= selections(*state, *uri, positions@)->0);
    Some(out)
}

/// Every range around a position holds it.
pub proof fn ancestors_hold_position(body: Body, t: Seq<char>, pos: Position, k: int)
    requires
        0 <= k < ancestors(body, t, pos).len(),
    ensures
        range_contains(ancestors(body, t, pos)[k], pos),
    decreases body,
{
    match position_from(blocks(body), holds(t, pos), 0) {
        Some(i) => {
            if 0 <= i < blocks(body).len() {
                lemma_block_smaller(body, i);
                if k > 0 {
                    ancestors_hold_position(blocks(body)[i].body, t, pos, k - 1);
                    assert(ancestors(body, t, pos)[k] == ancestors(
                        blocks(body)[i].body,
                        t,
                        pos,
                    )[k - 1]);
                }
            }
        },
        None => {
            crate::cursor::lemma_found(attributes(body), attribute_range(t, pos));
        },
    }
}

/// A span lies within another, where both are known.
pub open spec fn span_within(inner: Option<Span>, outer: Option<Span>) -> bool {
    match (inner, outer) {
        (Some(i), Some(o)) => o.start <= i.start && i.end <= o.end,
        _ => true,
    }
}

/// What a body holds lies within the block that has the body.
pub open spec fn lies_within(body: Body, outer: Option<Span>) -> bool {
    &&& forall|i: int| 0 <= i < blocks(body).len() ==> span_within(
        (#[trigger] blocks(body)[i]).span,
        outer,
    )
    &&& forall|i: int| 0 <= i < attributes(body).len() ==> span_within(
        (#[trigger] attributes(body)[i]).span,
        outer,
    )
}

/// On every level, what a block holds lies within it.
pub open spec fn spans_nest(body: Body) -> bool
    decreases body,
{
    forall|i: int|
        0 <= i < blocks(body).len() ==> {
            proof {
                lemma_block_smaller(body, i);
            }
            let b = #[trigger] blocks(body)[i];
            lies_within(b.body, b.span) && spans_nest(b.body)
        }
}

/// Each range of a chain lies in its parent.
pub open spec fn grows_outward(s: SelectionRange) -> bool
    decreases s,
{
    match s.parent {
        Some(p) => range_within(p.range, s.range) && grows_outward(*p),
        None => true,
    }
}

proof fn lemma_span_order(t: Seq<char>, inner: Span, outer: Span)
    requires
        span_within(Some(inner), Some(outer)),
        span_range(t, inner) is Some,
        span_range(t, outer) is Some,
    ensures
        range_within(span_range(t, outer)->0, span_range(t, inner)->0),
{
    positions_keep_order(t, outer.start as int, inner.start as int);
    positions_keep_order(t, inner.end as int, outer.end as int);
}

proof fn lemma_first_ancestor(body: Body, t: Seq<char>, pos: Position, outer: Span)
    requires
        lies_within(body, Some(outer)),
        span_range(t, outer) is Some,
        ancestors(body, t, pos).len() > 0,
    ensures
        range_within(span_range(t, outer)->0, ancestors(body, t, pos)[0]),
{
    match position_from(blocks(body), holds(t, pos), 0) {
        Some(i) => {
            let b = blocks(body)[i];
            assert(span_within(b.span, Some(outer)));
            lemma_span_order(t, b.span->0, outer);
        },
        None => {
            let f = attribute_range(t, pos);
            crate::cursor::lemma_found(attributes(body), f);
            let i = choose|i: int|
                0 <= i < attributes(body).len() && f(#[trigger] attributes(body)[i]) == find_map(
                    attributes(body),
                    f,
                );
            let a = attributes(body)[i];
            assert(span_within(a.span, Some(outer)));
            lemma_span_order(t, a.span->0, outer);
        },
    }
}

/// Where spans nest, each range around a position lies in the one before it.
pub proof fn ancestors_nest(body: Body, t: Seq<char>, pos: Position, k: int)
    requires
        spans_nest(body),
        0 <= k,
        k + 1 < ancestors(body, t, pos).len(),
    ensures
        range_within(ancestors(body, t, pos)[k], ancestors(body, t, pos)[k + 1]),
    decreases body,
{
    match position_from(blocks(body), holds(t, pos), 0) {
        Some(i) => {
            if 0 <= i < blocks(body).len() {
                lemma_block_smaller(body, i);
                let b = blocks(body)[i];
                let rest = ancestors(b.body, t, pos);
                assert(ancestors(body, t, pos)[k + 1] == rest[k]);
                if k > 0 {
                    ancestors_nest(b.body, t, pos, k - 1);
                    assert(ancestors(body, t, pos)[k] == rest[k - 1]);
                } else {
                    lemma_first_ancestor(b.body, t, pos, b.span->0);
                }
            }
        },
        None => {},
    }
}

proof fn lemma_chain_grows(ranges: Seq<Range>, n: int)
    requires
        0 < n <= ranges.len(),
        forall|k: int|
            0 <= k && k + 1 < ranges.len() ==> range_within(#[trigger] ranges[k], ranges[k + 1]),
    ensures
        grows_outward(*chain(ranges, n)->0),
    decreases n,
{
    let s = *chain(ranges, n)->0;
    assert(s.range == ranges[n - 1] && s.parent == chain(ranges, n - 1));
    if n > 1 {
        lemma_chain_grows(ranges, n - 1);
        assert(range_within(ranges[n - 2], ranges[n - 1]));
        assert((*chain(ranges, n - 1)->0).range == ranges[n - 2]);
    } else {
        assert(chain(ranges, 0) is None);
    }
}

/// Where spans nest, each selection range lies in its parent.
pub proof fn parents_contain_their_children(body: Body, t: Seq<char>, pos: Position)
    requires
        spans_nest(body),
    ensures
        grows_outward(selection_chain(body, t, pos)),
{
    let around = ancestors(body, t, pos);
    let n = around.len() as int;
    if n > 0 {
        assert forall|k: int| 0 <= k && k + 1 < n implies range_within(
            #[trigger] around[k],
            around[k + 1],
        ) by {
            ancestors_nest(body, t, pos, k);
        }
        lemma_chain_grows(around, n);
        ancestors_hold_position(body, t, pos, n - 1);
    }
}

} // verus!
