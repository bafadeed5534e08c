//! Converting `null_resource` blocks to `terraform_data`.

use crate::actions::{
    actions_view, diagnostics_view, ops_view, CodeAction, CodeActionV, Diagnostic, DiagnosticV,
    DocumentOp, DocumentOpV, EditMap, EditMapV, WorkspaceEdit, WorkspaceEditV,
};
use crate::block_rename::{
    bulk_scopes, edits_in_scope, keep_edits_in, list_bulk_scopes, push_rewrite_ops, rewrite_ops,
};
use crate::hcl::{
    attr_pointees, attributes, block_label, block_pointees, blocks, blocks_named, body_exprs,
    label_at, list_attributes, list_blocks, list_blocks_named, pointees, walk_expressions,
    Attribute, Block, Body, ExprKind, Expression, Ident, Operator, TraversalOperator,
};
use crate::moved::{body_traversal, format_moved, moved_block, traversal_attr_string};
use crate::order::{name_set, sort_dedup_names};
use crate::position::{
    contains, edits_view, hcl_span_to_lsp_range, range_contains, rope_text, span_range, EditV,
    Position, Range, Span, TextEdit,
};
use crate::scope::{
    doc_pointees, for_each_doc_in_scope, kind_of, opt_action, plural_suffix, scope_docs,
    scope_kind, scope_label, Scope,
};
use crate::seqs::{
    filter_map, find_map, flat_map, keep, lemma_filter_map_step, lemma_find_map_step,
    lemma_flat_map_step, lemma_keep_step, lemma_take_full,
};
use crate::state::{in_dir, is_in_dir, DocUri, DocumentState, StateStore};
use crate::target_file::{append_ops, push_append_ops, resolve_target_strategy, target_strategy};
use crate::text::{
    chars_of, decimal, opt_view, slice_occurs_at, starts_with, str_eq, string_sub, texts, u64_text,
};
use ropey::Rope;
use vstd::prelude::*;

verus! {

// ---------------------------------------------------------------------
// Edits

/// A `resource "null_resource"` block.
pub open spec fn is_null_block(b: Block) -> bool {
    b.ident.text@ == "resource"@ && label_at(b, 0) == Some("null_resource"@)
}

pub fn null_block(b: &Block) -> (r: bool)
    ensures
        r == is_null_block(*b),
{
    str_eq(b.ident.text.as_str(), "resource") && match block_label(b, 0) {
        Some(l) => str_eq(l, "null_resource"),
        None => false,
    }
}

/// The edit that puts `text` in place of a span, where it has a range.
pub open spec fn span_edit(t: Seq<char>, span: Option<Span>, text: Seq<char>) -> Seq<EditV> {
    match span {
        Some(s) => match span_range(t, s) {
            Some(range) => seq![EditV { range, new_text: text }],
            None => Seq::empty(),
        },
        None => Seq::empty(),
    }
}

pub fn push_span_edit(out: &mut Vec<TextEdit>, rope: &Rope, span: Option<Span>, text: &str)
    ensures
        edits_view(final(out)@) == edits_view(old(out)@) + span_edit(
            rope_text(*rope),
            span,
            text@,
        ),
{
    if let Some(s) = span {
        if let Some(range) = hcl_span_to_lsp_range(rope, s) {
            out.push(TextEdit { range, new_text: text.to_owned() });
        }
    }
    assert(edits_view(out@) =~= edits_view(old(out)@) + span_edit(rope_text(*rope), span, text@));
}

/// `name` passes the filter.
pub open spec fn passes(filter: Option<Seq<char>>, name: Option<Seq<char>>) -> bool {
    filter is None || filter == name
}

pub open spec fn trigger_edit(t: Seq<char>) -> spec_fn(Attribute) -> Seq<EditV> {
    |a: Attribute|
        if a.key.text@ == "triggers"@ {
            span_edit(t, a.key.span, "triggers_replace"@)
        } else {
            Seq::empty()
        }
}

/// The name by which a block is found: its second label, or nothing.
pub open spec fn block_name(b: Block) -> Seq<char> {
    match label_at(b, 1) {
        Some(n) => n,
        None => ""@,
    }
}

/// The edits of a block: its type label, then each `triggers` key.
pub open spec fn null_block_edits(t: Seq<char>, filter: Option<Seq<char>>) -> spec_fn(Block) -> Seq<
    EditV,
> {
    |b: Block|
        if is_null_block(b) && passes(filter, Some(block_name(b))) {
            span_edit(t, b.labels@[0].span, "\"terraform_data\""@) + flat_map(
                attributes(b.body),
                trigger_edit(t),
            )
        } else {
            Seq::empty()
        }
}

pub open spec fn get_attr_ident() -> spec_fn(Operator) -> Option<Ident> {
    |op: Operator|
        match op.kind {
            TraversalOperator::GetAttr(i) => Some(i),
            _ => None,
        }
}

/// The names among the steps of a traversal.
pub open spec fn attr_idents(ops: Seq<Operator>) -> Seq<Ident> {
    filter_map(ops, get_attr_ident())
}

pub open spec fn ident_pointees(v: Seq<&Ident>) -> Seq<Ident> {
    Seq::new(v.len(), |i: int| *v[i])
}

pub fn list_attr_idents(ops: &Vec<Operator>) -> (r: Vec<&Ident>)
    ensures
        ident_pointees(r@) == attr_idents(ops@),
{
    let mut out: Vec<&Ident> = Vec::new();
    let ghost f = get_attr_ident();
    proof {
        lemma_take_full(ops@);
    }
    assert(ident_pointees(out@) =~= filter_map(ops@.take(0), f));
    for i in 0..ops.len()
        invariant
            f == get_attr_ident(),
            ident_pointees(out@) == filter_map(ops@.take(i as int), f),
    {
        proof {
            lemma_filter_map_step(ops@, f, i as int);
        }
        let ghost before = ident_pointees(out@);
        if let TraversalOperator::GetAttr(x) = &ops[i].kind {
            out.push(x);
            assert(ident_pointees(out@) =~= before.push(*x));
        }
    }
    out
}

/// The edits of a reference: its head, and the attribute after the name where
/// it is `triggers`.
pub open spec fn null_ref_edits(t: Seq<char>, filter: Option<Seq<char>>) -> spec_fn(
    Expression,
) -> Seq<EditV> {
    |e: Expression|
        match e.kind {
            ExprKind::Traversal(tr) => match tr.expr.kind {
                ExprKind::Variable(head) => {
                    let names = attr_idents(tr.operators@);
                    if head@ == "null_resource"@ && passes(
                        filter,
                        if names.len() > 0 {
                            Some(names[0].text@)
                        } else {
                            None
                        },
                    ) {
                        span_edit(t, tr.expr.span, "terraform_data"@) + if names.len() > 1
                            && names[1].text@ == "triggers"@ {
                            span_edit(t, names[1].span, "triggers_replace"@)
                        } else {
                            Seq::empty()
                        }
                    } else {
                        Seq::empty()
                    }
                },
                _ => Seq::empty(),
            },
            _ => Seq::empty(),
        }
}

/// All edits that convert the blocks of a body and the references to them;
/// with a filter only those of the one name.
pub open spec fn null_edits(body: Body, t: Seq<char>, filter: Option<Seq<char>>) -> Seq<EditV> {
    flat_map(blocks(body), null_block_edits(t, filter)) + flat_map(
        body_exprs(body),
        null_ref_edits(t, filter),
    )
}

fn is_filtered(filter: Option<&str>, name: Option<&str>) -> (r: bool)
    ensures
        r == passes(crate::text::opt_str(filter), crate::text::opt_str(name)),
{
    match (filter, name) {
        (None, _) => true,
        (Some(f), Some(n)) => str_eq(f, n),
        (Some(_), None) => false,
    }
}

fn push_block_edits(out: &mut Vec<TextEdit>, b: &Block, rope: &Rope, filter: Option<&str>)
    ensures
        edits_view(final(out)@) == edits_view(old(out)@) + null_block_edits(
            rope_text(*rope),
            crate::text::opt_str(filter),
        )(*b),
{
    let ghost start = edits_view(out@);
    let ghost t = rope_text(*rope);
    let name = match block_label(b, 1) {
        Some(n) => n,
        None => "",
    };
    if null_block(b) && is_filtered(filter, Some(name)) {
        push_span_edit(out, rope, b.labels[0].span, "\"terraform_data\"");
        let ghost head = edits_view(out@);
        let attrs = list_attributes(&b.body);
        let ghost s = attributes(b.body);
        let ghost f = trigger_edit(t);
        proof {
            lemma_take_full(s);
        }
        assert(edits_view(out@) =~= head + flat_map(s.take(0), f));
        for i in 0..attrs.len()
            invariant
                attr_pointees(attrs@) == s,
                t == rope_text(*rope),
                f == trigger_edit(t),
                edits_view(out@) == head + flat_map(s.take(i as int), f),
        {
            proof {
                lemma_flat_map_step(s, f, i as int);
                assert(s[i as int] == *attrs@[i as int]);
            }
            if str_eq(attrs[i].key.text.as_str(), "triggers") {
                push_span_edit(out, rope, attrs[i].key.span, "triggers_replace");
            }
            assert(edits_view(out@) =~= head + flat_map(s.take(i + 1), f));
        }
    }
    assert(edits_view(out@) =~= start + null_block_edits(
        t,
        crate::text::opt_str(filter),
    )(*b));
}

/// The edits of one reference.
fn visit_expr_for_null_resource_refs(
    e: &Expression,
    rope: &Rope,
    filter: Option<&str>,
    out: &mut Vec<TextEdit>,
)
    ensures
        edits_view(final(out)@) == edits_view(old(out)@) + null_ref_edits(
            rope_text(*rope),
            crate::text::opt_str(filter),
        )(*e),
{
    let ghost start = edits_view(out@);
    let ghost t = rope_text(*rope);
    if let ExprKind::Traversal(tr) = &e.kind {
        if let ExprKind::Variable(head) = &tr.expr.kind {
            let names = list_attr_idents(&tr.operators);
            let ghost ns = attr_idents(tr.operators@);
            assert(forall|i: int| 0 <= i < names@.len() ==> *names@[i] == #[trigger] ns[i]);
            let first = if names.len() > 0 {
                Some(names[0].text.as_str())
            } else {
                None
            };
            if str_eq(head.as_str(), "null_resource") && is_filtered(filter, first) {
                push_span_edit(out, rope, tr.expr.span, "terraform_data");
                if names.len() > 1 && str_eq(names[1].text.as_str(), "triggers") {
                    push_span_edit(out, rope, names[1].span, "triggers_replace");
                }
            }
        }
    }
    assert(edits_view(out@) =~= start + null_ref_edits(t, crate::text::opt_str(filter))(*e));
}

/// The edits that convert every `null_resource` of a body, or those of one
/// name, together with the references to them.
pub fn scan_null_resource_to_terraform_data_for(body: &Body, rope: &Rope, filter: Option<&str>) -> (r:
    Vec<TextEdit>)
    ensures
        edits_view(r@) == null_edits(
            *body,
            rope_text(*rope),
            crate::text::opt_str(filter),
        ),
{
    let mut out: Vec<TextEdit> = Vec::new();
    let ghost t = rope_text(*rope);
    let ghost n = crate::text::opt_str(filter);
    let bs = list_blocks(body);
    let ghost s = blocks(*body);
    let ghost f = null_block_edits(t, n);
    proof {
        lemma_take_full(s);
    }
    assert(edits_view(out@) =~= flat_map(s.take(0), f));
    for i in 0..bs.len()
        invariant
            block_pointees(bs@) == s,
            t == rope_text(*rope),
            n == crate::text::opt_str(filter),
            f == null_block_edits(t, n),
            edits_view(out@) == flat_map(s.take(i as int), f),
    {
        proof {
            lemma_flat_map_step(s, f, i as int);
            assert(s[i as int] == *bs@[i as int]);
        }
        push_block_edits(&mut out, bs[i], rope, filter);
    }
    let ghost head = edits_view(out@);
    let es = walk_expressions(body);
    let ghost q = body_exprs(*body);
    let ghost g = null_ref_edits(t, n);
    proof {
        lemma_take_full(q);
    }
    assert(edits_view(out@) =~= head + flat_map(q.take(0), g));
    for i in 0..es.len()
        invariant
            pointees(es@) == q,
            t == rope_text(*rope),
            n == crate::text::opt_str(filter),
            g == null_ref_edits(t, n),
            edits_view(out@) == head + flat_map(q.take(i as int), g),
    {
        proof {
            lemma_flat_map_step(q, g, i as int);
            assert(q[i as int] == *es@[i as int]);
        }
        visit_expr_for_null_resource_refs(es[i], rope, filter, &mut out);
        assert(edits_view(out@) =~= head + flat_map(q.take(i + 1), g));
    }
    out
}

/// The edits that convert every `null_resource` of a body.
pub fn scan_null_resource_to_terraform_data(body: &Body, rope: &Rope) -> (r: Vec<TextEdit>)
    ensures
        edits_view(r@) == null_edits(*body, rope_text(*rope), None),
{
    scan_null_resource_to_terraform_data_for(body, rope, None)
}

/// Each edit of a conversion that is limited to one name is an edit of the
/// whole conversion.
pub proof fn filtered_edits_are_edits(body: Body, t: Seq<char>, name: Seq<char>, e: EditV)
    requires
        null_edits(body, t, Some(name)).contains(e),
    ensures
        null_edits(body, t, None).contains(e),
{
    let f = null_block_edits(t, Some(name));
    let g = null_ref_edits(t, Some(name));
    let a = flat_map(blocks(body), f);
    let b = flat_map(body_exprs(body), g);
    let i = choose|i: int| 0 <= i < (a + b).len() && (a + b)[i] == e;
    let fa = null_block_edits(t, None);
    let ga = null_ref_edits(t, None);
    let wa = flat_map(blocks(body), fa);
    let wb = flat_map(body_exprs(body), ga);
    if i < a.len() {
        assert(a.contains(e));
        lemma_flat_map_contains(blocks(body), f, fa, e);
        let k = choose|k: int| 0 <= k < wa.len() && wa[k] == e;
        assert((wa + wb)[k] == e);
    } else {
        assert(b[i - a.len()] == e);
        assert(b.contains(e));
        lemma_flat_map_contains(body_exprs(body), g, ga, e);
        let k = choose|k: int| 0 <= k < wb.len() && wb[k] == e;
        assert((wa + wb)[wa.len() + k] == e);
    }
}

proof fn lemma_flat_map_contains<A, B>(
    s: Seq<A>,
    f: spec_fn(A) -> Seq<B>,
    g: spec_fn(A) -> Seq<B>,
    x: B,
)
    requires
        flat_map(s, f).contains(x),
        forall|a: A| #[trigger] f(a).len() == 0 || f(a) == g(a),
    ensures
        flat_map(s, g).contains(x),
    decreases s.len(),
{
    if s.len() > 0 {
        let l = flat_map(s.drop_last(), f);
        let i = choose|i: int| 0 <= i < flat_map(s, f).len() && flat_map(s, f)[i] == x;
        let lg = flat_map(s.drop_last(), g);
        if i < l.len() {
            assert(l[i] == x);
            lemma_flat_map_contains(s.drop_last(), f, g, x);
            let k = choose|k: int| 0 <= k < lg.len() && lg[k] == x;
            assert(flat_map(s, g)[k] == x);
        } else {
            assert(f(s.last())[i - l.len()] == x);
            assert(flat_map(s, g)[lg.len() + (i - l.len())] == x);
        }
    }
}

// ---------------------------------------------------------------------
// Names

pub open spec fn null_name() -> spec_fn(Block) -> Option<Seq<char>> {
    |b: Block|
        if is_null_block(b) {
            label_at(b, 1)
        } else {
            None
        }
}

/// The names of the `null_resource` blocks of a body.
pub open spec fn null_names(body: Body) -> Seq<Seq<char>> {
    filter_map(blocks(body), null_name())
}

pub fn null_resource_names_in_body(body: &Body) -> (r: Vec<String>)
    ensures
        texts(r@) == null_names(*body),
{
    let mut out: Vec<String> = Vec::new();
    let bs = list_blocks(body);
    let ghost s = blocks(*body);
    let ghost f = null_name();
    proof {
        lemma_take_full(s);
    }
    assert(texts(out@) =~= filter_map(s.take(0), f));
    for i in 0..bs.len()
        invariant
            block_pointees(bs@) == s,
            f == null_name(),
            texts(out@) == filter_map(s.take(i as int), f),
    {
        proof {
            lemma_filter_map_step(s, f, i as int);
            assert(s[i as int] == *bs@[i as int]);
        }
        let ghost before = texts(out@);
        if null_block(bs[i]) {
            if let Some(n) = block_label(bs[i], 1) {
                out.push(n.to_owned());
                assert(texts(out@) =~= before.push(n@));
            }
        }
    }
    out
}

/// An edit that rewrites a type label and starts at `p`.
pub open spec fn label_edit_at(edits: Seq<EditV>, p: Position) -> bool {
    exists|i: int|
        0 <= i < edits.len() && (#[trigger] edits[i]).new_text == "\"terraform_data\""@
            && edits[i].range.start == p
}

pub open spec fn name_with_edit(t: Seq<char>, edits: Seq<EditV>) -> spec_fn(Block) -> Option<
    Seq<char>,
> {
    |b: Block|
        if is_null_block(b) && b.labels@[0].span is Some {
            match span_range(t, b.labels@[0].span->0) {
                Some(range) => if label_edit_at(edits, range.start) {
                    label_at(b, 1)
                } else {
                    None
                },
                None => None,
            }
        } else {
            None
        }
}

/// The names of the blocks whose label is rewritten by one of the edits.
pub open spec fn names_with_edits(body: Body, t: Seq<char>, edits: Seq<EditV>) -> Seq<Seq<char>> {
    filter_map(blocks(body), name_with_edit(t, edits))
}

fn has_label_edit_at(edits: &Vec<TextEdit>, p: Position) -> (r: bool)
    ensures
        r == label_edit_at(edits_view(edits@), p),
{
    for i in 0..edits.len()
        invariant
            forall|j: int|
                0 <= j < i ==> !((#[trigger] edits_view(edits@)[j]).new_text
                    == "\"terraform_data\""@ && edits_view(edits@)[j].range.start == p),
    {
        if str_eq(edits[i].new_text.as_str(), "\"terraform_data\"") && edits[i].range.start == p {
            assert(edits_view(edits@)[i as int].range.start == p);
            return true;
        }
    }
    false
}

/// The names of the blocks whose label is rewritten by one of the edits.
pub fn names_intersecting_edits(body: &Body, rope: &Rope, edits: &Vec<TextEdit>) -> (r: Vec<String>)
    ensures
        texts(r@) == names_with_edits(*body, rope_text(*rope), edits_view(edits@)),
{
    let mut out: Vec<String> = Vec::new();
    let bs = list_blocks(body);
    let ghost s = blocks(*body);
    let ghost f = name_with_edit(rope_text(*rope), edits_view(edits@));
    proof {
        lemma_take_full(s);
    }
    assert(texts(out@) =~= filter_map(s.take(0), f));
    for i in 0..bs.len()
        invariant
            block_pointees(bs@) == s,
            f == name_with_edit(rope_text(*rope), edits_view(edits@)),
            texts(out@) == filter_map(s.take(i as int), f),
    {
        proof {
            lemma_filter_map_step(s, f, i as int);
            assert(s[i as int] == *bs@[i as int]);
        }
        let ghost before = texts(out@);
        if null_block(bs[i]) {
            if let Some(span) = bs[i].labels[0].span {
                if let Some(range) = hcl_span_to_lsp_range(rope, span) {
                    if has_label_edit_at(edits, range.start) {
                        if let Some(n) = block_label(bs[i], 1) {
                            out.push(n.to_owned());
                            assert(texts(out@) =~= before.push(n@));
                        }
                    }
                }
            }
        }
    }
    out
}

/// The name that a `moved` block already moves to `terraform_data`.
pub open spec fn moved_null_name() -> spec_fn(Block) -> Option<Seq<char>> {
    |b: Block|
        match (body_traversal(b.body, "from"@), body_traversal(b.body, "to"@)) {
            (Some(from), Some(to)) => if starts_with(from, "null_resource."@) && to
                == "terraform_data."@ + from.skip("null_resource."@.len() as int) {
                Some(from.skip("null_resource."@.len() as int))
            } else {
                None
            },
            _ => None,
        }
}

pub open spec fn doc_moved_null_names(dir: Seq<char>) -> spec_fn(DocumentState) -> Seq<Seq<char>> {
    |d: DocumentState|
        if in_dir(d, dir) {
            match d.body {
                Some(b) => filter_map(blocks_named(b, "moved"@), moved_null_name()),
                None => Seq::empty(),
            }
        } else {
            Seq::empty()
        }
}

/// The names that the `moved` blocks of a module already cover.
pub open spec fn existing_null_names(docs: Seq<DocumentState>, dir: Seq<char>) -> Seq<Seq<char>> {
    flat_map(docs, doc_moved_null_names(dir))
}

/// What follows a prefix.
fn strip_prefix(s: &str, p: &str) -> (r: Option<String>)
    ensures
        match r {
            Some(x) => starts_with(s@, p@) && x@ == s@.skip(p@.len() as int),
            None => !starts_with(s@, p@),
        },
{
    let sc = chars_of(s);
    let pc = chars_of(p);
    if slice_occurs_at(sc.as_slice(), pc.as_slice(), 0) {
        let r = string_sub(sc.as_slice(), pc.len(), sc.len());
        assert(s@.subrange(p@.len() as int, s@.len() as int) =~= s@.skip(p@.len() as int));
        Some(r)
    } else {
        None
    }
}

fn moved_name(b: &Block) -> (r: Option<String>)
    ensures
        opt_view(r) == moved_null_name()(*b),
{
    let from = traversal_attr_string(&b.body, "from");
    let to = traversal_attr_string(&b.body, "to");
    if let (Some(from), Some(to)) = (from, to) {
        if let Some(name) = strip_prefix(from.as_str(), "null_resource.") {
            let mut want = "terraform_data.".to_owned();
            want.append(name.as_str());
            if to == want {
                return Some(name);
            }
        }
    }
    None
}

/// The names that the `moved` blocks of a module already cover.
pub fn collect_existing_moved_names(state: &StateStore, module_dir: &str) -> (r: Vec<String>)
    ensures
        texts(r@) == existing_null_names(state.documents@, module_dir@),
{
    let mut out: Vec<String> = Vec::new();
    let ghost f = doc_moved_null_names(module_dir@);
    let ghost g = moved_null_name();
    proof {
        lemma_take_full(state.documents@);
    }
    assert(texts(out@) =~= flat_map(state.documents@.take(0), f));
    for i in 0..state.documents.len()
        invariant
            f == doc_moved_null_names(module_dir@),
            g == moved_null_name(),
            texts(out@) == flat_map(state.documents@.take(i as int), f),
    {
        let ghost start = texts(out@);
        proof {
            lemma_flat_map_step(state.documents@, f, i as int);
        }
        if is_in_dir(&state.documents[i], module_dir) {
            if let Some(body) = &state.documents[i].body {
                let bs = list_blocks_named(body, "moved");
                let ghost s = block_pointees(bs@);
                proof {
                    lemma_take_full(s);
                }
                assert(texts(out@) =~= start + filter_map(s.take(0), g));
                for j in 0..bs.len()
                    invariant
                        s == block_pointees(bs@),
                        g == moved_null_name(),
                        texts(out@) == start + filter_map(s.take(j as int), g),
                {
                    proof {
                        lemma_filter_map_step(s, g, j as int);
                        assert(s[j as int] == *bs@[j as int]);
                    }
                    let ghost before = texts(out@);
                    if let Some(n) = moved_name(bs[j]) {
                        out.push(n);
                        assert(texts(out@) =~= before.push(n@));
                    }
                    assert(texts(out@) =~= start + filter_map(s.take(j + 1), g));
                }
            }
        }
        assert(texts(out@) =~= start + f(state.documents@[i as int]));
    }
    out
}

/// Is the name among the given ones?
pub fn has_name(v: &Vec<String>, name: &str) -> (r: bool)
    ensures
        r == texts(v@).contains(name@),
{
    for i in 0..v.len()
        invariant
            forall|j: int| 0 <= j < i ==> #[trigger] texts(v@)[j] != name@,
    {
        if str_eq(v[i].as_str(), name) {
            assert(texts(v@)[i as int] == name@);
            return true;
        }
        assert(texts(v@)[i as int] != name@);
    }
    false
}

// ---------------------------------------------------------------------
// The workspace edit

/// A `moved` block for one converted resource.
pub fn format_moved_block(name: &str) -> (r: String)
    ensures
        r@ == moved_block("null_resource"@, "terraform_data"@, name@),
{
    format_moved("null_resource", "terraform_data", name)
}

pub open spec fn not_among(names: Seq<Seq<char>>) -> spec_fn(Seq<char>) -> bool {
    |n: Seq<char>| !names.contains(n)
}

/// The names that need a `moved` block, in order and each once.
pub open spec fn null_moves_to_add(existing: Seq<Seq<char>>, names: Seq<Seq<char>>) -> Seq<
    Seq<char>,
> {
    keep(name_set(names), not_among(existing))
}

pub open spec fn null_move_text() -> spec_fn(Seq<char>) -> Seq<char> {
    |n: Seq<char>| moved_block("null_resource"@, "terraform_data"@, n)
}

/// Per module directory, the converted names.
pub type NameMapV = Seq<(Seq<char>, Seq<Seq<char>>)>;

pub open spec fn null_module_ops(state: StateStore) -> spec_fn((Seq<char>, Seq<Seq<char>>)) -> Seq<
    DocumentOpV,
> {
    |m: (Seq<char>, Seq<Seq<char>>)|
        {
            let add = null_moves_to_add(existing_null_names(state.documents@, m.0), m.1);
            if add.len() == 0 {
                Seq::empty()
            } else {
                append_ops(
                    target_strategy(state, m.0, "moved.tf"@),
                    m.0,
                    "moved.tf"@,
                    flat_map(add, null_move_text()),
                )
            }
        }
}

/// The `moved` blocks of each module, then the rewrites of each document.
pub open spec fn null_ops(state: StateStore, rewrites: EditMapV, names: NameMapV) -> Seq<
    DocumentOpV,
> {
    flat_map(names, null_module_ops(state)) + rewrite_ops(rewrites)
}

pub struct NameMap {
    pub entries: Vec<(String, Vec<String>)>,
}

impl View for NameMap {
    type V = NameMapV;

    open spec fn view(&self) -> NameMapV {
        Seq::new(self.entries@.len(), |i: int| (self.entries@[i].0@, texts(self.entries@[i].1@)))
    }
}

pub open spec fn is_name_entry(dir: Seq<char>) -> spec_fn((Seq<char>, Seq<Seq<char>>)) -> bool {
    |e: (Seq<char>, Seq<Seq<char>>)| e.0 == dir
}

/// `m` with the names appended to the entry for `dir`.
pub open spec fn with_names(m: NameMapV, dir: Seq<char>, names: Seq<Seq<char>>) -> NameMapV {
    match crate::seqs::position_from(m, is_name_entry(dir), 0) {
        Some(i) => m.update(i, (m[i].0, m[i].1 + names)),
        None => m.push((dir, names)),
    }
}

impl NameMap {
    pub fn new() -> (r: NameMap)
        ensures
            r@ == NameMapV::empty(),
    {
        let r = NameMap { entries: Vec::new() };
        assert(r@ =~= NameMapV::empty());
        r
    }

    pub fn add(&mut self, dir: &str, names: Vec<String>)
        ensures
            final(self)@ == with_names(old(self)@, dir@, texts(names@)),
    {
        let ghost added = texts(names@);
        let mut rest = names;
        let ghost m = self@;
        let ghost p = is_name_entry(dir@);
        let n: usize = self.entries.len();
        let mut i: usize = 0;
        while i < n
            invariant
                i <= n,
                n == self.entries@.len(),
                self@ == m,
                m == old(self)@,
                p == is_name_entry(dir@),
                crate::seqs::position_from(m, p, 0) == crate::seqs::position_from(m, p, i as int),
                texts(rest@) == added,
                added == texts(names@),
            decreases n - i,
        {
            assert(m[i as int].0 == self.entries@[i as int].0@);
            if str_eq(self.entries[i].0.as_str(), dir) {
                let ghost before = self.entries@[i as int].1@;
                self.entries[i].1.append(&mut rest);
                assert(texts(self.entries@[i as int].1@) =~= texts(before) + added);
                assert(self@ =~= m.update(i as int, (m[i as int].0, m[i as int].1 + added)));
                return;
            }
            i += 1;
        }
        self.entries.push((dir.to_owned(), rest));
        assert(self@ =~= m.push((dir@, added)));
    }
}

fn null_moved_text(state: &StateStore, dir: &str, names: &Vec<String>) -> (r: Option<String>)
    ensures
        ({
            let add = null_moves_to_add(existing_null_names(state.documents@, dir@), texts(names@));
            match r {
                Some(t) => add.len() > 0 && t@ == flat_map(add, null_move_text()),
                None => add.len() == 0,
            }
        }),
{
    let sorted = sort_dedup_names(names);
    let existing = collect_existing_moved_names(state, dir);
    let ghost ex = existing_null_names(state.documents@, dir@);
    let ghost s = texts(sorted@);
    let ghost p = not_among(ex);
    let ghost g = null_move_text();
    let mut text = String::new();
    let mut any = false;
    proof {
        lemma_take_full(s);
    }
    assert(text@ =~= flat_map(keep(s.take(0), p), g));
    for i in 0..sorted.len()
        invariant
            texts(existing@) == ex,
            s == texts(sorted@),
            p == not_among(ex),
            g == null_move_text(),
            any == (keep(s.take(i as int), p).len() > 0),
            text@ == flat_map(keep(s.take(i as int), p), g),
    {
        proof {
            lemma_keep_step(s, p, i as int);
            assert(s[i as int] == sorted@[i as int]@);
        }
        if !has_name(&existing, sorted[i].as_str()) {
            text.append(format_moved_block(sorted[i].as_str()).as_str());
            any = true;
            proof {
                let k = keep(s.take(i + 1), p);
                assert(k.drop_last() =~= keep(s.take(i as int), p));
                assert(k.last() == s[i as int]);
            }
        }
    }
    if any {
        Some(text)
    } else {
        None
    }
}

/// The workspace edit of a conversion: the `moved` blocks that are not there
/// yet, then the rewrites.
pub fn build_null_resource_workspace_edit(state: &StateStore, rewrites: EditMap, names: &NameMap) -> (r:
    WorkspaceEdit)
    ensures
        r@ == WorkspaceEditV::Operations(null_ops(*state, rewrites@, names@)),
{
    let mut ops: Vec<DocumentOp> = Vec::new();
    let ghost f = null_module_ops(*state);
    let ghost ms = names@;
    proof {
        lemma_take_full(ms);
    }
    assert(ops_view(ops@) =~= flat_map(ms.take(0), f));
    for i in 0..names.entries.len()
        invariant
            ms == names@,
            f == null_module_ops(*state),
            ops_view(ops@) == flat_map(ms.take(i as int), f),
    {
        proof {
            lemma_flat_map_step(ms, f, i as int);
            assert(ms[i as int].0 == names.entries@[i as int].0@);
        }
        let ghost start = ops_view(ops@);
        let dir = names.entries[i].0.as_str();
        match null_moved_text(state, dir, &names.entries[i].1) {
            Some(text) => {
                let strategy = resolve_target_strategy(state, dir, "moved.tf");
                push_append_ops(&mut ops, strategy, dir, "moved.tf", text.as_str());
            },
            None => {
                assert(ops_view(ops@) =~= start + f(ms[i as int]));
            },
        }
    }
    push_rewrite_ops(&mut ops, rewrites);
    WorkspaceEdit::Operations(ops)
}

/// A `moved` block is written for the names that have none, and for no others.
pub proof fn moved_blocks_cover_the_names(
    existing: Seq<Seq<char>>,
    names: Seq<Seq<char>>,
    n: Seq<char>,
)
    ensures
        null_moves_to_add(existing, names).contains(n) <==> names.contains(n)
            && !existing.contains(n),
{
    crate::seqs::lemma_keep_contains(name_set(names), not_among(existing), n);
    crate::order::name_set_contains(names, n);
}

/// Running the conversion again writes no `moved` block twice.
pub proof fn second_conversion_adds_nothing(existing: Seq<Seq<char>>, names: Seq<Seq<char>>)
    ensures
        null_moves_to_add(existing + null_moves_to_add(existing, names), names).len() == 0,
{
    let first = null_moves_to_add(existing, names);
    let again = null_moves_to_add(existing + first, names);
    if again.len() > 0 {
        let n = again[0];
        assert(again.contains(n));
        moved_blocks_cover_the_names(existing + first, names, n);
        moved_blocks_cover_the_names(existing, names, n);
        if existing.contains(n) {
            let i = choose|i: int| 0 <= i < existing.len() && existing[i] == n;
            assert((existing + first)[i] == n);
        } else {
            let i = choose|i: int| 0 <= i < first.len() && first[i] == n;
            assert((existing + first)[existing.len() + i] == n);
        }
    }
}

// ---------------------------------------------------------------------
// One block

/// The conversion of one block: the edits of its name, and its `moved` block.
pub open spec fn convert_one(
    state: StateStore,
    uri: DocUri,
    body: Body,
    t: Seq<char>,
    b: Block,
    diagnostics: Option<Seq<DiagnosticV>>,
) -> Option<CodeActionV> {
    let name = match label_at(b, 1) {
        Some(n) => n,
        None => "?"@,
    };
    let edits = null_edits(body, t, Some(name));
    if edits.len() == 0 {
        None
    } else {
        Some(
            CodeActionV {
                title: "Convert null_resource."@ + name + " to terraform_data"@,
                kind: "quickfix"@,
                diagnostics,
                edit: WorkspaceEditV::Operations(
                    null_ops(
                        state,
                        seq![(uri.text@, edits)],
                        match opt_view(uri.dir) {
                            Some(dir) => seq![(dir, seq![name])],
                            None => Seq::empty(),
                        },
                    ),
                ),
                is_preferred: Some(true),
            },
        )
    }
}

fn make_convert_one(
    state: &StateStore,
    uri: &DocUri,
    body: &Body,
    rope: &Rope,
    b: &Block,
    diagnostics: Option<Vec<Diagnostic>>,
) -> (r: Option<CodeAction>)
    ensures
        opt_action(r) == convert_one(
            *state,
            *uri,
            *body,
            rope_text(*rope),
            *b,
            crate::actions::opt_diagnostics(diagnostics),
        ),
{
    let name = match block_label(b, 1) {
        Some(n) => n,
        None => "?",
    };
    let edits = scan_null_resource_to_terraform_data_for(body, rope, Some(name));
    let ghost ev = edits_view(edits@);
    assert(ev.len() == edits@.len());
    if edits.len() == 0 {
        return None;
    }
    let mut title = "Convert null_resource.".to_owned();
    title.append(name);
    title.append(" to terraform_data");
    let mut rewrites = EditMap::new();
    rewrites.add(uri.text.as_str(), edits);
    assert(rewrites@ =~= seq![(uri.text@, ev)]);
    let mut names = NameMap::new();
    if let Some(dir) = &uri.dir {
        let v = vec![name.to_owned()];
        assert(texts(v@) =~= seq![name@]);
        names.add(dir.as_str(), v);
        assert(names@ =~= seq![(dir@, seq![name@])]);
    }
    Some(
        CodeAction {
            title,
            kind: "quickfix".to_owned(),
            diagnostics,
            edit: build_null_resource_workspace_edit(state, rewrites, &names),
            is_preferred: Some(true),
        },
    )
}

/// The conversion for the block whose type label starts where a diagnostic
/// does.
pub open spec fn convert_for_diag(
    state: StateStore,
    uri: DocUri,
    body: Body,
    t: Seq<char>,
    diag: Diagnostic,
) -> spec_fn(Block) -> Option<Option<CodeActionV>> {
    |b: Block|
        if is_null_block(b) && b.labels@[0].span is Some {
            match span_range(t, b.labels@[0].span->0) {
                Some(range) => if range.start == diag.range.start {
                    Some(convert_one(state, uri, body, t, b, Some(seq![diag@])))
                } else {
                    None
                },
                None => None,
            }
        } else {
            None
        }
}

/// The conversion for the block that holds the cursor.
pub open spec fn convert_at_cursor(
    state: StateStore,
    uri: DocUri,
    body: Body,
    t: Seq<char>,
    cursor: Position,
) -> spec_fn(Block) -> Option<Option<CodeActionV>> {
    |b: Block|
        if is_null_block(b) && b.span is Some {
            match span_range(t, b.span->0) {
                Some(range) => if range_contains(range, cursor) {
                    Some(convert_one(state, uri, body, t, b, None))
                } else {
                    None
                },
                None => None,
            }
        } else {
            None
        }
}

pub open spec fn flatten<A>(o: Option<Option<A>>) -> Option<A> {
    match o {
        Some(x) => x,
        None => None,
    }
}

pub fn make_replace_null_resource_for_diag(
    state: &StateStore,
    uri: &DocUri,
    diag: &Diagnostic,
    body: &Body,
    rope: &Rope,
) -> (r: Option<CodeAction>)
    ensures
        opt_action(r) == flatten(
            find_map(
                blocks(*body),
                convert_for_diag(*state, *uri, *body, rope_text(*rope), *diag),
            ),
        ),
{
    let bs = list_blocks(body);
    let ghost s = blocks(*body);
    let ghost f = convert_for_diag(*state, *uri, *body, rope_text(*rope), *diag);
    proof {
        lemma_take_full(s);
    }
    for i in 0..bs.len()
        invariant
            s == blocks(*body),
            block_pointees(bs@) == s,
            f == convert_for_diag(*state, *uri, *body, rope_text(*rope), *diag),
            find_map(s, f) == find_map(s.skip(i as int), f),
    {
        proof {
            lemma_find_map_step(s, f, i as int);
            assert(s[i as int] == *bs@[i as int]);
        }
        if null_block(bs[i]) {
            if let Some(span) = bs[i].labels[0].span {
                if let Some(range) = hcl_span_to_lsp_range(rope, span) {
                    if range.start == diag.range.start {
                        let ds = vec![diag.duplicate()];
                        assert(diagnostics_view(ds@) =~= seq![diag@]);
                        return make_convert_one(state, uri, body, rope, bs[i], Some(ds));
                    }
                }
            }
        }
    }
    None
}

pub fn make_replace_null_resource_at_cursor(
    state: &StateStore,
    uri: &DocUri,
    cursor: Position,
    body: &Body,
    rope: &Rope,
) -> (r: Option<CodeAction>)
    ensures
        opt_action(r) == flatten(
            find_map(
                blocks(*body),
                convert_at_cursor(*state, *uri, *body, rope_text(*rope), cursor),
            ),
        ),
{
    let bs = list_blocks(body);
    let ghost s = blocks(*body);
    let ghost f = convert_at_cursor(*state, *uri, *body, rope_text(*rope), cursor);
    proof {
        lemma_take_full(s);
    }
    for i in 0..bs.len()
        invariant
            s == blocks(*body),
            block_pointees(bs@) == s,
            f == convert_at_cursor(*state, *uri, *body, rope_text(*rope), cursor),
            find_map(s, f) == find_map(s.skip(i as int), f),
    {
        proof {
            lemma_find_map_step(s, f, i as int);
            assert(s[i as int] == *bs@[i as int]);
        }
        if null_block(bs[i]) {
            if let Some(span) = bs[i].span {
                if let Some(range) = hcl_span_to_lsp_range(rope, span) {
                    if contains(&range, cursor) {
                        return make_convert_one(state, uri, body, rope, bs[i], None);
                    }
                }
            }
        }
    }
    None
}

// ---------------------------------------------------------------------
// Bulk actions

/// The edits of a document within a scope; none where its module does not
/// admit `terraform_data`.
pub open spec fn doc_null_edits(scope: Scope, doc: DocumentState) -> Seq<EditV> {
    match doc.body {
        Some(body) => if doc.supports_terraform_data {
            edits_in_scope(null_edits(body, rope_text(doc.rope), None), scope)
        } else {
            Seq::empty()
        },
        None => Seq::empty(),
    }
}

/// The names of a document that are converted within a scope.
pub open spec fn doc_null_names(scope: Scope, doc: DocumentState) -> Seq<Seq<char>> {
    match doc.body {
        Some(body) => if doc_null_edits(scope, doc).len() == 0 {
            Seq::empty()
        } else if scope is Selection {
            names_with_edits(body, rope_text(doc.rope), doc_null_edits(scope, doc))
        } else {
            null_names(body)
        },
        None => Seq::empty(),
    }
}

pub open spec fn is_label_edit() -> spec_fn(EditV) -> bool {
    |e: EditV| e.new_text == "\"terraform_data\""@
}

/// How many blocks of a document are converted within a scope.
pub open spec fn doc_null_count(scope: Scope, doc: DocumentState) -> nat {
    if scope is Selection {
        keep(doc_null_edits(scope, doc), is_label_edit()).len()
    } else {
        doc_null_names(scope, doc).len()
    }
}

pub open spec fn null_edits_upto(scope: Scope, within: Seq<DocumentState>, n: int) -> EditMapV
    decreases n,
{
    if n <= 0 {
        EditMapV::empty()
    } else {
        let m = null_edits_upto(scope, within, n - 1);
        let e = doc_null_edits(scope, within[n - 1]);
        if e.len() == 0 {
            m
        } else {
            crate::actions::with_edits(m, within[n - 1].uri.text@, e)
        }
    }
}

pub open spec fn null_names_upto(scope: Scope, within: Seq<DocumentState>, n: int) -> NameMapV
    decreases n,
{
    if n <= 0 {
        NameMapV::empty()
    } else {
        let m = null_names_upto(scope, within, n - 1);
        let d = within[n - 1];
        match opt_view(d.uri.dir) {
            Some(dir) => if doc_null_edits(scope, d).len() == 0 {
                m
            } else {
                with_names(m, dir, doc_null_names(scope, d))
            },
            None => m,
        }
    }
}

pub open spec fn null_count_upto(scope: Scope, within: Seq<DocumentState>, n: int) -> nat
    decreases n,
{
    if n <= 0 {
        0
    } else {
        null_count_upto(scope, within, n - 1) + doc_null_count(scope, within[n - 1])
    }
}

/// The conversion action for a scope: none where no block is converted.
pub open spec fn null_action(state: StateStore, primary: DocUri) -> spec_fn(Scope) -> Option<
    CodeActionV,
> {
    |scope: Scope|
        {
            let within = scope_docs(state.documents@, primary, scope);
            let n = within.len() as int;
            let count = null_count_upto(scope, within, n);
            if count == 0 {
                None
            } else {
                Some(
                    CodeActionV {
                        title: "Convert "@ + decimal(count) + " null_resource block"@
                            + plural_suffix(count) + " in "@ + scope_label(scope),
                        kind: kind_of(scope, "null-resource-to-terraform-data"@),
                        diagnostics: None,
                        edit: WorkspaceEditV::Operations(
                            null_ops(
                                state,
                                null_edits_upto(scope, within, n),
                                null_names_upto(scope, within, n),
                            ),
                        ),
                        is_preferred: None,
                    },
                )
            }
        }
}

/// What one document contributes to a conversion.
struct DocConversion {
    edits: Vec<TextEdit>,
    names: Vec<String>,
    blocks: Vec<Range>,
}

fn convert_in_doc(scope: Scope, doc: &DocumentState) -> (r: DocConversion)
    ensures
        edits_view(r.edits@) == doc_null_edits(scope, *doc),
        texts(r.names@) == doc_null_names(scope, *doc),
        r.blocks@.len() == doc_null_count(scope, *doc),
{
    let mut edits: Vec<TextEdit> = Vec::new();
    let mut names: Vec<String> = Vec::new();
    let mut blocks: Vec<Range> = Vec::new();
    let selected = match scope {
        Scope::Selection { .. } => true,
        _ => false,
    };
    if let Some(body) = &doc.body {
        if doc.supports_terraform_data {
            edits = keep_edits_in(scan_null_resource_to_terraform_data(body, &doc.rope), scope);
            assert(edits_view(edits@).len() == edits@.len());
            if edits.len() > 0 {
                names = if selected {
                    names_intersecting_edits(body, &doc.rope, &edits)
                } else {
                    null_resource_names_in_body(body)
                };
            }
        }
    }
    assert(edits_view(edits@) =~= doc_null_edits(scope, *doc));
    assert(texts(names@) =~= doc_null_names(scope, *doc));
    assert(texts(names@).len() == names@.len());
    let ghost s = edits_view(edits@);
    let ghost p = is_label_edit();
    if selected {
        proof {
            lemma_take_full(s);
        }
        for i in 0..edits.len()
            invariant
                s == edits_view(edits@),
                p == is_label_edit(),
                blocks@.len() == keep(s.take(i as int), p).len(),
        {
            proof {
                lemma_keep_step(s, p, i as int);
            }
            if str_eq(edits[i].new_text.as_str(), "\"terraform_data\"") {
                blocks.push(edits[i].range);
            }
        }
        assert(s.len() == edits@.len());
    } else {
        let nowhere = Range {
            start: Position { line: 0, character: 0 },
            end: Position { line: 0, character: 0 },
        };
        for i in 0..names.len()
            invariant
                blocks@.len() == i,
        {
            blocks.push(nowhere);
        }
    }
    DocConversion { edits, names, blocks }
}

fn null_action_for(state: &StateStore, primary_uri: &DocUri, scope: Scope) -> (r: Option<CodeAction>)
    ensures
        match r {
            Some(a) => null_action(*state, *primary_uri)(scope) == Some(a@),
            None => null_action(*state, *primary_uri)(scope) is None,
        },
{
    let docs = for_each_doc_in_scope(state, primary_uri, scope);
    let ghost within = scope_docs(state.documents@, *primary_uri, scope);
    let mut edits = EditMap::new();
    let mut names = NameMap::new();
    let mut blocks: Vec<Range> = Vec::new();
    for i in 0..docs.len()
        invariant
            doc_pointees(docs@) == within,
            edits@ == null_edits_upto(scope, within, i as int),
            names@ == null_names_upto(scope, within, i as int),
            blocks@.len() == null_count_upto(scope, within, i as int),
    {
        assert(within[i as int] == *docs@[i as int]);
        let doc = docs[i];
        let mut one = convert_in_doc(scope, doc);
        proof {
            assert(edits_view(one.edits@).len() == one.edits@.len());
        }
        if one.edits.len() > 0 {
            edits.add(doc.uri.text.as_str(), one.edits);
            if let Some(dir) = &doc.uri.dir {
                names.add(dir.as_str(), one.names);
            }
        }
        blocks.append(&mut one.blocks);
    }
    let count: usize = blocks.len();
    if count == 0 {
        return None;
    }
    let mut title = "Convert ".to_owned();
    title.append(u64_text(count as u64).as_str());
    title.append(" null_resource block");
    title.append(if count == 1 { "" } else { "s" });
    title.append(" in ");
    title.append(scope.human_label());
    Some(
        CodeAction {
            title,
            kind: scope_kind(scope, "null-resource-to-terraform-data"),
            diagnostics: None,
            edit: build_null_resource_workspace_edit(state, edits, &names),
            is_preferred: None,
        },
    )
}

/// Offer the conversion for the selection, the file, the module and the
/// workspace, each where it converts a block.
pub fn emit_null_resource_actions(
    state: &StateStore,
    primary_uri: &DocUri,
    selection: Option<Range>,
    actions: &mut Vec<CodeAction>,
)
    ensures
        actions_view(final(actions)@) == actions_view(old(actions)@) + filter_map(
            bulk_scopes(selection),
            null_action(*state, *primary_uri),
        ),
{
    let scopes = list_bulk_scopes(selection);
    let ghost s = bulk_scopes(selection);
    let ghost f = null_action(*state, *primary_uri);
    let ghost start = actions_view(actions@);
    proof {
        lemma_take_full(s);
    }
    assert(actions_view(actions@) =~= start + filter_map(s.take(0), f));
    for i in 0..scopes.len()
        invariant
            scopes@ == s,
            f == null_action(*state, *primary_uri),
            actions_view(actions@) == start + filter_map(s.take(i as int), f),
    {
        proof {
            lemma_filter_map_step(s, f, i as int);
        }
        let ghost before = actions_view(actions@);
        if let Some(a) = null_action_for(state, primary_uri, scopes[i]) {
            actions.push(a);
            assert(actions_view(actions@) =~= before.push(a@));
        }
        assert(actions_view(actions@) =~= start + filter_map(s.take(i + 1), f));
    }
}

} // verus!
