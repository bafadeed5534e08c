//! Converting `data "template_file"` blocks to calls of `templatefile()`.

use crate::actions::{
    actions_view, with_edits, CodeAction, CodeActionV, EditMap, EditMapV, WorkspaceEdit,
    WorkspaceEditV,
};
use crate::block_rename::{bulk_scopes, edits_in_scope, keep_edits_in, list_bulk_scopes};
use crate::hcl::{
    attr_pointees, attributes, block_label, block_pointees, blocks, blocks_named, child_exprs,
    children, label_at, lemma_child_smaller, list_attributes, list_blocks, list_blocks_named,
    pointees, Attribute, Block, Body, ExprKind, Expression, Operator, Structure,
    TraversalOperator,
};
use crate::null_resource::{flatten, has_name, with_names, NameMap, NameMapV};
use crate::position::{
    char_at_byte, contains, edits_view, hcl_span_to_lsp_range, range_contains, rope_byte_to_char,
    rope_len_bytes, rope_text, rope_to_string, span_range, utf8_len, EditV, Position, Range, Span,
    TextEdit,
};
use crate::quick_fixes::{expr_source, expression_source, opt_edit};
use crate::scope::{
    doc_in_scope, intersects, kind_of, opt_action, plural_suffix, range_intersects, scope_kind,
    scope_label, Scope,
};
use crate::seqs::{
    filter_map, find_map, flat_map, keep, lemma_filter_map_step, lemma_find_map_step,
    lemma_flat_map_step, lemma_keep_contains, lemma_keep_step, lemma_take_full,
};
use crate::state::{in_dir, is_in_dir, DocUri, DocumentState, StateStore};
use crate::target_file::{end_position, lacks_newline, rope_end};
use crate::text::{chars_of, decimal, opt_view, str_eq, str_trim, texts, trim, u64_text};
use crate::variable_types::{find_attr, first_attr};
use ropey::Rope;
use vstd::prelude::*;

verus! {

// ---------------------------------------------------------------------
// Targets

/// A convertible block: its name, the range to delete, and the sources of the
/// two arguments.
pub struct TemplateFileTarget {
    pub name: String,
    pub delete_range: Range,
    pub template_src: String,
    pub vars_src: String,
}

pub struct TargetV {
    pub name: Seq<char>,
    pub delete_range: Range,
    pub template_src: Seq<char>,
    pub vars_src: Seq<char>,
}

impl View for TemplateFileTarget {
    type V = TargetV;

    open spec fn view(&self) -> TargetV {
        TargetV {
            name: self.name@,
            delete_range: self.delete_range,
            template_src: self.template_src@,
            vars_src: self.vars_src@,
        }
    }
}

pub open spec fn targets_view(v: Seq<TemplateFileTarget>) -> Seq<TargetV> {
    Seq::new(v.len(), |i: int| v[i]@)
}

/// The source of an attribute's value.
pub open spec fn attr_source(t: Seq<char>, body: Body, key: Seq<char>) -> Option<Seq<char>> {
    match first_attr(body, key) {
        Some(a) => expr_source(t, a.value),
        None => None,
    }
}

pub fn attribute_source(rope: &Rope, body: &Body, key: &str) -> (r: Option<String>)
    ensures
        opt_view(r) == attr_source(rope_text(*rope), *body, key@),
{
    match find_attr(body, key) {
        Some(a) => expression_source(rope, &a.value),
        None => None,
    }
}

/// The source of the template's path: the argument of `file(…)` where the
/// template is read with it, else the value itself.
pub open spec fn template_source(t: Seq<char>, body: Body) -> Option<Seq<char>> {
    match first_attr(body, "template"@) {
        Some(a) => match a.value.kind {
            ExprKind::FuncCall(f) => if f.namespace@.len() == 0 && f.name.text@ == "file"@
                && f.args@.len() == 1 {
                expr_source(t, f.args@[0])
            } else {
                expr_source(t, a.value)
            },
            _ => expr_source(t, a.value),
        },
        None => None,
    }
}

pub fn template_argument_source(rope: &Rope, body: &Body) -> (r: Option<String>)
    ensures
        opt_view(r) == template_source(rope_text(*rope), *body),
{
    match find_attr(body, "template") {
        Some(a) => {
            if let ExprKind::FuncCall(f) = &a.value.kind {
                if f.namespace.len() == 0 && str_eq(f.name.text.as_str(), "file") && f.args.len()
                    == 1 {
                    return expression_source(rope, &f.args[0]);
                }
            }
            expression_source(rope, &a.value)
        },
        None => None,
    }
}

/// A `data "template_file"` block.
pub open spec fn is_template_block(b: Block) -> bool {
    b.ident.text@ == "data"@ && label_at(b, 0) == Some("template_file"@)
}

fn template_block(b: &Block) -> (r: bool)
    ensures
        r == is_template_block(*b),
{
    str_eq(b.ident.text.as_str(), "data") && match block_label(b, 0) {
        Some(l) => str_eq(l, "template_file"),
        None => false,
    }
}

/// The end of a block together with a line feed right after it.
pub open spec fn past_newline(t: Seq<char>, end: usize) -> usize {
    if end < utf8_len(t) && t[char_at_byte(t, end as nat)] == '\n' && end < usize::MAX {
        (end + 1) as usize
    } else {
        end
    }
}

/// What is converted of a block.
pub open spec fn template_target(t: Seq<char>) -> spec_fn(Block) -> Option<TargetV> {
    |b: Block|
        match (label_at(b, 1), b.span, template_source(t, b.body)) {
            (Some(name), Some(span), Some(template_src)) => if is_template_block(b) {
                match span_range(
                    t,
                    Span { start: span.start, end: past_newline(t, span.end) },
                ) {
                    Some(delete_range) => Some(
                        TargetV {
                            name,
                            delete_range,
                            template_src,
                            vars_src: match attr_source(t, b.body, "vars"@) {
                                Some(v) => v,
                                None => "{}"@,
                            },
                        },
                    ),
                    None => None,
                }
            } else {
                None
            },
            _ => None,
        }
}

/// The convertible blocks of a body.
pub open spec fn template_targets(body: Body, t: Seq<char>) -> Seq<TargetV> {
    filter_map(blocks(body), template_target(t))
}

fn target_of(b: &Block, rope: &Rope) -> (r: Option<TemplateFileTarget>)
    ensures
        match r {
            Some(x) => template_target(rope_text(*rope))(*b) == Some(x@),
            None => template_target(rope_text(*rope))(*b) is None,
        },
{
    if !template_block(b) {
        return None;
    }
    let ghost t = rope_text(*rope);
    if let Some(name) = block_label(b, 1) {
        if let Some(span) = b.span {
            if let Some(template_src) = template_argument_source(rope, &b.body) {
                let total = rope_len_bytes(rope);
                let mut end: usize = span.end;
                if end < total {
                    let c = chars_of(rope_to_string(rope).as_str());
                    let k = rope_byte_to_char(rope, end);
                    proof {
                        lemma_inside(t, end as nat, 0);
                    }
                    if c[k] == '\n' {
                        end = end + 1;
                    }
                }
                if let Some(delete_range) = hcl_span_to_lsp_range(
                    rope,
                    Span { start: span.start, end },
                ) {
                    let vars_src = match attribute_source(rope, &b.body, "vars") {
                        Some(v) => v,
                        None => "{}".to_owned(),
                    };
                    return Some(
                        TemplateFileTarget {
                            name: name.to_owned(),
                            delete_range,
                            template_src,
                            vars_src,
                        },
                    );
                }
            }
        }
    }
    None
}

/// A byte inside the text belongs to one of its characters.
pub proof fn lemma_inside(t: Seq<char>, b: nat, j: int)
    requires
        0 <= j <= t.len(),
        b < utf8_len(t),
        j == 0 || utf8_len(t.take(j)) <= b,
    ensures
        j <= crate::position::char_at_byte_from(t, b, j) < t.len(),
    decreases t.len() - j,
{
    assert(t.take(t.len() as int) =~= t);
    if j < t.len() && utf8_len(t.take(j + 1)) <= b {
        lemma_inside(t, b, j + 1);
    }
}

/// The convertible blocks of a body.
pub fn scan_template_file_targets(rope: &Rope, body: &Body) -> (r: Vec<TemplateFileTarget>)
    ensures
        targets_view(r@) == template_targets(*body, rope_text(*rope)),
{
    let bs = list_blocks(body);
    let ghost s = blocks(*body);
    let ghost f = template_target(rope_text(*rope));
    let mut out: Vec<TemplateFileTarget> = Vec::new();
    proof {
        lemma_take_full(s);
    }
    assert(targets_view(out@) =~= filter_map(s.take(0), f));
    for i in 0..bs.len()
        invariant
            block_pointees(bs@) == s,
            f == template_target(rope_text(*rope)),
            targets_view(out@) == filter_map(s.take(i as int), f),
    {
        proof {
            lemma_filter_map_step(s, f, i as int);
            assert(s[i as int] == *bs@[i as int]);
        }
        let ghost before = targets_view(out@);
        if let Some(x) = target_of(bs[i], rope) {
            out.push(x);
            assert(targets_view(out@) =~= before.push(x@));
        }
    }
    out
}

// ---------------------------------------------------------------------
// Edits of the host document

pub open spec fn delete_edit(x: TargetV) -> EditV {
    EditV { range: x.delete_range, new_text: ""@ }
}

pub open spec fn delete_edits(targets: Seq<TargetV>) -> Seq<EditV> {
    Seq::new(targets.len(), |i: int| delete_edit(targets[i]))
}

pub open spec fn local_line() -> spec_fn(TargetV) -> Seq<char> {
    |x: TargetV|
        "  "@ + x.name + " = templatefile("@ + trim(x.template_src) + ", "@ + trim(x.vars_src)
            + ")\n"@
}

/// The `locals` block that takes the place of the converted blocks.
pub open spec fn locals_block(needs_newline: bool, targets: Seq<TargetV>) -> Seq<char> {
    (if needs_newline {
        "\n\nlocals {\n"@
    } else {
        "\nlocals {\n"@
    }) + flat_map(targets, local_line()) + "}\n"@
}

/// One deletion per block, then one `locals` block at the end of the document.
pub open spec fn host_edits(t: Seq<char>, targets: Seq<TargetV>) -> Seq<EditV> {
    if targets.len() == 0 {
        Seq::empty()
    } else {
        delete_edits(targets).push(
            EditV {
                range: Range { start: end_position(t), end: end_position(t) },
                new_text: locals_block(lacks_newline(t), targets),
            },
        )
    }
}

/// The edits that convert the targets in their document.
pub fn template_file_host_edits(rope: &Rope, targets: &Vec<TemplateFileTarget>) -> (r: Vec<
    TextEdit,
>)
    ensures
        edits_view(r@) == host_edits(rope_text(*rope), targets_view(targets@)),
{
    let mut edits: Vec<TextEdit> = Vec::new();
    let ghost s = targets_view(targets@);
    let ghost g = local_line();
    if targets.len() == 0 {
        assert(edits_view(edits@) =~= host_edits(rope_text(*rope), s));
        return edits;
    }
    let (eof, needs_newline) = rope_end(rope);
    let mut lines = String::new();
    proof {
        lemma_take_full(s);
    }
    assert(lines@ =~= flat_map(s.take(0), g));
    assert(edits_view(edits@) =~= delete_edits(s).take(0));
    for i in 0..targets.len()
        invariant
            s == targets_view(targets@),
            g == local_line(),
            lines@ == flat_map(s.take(i as int), g),
            edits_view(edits@) == delete_edits(s).take(i as int),
    {
        proof {
            lemma_flat_map_step(s, g, i as int);
        }
        let x = &targets[i];
        let mut line = "  ".to_owned();
        line.append(x.name.as_str());
        line.append(" = templatefile(");
        line.append(str_trim(x.template_src.as_str()).as_str());
        line.append(", ");
        line.append(str_trim(x.vars_src.as_str()).as_str());
        line.append(")\n");
        lines.append(line.as_str());
        let ghost before = edits_view(edits@);
        edits.push(TextEdit { range: x.delete_range, new_text: "".to_owned() });
        assert(edits_view(edits@) =~= before.push(delete_edit(s[i as int])));
        assert(delete_edits(s).take(i + 1) =~= delete_edits(s).take(i as int).push(
            delete_edit(s[i as int]),
        ));
    }
    assert(delete_edits(s).take(s.len() as int) =~= delete_edits(s));
    let mut block = (if needs_newline { "\n\nlocals {\n" } else { "\nlocals {\n" }).to_owned();
    block.append(lines.as_str());
    block.append("}\n");
    let ghost before = edits_view(edits@);
    edits.push(TextEdit { range: Range { start: eof, end: eof }, new_text: block });
    assert(edits_view(edits@) =~= before.push(
        EditV { range: Range { start: eof, end: eof }, new_text: block@ },
    ));
    edits
}

// ---------------------------------------------------------------------
// References

pub open spec fn step_name(ops: Seq<Operator>, i: int) -> Option<Seq<char>> {
    if 0 <= i < ops.len() {
        match ops[i].kind {
            TraversalOperator::GetAttr(x) => Some(x.text@),
            _ => None,
        }
    } else {
        None
    }
}

fn step_at(ops: &Vec<Operator>, i: usize) -> (r: Option<&str>)
    ensures
        match r {
            Some(s) => step_name(ops@, i as int) == Some(s@),
            None => step_name(ops@, i as int) is None,
        },
{
    if i < ops.len() {
        match &ops[i].kind {
            TraversalOperator::GetAttr(x) => Some(x.text.as_str()),
            _ => None,
        }
    } else {
        None
    }
}

/// The edit of `data.template_file.X.rendered` to `local.X` for one of the
/// names.
pub open spec fn template_ref_edit(e: Expression, t: Seq<char>, names: Seq<Seq<char>>) -> Option<
    EditV,
> {
    match e.kind {
        ExprKind::Traversal(tr) => match (tr.expr.kind, step_name(tr.operators@, 1), e.span) {
            (ExprKind::Variable(head), Some(name), Some(span)) => if head@ == "data"@
                && step_name(tr.operators@, 0) == Some("template_file"@) && step_name(
                tr.operators@,
                2,
            ) == Some("rendered"@) && names.contains(name) {
                match span_range(t, span) {
                    Some(range) => Some(EditV { range, new_text: "local."@ + name }),
                    None => None,
                }
            } else {
                None
            },
            _ => None,
        },
        _ => None,
    }
}

/// The reference edits of an expression: its own, or those of the expressions
/// inside it.
pub open spec fn template_refs(e: Expression, t: Seq<char>, names: Seq<Seq<char>>) -> Seq<EditV>
    decreases e, children(e).len() + 1,
{
    match template_ref_edit(e, t, names) {
        Some(x) => seq![x],
        None => template_refs_upto(e, t, names, children(e).len() as int),
    }
}

pub open spec fn template_refs_upto(
    e: Expression,
    t: Seq<char>,
    names: Seq<Seq<char>>,
    n: int,
) -> Seq<EditV>
    decreases e, n,
{
    if n <= 0 || n > children(e).len() {
        Seq::empty()
    } else {
        proof {
            lemma_child_smaller(e, n - 1);
        }
        template_refs_upto(e, t, names, n - 1) + template_refs(children(e)[n - 1], t, names)
    }
}

/// The reference edits of a body.
pub open spec fn body_template_refs(body: Body, t: Seq<char>, names: Seq<Seq<char>>) -> Seq<EditV>
    decreases body, body.structures@.len() + 1,
{
    body_template_refs_upto(body, t, names, body.structures@.len() as int)
}

pub open spec fn body_template_refs_upto(
    body: Body,
    t: Seq<char>,
    names: Seq<Seq<char>>,
    n: int,
) -> Seq<EditV>
    decreases body, n,
{
    if n <= 0 || n > body.structures@.len() {
        Seq::empty()
    } else {
        body_template_refs_upto(body, t, names, n - 1) + match body.structures@[n - 1] {
            Structure::Attribute(a) => template_refs(a.value, t, names),
            Structure::Block(b) => body_template_refs(b.body, t, names),
        }
    }
}

fn own_ref_edit(e: &Expression, rope: &Rope, names: &Vec<String>) -> (r: Option<TextEdit>)
    ensures
        opt_edit(r) == template_ref_edit(*e, rope_text(*rope), texts(names@)),
{
    if let ExprKind::Traversal(tr) = &e.kind {
        if let ExprKind::Variable(head) = &tr.expr.kind {
            if str_eq(head.as_str(), "data") {
                if let (Some(kind), Some(name), Some(attr)) = (
                    step_at(&tr.operators, 0),
                    step_at(&tr.operators, 1),
                    step_at(&tr.operators, 2),
                ) {
                    if str_eq(kind, "template_file") && str_eq(attr, "rendered") && has_name(
                        names,
                        name,
                    ) {
                        if let Some(span) = e.span {
                            if let Some(range) = hcl_span_to_lsp_range(rope, span) {
                                let mut new_text = "local.".to_owned();
                                new_text.append(name);
                                return Some(TextEdit { range, new_text });
                            }
                        }
                    }
                }
            }
        }
    }
    None
}

fn visit_expr_for_template_file_refs(
    e: &Expression,
    rope: &Rope,
    names: &Vec<String>,
    out: &mut Vec<TextEdit>,
)
    ensures
        edits_view(final(out)@) == edits_view(old(out)@) + template_refs(
            *e,
            rope_text(*rope),
            texts(names@),
        ),
    decreases *e,
{
    let ghost start = edits_view(out@);
    let ghost t = rope_text(*rope);
    let ghost ns = texts(names@);
    if let Some(x) = own_ref_edit(e, rope, names) {
        out.push(x);
        assert(edits_view(out@) =~= start + seq![x@]);
        return;
    }
    let kids = child_exprs(e);
    assert(edits_view(out@) =~= start + template_refs_upto(*e, t, ns, 0));
    for i in 0..kids.len()
        invariant
            t == rope_text(*rope),
            ns == texts(names@),
            pointees(kids@) == children(*e),
            edits_view(out@) == start + template_refs_upto(*e, t, ns, i as int),
    {
        proof {
            lemma_child_smaller(*e, i as int);
            assert(pointees(kids@)[i as int] == *kids@[i as int]);
        }
        visit_expr_for_template_file_refs(kids[i], rope, names, out);
        assert(edits_view(out@) =~= start + template_refs_upto(*e, t, ns, i + 1));
    }
}

fn visit_body_for_template_file_refs(
    body: &Body,
    rope: &Rope,
    names: &Vec<String>,
    out: &mut Vec<TextEdit>,
)
    ensures
        edits_view(final(out)@) == edits_view(old(out)@) + body_template_refs(
            *body,
            rope_text(*rope),
            texts(names@),
        ),
    decreases *body,
{
    let ghost start = edits_view(out@);
    let ghost t = rope_text(*rope);
    let ghost ns = texts(names@);
    assert(edits_view(out@) =~= start + body_template_refs_upto(*body, t, ns, 0));
    for i in 0..body.structures.len()
        invariant
            t == rope_text(*rope),
            ns == texts(names@),
            edits_view(out@) == start + body_template_refs_upto(*body, t, ns, i as int),
    {
        proof {
            assert(decreases_to!(*body => body.structures));
            assert(decreases_to!(body.structures => body.structures@));
            assert(decreases_to!(body.structures@ => body.structures@[i as int]));
        }
        match &body.structures[i] {
            Structure::Attribute(a) => visit_expr_for_template_file_refs(
                &a.value,
                rope,
                names,
                out,
            ),
            Structure::Block(b) => visit_body_for_template_file_refs(&b.body, rope, names, out),
        }
        assert(edits_view(out@) =~= start + body_template_refs_upto(*body, t, ns, i + 1));
    }
}

/// The edits that rewrite every reference to one of the names.
pub fn template_file_reference_edits(body: &Body, rope: &Rope, names: &Vec<String>) -> (r: Vec<
    TextEdit,
>)
    ensures
        edits_view(r@) == body_template_refs(*body, rope_text(*rope), texts(names@)),
{
    let mut out: Vec<TextEdit> = Vec::new();
    visit_body_for_template_file_refs(body, rope, names, &mut out);
    assert(edits_view(out@) =~= body_template_refs(*body, rope_text(*rope), texts(names@)));
    out
}

// ---------------------------------------------------------------------
// Locals

pub open spec fn attr_name() -> spec_fn(Attribute) -> Seq<char> {
    |a: Attribute| a.key.text@
}

pub open spec fn block_attr_names() -> spec_fn(Block) -> Seq<Seq<char>> {
    |b: Block| crate::seqs::each(attributes(b.body), attr_name())
}

pub open spec fn doc_local_names(dir: Seq<char>) -> spec_fn(DocumentState) -> Seq<Seq<char>> {
    |d: DocumentState|
        if in_dir(d, dir) {
            match d.body {
                Some(b) => flat_map(blocks_named(b, "locals"@), block_attr_names()),
                None => Seq::empty(),
            }
        } else {
            Seq::empty()
        }
}

/// The names that the `locals` blocks of a module declare.
pub open spec fn existing_locals(docs: Seq<DocumentState>, dir: Seq<char>) -> Seq<Seq<char>> {
    flat_map(docs, doc_local_names(dir))
}

fn push_attr_names(out: &mut Vec<String>, b: &Block)
    ensures
        texts(final(out)@) == texts(old(out)@) + block_attr_names()(*b),
{
    let attrs = list_attributes(&b.body);
    let ghost s = attributes(b.body);
    let ghost start = texts(out@);
    let ghost all = crate::seqs::each(s, attr_name());
    assert(texts(out@) =~= start + all.take(0));
    for i in 0..attrs.len()
        invariant
            attr_pointees(attrs@) == s,
            all == crate::seqs::each(s, attr_name()),
            texts(out@) == start + all.take(i as int),
    {
        assert(s[i as int] == *attrs@[i as int]);
        let ghost before = texts(out@);
        out.push(attrs[i].key.text.clone());
        assert(texts(out@) =~= before.push(s[i as int].key.text@));
        assert(all.take(i + 1) =~= all.take(i as int).push(all[i as int]));
        assert(texts(out@) =~= start + all.take(i + 1));
    }
    assert(all.take(all.len() as int) =~= all);
    assert(attr_pointees(attrs@).len() == attrs@.len());
}

/// The names that the `locals` blocks of a module declare.
pub fn collect_existing_local_names(state: &StateStore, module_dir: &str) -> (r: Vec<String>)
    ensures
        texts(r@) == existing_locals(state.documents@, module_dir@),
{
    let mut out: Vec<String> = Vec::new();
    let ghost f = doc_local_names(module_dir@);
    let ghost g = block_attr_names();
    proof {
        lemma_take_full(state.documents@);
    }
    assert(texts(out@) =~= flat_map(state.documents@.take(0), f));
    for i in 0..state.documents.len()
        invariant
            f == doc_local_names(module_dir@),
            g == block_attr_names(),
            texts(out@) == flat_map(state.documents@.take(i as int), f),
    {
        let ghost start = texts(out@);
        proof {
            lemma_flat_map_step(state.documents@, f, i as int);
        }
        if is_in_dir(&state.documents[i], module_dir) {
            if let Some(body) = &state.documents[i].body {
                let bs = list_blocks_named(body, "locals");
                let ghost s = block_pointees(bs@);
                proof {
                    lemma_take_full(s);
                }
                assert(texts(out@) =~= start + flat_map(s.take(0), g));
                for j in 0..bs.len()
                    invariant
                        s == block_pointees(bs@),
                        g == block_attr_names(),
                        texts(out@) == start + flat_map(s.take(j as int), g),
                {
                    proof {
                        lemma_flat_map_step(s, g, j as int);
                        assert(s[j as int] == *bs@[j as int]);
                    }
                    push_attr_names(&mut out, bs[j]);
                    assert(texts(out@) =~= start + flat_map(s.take(j + 1), g));
                }
            }
        }
        assert(texts(out@) =~= start + f(state.documents@[i as int]));
    }
    out
}

// ---------------------------------------------------------------------
// One block

pub open spec fn name_is(name: Seq<char>) -> spec_fn(TargetV) -> bool {
    |x: TargetV| x.name == name
}

/// The edit touches none of the deleted ranges.
pub open spec fn clear_of(targets: Seq<TargetV>) -> spec_fn(EditV) -> bool {
    |e: EditV|
        forall|i: int|
            0 <= i < targets.len() ==> !intersects((#[trigger] targets[i]).delete_range, e.range)
}

/// The reference edits of a document for the given names that touch nothing
/// that is deleted there.
pub open spec fn clear_refs(doc: DocumentState, names: Seq<Seq<char>>, deleted: Seq<TargetV>) -> Seq<
    EditV,
> {
    match doc.body {
        Some(b) => keep(body_template_refs(b, rope_text(doc.rope), names), clear_of(deleted)),
        None => Seq::empty(),
    }
}

/// No reference edit falls into a range that is deleted.
pub proof fn refs_stay_clear_of_deletes(
    doc: DocumentState,
    names: Seq<Seq<char>>,
    deleted: Seq<TargetV>,
    e: EditV,
    i: int,
)
    requires
        clear_refs(doc, names, deleted).contains(e),
        0 <= i < deleted.len(),
    ensures
        !intersects(deleted[i].delete_range, e.range),
{
    if let Some(b) = doc.body {
        lemma_keep_contains(
            body_template_refs(b, rope_text(doc.rope), names),
            clear_of(deleted),
            e,
        );
    }
}

fn is_clear(targets: &Vec<TemplateFileTarget>, range: Range) -> (r: bool)
    ensures
        forall|e: EditV|
            #![trigger clear_of(targets_view(targets@))(e)]
            e.range == range ==> r == clear_of(targets_view(targets@))(e),
{
    let ghost s = targets_view(targets@);
    for i in 0..targets.len()
        invariant
            s == targets_view(targets@),
            forall|j: int| 0 <= j < i ==> !intersects((#[trigger] s[j]).delete_range, range),
    {
        if range_intersects(&targets[i].delete_range, &range) {
            assert(intersects(s[i as int].delete_range, range));
            return false;
        }
        assert(s[i as int].delete_range == targets@[i as int].delete_range);
    }
    true
}

fn list_clear_refs(doc: &DocumentState, names: &Vec<String>, deleted: &Vec<TemplateFileTarget>) -> (r:
    Vec<TextEdit>)
    ensures
        edits_view(r@) == clear_refs(*doc, texts(names@), targets_view(deleted@)),
{
    let mut out: Vec<TextEdit> = Vec::new();
    if let Some(body) = &doc.body {
        let all = template_file_reference_edits(body, &doc.rope, names);
        let ghost s = edits_view(all@);
        let ghost p = clear_of(targets_view(deleted@));
        let ghost orig = all@;
        let mut rest = all;
        let n: usize = rest.len();
        proof {
            lemma_take_full(s);
        }
        assert(edits_view(out@) =~= keep(s.take(0), p));
        for i in 0..n
            invariant
                n == orig.len(),
                s == edits_view(orig),
                p == clear_of(targets_view(deleted@)),
                rest@ == orig.skip(i as int),
                edits_view(out@) == keep(s.take(i as int), p),
        {
            proof {
                lemma_keep_step(s, p, i as int);
                assert(orig.skip(i as int).remove(0) =~= orig.skip(i + 1));
            }
            let ghost before = edits_view(out@);
            let x = rest.remove(0);
            let clear = is_clear(deleted, x.range);
            assert(clear == p(s[i as int]));
            if clear {
                out.push(x);
                assert(edits_view(out@) =~= before.push(s[i as int]));
            }
        }
    }
    assert(edits_view(out@) =~= clear_refs(*doc, texts(names@), targets_view(deleted@)));
    out
}

/// The reference edits of a module for one converted block, after `m`.
pub open spec fn with_name_refs(
    docs: Seq<DocumentState>,
    uri: DocUri,
    dir: Seq<char>,
    name: Seq<char>,
    targets: Seq<TargetV>,
    m: EditMapV,
    n: int,
) -> EditMapV
    decreases n,
{
    if n <= 0 {
        m
    } else {
        let before = with_name_refs(docs, uri, dir, name, targets, m, n - 1);
        let d = docs[n - 1];
        let refs = clear_refs(
            d,
            seq![name],
            if d.uri.text@ == uri.text@ {
                targets
            } else {
                Seq::empty()
            },
        );
        if in_dir(d, dir) && refs.len() > 0 {
            with_edits(before, d.uri.text@, refs)
        } else {
            before
        }
    }
}

/// The conversion of the blocks of one name and the references to it.
pub open spec fn convert_template(
    state: StateStore,
    uri: DocUri,
    body: Body,
    t: Seq<char>,
    name: Seq<char>,
) -> Option<CodeActionV> {
    let targets = keep(template_targets(body, t), name_is(name));
    let taken = match opt_view(uri.dir) {
        Some(dir) => existing_locals(state.documents@, dir).contains(name),
        None => false,
    };
    if taken || targets.len() == 0 {
        None
    } else {
        let host = seq![(uri.text@, host_edits(t, targets))];
        Some(
            CodeActionV {
                title: "Convert template_file."@ + name + " to templatefile()"@,
                kind: "quickfix"@,
                diagnostics: None,
                edit: WorkspaceEditV::Changes(
                    match opt_view(uri.dir) {
                        Some(dir) => with_name_refs(
                            state.documents@,
                            uri,
                            dir,
                            name,
                            targets,
                            host,
                            state.documents@.len() as int,
                        ),
                        None => host,
                    },
                ),
                is_preferred: Some(true),
            },
        )
    }
}

/// The conversion for a block that holds the cursor; nothing where the block
/// has no name.
pub open spec fn convert_template_at(
    state: StateStore,
    uri: DocUri,
    body: Body,
    t: Seq<char>,
    cursor: Position,
) -> spec_fn(Block) -> Option<Option<CodeActionV>> {
    |b: Block|
        if is_template_block(b) && b.span is Some {
            match span_range(t, b.span->0) {
                Some(range) => if range_contains(range, cursor) {
                    Some(
                        match label_at(b, 1) {
                            Some(name) => convert_template(state, uri, body, t, name),
                            None => None,
                        },
                    )
                } else {
                    None
                },
                None => None,
            }
        } else {
            None
        }
}

fn keep_named(v: Vec<TemplateFileTarget>, name: &str) -> (r: Vec<TemplateFileTarget>)
    ensures
        targets_view(r@) == keep(targets_view(v@), name_is(name@)),
{
    let ghost s = targets_view(v@);
    let ghost p = name_is(name@);
    let ghost orig = v@;
    let mut rest = v;
    let n: usize = rest.len();
    let mut out: Vec<TemplateFileTarget> = Vec::new();
    proof {
        lemma_take_full(s);
    }
    assert(targets_view(out@) =~= keep(s.take(0), p));
    for i in 0..n
        invariant
            n == orig.len(),
            s == targets_view(orig),
            p == name_is(name@),
            rest@ == orig.skip(i as int),
            targets_view(out@) == keep(s.take(i as int), p),
    {
        proof {
            lemma_keep_step(s, p, i as int);
            assert(orig.skip(i as int).remove(0) =~= orig.skip(i + 1));
        }
        let ghost before = targets_view(out@);
        let x = rest.remove(0);
        if str_eq(x.name.as_str(), name) {
            out.push(x);
            assert(targets_view(out@) =~= before.push(s[i as int]));
        }
    }
    out
}

fn make_convert_template(state: &StateStore, uri: &DocUri, body: &Body, rope: &Rope, name: &str) -> (r:
    Option<CodeAction>)
    ensures
        opt_action(r) == convert_template(*state, *uri, *body, rope_text(*rope), name@),
{
    if let Some(dir) = &uri.dir {
        if has_name(&collect_existing_local_names(state, dir.as_str()), name) {
            return None;
        }
    }
    let targets = keep_named(scan_template_file_targets(rope, body), name);
    let ghost ts = targets_view(targets@);
    assert(ts.len() == targets@.len());
    if targets.len() == 0 {
        return None;
    }
    let host = template_file_host_edits(rope, &targets);
    let ghost hv = edits_view(host@);
    let mut edits = EditMap::new();
    edits.add(uri.text.as_str(), host);
    assert(edits@ =~= seq![(uri.text@, hv)]);
    if let Some(dir) = &uri.dir {
        let names = vec![name.to_owned()];
        assert(texts(names@) =~= seq![name@]);
        let none: Vec<TemplateFileTarget> = Vec::new();
        assert(targets_view(none@) =~= Seq::<TargetV>::empty());
        let ghost start = edits@;
        for i in 0..state.documents.len()
            invariant
                texts(names@) == seq![name@],
                targets_view(none@) == Seq::<TargetV>::empty(),
                ts == targets_view(targets@),
                edits@ == with_name_refs(
                    state.documents@,
                    *uri,
                    dir@,
                    name@,
                    ts,
                    start,
                    i as int,
                ),
        {
            let doc = &state.documents[i];
            let same = doc.uri.text == uri.text;
            let refs = if same {
                list_clear_refs(doc, &names, &targets)
            } else {
                list_clear_refs(doc, &names, &none)
            };
            assert(edits_view(refs@).len() == refs@.len());
            if is_in_dir(doc, dir.as_str()) && refs.len() > 0 {
                edits.add(doc.uri.text.as_str(), refs);
            }
        }
    }
    let mut title = "Convert template_file.".to_owned();
    title.append(name);
    title.append(" to templatefile()");
    Some(
        CodeAction {
            title,
            kind: "quickfix".to_owned(),
            diagnostics: None,
            edit: WorkspaceEdit::Changes(edits),
            is_preferred: Some(true),
        },
    )
}

/// Convert the block under the cursor and the references to it. `supported`
/// says whether the module's CLI knows `templatefile()`.
pub fn make_replace_template_file_at_cursor(
    state: &StateStore,
    uri: &DocUri,
    supported: bool,
    cursor: Position,
    body: &Body,
    rope: &Rope,
) -> (r: Option<CodeAction>)
    ensures
        opt_action(r) == if supported {
            flatten(
                find_map(
                    blocks(*body),
                    convert_template_at(*state, *uri, *body, rope_text(*rope), cursor),
                ),
            )
        } else {
            None
        },
{
    if !supported {
        return None;
    }
    let bs = list_blocks(body);
    let ghost s = blocks(*body);
    let ghost f = convert_template_at(*state, *uri, *body, rope_text(*rope), cursor);
    proof {
        lemma_take_full(s);
    }
    for i in 0..bs.len()
        invariant
            supported,
            s == blocks(*body),
            block_pointees(bs@) == s,
            f == convert_template_at(*state, *uri, *body, rope_text(*rope), cursor),
            find_map(s, f) == find_map(s.skip(i as int), f),
    {
        proof {
            lemma_find_map_step(s, f, i as int);
            assert(s[i as int] == *bs@[i as int]);
        }
        if template_block(bs[i]) {
            if let Some(span) = bs[i].span {
                if let Some(range) = hcl_span_to_lsp_range(rope, span) {
                    if contains(&range, cursor) {
                        return match block_label(bs[i], 1) {
                            Some(name) => make_convert_template(state, uri, body, rope, name),
                            None => None,
                        };
                    }
                }
            }
        }
    }
    None
}

// ---------------------------------------------------------------------
// Bulk actions

pub open spec fn not_local(names: Seq<Seq<char>>) -> spec_fn(TargetV) -> bool {
    |x: TargetV| !names.contains(x.name)
}

pub open spec fn target_in(range: Range) -> spec_fn(TargetV) -> bool {
    |x: TargetV| intersects(x.delete_range, range)
}

/// The blocks of a document that a scope converts: those that its module
/// supports, whose name no local has, and that touch the selection.
pub open spec fn doc_targets(
    docs: Seq<DocumentState>,
    primary: DocUri,
    scope: Scope,
    doc: DocumentState,
) -> Seq<TargetV> {
    match (doc.body, opt_view(doc.uri.dir)) {
        (Some(body), Some(dir)) => if doc.supports_templatefile && doc_in_scope(
            doc,
            primary,
            scope,
        ) {
            let all = keep(
                template_targets(body, rope_text(doc.rope)),
                not_local(existing_locals(docs, dir)),
            );
            match scope {
                Scope::Selection { range } => keep(all, target_in(range)),
                _ => all,
            }
        } else {
            Seq::empty()
        },
        _ => Seq::empty(),
    }
}

pub open spec fn target_names(v: Seq<TargetV>) -> Seq<Seq<char>> {
    Seq::new(v.len(), |i: int| v[i].name)
}

/// The edits of the converted documents themselves.
pub open spec fn hosts_upto(
    docs: Seq<DocumentState>,
    primary: DocUri,
    scope: Scope,
    n: int,
) -> EditMapV
    decreases n,
{
    if n <= 0 {
        EditMapV::empty()
    } else {
        let m = hosts_upto(docs, primary, scope, n - 1);
        let d = docs[n - 1];
        let ts = doc_targets(docs, primary, scope, d);
        if ts.len() == 0 {
            m
        } else {
            with_edits(m, d.uri.text@, host_edits(rope_text(d.rope), ts))
        }
    }
}

/// Per module, the names that are converted.
pub open spec fn converted_upto(
    docs: Seq<DocumentState>,
    primary: DocUri,
    scope: Scope,
    n: int,
) -> NameMapV
    decreases n,
{
    if n <= 0 {
        NameMapV::empty()
    } else {
        let m = converted_upto(docs, primary, scope, n - 1);
        let d = docs[n - 1];
        let ts = doc_targets(docs, primary, scope, d);
        match opt_view(d.uri.dir) {
            Some(dir) => if ts.len() == 0 {
                m
            } else {
                with_names(m, dir, target_names(ts))
            },
            None => m,
        }
    }
}

/// How many blocks are converted.
pub open spec fn converted_count(
    docs: Seq<DocumentState>,
    primary: DocUri,
    scope: Scope,
    n: int,
) -> nat
    decreases n,
{
    if n <= 0 {
        0
    } else {
        converted_count(docs, primary, scope, n - 1) + doc_targets(
            docs,
            primary,
            scope,
            docs[n - 1],
        ).len()
    }
}

/// `m` with the reference edits of the first `n` documents of one module.
pub open spec fn with_module_refs(
    docs: Seq<DocumentState>,
    primary: DocUri,
    scope: Scope,
    module: (Seq<char>, Seq<Seq<char>>),
    m: EditMapV,
    n: int,
) -> EditMapV
    decreases n,
{
    if n <= 0 {
        m
    } else {
        let before = with_module_refs(docs, primary, scope, module, m, n - 1);
        let d = docs[n - 1];
        let refs = edits_in_scope(
            clear_refs(d, module.1, doc_targets(docs, primary, scope, d)),
            scope,
        );
        if in_dir(d, module.0) && refs.len() > 0 {
            with_edits(before, d.uri.text@, refs)
        } else {
            before
        }
    }
}

/// `m` with the reference edits of the first `k` modules.
pub open spec fn with_all_refs(
    docs: Seq<DocumentState>,
    primary: DocUri,
    scope: Scope,
    modules: NameMapV,
    m: EditMapV,
    k: int,
) -> EditMapV
    decreases k,
{
    if k <= 0 {
        m
    } else {
        with_module_refs(
            docs,
            primary,
            scope,
            modules[k - 1],
            with_all_refs(docs, primary, scope, modules, m, k - 1),
            docs.len() as int,
        )
    }
}

/// The conversion action for a scope: none where no block is converted.
pub open spec fn template_action(state: StateStore, primary: DocUri) -> spec_fn(Scope) -> Option<
    CodeActionV,
> {
    |scope: Scope|
        {
            let docs = state.documents@;
            let n = docs.len() as int;
            let count = converted_count(docs, primary, scope, n);
            let modules = converted_upto(docs, primary, scope, n);
            if count == 0 {
                None
            } else {
                Some(
                    CodeActionV {
                        title: "Convert "@ + decimal(count) + " template_file data block"@
                            + plural_suffix(count) + " to templatefile() in "@ + scope_label(
                            scope,
                        ),
                        kind: kind_of(scope, "template-file-to-templatefile"@),
                        diagnostics: None,
                        edit: WorkspaceEditV::Changes(
                            with_all_refs(
                                docs,
                                primary,
                                scope,
                                modules,
                                hosts_upto(docs, primary, scope, n),
                                modules.len() as int,
                            ),
                        ),
                        is_preferred: None,
                    },
                )
            }
        }
}

fn keep_targets(v: Vec<TemplateFileTarget>, locals: &Vec<String>, scope: Scope) -> (r: Vec<
    TemplateFileTarget,
>)
    ensures
        targets_view(r@) == ({
            let all = keep(targets_view(v@), not_local(texts(locals@)));
            match scope {
                Scope::Selection { range } => keep(all, target_in(range)),
                _ => all,
            }
        }),
{
    let ghost s = targets_view(v@);
    let ghost p = not_local(texts(locals@));
    let ghost orig = v@;
    let mut rest = v;
    let n: usize = rest.len();
    let mut out: Vec<TemplateFileTarget> = Vec::new();
    proof {
        lemma_take_full(s);
    }
    let (selected, range) = match scope {
        Scope::Selection { range } => (true, range),
        _ => (
            false,
            Range {
                start: Position { line: 0, character: 0 },
                end: Position { line: 0, character: 0 },
            },
        ),
    };
    let ghost q = target_in(range);
    assert(targets_view(out@) =~= keep(s.take(0), p));
    assert(keep(keep(s.take(0), p), q) =~= keep(s.take(0), p));
    for i in 0..n
        invariant
            n == orig.len(),
            s == targets_view(orig),
            p == not_local(texts(locals@)),
            q == target_in(range),
            rest@ == orig.skip(i as int),
            targets_view(out@) == if selected {
                keep(keep(s.take(i as int), p), q)
            } else {
                keep(s.take(i as int), p)
            },
    {
        proof {
            lemma_keep_step(s, p, i as int);
            assert(orig.skip(i as int).remove(0) =~= orig.skip(i + 1));
            let k = keep(s.take(i + 1), p);
            if p(s[i as int]) {
                assert(k.drop_last() =~= keep(s.take(i as int), p));
                assert(k.last() == s[i as int]);
            }
        }
        let ghost before = targets_view(out@);
        let x = rest.remove(0);
        if !has_name(locals, x.name.as_str()) {
            if !selected || range_intersects(&x.delete_range, &range) {
                out.push(x);
                assert(targets_view(out@) =~= before.push(s[i as int]));
            }
        }
    }
    out
}

fn list_doc_targets(state: &StateStore, primary: &DocUri, scope: Scope, doc: &DocumentState) -> (r:
    Vec<TemplateFileTarget>)
    ensures
        targets_view(r@) == doc_targets(state.documents@, *primary, scope, *doc),
{
    if let Some(body) = &doc.body {
        if let Some(dir) = &doc.uri.dir {
            if doc.supports_templatefile && crate::scope::is_doc_in_scope(doc, primary, scope) {
                let locals = collect_existing_local_names(state, dir.as_str());
                return keep_targets(scan_template_file_targets(&doc.rope, body), &locals, scope);
            }
        }
    }
    let out: Vec<TemplateFileTarget> = Vec::new();
    assert(targets_view(out@) =~= doc_targets(state.documents@, *primary, scope, *doc));
    out
}

fn list_target_names(v: &Vec<TemplateFileTarget>) -> (r: Vec<String>)
    ensures
        texts(r@) == target_names(targets_view(v@)),
{
    let mut out: Vec<String> = Vec::new();
    for i in 0..v.len()
        invariant
            out@.len() == i,
            forall|j: int| 0 <= j < i ==> (#[trigger] out@[j])@ == v@[j].name@,
    {
        out.push(v[i].name.clone());
    }
    assert(texts(out@) =~= target_names(targets_view(v@)));
    out
}

fn add_module_refs(
    state: &StateStore,
    primary: &DocUri,
    scope: Scope,
    dir: &str,
    names: &Vec<String>,
    edits: &mut EditMap,
)
    ensures
        final(edits)@ == with_module_refs(
            state.documents@,
            *primary,
            scope,
            (dir@, texts(names@)),
            old(edits)@,
            state.documents@.len() as int,
        ),
{
    let ghost start = edits@;
    for i in 0..state.documents.len()
        invariant
            edits@ == with_module_refs(
                state.documents@,
                *primary,
                scope,
                (dir@, texts(names@)),
                start,
                i as int,
            ),
    {
        let doc = &state.documents[i];
        if is_in_dir(doc, dir) {
            let deleted = list_doc_targets(state, primary, scope, doc);
            let refs = keep_edits_in(list_clear_refs(doc, names, &deleted), scope);
            assert(edits_view(refs@).len() == refs@.len());
            if refs.len() > 0 {
                edits.add(doc.uri.text.as_str(), refs);
            }
        }
    }
}

fn template_action_for(state: &StateStore, primary_uri: &DocUri, scope: Scope) -> (r: Option<
    CodeAction,
>)
    ensures
        match r {
            Some(a) => template_action(*state, *primary_uri)(scope) == Some(a@),
            None => template_action(*state, *primary_uri)(scope) is None,
        },
{
    let ghost docs = state.documents@;
    let mut edits = EditMap::new();
    let mut modules = NameMap::new();
    let mut all: Vec<String> = Vec::new();
    for i in 0..state.documents.len()
        invariant
            docs == state.documents@,
            edits@ == hosts_upto(docs, *primary_uri, scope, i as int),
            modules@ == converted_upto(docs, *primary_uri, scope, i as int),
            all@.len() == converted_count(docs, *primary_uri, scope, i as int),
    {
        let doc = &state.documents[i];
        let targets = list_doc_targets(state, primary_uri, scope, doc);
        assert(targets_view(targets@).len() == targets@.len());
        if targets.len() > 0 {
            edits.add(doc.uri.text.as_str(), template_file_host_edits(&doc.rope, &targets));
            if let Some(dir) = &doc.uri.dir {
                modules.add(dir.as_str(), list_target_names(&targets));
            }
            let mut names = list_target_names(&targets);
            assert(texts(names@).len() == names@.len());
            all.append(&mut names);
        }
    }
    let count: usize = all.len();
    if count == 0 {
        return None;
    }
    let ghost start = edits@;
    let ghost ms = modules@;
    for k in 0..modules.entries.len()
        invariant
            docs == state.documents@,
            ms == modules@,
            edits@ == with_all_refs(docs, *primary_uri, scope, ms, start, k as int),
    {
        assert(ms[k as int] == (
            modules.entries@[k as int].0@,
            texts(modules.entries@[k as int].1@),
        ));
        add_module_refs(
            state,
            primary_uri,
            scope,
            modules.entries[k].0.as_str(),
            &modules.entries[k].1,
            &mut edits,
        );
    }
    let mut title = "Convert ".to_owned();
    title.append(u64_text(count as u64).as_str());
    title.append(" template_file data block");
    title.append(if count == 1 { "" } else { "s" });
    title.append(" to templatefile() in ");
    title.append(scope.human_label());
    Some(
        CodeAction {
            title,
            kind: scope_kind(scope, "template-file-to-templatefile"),
            diagnostics: None,
            edit: WorkspaceEdit::Changes(edits),
            is_preferred: None,
        },
    )
}

/// Offer the conversion for the selection, the file, the module and the
/// workspace, each where it converts a block.
pub fn emit_template_file_actions(
    state: &StateStore,
    primary_uri: &DocUri,
    selection: Option<Range>,
    actions: &mut Vec<CodeAction>,
)
    ensures
        actions_view(final(actions)@) == actions_view(old(actions)@) + filter_map(
            bulk_scopes(selection),
            template_action(*state, *primary_uri),
        ),
{
    let scopes = list_bulk_scopes(selection);
    let ghost s = bulk_scopes(selection);
    let ghost f = template_action(*state, *primary_uri);
    let ghost start = actions_view(actions@);
    proof {
        lemma_take_full(s);
    }
    assert(actions_view(actions@) =~= start + filter_map(s.take(0), f));
    for i in 0..scopes.len()
        invariant
            scopes@ == s,
            f == template_action(*state, *primary_uri),
            actions_view(actions@) == start + filter_map(s.take(i as int), f),
    {
        proof {
            lemma_filter_map_step(s, f, i as int);
        }
        let ghost before = actions_view(actions@);
        if let Some(a) = template_action_for(state, primary_uri, scopes[i]) {
            actions.push(a);
            assert(actions_view(actions@) =~= before.push(a@));
        }
        assert(actions_view(actions@) =~= start + filter_map(s.take(i + 1), f));
    }
}

} // verus!
