//! What the conversion of `template_file` blocks writes.

use crate::actions::EditMapV;
use crate::hcl::{
    blocks, blocks_named, children, Attribute, Block, Body, ExprKind, Expression, Structure,
};
use crate::laws::actions::lemma_block_in;
use crate::laws::modules::{has_attribute, has_block, lemma_attributes, lemma_blocks_named};
use crate::laws::rename::{has_edit, holds, lemma_with_edits};
use crate::position::{rope_text, span_range, EditV, Span};
use crate::quick_fixes::expr_source;
use crate::scope::{doc_in_scope, intersects, Scope};
use crate::seqs::{
    flat_map, keep, lemma_filter_map_contains, lemma_find_map_at, lemma_flat_map_contains,
    lemma_keep_contains, lemma_plus_contains,
};
use crate::state::{in_dir, DocUri, DocumentState, StateStore};
use crate::target_file::end_position;
use crate::template_file::{
    attr_source, block_attr_names, body_template_refs, body_template_refs_upto, clear_of,
    clear_refs, convert_template, doc_local_names, doc_targets, existing_locals, host_edits,
    local_line, name_is, not_local, past_newline, target_in, template_ref_edit, template_refs,
    template_refs_upto, template_source, template_target, template_targets, with_name_refs, TargetV,
};
use crate::text::trim;
use crate::variable_types::attr_with_key;
use vstd::prelude::*;

verus! {

/// The first attribute of a key.
pub open spec fn is_first_attribute(body: Body, key: Seq<char>, v: Seq<Attribute>, i: int) -> bool {
    &&& 0 <= i < v.len()
    &&& v == crate::hcl::attributes(body)
    &&& v[i].key.text@ == key
    &&& forall|j: int| 0 <= j < i ==> (#[trigger] v[j]).key.text@ != key
}

/// The template is the argument of `file(…)`, else the value as it is written;
/// the variables are the value of `vars` as it is written.
pub proof fn arguments_are_taken_as_written(
    t: Seq<char>,
    body: Body,
    v: Seq<Attribute>,
    i: int,
    key: Seq<char>,
)
    requires
        is_first_attribute(body, key, v, i),
    ensures
        attr_source(t, body, key) == expr_source(t, v[i].value),
        key == "template"@ ==> template_source(t, body) == match v[i].value.kind {
            ExprKind::FuncCall(f) => if f.args@.len() == 1 && f.name.text@ == "file"@
                && f.namespace@.len() == 0 {
                expr_source(t, f.args@[0])
            } else {
                expr_source(t, v[i].value)
            },
            _ => expr_source(t, v[i].value),
        },
{
    lemma_find_map_at(v, attr_with_key(key), i);
}

/// A convertible block is a named `data "template_file"` block with a template;
/// without `vars` the template gets an empty object.
pub open spec fn is_target(t: Seq<char>, b: Block, x: TargetV) -> bool {
    &&& b.ident.text@ == "data"@
    &&& b.labels@.len() > 1
    &&& b.labels@[0].text@ == "template_file"@
    &&& b.labels@[1].text@ == x.name
    &&& template_source(t, b.body) == Some(x.template_src)
    &&& match attr_source(t, b.body, "vars"@) {
        Some(v) => x.vars_src == v,
        None => x.vars_src == "{}"@,
    }
    &&& b.span is Some
    &&& span_range(
        t,
        Span { start: b.span->0.start, end: past_newline(t, b.span->0.end) },
    ) == Some(x.delete_range)
}

/// Exactly the convertible blocks of a body are found.
pub proof fn template_blocks_are_found(body: Body, t: Seq<char>, x: TargetV)
    ensures
        template_targets(body, t).contains(x) <==> exists|b: Block| #[trigger]
            has_block(body, b) && is_target(t, b, x),
{
    let s = blocks(body);
    let f = template_target(t);
    lemma_filter_map_contains(s, f, x);
    if template_targets(body, t).contains(x) {
        let i = choose|i: int| 0 <= i < s.len() && f(#[trigger] s[i]) == Some(x);
        assert(s.contains(s[i]));
        lemma_block_in(body, s[i]);
        assert(has_block(body, s[i]) && is_target(t, s[i], x));
    }
    if exists|b: Block| #[trigger] has_block(body, b) && is_target(t, b, x) {
        let b = choose|b: Block| #[trigger] has_block(body, b) && is_target(t, b, x);
        lemma_block_in(body, b);
        let i = choose|i: int| 0 <= i < s.len() && s[i] == b;
        assert(f(s[i]) == Some(x));
    }
}

/// The line of a local calls `templatefile` with the template, then the
/// variables.
pub proof fn locals_call_templatefile(x: TargetV)
    ensures
        local_line()(x) == "  "@ + x.name + " = templatefile("@ + trim(x.template_src) + ", "@
            + trim(x.vars_src) + ")\n"@,
{
}

/// A converted block is deleted, and the document ends with a `locals` block that
/// has its line.
pub proof fn converted_blocks_become_locals(t: Seq<char>, targets: Seq<TargetV>, i: int)
    requires
        0 <= i < targets.len(),
    ensures
        ({
            let v = host_edits(t, targets);
            &&& v.len() == targets.len() + 1
            &&& v[i].range == targets[i].delete_range && v[i].new_text == ""@
            &&& v.last().range.start == end_position(t) && v.last().range.end == end_position(t)
            &&& holds(v.last().new_text, "locals {\n"@)
            &&& holds(v.last().new_text, local_line()(targets[i]))
            &&& crate::text::ends_with(v.last().new_text, "}\n"@)
        }),
{
    let v = host_edits(t, targets);
    let text = v.last().new_text;
    let lines = flat_map(targets, local_line());
    let newline = crate::target_file::lacks_newline(t);
    let head = if newline {
        "\n\nlocals {\n"@
    } else {
        "\nlocals {\n"@
    };
    assert(text == head + lines + "}\n"@);
    reveal_strlit("\n\nlocals {\n");
    reveal_strlit("\nlocals {\n");
    reveal_strlit("locals {\n");
    let k: int = if newline {
        2
    } else {
        1
    };
    assert(text.subrange(k, k + "locals {\n"@.len()) =~= "locals {\n"@);
    lemma_part(targets, local_line(), i);
    let p = local_line()(targets[i]);
    let j = choose|j: int|
        0 <= j && j + p.len() <= lines.len() && #[trigger] lines.subrange(j, j + p.len()) == p;
    assert(text.subrange(head.len() + j, head.len() + j + p.len()) =~= lines.subrange(
        j,
        j + p.len(),
    ));
    crate::laws::hover::lemma_ends(head + lines, "}\n"@);
}

/// The text of each element is part of the whole.
pub proof fn lemma_part<A>(s: Seq<A>, f: spec_fn(A) -> Seq<char>, i: int)
    requires
        0 <= i < s.len(),
    ensures
        holds(flat_map(s, f), f(s[i])),
    decreases s.len(),
{
    let all = flat_map(s, f);
    let before = flat_map(s.drop_last(), f);
    let p = f(s[i]);
    if i == s.len() - 1 {
        assert(all.subrange(before.len() as int, (before.len() + p.len()) as int) =~= p);
    } else {
        lemma_part(s.drop_last(), f, i);
        assert(s.drop_last()[i] == s[i]);
        let j = choose|j: int|
            0 <= j && j + p.len() <= before.len() && #[trigger] before.subrange(j, j + p.len())
                == p;
        assert(all.subrange(j, j + p.len()) =~= before.subrange(j, j + p.len()));
    }
}

/// An expression is `data.template_file.NAME.rendered`, maybe with more behind
/// it.
pub open spec fn renders(e: Expression, name: Seq<char>) -> bool {
    match e.kind {
        ExprKind::Traversal(tr) => {
            let ops = tr.operators@;
            &&& tr.expr.kind matches ExprKind::Variable(head) && head@ == "data"@
            &&& ops.len() >= 3
            &&& ops[0].kind matches crate::hcl::TraversalOperator::GetAttr(a) && a.text@
                == "template_file"@
            &&& ops[1].kind matches crate::hcl::TraversalOperator::GetAttr(b) && b.text@ == name
            &&& ops[2].kind matches crate::hcl::TraversalOperator::GetAttr(c) && c.text@
                == "rendered"@
        },
        _ => false,
    }
}

/// A reference to the rendered template of a converted block becomes the local
/// of that name; no other expression is edited.
pub proof fn rendered_templates_become_locals(
    e: Expression,
    t: Seq<char>,
    names: Seq<Seq<char>>,
    name: Seq<char>,
    range: crate::position::Range,
)
    ensures
        template_ref_edit(e, t, names) == Some(EditV { range, new_text: "local."@ + name })
            <== renders(e, name) && names.contains(name) && e.span is Some && span_range(
            t,
            e.span->0,
        ) == Some(range),
        template_ref_edit(e, t, names) is Some ==> exists|n: Seq<char>| #[trigger]
            names.contains(n) && renders(e, n) && e.span is Some && span_range(t, e.span->0)
                == Some((template_ref_edit(e, t, names)->0).range) && (template_ref_edit(
                e,
                t,
                names,
            )->0).new_text == "local."@ + n,
{
    if template_ref_edit(e, t, names) is Some {
        let n = crate::template_file::step_name(e.kind->Traversal_0.operators@, 1)->0;
        assert(names.contains(n) && renders(e, n));
    }
}

/// A reference that is the value of an attribute is edited, in the body itself
/// and in the blocks inside it.
pub proof fn references_in_bodies_are_edited(
    body: Body,
    t: Seq<char>,
    names: Seq<Seq<char>>,
    n: int,
    k: int,
    x: EditV,
)
    requires
        0 <= k < n <= body.structures@.len(),
        match body.structures@[k] {
            Structure::Attribute(a) => template_ref_edit(a.value, t, names) == Some(x),
            Structure::Block(b) => body_template_refs(b.body, t, names).contains(x),
        },
    ensures
        body_template_refs_upto(body, t, names, n).contains(x),
        n == body.structures@.len() ==> body_template_refs(body, t, names).contains(x),
    decreases n,
{
    let before = body_template_refs_upto(body, t, names, n - 1);
    let own = match body.structures@[n - 1] {
        Structure::Attribute(a) => template_refs(a.value, t, names),
        Structure::Block(b) => body_template_refs(b.body, t, names),
    };
    lemma_plus_contains(before, own, x);
    if k < n - 1 {
        references_in_bodies_are_edited(body, t, names, n - 1, k, x);
    } else {
        if let Structure::Attribute(a) = body.structures@[k] {
            assert(template_refs(a.value, t, names)[0] == x);
        }
    }
}

/// A reference inside an expression is edited unless the whole is.
pub proof fn references_in_expressions_are_edited(
    e: Expression,
    t: Seq<char>,
    names: Seq<Seq<char>>,
    n: int,
    k: int,
    x: EditV,
)
    requires
        0 <= k < n <= children(e).len(),
        template_ref_edit(e, t, names) is None,
        template_refs(children(e)[k], t, names).contains(x),
    ensures
        template_refs_upto(e, t, names, n).contains(x),
        n == children(e).len() ==> template_refs(e, t, names).contains(x),
    decreases n,
{
    let before = template_refs_upto(e, t, names, n - 1);
    let own = template_refs(children(e)[n - 1], t, names);
    lemma_plus_contains(before, own, x);
    if k < n - 1 {
        references_in_expressions_are_edited(e, t, names, n - 1, k, x);
    }
}

/// The locals of a module are the keys of the `locals` blocks of its documents.
pub proof fn locals_of_the_module_are_known(docs: Seq<DocumentState>, dir: Seq<char>, name: Seq<char>)
    ensures
        existing_locals(docs, dir).contains(name) <==> exists|k: int| #[trigger]
            declares_local(docs, dir, name, k),
{
    let f = doc_local_names(dir);
    lemma_flat_map_contains(docs, f, name);
    if existing_locals(docs, dir).contains(name) {
        let k = choose|k: int| 0 <= k < docs.len() && (#[trigger] f(docs[k])).contains(name);
        let body = docs[k].body->0;
        let s = blocks_named(body, "locals"@);
        lemma_flat_map_contains(s, block_attr_names(), name);
        let i = choose|i: int|
            0 <= i < s.len() && (#[trigger] block_attr_names()(s[i])).contains(name);
        let b = s[i];
        assert(s.contains(b));
        lemma_blocks_named(body, "locals"@, b);
        let v = crate::hcl::attributes(b.body);
        let names = block_attr_names()(b);
        let j = choose|j: int| 0 <= j < names.len() && names[j] == name;
        assert(v.contains(v[j]));
        lemma_attributes(b.body, v[j]);
        assert(has_attribute(b.body, v[j]) && v[j].key.text@ == name);
        assert(sets_key(b, name));
        assert(declares_local(docs, dir, name, k));
    }
    if exists|k: int| #[trigger] declares_local(docs, dir, name, k) {
        let k = choose|k: int| #[trigger] declares_local(docs, dir, name, k);
        let body = docs[k].body->0;
        let b = choose|b: Block| #[trigger]
            has_block(body, b) && b.ident.text@ == "locals"@ && sets_key(b, name);
        let a = choose|a: Attribute| #[trigger]
            has_attribute(b.body, a) && a.key.text@ == name;
        lemma_attributes(b.body, a);
        let v = crate::hcl::attributes(b.body);
        let j = choose|j: int| 0 <= j < v.len() && v[j] == a;
        let names = block_attr_names()(b);
        assert(names[j] == name);
        let s = blocks_named(body, "locals"@);
        lemma_blocks_named(body, "locals"@, b);
        let i = choose|i: int| 0 <= i < s.len() && s[i] == b;
        lemma_flat_map_contains(s, block_attr_names(), name);
        assert(block_attr_names()(s[i]).contains(name));
        assert(in_dir(docs[k], dir));
        assert(f(docs[k]).contains(name));
    }
}

pub open spec fn sets_key(b: Block, name: Seq<char>) -> bool {
    exists|a: Attribute| #[trigger] has_attribute(b.body, a) && a.key.text@ == name
}

/// A document of the directory has a `locals` block with the key.
pub open spec fn declares_local(
    docs: Seq<DocumentState>,
    dir: Seq<char>,
    name: Seq<char>,
    k: int,
) -> bool {
    &&& 0 <= k < docs.len()
    &&& docs[k].uri.dir is Some && docs[k].uri.dir->0@ == dir
    &&& docs[k].body is Some
    &&& exists|b: Block| #[trigger]
        has_block(docs[k].body->0, b) && b.ident.text@ == "locals"@ && sets_key(b, name)
}

/// What a bulk action converts of a document: the convertible blocks whose name
/// no local of the module has, where the module's CLI has `templatefile`, and in
/// a selection those that touch it.
pub proof fn bulk_conversions_spare_the_locals(
    docs: Seq<DocumentState>,
    primary: DocUri,
    scope: Scope,
    doc: DocumentState,
    x: TargetV,
)
    ensures
        doc_targets(docs, primary, scope, doc).contains(x) <==> {
            &&& doc.body is Some && doc.uri.dir is Some
            &&& doc.supports_templatefile
            &&& doc_in_scope(doc, primary, scope)
            &&& template_targets(doc.body->0, rope_text(doc.rope)).contains(x)
            &&& !existing_locals(docs, doc.uri.dir->0@).contains(x.name)
            &&& match scope {
                Scope::Selection { range } => intersects(x.delete_range, range),
                _ => true,
            }
        },
{
    if doc.body is Some && doc.uri.dir is Some {
        let ts = template_targets(doc.body->0, rope_text(doc.rope));
        let p = not_local(existing_locals(docs, doc.uri.dir->0@));
        lemma_keep_contains(ts, p, x);
        if let Scope::Selection { range } = scope {
            lemma_keep_contains(keep(ts, p), target_in(range), x);
        }
    }
}

/// A block is not converted where a local of the module has its name.
pub proof fn taken_names_are_not_converted(
    state: StateStore,
    uri: DocUri,
    body: Body,
    t: Seq<char>,
    name: Seq<char>,
)
    ensures
        convert_template(state, uri, body, t, name) is Some <==> (exists|x: TargetV| #[trigger]
            template_targets(body, t).contains(x) && x.name == name) && !(uri.dir is Some
            && existing_locals(state.documents@, uri.dir->0@).contains(name)),
{
    let all = template_targets(body, t);
    let targets = keep(all, name_is(name));
    if targets.len() > 0 {
        let x = targets[0];
        assert(targets.contains(x));
        lemma_keep_contains(all, name_is(name), x);
        assert(all.contains(x) && x.name == name);
    }
    if exists|x: TargetV| #[trigger] all.contains(x) && x.name == name {
        let x = choose|x: TargetV| #[trigger] all.contains(x) && x.name == name;
        lemma_keep_contains(all, name_is(name), x);
        assert(targets.contains(x));
    }
}

/// The conversion of one block edits its document and the references to it in
/// every document of the module, those in deleted blocks left out.
pub proof fn references_in_the_module_are_edited(
    docs: Seq<DocumentState>,
    uri: DocUri,
    dir: Seq<char>,
    name: Seq<char>,
    targets: Seq<TargetV>,
    m: EditMapV,
    n: int,
    i: int,
    e: EditV,
)
    requires
        0 <= i < n <= docs.len(),
        docs[i].uri.dir is Some,
        docs[i].uri.dir->0@ == dir,
        docs[i].body is Some,
        body_template_refs(docs[i].body->0, rope_text(docs[i].rope), seq![name]).contains(e),
        docs[i].uri.text@ == uri.text@ ==> forall|j: int|
            0 <= j < targets.len() ==> !intersects((#[trigger] targets[j]).delete_range, e.range),
    ensures
        has_edit(
            with_name_refs(docs, uri, dir, name, targets, m, n),
            docs[i].uri.text@,
            e.range,
            e.new_text,
        ),
    decreases n,
{
    let d = docs[n - 1];
    let before = with_name_refs(docs, uri, dir, name, targets, m, n - 1);
    let gone = if d.uri.text@ == uri.text@ {
        targets
    } else {
        Seq::empty()
    };
    let own = clear_refs(d, seq![name], gone);
    lemma_with_edits(before, d.uri.text@, own, docs[i].uri.text@, e.range, e.new_text);
    if i < n - 1 {
        references_in_the_module_are_edited(docs, uri, dir, name, targets, m, n - 1, i, e);
    } else {
        lemma_keep_contains(
            body_template_refs(d.body->0, rope_text(d.rope), seq![name]),
            clear_of(gone),
            e,
        );
        assert(clear_of(gone)(e));
        let j = choose|j: int| 0 <= j < own.len() && own[j] == e;
        assert(own[j].range == e.range && own[j].new_text == e.new_text);
        assert(in_dir(d, dir));
    }
}

} // verus!
