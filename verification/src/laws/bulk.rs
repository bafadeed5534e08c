//! Which actions are offered, and what the bulk actions cover.

use crate::actions::{CodeActionV, WorkspaceEditV};
use crate::attr_ref_map::{output_suffix, ref_rules, referenced_type, rule_target};
use crate::block_rename::{
    bulk_scopes, doc_provider_constraint, doc_required_version, edits_in_scope, provider_constraint,
    rename_action,
};
use crate::code_action::{
    bulk_actions, code_action_answer, fix_action, fix_actions, has_title, instance_actions,
    selection_of, BulkFix, CodeActionParams,
};
use crate::folding::{ancestors, attribute_range, chain, holds, selection_chain};
use crate::formatting::{format_action, format_actions, holding_range};
use crate::hcl::{attributes, blocks, blocks_named, Block, Body, ExprKind};
use crate::laws::actions::{bulk_actions_have_their_scopes, lemma_block_in};
use crate::laws::basics::not_after;
use crate::laws::common::{is_doc, lemma_doc};
use crate::laws::modules::{has_block, lemma_blocks_named};
use crate::laws::rename::{has_edit, lemma_with_edits};
use crate::move_blocks::{declare_action, move_action, one_or_none, output_words, variable_words};
use crate::moved::{body_traversal, steps_text};
use crate::null_resource::{
    convert_at_cursor, doc_moved_null_names, doc_null_edits, doc_null_names, existing_null_names,
    flatten, moved_null_name, name_with_edit, names_with_edits, null_action, null_edits,
    null_edits_upto, null_name, null_names,
};
use crate::position::{rope_text, span_range, EditV, Position, Range};
use crate::providers::{attr_literal, block_required_version, required_version};
use crate::quick_fixes::insert_point;
use crate::scope::{kind_of, Scope};
use crate::seqs::{
    filter_map, find_map, lemma_filter_map_contains, lemma_find_map_at, lemma_find_map_first,
    lemma_flat_map_contains, lemma_plus_contains,
};
use crate::state::{in_dir, DocUri, DocumentState, StateStore, SymbolTable};
use crate::template_file::template_action;
use crate::text::{ends_with, join, opt_view, starts_with};
use crate::variable_types::{has_attr, holding, inferred, insert_type_at_cursor};
use vstd::prelude::*;

verus! {

// ---------------------------------------------------------------------
// The offered families

proof fn lemma_scoped(
    f: spec_fn(Scope) -> Option<CodeActionV>,
    selection: Option<Range>,
    scope: Scope,
)
    requires
        bulk_scopes(selection).contains(scope),
        f(scope) is Some,
    ensures
        filter_map(bulk_scopes(selection), f).contains(f(scope)->0),
{
    let s = bulk_scopes(selection);
    let n = choose|n: int| 0 <= n < s.len() && s[n] == scope;
    lemma_filter_map_contains(s, f, f(scope)->0);
    assert(f(s[n]) == Some(f(scope)->0));
}

proof fn lemma_bulk(state: StateStore, uri: DocUri, params: CodeActionParams, a: CodeActionV, k: int)
    requires
        is_doc(state, uri.text@, k),
        bulk_actions(state, uri, params).contains(a),
    ensures
        code_action_answer(state, uri, params) matches Some(v) && v.contains(a),
{
    lemma_doc(state, uri, k);
    lemma_plus_contains(
        instance_actions(state, uri, state.documents@[k], params),
        bulk_actions(state, uri, params),
        a,
    );
}

/// Every family of bulk actions is among the answered actions, for each scope
/// that it has an action for: conversions, renames, declarations, moves and
/// formatting.
pub proof fn every_family_is_answered(
    state: StateStore,
    uri: DocUri,
    params: CodeActionParams,
    k: int,
    scope: Scope,
)
    requires
        is_doc(state, uri.text@, k),
        match scope {
            Scope::Instance => false,
            Scope::Selection { range } => params.range.start != params.range.end && range
                == params.range,
            _ => true,
        },
    ensures
        ({
            let answer = code_action_answer(state, uri, params);
            &&& null_action(state, uri)(scope) matches Some(a) ==> (answer matches Some(v)
                && v.contains(a))
            &&& template_action(state, uri)(scope) matches Some(a) ==> (answer matches Some(v)
                && v.contains(a))
            &&& rename_action(state, params.gates@, uri)(scope) matches Some(a) ==> (
            answer matches Some(v) && v.contains(a))
            &&& declare_action(state, uri) matches Some(a) ==> (answer matches Some(v)
                && v.contains(a))
            &&& move_action(state, uri, output_words()) matches Some(a) ==> (answer matches Some(v)
                && v.contains(a))
            &&& move_action(state, uri, variable_words()) matches Some(a) ==> (
            answer matches Some(v) && v.contains(a))
            &&& !(scope is Selection) ==> (format_action(state, uri)(scope) matches Some(a) ==> (
            answer matches Some(v) && v.contains(a)))
        }),
{
    let selection = selection_of(params.range);
    bulk_actions_have_their_scopes(selection, scope);
    let s = bulk_scopes(selection);
    let f1 = fix_actions(BulkFix::UnwrapInterpolation, state, uri, selection);
    let f2 = fix_actions(BulkFix::LookupToIndex, state, uri, selection);
    let f3 = fix_actions(BulkFix::SetVariableTypes, state, uri, selection);
    let f4 = fix_actions(BulkFix::RefineAnyTypes, state, uri, selection);
    let p0 = f1 + f2 + f3 + f4;
    let n = filter_map(s, null_action(state, uri));
    let t = filter_map(s, template_action(state, uri));
    let r = filter_map(s, rename_action(state, params.gates@, uri));
    let d = one_or_none(declare_action(state, uri));
    let o = one_or_none(move_action(state, uri, output_words()));
    let v = one_or_none(move_action(state, uri, variable_words()));
    let f = format_actions(state, uri, selection, opt_view(params.formatted_selection));
    assert forall|a: CodeActionV|
        n.contains(a) || t.contains(a) || r.contains(a) || d.contains(a) || o.contains(a)
            || v.contains(a) || f.contains(a) implies #[trigger] bulk_actions(
        state,
        uri,
        params,
    ).contains(a) by {
        lemma_plus_contains(p0, n, a);
        lemma_plus_contains(p0 + n, t, a);
        lemma_plus_contains(p0 + n + t, r, a);
        lemma_plus_contains(p0 + n + t + r, d, a);
        lemma_plus_contains(p0 + n + t + r + d, o, a);
        lemma_plus_contains(p0 + n + t + r + d + o, v, a);
        lemma_plus_contains(p0 + n + t + r + d + o + v, f, a);
    }
    if let Some(a) = null_action(state, uri)(scope) {
        lemma_scoped(null_action(state, uri), selection, scope);
        lemma_bulk(state, uri, params, a, k);
    }
    if let Some(a) = template_action(state, uri)(scope) {
        lemma_scoped(template_action(state, uri), selection, scope);
        lemma_bulk(state, uri, params, a, k);
    }
    if let Some(a) = rename_action(state, params.gates@, uri)(scope) {
        lemma_scoped(rename_action(state, params.gates@, uri), selection, scope);
        lemma_bulk(state, uri, params, a, k);
    }
    if let Some(a) = declare_action(state, uri) {
        assert(d[0] == a);
        assert(d.contains(a));
        lemma_bulk(state, uri, params, a, k);
    }
    if let Some(a) = move_action(state, uri, output_words()) {
        assert(o[0] == a);
        assert(o.contains(a));
        lemma_bulk(state, uri, params, a, k);
    }
    if let Some(a) = move_action(state, uri, variable_words()) {
        assert(v[0] == a);
        assert(v.contains(a));
        lemma_bulk(state, uri, params, a, k);
    }
    if !(scope is Selection) {
        if let Some(a) = format_action(state, uri)(scope) {
            let three = seq![Scope::File, Scope::Module, Scope::Workspace];
            let g = format_action(state, uri);
            lemma_filter_map_contains(three, g, a);
            assert(three[0] == Scope::File && three[1] == Scope::Module && three[2]
                == Scope::Workspace);
            let w = choose|w: int| 0 <= w < three.len() && three[w] == scope;
            assert(g(three[w]) == Some(a));
            let own = filter_map(three, g);
            let front = match selection {
                Some(range) => one_or_none(
                    crate::formatting::format_selection(
                        state,
                        uri,
                        range,
                        opt_view(params.formatted_selection),
                    ),
                ),
                None => Seq::empty(),
            };
            lemma_plus_contains(front, own, a);
            assert(f.contains(a));
            lemma_bulk(state, uri, params, a, k);
        }
    }
}

/// The kinds by which the bulk fixes are known.
pub proof fn bulk_fixes_have_their_kind(state: StateStore, uri: DocUri, scope: Scope)
    ensures
        fix_action(BulkFix::UnwrapInterpolation, state, uri)(scope) matches Some(a) ==> a.kind
            == kind_of(scope, "unwrap-interpolation"@),
        fix_action(BulkFix::LookupToIndex, state, uri)(scope) matches Some(a) ==> a.kind == kind_of(
            scope,
            "convert-lookup-to-index"@,
        ),
        fix_action(BulkFix::SetVariableTypes, state, uri)(scope) matches Some(a) ==> a.kind
            == kind_of(scope, "set-variable-types"@),
        fix_action(BulkFix::RefineAnyTypes, state, uri)(scope) matches Some(a) ==> a.kind
            == kind_of(scope, "refine-any-types"@),
        null_action(state, uri)(scope) matches Some(a) ==> a.kind == kind_of(
            scope,
            "null-resource-to-terraform-data"@,
        ),
        template_action(state, uri)(scope) matches Some(a) ==> a.kind == kind_of(
            scope,
            "template-file-to-templatefile"@,
        ),
        format_action(state, uri)(scope) matches Some(a) ==> a.kind == kind_of(scope, "format"@),
{
}

/// With the cursor in a `null_resource` block, its conversion is offered where the
/// CLI has `terraform_data`, and is not where it has not.
pub proof fn blocks_under_the_cursor_are_converted(
    state: StateStore,
    uri: DocUri,
    params: CodeActionParams,
    k: int,
    i: int,
)
    requires
        is_doc(state, uri.text@, k),
        state.documents@[k].body is Some,
        state.documents@[k].supports_terraform_data,
        0 <= i < blocks(state.documents@[k].body->0).len(),
        convert_at_cursor(
            state,
            uri,
            state.documents@[k].body->0,
            rope_text(state.documents@[k].rope),
            params.range.start,
        )(blocks(state.documents@[k].body->0)[i]) matches Some(Some(_)),
        forall|j: int|
            0 <= j < i ==> convert_at_cursor(
                state,
                uri,
                state.documents@[k].body->0,
                rope_text(state.documents@[k].rope),
                params.range.start,
            )(#[trigger] blocks(state.documents@[k].body->0)[j]) is None,
    ensures
        code_action_answer(state, uri, params) matches Some(v) && has_title(
            v,
            (convert_at_cursor(
                state,
                uri,
                state.documents@[k].body->0,
                rope_text(state.documents@[k].rope),
                params.range.start,
            )(blocks(state.documents@[k].body->0)[i])->0->0).title,
        ),
{
    lemma_doc(state, uri, k);
    let doc = state.documents@[k];
    let body = doc.body->0;
    let f = convert_at_cursor(state, uri, body, rope_text(doc.rope), params.range.start);
    lemma_find_map_at(blocks(body), f, i);
    let a = f(blocks(body)[i])->0->0;
    let inst = instance_actions(state, uri, doc, params);
    assert(has_title(inst, a.title)) by {
        let last = inst.len() - 1;
        assert(flatten(find_map(blocks(body), f)) == Some(a));
        if !(inst.len() > 0 && inst[last].title == a.title) {
            let j = choose|j: int| 0 <= j < inst.len() && (#[trigger] inst[j]).title == a.title;
            assert(inst[j].title == a.title);
        }
    }
    let j = choose|j: int| 0 <= j < inst.len() && (#[trigger] inst[j]).title == a.title;
    let all = inst + bulk_actions(state, uri, params);
    assert(all[j].title == a.title);
    assert(code_action_answer(state, uri, params)->0 == all);
}

/// With the cursor in a `variable` block without a type, the line with the
/// inferred type is written, or `any` where none is inferred.
pub proof fn variables_under_the_cursor_get_a_type(
    state: StateStore,
    uri: DocUri,
    cursor: Position,
    body: Body,
    t: Seq<char>,
    symbols: SymbolTable,
)
    ensures
        insert_type_at_cursor(state, uri, cursor, body, t, symbols) matches Some(a) ==> exists|
            b: Block,
        | #[trigger]
            has_block(body, b) && types_variable(state, uri, cursor, t, symbols, b, a),
{
    if let Some(a) = insert_type_at_cursor(state, uri, cursor, body, t, symbols) {
        let s = blocks_named(body, "variable"@);
        let i = lemma_find_map_first(s, holding(t, cursor));
        assert(s.contains(s[i]));
        lemma_blocks_named(body, "variable"@, s[i]);
        let b = s[i];
        let name = b.labels@[0].text@;
        let ty = match inferred(state, symbols, opt_view(uri.dir), name) {
            Some(x) => x.0.text@,
            None => "any"@,
        };
        let at = insert_point(t, b)->0;
        let tail = "  type = "@ + ty + "\n"@;
        let e = crate::variable_types::type_line(at, ty);
        assert(e.new_text =~= at.1 + tail);
        crate::laws::hover::lemma_ends(at.1, tail);
        assert(a.edit == WorkspaceEditV::Changes(seq![(uri.text@, seq![e])]));
        assert(types_variable(state, uri, cursor, t, symbols, b, a));
    }
}

pub open spec fn types_variable(
    state: StateStore,
    uri: DocUri,
    cursor: Position,
    t: Seq<char>,
    symbols: SymbolTable,
    b: Block,
    a: CodeActionV,
) -> bool {
    &&& b.ident.text@ == "variable"@
    &&& b.labels@.len() > 0
    &&& b.span is Some
    &&& (span_range(t, b.span->0) matches Some(r) && not_after(r.start, cursor) && not_after(
        cursor,
        r.end,
    ))
    &&& !has_attr(b, "type"@)
    &&& match a.edit {
        WorkspaceEditV::Changes(m) => m.len() == 1 && m[0].0 == uri.text@ && m[0].1.len() == 1
            && ends_with(
            m[0].1[0].new_text,
            "  type = "@ + (match inferred(
                state,
                symbols,
                opt_view(uri.dir),
                b.labels@[0].text@,
            ) {
                Some(x) => x.0.text@,
                None => "any"@,
            }) + "\n"@,
        ),
        _ => false,
    }
}

// ---------------------------------------------------------------------
// Conversions of `null_resource`

/// The names that a document's conversion moves are those of its `null_resource`
/// blocks.
pub proof fn names_of_null_resources_are_collected(body: Body, name: Seq<char>)
    ensures
        null_names(body).contains(name) <==> exists|b: Block| #[trigger]
            has_block(body, b) && b.ident.text@ == "resource"@ && b.labels@.len() > 1
                && b.labels@[0].text@ == "null_resource"@ && b.labels@[1].text@ == name,
{
    let s = blocks(body);
    let f = null_name();
    lemma_filter_map_contains(s, f, name);
    if null_names(body).contains(name) {
        let i = choose|i: int| 0 <= i < s.len() && f(#[trigger] s[i]) == Some(name);
        assert(s.contains(s[i]));
        lemma_block_in(body, s[i]);
    }
    if exists|b: Block| #[trigger]
        has_block(body, b) && b.ident.text@ == "resource"@ && b.labels@.len() > 1
            && b.labels@[0].text@ == "null_resource"@ && b.labels@[1].text@ == name {
        let b = choose|b: Block| #[trigger]
            has_block(body, b) && b.ident.text@ == "resource"@ && b.labels@.len() > 1
                && b.labels@[0].text@ == "null_resource"@ && b.labels@[1].text@ == name;
        lemma_block_in(body, b);
        let i = choose|i: int| 0 <= i < s.len() && s[i] == b;
        assert(f(s[i]) == Some(name));
    }
}

/// A `moved` block from `null_resource.NAME` to `terraform_data.NAME` in a
/// document of the module counts as there.
pub proof fn moves_of_null_resources_are_known(
    docs: Seq<DocumentState>,
    dir: Seq<char>,
    k: int,
    b: Block,
    name: Seq<char>,
)
    requires
        0 <= k < docs.len(),
        docs[k].uri.dir is Some,
        docs[k].uri.dir->0@ == dir,
        docs[k].body is Some,
        has_block(docs[k].body->0, b),
        b.ident.text@ == "moved"@,
        body_traversal(b.body, "from"@) == Some("null_resource."@ + name),
        body_traversal(b.body, "to"@) == Some("terraform_data."@ + name),
    ensures
        existing_null_names(docs, dir).contains(name),
{
    let from = "null_resource."@ + name;
    let p = "null_resource."@;
    assert(from.skip(p.len() as int) =~= name);
    assert(from.subrange(0, p.len() as int) =~= p);
    let body = docs[k].body->0;
    let s = blocks_named(body, "moved"@);
    lemma_blocks_named(body, "moved"@, b);
    let i = choose|i: int| 0 <= i < s.len() && s[i] == b;
    lemma_filter_map_contains(s, moved_null_name(), name);
    assert(moved_null_name()(s[i]) == Some(name));
    let f = doc_moved_null_names(dir);
    lemma_flat_map_contains(docs, f, name);
    assert(in_dir(docs[k], dir));
    assert(f(docs[k]).contains(name));
}

/// A converted document moves the names of all its blocks; within a selection
/// those whose label is rewritten.
pub proof fn converted_names_are_moved(scope: Scope, doc: DocumentState, e: EditV)
    requires
        doc.body is Some,
        doc_null_edits(scope, doc).contains(e),
    ensures
        !(scope is Selection) ==> doc_null_names(scope, doc) == null_names(doc.body->0),
        scope is Selection ==> doc_null_names(scope, doc) == names_with_edits(
            doc.body->0,
            rope_text(doc.rope),
            doc_null_edits(scope, doc),
        ),
{
}

/// A block's label is rewritten within the edits where one of them puts
/// `"terraform_data"` at its start.
pub proof fn names_of_rewritten_labels_are_moved(
    body: Body,
    t: Seq<char>,
    edits: Seq<EditV>,
    name: Seq<char>,
)
    ensures
        names_with_edits(body, t, edits).contains(name) <==> exists|b: Block| #[trigger]
            has_block(body, b) && rewrites_label(t, edits, b, name),
{
    let s = blocks(body);
    let f = name_with_edit(t, edits);
    lemma_filter_map_contains(s, f, name);
    if names_with_edits(body, t, edits).contains(name) {
        let i = choose|i: int| 0 <= i < s.len() && f(#[trigger] s[i]) == Some(name);
        assert(s.contains(s[i]));
        lemma_block_in(body, s[i]);
        assert(has_block(body, s[i]) && rewrites_label(t, edits, s[i], name));
    }
    if exists|b: Block| #[trigger] has_block(body, b) && rewrites_label(t, edits, b, name) {
        let b = choose|b: Block| #[trigger] has_block(body, b) && rewrites_label(t, edits, b, name);
        lemma_block_in(body, b);
        let i = choose|i: int| 0 <= i < s.len() && s[i] == b;
        assert(f(s[i]) == Some(name));
    }
}

pub open spec fn rewrites_label(t: Seq<char>, edits: Seq<EditV>, b: Block, name: Seq<char>) -> bool {
    &&& b.ident.text@ == "resource"@
    &&& b.labels@.len() > 1
    &&& b.labels@[0].text@ == "null_resource"@
    &&& b.labels@[1].text@ == name
    &&& b.labels@[0].span is Some
    &&& span_range(t, b.labels@[0].span->0) matches Some(r) && exists|i: int|
        0 <= i < edits.len() && (#[trigger] edits[i]).new_text == "\"terraform_data\""@
            && edits[i].range.start == r.start
}

/// The conversion reaches every document of the scope whose CLI has
/// `terraform_data`, and no other.
pub proof fn null_resources_of_the_scope_are_converted(
    scope: Scope,
    within: Seq<DocumentState>,
    n: int,
    i: int,
    e: EditV,
)
    requires
        0 <= i < n <= within.len(),
    ensures
        within[i].body is Some && within[i].supports_terraform_data && edits_in_scope(
            null_edits(within[i].body->0, rope_text(within[i].rope), None),
            scope,
        ).contains(e) ==> has_edit(
            null_edits_upto(scope, within, n),
            within[i].uri.text@,
            e.range,
            e.new_text,
        ),
        !within[i].supports_terraform_data ==> doc_null_edits(scope, within[i]).len() == 0,
    decreases n,
{
    if doc_null_edits(scope, within[i]).contains(e) {
        let m = null_edits_upto(scope, within, n - 1);
        let own = doc_null_edits(scope, within[n - 1]);
        lemma_with_edits(m, within[n - 1].uri.text@, own, within[i].uri.text@, e.range, e.new_text);
        if i < n - 1 {
            null_resources_of_the_scope_are_converted(scope, within, n - 1, i, e);
        } else {
            let j = choose|j: int| 0 <= j < own.len() && own[j] == e;
            assert(own[j].range == e.range && own[j].new_text == e.new_text);
        }
    }
}

// ---------------------------------------------------------------------
// Constraints

/// The dotted text of a traversal is its names with dots between.
pub proof fn traversals_are_dotted(ops: Seq<crate::hcl::Operator>)
    ensures
        steps_text(ops) is Some <==> forall|i: int|
            0 <= i < ops.len() ==> (#[trigger] ops[i]).kind is GetAttr,
        steps_text(ops) is Some && ops.len() > 0 ==> (
        ops.last().kind matches crate::hcl::TraversalOperator::GetAttr(x) && steps_text(ops)
            == Some(steps_text(ops.drop_last())->0 + "."@ + x.text@)),
    decreases ops.len(),
{
    if ops.len() > 0 {
        traversals_are_dotted(ops.drop_last());
        if steps_text(ops) is Some {
            assert forall|i: int| 0 <= i < ops.len() implies (
            #[trigger] ops[i]).kind is GetAttr by {
                if i < ops.len() - 1 {
                    assert(ops.drop_last()[i] == ops[i]);
                }
            }
        }
        if forall|i: int| 0 <= i < ops.len() ==> (#[trigger] ops[i]).kind is GetAttr {
            assert forall|i: int| 0 <= i < ops.drop_last().len() implies (
            #[trigger] ops.drop_last()[i]).kind is GetAttr by {
                assert(ops.drop_last()[i] == ops[i]);
            }
            assert(ops[ops.len() - 1].kind is GetAttr);
        }
    }
}

/// The version that a file requires is the string of the first `terraform` block
/// that sets one.
pub proof fn required_versions_are_read(body: Body, b: int, a: int, value: Seq<char>)
    requires
        0 <= b < blocks_named(body, "terraform"@).len(),
        0 <= a < attributes(blocks_named(body, "terraform"@)[b].body).len(),
        attributes(blocks_named(body, "terraform"@)[b].body)[a].key.text@ == "required_version"@,
        attributes(
            blocks_named(body, "terraform"@)[b].body,
        )[a].value.kind matches ExprKind::Str(s) && s@ == value,
        forall|j: int|
            0 <= j < a ==> (#[trigger] attributes(
                blocks_named(body, "terraform"@)[b].body,
            )[j]).key.text@ != "required_version"@,
        forall|i: int, j: int|
            #![trigger attributes(blocks_named(body, "terraform"@)[i].body)[j]]
            0 <= i < b && 0 <= j < attributes(blocks_named(body, "terraform"@)[i].body).len()
                ==> attributes(blocks_named(body, "terraform"@)[i].body)[j].key.text@
                != "required_version"@,
    ensures
        required_version(body) == Some(value),
{
    let s = blocks_named(body, "terraform"@);
    let f = block_required_version();
    let g = attr_literal("required_version"@);
    lemma_find_map_at(attributes(s[b].body), g, a);
    assert forall|i: int| 0 <= i < b implies f(#[trigger] s[i]) is None by {
        let v = attributes(s[i].body);
        if find_map(v, g) is Some {
            let j = lemma_find_map_first(v, g);
            assert(attributes(s[i].body)[j].key.text@ == "required_version"@);
        }
    }
    lemma_find_map_at(s, f, b);
}

// ---------------------------------------------------------------------
// Selection ranges

/// The chain starts at the cursor; its parent, where there is one, is the
/// innermost range around the cursor, and so on outward.
pub proof fn selections_grow_from_the_cursor(body: Body, t: Seq<char>, pos: Position)
    ensures
        ({
            let c = selection_chain(body, t, pos);
            let around = ancestors(body, t, pos);
            &&& c.range.start == pos && c.range.end == pos
            &&& around.len() == 0 ==> c.parent is None
            &&& around.len() > 0 ==> c.parent is Some && c.parent->0.range == around.last()
            &&& around.len() > 1 ==> c.parent->0.parent is Some && c.parent->0.parent->0.range
                == around[around.len() - 2]
            &&& around.len() == 1 ==> c.parent->0.parent is None
        }),
{
    reveal_with_fuel(chain, 3);
}

/// Around a position in a block are the range of the block and then what is
/// around it in the block; where no block holds it, the attribute that does.
pub proof fn blocks_and_attributes_are_selected(body: Body, t: Seq<char>, pos: Position, i: int, r: Range)
    ensures
        0 <= i < blocks(body).len() && (blocks(body)[i].span is Some && span_range(
            t,
            blocks(body)[i].span->0,
        ) == Some(r) && not_after(r.start, pos) && not_after(pos, r.end)) && (forall|j: int|
            0 <= j < i ==> holding_range(t, pos, #[trigger] blocks(body)[j]) is None)
            ==> ancestors(body, t, pos) == seq![r] + ancestors(blocks(body)[i].body, t, pos),
        0 <= i < attributes(body).len() && (attributes(body)[i].span is Some && span_range(
            t,
            attributes(body)[i].span->0,
        ) == Some(r) && not_after(r.start, pos) && not_after(pos, r.end)) && (forall|j: int|
            0 <= j < i ==> attribute_range(t, pos)(#[trigger] attributes(body)[j]) is None) && (
        forall|j: int|
            0 <= j < blocks(body).len() ==> holding_range(t, pos, #[trigger] blocks(body)[j])
                is None) ==> ancestors(body, t, pos) == seq![r],
{
    crate::laws::block_renames::lemma_position_at(blocks(body), holds(t, pos), 0);
    if 0 <= i < blocks(body).len() && holding_range(t, pos, blocks(body)[i]) == Some(r) && (
    forall|j: int| 0 <= j < i ==> holding_range(t, pos, #[trigger] blocks(body)[j]) is None) {
        assert(holds(t, pos)(blocks(body)[i]));
        let k = crate::seqs::position_from(blocks(body), holds(t, pos), 0)->0;
        if k < i {
            assert(holds(t, pos)(blocks(body)[k]));
        }
    }
    if 0 <= i < attributes(body).len() && attribute_range(t, pos)(attributes(body)[i]) == Some(r)
        && (forall|j: int|
        0 <= j < i ==> attribute_range(t, pos)(#[trigger] attributes(body)[j]) is None) && (
    forall|j: int|
        0 <= j < blocks(body).len() ==> holding_range(t, pos, #[trigger] blocks(body)[j])
            is None) {
        lemma_find_map_at(attributes(body), attribute_range(t, pos), i);
        if crate::seqs::position_from(blocks(body), holds(t, pos), 0) is Some {
            let k = crate::seqs::position_from(blocks(body), holds(t, pos), 0)->0;
            assert(holding_range(t, pos, blocks(body)[k]) is None);
        }
    }
}

// ---------------------------------------------------------------------
// References by attribute

/// What an attribute refers to is what the first rule for its singular says whose
/// prefix the type has; and a rule with a prefix leads to a type of that prefix.
pub proof fn attributes_refer_by_their_rule(ty: Seq<char>, attr: Seq<char>, i: int)
    requires
        0 <= i < ref_rules().len(),
        ref_rules()[i].0 == attr,
        attr.len() == 0 || attr.last() != 's',
        ref_rules()[i].1 matches Some(p) ==> starts_with(ty, p),
        forall|j: int|
            0 <= j < i ==> !((#[trigger] ref_rules()[j]).0 == attr && (
            ref_rules()[j].1 matches Some(p) ==> starts_with(ty, p))),
    ensures
        referenced_type(ty, attr) == Some(ref_rules()[i].2),
        referenced_type(ty, attr.push('s')) == Some(ref_rules()[i].2),
{
    crate::attr_ref_map::plural_refers_like_singular(ty, attr);
    lemma_find_map_at(ref_rules(), rule_target(ty, attr), i);
}

/// A reference ends in the attribute that its own attribute asks for.
pub proof fn references_end_as_the_attribute_asks(stem: Seq<char>)
    ensures
        output_suffix(stem + "_arn"@) == ".arn"@,
        output_suffix(stem + "_name"@) == ".name"@,
        output_suffix(stem + "_id"@) == ".id"@,
        output_suffix("arn"@) == ".arn"@,
{
    reveal_strlit("_arn");
    reveal_strlit("_name");
    reveal_strlit("_id");
    reveal_strlit("arn");
    crate::laws::hover::lemma_ends(stem, "_arn"@);
    crate::laws::hover::lemma_ends(stem, "_name"@);
    let n = stem + "_name"@;
    let d = stem + "_id"@;
    assert(n.last() == 'e' && d.last() == 'd' && "arn"@.last() == 'n' && "_arn"@.last() == 'n');
    if ends_with(n, "_arn"@) {
        assert(n.subrange(n.len() - 4, n.len() as int).last() == n.last());
    }
    if ends_with(d, "_arn"@) {
        assert(d.subrange(d.len() - 4, d.len() as int).last() == d.last());
    }
    if ends_with(d, "_name"@) {
        assert("_name"@.last() == 'e');
        assert(d.subrange(d.len() - 5, d.len() as int).last() == d.last());
    }
}

/// Each part of a joined list is part of the whole.
proof fn lemma_joined(parts: Seq<Seq<char>>, sep: Seq<char>, i: int)
    requires
        0 <= i < parts.len(),
    ensures
        crate::laws::rename::holds(join(parts, sep), parts[i]),
    decreases parts.len(),
{
    let all = join(parts, sep);
    if parts.len() == 1 {
        assert(all.subrange(0, 0int + parts[0].len()) =~= parts[0]);
    } else {
        let before = join(parts.drop_last(), sep);
        if i == parts.len() - 1 {
            let k = before.len() + sep.len();
            assert(all.subrange(k as int, (k + parts[i].len()) as int) =~= parts[i]);
        } else {
            lemma_joined(parts.drop_last(), sep, i);
            crate::laws::completion_snippets::lemma_holds_in(
                Seq::empty(),
                before,
                sep + parts.last(),
                parts[i],
            );
            assert(all =~= Seq::<char>::empty() + before + (sep + parts.last()));
        }
    }
}

proof fn lemma_constraint(
    docs: Seq<DocumentState>,
    f: spec_fn(DocumentState) -> Option<Seq<char>>,
    k: int,
    c: Seq<char>,
)
    requires
        0 <= k < docs.len(),
        f(docs[k]) == Some(c),
    ensures
        filter_map(docs, f).len() > 0,
        crate::laws::rename::holds(join(filter_map(docs, f), ", "@), c),
{
    let parts = filter_map(docs, f);
    lemma_filter_map_contains(docs, f, c);
    let i = choose|i: int| 0 <= i < parts.len() && parts[i] == c;
    lemma_joined(parts, ", "@, i);
}

/// The constraint of a module holds that of each of its documents, on the CLI and
/// on a provider; where no document has one, the module has none.
pub proof fn constraints_of_the_module_are_joined(
    docs: Seq<DocumentState>,
    dir: Seq<char>,
    provider: Seq<char>,
    k: int,
    c: Seq<char>,
)
    requires
        0 <= k < docs.len(),
    ensures
        docs[k].uri.dir is Some && docs[k].uri.dir->0@ == dir && docs[k].body is Some
            && required_version(docs[k].body->0) == Some(c) ==> (
        crate::block_rename::cli_constraint(docs, dir) matches Some(x)
            && crate::laws::rename::holds(x, c)),
        docs[k].uri.dir is Some && docs[k].uri.dir->0@ == dir && docs[k].body is Some
            && crate::providers::required_provider_version(docs[k].body->0, provider) == Some(c)
            ==> (provider_constraint(docs, dir, provider) matches Some(x)
            && crate::laws::rename::holds(x, c)),
        (forall|j: int| 0 <= j < docs.len() ==> doc_required_version(dir)(#[trigger] docs[j])
            is None) ==> crate::block_rename::cli_constraint(docs, dir) is None,
        (forall|j: int|
            0 <= j < docs.len() ==> doc_provider_constraint(dir, provider)(#[trigger] docs[j])
                is None) ==> provider_constraint(docs, dir, provider) is None,
{
    let f = doc_required_version(dir);
    let g = doc_provider_constraint(dir, provider);
    assert(docs[k].uri.dir is Some && docs[k].uri.dir->0@ == dir ==> in_dir(docs[k], dir));
    if f(docs[k]) == Some(c) {
        lemma_constraint(docs, f, k, c);
    }
    if g(docs[k]) == Some(c) {
        lemma_constraint(docs, g, k, c);
    }
    let a = filter_map(docs, f);
    if a.len() > 0 {
        lemma_filter_map_contains(docs, f, a[0]);
        assert(a.contains(a[0]));
    }
    let b = filter_map(docs, g);
    if b.len() > 0 {
        lemma_filter_map_contains(docs, g, b[0]);
        assert(b.contains(b[0]));
    }
}

/// What a fix of a single finding is called.
pub proof fn fixes_are_called_by_what_they_do(state: StateStore, uri: DocUri)
    ensures
        fix_action(BulkFix::UnwrapInterpolation, state, uri)(Scope::Instance) matches Some(a)
            ==> a.title == "Unwrap interpolation"@,
        fix_action(BulkFix::LookupToIndex, state, uri)(Scope::Instance) matches Some(a) ==> a.title
            == "Convert deprecated lookup to index notation"@,
        fix_action(BulkFix::SetVariableTypes, state, uri)(Scope::Instance) matches Some(a)
            ==> a.title == "Set variable types"@,
        fix_action(BulkFix::RefineAnyTypes, state, uri)(Scope::Instance) matches Some(a) ==> a.title
            == "Refine `type = any`"@,
{
}

} // verus!
