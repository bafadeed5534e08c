//! What the code actions write.

use crate::actions::{
    Diagnostic, DiagnosticSeverity, DiagnosticV, DocumentOpV, FileEditsV, FileRefV, WorkspaceEditV,
};
use crate::block_rename::{bulk_scopes, edit_in, edits_in_scope, rewrite_op, rewrite_ops};
use crate::code_action::{
    bulk_actions, code_action_answer, diag_action, fix_action, fix_actions, fix_edits,
    fix_edits_upto, instance_actions, selection_of, BulkFix, CodeActionParams,
};
use crate::hcl::{
    attributes, block_in, blocks, blocks_named, body_exprs, Attribute, Block, Body, ExprKind,
    Expression, Structure,
};
use crate::laws::common::{is_doc, lemma_doc};
use crate::laws::fixes::{edits_once, lemma_contains};
use crate::laws::hover::{is_named, lacks, lemma_ends, lemma_lacks, lemma_named};
use crate::laws::modules::{has_attribute, has_block, lemma_attributes, lemma_blocks_named};
use crate::laws::rename::{has_edit, holds, lemma_with_edits};
use crate::move_blocks::{
    combined, declare_action, declared_names, doc_declared, doc_undeclared, movable, move_action,
    output_words, removals_upto, stray_blocks, stray_sources, stub_text, symbol_names,
    undeclared_names, undeclared_ref, variable_words, MoveWords,
};
use crate::moved::moved_block;
use crate::null_resource::{
    attr_idents, convert_one, existing_null_names, null_block_edits, null_edits, null_module_ops,
    null_move_text, null_moves_to_add, null_ref_edits, span_edit, trigger_edit,
};
use crate::order::name_set_contains;
use crate::position::{rope_text, span_range, EditV, Range};
use crate::quick_fixes::{insert_point, insert_required, reports};
use crate::scope::{in_scope_of, kind_of, plural_suffix, scope_docs, scope_label, title_of, Scope};
use crate::seqs::{
    filter_map, flat_map, keep, lemma_filter_map_contains, lemma_find_map_at, lemma_find_map_first,
    lemma_flat_map_contains, lemma_keep_contains, lemma_plus_contains,
};
use crate::state::{DocUri, DocumentState, ReferenceKind, StateStore, SymbolTable};
use crate::target_file::{append_ops, target_strategy, TargetFileStrategy};
use crate::text::{decimal, ends_with, opt_view};
use crate::variable_type::VariableType;
use crate::variable_types::{
    assigned_to, attr_with_key, has_attr, inferred, insert_type_action, insert_type_edit,
    refine_edit, variable_block, TypeSource,
};
use vstd::prelude::*;

verus! {

// ---------------------------------------------------------------------
// Scopes

/// Which documents a scope covers: the file itself, the documents of its
/// directory, or all outside `.terraform`.
pub proof fn scopes_cover_their_documents(
    docs: Seq<DocumentState>,
    primary: DocUri,
    scope: Scope,
    d: DocumentState,
)
    ensures
        scope_docs(docs, primary, scope).contains(d) <==> docs.contains(d) && match scope {
            Scope::Instance => d.uri.text@ == primary.text@,
            Scope::Selection { .. } => d.uri.text@ == primary.text@,
            Scope::File => d.uri.text@ == primary.text@,
            Scope::Module => primary.dir is Some && d.uri.dir is Some && d.uri.dir->0@
                == primary.dir->0@,
            Scope::Workspace => !holds(d.uri.path@, "/.terraform/"@),
        },
{
    lemma_keep_contains(docs, in_scope_of(primary, scope), d);
    lemma_contains(d.uri.path@, "/.terraform/"@, 0);
}

/// Bulk actions are offered for the file, the module and the workspace, and for
/// the selection where there is one.
pub proof fn bulk_actions_have_their_scopes(selection: Option<Range>, scope: Scope)
    ensures
        bulk_scopes(selection).contains(scope) <==> match scope {
            Scope::Instance => false,
            Scope::Selection { range } => selection == Some(range),
            _ => true,
        },
{
    let v = bulk_scopes(selection);
    match selection {
        Some(range) => {
            assert(v[0] == (Scope::Selection { range }));
            assert(v[1] == Scope::File && v[2] == Scope::Module && v[3] == Scope::Workspace);
        },
        None => {
            assert(v[0] == Scope::File && v[1] == Scope::Module && v[2] == Scope::Workspace);
        },
    }
}

/// The selection is the range that is asked for, where it is not empty.
pub proof fn empty_ranges_select_nothing(range: Range)
    ensures
        selection_of(range) == if range.start == range.end {
            None
        } else {
            Some(range)
        },
{
}

/// In a selection only the edits count that touch it; in the other scopes all
/// do.
pub proof fn selections_limit_the_edits(v: Seq<EditV>, scope: Scope, e: EditV)
    ensures
        edits_in_scope(v, scope).contains(e) <==> v.contains(e) && match scope {
            Scope::Selection { range } => {
                &&& e.range.end.line > range.start.line || (e.range.end.line == range.start.line
                    && e.range.end.character >= range.start.character)
                &&& range.end.line > e.range.start.line || (range.end.line == e.range.start.line
                    && range.end.character >= e.range.start.character)
            },
            _ => true,
        },
{
    match scope {
        Scope::Selection { range } => {
            lemma_keep_contains(v, edit_in(range), e);
        },
        _ => {},
    }
}

/// The kinds by which editors find the actions of a family.
pub proof fn kinds_of_scopes(id: Seq<char>, range: Range)
    ensures
        kind_of(Scope::Instance, id) == "quickfix"@,
        kind_of(Scope::File, id) == "source.fixAll.terraform-ls-rs."@ + id,
        kind_of(Scope::Selection { range }, id) == "quickfix.terraform-ls-rs."@ + id
            + ".selection"@,
        kind_of(Scope::Module, id) == "source.fixAll.terraform-ls-rs."@ + id + ".module"@,
        kind_of(Scope::Workspace, id) == "source.fixAll.terraform-ls-rs."@ + id + ".workspace"@,
{
}

/// The title of a bulk action ends with the number of items, what they are and
/// where they are.
pub proof fn titles_count_the_items(
    template: Seq<char>,
    item: Seq<char>,
    scope: Scope,
    count: nat,
)
    ensures
        scope is Instance ==> title_of(template, item, scope, count) == template,
        !(scope is Instance) ==> ends_with(
            title_of(template, item, scope, count),
            " "@ + decimal(count) + " "@ + item + (if count == 1 {
                ""@
            } else {
                "s"@
            }) + " in "@ + match scope {
                Scope::Instance => "instance"@,
                Scope::Selection { .. } => "selection"@,
                Scope::File => "this file"@,
                Scope::Module => "this module"@,
                Scope::Workspace => "workspace"@,
            },
        ),
{
    if !(scope is Instance) {
        let tail = " "@ + decimal(count) + " "@ + item + plural_suffix(count) + " in "@
            + scope_label(scope);
        assert(title_of(template, item, scope, count) =~= crate::scope::first_word(template)
            + tail);
        lemma_ends(crate::scope::first_word(template), tail);
    }
}

// ---------------------------------------------------------------------
// The request

/// The fix for a diagnostic is that of the finding which it reports.
pub proof fn findings_get_their_fix(
    state: StateStore,
    uri: DocUri,
    doc: DocumentState,
    body: Body,
    d: Diagnostic,
)
    requires
        d.severity == Some(DiagnosticSeverity::Warning),
    ensures
        ({
            let t = rope_text(doc.rope);
            let w = DiagnosticSeverity::Warning;
            let typed = reports(d@, w, "variable has no type"@);
            let interpolated = reports(d@, w, "interpolation-only expressions are deprecated"@);
            let looked = reports(d@, w, "two-argument `lookup()` is deprecated"@);
            let null = reports(
                d@,
                w,
                "`null_resource` is superseded by the built-in `terraform_data`"@,
            );
            let a = diag_action(state, uri, doc, body)(d);
            &&& typed ==> a == insert_type_action(state, uri, d@, body, t, doc.symbols)
            &&& !typed && interpolated ==> a == crate::quick_fixes::unwrap_action(uri.text@, d@, t)
            &&& !typed && !interpolated && looked ==> a == crate::quick_fixes::convert_lookup(
                uri.text@,
                d@,
                body,
                t,
            )
            &&& !typed && !interpolated && !looked && !null ==> a is None
        }),
{
}

/// An error about a missing attribute gets the fix that inserts the attribute.
pub proof fn missing_attributes_get_their_fix(
    state: StateStore,
    uri: DocUri,
    doc: DocumentState,
    body: Body,
    d: Diagnostic,
)
    requires
        d.severity == Some(DiagnosticSeverity::Error),
    ensures
        reports(d@, DiagnosticSeverity::Error, "missing required attribute"@) ==> diag_action(
            state,
            uri,
            doc,
            body,
        )(d) == insert_required(state.schemas@, uri.text@, d@, body, rope_text(doc.rope)),
        !reports(d@, DiagnosticSeverity::Error, "missing required attribute"@) ==> diag_action(
            state,
            uri,
            doc,
            body,
        )(d) is None,
{
}

/// The fix of each reported finding is among the answered actions.
pub proof fn fixes_of_findings_are_answered(
    state: StateStore,
    uri: DocUri,
    params: CodeActionParams,
    k: int,
    i: int,
)
    requires
        is_doc(state, uri.text@, k),
        state.documents@[k].body is Some,
        0 <= i < params.diagnostics@.len(),
        diag_action(state, uri, state.documents@[k], state.documents@[k].body->0)(
            params.diagnostics@[i],
        ) is Some,
    ensures
        code_action_answer(state, uri, params) matches Some(v) && v.contains(
            diag_action(state, uri, state.documents@[k], state.documents@[k].body->0)(
                params.diagnostics@[i],
            )->0,
        ),
{
    lemma_doc(state, uri, k);
    let doc = state.documents@[k];
    let body = doc.body->0;
    let f = diag_action(state, uri, doc, body);
    let a = f(params.diagnostics@[i])->0;
    let diags = filter_map(params.diagnostics@, f);
    lemma_filter_map_contains(params.diagnostics@, f, a);
    assert(f(params.diagnostics@[i]) == Some(a));
    let n = choose|n: int| 0 <= n < diags.len() && diags[n] == a;
    let v = instance_actions(state, uri, doc, params);
    assert(v[n] == a);
    let all = v + bulk_actions(state, uri, params);
    assert(all[n] == a);
}

/// Every bulk action of a fix for a scope is among the answered actions.
pub proof fn bulk_fixes_are_answered(
    state: StateStore,
    uri: DocUri,
    params: CodeActionParams,
    k: int,
    fix: BulkFix,
    scope: Scope,
)
    requires
        is_doc(state, uri.text@, k),
        match scope {
            Scope::Instance => false,
            Scope::Selection { range } => params.range.start != params.range.end && range
                == params.range,
            _ => true,
        },
        fix_action(fix, state, uri)(scope) is Some,
    ensures
        code_action_answer(state, uri, params) matches Some(v) && v.contains(
            fix_action(fix, state, uri)(scope)->0,
        ),
{
    lemma_doc(state, uri, k);
    let selection = selection_of(params.range);
    bulk_actions_have_their_scopes(selection, scope);
    let f = fix_action(fix, state, uri);
    let a = f(scope)->0;
    let scopes = bulk_scopes(selection);
    let n = choose|n: int| 0 <= n < scopes.len() && scopes[n] == scope;
    lemma_filter_map_contains(scopes, f, a);
    assert(f(scopes[n]) == Some(a));
    let own = fix_actions(fix, state, uri, selection);
    assert(own.contains(a));
    let f1 = fix_actions(BulkFix::UnwrapInterpolation, state, uri, selection);
    let f2 = fix_actions(BulkFix::LookupToIndex, state, uri, selection);
    let f3 = fix_actions(BulkFix::SetVariableTypes, state, uri, selection);
    let f4 = fix_actions(BulkFix::RefineAnyTypes, state, uri, selection);
    lemma_plus_contains(f1, f2, a);
    lemma_plus_contains(f1 + f2, f3, a);
    lemma_plus_contains(f1 + f2 + f3, f4, a);
    let four = f1 + f2 + f3 + f4;
    assert(four.contains(a));
    let j = choose|j: int| 0 <= j < four.len() && four[j] == a;
    let bulk = bulk_actions(state, uri, params);
    assert(bulk[j] == a);
    let inst = instance_actions(state, uri, state.documents@[k], params);
    let all = inst + bulk;
    assert(all[inst.len() + j] == a);
}

/// What a bulk fix edits in a document: the reported interpolations, the
/// reported lookups, the untyped variables or the variables typed `any`.
pub proof fn bulk_fixes_edit_what_they_say(
    state: StateStore,
    doc: DocumentState,
    body: Body,
    e: EditV,
)
    requires
        doc.body == Some(body),
    ensures
        ({
            let t = rope_text(doc.rope);
            &&& fix_edits(BulkFix::UnwrapInterpolation, state, doc).contains(e) <==> exists|i: int|
                0 <= i < doc.interpolation_ranges@.len() && crate::quick_fixes::unwrap_edit(
                    t,
                    #[trigger] doc.interpolation_ranges@[i],
                ) == Some(e)
            &&& fix_edits(BulkFix::LookupToIndex, state, doc).contains(e) <==> exists|i: int|
                0 <= i < doc.lookup_ranges@.len() && crate::quick_fixes::lookup_edit(
                    body,
                    t,
                    #[trigger] doc.lookup_ranges@[i],
                ) == Some(e)
            &&& fix_edits(BulkFix::SetVariableTypes, state, doc).contains(e) <==> exists|b: Block|
                #[trigger] has_block(body, b) && b.ident.text@ == "variable"@ && insert_type_edit(
                    state,
                    doc.symbols,
                    opt_view(doc.uri.dir),
                    t,
                )(b) == Some(e)
            &&& fix_edits(BulkFix::RefineAnyTypes, state, doc).contains(e) <==> exists|b: Block|
                #[trigger] has_block(body, b) && b.ident.text@ == "variable"@ && refine_edit(
                    state,
                    doc.symbols,
                    opt_view(doc.uri.dir),
                    t,
                )(b) == Some(e)
        }),
{
    let t = rope_text(doc.rope);
    let fu = crate::quick_fixes::unwrap_edit_of(t);
    lemma_filter_map_contains(doc.interpolation_ranges@, fu, e);
    if exists|i: int|
        0 <= i < doc.interpolation_ranges@.len() && crate::quick_fixes::unwrap_edit(
            t,
            #[trigger] doc.interpolation_ranges@[i],
        ) == Some(e) {
        let i = choose|i: int|
            0 <= i < doc.interpolation_ranges@.len() && crate::quick_fixes::unwrap_edit(
                t,
                #[trigger] doc.interpolation_ranges@[i],
            ) == Some(e);
        assert(fu(doc.interpolation_ranges@[i]) == Some(e));
    }
    crate::laws::fixes::all_lookups_are_fixed(body, t, doc.lookup_ranges@, e);
    let fi = insert_type_edit(state, doc.symbols, opt_view(doc.uri.dir), t);
    let fr = refine_edit(state, doc.symbols, opt_view(doc.uri.dir), t);
    lemma_named_edits(body, "variable"@, fi, e);
    lemma_named_edits(body, "variable"@, fr, e);
}

proof fn lemma_named_edits(
    body: Body,
    name: Seq<char>,
    f: spec_fn(Block) -> Option<EditV>,
    e: EditV,
)
    ensures
        filter_map(blocks_named(body, name), f).contains(e) <==> exists|b: Block| #[trigger]
            has_block(body, b) && b.ident.text@ == name && f(b) == Some(e),
{
    let s = blocks_named(body, name);
    lemma_filter_map_contains(s, f, e);
    if filter_map(s, f).contains(e) {
        let i = choose|i: int| 0 <= i < s.len() && f(#[trigger] s[i]) == Some(e);
        lemma_blocks_named(body, name, s[i]);
        assert(s.contains(s[i]));
    }
    if exists|b: Block| #[trigger] has_block(body, b) && b.ident.text@ == name && f(b) == Some(e) {
        let b = choose|b: Block| #[trigger]
            has_block(body, b) && b.ident.text@ == name && f(b) == Some(e);
        lemma_blocks_named(body, name, b);
        let i = choose|i: int| 0 <= i < s.len() && s[i] == b;
        assert(f(s[i]) == Some(e));
    }
}

/// The edits of a bulk fix in a document of the scope are in its edit map.
pub proof fn bulk_fixes_reach_every_document(
    fix: BulkFix,
    state: StateStore,
    scope: Scope,
    within: Seq<DocumentState>,
    n: int,
    i: int,
    e: EditV,
)
    requires
        0 <= i < n <= within.len(),
        edits_in_scope(fix_edits(fix, state, within[i]), scope).contains(e),
    ensures
        has_edit(
            fix_edits_upto(fix, state, scope, within, n),
            within[i].uri.text@,
            e.range,
            e.new_text,
        ),
    decreases n,
{
    let m = fix_edits_upto(fix, state, scope, within, n - 1);
    let own = edits_in_scope(fix_edits(fix, state, within[n - 1]), scope);
    let uri = within[i].uri.text@;
    lemma_with_edits(m, within[n - 1].uri.text@, own, uri, e.range, e.new_text);
    if i < n - 1 {
        bulk_fixes_reach_every_document(fix, state, scope, within, n - 1, i, e);
    } else {
        let j = choose|j: int| 0 <= j < own.len() && own[j] == e;
        assert(own[j].range == e.range && own[j].new_text == e.new_text);
    }
}

// ---------------------------------------------------------------------
// Types of variables

/// The type that is written: that of the default where it is concrete, else the
/// one on which the assignments from outside agree, where that is concrete.
/// Neither `any` nor the shape of an empty list or object is.
pub proof fn types_come_from_the_default_first(
    state: StateStore,
    symbols: SymbolTable,
    dir: Option<Seq<char>>,
    name: Seq<char>,
    i: int,
)
    requires
        is_named(symbols.variable_defaults@, name, i),
    ensures
        match symbols.variable_defaults@[i].1.ty {
            VariableType::Any => true,
            VariableType::Tuple(v) => v@.len() > 0 ==> inferred(state, symbols, dir, name) == Some(
                (symbols.variable_defaults@[i].1, TypeSource::Default),
            ),
            VariableType::Object(v) => v@.len() > 0 ==> inferred(state, symbols, dir, name) == Some(
                (symbols.variable_defaults@[i].1, TypeSource::Default),
            ),
            _ => inferred(state, symbols, dir, name) == Some(
                (symbols.variable_defaults@[i].1, TypeSource::Default),
            ),
        },
{
    lemma_named(symbols.variable_defaults@, name, i);
}

/// Without a default the type comes from the assignments to the variable of
/// that name in the module's own directory.
pub proof fn types_come_from_the_assignments_next(
    state: StateStore,
    symbols: SymbolTable,
    dir: Seq<char>,
    name: Seq<char>,
    a: int,
)
    requires
        lacks(symbols.variable_defaults@, name),
        0 <= a < state.assigned_types@.len(),
        state.assigned_types@[a].dir@ == dir,
        state.assigned_types@[a].name@ == name,
        forall|j: int|
            0 <= j < a ==> !((#[trigger] state.assigned_types@[j]).dir@ == dir
                && state.assigned_types@[j].name@ == name),
    ensures
        state.assigned_types@[a].ty.ty is Primitive || state.assigned_types@[a].ty.ty is ListOf
            || state.assigned_types@[a].ty.ty is MapOf || state.assigned_types@[a].ty.ty is SetOf
            ==> inferred(state, symbols, Some(dir), name) == Some(
            (state.assigned_types@[a].ty, TypeSource::Assignments),
        ),
        state.assigned_types@[a].ty.ty is Any ==> inferred(state, symbols, Some(dir), name) is None,
        inferred(state, symbols, None, name) is None,
{
    lemma_lacks(symbols.variable_defaults@, name);
    lemma_find_map_at(state.assigned_types@, assigned_to(dir, name), a);
}

/// A body has an attribute of a name.
pub open spec fn sets(body: Body, name: Seq<char>) -> bool {
    exists|a: Attribute| #[trigger] has_attribute(body, a) && a.key.text@ == name
}

proof fn lemma_sets(b: Block, name: Seq<char>)
    ensures
        has_attr(b, name) <==> sets(b.body, name),
{
    let v = attributes(b.body);
    if has_attr(b, name) {
        let i = choose|i: int|
            0 <= i < attributes(b.body).len() && (#[trigger] attributes(b.body)[i]).key.text@
                == name;
        lemma_attributes(b.body, v[i]);
        assert(v.contains(v[i]));
    }
    if sets(b.body, name) {
        let a = choose|a: Attribute| #[trigger] has_attribute(b.body, a) && a.key.text@ == name;
        lemma_attributes(b.body, a);
        let i = choose|i: int| 0 <= i < v.len() && v[i] == a;
        assert(attributes(b.body)[i].key.text@ == name);
    }
}

/// A variable gets a `type` line exactly where it has none, a type is inferred
/// for it and there is a place for the line; the line has the inferred type.
pub proof fn untyped_variables_get_a_type(
    state: StateStore,
    symbols: SymbolTable,
    dir: Option<Seq<char>>,
    t: Seq<char>,
    b: Block,
)
    ensures
        match insert_type_edit(state, symbols, dir, t)(b) {
            Some(e) => {
                &&& !sets(b.body, "type"@)
                &&& b.labels@.len() > 0
                &&& inferred(state, symbols, dir, b.labels@[0].text@) is Some
                &&& e.range.start == e.range.end
                &&& ends_with(
                    e.new_text,
                    "  type = "@ + (inferred(
                        state,
                        symbols,
                        dir,
                        b.labels@[0].text@,
                    )->0).0.text@ + "\n"@,
                )
            },
            None => sets(b.body, "type"@) || b.labels@.len() == 0 || inferred(
                state,
                symbols,
                dir,
                b.labels@[0].text@,
            ) is None || insert_point(t, b) is None,
        },
{
    lemma_sets(b, "type"@);
    if let Some(e) = insert_type_edit(state, symbols, dir, t)(b) {
        let ty = (inferred(state, symbols, dir, b.labels@[0].text@)->0).0.text@;
        let at = insert_point(t, b)->0;
        let tail = "  type = "@ + ty + "\n"@;
        assert(e.new_text =~= at.1 + tail);
        lemma_ends(at.1, tail);
    }
}

/// The action for a diagnostic writes that line for the variable that the
/// diagnostic names, and nothing else.
pub proof fn named_variables_get_their_type(
    state: StateStore,
    uri: DocUri,
    diag: DiagnosticV,
    body: Body,
    t: Seq<char>,
    symbols: SymbolTable,
)
    ensures
        insert_type_action(state, uri, diag, body, t, symbols) matches Some(a) ==> {
            let name = crate::quick_fixes::backticked(diag.message)->0;
            &&& crate::quick_fixes::backticked(diag.message) is Some
            &&& a.kind == "quickfix"@
            &&& a.diagnostics == Some(seq![diag])
            &&& exists|b: Block| #[trigger]
                has_block(body, b) && b.ident.text@ == "variable"@ && b.labels@.len() > 0
                    && b.labels@[0].text@ == name && insert_type_edit(
                    state,
                    symbols,
                    opt_view(uri.dir),
                    t,
                )(b) is Some && edits_once(
                    a,
                    uri.text@,
                    insert_type_edit(state, symbols, opt_view(uri.dir), t)(b)->0,
                )
        },
{
    if insert_type_action(state, uri, diag, body, t, symbols) is Some {
        let name = crate::quick_fixes::backticked(diag.message)->0;
        let s = body.structures@;
        let i = lemma_find_map_first(s, crate::variable_types::variable_in(name));
        let b = variable_block(body, name)->0;
        assert(s[i] == Structure::Block(b));
        assert(has_block(body, b));
    }
}

/// Where a variable is typed `any` and a type is inferred, the inferred type
/// takes the place of `any` and of nothing else.
pub proof fn any_gives_way_to_the_inferred_type(
    state: StateStore,
    symbols: SymbolTable,
    dir: Option<Seq<char>>,
    t: Seq<char>,
    b: Block,
)
    ensures
        refine_edit(state, symbols, dir, t)(b) matches Some(e) ==> exists|a: Attribute| #[trigger]
            has_attribute(b.body, a) && a.key.text@ == "type"@ && (
            a.value.kind matches ExprKind::Variable(v) && v@ == "any"@) && a.value.span is Some
                && span_range(t, a.value.span->0) == Some(e.range) && b.labels@.len() > 0 && (
            inferred(state, symbols, dir, b.labels@[0].text@) matches Some(x) && x.0.text@
                == e.new_text),
{
    if refine_edit(state, symbols, dir, t)(b) is Some {
        let v = attributes(b.body);
        let i = lemma_find_map_first(v, attr_with_key("type"@));
        lemma_attributes(b.body, v[i]);
        assert(v.contains(v[i]));
        assert(has_attribute(b.body, v[i]));
    }
}

// ---------------------------------------------------------------------
// Undeclared variables

/// A document of the scope declares the variable.
pub open spec fn declares(within: Seq<DocumentState>, name: Seq<char>) -> bool {
    exists|d: int, i: int|
        #![trigger within[d].symbols.variables@[i]]
        0 <= d < within.len() && 0 <= i < within[d].symbols.variables@.len()
            && within[d].symbols.variables@[i].name@ == name
}

/// A document of the scope refers to the variable.
pub open spec fn refers(within: Seq<DocumentState>, name: Seq<char>) -> bool {
    exists|d: int, i: int|
        #![trigger within[d].references@[i]]
        0 <= d < within.len() && 0 <= i < within[d].references@.len() && (
        within[d].references@[i].kind matches ReferenceKind::Variable { name: n } && n@ == name)
}

proof fn lemma_declares(within: Seq<DocumentState>, name: Seq<char>)
    ensures
        declared_names(within).contains(name) <==> declares(within, name),
{
    lemma_flat_map_contains(within, doc_declared(), name);
    if declared_names(within).contains(name) {
        let d = choose|d: int|
            0 <= d < within.len() && (#[trigger] doc_declared()(within[d])).contains(name);
        let v = symbol_names(within[d].symbols.variables@);
        let i = choose|i: int| 0 <= i < v.len() && v[i] == name;
        assert(within[d].symbols.variables@[i].name@ == name);
    }
    if declares(within, name) {
        let (d, i) = choose|d: int, i: int|
            #![trigger within[d].symbols.variables@[i]]
            0 <= d < within.len() && 0 <= i < within[d].symbols.variables@.len()
                && within[d].symbols.variables@[i].name@ == name;
        assert(symbol_names(within[d].symbols.variables@)[i] == name);
        assert(doc_declared()(within[d]).contains(name));
    }
}

/// Exactly the variables that the module refers to and does not declare are
/// declared.
pub proof fn undeclared_variables_are_collected(within: Seq<DocumentState>, name: Seq<char>)
    ensures
        undeclared_names(within, declared_names(within)).contains(name) <==> refers(within, name)
            && !declares(within, name),
{
    let declared = declared_names(within);
    lemma_declares(within, name);
    let f = doc_undeclared(declared);
    name_set_contains(flat_map(within, f), name);
    lemma_flat_map_contains(within, f, name);
    if flat_map(within, f).contains(name) {
        let d = choose|d: int| 0 <= d < within.len() && (#[trigger] f(within[d])).contains(name);
        let g = undeclared_ref(declared);
        lemma_filter_map_contains(within[d].references@, g, name);
        let i = choose|i: int|
            0 <= i < within[d].references@.len() && g(#[trigger] within[d].references@[i]) == Some(
                name,
            );
        assert(within[d].references@[i].kind matches ReferenceKind::Variable { name: n } && n@
            == name);
    }
    if refers(within, name) && !declares(within, name) {
        let (d, i) = choose|d: int, i: int|
            #![trigger within[d].references@[i]]
            0 <= d < within.len() && 0 <= i < within[d].references@.len() && (
            within[d].references@[i].kind matches ReferenceKind::Variable { name: n } && n@
                == name);
        let g = undeclared_ref(declared);
        lemma_filter_map_contains(within[d].references@, g, name);
        assert(g(within[d].references@[i]) == Some(name));
        assert(f(within[d]).contains(name));
    }
}

/// An operation writes text to a file of a directory, at the end or into a new
/// file.
pub open spec fn writes(ops: Seq<DocumentOpV>, dir: Seq<char>, file: Seq<char>, text: Seq<char>) -> bool {
    exists|i: int|
        0 <= i < ops.len() && (#[trigger] ops[i] matches DocumentOpV::Edit(e) && e.file
            == (FileRefV::InDir { dir, file_name: file }) && e.edits.len() == 1
            && e.edits[0].range.start == e.edits[0].range.end && ends_with(
            e.edits[0].new_text,
            text,
        ))
}

/// A text that is appended to a file goes to the end of that file; a missing
/// file is created first and holds nothing else.
pub proof fn appended_text_goes_to_its_file(
    strategy: TargetFileStrategy,
    dir: Seq<char>,
    file: Seq<char>,
    text: Seq<char>,
)
    ensures
        writes(append_ops(strategy, dir, file, text), dir, file, text),
        strategy is Create ==> append_ops(strategy, dir, file, text)[0] == DocumentOpV::Create(
            FileRefV::InDir { dir, file_name: file },
        ) && append_ops(strategy, dir, file, text).len() == 2,
        !(strategy is Create) ==> append_ops(strategy, dir, file, text).len() == 1,
{
    let ops = append_ops(strategy, dir, file, text);
    lemma_ends("\n"@, text);
    lemma_ends("\n\n"@, text);
    assert(text.subrange(0, text.len() as int) =~= text);
    match strategy {
        TargetFileStrategy::Create => {
            assert(ops[1] is Edit);
        },
        _ => {
            assert(ops[0] is Edit);
        },
    }
}

/// The file that a text is appended to is the document of the module with that
/// name, else the file on disk, and a new one where there is neither.
pub proof fn target_files_are_found(state: StateStore, dir: Seq<char>, name: Seq<char>)
    ensures
        match target_strategy(state, dir, name) {
            TargetFileStrategy::Loaded { .. } => exists|i: int|
                0 <= i < state.documents@.len() && (#[trigger] state.documents@[i]).uri.dir is Some
                    && state.documents@[i].uri.dir->0@ == dir && opt_view(
                    state.documents@[i].uri.file_name,
                ) == Some(name),
            TargetFileStrategy::OnDisk { .. } => exists|i: int|
                0 <= i < state.disk@.len() && (#[trigger] state.disk@[i]).dir@ == dir
                    && state.disk@[i].file_name@ == name,
            TargetFileStrategy::Create => (forall|i: int|
                0 <= i < state.documents@.len() ==> !((
                #[trigger] state.documents@[i]).uri.dir is Some
                    && state.documents@[i].uri.dir->0@ == dir && opt_view(
                    state.documents@[i].uri.file_name,
                ) == Some(name))) && (forall|i: int|
                0 <= i < state.disk@.len() ==> !((#[trigger] state.disk@[i]).dir@ == dir
                    && state.disk@[i].file_name@ == name)),
        },
{
    lemma_position(state.documents@, crate::target_file::is_named(dir, name), 0);
    lemma_position(state.disk@, crate::target_file::disk_named(dir, name), 0);
    if target_strategy(state, dir, name) is Create {
        assert forall|i: int| 0 <= i < state.documents@.len() implies !((
        #[trigger] state.documents@[i]).uri.dir is Some && state.documents@[i].uri.dir->0@ == dir
            && opt_view(state.documents@[i].uri.file_name) == Some(name)) by {
            assert(!crate::target_file::is_named(dir, name)(state.documents@[i]));
        }
        assert forall|i: int| 0 <= i < state.disk@.len() implies !((#[trigger] state.disk@[i]).dir@
            == dir && state.disk@[i].file_name@ == name) by {
            assert(!crate::target_file::disk_named(dir, name)(state.disk@[i]));
        }
    }
}

proof fn lemma_position<A>(s: Seq<A>, p: spec_fn(A) -> bool, from: int)
    requires
        0 <= from,
    ensures
        match crate::seqs::position_from(s, p, from) {
            Some(i) => from <= i < s.len() && p(s[i]),
            None => forall|i: int| from <= i < s.len() ==> !p(#[trigger] s[i]),
        },
    decreases s.len() - from,
{
    if from < s.len() && !p(s[from]) {
        lemma_position(s, p, from + 1);
    }
}

/// The action writes an empty declaration of each undeclared variable to the
/// `variables.tf` of the module.
pub proof fn undeclared_variables_are_declared(state: StateStore, primary: DocUri)
    ensures
        ({
            let within = scope_docs(state.documents@, primary, Scope::Module);
            let names = undeclared_names(within, declared_names(within));
            match declare_action(state, primary) {
                Some(a) => primary.dir is Some && names.len() > 0 && a.kind
                    == "source.fixAll.terraform-ls-rs."@ + "declare-undefined-variables"@
                    + ".module"@ && match a.edit {
                    WorkspaceEditV::Operations(ops) => writes(
                        ops,
                        primary.dir->0@,
                        "variables.tf"@,
                        flat_map(names, |n: Seq<char>| "variable \""@ + n + "\" {}\n"@),
                    ),
                    WorkspaceEditV::FileChanges(f) => writes(
                        seq![DocumentOpV::Edit(f)],
                        primary.dir->0@,
                        "variables.tf"@,
                        flat_map(names, |n: Seq<char>| "variable \""@ + n + "\" {}\n"@),
                    ),
                    WorkspaceEditV::Changes(_) => false,
                },
                None => primary.dir is None || names.len() == 0,
            }
        }),
{
    let within = scope_docs(state.documents@, primary, Scope::Module);
    let names = undeclared_names(within, declared_names(within));
    let g = |n: Seq<char>| "variable \""@ + n + "\" {}\n"@;
    lemma_same_text(names, stub_text(), g);
    if declare_action(state, primary) is Some {
        let dir = primary.dir->0@;
        let strategy = target_strategy(state, dir, "variables.tf"@);
        let text = flat_map(names, stub_text());
        appended_text_goes_to_its_file(strategy, dir, "variables.tf"@, text);
        let ops = append_ops(strategy, dir, "variables.tf"@, text);
        if !(strategy is Create) {
            let f = ops[0]->Edit_0;
            assert(seq![DocumentOpV::Edit(f)] =~= ops);
        }
    }
}

proof fn lemma_same_text<A>(s: Seq<A>, f: spec_fn(A) -> Seq<char>, g: spec_fn(A) -> Seq<char>)
    requires
        forall|x: A| #[trigger] f(x) == g(x),
    ensures
        flat_map(s, f) == flat_map(s, g),
    decreases s.len(),
{
    if s.len() > 0 {
        lemma_same_text(s.drop_last(), f, g);
        assert(f(s.last()) == g(s.last()));
    }
}

// ---------------------------------------------------------------------
// Blocks in the wrong file

/// Outputs move to `outputs.tf`, variables to `variables.tf`.
pub proof fn blocks_move_to_their_file()
    ensures
        output_words().kind@ == "output"@,
        output_words().file@ == "outputs.tf"@,
        output_words().id@ == "move-outputs-to-outputs-tf"@,
        variable_words().kind@ == "variable"@,
        variable_words().file@ == "variables.tf"@,
        variable_words().id@ == "move-variables-to-variables-tf"@,
{
}

/// The blocks that a document has in the wrong file are those of the kind, in a
/// document of another name.
pub proof fn stray_blocks_are_found(
    doc: DocumentState,
    kind: Seq<char>,
    file: Seq<char>,
    x: (Range, Seq<char>),
)
    ensures
        stray_blocks(doc, kind, file).contains(x) <==> {
            &&& doc.body is Some
            &&& !(doc.uri.file_name is Some && doc.uri.file_name->0@ == file)
            &&& exists|b: Block| #[trigger]
                has_block(doc.body->0, b) && b.ident.text@ == kind && movable(rope_text(doc.rope))(
                    b,
                ) == Some(x)
        },
{
    if doc.body is Some {
        let body = doc.body->0;
        let f = movable(rope_text(doc.rope));
        let s = blocks_named(body, kind);
        lemma_filter_map_contains(s, f, x);
        if filter_map(s, f).contains(x) {
            let i = choose|i: int| 0 <= i < s.len() && f(#[trigger] s[i]) == Some(x);
            lemma_blocks_named(body, kind, s[i]);
            assert(s.contains(s[i]));
        }
        if exists|b: Block| #[trigger]
            has_block(body, b) && b.ident.text@ == kind && f(b) == Some(x) {
            let b = choose|b: Block| #[trigger]
                has_block(body, b) && b.ident.text@ == kind && f(b) == Some(x);
            lemma_blocks_named(body, kind, b);
            let i = choose|i: int| 0 <= i < s.len() && s[i] == b;
            assert(f(s[i]) == Some(x));
        }
    }
}

/// A stray block of a document of the scope is deleted there.
pub proof fn stray_blocks_are_deleted(
    within: Seq<DocumentState>,
    kind: Seq<char>,
    file: Seq<char>,
    n: int,
    i: int,
    x: (Range, Seq<char>),
)
    requires
        0 <= i < n <= within.len(),
        stray_blocks(within[i], kind, file).contains(x),
    ensures
        has_edit(removals_upto(within, kind, file, n), within[i].uri.text@, x.0, ""@),
    decreases n,
{
    let m = removals_upto(within, kind, file, n - 1);
    let v = stray_blocks(within[n - 1], kind, file);
    let own = crate::move_blocks::removals(v);
    lemma_with_edits(m, within[n - 1].uri.text@, own, within[i].uri.text@, x.0, ""@);
    if i < n - 1 {
        stray_blocks_are_deleted(within, kind, file, n - 1, i, x);
    } else {
        let j = choose|j: int| 0 <= j < v.len() && v[j] == x;
        assert(own[j].range == x.0 && own[j].new_text == ""@);
    }
}

/// The texts of all stray blocks of the module are written, one after another,
/// to the file that they belong to; nothing else is written.
pub proof fn stray_blocks_are_written_to_their_file(
    state: StateStore,
    primary: DocUri,
    w: MoveWords,
)
    ensures
        ({
            let within = scope_docs(state.documents@, primary, Scope::Module);
            let texts = flat_map(within, stray_sources(w.kind@, w.file@));
            match move_action(state, primary, w) {
                Some(a) => primary.dir is Some && texts.len() > 0 && a.kind
                    == "source.fixAll.terraform-ls-rs."@ + w.id@ + ".module"@ && (
                a.edit matches WorkspaceEditV::Operations(ops) && writes(
                    ops,
                    primary.dir->0@,
                    w.file@,
                    combined(texts),
                )),
                None => primary.dir is None || texts.len() == 0,
            }
        }),
{
    let within = scope_docs(state.documents@, primary, Scope::Module);
    let texts = flat_map(within, stray_sources(w.kind@, w.file@));
    if move_action(state, primary, w) is Some {
        let dir = primary.dir->0@;
        let strategy = target_strategy(state, dir, w.file@);
        appended_text_goes_to_its_file(strategy, dir, w.file@, combined(texts));
        let a = rewrite_ops(removals_upto(within, w.kind@, w.file@, within.len() as int));
        let b = append_ops(strategy, dir, w.file@, combined(texts));
        lemma_writes_after(a, b, dir, w.file@, combined(texts));
    }
}

pub proof fn lemma_writes_after(
    a: Seq<DocumentOpV>,
    b: Seq<DocumentOpV>,
    dir: Seq<char>,
    file: Seq<char>,
    text: Seq<char>,
)
    ensures
        writes(b, dir, file, text) ==> writes(a + b, dir, file, text),
        writes(a, dir, file, text) ==> writes(a + b, dir, file, text),
{
    if writes(b, dir, file, text) {
        let i = choose|i: int|
            0 <= i < b.len() && (#[trigger] b[i] matches DocumentOpV::Edit(e) && e.file
                == (FileRefV::InDir { dir, file_name: file }) && e.edits.len() == 1
                && e.edits[0].range.start == e.edits[0].range.end && ends_with(
                e.edits[0].new_text,
                text,
            ));
        assert((a + b)[a.len() + i] == b[i]);
    }
    if writes(a, dir, file, text) {
        let i = choose|i: int|
            0 <= i < a.len() && (#[trigger] a[i] matches DocumentOpV::Edit(e) && e.file
                == (FileRefV::InDir { dir, file_name: file }) && e.edits.len() == 1
                && e.edits[0].range.start == e.edits[0].range.end && ends_with(
                e.edits[0].new_text,
                text,
            ));
        assert((a + b)[i] == a[i]);
    }
}

// ---------------------------------------------------------------------
// `null_resource`

/// A range of the text is rewritten.
pub open spec fn rewrites(t: Seq<char>, s: Option<crate::position::Span>, text: Seq<char>, e: EditV) -> bool {
    s is Some && span_range(t, s->0) == Some(e.range) && e.new_text == text
}

proof fn lemma_span_edit(
    t: Seq<char>,
    s: Option<crate::position::Span>,
    text: Seq<char>,
    e: EditV,
)
    ensures
        span_edit(t, s, text).contains(e) <==> rewrites(t, s, text, e),
{
    if rewrites(t, s, text, e) {
        assert(span_edit(t, s, text)[0] == e);
    }
}

/// The conversion rewrites the type label of each `null_resource` block and its
/// `triggers` keys.
pub open spec fn converts_block(t: Seq<char>, b: Block, e: EditV) -> bool {
    &&& b.ident.text@ == "resource"@
    &&& b.labels@.len() > 0
    &&& b.labels@[0].text@ == "null_resource"@
    &&& {
        ||| rewrites(t, b.labels@[0].span, "\"terraform_data\""@, e)
        ||| exists|a: Attribute| #[trigger]
            has_attribute(b.body, a) && a.key.text@ == "triggers"@ && rewrites(
                t,
                a.key.span,
                "triggers_replace"@,
                e,
            )
    }
}

/// And of each reference its head, and `triggers` behind the name.
pub open spec fn converts_reference(t: Seq<char>, x: Expression, e: EditV) -> bool {
    match x.kind {
        ExprKind::Traversal(tr) => {
            &&& tr.expr.kind matches ExprKind::Variable(head) && head@ == "null_resource"@
            &&& {
                ||| rewrites(t, tr.expr.span, "terraform_data"@, e)
                ||| attr_idents(tr.operators@).len() > 1 && attr_idents(tr.operators@)[1].text@
                    == "triggers"@ && rewrites(
                    t,
                    attr_idents(tr.operators@)[1].span,
                    "triggers_replace"@,
                    e,
                )
            }
        },
        _ => false,
    }
}

proof fn lemma_block_conversion(t: Seq<char>, b: Block, e: EditV)
    ensures
        null_block_edits(t, None)(b).contains(e) <==> converts_block(t, b, e),
{
    if crate::null_resource::is_null_block(b) {
        let a = span_edit(t, b.labels@[0].span, "\"terraform_data\""@);
        let c = flat_map(attributes(b.body), trigger_edit(t));
        lemma_plus_contains(a, c, e);
        lemma_span_edit(t, b.labels@[0].span, "\"terraform_data\""@, e);
        lemma_flat_map_contains(attributes(b.body), trigger_edit(t), e);
        if c.contains(e) {
            let i = choose|i: int|
                0 <= i < attributes(b.body).len() && (#[trigger] trigger_edit(t)(
                    attributes(b.body)[i],
                )).contains(e);
            let x = attributes(b.body)[i];
            lemma_attributes(b.body, x);
            assert(attributes(b.body).contains(x));
            lemma_span_edit(t, x.key.span, "triggers_replace"@, e);
            assert(has_attribute(b.body, x));
        }
        if exists|x: Attribute| #[trigger]
            has_attribute(b.body, x) && x.key.text@ == "triggers"@ && rewrites(
                t,
                x.key.span,
                "triggers_replace"@,
                e,
            ) {
            let x = choose|x: Attribute| #[trigger]
                has_attribute(b.body, x) && x.key.text@ == "triggers"@ && rewrites(
                    t,
                    x.key.span,
                    "triggers_replace"@,
                    e,
                );
            lemma_attributes(b.body, x);
            lemma_span_edit(t, x.key.span, "triggers_replace"@, e);
            let i = choose|i: int|
                0 <= i < attributes(b.body).len() && attributes(b.body)[i] == x;
            assert(trigger_edit(t)(attributes(b.body)[i]).contains(e));
        }
    }
}

proof fn lemma_reference_conversion(t: Seq<char>, x: Expression, e: EditV)
    ensures
        null_ref_edits(t, None)(x).contains(e) <==> converts_reference(t, x, e),
{
    match x.kind {
        ExprKind::Traversal(tr) => match tr.expr.kind {
            ExprKind::Variable(head) => {
                let names = attr_idents(tr.operators@);
                let a = span_edit(t, tr.expr.span, "terraform_data"@);
                lemma_span_edit(t, tr.expr.span, "terraform_data"@, e);
                if names.len() > 1 {
                    let c = span_edit(t, names[1].span, "triggers_replace"@);
                    lemma_span_edit(t, names[1].span, "triggers_replace"@, e);
                    lemma_plus_contains(a, c, e);
                }
                lemma_plus_contains(a, Seq::<EditV>::empty(), e);
            },
            _ => {},
        },
        _ => {},
    }
}

/// The conversion of a body rewrites exactly the labels, the keys and the
/// references of its `null_resource` blocks.
pub proof fn null_resources_are_converted(body: Body, t: Seq<char>, e: EditV)
    ensures
        null_edits(body, t, None).contains(e) <==> {
            ||| exists|b: Block| #[trigger] has_block(body, b) && converts_block(t, b, e)
            ||| exists|n: int|
                0 <= n < body_exprs(body).len() && converts_reference(
                    t,
                    #[trigger] body_exprs(body)[n],
                    e,
                )
        },
{
    let fb = null_block_edits(t, None);
    let fe = null_ref_edits(t, None);
    let a = flat_map(blocks(body), fb);
    let c = flat_map(body_exprs(body), fe);
    lemma_plus_contains(a, c, e);
    lemma_flat_map_contains(blocks(body), fb, e);
    lemma_flat_map_contains(body_exprs(body), fe, e);
    if a.contains(e) {
        let i = choose|i: int|
            0 <= i < blocks(body).len() && (#[trigger] fb(blocks(body)[i])).contains(e);
        let b = blocks(body)[i];
        lemma_block_conversion(t, b, e);
        lemma_block_in(body, b);
        assert(blocks(body).contains(b));
    }
    if c.contains(e) {
        let n = choose|n: int|
            0 <= n < body_exprs(body).len() && (#[trigger] fe(body_exprs(body)[n])).contains(e);
        lemma_reference_conversion(t, body_exprs(body)[n], e);
    }
    if exists|b: Block| #[trigger] has_block(body, b) && converts_block(t, b, e) {
        let b = choose|b: Block| #[trigger] has_block(body, b) && converts_block(t, b, e);
        lemma_block_conversion(t, b, e);
        lemma_block_in(body, b);
        let i = choose|i: int| 0 <= i < blocks(body).len() && blocks(body)[i] == b;
        assert(fb(blocks(body)[i]).contains(e));
    }
    if exists|n: int|
        0 <= n < body_exprs(body).len() && converts_reference(t, #[trigger] body_exprs(body)[n], e) {
        let n = choose|n: int|
            0 <= n < body_exprs(body).len() && converts_reference(
                t,
                #[trigger] body_exprs(body)[n],
                e,
            );
        lemma_reference_conversion(t, body_exprs(body)[n], e);
        assert(fe(body_exprs(body)[n]).contains(e));
    }
}

pub proof fn lemma_block_in(body: Body, b: Block)
    ensures
        blocks(body).contains(b) <==> has_block(body, b),
{
    let s = body.structures@;
    lemma_filter_map_contains(s, block_in(), b);
    if has_block(body, b) {
        let i = choose|i: int| 0 <= i < s.len() && s[i] == Structure::Block(b);
        assert(block_in()(s[i]) == Some(b));
    }
    if blocks(body).contains(b) {
        let i = choose|i: int| 0 <= i < s.len() && block_in()(#[trigger] s[i]) == Some(b);
        assert(s[i] == Structure::Block(b));
    }
}

/// A `moved` block tells from which address to which the name moves.
pub proof fn moved_blocks_keep_the_name(from: Seq<char>, to: Seq<char>, name: Seq<char>)
    ensures
        moved_block(from, to, name) == "moved {\n  from = "@ + (from + "."@ + name)
            + "\n  to   = "@ + (to + "."@ + name) + "\n}\n"@,
        null_move_text()(name) == moved_block("null_resource"@, "terraform_data"@, name),
{
    assert(moved_block(from, to, name) =~= "moved {\n  from = "@ + (from + "."@ + name)
        + "\n  to   = "@ + (to + "."@ + name) + "\n}\n"@);
}

/// The conversion of one block also writes a `moved` block for it to the
/// `moved.tf` of the module, unless the module has one.
pub proof fn converted_blocks_are_moved(
    state: StateStore,
    uri: DocUri,
    body: Body,
    t: Seq<char>,
    b: Block,
    name: Seq<char>,
)
    requires
        b.labels@.len() > 1,
        b.labels@[1].text@ == name,
        uri.dir is Some,
        !existing_null_names(state.documents@, uri.dir->0@).contains(name),
    ensures
        convert_one(state, uri, body, t, b, None) matches Some(a) ==> a.title
            == "Convert null_resource."@ + name + " to terraform_data"@ && (
        a.edit matches WorkspaceEditV::Operations(ops) && writes(
            ops,
            uri.dir->0@,
            "moved.tf"@,
            moved_block("null_resource"@, "terraform_data"@, name),
        ) && ops.contains(
            DocumentOpV::Edit(
                FileEditsV {
                    file: FileRefV::Uri(uri.text@),
                    edits: null_edits(body, t, Some(name)),
                },
            ),
        )),
{
    if convert_one(state, uri, body, t, b, None) is Some {
        let dir = uri.dir->0@;
        let names = seq![(dir, seq![name])];
        let edits = null_edits(body, t, Some(name));
        let f = null_module_ops(state);
        let existing = existing_null_names(state.documents@, dir);
        let add = null_moves_to_add(existing, seq![name]);
        lemma_single_move(existing, name);
        assert(names.drop_last() =~= Seq::empty());
        let first = flat_map(names, f);
        assert(flat_map(names.drop_last(), f) =~= Seq::<DocumentOpV>::empty());
        assert(first =~= f(names[0]));
        let text = flat_map(add, null_move_text());
        assert(text =~= null_move_text()(name)) by {
            assert(add.drop_last() =~= Seq::empty());
            assert(flat_map(add.drop_last(), null_move_text()) =~= Seq::<char>::empty());
        }
        let strategy = target_strategy(state, dir, "moved.tf"@);
        appended_text_goes_to_its_file(strategy, dir, "moved.tf"@, text);
        let rest = rewrite_ops(seq![(uri.text@, edits)]);
        lemma_writes_after(first, rest, dir, "moved.tf"@, text);
        let all = first + rest;
        assert(all[first.len() as int] == rest[0]);
        assert(rest[0] == rewrite_op((uri.text@, edits)));
    }
}

proof fn lemma_single_move(existing: Seq<Seq<char>>, name: Seq<char>)
    requires
        !existing.contains(name),
    ensures
        null_moves_to_add(existing, seq![name]) == seq![name],
{
    let s = seq![name];
    let p = crate::order::as_pairs(s);
    assert(p.drop_last() =~= Seq::empty());
    assert(crate::order::pair_set(p.drop_last()) =~= Seq::empty());
    assert(crate::order::pair_set(p) =~= seq![(0int, name)]);
    let n = crate::order::name_set(s);
    assert(n =~= seq![name]);
    let q = crate::null_resource::not_among(existing);
    assert(n.drop_last() =~= Seq::empty());
    assert(keep(n.drop_last(), q) =~= Seq::<Seq<char>>::empty());
    assert(keep(n, q) =~= seq![name]);
}

} // verus!
