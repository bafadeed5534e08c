//! The code actions for a range of a document.

use crate::actions::{
    actions_view, with_edits, CodeAction, CodeActionV, Diagnostic, EditMap, EditMapV,
};
use crate::block_rename::{
    bulk_scopes, edits_in_scope, emit_block_rename_actions, keep_edits_in, list_bulk_scopes,
    rename_action, VersionGate,
};
use crate::formatting::{emit_format_actions, format_actions};
use crate::state::{find_doc, primary_doc};
use crate::hcl::{blocks, Body};
use crate::move_blocks::{
    declare_action, emit_declare_undefined_actions, emit_move_outputs_actions,
    emit_move_variables_actions, move_action, one_or_none, output_words, variable_words,
};
use crate::null_resource::{
    convert_at_cursor, convert_for_diag, emit_null_resource_actions, flatten,
    make_replace_null_resource_at_cursor, make_replace_null_resource_for_diag, null_action,
};
use crate::position::{edits_view, rope_text, EditV, Range, TextEdit};
use crate::quick_fixes::{
    convert_lookup, insert_required, is_deprecated_interpolation, is_deprecated_lookup,
    is_deprecated_null_resource, is_missing_required, is_missing_variable_type, lookup_edit_of,
    make_convert_lookup_to_index_action, make_insert_required_action,
    make_unwrap_interpolation_action, reports, scan_lookup_to_index, scan_unwrap_interpolations,
    unwrap_action, unwrap_edit_of,
};
use crate::scope::{
    build_scoped_action, doc_pointees, for_each_doc_in_scope, opt_action, range_is_empty,
    scope_docs, scoped_action, Scope,
};
use crate::seqs::{filter_map, find_map, lemma_filter_map_step, lemma_take_full};
use crate::state::{DocUri, DocumentState, StateStore};
use crate::template_file::{
    convert_template_at, emit_template_file_actions, make_replace_template_file_at_cursor,
    template_action,
};
use crate::text::{opt_view, str_eq};
use crate::variable_types::{
    fix_all_types, insert_type_action, insert_type_at_cursor, insert_type_edits,
    make_fix_all_variable_types_action, make_insert_variable_type_action,
    make_insert_variable_type_action_at_cursor, refine_edits, scan_insert_variable_types,
    scan_refine_any_types,
};
use vstd::prelude::*;

verus! {

// ---------------------------------------------------------------------
// Fixes that differ only in how a document is scanned

/// A fix that is offered for a selection, a file, a module and the workspace.
#[derive(Debug, Clone, Copy, PartialEq, Eq, Structural)]
pub enum BulkFix {
    UnwrapInterpolation,
    LookupToIndex,
    SetVariableTypes,
    RefineAnyTypes,
}

pub open spec fn fix_title(fix: BulkFix) -> Seq<char> {
    match fix {
        BulkFix::UnwrapInterpolation => "Unwrap interpolation"@,
        BulkFix::LookupToIndex => "Convert deprecated lookup to index notation"@,
        BulkFix::SetVariableTypes => "Set variable types"@,
        BulkFix::RefineAnyTypes => "Refine `type = any`"@,
    }
}

pub open spec fn fix_item(fix: BulkFix) -> Seq<char> {
    match fix {
        BulkFix::UnwrapInterpolation => "deprecated interpolation"@,
        BulkFix::LookupToIndex => "deprecated lookup"@,
        BulkFix::SetVariableTypes => "untyped variable"@,
        BulkFix::RefineAnyTypes => "`type = any` variable"@,
    }
}

pub open spec fn fix_id(fix: BulkFix) -> Seq<char> {
    match fix {
        BulkFix::UnwrapInterpolation => "unwrap-interpolation"@,
        BulkFix::LookupToIndex => "convert-lookup-to-index"@,
        BulkFix::SetVariableTypes => "set-variable-types"@,
        BulkFix::RefineAnyTypes => "refine-any-types"@,
    }
}

/// The edits of a fix in one document.
pub open spec fn fix_edits(fix: BulkFix, state: StateStore, doc: DocumentState) -> Seq<EditV> {
    let t = rope_text(doc.rope);
    match doc.body {
        Some(body) => match fix {
            BulkFix::UnwrapInterpolation => filter_map(
                doc.interpolation_ranges@,
                unwrap_edit_of(t),
            ),
            BulkFix::LookupToIndex => filter_map(doc.lookup_ranges@, lookup_edit_of(body, t)),
            BulkFix::SetVariableTypes => insert_type_edits(
                state,
                doc.symbols,
                opt_view(doc.uri.dir),
                body,
                t,
            ),
            BulkFix::RefineAnyTypes => refine_edits(
                state,
                doc.symbols,
                opt_view(doc.uri.dir),
                body,
                t,
            ),
        },
        None => Seq::empty(),
    }
}

fn scan_doc(fix: BulkFix, state: &StateStore, doc: &DocumentState) -> (r: Vec<TextEdit>)
    ensures
        edits_view(r@) == fix_edits(fix, *state, *doc),
{
    match &doc.body {
        Some(body) => match fix {
            BulkFix::UnwrapInterpolation => scan_unwrap_interpolations(
                &doc.rope,
                &doc.interpolation_ranges,
            ),
            BulkFix::LookupToIndex => scan_lookup_to_index(body, &doc.rope, &doc.lookup_ranges),
            BulkFix::SetVariableTypes => scan_insert_variable_types(
                &doc.uri.dir,
                body,
                &doc.rope,
                &doc.symbols,
                state,
            ),
            BulkFix::RefineAnyTypes => scan_refine_any_types(
                &doc.uri.dir,
                body,
                &doc.rope,
                &doc.symbols,
                state,
            ),
        },
        None => {
            let out: Vec<TextEdit> = Vec::new();
            assert(edits_view(out@) =~= Seq::<EditV>::empty());
            out
        },
    }
}

/// The edits of the first `n` documents within a scope.
pub open spec fn fix_edits_upto(
    fix: BulkFix,
    state: StateStore,
    scope: Scope,
    within: Seq<DocumentState>,
    n: int,
) -> EditMapV
    decreases n,
{
    if n <= 0 {
        EditMapV::empty()
    } else {
        let m = fix_edits_upto(fix, state, scope, within, n - 1);
        let e = edits_in_scope(fix_edits(fix, state, within[n - 1]), scope);
        if e.len() == 0 {
            m
        } else {
            with_edits(m, within[n - 1].uri.text@, e)
        }
    }
}

/// The action of a fix for a scope.
pub open spec fn fix_action(fix: BulkFix, state: StateStore, primary: DocUri) -> spec_fn(
    Scope,
) -> Option<CodeActionV> {
    |scope: Scope|
        {
            let within = scope_docs(state.documents@, primary, scope);
            scoped_action(
                scope,
                fix_edits_upto(fix, state, scope, within, within.len() as int),
                fix_title(fix),
                fix_item(fix),
                None,
                fix_id(fix),
            )
        }
}

fn fix_action_for(fix: BulkFix, state: &StateStore, primary_uri: &DocUri, scope: Scope) -> (r:
    Option<CodeAction>)
    ensures
        opt_action(r) == fix_action(fix, *state, *primary_uri)(scope),
{
    let docs = for_each_doc_in_scope(state, primary_uri, scope);
    let ghost within = scope_docs(state.documents@, *primary_uri, scope);
    let mut edits = EditMap::new();
    for i in 0..docs.len()
        invariant
            doc_pointees(docs@) == within,
            edits@ == fix_edits_upto(fix, *state, scope, within, i as int),
    {
        assert(within[i as int] == *docs@[i as int]);
        let v = keep_edits_in(scan_doc(fix, state, docs[i]), scope);
        assert(edits_view(v@).len() == v@.len());
        if v.len() > 0 {
            edits.add(docs[i].uri.text.as_str(), v);
        }
    }
    let (title, item, id) = match fix {
        BulkFix::UnwrapInterpolation => (
            "Unwrap interpolation",
            "deprecated interpolation",
            "unwrap-interpolation",
        ),
        BulkFix::LookupToIndex => (
            "Convert deprecated lookup to index notation",
            "deprecated lookup",
            "convert-lookup-to-index",
        ),
        BulkFix::SetVariableTypes => (
            "Set variable types",
            "untyped variable",
            "set-variable-types",
        ),
        BulkFix::RefineAnyTypes => (
            "Refine `type = any`",
            "`type = any` variable",
            "refine-any-types",
        ),
    };
    build_scoped_action(scope, edits, title, item, None, id)
}

/// The actions of a fix for every scope.
pub open spec fn fix_actions(
    fix: BulkFix,
    state: StateStore,
    primary: DocUri,
    selection: Option<Range>,
) -> Seq<CodeActionV> {
    filter_map(bulk_scopes(selection), fix_action(fix, state, primary))
}

/// Offer a fix for the selection, the file, the module and the workspace.
pub fn emit_scoped_actions(
    state: &StateStore,
    primary_uri: &DocUri,
    selection: Option<Range>,
    fix: BulkFix,
    actions: &mut Vec<CodeAction>,
)
    ensures
        actions_view(final(actions)@) == actions_view(old(actions)@) + fix_actions(
            fix,
            *state,
            *primary_uri,
            selection,
        ),
{
    let scopes = list_bulk_scopes(selection);
    let ghost s = bulk_scopes(selection);
    let ghost f = fix_action(fix, *state, *primary_uri);
    let ghost start = actions_view(actions@);
    proof {
        lemma_take_full(s);
    }
    assert(actions_view(actions@) =~= start + filter_map(s.take(0), f));
    for i in 0..scopes.len()
        invariant
            scopes@ == s,
            f == fix_action(fix, *state, *primary_uri),
            actions_view(actions@) == start + filter_map(s.take(i as int), f),
    {
        proof {
            lemma_filter_map_step(s, f, i as int);
        }
        let ghost before = actions_view(actions@);
        if let Some(a) = fix_action_for(fix, state, primary_uri, scopes[i]) {
            actions.push(a);
            assert(actions_view(actions@) =~= before.push(a@));
        }
        assert(actions_view(actions@) =~= start + filter_map(s.take(i + 1), f));
    }
}

// ---------------------------------------------------------------------
// Fixes for diagnostics

/// The fix for a diagnostic: the first kind of finding that it reports
/// decides.
pub open spec fn diag_action(state: StateStore, uri: DocUri, doc: DocumentState, body: Body) -> spec_fn(
    Diagnostic,
) -> Option<CodeActionV> {
    |d: Diagnostic|
        {
            let t = rope_text(doc.rope);
            if reports(
                d@,
                crate::actions::DiagnosticSeverity::Error,
                "missing required attribute"@,
            ) {
                insert_required(state.schemas@, uri.text@, d@, body, t)
            } else if reports(
                d@,
                crate::actions::DiagnosticSeverity::Warning,
                "variable has no type"@,
            ) {
                insert_type_action(state, uri, d@, body, t, doc.symbols)
            } else if reports(
                d@,
                crate::actions::DiagnosticSeverity::Warning,
                "interpolation-only expressions are deprecated"@,
            ) {
                unwrap_action(uri.text@, d@, t)
            } else if reports(
                d@,
                crate::actions::DiagnosticSeverity::Warning,
                "two-argument `lookup()` is deprecated"@,
            ) {
                convert_lookup(uri.text@, d@, body, t)
            } else if reports(
                d@,
                crate::actions::DiagnosticSeverity::Warning,
                "`null_resource` is superseded by the built-in `terraform_data`"@,
            ) {
                flatten(find_map(blocks(body), convert_for_diag(state, uri, body, t, d)))
            } else {
                None
            }
        }
}

fn fix_for_diag(
    state: &StateStore,
    uri: &DocUri,
    doc: &DocumentState,
    body: &Body,
    diag: &Diagnostic,
) -> (r: Option<CodeAction>)
    ensures
        opt_action(r) == diag_action(*state, *uri, *doc, *body)(*diag),
{
    if is_missing_required(diag) {
        make_insert_required_action(&state.schemas, uri, diag, body, &doc.rope)
    } else if is_missing_variable_type(diag) {
        make_insert_variable_type_action(uri, diag, body, &doc.rope, &doc.symbols, state)
    } else if is_deprecated_interpolation(diag) {
        make_unwrap_interpolation_action(uri, diag, &doc.rope)
    } else if is_deprecated_lookup(diag) {
        make_convert_lookup_to_index_action(uri, diag, body, &doc.rope)
    } else if is_deprecated_null_resource(diag) {
        make_replace_null_resource_for_diag(state, uri, diag, body, &doc.rope)
    } else {
        None
    }
}

// ---------------------------------------------------------------------
// The list

/// An action of that title is in the list.
pub open spec fn has_title(v: Seq<CodeActionV>, title: Seq<char>) -> bool {
    exists|i: int| 0 <= i < v.len() && (#[trigger] v[i]).title == title
}

/// The list with an action at its end, unless one of its title is there.
pub open spec fn with_new(v: Seq<CodeActionV>, a: Option<CodeActionV>) -> Seq<CodeActionV> {
    match a {
        Some(a) => if has_title(v, a.title) {
            v
        } else {
            v.push(a)
        },
        None => v,
    }
}

fn push_new(actions: &mut Vec<CodeAction>, a: Option<CodeAction>)
    ensures
        actions_view(final(actions)@) == with_new(actions_view(old(actions)@), opt_action(a)),
{
    let ghost v = actions_view(actions@);
    let ghost given = opt_action(a);
    if let Some(added) = a {
        for i in 0..actions.len()
            invariant
                actions@ == old(actions)@,
                v == actions_view(actions@),
                given == Some(added@),
                given == opt_action(a),
                forall|j: int| 0 <= j < i ==> (#[trigger] v[j]).title != added@.title,
        {
            assert(v[i as int].title == actions@[i as int].title@);
            if str_eq(actions[i].title.as_str(), added.title.as_str()) {
                assert(has_title(v, added@.title));
                return;
            }
        }
        actions.push(added);
        assert(actions_view(actions@) =~= v.push(added@));
    }
}

/// What is asked for: the range and the diagnostics that the editor shows
/// there, with what the formatter made of the selected text and what is known
/// of the version constraints of the workspace.
pub struct CodeActionParams {
    pub range: Range,
    pub diagnostics: Vec<Diagnostic>,
    pub formatted_selection: Option<String>,
    pub gates: Vec<VersionGate>,
}

/// The fixes for the diagnostics and for what stands under the cursor.
pub open spec fn instance_actions(
    state: StateStore,
    uri: DocUri,
    doc: DocumentState,
    params: CodeActionParams,
) -> Seq<CodeActionV> {
    match doc.body {
        Some(body) => {
            let t = rope_text(doc.rope);
            let cursor = params.range.start;
            let diags = filter_map(params.diagnostics@, diag_action(state, uri, doc, body));
            let all = diags + one_or_none(fix_all_types(state, uri, body, t, doc.symbols));
            let typed = with_new(
                all,
                insert_type_at_cursor(state, uri, cursor, body, t, doc.symbols),
            );
            let templates = with_new(
                typed,
                if doc.supports_templatefile {
                    flatten(
                        find_map(blocks(body), convert_template_at(state, uri, body, t, cursor)),
                    )
                } else {
                    None
                },
            );
            if doc.supports_terraform_data {
                with_new(
                    templates,
                    flatten(find_map(blocks(body), convert_at_cursor(state, uri, body, t, cursor))),
                )
            } else {
                templates
            }
        },
        None => Seq::empty(),
    }
}

pub open spec fn selection_of(range: Range) -> Option<Range> {
    if range.start == range.end {
        None
    } else {
        Some(range)
    }
}

/// The actions that are offered for whole scopes. The renames of blocks are
/// among them, on purpose: their emitter is called once per request, after the
/// other two that convert blocks and before what moves text between files.
pub open spec fn bulk_actions(state: StateStore, uri: DocUri, params: CodeActionParams) -> Seq<
    CodeActionV,
> {
    let selection = selection_of(params.range);
    fix_actions(BulkFix::UnwrapInterpolation, state, uri, selection) + fix_actions(
        BulkFix::LookupToIndex,
        state,
        uri,
        selection,
    ) + fix_actions(BulkFix::SetVariableTypes, state, uri, selection) + fix_actions(
        BulkFix::RefineAnyTypes,
        state,
        uri,
        selection,
    ) + filter_map(bulk_scopes(selection), null_action(state, uri)) + filter_map(
        bulk_scopes(selection),
        template_action(state, uri),
    ) + filter_map(
        bulk_scopes(selection),
        rename_action(state, params.gates@, uri),
    ) + one_or_none(declare_action(state, uri)) + one_or_none(
        move_action(state, uri, output_words()),
    ) + one_or_none(move_action(state, uri, variable_words())) + format_actions(
        state,
        uri,
        selection,
        opt_view(params.formatted_selection),
    )
}

/// All actions, or `None` where there are none or the document is unknown.
pub open spec fn code_action_answer(state: StateStore, uri: DocUri, params: CodeActionParams) -> Option<
    Seq<CodeActionV>,
> {
    match find_map(state.documents@, primary_doc(uri)) {
        Some(doc) => {
            let all = instance_actions(state, uri, doc, params) + bulk_actions(state, uri, params);
            if all.len() == 0 {
                None
            } else {
                Some(all)
            }
        },
        None => None,
    }
}

pub open spec fn opt_actions(v: Option<Vec<CodeAction>>) -> Option<Seq<CodeActionV>> {
    match v {
        Some(v) => Some(actions_view(v@)),
        None => None,
    }
}

fn push_instance_actions(
    state: &StateStore,
    uri: &DocUri,
    doc: &DocumentState,
    params: &CodeActionParams,
    actions: &mut Vec<CodeAction>,
)
    requires
        old(actions)@.len() == 0,
    ensures
        actions_view(final(actions)@) == instance_actions(*state, *uri, *doc, *params),
{
    if let Some(body) = &doc.body {
        let ghost s = params.diagnostics@;
        let ghost f = diag_action(*state, *uri, *doc, *body);
        proof {
            lemma_take_full(s);
        }
        assert(actions_view(actions@) =~= filter_map(s.take(0), f));
        for i in 0..params.diagnostics.len()
            invariant
                s == params.diagnostics@,
                f == diag_action(*state, *uri, *doc, *body),
                actions_view(actions@) == filter_map(s.take(i as int), f),
        {
            proof {
                lemma_filter_map_step(s, f, i as int);
            }
            let ghost before = actions_view(actions@);
            if let Some(a) = fix_for_diag(state, uri, doc, body, &params.diagnostics[i]) {
                actions.push(a);
                assert(actions_view(actions@) =~= before.push(a@));
            }
        }
        let ghost diags = actions_view(actions@);
        let fix_all = make_fix_all_variable_types_action(
            uri,
            body,
            &doc.rope,
            &doc.symbols,
            state,
        );
        let ghost fv = opt_action(fix_all);
        if let Some(a) = fix_all {
            actions.push(a);
        }
        assert(actions_view(actions@) =~= diags + one_or_none(fv));
        push_new(
            actions,
            make_insert_variable_type_action_at_cursor(
                uri,
                params.range.start,
                body,
                &doc.rope,
                &doc.symbols,
                state,
            ),
        );
        push_new(
            actions,
            make_replace_template_file_at_cursor(
                state,
                uri,
                doc.supports_templatefile,
                params.range.start,
                body,
                &doc.rope,
            ),
        );
        if doc.supports_terraform_data {
            push_new(
                actions,
                make_replace_null_resource_at_cursor(
                    state,
                    uri,
                    params.range.start,
                    body,
                    &doc.rope,
                ),
            );
        }
    }
    assert(actions_view(actions@) =~= instance_actions(*state, *uri, *doc, *params));
}

proof fn lemma_appended<A>(a: Seq<A>, b: Seq<A>, c: Seq<A>)
    ensures
        (a + b) + c == a + (b + c),
{
    assert((a + b) + c =~= a + (b + c));
}

fn push_bulk_actions(
    state: &StateStore,
    uri: &DocUri,
    selection: Option<Range>,
    params: &CodeActionParams,
    actions: &mut Vec<CodeAction>,
)
    requires
        selection == selection_of(params.range),
    ensures
        actions_view(final(actions)@) == actions_view(old(actions)@) + bulk_actions(
            *state,
            *uri,
            *params,
        ),
{
    let ghost first = actions_view(actions@);
    emit_scoped_actions(state, uri, selection, BulkFix::UnwrapInterpolation, actions);
    let ghost a1 = fix_actions(BulkFix::UnwrapInterpolation, *state, *uri, selection);
    emit_scoped_actions(state, uri, selection, BulkFix::LookupToIndex, actions);
    let ghost a2 = fix_actions(BulkFix::LookupToIndex, *state, *uri, selection);
    emit_scoped_actions(state, uri, selection, BulkFix::SetVariableTypes, actions);
    let ghost a3 = fix_actions(BulkFix::SetVariableTypes, *state, *uri, selection);
    emit_scoped_actions(state, uri, selection, BulkFix::RefineAnyTypes, actions);
    let ghost a4 = fix_actions(BulkFix::RefineAnyTypes, *state, *uri, selection);
    emit_null_resource_actions(state, uri, selection, actions);
    let ghost a5 = filter_map(bulk_scopes(selection), null_action(*state, *uri));
    emit_template_file_actions(state, uri, selection, actions);
    let ghost a6 = filter_map(bulk_scopes(selection), template_action(*state, *uri));
    emit_block_rename_actions(state, &params.gates, uri, selection, actions);
    let ghost renames = filter_map(
        bulk_scopes(selection),
        rename_action(*state, params.gates@, *uri),
    );
    emit_declare_undefined_actions(state, uri, actions);
    let ghost a7 = one_or_none(declare_action(*state, *uri));
    emit_move_outputs_actions(state, uri, actions);
    let ghost a8 = one_or_none(move_action(*state, *uri, output_words()));
    emit_move_variables_actions(state, uri, actions);
    let ghost a9 = one_or_none(move_action(*state, *uri, variable_words()));
    emit_format_actions(state, uri, selection, &params.formatted_selection, actions);
    let ghost a10 = format_actions(
        *state,
        *uri,
        selection,
        opt_view(params.formatted_selection),
    );
    assert(actions_view(actions@) == first + a1 + a2 + a3 + a4 + a5 + a6 + renames + a7 + a8 + a9
        + a10);
    proof {
        lemma_appended(first, a1, a2);
        lemma_appended(first, a1 + a2, a3);
        lemma_appended(first, a1 + a2 + a3, a4);
        lemma_appended(first, a1 + a2 + a3 + a4, a5);
        lemma_appended(first, a1 + a2 + a3 + a4 + a5, a6);
        let fixes = a1 + a2 + a3 + a4 + a5 + a6;
        lemma_appended(first, fixes, renames);
        lemma_appended(first, fixes + renames, a7);
        lemma_appended(first, fixes + renames + a7, a8);
        lemma_appended(first, fixes + renames + a7 + a8, a9);
        lemma_appended(first, fixes + renames + a7 + a8 + a9, a10);
    }
}

/// The code actions for a range of a document: fixes for the reported
/// diagnostics, fixes for what stands under the cursor, and the fixes that are
/// offered for whole scopes, among them the renames of deprecated block types.
pub fn code_action(state: &StateStore, uri: &DocUri, params: &CodeActionParams) -> (r: Option<
    Vec<CodeAction>,
>)
    ensures
        opt_actions(r) == code_action_answer(*state, *uri, *params),
{
    let doc = match find_doc(state, uri) {
        Some(d) => d,
        None => {
            return None;
        },
    };
    let mut actions: Vec<CodeAction> = Vec::new();
    push_instance_actions(state, uri, doc, params, &mut actions);
    let ghost first = actions_view(actions@);
    let selection = if range_is_empty(&params.range) {
        None
    } else {
        Some(params.range)
    };
    push_bulk_actions(state, uri, selection, params, &mut actions);
    assert(actions_view(actions@).len() == actions@.len());
    if actions.len() == 0 {
        None
    } else {
        Some(actions)
    }
}

/// Below the diagnostics' own fixes no two actions for the cursor have one
/// title.
pub proof fn cursor_actions_have_new_titles(v: Seq<CodeActionV>, a: CodeActionV)
    ensures
        with_new(v, Some(a)) == v || !has_title(v, a.title),
        has_title(with_new(v, Some(a)), a.title),
{
    if !has_title(v, a.title) {
        assert(v.push(a)[v.len() as int].title == a.title);
    }
}

} // verus!
