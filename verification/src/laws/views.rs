//! What the folds, the lenses, the links and the changes of a document show.

use crate::code_lens::{code_lens_answer, lens_of, lenses, resource_lens, symbol_lens, LensV};
use crate::document::{
    block_token, plan_of, reference_token, resource_token, shared_tokens, symbol_token,
    ApplyOutcome,
};
use crate::document_link::{block_link, document_links, provider_with, url_parsed, LinkV};
use crate::folding::{
    clamp_line, covered, document_folds, expr_fold, first_folds, fold_of, folds, folds_upto,
    last_content, same_lines, FoldingRange,
};
use crate::hcl::{blocks_named, expr_list, Body, Expression, Structure};
use crate::laws::common::{is_doc, is_entry, lemma_doc, lemma_no_places, lemma_places};
use crate::laws::hover::{data_schema_at, lemma_lacks, lemma_named, resource_schema_at};
use crate::position::{rope_text, span_range, Range, Span};
use crate::seqs::{
    each, filter_map, flat_map, lemma_filter_map_contains, lemma_find_map_at,
    lemma_flat_map_contains, lemma_plus_contains,
};
use crate::state::{DocUri, DocumentState, StateStore, SymbolKind};
use crate::text::decimal;
use vstd::prelude::*;

verus! {

// ---------------------------------------------------------------------
// Folds

/// A span covers several lines of the document.
pub open spec fn folds_as(t: Seq<char>, span: Option<Span>, f: FoldingRange) -> bool {
    &&& span is Some
    &&& span_range(t, span->0) matches Some(r) && r.start.line == f.start_line && r.start.character
        == f.start_character && f.end_line == last_content(
        t,
        r.start.line,
        clamp_line(t, r.end.line),
    ) && f.end_line > f.start_line
}

/// Lists, objects, templates, parentheses, calls, conditionals and `for`
/// expressions fold.
pub open spec fn foldable(e: Expression) -> bool {
    e.kind is Array || e.kind is Object || e.kind is HeredocTemplate || e.kind is StringTemplate
        || e.kind is Parenthesis || e.kind is FuncCall || e.kind is Conditional || e.kind is ForExpr
}

proof fn lemma_fold(t: Seq<char>, span: Option<Span>, f: FoldingRange)
    ensures
        fold_of(t, span).contains(f) <==> folds_as(t, span, f),
{
    if folds_as(t, span, f) {
        assert(fold_of(t, span)[0] == f);
    }
}

/// Each block of a body folds, and what it holds folds too; each container in an
/// attribute's value does.
pub proof fn blocks_and_containers_fold(body: Body, t: Seq<char>, n: int, k: int, f: FoldingRange)
    requires
        0 <= k < n <= body.structures@.len(),
        match body.structures@[k] {
            Structure::Block(b) => folds_as(t, b.span, f) || folds(b.body, t).contains(f),
            Structure::Attribute(a) => exists|i: int|
                0 <= i < expr_list(a.value).len() && foldable(#[trigger] expr_list(a.value)[i])
                    && folds_as(t, expr_list(a.value)[i].span, f),
        },
    ensures
        folds_upto(body, t, n).contains(f),
        n == body.structures@.len() ==> folds(body, t).contains(f),
    decreases n,
{
    let before = folds_upto(body, t, n - 1);
    let own = match body.structures@[n - 1] {
        Structure::Attribute(a) => flat_map(expr_list(a.value), expr_fold(t)),
        Structure::Block(b) => fold_of(t, b.span) + folds(b.body, t),
    };
    lemma_plus_contains(before, own, f);
    if k < n - 1 {
        blocks_and_containers_fold(body, t, n - 1, k, f);
    } else {
        match body.structures@[k] {
            Structure::Block(b) => {
                lemma_fold(t, b.span, f);
                lemma_plus_contains(fold_of(t, b.span), folds(b.body, t), f);
            },
            Structure::Attribute(a) => {
                let s = expr_list(a.value);
                let i = choose|i: int|
                    0 <= i < s.len() && foldable(#[trigger] s[i]) && folds_as(t, s[i].span, f);
                lemma_fold(t, s[i].span, f);
                lemma_flat_map_contains(s, expr_fold(t), f);
                assert(expr_fold(t)(s[i]).contains(f));
            },
        }
    }
}

/// Nothing else folds.
pub proof fn only_blocks_and_containers_fold(body: Body, t: Seq<char>, n: int, f: FoldingRange)
    requires
        0 <= n <= body.structures@.len(),
        folds_upto(body, t, n).contains(f),
    ensures
        exists|k: int| #[trigger] folds_at(body, t, f, k),
    decreases n,
{
    if n > 0 {
        let before = folds_upto(body, t, n - 1);
        let own = match body.structures@[n - 1] {
            Structure::Attribute(a) => flat_map(expr_list(a.value), expr_fold(t)),
            Structure::Block(b) => fold_of(t, b.span) + folds(b.body, t),
        };
        lemma_plus_contains(before, own, f);
        if before.contains(f) {
            only_blocks_and_containers_fold(body, t, n - 1, f);
        } else {
            match body.structures@[n - 1] {
                Structure::Block(b) => {
                    lemma_fold(t, b.span, f);
                    lemma_plus_contains(fold_of(t, b.span), folds(b.body, t), f);
                },
                Structure::Attribute(a) => {
                    let s = expr_list(a.value);
                    lemma_flat_map_contains(s, expr_fold(t), f);
                    let i = choose|i: int|
                        0 <= i < s.len() && (#[trigger] expr_fold(t)(s[i])).contains(f);
                    lemma_fold(t, s[i].span, f);
                    assert(foldable(expr_list(a.value)[i]));
                },
            }
            assert(folds_at(body, t, f, n - 1));
        }
    }
}

pub open spec fn folds_at(body: Body, t: Seq<char>, f: FoldingRange, k: int) -> bool {
    0 <= k < body.structures@.len() && match body.structures@[k] {
        Structure::Block(b) => folds_as(t, b.span, f) || folds(b.body, t).contains(f),
        Structure::Attribute(a) => exists|i: int|
            0 <= i < expr_list(a.value).len() && foldable(#[trigger] expr_list(a.value)[i])
                && folds_as(t, expr_list(a.value)[i].span, f),
    }
}

/// A fold ends on the last line with content: all lines of the span behind it are
/// blank, and it is not blank itself unless it is the first.
pub proof fn folds_leave_out_blank_lines(t: Seq<char>, start: u32, e: u32, l: u32)
    requires
        start <= e,
    ensures
        start <= last_content(t, start, e) <= e,
        last_content(t, start, e) < l <= e ==> crate::folding::is_blank(
            crate::folding::line_text(t, l as nat),
        ),
        last_content(t, start, e) > start ==> !crate::folding::is_blank(
            crate::folding::line_text(t, last_content(t, start, e) as nat),
        ),
    decreases e,
{
    if e > start && crate::folding::is_blank(crate::folding::line_text(t, e as nat)) {
        folds_leave_out_blank_lines(t, start, (e - 1) as u32, l);
    }
}

/// A document's answer has a fold for the lines of each fold of its body, and
/// only such folds.
pub proof fn folds_of_the_body_are_answered(
    state: StateStore,
    uri: DocUri,
    k: int,
    f: FoldingRange,
)
    requires
        is_doc(state, uri.text@, k),
        state.documents@[k].body is Some,
    ensures
        folds(state.documents@[k].body->0, rope_text(state.documents@[k].rope)).contains(f) ==> (
        document_folds(state, uri) matches Some(v) && exists|i: int|
            0 <= i < v.len() && (#[trigger] v[i]).start_line == f.start_line && v[i].end_line
                == f.end_line),
        (document_folds(state, uri) matches Some(v) && v.contains(f)) ==> folds(
            state.documents@[k].body->0,
            rope_text(state.documents@[k].rope),
        ).contains(f),
{
    lemma_doc(state, uri, k);
    let s = folds(state.documents@[k].body->0, rope_text(state.documents@[k].rope));
    lemma_first_folds(s, f);
    if s.contains(f) {
        let v = first_folds(s);
        let i = choose|i: int| 0 <= i < v.len() && same_lines(#[trigger] v[i], f);
        let answer = document_folds(state, uri);
        assert(answer->0 == v);
        assert(answer->0[i].start_line == f.start_line && answer->0[i].end_line == f.end_line);
    }
}

proof fn lemma_first_folds(s: Seq<FoldingRange>, f: FoldingRange)
    ensures
        s.contains(f) ==> covered(first_folds(s), f),
        first_folds(s).contains(f) ==> s.contains(f),
    decreases s.len(),
{
    if s.len() > 0 {
        let rest = first_folds(s.drop_last());
        lemma_first_folds(s.drop_last(), f);
        if s.contains(f) {
            let i = choose|i: int| 0 <= i < s.len() && s[i] == f;
            if i < s.len() - 1 {
                assert(s.drop_last()[i] == f);
                let j = choose|j: int| 0 <= j < rest.len() && same_lines(#[trigger] rest[j], f);
                assert(same_lines(first_folds(s)[j], f));
            } else if !covered(rest, f) {
                assert(same_lines(first_folds(s)[rest.len() as int], f));
            }
        }
        if first_folds(s).contains(f) {
            let j = choose|j: int| 0 <= j < first_folds(s).len() && first_folds(s)[j] == f;
            if j < rest.len() {
                assert(rest.contains(f));
                let i = choose|i: int| 0 <= i < s.drop_last().len() && s.drop_last()[i] == f;
                assert(s[i] == f);
            } else {
                assert(s[s.len() - 1] == f);
            }
        }
    }
}

// ---------------------------------------------------------------------
// Lenses

/// How many references there are, in words.
pub open spec fn counted(n: nat) -> Seq<char> {
    decimal(n) + if n == 1 {
        " reference"@
    } else {
        " references"@
    }
}

proof fn lemma_counted(n: nat)
    ensures
        crate::code_lens::count_label(n) == counted(n),
{
    reveal_strlit("1 reference");
    reveal_strlit(" reference");
    if n == 1 {
        assert(decimal(1) =~= seq!['1']);
        assert("1 reference"@ =~= decimal(1) + " reference"@);
    }
}

proof fn lemma_lens(doc: DocumentState, state: StateStore, x: LensV)
    ensures
        lenses(doc, state).contains(x) <==> {
            ||| each(doc.symbols.variables@, symbol_lens(state, SymbolKind::Variable)).contains(x)
            ||| each(doc.symbols.locals@, symbol_lens(state, SymbolKind::Local)).contains(x)
            ||| each(doc.symbols.outputs@, symbol_lens(state, SymbolKind::Output)).contains(x)
            ||| each(doc.symbols.modules@, symbol_lens(state, SymbolKind::Module)).contains(x)
            ||| each(
                doc.symbols.resources@,
                resource_lens(state, SymbolKind::Resource),
            ).contains(x)
            ||| each(
                doc.symbols.data_sources@,
                resource_lens(state, SymbolKind::DataSource),
            ).contains(x)
        },
{
    let a = each(doc.symbols.variables@, symbol_lens(state, SymbolKind::Variable));
    let b = each(doc.symbols.locals@, symbol_lens(state, SymbolKind::Local));
    let c = each(doc.symbols.outputs@, symbol_lens(state, SymbolKind::Output));
    let d = each(doc.symbols.modules@, symbol_lens(state, SymbolKind::Module));
    let e = each(doc.symbols.resources@, resource_lens(state, SymbolKind::Resource));
    let f = each(doc.symbols.data_sources@, resource_lens(state, SymbolKind::DataSource));
    lemma_plus_contains(a, b, x);
    lemma_plus_contains(a + b, c, x);
    lemma_plus_contains(a + b + c, d, x);
    lemma_plus_contains(a + b + c + d, e, x);
    lemma_plus_contains(a + b + c + d + e, f, x);
}

/// A symbol of a document, with its kind and its type where it has one.
pub open spec fn is_symbol(
    doc: DocumentState,
    kind: SymbolKind,
    ty: Option<Seq<char>>,
    name: Seq<char>,
    range: Range,
    i: int,
) -> bool {
    let s = doc.symbols;
    match kind {
        SymbolKind::Variable => ty is None && 0 <= i < s.variables@.len() && s.variables@[i].name@
            == name && s.variables@[i].location.range == range,
        SymbolKind::Local => ty is None && 0 <= i < s.locals@.len() && s.locals@[i].name@ == name
            && s.locals@[i].location.range == range,
        SymbolKind::Output => ty is None && 0 <= i < s.outputs@.len() && s.outputs@[i].name@
            == name && s.outputs@[i].location.range == range,
        SymbolKind::Module => ty is None && 0 <= i < s.modules@.len() && s.modules@[i].name@
            == name && s.modules@[i].location.range == range,
        SymbolKind::Resource => 0 <= i < s.resources@.len() && ty == Some(
            s.resources@[i].resource_type@,
        ) && s.resources@[i].name@ == name && s.resources@[i].location.range == range,
        SymbolKind::DataSource => 0 <= i < s.data_sources@.len() && ty == Some(
            s.data_sources@[i].resource_type@,
        ) && s.data_sources@[i].name@ == name && s.data_sources@[i].location.range == range,
        _ => false,
    }
}

/// Above each definition of a document stands how often the index knows it
/// referred to.
pub proof fn definitions_show_their_references(
    state: StateStore,
    uri: DocUri,
    k: int,
    kind: SymbolKind,
    ty: Option<Seq<char>>,
    name: Seq<char>,
    range: Range,
    i: int,
    e: int,
)
    requires
        is_doc(state, uri.text@, k),
        is_symbol(state.documents@[k], kind, ty, name, range, i),
        is_entry(state.references_by_name@, kind, ty, name, e),
    ensures
        code_lens_answer(state, uri) matches Some(v) && v.contains(
            LensV {
                range,
                title: counted(state.references_by_name@[e].locations@.len()),
                command: "editor.action.showReferences"@,
            },
        ),
{
    lemma_doc(state, uri, k);
    lemma_places(state.references_by_name@, kind, ty, name, e);
    lemma_counted(state.references_by_name@[e].locations@.len());
    lemma_lens_at(state, state.documents@[k], kind, ty, name, range, i);
}

/// A definition that the index does not know shows no references.
pub proof fn unused_definitions_show_no_references(
    state: StateStore,
    uri: DocUri,
    k: int,
    kind: SymbolKind,
    ty: Option<Seq<char>>,
    name: Seq<char>,
    range: Range,
    i: int,
)
    requires
        is_doc(state, uri.text@, k),
        is_symbol(state.documents@[k], kind, ty, name, range, i),
        forall|j: int|
            0 <= j < state.references_by_name@.len() ==> !crate::laws::common::keyed(
                #[trigger] state.references_by_name@[j],
                kind,
                ty,
                name,
            ),
    ensures
        code_lens_answer(state, uri) matches Some(v) && v.contains(
            LensV { range, title: counted(0), command: "editor.action.showReferences"@ },
        ),
{
    lemma_doc(state, uri, k);
    lemma_no_places(state.references_by_name@, kind, ty, name);
    lemma_counted(0);
    lemma_lens_at(state, state.documents@[k], kind, ty, name, range, i);
}

proof fn lemma_lens_at(
    state: StateStore,
    doc: DocumentState,
    kind: SymbolKind,
    ty: Option<Seq<char>>,
    name: Seq<char>,
    range: Range,
    i: int,
)
    requires
        is_symbol(doc, kind, ty, name, range, i),
    ensures
        lenses(doc, state).contains(
            lens_of(state, range, crate::state::KeyV { kind, resource_type: ty, name }),
        ),
{
    let x = lens_of(state, range, crate::state::KeyV { kind, resource_type: ty, name });
    let s = doc.symbols;
    lemma_lens(doc, state, x);
    match kind {
        SymbolKind::Variable => {
            assert(each(s.variables@, symbol_lens(state, kind))[i] == x);
        },
        SymbolKind::Local => {
            assert(each(s.locals@, symbol_lens(state, kind))[i] == x);
        },
        SymbolKind::Output => {
            assert(each(s.outputs@, symbol_lens(state, kind))[i] == x);
        },
        SymbolKind::Module => {
            assert(each(s.modules@, symbol_lens(state, kind))[i] == x);
        },
        SymbolKind::Resource => {
            assert(each(s.resources@, resource_lens(state, kind))[i] == x);
        },
        SymbolKind::DataSource => {
            assert(each(s.data_sources@, resource_lens(state, kind))[i] == x);
        },
        _ => {},
    }
}

// ---------------------------------------------------------------------
// Links

/// The address of a documentation page of the public registry.
pub open spec fn page(namespace: Seq<char>, provider: Seq<char>, kind: Seq<char>, ty: Seq<char>) -> Seq<
    char,
> {
    "https://registry.terraform.io/providers/"@ + namespace + "/"@ + provider + "/latest/docs/"@
        + kind + "/"@ + ty
}

/// The block of a resource links to the page of its type at the provider that
/// has it.
pub proof fn resources_link_to_their_page(
    state: StateStore,
    uri: DocUri,
    k: int,
    i: int,
    p: int,
    r: int,
    target: Seq<char>,
)
    requires
        is_doc(state, uri.text@, k),
        0 <= i < state.documents@[k].symbols.resources@.len(),
        resource_schema_at(
            state.schemas@,
            state.documents@[k].symbols.resources@[i].resource_type@,
            p,
            r,
        ),
        state.schemas@[p].address.hostname@ == "registry.terraform.io"@,
        url_parsed(
            page(
                state.schemas@[p].address.namespace@,
                state.schemas@[p].address.ty@,
                "resources"@,
                state.documents@[k].symbols.resources@[i].resource_type@,
            ),
        ) == Some(target),
    ensures
        document_links(state, uri) matches Some(v) && exists|x: LinkV| #[trigger]
            v.contains(x) && x.range == state.documents@[k].symbols.resources@[i].location.range
                && x.target == target,
{
    lemma_doc(state, uri, k);
    let doc = state.documents@[k];
    let s = doc.symbols.resources@;
    let ty = s[i].resource_type@;
    let f = provider_with(ty, false);
    lemma_named(state.schemas@[p].schema.resource_schemas@, ty, r);
    assert forall|j: int| 0 <= j < p implies f(#[trigger] state.schemas@[j]) is None by {
        lemma_lacks(state.schemas@[j].schema.resource_schemas@, ty);
    }
    lemma_find_map_at(state.schemas@, f, p);
    let g = block_link(state.schemas@, false);
    let x = g(s[i])->0;
    lemma_filter_map_contains(s, g, x);
    assert(g(s[i]) == Some(x));
    let a = filter_map(s, g);
    let b = filter_map(doc.symbols.data_sources@, block_link(state.schemas@, true));
    lemma_plus_contains(a, b, x);
    assert((a + b).contains(x));
    let answer = document_links(state, uri);
    assert(answer->0 == a + b);
    assert(answer->0.contains(x));
}

/// The block of a data source links to the page of its type at the provider that
/// has it.
pub proof fn data_sources_link_to_their_page(
    state: StateStore,
    uri: DocUri,
    k: int,
    i: int,
    p: int,
    r: int,
    target: Seq<char>,
)
    requires
        is_doc(state, uri.text@, k),
        0 <= i < state.documents@[k].symbols.data_sources@.len(),
        data_schema_at(
            state.schemas@,
            state.documents@[k].symbols.data_sources@[i].resource_type@,
            p,
            r,
        ),
        state.schemas@[p].address.hostname@ == "registry.terraform.io"@,
        url_parsed(
            page(
                state.schemas@[p].address.namespace@,
                state.schemas@[p].address.ty@,
                "data-sources"@,
                state.documents@[k].symbols.data_sources@[i].resource_type@,
            ),
        ) == Some(target),
    ensures
        document_links(state, uri) matches Some(v) && exists|x: LinkV| #[trigger]
            v.contains(x) && x.range == state.documents@[k].symbols.data_sources@[i].location.range
                && x.target == target,
{
    lemma_doc(state, uri, k);
    let doc = state.documents@[k];
    let s = doc.symbols.data_sources@;
    let ty = s[i].resource_type@;
    let f = provider_with(ty, true);
    lemma_named(state.schemas@[p].schema.data_source_schemas@, ty, r);
    assert forall|j: int| 0 <= j < p implies f(#[trigger] state.schemas@[j]) is None by {
        lemma_lacks(state.schemas@[j].schema.data_source_schemas@, ty);
    }
    lemma_find_map_at(state.schemas@, f, p);
    let g = block_link(state.schemas@, true);
    let x = g(s[i])->0;
    lemma_filter_map_contains(s, g, x);
    assert(g(s[i]) == Some(x));
    let a = filter_map(doc.symbols.resources@, block_link(state.schemas@, false));
    let b = filter_map(s, g);
    lemma_plus_contains(a, b, x);
    assert((a + b).contains(x));
    let answer = document_links(state, uri);
    assert(answer->0 == a + b);
    assert(answer->0.contains(x));
}

// ---------------------------------------------------------------------
// Changes

/// A document declares a name in the table of its kind.
pub open spec fn declares(doc: DocumentState, kind: SymbolKind, name: Seq<char>) -> bool {
    let s = doc.symbols;
    match kind {
        SymbolKind::Variable => exists|i: int|
            0 <= i < s.variables@.len() && (#[trigger] s.variables@[i]).name@ == name,
        SymbolKind::Local => exists|i: int|
            0 <= i < s.locals@.len() && (#[trigger] s.locals@[i]).name@ == name,
        SymbolKind::Output => exists|i: int|
            0 <= i < s.outputs@.len() && (#[trigger] s.outputs@[i]).name@ == name,
        SymbolKind::Module => exists|i: int|
            0 <= i < s.modules@.len() && (#[trigger] s.modules@[i]).name@ == name,
        _ => false,
    }
}

pub open spec fn token_for(kind: SymbolKind, name: Seq<char>) -> Seq<char> {
    match kind {
        SymbolKind::Variable => "v:"@ + name,
        SymbolKind::Local => "l:"@ + name,
        SymbolKind::Output => "o:"@ + name,
        _ => "m:"@ + name,
    }
}

proof fn lemma_token(doc: DocumentState, kind: SymbolKind, name: Seq<char>)
    requires
        kind == SymbolKind::Variable || kind == SymbolKind::Local || kind == SymbolKind::Output
            || kind == SymbolKind::Module,
    ensures
        shared_tokens(doc).contains(token_for(kind, name)) <==> declares(doc, kind, name),
{
    let s = doc.symbols;
    let x = token_for(kind, name);
    let a = each(s.variables@, symbol_token("v:"@));
    let b = each(s.locals@, symbol_token("l:"@));
    let c = each(s.outputs@, symbol_token("o:"@));
    let d = each(s.modules@, symbol_token("m:"@));
    let e = each(s.resources@, resource_token("r:"@));
    let f = each(s.data_sources@, resource_token("d:"@));
    let g = each(doc.references@, reference_token());
    let h = match doc.body {
        Some(body) => filter_map(
            blocks_named(body, "terraform"@),
            block_token(rope_text(doc.rope)),
        ),
        None => Seq::empty(),
    };
    lemma_plus_contains(a, b, x);
    lemma_plus_contains(a + b, c, x);
    lemma_plus_contains(a + b + c, d, x);
    lemma_plus_contains(a + b + c + d, e, x);
    lemma_plus_contains(a + b + c + d + e, f, x);
    lemma_plus_contains(a + b + c + d + e + f, g, x);
    lemma_plus_contains(a + b + c + d + e + f + g, h, x);
    reveal_strlit("v:");
    reveal_strlit("l:");
    reveal_strlit("o:");
    reveal_strlit("m:");
    reveal_strlit("r:");
    reveal_strlit("d:");
    reveal_strlit("tf:");
    reveal_strlit("ref:var.");
    reveal_strlit("ref:local.");
    reveal_strlit("ref:module.");
    reveal_strlit("ref:data.");
    reveal_strlit("ref:");
    let first = x[0];
    assert(x.skip(2) =~= name);
    assert forall|i: int| 0 <= i < a.len() implies (#[trigger] a[i])[0] == 'v' && a[i].skip(2)
        == s.variables@[i].name@ by {
        assert(a[i].skip(2) =~= s.variables@[i].name@);
    }
    assert forall|i: int| 0 <= i < b.len() implies (#[trigger] b[i])[0] == 'l' && b[i].skip(2)
        == s.locals@[i].name@ by {
        assert(b[i].skip(2) =~= s.locals@[i].name@);
    }
    assert forall|i: int| 0 <= i < c.len() implies (#[trigger] c[i])[0] == 'o' && c[i].skip(2)
        == s.outputs@[i].name@ by {
        assert(c[i].skip(2) =~= s.outputs@[i].name@);
    }
    assert forall|i: int| 0 <= i < d.len() implies (#[trigger] d[i])[0] == 'm' && d[i].skip(2)
        == s.modules@[i].name@ by {
        assert(d[i].skip(2) =~= s.modules@[i].name@);
    }
    assert forall|i: int| 0 <= i < e.len() implies (#[trigger] e[i])[0] == 'r' by {}
    assert forall|i: int| 0 <= i < f.len() implies (#[trigger] f[i])[0] == 'd' by {}
    assert forall|i: int| 0 <= i < g.len() implies (#[trigger] g[i])[0] == 'r' by {}
    assert forall|i: int| 0 <= i < h.len() implies (#[trigger] h[i])[0] == 't' by {
        let body = doc.body->0;
        let bs = blocks_named(body, "terraform"@);
        let q = block_token(rope_text(doc.rope));
        lemma_filter_map_contains(bs, q, h[i]);
        assert(h.contains(h[i]));
        let n = choose|n: int| 0 <= n < bs.len() && q(#[trigger] bs[n]) == Some(h[i]);
        assert(q(bs[n]) is Some);
    }
    if declares(doc, kind, name) {
        match kind {
            SymbolKind::Variable => {
                let i = choose|i: int|
                    0 <= i < s.variables@.len() && (#[trigger] s.variables@[i]).name@ == name;
                assert(a[i] == x);
            },
            SymbolKind::Local => {
                let i = choose|i: int|
                    0 <= i < s.locals@.len() && (#[trigger] s.locals@[i]).name@ == name;
                assert(b[i] == x);
            },
            SymbolKind::Output => {
                let i = choose|i: int|
                    0 <= i < s.outputs@.len() && (#[trigger] s.outputs@[i]).name@ == name;
                assert(c[i] == x);
            },
            _ => {
                let i = choose|i: int|
                    0 <= i < s.modules@.len() && (#[trigger] s.modules@[i]).name@ == name;
                assert(d[i] == x);
            },
        }
    }
}

/// A document declares a resource, or a data source, of an address.
pub open spec fn declares_address(doc: DocumentState, data: bool, address: Seq<char>) -> bool {
    if data {
        exists|i: int|
            0 <= i < doc.symbols.data_sources@.len() && (
            #[trigger] doc.symbols.data_sources@[i]).resource_type@ + "."@
                + doc.symbols.data_sources@[i].name@ == address
    } else {
        exists|i: int|
            0 <= i < doc.symbols.resources@.len() && (
            #[trigger] doc.symbols.resources@[i]).resource_type@ + "."@
                + doc.symbols.resources@[i].name@ == address
    }
}

proof fn lemma_address_token(doc: DocumentState, data: bool, address: Seq<char>)
    ensures
        shared_tokens(doc).contains(
            (if data {
                "d:"@
            } else {
                "r:"@
            }) + address,
        ) <==> declares_address(doc, data, address),
{
    let s = doc.symbols;
    let x = (if data {
        "d:"@
    } else {
        "r:"@
    }) + address;
    let a = each(s.variables@, symbol_token("v:"@));
    let b = each(s.locals@, symbol_token("l:"@));
    let c = each(s.outputs@, symbol_token("o:"@));
    let d = each(s.modules@, symbol_token("m:"@));
    let e = each(s.resources@, resource_token("r:"@));
    let f = each(s.data_sources@, resource_token("d:"@));
    let g = each(doc.references@, reference_token());
    let h = match doc.body {
        Some(body) => filter_map(
            blocks_named(body, "terraform"@),
            block_token(rope_text(doc.rope)),
        ),
        None => Seq::empty(),
    };
    lemma_plus_contains(a, b, x);
    lemma_plus_contains(a + b, c, x);
    lemma_plus_contains(a + b + c, d, x);
    lemma_plus_contains(a + b + c + d, e, x);
    lemma_plus_contains(a + b + c + d + e, f, x);
    lemma_plus_contains(a + b + c + d + e + f, g, x);
    lemma_plus_contains(a + b + c + d + e + f + g, h, x);
    reveal_strlit("v:");
    reveal_strlit("l:");
    reveal_strlit("o:");
    reveal_strlit("m:");
    reveal_strlit("r:");
    reveal_strlit("d:");
    reveal_strlit("tf:");
    reveal_strlit("ref:var.");
    reveal_strlit("ref:local.");
    reveal_strlit("ref:module.");
    reveal_strlit("ref:data.");
    reveal_strlit("ref:");
    assert(x.skip(2) =~= address);
    assert forall|i: int| 0 <= i < a.len() implies (#[trigger] a[i])[0] == 'v' by {}
    assert forall|i: int| 0 <= i < b.len() implies (#[trigger] b[i])[0] == 'l' by {}
    assert forall|i: int| 0 <= i < c.len() implies (#[trigger] c[i])[0] == 'o' by {}
    assert forall|i: int| 0 <= i < d.len() implies (#[trigger] d[i])[0] == 'm' by {}
    assert forall|i: int| 0 <= i < e.len() implies (#[trigger] e[i])[0] == 'r' && e[i][1] == ':'
        && e[i].skip(2) == s.resources@[i].resource_type@ + "."@ + s.resources@[i].name@ by {
        assert(e[i].skip(2) =~= s.resources@[i].resource_type@ + "."@ + s.resources@[i].name@);
    }
    assert forall|i: int| 0 <= i < f.len() implies (#[trigger] f[i])[0] == 'd' && f[i].skip(2)
        == s.data_sources@[i].resource_type@ + "."@ + s.data_sources@[i].name@ by {
        assert(f[i].skip(2) =~= s.data_sources@[i].resource_type@ + "."@
            + s.data_sources@[i].name@);
    }
    assert forall|i: int| 0 <= i < g.len() implies (#[trigger] g[i])[0] == 'r' && g[i][1]
        == 'e' by {}
    assert forall|i: int| 0 <= i < h.len() implies (#[trigger] h[i])[0] == 't' by {
        let body = doc.body->0;
        let bs = blocks_named(body, "terraform"@);
        let q = block_token(rope_text(doc.rope));
        lemma_filter_map_contains(bs, q, h[i]);
        assert(h.contains(h[i]));
        let n = choose|n: int| 0 <= n < bs.len() && q(#[trigger] bs[n]) == Some(h[i]);
        assert(q(bs[n]) is Some);
    }
    if declares_address(doc, data, address) {
        if data {
            let i = choose|i: int|
                0 <= i < s.data_sources@.len() && (
                #[trigger] s.data_sources@[i]).resource_type@ + "."@ + s.data_sources@[i].name@
                    == address;
            assert(f[i] =~= x);
        } else {
            let i = choose|i: int|
                0 <= i < s.resources@.len() && (#[trigger] s.resources@[i]).resource_type@ + "."@
                    + s.resources@[i].name@ == address;
            assert(e[i] =~= x);
        }
    }
}

/// Nor are resources and data sources mixed up: documents with the same tokens
/// declare the same addresses of each.
pub proof fn tokens_tell_the_addresses(
    a: DocumentState,
    b: DocumentState,
    data: bool,
    address: Seq<char>,
)
    requires
        shared_tokens(a).to_multiset() == shared_tokens(b).to_multiset(),
    ensures
        declares_address(a, data, address) <==> declares_address(b, data, address),
{
    lemma_address_token(a, data, address);
    lemma_address_token(b, data, address);
    let x = (if data {
        "d:"@
    } else {
        "r:"@
    }) + address;
    shared_tokens(a).to_multiset_ensures();
    shared_tokens(b).to_multiset_ensures();
    assert(shared_tokens(a).contains(x) <==> shared_tokens(a).to_multiset().count(x) > 0);
    assert(shared_tokens(b).contains(x) <==> shared_tokens(b).to_multiset().count(x) > 0);
}

/// Documents with the same tokens declare the same variables, locals, outputs and
/// modules: the tokens tell the kinds and the names apart.
pub proof fn tokens_tell_the_declarations(
    a: DocumentState,
    b: DocumentState,
    kind: SymbolKind,
    name: Seq<char>,
)
    requires
        shared_tokens(a).to_multiset() == shared_tokens(b).to_multiset(),
        kind == SymbolKind::Variable || kind == SymbolKind::Local || kind == SymbolKind::Output
            || kind == SymbolKind::Module,
    ensures
        declares(a, kind, name) <==> declares(b, kind, name),
{
    lemma_token(a, kind, name);
    lemma_token(b, kind, name);
    let x = token_for(kind, name);
    shared_tokens(a).to_multiset_ensures();
    shared_tokens(b).to_multiset_ensures();
    assert(shared_tokens(a).contains(x) <==> shared_tokens(a).to_multiset().count(x) > 0);
    assert(shared_tokens(b).contains(x) <==> shared_tokens(b).to_multiset().count(x) > 0);
}

/// An applied change that is still the newest publishes the findings of its
/// version; the peers are refreshed unless both fingerprints are known and equal.
/// A change that was not applied leads to nothing but, where it failed, a log
/// entry.
pub proof fn changes_lead_to_findings(
    outcome: ApplyOutcome,
    before: Option<u64>,
    after: Option<u64>,
    current: Option<i32>,
)
    ensures
        ({
            let p = plan_of(outcome, before, after, current);
            match outcome {
                ApplyOutcome::Applied(v) => {
                    &&& p.log_error is None
                    &&& p.publish_own == p.prefetch
                    &&& p.publish_own is Some <==> (current is None || current == Some(v))
                    &&& p.publish_own is Some ==> p.publish_own == Some(v)
                    &&& p.publish_peers <==> !(before is Some && before == after)
                },
                _ => p.publish_own is None && p.prefetch is None && !p.publish_peers && (
                p.log_error is Some <==> outcome is Failed) && (
                outcome matches ApplyOutcome::Failed(e) ==> p.log_error == Some(
                    "edit apply failed: "@ + e@,
                )),
            }
        }),
{
}

/// The text of each `terraform` block is among the tokens: a change of a
/// constraint is a change for the other documents.
pub proof fn terraform_blocks_are_shared(doc: DocumentState, b: crate::hcl::Block, s: Span)
    requires
        doc.body is Some,
        crate::laws::modules::has_block(doc.body->0, b),
        b.ident.text@ == "terraform"@,
        b.span == Some(s),
        s.start <= s.end,
        s.end <= crate::position::utf8_len(rope_text(doc.rope)),
    ensures
        shared_tokens(doc).contains(
            "tf:"@ + crate::position::text_between(
                rope_text(doc.rope),
                s.start as int,
                s.end as int,
            ),
        ),
{
    let body = doc.body->0;
    let t = rope_text(doc.rope);
    let x = "tf:"@ + crate::position::text_between(t, s.start as int, s.end as int);
    let bs = blocks_named(body, "terraform"@);
    let q = block_token(t);
    crate::laws::modules::lemma_blocks_named(body, "terraform"@, b);
    let n = choose|n: int| 0 <= n < bs.len() && bs[n] == b;
    lemma_filter_map_contains(bs, q, x);
    assert(q(bs[n]) == Some(x));
    let h = filter_map(bs, q);
    let all = shared_tokens(doc);
    let k = choose|k: int| 0 <= k < h.len() && h[k] == x;
    assert(all[all.len() - h.len() + k] == x);
}

} // verus!
