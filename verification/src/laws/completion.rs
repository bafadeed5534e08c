//! What completion offers where a name is referred to.

use crate::builtin::Language;
use crate::completion::{completion_answer, CompletionParams};
use crate::completion_item::{lemma_sorted_contains, ItemKind, ItemV, SortBy};
use crate::completion_symbols::{
    declared_names, doc_names, doc_resource_names, field_symbols, name_if_type, name_item,
    name_items, resource_names, resource_symbols, symbol_name, SymbolField,
};
use crate::laws::common::{is_doc, lemma_doc};
use crate::order::name_set_contains;
use crate::position::{position_offset, rope_text};
use crate::seqs::{
    each, flat_map, lemma_each_contains, lemma_filter_map_contains, lemma_flat_map_contains,
};
use crate::state::{DocumentState, ResourceSymbol, StateStore, Symbol, SymbolTable};
use crate::text::{ends_with, opt_view};
use vstd::prelude::*;

verus! {

/// A request at a known place of a known document, which is neither a file of
/// variable values nor a test file, and which no single character triggered.
pub open spec fn is_request(state: StateStore, params: CompletionParams, k: int) -> bool {
    &&& is_doc(state, params.uri.text@, k)
    &&& position_offset(rope_text(state.documents@[k].rope), params.position) is Some
    &&& params.trigger_character is None
    &&& !params.test_file
    &&& !ends_with(params.uri.path@, ".tfvars"@)
    &&& !ends_with(params.uri.path@, ".tfvars.json"@)
}

/// An answer has an item with the label and the kind.
pub open spec fn offers(answer: Option<Seq<ItemV>>, label: Seq<char>, kind: ItemKind) -> bool {
    answer matches Some(v) && exists|i: int|
        0 <= i < v.len() && (#[trigger] v[i]).label == label && v[i].kind == Some(kind)
}

/// An answer has an item with the label.
pub open spec fn offers_label(answer: Option<Seq<ItemV>>, label: Seq<char>) -> bool {
    answer matches Some(v) && exists|i: int| 0 <= i < v.len() && (#[trigger] v[i]).label == label
}

/// The document belongs to the module in a directory; to any where there is no
/// directory to go by.
pub open spec fn of_module(d: DocumentState, dir: Option<String>) -> bool {
    dir matches Some(x) ==> d.uri.dir is Some && d.uri.dir->0@ == x@
}

/// A document of the module has a symbol of the name in its table.
pub open spec fn declared(
    docs: Seq<DocumentState>,
    dir: Option<String>,
    table: spec_fn(SymbolTable) -> Seq<Symbol>,
    name: Seq<char>,
) -> bool {
    exists|d: int, i: int|
        #![trigger table(docs[d].symbols)[i]]
        0 <= d < docs.len() && of_module(docs[d], dir) && 0 <= i < table(docs[d].symbols).len()
            && table(docs[d].symbols)[i].name@ == name
}

pub open spec fn declared_resource(
    docs: Seq<DocumentState>,
    dir: Option<String>,
    table: spec_fn(SymbolTable) -> Seq<ResourceSymbol>,
    ty: Seq<char>,
    name: Seq<char>,
) -> bool {
    exists|d: int, i: int|
        #![trigger table(docs[d].symbols)[i]]
        0 <= d < docs.len() && of_module(docs[d], dir) && 0 <= i < table(docs[d].symbols).len()
            && table(docs[d].symbols)[i].name@ == name && table(
            docs[d].symbols,
        )[i].resource_type@ == ty
}

pub proof fn lemma_declared(
    docs: Seq<DocumentState>,
    dir: Option<String>,
    field: SymbolField,
    table: spec_fn(SymbolTable) -> Seq<Symbol>,
    name: Seq<char>,
)
    requires
        forall|t: SymbolTable| #[trigger] table(t) == field_symbols(t, field),
    ensures
        declared_names(docs, opt_view(dir), field).contains(name) <==> declared(
            docs,
            dir,
            table,
            name,
        ),
{
    let f = doc_names(opt_view(dir), field);
    name_set_contains(flat_map(docs, f), name);
    lemma_flat_map_contains(docs, f, name);
    if flat_map(docs, f).contains(name) {
        let d = choose|d: int| 0 <= d < docs.len() && (#[trigger] f(docs[d])).contains(name);
        lemma_each_contains(field_symbols(docs[d].symbols, field), symbol_name(), name);
        let s = field_symbols(docs[d].symbols, field);
        let i = choose|i: int| 0 <= i < s.len() && symbol_name()(#[trigger] s[i]) == name;
        assert(table(docs[d].symbols)[i].name@ == name);
    }
    if declared(docs, dir, table, name) {
        let (d, i) = choose|d: int, i: int|
            #![trigger table(docs[d].symbols)[i]]
            0 <= d < docs.len() && of_module(docs[d], dir) && 0 <= i < table(
                docs[d].symbols,
            ).len() && table(docs[d].symbols)[i].name@ == name;
        let s = field_symbols(docs[d].symbols, field);
        lemma_each_contains(s, symbol_name(), name);
        assert(symbol_name()(s[i]) == name);
        assert(f(docs[d]).contains(name));
    }
}

pub proof fn lemma_declared_resource(
    docs: Seq<DocumentState>,
    dir: Option<String>,
    data: bool,
    table: spec_fn(SymbolTable) -> Seq<ResourceSymbol>,
    ty: Seq<char>,
    name: Seq<char>,
)
    requires
        forall|t: SymbolTable| #[trigger] table(t) == resource_symbols(t, data),
    ensures
        resource_names(docs, opt_view(dir), ty, data).contains(name) <==> declared_resource(
            docs,
            dir,
            table,
            ty,
            name,
        ),
{
    let f = doc_resource_names(opt_view(dir), ty, data);
    name_set_contains(flat_map(docs, f), name);
    lemma_flat_map_contains(docs, f, name);
    if flat_map(docs, f).contains(name) {
        let d = choose|d: int| 0 <= d < docs.len() && (#[trigger] f(docs[d])).contains(name);
        let s = resource_symbols(docs[d].symbols, data);
        lemma_filter_map_contains(s, name_if_type(ty), name);
        let i = choose|i: int| 0 <= i < s.len() && name_if_type(ty)(#[trigger] s[i]) == Some(name);
        assert(table(docs[d].symbols)[i].name@ == name);
    }
    if declared_resource(docs, dir, table, ty, name) {
        let (d, i) = choose|d: int, i: int|
            #![trigger table(docs[d].symbols)[i]]
            0 <= d < docs.len() && of_module(docs[d], dir) && 0 <= i < table(
                docs[d].symbols,
            ).len() && table(docs[d].symbols)[i].name@ == name && table(
                docs[d].symbols,
            )[i].resource_type@ == ty;
        let s = resource_symbols(docs[d].symbols, data);
        lemma_filter_map_contains(s, name_if_type(ty), name);
        assert(name_if_type(ty)(s[i]) == Some(name));
        assert(f(docs[d]).contains(name));
    }
}

proof fn lemma_name_items(names: Seq<Seq<char>>, kind: ItemKind, label: Seq<char>)
    ensures
        offers(Some(name_items(names, kind)), label, kind) <==> names.contains(label),
        offers_label(Some(name_items(names, kind)), label) <==> names.contains(label),
        names.contains(label) ==> name_items(names, kind).len() > 0,
{
    let v = name_items(names, kind);
    let u = each(names, name_item(kind));
    if names.contains(label) {
        let x = name_item(kind)(label);
        let i = choose|i: int| 0 <= i < names.len() && names[i] == label;
        assert(u[i] == x);
        lemma_sorted_contains(SortBy::Label, u, x);
        let k = choose|k: int| 0 <= k < v.len() && v[k] == x;
        assert(v[k].label == label && v[k].kind == Some(kind));
    }
    if exists|i: int| 0 <= i < v.len() && (#[trigger] v[i]).label == label {
        let k = choose|k: int| 0 <= k < v.len() && (#[trigger] v[k]).label == label;
        lemma_sorted_contains(SortBy::Label, u, v[k]);
        let i = choose|i: int| 0 <= i < u.len() && u[i] == v[k];
        assert(names[i] == label);
    }
}

/// Behind `var.` exactly the variables are offered that a document of the
/// module declares.
pub proof fn variables_are_offered(
    state: StateStore,
    lang: Language,
    params: CompletionParams,
    k: int,
    label: Seq<char>,
)
    requires
        is_request(state, params, k),
        params.context is VariableRef,
    ensures
        offers(completion_answer(state, lang, params), label, ItemKind::Variable) <==> declared(
            state.documents@,
            params.uri.dir,
            |t: SymbolTable| t.variables@,
            label,
        ),
        offers_label(completion_answer(state, lang, params), label) <==> offers(
            completion_answer(state, lang, params),
            label,
            ItemKind::Variable,
        ),
{
    lemma_doc(state, params.uri, k);
    let names = declared_names(state.documents@, opt_view(params.uri.dir), SymbolField::Variables);
    lemma_name_items(names, ItemKind::Variable, label);
    lemma_declared(
        state.documents@,
        params.uri.dir,
        SymbolField::Variables,
        |t: SymbolTable| t.variables@,
        label,
    );
}

/// Behind `local.` exactly the local values are offered that a document of the
/// module declares.
pub proof fn locals_are_offered(
    state: StateStore,
    lang: Language,
    params: CompletionParams,
    k: int,
    label: Seq<char>,
)
    requires
        is_request(state, params, k),
        params.context is LocalRef,
    ensures
        offers(completion_answer(state, lang, params), label, ItemKind::Variable) <==> declared(
            state.documents@,
            params.uri.dir,
            |t: SymbolTable| t.locals@,
            label,
        ),
        offers_label(completion_answer(state, lang, params), label) <==> offers(
            completion_answer(state, lang, params),
            label,
            ItemKind::Variable,
        ),
{
    lemma_doc(state, params.uri, k);
    let names = declared_names(state.documents@, opt_view(params.uri.dir), SymbolField::Locals);
    lemma_name_items(names, ItemKind::Variable, label);
    lemma_declared(
        state.documents@,
        params.uri.dir,
        SymbolField::Locals,
        |t: SymbolTable| t.locals@,
        label,
    );
}

/// Behind `module.` exactly the module calls are offered that a document of the
/// module has.
pub proof fn modules_are_offered(
    state: StateStore,
    lang: Language,
    params: CompletionParams,
    k: int,
    label: Seq<char>,
)
    requires
        is_request(state, params, k),
        params.context is ModuleRef,
    ensures
        offers(completion_answer(state, lang, params), label, ItemKind::Module) <==> declared(
            state.documents@,
            params.uri.dir,
            |t: SymbolTable| t.modules@,
            label,
        ),
        offers_label(completion_answer(state, lang, params), label) <==> offers(
            completion_answer(state, lang, params),
            label,
            ItemKind::Module,
        ),
{
    lemma_doc(state, params.uri, k);
    let names = declared_names(state.documents@, opt_view(params.uri.dir), SymbolField::Modules);
    lemma_name_items(names, ItemKind::Module, label);
    lemma_declared(
        state.documents@,
        params.uri.dir,
        SymbolField::Modules,
        |t: SymbolTable| t.modules@,
        label,
    );
}

/// Behind the type of a resource exactly the resources of that type are offered
/// that a document of the module declares.
pub proof fn resources_are_offered(
    state: StateStore,
    lang: Language,
    params: CompletionParams,
    k: int,
    label: Seq<char>,
)
    requires
        is_request(state, params, k),
        params.context is ResourceRef,
    ensures
        offers_label(completion_answer(state, lang, params), label) <==> declared_resource(
            state.documents@,
            params.uri.dir,
            |t: SymbolTable| t.resources@,
            params.context->ResourceRef_resource_type@,
            label,
        ),
{
    lemma_doc(state, params.uri, k);
    let ty = params.context->ResourceRef_resource_type@;
    let names = resource_names(state.documents@, opt_view(params.uri.dir), ty, false);
    lemma_name_items(names, ItemKind::Field, label);
    lemma_declared_resource(
        state.documents@,
        params.uri.dir,
        false,
        |t: SymbolTable| t.resources@,
        ty,
        label,
    );
}

/// Behind `data.` and a type exactly the data sources of that type are offered
/// that a document of the module declares.
pub proof fn data_sources_are_offered(
    state: StateStore,
    lang: Language,
    params: CompletionParams,
    k: int,
    label: Seq<char>,
)
    requires
        is_request(state, params, k),
        params.context is DataSourceRef,
    ensures
        offers_label(completion_answer(state, lang, params), label) <==> declared_resource(
            state.documents@,
            params.uri.dir,
            |t: SymbolTable| t.data_sources@,
            params.context->DataSourceRef_resource_type@,
            label,
        ),
{
    lemma_doc(state, params.uri, k);
    let ty = params.context->DataSourceRef_resource_type@;
    let names = resource_names(state.documents@, opt_view(params.uri.dir), ty, true);
    lemma_name_items(names, ItemKind::Field, label);
    lemma_declared_resource(
        state.documents@,
        params.uri.dir,
        true,
        |t: SymbolTable| t.data_sources@,
        ty,
        label,
    );
}

} // verus!
