//! What completion offers of types, attributes, inputs, outputs and addresses.

use crate::builtin::Language;
use crate::completion::{completion_answer, CompletionContext, CompletionParams};
use crate::completion_cursor::FilterV;
use crate::completion_item::{lemma_sorted_contains, sorted_items, ItemV, SortBy};
use crate::completion_schema::{body_schema, known_types, schema_name, type_items, types_of};
use crate::completion_symbols::{
    address_items, address_of, all_item, attr_ref_item, attr_refs, block_ref_item, child_dir,
    doc_addresses, doc_inputs, doc_outputs, input_item, input_items, module_address, output_item,
    unique_items,
};
use crate::laws::common::{is_doc, lemma_doc};
use crate::laws::completion::{is_request, of_module, offers_label};
use crate::laws::hover::{
    data_schema_at, is_named, lemma_data_schema, lemma_named, lemma_resource_schema,
    resource_schema_at,
};
use crate::laws::modules::{first_target, lemma_first_target};
use crate::order::name_set_contains;
use crate::schema::{BlockSchema, ResourceSchema, SchemaEntry};
use crate::seqs::{
    each, filter_map, flat_map, lemma_each_contains, lemma_filter_map_contains,
    lemma_flat_map_contains, lemma_plus_contains,
};
use crate::state::{DocUri, DocumentState, ResourceSymbol, StateStore, Symbol, SymbolTable};
use crate::text::opt_view;
use vstd::prelude::*;

verus! {

/// A table has an entry for a name.
pub open spec fn has_entry<T>(m: Seq<(String, T)>, name: Seq<char>) -> bool {
    exists|i: int| 0 <= i < m.len() && (#[trigger] m[i]).0@ == name
}

/// A list of items has one with the label.
pub open spec fn has_label(v: Seq<ItemV>, label: Seq<char>) -> bool {
    exists|i: int| 0 <= i < v.len() && (#[trigger] v[i]).label == label
}

pub proof fn lemma_has_label(v: Seq<ItemV>, label: Seq<char>)
    ensures
        has_label(v, label) ==> exists|x: ItemV| #[trigger] v.contains(x) && x.label == label,
        forall|x: ItemV| #[trigger] v.contains(x) ==> has_label(v, x.label),
{
    if has_label(v, label) {
        let i = choose|i: int| 0 <= i < v.len() && (#[trigger] v[i]).label == label;
        assert(v.contains(v[i]));
    }
    assert forall|x: ItemV| #[trigger] v.contains(x) implies has_label(v, x.label) by {
        let i = choose|i: int| 0 <= i < v.len() && v[i] == x;
        assert(v[i].label == x.label);
    }
}

/// Ordering a list keeps its labels.
pub proof fn lemma_sorted_labels(by: SortBy, v: Seq<ItemV>, label: Seq<char>)
    ensures
        has_label(sorted_items(by, v), label) <==> has_label(v, label),
{
    let s = sorted_items(by, v);
    lemma_has_label(v, label);
    lemma_has_label(s, label);
    if has_label(v, label) {
        let x = choose|x: ItemV| #[trigger] v.contains(x) && x.label == label;
        lemma_sorted_contains(by, v, x);
    }
    if has_label(s, label) {
        let x = choose|x: ItemV| #[trigger] s.contains(x) && x.label == label;
        lemma_sorted_contains(by, v, x);
    }
}

/// Leaving out repeated labels keeps the labels.
proof fn lemma_unique_labels(v: Seq<ItemV>, label: Seq<char>)
    ensures
        has_label(unique_items(v), label) <==> has_label(v, label),
    decreases v.len(),
{
    if v.len() > 0 {
        let rest = unique_items(v.drop_last());
        let all = unique_items(v);
        lemma_unique_labels(v.drop_last(), label);
        lemma_unique_labels(v.drop_last(), v.last().label);
        if has_label(v, label) {
            let i = choose|i: int| 0 <= i < v.len() && (#[trigger] v[i]).label == label;
            if i < v.len() - 1 {
                assert(v.drop_last()[i].label == label);
                let j = choose|j: int| 0 <= j < rest.len() && (#[trigger] rest[j]).label == label;
                assert(all[j].label == label);
            } else if !has_label(rest, label) {
                assert(all[all.len() - 1].label == label);
            } else {
                let j = choose|j: int| 0 <= j < rest.len() && (#[trigger] rest[j]).label == label;
                assert(all[j].label == label);
            }
        }
        if has_label(all, label) {
            let i = choose|i: int| 0 <= i < all.len() && (#[trigger] all[i]).label == label;
            if i < rest.len() {
                assert(rest[i].label == label);
                let j = choose|j: int|
                    0 <= j < v.len() - 1 && (#[trigger] v.drop_last()[j]).label == label;
                assert(v[j].label == label);
            } else {
                assert(v[v.len() - 1].label == label);
            }
        }
    }
}

/// The schemas of resources, or of data sources, of a provider.
pub open spec fn table_of(e: SchemaEntry, data: bool) -> Seq<(String, ResourceSchema)> {
    if data {
        e.schema.data_source_schemas@
    } else {
        e.schema.resource_schemas@
    }
}

proof fn lemma_known_types(schemas: Seq<SchemaEntry>, data: bool, name: Seq<char>)
    ensures
        known_types(schemas, data).contains(name) <==> exists|p: int|
            0 <= p < schemas.len() && has_entry(table_of(#[trigger] schemas[p], data), name),
{
    let f = types_of(data);
    name_set_contains(flat_map(schemas, f), name);
    lemma_flat_map_contains(schemas, f, name);
    if flat_map(schemas, f).contains(name) {
        let p = choose|p: int| 0 <= p < schemas.len() && (#[trigger] f(schemas[p])).contains(name);
        let m = table_of(schemas[p], data);
        lemma_each_contains(m, schema_name(), name);
        let i = choose|i: int| 0 <= i < m.len() && schema_name()(#[trigger] m[i]) == name;
        assert(m[i].0@ == name);
        assert(has_entry(table_of(schemas[p], data), name));
    }
    if exists|p: int|
        0 <= p < schemas.len() && has_entry(table_of(#[trigger] schemas[p], data), name) {
        let p = choose|p: int|
            0 <= p < schemas.len() && has_entry(table_of(#[trigger] schemas[p], data), name);
        let m = table_of(schemas[p], data);
        let i = choose|i: int| 0 <= i < m.len() && (#[trigger] m[i]).0@ == name;
        lemma_each_contains(m, schema_name(), name);
        assert(schema_name()(m[i]) == name);
        assert(f(schemas[p]).contains(name));
    }
}

proof fn lemma_type_items(schemas: Seq<SchemaEntry>, data: bool, bare: bool, label: Seq<char>)
    ensures
        has_label(type_items(schemas, data, bare), label) <==> known_types(schemas, data).contains(
            label,
        ),
{
    let names = known_types(schemas, data);
    let v = type_items(schemas, data, bare);
    if names.contains(label) {
        let i = choose|i: int| 0 <= i < names.len() && names[i] == label;
        assert(v[i].label == label);
    }
    if has_label(v, label) {
        let i = choose|i: int| 0 <= i < v.len() && (#[trigger] v[i]).label == label;
        assert(names[i] == label);
    }
}

/// As the type of a resource exactly those types are offered for which some
/// provider has a schema of resources.
pub proof fn resource_types_are_offered(
    state: StateStore,
    lang: Language,
    params: CompletionParams,
    k: int,
    label: Seq<char>,
)
    requires
        is_request(state, params, k),
        params.context is ResourceType,
    ensures
        offers_label(completion_answer(state, lang, params), label) <==> exists|p: int|
            0 <= p < state.schemas@.len() && has_entry(
                (#[trigger] state.schemas@[p]).schema.resource_schemas@,
                label,
            ),
{
    lemma_doc(state, params.uri, k);
    lemma_known_types(state.schemas@, false, label);
    lemma_type_items(state.schemas@, false, false, label);
    lemma_type_items(state.schemas@, false, true, label);
}

/// As the type of a data source exactly those types are offered for which some
/// provider has a schema of data sources.
pub proof fn data_source_types_are_offered(
    state: StateStore,
    lang: Language,
    params: CompletionParams,
    k: int,
    label: Seq<char>,
)
    requires
        is_request(state, params, k),
        params.context is DataSourceType,
    ensures
        offers_label(completion_answer(state, lang, params), label) <==> exists|p: int|
            0 <= p < state.schemas@.len() && has_entry(
                (#[trigger] state.schemas@[p]).schema.data_source_schemas@,
                label,
            ),
{
    lemma_doc(state, params.uri, k);
    lemma_known_types(state.schemas@, true, label);
    lemma_type_items(state.schemas@, true, false, label);
    lemma_type_items(state.schemas@, true, true, label);
}

/// What a schema lets one read: its attributes, and its nested blocks but for
/// `timeouts` and `lifecycle`.
pub open spec fn readable(b: BlockSchema, name: Seq<char>) -> bool {
    has_entry(b.attributes@, name) || (name != "timeouts"@ && name != "lifecycle"@ && has_entry(
        b.block_types@,
        name,
    ))
}

proof fn lemma_attr_refs(state: StateStore, ty: Seq<char>, data: bool, label: Seq<char>)
    requires
        body_schema(state.schemas@, ty, data) is Some,
    ensures
        has_label(attr_refs(state, ty, data), label) <==> readable(
            body_schema(state.schemas@, ty, data)->0.block,
            label,
        ),
{
    let b = body_schema(state.schemas@, ty, data)->0.block;
    let u = each(b.attributes@, attr_ref_item());
    let w = filter_map(b.block_types@, block_ref_item());
    lemma_sorted_labels(SortBy::Label, u + w, label);
    lemma_has_label(u + w, label);
    if has_label(u + w, label) {
        let x = choose|x: ItemV| #[trigger] (u + w).contains(x) && x.label == label;
        lemma_plus_contains(u, w, x);
        if u.contains(x) {
            let i = choose|i: int| 0 <= i < u.len() && u[i] == x;
            assert(b.attributes@[i].0@ == label);
        } else {
            lemma_filter_map_contains(b.block_types@, block_ref_item(), x);
            let i = choose|i: int|
                0 <= i < b.block_types@.len() && block_ref_item()(#[trigger] b.block_types@[i])
                    == Some(x);
            assert(b.block_types@[i].0@ == label);
        }
    }
    if has_entry(b.attributes@, label) {
        let i = choose|i: int|
            0 <= i < b.attributes@.len() && (#[trigger] b.attributes@[i]).0@ == label;
        assert((u + w)[i] == u[i]);
        assert(u[i].label == label);
        assert((u + w)[i].label == label);
    }
    if label != "timeouts"@ && label != "lifecycle"@ && has_entry(b.block_types@, label) {
        let i = choose|i: int|
            0 <= i < b.block_types@.len() && (#[trigger] b.block_types@[i]).0@ == label;
        let x = block_ref_item()(b.block_types@[i])->0;
        lemma_filter_map_contains(b.block_types@, block_ref_item(), x);
        assert(w.contains(x));
        lemma_plus_contains(u, w, x);
    }
}

/// Behind the name of a resource exactly what the schema of its type lets one
/// read is offered; behind `self.` the same of the enclosing resource.
pub proof fn attributes_of_resources_are_offered(
    state: StateStore,
    lang: Language,
    params: CompletionParams,
    k: int,
    ty: Seq<char>,
    p: int,
    r: int,
    label: Seq<char>,
)
    requires
        is_request(state, params, k),
        match params.context {
            CompletionContext::ResourceAttr { resource_type } => resource_type@ == ty,
            CompletionContext::SelfRef { resource_type } => resource_type@ == ty,
            _ => false,
        },
        resource_schema_at(state.schemas@, ty, p, r),
    ensures
        offers_label(completion_answer(state, lang, params), label) <==> readable(
            state.schemas@[p].schema.resource_schemas@[r].1.block,
            label,
        ),
{
    lemma_doc(state, params.uri, k);
    lemma_resource_schema(state.schemas@, ty, p, r);
    lemma_attr_refs(state, ty, false, label);
}

/// Behind the name of a data source exactly what the schema of its type lets
/// one read is offered.
pub proof fn attributes_of_data_sources_are_offered(
    state: StateStore,
    lang: Language,
    params: CompletionParams,
    k: int,
    ty: Seq<char>,
    p: int,
    r: int,
    label: Seq<char>,
)
    requires
        is_request(state, params, k),
        params.context matches CompletionContext::DataSourceAttr { resource_type }
            && resource_type@ == ty,
        data_schema_at(state.schemas@, ty, p, r),
    ensures
        offers_label(completion_answer(state, lang, params), label) <==> readable(
            state.schemas@[p].schema.data_source_schemas@[r].1.block,
            label,
        ),
{
    lemma_doc(state, params.uri, k);
    lemma_data_schema(state.schemas@, ty, p, r);
    lemma_attr_refs(state, ty, true, label);
}

/// In `ignore_changes` what can be read of the resource is offered, and the
/// keyword `all`.
pub proof fn attributes_can_be_ignored(
    state: StateStore,
    lang: Language,
    params: CompletionParams,
    k: int,
    ty: Seq<char>,
    p: int,
    r: int,
    label: Seq<char>,
)
    requires
        is_request(state, params, k),
        params.context matches CompletionContext::IgnoreChangesList { resource_type }
            && resource_type@ == ty,
        resource_schema_at(state.schemas@, ty, p, r),
    ensures
        offers_label(completion_answer(state, lang, params), label) <==> label == "all"@
            || readable(state.schemas@[p].schema.resource_schemas@[r].1.block, label),
{
    lemma_doc(state, params.uri, k);
    lemma_resource_schema(state.schemas@, ty, p, r);
    lemma_attr_refs(state, ty, false, label);
    let rest = attr_refs(state, ty, false);
    let all = seq![all_item()] + rest;
    assert(all[0].label == "all"@);
    if has_label(rest, label) {
        let i = choose|i: int| 0 <= i < rest.len() && (#[trigger] rest[i]).label == label;
        assert(all[i + 1].label == label);
    }
    if has_label(all, label) {
        let i = choose|i: int| 0 <= i < all.len() && (#[trigger] all[i]).label == label;
        if i > 0 {
            assert(rest[i - 1].label == label);
        }
    }
}

/// A resource of the module has the address.
pub open spec fn addressed(
    docs: Seq<DocumentState>,
    dir: Option<String>,
    table: spec_fn(SymbolTable) -> Seq<ResourceSymbol>,
    lead: Seq<char>,
    a: Seq<char>,
) -> bool {
    exists|d: int, i: int|
        #![trigger table(docs[d].symbols)[i]]
        0 <= d < docs.len() && of_module(docs[d], dir) && 0 <= i < table(docs[d].symbols).len()
            && a == lead + table(docs[d].symbols)[i].resource_type@ + "."@ + table(
            docs[d].symbols,
        )[i].name@
}

pub open spec fn addressed_module(
    docs: Seq<DocumentState>,
    dir: Option<String>,
    a: Seq<char>,
) -> bool {
    exists|d: int, i: int|
        #![trigger docs[d].symbols.modules@[i]]
        0 <= d < docs.len() && of_module(docs[d], dir) && 0 <= i < docs[d].symbols.modules@.len()
            && a == "module."@ + docs[d].symbols.modules@[i].name@
}

/// In `depends_on` exactly the addresses of the resources, the data sources and
/// the module calls of the module are offered.
pub proof fn addresses_are_offered(
    state: StateStore,
    lang: Language,
    params: CompletionParams,
    k: int,
    label: Seq<char>,
)
    requires
        is_request(state, params, k),
        params.context is DependsOnList,
    ensures
        offers_label(completion_answer(state, lang, params), label) <==> {
            ||| addressed(
                state.documents@,
                params.uri.dir,
                |t: SymbolTable| t.resources@,
                ""@,
                label,
            )
            ||| addressed(
                state.documents@,
                params.uri.dir,
                |t: SymbolTable| t.data_sources@,
                "data."@,
                label,
            )
            ||| addressed_module(state.documents@, params.uri.dir, label)
        },
{
    lemma_doc(state, params.uri, k);
    let docs = state.documents@;
    let dir = params.uri.dir;
    let f = doc_addresses(opt_view(dir));
    let names = crate::order::name_set(flat_map(docs, f));
    let v = address_items(docs, opt_view(dir));
    name_set_contains(flat_map(docs, f), label);
    lemma_flat_map_contains(docs, f, label);
    if names.contains(label) {
        let i = choose|i: int| 0 <= i < names.len() && names[i] == label;
        assert(v[i].label == label);
        let d = choose|d: int| 0 <= d < docs.len() && (#[trigger] f(docs[d])).contains(label);
        let t = docs[d].symbols;
        let a = each(t.resources@, address_of(""@));
        let b = each(t.data_sources@, address_of("data."@));
        let c = each(t.modules@, module_address());
        lemma_plus_contains(a, b, label);
        lemma_plus_contains(a + b, c, label);
        lemma_each_contains(t.resources@, address_of(""@), label);
        lemma_each_contains(t.data_sources@, address_of("data."@), label);
        lemma_each_contains(t.modules@, module_address(), label);
        if a.contains(label) {
            let i = choose|i: int|
                0 <= i < t.resources@.len() && address_of(""@)(#[trigger] t.resources@[i]) == label;
            assert((|t: SymbolTable| t.resources@)(docs[d].symbols)[i] == t.resources@[i]);
        } else if b.contains(label) {
            let i = choose|i: int|
                0 <= i < t.data_sources@.len() && address_of("data."@)(
                    #[trigger] t.data_sources@[i],
                ) == label;
            assert((|t: SymbolTable| t.data_sources@)(docs[d].symbols)[i] == t.data_sources@[i]);
        } else {
            let i = choose|i: int|
                0 <= i < t.modules@.len() && module_address()(#[trigger] t.modules@[i]) == label;
            assert(docs[d].symbols.modules@[i] == t.modules@[i]);
        }
    }
    if has_label(v, label) {
        let i = choose|i: int| 0 <= i < v.len() && (#[trigger] v[i]).label == label;
        assert(names[i] == label);
    }
    let tr = |t: SymbolTable| t.resources@;
    if addressed(docs, dir, tr, ""@, label) {
        let (d, i) = choose|d: int, i: int|
            #![trigger tr(docs[d].symbols)[i]]
            0 <= d < docs.len() && of_module(docs[d], dir) && 0 <= i < tr(docs[d].symbols).len()
                && label == ""@ + tr(docs[d].symbols)[i].resource_type@ + "."@ + tr(
                docs[d].symbols,
            )[i].name@;
        lemma_address(docs[d], dir, label, i, 0);
        assert(f(docs[d]).contains(label));
    }
    let td = |t: SymbolTable| t.data_sources@;
    if addressed(docs, dir, td, "data."@, label) {
        let (d, i) = choose|d: int, i: int|
            #![trigger td(docs[d].symbols)[i]]
            0 <= d < docs.len() && of_module(docs[d], dir) && 0 <= i < td(docs[d].symbols).len()
                && label == "data."@ + td(docs[d].symbols)[i].resource_type@ + "."@ + td(
                docs[d].symbols,
            )[i].name@;
        lemma_address(docs[d], dir, label, i, 1);
        assert(f(docs[d]).contains(label));
    }
    if addressed_module(docs, dir, label) {
        let (d, i) = choose|d: int, i: int|
            #![trigger docs[d].symbols.modules@[i]]
            0 <= d < docs.len() && of_module(docs[d], dir) && 0 <= i
                < docs[d].symbols.modules@.len() && label == "module."@
                + docs[d].symbols.modules@[i].name@;
        lemma_address(docs[d], dir, label, i, 2);
        assert(f(docs[d]).contains(label));
    }
}

proof fn lemma_address(d: DocumentState, dir: Option<String>, label: Seq<char>, i: int, which: int)
    requires
        of_module(d, dir),
        which == 0 ==> 0 <= i < d.symbols.resources@.len() && label == address_of(""@)(
            d.symbols.resources@[i],
        ),
        which == 1 ==> 0 <= i < d.symbols.data_sources@.len() && label == address_of("data."@)(
            d.symbols.data_sources@[i],
        ),
        which == 2 ==> 0 <= i < d.symbols.modules@.len() && label == module_address()(
            d.symbols.modules@[i],
        ),
        0 <= which <= 2,
    ensures
        doc_addresses(opt_view(dir))(d).contains(label),
{
    let t = d.symbols;
    let a = each(t.resources@, address_of(""@));
    let b = each(t.data_sources@, address_of("data."@));
    let c = each(t.modules@, module_address());
    lemma_plus_contains(a, b, label);
    lemma_plus_contains(a + b, c, label);
    lemma_each_contains(t.resources@, address_of(""@), label);
    lemma_each_contains(t.data_sources@, address_of("data."@), label);
    lemma_each_contains(t.modules@, module_address(), label);
}

/// The call of a module in a document leads to a directory: by the source that
/// the document records for it.
pub open spec fn call_leads(
    state: StateStore,
    uri: DocUri,
    k: int,
    name: Seq<char>,
    s: int,
    m: int,
) -> bool {
    &&& is_doc(state, uri.text@, k)
    &&& uri.dir is Some
    &&& is_named(state.documents@[k].symbols.module_sources@, name, s)
    &&& first_target(
        state.module_dirs@,
        uri.dir->0@,
        name,
        state.documents@[k].symbols.module_sources@[s].1@,
        m,
    )
}

proof fn lemma_child(state: StateStore, uri: DocUri, k: int, name: Seq<char>, s: int, m: int)
    requires
        call_leads(state, uri, k, name, s, m),
    ensures
        child_dir(state, uri, name) == Some(state.module_dirs@[m].child@),
{
    lemma_doc(state, uri, k);
    lemma_named(state.documents@[k].symbols.module_sources@, name, s);
    lemma_first_target(
        state.module_dirs@,
        uri.dir->0@,
        name,
        state.documents@[k].symbols.module_sources@[s].1@,
        m,
    );
}

/// A document of a directory has a symbol of the name in its table.
pub open spec fn declared_there(
    docs: Seq<DocumentState>,
    dir: Seq<char>,
    table: spec_fn(SymbolTable) -> Seq<Symbol>,
    name: Seq<char>,
) -> bool {
    exists|d: int, i: int|
        #![trigger table(docs[d].symbols)[i]]
        0 <= d < docs.len() && docs[d].uri.dir is Some && docs[d].uri.dir->0@ == dir && 0 <= i
            < table(docs[d].symbols).len() && table(docs[d].symbols)[i].name@ == name
}

/// Behind `module.NAME.` exactly the outputs are offered that the called module
/// declares.
pub proof fn outputs_are_offered(
    state: StateStore,
    lang: Language,
    params: CompletionParams,
    k: int,
    s: int,
    m: int,
    name: Seq<char>,
    label: Seq<char>,
)
    requires
        is_request(state, params, k),
        params.context matches CompletionContext::ModuleAttr { module_name } && module_name@
            == name,
        call_leads(state, params.uri, k, name, s, m),
    ensures
        offers_label(completion_answer(state, lang, params), label) <==> declared_there(
            state.documents@,
            state.module_dirs@[m].child@,
            |t: SymbolTable| t.outputs@,
            label,
        ),
{
    lemma_doc(state, params.uri, k);
    lemma_child(state, params.uri, k, name, s, m);
    let dir = state.module_dirs@[m].child@;
    let docs = state.documents@;
    let f = doc_outputs(dir);
    let all = flat_map(docs, f);
    lemma_sorted_labels(SortBy::Label, unique_items(all), label);
    lemma_unique_labels(all, label);
    lemma_has_label(all, label);
    let table = |t: SymbolTable| t.outputs@;
    if has_label(all, label) {
        let x = choose|x: ItemV| #[trigger] all.contains(x) && x.label == label;
        lemma_flat_map_contains(docs, f, x);
        let d = choose|d: int| 0 <= d < docs.len() && (#[trigger] f(docs[d])).contains(x);
        let own = each(docs[d].symbols.outputs@, output_item());
        let i = choose|i: int| 0 <= i < own.len() && own[i] == x;
        assert(table(docs[d].symbols)[i].name@ == label);
    }
    if declared_there(docs, dir, table, label) {
        let (d, i) = choose|d: int, i: int|
            #![trigger table(docs[d].symbols)[i]]
            0 <= d < docs.len() && docs[d].uri.dir is Some && docs[d].uri.dir->0@ == dir && 0 <= i
                < table(docs[d].symbols).len() && table(docs[d].symbols)[i].name@ == label;
        let x = output_item()(docs[d].symbols.outputs@[i]);
        let own = each(docs[d].symbols.outputs@, output_item());
        assert(own[i] == x);
        lemma_flat_map_contains(docs, f, x);
        assert(f(docs[d]).contains(x));
    }
}

/// In the call of a module exactly those of its inputs are offered that the
/// called module declares and that the call does not set.
pub proof fn unset_inputs_are_offered(
    state: StateStore,
    uri: DocUri,
    k: int,
    s: int,
    m: int,
    name: Seq<char>,
    filter: FilterV,
    label: Seq<char>,
)
    requires
        call_leads(state, uri, k, name, s, m),
    ensures
        has_label(input_items(state, uri, name, filter), label) <==> !filter.attrs.contains(label)
            && declared_there(
            state.documents@,
            state.module_dirs@[m].child@,
            |t: SymbolTable| t.variables@,
            label,
        ),
{
    lemma_child(state, uri, k, name, s, m);
    let dir = state.module_dirs@[m].child@;
    let docs = state.documents@;
    let f = doc_inputs(dir, filter);
    let all = flat_map(docs, f);
    lemma_sorted_labels(SortBy::Label, unique_items(all), label);
    lemma_unique_labels(all, label);
    lemma_has_label(all, label);
    let table = |t: SymbolTable| t.variables@;
    if has_label(all, label) {
        let x = choose|x: ItemV| #[trigger] all.contains(x) && x.label == label;
        lemma_flat_map_contains(docs, f, x);
        let d = choose|d: int| 0 <= d < docs.len() && (#[trigger] f(docs[d])).contains(x);
        let vars = docs[d].symbols.variables@;
        let g = input_item(docs[d].symbols, filter);
        lemma_filter_map_contains(vars, g, x);
        let i = choose|i: int| 0 <= i < vars.len() && g(#[trigger] vars[i]) == Some(x);
        assert(table(docs[d].symbols)[i].name@ == label);
    }
    if !filter.attrs.contains(label) && declared_there(docs, dir, table, label) {
        let (d, i) = choose|d: int, i: int|
            #![trigger table(docs[d].symbols)[i]]
            0 <= d < docs.len() && docs[d].uri.dir is Some && docs[d].uri.dir->0@ == dir && 0 <= i
                < table(docs[d].symbols).len() && table(docs[d].symbols)[i].name@ == label;
        let vars = docs[d].symbols.variables@;
        let g = input_item(docs[d].symbols, filter);
        let x = g(vars[i])->0;
        lemma_filter_map_contains(vars, g, x);
        assert(g(vars[i]) == Some(x));
        lemma_flat_map_contains(docs, f, x);
        assert(f(docs[d]).contains(x));
    }
}

} // verus!
