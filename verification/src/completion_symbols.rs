//! Completion of declared names: variables, locals, modules, resources and the
//! inputs and outputs of called modules.

use crate::actions::copy_opt;
use crate::completion_body::no_items;
use crate::completion_cursor::{BodyFilter, FilterV};
use crate::completion_item::{
    append_items, insert_item, items_view, plain_item, push_item, sort_items, sorted_items,
    CompletionItem, InsertFormat, ItemKind, ItemV, SortBy,
};
use crate::completion_schema::{
    assignment, attribute_detail, body_schema, detail_of, find_body_schema, variable_insert_text,
    variable_kind,
};
use crate::completion_sources::with_new;
use crate::navigation::{module_target, resolve_module_source};
use crate::order::{name_set, sort_dedup_names};
use crate::schema::{find_entry, lookup, AttributeSchema, NestedBlockSchema};
use crate::seqs::{
    each, filter_map, find_map, flat_map, lemma_filter_map_step, lemma_flat_map_step,
    lemma_take_full,
};
use crate::state::{
    find_doc, in_dir, is_in_dir, primary_doc, DocUri, DocumentState, ResourceSymbol, StateStore,
    Symbol, SymbolTable,
};
use crate::text::{concat2, concat3, opt_view, str_eq, texts};
use vstd::prelude::*;

verus! {

/// A table of named symbols.
#[derive(Debug, Clone, Copy, PartialEq, Eq, Structural)]
pub enum SymbolField {
    Variables,
    Locals,
    Modules,
    Outputs,
}

/// The document lies in the directory; in any where there is no directory to
/// go by.
pub open spec fn doc_within(d: DocumentState, dir: Option<Seq<char>>) -> bool {
    match dir {
        Some(x) => in_dir(d, x),
        None => true,
    }
}

pub open spec fn opt_dir(d: Option<&str>) -> Option<Seq<char>> {
    match d {
        Some(d) => Some(d@),
        None => None,
    }
}

pub fn doc_in_dir(doc: &DocumentState, dir: Option<&str>) -> (r: bool)
    ensures
        r == doc_within(*doc, opt_dir(dir)),
{
    match dir {
        Some(d) => is_in_dir(doc, d),
        None => true,
    }
}

/// The directory of a document.
pub fn parent_dir(uri: &DocUri) -> (r: Option<&str>)
    ensures
        opt_dir(r) == opt_view(uri.dir),
{
    match &uri.dir {
        Some(d) => Some(d.as_str()),
        None => None,
    }
}

// ---------------------------------------------------------------------
// Names

pub open spec fn field_symbols(t: SymbolTable, field: SymbolField) -> Seq<Symbol> {
    match field {
        SymbolField::Variables => t.variables@,
        SymbolField::Locals => t.locals@,
        SymbolField::Modules => t.modules@,
        SymbolField::Outputs => t.outputs@,
    }
}

fn symbols_of<'a>(t: &'a SymbolTable, field: SymbolField) -> (r: &'a Vec<Symbol>)
    ensures
        r@ == field_symbols(*t, field),
{
    match field {
        SymbolField::Variables => &t.variables,
        SymbolField::Locals => &t.locals,
        SymbolField::Modules => &t.modules,
        SymbolField::Outputs => &t.outputs,
    }
}

pub open spec fn symbol_name() -> spec_fn(Symbol) -> Seq<char> {
    |s: Symbol| s.name@
}

pub open spec fn doc_names(dir: Option<Seq<char>>, field: SymbolField) -> spec_fn(
    DocumentState,
) -> Seq<Seq<char>> {
    |d: DocumentState|
        if doc_within(d, dir) {
            each(field_symbols(d.symbols, field), symbol_name())
        } else {
            Seq::empty()
        }
}

/// The names that the documents of a directory declare, in order and each once.
pub open spec fn declared_names(
    docs: Seq<DocumentState>,
    dir: Option<Seq<char>>,
    field: SymbolField,
) -> Seq<Seq<char>> {
    name_set(flat_map(docs, doc_names(dir, field)))
}

fn append_names(out: &mut Vec<String>, v: &Vec<Symbol>)
    ensures
        texts(final(out)@) == texts(old(out)@) + each(v@, symbol_name()),
{
    let ghost start = texts(out@);
    let ghost all = each(v@, symbol_name());
    assert(texts(out@) =~= start + all.take(0));
    for i in 0..v.len()
        invariant
            all == each(v@, symbol_name()),
            texts(out@) == start + all.take(i as int),
    {
        let ghost before = texts(out@);
        let name = v[i].name.clone();
        out.push(name);
        assert(texts(out@) =~= before.push(name@));
        assert(texts(out@) =~= start + all.take(i + 1));
    }
    assert(all.take(v@.len() as int) =~= all);
}

pub fn list_declared_names(state: &StateStore, dir: Option<&str>, field: SymbolField) -> (r: Vec<
    String,
>)
    ensures
        texts(r@) == declared_names(state.documents@, opt_dir(dir), field),
{
    let ghost s = state.documents@;
    let ghost f = doc_names(opt_dir(dir), field);
    let mut out: Vec<String> = Vec::new();
    proof {
        lemma_take_full(s);
    }
    assert(texts(out@) =~= flat_map(s.take(0), f));
    for i in 0..state.documents.len()
        invariant
            s == state.documents@,
            f == doc_names(opt_dir(dir), field),
            texts(out@) == flat_map(s.take(i as int), f),
    {
        proof {
            lemma_flat_map_step(s, f, i as int);
        }
        let ghost before = texts(out@);
        if doc_in_dir(&state.documents[i], dir) {
            append_names(&mut out, symbols_of(&state.documents[i].symbols, field));
        } else {
            assert(texts(out@) =~= before + Seq::<Seq<char>>::empty());
        }
    }
    sort_dedup_names(&out)
}

/// The names of the module calls of a document's module.
pub fn module_names_in_scope(state: &StateStore, uri: &DocUri) -> (r: Vec<String>)
    ensures
        texts(r@) == declared_names(state.documents@, opt_view(uri.dir), SymbolField::Modules),
{
    list_declared_names(state, parent_dir(uri), SymbolField::Modules)
}

pub open spec fn name_item(kind: ItemKind) -> spec_fn(Seq<char>) -> ItemV {
    |name: Seq<char>| plain_item(name, kind)
}

pub open spec fn name_items(names: Seq<Seq<char>>, kind: ItemKind) -> Seq<ItemV> {
    sorted_items(SortBy::Label, each(names, name_item(kind)))
}

/// Names as they are, in order.
pub fn symbol_name_items(names: &Vec<String>, kind: ItemKind) -> (r: Vec<CompletionItem>)
    ensures
        items_view(r@) == name_items(texts(names@), kind),
{
    let ghost all = each(texts(names@), name_item(kind));
    let mut out = no_items();
    assert(items_view(out@) =~= all.take(0));
    for i in 0..names.len()
        invariant
            all == each(texts(names@), name_item(kind)),
            items_view(out@) == all.take(i as int),
    {
        let item = CompletionItem::new(names[i].as_str(), kind);
        assert(texts(names@)[i as int] == names@[i as int]@);
        push_item(&mut out, item);
        assert(items_view(out@) =~= all.take(i + 1));
    }
    assert(all.take(names@.len() as int) =~= all);
    sort_items(&out, SortBy::Label)
}

/// The names that a document's module declares.
pub fn module_symbol_items(state: &StateStore, uri: &DocUri, field: SymbolField, kind: ItemKind) -> (r:
    Vec<CompletionItem>)
    ensures
        items_view(r@) == name_items(
            declared_names(state.documents@, opt_view(uri.dir), field),
            kind,
        ),
{
    let names = list_declared_names(state, parent_dir(uri), field);
    symbol_name_items(&names, kind)
}

// ---------------------------------------------------------------------
// Resources

pub open spec fn resource_symbols(t: SymbolTable, data: bool) -> Seq<ResourceSymbol> {
    if data {
        t.data_sources@
    } else {
        t.resources@
    }
}

fn resources_of<'a>(t: &'a SymbolTable, data: bool) -> (r: &'a Vec<ResourceSymbol>)
    ensures
        r@ == resource_symbols(*t, data),
{
    if data {
        &t.data_sources
    } else {
        &t.resources
    }
}

pub open spec fn name_if_type(ty: Seq<char>) -> spec_fn(ResourceSymbol) -> Option<Seq<char>> {
    |r: ResourceSymbol|
        if r.resource_type@ == ty {
            Some(r.name@)
        } else {
            None
        }
}

pub open spec fn doc_resource_names(dir: Option<Seq<char>>, ty: Seq<char>, data: bool) -> spec_fn(
    DocumentState,
) -> Seq<Seq<char>> {
    |d: DocumentState|
        if doc_within(d, dir) {
            filter_map(resource_symbols(d.symbols, data), name_if_type(ty))
        } else {
            Seq::empty()
        }
}

/// The names of the resources, or data sources, of a type.
pub open spec fn resource_names(
    docs: Seq<DocumentState>,
    dir: Option<Seq<char>>,
    ty: Seq<char>,
    data: bool,
) -> Seq<Seq<char>> {
    name_set(flat_map(docs, doc_resource_names(dir, ty, data)))
}

fn append_resource_names(out: &mut Vec<String>, v: &Vec<ResourceSymbol>, ty: &str)
    ensures
        texts(final(out)@) == texts(old(out)@) + filter_map(v@, name_if_type(ty@)),
{
    let ghost start = texts(out@);
    let ghost f = name_if_type(ty@);
    proof {
        lemma_take_full(v@);
    }
    assert(texts(out@) =~= start + filter_map(v@.take(0), f));
    for i in 0..v.len()
        invariant
            f == name_if_type(ty@),
            texts(out@) == start + filter_map(v@.take(i as int), f),
    {
        proof {
            lemma_filter_map_step(v@, f, i as int);
        }
        let ghost before = texts(out@);
        if str_eq(v[i].resource_type.as_str(), ty) {
            let name = v[i].name.clone();
            out.push(name);
            assert(texts(out@) =~= before.push(name@));
        }
        assert(texts(out@) =~= start + filter_map(v@.take(i + 1), f));
    }
}

pub fn list_resource_names(state: &StateStore, dir: Option<&str>, ty: &str, data: bool) -> (r: Vec<
    String,
>)
    ensures
        texts(r@) == resource_names(state.documents@, opt_dir(dir), ty@, data),
{
    let ghost s = state.documents@;
    let ghost f = doc_resource_names(opt_dir(dir), ty@, data);
    let mut out: Vec<String> = Vec::new();
    proof {
        lemma_take_full(s);
    }
    assert(texts(out@) =~= flat_map(s.take(0), f));
    for i in 0..state.documents.len()
        invariant
            s == state.documents@,
            f == doc_resource_names(opt_dir(dir), ty@, data),
            texts(out@) == flat_map(s.take(i as int), f),
    {
        proof {
            lemma_flat_map_step(s, f, i as int);
        }
        let ghost before = texts(out@);
        if doc_in_dir(&state.documents[i], dir) {
            append_resource_names(&mut out, resources_of(&state.documents[i].symbols, data), ty);
        } else {
            assert(texts(out@) =~= before + Seq::<Seq<char>>::empty());
        }
    }
    sort_dedup_names(&out)
}

/// The declared resources, or data sources, of a type.
pub fn resource_name_items(state: &StateStore, uri: &DocUri, ty: &str, data: bool) -> (r: Vec<
    CompletionItem,
>)
    ensures
        items_view(r@) == name_items(
            resource_names(state.documents@, opt_view(uri.dir), ty@, data),
            ItemKind::Field,
        ),
{
    let names = list_resource_names(state, parent_dir(uri), ty, data);
    symbol_name_items(&names, ItemKind::Field)
}

pub open spec fn address_of(lead: Seq<char>) -> spec_fn(ResourceSymbol) -> Seq<char> {
    |r: ResourceSymbol| lead + r.resource_type@ + "."@ + r.name@
}

pub open spec fn module_address() -> spec_fn(Symbol) -> Seq<char> {
    |s: Symbol| "module."@ + s.name@
}

pub open spec fn doc_addresses(dir: Option<Seq<char>>) -> spec_fn(DocumentState) -> Seq<Seq<char>> {
    |d: DocumentState|
        if doc_within(d, dir) {
            each(d.symbols.resources@, address_of(""@)) + each(
                d.symbols.data_sources@,
                address_of("data."@),
            ) + each(d.symbols.modules@, module_address())
        } else {
            Seq::empty()
        }
}

pub open spec fn address_item() -> spec_fn(Seq<char>) -> ItemV {
    |a: Seq<char>|
        insert_item(a, ItemKind::Reference, "address"@, a, InsertFormat::PlainText)
}

/// The addresses of everything that can be depended on.
pub open spec fn address_items(docs: Seq<DocumentState>, dir: Option<Seq<char>>) -> Seq<ItemV> {
    each(name_set(flat_map(docs, doc_addresses(dir))), address_item())
}

fn append_addresses(out: &mut Vec<String>, v: &Vec<ResourceSymbol>, lead: &str)
    ensures
        texts(final(out)@) == texts(old(out)@) + each(v@, address_of(lead@)),
{
    let ghost start = texts(out@);
    let ghost all = each(v@, address_of(lead@));
    assert(texts(out@) =~= start + all.take(0));
    for i in 0..v.len()
        invariant
            all == each(v@, address_of(lead@)),
            texts(out@) == start + all.take(i as int),
    {
        let ghost before = texts(out@);
        let head = concat2(lead, v[i].resource_type.as_str());
        let a = concat3(head.as_str(), ".", v[i].name.as_str());
        out.push(a);
        assert(texts(out@) =~= before.push(a@));
        assert(texts(out@) =~= start + all.take(i + 1));
    }
    assert(all.take(v@.len() as int) =~= all);
}

fn append_module_addresses(out: &mut Vec<String>, v: &Vec<Symbol>)
    ensures
        texts(final(out)@) == texts(old(out)@) + each(v@, module_address()),
{
    let ghost start = texts(out@);
    let ghost all = each(v@, module_address());
    assert(texts(out@) =~= start + all.take(0));
    for i in 0..v.len()
        invariant
            all == each(v@, module_address()),
            texts(out@) == start + all.take(i as int),
    {
        let ghost before = texts(out@);
        let a = concat2("module.", v[i].name.as_str());
        out.push(a);
        assert(texts(out@) =~= before.push(a@));
        assert(texts(out@) =~= start + all.take(i + 1));
    }
    assert(all.take(v@.len() as int) =~= all);
}

pub fn depends_on_address_items(state: &StateStore, uri: &DocUri) -> (r: Vec<CompletionItem>)
    ensures
        items_view(r@) == address_items(state.documents@, opt_view(uri.dir)),
{
    let dir = parent_dir(uri);
    let ghost s = state.documents@;
    let ghost f = doc_addresses(opt_view(uri.dir));
    let mut addresses: Vec<String> = Vec::new();
    proof {
        lemma_take_full(s);
    }
    assert(texts(addresses@) =~= flat_map(s.take(0), f));
    for i in 0..state.documents.len()
        invariant
            s == state.documents@,
            opt_dir(dir) == opt_view(uri.dir),
            f == doc_addresses(opt_view(uri.dir)),
            texts(addresses@) == flat_map(s.take(i as int), f),
    {
        proof {
            lemma_flat_map_step(s, f, i as int);
        }
        let ghost before = texts(addresses@);
        if doc_in_dir(&state.documents[i], dir) {
            append_addresses(&mut addresses, &state.documents[i].symbols.resources, "");
            append_addresses(&mut addresses, &state.documents[i].symbols.data_sources, "data.");
            append_module_addresses(&mut addresses, &state.documents[i].symbols.modules);
            assert(texts(addresses@) =~= before + f(s[i as int]));
        } else {
            assert(texts(addresses@) =~= before + Seq::<Seq<char>>::empty());
        }
    }
    let names = sort_dedup_names(&addresses);
    let ghost all = address_items(s, opt_view(uri.dir));
    let ghost ns = texts(names@);
    let mut out = no_items();
    assert(items_view(out@) =~= all.take(0));
    assert(ns.len() == names@.len());
    for i in 0..names.len()
        invariant
            ns == texts(names@),
            ns.len() == names@.len(),
            all == each(ns, address_item()),
            items_view(out@) == all.take(i as int),
    {
        let a = names[i].as_str();
        assert(ns[i as int] == a@);
        let item = CompletionItem::inserting(
            a,
            ItemKind::Reference,
            "address".to_owned(),
            a.to_owned(),
            InsertFormat::PlainText,
        );
        push_item(&mut out, item);
        assert(items_view(out@) =~= all.take(i + 1));
    }
    assert(all.take(names@.len() as int) =~= all);
    out
}

// ---------------------------------------------------------------------
// Attributes of resources

pub open spec fn attr_ref_item() -> spec_fn((String, AttributeSchema)) -> ItemV {
    |e: (String, AttributeSchema)|
        ItemV {
            documentation: opt_view(e.1.description),
            ..insert_item(
                e.0@,
                ItemKind::Field,
                detail_of(e.1),
                e.0@,
                InsertFormat::PlainText,
            )
        }
}

/// Nested blocks can be referred to, but for those that only configure.
pub open spec fn block_ref_item() -> spec_fn((String, NestedBlockSchema)) -> Option<ItemV> {
    |e: (String, NestedBlockSchema)|
        if e.0@ == "timeouts"@ || e.0@ == "lifecycle"@ {
            None
        } else {
            Some(
                insert_item(
                    e.0@,
                    ItemKind::Struct,
                    "nested block"@,
                    e.0@,
                    InsertFormat::PlainText,
                ),
            )
        }
}

/// What can be read off a resource, or a data source, of a type.
pub open spec fn attr_refs(state: StateStore, ty: Seq<char>, data: bool) -> Seq<ItemV> {
    match body_schema(state.schemas@, ty, data) {
        Some(s) => sorted_items(
            SortBy::Label,
            each(s.block.attributes@, attr_ref_item()) + filter_map(
                s.block.block_types@,
                block_ref_item(),
            ),
        ),
        None => Seq::empty(),
    }
}

fn list_attr_refs(attributes: &Vec<(String, AttributeSchema)>) -> (r: Vec<CompletionItem>)
    ensures
        items_view(r@) == each(attributes@, attr_ref_item()),
{
    let ghost all = each(attributes@, attr_ref_item());
    let mut out = no_items();
    assert(items_view(out@) =~= all.take(0));
    for i in 0..attributes.len()
        invariant
            all == each(attributes@, attr_ref_item()),
            items_view(out@) == all.take(i as int),
    {
        let name = attributes[i].0.as_str();
        let item = CompletionItem::inserting(
            name,
            ItemKind::Field,
            attribute_detail(&attributes[i].1),
            name.to_owned(),
            InsertFormat::PlainText,
        ).with_documentation(copy_opt(&attributes[i].1.description));
        push_item(&mut out, item);
        assert(items_view(out@) =~= all.take(i + 1));
    }
    assert(all.take(attributes@.len() as int) =~= all);
    out
}

pub fn resource_attr_items(state: &StateStore, ty: &str, data: bool) -> (r: Vec<CompletionItem>)
    ensures
        items_view(r@) == attr_refs(*state, ty@, data),
{
    let schema = match find_body_schema(&state.schemas, ty, data) {
        Some(s) => s,
        None => {
            return no_items();
        },
    };
    let mut out = list_attr_refs(&schema.block.attributes);
    let ghost start = items_view(out@);
    let ghost t = schema.block.block_types@;
    let ghost g = block_ref_item();
    proof {
        lemma_take_full(t);
    }
    assert(items_view(out@) =~= start + filter_map(t.take(0), g));
    for i in 0..schema.block.block_types.len()
        invariant
            t == schema.block.block_types@,
            g == block_ref_item(),
            items_view(out@) == start + filter_map(t.take(i as int), g),
    {
        proof {
            lemma_filter_map_step(t, g, i as int);
        }
        let name = schema.block.block_types[i].0.as_str();
        if !(str_eq(name, "timeouts") || str_eq(name, "lifecycle")) {
            let item = CompletionItem::inserting(
                name,
                ItemKind::Struct,
                "nested block".to_owned(),
                name.to_owned(),
                InsertFormat::PlainText,
            );
            push_item(&mut out, item);
        }
        assert(items_view(out@) =~= start + filter_map(t.take(i + 1), g));
    }
    sort_items(&out, SortBy::Label)
}

/// The keyword that stands for every attribute.
pub open spec fn all_item() -> ItemV {
    ItemV {
        sort_text: Some("0_all"@),
        ..insert_item(
            "all"@,
            ItemKind::Keyword,
            "ignore changes to every attribute"@,
            "all"@,
            InsertFormat::PlainText,
        )
    }
}

pub open spec fn ignore_items(state: StateStore, ty: Seq<char>) -> Seq<ItemV> {
    seq![all_item()] + attr_refs(state, ty, false)
}

/// What can stand in `ignore_changes`.
pub fn ignore_changes_items(state: &StateStore, ty: &str) -> (r: Vec<CompletionItem>)
    ensures
        items_view(r@) == ignore_items(*state, ty@),
{
    let mut out = no_items();
    let all = CompletionItem::inserting(
        "all",
        ItemKind::Keyword,
        "ignore changes to every attribute".to_owned(),
        "all".to_owned(),
        InsertFormat::PlainText,
    ).with_sort("0_all".to_owned());
    push_item(&mut out, all);
    assert(items_view(out@) =~= seq![all_item()]);
    append_items(&mut out, resource_attr_items(state, ty, false));
    out
}

// ---------------------------------------------------------------------
// Inputs and outputs of modules

/// The directory that the call of a module in a document leads to.
pub open spec fn child_dir(state: StateStore, uri: DocUri, name: Seq<char>) -> Option<Seq<char>> {
    match (opt_view(uri.dir), find_map(state.documents@, primary_doc(uri))) {
        (Some(dir), Some(doc)) => match lookup(doc.symbols.module_sources@, name) {
            Some(source) => module_target(state.module_dirs@, dir, name, source@),
            None => None,
        },
        _ => None,
    }
}

pub fn resolve_child_module_dir<'a>(state: &'a StateStore, uri: &DocUri, module_name: &str) -> (r:
    Option<&'a str>)
    ensures
        opt_dir(r) == child_dir(*state, *uri, module_name@),
{
    match (parent_dir(uri), find_doc(state, uri)) {
        (Some(dir), Some(doc)) => match find_entry(&doc.symbols.module_sources, module_name) {
            Some(source) => resolve_module_source(
                &state.module_dirs,
                dir,
                module_name,
                source.as_str(),
            ),
            None => None,
        },
        _ => None,
    }
}

pub open spec fn type_text(t: SymbolTable, name: Seq<char>) -> Option<Seq<char>> {
    match lookup(t.variable_types@, name) {
        Some(ty) => Some(ty.text@),
        None => None,
    }
}

pub open spec fn input_item(t: SymbolTable, filter: FilterV) -> spec_fn(Symbol) -> Option<ItemV> {
    |s: Symbol|
        if filter.attrs.contains(s.name@) {
            None
        } else {
            Some(
                ItemV {
                    detail: type_text(t, s.name@),
                    documentation: opt_view(s.doc),
                    insert_text: Some(
                        assignment(
                            s.name@,
                            variable_kind(
                                match lookup(t.variable_types@, s.name@) {
                                    Some(ty) => Some(ty.ty),
                                    None => None,
                                },
                            ),
                        ),
                    ),
                    insert_text_format: Some(InsertFormat::Snippet),
                    ..plain_item(s.name@, ItemKind::Property)
                },
            )
        }
}

pub open spec fn doc_inputs(dir: Seq<char>, filter: FilterV) -> spec_fn(DocumentState) -> Seq<
    ItemV,
> {
    |d: DocumentState|
        if in_dir(d, dir) {
            filter_map(d.symbols.variables@, input_item(d.symbols, filter))
        } else {
            Seq::empty()
        }
}

/// The items, of each label the first.
pub open spec fn unique_items(s: Seq<ItemV>) -> Seq<ItemV>
    decreases s.len(),
{
    if s.len() == 0 {
        s
    } else {
        with_new(unique_items(s.drop_last()), s.last())
    }
}

fn keep_unique(v: &Vec<CompletionItem>) -> (r: Vec<CompletionItem>)
    ensures
        items_view(r@) == unique_items(items_view(v@)),
{
    let ghost s = items_view(v@);
    let mut out = no_items();
    proof {
        lemma_take_full(s);
    }
    for i in 0..v.len()
        invariant
            s == items_view(v@),
            items_view(out@) == unique_items(s.take(i as int)),
    {
        assert(s.take(i + 1).drop_last() =~= s.take(i as int));
        assert(s.take(i + 1).last() == v@[i as int]@);
        crate::completion_sources::push_new(&mut out, v[i].duplicate());
    }
    out
}

/// The inputs of a called module that the call does not set yet.
pub open spec fn input_items(state: StateStore, uri: DocUri, name: Seq<char>, filter: FilterV) -> Seq<
    ItemV,
> {
    match child_dir(state, uri, name) {
        Some(dir) => sorted_items(
            SortBy::Label,
            unique_items(flat_map(state.documents@, doc_inputs(dir, filter))),
        ),
        None => Seq::empty(),
    }
}

fn push_inputs(out: &mut Vec<CompletionItem>, t: &SymbolTable, filter: &BodyFilter)
    ensures
        items_view(final(out)@) == items_view(old(out)@) + filter_map(
            t.variables@,
            input_item(*t, filter@),
        ),
{
    let ghost start = items_view(out@);
    let ghost s = t.variables@;
    let ghost f = input_item(*t, filter@);
    proof {
        lemma_take_full(s);
    }
    assert(items_view(out@) =~= start + filter_map(s.take(0), f));
    for i in 0..t.variables.len()
        invariant
            s == t.variables@,
            f == input_item(*t, filter@),
            items_view(out@) == start + filter_map(s.take(i as int), f),
    {
        proof {
            lemma_filter_map_step(s, f, i as int);
        }
        let name = t.variables[i].name.as_str();
        if !filter.has_attr(name) {
            let mut item = CompletionItem::new(name, ItemKind::Property);
            match find_entry(&t.variable_types, name) {
                Some(ty) => {
                    item.detail = Some(ty.text.clone());
                    item.insert_text = Some(variable_insert_text(name, Some(&ty.ty)));
                },
                None => {
                    item.insert_text = Some(variable_insert_text(name, None));
                },
            }
            item.insert_text_format = Some(InsertFormat::Snippet);
            item.documentation = copy_opt(&t.variables[i].doc);
            assert(item@ =~= f(s[i as int])->0);
            push_item(out, item);
        }
        assert(items_view(out@) =~= start + filter_map(s.take(i + 1), f));
    }
}

pub fn module_input_items(state: &StateStore, uri: &DocUri, module_name: &str, filter: &BodyFilter) -> (r:
    Vec<CompletionItem>)
    ensures
        items_view(r@) == input_items(*state, *uri, module_name@, filter@),
{
    let dir = match resolve_child_module_dir(state, uri, module_name) {
        Some(d) => d,
        None => {
            return no_items();
        },
    };
    let ghost s = state.documents@;
    let ghost f = doc_inputs(dir@, filter@);
    let mut all = no_items();
    proof {
        lemma_take_full(s);
    }
    for i in 0..state.documents.len()
        invariant
            s == state.documents@,
            f == doc_inputs(dir@, filter@),
            items_view(all@) == flat_map(s.take(i as int), f),
    {
        proof {
            lemma_flat_map_step(s, f, i as int);
        }
        let ghost before = items_view(all@);
        if is_in_dir(&state.documents[i], dir) {
            push_inputs(&mut all, &state.documents[i].symbols, filter);
        } else {
            assert(items_view(all@) =~= before + Seq::<ItemV>::empty());
        }
    }
    let unique = keep_unique(&all);
    sort_items(&unique, SortBy::Label)
}

pub open spec fn output_item() -> spec_fn(Symbol) -> ItemV {
    |s: Symbol|
        ItemV {
            documentation: opt_view(s.doc),
            ..insert_item(
                s.name@,
                ItemKind::Field,
                "module output"@,
                s.name@,
                InsertFormat::PlainText,
            )
        }
}

pub open spec fn doc_outputs(dir: Seq<char>) -> spec_fn(DocumentState) -> Seq<ItemV> {
    |d: DocumentState|
        if in_dir(d, dir) {
            each(d.symbols.outputs@, output_item())
        } else {
            Seq::empty()
        }
}

/// The outputs of a called module.
pub open spec fn output_items(state: StateStore, uri: DocUri, name: Seq<char>) -> Seq<ItemV> {
    match child_dir(state, uri, name) {
        Some(dir) => sorted_items(
            SortBy::Label,
            unique_items(flat_map(state.documents@, doc_outputs(dir))),
        ),
        None => Seq::empty(),
    }
}

fn push_outputs(out: &mut Vec<CompletionItem>, v: &Vec<Symbol>)
    ensures
        items_view(final(out)@) == items_view(old(out)@) + each(v@, output_item()),
{
    let ghost start = items_view(out@);
    let ghost all = each(v@, output_item());
    assert(items_view(out@) =~= start + all.take(0));
    for i in 0..v.len()
        invariant
            all == each(v@, output_item()),
            items_view(out@) == start + all.take(i as int),
    {
        let name = v[i].name.as_str();
        let item = CompletionItem::inserting(
            name,
            ItemKind::Field,
            "module output".to_owned(),
            name.to_owned(),
            InsertFormat::PlainText,
        ).with_documentation(copy_opt(&v[i].doc));
        push_item(out, item);
        assert(items_view(out@) =~= start + all.take(i + 1));
    }
    assert(all.take(v@.len() as int) =~= all);
}

pub fn module_output_items(state: &StateStore, uri: &DocUri, module_name: &str) -> (r: Vec<
    CompletionItem,
>)
    ensures
        items_view(r@) == output_items(*state, *uri, module_name@),
{
    let dir = match resolve_child_module_dir(state, uri, module_name) {
        Some(d) => d,
        None => {
            return no_items();
        },
    };
    let ghost s = state.documents@;
    let ghost f = doc_outputs(dir@);
    let mut all = no_items();
    proof {
        lemma_take_full(s);
    }
    for i in 0..state.documents.len()
        invariant
            s == state.documents@,
            f == doc_outputs(dir@),
            items_view(all@) == flat_map(s.take(i as int), f),
    {
        proof {
            lemma_flat_map_step(s, f, i as int);
        }
        let ghost before = items_view(all@);
        if is_in_dir(&state.documents[i], dir) {
            push_outputs(&mut all, &state.documents[i].symbols.outputs);
        } else {
            assert(items_view(all@) =~= before + Seq::<ItemV>::empty());
        }
    }
    let unique = keep_unique(&all);
    sort_items(&unique, SortBy::Label)
}

} // verus!
