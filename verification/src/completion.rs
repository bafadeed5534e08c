//! Completion: what is offered at the cursor.

use crate::builtin::{builtin_at, find_builtin, BuiltinSchema, Language};
use crate::completion_body::{
    body_items, no_items, provider_block_body_items, provider_items, resource_body_items,
};
use crate::completion_builtin::{
    builtin_body_items, builtin_items, count_items, count_namespace_items, dynamic_body_items,
    dynamic_items, each_items, each_namespace_items, entry_attr_items, expression_scaffold_items,
    expression_scaffolds, path_items, path_namespace_items, required_provider_entry_attr_items,
    terraform_items, terraform_namespace_items, top_level, top_level_items, type_values,
    variable_type_value_items,
};
use crate::completion_cursor::{
    body_filter, compute_body_filter, cursor_on_dynamic_body, label_closed, label_closed_after,
    nested_block_path, nested_path, on_dynamic_body, opt_body, FilterV,
};
use crate::completion_files::{
    is_tfvars, is_tfvars_uri, opt_items, test_items, tftest_completion_items,
    tfvars_completion_items, tfvars_items,
};
use crate::completion_item::{append_items, items_view, CompletionItem, ItemKind, ItemV};
use crate::completion_schema::{
    data_source_type_items, data_source_type_items_bare, resource_type_items,
    resource_type_items_bare, type_items,
};
use crate::completion_shapes::{
    drill_collection_element_fields, each_attr_items, each_offers, element_offers,
    index_key_items, key_offers, variable_attr_items, variable_fields, IndexRootRef, MergedShapes,
    PathStep,
};
use crate::completion_sources::{
    entry_items, required_provider_source_value_items, required_providers_entry_items,
    source_values, CachedMinor, CatalogEntry,
};
use crate::completion_symbols::{
    address_items, attr_refs, declared_names, depends_on_address_items, ignore_changes_items,
    ignore_items, input_items, module_input_items, module_output_items, module_symbol_items,
    name_items, output_items, resource_attr_items, resource_name_items, resource_names, SymbolField,
};
use crate::completion_values::{
    attribute_value_items, attribute_values, expression_root_items, expression_roots,
    function_items, function_name_items, function_namespaces, provider_function_name_items,
    provider_function_namespace_items, provider_functions,
};
use crate::completion_versions::{
    module_version_value_items, module_version_values, provider_version_values,
    required_provider_version_value_items, required_version_value_items, stamp_version_replace,
    stamped, tool_version_values, CursorSlot, PublishedVersion,
};
use crate::hcl::Body;
use crate::position::{
    char_at_byte, line_count, line_start, lsp_position_to_byte_offset, position_offset,
    rope_byte_to_char, rope_len_chars, rope_len_lines, rope_line_to_char, rope_slice, rope_text, text_between,
    lemma_position_offset_bound, rope_between, rope_char_to_byte, utf8_len, Position,
};
use crate::schema::{find_entry, lookup};
use crate::seqs::find_map;
use crate::state::{find_doc, primary_doc, DocUri, DocumentState, StateStore};
use crate::text::{opt_view, str_eq, texts};
use ropey::Rope;
use vstd::prelude::*;

verus! {

/// What the text before the cursor says of the place that it is at.
#[allow(inconsistent_fields)]
#[derive(Debug)]
pub enum CompletionContext {
    TopLevel,
    ResourceType,
    DataSourceType,
    ResourceBody { resource_type: String },
    DataSourceBody { resource_type: String },
    VariableRef,
    LocalRef,
    ModuleRef,
    EachRef,
    CountRef,
    PathRef,
    TerraformNamespaceRef,
    SelfRef { resource_type: String },
    VariableAttrRef { path: Vec<String> },
    ResourceRef { resource_type: String },
    ResourceAttr { resource_type: String },
    DataSourceRef { resource_type: String },
    DataSourceAttr { resource_type: String },
    IndexKeyRef { root: IndexRootRef, path: Vec<PathStep> },
    ModuleBody { name: String },
    ModuleAttr { module_name: String },
    AttributeValue { resource_type: String, attr_name: String },
    FunctionCall,
    ExpressionRoot,
    IgnoreChangesList { resource_type: String },
    DependsOnList,
    EachAttr { path: Vec<String> },
    ForBindingRef { root: IndexRootRef, path: Vec<String> },
    ProviderFunctionNamespace,
    ProviderFunctionName { provider_local: String },
    /// The body of a built-in block, or of a block in it: the keywords that lead
    /// to it.
    BuiltinBody { path: Vec<String> },
    LocalsBlockBody,
    ProviderBlockBody { name: String },
    BackendBlockBody { name: String },
    RequiredProvidersBody,
    RequiredProvidersEntryBody,
    RequiredProviderSourceValue,
    RequiredProviderVersionValue { source: Option<String>, slot: CursorSlot },
    RequiredVersionValue { slot: CursorSlot },
    VariableTypeValue,
    ModuleVersionValue { source: Option<String>, slot: CursorSlot },
    Unknown,
}

/// What registries answered, as far as they were asked.
#[derive(Debug)]
pub struct Fetched {
    pub versions: Option<Vec<PublishedVersion>>,
    pub catalog: Option<Vec<CatalogEntry>>,
    pub latest_minors: Vec<CachedMinor>,
}

#[derive(Debug)]
pub struct CompletionParams {
    pub uri: DocUri,
    pub position: Position,
    /// The character that was typed last, where it triggered the request.
    pub trigger_character: Option<String>,
    pub context: CompletionContext,
    /// The document is a test file.
    pub test_file: bool,
    /// The directory of the module that a test file tests.
    pub module_under_test: Option<String>,
    pub fetched: Fetched,
    pub merged: MergedShapes,
}

// ---------------------------------------------------------------------
// The text around the cursor

/// The line of a position up to an offset.
pub open spec fn line_prefix(t: Seq<char>, pos: Position, offset: int) -> Seq<char> {
    let from = utf8_len(t.take(line_start(t, pos.line as nat))) as int;
    if from <= offset {
        text_between(t, from, offset)
    } else {
        Seq::empty()
    }
}

fn text_of_prefix(rope: &Rope, pos: Position, offset: usize) -> (r: String)
    requires
        pos.line < line_count(rope_text(*rope)),
        offset <= utf8_len(rope_text(*rope)),
    ensures
        r@ == line_prefix(rope_text(*rope), pos, offset as int),
{
    let k = rope_line_to_char(rope, pos.line as usize);
    let from = rope_char_to_byte(rope, k);
    match rope_between(rope, from, offset) {
        Some(s) => s,
        None => {
            let s = String::new();
            assert(s@ =~= Seq::<char>::empty());
            s
        },
    }
}

/// The text up to the end of the cursor's line.
pub open spec fn text_through_line(t: Seq<char>, pos: Position) -> Seq<char> {
    t.take(line_start(t, pos.line as nat + 1))
}

fn text_to_line_end(rope: &Rope, pos: Position) -> (r: String)
    requires
        pos.line < line_count(rope_text(*rope)),
    ensures
        r@ == text_through_line(rope_text(*rope), pos),
{
    let lines = rope_len_lines(rope);
    assert(pos.line < lines);
    let end = rope_line_to_char(rope, pos.line as usize + 1);
    let s = rope_slice(rope, 0, end);
    assert(s@ =~= text_through_line(rope_text(*rope), pos));
    s
}

/// The line of a position, with what ends it.
pub open spec fn whole_line(t: Seq<char>, pos: Position) -> Seq<char> {
    let from = line_start(t, pos.line as nat);
    let to = line_start(t, pos.line as nat + 1);
    if from <= to {
        t.subrange(from, to)
    } else {
        Seq::empty()
    }
}

fn text_of_line(rope: &Rope, pos: Position) -> (r: String)
    requires
        pos.line < line_count(rope_text(*rope)),
    ensures
        r@ == whole_line(rope_text(*rope), pos),
{
    let lines = rope_len_lines(rope);
    assert(pos.line < lines);
    let from = rope_line_to_char(rope, pos.line as usize);
    let to = rope_line_to_char(rope, pos.line as usize + 1);
    if from <= to {
        rope_slice(rope, from, to)
    } else {
        let s = String::new();
        assert(s@ =~= Seq::<char>::empty());
        s
    }
}

/// The character before the one that was typed last is a colon.
pub open spec fn second_colon(t: Seq<char>, offset: int) -> bool {
    2 <= offset <= utf8_len(t) && char_at_byte(t, (offset - 2) as nat) < t.len() && t[char_at_byte(
        t,
        (offset - 2) as nat,
    )] == ':'
}

fn is_second_colon(rope: &Rope, offset: usize) -> (r: bool)
    requires
        offset <= utf8_len(rope_text(*rope)),
    ensures
        r == second_colon(rope_text(*rope), offset as int),
{
    if offset < 2 {
        return false;
    }
    let k = rope_byte_to_char(rope, offset - 2);
    if k >= rope_len_chars(rope) {
        return false;
    }
    let s = rope_slice(rope, k, k + 1);
    let c = crate::text::chars_of(s.as_str());
    c[0] == ':'
}

// ---------------------------------------------------------------------
// What is offered in a context

/// What is offered in the body of a resource or a data source.
pub open spec fn resource_offers(
    state: StateStore,
    lang: Language,
    ty: Seq<char>,
    data: bool,
    body: Option<Body>,
    offset: int,
) -> Seq<ItemV> {
    let filter = body_filter(body, offset);
    if on_dynamic_body(body, offset) {
        dynamic_items(lang, filter)
    } else {
        body_items(
            state,
            lang,
            ty,
            data,
            filter,
            match body {
                Some(b) => nested_path(b, offset),
                None => Seq::empty(),
            },
        )
    }
}

fn list_resource_offers(
    state: &StateStore,
    lang: &Language,
    ty: &str,
    data: bool,
    body: Option<&Body>,
    offset: usize,
) -> (r: Vec<CompletionItem>)
    ensures
        items_view(r@) == resource_offers(
            *state,
            *lang,
            ty@,
            data,
            opt_body(body),
            offset as int,
        ),
{
    let filter = compute_body_filter(body, offset);
    if cursor_on_dynamic_body(body, offset) {
        return dynamic_body_items(lang, &filter);
    }
    let path: Vec<String> = match body {
        Some(b) => nested_block_path(b, offset),
        None => Vec::new(),
    };
    assert(body is None ==> texts(path@) =~= Seq::<Seq<char>>::empty());
    resource_body_items(state, lang, ty, data, &filter, &path)
}

pub open spec fn schema_offers(schema: Option<BuiltinSchema>, filter: FilterV) -> Seq<ItemV> {
    match schema {
        Some(s) => builtin_items(s, filter),
        None => Seq::empty(),
    }
}

pub open spec fn module_names(state: StateStore, uri: DocUri, field: SymbolField, kind: ItemKind) -> Seq<
    ItemV,
> {
    name_items(declared_names(state.documents@, opt_view(uri.dir), field), kind)
}

/// What is offered in a context that names a body.
pub open spec fn body_offers(
    state: StateStore,
    lang: Language,
    params: CompletionParams,
    body: Option<Body>,
    offset: int,
) -> Option<Seq<ItemV>> {
    let filter = body_filter(body, offset);
    match params.context {
        CompletionContext::ResourceBody { resource_type } => Some(
            resource_offers(state, lang, resource_type@, false, body, offset),
        ),
        CompletionContext::DataSourceBody { resource_type } => Some(
            resource_offers(state, lang, resource_type@, true, body, offset),
        ),
        CompletionContext::ModuleBody { name } => Some(
            input_items(state, params.uri, name@, filter),
        ),
        CompletionContext::BuiltinBody { path } => Some(
            schema_offers(builtin_at(lang.builtins@, texts(path@)), filter),
        ),
        CompletionContext::LocalsBlockBody => Some(Seq::empty()),
        CompletionContext::ProviderBlockBody { name } => Some(
            provider_items(state, lang, name@, filter),
        ),
        CompletionContext::BackendBlockBody { name } => Some(
            schema_offers(lookup(lang.backends@, name@), filter),
        ),
        CompletionContext::RequiredProvidersBody => Some(
            entry_items(lang, params.fetched.latest_minors@, filter),
        ),
        CompletionContext::RequiredProvidersEntryBody => Some(entry_attr_items(lang, filter)),
        _ => None,
    }
}

fn list_body_offers(
    state: &StateStore,
    lang: &Language,
    params: &CompletionParams,
    body: Option<&Body>,
    offset: usize,
) -> (r: Option<Vec<CompletionItem>>)
    ensures
        opt_items(r) == body_offers(*state, *lang, *params, opt_body(body), offset as int),
{
    match &params.context {
        CompletionContext::ResourceBody { resource_type } => Some(
            list_resource_offers(state, lang, resource_type.as_str(), false, body, offset),
        ),
        CompletionContext::DataSourceBody { resource_type } => Some(
            list_resource_offers(state, lang, resource_type.as_str(), true, body, offset),
        ),
        CompletionContext::ModuleBody { name } => {
            let filter = compute_body_filter(body, offset);
            Some(module_input_items(state, &params.uri, name.as_str(), &filter))
        },
        CompletionContext::BuiltinBody { path } => {
            let filter = compute_body_filter(body, offset);
            match find_builtin(&lang.builtins, path) {
                Some(s) => Some(builtin_body_items(s, &filter)),
                None => Some(no_items()),
            }
        },
        CompletionContext::LocalsBlockBody => Some(no_items()),
        CompletionContext::ProviderBlockBody { name } => {
            let filter = compute_body_filter(body, offset);
            Some(provider_block_body_items(state, lang, name.as_str(), &filter))
        },
        CompletionContext::BackendBlockBody { name } => {
            let filter = compute_body_filter(body, offset);
            match find_entry(&lang.backends, name.as_str()) {
                Some(s) => Some(builtin_body_items(s, &filter)),
                None => Some(no_items()),
            }
        },
        CompletionContext::RequiredProvidersBody => {
            let filter = compute_body_filter(body, offset);
            Some(required_providers_entry_items(lang, &params.fetched.latest_minors, &filter))
        },
        CompletionContext::RequiredProvidersEntryBody => {
            let filter = compute_body_filter(body, offset);
            Some(required_provider_entry_attr_items(lang, &filter))
        },
        _ => None,
    }
}

/// What is offered in a context that names a reference.
pub open spec fn reference_offers(
    state: StateStore,
    params: CompletionParams,
    body: Option<Body>,
    offset: int,
    line: Seq<char>,
) -> Option<Seq<ItemV>> {
    let uri = params.uri;
    match params.context {
        CompletionContext::VariableRef => Some(
            module_names(state, uri, SymbolField::Variables, ItemKind::Variable),
        ),
        CompletionContext::LocalRef => Some(
            module_names(state, uri, SymbolField::Locals, ItemKind::Variable),
        ),
        CompletionContext::ModuleRef => Some(
            module_names(state, uri, SymbolField::Modules, ItemKind::Module),
        ),
        CompletionContext::EachRef => Some(each_items()),
        CompletionContext::CountRef => Some(count_items()),
        CompletionContext::PathRef => Some(path_items()),
        CompletionContext::TerraformNamespaceRef => Some(terraform_items()),
        CompletionContext::SelfRef { resource_type } => Some(
            attr_refs(state, resource_type@, false),
        ),
        CompletionContext::VariableAttrRef { path } => Some(
            variable_fields(state, uri, texts(path@)),
        ),
        CompletionContext::ResourceRef { resource_type } => Some(
            name_items(
                resource_names(state.documents@, opt_view(uri.dir), resource_type@, false),
                ItemKind::Field,
            ),
        ),
        CompletionContext::ResourceAttr { resource_type } => Some(
            attr_refs(state, resource_type@, false),
        ),
        CompletionContext::DataSourceRef { resource_type } => Some(
            name_items(
                resource_names(state.documents@, opt_view(uri.dir), resource_type@, true),
                ItemKind::Field,
            ),
        ),
        CompletionContext::DataSourceAttr { resource_type } => Some(
            attr_refs(state, resource_type@, true),
        ),
        CompletionContext::IndexKeyRef { root, path } => Some(
            key_offers(state, uri, root@, path@, line, params.position, params.merged),
        ),
        CompletionContext::ModuleAttr { module_name } => Some(
            output_items(state, uri, module_name@),
        ),
        CompletionContext::EachAttr { path } => Some(
            each_offers(state, uri, body, offset, texts(path@), params.merged),
        ),
        CompletionContext::ForBindingRef { root, path } => Some(
            element_offers(state, uri, root@, texts(path@), params.merged),
        ),
        CompletionContext::DependsOnList => Some(
            address_items(state.documents@, opt_view(uri.dir)),
        ),
        CompletionContext::IgnoreChangesList { resource_type } => Some(
            ignore_items(state, resource_type@),
        ),
        _ => None,
    }
}

fn list_reference_offers(
    state: &StateStore,
    params: &CompletionParams,
    body: Option<&Body>,
    offset: usize,
    line: &str,
) -> (r: Option<Vec<CompletionItem>>)
    ensures
        opt_items(r) == reference_offers(*state, *params, opt_body(body), offset as int, line@),
{
    let uri = &params.uri;
    match &params.context {
        CompletionContext::VariableRef => Some(
            module_symbol_items(state, uri, SymbolField::Variables, ItemKind::Variable),
        ),
        CompletionContext::LocalRef => Some(
            module_symbol_items(state, uri, SymbolField::Locals, ItemKind::Variable),
        ),
        CompletionContext::ModuleRef => Some(
            module_symbol_items(state, uri, SymbolField::Modules, ItemKind::Module),
        ),
        CompletionContext::EachRef => Some(each_namespace_items()),
        CompletionContext::CountRef => Some(count_namespace_items()),
        CompletionContext::PathRef => Some(path_namespace_items()),
        CompletionContext::TerraformNamespaceRef => Some(terraform_namespace_items()),
        CompletionContext::SelfRef { resource_type } => Some(
            resource_attr_items(state, resource_type.as_str(), false),
        ),
        CompletionContext::VariableAttrRef { path } => Some(
            variable_attr_items(state, uri, path),
        ),
        CompletionContext::ResourceRef { resource_type } => Some(
            resource_name_items(state, uri, resource_type.as_str(), false),
        ),
        CompletionContext::ResourceAttr { resource_type } => Some(
            resource_attr_items(state, resource_type.as_str(), false),
        ),
        CompletionContext::DataSourceRef { resource_type } => Some(
            resource_name_items(state, uri, resource_type.as_str(), true),
        ),
        CompletionContext::DataSourceAttr { resource_type } => Some(
            resource_attr_items(state, resource_type.as_str(), true),
        ),
        CompletionContext::IndexKeyRef { root, path } => Some(
            index_key_items(state, uri, root, path, line, params.position, &params.merged),
        ),
        CompletionContext::ModuleAttr { module_name } => Some(
            module_output_items(state, uri, module_name.as_str()),
        ),
        CompletionContext::EachAttr { path } => Some(
            each_attr_items(state, uri, body, offset, path, &params.merged),
        ),
        CompletionContext::ForBindingRef { root, path } => Some(
            drill_collection_element_fields(state, uri, root, path, &params.merged),
        ),
        CompletionContext::DependsOnList => Some(depends_on_address_items(state, uri)),
        CompletionContext::IgnoreChangesList { resource_type } => Some(
            ignore_changes_items(state, resource_type.as_str()),
        ),
        _ => None,
    }
}

pub open spec fn fetched_versions(params: CompletionParams) -> Option<Seq<PublishedVersion>> {
    match params.fetched.versions {
        Some(v) => Some(v@),
        None => None,
    }
}

pub open spec fn fetched_catalog(params: CompletionParams) -> Seq<CatalogEntry> {
    match params.fetched.catalog {
        Some(c) => c@,
        None => Seq::empty(),
    }
}

/// What is offered in the other contexts: headers, values and functions.
pub open spec fn value_offers(
    state: StateStore,
    lang: Language,
    params: CompletionParams,
    closed: bool,
) -> Seq<ItemV> {
    match params.context {
        CompletionContext::TopLevel => top_level(),
        CompletionContext::ResourceType => type_items(state.schemas@, false, closed),
        CompletionContext::DataSourceType => type_items(state.schemas@, true, closed),
        CompletionContext::AttributeValue { resource_type, attr_name } => attribute_values(
            state,
            resource_type@,
            attr_name@,
        ),
        CompletionContext::FunctionCall => expression_scaffolds() + function_items(
            state.functions@,
        ),
        CompletionContext::ExpressionRoot => expression_roots(state, params.uri),
        CompletionContext::ProviderFunctionNamespace => function_namespaces(state, params.uri),
        CompletionContext::ProviderFunctionName { provider_local } => provider_functions(
            state,
            params.uri,
            provider_local@,
        ),
        CompletionContext::RequiredProviderSourceValue => source_values(
            lang,
            fetched_catalog(params),
        ),
        CompletionContext::RequiredProviderVersionValue { source, slot } => stamped(
            provider_version_values(lang, opt_view(source), slot, fetched_versions(params)),
            params.position,
            slot,
        ),
        CompletionContext::RequiredVersionValue { slot } => stamped(
            tool_version_values(lang, slot, fetched_versions(params)),
            params.position,
            slot,
        ),
        CompletionContext::VariableTypeValue => type_values(lang.optional_doc@),
        CompletionContext::ModuleVersionValue { source, slot } => stamped(
            module_version_values(lang, opt_view(source), slot, fetched_versions(params)),
            params.position,
            slot,
        ),
        _ => Seq::empty(),
    }
}

fn list_value_offers(state: &StateStore, lang: &Language, params: &CompletionParams, closed: bool) -> (r:
    Vec<CompletionItem>)
    ensures
        items_view(r@) == value_offers(*state, *lang, *params, closed),
{
    match &params.context {
        CompletionContext::TopLevel => top_level_items(),
        CompletionContext::ResourceType => if closed {
            resource_type_items_bare(state)
        } else {
            resource_type_items(state)
        },
        CompletionContext::DataSourceType => if closed {
            data_source_type_items_bare(state)
        } else {
            data_source_type_items(state)
        },
        CompletionContext::AttributeValue { resource_type, attr_name } => attribute_value_items(
            state,
            resource_type.as_str(),
            attr_name.as_str(),
        ),
        CompletionContext::FunctionCall => {
            let mut items = expression_scaffold_items();
            append_items(&mut items, function_name_items(state));
            items
        },
        CompletionContext::ExpressionRoot => expression_root_items(state, &params.uri),
        CompletionContext::ProviderFunctionNamespace => provider_function_namespace_items(
            state,
            &params.uri,
        ),
        CompletionContext::ProviderFunctionName { provider_local } => provider_function_name_items(
            state,
            &params.uri,
            provider_local.as_str(),
        ),
        CompletionContext::RequiredProviderSourceValue => required_provider_source_value_items(
            lang,
            params.fetched.catalog.as_ref(),
        ),
        CompletionContext::RequiredProviderVersionValue { source, slot } => {
            let items = required_provider_version_value_items(
                lang,
                source_text(source),
                slot,
                params.fetched.versions.as_ref(),
            );
            stamp_version_replace(items, params.position, slot)
        },
        CompletionContext::RequiredVersionValue { slot } => {
            let items = required_version_value_items(
                lang,
                slot,
                params.fetched.versions.as_ref(),
            );
            stamp_version_replace(items, params.position, slot)
        },
        CompletionContext::VariableTypeValue => variable_type_value_items(lang),
        CompletionContext::ModuleVersionValue { source, slot } => {
            let items = module_version_value_items(
                lang,
                source_text(source),
                slot,
                params.fetched.versions.as_ref(),
            );
            stamp_version_replace(items, params.position, slot)
        },
        _ => no_items(),
    }
}

fn source_text(s: &Option<String>) -> (r: Option<&str>)
    ensures
        crate::text::opt_str(r) == opt_view(*s),
{
    match s {
        Some(s) => Some(s.as_str()),
        None => None,
    }
}

pub open spec fn context_offers(
    state: StateStore,
    lang: Language,
    params: CompletionParams,
    body: Option<Body>,
    t: Seq<char>,
    offset: int,
) -> Seq<ItemV> {
    match body_offers(state, lang, params, body, offset) {
        Some(items) => items,
        None => match reference_offers(
            state,
            params,
            body,
            offset,
            whole_line(t, params.position),
        ) {
            Some(items) => items,
            None => value_offers(
                state,
                lang,
                params,
                label_closed(text_through_line(t, params.position), offset),
            ),
        },
    }
}

/// What completion answers: nothing where the document or the place is unknown,
/// for a colon that is not the second of two, and where there is nothing to
/// offer. In files of variable values and in test files there is always an
/// answer.
pub open spec fn completion_answer(state: StateStore, lang: Language, params: CompletionParams) -> Option<
    Seq<ItemV>,
> {
    match find_map(state.documents@, primary_doc(params.uri)) {
        Some(doc) => {
            let t = rope_text(doc.rope);
            match position_offset(t, params.position) {
                Some(offset) => if opt_view(params.trigger_character) == Some(":"@)
                    && !second_colon(t, offset) {
                    None
                } else if is_tfvars(params.uri.path@) {
                    Some(
                        tfvars_items(
                            state,
                            params.uri,
                            doc.body,
                            line_prefix(t, params.position, offset),
                        ),
                    )
                } else if params.test_file {
                    Some(
                        test_items(
                            state,
                            lang,
                            opt_view(params.module_under_test),
                            doc.body,
                            line_prefix(t, params.position, offset),
                            offset,
                        ),
                    )
                } else {
                    let items = context_offers(state, lang, params, doc.body, t, offset);
                    if items.len() == 0 {
                        None
                    } else {
                        Some(items)
                    }
                },
                None => None,
            }
        },
        None => None,
    }
}

fn list_context_offers(
    state: &StateStore,
    lang: &Language,
    params: &CompletionParams,
    doc: &DocumentState,
    offset: usize,
) -> (r: Vec<CompletionItem>)
    requires
        params.position.line < line_count(rope_text(doc.rope)),
    ensures
        items_view(r@) == context_offers(
            *state,
            *lang,
            *params,
            doc.body,
            rope_text(doc.rope),
            offset as int,
        ),
{
    let body = doc.body.as_ref();
    if let Some(items) = list_body_offers(state, lang, params, body, offset) {
        return items;
    }
    let line = text_of_line(&doc.rope, params.position);
    if let Some(items) = list_reference_offers(state, params, body, offset, line.as_str()) {
        return items;
    }
    let text = text_to_line_end(&doc.rope, params.position);
    let closed = label_closed_after(text.as_str(), offset);
    list_value_offers(state, lang, params, closed)
}

/// Answers a completion request.
pub fn completion(state: &StateStore, lang: &Language, params: &CompletionParams) -> (r: Option<
    Vec<CompletionItem>,
>)
    ensures
        opt_items(r) == completion_answer(*state, *lang, *params),
{
    let doc = match find_doc(state, &params.uri) {
        Some(d) => d,
        None => {
            return None;
        },
    };
    let offset = match lsp_position_to_byte_offset(&doc.rope, params.position) {
        Some(o) => o,
        None => {
            return None;
        },
    };
    proof {
        lemma_position_offset_bound(rope_text(doc.rope), params.position);
    }
    if let Some(c) = &params.trigger_character {
        if str_eq(c.as_str(), ":") && !is_second_colon(&doc.rope, offset) {
            return None;
        }
    }
    let body = doc.body.as_ref();
    if is_tfvars_uri(&params.uri) {
        let prefix = text_of_prefix(&doc.rope, params.position, offset);
        return Some(tfvars_completion_items(state, &params.uri, body, prefix.as_str()));
    }
    if params.test_file {
        let prefix = text_of_prefix(&doc.rope, params.position, offset);
        let dir = match &params.module_under_test {
            Some(d) => Some(d.as_str()),
            None => None,
        };
        return Some(tftest_completion_items(state, lang, dir, body, prefix.as_str(), offset));
    }
    let items = list_context_offers(state, lang, params, doc, offset);
    assert(items_view(items@).len() == items@.len());
    if items.len() == 0 {
        None
    } else {
        Some(items)
    }
}

} // verus!
