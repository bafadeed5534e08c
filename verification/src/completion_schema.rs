//! Completion in the bodies of resources, data sources and provider blocks, from
//! the schemas of the providers.

use crate::completion_item::{
    insert_item, items_view, push_item, CompletionItem, InsertFormat, ItemKind, ItemV,
};
use crate::hover_attribute::{list_flags, schema_flags};
use crate::order::{sort_dedup_names, sort_texts, text_sort, name_set};
use crate::schema::{
    data_source_schema, find_data_source_schema, find_entry, find_resource_schema, lookup,
    resource_schema, AttributeSchema, BlockSchema, Json, ResourceSchema, SchemaEntry,
};
use crate::seqs::{
    each, filter_map, flat_map, lemma_filter_map_step, lemma_flat_map_step, lemma_take_full,
};
use crate::state::StateStore;
use crate::text::{concat2, concat3, concat5, decimal, join, str_eq, str_join, texts, u128_text};
use crate::variable_type::{Primitive, VariableType};
use vstd::prelude::*;

verus! {

// ---------------------------------------------------------------------
// Types and what is inserted for them

/// Which brackets a value of a type stands in.
#[derive(Debug, Clone, Copy, PartialEq, Eq, Structural)]
pub enum SchemaTypeKind {
    /// Quotes.
    Text,
    /// None: numbers, truth values and what is not known.
    Scalar,
    /// Square ones: lists, sets and tuples.
    Sequence,
    /// Curly ones: maps and objects.
    Mapping,
}

pub open spec fn constructor_kind(word: Seq<char>) -> SchemaTypeKind {
    if word == "list"@ || word == "set"@ || word == "tuple"@ {
        SchemaTypeKind::Sequence
    } else if word == "map"@ || word == "object"@ {
        SchemaTypeKind::Mapping
    } else {
        SchemaTypeKind::Scalar
    }
}

pub open spec fn type_kind(ty: Option<Json>) -> SchemaTypeKind {
    match ty {
        Some(Json::Str(s)) => if s@ == "string"@ {
            SchemaTypeKind::Text
        } else {
            SchemaTypeKind::Scalar
        },
        Some(Json::Array(v)) => match first_word(v@) {
            Some(w) => constructor_kind(w),
            None => SchemaTypeKind::Scalar,
        },
        _ => SchemaTypeKind::Scalar,
    }
}

/// The string that a JSON array starts with.
pub open spec fn first_word(v: Seq<Json>) -> Option<Seq<char>> {
    if v.len() > 0 {
        match v[0] {
            Json::Str(s) => Some(s@),
            _ => None,
        }
    } else {
        None
    }
}

fn leading_word<'a>(v: &'a Vec<Json>) -> (r: Option<&'a str>)
    ensures
        match r {
            Some(w) => first_word(v@) == Some(w@),
            None => first_word(v@) is None,
        },
{
    if v.len() > 0 {
        if let Json::Str(s) = &v[0] {
            return Some(s.as_str());
        }
    }
    None
}

/// The brackets that a schema's type asks for.
pub fn classify_schema_type(ty: &Option<Json>) -> (r: SchemaTypeKind)
    ensures
        r == type_kind(*ty),
{
    match ty {
        Some(Json::Str(s)) => if str_eq(s.as_str(), "string") {
            SchemaTypeKind::Text
        } else {
            SchemaTypeKind::Scalar
        },
        Some(Json::Array(v)) => match leading_word(v) {
            Some(w) => if str_eq(w, "list") || str_eq(w, "set") || str_eq(w, "tuple") {
                SchemaTypeKind::Sequence
            } else if str_eq(w, "map") || str_eq(w, "object") {
                SchemaTypeKind::Mapping
            } else {
                SchemaTypeKind::Scalar
            },
            None => SchemaTypeKind::Scalar,
        },
        _ => SchemaTypeKind::Scalar,
    }
}

/// `name = ` and a tabstop in the brackets of the kind.
pub open spec fn assignment(name: Seq<char>, kind: SchemaTypeKind) -> Seq<char> {
    name + match kind {
        SchemaTypeKind::Text => " = \"${1}\""@,
        SchemaTypeKind::Sequence => " = [${1}]"@,
        SchemaTypeKind::Mapping => " = {\n  ${1}\n}"@,
        SchemaTypeKind::Scalar => " = ${1}"@,
    }
}

fn assignment_text(name: &str, kind: SchemaTypeKind) -> (r: String)
    ensures
        r@ == assignment(name@, kind),
{
    let value = match kind {
        SchemaTypeKind::Text => " = \"${1}\"",
        SchemaTypeKind::Sequence => " = [${1}]",
        SchemaTypeKind::Mapping => " = {\n  ${1}\n}",
        SchemaTypeKind::Scalar => " = ${1}",
    };
    concat2(name, value)
}

/// The snippet that assigns an attribute, in the brackets of its type.
pub fn schema_attribute_insert_text(name: &str, attr: &AttributeSchema) -> (r: String)
    ensures
        r@ == assignment(name@, type_kind(attr.ty)),
{
    assignment_text(name, classify_schema_type(&attr.ty))
}

pub open spec fn variable_kind(ty: Option<VariableType>) -> SchemaTypeKind {
    match ty {
        Some(VariableType::Primitive(Primitive::Text)) => SchemaTypeKind::Text,
        Some(VariableType::ListOf(_)) => SchemaTypeKind::Sequence,
        Some(VariableType::SetOf(_)) => SchemaTypeKind::Sequence,
        Some(VariableType::Tuple(_)) => SchemaTypeKind::Sequence,
        Some(VariableType::MapOf(_)) => SchemaTypeKind::Mapping,
        Some(VariableType::Object(_)) => SchemaTypeKind::Mapping,
        _ => SchemaTypeKind::Scalar,
    }
}

pub open spec fn opt_type(ty: Option<&VariableType>) -> Option<VariableType> {
    match ty {
        Some(t) => Some(*t),
        None => None,
    }
}

/// The snippet that sets an input of a module, in the brackets of its type.
pub fn variable_insert_text(name: &str, ty: Option<&VariableType>) -> (r: String)
    ensures
        r@ == assignment(name@, variable_kind(opt_type(ty))),
{
    let kind = match ty {
        Some(VariableType::Primitive(Primitive::Text)) => SchemaTypeKind::Text,
        Some(VariableType::ListOf(_)) => SchemaTypeKind::Sequence,
        Some(VariableType::SetOf(_)) => SchemaTypeKind::Sequence,
        Some(VariableType::Tuple(_)) => SchemaTypeKind::Sequence,
        Some(VariableType::MapOf(_)) => SchemaTypeKind::Mapping,
        Some(VariableType::Object(_)) => SchemaTypeKind::Mapping,
        _ => SchemaTypeKind::Scalar,
    };
    assignment_text(name, kind)
}

/// What a schema says of an attribute in a line.
pub open spec fn detail_of(attr: AttributeSchema) -> Seq<char> {
    if schema_flags(attr).len() == 0 {
        "attribute"@
    } else {
        join(schema_flags(attr), ", "@)
    }
}

pub fn attribute_detail(attr: &AttributeSchema) -> (r: String)
    ensures
        r@ == detail_of(*attr),
{
    let flags = list_flags(attr);
    assert(texts(flags@).len() == flags@.len());
    if flags.len() == 0 {
        return "attribute".to_owned();
    }
    str_join(&flags, ", ")
}

// ---------------------------------------------------------------------
// Scaffolds

/// Tabstop `n` in the brackets of the kind.
pub open spec fn placeholder(kind: SchemaTypeKind, n: nat) -> Seq<char> {
    match kind {
        SchemaTypeKind::Text => "\"${"@ + decimal(n) + "}\""@,
        SchemaTypeKind::Sequence => "[${"@ + decimal(n) + "}]"@,
        SchemaTypeKind::Mapping => "{\n    ${"@ + decimal(n) + "}\n  }"@,
        SchemaTypeKind::Scalar => "${"@ + decimal(n) + "}"@,
    }
}

fn placeholder_text(kind: SchemaTypeKind, n: u128) -> (r: String)
    ensures
        r@ == placeholder(kind, n as nat),
{
    let d = u128_text(n);
    match kind {
        SchemaTypeKind::Text => concat3("\"${", d.as_str(), "}\""),
        SchemaTypeKind::Sequence => concat3("[${", d.as_str(), "}]"),
        SchemaTypeKind::Mapping => concat3("{\n    ${", d.as_str(), "}\n  }"),
        SchemaTypeKind::Scalar => concat3("${", d.as_str(), "}"),
    }
}

pub open spec fn required_name() -> spec_fn((String, AttributeSchema)) -> Option<Seq<char>> {
    |e: (String, AttributeSchema)|
        if e.1.required {
            Some(e.0@)
        } else {
            None
        }
}

/// The names of the attributes that a block must have, in order.
pub open spec fn required_names(block: BlockSchema) -> Seq<Seq<char>> {
    text_sort(filter_map(block.attributes@, required_name()))
}

fn list_required_names(block: &BlockSchema) -> (r: Vec<String>)
    ensures
        texts(r@) == required_names(*block),
{
    let ghost s = block.attributes@;
    let ghost f = required_name();
    let mut out: Vec<String> = Vec::new();
    proof {
        lemma_take_full(s);
    }
    assert(texts(out@) =~= filter_map(s.take(0), f));
    for i in 0..block.attributes.len()
        invariant
            s == block.attributes@,
            f == required_name(),
            texts(out@) == filter_map(s.take(i as int), f),
    {
        proof {
            lemma_filter_map_step(s, f, i as int);
        }
        let ghost before = texts(out@);
        if block.attributes[i].1.required {
            let name = block.attributes[i].0.clone();
            out.push(name);
            assert(texts(out@) =~= before.push(name@));
        }
    }
    sort_texts(out)
}

/// The kind of the attribute with a name.
pub open spec fn named_kind(block: BlockSchema, name: Seq<char>) -> SchemaTypeKind {
    match lookup(block.attributes@, name) {
        Some(a) => type_kind(a.ty),
        None => SchemaTypeKind::Scalar,
    }
}

/// The lines that assign the first `n` of the names, with tabstops counted up
/// from `tab`.
pub open spec fn scaffold_lines(block: BlockSchema, names: Seq<Seq<char>>, n: int, tab: nat) -> Seq<
    char,
>
    decreases n,
{
    if n <= 0 {
        Seq::empty()
    } else {
        scaffold_lines(block, names, n - 1, tab) + ("  "@ + names[n - 1] + " = "@ + placeholder(
            named_kind(block, names[n - 1]),
            (tab + n - 1) as nat,
        ) + "\n"@)
    }
}

fn render_lines(block: &BlockSchema, names: &Vec<String>, tab: u64) -> (r: String)
    ensures
        r@ == scaffold_lines(*block, texts(names@), names@.len() as int, tab as nat),
{
    let mut out = String::new();
    assert(out@ =~= scaffold_lines(*block, texts(names@), 0, tab as nat));
    for i in 0..names.len()
        invariant
            out@ == scaffold_lines(*block, texts(names@), i as int, tab as nat),
    {
        let name = names[i].as_str();
        let kind = match find_entry(&block.attributes, name) {
            Some(a) => classify_schema_type(&a.ty),
            None => SchemaTypeKind::Scalar,
        };
        let n: u128 = tab as u128 + i as u128;
        let value = placeholder_text(kind, n);
        let line = concat5("  ", name, " = ", value.as_str(), "\n");
        assert(texts(names@)[i as int] == name@);
        out.append(line.as_str());
    }
    out
}

/// A nested block with its required attributes filled in.
pub open spec fn nested_scaffold(name: Seq<char>, block: BlockSchema) -> Seq<char> {
    let names = required_names(block);
    if names.len() == 0 {
        name + " {\n  $0\n}"@
    } else {
        name + " {\n"@ + scaffold_lines(block, names, names.len() as int, 1) + "}"@
    }
}

pub fn nested_block_scaffold_snippet(name: &str, block: &BlockSchema) -> (r: String)
    ensures
        r@ == nested_scaffold(name@, *block),
{
    let names = list_required_names(block);
    assert(texts(names@).len() == names@.len());
    if names.len() == 0 {
        return concat2(name, " {\n  $0\n}");
    }
    let lines = render_lines(block, &names, 1);
    let head = concat2(name, " {\n");
    concat3(head.as_str(), lines.as_str(), "}")
}

/// What follows `resource "` or `data "`: the rest of the header and a body
/// with the required attributes.
pub open spec fn type_scaffold(ty: Seq<char>, schema: Option<ResourceSchema>) -> Seq<char> {
    ty + "\" \"${1:name}\" {\n"@ + scaffold_body(schema) + "}"@
}

pub open spec fn scaffold_body(schema: Option<ResourceSchema>) -> Seq<char> {
    match schema {
        Some(s) => {
            let names = required_names(s.block);
            if names.len() == 0 {
                "  $0\n"@
            } else {
                scaffold_lines(s.block, names, names.len() as int, 2)
            }
        },
        None => "  $0\n"@,
    }
}

/// The schema of a resource type or of a data source type.
pub open spec fn body_schema(schemas: Seq<SchemaEntry>, ty: Seq<char>, data: bool) -> Option<
    ResourceSchema,
> {
    if data {
        data_source_schema(schemas, ty)
    } else {
        resource_schema(schemas, ty)
    }
}

pub fn find_body_schema<'a>(schemas: &'a Vec<SchemaEntry>, ty: &str, data: bool) -> (r: Option<
    &'a ResourceSchema,
>)
    ensures
        match r {
            Some(s) => body_schema(schemas@, ty@, data) == Some(*s),
            None => body_schema(schemas@, ty@, data) is None,
        },
{
    if data {
        find_data_source_schema(schemas, ty)
    } else {
        find_resource_schema(schemas, ty)
    }
}

pub fn resource_scaffold_snippet(ty: &str, state: &StateStore, kind: &str) -> (r: String)
    ensures
        r@ == type_scaffold(ty@, body_schema(state.schemas@, ty@, kind@ == "data"@)),
{
    let data = str_eq(kind, "data");
    let body = match find_body_schema(&state.schemas, ty, data) {
        Some(s) => {
            let names = list_required_names(&s.block);
            assert(texts(names@).len() == names@.len());
            if names.len() == 0 {
                "  $0\n".to_owned()
            } else {
                render_lines(&s.block, &names, 2)
            }
        },
        None => "  $0\n".to_owned(),
    };
    let head = concat2(ty, "\" \"${1:name}\" {\n");
    concat3(head.as_str(), body.as_str(), "}")
}

// ---------------------------------------------------------------------
// Types

pub open spec fn schema_name() -> spec_fn((String, ResourceSchema)) -> Seq<char> {
    |e: (String, ResourceSchema)| e.0@
}

pub open spec fn types_of(data: bool) -> spec_fn(SchemaEntry) -> Seq<Seq<char>> {
    |e: SchemaEntry|
        each(
            if data {
                e.schema.data_source_schemas@
            } else {
                e.schema.resource_schemas@
            },
            schema_name(),
        )
}

/// The types that the loaded schemas know, in order and each once.
pub open spec fn known_types(schemas: Seq<SchemaEntry>, data: bool) -> Seq<Seq<char>> {
    name_set(flat_map(schemas, types_of(data)))
}

fn append_types(out: &mut Vec<String>, m: &Vec<(String, ResourceSchema)>)
    ensures
        texts(final(out)@) == texts(old(out)@) + each(m@, schema_name()),
{
    let ghost start = texts(out@);
    let ghost all = each(m@, schema_name());
    assert(texts(out@) =~= start + all.take(0));
    for i in 0..m.len()
        invariant
            all == each(m@, schema_name()),
            texts(out@) == start + all.take(i as int),
    {
        let ghost before = texts(out@);
        let name = m[i].0.clone();
        out.push(name);
        assert(texts(out@) =~= before.push(name@));
        assert(texts(out@) =~= start + all.take(i + 1));
    }
    assert(all.take(m@.len() as int) =~= all);
}

/// The types that the loaded schemas know.
pub fn list_known_types(schemas: &Vec<SchemaEntry>, data: bool) -> (r: Vec<String>)
    ensures
        texts(r@) == known_types(schemas@, data),
{
    let mut out: Vec<String> = Vec::new();
    let ghost f = types_of(data);
    proof {
        lemma_take_full(schemas@);
    }
    assert(texts(out@) =~= flat_map(schemas@.take(0), f));
    for i in 0..schemas.len()
        invariant
            f == types_of(data),
            texts(out@) == flat_map(schemas@.take(i as int), f),
    {
        proof {
            lemma_flat_map_step(schemas@, f, i as int);
        }
        if data {
            append_types(&mut out, &schemas[i].schema.data_source_schemas);
        } else {
            append_types(&mut out, &schemas[i].schema.resource_schemas);
        }
    }
    sort_dedup_names(&out)
}

pub open spec fn type_detail(data: bool) -> Seq<char> {
    if data {
        "data source type"@
    } else {
        "resource type"@
    }
}

/// The offer of a type: with the scaffold of the whole block, or bare.
pub open spec fn type_item(schemas: Seq<SchemaEntry>, data: bool, bare: bool) -> spec_fn(
    Seq<char>,
) -> ItemV {
    |name: Seq<char>|
        if bare {
            insert_item(name, ItemKind::Class, type_detail(data), name, InsertFormat::PlainText)
        } else {
            insert_item(
                name,
                ItemKind::Class,
                type_detail(data),
                type_scaffold(name, body_schema(schemas, name, data)),
                InsertFormat::Snippet,
            )
        }
}

pub open spec fn type_items(schemas: Seq<SchemaEntry>, data: bool, bare: bool) -> Seq<ItemV> {
    each(known_types(schemas, data), type_item(schemas, data, bare))
}

fn list_type_items(state: &StateStore, data: bool, bare: bool) -> (r: Vec<CompletionItem>)
    ensures
        items_view(r@) == type_items(state.schemas@, data, bare),
{
    let names = list_known_types(&state.schemas, data);
    let ghost s = known_types(state.schemas@, data);
    let ghost all = type_items(state.schemas@, data, bare);
    let mut out: Vec<CompletionItem> = Vec::new();
    assert(texts(names@).len() == names@.len());
    assert(items_view(out@) =~= all.take(0));
    for i in 0..names.len()
        invariant
            s == known_types(state.schemas@, data),
            texts(names@) == s,
            s.len() == names@.len(),
            all == type_items(state.schemas@, data, bare),
            items_view(out@) == all.take(i as int),
    {
        let name = names[i].as_str();
        assert(s[i as int] == name@);
        let detail = if data {
            "data source type"
        } else {
            "resource type"
        };
        let item = if bare {
            CompletionItem::inserting(
                name,
                ItemKind::Class,
                detail.to_owned(),
                name.to_owned(),
                InsertFormat::PlainText,
            )
        } else {
            proof {
                reveal_strlit("data");
                reveal_strlit("resource");
                assert("data"@.len() != "resource"@.len());
            }
            let kind = if data {
                "data"
            } else {
                "resource"
            };
            CompletionItem::inserting(
                name,
                ItemKind::Class,
                detail.to_owned(),
                resource_scaffold_snippet(name, state, kind),
                InsertFormat::Snippet,
            )
        };
        push_item(&mut out, item);
        assert(items_view(out@) =~= all.take(i + 1));
    }
    assert(all.take(names@.len() as int) =~= all);
    out
}

pub fn resource_type_items(state: &StateStore) -> (r: Vec<CompletionItem>)
    ensures
        items_view(r@) == type_items(state.schemas@, false, false),
{
    list_type_items(state, false, false)
}

pub fn data_source_type_items(state: &StateStore) -> (r: Vec<CompletionItem>)
    ensures
        items_view(r@) == type_items(state.schemas@, true, false),
{
    list_type_items(state, true, false)
}

pub fn resource_type_items_bare(state: &StateStore) -> (r: Vec<CompletionItem>)
    ensures
        items_view(r@) == type_items(state.schemas@, false, true),
{
    list_type_items(state, false, true)
}

pub fn data_source_type_items_bare(state: &StateStore) -> (r: Vec<CompletionItem>)
    ensures
        items_view(r@) == type_items(state.schemas@, true, true),
{
    list_type_items(state, true, true)
}

} // verus!
