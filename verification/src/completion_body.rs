//! Completion in the bodies of resources, data sources and provider blocks.

use crate::actions::copy_opt;
use crate::builtin::{BuiltinAttr, Language, MetaBlock};
use crate::completion_cursor::{is_listed, occurrences, BodyFilter, FilterV};
use crate::completion_item::{
    insert_item, items_view, lemma_sorted_contains, push_item, sort_items, sorted_items,
    CompletionItem, InsertFormat, ItemKind, ItemV, SortBy,
};
use crate::order::text_lt;
use crate::completion_schema::{
    assignment, attribute_detail, body_schema, detail_of, find_body_schema, first_word,
    nested_block_scaffold_snippet, nested_scaffold, schema_attribute_insert_text, type_kind,
};
use crate::schema::{
    find_entry, find_provider_schema, lookup, provider_schema, AttributeSchema, BlockSchema, Json,
    NestedBlockSchema, NestingMode,
};
use crate::seqs::{
    each, filter_map, lemma_filter_map_from, lemma_filter_map_step, lemma_take_full,
};
use crate::state::StateStore;
use crate::text::{concat2, opt_view, str_eq, texts};
use vstd::prelude::*;

verus! {

// ---------------------------------------------------------------------
// Attributes that are written as blocks

/// The object in a type: the type itself, or what a collection of it holds.
pub open spec fn object_node(t: Json) -> Option<Json>
    decreases t,
{
    match t {
        Json::Array(v) => match first_word(v@) {
            Some(w) => if w == "object"@ {
                Some(t)
            } else if (w == "set"@ || w == "list"@ || w == "map"@) && v@.len() > 1 {
                object_node(v@[1])
            } else {
                None
            },
            None => None,
        },
        _ => None,
    }
}

pub open spec fn opt_json(j: Option<&Json>) -> Option<Json> {
    match j {
        Some(j) => Some(*j),
        None => None,
    }
}

pub fn block_like_object_node<'a>(t: &'a Json) -> (r: Option<&'a Json>)
    ensures
        opt_json(r) == object_node(*t),
    decreases *t,
{
    if let Json::Array(v) = t {
        proof {
            assert(decreases_to!(*t => *v));
            assert(decreases_to!(*v => v@));
        }
        if v.len() > 0 {
            if let Json::Str(w) = &v[0] {
                if str_eq(w.as_str(), "object") {
                    return Some(t);
                }
                if (str_eq(w.as_str(), "set") || str_eq(w.as_str(), "list") || str_eq(
                    w.as_str(),
                    "map",
                )) && v.len() > 1 {
                    proof {
                        assert(decreases_to!(v@ => v@[1]));
                    }
                    return block_like_object_node(&v[1]);
                }
            }
        }
    }
    None
}

/// The fields of an object's type.
pub open spec fn object_fields(node: Json) -> Option<Seq<(String, Json)>> {
    match node {
        Json::Array(v) => if v@.len() > 1 {
            match v@[1] {
                Json::Object(m) => Some(m@),
                _ => None,
            }
        } else {
            None
        },
        _ => None,
    }
}

pub open spec fn field_type(node: Json, name: Seq<char>) -> Option<Json> {
    match object_fields(node) {
        Some(m) => lookup(m, name),
        None => None,
    }
}

/// The type of a field of an object's type.
pub fn field_type_in_object<'a>(node: &'a Json, name: &str) -> (r: Option<&'a Json>)
    ensures
        opt_json(r) == field_type(*node, name@),
{
    if let Json::Array(v) = node {
        if v.len() > 1 {
            if let Json::Object(m) = &v[1] {
                return find_entry(m, name);
            }
        }
    }
    None
}

pub open spec fn string_value() -> spec_fn(Json) -> Option<Seq<char>> {
    |j: Json|
        match j {
            Json::Str(s) => Some(s@),
            _ => None,
        }
}

/// The names of the fields that an object need not have.
pub open spec fn optional_fields(node: Json) -> Seq<Seq<char>> {
    match node {
        Json::Array(v) => if v@.len() > 2 {
            match v@[2] {
                Json::Array(names) => filter_map(names@, string_value()),
                _ => Seq::empty(),
            }
        } else {
            Seq::empty()
        },
        _ => Seq::empty(),
    }
}

fn list_optional_fields(node: &Json) -> (r: Vec<String>)
    ensures
        texts(r@) == optional_fields(*node),
{
    let mut out: Vec<String> = Vec::new();
    assert(texts(out@) =~= Seq::<Seq<char>>::empty());
    if let Json::Array(v) = node {
        if v.len() > 2 {
            if let Json::Array(names) = &v[2] {
                let ghost f = string_value();
                proof {
                    lemma_take_full(names@);
                }
                for i in 0..names.len()
                    invariant
                        f == string_value(),
                        texts(out@) == filter_map(names@.take(i as int), f),
                {
                    proof {
                        lemma_filter_map_step(names@, f, i as int);
                    }
                    let ghost before = texts(out@);
                    if let Json::Str(s) = &names[i] {
                        let name = s.clone();
                        out.push(name);
                        assert(texts(out@) =~= before.push(name@));
                    }
                }
            }
        }
    }
    out
}

/// The offer of a field: the required ones stand first.
pub open spec fn field_item(filter: FilterV, optional: Seq<Seq<char>>) -> spec_fn(
    (String, Json),
) -> Option<ItemV> {
    |e: (String, Json)|
        if filter.attrs.contains(e.0@) {
            None
        } else if optional.contains(e.0@) {
            Some(
                ItemV {
                    sort_text: Some("1_"@ + e.0@),
                    ..insert_item(
                        e.0@,
                        ItemKind::Property,
                        "attribute"@,
                        e.0@ + " = "@,
                        InsertFormat::PlainText,
                    )
                },
            )
        } else {
            Some(
                ItemV {
                    sort_text: Some("0_"@ + e.0@),
                    ..insert_item(
                        e.0@,
                        ItemKind::Field,
                        "attribute (required)"@,
                        e.0@ + " = "@,
                        InsertFormat::PlainText,
                    )
                },
            )
        }
}

pub open spec fn field_items(node: Json, filter: FilterV) -> Seq<ItemV> {
    match object_fields(node) {
        Some(m) => sorted_items(
            SortBy::SortText,
            filter_map(m, field_item(filter, optional_fields(node))),
        ),
        None => Seq::empty(),
    }
}

fn list_field_items(m: &Vec<(String, Json)>, optional: &Vec<String>, filter: &BodyFilter) -> (r: Vec<
    CompletionItem,
>)
    ensures
        items_view(r@) == filter_map(m@, field_item(filter@, texts(optional@))),
{
    let ghost f = field_item(filter@, texts(optional@));
    let mut out: Vec<CompletionItem> = Vec::new();
    proof {
        lemma_take_full(m@);
    }
    assert(items_view(out@) =~= filter_map(m@.take(0), f));
    for i in 0..m.len()
        invariant
            f == field_item(filter@, texts(optional@)),
            items_view(out@) == filter_map(m@.take(i as int), f),
    {
        proof {
            lemma_filter_map_step(m@, f, i as int);
        }
        let name = m[i].0.as_str();
        if !filter.has_attr(name) {
            let text = concat2(name, " = ");
            let item = if is_listed(optional, name) {
                CompletionItem::inserting(
                    name,
                    ItemKind::Property,
                    "attribute".to_owned(),
                    text,
                    InsertFormat::PlainText,
                ).with_sort(concat2("1_", name))
            } else {
                CompletionItem::inserting(
                    name,
                    ItemKind::Field,
                    "attribute (required)".to_owned(),
                    text,
                    InsertFormat::PlainText,
                ).with_sort(concat2("0_", name))
            };
            push_item(&mut out, item);
        }
    }
    out
}

/// The fields of an object that are not set yet.
pub fn object_field_items(node: &Json, filter: &BodyFilter) -> (r: Vec<CompletionItem>)
    ensures
        items_view(r@) == field_items(*node, filter@),
{
    if let Json::Array(v) = node {
        if v.len() > 1 {
            if let Json::Object(m) = &v[1] {
                let optional = list_optional_fields(node);
                let items = list_field_items(m, &optional, filter);
                return sort_items(&items, SortBy::SortText);
            }
        }
    }
    let none: Vec<CompletionItem> = Vec::new();
    assert(items_view(none@) =~= Seq::<ItemV>::empty());
    none
}

// ---------------------------------------------------------------------
// The schema at a path of nested blocks

/// What governs a body: the schema of a block, or an object's type.
pub enum NodeV {
    Schema(BlockSchema),
    Fields(Json),
}

pub enum BodyNode<'a> {
    Schema(&'a BlockSchema),
    Fields(&'a Json),
}

pub open spec fn node_view(n: Option<BodyNode>) -> Option<NodeV> {
    match n {
        Some(BodyNode::Schema(b)) => Some(NodeV::Schema(*b)),
        Some(BodyNode::Fields(j)) => Some(NodeV::Fields(*j)),
        None => None,
    }
}

pub open spec fn fields_node(t: Option<Json>) -> Option<NodeV> {
    match t {
        Some(t) => match object_node(t) {
            Some(n) => Some(NodeV::Fields(n)),
            None => None,
        },
        None => None,
    }
}

/// One step down: into a nested block, into an attribute that is written as a
/// block, or into a field of an object.
pub open spec fn step_into(node: NodeV, name: Seq<char>) -> Option<NodeV> {
    match node {
        NodeV::Fields(j) => fields_node(field_type(j, name)),
        NodeV::Schema(b) => match lookup(b.block_types@, name) {
            Some(nb) => Some(NodeV::Schema(nb.block)),
            None => match lookup(b.attributes@, name) {
                Some(a) => if a.block_like {
                    fields_node(a.ty)
                } else {
                    None
                },
                None => None,
            },
        },
    }
}

/// Where the first `n` names of a path lead.
pub open spec fn node_at(root: BlockSchema, path: Seq<Seq<char>>, n: int) -> Option<NodeV>
    decreases n,
{
    if n <= 0 {
        Some(NodeV::Schema(root))
    } else {
        match node_at(root, path, n - 1) {
            Some(node) => step_into(node, path[n - 1]),
            None => None,
        }
    }
}

fn fields_of<'a>(t: Option<&'a Json>) -> (r: Option<BodyNode<'a>>)
    ensures
        node_view(r) == fields_node(opt_json(t)),
{
    match t {
        Some(t) => match block_like_object_node(t) {
            Some(n) => Some(BodyNode::Fields(n)),
            None => None,
        },
        None => None,
    }
}

fn step<'a>(node: BodyNode<'a>, name: &str) -> (r: Option<BodyNode<'a>>)
    ensures
        node_view(r) == step_into(node_view(Some(node))->0, name@),
{
    match node {
        BodyNode::Fields(j) => fields_of(field_type_in_object(j, name)),
        BodyNode::Schema(b) => match find_entry(&b.block_types, name) {
            Some(nb) => Some(BodyNode::Schema(&nb.block)),
            None => match find_entry(&b.attributes, name) {
                Some(a) => if a.block_like {
                    match &a.ty {
                        Some(t) => fields_of(Some(t)),
                        None => None,
                    }
                } else {
                    None
                },
                None => None,
            },
        },
    }
}

proof fn lemma_lost(root: BlockSchema, path: Seq<Seq<char>>, n: int, m: int)
    requires
        0 <= n <= m,
        node_at(root, path, n) is None,
    ensures
        node_at(root, path, m) is None,
    decreases m - n,
{
    if n < m {
        assert(node_at(root, path, n + 1) is None);
        lemma_lost(root, path, n + 1, m);
    }
}

fn find_node<'a>(root: &'a BlockSchema, path: &Vec<String>) -> (r: Option<BodyNode<'a>>)
    ensures
        node_view(r) == node_at(*root, texts(path@), path@.len() as int),
{
    let mut node = BodyNode::Schema(root);
    for i in 0..path.len()
        invariant
            node_view(Some(node)) == node_at(*root, texts(path@), i as int),
    {
        assert(texts(path@)[i as int] == path@[i as int]@);
        match step(node, path[i].as_str()) {
            Some(n) => {
                node = n;
            },
            None => {
                proof {
                    lemma_lost(*root, texts(path@), i + 1, path@.len() as int);
                }
                return None;
            },
        }
    }
    Some(node)
}

// ---------------------------------------------------------------------
// Attributes and nested blocks

pub open spec fn attribute_kind(required: bool) -> ItemKind {
    if required {
        ItemKind::Field
    } else {
        ItemKind::Property
    }
}

pub open spec fn attribute_bucket(a: AttributeSchema) -> Seq<char> {
    if a.deprecated {
        "8_"@
    } else if a.required {
        "0_"@
    } else {
        "1_"@
    }
}

/// The offer of an attribute that can be set and is not set yet.
pub open spec fn body_attr_item(filter: FilterV) -> spec_fn((String, AttributeSchema)) -> Option<
    ItemV,
> {
    |e: (String, AttributeSchema)|
        if !filter.attrs.contains(e.0@) && (e.1.required || e.1.optional) {
            Some(
                ItemV {
                    sort_text: Some(attribute_bucket(e.1) + e.0@),
                    documentation: opt_view(e.1.description),
                    deprecated: e.1.deprecated,
                    ..insert_item(
                        e.0@,
                        attribute_kind(e.1.required),
                        detail_of(e.1),
                        assignment(e.0@, type_kind(e.1.ty)),
                        InsertFormat::Snippet,
                    )
                },
            )
        } else {
            None
        }
}

/// One more of the nested block may stand in a body that has `count` of it.
pub open spec fn may_add(nb: NestedBlockSchema, count: nat) -> bool {
    if nb.nesting_mode == NestingMode::Single {
        count == 0
    } else {
        nb.max_items == 0 || count < nb.max_items
    }
}

pub open spec fn block_item(name: Seq<char>, nb: NestedBlockSchema) -> ItemV {
    ItemV {
        sort_text: Some(
            if nb.block.deprecated {
                "9_"@ + name
            } else {
                "2_"@ + name
            },
        ),
        deprecated: nb.block.deprecated,
        ..insert_item(
            name,
            ItemKind::Struct,
            if nb.block.deprecated {
                "nested block — deprecated"@
            } else {
                "nested block"@
            },
            nested_scaffold(name, nb.block),
            InsertFormat::Snippet,
        )
    }
}

/// The offer of a nested block that may still be added.
pub open spec fn body_block_item(filter: FilterV) -> spec_fn((String, NestedBlockSchema)) -> Option<
    ItemV,
> {
    |e: (String, NestedBlockSchema)|
        if may_add(e.1, occurrences(filter.blocks, e.0@)) {
            Some(block_item(e.0@, e.1))
        } else {
            None
        }
}

fn push_attr_items(out: &mut Vec<CompletionItem>, block: &BlockSchema, filter: &BodyFilter)
    ensures
        items_view(final(out)@) == items_view(old(out)@) + filter_map(
            block.attributes@,
            body_attr_item(filter@),
        ),
{
    let ghost s = block.attributes@;
    let ghost f = body_attr_item(filter@);
    let ghost start = items_view(out@);
    proof {
        lemma_take_full(s);
    }
    assert(items_view(out@) =~= start + filter_map(s.take(0), f));
    for i in 0..block.attributes.len()
        invariant
            s == block.attributes@,
            f == body_attr_item(filter@),
            items_view(out@) == start + filter_map(s.take(i as int), f),
    {
        proof {
            lemma_filter_map_step(s, f, i as int);
        }
        let name = block.attributes[i].0.as_str();
        let attr = &block.attributes[i].1;
        if !filter.has_attr(name) && (attr.required || attr.optional) {
            let kind = if attr.required {
                ItemKind::Field
            } else {
                ItemKind::Property
            };
            let bucket = if attr.deprecated {
                "8_"
            } else if attr.required {
                "0_"
            } else {
                "1_"
            };
            let mut item = CompletionItem::inserting(
                name,
                kind,
                attribute_detail(attr),
                schema_attribute_insert_text(name, attr),
                InsertFormat::Snippet,
            );
            item.sort_text = Some(concat2(bucket, name));
            item.documentation = copy_opt(&attr.description);
            item.deprecated = attr.deprecated;
            push_item(out, item);
            assert(item@ =~= f(s[i as int])->0);
        }
        assert(items_view(out@) =~= start + filter_map(s.take(i + 1), f));
    }
}

fn push_block_items(out: &mut Vec<CompletionItem>, block: &BlockSchema, filter: &BodyFilter)
    ensures
        items_view(final(out)@) == items_view(old(out)@) + filter_map(
            block.block_types@,
            body_block_item(filter@),
        ),
{
    let ghost s = block.block_types@;
    let ghost f = body_block_item(filter@);
    let ghost start = items_view(out@);
    proof {
        lemma_take_full(s);
    }
    assert(items_view(out@) =~= start + filter_map(s.take(0), f));
    for i in 0..block.block_types.len()
        invariant
            s == block.block_types@,
            f == body_block_item(filter@),
            items_view(out@) == start + filter_map(s.take(i as int), f),
    {
        proof {
            lemma_filter_map_step(s, f, i as int);
        }
        let name = block.block_types[i].0.as_str();
        let nb = &block.block_types[i].1;
        let count = filter.block_count(name);
        let may = if nb.nesting_mode == NestingMode::Single {
            count == 0
        } else {
            nb.max_items == 0 || (count as u64) < nb.max_items
        };
        if may {
            let detail = if nb.block.deprecated {
                "nested block — deprecated"
            } else {
                "nested block"
            };
            let bucket = if nb.block.deprecated {
                "9_"
            } else {
                "2_"
            };
            let mut item = CompletionItem::inserting(
                name,
                ItemKind::Struct,
                detail.to_owned(),
                nested_block_scaffold_snippet(name, &nb.block),
                InsertFormat::Snippet,
            );
            item.sort_text = Some(concat2(bucket, name));
            item.deprecated = nb.block.deprecated;
            push_item(out, item);
            assert(item@ =~= f(s[i as int])->0);
        }
        assert(items_view(out@) =~= start + filter_map(s.take(i + 1), f));
    }
}

// ---------------------------------------------------------------------
// Meta-arguments and meta-blocks

/// A description as documentation: none where it is empty.
pub open spec fn doc_of(text: Seq<char>) -> Option<Seq<char>> {
    if text.len() == 0 {
        None
    } else {
        Some(text)
    }
}

pub fn documentation_of(text: &str) -> (r: Option<String>)
    ensures
        opt_view(r) == doc_of(text@),
{
    if text.is_empty() {
        None
    } else {
        Some(text.to_owned())
    }
}

/// The offer of a meta-argument.
pub open spec fn meta_attr_item() -> spec_fn((String, String)) -> ItemV {
    |e: (String, String)|
        ItemV {
            documentation: doc_of(e.1@),
            ..insert_item(
                e.0@,
                ItemKind::Property,
                "meta-argument"@,
                if e.0@ == "depends_on"@ {
                    e.0@ + " = [${1}]"@
                } else {
                    e.0@ + " = ${1}"@
                },
                InsertFormat::Snippet,
            )
        }
}

/// The meta-arguments that every resource and data source may have.
pub fn meta_argument_items(lang: &Language) -> (r: Vec<CompletionItem>)
    ensures
        items_view(r@) == each(lang.meta_attrs@, meta_attr_item()),
{
    let ghost all = each(lang.meta_attrs@, meta_attr_item());
    let mut out: Vec<CompletionItem> = Vec::new();
    assert(items_view(out@) =~= all.take(0));
    for i in 0..lang.meta_attrs.len()
        invariant
            all == each(lang.meta_attrs@, meta_attr_item()),
            items_view(out@) == all.take(i as int),
    {
        let name = lang.meta_attrs[i].0.as_str();
        let value = if str_eq(name, "depends_on") {
            " = [${1}]"
        } else {
            " = ${1}"
        };
        let item = CompletionItem::inserting(
            name,
            ItemKind::Property,
            "meta-argument".to_owned(),
            concat2(name, value),
            InsertFormat::Snippet,
        ).with_documentation(documentation_of(lang.meta_attrs[i].1.as_str()));
        push_item(&mut out, item);
        assert(items_view(out@) =~= all.take(i + 1));
    }
    assert(all.take(lang.meta_attrs@.len() as int) =~= all);
    out
}

pub open spec fn meta_block_snippet(name: Seq<char>) -> Seq<char> {
    if name == "provisioner"@ {
        "provisioner \"${1:local-exec}\" {\n  $0\n}"@
    } else if name == "dynamic"@ {
        "dynamic \"${1:block_name}\" {\n  for_each = ${2}\n\n  content {\n    $0\n  }\n}"@
    } else {
        name + " {\n  $0\n}"@
    }
}

fn meta_block_text(name: &str) -> (r: String)
    ensures
        r@ == meta_block_snippet(name@),
{
    if str_eq(name, "provisioner") {
        "provisioner \"${1:local-exec}\" {\n  $0\n}".to_owned()
    } else if str_eq(name, "dynamic") {
        "dynamic \"${1:block_name}\" {\n  for_each = ${2}\n\n  content {\n    $0\n  }\n}".to_owned()
    } else {
        concat2(name, " {\n  $0\n}")
    }
}

pub open spec fn meta_block_item() -> spec_fn(MetaBlock) -> ItemV {
    |b: MetaBlock|
        ItemV {
            documentation: doc_of(b.description@),
            ..insert_item(
                b.name@,
                ItemKind::Struct,
                "meta-block"@,
                meta_block_snippet(b.name@),
                InsertFormat::Snippet,
            )
        }
}

/// The meta-blocks of resources or of data sources.
pub open spec fn meta_blocks(lang: Language, data: bool) -> Seq<MetaBlock> {
    if data {
        lang.data_meta_blocks@
    } else {
        lang.resource_meta_blocks@
    }
}

fn meta_block_list<'a>(lang: &'a Language, data: bool) -> (r: &'a Vec<MetaBlock>)
    ensures
        r@ == meta_blocks(*lang, data),
{
    if data {
        &lang.data_meta_blocks
    } else {
        &lang.resource_meta_blocks
    }
}

fn render_meta_block(b: &MetaBlock) -> (r: CompletionItem)
    ensures
        r@ == meta_block_item()(*b),
{
    CompletionItem::inserting(
        b.name.as_str(),
        ItemKind::Struct,
        "meta-block".to_owned(),
        meta_block_text(b.name.as_str()),
        InsertFormat::Snippet,
    ).with_documentation(documentation_of(b.description.as_str()))
}

pub fn meta_block_items(lang: &Language, data: bool) -> (r: Vec<CompletionItem>)
    ensures
        items_view(r@) == each(meta_blocks(*lang, data), meta_block_item()),
{
    let list = meta_block_list(lang, data);
    let ghost all = each(meta_blocks(*lang, data), meta_block_item());
    let mut out: Vec<CompletionItem> = Vec::new();
    assert(items_view(out@) =~= all.take(0));
    for i in 0..list.len()
        invariant
            list@ == meta_blocks(*lang, data),
            all == each(meta_blocks(*lang, data), meta_block_item()),
            items_view(out@) == all.take(i as int),
    {
        let item = render_meta_block(&list[i]);
        push_item(&mut out, item);
        assert(items_view(out@) =~= all.take(i + 1));
    }
    assert(all.take(list@.len() as int) =~= all);
    out
}

/// A meta-argument that is not set yet.
pub open spec fn free_meta_attr(filter: FilterV) -> spec_fn((String, String)) -> Option<ItemV> {
    |e: (String, String)|
        if filter.attrs.contains(e.0@) {
            None
        } else {
            Some(meta_attr_item()(e))
        }
}

/// A meta-block that may still be added.
pub open spec fn free_meta_block(filter: FilterV) -> spec_fn(MetaBlock) -> Option<ItemV> {
    |b: MetaBlock|
        if b.singleton && filter.blocks.contains(b.name@) {
            None
        } else {
            Some(meta_block_item()(b))
        }
}

fn push_meta_items(out: &mut Vec<CompletionItem>, lang: &Language, data: bool, filter: &BodyFilter)
    ensures
        items_view(final(out)@) == items_view(old(out)@) + filter_map(
            lang.meta_attrs@,
            free_meta_attr(filter@),
        ) + filter_map(meta_blocks(*lang, data), free_meta_block(filter@)),
{
    let ghost start = items_view(out@);
    let attrs = meta_argument_items(lang);
    let ghost s = lang.meta_attrs@;
    let ghost f = free_meta_attr(filter@);
    proof {
        lemma_take_full(s);
        assert(items_view(attrs@).len() == s.len());
    }
    assert(items_view(out@) =~= start + filter_map(s.take(0), f));
    for i in 0..attrs.len()
        invariant
            s == lang.meta_attrs@,
            f == free_meta_attr(filter@),
            items_view(attrs@) == each(s, meta_attr_item()),
            attrs@.len() == s.len(),
            items_view(out@) == start + filter_map(s.take(i as int), f),
    {
        proof {
            lemma_filter_map_step(s, f, i as int);
            assert(items_view(attrs@)[i as int] == meta_attr_item()(s[i as int]));
        }
        if !filter.has_attr(attrs[i].label.as_str()) {
            let item = attrs[i].duplicate();
            push_item(out, item);
        }
        assert(items_view(out@) =~= start + filter_map(s.take(i + 1), f));
    }
    let ghost middle = items_view(out@);
    let list = meta_block_list(lang, data);
    let ghost t = list@;
    let ghost g = free_meta_block(filter@);
    proof {
        lemma_take_full(t);
    }
    assert(items_view(out@) =~= middle + filter_map(t.take(0), g));
    for i in 0..list.len()
        invariant
            t == list@,
            g == free_meta_block(filter@),
            items_view(out@) == middle + filter_map(t.take(i as int), g),
    {
        proof {
            lemma_filter_map_step(t, g, i as int);
        }
        if !(list[i].singleton && filter.block_present(list[i].name.as_str())) {
            let item = render_meta_block(&list[i]);
            push_item(out, item);
        }
        assert(items_view(out@) =~= middle + filter_map(t.take(i + 1), g));
    }
}

/// An item without a place in the order goes behind the attributes and blocks
/// of the schema.
pub open spec fn behind_schema() -> spec_fn(ItemV) -> ItemV {
    |x: ItemV|
        if x.sort_text is None {
            ItemV { sort_text: Some("3_"@ + x.label), ..x }
        } else {
            x
        }
}

fn place_items(v: &Vec<CompletionItem>) -> (r: Vec<CompletionItem>)
    ensures
        items_view(r@) == each(items_view(v@), behind_schema()),
{
    let ghost all = each(items_view(v@), behind_schema());
    let mut out: Vec<CompletionItem> = Vec::new();
    assert(items_view(out@) =~= all.take(0));
    for i in 0..v.len()
        invariant
            all == each(items_view(v@), behind_schema()),
            items_view(out@) == all.take(i as int),
    {
        let mut item = v[i].duplicate();
        if item.sort_text.is_none() {
            item.sort_text = Some(concat2("3_", item.label.as_str()));
        }
        assert(item@ =~= behind_schema()(v@[i as int]@));
        push_item(&mut out, item);
        assert(items_view(out@) =~= all.take(i + 1));
    }
    assert(all.take(v@.len() as int) =~= all);
    out
}

// ---------------------------------------------------------------------
// Bodies

/// What is offered in a body, before it is put in order. The meta-arguments and
/// meta-blocks belong to the outermost body alone.
pub open spec fn schema_items(lang: Language, b: BlockSchema, data: bool, filter: FilterV, nested: bool) -> Seq<
    ItemV,
> {
    let own = filter_map(b.attributes@, body_attr_item(filter)) + filter_map(
        b.block_types@,
        body_block_item(filter),
    );
    if nested {
        own
    } else {
        own + filter_map(lang.meta_attrs@, free_meta_attr(filter)) + filter_map(
            meta_blocks(lang, data),
            free_meta_block(filter),
        )
    }
}

/// What is offered in the body of a resource or a data source, or in one of its
/// nested blocks.
pub open spec fn body_items(
    state: StateStore,
    lang: Language,
    ty: Seq<char>,
    data: bool,
    filter: FilterV,
    path: Seq<Seq<char>>,
) -> Seq<ItemV> {
    match body_schema(state.schemas@, ty, data) {
        Some(s) => match node_at(s.block, path, path.len() as int) {
            Some(NodeV::Fields(j)) => field_items(j, filter),
            Some(NodeV::Schema(b)) => sorted_items(
                SortBy::SortText,
                each(schema_items(lang, b, data, filter, path.len() > 0), behind_schema()),
            ),
            None => Seq::empty(),
        },
        None => Seq::empty(),
    }
}

pub fn no_items() -> (r: Vec<CompletionItem>)
    ensures
        items_view(r@) == Seq::<ItemV>::empty(),
{
    let none: Vec<CompletionItem> = Vec::new();
    assert(items_view(none@) =~= Seq::<ItemV>::empty());
    none
}

/// The attributes, nested blocks and meta-arguments that can be added.
pub fn resource_body_items(
    state: &StateStore,
    lang: &Language,
    ty: &str,
    data: bool,
    filter: &BodyFilter,
    nested_path: &Vec<String>,
) -> (r: Vec<CompletionItem>)
    ensures
        items_view(r@) == body_items(*state, *lang, ty@, data, filter@, texts(nested_path@)),
{
    assert(texts(nested_path@).len() == nested_path@.len());
    let schema = match find_body_schema(&state.schemas, ty, data) {
        Some(s) => s,
        None => {
            return no_items();
        },
    };
    let node = match find_node(&schema.block, nested_path) {
        Some(n) => n,
        None => {
            return no_items();
        },
    };
    match node {
        BodyNode::Fields(j) => object_field_items(j, filter),
        BodyNode::Schema(b) => {
            let mut items = no_items();
            push_attr_items(&mut items, b, filter);
            push_block_items(&mut items, b, filter);
            let ghost own = filter_map(b.attributes@, body_attr_item(filter@)) + filter_map(
                b.block_types@,
                body_block_item(filter@),
            );
            assert(items_view(items@) =~= own);
            if nested_path.len() == 0 {
                push_meta_items(&mut items, lang, data, filter);
            }
            let placed = place_items(&items);
            sort_items(&placed, SortBy::SortText)
        },
    }
}

// ---------------------------------------------------------------------
// Provider blocks

/// The offer of a setting of a provider.
pub open spec fn provider_attr_item(filter: FilterV) -> spec_fn((String, AttributeSchema)) -> Option<
    ItemV,
> {
    |e: (String, AttributeSchema)|
        if !filter.attrs.contains(e.0@) && (e.1.required || e.1.optional) {
            Some(
                ItemV {
                    documentation: opt_view(e.1.description),
                    ..insert_item(
                        e.0@,
                        attribute_kind(e.1.required),
                        detail_of(e.1),
                        assignment(e.0@, type_kind(e.1.ty)),
                        InsertFormat::Snippet,
                    )
                },
            )
        } else {
            None
        }
}

pub open spec fn provider_meta_item(filter: FilterV) -> spec_fn(BuiltinAttr) -> Option<ItemV> {
    |a: BuiltinAttr|
        if filter.attrs.contains(a.name@) {
            None
        } else {
            Some(
                ItemV {
                    documentation: Some(a.detail@),
                    ..insert_item(
                        a.name@,
                        ItemKind::Property,
                        a.detail@,
                        a.name@ + " = ${1}"@,
                        InsertFormat::Snippet,
                    )
                },
            )
        }
}

pub open spec fn provider_settings(state: StateStore, name: Seq<char>, filter: FilterV) -> Seq<
    ItemV,
> {
    match provider_schema(state.schemas@, name) {
        Some(s) => filter_map(s.block.attributes@, provider_attr_item(filter)),
        None => Seq::empty(),
    }
}

/// What is offered in a provider block: the provider's own settings and those
/// that every provider has.
pub open spec fn provider_items(state: StateStore, lang: Language, name: Seq<char>, filter: FilterV) -> Seq<
    ItemV,
> {
    sorted_items(
        SortBy::Label,
        provider_settings(state, name, filter) + filter_map(
            lang.provider_meta@,
            provider_meta_item(filter),
        ),
    )
}

fn list_provider_settings(attributes: &Vec<(String, AttributeSchema)>, filter: &BodyFilter) -> (r: Vec<
    CompletionItem,
>)
    ensures
        items_view(r@) == filter_map(attributes@, provider_attr_item(filter@)),
{
    let ghost s = attributes@;
    let ghost f = provider_attr_item(filter@);
    let mut out = no_items();
    proof {
        lemma_take_full(s);
    }
    for i in 0..attributes.len()
        invariant
            s == attributes@,
            f == provider_attr_item(filter@),
            items_view(out@) == filter_map(s.take(i as int), f),
    {
        proof {
            lemma_filter_map_step(s, f, i as int);
        }
        let name = attributes[i].0.as_str();
        let attr = &attributes[i].1;
        if !filter.has_attr(name) && (attr.required || attr.optional) {
            let kind = if attr.required {
                ItemKind::Field
            } else {
                ItemKind::Property
            };
            let item = CompletionItem::inserting(
                name,
                kind,
                attribute_detail(attr),
                schema_attribute_insert_text(name, attr),
                InsertFormat::Snippet,
            ).with_documentation(copy_opt(&attr.description));
            push_item(&mut out, item);
        }
    }
    out
}

pub fn provider_block_body_items(state: &StateStore, lang: &Language, name: &str, filter: &BodyFilter) -> (r:
    Vec<CompletionItem>)
    ensures
        items_view(r@) == provider_items(*state, *lang, name@, filter@),
{
    let mut out = match find_provider_schema(&state.schemas, name) {
        Some(s) => list_provider_settings(&s.block.attributes, filter),
        None => no_items(),
    };
    let ghost start = items_view(out@);
    let ghost t = lang.provider_meta@;
    let ghost g = provider_meta_item(filter@);
    proof {
        lemma_take_full(t);
    }
    assert(items_view(out@) =~= start + filter_map(t.take(0), g));
    for i in 0..lang.provider_meta.len()
        invariant
            t == lang.provider_meta@,
            g == provider_meta_item(filter@),
            items_view(out@) == start + filter_map(t.take(i as int), g),
    {
        proof {
            lemma_filter_map_step(t, g, i as int);
        }
        let a = &lang.provider_meta[i];
        if !filter.has_attr(a.name.as_str()) {
            let item = CompletionItem::inserting(
                a.name.as_str(),
                ItemKind::Property,
                a.detail.clone(),
                concat2(a.name.as_str(), " = ${1}"),
                InsertFormat::Snippet,
            ).with_documentation(Some(a.detail.clone()));
            push_item(&mut out, item);
        }
        assert(items_view(out@) =~= start + filter_map(t.take(i + 1), g));
    }
    sort_items(&out, SortBy::Label)
}

// ---------------------------------------------------------------------
// Laws

proof fn lemma_in_sum<A>(a: Seq<A>, b: Seq<A>, x: A)
    requires
        (a + b).contains(x),
    ensures
        a.contains(x) || b.contains(x),
{
    let k = choose|k: int| 0 <= k < (a + b).len() && (a + b)[k] == x;
    if k < a.len() {
        assert(a[k] == x);
    } else {
        assert(b[k - a.len()] == x);
    }
}

proof fn lemma_offer_fits(
    lang: Language,
    b: BlockSchema,
    data: bool,
    filter: FilterV,
    nested: bool,
    x: ItemV,
)
    requires
        schema_items(lang, b, data, filter, nested).contains(x),
    ensures
        x.kind == Some(ItemKind::Field) || x.kind == Some(ItemKind::Property)
            ==> !filter.attrs.contains(x.label),
{
    let attrs = filter_map(b.attributes@, body_attr_item(filter));
    let nested_blocks = filter_map(b.block_types@, body_block_item(filter));
    let meta = filter_map(lang.meta_attrs@, free_meta_attr(filter));
    let meta_b = filter_map(meta_blocks(lang, data), free_meta_block(filter));
    let own = attrs + nested_blocks;
    if !nested && !own.contains(x) {
        lemma_in_sum(own + meta, meta_b, x);
        if (own + meta).contains(x) {
            lemma_in_sum(own, meta, x);
            lemma_filter_map_from(lang.meta_attrs@, free_meta_attr(filter), x);
        } else {
            lemma_filter_map_from(meta_blocks(lang, data), free_meta_block(filter), x);
        }
    } else {
        lemma_in_sum(attrs, nested_blocks, x);
        if attrs.contains(x) {
            lemma_filter_map_from(b.attributes@, body_attr_item(filter), x);
        } else {
            lemma_filter_map_from(b.block_types@, body_block_item(filter), x);
        }
    }
}

/// An attribute that a body has is not offered in it again.
pub proof fn set_attributes_are_not_offered(
    state: StateStore,
    lang: Language,
    ty: Seq<char>,
    data: bool,
    filter: FilterV,
    path: Seq<Seq<char>>,
    x: ItemV,
)
    requires
        body_items(state, lang, ty, data, filter, path).contains(x),
        x.kind == Some(ItemKind::Field) || x.kind == Some(ItemKind::Property),
    ensures
        !filter.attrs.contains(x.label),
{
    let s = body_schema(state.schemas@, ty, data)->0;
    match node_at(s.block, path, path.len() as int) {
        Some(NodeV::Fields(j)) => {
            let fields = object_fields(j)->0;
            let f = field_item(filter, optional_fields(j));
            lemma_sorted_contains(SortBy::SortText, filter_map(fields, f), x);
            lemma_filter_map_from(fields, f, x);
        },
        Some(NodeV::Schema(b)) => {
            let items = schema_items(lang, b, data, filter, path.len() > 0);
            let placed = each(items, behind_schema());
            lemma_sorted_contains(SortBy::SortText, placed, x);
            let k = choose|k: int| 0 <= k < placed.len() && placed[k] == x;
            let y = items[k];
            assert(items.contains(y));
            assert(behind_schema()(y) == x);
            lemma_offer_fits(lang, b, data, filter, path.len() > 0, y);
        },
        None => {},
    }
}

/// A nested block is offered only where one more of it may be added.
pub proof fn offered_blocks_may_be_added(b: BlockSchema, filter: FilterV, x: ItemV)
    requires
        filter_map(b.block_types@, body_block_item(filter)).contains(x),
    ensures
        exists|i: int|
            0 <= i < b.block_types@.len() && (#[trigger] b.block_types@[i]).0@ == x.label && may_add(
                b.block_types@[i].1,
                occurrences(filter.blocks, x.label),
            ),
{
    lemma_filter_map_from(b.block_types@, body_block_item(filter), x);
}

/// What must be set stands before what may be set, and that before what is
/// deprecated.
pub proof fn required_attributes_stand_first(a: AttributeSchema, b: AttributeSchema, m: Seq<char>, n: Seq<char>)
    ensures
        !a.deprecated && a.required && !b.deprecated && !b.required ==> text_lt(
            attribute_bucket(a) + m,
            attribute_bucket(b) + n,
        ),
        !a.deprecated && b.deprecated ==> text_lt(
            attribute_bucket(a) + m,
            attribute_bucket(b) + n,
        ),
{
    reveal_strlit("0_");
    reveal_strlit("1_");
    reveal_strlit("8_");
}

} // verus!
