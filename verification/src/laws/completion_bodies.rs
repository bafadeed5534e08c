//! What completion offers in the bodies of blocks.

use crate::builtin::{BuiltinSchema, Language, MetaBlock};
use crate::completion::{completion_answer, CompletionContext, CompletionParams};
use crate::completion_body::{
    behind_schema, body_attr_item, body_block_item, body_items, free_meta_attr, free_meta_block,
    meta_blocks, node_at, provider_attr_item, provider_items, provider_meta_item, provider_settings,
    schema_items, NodeV,
};
use crate::completion_builtin::{builtin_attr_item, builtin_block_item, builtin_items};
use crate::completion_cursor::{
    attr_key, block_ident, body_filter, holds_in_body, innermost_from, lemma_occurrences,
    nested_path, nested_path_from, occurrences, on_dynamic_body, FilterV,
};
use crate::completion_item::{
    lemma_sorted_contains, sorted_items, InsertFormat, ItemKind, ItemV, SortBy,
};
use crate::completion_schema::{assignment, body_schema, type_kind};
use crate::hcl::{attributes, block_in, blocks, Attribute, Block, Body, Structure};
use crate::laws::common::lemma_doc;
use crate::laws::completion::is_request;
use crate::laws::completion_names::has_entry;
use crate::laws::hover::{
    data_schema_at, lemma_data_schema, lemma_resource_schema, resource_schema_at,
};
use crate::laws::modules::{covers, has_attribute, has_block, lemma_attributes};
use crate::position::{position_offset, rope_text};
use crate::schema::{provider_in, BlockSchema, Json, NestingMode, SchemaEntry};
use crate::seqs::{
    each, filter_map, lemma_each_contains, lemma_filter_map_contains, lemma_find_map_at,
    lemma_plus_contains,
};
use crate::state::StateStore;
use crate::text::opt_view;
use vstd::prelude::*;

verus! {

/// A list has an item with the label and the kind.
pub open spec fn has_item(v: Seq<ItemV>, label: Seq<char>, kind: ItemKind) -> bool {
    exists|i: int|
        0 <= i < v.len() && (#[trigger] v[i]).label == label && v[i].kind == Some(kind)
}

/// An item of a list has the label and the kind.
pub open spec fn is_item(x: ItemV, label: Seq<char>, kind: ItemKind) -> bool {
    x.label == label && x.kind == Some(kind)
}

pub proof fn lemma_has_item(v: Seq<ItemV>, label: Seq<char>, kind: ItemKind)
    ensures
        has_item(v, label, kind) <==> exists|x: ItemV| #[trigger]
            v.contains(x) && is_item(x, label, kind),
{
    if has_item(v, label, kind) {
        let i = choose|i: int|
            0 <= i < v.len() && (#[trigger] v[i]).label == label && v[i].kind == Some(kind);
        assert(v.contains(v[i]));
    }
    if exists|x: ItemV| #[trigger] v.contains(x) && is_item(x, label, kind) {
        let x = choose|x: ItemV| #[trigger] v.contains(x) && is_item(x, label, kind);
        let i = choose|i: int| 0 <= i < v.len() && v[i] == x;
        assert(v[i].label == label);
    }
}

pub proof fn lemma_sorted_items(by: SortBy, v: Seq<ItemV>, label: Seq<char>, kind: ItemKind)
    ensures
        has_item(sorted_items(by, v), label, kind) <==> has_item(v, label, kind),
{
    let s = sorted_items(by, v);
    lemma_has_item(v, label, kind);
    lemma_has_item(s, label, kind);
    if has_item(v, label, kind) {
        let x = choose|x: ItemV| #[trigger] v.contains(x) && is_item(x, label, kind);
        lemma_sorted_contains(by, v, x);
    }
    if has_item(s, label, kind) {
        let x = choose|x: ItemV| #[trigger] s.contains(x) && is_item(x, label, kind);
        lemma_sorted_contains(by, v, x);
    }
}

pub proof fn lemma_plus_item(a: Seq<ItemV>, b: Seq<ItemV>, label: Seq<char>, kind: ItemKind)
    ensures
        has_item(a + b, label, kind) <==> has_item(a, label, kind) || has_item(b, label, kind),
{
    lemma_has_item(a, label, kind);
    lemma_has_item(b, label, kind);
    lemma_has_item(a + b, label, kind);
    if has_item(a + b, label, kind) {
        let x = choose|x: ItemV| #[trigger] (a + b).contains(x) && is_item(x, label, kind);
        lemma_plus_contains(a, b, x);
    }
    if has_item(a, label, kind) {
        let x = choose|x: ItemV| #[trigger] a.contains(x) && is_item(x, label, kind);
        lemma_plus_contains(a, b, x);
    }
    if has_item(b, label, kind) {
        let x = choose|x: ItemV| #[trigger] b.contains(x) && is_item(x, label, kind);
        lemma_plus_contains(a, b, x);
    }
}

/// A filter of a table has an item exactly where some element gives one.
pub proof fn lemma_filtered_item<A>(
    s: Seq<A>,
    f: spec_fn(A) -> Option<ItemV>,
    label: Seq<char>,
    kind: ItemKind,
)
    ensures
        has_item(filter_map(s, f), label, kind) <==> exists|i: int|
            0 <= i < s.len() && f(#[trigger] s[i]) is Some && is_item(f(s[i])->0, label, kind),
{
    let v = filter_map(s, f);
    lemma_has_item(v, label, kind);
    if has_item(v, label, kind) {
        let x = choose|x: ItemV| #[trigger] v.contains(x) && is_item(x, label, kind);
        lemma_filter_map_contains(s, f, x);
        let i = choose|i: int| 0 <= i < s.len() && f(#[trigger] s[i]) == Some(x);
        assert(f(s[i]) is Some);
    }
    if exists|i: int|
        0 <= i < s.len() && f(#[trigger] s[i]) is Some && is_item(f(s[i])->0, label, kind) {
        let i = choose|i: int|
            0 <= i < s.len() && f(#[trigger] s[i]) is Some && is_item(f(s[i])->0, label, kind);
        let x = f(s[i])->0;
        lemma_filter_map_contains(s, f, x);
        assert(f(s[i]) == Some(x));
        assert(v.contains(x));
    }
}

/// The schema has an attribute of the name that can be set, and must be set or
/// need not, as `required` says.
pub open spec fn settable(b: BlockSchema, name: Seq<char>, required: bool) -> bool {
    exists|i: int|
        0 <= i < b.attributes@.len() && (#[trigger] b.attributes@[i]).0@ == name
            && b.attributes@[i].1.required == required && (required || b.attributes@[i].1.optional)
}

/// How often a name stands in a list, counted from the front.
pub open spec fn count_of(names: Seq<Seq<char>>, name: Seq<char>) -> nat {
    names.filter(|n: Seq<char>| n == name).len()
}

proof fn lemma_count(names: Seq<Seq<char>>, name: Seq<char>)
    ensures
        occurrences(names, name) == count_of(names, name),
    decreases names.len(),
{
    reveal(Seq::filter);
    if names.len() > 0 {
        lemma_count(names.drop_last(), name);
    }
}

/// The schema has a nested block of the name of which the body may have one
/// more than it has: of a single block one, of another as many as its limit
/// says, any number where there is none.
pub open spec fn addable(b: BlockSchema, name: Seq<char>, present: Seq<Seq<char>>) -> bool {
    exists|i: int|
        0 <= i < b.block_types@.len() && (#[trigger] b.block_types@[i]).0@ == name && if b.block_types@[i].1.nesting_mode
            == NestingMode::Single {
            !present.contains(name)
        } else {
            b.block_types@[i].1.max_items == 0 || count_of(present, name)
                < b.block_types@[i].1.max_items
        }
}

/// A meta-block of the name may be added: one that stands once at most only
/// where it does not stand yet.
pub open spec fn addable_meta(v: Seq<MetaBlock>, name: Seq<char>, present: Seq<Seq<char>>) -> bool {
    exists|i: int|
        0 <= i < v.len() && (#[trigger] v[i]).name@ == name && (!v[i].singleton
            || !present.contains(name))
}

proof fn lemma_placed(v: Seq<ItemV>, label: Seq<char>, kind: ItemKind)
    ensures
        has_item(each(v, behind_schema()), label, kind) <==> has_item(v, label, kind),
{
    let u = each(v, behind_schema());
    if has_item(v, label, kind) {
        let i = choose|i: int|
            0 <= i < v.len() && (#[trigger] v[i]).label == label && v[i].kind == Some(kind);
        assert(u[i].label == label && u[i].kind == Some(kind));
    }
    if has_item(u, label, kind) {
        let i = choose|i: int|
            0 <= i < u.len() && (#[trigger] u[i]).label == label && u[i].kind == Some(kind);
        assert(v[i].label == label && v[i].kind == Some(kind));
    }
}

proof fn lemma_schema_items(
    lang: Language,
    b: BlockSchema,
    data: bool,
    filter: FilterV,
    nested: bool,
    label: Seq<char>,
)
    ensures
        has_item(schema_items(lang, b, data, filter, nested), label, ItemKind::Field)
            <==> !filter.attrs.contains(label) && settable(b, label, true),
        has_item(schema_items(lang, b, data, filter, nested), label, ItemKind::Property)
            <==> !filter.attrs.contains(label) && (settable(b, label, false) || (!nested
            && has_entry(lang.meta_attrs@, label))),
        has_item(schema_items(lang, b, data, filter, nested), label, ItemKind::Struct) <==> addable(
            b,
            label,
            filter.blocks,
        ) || (!nested && addable_meta(meta_blocks(lang, data), label, filter.blocks)),
{
    let fa = body_attr_item(filter);
    let fb = body_block_item(filter);
    let fm = free_meta_attr(filter);
    let fn_ = free_meta_block(filter);
    let a = filter_map(b.attributes@, fa);
    let c = filter_map(b.block_types@, fb);
    let m = filter_map(lang.meta_attrs@, fm);
    let n = filter_map(meta_blocks(lang, data), fn_);
    lemma_count(filter.blocks, label);
    lemma_occurrences(filter.blocks, label);
    assert forall|kind: ItemKind| true implies #[trigger] has_item(
        schema_items(lang, b, data, filter, nested),
        label,
        kind,
    ) == (has_item(a, label, kind) || has_item(c, label, kind) || (!nested && (has_item(
        m,
        label,
        kind,
    ) || has_item(n, label, kind)))) by {
        lemma_plus_item(a, c, label, kind);
        lemma_plus_item(a + c, m, label, kind);
        lemma_plus_item(a + c + m, n, label, kind);
    }
    assert forall|kind: ItemKind| true implies #[trigger] has_item(a, label, kind) == (
    !filter.attrs.contains(label) && ((kind == ItemKind::Field && settable(b, label, true)) || (kind
        == ItemKind::Property && settable(b, label, false)))) by {
        lemma_filtered_item(b.attributes@, fa, label, kind);
        if exists|i: int|
            0 <= i < b.attributes@.len() && fa(#[trigger] b.attributes@[i]) is Some && is_item(
                fa(b.attributes@[i])->0,
                label,
                kind,
            ) {
            let i = choose|i: int|
                0 <= i < b.attributes@.len() && fa(#[trigger] b.attributes@[i]) is Some && is_item(
                    fa(b.attributes@[i])->0,
                    label,
                    kind,
                );
            assert(b.attributes@[i].0@ == label);
        }
        if !filter.attrs.contains(label) && kind == ItemKind::Field && settable(b, label, true) {
            let i = choose|i: int|
                0 <= i < b.attributes@.len() && (#[trigger] b.attributes@[i]).0@ == label
                    && b.attributes@[i].1.required == true && (true
                    || b.attributes@[i].1.optional);
            assert(fa(b.attributes@[i]) is Some);
        }
        if !filter.attrs.contains(label) && kind == ItemKind::Property && settable(b, label, false) {
            let i = choose|i: int|
                0 <= i < b.attributes@.len() && (#[trigger] b.attributes@[i]).0@ == label
                    && b.attributes@[i].1.required == false && (false
                    || b.attributes@[i].1.optional);
            assert(fa(b.attributes@[i]) is Some);
        }
    }
    assert forall|kind: ItemKind| true implies #[trigger] has_item(c, label, kind) == (kind
        == ItemKind::Struct && addable(b, label, filter.blocks)) by {
        lemma_filtered_item(b.block_types@, fb, label, kind);
        if exists|i: int|
            0 <= i < b.block_types@.len() && fb(#[trigger] b.block_types@[i]) is Some && is_item(
                fb(b.block_types@[i])->0,
                label,
                kind,
            ) {
            let i = choose|i: int|
                0 <= i < b.block_types@.len() && fb(#[trigger] b.block_types@[i]) is Some && is_item(
                    fb(b.block_types@[i])->0,
                    label,
                    kind,
                );
            assert(b.block_types@[i].0@ == label);
        }
        if kind == ItemKind::Struct && addable(b, label, filter.blocks) {
            let i = choose|i: int|
                0 <= i < b.block_types@.len() && (#[trigger] b.block_types@[i]).0@ == label
                    && if b.block_types@[i].1.nesting_mode == NestingMode::Single {
                    !filter.blocks.contains(label)
                } else {
                    b.block_types@[i].1.max_items == 0 || count_of(filter.blocks, label)
                        < b.block_types@[i].1.max_items
                };
            assert(fb(b.block_types@[i]) is Some);
        }
    }
    assert forall|kind: ItemKind| true implies #[trigger] has_item(m, label, kind) == (kind
        == ItemKind::Property && !filter.attrs.contains(label) && has_entry(
        lang.meta_attrs@,
        label,
    )) by {
        lemma_filtered_item(lang.meta_attrs@, fm, label, kind);
        if exists|i: int|
            0 <= i < lang.meta_attrs@.len() && fm(#[trigger] lang.meta_attrs@[i]) is Some && is_item(
                fm(lang.meta_attrs@[i])->0,
                label,
                kind,
            ) {
            let i = choose|i: int|
                0 <= i < lang.meta_attrs@.len() && fm(#[trigger] lang.meta_attrs@[i]) is Some
                    && is_item(fm(lang.meta_attrs@[i])->0, label, kind);
            assert(lang.meta_attrs@[i].0@ == label);
        }
        if kind == ItemKind::Property && !filter.attrs.contains(label) && has_entry(
            lang.meta_attrs@,
            label,
        ) {
            let i = choose|i: int|
                0 <= i < lang.meta_attrs@.len() && (#[trigger] lang.meta_attrs@[i]).0@ == label;
            assert(fm(lang.meta_attrs@[i]) is Some);
        }
    }
    let mb = meta_blocks(lang, data);
    assert forall|kind: ItemKind| true implies #[trigger] has_item(n, label, kind) == (kind
        == ItemKind::Struct && addable_meta(mb, label, filter.blocks)) by {
        lemma_filtered_item(mb, fn_, label, kind);
        if exists|i: int|
            0 <= i < mb.len() && fn_(#[trigger] mb[i]) is Some && is_item(
                fn_(mb[i])->0,
                label,
                kind,
            ) {
            let i = choose|i: int|
                0 <= i < mb.len() && fn_(#[trigger] mb[i]) is Some && is_item(
                    fn_(mb[i])->0,
                    label,
                    kind,
                );
            assert(mb[i].name@ == label);
        }
        if kind == ItemKind::Struct && addable_meta(mb, label, filter.blocks) {
            let i = choose|i: int|
                0 <= i < mb.len() && (#[trigger] mb[i]).name@ == label && (!mb[i].singleton
                    || !filter.blocks.contains(label));
            assert(fn_(mb[i]) is Some);
        }
    }
}

/// In the body of a resource, with `present` attributes and blocks in it: a
/// required attribute of the schema is offered as a field, an optional one and
/// a meta-argument as a property, each exactly where it is not set; a nested
/// block and a meta-block exactly where one more may be added.
pub proof fn bodies_of_resources_are_completed(
    state: StateStore,
    lang: Language,
    ty: Seq<char>,
    p: int,
    r: int,
    present: FilterV,
    label: Seq<char>,
)
    requires
        resource_schema_at(state.schemas@, ty, p, r),
    ensures
        ({
            let v = body_items(state, lang, ty, false, present, Seq::empty());
            let b = state.schemas@[p].schema.resource_schemas@[r].1.block;
            &&& has_item(v, label, ItemKind::Field) <==> !present.attrs.contains(label) && settable(
                b,
                label,
                true,
            )
            &&& has_item(v, label, ItemKind::Property) <==> !present.attrs.contains(label) && (
            settable(b, label, false) || has_entry(lang.meta_attrs@, label))
            &&& has_item(v, label, ItemKind::Struct) <==> addable(b, label, present.blocks)
                || addable_meta(lang.resource_meta_blocks@, label, present.blocks)
        }),
{
    lemma_resource_schema(state.schemas@, ty, p, r);
    let b = state.schemas@[p].schema.resource_schemas@[r].1.block;
    lemma_ordered(lang, b, false, present, false, label);
}

/// The same of a data source, by its own schema and its own meta-blocks.
pub proof fn bodies_of_data_sources_are_completed(
    state: StateStore,
    lang: Language,
    ty: Seq<char>,
    p: int,
    r: int,
    present: FilterV,
    label: Seq<char>,
)
    requires
        data_schema_at(state.schemas@, ty, p, r),
    ensures
        ({
            let v = body_items(state, lang, ty, true, present, Seq::empty());
            let b = state.schemas@[p].schema.data_source_schemas@[r].1.block;
            &&& has_item(v, label, ItemKind::Field) <==> !present.attrs.contains(label) && settable(
                b,
                label,
                true,
            )
            &&& has_item(v, label, ItemKind::Property) <==> !present.attrs.contains(label) && (
            settable(b, label, false) || has_entry(lang.meta_attrs@, label))
            &&& has_item(v, label, ItemKind::Struct) <==> addable(b, label, present.blocks)
                || addable_meta(lang.data_meta_blocks@, label, present.blocks)
        }),
{
    lemma_data_schema(state.schemas@, ty, p, r);
    let b = state.schemas@[p].schema.data_source_schemas@[r].1.block;
    lemma_ordered(lang, b, true, present, false, label);
}

proof fn lemma_ordered(
    lang: Language,
    b: BlockSchema,
    data: bool,
    filter: FilterV,
    nested: bool,
    label: Seq<char>,
)
    ensures
        ({
            let v = sorted_items(
                SortBy::SortText,
                each(schema_items(lang, b, data, filter, nested), behind_schema()),
            );
            let own = schema_items(lang, b, data, filter, nested);
            &&& forall|kind: ItemKind| #[trigger]
                has_item(v, label, kind) == has_item(own, label, kind)
        }),
        has_item(schema_items(lang, b, data, filter, nested), label, ItemKind::Field)
            <==> !filter.attrs.contains(label) && settable(b, label, true),
        has_item(schema_items(lang, b, data, filter, nested), label, ItemKind::Property)
            <==> !filter.attrs.contains(label) && (settable(b, label, false) || (!nested
            && has_entry(lang.meta_attrs@, label))),
        has_item(schema_items(lang, b, data, filter, nested), label, ItemKind::Struct) <==> addable(
            b,
            label,
            filter.blocks,
        ) || (!nested && addable_meta(meta_blocks(lang, data), label, filter.blocks)),
{
    let own = schema_items(lang, b, data, filter, nested);
    let v = sorted_items(SortBy::SortText, each(own, behind_schema()));
    assert forall|kind: ItemKind| true implies #[trigger] has_item(v, label, kind) == has_item(
        own,
        label,
        kind,
    ) by {
        lemma_sorted_items(SortBy::SortText, each(own, behind_schema()), label, kind);
        lemma_placed(own, label, kind);
    }
    lemma_schema_items(lang, b, data, filter, nested, label);
}

/// In a nested block of a resource or a data source nothing but what the
/// schema of the nested block has is offered: no meta-arguments and no
/// meta-blocks.
pub proof fn nested_bodies_are_completed(
    state: StateStore,
    lang: Language,
    ty: Seq<char>,
    data: bool,
    present: FilterV,
    path: Seq<Seq<char>>,
    b: BlockSchema,
    label: Seq<char>,
)
    requires
        path.len() > 0,
        body_schema(state.schemas@, ty, data) is Some,
        node_at(body_schema(state.schemas@, ty, data)->0.block, path, path.len() as int) == Some(
            NodeV::Schema(b),
        ),
    ensures
        ({
            let v = body_items(state, lang, ty, data, present, path);
            &&& has_item(v, label, ItemKind::Field) <==> !present.attrs.contains(label) && settable(
                b,
                label,
                true,
            )
            &&& has_item(v, label, ItemKind::Property) <==> !present.attrs.contains(label)
                && settable(b, label, false)
            &&& has_item(v, label, ItemKind::Struct) <==> addable(b, label, present.blocks)
        }),
{
    lemma_ordered(lang, b, data, present, true, label);
}

/// What is put in for an attribute assigns it, in the brackets that its type
/// asks for: quotes for a string, square ones for a list, a set or a tuple,
/// curly ones for a map or an object, none for all others.
pub proof fn assignments_fit_the_type(name: Seq<char>, ty: Option<Json>)
    ensures
        match ty {
            Some(Json::Str(s)) => assignment(name, type_kind(ty)) == name + if s@ == "string"@ {
                " = \"${1}\""@
            } else {
                " = ${1}"@
            },
            Some(Json::Array(v)) if v@.len() > 0 && v@[0] is Str => {
                let w = v@[0]->Str_0@;
                &&& w == "list"@ || w == "set"@ || w == "tuple"@ ==> assignment(name, type_kind(ty))
                    == name + " = [${1}]"@
                &&& w == "map"@ || w == "object"@ ==> assignment(name, type_kind(ty)) == name
                    + " = {\n  ${1}\n}"@
                &&& w != "list"@ && w != "set"@ && w != "tuple"@ && w != "map"@ && w != "object"@
                    ==> assignment(name, type_kind(ty)) == name + " = ${1}"@
            },
            _ => assignment(name, type_kind(ty)) == name + " = ${1}"@,
        },
{
    reveal_strlit("list");
    reveal_strlit("set");
    reveal_strlit("tuple");
    reveal_strlit("map");
    reveal_strlit("object");
    assert("set"@[0] == 's');
    assert("map"@[0] == 'm');
    assert("list"@.len() == 4 && "set"@.len() == 3 && "tuple"@.len() == 5 && "map"@.len() == 3
        && "object"@.len() == 6);
}

/// The offer of an attribute of a body assigns that attribute, in the brackets
/// of its type, and carries what the schema says of it.
pub proof fn offered_attributes_are_assigned(
    state: StateStore,
    lang: Language,
    ty: Seq<char>,
    p: int,
    r: int,
    present: FilterV,
    i: int,
)
    requires
        resource_schema_at(state.schemas@, ty, p, r),
        0 <= i < state.schemas@[p].schema.resource_schemas@[r].1.block.attributes@.len(),
        ({
            let e = state.schemas@[p].schema.resource_schemas@[r].1.block.attributes@[i];
            (e.1.required || e.1.optional) && !present.attrs.contains(e.0@)
        }),
    ensures
        ({
            let e = state.schemas@[p].schema.resource_schemas@[r].1.block.attributes@[i];
            let v = body_items(state, lang, ty, false, present, Seq::empty());
            exists|j: int|
                0 <= j < v.len() && (#[trigger] v[j]).label == e.0@ && v[j].insert_text == Some(
                    assignment(e.0@, type_kind(e.1.ty)),
                ) && v[j].insert_text_format == Some(InsertFormat::Snippet) && v[j].documentation
                    == opt_view(e.1.description) && v[j].deprecated == e.1.deprecated
        }),
{
    lemma_resource_schema(state.schemas@, ty, p, r);
    let b = state.schemas@[p].schema.resource_schemas@[r].1.block;
    let e = b.attributes@[i];
    let x = body_attr_item(present)(e)->0;
    let a = filter_map(b.attributes@, body_attr_item(present));
    let c = filter_map(b.block_types@, body_block_item(present));
    let m = filter_map(lang.meta_attrs@, free_meta_attr(present));
    let n = filter_map(meta_blocks(lang, false), free_meta_block(present));
    lemma_filter_map_contains(b.attributes@, body_attr_item(present), x);
    assert(body_attr_item(present)(b.attributes@[i]) == Some(x));
    lemma_plus_contains(a, c, x);
    lemma_plus_contains(a + c, m, x);
    lemma_plus_contains(a + c + m, n, x);
    let own = schema_items(lang, b, false, present, false);
    assert(own.contains(x));
    let k = choose|k: int| 0 <= k < own.len() && own[k] == x;
    let u = each(own, behind_schema());
    assert(u[k] == x);
    lemma_sorted_contains(SortBy::SortText, u, x);
    let v = body_items(state, lang, ty, false, present, Seq::empty());
    let j = choose|j: int| 0 <= j < v.len() && v[j] == x;
    assert(v[j].label == e.0@);
}

/// A built-in body has an attribute of the name, required or not.
pub open spec fn builtin_settable(s: BuiltinSchema, name: Seq<char>, required: bool) -> bool {
    exists|i: int|
        0 <= i < s.attrs@.len() && (#[trigger] s.attrs@[i]).name@ == name && s.attrs@[i].required
            == required
}

pub open spec fn builtin_addable(s: BuiltinSchema, name: Seq<char>) -> bool {
    exists|i: int| 0 <= i < s.blocks@.len() && (#[trigger] s.blocks@[i]).name@ == name
}

/// In a built-in block exactly what it may hold and does not hold yet is
/// offered: required attributes as fields, others as properties, and blocks.
pub proof fn built_in_bodies_are_completed(s: BuiltinSchema, present: FilterV, label: Seq<char>)
    ensures
        has_item(builtin_items(s, present), label, ItemKind::Field) <==> !present.attrs.contains(
            label,
        ) && builtin_settable(s, label, true),
        has_item(builtin_items(s, present), label, ItemKind::Property) <==> !present.attrs.contains(
            label,
        ) && builtin_settable(s, label, false),
        has_item(builtin_items(s, present), label, ItemKind::Struct) <==> !present.blocks.contains(
            label,
        ) && builtin_addable(s, label),
{
    let fa = builtin_attr_item(present);
    let fb = builtin_block_item(present);
    let a = filter_map(s.attrs@, fa);
    let b = filter_map(s.blocks@, fb);
    assert forall|kind: ItemKind| true implies #[trigger] has_item(
        builtin_items(s, present),
        label,
        kind,
    ) == (has_item(a, label, kind) || has_item(b, label, kind)) by {
        lemma_sorted_items(SortBy::SortText, a + b, label, kind);
        lemma_plus_item(a, b, label, kind);
    }
    assert forall|kind: ItemKind| true implies #[trigger] has_item(a, label, kind) == (
    !present.attrs.contains(label) && ((kind == ItemKind::Field && builtin_settable(s, label, true))
        || (kind == ItemKind::Property && builtin_settable(s, label, false)))) by {
        lemma_filtered_item(s.attrs@, fa, label, kind);
        if exists|i: int|
            0 <= i < s.attrs@.len() && fa(#[trigger] s.attrs@[i]) is Some && is_item(
                fa(s.attrs@[i])->0,
                label,
                kind,
            ) {
            let i = choose|i: int|
                0 <= i < s.attrs@.len() && fa(#[trigger] s.attrs@[i]) is Some && is_item(
                    fa(s.attrs@[i])->0,
                    label,
                    kind,
                );
            assert(s.attrs@[i].name@ == label);
        }
        if !present.attrs.contains(label) && builtin_settable(s, label, true) {
            let i = choose|i: int|
                0 <= i < s.attrs@.len() && (#[trigger] s.attrs@[i]).name@ == label
                    && s.attrs@[i].required == true;
            assert(fa(s.attrs@[i]) is Some);
        }
        if !present.attrs.contains(label) && builtin_settable(s, label, false) {
            let i = choose|i: int|
                0 <= i < s.attrs@.len() && (#[trigger] s.attrs@[i]).name@ == label
                    && s.attrs@[i].required == false;
            assert(fa(s.attrs@[i]) is Some);
        }
    }
    assert forall|kind: ItemKind| true implies #[trigger] has_item(b, label, kind) == (kind
        == ItemKind::Struct && !present.blocks.contains(label) && builtin_addable(s, label)) by {
        lemma_filtered_item(s.blocks@, fb, label, kind);
        if exists|i: int|
            0 <= i < s.blocks@.len() && fb(#[trigger] s.blocks@[i]) is Some && is_item(
                fb(s.blocks@[i])->0,
                label,
                kind,
            ) {
            let i = choose|i: int|
                0 <= i < s.blocks@.len() && fb(#[trigger] s.blocks@[i]) is Some && is_item(
                    fb(s.blocks@[i])->0,
                    label,
                    kind,
                );
            assert(s.blocks@[i].name@ == label);
        }
        if !present.blocks.contains(label) && builtin_addable(s, label) {
            let i = choose|i: int|
                0 <= i < s.blocks@.len() && (#[trigger] s.blocks@[i]).name@ == label;
            assert(fb(s.blocks@[i]) is Some);
        }
    }
}

/// The first provider with a name.
pub open spec fn provider_at(schemas: Seq<SchemaEntry>, name: Seq<char>, p: int) -> bool {
    0 <= p < schemas.len() && schemas[p].address.ty@ == name && forall|j: int|
        0 <= j < p ==> (#[trigger] schemas[j]).address.ty@ != name
}

/// In a provider block exactly the settings of that provider and those of every
/// provider are offered that the block does not have yet.
pub proof fn provider_blocks_are_completed(
    state: StateStore,
    lang: Language,
    name: Seq<char>,
    p: int,
    present: FilterV,
    label: Seq<char>,
)
    requires
        provider_at(state.schemas@, name, p),
    ensures
        ({
            let v = provider_items(state, lang, name, present);
            let b = state.schemas@[p].schema.provider.block;
            &&& has_item(v, label, ItemKind::Field) <==> !present.attrs.contains(label) && settable(
                b,
                label,
                true,
            )
            &&& has_item(v, label, ItemKind::Property) <==> !present.attrs.contains(label) && (
            settable(b, label, false) || exists|i: int|
                0 <= i < lang.provider_meta@.len() && (#[trigger] lang.provider_meta@[i]).name@
                    == label)
        }),
{
    lemma_find_map_at(state.schemas@, provider_in(name), p);
    let b = state.schemas@[p].schema.provider.block;
    let fa = provider_attr_item(present);
    let fm = provider_meta_item(present);
    let a = filter_map(b.attributes@, fa);
    let m = filter_map(lang.provider_meta@, fm);
    assert(provider_settings(state, name, present) == a);
    assert forall|kind: ItemKind| true implies #[trigger] has_item(
        provider_items(state, lang, name, present),
        label,
        kind,
    ) == (has_item(a, label, kind) || has_item(m, label, kind)) by {
        lemma_sorted_items(SortBy::Label, a + m, label, kind);
        lemma_plus_item(a, m, label, kind);
    }
    assert forall|kind: ItemKind| true implies #[trigger] has_item(a, label, kind) == (
    !present.attrs.contains(label) && ((kind == ItemKind::Field && settable(b, label, true)) || (kind
        == ItemKind::Property && settable(b, label, false)))) by {
        lemma_filtered_item(b.attributes@, fa, label, kind);
        if exists|i: int|
            0 <= i < b.attributes@.len() && fa(#[trigger] b.attributes@[i]) is Some && is_item(
                fa(b.attributes@[i])->0,
                label,
                kind,
            ) {
            let i = choose|i: int|
                0 <= i < b.attributes@.len() && fa(#[trigger] b.attributes@[i]) is Some && is_item(
                    fa(b.attributes@[i])->0,
                    label,
                    kind,
                );
            assert(b.attributes@[i].0@ == label);
        }
        if !present.attrs.contains(label) && settable(b, label, true) {
            let i = choose|i: int|
                0 <= i < b.attributes@.len() && (#[trigger] b.attributes@[i]).0@ == label
                    && b.attributes@[i].1.required == true && (true || b.attributes@[i].1.optional);
            assert(fa(b.attributes@[i]) is Some);
        }
        if !present.attrs.contains(label) && settable(b, label, false) {
            let i = choose|i: int|
                0 <= i < b.attributes@.len() && (#[trigger] b.attributes@[i]).0@ == label
                    && b.attributes@[i].1.required == false && (false
                    || b.attributes@[i].1.optional);
            assert(fa(b.attributes@[i]) is Some);
        }
    }
    assert forall|kind: ItemKind| true implies #[trigger] has_item(m, label, kind) == (kind
        == ItemKind::Property && !present.attrs.contains(label) && exists|i: int|
        0 <= i < lang.provider_meta@.len() && (#[trigger] lang.provider_meta@[i]).name@
            == label) by {
        lemma_filtered_item(lang.provider_meta@, fm, label, kind);
        if exists|i: int|
            0 <= i < lang.provider_meta@.len() && fm(#[trigger] lang.provider_meta@[i]) is Some
                && is_item(fm(lang.provider_meta@[i])->0, label, kind) {
            let i = choose|i: int|
                0 <= i < lang.provider_meta@.len() && fm(#[trigger] lang.provider_meta@[i]) is Some
                    && is_item(fm(lang.provider_meta@[i])->0, label, kind);
            assert(lang.provider_meta@[i].name@ == label);
        }
        if !present.attrs.contains(label) && exists|i: int|
            0 <= i < lang.provider_meta@.len() && (#[trigger] lang.provider_meta@[i]).name@
                == label {
            let i = choose|i: int|
                0 <= i < lang.provider_meta@.len() && (#[trigger] lang.provider_meta@[i]).name@
                    == label;
            assert(fm(lang.provider_meta@[i]) is Some);
        }
    }
}

/// The offset lies between the braces of a top-level block, in none of the
/// blocks that it holds.
pub open spec fn in_plain_block(body: Body, offset: int, i: int, b: Block) -> bool {
    &&& 0 <= i < body.structures@.len()
    &&& body.structures@[i] == Structure::Block(b)
    &&& covers(b.span, offset)
    &&& b.body.span is Some && b.body.span->0.start < offset <= b.body.span->0.end
    &&& b.ident.text@ != "dynamic"@
    &&& forall|j: int|
        0 <= j < i ==> ((#[trigger] body.structures@[j]) is Block ==> !covers(
            body.structures@[j]->Block_0.span,
            offset,
        ))
    &&& forall|j: int|
        0 <= j < b.body.structures@.len() ==> ((#[trigger] b.body.structures@[j]) is Block
            ==> !covers(b.body.structures@[j]->Block_0.span, offset))
}

proof fn lemma_nothing_inside(body: Body, offset: int, i: int)
    requires
        0 <= i,
        forall|j: int|
            i <= j < body.structures@.len() ==> ((#[trigger] body.structures@[j]) is Block
                ==> !covers(body.structures@[j]->Block_0.span, offset)),
    ensures
        innermost_from(body, i, offset) is None,
        nested_path_from(body, i, offset).len() == 0,
    decreases body.structures@.len() - i,
{
    if i < body.structures@.len() {
        lemma_nothing_inside(body, offset, i + 1);
        match body.structures@[i] {
            Structure::Attribute(_) => {},
            Structure::Block(c) => {
                assert(!covers(c.span, offset));
            },
        }
    }
}

proof fn lemma_innermost(body: Body, offset: int, i: int, b: Block, from: int)
    requires
        in_plain_block(body, offset, i, b),
        0 <= from <= i,
    ensures
        innermost_from(body, from, offset) == Some(b),
    decreases i - from,
{
    if from < i {
        lemma_innermost(body, offset, i, b, from + 1);
        match body.structures@[from] {
            Structure::Attribute(_) => {},
            Structure::Block(c) => {
                assert(!covers(c.span, offset));
            },
        }
    } else {
        lemma_nothing_inside(b.body, offset, 0);
    }
}

proof fn lemma_outer(s: Seq<Structure>, offset: int, i: int, b: Block)
    requires
        0 <= i < s.len(),
        s[i] == Structure::Block(b),
        holds_in_body(offset)(b) is Some,
        forall|j: int|
            0 <= j < i ==> ((#[trigger] s[j]) is Block ==> !covers(s[j]->Block_0.span, offset)),
    ensures
        crate::seqs::find_map(filter_map(s, block_in()), holds_in_body(offset)) == Some(b),
    decreases s.len(),
{
    let f = holds_in_body(offset);
    let all = filter_map(s, block_in());
    let rest = filter_map(s.drop_last(), block_in());
    if i < s.len() - 1 {
        assert(s.drop_last()[i] == s[i]);
        assert forall|j: int|
            0 <= j < i && (#[trigger] s.drop_last()[j]) is Block implies !covers(
            s.drop_last()[j]->Block_0.span,
            offset,
        ) by {
            assert(s.drop_last()[j] == s[j]);
        }
        lemma_outer(s.drop_last(), offset, i, b);
        let k = crate::seqs::lemma_find_map_first(rest, f);
        assert(all[k] == rest[k]);
        assert forall|j: int| 0 <= j < k implies f(#[trigger] all[j]) is None by {
            assert(all[j] == rest[j]);
        }
        lemma_find_map_at(all, f, k);
    } else {
        let k = rest.len() as int;
        assert(all == rest.push(b));
        assert(all[k] == b);
        assert forall|j: int| 0 <= j < k implies f(#[trigger] all[j]) is None by {
            assert(all[j] == rest[j]);
            assert(rest.contains(rest[j]));
            lemma_filter_map_contains(s.drop_last(), block_in(), rest[j]);
            let n = choose|n: int|
                0 <= n < s.len() - 1 && block_in()(#[trigger] s.drop_last()[n]) == Some(rest[j]);
            assert(s[n] == Structure::Block(rest[j]));
            assert(!covers(s[n]->Block_0.span, offset));
        }
        lemma_find_map_at(all, f, k);
    }
}

/// What completion takes as set in a body are the attributes and the blocks of
/// the block around the cursor.
pub proof fn what_a_block_has_is_known(
    body: Body,
    offset: int,
    i: int,
    b: Block,
    name: Seq<char>,
)
    requires
        in_plain_block(body, offset, i, b),
    ensures
        body_filter(Some(body), offset).attrs.contains(name) <==> exists|a: Attribute| #[trigger]
            has_attribute(b.body, a) && a.key.text@ == name,
        body_filter(Some(body), offset).blocks.contains(name) <==> exists|c: Block| #[trigger]
            has_block(b.body, c) && c.ident.text@ == name,
        nested_path(body, offset).len() == 0,
        !on_dynamic_body(Some(body), offset),
{
    lemma_innermost(body, offset, i, b, 0);
    lemma_outer(body.structures@, offset, i, b);
    lemma_nothing_inside(b.body, offset, 0);
    let attrs = attributes(b.body);
    lemma_each_contains(attrs, attr_key(), name);
    if each(attrs, attr_key()).contains(name) {
        let k = choose|k: int| 0 <= k < attrs.len() && attr_key()(#[trigger] attrs[k]) == name;
        lemma_attributes(b.body, attrs[k]);
        assert(attrs.contains(attrs[k]));
    }
    if exists|a: Attribute| #[trigger] has_attribute(b.body, a) && a.key.text@ == name {
        let a = choose|a: Attribute| #[trigger] has_attribute(b.body, a) && a.key.text@ == name;
        lemma_attributes(b.body, a);
        let k = choose|k: int| 0 <= k < attrs.len() && attrs[k] == a;
        assert(attr_key()(attrs[k]) == name);
    }
    let s = b.body.structures@;
    let bs = blocks(b.body);
    lemma_each_contains(bs, block_ident(), name);
    if each(bs, block_ident()).contains(name) {
        let k = choose|k: int| 0 <= k < bs.len() && block_ident()(#[trigger] bs[k]) == name;
        lemma_filter_map_contains(s, block_in(), bs[k]);
        assert(bs.contains(bs[k]));
        let n = choose|n: int| 0 <= n < s.len() && block_in()(#[trigger] s[n]) == Some(bs[k]);
        assert(s[n] == Structure::Block(bs[k]));
        assert(has_block(b.body, bs[k]));
    }
    if exists|c: Block| #[trigger] has_block(b.body, c) && c.ident.text@ == name {
        let c = choose|c: Block| #[trigger] has_block(b.body, c) && c.ident.text@ == name;
        let n = choose|n: int| 0 <= n < s.len() && s[n] == Structure::Block(c);
        lemma_filter_map_contains(s, block_in(), c);
        assert(block_in()(s[n]) == Some(c));
        let k = choose|k: int| 0 <= k < bs.len() && bs[k] == c;
        assert(block_ident()(bs[k]) == name);
    }
}

/// The answer in the body of a resource is what the body may still get; in the
/// body of a data source the same by the schema of data sources.
pub proof fn requests_in_bodies_are_answered(
    state: StateStore,
    lang: Language,
    params: CompletionParams,
    k: int,
    ty: Seq<char>,
    data: bool,
    i: int,
    b: Block,
)
    requires
        is_request(state, params, k),
        match params.context {
            CompletionContext::ResourceBody { resource_type } => !data && resource_type@ == ty,
            CompletionContext::DataSourceBody { resource_type } => data && resource_type@ == ty,
            _ => false,
        },
        state.documents@[k].body is Some,
        in_plain_block(
            state.documents@[k].body->0,
            position_offset(rope_text(state.documents@[k].rope), params.position)->0,
            i,
            b,
        ),
    ensures
        ({
            let offset = position_offset(
                rope_text(state.documents@[k].rope),
                params.position,
            )->0;
            let v = body_items(
                state,
                lang,
                ty,
                data,
                body_filter(state.documents@[k].body, offset),
                Seq::empty(),
            );
            completion_answer(state, lang, params) == if v.len() == 0 {
                None
            } else {
                Some(v)
            }
        }),
{
    lemma_doc(state, params.uri, k);
    let offset = position_offset(rope_text(state.documents@[k].rope), params.position)->0;
    what_a_block_has_is_known(state.documents@[k].body->0, offset, i, b, ty);
    assert(nested_path(state.documents@[k].body->0, offset) =~= Seq::empty());
}

} // verus!
