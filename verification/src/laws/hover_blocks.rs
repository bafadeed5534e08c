//! What hovers say of blocks, of built-in attributes and of `lifecycle`.

use crate::builtin::{attr_named, entry_at, BuiltinAttr, BuiltinEntry, Language};
use crate::hover_attribute::{
    attribute_name_if, block_flags, builtin_block_name, builtin_name, descend, dotted, hit_text,
    lifecycle_detail, named_part, nested_name, HitV, RootBlockKind,
};
use crate::laws::hover::{
    begins, data_schema_at, is_named, lacks, lemma_data_schema, lemma_ends, lemma_lacks,
    lemma_named, lemma_resource_schema, resource_schema_at,
};
use crate::laws::rename::holds;
use crate::order::text_sort;
use crate::schema::{AttributeSchema, BlockSchema, NestedBlockSchema};
use crate::seqs::{
    each, filter_map, find_map, lemma_filter_map_contains, lemma_find_map_at, lemma_find_map_first,
};
use crate::state::StateStore;
use crate::text::{ends_with, join, opt_view, texts};
use vstd::prelude::*;

verus! {

/// The names are those of a set, in ascending order.
pub open spec fn lists(names: Seq<Seq<char>>, is_in: spec_fn(Seq<char>) -> bool) -> bool {
    forall|n: Seq<char>| #[trigger] names.contains(n) <==> is_in(n)
}

pub open spec fn required_in(v: Seq<(String, AttributeSchema)>) -> spec_fn(Seq<char>) -> bool {
    |n: Seq<char>| exists|i: int| 0 <= i < v.len() && (#[trigger] v[i]).0@ == n && v[i].1.required
}

pub open spec fn optional_in(v: Seq<(String, AttributeSchema)>) -> spec_fn(Seq<char>) -> bool {
    |n: Seq<char>|
        exists|i: int|
            0 <= i < v.len() && (#[trigger] v[i]).0@ == n && v[i].1.optional && !v[i].1.required
}

pub open spec fn named_in<T>(v: Seq<(String, T)>) -> spec_fn(Seq<char>) -> bool {
    |n: Seq<char>| exists|i: int| 0 <= i < v.len() && (#[trigger] v[i]).0@ == n
}

proof fn lemma_sorted(s: Seq<Seq<char>>, n: Seq<char>)
    ensures
        text_sort(s).contains(n) <==> s.contains(n),
{
    crate::order::text_sort_orders(s);
    s.to_multiset_ensures();
    text_sort(s).to_multiset_ensures();
    assert(text_sort(s).to_multiset().count(n) == s.to_multiset().count(n));
}

proof fn lemma_lists(nb: NestedBlockSchema)
    ensures
        lists(
            text_sort(filter_map(nb.block.attributes@, attribute_name_if(true))),
            required_in(nb.block.attributes@),
        ),
        lists(
            text_sort(filter_map(nb.block.attributes@, attribute_name_if(false))),
            optional_in(nb.block.attributes@),
        ),
        lists(
            text_sort(each(nb.block.block_types@, nested_name())),
            named_in(nb.block.block_types@),
        ),
{
    let v = nb.block.attributes@;
    let fr = attribute_name_if(true);
    let fo = attribute_name_if(false);
    let r = filter_map(v, fr);
    let o = filter_map(v, fo);
    let b = each(nb.block.block_types@, nested_name());
    assert forall|n: Seq<char>| #[trigger] text_sort(r).contains(n) <==> required_in(v)(n) by {
        lemma_sorted(r, n);
        lemma_filter_map_contains(v, fr, n);
        if r.contains(n) {
            let i = choose|i: int| 0 <= i < v.len() && fr(#[trigger] v[i]) == Some(n);
            assert(v[i].0@ == n && v[i].1.required);
        }
        if required_in(v)(n) {
            let i = choose|i: int| 0 <= i < v.len() && (#[trigger] v[i]).0@ == n && v[i].1.required;
            assert(fr(v[i]) == Some(n));
        }
    }
    assert forall|n: Seq<char>| #[trigger] text_sort(o).contains(n) <==> optional_in(v)(n) by {
        lemma_sorted(o, n);
        lemma_filter_map_contains(v, fo, n);
        if o.contains(n) {
            let i = choose|i: int| 0 <= i < v.len() && fo(#[trigger] v[i]) == Some(n);
            assert(v[i].0@ == n && v[i].1.optional && !v[i].1.required);
        }
        if optional_in(v)(n) {
            let i = choose|i: int|
                0 <= i < v.len() && (#[trigger] v[i]).0@ == n && v[i].1.optional
                    && !v[i].1.required;
            assert(fo(v[i]) == Some(n));
        }
    }
    assert forall|n: Seq<char>| #[trigger]
        text_sort(b).contains(n) <==> named_in(nb.block.block_types@)(n) by {
        lemma_sorted(b, n);
        if b.contains(n) {
            let i = choose|i: int| 0 <= i < b.len() && b[i] == n;
            assert(nb.block.block_types@[i].0@ == n);
        }
        if named_in(nb.block.block_types@)(n) {
            let i = choose|i: int|
                0 <= i < nb.block.block_types@.len() && (#[trigger] nb.block.block_types@[i]).0@
                    == n;
            assert(b[i] == n);
        }
    }
}

/// What stands under a heading: the names as code, with commas between.
pub open spec fn part(heading: Seq<char>, names: Seq<Seq<char>>) -> Seq<char> {
    if names.len() == 0 {
        Seq::empty()
    } else {
        "\n\n**"@ + heading + ":** "@ + join(
            Seq::new(names.len(), |i: int| "`"@ + names[i] + "`"@),
            ", "@,
        )
    }
}

proof fn lemma_part(heading: Seq<char>, names: Seq<Seq<char>>)
    ensures
        named_part(heading, names) == part(heading, names),
{
    assert(each(names, crate::hover_attribute::code()) =~= Seq::new(
        names.len(),
        |i: int| "`"@ + names[i] + "`"@,
    ));
}

/// The text of a hover ends with the names of the required attributes, of the
/// optional ones and of the nested blocks, each under its heading.
pub open spec fn lists_contents(text: Seq<char>, nb: NestedBlockSchema) -> bool {
    exists|r: Seq<Seq<char>>, o: Seq<Seq<char>>, b: Seq<Seq<char>>|
        #![trigger part("Required attrs"@, r), part("Optional attrs"@, o), part("Nested blocks"@, b)]
        lists(r, required_in(nb.block.attributes@)) && lists(o, optional_in(nb.block.attributes@))
            && lists(b, named_in(nb.block.block_types@)) && ends_with(
            text,
            part("Required attrs"@, r) + part("Optional attrs"@, o) + part("Nested blocks"@, b),
        )
}

/// A header leads with the name of the block, and the kind and type of the block
/// it is on.
pub open spec fn block_lead(kind: Seq<char>, hit: HitV) -> Seq<char> {
    "**block** `"@ + hit.name + "` on "@ + kind + " `"@ + hit.root_type + "`"@
}

proof fn lemma_nested_text(hit: HitV, nb: NestedBlockSchema, kind: Seq<char>)
    requires
        kind == crate::hover_attribute::kind_label(hit.root_kind),
    ensures
        begins(crate::hover_attribute::nested_block_text(hit, nb), block_lead(kind, hit)),
        holds(
            crate::hover_attribute::nested_block_text(hit, nb),
            " — "@ + join(block_flags(nb), ", "@) + "\n"@,
        ),
        lists_contents(crate::hover_attribute::nested_block_text(hit, nb), nb),
{
    let text = crate::hover_attribute::nested_block_text(hit, nb);
    lemma_lists(nb);
    let r = text_sort(filter_map(nb.block.attributes@, attribute_name_if(true)));
    let o = text_sort(filter_map(nb.block.attributes@, attribute_name_if(false)));
    let b = text_sort(each(nb.block.block_types@, nested_name()));
    lemma_part("Required attrs"@, r);
    lemma_part("Optional attrs"@, o);
    lemma_part("Nested blocks"@, b);
    let head = crate::hover_attribute::block_heading(hit);
    let flags = " — "@ + join(block_flags(nb), ", "@) + "\n"@;
    let d = crate::hover_attribute::description_line(opt_view(nb.block.description));
    let tail = part("Required attrs"@, r) + part("Optional attrs"@, o) + part(
        "Nested blocks"@,
        b,
    );
    assert(text =~= head + flags + d + tail);
    lemma_ends(head + flags + d, tail);
    let lead = block_lead(kind, hit);
    assert(text.subrange(0, lead.len() as int) =~= lead);
    assert(text.subrange(head.len() as int, (head.len() + flags.len()) as int) =~= flags);
}

/// The header of a block of a resource is described as the schema of the resource
/// has it.
pub proof fn headers_in_resources_are_described(
    state: StateStore,
    lang: Language,
    hit: HitV,
    path: Seq<char>,
    p: int,
    r: int,
    parent: BlockSchema,
    k: int,
)
    requires
        hit.is_header,
        hit.root_kind == RootBlockKind::Resource,
        resource_schema_at(state.schemas@, hit.root_type, p, r),
        descend(state.schemas@[p].schema.resource_schemas@[r].1.block, hit.path) == Some(parent),
        is_named(parent.block_types@, hit.name, k),
    ensures
        hit_text(state, lang, hit, path) matches Some(text) && begins(
            text,
            block_lead("resource"@, hit),
        ) && holds(
            text,
            " — "@ + join(block_flags(parent.block_types@[k].1), ", "@) + "\n"@,
        ) && lists_contents(text, parent.block_types@[k].1),
{
    lemma_resource_schema(state.schemas@, hit.root_type, p, r);
    lemma_named(parent.block_types@, hit.name, k);
    lemma_nested_text(hit, parent.block_types@[k].1, "resource"@);
}

/// And that of a block of a data source as the schema of the data source has it.
pub proof fn headers_in_data_sources_are_described(
    state: StateStore,
    lang: Language,
    hit: HitV,
    path: Seq<char>,
    p: int,
    r: int,
    parent: BlockSchema,
    k: int,
)
    requires
        hit.is_header,
        hit.root_kind == RootBlockKind::DataSource,
        data_schema_at(state.schemas@, hit.root_type, p, r),
        descend(
            state.schemas@[p].schema.data_source_schemas@[r].1.block,
            hit.path,
        ) == Some(parent),
        is_named(parent.block_types@, hit.name, k),
    ensures
        hit_text(state, lang, hit, path) matches Some(text) && begins(
            text,
            block_lead("data source"@, hit),
        ) && holds(
            text,
            " — "@ + join(block_flags(parent.block_types@[k].1), ", "@) + "\n"@,
        ) && lists_contents(text, parent.block_types@[k].1),
{
    lemma_data_schema(state.schemas@, hit.root_type, p, r);
    lemma_named(parent.block_types@, hit.name, k);
    lemma_nested_text(hit, parent.block_types@[k].1, "data source"@);
}

/// A path of nested blocks leads down block by block.
pub proof fn paths_lead_down(block: BlockSchema, name: Seq<char>, rest: Seq<Seq<char>>, k: int)
    ensures
        descend(block, Seq::empty()) == Some(block),
        is_named(block.block_types@, name, k) ==> descend(block, seq![name] + rest) == descend(
            block.block_types@[k].1.block,
            rest,
        ),
        lacks(block.block_types@, name) ==> descend(block, seq![name] + rest) is None,
{
    let p = seq![name] + rest;
    assert(p.skip(1) =~= rest);
    if is_named(block.block_types@, name, k) {
        lemma_named(block.block_types@, name, k);
    }
    if lacks(block.block_types@, name) {
        lemma_lacks(block.block_types@, name);
    }
}

/// Without schemas the hover says so, and without a schema of the type it says
/// that.
pub proof fn missing_schemas_are_named(
    state: StateStore,
    lang: Language,
    hit: HitV,
    path: Seq<char>,
)
    requires
        hit.root_kind == RootBlockKind::Resource || hit.root_kind == RootBlockKind::DataSource,
        hit.path.len() == 0,
        lacks(lang.meta_attrs@, hit.name),
    ensures
        state.schemas@.len() == 0 && hit.is_header ==> (hit_text(
            state,
            lang,
            hit,
            path,
        ) matches Some(text) && ends_with(
            text,
            "\n\n_No provider schemas are loaded._ Run `terraform init` (or `tofu init`) so tfls can fetch block documentation."@,
        )),
        state.schemas@.len() == 0 && !hit.is_header ==> (hit_text(
            state,
            lang,
            hit,
            path,
        ) matches Some(text) && ends_with(
            text,
            "\n\n_No provider schemas are loaded._ Run `terraform init` (or `tofu init`) in this workspace so tfls can fetch attribute documentation via `terraform providers schema -json`."@,
        )),
        state.schemas@.len() > 0 && hit.root_kind == RootBlockKind::Resource && (forall|j: int|
            0 <= j < state.schemas@.len() ==> lacks(
                (#[trigger] state.schemas@[j]).schema.resource_schemas@,
                hit.root_type,
            )) ==> (hit_text(state, lang, hit, path) matches Some(text) && holds(
            text,
            "\n\n_No schema for `"@ + hit.root_type,
        )),
        state.schemas@.len() > 0 && hit.root_kind == RootBlockKind::DataSource && (forall|j: int|
            0 <= j < state.schemas@.len() ==> lacks(
                (#[trigger] state.schemas@[j]).schema.data_source_schemas@,
                hit.root_type,
            )) ==> (hit_text(state, lang, hit, path) matches Some(text) && holds(
            text,
            "\n\n_No schema for `"@ + hit.root_type,
        )),
{
    lemma_lacks(lang.meta_attrs@, hit.name);
    let text = hit_text(state, lang, hit, path)->0;
    let head = if hit.is_header {
        crate::hover_attribute::block_heading(hit)
    } else {
        crate::hover_attribute::attribute_heading(hit)
    };
    lemma_ends(
        head,
        "\n\n_No provider schemas are loaded._ Run `terraform init` (or `tofu init`) so tfls can fetch block documentation."@,
    );
    lemma_ends(
        head,
        "\n\n_No provider schemas are loaded._ Run `terraform init` (or `tofu init`) in this workspace so tfls can fetch attribute documentation via `terraform providers schema -json`."@,
    );
    if state.schemas@.len() > 0 && hit.root_kind == RootBlockKind::Resource && (forall|j: int|
        0 <= j < state.schemas@.len() ==> lacks(
            (#[trigger] state.schemas@[j]).schema.resource_schemas@,
            hit.root_type,
        )) {
        let f = crate::schema::resource_in(hit.root_type);
        if find_map(state.schemas@, f) is Some {
            let j = lemma_find_map_first(state.schemas@, f);
            assert(lacks(state.schemas@[j].schema.resource_schemas@, hit.root_type));
            lemma_lacks(state.schemas@[j].schema.resource_schemas@, hit.root_type);
        }
        lemma_missing(hit, head, text);
    }
    if state.schemas@.len() > 0 && hit.root_kind == RootBlockKind::DataSource && (forall|j: int|
        0 <= j < state.schemas@.len() ==> lacks(
            (#[trigger] state.schemas@[j]).schema.data_source_schemas@,
            hit.root_type,
        )) {
        let f = crate::schema::data_source_in(hit.root_type);
        if find_map(state.schemas@, f) is Some {
            let j = lemma_find_map_first(state.schemas@, f);
            assert(lacks(state.schemas@[j].schema.data_source_schemas@, hit.root_type));
            lemma_lacks(state.schemas@[j].schema.data_source_schemas@, hit.root_type);
        }
        lemma_missing(hit, head, text);
    }
}

proof fn lemma_missing(hit: HitV, head: Seq<char>, text: Seq<char>)
    requires
        hit.is_header ==> head == crate::hover_attribute::block_heading(hit) && text
            == crate::hover_attribute::block_provider_missing_text(hit),
        !hit.is_header ==> head == crate::hover_attribute::attribute_heading(hit) && text
            == crate::hover_attribute::provider_missing_text(hit),
    ensures
        holds(text, "\n\n_No schema for `"@ + hit.root_type),
{
    let p = "\n\n_No schema for `"@ + hit.root_type;
    assert(text.subrange(head.len() as int, (head.len() + p.len()) as int) =~= p);
}

// ---------------------------------------------------------------------
// Built-in blocks

/// The keyword of a block that the language defines.
pub open spec fn keyword_of(kind: RootBlockKind, keyword: Seq<char>) -> bool {
    match kind {
        RootBlockKind::Terraform => keyword == "terraform"@,
        RootBlockKind::Variable => keyword == "variable"@,
        RootBlockKind::Output => keyword == "output"@,
        RootBlockKind::Module => keyword == "module"@,
        _ => false,
    }
}

/// The entry of the language for a body.
pub open spec fn is_body_at(entries: Seq<BuiltinEntry>, path: Seq<Seq<char>>, i: int) -> bool {
    &&& 0 <= i < entries.len() && texts(entries[i].path@) == path
    &&& forall|j: int| 0 <= j < i ==> texts((#[trigger] entries[j]).path@) != path
}

pub open spec fn is_attr_at(attrs: Seq<BuiltinAttr>, name: Seq<char>, i: int) -> bool {
    &&& 0 <= i < attrs.len() && attrs[i].name@ == name
    &&& forall|j: int| 0 <= j < i ==> (#[trigger] attrs[j]).name@ != name
}

/// An attribute of a built-in block is described as the language describes it in
/// that block, and said to be required where it is.
pub proof fn built_in_attributes_are_described(
    state: StateStore,
    lang: Language,
    hit: HitV,
    path: Seq<char>,
    keyword: Seq<char>,
    i: int,
    k: int,
)
    requires
        !hit.is_header,
        keyword_of(hit.root_kind, keyword),
        is_body_at(lang.builtins@, seq![keyword] + hit.path, i),
        is_attr_at(lang.builtins@[i].schema.attrs@, hit.name, k),
    ensures
        ({
            let a = lang.builtins@[i].schema.attrs@[k];
            hit_text(state, lang, hit, path) == Some(
                "**attribute** `"@ + hit.name + "` in `"@ + join(seq![keyword] + hit.path, "."@)
                    + "`"@ + ((if a.required {
                    " — required"@
                } else {
                    Seq::empty()
                }) + (if a.detail@.len() == 0 {
                    Seq::empty()
                } else {
                    "\n\n"@ + a.detail@
                })),
            )
        }),
{
    lemma_find_map_at(lang.builtins@, entry_at(seq![keyword] + hit.path), i);
    lemma_find_map_at(lang.builtins@[i].schema.attrs@, attr_named(hit.name), k);
}

/// An unknown attribute of a built-in block is called unknown; in a module call
/// nothing is said, since it is an input of the module.
pub proof fn unknown_built_in_attributes_are_called_unknown(
    state: StateStore,
    lang: Language,
    hit: HitV,
    path: Seq<char>,
    keyword: Seq<char>,
    i: int,
)
    requires
        !hit.is_header,
        keyword_of(hit.root_kind, keyword),
        is_body_at(lang.builtins@, seq![keyword] + hit.path, i),
        forall|j: int|
            0 <= j < lang.builtins@[i].schema.attrs@.len() ==> (
            #[trigger] lang.builtins@[i].schema.attrs@[j]).name@ != hit.name,
    ensures
        hit.root_kind == RootBlockKind::Module ==> hit_text(state, lang, hit, path) is None,
        hit.root_kind != RootBlockKind::Module ==> (hit_text(state, lang, hit, path) matches Some(
            text,
        ) && ends_with(text, "\n\n_Unknown attribute for this built-in block._"@)),
{
    lemma_find_map_at(lang.builtins@, entry_at(seq![keyword] + hit.path), i);
    let attrs = lang.builtins@[i].schema.attrs@;
    if find_map(attrs, attr_named(hit.name)) is Some {
        let j = lemma_find_map_first(attrs, attr_named(hit.name));
        assert(attrs[j].name@ == hit.name);
    }
    let head = "**attribute** `"@ + hit.name + "` in `"@ + dotted(seq![keyword] + hit.path) + "`"@;
    lemma_ends(head, "\n\n_Unknown attribute for this built-in block._"@);
}

pub open spec fn built_in_names(attrs: Seq<BuiltinAttr>, required: bool) -> spec_fn(
    Seq<char>,
) -> bool {
    |n: Seq<char>|
        exists|i: int|
            0 <= i < attrs.len() && (#[trigger] attrs[i]).name@ == n && attrs[i].required
                == required
}

/// The header of a built-in block lists the required attributes, the optional
/// ones and the blocks of its body.
pub proof fn built_in_headers_list_their_contents(
    state: StateStore,
    lang: Language,
    hit: HitV,
    path: Seq<char>,
    keyword: Seq<char>,
    i: int,
) -> (r: (Seq<Seq<char>>, Seq<Seq<char>>, Seq<Seq<char>>))
    requires
        hit.is_header,
        keyword_of(hit.root_kind, keyword),
        is_body_at(lang.builtins@, (seq![keyword] + hit.path).push(hit.name), i),
    ensures
        lists(r.0, built_in_names(lang.builtins@[i].schema.attrs@, true)),
        lists(r.1, built_in_names(lang.builtins@[i].schema.attrs@, false)),
        r.2.len() == lang.builtins@[i].schema.blocks@.len(),
        forall|j: int|
            0 <= j < r.2.len() ==> #[trigger] r.2[j] == lang.builtins@[i].schema.blocks@[j].name@,
        hit_text(state, lang, hit, path) matches Some(text) && begins(
            text,
            "**block** `"@ + hit.name + "`"@,
        ) && ends_with(
            text,
            part("Required attrs"@, r.0) + part("Optional attrs"@, r.1) + part(
                "Nested blocks"@,
                r.2,
            ),
        ),
{
    let full = (seq![keyword] + hit.path).push(hit.name);
    lemma_find_map_at(lang.builtins@, entry_at(full), i);
    let s = lang.builtins@[i].schema;
    let a = filter_map(s.attrs@, builtin_name(true));
    let b = filter_map(s.attrs@, builtin_name(false));
    let c = each(s.blocks@, builtin_block_name());
    lemma_built_in(s.attrs@, true);
    lemma_built_in(s.attrs@, false);
    lemma_part("Required attrs"@, a);
    lemma_part("Optional attrs"@, b);
    lemma_part("Nested blocks"@, c);
    let text = hit_text(state, lang, hit, path)->0;
    let tail = part("Required attrs"@, a) + part("Optional attrs"@, b) + part("Nested blocks"@, c);
    let info = crate::hover_attribute::builtin_entry(lang, keyword, hit);
    let head = "**block** `"@ + hit.name + "`"@;
    let middle = crate::hover_attribute::builtin_place(hit, keyword)
        + crate::hover_attribute::builtin_info(hit.name, info);
    assert(text =~= head + middle + tail);
    assert(text.subrange(0, head.len() as int) =~= head);
    lemma_ends(head + middle, tail);
    (a, b, c)
}

proof fn lemma_built_in(attrs: Seq<BuiltinAttr>, required: bool)
    ensures
        lists(filter_map(attrs, builtin_name(required)), built_in_names(attrs, required)),
{
    let f = builtin_name(required);
    let v = filter_map(attrs, f);
    assert forall|n: Seq<char>| #[trigger] v.contains(n) <==> built_in_names(
        attrs,
        required,
    )(n) by {
        lemma_filter_map_contains(attrs, f, n);
        if v.contains(n) {
            let i = choose|i: int| 0 <= i < attrs.len() && f(#[trigger] attrs[i]) == Some(n);
            assert(attrs[i].name@ == n && attrs[i].required == required);
        }
        if built_in_names(attrs, required)(n) {
            let i = choose|i: int|
                0 <= i < attrs.len() && (#[trigger] attrs[i]).name@ == n && attrs[i].required
                    == required;
            assert(f(attrs[i]) == Some(n));
        }
    }
}

// ---------------------------------------------------------------------
// `lifecycle`

/// An attribute of `lifecycle` is described by the table for the kind of block
/// that it is in.
pub proof fn lifecycle_attributes_are_described(lang: Language, hit: HitV, i: int)
    requires
        hit.path == seq!["lifecycle"@],
    ensures
        hit.root_kind == RootBlockKind::DataSource && is_named(
            lang.lifecycle_data_docs@,
            hit.name,
            i,
        ) && lang.lifecycle_data_docs@[i].1@.len() > 0 ==> lifecycle_detail(lang, hit) == Some(
            lang.lifecycle_data_docs@[i].1@,
        ),
        hit.root_kind == RootBlockKind::Resource && is_named(
            lang.lifecycle_resource_docs@,
            hit.name,
            i,
        ) && lang.lifecycle_resource_docs@[i].1@.len() > 0 ==> lifecycle_detail(lang, hit) == Some(
            lang.lifecycle_resource_docs@[i].1@,
        ),
        hit.root_kind == RootBlockKind::DataSource && lacks(lang.lifecycle_data_docs@, hit.name)
            && is_attr_at(lang.lifecycle_data@, hit.name, i) ==> lifecycle_detail(lang, hit)
            == Some(lang.lifecycle_data@[i].detail@),
        hit.root_kind == RootBlockKind::Resource && lacks(lang.lifecycle_resource_docs@, hit.name)
            && is_attr_at(lang.lifecycle_resource@, hit.name, i) ==> lifecycle_detail(lang, hit)
            == Some(lang.lifecycle_resource@[i].detail@),
{
    if is_named(lang.lifecycle_data_docs@, hit.name, i) {
        lemma_named(lang.lifecycle_data_docs@, hit.name, i);
    }
    if is_named(lang.lifecycle_resource_docs@, hit.name, i) {
        lemma_named(lang.lifecycle_resource_docs@, hit.name, i);
    }
    if lacks(lang.lifecycle_data_docs@, hit.name) {
        lemma_lacks(lang.lifecycle_data_docs@, hit.name);
    }
    if lacks(lang.lifecycle_resource_docs@, hit.name) {
        lemma_lacks(lang.lifecycle_resource_docs@, hit.name);
    }
    if is_attr_at(lang.lifecycle_data@, hit.name, i) {
        lemma_find_map_at(lang.lifecycle_data@, attr_named(hit.name), i);
    }
    if is_attr_at(lang.lifecycle_resource@, hit.name, i) {
        lemma_find_map_at(lang.lifecycle_resource@, attr_named(hit.name), i);
    }
}

/// The hover on an attribute of `lifecycle` has that description; on `enabled` it
/// says which tool knows it.
pub proof fn lifecycle_hovers_show_the_description(
    state: StateStore,
    lang: Language,
    hit: HitV,
    path: Seq<char>,
    detail: Seq<char>,
)
    requires
        !hit.is_header,
        hit.root_kind == RootBlockKind::Resource || hit.root_kind == RootBlockKind::DataSource,
        hit.path.len() > 0,
        hit.path[0] == "lifecycle"@,
        lifecycle_detail(lang, hit) == Some(detail),
    ensures
        hit.name != "enabled"@ ==> hit_text(state, lang, hit, path) == Some(
            "**attribute** `"@ + hit.name + "` in `"@ + join(hit.path, "."@) + "`"@ + ("\n\n"@
                + detail),
        ),
        hit.name == "enabled"@ ==> (hit_text(state, lang, hit, path) matches Some(text) && begins(
            text,
            "**attribute** `"@ + hit.name + "` in `"@ + join(hit.path, "."@) + "`"@ + ("\n\n"@
                + detail),
        )),
{
    let lead = "**attribute** `"@ + hit.name + "` in `"@ + join(hit.path, "."@) + "`"@ + ("\n\n"@
        + detail);
    let text = hit_text(state, lang, hit, path)->0;
    let note = crate::hover_attribute::enabled_note(hit, path);
    assert(text =~= lead + note);
    assert(text.subrange(0, lead.len() as int) =~= lead);
    if hit.name != "enabled"@ {
        assert(text =~= lead);
    }
}

/// Whatever a hover says of a key of a resource or a data source, it names the
/// key, the kind and the type.
pub proof fn hovers_of_keys_name_them(state: StateStore, lang: Language, hit: HitV, path: Seq<char>)
    requires
        !hit.is_header,
        hit.root_kind == RootBlockKind::Resource || hit.root_kind == RootBlockKind::DataSource,
        hit.path.len() == 0,
        lacks(lang.meta_attrs@, hit.name),
        state.schemas@.len() == 0,
    ensures
        hit_text(state, lang, hit, path) matches Some(text) && begins(
            text,
            "**attribute** `"@ + hit.name + "` on "@ + (if hit.root_kind
                == RootBlockKind::Resource {
                "resource"@
            } else {
                "data source"@
            }) + " `"@ + hit.root_type + "`"@,
        ),
{
    lemma_lacks(lang.meta_attrs@, hit.name);
    let text = hit_text(state, lang, hit, path)->0;
    let lead = "**attribute** `"@ + hit.name + "` on "@ + (if hit.root_kind
        == RootBlockKind::Resource {
        "resource"@
    } else {
        "data source"@
    }) + " `"@ + hit.root_type + "`"@;
    assert(text.subrange(0, lead.len() as int) =~= lead);
}

} // verus!
