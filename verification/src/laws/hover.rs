//! What hovers show.

use crate::builtin::Language;
use crate::hcl::{attributes, block_in, blocks, Attribute, Block, Body, Structure};
use crate::hover::{
    function_at, function_text, module_input_answer, param_line, paren_follows, HoverV,
};
use crate::hover_attribute::{
    attribute_answer, attribute_flags, attribute_text, block_flags, block_hit, block_root, code,
    description_line, flags_part, hit_at, hit_text, named_part, one_if, root_kind, scan_from,
    schema_flags, HitV, RootBlockKind, RootV,
};
use crate::hover_request::{hover_answer, CallContext};
use crate::laws::common::{is_doc, lemma_doc};
use crate::position::{position_offset, Position};
use crate::schema::{
    data_source_in, entry_named, lookup, resource_in, AttributeSchema, NestedBlockSchema,
    NestingMode, SchemaEntry,
};
use crate::seqs::{each, lemma_find_map_at, lemma_find_map_first};
use crate::state::{DocUri, FunctionEntry, StateStore, SymbolKind};
use crate::text::{join, opt_view, texts, trim};
use vstd::prelude::*;

verus! {

/// The entry of a table for a name: the first that has it.
pub open spec fn is_named<T>(m: Seq<(String, T)>, name: Seq<char>, i: int) -> bool {
    0 <= i < m.len() && m[i].0@ == name && forall|j: int|
        0 <= j < i ==> (#[trigger] m[j]).0@ != name
}

/// A table has no entry for a name.
pub open spec fn lacks<T>(m: Seq<(String, T)>, name: Seq<char>) -> bool {
    forall|j: int| 0 <= j < m.len() ==> (#[trigger] m[j]).0@ != name
}

pub proof fn lemma_named<T>(m: Seq<(String, T)>, name: Seq<char>, i: int)
    requires
        is_named(m, name, i),
    ensures
        lookup(m, name) == Some(m[i].1),
{
    let f = entry_named::<T>(name);
    assert forall|j: int| 0 <= j < i implies f(#[trigger] m[j]) is None by {
        assert(m[j].0@ != name);
    }
    lemma_find_map_at(m, f, i);
}

pub proof fn lemma_lacks<T>(m: Seq<(String, T)>, name: Seq<char>)
    ensures
        lacks(m, name) <==> lookup(m, name) is None,
{
    let f = entry_named::<T>(name);
    let i = lemma_find_map_first(m, f);
    if lookup(m, name) is None {
        assert forall|j: int| 0 <= j < m.len() implies (#[trigger] m[j]).0@ != name by {
            assert(f(m[j]) is None);
        }
    }
}

/// The first provider whose schemas have a resource of a type, and where.
pub open spec fn resource_schema_at(schemas: Seq<SchemaEntry>, ty: Seq<char>, p: int, r: int) -> bool {
    0 <= p < schemas.len() && is_named(schemas[p].schema.resource_schemas@, ty, r) && forall|j: int|
        0 <= j < p ==> lacks((#[trigger] schemas[j]).schema.resource_schemas@, ty)
}

pub open spec fn data_schema_at(schemas: Seq<SchemaEntry>, ty: Seq<char>, p: int, r: int) -> bool {
    0 <= p < schemas.len() && is_named(schemas[p].schema.data_source_schemas@, ty, r) && forall|
        j: int,
    |
        0 <= j < p ==> lacks((#[trigger] schemas[j]).schema.data_source_schemas@, ty)
}

pub proof fn lemma_resource_schema(schemas: Seq<SchemaEntry>, ty: Seq<char>, p: int, r: int)
    requires
        resource_schema_at(schemas, ty, p, r),
    ensures
        crate::schema::resource_schema(schemas, ty) == Some(
            schemas[p].schema.resource_schemas@[r].1,
        ),
{
    let f = resource_in(ty);
    lemma_named(schemas[p].schema.resource_schemas@, ty, r);
    assert forall|j: int| 0 <= j < p implies f(#[trigger] schemas[j]) is None by {
        lemma_lacks(schemas[j].schema.resource_schemas@, ty);
    }
    lemma_find_map_at(schemas, f, p);
}

pub proof fn lemma_data_schema(schemas: Seq<SchemaEntry>, ty: Seq<char>, p: int, r: int)
    requires
        data_schema_at(schemas, ty, p, r),
    ensures
        crate::schema::data_source_schema(schemas, ty) == Some(
            schemas[p].schema.data_source_schemas@[r].1,
        ),
{
    let f = data_source_in(ty);
    lemma_named(schemas[p].schema.data_source_schemas@, ty, r);
    assert forall|j: int| 0 <= j < p implies f(#[trigger] schemas[j]) is None by {
        lemma_lacks(schemas[j].schema.data_source_schemas@, ty);
    }
    lemma_find_map_at(schemas, f, p);
}

/// The words by which a hover says what a schema says of an attribute:
/// `required`, else `optional`; then `computed`, `sensitive` and `deprecated`,
/// each where the schema says so.
pub open spec fn are_flags(flags: Seq<Seq<char>>, s: AttributeSchema) -> bool {
    &&& flags.contains("required"@) <==> s.required
    &&& flags.contains("optional"@) <==> s.optional && !s.required
    &&& flags.contains("computed"@) <==> s.computed
    &&& flags.contains("sensitive"@) <==> s.sensitive
    &&& flags.contains("deprecated"@) <==> s.deprecated
    &&& forall|i: int|
        0 <= i < flags.len() ==> (#[trigger] flags[i]) == "required"@ || flags[i] == "optional"@
            || flags[i] == "computed"@ || flags[i] == "sensitive"@ || flags[i] == "deprecated"@
    &&& forall|i: int, j: int| 0 <= i < j < flags.len() ==> flags[i] != flags[j]
}

proof fn lemma_words()
    ensures
        "required"@.len() == 8,
        "optional"@.len() == 8,
        "computed"@.len() == 8,
        "sensitive"@.len() == 9,
        "deprecated"@.len() == 10,
        "required"@ != "optional"@,
        "required"@ != "computed"@,
        "optional"@ != "computed"@,
{
    reveal_strlit("required");
    reveal_strlit("optional");
    reveal_strlit("computed");
    reveal_strlit("sensitive");
    reveal_strlit("deprecated");
    assert("required"@[0] == 'r');
    assert("optional"@[0] == 'o');
    assert("computed"@[0] == 'c');
}

proof fn lemma_one_if(cond: bool, w: Seq<char>, x: Seq<char>)
    ensures
        one_if(cond, w).contains(x) <==> cond && x == w,
{
    if cond {
        assert(one_if(cond, w)[0] == w);
    }
}

proof fn lemma_flags(s: AttributeSchema)
    ensures
        are_flags(attribute_flags(s), s),
{
    lemma_words();
    let a = if s.required {
        seq!["required"@]
    } else {
        one_if(s.optional, "optional"@)
    };
    let b = one_if(s.computed, "computed"@);
    let c = one_if(s.sensitive, "sensitive"@);
    let d = one_if(s.deprecated, "deprecated"@);
    let all = attribute_flags(s);
    assert(all == a + b + c + d);
    assert forall|x: Seq<char>| #[trigger]
        all.contains(x) <==> a.contains(x) || b.contains(x) || c.contains(x) || d.contains(x) by {
        crate::seqs::lemma_plus_contains(a, b, x);
        crate::seqs::lemma_plus_contains(a + b, c, x);
        crate::seqs::lemma_plus_contains(a + b + c, d, x);
    }
    assert forall|x: Seq<char>| #[trigger] a.contains(x) <==> (s.required && x == "required"@) || (
    !s.required && s.optional && x == "optional"@) by {
        if s.required {
            assert(a[0] == "required"@);
        } else {
            lemma_one_if(s.optional, "optional"@, x);
        }
    }
    assert forall|x: Seq<char>| #[trigger] b.contains(x) <==> s.computed && x == "computed"@ by {
        lemma_one_if(s.computed, "computed"@, x);
    }
    assert forall|x: Seq<char>| #[trigger] c.contains(x) <==> s.sensitive && x == "sensitive"@ by {
        lemma_one_if(s.sensitive, "sensitive"@, x);
    }
    assert forall|x: Seq<char>| #[trigger] d.contains(x) <==> s.deprecated && x == "deprecated"@ by {
        lemma_one_if(s.deprecated, "deprecated"@, x);
    }
    assert forall|i: int| 0 <= i < all.len() implies (#[trigger] all[i]) == "required"@ || all[i]
        == "optional"@ || all[i] == "computed"@ || all[i] == "sensitive"@ || all[i]
        == "deprecated"@ by {
        assert(all.contains(all[i]));
    }
}

/// The text of a hover names the attribute and then, behind a dash, the flags.
pub open spec fn shows_flags(
    text: Seq<char>,
    name: Seq<char>,
    flags: Seq<Seq<char>>,
    head: Seq<char>,
    tail: Seq<char>,
) -> bool {
    text == head + "**attribute** `"@ + name + "`"@ + (if flags.len() == 0 {
        Seq::empty()
    } else {
        " — "@ + join(flags, ", "@)
    }) + "\n"@ + tail
}

/// The hover of an attribute that a schema describes has the word `required`
/// exactly where the schema requires the attribute, `optional` exactly where it
/// is optional and not required, and `computed`, `sensitive` and `deprecated`
/// where the schema says so.
pub proof fn hovers_say_what_the_schema_says(hit: HitV, s: AttributeSchema)
    ensures
        exists|flags: Seq<Seq<char>>, head: Seq<char>, tail: Seq<char>| #[trigger]
            shows_flags(attribute_text(hit, s), hit.name, flags, head, tail) && are_flags(flags, s),
{
    lemma_flags(s);
    let flags = attribute_flags(s);
    let text = attribute_text(hit, s);
    let head = "**"@ + crate::hover_attribute::kind_label(hit.root_kind) + "** `"@ + hit.root_type
        + "`"@ + crate::hover_attribute::path_part(" / `"@, hit.path, "`"@) + "\n\n"@;
    let tail = description_line(opt_view(s.description)) + named_part(
        "Conflicts with"@,
        texts(s.conflicts_with@),
    ) + named_part("Required with"@, texts(s.required_with@)) + named_part(
        "Exactly one of"@,
        texts(s.exactly_one_of@),
    ) + named_part("At least one of"@, texts(s.at_least_one_of@));
    assert(text =~= head + "**attribute** `"@ + hit.name + "`"@ + flags_part(flags) + "\n"@ + tail);
    assert(shows_flags(text, hit.name, flags, head, tail));
}

/// The same words, but `optional` also beside `required`, are what a completion
/// shows of an attribute.
pub proof fn completions_say_what_the_schema_says(s: AttributeSchema, w: Seq<char>)
    ensures
        schema_flags(s).contains(w) <==> {
            ||| w == "required"@ && s.required
            ||| w == "optional"@ && s.optional
            ||| w == "computed"@ && s.computed
            ||| w == "sensitive"@ && s.sensitive
            ||| w == "deprecated"@ && s.deprecated
        },
{
    let a = one_if(s.required, "required"@);
    let b = one_if(s.optional, "optional"@);
    let c = one_if(s.computed, "computed"@);
    let d = one_if(s.sensitive, "sensitive"@);
    let e = one_if(s.deprecated, "deprecated"@);
    lemma_one_if(s.required, "required"@, w);
    lemma_one_if(s.optional, "optional"@, w);
    lemma_one_if(s.computed, "computed"@, w);
    lemma_one_if(s.sensitive, "sensitive"@, w);
    lemma_one_if(s.deprecated, "deprecated"@, w);
    crate::seqs::lemma_plus_contains(a, b, w);
    crate::seqs::lemma_plus_contains(a + b, c, w);
    crate::seqs::lemma_plus_contains(a + b + c, d, w);
    crate::seqs::lemma_plus_contains(a + b + c + d, e, w);
}

pub open spec fn begins(s: Seq<char>, p: Seq<char>) -> bool {
    p.len() <= s.len() && s.take(p.len() as int) == p
}

/// What a hover of an attribute starts with: the kind and the type of the block
/// around it, and its own name.
pub open spec fn attribute_lead(kind: Seq<char>, ty: Seq<char>, name: Seq<char>) -> Seq<char> {
    "**"@ + kind + "** `"@ + ty + "`"@ + "\n\n"@ + "**attribute** `"@ + name + "`"@
}

/// On an attribute of a resource that is no meta-argument the hover is about
/// what the schema of the resource says of that attribute.
pub proof fn hovers_of_resource_attributes(
    state: StateStore,
    lang: Language,
    hit: HitV,
    path: Seq<char>,
    p: int,
    r: int,
    i: int,
)
    requires
        !hit.is_header,
        hit.root_kind == RootBlockKind::Resource,
        hit.path.len() == 0,
        lacks(lang.meta_attrs@, hit.name),
        resource_schema_at(state.schemas@, hit.root_type, p, r),
        is_named(
            state.schemas@[p].schema.resource_schemas@[r].1.block.attributes@,
            hit.name,
            i,
        ),
    ensures
        hit_text(state, lang, hit, path) == Some(
            attribute_text(
                hit,
                state.schemas@[p].schema.resource_schemas@[r].1.block.attributes@[i].1,
            ),
        ),
        begins(
            hit_text(state, lang, hit, path)->0,
            attribute_lead("resource"@, hit.root_type, hit.name),
        ),
{
    lemma_lacks(lang.meta_attrs@, hit.name);
    lemma_resource_schema(state.schemas@, hit.root_type, p, r);
    lemma_named(
        state.schemas@[p].schema.resource_schemas@[r].1.block.attributes@,
        hit.name,
        i,
    );
    let a = state.schemas@[p].schema.resource_schemas@[r].1.block.attributes@[i].1;
    lemma_lead(hit, a, "resource"@);
}

/// On an attribute of a data source by the schema of data sources.
pub proof fn hovers_of_data_source_attributes(
    state: StateStore,
    lang: Language,
    hit: HitV,
    path: Seq<char>,
    p: int,
    r: int,
    i: int,
)
    requires
        !hit.is_header,
        hit.root_kind == RootBlockKind::DataSource,
        hit.path.len() == 0,
        lacks(lang.meta_attrs@, hit.name),
        data_schema_at(state.schemas@, hit.root_type, p, r),
        is_named(
            state.schemas@[p].schema.data_source_schemas@[r].1.block.attributes@,
            hit.name,
            i,
        ),
    ensures
        hit_text(state, lang, hit, path) == Some(
            attribute_text(
                hit,
                state.schemas@[p].schema.data_source_schemas@[r].1.block.attributes@[i].1,
            ),
        ),
        begins(
            hit_text(state, lang, hit, path)->0,
            attribute_lead("data source"@, hit.root_type, hit.name),
        ),
{
    lemma_lacks(lang.meta_attrs@, hit.name);
    lemma_data_schema(state.schemas@, hit.root_type, p, r);
    lemma_named(
        state.schemas@[p].schema.data_source_schemas@[r].1.block.attributes@,
        hit.name,
        i,
    );
    let a = state.schemas@[p].schema.data_source_schemas@[r].1.block.attributes@[i].1;
    lemma_lead(hit, a, "data source"@);
}

proof fn lemma_lead(hit: HitV, a: AttributeSchema, kind: Seq<char>)
    requires
        hit.path.len() == 0,
        crate::hover_attribute::kind_label(hit.root_kind) == kind,
    ensures
        begins(attribute_text(hit, a), attribute_lead(kind, hit.root_type, hit.name)),
{
    let lead = attribute_lead(kind, hit.root_type, hit.name);
    assert(attribute_text(hit, a).take(lead.len() as int) =~= lead);
}

/// The description of an attribute stands in its hover on a line of its own
/// where it is not blank, and the names that the schema ties to it are listed.
pub proof fn hovers_describe_the_attribute(hit: HitV, s: AttributeSchema)
    ensures
        ({
            let lists = s.conflicts_with@.len() == 0 && s.required_with@.len() == 0
                && s.exactly_one_of@.len() == 0 && s.at_least_one_of@.len() == 0;
            &&& lists && s.description is Some && trim(s.description->0@).len() > 0
                ==> crate::text::ends_with(
                attribute_text(hit, s),
                "\n"@ + "\n"@ + s.description->0@,
            )
            &&& s.at_least_one_of@.len() > 0 ==> crate::text::ends_with(
                attribute_text(hit, s),
                "\n\n**"@ + "At least one of"@ + ":** "@ + join(
                    Seq::new(
                        s.at_least_one_of@.len(),
                        |i: int| "`"@ + s.at_least_one_of@[i]@ + "`"@,
                    ),
                    ", "@,
                ),
            )
            &&& s.at_least_one_of@.len() == 0 && s.exactly_one_of@.len() > 0
                ==> crate::text::ends_with(
                attribute_text(hit, s),
                "\n\n**"@ + "Exactly one of"@ + ":** "@ + join(
                    Seq::new(
                        s.exactly_one_of@.len(),
                        |i: int| "`"@ + s.exactly_one_of@[i]@ + "`"@,
                    ),
                    ", "@,
                ),
            )
            &&& s.at_least_one_of@.len() == 0 && s.exactly_one_of@.len() == 0
                && s.required_with@.len() > 0 ==> crate::text::ends_with(
                attribute_text(hit, s),
                "\n\n**"@ + "Required with"@ + ":** "@ + join(
                    Seq::new(
                        s.required_with@.len(),
                        |i: int| "`"@ + s.required_with@[i]@ + "`"@,
                    ),
                    ", "@,
                ),
            )
            &&& s.at_least_one_of@.len() == 0 && s.exactly_one_of@.len() == 0
                && s.required_with@.len() == 0 && s.conflicts_with@.len() > 0
                ==> crate::text::ends_with(
                attribute_text(hit, s),
                "\n\n**"@ + "Conflicts with"@ + ":** "@ + join(
                    Seq::new(
                        s.conflicts_with@.len(),
                        |i: int| "`"@ + s.conflicts_with@[i]@ + "`"@,
                    ),
                    ", "@,
                ),
            )
        }),
{
    let head = "**"@ + crate::hover_attribute::kind_label(hit.root_kind) + "** `"@ + hit.root_type
        + "`"@ + crate::hover_attribute::path_part(" / `"@, hit.path, "`"@) + "\n\n"@
        + "**attribute** `"@ + hit.name + "`"@ + flags_part(attribute_flags(s));
    let d = description_line(opt_view(s.description));
    let p1 = named_part("Conflicts with"@, texts(s.conflicts_with@));
    let p2 = named_part("Required with"@, texts(s.required_with@));
    let p3 = named_part("Exactly one of"@, texts(s.exactly_one_of@));
    let p4 = named_part("At least one of"@, texts(s.at_least_one_of@));
    let text = attribute_text(hit, s);
    assert(text == head + "\n"@ + d + p1 + p2 + p3 + p4);
    lemma_part(s.conflicts_with@, "Conflicts with"@);
    lemma_part(s.required_with@, "Required with"@);
    lemma_part(s.exactly_one_of@, "Exactly one of"@);
    lemma_part(s.at_least_one_of@, "At least one of"@);
    if s.at_least_one_of@.len() > 0 {
        lemma_ends(head + "\n"@ + d + p1 + p2 + p3, p4);
    } else if s.exactly_one_of@.len() > 0 {
        assert(text =~= head + "\n"@ + d + p1 + p2 + p3);
        lemma_ends(head + "\n"@ + d + p1 + p2, p3);
    } else if s.required_with@.len() > 0 {
        assert(text =~= head + "\n"@ + d + p1 + p2);
        lemma_ends(head + "\n"@ + d + p1, p2);
    } else if s.conflicts_with@.len() > 0 {
        assert(text =~= head + "\n"@ + d + p1);
        lemma_ends(head + "\n"@ + d, p1);
    } else if s.description is Some && trim(s.description->0@).len() > 0 {
        assert(text =~= head + ("\n"@ + "\n"@ + s.description->0@));
        lemma_ends(head, "\n"@ + "\n"@ + s.description->0@);
    }
}

pub proof fn lemma_ends(a: Seq<char>, b: Seq<char>)
    ensures
        crate::text::ends_with(a + b, b),
{
    assert((a + b).subrange((a + b).len() - b.len(), (a + b).len() as int) =~= b);
}

proof fn lemma_part(v: Seq<String>, heading: Seq<char>)
    ensures
        v.len() == 0 ==> named_part(heading, texts(v)).len() == 0,
        v.len() > 0 ==> named_part(heading, texts(v)) == "\n\n**"@ + heading + ":** "@ + join(
            Seq::new(v.len(), |i: int| "`"@ + v[i]@ + "`"@),
            ", "@,
        ),
{
    assert(each(texts(v), code()) =~= Seq::new(v.len(), |i: int| "`"@ + v[i]@ + "`"@));
}

/// A meta-argument of a resource or a data source is described as the language
/// describes it.
pub proof fn hovers_of_meta_arguments(
    state: StateStore,
    lang: Language,
    hit: HitV,
    path: Seq<char>,
    i: int,
)
    requires
        !hit.is_header,
        hit.root_kind == RootBlockKind::Resource || hit.root_kind == RootBlockKind::DataSource,
        hit.path.len() == 0,
        is_named(lang.meta_attrs@, hit.name, i),
    ensures
        hit_text(state, lang, hit, path) == Some(
            "**meta-argument** `"@ + hit.name + "` on "@ + (if hit.root_kind
                == RootBlockKind::Resource {
                "resource"@
            } else {
                "data source"@
            }) + " `"@ + hit.root_type + "`\n\n"@ + lang.meta_attrs@[i].1@,
        ),
{
    lemma_named(lang.meta_attrs@, hit.name, i);
}

/// An attribute that the schema of the block does not have is said not to be
/// there.
pub proof fn unknown_attributes_are_called_unknown(
    state: StateStore,
    lang: Language,
    hit: HitV,
    path: Seq<char>,
    p: int,
    r: int,
)
    requires
        !hit.is_header,
        hit.root_kind == RootBlockKind::Resource,
        hit.path.len() == 0,
        lacks(lang.meta_attrs@, hit.name),
        resource_schema_at(state.schemas@, hit.root_type, p, r),
        lacks(state.schemas@[p].schema.resource_schemas@[r].1.block.attributes@, hit.name),
    ensures
        hit_text(state, lang, hit, path) is Some,
        crate::text::ends_with(
            hit_text(state, lang, hit, path)->0,
            "\n\n_Attribute `"@ + hit.name + "` is not in the schema for `"@ + hit.root_type
                + "`._ Check the spelling or provider version."@,
        ),
{
    lemma_lacks(lang.meta_attrs@, hit.name);
    lemma_resource_schema(state.schemas@, hit.root_type, p, r);
    lemma_lacks(
        state.schemas@[p].schema.resource_schemas@[r].1.block.attributes@,
        hit.name,
    );
    let head = crate::hover_attribute::attribute_heading(hit);
    let tail = "\n\n_Attribute `"@ + hit.name + "` is not in the schema for `"@ + hit.root_type
        + "`._ Check the spelling or provider version."@;
    assert(hit_text(state, lang, hit, path)->0 =~= head + tail);
    lemma_ends(head, tail);
}

/// The words by which a hover says how a nested block nests and how often it
/// may stand.
pub proof fn hovers_say_how_blocks_nest(nb: NestedBlockSchema)
    ensures
        block_flags(nb).len() > 0,
        block_flags(nb)[0] == "nesting: "@ + match nb.nesting_mode {
            NestingMode::Single => "single"@,
            NestingMode::ListOf => "list"@,
            NestingMode::SetOf => "set"@,
            NestingMode::MapOf => "map"@,
            NestingMode::Group => "group"@,
        },
        nb.min_items > 0 ==> block_flags(nb).contains(
            "min_items: "@ + crate::text::decimal(nb.min_items as nat),
        ),
        nb.max_items > 0 ==> block_flags(nb).contains(
            "max_items: "@ + crate::text::decimal(nb.max_items as nat),
        ),
        nb.block.deprecated ==> block_flags(nb).contains("deprecated"@),
        block_flags(nb).len() == 1 + (if nb.min_items > 0 {
            1int
        } else {
            0
        }) + (if nb.max_items > 0 {
            1int
        } else {
            0
        }) + (if nb.block.deprecated {
            1int
        } else {
            0
        }),
{
    let a = seq!["nesting: "@ + crate::hover_attribute::nesting_word(nb.nesting_mode)];
    let b = one_if(nb.min_items > 0, "min_items: "@ + crate::text::decimal(nb.min_items as nat));
    let c = one_if(nb.max_items > 0, "max_items: "@ + crate::text::decimal(nb.max_items as nat));
    let d = one_if(nb.block.deprecated, "deprecated"@);
    let all = block_flags(nb);
    assert(all == a + b + c + d);
    if nb.min_items > 0 {
        assert(all[1] == b[0]);
    }
    if nb.max_items > 0 {
        assert(all[1int + b.len()] == c[0]);
    }
    if nb.block.deprecated {
        assert(all[1int + b.len() + c.len()] == d[0]);
    }
}

/// The words for the kinds of symbols.
pub open spec fn kind_named(kind: SymbolKind) -> Seq<char> {
    match kind {
        SymbolKind::Variable => "variable"@,
        SymbolKind::Local => "local"@,
        SymbolKind::Output => "output"@,
        SymbolKind::Module => "module"@,
        SymbolKind::Resource => "resource"@,
        SymbolKind::DataSource => "data source"@,
        SymbolKind::Provider => "provider"@,
        SymbolKind::TerraformBlock => "terraform block"@,
    }
}

/// On a symbol that nothing narrower is known of the hover names the kind and
/// the name of the symbol, over the place of the symbol.
pub proof fn hovers_name_the_symbol(
    state: StateStore,
    lang: Language,
    uri: DocUri,
    pos: Position,
    call: CallContext,
    k: int,
    kind: SymbolKind,
    ty: Option<Seq<char>>,
    name: Seq<char>,
    n: int,
)
    requires
        is_doc(state, uri.text@, k),
        attribute_answer(state, lang, state.documents@[k], pos, uri.path@) is None,
        module_input_answer(state, state.documents@[k], pos) is None,
        call.word is None,
        call.enclosing is None,
        crate::laws::common::is_reference_at(state.documents@[k], pos, n),
        crate::laws::common::names(state.documents@[k].references@[n], kind, ty, name),
    ensures
        hover_answer(state, lang, uri, pos, call) == Some(
            HoverV {
                value: "**"@ + kind_named(kind) + "** `"@ + name + "`"@,
                range: Some(state.documents@[k].references@[n].location.range),
            },
        ),
{
    lemma_doc(state, uri, k);
    crate::laws::common::lemma_reference(state.documents@[k], pos, n);
}

/// The hover of an attribute goes before that of an input of a module, and
/// that before those of functions and symbols.
pub proof fn the_narrowest_hover_is_shown(
    state: StateStore,
    lang: Language,
    uri: DocUri,
    pos: Position,
    call: CallContext,
    k: int,
)
    requires
        is_doc(state, uri.text@, k),
    ensures
        attribute_answer(state, lang, state.documents@[k], pos, uri.path@) is Some ==> hover_answer(
            state,
            lang,
            uri,
            pos,
            call,
        ) == attribute_answer(state, lang, state.documents@[k], pos, uri.path@),
        attribute_answer(state, lang, state.documents@[k], pos, uri.path@) is None
            && module_input_answer(state, state.documents@[k], pos) is Some ==> hover_answer(
            state,
            lang,
            uri,
            pos,
            call,
        ) == module_input_answer(state, state.documents@[k], pos),
{
    lemma_doc(state, uri, k);
}

/// On the name of a function that is called the hover is about that function;
/// elsewhere about the one in whose arguments the cursor is.
pub proof fn hovers_of_calls(
    t: Seq<char>,
    word: Option<&crate::hover::CursorWord>,
    named: Option<&FunctionEntry>,
    enclosing: Option<&FunctionEntry>,
)
    ensures
        word is Some && named is Some && paren_follows(t, word->0.span.end as int) ==> function_at(
            t,
            word,
            named,
            enclosing,
        ) == Some(*named->0),
        word is None || named is None || !paren_follows(t, word->0.span.end as int) ==> (
        function_at(t, word, named, enclosing) is Some <==> enclosing is Some) && (enclosing is Some
            ==> function_at(t, word, named, enclosing) == Some(*enclosing->0)),
{
}

/// The hover of a function names it, shows its signature as code and has a line
/// for each of its parameters, in their order.
pub proof fn hovers_show_the_signature(f: FunctionEntry)
    ensures
        begins(function_text(f), "**function** `"@ + f.name@ + "`\n\n"@),
        f.description is None ==> begins(
            function_text(f),
            "**function** `"@ + f.name@ + "`\n\n"@ + "```hcl\n"@ + f.label@ + "\n```\n"@,
        ),
        f.parameters@.len() == 0 && f.variadic_parameter is None ==> crate::text::ends_with(
            function_text(f),
            "```hcl\n"@ + f.label@ + "\n```\n"@,
        ),
{
    let lead = "**function** `"@ + f.name@ + "`\n\n"@;
    assert(function_text(f).take(lead.len() as int) =~= lead);
    if f.description is None {
        let more = lead + "```hcl\n"@ + f.label@ + "\n```\n"@;
        assert(function_text(f).take(more.len() as int) =~= more);
    }
    if f.parameters@.len() == 0 && f.variadic_parameter is None {
        let head = lead + crate::hover::description_part(opt_view(f.description));
        let tail = "```hcl\n"@ + f.label@ + "\n```\n"@;
        assert(function_text(f) =~= head + tail);
        lemma_ends(head, tail);
    }
}

/// The line of a parameter has its name and its type.
pub proof fn parameters_have_name_and_type(p: crate::state::FunctionParameter, variadic: bool)
    ensures
        begins(
            param_line(p, variadic),
            "- `"@ + p.name@ + (if variadic {
                "..."@
            } else {
                ""@
            }) + "`: "@ + p.type_label@,
        ),
        p.description is Some && trim(p.description->0@).len() > 0 ==> crate::text::ends_with(
            param_line(p, variadic),
            " — "@ + trim(p.description->0@) + "\n"@,
        ),
{
    let lead = "- `"@ + p.name@ + (if variadic {
        "..."@
    } else {
        ""@
    }) + "`: "@ + p.type_label@;
    assert(param_line(p, variadic).take(lead.len() as int) =~= lead);
    if p.description is Some && trim(p.description->0@).len() > 0 {
        let tail = " — "@ + trim(p.description->0@) + "\n"@;
        assert(param_line(p, variadic) =~= lead + tail);
        lemma_ends(lead, tail);
    }
}

/// The kind of a block by its keyword, where hovers know the block.
pub open spec fn kind_of_keyword(word: Seq<char>, kind: RootBlockKind) -> bool {
    match kind {
        RootBlockKind::Resource => word == "resource"@,
        RootBlockKind::DataSource => word == "data"@,
        RootBlockKind::Provider => word == "provider"@,
        RootBlockKind::Terraform => word == "terraform"@,
        RootBlockKind::Variable => word == "variable"@,
        RootBlockKind::Output => word == "output"@,
        RootBlockKind::Module => word == "module"@,
    }
}

/// What a hover finds under the cursor belongs to a top-level block of the body
/// that holds the cursor, of the kind that its keyword says and, but for
/// `terraform`, of the type that its first label says.
pub proof fn hits_belong_to_the_block_around_them(body: Body, t: Seq<char>, pos: Position)
    ensures
        hit_at(body, t, pos) matches Some(h) ==> exists|b: Block| #[trigger]
            crate::laws::modules::has_block(body, b) && kind_of_keyword(
                b.ident.text@,
                h.root_kind,
            ) && crate::laws::modules::covers(b.span, position_offset(t, pos)->0) && if h.root_kind
                == RootBlockKind::Terraform {
                h.root_type == "terraform"@
            } else {
                b.labels@.len() > 0 && h.root_type == b.labels@[0].text@
            },
{
    if hit_at(body, t, pos) is Some {
        let offset = position_offset(t, pos)->0;
        let bs = blocks(body);
        let i = lemma_find_map_first(bs, block_hit(offset));
        let b = bs[i];
        crate::seqs::lemma_filter_map_contains(body.structures@, block_in(), b);
        assert(bs.contains(b));
        let n = choose|n: int|
            0 <= n < body.structures@.len() && block_in()(#[trigger] body.structures@[n]) == Some(
                b,
            );
        assert(body.structures@[n] == Structure::Block(b));
        assert(crate::laws::modules::has_block(body, b));
        let root = block_root(b)->0;
        lemma_scanned(b.body, 0, offset, Seq::empty(), root);
        reveal_keywords();
    }
}

proof fn reveal_keywords()
    ensures
        forall|w: Seq<char>|
            #[trigger] root_kind(w) matches Some(k) ==> kind_of_keyword(w, k),
{
}

proof fn lemma_scanned(body: Body, i: int, offset: int, path: Seq<Seq<char>>, root: RootV)
    ensures
        scan_from(body, i, offset, path, root) matches Some(h) ==> h.root_kind == root.kind
            && h.root_type == root.ty,
        crate::hover_attribute::scan_dynamic_from(body, i, offset, path, root) matches Some(h)
            ==> h.root_kind == root.kind && h.root_type == root.ty,
    decreases body, body.structures@.len() - i,
{
    if 0 <= i < body.structures@.len() {
        lemma_scanned(body, i + 1, offset, path, root);
        match body.structures@[i] {
            Structure::Attribute(_) => {},
            Structure::Block(b) => {
                lemma_scanned(b.body, 0, offset, path.push(b.ident.text@), root);
                lemma_scanned(b.body, 0, offset, path, root);
                if b.labels@.len() > 0 {
                    lemma_scanned(b.body, 0, offset, path.push(b.labels@[0].text@), root);
                }
            },
        }
    }
}

/// The key of an attribute that stands directly in a block is what the cursor
/// on it is on, and the hover covers the key.
pub proof fn keys_under_the_cursor_are_found(
    body: Body,
    t: Seq<char>,
    pos: Position,
    n: int,
    b: Block,
    i: int,
    a: Attribute,
    kind: RootBlockKind,
)
    requires
        position_offset(t, pos) is Some,
        ({
            let offset = position_offset(t, pos)->0;
            &&& 0 <= n < blocks(body).len() && blocks(body)[n] == b
            &&& kind_of_keyword(b.ident.text@, kind) && kind != RootBlockKind::Terraform
            &&& b.labels@.len() > 0
            &&& crate::laws::modules::covers(b.span, offset)
            &&& forall|j: int|
                0 <= j < n ==> !crate::laws::modules::covers(
                    (#[trigger] blocks(body)[j]).span,
                    offset,
                )
            &&& 0 <= i < b.body.structures@.len() && b.body.structures@[i] == Structure::Attribute(
                a,
            )
            &&& crate::laws::modules::covers(a.key.span, offset)
            &&& forall|j: int|
                0 <= j < i ==> match (#[trigger] b.body.structures@[j]) {
                    Structure::Attribute(x) => !crate::laws::modules::covers(x.key.span, offset),
                    Structure::Block(x) => !crate::laws::modules::covers(x.span, offset),
                }
        }),
    ensures
        hit_at(body, t, pos) == Some(
            HitV {
                is_header: false,
                root_kind: kind,
                root_type: b.labels@[0].text@,
                path: Seq::empty(),
                name: a.key.text@,
                span: a.key.span->0,
            },
        ),
{
    let offset = position_offset(t, pos)->0;
    lemma_keywords();
    let root = RootV { kind, ty: b.labels@[0].text@ };
    assert(block_root(b) == Some(root));
    lemma_scan_to(b.body, 0, i, a, offset, Seq::empty(), root);
    let f = block_hit(offset);
    assert forall|j: int| 0 <= j < n implies f(#[trigger] blocks(body)[j]) is None by {
        assert(!crate::laws::modules::covers(blocks(body)[j].span, offset));
    }
    lemma_find_map_at(blocks(body), f, n);
}

proof fn lemma_keywords()
    ensures
        forall|w: Seq<char>, k: RootBlockKind| #[trigger]
            kind_of_keyword(w, k) ==> root_kind(w) == Some(k),
{
    reveal_strlit("resource");
    reveal_strlit("data");
    reveal_strlit("provider");
    reveal_strlit("terraform");
    reveal_strlit("variable");
    reveal_strlit("output");
    reveal_strlit("module");
    assert("resource"@[0] == 'r' && "provider"@[0] == 'p' && "variable"@[0] == 'v' && "output"@[0]
        == 'o' && "module"@[0] == 'm' && "data"@[0] == 'd' && "terraform"@[0] == 't');
}

proof fn lemma_scan_to(
    body: Body,
    from: int,
    i: int,
    a: Attribute,
    offset: int,
    path: Seq<Seq<char>>,
    root: RootV,
)
    requires
        0 <= from <= i < body.structures@.len(),
        body.structures@[i] == Structure::Attribute(a),
        crate::laws::modules::covers(a.key.span, offset),
        forall|j: int|
            from <= j < i ==> match (#[trigger] body.structures@[j]) {
                Structure::Attribute(x) => !crate::laws::modules::covers(x.key.span, offset),
                Structure::Block(x) => !crate::laws::modules::covers(x.span, offset),
            },
    ensures
        scan_from(body, from, offset, path, root) == Some(
            crate::hover_attribute::attribute_hit(root, path, a),
        ),
    decreases i - from,
{
    if from < i {
        lemma_scan_to(body, from + 1, i, a, offset, path, root);
        match body.structures@[from] {
            Structure::Attribute(x) => {
                assert(!crate::laws::modules::covers(x.key.span, offset));
            },
            Structure::Block(x) => {
                assert(!crate::laws::modules::covers(x.span, offset));
            },
        }
    }
}

/// A function's description stands before its signature, its parameters behind
/// it, each on its line, the variadic one last.
pub proof fn hovers_describe_the_function(f: FunctionEntry, i: int)
    ensures
        f.description matches Some(d) ==> (crate::text::trim(d@).len() > 0
            ==> crate::laws::rename::holds(
            function_text(f),
            "`\n\n"@ + d@ + "\n\n```hcl\n"@ + f.label@ + "\n```\n"@,
        )),
        0 <= i < f.parameters@.len() ==> crate::laws::rename::holds(
            function_text(f),
            crate::hover::param_line(f.parameters@[i], false),
        ),
        f.variadic_parameter matches Some(p) ==> crate::text::ends_with(
            function_text(f),
            crate::hover::param_line(p, true),
        ),
{
    let text = function_text(f);
    let lead = "**function** `"@ + f.name@;
    let d = crate::hover::description_part(opt_view(f.description));
    let sig = "```hcl\n"@ + f.label@ + "\n```\n"@;
    let params = crate::hover::parameters_part(f);
    assert(text =~= lead + "`\n\n"@ + d + sig + params);
    if let Some(x) = f.description {
        if crate::text::trim(x@).len() > 0 {
            reveal_strlit("\n\n");
            reveal_strlit("```hcl\n");
            reveal_strlit("\n\n```hcl\n");
            assert("\n\n```hcl\n"@ =~= "\n\n"@ + "```hcl\n"@);
            let p = "`\n\n"@ + x@ + "\n\n```hcl\n"@ + f.label@ + "\n```\n"@;
            assert(p =~= "`\n\n"@ + d + sig);
            assert(text =~= lead + p + params);
            assert(text.subrange(lead.len() as int, (lead.len() + p.len()) as int) =~= p);
        }
    }
    let v = f.parameters@;
    let lines = crate::hover::param_lines(v, v.len() as int);
    let head = lead + "`\n\n"@ + d + sig + "\n**Parameters**\n"@;
    let last = match f.variadic_parameter {
        Some(p) => crate::hover::param_line(p, true),
        None => Seq::empty(),
    };
    if 0 <= i < v.len() {
        lemma_param_line(v, v.len() as int, i);
        assert(text =~= head + lines + last);
        crate::laws::completion_snippets::lemma_holds_in(
            head,
            lines,
            last,
            crate::hover::param_line(v[i], false),
        );
    }
    if f.variadic_parameter is Some {
        assert(text =~= head + lines + last);
        lemma_ends(head + lines, last);
    }
}

proof fn lemma_param_line(v: Seq<crate::state::FunctionParameter>, n: int, i: int)
    requires
        0 <= i < n <= v.len(),
    ensures
        crate::laws::rename::holds(
            crate::hover::param_lines(v, n),
            crate::hover::param_line(v[i], false),
        ),
    decreases n,
{
    let before = crate::hover::param_lines(v, n - 1);
    let own = crate::hover::param_line(v[n - 1], false);
    let all = crate::hover::param_lines(v, n);
    if i == n - 1 {
        assert(all.subrange(before.len() as int, (before.len() + own.len()) as int) =~= own);
    } else {
        lemma_param_line(v, n - 1, i);
        crate::laws::completion_snippets::lemma_holds_in(
            Seq::empty(),
            before,
            own,
            crate::hover::param_line(v[i], false),
        );
        assert(all =~= Seq::<char>::empty() + before + own);
    }
}

} // verus!
