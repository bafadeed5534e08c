//! What the snippets of completion fill in.

use crate::builtin::{block_entry, entry_at, BuiltinBlock, Language, RequiredAttr};
use crate::completion_body::{field_item, field_items, field_type, object_node, optional_fields};
use crate::completion_builtin::{
    block_header, block_snippet, content_block, dynamic_attr, dynamic_items, entry_attr_item,
    entry_attr_items, first_tab, required_value, required_values, test_top_level,
};
use crate::completion_cursor::FilterV;
use crate::completion_files::test_schema;
use crate::completion_item::{lemma_sorted_contains, ItemV, SortBy};
use crate::completion_schema::{
    nested_scaffold, required_name, required_names, scaffold_lines, type_scaffold,
};
use crate::laws::completion_names::has_label;
use crate::laws::hover::{begins, is_named, lemma_ends, lemma_named};
use crate::laws::hover_blocks::is_body_at;
use crate::laws::rename::holds;
use crate::order::text_sort;
use crate::schema::{BlockSchema, Json, ResourceSchema};
use crate::seqs::{
    filter_map, find_map, lemma_filter_map_contains, lemma_find_map_at, lemma_find_map_first,
    lemma_plus_contains,
};
use crate::text::{decimal, ends_with};
use vstd::prelude::*;

verus! {

// ---------------------------------------------------------------------
// Scaffolds of schemas

/// The attributes that a scaffold fills in are exactly the required ones.
pub proof fn scaffolds_have_the_required_attributes(block: BlockSchema, name: Seq<char>)
    ensures
        required_names(block).contains(name) <==> exists|i: int|
            0 <= i < block.attributes@.len() && (#[trigger] block.attributes@[i]).0@ == name
                && block.attributes@[i].1.required,
{
    let v = block.attributes@;
    let f = required_name();
    let s = filter_map(v, f);
    crate::order::text_sort_orders(s);
    s.to_multiset_ensures();
    text_sort(s).to_multiset_ensures();
    assert(text_sort(s).to_multiset().count(name) == s.to_multiset().count(name));
    lemma_filter_map_contains(v, f, name);
    if s.contains(name) {
        let i = choose|i: int| 0 <= i < v.len() && f(#[trigger] v[i]) == Some(name);
        assert(v[i].0@ == name && v[i].1.required);
    }
    if exists|i: int| 0 <= i < v.len() && (#[trigger] v[i]).0@ == name && v[i].1.required {
        let i = choose|i: int| 0 <= i < v.len() && (#[trigger] v[i]).0@ == name && v[i].1.required;
        assert(f(v[i]) == Some(name));
    }
}

/// A line assigns an attribute a tabstop in the brackets of its type: quotes for
/// strings, square ones for lists, sets and tuples, curly ones for maps and
/// objects.
pub open spec fn is_line(text: Seq<char>, name: Seq<char>, ty: Option<Json>, n: nat) -> bool {
    let tab = "${"@ + decimal(n) + "}"@;
    let value = match ty {
        Some(Json::Str(s)) => if s@ == "string"@ {
            "\""@ + tab + "\""@
        } else {
            tab
        },
        Some(Json::Array(v)) => if v@.len() > 0 && v@[0] is Str {
            let w = v@[0]->Str_0@;
            if w == "list"@ || w == "set"@ || w == "tuple"@ {
                "["@ + tab + "]"@
            } else if w == "map"@ || w == "object"@ {
                "{\n    "@ + tab + "\n  }"@
            } else {
                tab
            }
        } else {
            tab
        },
        _ => tab,
    };
    text == "  "@ + name + " = "@ + value + "\n"@
}

pub open spec fn has_line(text: Seq<char>, name: Seq<char>, ty: Option<Json>) -> bool {
    exists|line: Seq<char>, n: nat| #[trigger]
        is_line(line, name, ty, n) && holds(text, line)
}

proof fn lemma_line(block: BlockSchema, name: Seq<char>, i: int, n: nat)
    requires
        is_named(block.attributes@, name, i),
    ensures
        is_line(
            "  "@ + name + " = "@ + crate::completion_schema::placeholder(
                crate::completion_schema::named_kind(block, name),
                n,
            ) + "\n"@,
            name,
            block.attributes@[i].1.ty,
            n,
        ),
{
    lemma_named(block.attributes@, name, i);
    let ty = block.attributes@[i].1.ty;
    let tab = "${"@ + decimal(n) + "}"@;
    reveal_strlit("\"");
    reveal_strlit("\"${");
    reveal_strlit("}\"");
    reveal_strlit("${");
    reveal_strlit("}");
    reveal_strlit("[");
    reveal_strlit("]");
    reveal_strlit("[${");
    reveal_strlit("}]");
    reveal_strlit("{\n    ");
    reveal_strlit("\n  }");
    reveal_strlit("{\n    ${");
    reveal_strlit("}\n  }");
    assert("\"${"@ + decimal(n) + "}\""@ =~= "\""@ + tab + "\""@);
    assert("[${"@ + decimal(n) + "}]"@ =~= "["@ + tab + "]"@);
    assert("{\n    ${"@ + decimal(n) + "}\n  }"@ =~= "{\n    "@ + tab + "\n  }"@);
    reveal_strlit("list");
    reveal_strlit("set");
    reveal_strlit("tuple");
    reveal_strlit("map");
    reveal_strlit("object");
    assert("map"@[0] != "set"@[0]);
    assert("map"@.len() == 3 && "set"@.len() == 3 && "list"@.len() == 4 && "tuple"@.len() == 5
        && "object"@.len() == 6);
}

proof fn lemma_lines(block: BlockSchema, names: Seq<Seq<char>>, n: int, tab: nat, k: int, i: int)
    requires
        0 <= k < n <= names.len(),
        is_named(block.attributes@, names[k], i),
    ensures
        has_line(
            scaffold_lines(block, names, n, tab),
            names[k],
            block.attributes@[i].1.ty,
        ),
    decreases n,
{
    let all = scaffold_lines(block, names, n, tab);
    let before = scaffold_lines(block, names, n - 1, tab);
    let own = "  "@ + names[n - 1] + " = "@ + crate::completion_schema::placeholder(
        crate::completion_schema::named_kind(block, names[n - 1]),
        (tab + n - 1) as nat,
    ) + "\n"@;
    if k == n - 1 {
        lemma_line(block, names[k], i, (tab + n - 1) as nat);
        assert(all.subrange(before.len() as int, (before.len() + own.len()) as int) =~= own);
        assert(holds(all, own));
        assert(is_line(own, names[k], block.attributes@[i].1.ty, (tab + n - 1) as nat));
    } else {
        lemma_lines(block, names, n - 1, tab, k, i);
        let (line, m) = choose|line: Seq<char>, m: nat| #[trigger]
            is_line(line, names[k], block.attributes@[i].1.ty, m) && holds(before, line);
        lemma_holds_in(Seq::empty(), before, own, line);
        assert(all =~= Seq::<char>::empty() + before + own);
        assert(is_line(line, names[k], block.attributes@[i].1.ty, m) && holds(all, line));
    }
}

pub proof fn lemma_holds_in(a: Seq<char>, s: Seq<char>, b: Seq<char>, p: Seq<char>)
    requires
        holds(s, p),
    ensures
        holds(a + s + b, p),
{
    let j = choose|j: int|
        0 <= j && j + p.len() <= s.len() && #[trigger] s.subrange(j, j + p.len()) == p;
    let all = a + s + b;
    assert(all.subrange(a.len() + j, a.len() + j + p.len()) =~= s.subrange(j, j + p.len()));
}

/// The scaffold of a nested block and that of a type have a line for each
/// required attribute.
pub proof fn required_attributes_are_filled_in(
    name: Seq<char>,
    ty: Seq<char>,
    schema: ResourceSchema,
    i: int,
)
    requires
        0 <= i < schema.block.attributes@.len(),
        is_named(schema.block.attributes@, schema.block.attributes@[i].0@, i),
        schema.block.attributes@[i].1.required,
    ensures
        has_line(
            nested_scaffold(name, schema.block),
            schema.block.attributes@[i].0@,
            schema.block.attributes@[i].1.ty,
        ),
        begins(nested_scaffold(name, schema.block), name + " {\n"@),
        has_line(
            type_scaffold(ty, Some(schema)),
            schema.block.attributes@[i].0@,
            schema.block.attributes@[i].1.ty,
        ),
        begins(type_scaffold(ty, Some(schema)), ty + "\" \"${1:name}\" {\n"@),
{
    let b = schema.block;
    let a = b.attributes@[i].0@;
    let t = b.attributes@[i].1.ty;
    scaffolds_have_the_required_attributes(b, a);
    let names = required_names(b);
    let k = choose|k: int| 0 <= k < names.len() && names[k] == a;
    let n = names.len() as int;
    lemma_lines(b, names, n, 1, k, i);
    lemma_lines(b, names, n, 2, k, i);
    let one = scaffold_lines(b, names, n, 1);
    let two = scaffold_lines(b, names, n, 2);
    let (l1, m1) = choose|line: Seq<char>, m: nat| #[trigger]
        is_line(line, a, t, m) && holds(one, line);
    let (l2, m2) = choose|line: Seq<char>, m: nat| #[trigger]
        is_line(line, a, t, m) && holds(two, line);
    lemma_holds_in(name + " {\n"@, one, "}"@, l1);
    lemma_holds_in(ty + "\" \"${1:name}\" {\n"@, two, "}"@, l2);
    let x = nested_scaffold(name, b);
    let y = type_scaffold(ty, Some(schema));
    assert(is_line(l1, a, t, m1) && holds(x, l1));
    assert(is_line(l2, a, t, m2) && holds(y, l2));
    let hx = name + " {\n"@;
    let hy = ty + "\" \"${1:name}\" {\n"@;
    assert(x.subrange(0, hx.len() as int) =~= hx);
    assert(y.subrange(0, hy.len() as int) =~= hy);
}

// ---------------------------------------------------------------------
// Fields of objects

/// An attribute type is written as blocks where it is an object, or a set, list or
/// map of such.
pub proof fn collections_of_objects_are_objects(v: Seq<Json>, t: Json, w: Seq<char>)
    requires
        t matches Json::Array(a) && a@ == v,
        v.len() > 1,
        v[0] matches Json::Str(s) && s@ == w,
    ensures
        w == "object"@ ==> object_node(t) == Some(t),
        w == "set"@ || w == "list"@ || w == "map"@ ==> object_node(t) == object_node(v[1]),
        w == "tuple"@ ==> object_node(t) is None,
{
    reveal_strlit("object");
    reveal_strlit("set");
    reveal_strlit("list");
    reveal_strlit("map");
    reveal_strlit("tuple");
    assert("object"@.len() == 6 && "set"@.len() == 3 && "list"@.len() == 4 && "map"@.len() == 3
        && "tuple"@.len() == 5);
}

/// Exactly the fields that are not set are offered, each with its assignment; the
/// ones that the object must have are marked.
pub proof fn unset_fields_are_offered(node: Json, filter: FilterV, m: Seq<(String, Json)>, i: int)
    requires
        node matches Json::Array(v) && v@.len() > 1 && (v@[1] matches Json::Object(f) && f@ == m),
        0 <= i < m.len(),
    ensures
        !filter.attrs.contains(m[i].0@) ==> exists|x: ItemV| #[trigger]
            field_items(node, filter).contains(x) && x.label == m[i].0@ && x.insert_text == Some(
                m[i].0@ + " = "@,
            ) && x.detail == Some(
                if optional_fields(node).contains(m[i].0@) {
                    "attribute"@
                } else {
                    "attribute (required)"@
                },
            ),
        forall|x: ItemV| #[trigger]
            field_items(node, filter).contains(x) ==> !filter.attrs.contains(x.label),
        field_type(node, m[i].0@) == crate::schema::lookup(m, m[i].0@),
{
    let f = field_item(filter, optional_fields(node));
    let v = filter_map(m, f);
    if !filter.attrs.contains(m[i].0@) {
        let x = f(m[i])->0;
        lemma_filter_map_contains(m, f, x);
        assert(f(m[i]) == Some(x));
        lemma_sorted_contains(SortBy::SortText, v, x);
        assert(field_items(node, filter).contains(x));
    }
    assert forall|x: ItemV| #[trigger]
        field_items(node, filter).contains(x) implies !filter.attrs.contains(x.label) by {
        lemma_sorted_contains(SortBy::SortText, v, x);
        lemma_filter_map_contains(m, f, x);
        let k = choose|k: int| 0 <= k < m.len() && f(#[trigger] m[k]) == Some(x);
        assert(f(m[k]) is Some);
    }
}

// ---------------------------------------------------------------------
// Built-in blocks

/// The snippet of a built-in block has a line for each attribute that the block
/// must have, in quotes where its value is a string.
pub proof fn built_in_snippets_fill_in_what_is_required(b: BuiltinBlock, k: int)
    requires
        0 <= k < b.required_attrs@.len(),
    ensures
        begins(
            block_snippet(b),
            match b.label_placeholder {
                Some(p) => b.name@ + " \"${1:"@ + p@ + "}\" {"@,
                None => b.name@ + " {"@,
            },
        ),
        exists|n: nat| #[trigger] fills_in(block_snippet(b), b.required_attrs@[k], n),
        ends_with(block_snippet(b), "\n}"@),
{
    let v = b.required_attrs@;
    let n = v.len() as int;
    let tab = first_tab(b);
    let lines = required_values(v, n, tab);
    let text = block_snippet(b);
    let head = block_header(b);
    lemma_required(v, n, tab, k);
    let p = required_value(v[k], (tab + k) as nat);
    lemma_holds_in(head, lines, "\n}"@, p);
    assert(text == head + lines + "\n}"@);
    assert(text.subrange(0, head.len() as int) =~= head);
    lemma_ends(head + lines, "\n}"@);
    let m = (tab + k) as nat;
    assert(fills_in(text, v[k], m));
}

/// A line of the text assigns the attribute the tabstop.
pub open spec fn fills_in(text: Seq<char>, a: RequiredAttr, n: nat) -> bool {
    if a.quoted {
        holds(text, "\n  "@ + a.name@ + " = \"${"@ + decimal(n) + "}\""@)
    } else {
        holds(text, "\n  "@ + a.name@ + " = ${"@ + decimal(n) + "}"@)
    }
}

proof fn lemma_required(v: Seq<RequiredAttr>, n: int, tab: nat, k: int)
    requires
        0 <= k < n <= v.len(),
    ensures
        holds(required_values(v, n, tab), required_value(v[k], (tab + k) as nat)),
    decreases n,
{
    let before = required_values(v, n - 1, tab);
    let own = required_value(v[n - 1], (tab + n - 1) as nat);
    let all = required_values(v, n, tab);
    if k == n - 1 {
        assert(all.subrange(before.len() as int, (before.len() + own.len()) as int) =~= own);
    } else {
        lemma_required(v, n - 1, tab, k);
        lemma_holds_in(Seq::empty(), before, own, required_value(v[k], (tab + k) as nat));
        assert(all =~= Seq::<char>::empty() + before + own);
    }
}

/// The attributes of an entry of `required_providers` that it does not have are
/// offered with quotes.
pub proof fn entry_attributes_are_offered(lang: Language, filter: FilterV, i: int)
    requires
        0 <= i < lang.provider_entry@.len(),
    ensures
        !filter.attrs.contains(lang.provider_entry@[i].name@) ==> exists|x: ItemV| #[trigger]
            entry_attr_items(lang, filter).contains(x) && x.label == lang.provider_entry@[i].name@
                && x.insert_text == Some(lang.provider_entry@[i].name@ + " = \"${1}\""@),
        forall|x: ItemV| #[trigger]
            entry_attr_items(lang, filter).contains(x) ==> !filter.attrs.contains(x.label),
{
    let v = lang.provider_entry@;
    let f = entry_attr_item(filter);
    let s = filter_map(v, f);
    if !filter.attrs.contains(v[i].name@) {
        let x = f(v[i])->0;
        lemma_filter_map_contains(v, f, x);
        assert(f(v[i]) == Some(x));
        lemma_sorted_contains(SortBy::Label, s, x);
        assert(entry_attr_items(lang, filter).contains(x));
    }
    assert forall|x: ItemV| #[trigger]
        entry_attr_items(lang, filter).contains(x) implies !filter.attrs.contains(x.label) by {
        lemma_sorted_contains(SortBy::Label, s, x);
        lemma_filter_map_contains(v, f, x);
        let k = choose|k: int| 0 <= k < v.len() && f(#[trigger] v[k]) == Some(x);
        assert(f(v[k]) is Some);
    }
}

/// In a `dynamic` block `for_each`, `iterator`, `labels` and `content` are
/// offered, as far as they are not there.
pub proof fn dynamic_blocks_are_completed(lang: Language, filter: FilterV, label: Seq<char>)
    ensures
        has_label(dynamic_items(lang, filter), label) <==> {
            ||| (label == "for_each"@ || label == "iterator"@ || label == "labels"@)
                && !filter.attrs.contains(label)
            ||| label == "content"@ && !filter.blocks.contains(label)
        },
{
    let a = dynamic_attr(
        lang,
        filter,
        "for_each"@,
        "meta-argument — required"@,
        "for_each = ${1}"@,
    );
    let b = dynamic_attr(
        lang,
        filter,
        "iterator"@,
        "meta-argument — rename `each`"@,
        "iterator = \"${1}\""@,
    );
    let c = dynamic_attr(
        lang,
        filter,
        "labels"@,
        "meta-argument — labels list"@,
        "labels = [${1}]"@,
    );
    let d = content_block(lang, filter);
    let s = a + b + c + d;
    let v = dynamic_items(lang, filter);
    if has_label(v, label) {
        let i = choose|i: int| 0 <= i < v.len() && (#[trigger] v[i]).label == label;
        assert(v.contains(v[i]));
        lemma_sorted_contains(SortBy::Label, s, v[i]);
        lemma_plus_contains(a, b, v[i]);
        lemma_plus_contains(a + b, c, v[i]);
        lemma_plus_contains(a + b + c, d, v[i]);
    }
    if (label == "for_each"@ || label == "iterator"@ || label == "labels"@)
        && !filter.attrs.contains(label) || label == "content"@ && !filter.blocks.contains(label) {
        let x = if label == "for_each"@ && !filter.attrs.contains(label) {
            a[0]
        } else if label == "iterator"@ && !filter.attrs.contains(label) {
            b[0]
        } else if label == "labels"@ && !filter.attrs.contains(label) {
            c[0]
        } else {
            d[0]
        };
        lemma_plus_contains(a, b, x);
        lemma_plus_contains(a + b, c, x);
        lemma_plus_contains(a + b + c, d, x);
        lemma_sorted_contains(SortBy::Label, s, x);
        assert(s.contains(x));
        let i = choose|i: int| 0 <= i < v.len() && v[i] == x;
        assert(v[i].label == label);
    }
}

/// At the top level of a test file these blocks are offered, and what is inserted
/// starts with the block's name.
pub proof fn test_files_start_with_these_blocks(label: Seq<char>)
    ensures
        has_label(test_top_level(), label) <==> label == "run"@ || label == "variables"@ || label
            == "provider"@ || label == "mock_provider"@ || label == "override_resource"@ || label
            == "override_data"@ || label == "override_module"@ || label == "test"@,
{
    let v = test_top_level();
    assert(v[0].label == "run"@ && v[1].label == "variables"@ && v[2].label == "provider"@
        && v[3].label == "mock_provider"@ && v[4].label == "override_resource"@ && v[5].label
        == "override_data"@ && v[6].label == "override_module"@ && v[7].label == "test"@);
}

/// A block of a test file may hold what the language says of its path, where each
/// block of the path is one of the block before it.
pub proof fn test_blocks_follow_the_language(lang: Language, path: Seq<Seq<char>>, n: int, i: int)
    requires
        1 <= n <= path.len(),
        is_body_at(lang.tests@, path.take(n), i),
    ensures
        n == 1 ==> test_schema(lang, path, 1) == Some(lang.tests@[i].schema),
        n > 1 && (test_schema(lang, path, n - 1) matches Some(s) && exists|k: int|
            0 <= k < s.blocks@.len() && (#[trigger] s.blocks@[k]).name@ == path[n - 1])
            ==> test_schema(lang, path, n) == Some(lang.tests@[i].schema),
        n > 1 && (test_schema(lang, path, n - 1) matches Some(s) && forall|k: int|
            0 <= k < s.blocks@.len() ==> (#[trigger] s.blocks@[k]).name@ != path[n - 1])
            ==> test_schema(lang, path, n) is None,
{
    lemma_find_map_at(lang.tests@, entry_at(path.take(n)), i);
    if n > 1 {
        if let Some(s) = test_schema(lang, path, n - 1) {
            let f = block_entry(path[n - 1]);
            if exists|k: int| 0 <= k < s.blocks@.len() && (#[trigger] s.blocks@[k]).name@ == path[n
                - 1] {
                let k = choose|k: int|
                    0 <= k < s.blocks@.len() && (#[trigger] s.blocks@[k]).name@ == path[n - 1];
                crate::laws::snapshot::lemma_found(s.blocks@, f, k);
            }
            if find_map(s.blocks@, f) is Some {
                let k = lemma_find_map_first(s.blocks@, f);
                assert(s.blocks@[k].name@ == path[n - 1]);
            }
        }
    }
}

/// A meta-block is inserted under its own name; of them `provisioner` and
/// `dynamic` have a label.
pub proof fn meta_blocks_are_inserted_by_name(name: Seq<char>)
    ensures
        begins(crate::completion_body::meta_block_snippet(name), name + " "@),
        ends_with(crate::completion_body::meta_block_snippet(name), "\n}"@),
        begins(crate::completion_body::meta_block_snippet(name), name + " \"${1:"@) <==> name
            == "provisioner"@ || name == "dynamic"@,
{
    reveal_strlit(" ");
    reveal_strlit("\n}");
    reveal_strlit(" \"${1:");
    reveal_strlit(" {\n  $0\n}");
    reveal_strlit("provisioner");
    reveal_strlit("provisioner \"${1:local-exec}\" {\n  $0\n}");
    reveal_strlit("dynamic");
    reveal_strlit(
        "dynamic \"${1:block_name}\" {\n  for_each = ${2}\n\n  content {\n    $0\n  }\n}",
    );
    let s = crate::completion_body::meta_block_snippet(name);
    let a = name + " "@;
    let b = name + " \"${1:"@;
    assert(s.take(a.len() as int) =~= a);
    assert(s.subrange(s.len() - 2, s.len() as int) =~= "\n}"@);
    if name == "provisioner"@ || name == "dynamic"@ {
        assert(s.take(b.len() as int) =~= b);
    } else {
        assert(s[(name.len() + 1) as int] == '{');
        if begins(s, b) {
            assert(b[(name.len() + 1) as int] == '"');
            assert(s.take(b.len() as int)[(name.len() + 1) as int] == s[(name.len() + 1) as int]);
        }
    }
}

/// The variables and the outputs of the module under test are told apart by what
/// is said of them.
pub proof fn tested_symbols_are_told_apart(
    state: crate::state::StateStore,
    dir: Option<Seq<char>>,
    x: ItemV,
)
    ensures
        crate::completion_files::tested_items(
            state,
            dir,
            crate::completion_symbols::SymbolField::Variables,
        ).contains(x) ==> x.detail == Some("module variable"@),
        crate::completion_files::tested_items(
            state,
            dir,
            crate::completion_symbols::SymbolField::Outputs,
        ).contains(x) ==> x.detail == Some("module output"@),
{
}

} // verus!
