//! Completion from the tables of the language: built-in blocks, namespaces and
//! scaffolds.

use crate::builtin::{BuiltinAttr, BuiltinBlock, BuiltinSchema, Language, RequiredAttr};
use crate::completion_body::{attribute_kind, doc_of, documentation_of, no_items};
use crate::completion_cursor::{BodyFilter, FilterV};
use crate::completion_item::{
    insert_item, items_view, plain_item, push_item, sort_items, sorted_items, CompletionItem,
    InsertFormat, ItemKind, ItemV, SortBy,
};
use crate::schema::{find_entry, lookup};
use crate::seqs::{filter_map, lemma_filter_map_step, lemma_take_full};
use crate::text::{concat2, concat3, concat5, decimal, opt_view, u128_text};
use vstd::prelude::*;

verus! {

// ---------------------------------------------------------------------
// Snippets

pub open spec fn snippet_item(label: Seq<char>, text: Seq<char>, detail: Seq<char>) -> ItemV {
    insert_item(label, ItemKind::Snippet, detail, text, InsertFormat::Snippet)
}

fn push_snippet(out: &mut Vec<CompletionItem>, label: &str, text: &str, detail: &str)
    ensures
        items_view(final(out)@) == items_view(old(out)@).push(
            snippet_item(label@, text@, detail@),
        ),
{
    let item = CompletionItem::inserting(
        label,
        ItemKind::Snippet,
        detail.to_owned(),
        text.to_owned(),
        InsertFormat::Snippet,
    );
    push_item(out, item);
}

/// The blocks that can stand at the top level of a configuration. Those of
/// resources and data sources stop at the type, which is completed next.
pub open spec fn top_level() -> Seq<ItemV> {
    seq![
        snippet_item("resource"@, "resource \""@, "Resource block"@),
        snippet_item("data"@, "data \""@, "Data source block"@),
        snippet_item(
            "variable"@,
            "variable \"${1:name}\" {\n  default = ${2}\n  description = \"${3}\"\n  type = ${4:string}\n}"@,
            "Variable block"@,
        ),
        snippet_item(
            "output"@,
            "output \"${1:name}\" {\n  description = \"${2}\"\n  value = ${3}\n}"@,
            "Output block"@,
        ),
        snippet_item(
            "module"@,
            "module \"${1:name}\" {\n  source = \"${2:source}\"\n  $0\n}"@,
            "Module block"@,
        ),
        snippet_item("provider"@, "provider \"${1:name}\" {\n  $0\n}"@, "Provider block"@),
        snippet_item("terraform"@, "terraform {\n  $0\n}"@, "Terraform block"@),
        snippet_item("locals"@, "locals {\n  $0\n}"@, "Locals block"@),
        snippet_item(
            "import"@,
            "import {\n  to = ${1}\n  id = \"${2}\"\n}"@,
            "Import block (Terraform 1.5+)"@,
        ),
        snippet_item(
            "moved"@,
            "moved {\n  from = ${1}\n  to   = ${2}\n}"@,
            "Moved block (Terraform 1.1+)"@,
        ),
        snippet_item(
            "removed"@,
            "removed {\n  from = ${1}\n  lifecycle {\n    destroy = ${2:false}\n  }\n}"@,
            "Removed block (Terraform 1.7+)"@,
        ),
        snippet_item(
            "check"@,
            "check \"${1:name}\" {\n  assert {\n    condition     = ${2}\n    error_message = \"${3}\"\n  }\n}"@,
            "Check block (Terraform 1.5+)"@,
        ),
    ]
}

pub fn top_level_items() -> (r: Vec<CompletionItem>)
    ensures
        items_view(r@) == top_level(),
{
    let mut out = no_items();
    push_snippet(&mut out, "resource", "resource \"", "Resource block");
    push_snippet(&mut out, "data", "data \"", "Data source block");
    push_snippet(
        &mut out,
        "variable",
        "variable \"${1:name}\" {\n  default = ${2}\n  description = \"${3}\"\n  type = ${4:string}\n}",
        "Variable block",
    );
    push_snippet(
        &mut out,
        "output",
        "output \"${1:name}\" {\n  description = \"${2}\"\n  value = ${3}\n}",
        "Output block",
    );
    push_snippet(
        &mut out,
        "module",
        "module \"${1:name}\" {\n  source = \"${2:source}\"\n  $0\n}",
        "Module block",
    );
    push_snippet(&mut out, "provider", "provider \"${1:name}\" {\n  $0\n}", "Provider block");
    push_snippet(&mut out, "terraform", "terraform {\n  $0\n}", "Terraform block");
    push_snippet(&mut out, "locals", "locals {\n  $0\n}", "Locals block");
    push_snippet(
        &mut out,
        "import",
        "import {\n  to = ${1}\n  id = \"${2}\"\n}",
        "Import block (Terraform 1.5+)",
    );
    push_snippet(
        &mut out,
        "moved",
        "moved {\n  from = ${1}\n  to   = ${2}\n}",
        "Moved block (Terraform 1.1+)",
    );
    push_snippet(
        &mut out,
        "removed",
        "removed {\n  from = ${1}\n  lifecycle {\n    destroy = ${2:false}\n  }\n}",
        "Removed block (Terraform 1.7+)",
    );
    push_snippet(
        &mut out,
        "check",
        "check \"${1:name}\" {\n  assert {\n    condition     = ${2}\n    error_message = \"${3}\"\n  }\n}",
        "Check block (Terraform 1.5+)",
    );
    assert(items_view(out@) =~= top_level());
    out
}

/// The blocks that can stand at the top level of a test file.
pub open spec fn test_top_level() -> Seq<ItemV> {
    seq![
        snippet_item(
            "run"@,
            "run \"${1:name}\" {\n  command = ${2:plan}\n  $0\n}"@,
            "Test run (a plan or apply step)"@,
        ),
        snippet_item(
            "variables"@,
            "variables {\n  $0\n}"@,
            "Input-variable values shared across runs"@,
        ),
        snippet_item(
            "provider"@,
            "provider \"${1:name}\" {\n  $0\n}"@,
            "Provider configuration for the test"@,
        ),
        snippet_item(
            "mock_provider"@,
            "mock_provider \"${1:name}\" {\n  $0\n}"@,
            "Replace a provider with mock data"@,
        ),
        snippet_item(
            "override_resource"@,
            "override_resource {\n  target = ${1}\n  values = {\n    $0\n  }\n}"@,
            "Override a resource's computed values"@,
        ),
        snippet_item(
            "override_data"@,
            "override_data {\n  target = ${1}\n  values = {\n    $0\n  }\n}"@,
            "Override a data source's result"@,
        ),
        snippet_item(
            "override_module"@,
            "override_module {\n  target  = ${1}\n  outputs = {\n    $0\n  }\n}"@,
            "Override a child module's outputs"@,
        ),
        snippet_item("test"@, "test {\n  parallel = ${1:true}\n}"@, "Per-file test options"@),
    ]
}

pub fn tftest_top_level_items() -> (r: Vec<CompletionItem>)
    ensures
        items_view(r@) == test_top_level(),
{
    let mut out = no_items();
    push_snippet(
        &mut out,
        "run",
        "run \"${1:name}\" {\n  command = ${2:plan}\n  $0\n}",
        "Test run (a plan or apply step)",
    );
    push_snippet(
        &mut out,
        "variables",
        "variables {\n  $0\n}",
        "Input-variable values shared across runs",
    );
    push_snippet(
        &mut out,
        "provider",
        "provider \"${1:name}\" {\n  $0\n}",
        "Provider configuration for the test",
    );
    push_snippet(
        &mut out,
        "mock_provider",
        "mock_provider \"${1:name}\" {\n  $0\n}",
        "Replace a provider with mock data",
    );
    push_snippet(
        &mut out,
        "override_resource",
        "override_resource {\n  target = ${1}\n  values = {\n    $0\n  }\n}",
        "Override a resource's computed values",
    );
    push_snippet(
        &mut out,
        "override_data",
        "override_data {\n  target = ${1}\n  values = {\n    $0\n  }\n}",
        "Override a data source's result",
    );
    push_snippet(
        &mut out,
        "override_module",
        "override_module {\n  target  = ${1}\n  outputs = {\n    $0\n  }\n}",
        "Override a child module's outputs",
    );
    push_snippet(&mut out, "test", "test {\n  parallel = ${1:true}\n}", "Per-file test options");
    assert(items_view(out@) =~= test_top_level());
    out
}

pub open spec fn scaffold_item(
    label: Seq<char>,
    text: Seq<char>,
    detail: Seq<char>,
    place: Seq<char>,
) -> ItemV {
    ItemV { sort_text: Some(place), ..snippet_item(label, text, detail) }
}

/// The forms that an expression can start with.
pub open spec fn expression_scaffolds() -> Seq<ItemV> {
    seq![
        scaffold_item(
            "for (list comprehension)"@,
            "[for ${1:item} in ${2:list} : ${3:item}]"@,
            "list comprehension"@,
            "00_0"@,
        ),
        scaffold_item(
            "for (map comprehension)"@,
            "{ for ${1:k}, ${2:v} in ${3:map} : ${1:k} => ${2:v} }"@,
            "map comprehension"@,
            "00_1"@,
        ),
        scaffold_item(
            "ternary (conditional)"@,
            "${1:condition} ? ${2:true_val} : ${3:false_val}"@,
            "conditional expression"@,
            "00_2"@,
        ),
    ]
}

fn push_scaffold(out: &mut Vec<CompletionItem>, label: &str, text: &str, detail: &str, place: &str)
    ensures
        items_view(final(out)@) == items_view(old(out)@).push(
            scaffold_item(label@, text@, detail@, place@),
        ),
{
    let item = CompletionItem::inserting(
        label,
        ItemKind::Snippet,
        detail.to_owned(),
        text.to_owned(),
        InsertFormat::Snippet,
    ).with_sort(place.to_owned());
    push_item(out, item);
}

pub fn expression_scaffold_items() -> (r: Vec<CompletionItem>)
    ensures
        items_view(r@) == expression_scaffolds(),
{
    let mut out = no_items();
    push_scaffold(
        &mut out,
        "for (list comprehension)",
        "[for ${1:item} in ${2:list} : ${3:item}]",
        "list comprehension",
        "00_0",
    );
    push_scaffold(
        &mut out,
        "for (map comprehension)",
        "{ for ${1:k}, ${2:v} in ${3:map} : ${1:k} => ${2:v} }",
        "map comprehension",
        "00_1",
    );
    push_scaffold(
        &mut out,
        "ternary (conditional)",
        "${1:condition} ? ${2:true_val} : ${3:false_val}",
        "conditional expression",
        "00_2",
    );
    assert(items_view(out@) =~= expression_scaffolds());
    out
}

// ---------------------------------------------------------------------
// Types of variables

pub open spec fn primitive_item(name: Seq<char>, detail: Seq<char>) -> ItemV {
    ItemV {
        sort_text: Some("00_"@ + name),
        ..insert_item(name, ItemKind::TypeParameter, detail, name, InsertFormat::PlainText)
    }
}

pub open spec fn constructor_item(name: Seq<char>, text: Seq<char>, detail: Seq<char>) -> ItemV {
    ItemV {
        sort_text: Some("01_"@ + name),
        ..insert_item(name, ItemKind::Constructor, detail, text, InsertFormat::Snippet)
    }
}

/// What a type expression can be: the primitives, the constructors, and
/// `optional`, which has a meaning in objects only.
pub open spec fn type_values(optional_doc: Seq<char>) -> Seq<ItemV> {
    seq![
        primitive_item("string"@, "A Unicode string value"@),
        primitive_item("number"@, "A numeric value (integer or float)"@),
        primitive_item("bool"@, "A boolean: `true` or `false`"@),
        primitive_item("any"@, "Accept any type. Typically used for pass-through variables"@),
        primitive_item("null"@, "The null value"@),
        constructor_item(
            "list"@,
            "list(${1:string})"@,
            "Ordered sequence of values of the same type"@,
        ),
        constructor_item("set"@, "set(${1:string})"@, "Unordered collection of unique values"@),
        constructor_item(
            "map"@,
            "map(${1:string})"@,
            "Key-value mapping. Keys are strings, values share the given type"@,
        ),
        constructor_item(
            "tuple"@,
            "tuple([${1:string}])"@,
            "Ordered sequence where each position has its own type"@,
        ),
        constructor_item(
            "object"@,
            "object({\n  ${1:name} = ${2:string}\n})"@,
            "Record where each named attribute has its own type"@,
        ),
        ItemV {
            documentation: Some(optional_doc),
            sort_text: Some("02_optional"@),
            ..insert_item(
                "optional"@,
                ItemKind::Constructor,
                "Optional object attribute — omitted ⇒ null unless a default is given"@,
                "optional(${1:string})"@,
                InsertFormat::Snippet,
            )
        },
    ]
}

fn push_primitive(out: &mut Vec<CompletionItem>, name: &str, detail: &str)
    ensures
        items_view(final(out)@) == items_view(old(out)@).push(primitive_item(name@, detail@)),
{
    let item = CompletionItem::inserting(
        name,
        ItemKind::TypeParameter,
        detail.to_owned(),
        name.to_owned(),
        InsertFormat::PlainText,
    ).with_sort(concat2("00_", name));
    push_item(out, item);
}

fn push_constructor(out: &mut Vec<CompletionItem>, name: &str, text: &str, detail: &str)
    ensures
        items_view(final(out)@) == items_view(old(out)@).push(
            constructor_item(name@, text@, detail@),
        ),
{
    let item = CompletionItem::inserting(
        name,
        ItemKind::Constructor,
        detail.to_owned(),
        text.to_owned(),
        InsertFormat::Snippet,
    ).with_sort(concat2("01_", name));
    push_item(out, item);
}

pub fn variable_type_value_items(lang: &Language) -> (r: Vec<CompletionItem>)
    ensures
        items_view(r@) == type_values(lang.optional_doc@),
{
    let mut out = no_items();
    push_primitive(&mut out, "string", "A Unicode string value");
    push_primitive(&mut out, "number", "A numeric value (integer or float)");
    push_primitive(&mut out, "bool", "A boolean: `true` or `false`");
    push_primitive(
        &mut out,
        "any",
        "Accept any type. Typically used for pass-through variables",
    );
    push_primitive(&mut out, "null", "The null value");
    push_constructor(
        &mut out,
        "list",
        "list(${1:string})",
        "Ordered sequence of values of the same type",
    );
    push_constructor(
        &mut out,
        "set",
        "set(${1:string})",
        "Unordered collection of unique values",
    );
    push_constructor(
        &mut out,
        "map",
        "map(${1:string})",
        "Key-value mapping. Keys are strings, values share the given type",
    );
    push_constructor(
        &mut out,
        "tuple",
        "tuple([${1:string}])",
        "Ordered sequence where each position has its own type",
    );
    push_constructor(
        &mut out,
        "object",
        "object({\n  ${1:name} = ${2:string}\n})",
        "Record where each named attribute has its own type",
    );
    let item = CompletionItem::inserting(
        "optional",
        ItemKind::Constructor,
        "Optional object attribute — omitted ⇒ null unless a default is given".to_owned(),
        "optional(${1:string})".to_owned(),
        InsertFormat::Snippet,
    ).with_documentation(Some(lang.optional_doc.clone())).with_sort("02_optional".to_owned());
    push_item(&mut out, item);
    assert(items_view(out@) =~= type_values(lang.optional_doc@));
    out
}

// ---------------------------------------------------------------------
// Namespaces

pub open spec fn namespace_item(label: Seq<char>, doc: Seq<char>) -> ItemV {
    ItemV { documentation: Some(doc), ..plain_item(label, ItemKind::Property) }
}

pub fn builtin_namespace_item(label: &str, doc: &str) -> (r: CompletionItem)
    ensures
        r@ == namespace_item(label@, doc@),
{
    CompletionItem::new(label, ItemKind::Property).with_documentation(Some(doc.to_owned()))
}

pub open spec fn each_items() -> Seq<ItemV> {
    seq![
        namespace_item(
            "key"@,
            "The map key (or set member) of the current `for_each` iteration. Always a string."@,
        ),
        namespace_item(
            "value"@,
            "The value associated with the current `for_each` iteration's key. Type depends on the `for_each` collection."@,
        ),
    ]
}

pub fn each_namespace_items() -> (r: Vec<CompletionItem>)
    ensures
        items_view(r@) == each_items(),
{
    let mut out = no_items();
    push_item(
        &mut out,
        builtin_namespace_item(
            "key",
            "The map key (or set member) of the current `for_each` iteration. Always a string.",
        ),
    );
    push_item(
        &mut out,
        builtin_namespace_item(
            "value",
            "The value associated with the current `for_each` iteration's key. Type depends on the `for_each` collection.",
        ),
    );
    assert(items_view(out@) =~= each_items());
    out
}

pub open spec fn count_items() -> Seq<ItemV> {
    seq![
        namespace_item(
            "index"@,
            "The 0-based index of the current `count`-iterated instance."@,
        ),
    ]
}

pub fn count_namespace_items() -> (r: Vec<CompletionItem>)
    ensures
        items_view(r@) == count_items(),
{
    let mut out = no_items();
    push_item(
        &mut out,
        builtin_namespace_item(
            "index",
            "The 0-based index of the current `count`-iterated instance.",
        ),
    );
    assert(items_view(out@) =~= count_items());
    out
}

pub open spec fn path_items() -> Seq<ItemV> {
    seq![
        namespace_item(
            "module"@,
            "Filesystem path of the module where the expression is placed."@,
        ),
        namespace_item("root"@, "Filesystem path of the root module of the configuration."@),
        namespace_item(
            "cwd"@,
            "Filesystem path of the directory where Terraform was invoked."@,
        ),
    ]
}

pub fn path_namespace_items() -> (r: Vec<CompletionItem>)
    ensures
        items_view(r@) == path_items(),
{
    let mut out = no_items();
    push_item(
        &mut out,
        builtin_namespace_item(
            "module",
            "Filesystem path of the module where the expression is placed.",
        ),
    );
    push_item(
        &mut out,
        builtin_namespace_item(
            "root",
            "Filesystem path of the root module of the configuration.",
        ),
    );
    push_item(
        &mut out,
        builtin_namespace_item(
            "cwd",
            "Filesystem path of the directory where Terraform was invoked.",
        ),
    );
    assert(items_view(out@) =~= path_items());
    out
}

pub open spec fn terraform_items() -> Seq<ItemV> {
    seq![namespace_item("workspace"@, "Name of the currently active Terraform workspace."@)]
}

pub fn terraform_namespace_items() -> (r: Vec<CompletionItem>)
    ensures
        items_view(r@) == terraform_items(),
{
    let mut out = no_items();
    push_item(
        &mut out,
        builtin_namespace_item("workspace", "Name of the currently active Terraform workspace."),
    );
    assert(items_view(out@) =~= terraform_items());
    out
}

// ---------------------------------------------------------------------
// Built-in blocks

pub open spec fn required_value(a: RequiredAttr, n: nat) -> Seq<char> {
    if a.quoted {
        "\n  "@ + a.name@ + " = \"${"@ + decimal(n) + "}\""@
    } else {
        "\n  "@ + a.name@ + " = ${"@ + decimal(n) + "}"@
    }
}

/// The first `n` attributes that a block must have, with tabstops counted up
/// from `tab`.
pub open spec fn required_values(attrs: Seq<RequiredAttr>, n: int, tab: nat) -> Seq<char>
    decreases n,
{
    if n <= 0 {
        Seq::empty()
    } else {
        required_values(attrs, n - 1, tab) + required_value(attrs[n - 1], (tab + n - 1) as nat)
    }
}

pub open spec fn block_header(b: BuiltinBlock) -> Seq<char> {
    match opt_view(b.label_placeholder) {
        Some(p) => b.name@ + " \"${1:"@ + p + "}\" {"@,
        None => b.name@ + " {"@,
    }
}

pub open spec fn first_tab(b: BuiltinBlock) -> nat {
    if b.label_placeholder is Some {
        2
    } else {
        1
    }
}

/// A built-in block with its label and its required attributes to fill in.
pub open spec fn block_snippet(b: BuiltinBlock) -> Seq<char> {
    block_header(b) + required_values(
        b.required_attrs@,
        b.required_attrs@.len() as int,
        first_tab(b),
    ) + if b.required_attrs@.len() == 0 {
        "\n  $0\n}"@
    } else {
        "\n}"@
    }
}

fn render_required(attrs: &Vec<RequiredAttr>, tab: u64) -> (r: String)
    ensures
        r@ == required_values(attrs@, attrs@.len() as int, tab as nat),
{
    let mut out = String::new();
    assert(out@ =~= required_values(attrs@, 0, tab as nat));
    for i in 0..attrs.len()
        invariant
            out@ == required_values(attrs@, i as int, tab as nat),
    {
        let n: u128 = tab as u128 + i as u128;
        let d = u128_text(n);
        let name = attrs[i].name.as_str();
        let line = if attrs[i].quoted {
            concat5("\n  ", name, " = \"${", d.as_str(), "}\"")
        } else {
            concat5("\n  ", name, " = ${", d.as_str(), "}")
        };
        out.append(line.as_str());
    }
    out
}

pub fn render_block_snippet(b: &BuiltinBlock) -> (r: String)
    ensures
        r@ == block_snippet(*b),
{
    let header = match &b.label_placeholder {
        Some(p) => {
            let start = concat2(b.name.as_str(), " \"${1:");
            concat3(start.as_str(), p.as_str(), "}\" {")
        },
        None => concat2(b.name.as_str(), " {"),
    };
    let tab: u64 = if b.label_placeholder.is_some() {
        2
    } else {
        1
    };
    let body = render_required(&b.required_attrs, tab);
    let end = if b.required_attrs.len() == 0 {
        "\n  $0\n}"
    } else {
        "\n}"
    };
    concat3(header.as_str(), body.as_str(), end)
}

/// The offer of an attribute of a built-in block: required ones first.
pub open spec fn builtin_attr_item(filter: FilterV) -> spec_fn(BuiltinAttr) -> Option<ItemV> {
    |a: BuiltinAttr|
        if filter.attrs.contains(a.name@) {
            None
        } else {
            Some(
                ItemV {
                    sort_text: Some(
                        if a.required {
                            "0_"@ + a.name@
                        } else {
                            "1_"@ + a.name@
                        },
                    ),
                    ..insert_item(
                        a.name@,
                        attribute_kind(a.required),
                        a.detail@,
                        a.name@ + " = ${1}"@,
                        InsertFormat::Snippet,
                    )
                },
            )
        }
}

/// The offer of a block in a built-in block, behind the attributes.
pub open spec fn builtin_block_item(filter: FilterV) -> spec_fn(BuiltinBlock) -> Option<ItemV> {
    |b: BuiltinBlock|
        if filter.blocks.contains(b.name@) {
            None
        } else {
            Some(
                ItemV {
                    sort_text: Some("2_"@ + b.name@),
                    ..insert_item(
                        b.name@,
                        ItemKind::Struct,
                        b.detail@,
                        block_snippet(b),
                        InsertFormat::Snippet,
                    )
                },
            )
        }
}

/// What is offered in a built-in block: what does not stand there yet.
pub open spec fn builtin_items(schema: BuiltinSchema, filter: FilterV) -> Seq<ItemV> {
    sorted_items(
        SortBy::SortText,
        filter_map(schema.attrs@, builtin_attr_item(filter)) + filter_map(
            schema.blocks@,
            builtin_block_item(filter),
        ),
    )
}

fn attr_kind(required: bool) -> (r: ItemKind)
    ensures
        r == attribute_kind(required),
{
    if required {
        ItemKind::Field
    } else {
        ItemKind::Property
    }
}

fn list_builtin_attrs(attrs: &Vec<BuiltinAttr>, filter: &BodyFilter) -> (r: Vec<CompletionItem>)
    ensures
        items_view(r@) == filter_map(attrs@, builtin_attr_item(filter@)),
{
    let ghost f = builtin_attr_item(filter@);
    let mut out = no_items();
    proof {
        lemma_take_full(attrs@);
    }
    for i in 0..attrs.len()
        invariant
            f == builtin_attr_item(filter@),
            items_view(out@) == filter_map(attrs@.take(i as int), f),
    {
        proof {
            lemma_filter_map_step(attrs@, f, i as int);
        }
        let name = attrs[i].name.as_str();
        if !filter.has_attr(name) {
            let bucket = if attrs[i].required {
                "0_"
            } else {
                "1_"
            };
            let item = CompletionItem::inserting(
                name,
                attr_kind(attrs[i].required),
                attrs[i].detail.clone(),
                concat2(name, " = ${1}"),
                InsertFormat::Snippet,
            ).with_sort(concat2(bucket, name));
            push_item(&mut out, item);
        }
    }
    out
}

pub fn builtin_body_items(schema: &BuiltinSchema, filter: &BodyFilter) -> (r: Vec<CompletionItem>)
    ensures
        items_view(r@) == builtin_items(*schema, filter@),
{
    let mut out = list_builtin_attrs(&schema.attrs, filter);
    let ghost start = items_view(out@);
    let ghost t = schema.blocks@;
    let ghost g = builtin_block_item(filter@);
    proof {
        lemma_take_full(t);
    }
    assert(items_view(out@) =~= start + filter_map(t.take(0), g));
    for i in 0..schema.blocks.len()
        invariant
            t == schema.blocks@,
            g == builtin_block_item(filter@),
            items_view(out@) == start + filter_map(t.take(i as int), g),
    {
        proof {
            lemma_filter_map_step(t, g, i as int);
        }
        let b = &schema.blocks[i];
        if !filter.block_present(b.name.as_str()) {
            let item = CompletionItem::inserting(
                b.name.as_str(),
                ItemKind::Struct,
                b.detail.clone(),
                render_block_snippet(b),
                InsertFormat::Snippet,
            ).with_sort(concat2("2_", b.name.as_str()));
            push_item(&mut out, item);
        }
        assert(items_view(out@) =~= start + filter_map(t.take(i + 1), g));
    }
    sort_items(&out, SortBy::SortText)
}

/// The offer of an attribute of an entry of `required_providers`.
pub open spec fn entry_attr_item(filter: FilterV) -> spec_fn(BuiltinAttr) -> Option<ItemV> {
    |a: BuiltinAttr|
        if filter.attrs.contains(a.name@) {
            None
        } else {
            Some(
                insert_item(
                    a.name@,
                    attribute_kind(a.required),
                    a.detail@,
                    a.name@ + " = \"${1}\""@,
                    InsertFormat::Snippet,
                ),
            )
        }
}

pub open spec fn entry_attr_items(lang: Language, filter: FilterV) -> Seq<ItemV> {
    sorted_items(SortBy::Label, filter_map(lang.provider_entry@, entry_attr_item(filter)))
}

pub fn required_provider_entry_attr_items(lang: &Language, filter: &BodyFilter) -> (r: Vec<
    CompletionItem,
>)
    ensures
        items_view(r@) == entry_attr_items(*lang, filter@),
{
    let ghost s = lang.provider_entry@;
    let ghost f = entry_attr_item(filter@);
    let mut out = no_items();
    proof {
        lemma_take_full(s);
    }
    for i in 0..lang.provider_entry.len()
        invariant
            s == lang.provider_entry@,
            f == entry_attr_item(filter@),
            items_view(out@) == filter_map(s.take(i as int), f),
    {
        proof {
            lemma_filter_map_step(s, f, i as int);
        }
        let a = &lang.provider_entry[i];
        if !filter.has_attr(a.name.as_str()) {
            let item = CompletionItem::inserting(
                a.name.as_str(),
                attr_kind(a.required),
                a.detail.clone(),
                concat2(a.name.as_str(), " = \"${1}\""),
                InsertFormat::Snippet,
            );
            push_item(&mut out, item);
        }
    }
    sort_items(&out, SortBy::Label)
}

// ---------------------------------------------------------------------
// Dynamic blocks

pub open spec fn dynamic_doc(lang: Language, name: Seq<char>) -> Option<Seq<char>> {
    match lookup(lang.dynamic_docs@, name) {
        Some(d) => doc_of(d@),
        None => None,
    }
}

pub open spec fn dynamic_attr(
    lang: Language,
    filter: FilterV,
    name: Seq<char>,
    detail: Seq<char>,
    text: Seq<char>,
) -> Seq<ItemV> {
    if filter.attrs.contains(name) {
        Seq::empty()
    } else {
        seq![
            ItemV {
                documentation: dynamic_doc(lang, name),
                ..insert_item(name, ItemKind::Property, detail, text, InsertFormat::Snippet)
            },
        ]
    }
}

pub open spec fn content_block(lang: Language, filter: FilterV) -> Seq<ItemV> {
    if filter.blocks.contains("content"@) {
        Seq::empty()
    } else {
        seq![
            ItemV {
                documentation: Some(lang.content_doc@),
                ..insert_item(
                    "content"@,
                    ItemKind::Struct,
                    "meta-block — body template"@,
                    "content {\n  $0\n}"@,
                    InsertFormat::Snippet,
                )
            },
        ]
    }
}

/// What is offered in the body of a `dynamic` block: its meta-arguments and
/// `content`, as far as they do not stand there yet.
pub open spec fn dynamic_items(lang: Language, filter: FilterV) -> Seq<ItemV> {
    sorted_items(
        SortBy::Label,
        dynamic_attr(
            lang,
            filter,
            "for_each"@,
            "meta-argument — required"@,
            "for_each = ${1}"@,
        ) + dynamic_attr(
            lang,
            filter,
            "iterator"@,
            "meta-argument — rename `each`"@,
            "iterator = \"${1}\""@,
        ) + dynamic_attr(
            lang,
            filter,
            "labels"@,
            "meta-argument — labels list"@,
            "labels = [${1}]"@,
        ) + content_block(lang, filter),
    )
}

fn push_dynamic_attr(
    out: &mut Vec<CompletionItem>,
    lang: &Language,
    filter: &BodyFilter,
    name: &str,
    detail: &str,
    text: &str,
)
    ensures
        items_view(final(out)@) == items_view(old(out)@) + dynamic_attr(
            *lang,
            filter@,
            name@,
            detail@,
            text@,
        ),
{
    if !filter.has_attr(name) {
        let doc = match find_entry(&lang.dynamic_docs, name) {
            Some(d) => documentation_of(d.as_str()),
            None => None,
        };
        let item = CompletionItem::inserting(
            name,
            ItemKind::Property,
            detail.to_owned(),
            text.to_owned(),
            InsertFormat::Snippet,
        ).with_documentation(doc);
        push_item(out, item);
    }
    assert(items_view(out@) =~= items_view(old(out)@) + dynamic_attr(
        *lang,
        filter@,
        name@,
        detail@,
        text@,
    ));
}

pub fn dynamic_body_items(lang: &Language, filter: &BodyFilter) -> (r: Vec<CompletionItem>)
    ensures
        items_view(r@) == dynamic_items(*lang, filter@),
{
    let mut out = no_items();
    push_dynamic_attr(
        &mut out,
        lang,
        filter,
        "for_each",
        "meta-argument — required",
        "for_each = ${1}",
    );
    assert(items_view(out@) =~= dynamic_attr(
        *lang,
        filter@,
        "for_each"@,
        "meta-argument — required"@,
        "for_each = ${1}"@,
    ));
    push_dynamic_attr(
        &mut out,
        lang,
        filter,
        "iterator",
        "meta-argument — rename `each`",
        "iterator = \"${1}\"",
    );
    push_dynamic_attr(
        &mut out,
        lang,
        filter,
        "labels",
        "meta-argument — labels list",
        "labels = [${1}]",
    );
    let ghost before = items_view(out@);
    if !filter.block_present("content") {
        let item = CompletionItem::inserting(
            "content",
            ItemKind::Struct,
            "meta-block — body template".to_owned(),
            "content {\n  $0\n}".to_owned(),
            InsertFormat::Snippet,
        ).with_documentation(Some(lang.content_doc.clone()));
        push_item(&mut out, item);
    }
    assert(items_view(out@) =~= before + content_block(*lang, filter@));
    sort_items(&out, SortBy::Label)
}

} // verus!
