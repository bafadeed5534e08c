//! What completion offers as values, functions and namespaces.

use crate::builtin::Language;
use crate::completion::{completion_answer, CompletionContext, CompletionParams};
use crate::completion_builtin::{
    count_items, each_items, expression_scaffolds, path_items, terraform_items, top_level,
    type_values,
};
use crate::completion_files::{
    assigned_keys, reference_prefix, run_items, run_label, test_items, tested_items, tfvar_item,
    tfvars_items,
};
use crate::completion_item::{InsertFormat, ItemKind, ItemV, SortBy};
use crate::completion_symbols::{declared_names, resource_names, SymbolField};
use crate::completion_values::{
    allowed_values, attribute_values, builtin_call, cut, expression_roots, function_items,
    namespace_roots, numbered, provider_call, provider_for, provider_functions, qualified_parts,
    ref_item, root_refs, target_refs, value_item, value_offers, value_refs, written_value,
};
use crate::hcl::{attributes, blocks_named, Attribute, Block, Body};
use crate::laws::common::lemma_doc;
use crate::laws::completion::{
    declared, declared_resource, is_request, lemma_declared, lemma_declared_resource, offers,
    offers_label,
};
use crate::laws::completion_bodies::{
    has_item, is_item, lemma_filtered_item, lemma_plus_item, lemma_sorted_items,
};
use crate::laws::completion_names::has_label;
use crate::laws::hover::{is_named, lemma_named, lemma_resource_schema, resource_schema_at};
use crate::laws::modules::{has_attribute, has_block, lemma_attributes, lemma_blocks_named};
use crate::order::{name_set, name_set_contains};
use crate::seqs::{each, filter_map, lemma_each_contains, lemma_filter_map_contains};
use crate::state::{DocUri, FunctionEntry, StateStore, SymbolTable};
use crate::text::{ends_with, find_char, opt_view, texts};
use vstd::prelude::*;

verus! {

/// A built-in function of the name is known: one whose name does not start with
/// `provider::`.
pub open spec fn known_function(functions: Seq<FunctionEntry>, name: Seq<char>) -> bool {
    exists|i: int|
        0 <= i < functions.len() && (#[trigger] functions[i]).name@ == name
            && !crate::text::starts_with(name, "provider::"@)
}

/// An offer of a function calls it, with the cursor between the parentheses,
/// and shows the signature and the description that are known of it.
pub open spec fn is_call(x: ItemV, name: Seq<char>, f: FunctionEntry) -> bool {
    &&& x.label == name
    &&& x.kind == Some(ItemKind::Function)
    &&& x.detail == Some(f.label@)
    &&& x.documentation == opt_view(f.description)
    &&& x.insert_text == Some(name + "(${1})$0"@)
    &&& x.insert_text_format == Some(InsertFormat::Snippet)
}

/// Exactly the functions are offered that are known and not of a provider, each
/// as a call.
pub proof fn functions_are_offered(functions: Seq<FunctionEntry>, label: Seq<char>)
    ensures
        has_item(function_items(functions), label, ItemKind::Function) <==> known_function(
            functions,
            label,
        ),
        forall|k: int|
            0 <= k < function_items(functions).len() ==> exists|i: int|
                0 <= i < functions.len() && is_call(
                    #[trigger] function_items(functions)[k],
                    functions[i].name@,
                    #[trigger] functions[i],
                ),
{
    let f = builtin_call();
    let u = filter_map(functions, f);
    lemma_sorted_items(SortBy::Label, u, label, ItemKind::Function);
    lemma_filtered_item(functions, f, label, ItemKind::Function);
    if known_function(functions, label) {
        let i = choose|i: int|
            0 <= i < functions.len() && (#[trigger] functions[i]).name@ == label
                && !crate::text::starts_with(label, "provider::"@);
        assert(f(functions[i]) is Some);
    }
    if exists|i: int|
        0 <= i < functions.len() && f(#[trigger] functions[i]) is Some && is_item(
            f(functions[i])->0,
            label,
            ItemKind::Function,
        ) {
        let i = choose|i: int|
            0 <= i < functions.len() && f(#[trigger] functions[i]) is Some && is_item(
                f(functions[i])->0,
                label,
                ItemKind::Function,
            );
        assert(functions[i].name@ == label);
    }
    let v = function_items(functions);
    assert forall|k: int| 0 <= k < v.len() implies exists|i: int|
        0 <= i < functions.len() && is_call(
            #[trigger] v[k],
            functions[i].name@,
            #[trigger] functions[i],
        ) by {
        let x = v[k];
        assert(v.contains(x));
        crate::completion_item::lemma_sorted_contains(SortBy::Label, u, x);
        lemma_filter_map_contains(functions, f, x);
        let i = choose|i: int| 0 <= i < functions.len() && f(#[trigger] functions[i]) == Some(x);
        assert(is_call(x, functions[i].name@, functions[i]));
    }
}

/// Where a call can be written, the known functions are offered.
pub proof fn functions_are_offered_in_calls(
    state: StateStore,
    lang: Language,
    params: CompletionParams,
    k: int,
    label: Seq<char>,
)
    requires
        is_request(state, params, k),
        params.context is FunctionCall,
    ensures
        offers(completion_answer(state, lang, params), label, ItemKind::Function)
            <==> known_function(state.functions@, label),
{
    lemma_doc(state, params.uri, k);
    functions_are_offered(state.functions@, label);
    let a = expression_scaffolds();
    let b = function_items(state.functions@);
    lemma_plus_item(a, b, label, ItemKind::Function);
    assert(!has_item(a, label, ItemKind::Function)) by {
        assert forall|i: int| 0 <= i < a.len() implies (#[trigger] a[i]).kind == Some(
            ItemKind::Snippet,
        ) by {}
    }
}

/// Behind the local name of a provider the functions of that provider are
/// offered under their short names, and no other function.
pub proof fn functions_of_a_provider_are_offered(
    state: StateStore,
    uri: DocUri,
    local: Seq<char>,
    label: Seq<char>,
)
    ensures
        has_item(provider_functions(state, uri, local), label, ItemKind::Function) <==> exists|
            i: int,
        |
            0 <= i < state.functions@.len() && qualified_parts(
                (#[trigger] state.functions@[i]).name@,
            ) == Some((provider_for(state, uri, local), label)),
{
    let f = provider_call(provider_for(state, uri, local));
    let s = state.functions@;
    let u = filter_map(s, f);
    lemma_sorted_items(SortBy::Label, u, label, ItemKind::Function);
    lemma_filtered_item(s, f, label, ItemKind::Function);
    if exists|i: int|
        0 <= i < s.len() && f(#[trigger] s[i]) is Some && is_item(
            f(s[i])->0,
            label,
            ItemKind::Function,
        ) {
        let i = choose|i: int|
            0 <= i < s.len() && f(#[trigger] s[i]) is Some && is_item(
                f(s[i])->0,
                label,
                ItemKind::Function,
            );
        assert(qualified_parts(s[i].name@) == Some((provider_for(state, uri, local), label)));
    }
    if exists|i: int|
        0 <= i < s.len() && qualified_parts((#[trigger] s[i]).name@) == Some(
            (provider_for(state, uri, local), label),
        ) {
        let i = choose|i: int|
            0 <= i < s.len() && qualified_parts((#[trigger] s[i]).name@) == Some(
                (provider_for(state, uri, local), label),
            );
        assert(f(s[i]) is Some);
    }
}

/// A qualified name is `provider::NAMESPACE::PROVIDER::NAME`: its parts put
/// together again give the name.
pub proof fn qualified_names_have_four_parts(q: Seq<char>)
    ensures
        qualified_parts(q) matches Some(p) ==> exists|namespace: Seq<char>|
            q == "provider"@ + "::"@ + #[trigger] (namespace + "::"@) + p.0 + "::"@ + p.1,
{
    if qualified_parts(q) is Some {
        let (head, r1) = cut(q)->0;
        let (namespace, r2) = cut(r1)->0;
        let (provider, name) = cut(r2)->0;
        lemma_cut(q);
        lemma_cut(r1);
        lemma_cut(r2);
        assert(q =~= "provider"@ + "::"@ + (namespace + "::"@) + provider + "::"@ + name);
    }
}

proof fn lemma_cut(s: Seq<char>)
    ensures
        cut(s) matches Some(p) ==> s == p.0 + "::"@ + p.1,
{
    reveal_strlit("::");
    if cut(s) is Some {
        crate::idents::lemma_find_from(s, "::"@, 0);
        let k = crate::text::find_from(s, "::"@, 0)->0;
        assert(s.subrange(k, k + 2) == "::"@);
        assert(s =~= s.take(k) + s.subrange(k, k + 2) + s.skip(k + 2));
    }
}

/// Behind `each.`, `count.`, `path.` and `terraform.` exactly the attributes of
/// the namespace are offered.
pub proof fn namespaces_are_completed(
    state: StateStore,
    lang: Language,
    params: CompletionParams,
    k: int,
    label: Seq<char>,
)
    requires
        is_request(state, params, k),
    ensures
        params.context is EachRef ==> (offers_label(completion_answer(state, lang, params), label)
            <==> label == "key"@ || label == "value"@),
        params.context is CountRef ==> (offers_label(completion_answer(state, lang, params), label)
            <==> label == "index"@),
        params.context is PathRef ==> (offers_label(completion_answer(state, lang, params), label)
            <==> label == "module"@ || label == "root"@ || label == "cwd"@),
        params.context is TerraformNamespaceRef ==> (offers_label(
            completion_answer(state, lang, params),
            label,
        ) <==> label == "workspace"@),
{
    lemma_doc(state, params.uri, k);
    assert(each_items()[0].label == "key"@ && each_items()[1].label == "value"@);
    assert(each_items().len() == 2);
    assert(count_items()[0].label == "index"@ && count_items().len() == 1);
    assert(path_items()[0].label == "module"@ && path_items()[1].label == "root"@
        && path_items()[2].label == "cwd"@ && path_items().len() == 3);
    assert(terraform_items()[0].label == "workspace"@ && terraform_items().len() == 1);
}

/// At the top level exactly the kinds of blocks are offered, each by a text
/// that starts with the keyword.
pub proof fn blocks_are_offered_at_the_top_level(
    state: StateStore,
    lang: Language,
    params: CompletionParams,
    k: int,
    label: Seq<char>,
)
    requires
        is_request(state, params, k),
        params.context is TopLevel,
    ensures
        offers_label(completion_answer(state, lang, params), label) <==> {
            ||| label == "resource"@
            ||| label == "data"@
            ||| label == "variable"@
            ||| label == "output"@
            ||| label == "module"@
            ||| label == "provider"@
            ||| label == "terraform"@
            ||| label == "locals"@
            ||| label == "import"@
            ||| label == "moved"@
            ||| label == "removed"@
            ||| label == "check"@
        },
{
    lemma_doc(state, params.uri, k);
    let v = top_level();
    assert(v.len() == 12);
    assert(v[0].label == "resource"@);
    assert(v[1].label == "data"@);
    assert(v[2].label == "variable"@);
    assert(v[3].label == "output"@);
    assert(v[4].label == "module"@);
    assert(v[5].label == "provider"@);
    assert(v[6].label == "terraform"@);
    assert(v[7].label == "locals"@);
    assert(v[8].label == "import"@);
    assert(v[9].label == "moved"@);
    assert(v[10].label == "removed"@);
    assert(v[11].label == "check"@);
}

/// Where a type is written the primitive types and the constructors of types
/// are offered.
pub proof fn types_are_offered(
    state: StateStore,
    lang: Language,
    params: CompletionParams,
    k: int,
    label: Seq<char>,
)
    requires
        is_request(state, params, k),
        params.context is VariableTypeValue,
    ensures
        offers_label(completion_answer(state, lang, params), label) <==> {
            ||| label == "string"@
            ||| label == "number"@
            ||| label == "bool"@
            ||| label == "any"@
            ||| label == "null"@
            ||| label == "list"@
            ||| label == "set"@
            ||| label == "map"@
            ||| label == "tuple"@
            ||| label == "object"@
            ||| label == "optional"@
        },
{
    lemma_doc(state, params.uri, k);
    let v = type_values(lang.optional_doc@);
    assert(v.len() == 11);
    assert(v[0].label == "string"@);
    assert(v[1].label == "number"@);
    assert(v[2].label == "bool"@);
    assert(v[3].label == "any"@);
    assert(v[4].label == "null"@);
    assert(v[5].label == "list"@);
    assert(v[6].label == "set"@);
    assert(v[7].label == "map"@);
    assert(v[8].label == "tuple"@);
    assert(v[9].label == "object"@);
    assert(v[10].label == "optional"@);
}

proof fn lemma_ref_items(
    names: Seq<Seq<char>>,
    lead: Seq<char>,
    tail: Seq<char>,
    kind: ItemKind,
    detail: Seq<char>,
    label: Seq<char>,
    k: ItemKind,
)
    ensures
        has_item(each(names, ref_item(lead, tail, kind, detail)), label, k) <==> k == kind
            && exists|n: Seq<char>| #[trigger] names.contains(n) && label == lead + n + tail,
{
    let v = each(names, ref_item(lead, tail, kind, detail));
    if has_item(v, label, k) {
        let i = choose|i: int|
            0 <= i < v.len() && (#[trigger] v[i]).label == label && v[i].kind == Some(k);
        assert(names.contains(names[i]));
    }
    if k == kind && exists|n: Seq<char>| #[trigger] names.contains(n) && label == lead + n + tail {
        let n = choose|n: Seq<char>| #[trigger] names.contains(n) && label == lead + n + tail;
        let i = choose|i: int| 0 <= i < names.len() && names[i] == n;
        assert(v[i].label == label && v[i].kind == Some(k));
    }
}

/// The variables of the workspace as `var.NAME` and its local values as
/// `local.NAME` are offered as values, and nothing else among them.
pub proof fn values_refer_to_variables_and_locals(state: StateStore, name: Seq<char>)
    ensures
        has_item(value_refs(state), "var."@ + name, ItemKind::Variable) <== declared(
            state.documents@,
            None,
            |t: SymbolTable| t.variables@,
            name,
        ),
        has_item(value_refs(state), "local."@ + name, ItemKind::Variable) <== declared(
            state.documents@,
            None,
            |t: SymbolTable| t.locals@,
            name,
        ),
{
    let vs = declared_names(state.documents@, None, SymbolField::Variables);
    let ls = declared_names(state.documents@, None, SymbolField::Locals);
    let none: Option<String> = None;
    lemma_declared(
        state.documents@,
        none,
        SymbolField::Variables,
        |t: SymbolTable| t.variables@,
        name,
    );
    lemma_declared(
        state.documents@,
        none,
        SymbolField::Locals,
        |t: SymbolTable| t.locals@,
        name,
    );
    let a = each(vs, ref_item("var."@, ""@, ItemKind::Variable, "variable"@));
    let b = each(ls, ref_item("local."@, ""@, ItemKind::Variable, "local"@));
    reveal_strlit("");
    assert("var."@ + name + ""@ =~= "var."@ + name);
    assert("local."@ + name + ""@ =~= "local."@ + name);
    lemma_ref_items(
        vs,
        "var."@,
        ""@,
        ItemKind::Variable,
        "variable"@,
        "var."@ + name,
        ItemKind::Variable,
    );
    lemma_ref_items(
        ls,
        "local."@,
        ""@,
        ItemKind::Variable,
        "local"@,
        "local."@ + name,
        ItemKind::Variable,
    );
    lemma_plus_item(a, b, "var."@ + name, ItemKind::Variable);
    lemma_plus_item(a, b, "local."@ + name, ItemKind::Variable);
}

/// What is offered as a reference value is a variable or a local value of the
/// workspace.
pub proof fn reference_values_are_declared(state: StateStore, label: Seq<char>)
    requires
        has_label(value_refs(state), label),
    ensures
        exists|n: Seq<char>|
            (label == #[trigger] ("var."@ + n) && declared(
                state.documents@,
                None,
                |t: SymbolTable| t.variables@,
                n,
            )) || (label == "local."@ + n && declared(
                state.documents@,
                None,
                |t: SymbolTable| t.locals@,
                n,
            )),
{
    reveal_strlit("");
    let vs = declared_names(state.documents@, None, SymbolField::Variables);
    let ls = declared_names(state.documents@, None, SymbolField::Locals);
    let v = value_refs(state);
    let i = choose|i: int| 0 <= i < v.len() && (#[trigger] v[i]).label == label;
    let none: Option<String> = None;
    if i < vs.len() {
        assert(vs.contains(vs[i]));
        lemma_declared(
            state.documents@,
            none,
            SymbolField::Variables,
            |t: SymbolTable| t.variables@,
            vs[i],
        );
        assert("var."@ + vs[i] + ""@ =~= "var."@ + vs[i]);
    } else {
        let n = ls[i - vs.len()];
        assert(ls.contains(n));
        lemma_declared(
            state.documents@,
            none,
            SymbolField::Locals,
            |t: SymbolTable| t.locals@,
            n,
        );
        assert("local."@ + n + ""@ =~= "local."@ + n);
        assert(label == "local."@ + n);
        assert("var."@ + n == "var."@ + n);
    }
}

/// An attribute with known values offers each of them, as it is written.
pub proof fn allowed_values_are_offered(
    state: StateStore,
    lang: Language,
    params: CompletionParams,
    k: int,
    ty: Seq<char>,
    attr: Seq<char>,
    p: int,
    r: int,
    i: int,
    n: int,
)
    requires
        is_request(state, params, k),
        params.context matches CompletionContext::AttributeValue { resource_type, attr_name }
            && resource_type@ == ty && attr_name@ == attr,
        resource_schema_at(state.schemas@, ty, p, r),
        is_named(
            state.schemas@[p].schema.resource_schemas@[r].1.block.attributes@,
            attr,
            i,
        ),
        ({
            let a = state.schemas@[p].schema.resource_schemas@[r].1.block.attributes@[i].1;
            a.allowed_values is Some && 0 <= n < a.allowed_values->0@.len()
        }),
    ensures
        ({
            let a = state.schemas@[p].schema.resource_schemas@[r].1.block.attributes@[i].1;
            offers(
                completion_answer(state, lang, params),
                written_value(a.allowed_values->0@[n]@),
                ItemKind::EnumMember,
            )
        }),
{
    lemma_doc(state, params.uri, k);
    lemma_resource_schema(state.schemas@, ty, p, r);
    let b = state.schemas@[p].schema.resource_schemas@[r].1.block;
    lemma_named(b.attributes@, attr, i);
    let vals = texts(b.attributes@[i].1.allowed_values->0@);
    assert(allowed_values(state, ty, attr) == vals);
    let all = value_offers(state, ty, attr);
    let out = attribute_values(state, ty, attr);
    assert(all[n] == value_item()(vals[n]));
    assert(out[n].label == written_value(vals[n]));
    assert(out[n].kind == Some(ItemKind::EnumMember));
}

/// In a file of variable values exactly the variables of the module are offered
/// that the file gives no value yet; behind an equals sign nothing is.
pub proof fn unset_variables_are_offered(
    state: StateStore,
    uri: DocUri,
    body: Option<Body>,
    line: Seq<char>,
    label: Seq<char>,
)
    ensures
        has_label(tfvars_items(state, uri, body, line), label) <==> {
            &&& !line.contains('=')
            &&& declared(state.documents@, uri.dir, |t: SymbolTable| t.variables@, label)
            &&& !(body is Some && exists|a: Attribute| #[trigger]
                has_attribute(body->0, a) && a.key.text@ == label)
        },
{
    lemma_char(line, '=', 0);
    lemma_declared(
        state.documents@,
        uri.dir,
        SymbolField::Variables,
        |t: SymbolTable| t.variables@,
        label,
    );
    lemma_assigned(body, label);
    let names = declared_names(state.documents@, opt_view(uri.dir), SymbolField::Variables);
    let f = tfvar_item(assigned_keys(body));
    let v = filter_map(names, f);
    if has_label(v, label) {
        let j = choose|j: int| 0 <= j < v.len() && (#[trigger] v[j]).label == label;
        assert(v.contains(v[j]));
        lemma_filter_map_contains(names, f, v[j]);
        let i = choose|i: int| 0 <= i < names.len() && f(#[trigger] names[i]) == Some(v[j]);
        assert(names[i] == label);
        assert(names.contains(label));
    }
    if names.contains(label) && !assigned_keys(body).contains(label) {
        let i = choose|i: int| 0 <= i < names.len() && names[i] == label;
        let x = f(label)->0;
        lemma_filter_map_contains(names, f, x);
        assert(f(names[i]) == Some(x));
        let j = choose|j: int| 0 <= j < v.len() && v[j] == x;
        assert(v[j].label == label);
    }
}

proof fn lemma_char(s: Seq<char>, c: char, from: int)
    requires
        0 <= from,
    ensures
        find_char(s, c, from) is Some <==> exists|i: int|
            from <= i < s.len() && #[trigger] s[i] == c,
    decreases s.len() - from,
{
    if from < s.len() && s[from] != c {
        lemma_char(s, c, from + 1);
        if exists|i: int| from <= i < s.len() && #[trigger] s[i] == c {
            let i = choose|i: int| from <= i < s.len() && #[trigger] s[i] == c;
            assert(from + 1 <= i);
        }
    }
}

proof fn lemma_assigned(body: Option<Body>, name: Seq<char>)
    ensures
        assigned_keys(body).contains(name) <==> body is Some && exists|a: Attribute| #[trigger]
            has_attribute(body->0, a) && a.key.text@ == name,
{
    if body is Some {
        let b = body->0;
        let attrs = attributes(b);
        let f = crate::completion_cursor::attr_key();
        lemma_each_contains(attrs, f, name);
        if each(attrs, f).contains(name) {
            let k = choose|k: int| 0 <= k < attrs.len() && f(#[trigger] attrs[k]) == name;
            lemma_attributes(b, attrs[k]);
            assert(attrs.contains(attrs[k]));
        }
        if exists|a: Attribute| #[trigger] has_attribute(b, a) && a.key.text@ == name {
            let a = choose|a: Attribute| #[trigger] has_attribute(b, a) && a.key.text@ == name;
            lemma_attributes(b, a);
            let k = choose|k: int| 0 <= k < attrs.len() && attrs[k] == a;
            assert(f(attrs[k]) == name);
        }
    }
}

/// The namespace of the reference under the cursor in a test file.
pub open spec fn namespace_of(line: Seq<char>) -> Seq<char> {
    match reference_prefix(line) {
        Some((root, _)) => root,
        None => Seq::empty(),
    }
}

/// In a test file `var.` offers the variables of the module under test,
/// `output.` its outputs and `run.` the `run` blocks of the file.
pub proof fn test_references_are_completed(
    state: StateStore,
    lang: Language,
    dir: Option<String>,
    body: Option<Body>,
    line: Seq<char>,
    offset: int,
    label: Seq<char>,
)
    requires
        reference_prefix(line) is Some,
    ensures
        ({
            let v = test_items(state, lang, opt_view(dir), body, line, offset);
            &&& namespace_of(line) == "var"@ ==> (has_label(v, label) <==> declared(
                state.documents@,
                dir,
                |t: SymbolTable| t.variables@,
                label,
            ))
            &&& namespace_of(line) == "output"@ ==> (has_label(v, label) <==> declared(
                state.documents@,
                dir,
                |t: SymbolTable| t.outputs@,
                label,
            ))
            &&& namespace_of(line) == "run"@ ==> (has_label(v, label) <==> body is Some
                && exists|b: Block| #[trigger]
                has_block(body->0, b) && b.ident.text@ == "run"@ && b.labels@.len() > 0
                    && b.labels@[0].text@ == label)
        }),
{
    reveal_strlit("var");
    reveal_strlit("output");
    reveal_strlit("run");
    assert("var"@[0] == 'v' && "run"@[0] == 'r');
    assert("var"@.len() == 3 && "output"@.len() == 6);
    lemma_declared(
        state.documents@,
        dir,
        SymbolField::Variables,
        |t: SymbolTable| t.variables@,
        label,
    );
    lemma_declared(
        state.documents@,
        dir,
        SymbolField::Outputs,
        |t: SymbolTable| t.outputs@,
        label,
    );
    lemma_tested(state, dir, SymbolField::Variables, label);
    lemma_tested(state, dir, SymbolField::Outputs, label);
    lemma_runs(body, label);
}

proof fn lemma_tested(state: StateStore, dir: Option<String>, field: SymbolField, label: Seq<char>)
    ensures
        has_label(tested_items(state, opt_view(dir), field), label) <==> declared_names(
            state.documents@,
            opt_view(dir),
            field,
        ).contains(label),
{
    let names = declared_names(state.documents@, opt_view(dir), field);
    let v = tested_items(state, opt_view(dir), field);
    if has_label(v, label) {
        let i = choose|i: int| 0 <= i < v.len() && (#[trigger] v[i]).label == label;
        assert(names[i] == label);
    }
    if names.contains(label) {
        let i = choose|i: int| 0 <= i < names.len() && names[i] == label;
        assert(v[i].label == label);
    }
}

proof fn lemma_runs(body: Option<Body>, label: Seq<char>)
    ensures
        has_label(run_items(body), label) <==> body is Some && exists|b: Block| #[trigger]
            has_block(body->0, b) && b.ident.text@ == "run"@ && b.labels@.len() > 0
                && b.labels@[0].text@ == label,
{
    if body is Some {
        let s = blocks_named(body->0, "run"@);
        let f = run_label();
        let names = name_set(filter_map(s, f));
        let v = run_items(body);
        name_set_contains(filter_map(s, f), label);
        lemma_filter_map_contains(s, f, label);
        if has_label(v, label) {
            let i = choose|i: int| 0 <= i < v.len() && (#[trigger] v[i]).label == label;
            assert(names[i] == label);
            assert(names.contains(label));
            let k = choose|k: int| 0 <= k < s.len() && f(#[trigger] s[k]) == Some(label);
            lemma_blocks_named(body->0, "run"@, s[k]);
            assert(s.contains(s[k]));
        }
        if exists|b: Block| #[trigger]
            has_block(body->0, b) && b.ident.text@ == "run"@ && b.labels@.len() > 0
                && b.labels@[0].text@ == label {
            let b = choose|b: Block| #[trigger]
                has_block(body->0, b) && b.ident.text@ == "run"@ && b.labels@.len() > 0
                    && b.labels@[0].text@ == label;
            lemma_blocks_named(body->0, "run"@, b);
            let k = choose|k: int| 0 <= k < s.len() && s[k] == b;
            assert(f(s[k]) == Some(label));
            let i = choose|i: int| 0 <= i < names.len() && names[i] == label;
            assert(v[i].label == label);
        }
    }
}

/// An attribute that refers to a type offers the declared resources of that
/// type and its data sources, each by its address and the attribute that stands
/// for it: `.arn` for a name that ends so, `.name` for one that ends so, else
/// `.id`.
pub proof fn targets_are_offered_by_address(
    state: StateStore,
    ty: Seq<char>,
    attr: Seq<char>,
    target: Seq<char>,
    name: Seq<char>,
)
    requires
        crate::attr_ref_map::referenced_type(ty, attr) == Some(target),
    ensures
        ({
            let tail = if ends_with(attr, "_arn"@) || attr == "arn"@ {
                ".arn"@
            } else if ends_with(attr, "_name"@) {
                ".name"@
            } else {
                ".id"@
            };
            &&& declared_resource(
                state.documents@,
                None,
                |t: SymbolTable| t.resources@,
                target,
                name,
            ) ==> has_item(
                target_refs(state, ty, attr),
                target + "."@ + name + tail,
                ItemKind::Reference,
            )
            &&& declared_resource(
                state.documents@,
                None,
                |t: SymbolTable| t.data_sources@,
                target,
                name,
            ) ==> has_item(
                target_refs(state, ty, attr),
                "data."@ + target + "."@ + name + tail,
                ItemKind::Reference,
            )
        }),
{
    let tail = crate::attr_ref_map::output_suffix(attr);
    let rs = resource_names(state.documents@, None, target, false);
    let ds = resource_names(state.documents@, None, target, true);
    let none: Option<String> = None;
    lemma_declared_resource(
        state.documents@,
        none,
        false,
        |t: SymbolTable| t.resources@,
        target,
        name,
    );
    lemma_declared_resource(
        state.documents@,
        none,
        true,
        |t: SymbolTable| t.data_sources@,
        target,
        name,
    );
    let a = each(rs, ref_item(target + "."@, tail, ItemKind::Reference, "resource "@ + target));
    let b = each(
        ds,
        ref_item("data."@ + target + "."@, tail, ItemKind::Reference, "data source "@ + target),
    );
    let x = target + "."@ + name + tail;
    let y = "data."@ + target + "."@ + name + tail;
    lemma_ref_items(
        rs,
        target + "."@,
        tail,
        ItemKind::Reference,
        "resource "@ + target,
        x,
        ItemKind::Reference,
    );
    lemma_ref_items(
        ds,
        "data."@ + target + "."@,
        tail,
        ItemKind::Reference,
        "data source "@ + target,
        y,
        ItemKind::Reference,
    );
    lemma_plus_item(a, b, x, ItemKind::Reference);
    lemma_plus_item(a, b, y, ItemKind::Reference);
}

/// An expression can start with a namespace: each is offered with the dot
/// behind it.
pub proof fn expressions_start_with_namespaces(state: StateStore, uri: DocUri, root: Seq<char>)
    requires
        root == "each"@ || root == "count"@ || root == "path"@ || root == "self"@ || root
            == "data"@ || root == "terraform"@,
    ensures
        exists|i: int|
            0 <= i < expression_roots(state, uri).len() && (#[trigger] expression_roots(
                state,
                uri,
            )[i]).label == root && expression_roots(state, uri)[i].insert_text == Some(root + "."@),
{
    let n = namespace_roots();
    let lead = expression_scaffolds() + numbered("1"@, 0, root_refs(state, uri));
    let v = expression_roots(state, uri);
    let k = lead.len() as int;
    assert(v[k] == n[0] && v[k + 1] == n[1] && v[k + 2] == n[2] && v[k + 3] == n[3] && v[k + 4]
        == n[4] && v[k + 5] == n[5]);
}

} // verus!
