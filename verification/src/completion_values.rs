//! Completion of values: functions, references and the values that an attribute
//! is known to take.

use crate::actions::copy_opt;
use crate::attr_ref_map::{
    output_attribute, output_suffix, referenced_resource_type, referenced_type,
};
use crate::completion_body::no_items;
use crate::completion_builtin::{expression_scaffold_items, expression_scaffolds};
use crate::completion_item::{
    append_items, insert_item, items_view, plain_item, push_item, sort_items, sorted_items,
    CompletionItem, InsertFormat, ItemKind, ItemV, SortBy,
};
use crate::completion_symbols::{
    declared_names, list_declared_names, list_resource_names, module_names_in_scope,
    resource_names, SymbolField,
};
use crate::hcl::{
    attr_pointees, key_text, literal_string, literal_text, object_key_as_str, Attribute, Body,
    ExprKind, ObjectItem,
};
use crate::order::{name_set, sort_dedup_names};
use crate::provider_fn::{lookup_local, provider_of_local};
use crate::providers::{
    list_provider_entries, parse_source_provider_name, provider_entries, source_name,
};
use crate::schema::{
    data_source_schema, find_data_source_schema, find_entry, find_resource_schema, lookup,
    resource_schema, SchemaEntry,
};
use crate::seqs::{
    each, filter_map, find_map, lemma_filter_map_step, lemma_find_map_step, lemma_take_full,
};
use crate::state::{
    find_doc, primary_doc, same_dir, DocUri, DocumentState, FunctionEntry, StateStore,
};
use crate::text::{
    chars_of, concat2, concat3, find_from, opt_view, padded, padded_text, slice_find_from,
    starts_with, str_eq, str_starts_with, string_sub, texts,
};
use crate::versions::is_digit;
use vstd::prelude::*;

verus! {

// ---------------------------------------------------------------------
// Functions

/// A call of a function, with the cursor between the parentheses.
pub open spec fn call_item(name: Seq<char>, f: FunctionEntry) -> ItemV {
    ItemV {
        documentation: opt_view(f.description),
        ..insert_item(
            name,
            ItemKind::Function,
            f.label@,
            name + "(${1})$0"@,
            InsertFormat::Snippet,
        )
    }
}

fn render_call(name: &str, f: &FunctionEntry) -> (r: CompletionItem)
    ensures
        r@ == call_item(name@, *f),
{
    CompletionItem::inserting(
        name,
        ItemKind::Function,
        f.label.clone(),
        concat2(name, "(${1})$0"),
        InsertFormat::Snippet,
    ).with_documentation(copy_opt(&f.description))
}

/// Functions of providers are called by another name than the one they are
/// known by.
pub open spec fn builtin_call() -> spec_fn(FunctionEntry) -> Option<ItemV> {
    |f: FunctionEntry|
        if starts_with(f.name@, "provider::"@) {
            None
        } else {
            Some(call_item(f.name@, f))
        }
}

pub open spec fn function_items(functions: Seq<FunctionEntry>) -> Seq<ItemV> {
    sorted_items(SortBy::Label, filter_map(functions, builtin_call()))
}

/// The built-in functions.
pub fn function_name_items(state: &StateStore) -> (r: Vec<CompletionItem>)
    ensures
        items_view(r@) == function_items(state.functions@),
{
    let ghost s = state.functions@;
    let ghost f = builtin_call();
    let mut out = no_items();
    proof {
        lemma_take_full(s);
    }
    for i in 0..state.functions.len()
        invariant
            s == state.functions@,
            f == builtin_call(),
            items_view(out@) == filter_map(s.take(i as int), f),
    {
        proof {
            lemma_filter_map_step(s, f, i as int);
        }
        let entry = &state.functions[i];
        if !str_starts_with(entry.name.as_str(), "provider::") {
            let item = render_call(entry.name.as_str(), entry);
            push_item(&mut out, item);
        }
    }
    sort_items(&out, SortBy::Label)
}

/// `s` cut at the first `::`.
pub open spec fn cut(s: Seq<char>) -> Option<(Seq<char>, Seq<char>)> {
    match find_from(s, "::"@, 0) {
        Some(k) => Some((s.take(k), s.skip(k + 2))),
        None => None,
    }
}

fn cut_text(s: &str) -> (r: Option<(String, String)>)
    ensures
        match r {
            Some(p) => cut(s@) == Some((p.0@, p.1@)),
            None => cut(s@) is None,
        },
{
    proof {
        reveal_strlit("::");
        assert("::"@.len() == 2);
    }
    let chars = chars_of(s);
    let sep = chars_of("::");
    let n = chars.len();
    match slice_find_from(chars.as_slice(), sep.as_slice(), 0) {
        Some(k) => {
            let a = string_sub(chars.as_slice(), 0, k);
            let b = string_sub(chars.as_slice(), k + 2, n);
            assert(a@ =~= s@.take(k as int));
            assert(b@ =~= s@.skip(k + 2));
            Some((a, b))
        },
        None => None,
    }
}

/// The provider and the short name of a function that is known as
/// `provider::<namespace>::<provider>::<name>`.
pub open spec fn qualified_parts(q: Seq<char>) -> Option<(Seq<char>, Seq<char>)> {
    match cut(q) {
        Some((head, r1)) => if head != "provider"@ {
            None
        } else {
            match cut(r1) {
                Some((_, r2)) => match cut(r2) {
                    Some((provider, name)) => if cut(name) is Some {
                        None
                    } else {
                        Some((provider, name))
                    },
                    None => None,
                },
                None => None,
            }
        },
        None => None,
    }
}

fn split_qualified(q: &str) -> (r: Option<(String, String)>)
    ensures
        match r {
            Some(p) => qualified_parts(q@) == Some((p.0@, p.1@)),
            None => qualified_parts(q@) is None,
        },
{
    let (head, r1) = match cut_text(q) {
        Some(p) => p,
        None => {
            return None;
        },
    };
    if !str_eq(head.as_str(), "provider") {
        return None;
    }
    let (_, r2) = match cut_text(r1.as_str()) {
        Some(p) => p,
        None => {
            return None;
        },
    };
    let (provider, name) = match cut_text(r2.as_str()) {
        Some(p) => p,
        None => {
            return None;
        },
    };
    if cut_text(name.as_str()).is_some() {
        return None;
    }
    Some((provider, name))
}

pub open spec fn qualified_provider(q: Seq<char>) -> Option<Seq<char>> {
    match qualified_parts(q) {
        Some((p, _)) => Some(p),
        None => None,
    }
}

/// The provider of a qualified function name.
pub fn qualified_function_local_name(qualified: &str) -> (r: Option<String>)
    ensures
        opt_view(r) == qualified_provider(qualified@),
{
    match split_qualified(qualified) {
        Some((p, _)) => Some(p),
        None => None,
    }
}

pub open spec fn qualified_name(q: Seq<char>) -> Option<Seq<char>> {
    match qualified_parts(q) {
        Some((_, n)) => Some(n),
        None => None,
    }
}

/// The short name of a qualified function name.
pub fn qualified_function_short_name(qualified: &str) -> (r: Option<String>)
    ensures
        opt_view(r) == qualified_name(qualified@),
{
    match split_qualified(qualified) {
        Some((_, n)) => Some(n),
        None => None,
    }
}

// ---------------------------------------------------------------------
// Providers by their local names

/// The value of the last `source` that is a literal.
pub open spec fn last_source(items: Seq<ObjectItem>) -> Option<Seq<char>>
    decreases items.len(),
{
    if items.len() == 0 {
        None
    } else if key_text(items.last().key) == Some("source"@) && literal_text(items.last().value)
        is Some {
        literal_text(items.last().value)
    } else {
        last_source(items.drop_last())
    }
}

/// The provider that an entry stands for.
pub open spec fn entry_name(a: Attribute) -> Seq<char> {
    match a.value.kind {
        ExprKind::Object(items) => match last_source(items@) {
            Some(src) => match source_name(src) {
                Some(n) => n,
                None => a.key.text@,
            },
            None => a.key.text@,
        },
        _ => a.key.text@,
    }
}

fn entry_name_text(a: &Attribute) -> (r: String)
    ensures
        r@ == entry_name(*a),
{
    if let ExprKind::Object(items) = &a.value.kind {
        let ghost s = items@;
        let mut i: usize = items.len();
        proof {
            lemma_take_full(s);
        }
        while i > 0
            invariant
                s == items@,
                i <= s.len(),
                last_source(s) == last_source(s.take(i as int)),
                a.value.kind == ExprKind::Object(*items),
            decreases i,
        {
            assert(s.take(i as int).drop_last() =~= s.take(i - 1));
            assert(s.take(i as int).last() == s[i - 1]);
            if let Some(k) = object_key_as_str(&items[i - 1].key) {
                if str_eq(k, "source") {
                    if let Some(src) = literal_string(&items[i - 1].value) {
                        return match parse_source_provider_name(src.as_str()) {
                            Some(n) => n,
                            None => a.key.text.clone(),
                        };
                    }
                }
            }
            i -= 1;
        }
    }
    a.key.text.clone()
}

pub open spec fn last_local(entries: Seq<Attribute>, name: Seq<char>) -> Option<Seq<char>>
    decreases entries.len(),
{
    if entries.len() == 0 {
        None
    } else if entry_name(entries.last()) == name {
        Some(entries.last().key.text@)
    } else {
        last_local(entries.drop_last(), name)
    }
}

/// The local name that a file gives a provider: of several the last.
pub open spec fn local_of(body: Body, name: Seq<char>) -> Option<Seq<char>> {
    last_local(provider_entries(body), name)
}

pub fn required_providers_name_to_local(body: &Body, name: &str) -> (r: Option<String>)
    ensures
        opt_view(r) == local_of(*body, name@),
{
    let entries = list_provider_entries(body);
    let ghost s = provider_entries(*body);
    let mut i: usize = entries.len();
    proof {
        lemma_take_full(s);
        assert(attr_pointees(entries@).len() == entries@.len());
    }
    while i > 0
        invariant
            attr_pointees(entries@) == s,
            s == provider_entries(*body),
            i <= entries@.len(),
            entries@.len() == s.len(),
            last_local(s, name@) == last_local(s.take(i as int), name@),
        decreases i,
    {
        assert(s.take(i as int).drop_last() =~= s.take(i - 1));
        assert(s.take(i as int).last() == *entries@[i - 1]);
        let resolved = entry_name_text(entries[i - 1]);
        if str_eq(resolved.as_str(), name) {
            return Some(entries[i - 1].key.text.clone());
        }
        i -= 1;
    }
    None
}

pub open spec fn sibling_local(uri: DocUri, name: Seq<char>) -> spec_fn(DocumentState) -> Option<
    Seq<char>,
> {
    |d: DocumentState|
        if d.uri.text@ != uri.text@ && uri.dir is Some && opt_view(d.uri.dir) == opt_view(
            uri.dir,
        ) {
            match d.body {
                Some(body) => local_of(body, name),
                None => None,
            }
        } else {
            None
        }
}

pub open spec fn own_local(state: StateStore, uri: DocUri, name: Seq<char>) -> Option<Seq<char>> {
    match find_map(state.documents@, primary_doc(uri)) {
        Some(d) => match d.body {
            Some(body) => local_of(body, name),
            None => None,
        },
        None => None,
    }
}

/// The local name of a provider in a module: by the document itself, else by
/// another document of its module, else the provider's own name.
pub open spec fn local_for(state: StateStore, uri: DocUri, name: Seq<char>) -> Seq<char> {
    match own_local(state, uri, name) {
        Some(l) => l,
        None => match find_map(state.documents@, sibling_local(uri, name)) {
            Some(l) => l,
            None => name,
        },
    }
}

pub fn provider_local_name(state: &StateStore, uri: &DocUri, name: &str) -> (r: String)
    ensures
        r@ == local_for(*state, *uri, name@),
{
    if let Some(doc) = find_doc(state, uri) {
        if let Some(body) = &doc.body {
            if let Some(l) = required_providers_name_to_local(body, name) {
                return l;
            }
        }
    }
    let ghost s = state.documents@;
    let ghost f = sibling_local(*uri, name@);
    proof {
        lemma_take_full(s);
    }
    for i in 0..state.documents.len()
        invariant
            s == state.documents@,
            f == sibling_local(*uri, name@),
            find_map(s, f) == find_map(s.skip(i as int), f),
            own_local(*state, *uri, name@) is None,
    {
        proof {
            lemma_find_map_step(s, f, i as int);
        }
        let d = &state.documents[i];
        if !str_eq(d.uri.text.as_str(), uri.text.as_str()) && uri.dir.is_some() && same_dir(
            &d.uri.dir,
            &uri.dir,
        ) {
            if let Some(body) = &d.body {
                if let Some(l) = required_providers_name_to_local(body, name) {
                    return l;
                }
            }
        }
    }
    name.to_owned()
}

/// The provider that a local name stands for, the name itself where nothing is
/// declared under it.
pub open spec fn provider_for(state: StateStore, uri: DocUri, local: Seq<char>) -> Seq<char> {
    match provider_of_local(state, uri, local) {
        Some(n) => n,
        None => local,
    }
}

pub fn local_to_provider_name(state: &StateStore, uri: &DocUri, local: &str) -> (r: String)
    ensures
        r@ == provider_for(*state, *uri, local@),
{
    match lookup_local(state, uri, local) {
        Some(n) => n,
        None => local.to_owned(),
    }
}

pub open spec fn function_namespace(state: StateStore, uri: DocUri) -> spec_fn(
    FunctionEntry,
) -> Option<Seq<char>> {
    |f: FunctionEntry|
        match qualified_provider(f.name@) {
            Some(p) => Some(local_for(state, uri, p)),
            None => None,
        }
}

pub open spec fn namespace_offer() -> spec_fn(Seq<char>) -> ItemV {
    |local: Seq<char>|
        ItemV {
            detail: Some("provider"@),
            insert_text: Some(local + "::"@),
            ..plain_item(local, ItemKind::Module)
        }
}

/// The local names of the providers that have functions.
pub open spec fn function_namespaces(state: StateStore, uri: DocUri) -> Seq<ItemV> {
    each(
        name_set(filter_map(state.functions@, function_namespace(state, uri))),
        namespace_offer(),
    )
}

pub fn provider_function_namespace_items(state: &StateStore, uri: &DocUri) -> (r: Vec<
    CompletionItem,
>)
    ensures
        items_view(r@) == function_namespaces(*state, *uri),
{
    let ghost s = state.functions@;
    let ghost f = function_namespace(*state, *uri);
    let mut found: Vec<String> = Vec::new();
    proof {
        lemma_take_full(s);
    }
    assert(texts(found@) =~= filter_map(s.take(0), f));
    for i in 0..state.functions.len()
        invariant
            s == state.functions@,
            f == function_namespace(*state, *uri),
            texts(found@) == filter_map(s.take(i as int), f),
    {
        proof {
            lemma_filter_map_step(s, f, i as int);
        }
        let ghost before = texts(found@);
        if let Some(p) = qualified_function_local_name(state.functions[i].name.as_str()) {
            let l = provider_local_name(state, uri, p.as_str());
            found.push(l);
            assert(texts(found@) =~= before.push(l@));
        }
    }
    let names = sort_dedup_names(&found);
    let ghost ns = texts(names@);
    let ghost all = function_namespaces(*state, *uri);
    let mut out = no_items();
    assert(ns.len() == names@.len());
    assert(items_view(out@) =~= all.take(0));
    for i in 0..names.len()
        invariant
            ns == texts(names@),
            ns.len() == names@.len(),
            all == each(ns, namespace_offer()),
            items_view(out@) == all.take(i as int),
    {
        let local = names[i].as_str();
        assert(ns[i as int] == local@);
        let mut item = CompletionItem::new(local, ItemKind::Module);
        item.detail = Some("provider".to_owned());
        item.insert_text = Some(concat2(local, "::"));
        assert(item@ =~= namespace_offer()(local@));
        push_item(&mut out, item);
        assert(items_view(out@) =~= all.take(i + 1));
    }
    assert(all.take(names@.len() as int) =~= all);
    out
}

pub open spec fn provider_call(provider: Seq<char>) -> spec_fn(FunctionEntry) -> Option<ItemV> {
    |f: FunctionEntry|
        match qualified_parts(f.name@) {
            Some((p, name)) => if p == provider {
                Some(call_item(name, f))
            } else {
                None
            },
            None => None,
        }
}

/// The functions of the provider that a local name stands for.
pub open spec fn provider_functions(state: StateStore, uri: DocUri, local: Seq<char>) -> Seq<
    ItemV,
> {
    sorted_items(
        SortBy::Label,
        filter_map(state.functions@, provider_call(provider_for(state, uri, local))),
    )
}

pub fn provider_function_name_items(state: &StateStore, uri: &DocUri, provider_local: &str) -> (r:
    Vec<CompletionItem>)
    ensures
        items_view(r@) == provider_functions(*state, *uri, provider_local@),
{
    let provider = local_to_provider_name(state, uri, provider_local);
    let ghost s = state.functions@;
    let ghost f = provider_call(provider@);
    let mut out = no_items();
    proof {
        lemma_take_full(s);
    }
    for i in 0..state.functions.len()
        invariant
            s == state.functions@,
            f == provider_call(provider@),
            items_view(out@) == filter_map(s.take(i as int), f),
    {
        proof {
            lemma_filter_map_step(s, f, i as int);
        }
        let entry = &state.functions[i];
        if let Some((p, name)) = split_qualified(entry.name.as_str()) {
            if str_eq(p.as_str(), provider.as_str()) {
                let item = render_call(name.as_str(), entry);
                push_item(&mut out, item);
            }
        }
    }
    sort_items(&out, SortBy::Label)
}

// ---------------------------------------------------------------------
// Number literals

/// The first character at or behind `i` that is no digit.
pub open spec fn digits_end(s: Seq<char>, i: int) -> int
    decreases s.len() - i,
{
    if 0 <= i < s.len() && is_digit(s[i]) {
        digits_end(s, i + 1)
    } else {
        i
    }
}

pub open spec fn sign_end(s: Seq<char>, i: int) -> int {
    if 0 <= i < s.len() && (s[i] == '+' || s[i] == '-') {
        i + 1
    } else {
        i
    }
}

/// The letters of a word, in either case.
pub open spec fn is_word(s: Seq<char>, w: Seq<char>) -> bool {
    s.len() == w.len() && forall|i: int|
        0 <= i < s.len() ==> #[trigger] same_letter(s[i], w[i])
}

pub open spec fn same_letter(c: char, lower: char) -> bool {
    c == lower || (65 <= c as u32 && c as u32 <= 90 && c as u32 + 32 == lower as u32)
}

/// Digits with a point among them or not, at least one, and an exponent or not.
pub open spec fn is_unsigned(s: Seq<char>) -> bool {
    let whole = digits_end(s, 0);
    let point = if whole < s.len() && s[whole] == '.' {
        whole + 1
    } else {
        whole
    };
    let mantissa = if point > whole {
        digits_end(s, point)
    } else {
        whole
    };
    let digits = whole > 0 || mantissa > point;
    let start = sign_end(s, mantissa + 1);
    digits && (mantissa == s.len() || ((s[mantissa] == 'e' || s[mantissa] == 'E') && start
        < digits_end(s, start) && digits_end(s, start) == s.len()))
}

/// The text is a number: a sign or none, then digits, or the name of an
/// infinity or of the value that is no number.
pub open spec fn is_number_literal(s: Seq<char>) -> bool {
    let t = s.skip(sign_end(s, 0));
    is_unsigned(t) || is_word(t, "inf"@) || is_word(t, "infinity"@) || is_word(t, "nan"@)
}

fn scan_digits(s: &[char], from: usize) -> (r: usize)
    requires
        from <= s@.len(),
    ensures
        r == digits_end(s@, from as int),
        from <= r <= s@.len(),
{
    let mut i: usize = from;
    while i < s.len() && 48 <= s[i] as u32 && s[i] as u32 <= 57
        invariant
            from <= i <= s@.len(),
            digits_end(s@, from as int) == digits_end(s@, i as int),
        decreases s@.len() - i,
    {
        i += 1;
    }
    i
}

fn scan_sign(s: &[char], from: usize) -> (r: usize)
    requires
        from <= s@.len(),
    ensures
        r == sign_end(s@, from as int),
        from <= r <= s@.len(),
{
    if from < s.len() && (s[from] == '+' || s[from] == '-') {
        from + 1
    } else {
        from
    }
}

fn spells(s: &[char], w: &str) -> (r: bool)
    ensures
        r == is_word(s@, w@),
{
    let wc = chars_of(w);
    if s.len() != wc.len() {
        return false;
    }
    for i in 0..s.len()
        invariant
            wc@ == w@,
            s@.len() == wc@.len(),
            forall|j: int| 0 <= j < i ==> #[trigger] same_letter(s@[j], w@[j]),
    {
        let c = s[i];
        if !(c == wc[i] || (65 <= c as u32 && c as u32 <= 90 && c as u32 + 32 == wc[i] as u32)) {
            assert(!same_letter(s@[i as int], w@[i as int]));
            return false;
        }
    }
    true
}

fn scan_unsigned(s: &[char]) -> (r: bool)
    ensures
        r == is_unsigned(s@),
{
    let whole = scan_digits(s, 0);
    let point = if whole < s.len() && s[whole] == '.' {
        whole + 1
    } else {
        whole
    };
    let mantissa = if point > whole {
        scan_digits(s, point)
    } else {
        whole
    };
    if !(whole > 0 || mantissa > point) {
        return false;
    }
    if mantissa == s.len() {
        return true;
    }
    if s[mantissa] != 'e' && s[mantissa] != 'E' {
        return false;
    }
    let start = scan_sign(s, mantissa + 1);
    let end = scan_digits(s, start);
    start < end && end == s.len()
}

/// A value that is put in without quotes: a number. Truth values are not; there
/// are attributes that take them as strings only.
pub fn literal_should_be_unquoted(v: &str) -> (r: bool)
    ensures
        r == is_number_literal(v@),
{
    let chars = chars_of(v);
    let from = scan_sign(chars.as_slice(), 0);
    let rest = crate::text::slice_sub(chars.as_slice(), from, chars.len());
    assert(rest@ =~= v@.skip(sign_end(v@, 0)));
    let t = rest.as_slice();
    scan_unsigned(t) || spells(t, "inf") || spells(t, "infinity") || spells(t, "nan")
}

// ---------------------------------------------------------------------
// Values of attributes

/// A value as it is written: a number bare, anything else in quotes.
pub open spec fn written_value(v: Seq<char>) -> Seq<char> {
    if is_number_literal(v) {
        v
    } else {
        "\""@ + v + "\""@
    }
}

pub open spec fn value_item() -> spec_fn(Seq<char>) -> ItemV {
    |v: Seq<char>|
        ItemV {
            detail: Some("valid value"@),
            insert_text: Some(written_value(v)),
            ..plain_item(written_value(v), ItemKind::EnumMember)
        }
}

pub open spec fn either_schema(schemas: Seq<SchemaEntry>, ty: Seq<char>) -> Option<
    crate::schema::ResourceSchema,
> {
    match resource_schema(schemas, ty) {
        Some(s) => Some(s),
        None => data_source_schema(schemas, ty),
    }
}

/// The values that an attribute may have.
pub open spec fn allowed_values(state: StateStore, ty: Seq<char>, attr: Seq<char>) -> Seq<Seq<char>> {
    match either_schema(state.schemas@, ty) {
        Some(s) => match lookup(s.block.attributes@, attr) {
            Some(a) => match a.allowed_values {
                Some(v) => texts(v@),
                None => Seq::empty(),
            },
            None => Seq::empty(),
        },
        None => Seq::empty(),
    }
}

/// Items that keep their order: each has its index at the front of its place.
pub open spec fn numbered(lead: Seq<char>, from: nat, items: Seq<ItemV>) -> Seq<ItemV> {
    Seq::new(
        items.len(),
        |i: int|
            ItemV {
                sort_text: Some(lead + padded((from + i) as nat) + "_"@ + items[i].label),
                ..items[i]
            },
    )
}

fn number_items(lead: &str, items: &Vec<CompletionItem>) -> (r: Vec<CompletionItem>)
    ensures
        items_view(r@) == numbered(lead@, 0, items_view(items@)),
{
    let ghost all = numbered(lead@, 0, items_view(items@));
    let mut out = no_items();
    assert(items_view(out@) =~= all.take(0));
    for i in 0..items.len()
        invariant
            all == numbered(lead@, 0, items_view(items@)),
            items_view(out@) == all.take(i as int),
    {
        let number = padded_text(i as u128);
        let head = concat2(lead, number.as_str());
        let place = concat3(head.as_str(), "_", items[i].label.as_str());
        let item = items[i].duplicate().with_sort(place);
        push_item(&mut out, item);
        assert(items_view(out@) =~= all.take(i + 1));
    }
    assert(all.take(items@.len() as int) =~= all);
    out
}

fn render_values(v: &Vec<String>) -> (r: Vec<CompletionItem>)
    ensures
        items_view(r@) == each(texts(v@), value_item()),
{
    let ghost all = each(texts(v@), value_item());
    let mut out = no_items();
    assert(items_view(out@) =~= all.take(0));
    for i in 0..v.len()
        invariant
            all == each(texts(v@), value_item()),
            items_view(out@) == all.take(i as int),
    {
        let value = v[i].as_str();
        assert(texts(v@)[i as int] == value@);
        let text = if literal_should_be_unquoted(value) {
            value.to_owned()
        } else {
            concat3("\"", value, "\"")
        };
        let mut item = CompletionItem::new(text.as_str(), ItemKind::EnumMember);
        item.detail = Some("valid value".to_owned());
        item.insert_text = Some(text);
        assert(item@ =~= value_item()(value@));
        push_item(&mut out, item);
        assert(items_view(out@) =~= all.take(i + 1));
    }
    assert(all.take(v@.len() as int) =~= all);
    out
}

/// The values that an attribute is known to take.
pub fn allowed_value_items(state: &StateStore, ty: &str, attr_name: &str) -> (r: Vec<
    CompletionItem,
>)
    ensures
        items_view(r@) == each(allowed_values(*state, ty@, attr_name@), value_item()),
{
    let schema = match find_resource_schema(&state.schemas, ty) {
        Some(s) => Some(s),
        None => find_data_source_schema(&state.schemas, ty),
    };
    if let Some(s) = schema {
        if let Some(a) = find_entry(&s.block.attributes, attr_name) {
            if let Some(v) = &a.allowed_values {
                return render_values(v);
            }
        }
    }
    let none = no_items();
    assert(items_view(none@) =~= each(Seq::<Seq<char>>::empty(), value_item()));
    none
}

/// The offer of a reference.
pub open spec fn ref_item(lead: Seq<char>, tail: Seq<char>, kind: ItemKind, detail: Seq<char>) -> spec_fn(
    Seq<char>,
) -> ItemV {
    |name: Seq<char>| ItemV { detail: Some(detail), ..plain_item(lead + name + tail, kind) }
}

fn render_refs(names: &Vec<String>, lead: &str, tail: &str, kind: ItemKind, detail: &str) -> (r: Vec<
    CompletionItem,
>)
    ensures
        items_view(r@) == each(texts(names@), ref_item(lead@, tail@, kind, detail@)),
{
    let ghost all = each(texts(names@), ref_item(lead@, tail@, kind, detail@));
    let mut out = no_items();
    assert(items_view(out@) =~= all.take(0));
    for i in 0..names.len()
        invariant
            all == each(texts(names@), ref_item(lead@, tail@, kind, detail@)),
            items_view(out@) == all.take(i as int),
    {
        assert(texts(names@)[i as int] == names@[i as int]@);
        let label = concat3(lead, names[i].as_str(), tail);
        let mut item = CompletionItem::new(label.as_str(), kind);
        item.detail = Some(detail.to_owned());
        assert(item@ =~= ref_item(lead@, tail@, kind, detail@)(names@[i as int]@));
        push_item(&mut out, item);
        assert(items_view(out@) =~= all.take(i + 1));
    }
    assert(all.take(names@.len() as int) =~= all);
    out
}

/// The resources and data sources of the type that an attribute refers to.
pub open spec fn target_refs(state: StateStore, ty: Seq<char>, attr: Seq<char>) -> Seq<ItemV> {
    match referenced_type(ty, attr) {
        Some(target) => each(
            resource_names(state.documents@, None, target, false),
            ref_item(
                target + "."@,
                output_suffix(attr),
                ItemKind::Reference,
                "resource "@ + target,
            ),
        ) + each(
            resource_names(state.documents@, None, target, true),
            ref_item(
                "data."@ + target + "."@,
                output_suffix(attr),
                ItemKind::Reference,
                "data source "@ + target,
            ),
        ),
        None => Seq::empty(),
    }
}

/// The variables and the locals of all documents.
pub open spec fn value_refs(state: StateStore) -> Seq<ItemV> {
    each(
        declared_names(state.documents@, None, SymbolField::Variables),
        ref_item("var."@, ""@, ItemKind::Variable, "variable"@),
    ) + each(
        declared_names(state.documents@, None, SymbolField::Locals),
        ref_item("local."@, ""@, ItemKind::Variable, "local"@),
    )
}

/// What an attribute's value may be, the most fitting first.
pub open spec fn value_offers(state: StateStore, ty: Seq<char>, attr: Seq<char>) -> Seq<ItemV> {
    each(allowed_values(state, ty, attr), value_item()) + target_refs(state, ty, attr) + value_refs(
        state,
    )
}

/// An item at the end of the order.
pub open spec fn behind(lead: Seq<char>) -> spec_fn(ItemV) -> ItemV {
    |x: ItemV| ItemV { sort_text: Some(lead + x.label), ..x }
}

pub open spec fn attribute_values(state: StateStore, ty: Seq<char>, attr: Seq<char>) -> Seq<ItemV> {
    let offers = value_offers(state, ty, attr);
    numbered(""@, 0, offers) + each(
        function_items(state.functions@),
        behind("9"@ + padded(offers.len()) + "_"@),
    )
}

fn put_behind(items: &Vec<CompletionItem>, lead: &str) -> (r: Vec<CompletionItem>)
    ensures
        items_view(r@) == each(items_view(items@), behind(lead@)),
{
    let ghost all = each(items_view(items@), behind(lead@));
    let mut out = no_items();
    assert(items_view(out@) =~= all.take(0));
    for i in 0..items.len()
        invariant
            all == each(items_view(items@), behind(lead@)),
            items_view(out@) == all.take(i as int),
    {
        let item = items[i].duplicate().with_sort(concat2(lead, items[i].label.as_str()));
        push_item(&mut out, item);
        assert(items_view(out@) =~= all.take(i + 1));
    }
    assert(all.take(items@.len() as int) =~= all);
    out
}

fn list_target_refs(state: &StateStore, ty: &str, attr: &str) -> (r: Vec<CompletionItem>)
    ensures
        items_view(r@) == target_refs(*state, ty@, attr@),
{
    let target = match referenced_resource_type(ty, attr) {
        Some(t) => t,
        None => {
            return no_items();
        },
    };
    let tail = output_attribute(attr);
    let resources = list_resource_names(state, None, target, false);
    let mut out = render_refs(
        &resources,
        concat2(target, ".").as_str(),
        tail,
        ItemKind::Reference,
        concat2("resource ", target).as_str(),
    );
    let sources = list_resource_names(state, None, target, true);
    let more = render_refs(
        &sources,
        concat3("data.", target, ".").as_str(),
        tail,
        ItemKind::Reference,
        concat2("data source ", target).as_str(),
    );
    append_items(&mut out, more);
    out
}

fn list_value_refs(state: &StateStore) -> (r: Vec<CompletionItem>)
    ensures
        items_view(r@) == value_refs(*state),
{
    let variables = list_declared_names(state, None, SymbolField::Variables);
    let mut out = render_refs(&variables, "var.", "", ItemKind::Variable, "variable");
    let locals = list_declared_names(state, None, SymbolField::Locals);
    append_items(&mut out, render_refs(&locals, "local.", "", ItemKind::Variable, "local"));
    out
}

/// What is offered as the value of an attribute of a resource.
pub fn attribute_value_items(state: &StateStore, ty: &str, attr_name: &str) -> (r: Vec<
    CompletionItem,
>)
    ensures
        items_view(r@) == attribute_values(*state, ty@, attr_name@),
{
    let mut offers = allowed_value_items(state, ty, attr_name);
    append_items(&mut offers, list_target_refs(state, ty, attr_name));
    append_items(&mut offers, list_value_refs(state));
    assert(items_view(offers@) =~= value_offers(*state, ty@, attr_name@));
    assert(items_view(offers@).len() == offers@.len());
    let mut out = number_items("", &offers);
    let number = padded_text(offers.len() as u128);
    let lead = concat3("9", number.as_str(), "_");
    let functions = function_name_items(state);
    append_items(&mut out, put_behind(&functions, lead.as_str()));
    out
}

// ---------------------------------------------------------------------
// The start of an expression

pub open spec fn root_item(root: Seq<char>, detail: Seq<char>) -> ItemV {
    ItemV {
        sort_text: Some("2_"@ + root),
        ..insert_item(
            root,
            ItemKind::Keyword,
            detail,
            root + "."@,
            InsertFormat::PlainText,
        )
    }
}

/// The namespaces that references start with.
pub open spec fn namespace_roots() -> Seq<ItemV> {
    seq![
        root_item("each"@, "for_each iteration namespace"@),
        root_item("count"@, "count.index namespace"@),
        root_item("path"@, "path.module / path.root / path.cwd"@),
        root_item("self"@, "current resource (inside provisioners)"@),
        root_item("data"@, "data source namespace"@),
        root_item("terraform"@, "terraform.workspace namespace"@),
    ]
}

fn push_root(out: &mut Vec<CompletionItem>, root: &str, detail: &str)
    ensures
        items_view(final(out)@) == items_view(old(out)@).push(root_item(root@, detail@)),
{
    let item = CompletionItem::inserting(
        root,
        ItemKind::Keyword,
        detail.to_owned(),
        concat2(root, "."),
        InsertFormat::PlainText,
    ).with_sort(concat2("2_", root));
    push_item(out, item);
}

fn list_namespace_roots() -> (r: Vec<CompletionItem>)
    ensures
        items_view(r@) == namespace_roots(),
{
    let mut out = no_items();
    push_root(&mut out, "each", "for_each iteration namespace");
    push_root(&mut out, "count", "count.index namespace");
    push_root(&mut out, "path", "path.module / path.root / path.cwd");
    push_root(&mut out, "self", "current resource (inside provisioners)");
    push_root(&mut out, "data", "data source namespace");
    push_root(&mut out, "terraform", "terraform.workspace namespace");
    assert(items_view(out@) =~= namespace_roots());
    out
}

pub open spec fn root_refs(state: StateStore, uri: DocUri) -> Seq<ItemV> {
    value_refs(state) + each(
        declared_names(state.documents@, opt_view(uri.dir), SymbolField::Modules),
        ref_item("module."@, ""@, ItemKind::Module, "module"@),
    )
}

/// What an expression can start with: forms, references, namespaces, functions.
pub open spec fn expression_roots(state: StateStore, uri: DocUri) -> Seq<ItemV> {
    expression_scaffolds() + numbered("1"@, 0, root_refs(state, uri)) + namespace_roots() + each(
        function_items(state.functions@),
        behind("9_"@),
    )
}

pub fn expression_root_items(state: &StateStore, uri: &DocUri) -> (r: Vec<CompletionItem>)
    ensures
        items_view(r@) == expression_roots(*state, *uri),
{
    let mut out = expression_scaffold_items();
    let mut refs = list_value_refs(state);
    let modules = module_names_in_scope(state, uri);
    append_items(&mut refs, render_refs(&modules, "module.", "", ItemKind::Module, "module"));
    append_items(&mut out, number_items("1", &refs));
    append_items(&mut out, list_namespace_roots());
    let functions = function_name_items(state);
    append_items(&mut out, put_behind(&functions, "9_"));
    out
}

// ---------------------------------------------------------------------
// Laws

/// What is put in for a known value is a literal of the language: a number, or
/// a string in quotes.
pub proof fn values_are_quoted_unless_numbers(v: Seq<char>)
    ensures
        is_number_literal(v) ==> written_value(v) == v,
        !is_number_literal(v) ==> written_value(v).len() == v.len() + 2 && written_value(v)[0]
            == '"' && written_value(v).last() == '"' && written_value(v).subrange(
            1,
            v.len() as int + 1,
        ) == v,
{
    reveal_strlit("\"");
    if !is_number_literal(v) {
        assert(written_value(v).subrange(1, v.len() as int + 1) =~= v);
    }
}

} // verus!
