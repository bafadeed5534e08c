//! Completion in files of variable values and in test files.

use crate::builtin::{builtin_at, find_builtin, find_block, block_entry, BuiltinSchema, Language};
use crate::completion_body::no_items;
use crate::completion_builtin::{
    builtin_body_items, builtin_items, test_top_level, tftest_top_level_items,
};
use crate::completion_cursor::{
    attr_key, block_path, body_filter, compute_body_filter, is_listed, list_keys, opt_body,
    tftest_block_path,
};
use crate::completion_item::{
    insert_item, items_view, push_item, CompletionItem, InsertFormat, ItemKind, ItemV,
};
use crate::completion_symbols::{
    declared_names, list_declared_names, opt_dir, parent_dir, SymbolField,
};
use crate::hcl::{
    attributes, block_label, block_pointees, blocks_named, label_at, list_blocks_named, Block, Body,
};
use crate::order::{name_set, sort_dedup_names};
use crate::seqs::{each, filter_map, find_map, lemma_filter_map_step, lemma_take_full};
use crate::state::{DocUri, StateStore};
use crate::text::{
    char_is_alphanumeric, chars_of, concat2, ends_with, find_char, is_alphanumeric, opt_view,
    slice_find_char, slice_sub, starts_with, str_ends_with, str_eq, texts,
};
use vstd::prelude::*;

verus! {

// ---------------------------------------------------------------------
// Variable values

pub open spec fn is_tfvars(path: Seq<char>) -> bool {
    ends_with(path, ".tfvars"@) || ends_with(path, ".tfvars.json"@)
}

/// A file that gives variables their values.
pub fn is_tfvars_uri(uri: &DocUri) -> (r: bool)
    ensures
        r == is_tfvars(uri.path@),
{
    str_ends_with(uri.path.as_str(), ".tfvars") || str_ends_with(uri.path.as_str(), ".tfvars.json")
}

pub open spec fn assigned_keys(body: Option<Body>) -> Seq<Seq<char>> {
    match body {
        Some(b) => each(attributes(b), attr_key()),
        None => Seq::empty(),
    }
}

pub open spec fn tfvar_item(assigned: Seq<Seq<char>>) -> spec_fn(Seq<char>) -> Option<ItemV> {
    |name: Seq<char>|
        if assigned.contains(name) {
            None
        } else {
            Some(
                insert_item(
                    name,
                    ItemKind::Variable,
                    "variable"@,
                    name + " = ${1}"@,
                    InsertFormat::Snippet,
                ),
            )
        }
}

/// The variables of the module that have no value in the file yet. Behind an
/// equals sign nothing is offered.
pub open spec fn tfvars_items(
    state: StateStore,
    uri: DocUri,
    body: Option<Body>,
    line_prefix: Seq<char>,
) -> Seq<ItemV> {
    if find_char(line_prefix, '=', 0) is Some {
        Seq::empty()
    } else {
        filter_map(
            declared_names(state.documents@, opt_view(uri.dir), SymbolField::Variables),
            tfvar_item(assigned_keys(body)),
        )
    }
}

pub fn tfvars_completion_items(
    state: &StateStore,
    uri: &DocUri,
    body: Option<&Body>,
    line_prefix: &str,
) -> (r: Vec<CompletionItem>)
    ensures
        items_view(r@) == tfvars_items(*state, *uri, opt_body(body), line_prefix@),
{
    let prefix = chars_of(line_prefix);
    if slice_find_char(prefix.as_slice(), '=', 0).is_some() {
        return no_items();
    }
    let assigned: Vec<String> = match body {
        Some(b) => list_keys(b),
        None => Vec::new(),
    };
    assert(texts(assigned@) =~= assigned_keys(opt_body(body)));
    let names = list_declared_names(state, parent_dir(uri), SymbolField::Variables);
    let ghost s = texts(names@);
    let ghost f = tfvar_item(texts(assigned@));
    let mut out = no_items();
    proof {
        lemma_take_full(s);
        assert(s.len() == names@.len());
    }
    for i in 0..names.len()
        invariant
            s == texts(names@),
            s.len() == names@.len(),
            f == tfvar_item(texts(assigned@)),
            items_view(out@) == filter_map(s.take(i as int), f),
    {
        proof {
            lemma_filter_map_step(s, f, i as int);
            assert(s[i as int] == names@[i as int]@);
        }
        let name = names[i].as_str();
        if !is_listed(&assigned, name) {
            let item = CompletionItem::inserting(
                name,
                ItemKind::Variable,
                "variable".to_owned(),
                concat2(name, " = ${1}"),
                InsertFormat::Snippet,
            );
            push_item(&mut out, item);
        }
    }
    out
}

// ---------------------------------------------------------------------
// References in test files

pub open spec fn is_token_char(c: char) -> bool {
    char_is_alphanumeric(c) || c == '_' || c == '-' || c == '.'
}

/// Where the token that ends at `k` starts.
pub open spec fn token_start(s: Seq<char>, k: int) -> int
    decreases k,
{
    if 0 < k <= s.len() && is_token_char(s[k - 1]) {
        token_start(s, k - 1)
    } else {
        k
    }
}

/// The token under the cursor.
pub open spec fn last_token(s: Seq<char>) -> Seq<char> {
    s.skip(token_start(s, s.len() as int))
}

/// What follows `root.` in a token, where that is one name.
pub open spec fn partial_under(token: Seq<char>, root: Seq<char>) -> Option<Seq<char>> {
    if starts_with(token, root + "."@) && find_char(token.skip(root.len() as int + 1), '.', 0)
        is None {
        Some(token.skip(root.len() as int + 1))
    } else {
        None
    }
}

/// The namespace of a reference in a test file and what is typed behind it.
pub open spec fn reference_prefix(s: Seq<char>) -> Option<(Seq<char>, Seq<char>)> {
    let token = last_token(s);
    match partial_under(token, "var"@) {
        Some(p) => Some(("var"@, p)),
        None => match partial_under(token, "output"@) {
            Some(p) => Some(("output"@, p)),
            None => match partial_under(token, "run"@) {
                Some(p) => Some(("run"@, p)),
                None => None,
            },
        },
    }
}

/// Where in a token the part behind `root.` starts, where that is one name.
fn find_partial(token: &[char], root: &str) -> (r: Option<usize>)
    ensures
        match r {
            Some(i) => i <= token@.len() && partial_under(token@, root@) == Some(
                token@.skip(i as int),
            ),
            None => partial_under(token@, root@) is None,
        },
{
    proof {
        reveal_strlit(".");
        assert("."@.len() == 1);
    }
    let lead = concat2(root, ".");
    let lc = chars_of(lead.as_str());
    let n = lc.len();
    if n > token.len() || !crate::text::slice_occurs_at(token, lc.as_slice(), 0) {
        return None;
    }
    let rest = slice_sub(token, n, token.len());
    assert(rest@ =~= token@.skip(root@.len() as int + 1));
    if slice_find_char(rest.as_slice(), '.', 0).is_some() {
        return None;
    }
    Some(n)
}

pub fn tftest_reference_prefix(line_prefix: &str) -> (r: Option<(&'static str, &str)>)
    ensures
        match r {
            Some(p) => reference_prefix(line_prefix@) == Some((p.0@, p.1@)),
            None => reference_prefix(line_prefix@) is None,
        },
{
    let chars = chars_of(line_prefix);
    let ghost s = line_prefix@;
    let n: usize = chars.len();
    let mut k: usize = n;
    while k > 0 && (is_alphanumeric(chars[k - 1]) || chars[k - 1] == '_' || chars[k - 1] == '-'
        || chars[k - 1] == '.')
        invariant
            chars@ == s,
            k <= s.len(),
            token_start(s, s.len() as int) == token_start(s, k as int),
        decreases k,
    {
        k -= 1;
    }
    let token = slice_sub(chars.as_slice(), k, n);
    let ghost t = last_token(s);
    assert(token@ =~= t);
    if let Some(i) = find_partial(token.as_slice(), "var") {
        let p = line_prefix.substring_char(k + i, n);
        assert(p@ =~= t.skip(i as int));
        return Some(("var", p));
    }
    if let Some(i) = find_partial(token.as_slice(), "output") {
        let p = line_prefix.substring_char(k + i, n);
        assert(p@ =~= t.skip(i as int));
        return Some(("output", p));
    }
    if let Some(i) = find_partial(token.as_slice(), "run") {
        let p = line_prefix.substring_char(k + i, n);
        assert(p@ =~= t.skip(i as int));
        return Some(("run", p));
    }
    None
}

pub open spec fn symbol_detail(field: SymbolField) -> Seq<char> {
    if field == SymbolField::Outputs {
        "module output"@
    } else {
        "module variable"@
    }
}

pub open spec fn tested_item(field: SymbolField) -> spec_fn(Seq<char>) -> ItemV {
    |name: Seq<char>|
        insert_item(
            name,
            ItemKind::Variable,
            symbol_detail(field),
            name,
            InsertFormat::PlainText,
        )
}

/// The variables, or the outputs, of the module under test.
pub open spec fn tested_items(state: StateStore, dir: Option<Seq<char>>, field: SymbolField) -> Seq<
    ItemV,
> {
    each(declared_names(state.documents@, dir, field), tested_item(field))
}

pub fn tftest_mut_symbol_items(state: &StateStore, dir: Option<&str>, field: SymbolField) -> (r: Vec<
    CompletionItem,
>)
    ensures
        items_view(r@) == tested_items(*state, opt_dir(dir), field),
{
    let names = list_declared_names(state, dir, field);
    let ghost s = texts(names@);
    let ghost all = tested_items(*state, opt_dir(dir), field);
    let mut out = no_items();
    assert(s.len() == names@.len());
    assert(items_view(out@) =~= all.take(0));
    for i in 0..names.len()
        invariant
            s == texts(names@),
            s.len() == names@.len(),
            all == each(s, tested_item(field)),
            items_view(out@) == all.take(i as int),
    {
        let name = names[i].as_str();
        assert(s[i as int] == name@);
        let detail = if field == SymbolField::Outputs {
            "module output"
        } else {
            "module variable"
        };
        let item = CompletionItem::inserting(
            name,
            ItemKind::Variable,
            detail.to_owned(),
            name.to_owned(),
            InsertFormat::PlainText,
        );
        push_item(&mut out, item);
        assert(items_view(out@) =~= all.take(i + 1));
    }
    assert(all.take(names@.len() as int) =~= all);
    out
}

pub open spec fn run_label() -> spec_fn(Block) -> Option<Seq<char>> {
    |b: Block| label_at(b, 0)
}

pub open spec fn run_item() -> spec_fn(Seq<char>) -> ItemV {
    |name: Seq<char>|
        insert_item(name, ItemKind::Field, "run block"@, name, InsertFormat::PlainText)
}

/// The labels of the `run` blocks of a test file.
pub open spec fn run_items(body: Option<Body>) -> Seq<ItemV> {
    match body {
        Some(b) => each(name_set(filter_map(blocks_named(b, "run"@), run_label())), run_item()),
        None => Seq::empty(),
    }
}

fn list_run_labels(body: &Body) -> (r: Vec<String>)
    ensures
        texts(r@) == filter_map(blocks_named(*body, "run"@), run_label()),
{
    let list = list_blocks_named(body, "run");
    let ghost s = blocks_named(*body, "run"@);
    let ghost f = run_label();
    let mut out: Vec<String> = Vec::new();
    proof {
        lemma_take_full(s);
    }
    assert(texts(out@) =~= filter_map(s.take(0), f));
    for i in 0..list.len()
        invariant
            s == blocks_named(*body, "run"@),
            block_pointees(list@) == s,
            f == run_label(),
            texts(out@) == filter_map(s.take(i as int), f),
    {
        proof {
            lemma_filter_map_step(s, f, i as int);
            assert(s[i as int] == *list@[i as int]);
        }
        let ghost before = texts(out@);
        if let Some(label) = block_label(list[i], 0) {
            let x = label.to_owned();
            out.push(x);
            assert(texts(out@) =~= before.push(x@));
        }
    }
    out
}

pub fn tftest_run_label_items(body: Option<&Body>) -> (r: Vec<CompletionItem>)
    ensures
        items_view(r@) == run_items(opt_body(body)),
{
    let b = match body {
        Some(b) => b,
        None => {
            return no_items();
        },
    };
    let labels = list_run_labels(b);
    let names = sort_dedup_names(&labels);
    let ghost s = texts(names@);
    let ghost all = run_items(opt_body(body));
    let mut out = no_items();
    assert(s.len() == names@.len());
    assert(items_view(out@) =~= all.take(0));
    for i in 0..names.len()
        invariant
            s == texts(names@),
            s.len() == names@.len(),
            all == each(s, run_item()),
            items_view(out@) == all.take(i as int),
    {
        let name = names[i].as_str();
        assert(s[i as int] == name@);
        let item = CompletionItem::inserting(
            name,
            ItemKind::Field,
            "run block".to_owned(),
            name.to_owned(),
            InsertFormat::PlainText,
        );
        push_item(&mut out, item);
        assert(items_view(out@) =~= all.take(i + 1));
    }
    assert(all.take(names@.len() as int) =~= all);
    out
}

pub open spec fn reference_items(
    state: StateStore,
    dir: Option<Seq<char>>,
    body: Option<Body>,
    line_prefix: Seq<char>,
) -> Option<Seq<ItemV>> {
    match reference_prefix(line_prefix) {
        Some((root, _)) => if root == "var"@ {
            Some(tested_items(state, dir, SymbolField::Variables))
        } else if root == "output"@ {
            Some(tested_items(state, dir, SymbolField::Outputs))
        } else {
            Some(run_items(body))
        },
        None => None,
    }
}

pub open spec fn opt_items(v: Option<Vec<CompletionItem>>) -> Option<Seq<ItemV>> {
    match v {
        Some(v) => Some(items_view(v@)),
        None => None,
    }
}

/// The names that fit a reference in a test file, where the cursor is on one.
pub fn tftest_reference_items(
    state: &StateStore,
    dir: Option<&str>,
    body: Option<&Body>,
    line_prefix: &str,
) -> (r: Option<Vec<CompletionItem>>)
    ensures
        opt_items(r) == reference_items(*state, opt_dir(dir), opt_body(body), line_prefix@),
{
    match tftest_reference_prefix(line_prefix) {
        Some((root, _)) => {
            if str_eq(root, "var") {
                Some(tftest_mut_symbol_items(state, dir, SymbolField::Variables))
            } else if str_eq(root, "output") {
                Some(tftest_mut_symbol_items(state, dir, SymbolField::Outputs))
            } else {
                Some(tftest_run_label_items(body))
            }
        },
        None => None,
    }
}

// ---------------------------------------------------------------------
// Blocks of test files

/// The body that the first `n` names of a path of test blocks lead to: each
/// must be a block of the one before.
pub open spec fn test_schema(lang: Language, path: Seq<Seq<char>>, n: int) -> Option<BuiltinSchema>
    decreases n,
{
    if n <= 0 {
        None
    } else if n == 1 {
        builtin_at(lang.tests@, path.take(1))
    } else {
        match test_schema(lang, path, n - 1) {
            Some(s) => match find_map(s.blocks@, block_entry(path[n - 1])) {
                Some(_) => builtin_at(lang.tests@, path.take(n)),
                None => None,
            },
            None => None,
        }
    }
}

fn path_prefix(path: &Vec<String>, n: usize) -> (r: Vec<String>)
    requires
        n <= path@.len(),
    ensures
        texts(r@) == texts(path@).take(n as int),
{
    let mut out: Vec<String> = Vec::new();
    for i in 0..n
        invariant
            n <= path@.len(),
            out@.len() == i,
            forall|j: int| 0 <= j < i ==> (#[trigger] out@[j])@ == path@[j]@,
    {
        out.push(path[i].clone());
    }
    assert(texts(out@) =~= texts(path@).take(n as int));
    out
}

proof fn lemma_no_schema(lang: Language, path: Seq<Seq<char>>, n: int, m: int)
    requires
        1 <= n <= m,
        test_schema(lang, path, n) is None,
    ensures
        test_schema(lang, path, m) is None,
    decreases m - n,
{
    if n < m {
        assert(test_schema(lang, path, n + 1) is None);
        lemma_no_schema(lang, path, n + 1, m);
    }
}

pub open spec fn opt_schema(s: Option<&BuiltinSchema>) -> Option<BuiltinSchema> {
    match s {
        Some(s) => Some(*s),
        None => None,
    }
}

pub fn tftest_resolve_schema<'a>(lang: &'a Language, path: &Vec<String>) -> (r: Option<
    &'a BuiltinSchema,
>)
    ensures
        opt_schema(r) == test_schema(*lang, texts(path@), path@.len() as int),
{
    if path.len() == 0 {
        return None;
    }
    let ghost p = texts(path@);
    let mut schema = match find_builtin(&lang.tests, &path_prefix(path, 1)) {
        Some(s) => s,
        None => {
            proof {
                lemma_no_schema(*lang, p, 1, path@.len() as int);
            }
            return None;
        },
    };
    let mut n: usize = 1;
    while n < path.len()
        invariant
            p == texts(path@),
            1 <= n <= path@.len(),
            Some(*schema) == test_schema(*lang, p, n as int),
        decreases path@.len() - n,
    {
        assert(p[n as int] == path@[n as int]@);
        let known = find_block(&schema.blocks, path[n].as_str()).is_some();
        let next = if known {
            find_builtin(&lang.tests, &path_prefix(path, n + 1))
        } else {
            None
        };
        match next {
            Some(s) => {
                schema = s;
            },
            None => {
                proof {
                    lemma_no_schema(*lang, p, n + 1, path@.len() as int);
                }
                return None;
            },
        }
        n += 1;
    }
    Some(schema)
}

pub open spec fn test_path(body: Option<Body>, offset: int) -> Seq<Seq<char>> {
    match body {
        Some(b) => block_path(b, offset),
        None => Seq::empty(),
    }
}

/// What is offered in a test file: names for a reference, blocks at the top
/// level, and in a block what it may hold.
pub open spec fn test_items(
    state: StateStore,
    lang: Language,
    dir: Option<Seq<char>>,
    body: Option<Body>,
    line_prefix: Seq<char>,
    offset: int,
) -> Seq<ItemV> {
    match reference_items(state, dir, body, line_prefix) {
        Some(items) => items,
        None => {
            let path = test_path(body, offset);
            if path.len() == 0 {
                test_top_level()
            } else {
                match test_schema(lang, path, path.len() as int) {
                    Some(s) => builtin_items(s, body_filter(body, offset)),
                    None => Seq::empty(),
                }
            }
        },
    }
}

/// Completion in a test file; `dir` is the directory of the module under test.
pub fn tftest_completion_items(
    state: &StateStore,
    lang: &Language,
    dir: Option<&str>,
    body: Option<&Body>,
    line_prefix: &str,
    offset: usize,
) -> (r: Vec<CompletionItem>)
    ensures
        items_view(r@) == test_items(
            *state,
            *lang,
            opt_dir(dir),
            opt_body(body),
            line_prefix@,
            offset as int,
        ),
{
    if let Some(items) = tftest_reference_items(state, dir, body, line_prefix) {
        return items;
    }
    let path: Vec<String> = match body {
        Some(b) => tftest_block_path(b, offset),
        None => Vec::new(),
    };
    assert(texts(path@) =~= test_path(opt_body(body), offset as int));
    assert(texts(path@).len() == path@.len());
    if path.len() == 0 {
        return tftest_top_level_items();
    }
    match tftest_resolve_schema(lang, &path) {
        Some(schema) => {
            let filter = compute_body_filter(body, offset);
            builtin_body_items(schema, &filter)
        },
        None => no_items(),
    }
}

// ---------------------------------------------------------------------
// Laws

/// A value that is set in a file of variable values is not offered there again.
pub proof fn set_variables_are_not_offered(
    state: StateStore,
    uri: DocUri,
    body: Option<Body>,
    line_prefix: Seq<char>,
    i: int,
)
    requires
        0 <= i < tfvars_items(state, uri, body, line_prefix).len(),
    ensures
        !assigned_keys(body).contains(tfvars_items(state, uri, body, line_prefix)[i].label),
{
    let names = declared_names(state.documents@, opt_view(uri.dir), SymbolField::Variables);
    lemma_tfvar_labels(names, assigned_keys(body), i);
}

proof fn lemma_tfvar_labels(names: Seq<Seq<char>>, assigned: Seq<Seq<char>>, i: int)
    requires
        0 <= i < filter_map(names, tfvar_item(assigned)).len(),
    ensures
        !assigned.contains(filter_map(names, tfvar_item(assigned))[i].label),
    decreases names.len(),
{
    let rest = filter_map(names.drop_last(), tfvar_item(assigned));
    if i < rest.len() {
        lemma_tfvar_labels(names.drop_last(), assigned, i);
    }
}

} // verus!
