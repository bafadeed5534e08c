//! What the findings of a document need to know of its whole module,
//! gathered once.

use crate::hcl::{
    attr_pointees, attributes, block_label, block_pointees, blocks, blocks_named, label_at,
    list_attributes, list_blocks, list_blocks_named, Attribute, Block, Body, ExprKind, Expression,
    ObjectItem, ObjectKey,
};
use crate::order::{name_set, sort_dedup_names};
use crate::providers::{list_provider_entries, provider_entries};
use crate::seqs::{
    filter_map, find_map, flat_map, keep, lemma_filter_map_step, lemma_find_map_step,
    lemma_flat_map_step, lemma_keep_step, lemma_take_full,
};
use crate::schema::{find_entry, lookup};
use crate::state::{
    find_places, name_key, places, resource_key, DocUri, DocumentState, KeyV, StateStore, SymbolKey,
    SymbolKind,
};
use crate::text::{
    chars_of, ends_with, find_char, opt_view, slice_find_char, starts_with, str_ends_with, str_eq,
    str_starts_with, string_sub, texts,
};
use vstd::prelude::*;

verus! {

/// A local module source and the directory that it leads to.
#[derive(Debug)]
pub struct ResolvedSource {
    /// The directory of the calling document.
    pub dir: String,
    pub source: String,
    /// The canonical path of the source within that directory.
    pub target: String,
}

/// What was found on disk: where sources lead, the canonical paths of
/// directories, and the names of the files in them.
#[derive(Debug)]
pub struct DiskView {
    pub sources: Vec<ResolvedSource>,
    pub canonical: Vec<(String, String)>,
    pub listings: Vec<(String, Vec<String>)>,
}

#[derive(Debug)]
pub struct ModuleSnapshot {
    pub module_dir: Option<String>,
    pub has_required_version: bool,
    pub providers_with_version: Vec<String>,
    pub used_provider_locals: Vec<String>,
    pub primary_terraform_uri: Option<String>,
    pub present_files: Vec<String>,
    pub is_root: bool,
}

/// The model of a [`ModuleSnapshot`]; the sets are in ascending order.
pub struct SnapshotV {
    pub module_dir: Option<Seq<char>>,
    pub has_required_version: bool,
    pub providers_with_version: Seq<Seq<char>>,
    pub used_provider_locals: Seq<Seq<char>>,
    pub primary_terraform_uri: Option<Seq<char>>,
    pub present_files: Seq<Seq<char>>,
    pub is_root: bool,
}

impl View for ModuleSnapshot {
    type V = SnapshotV;

    open spec fn view(&self) -> SnapshotV {
        SnapshotV {
            module_dir: opt_view(self.module_dir),
            has_required_version: self.has_required_version,
            providers_with_version: texts(self.providers_with_version@),
            used_provider_locals: texts(self.used_provider_locals@),
            primary_terraform_uri: opt_view(self.primary_terraform_uri),
            present_files: texts(self.present_files@),
            is_root: self.is_root,
        }
    }
}

// ---------------------------------------------------------------------
// The documents of a module

/// The document belongs to the module; without a directory every one does.
pub open spec fn belongs(dir: Option<Seq<char>>, d: DocumentState) -> bool {
    match dir {
        Some(dir) => opt_view(d.uri.dir) == Some(dir),
        None => true,
    }
}

/// The body of a document of the module.
pub open spec fn module_body(dir: Option<Seq<char>>) -> spec_fn(DocumentState) -> Option<
    (DocumentState, Body),
> {
    |d: DocumentState|
        match d.body {
            Some(body) => if belongs(dir, d) {
                Some((d, body))
            } else {
                None
            },
            None => None,
        }
}

/// The documents of the module that parse, with their bodies.
pub open spec fn module_bodies(docs: Seq<DocumentState>, dir: Option<Seq<char>>) -> Seq<
    (DocumentState, Body),
> {
    filter_map(docs, module_body(dir))
}

pub open spec fn body_pointees(v: Seq<(&DocumentState, &Body)>) -> Seq<(DocumentState, Body)> {
    Seq::new(v.len(), |i: int| (*v[i].0, *v[i].1))
}

fn list_module_bodies<'a>(state: &'a StateStore, dir: &Option<String>) -> (r: Vec<
    (&'a DocumentState, &'a Body),
>)
    ensures
        body_pointees(r@) == module_bodies(state.documents@, opt_view(*dir)),
{
    let ghost s = state.documents@;
    let ghost f = module_body(opt_view(*dir));
    let mut out: Vec<(&'a DocumentState, &'a Body)> = Vec::new();
    proof {
        lemma_take_full(s);
    }
    assert(body_pointees(out@) =~= filter_map(s.take(0), f));
    for i in 0..state.documents.len()
        invariant
            s == state.documents@,
            f == module_body(opt_view(*dir)),
            body_pointees(out@) == filter_map(s.take(i as int), f),
    {
        proof {
            lemma_filter_map_step(s, f, i as int);
        }
        let ghost before = body_pointees(out@);
        let d = &state.documents[i];
        if let Some(body) = &d.body {
            let own = match dir {
                Some(dir) => crate::state::is_in_dir(d, dir.as_str()),
                None => true,
            };
            if own {
                out.push((d, body));
                assert(body_pointees(out@) =~= before.push((*d, *body)));
            }
        }
    }
    out
}

// ---------------------------------------------------------------------
// `terraform` blocks

pub open spec fn sets_key(key: Seq<char>) -> spec_fn(Attribute) -> Option<Attribute> {
    |a: Attribute|
        if a.key.text@ == key {
            Some(a)
        } else {
            None
        }
}

/// A `terraform` block that sets `required_version`.
pub open spec fn versioned_block() -> spec_fn(Block) -> Option<Block> {
    |b: Block|
        if find_map(attributes(b.body), sets_key("required_version"@)) is Some {
            Some(b)
        } else {
            None
        }
}

pub open spec fn body_has_version() -> spec_fn((DocumentState, Body)) -> Option<Block> {
    |d: (DocumentState, Body)| find_map(blocks_named(d.1, "terraform"@), versioned_block())
}

fn sets(b: &Block, key: &str) -> (r: bool)
    ensures
        r == (find_map(attributes(b.body), sets_key(key@)) is Some),
{
    let list = list_attributes(&b.body);
    let ghost s = attributes(b.body);
    let ghost f = sets_key(key@);
    proof {
        lemma_take_full(s);
    }
    for i in 0..list.len()
        invariant
            attr_pointees(list@) == s,
            s == attributes(b.body),
            f == sets_key(key@),
            find_map(s, f) == find_map(s.skip(i as int), f),
    {
        proof {
            lemma_find_map_step(s, f, i as int);
            assert(s[i as int] == *list@[i as int]);
        }
        if str_eq(list[i].key.text.as_str(), key) {
            return true;
        }
    }
    false
}

fn body_sets_version(body: &Body) -> (r: bool)
    ensures
        r == (find_map(blocks_named(*body, "terraform"@), versioned_block()) is Some),
{
    let list = list_blocks_named(body, "terraform");
    let ghost s = blocks_named(*body, "terraform"@);
    let ghost f = versioned_block();
    proof {
        lemma_take_full(s);
    }
    for i in 0..list.len()
        invariant
            block_pointees(list@) == s,
            s == blocks_named(*body, "terraform"@),
            f == versioned_block(),
            find_map(s, f) == find_map(s.skip(i as int), f),
    {
        proof {
            lemma_find_map_step(s, f, i as int);
            assert(s[i as int] == *list@[i as int]);
        }
        if sets(list[i], "required_version") {
            return true;
        }
    }
    false
}

/// The key is `version`, as a name or as a string.
pub open spec fn is_version_key(k: ObjectKey) -> bool {
    match k {
        ObjectKey::Ident(i) => i.text@ == "version"@,
        ObjectKey::Expression(e) => match e.kind {
            ExprKind::Variable(v) => v@ == "version"@,
            ExprKind::Str(s) => s@ == "version"@,
            _ => false,
        },
    }
}

pub open spec fn has_version_key(items: Seq<ObjectItem>) -> bool {
    exists|i: int| 0 <= i < items.len() && is_version_key((#[trigger] items[i]).key)
}

/// The local name of an entry that sets a version.
pub open spec fn versioned_entry() -> spec_fn(Attribute) -> Option<Seq<char>> {
    |a: Attribute|
        match a.value.kind {
            ExprKind::Object(items) => if has_version_key(items@) {
                Some(a.key.text@)
            } else {
                None
            },
            _ => None,
        }
}

pub open spec fn versioned_entries() -> spec_fn((DocumentState, Body)) -> Seq<Seq<char>> {
    |d: (DocumentState, Body)| filter_map(provider_entries(d.1), versioned_entry())
}

fn version_key(k: &ObjectKey) -> (r: bool)
    ensures
        r == is_version_key(*k),
{
    match k {
        ObjectKey::Ident(i) => str_eq(i.text.as_str(), "version"),
        ObjectKey::Expression(e) => match &e.kind {
            ExprKind::Variable(v) => str_eq(v.as_str(), "version"),
            ExprKind::Str(s) => str_eq(s.as_str(), "version"),
            _ => false,
        },
    }
}

fn object_has_version(items: &Vec<ObjectItem>) -> (r: bool)
    ensures
        r == has_version_key(items@),
{
    for i in 0..items.len()
        invariant
            forall|j: int| 0 <= j < i ==> !is_version_key((#[trigger] items@[j]).key),
    {
        if version_key(&items[i].key) {
            assert(is_version_key(items@[i as int].key));
            return true;
        }
    }
    false
}

fn push_versioned_entries(out: &mut Vec<String>, body: &Body)
    ensures
        texts(final(out)@) == texts(old(out)@) + filter_map(
            provider_entries(*body),
            versioned_entry(),
        ),
{
    let list = list_provider_entries(body);
    let ghost s = provider_entries(*body);
    let ghost f = versioned_entry();
    let ghost start = texts(out@);
    proof {
        lemma_take_full(s);
    }
    assert(texts(out@) =~= start + filter_map(s.take(0), f));
    for i in 0..list.len()
        invariant
            attr_pointees(list@) == s,
            f == versioned_entry(),
            texts(out@) == start + filter_map(s.take(i as int), f),
    {
        proof {
            lemma_filter_map_step(s, f, i as int);
            assert(s[i as int] == *list@[i as int]);
        }
        let ghost before = texts(out@);
        if let ExprKind::Object(items) = &list[i].value.kind {
            if object_has_version(items) {
                out.push(list[i].key.text.clone());
                assert(texts(out@) =~= before.push(s[i as int].key.text@));
            }
        }
        assert(texts(out@) =~= start + filter_map(s.take(i + 1), f));
    }
}

/// The URI of the document, once for each of its `terraform` blocks.
pub open spec fn terraform_uris() -> spec_fn((DocumentState, Body)) -> Seq<Seq<char>> {
    |d: (DocumentState, Body)|
        Seq::new(blocks_named(d.1, "terraform"@).len(), |i: int| d.0.uri.text@)
}

// ---------------------------------------------------------------------
// Used providers

/// What stands before the first underscore.
pub open spec fn type_prefix(ty: Seq<char>) -> Seq<char> {
    match find_char(ty, '_', 0) {
        Some(i) => ty.take(i),
        None => ty,
    }
}

fn prefix_of_type(ty: &str) -> (r: String)
    ensures
        r@ == type_prefix(ty@),
{
    let c = chars_of(ty);
    match slice_find_char(c.as_slice(), '_', 0) {
        Some(i) => {
            assert(ty@.subrange(0, i as int) =~= ty@.take(i as int));
            string_sub(c.as_slice(), 0, i)
        },
        None => ty.to_owned(),
    }
}

/// The local name in `provider = aws` or `provider = aws.west`.
pub open spec fn provider_local(e: Expression) -> Option<Seq<char>> {
    match e.kind {
        ExprKind::Variable(v) => Some(v@),
        ExprKind::Traversal(t) => match t.expr.kind {
            ExprKind::Variable(v) => Some(v@),
            _ => None,
        },
        _ => None,
    }
}

fn extract_provider_local(e: &Expression) -> (r: Option<String>)
    ensures
        opt_view(r) == provider_local(*e),
{
    match &e.kind {
        ExprKind::Variable(v) => Some(v.clone()),
        ExprKind::Traversal(t) => match &t.expr.kind {
            ExprKind::Variable(v) => Some(v.clone()),
            _ => None,
        },
        _ => None,
    }
}

pub open spec fn provider_setting() -> spec_fn(Attribute) -> Option<Seq<char>> {
    |a: Attribute|
        if a.key.text@ == "provider"@ {
            provider_local(a.value)
        } else {
            None
        }
}

/// The provider that the type of a block names.
pub open spec fn type_local(b: Block) -> Seq<Seq<char>> {
    match label_at(b, 0) {
        Some(ty) => if type_prefix(ty).len() == 0 {
            Seq::empty()
        } else {
            seq![type_prefix(ty)]
        },
        None => Seq::empty(),
    }
}

/// The local names of providers that a block uses.
pub open spec fn block_locals() -> spec_fn(Block) -> Seq<Seq<char>> {
    |b: Block|
        if b.ident.text@ == "resource"@ || b.ident.text@ == "data"@ {
            type_local(b) + filter_map(attributes(b.body), provider_setting())
        } else if b.ident.text@ == "provider"@ {
            match label_at(b, 0) {
                Some(name) => seq![name],
                None => Seq::empty(),
            }
        } else {
            Seq::empty()
        }
}

/// The local names of providers that a document uses, in blocks and in calls
/// of provider-defined functions.
pub open spec fn body_locals() -> spec_fn((DocumentState, Body)) -> Seq<Seq<char>> {
    |d: (DocumentState, Body)|
        flat_map(blocks(d.1), block_locals()) + texts(d.0.function_locals@)
}

fn push_settings(out: &mut Vec<String>, b: &Block)
    ensures
        texts(final(out)@) == texts(old(out)@) + filter_map(
            attributes(b.body),
            provider_setting(),
        ),
{
    let list = list_attributes(&b.body);
    let ghost s = attributes(b.body);
    let ghost f = provider_setting();
    let ghost start = texts(out@);
    proof {
        lemma_take_full(s);
    }
    assert(texts(out@) =~= start + filter_map(s.take(0), f));
    for i in 0..list.len()
        invariant
            attr_pointees(list@) == s,
            f == provider_setting(),
            texts(out@) == start + filter_map(s.take(i as int), f),
    {
        proof {
            lemma_filter_map_step(s, f, i as int);
            assert(s[i as int] == *list@[i as int]);
        }
        let ghost before = texts(out@);
        if str_eq(list[i].key.text.as_str(), "provider") {
            if let Some(local) = extract_provider_local(&list[i].value) {
                out.push(local);
                assert(texts(out@) =~= before.push(local@));
            }
        }
        assert(texts(out@) =~= start + filter_map(s.take(i + 1), f));
    }
}

fn push_type_local(out: &mut Vec<String>, b: &Block)
    ensures
        texts(final(out)@) == texts(old(out)@) + type_local(*b),
{
    let ghost start = texts(out@);
    if let Some(ty) = block_label(b, 0) {
        let local = prefix_of_type(ty);
        if !str_eq(local.as_str(), "") {
            proof {
                reveal_strlit("");
                if local@.len() == 0 {
                    assert(local@ =~= ""@);
                }
            }
            out.push(local);
            assert(texts(out@) =~= start + seq![local@]);
            return;
        }
        proof {
            reveal_strlit("");
        }
    }
    assert(texts(out@) =~= start + Seq::<Seq<char>>::empty());
}

fn push_block_locals(out: &mut Vec<String>, b: &Block)
    ensures
        texts(final(out)@) == texts(old(out)@) + block_locals()(*b),
{
    let ghost start = texts(out@);
    if str_eq(b.ident.text.as_str(), "resource") || str_eq(b.ident.text.as_str(), "data") {
        push_type_local(out, b);
        push_settings(out, b);
    } else if str_eq(b.ident.text.as_str(), "provider") {
        if let Some(name) = block_label(b, 0) {
            out.push(name.to_owned());
        }
    }
    assert(texts(out@) =~= start + block_locals()(*b));
}

fn push_texts(out: &mut Vec<String>, v: &Vec<String>)
    ensures
        texts(final(out)@) == texts(old(out)@) + texts(v@),
{
    let ghost start = texts(out@);
    for i in 0..v.len()
        invariant
            texts(out@) == start + texts(v@).take(i as int),
    {
        let ghost before = texts(out@);
        let x = v[i].clone();
        out.push(x);
        assert(texts(out@) =~= before.push(x@));
        assert(texts(out@) =~= start + texts(v@).take(i + 1));
    }
    assert(texts(v@).take(v@.len() as int) =~= texts(v@));
}

fn push_body_locals(out: &mut Vec<String>, d: &DocumentState, body: &Body)
    ensures
        texts(final(out)@) == texts(old(out)@) + body_locals()((*d, *body)),
{
    let list = list_blocks(body);
    let ghost s = blocks(*body);
    let ghost f = block_locals();
    let ghost start = texts(out@);
    proof {
        lemma_take_full(s);
    }
    assert(texts(out@) =~= start + flat_map(s.take(0), f));
    for i in 0..list.len()
        invariant
            block_pointees(list@) == s,
            f == block_locals(),
            texts(out@) == start + flat_map(s.take(i as int), f),
    {
        proof {
            lemma_flat_map_step(s, f, i as int);
            assert(s[i as int] == *list@[i as int]);
        }
        push_block_locals(out, list[i]);
        assert(texts(out@) =~= start + flat_map(s.take(i + 1), f));
    }
    push_texts(out, &d.function_locals);
    assert(texts(out@) =~= start + body_locals()((*d, *body)));
}

// ---------------------------------------------------------------------
// Root modules

/// A source that names a directory.
pub open spec fn is_local_source(s: Seq<char>) -> bool {
    starts_with(s, "./"@) || starts_with(s, "../"@) || starts_with(s, "/"@)
}

pub fn local_source(s: &str) -> (r: bool)
    ensures
        r == is_local_source(s@),
{
    str_starts_with(s, "./") || str_starts_with(s, "../") || str_starts_with(s, "/")
}

pub open spec fn resolves(dir: Seq<char>, source: Seq<char>) -> spec_fn(ResolvedSource) -> Option<
    Seq<char>,
> {
    |r: ResolvedSource|
        if r.dir@ == dir && r.source@ == source {
            Some(r.target@)
        } else {
            None
        }
}

/// Where the source of a module call leads, where it is a directory.
pub open spec fn source_target(disk: DiskView, dir: Option<Seq<char>>, source: Seq<char>) -> Option<
    Seq<char>,
> {
    match dir {
        Some(dir) => if is_local_source(source) {
            find_map(disk.sources@, resolves(dir, source))
        } else {
            None
        },
        None => None,
    }
}

fn target_of_source<'a>(disk: &'a DiskView, dir: &Option<String>, source: &str) -> (r: Option<
    &'a str,
>)
    ensures
        match r {
            Some(t) => source_target(*disk, opt_view(*dir), source@) == Some(t@),
            None => source_target(*disk, opt_view(*dir), source@) is None,
        },
{
    if !local_source(source) {
        return None;
    }
    let own = match dir {
        Some(d) => d,
        None => {
            return None;
        },
    };
    let ghost s = disk.sources@;
    let ghost f = resolves(own@, source@);
    proof {
        lemma_take_full(s);
    }
    for i in 0..disk.sources.len()
        invariant
            s == disk.sources@,
            f == resolves(own@, source@),
            find_map(s, f) == find_map(s.skip(i as int), f),
            source_target(*disk, opt_view(*dir), source@) == find_map(s, f),
    {
        proof {
            lemma_find_map_step(s, f, i as int);
        }
        let r: &'a ResolvedSource = &disk.sources[i];
        if str_eq(r.dir.as_str(), own.as_str()) && str_eq(r.source.as_str(), source) {
            return Some(r.target.as_str());
        }
    }
    None
}

/// Where an attribute leads, if it is the source of a module call.
pub open spec fn attribute_target(disk: DiskView, dir: Option<Seq<char>>) -> spec_fn(
    Attribute,
) -> Option<Seq<char>> {
    |a: Attribute|
        if a.key.text@ == "source"@ {
            match a.value.kind {
                ExprKind::Str(s) => source_target(disk, dir, s@),
                _ => None,
            }
        } else {
            None
        }
}

pub open spec fn call_targets(disk: DiskView, dir: Option<Seq<char>>) -> spec_fn(Block) -> Seq<
    Seq<char>,
> {
    |b: Block| filter_map(attributes(b.body), attribute_target(disk, dir))
}

/// The directories that the module calls of a document lead to.
pub open spec fn doc_targets(disk: DiskView) -> spec_fn(DocumentState) -> Seq<Seq<char>> {
    |d: DocumentState|
        match d.body {
            Some(body) => flat_map(
                blocks_named(body, "module"@),
                call_targets(disk, opt_view(d.uri.dir)),
            ),
            None => Seq::empty(),
        }
}

/// The directories that any module call of the workspace leads to.
pub open spec fn all_targets(docs: Seq<DocumentState>, disk: DiskView) -> Seq<Seq<char>> {
    flat_map(docs, doc_targets(disk))
}

fn push_call_targets(out: &mut Vec<String>, disk: &DiskView, dir: &Option<String>, b: &Block)
    ensures
        texts(final(out)@) == texts(old(out)@) + call_targets(*disk, opt_view(*dir))(*b),
{
    let list = list_attributes(&b.body);
    let ghost s = attributes(b.body);
    let ghost f = attribute_target(*disk, opt_view(*dir));
    let ghost start = texts(out@);
    proof {
        lemma_take_full(s);
    }
    assert(texts(out@) =~= start + filter_map(s.take(0), f));
    for i in 0..list.len()
        invariant
            attr_pointees(list@) == s,
            f == attribute_target(*disk, opt_view(*dir)),
            texts(out@) == start + filter_map(s.take(i as int), f),
    {
        proof {
            lemma_filter_map_step(s, f, i as int);
            assert(s[i as int] == *list@[i as int]);
        }
        let ghost before = texts(out@);
        if str_eq(list[i].key.text.as_str(), "source") {
            if let ExprKind::Str(source) = &list[i].value.kind {
                if let Some(target) = target_of_source(disk, dir, source.as_str()) {
                    out.push(target.to_owned());
                    assert(texts(out@) =~= before.push(target@));
                }
            }
        }
        assert(texts(out@) =~= start + filter_map(s.take(i + 1), f));
    }
}

fn push_doc_targets(out: &mut Vec<String>, disk: &DiskView, d: &DocumentState)
    ensures
        texts(final(out)@) == texts(old(out)@) + doc_targets(*disk)(*d),
{
    let ghost start = texts(out@);
    match &d.body {
        Some(body) => {
            let list = list_blocks_named(body, "module");
            let ghost s = blocks_named(*body, "module"@);
            let ghost f = call_targets(*disk, opt_view(d.uri.dir));
            proof {
                lemma_take_full(s);
            }
            assert(texts(out@) =~= start + flat_map(s.take(0), f));
            for i in 0..list.len()
                invariant
                    block_pointees(list@) == s,
                    f == call_targets(*disk, opt_view(d.uri.dir)),
                    texts(out@) == start + flat_map(s.take(i as int), f),
            {
                proof {
                    lemma_flat_map_step(s, f, i as int);
                    assert(s[i as int] == *list@[i as int]);
                }
                push_call_targets(out, disk, &d.uri.dir, list[i]);
                assert(texts(out@) =~= start + flat_map(s.take(i + 1), f));
            }
        },
        None => {
            assert(texts(out@) =~= start + Seq::<Seq<char>>::empty());
        },
    }
}

/// The directories that some module call of the workspace leads to, in
/// ascending order.
pub fn referenced_dirs_in_workspace(state: &StateStore, disk: &DiskView) -> (r: Vec<String>)
    ensures
        texts(r@) == name_set(all_targets(state.documents@, *disk)),
{
    let mut all: Vec<String> = Vec::new();
    let ghost s = state.documents@;
    let ghost f = doc_targets(*disk);
    proof {
        lemma_take_full(s);
    }
    assert(texts(all@) =~= flat_map(s.take(0), f));
    for i in 0..state.documents.len()
        invariant
            s == state.documents@,
            f == doc_targets(*disk),
            texts(all@) == flat_map(s.take(i as int), f),
    {
        proof {
            lemma_flat_map_step(s, f, i as int);
        }
        push_doc_targets(&mut all, disk, &state.documents[i]);
    }
    sort_dedup_names(&all)
}

/// No listed directory is the module's; a directory that is not on disk
/// counts as a root.
pub open spec fn root_by_set(dir: Option<Seq<char>>, disk: DiskView, referenced: Seq<Seq<char>>) -> bool {
    match dir {
        Some(dir) => match lookup(disk.canonical@, dir) {
            Some(c) => !referenced.contains(c@),
            None => true,
        },
        None => true,
    }
}

/// A document calls the module in a directory.
pub open spec fn calls_into(disk: DiskView, dir: Seq<char>, d: DocumentState) -> bool {
    match lookup(disk.canonical@, dir) {
        Some(c) => doc_targets(disk)(d).contains(c@),
        None => false,
    }
}

/// No document calls the module in the directory.
pub open spec fn root_by_walk(docs: Seq<DocumentState>, dir: Option<Seq<char>>, disk: DiskView) -> bool {
    match dir {
        Some(dir) => forall|i: int|
            0 <= i < docs.len() ==> !calls_into(disk, dir, #[trigger] docs[i]),
        None => true,
    }
}

fn is_root_via_set(dir: &Option<String>, disk: &DiskView, referenced: &Vec<String>) -> (r: bool)
    ensures
        r == root_by_set(opt_view(*dir), *disk, texts(referenced@)),
{
    match dir {
        Some(dir) => match find_entry(&disk.canonical, dir.as_str()) {
            Some(c) => !has_text(referenced, c.as_str()),
            None => true,
        },
        None => true,
    }
}

fn has_text(v: &Vec<String>, x: &str) -> (r: bool)
    ensures
        r == texts(v@).contains(x@),
{
    for i in 0..v.len()
        invariant
            forall|j: int| 0 <= j < i ==> (#[trigger] texts(v@)[j]) != x@,
    {
        if str_eq(v[i].as_str(), x) {
            assert(texts(v@)[i as int] == x@);
            return true;
        }
    }
    false
}

fn compute_is_root(state: &StateStore, dir: &Option<String>, disk: &DiskView) -> (r: bool)
    ensures
        r == root_by_walk(state.documents@, opt_view(*dir), *disk),
{
    let own = match dir {
        Some(d) => d,
        None => {
            return true;
        },
    };
    let target = find_entry(&disk.canonical, own.as_str());
    for i in 0..state.documents.len()
        invariant
            opt_view(*dir) == Some(own@),
            match target {
                Some(c) => lookup(disk.canonical@, own@) == Some(*c),
                None => lookup(disk.canonical@, own@) is None,
            },
            forall|j: int|
                0 <= j < i ==> !calls_into(*disk, own@, #[trigger] state.documents@[j]),
    {
        if let Some(c) = target {
            let d = &state.documents[i];
            let mut found: Vec<String> = Vec::new();
            push_doc_targets(&mut found, disk, d);
            assert(texts(found@) =~= doc_targets(*disk)(*d));
            if has_text(&found, c.as_str()) {
                assert(calls_into(*disk, own@, state.documents@[i as int]));
                return false;
            }
        }
    }
    true
}

// ---------------------------------------------------------------------
// The snapshot

/// A file of configuration.
pub open spec fn is_config_file() -> spec_fn(Seq<char>) -> bool {
    |name: Seq<char>| ends_with(name, ".tf"@) || ends_with(name, ".tf.json"@)
}

/// The configuration files in a directory, in ascending order.
pub open spec fn files_in(dir: Option<Seq<char>>, disk: DiskView) -> Seq<Seq<char>> {
    match dir {
        Some(dir) => match lookup(disk.listings@, dir) {
            Some(names) => name_set(keep(texts(names@), is_config_file())),
            None => name_set(Seq::empty()),
        },
        None => name_set(Seq::empty()),
    }
}

fn compute_present_files(dir: &Option<String>, disk: &DiskView) -> (r: Vec<String>)
    ensures
        texts(r@) == files_in(opt_view(*dir), *disk),
{
    let mut out: Vec<String> = Vec::new();
    assert(texts(out@) =~= Seq::<Seq<char>>::empty());
    if let Some(dir) = dir {
        if let Some(names) = find_entry(&disk.listings, dir.as_str()) {
            let ghost s = texts(names@);
            let ghost p = is_config_file();
            proof {
                lemma_take_full(s);
            }
            assert(texts(out@) =~= keep(s.take(0), p));
            for i in 0..names.len()
                invariant
                    s == texts(names@),
                    p == is_config_file(),
                    texts(out@) == keep(s.take(i as int), p),
            {
                proof {
                    lemma_keep_step(s, p, i as int);
                    assert(s[i as int] == names@[i as int]@);
                }
                let ghost before = texts(out@);
                let name = names[i].as_str();
                if str_ends_with(name, ".tf") || str_ends_with(name, ".tf.json") {
                    out.push(names[i].clone());
                    assert(texts(out@) =~= before.push(s[i as int]));
                }
            }
        }
    }
    sort_dedup_names(&out)
}

/// The first in order, where there is one.
pub open spec fn first_name(s: Seq<Seq<char>>) -> Option<Seq<char>> {
    if name_set(s).len() == 0 {
        None
    } else {
        Some(name_set(s)[0])
    }
}

/// What the snapshot of a module holds. `referenced` are the directories that
/// module calls lead to, where they were gathered before.
pub open spec fn snapshot_of(
    state: StateStore,
    dir: Option<Seq<char>>,
    disk: DiskView,
    referenced: Option<Seq<Seq<char>>>,
) -> SnapshotV {
    let bodies = module_bodies(state.documents@, dir);
    SnapshotV {
        module_dir: dir,
        has_required_version: find_map(bodies, body_has_version()) is Some,
        providers_with_version: name_set(flat_map(bodies, versioned_entries())),
        used_provider_locals: name_set(flat_map(bodies, body_locals())),
        primary_terraform_uri: first_name(flat_map(bodies, terraform_uris())),
        present_files: files_in(dir, disk),
        is_root: match referenced {
            Some(set) => root_by_set(dir, disk, set),
            None => root_by_walk(state.documents@, dir, disk),
        },
    }
}

pub open spec fn opt_texts(v: Option<&Vec<String>>) -> Option<Seq<Seq<char>>> {
    match v {
        Some(v) => Some(texts(v@)),
        None => None,
    }
}

fn any_required_version(bodies: &Vec<(&DocumentState, &Body)>) -> (r: bool)
    ensures
        r == (find_map(body_pointees(bodies@), body_has_version()) is Some),
{
    let ghost s = body_pointees(bodies@);
    let ghost f = body_has_version();
    proof {
        lemma_take_full(s);
    }
    for i in 0..bodies.len()
        invariant
            s == body_pointees(bodies@),
            f == body_has_version(),
            find_map(s, f) == find_map(s.skip(i as int), f),
    {
        proof {
            lemma_find_map_step(s, f, i as int);
            assert(s[i as int] == (*bodies@[i as int].0, *bodies@[i as int].1));
        }
        if body_sets_version(bodies[i].1) {
            return true;
        }
    }
    assert(body_pointees(bodies@).len() == bodies@.len());
    false
}

fn all_versioned(bodies: &Vec<(&DocumentState, &Body)>) -> (r: Vec<String>)
    ensures
        texts(r@) == name_set(flat_map(body_pointees(bodies@), versioned_entries())),
{
    let ghost s = body_pointees(bodies@);
    let ghost f = versioned_entries();
    let mut out: Vec<String> = Vec::new();
    proof {
        lemma_take_full(s);
    }
    assert(texts(out@) =~= flat_map(s.take(0), f));
    for i in 0..bodies.len()
        invariant
            s == body_pointees(bodies@),
            f == versioned_entries(),
            texts(out@) == flat_map(s.take(i as int), f),
    {
        proof {
            lemma_flat_map_step(s, f, i as int);
            assert(s[i as int] == (*bodies@[i as int].0, *bodies@[i as int].1));
        }
        push_versioned_entries(&mut out, bodies[i].1);
    }
    sort_dedup_names(&out)
}

fn all_locals(bodies: &Vec<(&DocumentState, &Body)>) -> (r: Vec<String>)
    ensures
        texts(r@) == name_set(flat_map(body_pointees(bodies@), body_locals())),
{
    let ghost s = body_pointees(bodies@);
    let ghost f = body_locals();
    let mut out: Vec<String> = Vec::new();
    proof {
        lemma_take_full(s);
    }
    assert(texts(out@) =~= flat_map(s.take(0), f));
    for i in 0..bodies.len()
        invariant
            s == body_pointees(bodies@),
            f == body_locals(),
            texts(out@) == flat_map(s.take(i as int), f),
    {
        proof {
            lemma_flat_map_step(s, f, i as int);
            assert(s[i as int] == (*bodies@[i as int].0, *bodies@[i as int].1));
        }
        push_body_locals(&mut out, bodies[i].0, bodies[i].1);
    }
    sort_dedup_names(&out)
}

fn all_terraform_uris(bodies: &Vec<(&DocumentState, &Body)>) -> (r: Vec<String>)
    ensures
        texts(r@) == name_set(flat_map(body_pointees(bodies@), terraform_uris())),
{
    let ghost s = body_pointees(bodies@);
    let ghost f = terraform_uris();
    let mut out: Vec<String> = Vec::new();
    proof {
        lemma_take_full(s);
    }
    assert(texts(out@) =~= flat_map(s.take(0), f));
    for i in 0..bodies.len()
        invariant
            s == body_pointees(bodies@),
            f == terraform_uris(),
            texts(out@) == flat_map(s.take(i as int), f),
    {
        proof {
            lemma_flat_map_step(s, f, i as int);
            assert(s[i as int] == (*bodies@[i as int].0, *bodies@[i as int].1));
        }
        let ghost start = texts(out@);
        let list = list_blocks_named(bodies[i].1, "terraform");
        let uri = bodies[i].0.uri.text.as_str();
        for k in 0..list.len()
            invariant
                texts(out@) == start + Seq::new(k as nat, |j: int| uri@),
        {
            let ghost before = texts(out@);
            let x = uri.to_owned();
            out.push(x);
            assert(texts(out@) =~= before.push(x@));
            assert(texts(out@) =~= start + Seq::new((k + 1) as nat, |j: int| uri@));
        }
        assert(block_pointees(list@).len() == list@.len());
        assert(texts(out@) =~= start + f(s[i as int]));
    }
    sort_dedup_names(&out)
}

impl ModuleSnapshot {
    /// Gather what is known of the module in a directory.
    pub fn build(
        state: &StateStore,
        module_dir: &Option<String>,
        disk: &DiskView,
        referenced_dirs: Option<&Vec<String>>,
    ) -> (r: ModuleSnapshot)
        ensures
            r@ == snapshot_of(*state, opt_view(*module_dir), *disk, opt_texts(referenced_dirs)),
    {
        let bodies = list_module_bodies(state, module_dir);
        let uris = all_terraform_uris(&bodies);
        let primary_terraform_uri = if uris.len() == 0 {
            None
        } else {
            assert(texts(uris@)[0] == uris@[0]@);
            Some(uris[0].clone())
        };
        assert(texts(uris@).len() == uris@.len());
        let is_root = match referenced_dirs {
            Some(set) => is_root_via_set(module_dir, disk, set),
            None => compute_is_root(state, module_dir, disk),
        };
        ModuleSnapshot {
            module_dir: crate::actions::copy_opt(module_dir),
            has_required_version: any_required_version(&bodies),
            providers_with_version: all_versioned(&bodies),
            used_provider_locals: all_locals(&bodies),
            primary_terraform_uri,
            present_files: compute_present_files(module_dir, disk),
            is_root,
        }
    }

    /// Some place of the symbol lies in the module.
    pub open spec fn refers(self, state: StateStore, key: KeyV) -> bool {
        let all = places(state.references_by_name@, key);
        match opt_view(self.module_dir) {
            Some(dir) => exists|i: int|
                0 <= i < all.len() && opt_view((#[trigger] all[i]).dir) == Some(dir),
            None => all.len() > 0,
        }
    }

    fn has_ref(&self, state: &StateStore, key: &SymbolKey) -> (r: bool)
        ensures
            r == self.refers(*state, key@),
    {
        match find_places(&state.references_by_name, key) {
            Some(all) => match &self.module_dir {
                Some(dir) => {
                    for i in 0..all.len()
                        invariant
                            all@ == places(state.references_by_name@, key@),
                            self.module_dir == Some(*dir),
                            forall|j: int|
                                0 <= j < i ==> opt_view((#[trigger] all@[j]).dir) != Some(dir@),
                    {
                        let own = match &all[i].dir {
                            Some(d) => str_eq(d.as_str(), dir.as_str()),
                            None => false,
                        };
                        if own {
                            assert(opt_view(all@[i as int].dir) == Some(dir@));
                            return true;
                        }
                    }
                    false
                },
                None => all.len() > 0,
            },
            None => false,
        }
    }

    /// A variable is referred to in the module.
    pub fn variable_is_referenced(&self, state: &StateStore, name: &str) -> (r: bool)
        ensures
            r == self.refers(*state, name_key(SymbolKind::Variable, name@)),
    {
        self.has_ref(state, &SymbolKey::new(SymbolKind::Variable, name))
    }

    /// A local value is referred to in the module.
    pub fn local_is_referenced(&self, state: &StateStore, name: &str) -> (r: bool)
        ensures
            r == self.refers(*state, name_key(SymbolKind::Local, name@)),
    {
        self.has_ref(state, &SymbolKey::new(SymbolKind::Local, name))
    }

    /// A data source is referred to in the module.
    pub fn data_source_is_referenced(&self, state: &StateStore, ty: &str, name: &str) -> (r:
        bool)
        ensures
            r == self.refers(*state, resource_key(SymbolKind::DataSource, ty@, name@)),
    {
        self.has_ref(state, &SymbolKey::resource(SymbolKind::DataSource, ty, name))
    }

    /// The document is the first one of the module with a `terraform` block.
    pub fn is_primary_terraform_doc(&self, uri: &str) -> (r: bool)
        ensures
            r == (opt_view(self.primary_terraform_uri) == Some(uri@)),
    {
        match &self.primary_terraform_uri {
            Some(u) => str_eq(u.as_str(), uri),
            None => false,
        }
    }
}

// ---------------------------------------------------------------------
// A document's view of its module

/// What the checks of one document ask of its module.
pub struct CachedModuleLookup<'a> {
    pub snapshot: &'a ModuleSnapshot,
    pub state: &'a StateStore,
    pub current_uri: &'a DocUri,
}

impl<'a> CachedModuleLookup<'a> {
    pub fn variable_is_referenced(&self, name: &str) -> (r: bool)
        ensures
            r == self.snapshot.refers(*self.state, name_key(SymbolKind::Variable, name@)),
    {
        self.snapshot.variable_is_referenced(self.state, name)
    }

    pub fn local_is_referenced(&self, name: &str) -> (r: bool)
        ensures
            r == self.snapshot.refers(*self.state, name_key(SymbolKind::Local, name@)),
    {
        self.snapshot.local_is_referenced(self.state, name)
    }

    pub fn data_source_is_referenced(&self, ty: &str, name: &str) -> (r: bool)
        ensures
            r == self.snapshot.refers(
                *self.state,
                resource_key(SymbolKind::DataSource, ty@, name@),
            ),
    {
        self.snapshot.data_source_is_referenced(self.state, ty, name)
    }

    pub fn used_provider_locals(&self) -> (r: &Vec<String>)
        ensures
            texts(r@) == self.snapshot@.used_provider_locals,
    {
        &self.snapshot.used_provider_locals
    }

    pub fn present_files(&self) -> (r: &Vec<String>)
        ensures
            texts(r@) == self.snapshot@.present_files,
    {
        &self.snapshot.present_files
    }

    pub fn is_root_module(&self) -> (r: bool)
        ensures
            r == self.snapshot@.is_root,
    {
        self.snapshot.is_root
    }

    pub fn module_has_required_version(&self) -> (r: bool)
        ensures
            r == self.snapshot@.has_required_version,
    {
        self.snapshot.has_required_version
    }

    pub fn is_primary_terraform_doc(&self) -> (r: bool)
        ensures
            r == (self.snapshot@.primary_terraform_uri == Some(self.current_uri.text@)),
    {
        self.snapshot.is_primary_terraform_doc(self.current_uri.text.as_str())
    }

    pub fn providers_with_version_set(&self) -> (r: &Vec<String>)
        ensures
            texts(r@) == self.snapshot@.providers_with_version,
    {
        &self.snapshot.providers_with_version
    }
}

// ---------------------------------------------------------------------
// Laws

/// Looking a directory up among all referenced ones finds the same roots as
/// walking the documents.
pub proof fn both_ways_find_the_same_roots(
    docs: Seq<DocumentState>,
    dir: Option<Seq<char>>,
    disk: DiskView,
)
    ensures
        root_by_set(dir, disk, name_set(all_targets(docs, disk))) == root_by_walk(docs, dir, disk),
{
    if dir is Some {
        let d = dir->0;
        match lookup(disk.canonical@, d) {
            Some(c) => {
                crate::order::name_set_contains(all_targets(docs, disk), c@);
                lemma_flat_contains(docs, doc_targets(disk), c@);
                if all_targets(docs, disk).contains(c@) {
                    let i = choose|i: int|
                        0 <= i < docs.len() && doc_targets(disk)(#[trigger] docs[i]).contains(c@);
                    assert(calls_into(disk, d, docs[i]));
                }
                if !root_by_walk(docs, dir, disk) {
                    let i = choose|i: int|
                        0 <= i < docs.len() && calls_into(disk, d, #[trigger] docs[i]);
                    assert(doc_targets(disk)(docs[i]).contains(c@));
                }
            },
            None => {
                assert forall|i: int| 0 <= i < docs.len() implies !calls_into(
                    disk,
                    d,
                    #[trigger] docs[i],
                ) by {}
            },
        }
    }
}

/// The set of referenced directories only saves the walk: with it and without
/// it the snapshot is the same.
pub proof fn precomputed_set_changes_nothing(
    state: StateStore,
    dir: Option<Seq<char>>,
    disk: DiskView,
)
    ensures
        snapshot_of(
            state,
            dir,
            disk,
            Some(name_set(all_targets(state.documents@, disk))),
        ) == snapshot_of(state, dir, disk, None),
{
    both_ways_find_the_same_roots(state.documents@, dir, disk);
}

/// An element of a flattened sequence comes from one of its parts.
pub proof fn lemma_flat_contains<A, B>(s: Seq<A>, f: spec_fn(A) -> Seq<B>, x: B)
    ensures
        flat_map(s, f).contains(x) <==> exists|i: int|
            0 <= i < s.len() && f(#[trigger] s[i]).contains(x),
    decreases s.len(),
{
    if s.len() > 0 {
        let d = s.drop_last();
        lemma_flat_contains(d, f, x);
        let a = flat_map(d, f);
        let b = f(s.last());
        let r = flat_map(s, f);
        assert(r == a + b);
        if r.contains(x) {
            let k = choose|k: int| 0 <= k < r.len() && r[k] == x;
            if k < a.len() {
                assert(a[k] == x);
                let i = choose|i: int| 0 <= i < d.len() && f(#[trigger] d[i]).contains(x);
                assert(f(s[i]).contains(x));
            } else {
                assert(b[k - a.len()] == x);
                assert(f(s[s.len() - 1]).contains(x));
            }
        }
        if exists|i: int| 0 <= i < s.len() && f(#[trigger] s[i]).contains(x) {
            let i = choose|i: int| 0 <= i < s.len() && f(#[trigger] s[i]).contains(x);
            if i < d.len() {
                assert(f(d[i]).contains(x));
                let k = choose|k: int| 0 <= k < a.len() && a[k] == x;
                assert(r[k] == x);
            } else {
                let k = choose|k: int| 0 <= k < b.len() && b[k] == x;
                assert(r[a.len() + k] == x);
            }
        }
    }
}

} // verus!
