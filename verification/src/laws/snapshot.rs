//! What a module's snapshot knows, and what formatting writes.

use crate::actions::WorkspaceEditV;
use crate::formatting::{
    document_range, enclosing, enclosing_upto, format_edit, format_edits_upto, format_selection,
    formatting_answer, holding_range, on_type_slice, range_edits, without_newlines,
};
use crate::hcl::{
    attributes, blocks, blocks_named, Attribute, Block, Body, ExprKind, Expression, ObjectKey,
};
use crate::laws::actions::lemma_block_in;
use crate::laws::basics::{characters_are_found, not_after};
use crate::laws::common::{is_doc, is_entry, lemma_doc, lemma_places};
use crate::laws::hover::{is_named, lemma_named};
use crate::laws::modules::{has_attribute, has_block, lemma_attributes, lemma_blocks_named};
use crate::laws::providers::{declares_provider, entries_stand_in_required_providers};
use crate::laws::rename::{has_edit, lemma_with_edits};
use crate::module_snapshot::{
    attribute_target, block_locals, body_has_version, body_locals, call_targets, calls_into,
    doc_targets, is_config_file, is_version_key, module_bodies, module_body, provider_setting,
    resolves, sets_key, snapshot_of, terraform_uris, type_prefix, versioned_block,
    versioned_entries, versioned_entry, DiskView, ModuleSnapshot,
};
use crate::order::{
    as_pairs, name_set, name_set_contains, pair_lt, pair_set, pair_set_is_ascending_set, text_lt,
};
use crate::position::{range_text, rope_text, span_range, EditV, Position, Range};
use crate::seqs::{
    filter_map, find_map, flat_map, keep, lemma_filter_map_contains, lemma_find_map_at,
    lemma_find_map_first, lemma_flat_map_contains, lemma_keep_contains, lemma_plus_contains,
};
use crate::state::{DocUri, DocumentState, KeyV, StateStore, SymbolKind};
use crate::text::{ends_with, opt_view, starts_with, texts};
use vstd::prelude::*;

verus! {

/// A parsed document of the module; without a directory every one counts.
pub open spec fn is_part(state: StateStore, dir: Option<Seq<char>>, k: int) -> bool {
    &&& 0 <= k < state.documents@.len()
    &&& state.documents@[k].body is Some
    &&& dir is Some ==> state.documents@[k].uri.dir is Some && state.documents@[k].uri.dir->0@
        == dir->0
}

proof fn lemma_bodies(state: StateStore, dir: Option<Seq<char>>, d: DocumentState, body: Body)
    ensures
        module_bodies(state.documents@, dir).contains((d, body)) <==> exists|k: int| #[trigger]
            is_part(state, dir, k) && state.documents@[k] == d && d.body == Some(body),
{
    let f = module_body(dir);
    lemma_filter_map_contains(state.documents@, f, (d, body));
    if module_bodies(state.documents@, dir).contains((d, body)) {
        let k = choose|k: int|
            0 <= k < state.documents@.len() && f(#[trigger] state.documents@[k]) == Some((d, body));
        assert(is_part(state, dir, k));
    }
    if exists|k: int| #[trigger]
        is_part(state, dir, k) && state.documents@[k] == d && d.body == Some(body) {
        let k = choose|k: int| #[trigger]
            is_part(state, dir, k) && state.documents@[k] == d && d.body == Some(body);
        assert(f(state.documents@[k]) == Some((d, body)));
    }
}

proof fn lemma_part_in(state: StateStore, dir: Option<Seq<char>>, k: int) -> (i: int)
    requires
        is_part(state, dir, k),
    ensures
        0 <= i < module_bodies(state.documents@, dir).len(),
        module_bodies(state.documents@, dir)[i] == (
            state.documents@[k],
            state.documents@[k].body->0,
        ),
{
    let d = state.documents@[k];
    lemma_bodies(state, dir, d, d.body->0);
    let s = module_bodies(state.documents@, dir);
    choose|i: int| 0 <= i < s.len() && s[i] == (d, d.body->0)
}

proof fn lemma_part_of(state: StateStore, dir: Option<Seq<char>>, i: int) -> (k: int)
    requires
        0 <= i < module_bodies(state.documents@, dir).len(),
    ensures
        is_part(state, dir, k),
        module_bodies(state.documents@, dir)[i] == (
            state.documents@[k],
            state.documents@[k].body->0,
        ),
{
    let s = module_bodies(state.documents@, dir);
    let (d, body) = s[i];
    assert(s.contains(s[i]));
    lemma_bodies(state, dir, d, body);
    choose|k: int| #[trigger]
        is_part(state, dir, k) && state.documents@[k] == d && d.body == Some(body)
}

/// A `terraform` block of the document sets `required_version`.
pub open spec fn requires_version(body: Body, b: Block) -> bool {
    has_block(body, b) && b.ident.text@ == "terraform"@ && exists|a: Attribute| #[trigger]
        has_attribute(b.body, a) && a.key.text@ == "required_version"@
}

/// A module requires a version of the CLI exactly where one of its documents
/// sets `required_version` in a `terraform` block.
pub proof fn required_versions_are_known(
    state: StateStore,
    dir: Option<Seq<char>>,
    disk: DiskView,
    referenced: Option<Seq<Seq<char>>>,
)
    ensures
        snapshot_of(state, dir, disk, referenced).has_required_version <==> exists|
            k: int,
            b: Block,
        |
            #![trigger is_part(state, dir, k), requires_version(state.documents@[k].body->0, b)]
            is_part(state, dir, k) && requires_version(state.documents@[k].body->0, b),
{
    let s = module_bodies(state.documents@, dir);
    let f = body_has_version();
    if find_map(s, f) is Some {
        let i = lemma_find_map_first(s, f);
        let k = lemma_part_of(state, dir, i);
        let body = s[i].1;
        let bs = blocks_named(body, "terraform"@);
        let j = lemma_find_map_first(bs, versioned_block());
        let b = bs[j];
        assert(bs.contains(b));
        lemma_blocks_named(body, "terraform"@, b);
        let v = attributes(b.body);
        let n = lemma_find_map_first(v, sets_key("required_version"@));
        assert(v.contains(v[n]));
        lemma_attributes(b.body, v[n]);
        assert(has_attribute(b.body, v[n]) && v[n].key.text@ == "required_version"@);
        assert(is_part(state, dir, k) && requires_version(state.documents@[k].body->0, b));
    }
    if exists|k: int, b: Block|
        #![trigger is_part(state, dir, k), requires_version(state.documents@[k].body->0, b)]
        is_part(state, dir, k) && requires_version(state.documents@[k].body->0, b) {
        let (k, b) = choose|k: int, b: Block|
            #![trigger is_part(state, dir, k), requires_version(state.documents@[k].body->0, b)]
            is_part(state, dir, k) && requires_version(state.documents@[k].body->0, b);
        let i = lemma_part_in(state, dir, k);
        let body = s[i].1;
        let a = choose|a: Attribute| #[trigger]
            has_attribute(b.body, a) && a.key.text@ == "required_version"@;
        lemma_attributes(b.body, a);
        let v = attributes(b.body);
        let n = choose|n: int| 0 <= n < v.len() && v[n] == a;
        lemma_found(v, sets_key("required_version"@), n);
        lemma_blocks_named(body, "terraform"@, b);
        let bs = blocks_named(body, "terraform"@);
        let j = choose|j: int| 0 <= j < bs.len() && bs[j] == b;
        lemma_found(bs, versioned_block(), j);
        lemma_found(s, f, i);
    }
}

pub proof fn lemma_found<A, B>(s: Seq<A>, f: spec_fn(A) -> Option<B>, k: int)
    requires
        0 <= k < s.len(),
        f(s[k]) is Some,
    ensures
        find_map(s, f) is Some,
    decreases k,
{
    if forall|j: int| 0 <= j < k ==> f(#[trigger] s[j]) is None {
        lemma_find_map_at(s, f, k);
    } else {
        let j = choose|j: int| 0 <= j < k && !(f(#[trigger] s[j]) is None);
        lemma_found(s, f, j);
    }
}

/// An entry of `required_providers` in the long form has a `version`.
pub open spec fn has_version(a: Attribute) -> bool {
    a.value.kind matches ExprKind::Object(items) && exists|i: int|
        0 <= i < items@.len() && (match (#[trigger] items@[i]).key {
            ObjectKey::Ident(x) => x.text@ == "version"@,
            ObjectKey::Expression(e) => match e.kind {
                ExprKind::Variable(v) => v@ == "version"@,
                ExprKind::Str(v) => v@ == "version"@,
                _ => false,
            },
        })
}

pub open spec fn versions_provider(state: StateStore, dir: Option<Seq<char>>, name: Seq<char>, k: int, a: Attribute) -> bool {
    &&& is_part(state, dir, k)
    &&& exists|b: Block, p: Block| #[trigger]
        declares_provider(state.documents@[k].body->0, b, p, a)
    &&& a.key.text@ == name
    &&& has_version(a)
}

/// The providers with a version are those whose entry in some document of the
/// module has one.
pub proof fn versioned_providers_are_known(
    state: StateStore,
    dir: Option<Seq<char>>,
    disk: DiskView,
    referenced: Option<Seq<Seq<char>>>,
    name: Seq<char>,
)
    ensures
        snapshot_of(state, dir, disk, referenced).providers_with_version.contains(name) <==> exists|
            k: int,
            a: Attribute,
        | #[trigger] versions_provider(state, dir, name, k, a),
{
    let s = module_bodies(state.documents@, dir);
    let f = versioned_entries();
    let all = flat_map(s, f);
    name_set_contains(all, name);
    lemma_flat_map_contains(s, f, name);
    if all.contains(name) {
        let i = choose|i: int| 0 <= i < s.len() && (#[trigger] f(s[i])).contains(name);
        let k = lemma_part_of(state, dir, i);
        let es = provider_entries_of_body(s[i].1);
        lemma_filter_map_contains(es, versioned_entry(), name);
        let n = choose|n: int|
            0 <= n < es.len() && versioned_entry()(#[trigger] es[n]) == Some(name);
        let a = es[n];
        assert(es.contains(a));
        entries_stand_in_required_providers(s[i].1, a);
        if let ExprKind::Object(items) = a.value.kind {
            let m = choose|m: int| 0 <= m < items@.len() && is_version_key((#[trigger] items@[m]).key);
            assert(has_version(a));
        }
        assert(versions_provider(state, dir, name, k, a));
    }
    if exists|k: int, a: Attribute| #[trigger] versions_provider(state, dir, name, k, a) {
        let (k, a) = choose|k: int, a: Attribute| #[trigger]
            versions_provider(state, dir, name, k, a);
        let i = lemma_part_in(state, dir, k);
        let es = provider_entries_of_body(s[i].1);
        entries_stand_in_required_providers(s[i].1, a);
        let n = choose|n: int| 0 <= n < es.len() && es[n] == a;
        if let ExprKind::Object(items) = a.value.kind {
            let m = choose|m: int|
                0 <= m < items@.len() && (match (#[trigger] items@[m]).key {
                    ObjectKey::Ident(x) => x.text@ == "version"@,
                    ObjectKey::Expression(e) => match e.kind {
                        ExprKind::Variable(v) => v@ == "version"@,
                        ExprKind::Str(v) => v@ == "version"@,
                        _ => false,
                    },
                });
            assert(is_version_key(items@[m].key));
        }
        lemma_filter_map_contains(es, versioned_entry(), name);
        assert(versioned_entry()(es[n]) == Some(name));
        assert(f(s[i]).contains(name));
    }
}

pub open spec fn provider_entries_of_body(body: Body) -> Seq<Attribute> {
    crate::providers::provider_entries(body)
}

/// A block uses a provider: a resource or data source by the front of its type or
/// by its `provider` setting, a `provider` block by its label.
pub open spec fn uses(b: Block, name: Seq<char>) -> bool {
    if b.ident.text@ == "resource"@ || b.ident.text@ == "data"@ {
        ||| b.labels@.len() > 0 && name.len() > 0 && !name.contains('_') && (b.labels@[0].text@
            == name || starts_with(b.labels@[0].text@, name + seq!['_']))
        ||| exists|a: Attribute| #[trigger]
            has_attribute(b.body, a) && a.key.text@ == "provider"@ && names_provider(a.value, name)
    } else {
        b.ident.text@ == "provider"@ && b.labels@.len() > 0 && b.labels@[0].text@ == name
    }
}

/// `aws` or `aws.west`.
pub open spec fn names_provider(e: Expression, name: Seq<char>) -> bool {
    match e.kind {
        ExprKind::Variable(v) => v@ == name,
        ExprKind::Traversal(t) => t.expr.kind matches ExprKind::Variable(v) && v@ == name,
        _ => false,
    }
}

proof fn lemma_prefix(ty: Seq<char>, name: Seq<char>)
    ensures
        type_prefix(ty) == name <==> !name.contains('_') && (ty == name || starts_with(
            ty,
            name + seq!['_'],
        )),
{
    characters_are_found(ty, '_', 0);
    let p = name + seq!['_'];
    match crate::text::find_char(ty, '_', 0) {
        Some(i) => {
            if type_prefix(ty) == name {
                assert(name == ty.take(i));
                if name.contains('_') {
                    let j = choose|j: int| 0 <= j < name.len() && name[j] == '_';
                    assert(ty[j] == '_');
                }
                assert(ty.subrange(0, p.len() as int) =~= p);
            }
            if !name.contains('_') && starts_with(ty, p) {
                assert(ty.subrange(0, p.len() as int)[name.len() as int] == '_');
                assert(ty[name.len() as int] == '_');
                assert(i <= name.len());
                if i < name.len() {
                    assert(ty.subrange(0, p.len() as int)[i] == p[i]);
                    assert(name[i] == '_');
                }
                assert(ty.take(i) =~= name) by {
                    assert forall|j: int| 0 <= j < i implies ty[j] == #[trigger] name[j] by {
                        assert(ty.subrange(0, p.len() as int)[j] == p[j]);
                    }
                }
            }
            if ty == name {
                assert(name.contains('_'));
            }
        },
        None => {
            if starts_with(ty, p) {
                assert(ty.subrange(0, p.len() as int)[name.len() as int] == '_');
                assert(ty[name.len() as int] == '_');
            }
            if ty == name && name.contains('_') {
                let j = choose|j: int| 0 <= j < name.len() && name[j] == '_';
                assert(ty[j] == '_');
            }
        },
    }
}

proof fn lemma_uses(b: Block, name: Seq<char>)
    ensures
        block_locals()(b).contains(name) <==> uses(b, name),
{
    if b.ident.text@ == "resource"@ || b.ident.text@ == "data"@ {
        let own = crate::module_snapshot::type_local(b);
        let v = attributes(b.body);
        let set = filter_map(v, provider_setting());
        lemma_plus_contains(own, set, name);
        lemma_filter_map_contains(v, provider_setting(), name);
        if b.labels@.len() > 0 {
            lemma_prefix(b.labels@[0].text@, name);
            if type_prefix(b.labels@[0].text@) == name && name.len() > 0 {
                assert(own[0] == name);
            }
        }
        if set.contains(name) {
            let i = choose|i: int|
                0 <= i < v.len() && provider_setting()(#[trigger] v[i]) == Some(name);
            assert(v.contains(v[i]));
            lemma_attributes(b.body, v[i]);
            assert(has_attribute(b.body, v[i]) && names_provider(v[i].value, name));
        }
        if exists|a: Attribute| #[trigger]
            has_attribute(b.body, a) && a.key.text@ == "provider"@ && names_provider(
                a.value,
                name,
            ) {
            let a = choose|a: Attribute| #[trigger]
                has_attribute(b.body, a) && a.key.text@ == "provider"@ && names_provider(
                    a.value,
                    name,
                );
            lemma_attributes(b.body, a);
            let i = choose|i: int| 0 <= i < v.len() && v[i] == a;
            assert(provider_setting()(v[i]) == Some(name));
        }
    } else {
        if uses(b, name) {
            assert(block_locals()(b)[0] == name);
        }
    }
}

pub open spec fn uses_provider(state: StateStore, dir: Option<Seq<char>>, name: Seq<char>, k: int) -> bool {
    is_part(state, dir, k) && ((exists|b: Block| #[trigger]
        has_block(state.documents@[k].body->0, b) && uses(b, name)) || texts(
        state.documents@[k].function_locals@,
    ).contains(name))
}

/// The providers that a module uses are those of its blocks and of its calls of
/// provider-defined functions.
pub proof fn used_providers_are_known(
    state: StateStore,
    dir: Option<Seq<char>>,
    disk: DiskView,
    referenced: Option<Seq<Seq<char>>>,
    name: Seq<char>,
)
    ensures
        snapshot_of(state, dir, disk, referenced).used_provider_locals.contains(name) <==> exists|
            k: int,
        | #[trigger] uses_provider(state, dir, name, k),
{
    let s = module_bodies(state.documents@, dir);
    let f = body_locals();
    let all = flat_map(s, f);
    name_set_contains(all, name);
    lemma_flat_map_contains(s, f, name);
    if all.contains(name) {
        let i = choose|i: int| 0 <= i < s.len() && (#[trigger] f(s[i])).contains(name);
        let k = lemma_part_of(state, dir, i);
        let bs = blocks(s[i].1);
        let own = flat_map(bs, block_locals());
        lemma_plus_contains(own, texts(s[i].0.function_locals@), name);
        lemma_flat_map_contains(bs, block_locals(), name);
        if own.contains(name) {
            let n = choose|n: int|
                0 <= n < bs.len() && (#[trigger] block_locals()(bs[n])).contains(name);
            assert(bs.contains(bs[n]));
            lemma_block_in(s[i].1, bs[n]);
            lemma_uses(bs[n], name);
            assert(has_block(s[i].1, bs[n]) && uses(bs[n], name));
        }
        assert(uses_provider(state, dir, name, k));
    }
    if exists|k: int| #[trigger] uses_provider(state, dir, name, k) {
        let k = choose|k: int| #[trigger] uses_provider(state, dir, name, k);
        let i = lemma_part_in(state, dir, k);
        let bs = blocks(s[i].1);
        let own = flat_map(bs, block_locals());
        lemma_plus_contains(own, texts(s[i].0.function_locals@), name);
        lemma_flat_map_contains(bs, block_locals(), name);
        if exists|b: Block| #[trigger] has_block(s[i].1, b) && uses(b, name) {
            let b = choose|b: Block| #[trigger] has_block(s[i].1, b) && uses(b, name);
            lemma_block_in(s[i].1, b);
            lemma_uses(b, name);
            let n = choose|n: int| 0 <= n < bs.len() && bs[n] == b;
            assert(block_locals()(bs[n]).contains(name));
        }
        assert(f(s[i]).contains(name));
    }
}

/// The primary document is the first, in the order of the addresses, with a
/// `terraform` block.
pub proof fn primary_documents_come_first(
    state: StateStore,
    dir: Option<Seq<char>>,
    disk: DiskView,
    referenced: Option<Seq<Seq<char>>>,
)
    ensures
        ({
            let p = snapshot_of(state, dir, disk, referenced).primary_terraform_uri;
            &&& p is Some ==> exists|k: int| #[trigger]
                has_terraform(state, dir, k) && state.documents@[k].uri.text@ == p->0
            &&& forall|k: int| #[trigger]
                has_terraform(state, dir, k) ==> p is Some && !text_lt(
                    state.documents@[k].uri.text@,
                    p->0,
                )
        }),
{
    let s = module_bodies(state.documents@, dir);
    let f = terraform_uris();
    let all = flat_map(s, f);
    let set = name_set(all);
    let p = snapshot_of(state, dir, disk, referenced).primary_terraform_uri;
    if p is Some {
        name_set_contains(all, p->0);
        assert(set.contains(p->0)) by {
            assert(set[0] == p->0);
        }
        lemma_flat_map_contains(s, f, p->0);
        let i = choose|i: int| 0 <= i < s.len() && (#[trigger] f(s[i])).contains(p->0);
        let k = lemma_part_of(state, dir, i);
        let bs = blocks_named(s[i].1, "terraform"@);
        let uris = f(s[i]);
        let n = choose|n: int| 0 <= n < uris.len() && uris[n] == p->0;
        assert(bs.contains(bs[n]));
        lemma_blocks_named(s[i].1, "terraform"@, bs[n]);
        assert(has_block(state.documents@[k].body->0, bs[n]));
        assert(has_terraform(state, dir, k));
    }
    assert forall|k: int| #[trigger] has_terraform(state, dir, k) implies p is Some && !text_lt(
        state.documents@[k].uri.text@,
        p->0,
    ) by {
        let u = state.documents@[k].uri.text@;
        let i = lemma_part_in(state, dir, k);
        let b = choose|b: Block| #[trigger]
            has_block(state.documents@[k].body->0, b) && b.ident.text@ == "terraform"@;
        lemma_blocks_named(s[i].1, "terraform"@, b);
        let bs = blocks_named(s[i].1, "terraform"@);
        let n = choose|n: int| 0 <= n < bs.len() && bs[n] == b;
        assert(f(s[i])[n] == u);
        assert(f(s[i]).contains(u));
        lemma_flat_map_contains(s, f, u);
        name_set_contains(all, u);
        let j = choose|j: int| 0 <= j < set.len() && set[j] == u;
        pair_set_is_ascending_set(as_pairs(all));
        let q = pair_set(as_pairs(all));
        crate::order::lemma_text_lt_total(set[0], u);
        crate::order::lemma_text_lt_total(u, set[0]);
        crate::order::lemma_text_lt_total(u, u);
        lemma_zero(as_pairs(all), 0);
        lemma_zero(as_pairs(all), j);
        if j > 0 {
            assert(pair_lt(q[0], q[j]));
        }
    }
}

proof fn lemma_zero(p: Seq<(int, Seq<char>)>, j: int)
    requires
        forall|i: int| 0 <= i < p.len() ==> (#[trigger] p[i]).0 == 0,
        0 <= j < pair_set(p).len(),
    ensures
        pair_set(p)[j].0 == 0,
{
    pair_set_is_ascending_set(p);
    assert(pair_set(p).contains(pair_set(p)[j]));
    assert(p.contains(pair_set(p)[j]));
}

pub open spec fn has_terraform(state: StateStore, dir: Option<Seq<char>>, k: int) -> bool {
    is_part(state, dir, k) && exists|b: Block| #[trigger]
        has_block(state.documents@[k].body->0, b) && b.ident.text@ == "terraform"@
}

/// The files of a module are the configuration files that the listing of its
/// directory has.
pub proof fn present_files_are_listed(
    state: StateStore,
    dir: Seq<char>,
    disk: DiskView,
    referenced: Option<Seq<Seq<char>>>,
    i: int,
    name: Seq<char>,
)
    requires
        is_named(disk.listings@, dir, i),
    ensures
        snapshot_of(state, Some(dir), disk, referenced).present_files.contains(name) <==> texts(
            disk.listings@[i].1@,
        ).contains(name) && (ends_with(name, ".tf"@) || ends_with(name, ".tf.json"@)),
{
    lemma_named(disk.listings@, dir, i);
    let all = texts(disk.listings@[i].1@);
    name_set_contains(keep(all, is_config_file()), name);
    lemma_keep_contains(all, is_config_file(), name);
}

/// A module call of a document leads to a directory: its source is a local path
/// that resolves to it.
pub open spec fn leads(disk: DiskView, d: DocumentState, target: Seq<char>) -> bool {
    d.body is Some && d.uri.dir is Some && exists|b: Block, a: Attribute| #[trigger]
        leads_by(disk, d, target, b, a)
}

pub open spec fn leads_by(disk: DiskView, d: DocumentState, target: Seq<char>, b: Block, a: Attribute) -> bool {
    &&& has_block(d.body->0, b)
    &&& b.ident.text@ == "module"@
    &&& has_attribute(b.body, a)
    &&& a.key.text@ == "source"@
    &&& a.value.kind matches ExprKind::Str(s) && (starts_with(s@, "./"@) || starts_with(
        s@,
        "../"@,
    ) || starts_with(s@, "/"@)) && find_map(disk.sources@, resolves(d.uri.dir->0@, s@)) == Some(
        target,
    )
}

/// A module is a root exactly where no module call of the workspace leads to its
/// directory.
pub proof fn roots_are_not_called(
    state: StateStore,
    dir: Seq<char>,
    disk: DiskView,
    i: int,
)
    requires
        is_named(disk.canonical@, dir, i),
    ensures
        snapshot_of(state, Some(dir), disk, None).is_root <==> forall|k: int|
            0 <= k < state.documents@.len() ==> !leads(
                disk,
                #[trigger] state.documents@[k],
                disk.canonical@[i].1@,
            ),
{
    lemma_named(disk.canonical@, dir, i);
    let c = disk.canonical@[i].1@;
    assert forall|k: int| 0 <= k < state.documents@.len() implies calls_into(
        disk,
        dir,
        #[trigger] state.documents@[k],
    ) == leads(disk, state.documents@[k], c) by {
        lemma_leads(disk, state.documents@[k], c);
    }
    if snapshot_of(state, Some(dir), disk, None).is_root {
        assert forall|k: int| 0 <= k < state.documents@.len() implies !leads(
            disk,
            #[trigger] state.documents@[k],
            c,
        ) by {
            assert(!calls_into(disk, dir, state.documents@[k]));
        }
    } else {
        let k = choose|k: int|
            0 <= k < state.documents@.len() && calls_into(disk, dir, #[trigger] state.documents@[k]);
        assert(leads(disk, state.documents@[k], c));
    }
}

proof fn lemma_leads(disk: DiskView, d: DocumentState, c: Seq<char>)
    ensures
        doc_targets(disk)(d).contains(c) <==> leads(disk, d, c),
{
    if d.body is Some {
        let body = d.body->0;
        let s = blocks_named(body, "module"@);
        let g = call_targets(disk, opt_view(d.uri.dir));
        let h = attribute_target(disk, opt_view(d.uri.dir));
        lemma_flat_map_contains(s, g, c);
        if doc_targets(disk)(d).contains(c) {
            let n = choose|n: int| 0 <= n < s.len() && (#[trigger] g(s[n])).contains(c);
            let b = s[n];
            assert(s.contains(b));
            lemma_blocks_named(body, "module"@, b);
            let v = attributes(b.body);
            lemma_filter_map_contains(v, h, c);
            let m = choose|m: int| 0 <= m < v.len() && h(#[trigger] v[m]) == Some(c);
            assert(v.contains(v[m]));
            lemma_attributes(b.body, v[m]);
            assert(leads_by(disk, d, c, b, v[m]));
        }
        if leads(disk, d, c) {
            let (b, a) = choose|b: Block, a: Attribute| #[trigger] leads_by(disk, d, c, b, a);
            lemma_blocks_named(body, "module"@, b);
            lemma_attributes(b.body, a);
            let v = attributes(b.body);
            let m = choose|m: int| 0 <= m < v.len() && v[m] == a;
            lemma_filter_map_contains(v, h, c);
            assert(h(v[m]) == Some(c));
            let n = choose|n: int| 0 <= n < s.len() && s[n] == b;
            assert(g(s[n]).contains(c));
        }
    }
}

/// A symbol is referred to in the module where one of its places in the index
/// lies in the module's directory; without a directory any place will do.
pub proof fn references_of_the_module_count(
    m: ModuleSnapshot,
    state: StateStore,
    kind: SymbolKind,
    ty: Option<Seq<char>>,
    name: Seq<char>,
    e: int,
)
    requires
        is_entry(state.references_by_name@, kind, ty, name, e),
    ensures
        m.refers(state, KeyV { kind, resource_type: ty, name }) <==> exists|i: int|
            0 <= i < state.references_by_name@[e].locations@.len() && {
                let l = #[trigger] state.references_by_name@[e].locations@[i];
                m.module_dir is Some ==> l.dir is Some && l.dir->0@ == m.module_dir->0@
            },
{
    lemma_places(state.references_by_name@, kind, ty, name, e);
    let all = state.references_by_name@[e].locations@;
    let key = KeyV { kind, resource_type: ty, name };
    if m.refers(state, key) {
        let i = if m.module_dir is Some {
            choose|i: int|
                0 <= i < all.len() && opt_view((#[trigger] all[i]).dir) == Some(
                    m.module_dir->0@,
                )
        } else {
            0
        };
        assert(m.module_dir is Some ==> all[i].dir is Some && all[i].dir->0@
            == m.module_dir->0@);
    }
    if exists|i: int|
        0 <= i < all.len() && {
            let l = #[trigger] all[i];
            m.module_dir is Some ==> l.dir is Some && l.dir->0@ == m.module_dir->0@
        } {
        let i = choose|i: int|
            0 <= i < all.len() && {
                let l = #[trigger] all[i];
                m.module_dir is Some ==> l.dir is Some && l.dir->0@ == m.module_dir->0@
            };
        if m.module_dir is Some {
            assert(opt_view(all[i].dir) == Some(m.module_dir->0@));
        }
    }
}

// ---------------------------------------------------------------------
// Formatting

/// What the formatter makes of a document takes its place, where it differs; a
/// document that the formatter refuses or leaves as it is stays.
pub proof fn formatted_text_replaces_the_document(t: Seq<char>, f: Seq<char>)
    ensures
        format_edit(t, None) is None,
        format_edit(t, Some(t)) is None,
        f != t && t.len() > 0 ==> format_edit(t, Some(f)) == Some(
            EditV { range: document_range(t), new_text: f },
        ),
        document_range(t).start == (Position { line: 0, character: 0 }),
        formatting_answer(t, None) is None,
        formatting_answer(t, Some(t)) == Some(Seq::<EditV>::empty()),
{
}

/// The edits of a formatted range put the formatter's text there, with a line
/// feed at the end only where the range had one.
pub proof fn formatted_ranges_keep_their_end(range: Range, slice: Seq<char>, f: Seq<char>)
    ensures
        range_edits(range, slice, None) is None,
        range_edits(range, slice, Some(f)) matches Some(v) && v.len() <= 1 && (v.len() == 1
            ==> v[0].range == range && (slice.len() > 0 && slice.last() == '\n' ==> v[0].new_text
            == f) && (!(slice.len() > 0 && slice.last() == '\n') ==> v[0].new_text
            == without_newlines(f))),
        slice.len() > 0 && slice.last() == '\n' && f != slice ==> range_edits(
            range,
            slice,
            Some(f),
        )->0.len() == 1,
{
}

/// Only line feeds are taken off the end.
pub proof fn line_feeds_are_taken_off(s: Seq<char>) -> (n: nat)
    ensures
        n <= s.len(),
        without_newlines(s) == s.take(s.len() - n),
        forall|i: int| s.len() - n <= i < s.len() ==> #[trigger] s[i] == '\n',
        without_newlines(s).len() > 0 ==> without_newlines(s).last() != '\n',
    decreases s.len(),
{
    if s.len() > 0 && s.last() == '\n' {
        let n = line_feeds_are_taken_off(s.drop_last());
        assert(s.drop_last().take(s.len() - 1 - n) =~= s.take(s.len() - (n + 1)));
        assert forall|i: int| s.len() - (n + 1) <= i < s.len() implies #[trigger] s[i] == '\n' by {
            if i < s.len() - 1 {
                assert(s.drop_last()[i] == '\n');
            }
        }
        n + 1
    } else {
        assert(s.take(s.len() as int) =~= s);
        0
    }
}

/// A closing brace or an equals sign has the enclosing block formatted, no other
/// character.
pub proof fn typing_formats_the_block(ch: Seq<char>, body: Body, t: Seq<char>, pos: Position)
    ensures
        on_type_slice(ch, body, t, pos) matches Some(x) ==> (ch == "}"@ || ch == "="@) && enclosing(
            body,
            t,
            pos,
        ) == Some(x.0) && range_text(t, x.0) == Some(x.1),
        (ch == "}"@ || ch == "="@) && enclosing(body, t, pos) is Some && range_text(
            t,
            enclosing(body, t, pos)->0,
        ) is Some ==> on_type_slice(ch, body, t, pos) is Some,
{
}

/// The enclosing range is that of a block that holds the position, at some depth.
pub open spec fn encloses(body: Body, t: Seq<char>, pos: Position, r: Range) -> bool
    decreases body, blocks(body).len() + 1,
{
    encloses_upto(body, t, pos, r, blocks(body).len() as int)
}

pub open spec fn encloses_upto(body: Body, t: Seq<char>, pos: Position, r: Range, n: int) -> bool
    decreases body, n,
{
    if n <= 0 || n > blocks(body).len() {
        false
    } else {
        proof {
            crate::hcl::lemma_block_smaller(body, n - 1);
        }
        let b = blocks(body)[n - 1];
        encloses_upto(body, t, pos, r, n - 1) || (b.span is Some && span_range(t, b.span->0)
            == Some(r) && not_after(r.start, pos) && not_after(pos, r.end)) || encloses(
            b.body,
            t,
            pos,
            r,
        )
    }
}

pub proof fn enclosing_ranges_are_blocks(body: Body, t: Seq<char>, pos: Position, n: int)
    requires
        0 <= n <= blocks(body).len(),
    ensures
        enclosing_upto(body, t, pos, n) matches Some(r) ==> encloses_upto(body, t, pos, r, n),
    decreases body, n,
{
    if n > 0 {
        crate::hcl::lemma_block_smaller(body, n - 1);
        let b = blocks(body)[n - 1];
        enclosing_ranges_are_blocks(body, t, pos, n - 1);
        enclosing_ranges_are_blocks(b.body, t, pos, blocks(b.body).len() as int);
        if enclosing(b.body, t, pos) is Some {
            assert(encloses(b.body, t, pos, enclosing(b.body, t, pos)->0));
        }
        if let Some(r) = enclosing_upto(body, t, pos, n) {
            assert(encloses_upto(body, t, pos, r, n - 1) || encloses(b.body, t, pos, r)
                || holding_range(t, pos, b) == Some(r));
        }
    }
}

/// A block of the body that holds the position encloses it.
pub proof fn blocks_around_the_position_are_found(body: Body, t: Seq<char>, pos: Position, n: int, k: int)
    requires
        0 <= k < n <= blocks(body).len(),
        blocks(body)[k].span is Some,
        span_range(t, blocks(body)[k].span->0) matches Some(r) && not_after(r.start, pos)
            && not_after(pos, r.end),
    ensures
        enclosing_upto(body, t, pos, n) is Some,
        n == blocks(body).len() ==> enclosing(body, t, pos) is Some,
    decreases n,
{
    if k < n - 1 {
        blocks_around_the_position_are_found(body, t, pos, n - 1, k);
    }
}

/// The format action of a scope edits each document of the scope that the
/// formatter would change.
pub proof fn unformatted_documents_are_formatted(within: Seq<DocumentState>, n: int, i: int)
    requires
        0 <= i < n <= within.len(),
        within[i].formatted is Some,
        within[i].formatted->0@ != rope_text(within[i].rope),
        rope_text(within[i].rope).len() > 0,
    ensures
        has_edit(
            format_edits_upto(within, n),
            within[i].uri.text@,
            document_range(rope_text(within[i].rope)),
            within[i].formatted->0@,
        ),
    decreases n,
{
    let m = format_edits_upto(within, n - 1);
    let d = within[n - 1];
    let u = within[i].uri.text@;
    let r = document_range(rope_text(within[i].rope));
    let f = within[i].formatted->0@;
    let e = format_edit(rope_text(d.rope), opt_view(d.formatted));
    if e is Some {
        lemma_with_edits(m, d.uri.text@, seq![e->0], u, r, f);
    }
    if i < n - 1 {
        unformatted_documents_are_formatted(within, n - 1, i);
    } else {
        let own = seq![e->0];
        assert(own[0].range == r && own[0].new_text == f);
    }
}

/// The selection is formatted where the formatter changes it, in the document
/// itself.
pub proof fn selections_are_formatted(
    state: StateStore,
    uri: DocUri,
    k: int,
    range: Range,
    f: Seq<char>,
    slice: Seq<char>,
)
    requires
        is_doc(state, uri.text@, k),
        range_text(rope_text(state.documents@[k].rope), range) == Some(slice),
    ensures
        f == slice ==> format_selection(state, uri, range, Some(f)) is None,
        f != slice ==> (format_selection(state, uri, range, Some(f)) matches Some(a) && a.edit
            == WorkspaceEditV::Changes(
            seq![(uri.text@, seq![EditV { range, new_text: f }])],
        )),
        format_selection(state, uri, range, None) is None,
{
    lemma_doc(state, uri, k);
}

} // verus!
