//! The words that the laws are written with.

use crate::cursor::{reference_at, reference_holding};
use crate::position::{range_contains, Position};
use crate::seqs::{find_map, lemma_find_map_at, lemma_find_map_first};
use crate::state::{
    doc_with, places, places_if, primary_doc, DocUri, DocumentState, KeyV, Reference, ReferenceKind,
    StateStore, SymbolIndex, SymbolKind,
};
use vstd::prelude::*;

verus! {

/// The document at index `k` is the one with the URI.
pub open spec fn is_doc(state: StateStore, uri: Seq<char>, k: int) -> bool {
    0 <= k < state.documents@.len() && state.documents@[k].uri.text@ == uri && forall|j: int|
        0 <= j < k ==> (#[trigger] state.documents@[j]).uri.text@ != uri
}

pub proof fn lemma_doc(state: StateStore, uri: DocUri, k: int)
    requires
        is_doc(state, uri.text@, k),
    ensures
        find_map(state.documents@, primary_doc(uri)) == Some(state.documents@[k]),
        find_map(state.documents@, doc_with(uri.text@)) == Some(state.documents@[k]),
{
    lemma_find_map_at(state.documents@, doc_with(uri.text@), k);
}

/// The reference at index `n` of a document is the one at a position: the
/// first whose range holds it.
pub open spec fn is_reference_at(doc: DocumentState, pos: Position, n: int) -> bool {
    0 <= n < doc.references@.len() && range_contains(doc.references@[n].location.range, pos)
        && forall|j: int|
        0 <= j < n ==> !range_contains((#[trigger] doc.references@[j]).location.range, pos)
}

pub proof fn lemma_reference(doc: DocumentState, pos: Position, n: int)
    requires
        is_reference_at(doc, pos, n),
    ensures
        reference_at(doc, pos) == Some(doc.references@[n]),
{
    lemma_find_map_at(doc.references@, reference_holding(pos), n);
}

/// The entry of an index for a symbol: the first whose key has the kind, the
/// type and the name.
pub open spec fn is_entry(
    index: Seq<SymbolIndex>,
    kind: SymbolKind,
    ty: Option<Seq<char>>,
    name: Seq<char>,
    e: int,
) -> bool {
    0 <= e < index.len() && keyed(index[e], kind, ty, name) && forall|j: int|
        0 <= j < e ==> !keyed(#[trigger] index[j], kind, ty, name)
}

pub open spec fn keyed(
    e: SymbolIndex,
    kind: SymbolKind,
    ty: Option<Seq<char>>,
    name: Seq<char>,
) -> bool {
    e.key.kind == kind && e.key.name@ == name && match (e.key.resource_type, ty) {
        (Some(a), Some(b)) => a@ == b,
        (None, None) => true,
        _ => false,
    }
}

pub proof fn lemma_places(
    index: Seq<SymbolIndex>,
    kind: SymbolKind,
    ty: Option<Seq<char>>,
    name: Seq<char>,
    e: int,
)
    requires
        is_entry(index, kind, ty, name, e),
    ensures
        places(index, KeyV { kind, resource_type: ty, name }) == index[e].locations@,
{
    let f = places_if(KeyV { kind, resource_type: ty, name });
    assert forall|j: int| 0 <= j < e implies f(#[trigger] index[j]) is None by {
        assert(!keyed(index[j], kind, ty, name));
    }
    lemma_find_map_at(index, f, e);
}

pub proof fn lemma_no_places(
    index: Seq<SymbolIndex>,
    kind: SymbolKind,
    ty: Option<Seq<char>>,
    name: Seq<char>,
)
    requires
        forall|j: int| 0 <= j < index.len() ==> !keyed(#[trigger] index[j], kind, ty, name),
    ensures
        places(index, KeyV { kind, resource_type: ty, name }).len() == 0,
{
    let f = places_if(KeyV { kind, resource_type: ty, name });
    let i = lemma_find_map_first(index, f);
    if find_map(index, f) is Some {
        assert(keyed(index[i], kind, ty, name));
    }
}

/// A reference names a symbol of a kind: `var.x` a variable, `local.x` a local
/// value, `module.x` a module call, `t.x` a resource, `data.t.x` a data source.
pub open spec fn names(
    r: Reference,
    kind: SymbolKind,
    ty: Option<Seq<char>>,
    name: Seq<char>,
) -> bool {
    match r.kind {
        ReferenceKind::Variable { name: n } => kind == SymbolKind::Variable && ty is None && n@
            == name,
        ReferenceKind::Local { name: n } => kind == SymbolKind::Local && ty is None && n@ == name,
        ReferenceKind::Module { name: n } => kind == SymbolKind::Module && ty is None && n@ == name,
        ReferenceKind::Resource { resource_type, name: n } => kind == SymbolKind::Resource && ty
            == Some(resource_type@) && n@ == name,
        ReferenceKind::DataSource { resource_type, name: n } => kind == SymbolKind::DataSource
            && ty == Some(resource_type@) && n@ == name,
    }
}

} // verus!
