//! Where definitions and references are found.

use crate::cursor::{
    reference_at, reference_holding, resource_at, symbol_at, symbol_at_cursor, CursorKind,
};
use crate::highlight::{highlight_in, highlights, DocumentHighlight, HighlightKind};
use crate::laws::common::{
    is_doc, is_entry, is_reference_at, keyed, lemma_doc, lemma_no_places, lemma_places,
    lemma_reference, names,
};
use crate::navigation::{
    definition_of, module_input, module_output, place_in, references_of, visible, GotoV,
};
use crate::position::{range_contains, Position};
use crate::seqs::{
    filter_map, find_map, keep, lemma_filter_map_contains, lemma_find_map_first,
    lemma_keep_contains, lemma_plus_contains,
};
use crate::state::{
    places, DocUri, DocumentState, KeyV, LocationV, ResourceSymbol, StateStore, Symbol, SymbolKind,
    SymbolLocation,
};
use crate::text::opt_view;
use vstd::prelude::*;

verus! {

/// The place can be seen from a directory; where there is no directory to go
/// by every place can.
pub open spec fn seen_from(l: SymbolLocation, dir: Option<String>) -> bool {
    dir matches Some(d) ==> l.dir is Some && l.dir->0@ == d@
}

/// An answer lists a place.
pub open spec fn lists(v: Seq<LocationV>, l: SymbolLocation) -> bool {
    exists|i: int|
        0 <= i < v.len() && (#[trigger] v[i]).uri == l.uri@ && v[i].range == l.range && v[i].dir
            == opt_view(l.dir)
}

/// A place of an answer is one of the given that can be seen.
pub open spec fn comes_from(x: LocationV, all: Seq<SymbolLocation>, dir: Option<String>) -> bool {
    exists|i: int|
        0 <= i < all.len() && seen_from(#[trigger] all[i], dir) && x.uri == all[i].uri@ && x.range
            == all[i].range && x.dir == opt_view(all[i].dir)
}

/// An answer lists exactly those of the places that can be seen.
pub open spec fn lists_seen(
    v: Seq<LocationV>,
    all: Seq<SymbolLocation>,
    dir: Option<String>,
) -> bool {
    &&& forall|i: int| 0 <= i < all.len() && seen_from(#[trigger] all[i], dir) ==> lists(v, all[i])
    &&& forall|j: int| 0 <= j < v.len() ==> comes_from(#[trigger] v[j], all, dir)
}

proof fn lemma_visible(all: Seq<SymbolLocation>, dir: Option<String>)
    ensures
        lists_seen(visible(all, opt_view(dir)), all, dir),
{
    let v = visible(all, opt_view(dir));
    match dir {
        Some(d) => {
            let kept = keep(all, place_in(d@));
            assert forall|i: int| 0 <= i < all.len() && seen_from(
                #[trigger] all[i],
                dir,
            ) implies lists(v, all[i]) by {
                lemma_keep_contains(all, place_in(d@), all[i]);
                assert(all.contains(all[i]));
                let k = choose|k: int| 0 <= k < kept.len() && kept[k] == all[i];
                assert(v[k] == all[i]@);
            }
            assert forall|k: int| 0 <= k < v.len() implies comes_from(#[trigger] v[k], all, dir) by {
                lemma_keep_contains(all, place_in(d@), kept[k]);
                assert(kept.contains(kept[k]));
                let i = choose|i: int| 0 <= i < all.len() && all[i] == kept[k];
                assert(seen_from(all[i], dir));
                assert(v[k] == all[i]@);
            }
        },
        None => {
            assert forall|i: int| 0 <= i < all.len() && seen_from(
                #[trigger] all[i],
                dir,
            ) implies lists(v, all[i]) by {
                assert(v[i] == all[i]@);
            }
            assert forall|k: int| 0 <= k < v.len() implies comes_from(#[trigger] v[k], all, dir) by {
                assert(v[k] == all[k]@);
                assert(seen_from(all[k], dir));
            }
        },
    }
}

/// Where the cursor is on a reference, and not on an input or an output of a
/// called module, each definition of the symbol that can be seen from the
/// document is a place to go to, and no other place is.
pub proof fn references_lead_to_their_definitions(
    state: StateStore,
    uri: DocUri,
    pos: Position,
    k: int,
    n: int,
    kind: SymbolKind,
    ty: Option<Seq<char>>,
    name: Seq<char>,
    e: int,
)
    requires
        is_doc(state, uri.text@, k),
        module_input(state, state.documents@[k], uri, pos) is None,
        module_output(state, state.documents@[k], uri, pos) is None,
        is_reference_at(state.documents@[k], pos, n),
        names(state.documents@[k].references@[n], kind, ty, name),
        is_entry(state.definitions_by_name@, kind, ty, name, e),
    ensures
        match definition_of(state, uri, pos) {
            Some(GotoV::Many(v)) => v.len() > 0 && lists_seen(
                v,
                state.definitions_by_name@[e].locations@,
                uri.dir,
            ),
            Some(GotoV::One(_)) => false,
            None => lists_seen(
                Seq::empty(),
                state.definitions_by_name@[e].locations@,
                uri.dir,
            ),
        },
{
    lemma_doc(state, uri, k);
    lemma_reference(state.documents@[k], pos, n);
    lemma_places(state.definitions_by_name@, kind, ty, name, e);
    let all = state.definitions_by_name@[e].locations@;
    lemma_visible(all, uri.dir);
    let v = visible(all, opt_view(uri.dir));
    if v.len() == 0 {
        assert(v =~= Seq::empty());
    }
}

/// A reference to a symbol that nothing defines leads nowhere.
pub proof fn undefined_references_lead_nowhere(
    state: StateStore,
    uri: DocUri,
    pos: Position,
    k: int,
    n: int,
    kind: SymbolKind,
    ty: Option<Seq<char>>,
    name: Seq<char>,
)
    requires
        is_doc(state, uri.text@, k),
        module_input(state, state.documents@[k], uri, pos) is None,
        module_output(state, state.documents@[k], uri, pos) is None,
        is_reference_at(state.documents@[k], pos, n),
        names(state.documents@[k].references@[n], kind, ty, name),
        forall|j: int|
            0 <= j < state.definitions_by_name@.len() ==> !keyed(
                #[trigger] state.definitions_by_name@[j],
                kind,
                ty,
                name,
            ),
    ensures
        definition_of(state, uri, pos) is None,
{
    lemma_doc(state, uri, k);
    lemma_reference(state.documents@[k], pos, n);
    lemma_no_places(state.definitions_by_name@, kind, ty, name);
    lemma_visible(
        places(state.definitions_by_name@, KeyV { kind, resource_type: ty, name }),
        uri.dir,
    );
    let v = visible(
        places(state.definitions_by_name@, KeyV { kind, resource_type: ty, name }),
        opt_view(uri.dir),
    );
    if v.len() > 0 {
        assert(comes_from(
            v[0],
            places(state.definitions_by_name@, KeyV { kind, resource_type: ty, name }),
            uri.dir,
        ));
    }
}

/// What is found of a symbol under the cursor are its references that can be
/// seen from the document; its definitions come first where they are asked
/// for, and else not at all.
pub proof fn uses_of_a_reference_are_found(
    state: StateStore,
    uri: DocUri,
    pos: Position,
    k: int,
    n: int,
    kind: SymbolKind,
    ty: Option<Seq<char>>,
    name: Seq<char>,
    d: int,
    e: int,
)
    requires
        is_doc(state, uri.text@, k),
        is_reference_at(state.documents@[k], pos, n),
        names(state.documents@[k].references@[n], kind, ty, name),
        is_entry(state.definitions_by_name@, kind, ty, name, d),
        is_entry(state.references_by_name@, kind, ty, name, e),
    ensures
        match references_of(state, uri, pos, false) {
            Some(v) => v.len() > 0 && lists_seen(
                v,
                state.references_by_name@[e].locations@,
                uri.dir,
            ),
            None => lists_seen(
                Seq::empty(),
                state.references_by_name@[e].locations@,
                uri.dir,
            ),
        },
        match references_of(state, uri, pos, true) {
            Some(v) => exists|i: int|
                0 <= i <= v.len() && lists_seen(
                    #[trigger] v.take(i),
                    state.definitions_by_name@[d].locations@,
                    uri.dir,
                ) && lists_seen(v.skip(i), state.references_by_name@[e].locations@, uri.dir),
            None => lists_seen(
                Seq::empty(),
                state.definitions_by_name@[d].locations@,
                uri.dir,
            ) && lists_seen(
                Seq::empty(),
                state.references_by_name@[e].locations@,
                uri.dir,
            ),
        },
{
    lemma_doc(state, uri, k);
    lemma_reference(state.documents@[k], pos, n);
    lemma_places(state.definitions_by_name@, kind, ty, name, d);
    lemma_places(state.references_by_name@, kind, ty, name, e);
    lemma_visible(state.definitions_by_name@[d].locations@, uri.dir);
    lemma_visible(state.references_by_name@[e].locations@, uri.dir);
    let a = visible(state.definitions_by_name@[d].locations@, opt_view(uri.dir));
    let b = visible(state.references_by_name@[e].locations@, opt_view(uri.dir));
    assert(Seq::<LocationV>::empty() + b =~= b);
    let v = a + b;
    assert(v.take(a.len() as int) =~= a);
    assert(v.skip(a.len() as int) =~= b);
    if a.len() == 0 {
        assert(a =~= Seq::empty());
    }
    if b.len() == 0 {
        assert(b =~= Seq::empty());
    }
    match references_of(state, uri, pos, true) {
        Some(w) => {
            assert(w == v);
            assert(lists_seen(w.take(a.len() as int), state.definitions_by_name@[d].locations@, uri.dir));
        },
        None => {
            assert(v.len() == 0);
            assert(a.len() == 0 && b.len() == 0);
        },
    }
}

/// In the document of the cursor each definition of the symbol that is referred
/// to is highlighted as written and each reference as read; no other range is
/// highlighted.
pub proof fn occurrences_are_highlighted(
    state: StateStore,
    uri: DocUri,
    pos: Position,
    k: int,
    n: int,
    kind: SymbolKind,
    ty: Option<Seq<char>>,
    name: Seq<char>,
    d: int,
    e: int,
    h: DocumentHighlight,
)
    requires
        is_doc(state, uri.text@, k),
        is_reference_at(state.documents@[k], pos, n),
        names(state.documents@[k].references@[n], kind, ty, name),
        is_entry(state.definitions_by_name@, kind, ty, name, d),
        is_entry(state.references_by_name@, kind, ty, name, e),
    ensures
        ({
            let defs = state.definitions_by_name@[d].locations@;
            let refs = state.references_by_name@[e].locations@;
            (highlights(state, uri, pos) matches Some(v) && v.contains(h)) <==> {
                ||| h.kind == HighlightKind::Write && exists|i: int|
                    0 <= i < defs.len() && (#[trigger] defs[i]).uri@ == uri.text@ && defs[i].range
                        == h.range
                ||| h.kind == HighlightKind::Read && exists|i: int|
                    0 <= i < refs.len() && (#[trigger] refs[i]).uri@ == uri.text@ && refs[i].range
                        == h.range
            }
        }),
{
    lemma_doc(state, uri, k);
    lemma_reference(state.documents@[k], pos, n);
    lemma_places(state.definitions_by_name@, kind, ty, name, d);
    lemma_places(state.references_by_name@, kind, ty, name, e);
    let defs = state.definitions_by_name@[d].locations@;
    let refs = state.references_by_name@[e].locations@;
    let fw = highlight_in(uri.text@, HighlightKind::Write);
    let fr = highlight_in(uri.text@, HighlightKind::Read);
    lemma_filter_map_contains(defs, fw, h);
    lemma_filter_map_contains(refs, fr, h);
    lemma_plus_contains(filter_map(defs, fw), filter_map(refs, fr), h);
    if h.kind == HighlightKind::Write && exists|i: int|
        0 <= i < defs.len() && (#[trigger] defs[i]).uri@ == uri.text@ && defs[i].range == h.range {
        let i = choose|i: int|
            0 <= i < defs.len() && (#[trigger] defs[i]).uri@ == uri.text@ && defs[i].range
                == h.range;
        assert(fw(defs[i]) == Some(h));
    }
    if h.kind == HighlightKind::Read && exists|i: int|
        0 <= i < refs.len() && (#[trigger] refs[i]).uri@ == uri.text@ && refs[i].range == h.range {
        let i = choose|i: int|
            0 <= i < refs.len() && (#[trigger] refs[i]).uri@ == uri.text@ && refs[i].range
                == h.range;
        assert(fr(refs[i]) == Some(h));
    }
}

/// A table of named symbols has one of the name with the place.
pub open spec fn has_symbol(v: Seq<Symbol>, name: Seq<char>, l: LocationV) -> bool {
    exists|i: int|
        0 <= i < v.len() && (#[trigger] v[i]).name@ == name && v[i].location.range == l.range
            && v[i].location.uri@ == l.uri
}

pub open spec fn has_resource(
    v: Seq<ResourceSymbol>,
    ty: Option<Seq<char>>,
    name: Seq<char>,
    l: LocationV,
) -> bool {
    exists|i: int|
        0 <= i < v.len() && (#[trigger] v[i]).name@ == name && ty == Some(v[i].resource_type@)
            && v[i].location.range == l.range && v[i].location.uri@ == l.uri
}

/// What is under the cursor is what the document has there: the symbol of the
/// reference at the cursor, or a declaration of the kind, the type and the name
/// whose block the cursor is in.
pub proof fn symbols_under_the_cursor_are_the_documents_own(doc: DocumentState, pos: Position)
    ensures
        match symbol_at_cursor(doc, pos) {
            Some(x) => range_contains(x.location.range, pos) && if x.kind == CursorKind::Reference {
                exists|n: int|
                    #[trigger] is_reference_at(doc, pos, n) && names(
                        doc.references@[n],
                        x.key.kind,
                        x.key.resource_type,
                        x.key.name,
                    ) && doc.references@[n].location.range == x.location.range
            } else {
                (forall|n: int|
                    0 <= n < doc.references@.len() ==> !range_contains(
                        (#[trigger] doc.references@[n]).location.range,
                        pos,
                    )) && match x.key.kind {
                    SymbolKind::Variable => x.key.resource_type is None && has_symbol(
                        doc.symbols.variables@,
                        x.key.name,
                        x.location,
                    ),
                    SymbolKind::Local => x.key.resource_type is None && has_symbol(
                        doc.symbols.locals@,
                        x.key.name,
                        x.location,
                    ),
                    SymbolKind::Output => x.key.resource_type is None && has_symbol(
                        doc.symbols.outputs@,
                        x.key.name,
                        x.location,
                    ),
                    SymbolKind::Module => x.key.resource_type is None && has_symbol(
                        doc.symbols.modules@,
                        x.key.name,
                        x.location,
                    ),
                    SymbolKind::Resource => has_resource(
                        doc.symbols.resources@,
                        x.key.resource_type,
                        x.key.name,
                        x.location,
                    ),
                    SymbolKind::DataSource => has_resource(
                        doc.symbols.data_sources@,
                        x.key.resource_type,
                        x.key.name,
                        x.location,
                    ),
                    _ => false,
                }
            },
            None => {
                &&& forall|n: int|
                    0 <= n < doc.references@.len() ==> !range_contains(
                        (#[trigger] doc.references@[n]).location.range,
                        pos,
                    )
                &&& none_at(doc.symbols.variables@, pos)
                &&& none_at(doc.symbols.locals@, pos)
                &&& none_at(doc.symbols.outputs@, pos)
                &&& none_at(doc.symbols.modules@, pos)
                &&& no_resource_at(doc.symbols.resources@, pos)
                &&& no_resource_at(doc.symbols.data_sources@, pos)
            },
        },
{
    let i = lemma_find_map_first(doc.references@, reference_holding(pos));
    match reference_at(doc, pos) {
        Some(r) => {
            assert forall|j: int| 0 <= j < i implies !range_contains(
                (#[trigger] doc.references@[j]).location.range,
                pos,
            ) by {
                assert(reference_holding(pos)(doc.references@[j]) is None);
            }
            assert(is_reference_at(doc, pos, i));
        },
        None => {
            assert forall|n: int| 0 <= n < doc.references@.len() implies !range_contains(
                (#[trigger] doc.references@[n]).location.range,
                pos,
            ) by {
                assert(reference_holding(pos)(doc.references@[n]) is None);
            }
            let t = doc.symbols;
            lemma_symbol_at(t.variables@, SymbolKind::Variable, pos);
            lemma_symbol_at(t.locals@, SymbolKind::Local, pos);
            lemma_symbol_at(t.outputs@, SymbolKind::Output, pos);
            lemma_symbol_at(t.modules@, SymbolKind::Module, pos);
            lemma_resource_at(t.resources@, SymbolKind::Resource, pos);
            lemma_resource_at(t.data_sources@, SymbolKind::DataSource, pos);
        },
    }
}

pub open spec fn none_at(v: Seq<Symbol>, pos: Position) -> bool {
    forall|i: int|
        0 <= i < v.len() ==> !range_contains((#[trigger] v[i]).location.range, pos)
}

pub open spec fn no_resource_at(v: Seq<ResourceSymbol>, pos: Position) -> bool {
    forall|i: int|
        0 <= i < v.len() ==> !range_contains((#[trigger] v[i]).location.range, pos)
}

proof fn lemma_symbol_at(v: Seq<Symbol>, kind: SymbolKind, pos: Position)
    ensures
        match find_map(v, symbol_at(kind, pos)) {
            Some(x) => x.key.kind == kind && x.key.resource_type is None && has_symbol(
                v,
                x.key.name,
                x.location,
            ) && x.kind == CursorKind::Definition && range_contains(x.location.range, pos),
            None => none_at(v, pos),
        },
{
    let i = lemma_find_map_first(v, symbol_at(kind, pos));
    if find_map(v, symbol_at(kind, pos)) is None {
        assert forall|j: int| 0 <= j < v.len() implies !range_contains(
            (#[trigger] v[j]).location.range,
            pos,
        ) by {
            assert(symbol_at(kind, pos)(v[j]) is None);
        }
    }
}

proof fn lemma_resource_at(v: Seq<ResourceSymbol>, kind: SymbolKind, pos: Position)
    ensures
        match find_map(v, resource_at(kind, pos)) {
            Some(x) => x.key.kind == kind && has_resource(
                v,
                x.key.resource_type,
                x.key.name,
                x.location,
            ) && x.kind == CursorKind::Definition && range_contains(x.location.range, pos),
            None => no_resource_at(v, pos),
        },
{
    let i = lemma_find_map_first(v, resource_at(kind, pos));
    if find_map(v, resource_at(kind, pos)) is None {
        assert forall|j: int| 0 <= j < v.len() implies !range_contains(
            (#[trigger] v[j]).location.range,
            pos,
        ) by {
            assert(resource_at(kind, pos)(v[j]) is None);
        }
    }
}

} // verus!
