//! Reference counts above definitions.

use crate::state::{find_doc, primary_doc};
use crate::position::Range;
use crate::seqs::{each, find_map};
use crate::state::{
    find_places, name_key, places, resource_key, DocUri, DocumentState, KeyV, ResourceSymbol,
    StateStore, Symbol, SymbolKey, SymbolKind,
};
use crate::text::{concat2, decimal, u64_text};
use vstd::prelude::*;

verus! {

/// A line above a definition that shows its references when clicked.
#[derive(Debug)]
pub struct CodeLens {
    pub range: Range,
    pub title: String,
    pub command: String,
}

pub struct LensV {
    pub range: Range,
    pub title: Seq<char>,
    pub command: Seq<char>,
}

impl View for CodeLens {
    type V = LensV;

    open spec fn view(&self) -> LensV {
        LensV { range: self.range, title: self.title@, command: self.command@ }
    }
}

pub open spec fn lenses_view(v: Seq<CodeLens>) -> Seq<LensV> {
    Seq::new(v.len(), |i: int| v[i]@)
}

pub open spec fn count_label(n: nat) -> Seq<char> {
    if n == 1 {
        "1 reference"@
    } else {
        decimal(n) + " references"@
    }
}

/// The lens of a symbol: how often it is referred to, over all documents.
pub open spec fn lens_of(state: StateStore, range: Range, key: KeyV) -> LensV {
    LensV {
        range,
        title: count_label(places(state.references_by_name@, key).len()),
        command: "editor.action.showReferences"@,
    }
}

pub open spec fn symbol_lens(state: StateStore, kind: SymbolKind) -> spec_fn(Symbol) -> LensV {
    |s: Symbol| lens_of(state, s.location.range, name_key(kind, s.name@))
}

pub open spec fn resource_lens(state: StateStore, kind: SymbolKind) -> spec_fn(
    ResourceSymbol,
) -> LensV {
    |s: ResourceSymbol|
        lens_of(state, s.location.range, resource_key(kind, s.resource_type@, s.name@))
}

/// A lens for each definition of a document.
pub open spec fn lenses(doc: DocumentState, state: StateStore) -> Seq<LensV> {
    let t = doc.symbols;
    each(t.variables@, symbol_lens(state, SymbolKind::Variable)) + each(
        t.locals@,
        symbol_lens(state, SymbolKind::Local),
    ) + each(t.outputs@, symbol_lens(state, SymbolKind::Output)) + each(
        t.modules@,
        symbol_lens(state, SymbolKind::Module),
    ) + each(t.resources@, resource_lens(state, SymbolKind::Resource)) + each(
        t.data_sources@,
        resource_lens(state, SymbolKind::DataSource),
    )
}

fn lens_for(state: &StateStore, range: Range, key: SymbolKey) -> (r: CodeLens)
    ensures
        r@ == lens_of(*state, range, key@),
{
    let n: usize = match find_places(&state.references_by_name, &key) {
        Some(v) => v.len(),
        None => 0,
    };
    let title = if n == 1 {
        "1 reference".to_owned()
    } else {
        concat2(u64_text(n as u64).as_str(), " references")
    };
    CodeLens { range, title, command: "editor.action.showReferences".to_owned() }
}

fn push_symbol_lenses(
    out: &mut Vec<CodeLens>,
    state: &StateStore,
    v: &Vec<Symbol>,
    kind: SymbolKind,
)
    ensures
        lenses_view(final(out)@) == lenses_view(old(out)@) + each(v@, symbol_lens(*state, kind)),
{
    let ghost start = lenses_view(out@);
    let ghost f = symbol_lens(*state, kind);
    assert(lenses_view(out@) =~= start + each(v@.take(0), f));
    for i in 0..v.len()
        invariant
            f == symbol_lens(*state, kind),
            lenses_view(out@) == start + each(v@.take(i as int), f),
    {
        let lens = lens_for(state, v[i].location.range, SymbolKey::new(kind, v[i].name.as_str()));
        let ghost before = lenses_view(out@);
        out.push(lens);
        assert(lenses_view(out@) =~= before.push(lens@));
        assert(lenses_view(out@) =~= start + each(v@.take(i + 1), f));
    }
    assert(v@.take(v@.len() as int) =~= v@);
}

fn push_resource_lenses(
    out: &mut Vec<CodeLens>,
    state: &StateStore,
    v: &Vec<ResourceSymbol>,
    kind: SymbolKind,
)
    ensures
        lenses_view(final(out)@) == lenses_view(old(out)@) + each(v@, resource_lens(*state, kind)),
{
    let ghost start = lenses_view(out@);
    let ghost f = resource_lens(*state, kind);
    assert(lenses_view(out@) =~= start + each(v@.take(0), f));
    for i in 0..v.len()
        invariant
            f == resource_lens(*state, kind),
            lenses_view(out@) == start + each(v@.take(i as int), f),
    {
        let lens = lens_for(
            state,
            v[i].location.range,
            SymbolKey::resource(kind, v[i].resource_type.as_str(), v[i].name.as_str()),
        );
        let ghost before = lenses_view(out@);
        out.push(lens);
        assert(lenses_view(out@) =~= before.push(lens@));
        assert(lenses_view(out@) =~= start + each(v@.take(i + 1), f));
    }
    assert(v@.take(v@.len() as int) =~= v@);
}

/// The lenses of a document.
pub fn collect(doc: &DocumentState, state: &StateStore) -> (r: Vec<CodeLens>)
    ensures
        lenses_view(r@) == lenses(*doc, *state),
{
    let mut out: Vec<CodeLens> = Vec::new();
    assert(lenses_view(out@) =~= Seq::<LensV>::empty());
    push_symbol_lenses(&mut out, state, &doc.symbols.variables, SymbolKind::Variable);
    assert(lenses_view(out@) =~= each(
        doc.symbols.variables@,
        symbol_lens(*state, SymbolKind::Variable),
    ));
    push_symbol_lenses(&mut out, state, &doc.symbols.locals, SymbolKind::Local);
    push_symbol_lenses(&mut out, state, &doc.symbols.outputs, SymbolKind::Output);
    push_symbol_lenses(&mut out, state, &doc.symbols.modules, SymbolKind::Module);
    push_resource_lenses(&mut out, state, &doc.symbols.resources, SymbolKind::Resource);
    push_resource_lenses(&mut out, state, &doc.symbols.data_sources, SymbolKind::DataSource);
    out
}

pub open spec fn code_lens_answer(state: StateStore, uri: DocUri) -> Option<Seq<LensV>> {
    match find_map(state.documents@, primary_doc(uri)) {
        Some(doc) => if lenses(doc, state).len() == 0 {
            None
        } else {
            Some(lenses(doc, state))
        },
        None => None,
    }
}

pub open spec fn opt_lenses(v: Option<Vec<CodeLens>>) -> Option<Seq<LensV>> {
    match v {
        Some(v) => Some(lenses_view(v@)),
        None => None,
    }
}

/// The lenses of a document, `None` where there are none.
pub fn code_lens(state: &StateStore, uri: &DocUri) -> (r: Option<Vec<CodeLens>>)
    ensures
        opt_lenses(r) == code_lens_answer(*state, *uri),
{
    let doc = match find_doc(state, uri) {
        Some(d) => d,
        None => {
            return None;
        },
    };
    let out = collect(doc, state);
    assert(lenses_view(out@).len() == out@.len());
    if out.len() == 0 {
        None
    } else {
        Some(out)
    }
}

} // verus!
