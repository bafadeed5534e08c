//! The symbol under the cursor, used by hover, rename and references.

use crate::position::{contains, range_contains, Position};
use crate::seqs::{find_map, lemma_find_map_step, lemma_take_full};
use crate::state::{
    key_of, name_key, reference_key, resource_key, DocumentState, KeyV, LocationV, Reference,
    ResourceSymbol, Symbol, SymbolKey, SymbolKind, SymbolLocation, SymbolTable,
};
use vstd::prelude::*;

verus! {

/// Whether the target under the cursor is a definition or a reference.
#[derive(Debug, Clone, Copy, PartialEq, Eq, Structural)]
pub enum CursorKind {
    /// A reference such as `var.region`.
    Reference,
    /// The defining block of a symbol.
    Definition,
}

/// A symbol, the place of what is under the cursor, and which of the two it is.
#[derive(Debug)]
pub struct CursorTarget {
    pub key: SymbolKey,
    pub location: SymbolLocation,
    pub kind: CursorKind,
}

pub struct TargetV {
    pub key: KeyV,
    pub location: LocationV,
    pub kind: CursorKind,
}

impl View for CursorTarget {
    type V = TargetV;

    open spec fn view(&self) -> TargetV {
        TargetV { key: self.key@, location: self.location@, kind: self.kind }
    }
}

pub open spec fn opt_target(t: Option<CursorTarget>) -> Option<TargetV> {
    match t {
        Some(t) => Some(t@),
        None => None,
    }
}

/// The first of two that there is.
pub open spec fn either<A>(a: Option<A>, b: Option<A>) -> Option<A> {
    match a {
        Some(x) => Some(x),
        None => b,
    }
}

/// A reference whose range holds the position.
pub open spec fn reference_holding(pos: Position) -> spec_fn(Reference) -> Option<Reference> {
    |r: Reference|
        if range_contains(r.location.range, pos) {
            Some(r)
        } else {
            None
        }
}

/// The reference at a position: the first whose range holds it.
pub open spec fn reference_at(doc: DocumentState, pos: Position) -> Option<Reference> {
    find_map(doc.references@, reference_holding(pos))
}

/// The reference at a position.
pub fn reference_at_position(doc: &DocumentState, pos: Position) -> (r: Option<&Reference>)
    ensures
        match r {
            Some(x) => reference_at(*doc, pos) == Some(*x),
            None => reference_at(*doc, pos) is None,
        },
{
    let ghost s = doc.references@;
    let ghost f = reference_holding(pos);
    proof {
        lemma_take_full(s);
    }
    for i in 0..doc.references.len()
        invariant
            s == doc.references@,
            f == reference_holding(pos),
            find_map(s, f) == find_map(s.skip(i as int), f),
    {
        proof {
            lemma_find_map_step(s, f, i as int);
        }
        if contains(&doc.references[i].location.range, pos) {
            return Some(&doc.references[i]);
        }
    }
    None
}

/// The definition of a named symbol whose range holds the position.
pub open spec fn symbol_at(kind: SymbolKind, pos: Position) -> spec_fn(Symbol) -> Option<TargetV> {
    |s: Symbol|
        if range_contains(s.location.range, pos) {
            Some(
                TargetV {
                    key: name_key(kind, s.name@),
                    location: s.location@,
                    kind: CursorKind::Definition,
                },
            )
        } else {
            None
        }
}

pub open spec fn resource_at(kind: SymbolKind, pos: Position) -> spec_fn(ResourceSymbol) -> Option<
    TargetV,
> {
    |s: ResourceSymbol|
        if range_contains(s.location.range, pos) {
            Some(
                TargetV {
                    key: resource_key(kind, s.resource_type@, s.name@),
                    location: s.location@,
                    kind: CursorKind::Definition,
                },
            )
        } else {
            None
        }
}

/// The definition whose range holds the position: of a variable, a local, an
/// output, a module, a resource or a data source, looked for in this order.
pub open spec fn definition_at(t: SymbolTable, pos: Position) -> Option<TargetV> {
    either(
        find_map(t.variables@, symbol_at(SymbolKind::Variable, pos)),
        either(
            find_map(t.locals@, symbol_at(SymbolKind::Local, pos)),
            either(
                find_map(t.outputs@, symbol_at(SymbolKind::Output, pos)),
                either(
                    find_map(t.modules@, symbol_at(SymbolKind::Module, pos)),
                    either(
                        find_map(t.resources@, resource_at(SymbolKind::Resource, pos)),
                        find_map(t.data_sources@, resource_at(SymbolKind::DataSource, pos)),
                    ),
                ),
            ),
        ),
    )
}

/// The symbol under the cursor: a reference before a definition.
pub open spec fn symbol_at_cursor(doc: DocumentState, pos: Position) -> Option<TargetV> {
    match reference_at(doc, pos) {
        Some(r) => Some(
            TargetV {
                key: key_of(r.kind),
                location: r.location@,
                kind: CursorKind::Reference,
            },
        ),
        None => definition_at(doc.symbols, pos),
    }
}

fn find_symbol(v: &Vec<Symbol>, kind: SymbolKind, pos: Position) -> (r: Option<CursorTarget>)
    ensures
        opt_target(r) == find_map(v@, symbol_at(kind, pos)),
{
    let ghost f = symbol_at(kind, pos);
    proof {
        lemma_take_full(v@);
    }
    for i in 0..v.len()
        invariant
            f == symbol_at(kind, pos),
            find_map(v@, f) == find_map(v@.skip(i as int), f),
    {
        proof {
            lemma_find_map_step(v@, f, i as int);
        }
        if contains(&v[i].location.range, pos) {
            return Some(
                CursorTarget {
                    key: SymbolKey::new(kind, v[i].name.as_str()),
                    location: v[i].location.duplicate(),
                    kind: CursorKind::Definition,
                },
            );
        }
    }
    None
}

fn find_resource(v: &Vec<ResourceSymbol>, kind: SymbolKind, pos: Position) -> (r: Option<
    CursorTarget,
>)
    ensures
        opt_target(r) == find_map(v@, resource_at(kind, pos)),
{
    let ghost f = resource_at(kind, pos);
    proof {
        lemma_take_full(v@);
    }
    for i in 0..v.len()
        invariant
            f == resource_at(kind, pos),
            find_map(v@, f) == find_map(v@.skip(i as int), f),
    {
        proof {
            lemma_find_map_step(v@, f, i as int);
        }
        if contains(&v[i].location.range, pos) {
            return Some(
                CursorTarget {
                    key: SymbolKey::resource(kind, v[i].resource_type.as_str(), v[i].name.as_str()),
                    location: v[i].location.duplicate(),
                    kind: CursorKind::Definition,
                },
            );
        }
    }
    None
}

/// The symbol under the cursor, whether the cursor is on a reference or on
/// the defining block.
pub fn find_symbol_at_cursor(doc: &DocumentState, pos: Position) -> (r: Option<CursorTarget>)
    ensures
        opt_target(r) == symbol_at_cursor(*doc, pos),
{
    if let Some(reference) = reference_at_position(doc, pos) {
        return Some(
            CursorTarget {
                key: reference_key(&reference.kind),
                location: reference.location.duplicate(),
                kind: CursorKind::Reference,
            },
        );
    }
    let t = find_symbol(&doc.symbols.variables, SymbolKind::Variable, pos);
    if t.is_some() {
        return t;
    }
    let t = find_symbol(&doc.symbols.locals, SymbolKind::Local, pos);
    if t.is_some() {
        return t;
    }
    let t = find_symbol(&doc.symbols.outputs, SymbolKind::Output, pos);
    if t.is_some() {
        return t;
    }
    let t = find_symbol(&doc.symbols.modules, SymbolKind::Module, pos);
    if t.is_some() {
        return t;
    }
    let t = find_resource(&doc.symbols.resources, SymbolKind::Resource, pos);
    if t.is_some() {
        return t;
    }
    find_resource(&doc.symbols.data_sources, SymbolKind::DataSource, pos)
}

pub open spec fn key_under(doc: DocumentState, pos: Position) -> Option<KeyV> {
    match symbol_at_cursor(doc, pos) {
        Some(t) => Some(t.key),
        None => None,
    }
}

/// The key of the symbol under the cursor.
pub fn key_at_cursor(doc: &DocumentState, pos: Position) -> (r: Option<SymbolKey>)
    ensures
        match r {
            Some(k) => key_under(*doc, pos) == Some(k@),
            None => key_under(*doc, pos) is None,
        },
{
    match find_symbol_at_cursor(doc, pos) {
        Some(t) => Some(t.key),
        None => None,
    }
}

/// What is found under the cursor holds the cursor.
pub proof fn target_holds_cursor(doc: DocumentState, pos: Position)
    ensures
        symbol_at_cursor(doc, pos) matches Some(t) ==> range_contains(t.location.range, pos),
{
    lemma_found(doc.references@, reference_holding(pos));
    let t = doc.symbols;
    lemma_found(t.variables@, symbol_at(SymbolKind::Variable, pos));
    lemma_found(t.locals@, symbol_at(SymbolKind::Local, pos));
    lemma_found(t.outputs@, symbol_at(SymbolKind::Output, pos));
    lemma_found(t.modules@, symbol_at(SymbolKind::Module, pos));
    lemma_found(t.resources@, resource_at(SymbolKind::Resource, pos));
    lemma_found(t.data_sources@, resource_at(SymbolKind::DataSource, pos));
}

/// What is found comes from an element.
pub proof fn lemma_found<A, B>(s: Seq<A>, f: spec_fn(A) -> Option<B>)
    ensures
        find_map(s, f) matches Some(b) ==> exists|i: int|
            0 <= i < s.len() && f(#[trigger] s[i]) == Some(b),
    decreases s.len(),
{
    if s.len() > 0 {
        match f(s[0]) {
            Some(_) => {},
            None => {
                lemma_found(s.skip(1), f);
                if find_map(s, f) is Some {
                    let b = find_map(s, f)->0;
                    let i = choose|i: int|
                        0 <= i < s.skip(1).len() && f(#[trigger] s.skip(1)[i]) == Some(b);
                    assert(s[i + 1] == s.skip(1)[i]);
                }
            },
        }
    }
}

} // verus!
