//! Highlighting the occurrences of a symbol in one document.

use crate::cursor::{reference_at, reference_at_position};
use crate::state::{find_doc, primary_doc};
use crate::position::{Position, Range};
use crate::seqs::{filter_map, find_map, lemma_filter_map_step, lemma_take_full};
use crate::state::{
    find_places, key_of, places, reference_key, DocUri, StateStore, SymbolIndex, SymbolKey,
    SymbolLocation,
};
use crate::text::str_eq;
use vstd::prelude::*;

verus! {

/// A definition is written, a reference is read.
#[derive(Debug, Clone, Copy, PartialEq, Eq, Structural)]
pub enum HighlightKind {
    Write,
    Read,
}

#[derive(Debug, Clone, Copy, PartialEq, Eq, Structural)]
pub struct DocumentHighlight {
    pub range: Range,
    pub kind: HighlightKind,
}

pub open spec fn highlight_in(uri: Seq<char>, kind: HighlightKind) -> spec_fn(
    SymbolLocation,
) -> Option<DocumentHighlight> {
    |l: SymbolLocation|
        if l.uri@ == uri {
            Some(DocumentHighlight { range: l.range, kind })
        } else {
            None
        }
}

/// The definitions and then the references of the symbol that is referred to
/// at a position, as far as they stand in the document.
pub open spec fn highlights(state: StateStore, uri: DocUri, pos: Position) -> Option<
    Seq<DocumentHighlight>,
> {
    match find_map(state.documents@, primary_doc(uri)) {
        Some(doc) => match reference_at(doc, pos) {
            Some(r) => {
                let key = key_of(r.kind);
                let all = filter_map(
                    places(state.definitions_by_name@, key),
                    highlight_in(uri.text@, HighlightKind::Write),
                ) + filter_map(
                    places(state.references_by_name@, key),
                    highlight_in(uri.text@, HighlightKind::Read),
                );
                if all.len() == 0 {
                    None
                } else {
                    Some(all)
                }
            },
            None => None,
        },
        None => None,
    }
}

fn push_highlights(
    out: &mut Vec<DocumentHighlight>,
    index: &Vec<SymbolIndex>,
    key: &SymbolKey,
    uri: &str,
    kind: HighlightKind,
)
    ensures
        final(out)@ == old(out)@ + filter_map(places(index@, key@), highlight_in(uri@, kind)),
{
    let ghost s = places(index@, key@);
    let ghost f = highlight_in(uri@, kind);
    let ghost start = out@;
    match find_places(index, key) {
        Some(all) => {
            proof {
                lemma_take_full(s);
            }
            assert(out@ =~= start + filter_map(s.take(0), f));
            for i in 0..all.len()
                invariant
                    all@ == s,
                    f == highlight_in(uri@, kind),
                    out@ == start + filter_map(s.take(i as int), f),
            {
                proof {
                    lemma_filter_map_step(s, f, i as int);
                }
                if str_eq(all[i].uri.as_str(), uri) {
                    out.push(DocumentHighlight { range: all[i].range, kind });
                }
                assert(out@ =~= start + filter_map(s.take(i + 1), f));
            }
        },
        None => {
            assert(s =~= Seq::<SymbolLocation>::empty());
            assert(out@ =~= start + filter_map(s, f));
        },
    }
}

pub open spec fn opt_highlights(v: Option<Vec<DocumentHighlight>>) -> Option<
    Seq<DocumentHighlight>,
> {
    match v {
        Some(v) => Some(v@),
        None => None,
    }
}

/// Every occurrence in the document of the symbol that is referred to at a
/// position.
pub fn document_highlight(state: &StateStore, uri: &DocUri, pos: Position) -> (r: Option<
    Vec<DocumentHighlight>,
>)
    ensures
        opt_highlights(r) == highlights(*state, *uri, pos),
{
    let doc = match find_doc(state, uri) {
        Some(d) => d,
        None => {
            return None;
        },
    };
    let key = match reference_at_position(doc, pos) {
        Some(reference) => reference_key(&reference.kind),
        None => {
            return None;
        },
    };
    let mut out: Vec<DocumentHighlight> = Vec::new();
    push_highlights(
        &mut out,
        &state.definitions_by_name,
        &key,
        uri.text.as_str(),
        HighlightKind::Write,
    );
    push_highlights(
        &mut out,
        &state.references_by_name,
        &key,
        uri.text.as_str(),
        HighlightKind::Read,
    );
    assert(out@ =~= filter_map(
        places(state.definitions_by_name@, key@),
        highlight_in(uri.text@, HighlightKind::Write),
    ) + filter_map(
        places(state.references_by_name@, key@),
        highlight_in(uri.text@, HighlightKind::Read),
    ));
    if out.len() == 0 {
        None
    } else {
        Some(out)
    }
}

} // verus!
