//! The hover for a position.

use crate::builtin::Language;
use crate::cursor::{either, find_symbol_at_cursor, symbol_at_cursor};
use crate::hover::{
    function_at, function_hover, function_text, module_input_answer, module_input_hover, opt_hover,
    CursorWord, Hover, HoverV,
};
use crate::hover_attribute::{attribute_answer, attribute_hover};
use crate::navigation::{describe_key, key_description};
use crate::position::{position_offset, rope_text, Position};
use crate::seqs::find_map;
use crate::state::{find_doc, primary_doc, DocUri, DocumentState, FunctionEntry, StateStore};
use vstd::prelude::*;

verus! {

/// What the words around the cursor are: the identifier, the function that it
/// names, and the function in whose arguments the cursor is.
pub struct CallContext<'a> {
    pub word: Option<&'a CursorWord>,
    pub named: Option<&'a FunctionEntry>,
    pub enclosing: Option<&'a FunctionEntry>,
}

pub open spec fn function_answer(doc: DocumentState, pos: Position, call: CallContext) -> Option<
    HoverV,
> {
    if position_offset(rope_text(doc.rope), pos) is None {
        None
    } else {
        match function_at(rope_text(doc.rope), call.word, call.named, call.enclosing) {
            Some(f) => Some(HoverV { value: function_text(f), range: None }),
            None => None,
        }
    }
}

pub open spec fn symbol_answer(doc: DocumentState, pos: Position) -> Option<HoverV> {
    match symbol_at_cursor(doc, pos) {
        Some(t) => Some(
            HoverV { value: key_description(t.key), range: Some(t.location.range) },
        ),
        None => None,
    }
}

/// The narrowest hover that applies: of an attribute, an input of a module, a
/// function, and at last the symbol.
pub open spec fn hover_answer(
    state: StateStore,
    lang: Language,
    uri: DocUri,
    pos: Position,
    call: CallContext,
) -> Option<HoverV> {
    match find_map(state.documents@, primary_doc(uri)) {
        Some(doc) => either(
            attribute_answer(state, lang, doc, pos, uri.path@),
            either(
                module_input_answer(state, doc, pos),
                either(function_answer(doc, pos, call), symbol_answer(doc, pos)),
            ),
        ),
        None => None,
    }
}

/// The hover for a position.
pub fn hover(state: &StateStore, lang: &Language, uri: &DocUri, pos: Position, call: CallContext) -> (r:
    Option<Hover>)
    ensures
        opt_hover(r) == hover_answer(*state, *lang, *uri, pos, call),
{
    let doc = match find_doc(state, uri) {
        Some(d) => d,
        None => {
            return None;
        },
    };
    let h = attribute_hover(state, lang, doc, pos, uri);
    if h.is_some() {
        return h;
    }
    let h = module_input_hover(state, doc, pos);
    if h.is_some() {
        return h;
    }
    let h = function_hover(doc, pos, call.word, call.named, call.enclosing);
    if h.is_some() {
        return h;
    }
    match find_symbol_at_cursor(doc, pos) {
        Some(t) => Some(Hover { value: describe_key(&t.key), range: Some(t.location.range) }),
        None => None,
    }
}

} // verus!
