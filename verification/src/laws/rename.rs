//! What a rename rewrites.

use crate::actions::{entry_index, with_edits, EditMapV};
use crate::cursor::{key_under, symbol_at_cursor};
use crate::laws::common::{is_doc, is_entry, lemma_doc, lemma_places};
use crate::position::{
    char_offset, lemma_position_is_char, lemma_utf8_len_add, range_text, rope_text,
    short_text_has_positions, utf16_len, utf8_len, EditV, Position, Range,
};
use crate::rename::{
    definition_place, inner_range, key_range, label_range, last_word, local_under, narrow,
    narrowed_key_holds_name, narrowed_label_holds_name, narrowed_reference_holds_name, place_edit,
    place_edits, place_edits_upto, prepare_answer, quoted, rename_answer, rightmost_whole_word,
    symbol_edits, tail_range, whole_word_at, NamePlace,
};
use crate::seqs::{find_map, lemma_find_map_first};
use crate::state::{doc_with, places, DocUri, KeyV, StateStore, SymbolKind, SymbolLocation};
use crate::text::find_from;
use vstd::prelude::*;

verus! {

/// The edits of a document have one that puts `text` in place of a range.
pub open spec fn has_edit(m: EditMapV, uri: Seq<char>, range: Range, text: Seq<char>) -> bool {
    exists|i: int, j: int|
        #![trigger m[i].1[j]]
        0 <= i < m.len() && m[i].0 == uri && 0 <= j < m[i].1.len() && m[i].1[j].range == range
            && m[i].1[j].new_text == text
}

proof fn lemma_entry(m: EditMapV, uri: Seq<char>, from: int)
    requires
        0 <= from,
    ensures
        match entry_index(m, uri, from) {
            Some(i) => from <= i < m.len() && m[i].0 == uri,
            None => forall|i: int| from <= i < m.len() ==> (#[trigger] m[i]).0 != uri,
        },
    decreases m.len() - from,
{
    if from < m.len() && m[from].0 != uri {
        lemma_entry(m, uri, from + 1);
    }
}

/// Adding edits keeps those that are there and adds the given.
pub proof fn lemma_with_edits(
    m: EditMapV,
    uri: Seq<char>,
    edits: Seq<EditV>,
    at: Seq<char>,
    range: Range,
    text: Seq<char>,
)
    ensures
        has_edit(with_edits(m, uri, edits), at, range, text) <==> has_edit(m, at, range, text) || (
        at == uri && exists|j: int|
            0 <= j < edits.len() && (#[trigger] edits[j]).range == range && edits[j].new_text
                == text),
{
    lemma_entry(m, uri, 0);
    let w = with_edits(m, uri, edits);
    match entry_index(m, uri, 0) {
        Some(e) => {
            if has_edit(m, at, range, text) {
                let (i, j) = choose|i: int, j: int|
                    #![trigger m[i].1[j]]
                    0 <= i < m.len() && m[i].0 == at && 0 <= j < m[i].1.len() && m[i].1[j].range
                        == range && m[i].1[j].new_text == text;
                assert(w[i].1[j] == m[i].1[j]);
            }
            if at == uri && exists|j: int|
                0 <= j < edits.len() && (#[trigger] edits[j]).range == range && edits[j].new_text
                    == text {
                let j = choose|j: int|
                    0 <= j < edits.len() && (#[trigger] edits[j]).range == range
                        && edits[j].new_text == text;
                assert(w[e].1[m[e].1.len() + j] == edits[j]);
            }
            if has_edit(w, at, range, text) {
                let (i, j) = choose|i: int, j: int|
                    #![trigger w[i].1[j]]
                    0 <= i < w.len() && w[i].0 == at && 0 <= j < w[i].1.len() && w[i].1[j].range
                        == range && w[i].1[j].new_text == text;
                if i == e && j >= m[e].1.len() {
                    assert(edits[j - m[e].1.len()] == w[i].1[j]);
                } else {
                    assert(m[i].1[j] == w[i].1[j]);
                }
            }
        },
        None => {
            if has_edit(m, at, range, text) {
                let (i, j) = choose|i: int, j: int|
                    #![trigger m[i].1[j]]
                    0 <= i < m.len() && m[i].0 == at && 0 <= j < m[i].1.len() && m[i].1[j].range
                        == range && m[i].1[j].new_text == text;
                assert(w[i].1[j] == m[i].1[j]);
            }
            if at == uri && exists|j: int|
                0 <= j < edits.len() && (#[trigger] edits[j]).range == range && edits[j].new_text
                    == text {
                let j = choose|j: int|
                    0 <= j < edits.len() && (#[trigger] edits[j]).range == range
                        && edits[j].new_text == text;
                assert(w[m.len() as int].1[j] == edits[j]);
            }
            if has_edit(w, at, range, text) {
                let (i, j) = choose|i: int, j: int|
                    #![trigger w[i].1[j]]
                    0 <= i < w.len() && w[i].0 == at && 0 <= j < w[i].1.len() && w[i].1[j].range
                        == range && w[i].1[j].new_text == text;
                if i < m.len() {
                    assert(m[i].1[j] == w[i].1[j]);
                } else {
                    assert(edits[j] == w[i].1[j]);
                }
            }
        },
    }
}

/// The edits of the first `n` places: those that were there, and one per place
/// that has one.
proof fn lemma_place_edits(
    state: StateStore,
    all: Seq<SymbolLocation>,
    old_name: Seq<char>,
    new_name: Seq<char>,
    at: NamePlace,
    m: EditMapV,
    n: int,
    uri: Seq<char>,
    range: Range,
    text: Seq<char>,
)
    requires
        0 <= n <= all.len(),
    ensures
        has_edit(
            place_edits_upto(state, all, old_name, new_name, at, m, n),
            uri,
            range,
            text,
        ) <==> has_edit(m, uri, range, text) || exists|i: int|
            0 <= i < n && (#[trigger] all[i]).uri@ == uri && place_edit(
                state,
                all[i],
                old_name,
                new_name,
                at,
            ) == Some(EditV { range, new_text: text }),
    decreases n,
{
    if n > 0 {
        let before = place_edits_upto(state, all, old_name, new_name, at, m, n - 1);
        lemma_place_edits(state, all, old_name, new_name, at, m, n - 1, uri, range, text);
        match place_edit(state, all[n - 1], old_name, new_name, at) {
            Some(e) => {
                lemma_with_edits(before, all[n - 1].uri@, seq![e], uri, range, text);
                if all[n - 1].uri@ == uri && e == (EditV { range, new_text: text }) {
                    assert(seq![e][0].range == range);
                }
                if exists|i: int|
                    0 <= i < n && (#[trigger] all[i]).uri@ == uri && place_edit(
                        state,
                        all[i],
                        old_name,
                        new_name,
                        at,
                    ) == Some(EditV { range, new_text: text }) {
                    let i = choose|i: int|
                        0 <= i < n && (#[trigger] all[i]).uri@ == uri && place_edit(
                            state,
                            all[i],
                            old_name,
                            new_name,
                            at,
                        ) == Some(EditV { range, new_text: text });
                    if i == n - 1 {
                        assert(seq![e][0].range == range && seq![e][0].new_text == text);
                    }
                }
            },
            None => {},
        }
    }
}

/// The part of a range's text from character `i` on, `n` characters long, has a
/// range in a text of fewer than 2^32 units.
proof fn lemma_part_has_range(t: Seq<char>, range: Range, i: int, n: int)
    requires
        utf16_len(t) <= u32::MAX,
        range_text(t, range) is Some,
        0 <= i,
        0 <= n,
        i + n <= range_text(t, range)->0.len(),
    ensures
        inner_range(
            t,
            range,
            utf8_len(range_text(t, range)->0.take(i)) as int,
            utf8_len(range_text(t, range)->0.subrange(i, i + n)) as int,
        ) is Some,
{
    let text = range_text(t, range)->0;
    let a = lemma_position_is_char(t, range.start);
    let b = lemma_position_is_char(t, range.end);
    crate::position::lemma_char_at_byte_monotone(
        t,
        char_offset(t, a) as nat,
        char_offset(t, b) as nat,
        0,
    );
    assert(text == t.subrange(a, b));
    assert(t.take(a + i) =~= t.take(a) + text.take(i));
    lemma_utf8_len_add(t.take(a), text.take(i));
    assert(t.take(a + i + n) =~= t.take(a + i) + text.subrange(i, i + n));
    lemma_utf8_len_add(t.take(a + i), text.subrange(i, i + n));
    short_text_has_positions(t, a + i);
    short_text_has_positions(t, a + i + n);
}

/// A text holds `p`.
pub open spec fn holds(s: Seq<char>, p: Seq<char>) -> bool {
    exists|i: int| 0 <= i && i + p.len() <= s.len() && #[trigger] s.subrange(i, i + p.len()) == p
}

proof fn lemma_held_is_found(s: Seq<char>, p: Seq<char>, i: int, from: int)
    requires
        0 <= from <= i,
        i + p.len() <= s.len(),
        s.subrange(i, i + p.len()) == p,
    ensures
        find_from(s, p, from) is Some,
        find_from(s, p, from)->0 >= from,
        find_from(s, p, from)->0 + p.len() <= s.len(),
        s.subrange(find_from(s, p, from)->0, find_from(s, p, from)->0 + p.len()) == p,
    decreases i - from,
{
    if from < i && s.subrange(from, from + p.len()) != p {
        lemma_held_is_found(s, p, i, from + 1);
    }
}

proof fn lemma_label_has_range(t: Seq<char>, range: Range, name: Seq<char>)
    requires
        utf16_len(t) <= u32::MAX,
        range_text(t, range) is Some,
        holds(range_text(t, range)->0, seq!['"'] + name + seq!['"']),
    ensures
        label_range(t, range, name) is Some,
        range_text(t, label_range(t, range, name)->0) == Some(name),
{
    reveal_strlit("\"");
    let text = range_text(t, range)->0;
    let q = seq!['"'] + name + seq!['"'];
    assert(quoted(name) =~= q);
    let i = choose|i: int|
        0 <= i && i + q.len() <= text.len() && #[trigger] text.subrange(i, i + q.len()) == q;
    lemma_held_is_found(text, q, i, 0);
    let k = find_from(text, q, 0)->0;
    let n = name.len() as int;
    assert(text.subrange(k + 1, k + 1 + n) =~= name) by {
        assert forall|j: int| 0 <= j < n implies text.subrange(k + 1, k + 1 + n)[j] == name[j] by {
            assert(text.subrange(k, k + q.len())[j + 1] == q[j + 1]);
        }
    }
    assert(text.take(k + 1).drop_last() =~= text.take(k));
    assert(text.subrange(k, k + q.len())[0] == q[0]);
    lemma_part_has_range(t, range, k + 1, n);
    narrowed_label_holds_name(t, range, name);
}

/// A letter, a digit or an underscore.
pub open spec fn word_char(c: char) -> bool {
    let n = c as u32;
    ||| 97 <= n <= 122
    ||| 65 <= n <= 90
    ||| 48 <= n <= 57
    ||| c == '_'
}

/// `name` stands in a text at `i` with no letter, digit or underscore beside
/// it.
pub open spec fn word_at(s: Seq<char>, name: Seq<char>, i: int) -> bool {
    &&& 0 <= i
    &&& i + name.len() <= s.len()
    &&& s.subrange(i, i + name.len()) == name
    &&& i > 0 ==> !word_char(s[i - 1])
    &&& i + name.len() < s.len() ==> !word_char(s[i + name.len() as int])
}

proof fn lemma_word_at(s: Seq<char>, name: Seq<char>, i: int)
    ensures
        word_at(s, name, i) <==> whole_word_at(s, name, i),
{
}

proof fn lemma_tail_has_range(t: Seq<char>, range: Range, name: Seq<char>, i: int)
    requires
        utf16_len(t) <= u32::MAX,
        range_text(t, range) is Some,
        name.len() > 0,
        word_at(range_text(t, range)->0, name, i),
    ensures
        tail_range(t, range, name) is Some,
        range_text(t, tail_range(t, range, name)->0) == Some(name),
{
    let text = range_text(t, range)->0;
    lemma_word_at(text, name, i);
    rightmost_whole_word(text, name, i);
    let k = last_word(text, name)->0;
    lemma_part_has_range(t, range, k, name.len() as int);
    narrowed_reference_holds_name(t, range, name);
}

proof fn lemma_key_has_range(t: Seq<char>, range: Range, name: Seq<char>)
    requires
        utf16_len(t) <= u32::MAX,
        range_text(t, range) is Some,
        name.len() > 0,
        word_at(range_text(t, range)->0, name, 0),
    ensures
        key_range(t, range, name) is Some,
        range_text(t, key_range(t, range, name)->0) == Some(name),
{
    let text = range_text(t, range)->0;
    lemma_word_at(text, name, 0);
    assert(text.take(0) =~= Seq::<char>::empty());
    lemma_part_has_range(t, range, 0, name.len() as int);
    narrowed_key_holds_name(t, range, name);
}

/// The cursor is on a symbol, and not on the local name of a provider.
pub open spec fn on_symbol(
    state: StateStore,
    uri: DocUri,
    pos: Position,
    k: int,
    kind: SymbolKind,
    ty: Option<Seq<char>>,
    name: Seq<char>,
) -> bool {
    &&& is_doc(state, uri.text@, k)
    &&& local_under(rope_text(state.documents@[k].rope), pos) is None
    &&& key_under(state.documents@[k], pos) == Some(KeyV { kind, resource_type: ty, name })
}

/// A place in the document at index `d`, whose text a rename can see.
pub open spec fn place_in_doc(state: StateStore, l: SymbolLocation, d: int) -> bool {
    &&& is_doc(state, l.uri@, d)
    &&& utf16_len(rope_text(state.documents@[d].rope)) <= u32::MAX
    &&& range_text(rope_text(state.documents@[d].rope), l.range) is Some
}

pub open spec fn place_text(state: StateStore, l: SymbolLocation, d: int) -> Seq<char> {
    range_text(rope_text(state.documents@[d].rope), l.range)->0
}

/// The answer to a rename puts the new name exactly where the old one stands in
/// a document.
pub open spec fn renames_in(
    answer: Option<EditMapV>,
    state: StateStore,
    d: int,
    name: Seq<char>,
    new_name: Seq<char>,
) -> bool {
    match answer {
        Some(m) => exists|range: Range|
            #[trigger] renames_at(m, state, d, name, new_name, range),
        None => false,
    }
}

/// A range of a document holds the old name, and the edits put the new one
/// there.
pub open spec fn renames_at(
    m: EditMapV,
    state: StateStore,
    d: int,
    name: Seq<char>,
    new_name: Seq<char>,
    range: Range,
) -> bool {
    has_edit(m, state.documents@[d].uri.text@, range, new_name) && range_text(
        rope_text(state.documents@[d].rope),
        range,
    ) == Some(name)
}

proof fn lemma_renames_in(
    m: EditMapV,
    state: StateStore,
    d: int,
    name: Seq<char>,
    new_name: Seq<char>,
    range: Range,
)
    requires
        renames_at(m, state, d, name, new_name, range),
    ensures
        renames_in(Some(m), state, d, name, new_name),
{
    assert(exists|r: Range| #[trigger] renames_at(m, state, d, name, new_name, r));
    let answer = Some(m);
    assert(answer is Some);
    assert(answer->0 == m);
}

proof fn lemma_place(state: StateStore, l: SymbolLocation, d: int)
    requires
        is_doc(state, l.uri@, d),
    ensures
        find_map(state.documents@, doc_with(l.uri@)) == Some(state.documents@[d]),
{
    crate::seqs::lemma_find_map_at(state.documents@, doc_with(l.uri@), d);
}

proof fn lemma_edited(
    state: StateStore,
    uri: DocUri,
    pos: Position,
    k: int,
    kind: SymbolKind,
    ty: Option<Seq<char>>,
    name: Seq<char>,
    new_name: Seq<char>,
    defs: bool,
    e: int,
    i: int,
    d: int,
)
    requires
        on_symbol(state, uri, pos, k, kind, ty, name),
        is_entry(
            if defs {
                state.definitions_by_name@
            } else {
                state.references_by_name@
            },
            kind,
            ty,
            name,
            e,
        ),
        ({
            let all = (if defs {
                state.definitions_by_name@
            } else {
                state.references_by_name@
            })[e].locations@;
            let at = if defs {
                definition_place(kind)
            } else {
                NamePlace::Tail
            };
            &&& 0 <= i < all.len()
            &&& is_doc(state, all[i].uri@, d)
            &&& narrow(
                rope_text(state.documents@[d].rope),
                all[i].range,
                name,
                at,
            ) matches Some(r) && range_text(rope_text(state.documents@[d].rope), r) == Some(name)
        }),
    ensures
        renames_in(rename_answer(state, uri, pos, new_name), state, d, name, new_name),
{
    lemma_doc(state, uri, k);
    let index = if defs {
        state.definitions_by_name@
    } else {
        state.references_by_name@
    };
    let at = if defs {
        definition_place(kind)
    } else {
        NamePlace::Tail
    };
    lemma_places(index, kind, ty, name, e);
    let key = KeyV { kind, resource_type: ty, name };
    let all = places(index, key);
    let l = all[i];
    lemma_place(state, l, d);
    let t = rope_text(state.documents@[d].rope);
    let r = narrow(t, l.range, name, at)->0;
    assert(place_edit(state, l, name, new_name, at) == Some(EditV { range: r, new_text: new_name }));
    let da = places(state.definitions_by_name@, key);
    let ra = places(state.references_by_name@, key);
    let inner = place_edits(
        state,
        da,
        name,
        new_name,
        definition_place(kind),
        EditMapV::empty(),
    );
    lemma_place_edits(
        state,
        da,
        name,
        new_name,
        definition_place(kind),
        EditMapV::empty(),
        da.len() as int,
        l.uri@,
        r,
        new_name,
    );
    lemma_place_edits(
        state,
        ra,
        name,
        new_name,
        NamePlace::Tail,
        inner,
        ra.len() as int,
        l.uri@,
        r,
        new_name,
    );
    let m = symbol_edits(state, key, new_name);
    assert(has_edit(m, l.uri@, r, new_name));
    assert(m.len() > 0);
    assert(state.documents@[d].uri.text@ == l.uri@);
    assert(rename_answer(state, uri, pos, new_name) == Some(m));
    assert(has_edit(m, state.documents@[d].uri.text@, r, new_name));
    assert(range_text(rope_text(state.documents@[d].rope), r) == Some(name));
    lemma_renames_in(m, state, d, name, new_name, r);
}

/// Each definition of a symbol that a block declares, where the block has the
/// name as a quoted label, gets an edit that puts the new name in place of the
/// old one.
pub proof fn labels_of_definitions_are_renamed(
    state: StateStore,
    uri: DocUri,
    pos: Position,
    k: int,
    kind: SymbolKind,
    ty: Option<Seq<char>>,
    name: Seq<char>,
    new_name: Seq<char>,
    e: int,
    i: int,
    d: int,
)
    requires
        kind != SymbolKind::Local,
        on_symbol(state, uri, pos, k, kind, ty, name),
        is_entry(state.definitions_by_name@, kind, ty, name, e),
        0 <= i < state.definitions_by_name@[e].locations@.len(),
        place_in_doc(state, state.definitions_by_name@[e].locations@[i], d),
        holds(
            place_text(state, state.definitions_by_name@[e].locations@[i], d),
            seq!['"'] + name + seq!['"'],
        ),
    ensures
        renames_in(rename_answer(state, uri, pos, new_name), state, d, name, new_name),
{
    let l = state.definitions_by_name@[e].locations@[i];
    lemma_label_has_range(rope_text(state.documents@[d].rope), l.range, name);
    lemma_edited(state, uri, pos, k, kind, ty, name, new_name, true, e, i, d);
}

/// Where a local value is set, its key gets the new name.
pub proof fn keys_of_locals_are_renamed(
    state: StateStore,
    uri: DocUri,
    pos: Position,
    k: int,
    ty: Option<Seq<char>>,
    name: Seq<char>,
    new_name: Seq<char>,
    e: int,
    i: int,
    d: int,
)
    requires
        name.len() > 0,
        on_symbol(state, uri, pos, k, SymbolKind::Local, ty, name),
        is_entry(state.definitions_by_name@, SymbolKind::Local, ty, name, e),
        0 <= i < state.definitions_by_name@[e].locations@.len(),
        place_in_doc(state, state.definitions_by_name@[e].locations@[i], d),
        word_at(place_text(state, state.definitions_by_name@[e].locations@[i], d), name, 0),
    ensures
        renames_in(rename_answer(state, uri, pos, new_name), state, d, name, new_name),
{
    let l = state.definitions_by_name@[e].locations@[i];
    lemma_key_has_range(rope_text(state.documents@[d].rope), l.range, name);
    lemma_edited(state, uri, pos, k, SymbolKind::Local, ty, name, new_name, true, e, i, d);
}

/// Each reference to a symbol whose text has the name as a word gets an edit
/// that puts the new name in place of the old one.
pub proof fn references_are_renamed(
    state: StateStore,
    uri: DocUri,
    pos: Position,
    k: int,
    kind: SymbolKind,
    ty: Option<Seq<char>>,
    name: Seq<char>,
    new_name: Seq<char>,
    e: int,
    i: int,
    d: int,
    w: int,
)
    requires
        name.len() > 0,
        on_symbol(state, uri, pos, k, kind, ty, name),
        is_entry(state.references_by_name@, kind, ty, name, e),
        0 <= i < state.references_by_name@[e].locations@.len(),
        place_in_doc(state, state.references_by_name@[e].locations@[i], d),
        word_at(place_text(state, state.references_by_name@[e].locations@[i], d), name, w),
    ensures
        renames_in(rename_answer(state, uri, pos, new_name), state, d, name, new_name),
{
    let l = state.references_by_name@[e].locations@[i];
    lemma_tail_has_range(rope_text(state.documents@[d].rope), l.range, name, w);
    lemma_edited(state, uri, pos, k, kind, ty, name, new_name, false, e, i, d);
}

/// An index has the document among the places of a symbol.
pub open spec fn has_place(
    index: Seq<crate::state::SymbolIndex>,
    kind: SymbolKind,
    ty: Option<Seq<char>>,
    name: Seq<char>,
    uri: Seq<char>,
) -> bool {
    exists|e: int, i: int|
        #![trigger index[e].locations@[i]]
        is_entry(index, kind, ty, name, e) && 0 <= i < index[e].locations@.len()
            && index[e].locations@[i].uri@ == uri
}

proof fn lemma_has_place(
    index: Seq<crate::state::SymbolIndex>,
    kind: SymbolKind,
    ty: Option<Seq<char>>,
    name: Seq<char>,
    i: int,
)
    requires
        0 <= i < places(index, KeyV { kind, resource_type: ty, name }).len(),
    ensures
        has_place(
            index,
            kind,
            ty,
            name,
            places(index, KeyV { kind, resource_type: ty, name })[i].uri@,
        ),
{
    let f = crate::state::places_if(KeyV { kind, resource_type: ty, name });
    let e = lemma_find_map_first(index, f);
    assert forall|j: int| 0 <= j < e implies !crate::laws::common::keyed(
        #[trigger] index[j],
        kind,
        ty,
        name,
    ) by {
        assert(f(index[j]) is None);
    }
    assert(is_entry(index, kind, ty, name, e));
    assert(index[e].locations@[i].uri@ == places(
        index,
        KeyV { kind, resource_type: ty, name },
    )[i].uri@);
}

/// A rename of a symbol changes nothing but its name: each edit stands in a
/// document that the indexes have among the places of the symbol, covers the
/// old name and puts the new one there.
pub proof fn renames_change_the_name_alone(
    state: StateStore,
    uri: DocUri,
    pos: Position,
    k: int,
    kind: SymbolKind,
    ty: Option<Seq<char>>,
    name: Seq<char>,
    new_name: Seq<char>,
    at: Seq<char>,
    range: Range,
    text: Seq<char>,
)
    requires
        on_symbol(state, uri, pos, k, kind, ty, name),
        rename_answer(state, uri, pos, new_name) matches Some(m) && has_edit(m, at, range, text),
    ensures
        text == new_name,
        has_place(state.definitions_by_name@, kind, ty, name, at) || has_place(
            state.references_by_name@,
            kind,
            ty,
            name,
            at,
        ),
        exists|d: int|
            #[trigger] is_doc(state, at, d) && range_text(
                rope_text(state.documents@[d].rope),
                range,
            ) == Some(name),
{
    lemma_doc(state, uri, k);
    let key = KeyV { kind, resource_type: ty, name };
    let da = places(state.definitions_by_name@, key);
    let ra = places(state.references_by_name@, key);
    let empty = EditMapV::empty();
    let inner = place_edits(state, da, name, new_name, definition_place(kind), empty);
    lemma_place_edits(
        state,
        da,
        name,
        new_name,
        definition_place(kind),
        empty,
        da.len() as int,
        at,
        range,
        text,
    );
    lemma_place_edits(
        state,
        ra,
        name,
        new_name,
        NamePlace::Tail,
        inner,
        ra.len() as int,
        at,
        range,
        text,
    );
    assert(!has_edit(empty, at, range, text));
    let (l, p) = if has_edit(inner, at, range, text) {
        let i = choose|i: int|
            0 <= i < da.len() && (#[trigger] da[i]).uri@ == at && place_edit(
                state,
                da[i],
                name,
                new_name,
                definition_place(kind),
            ) == Some(EditV { range, new_text: text });
        lemma_has_place(state.definitions_by_name@, kind, ty, name, i);
        (da[i], definition_place(kind))
    } else {
        let i = choose|i: int|
            0 <= i < ra.len() && (#[trigger] ra[i]).uri@ == at && place_edit(
                state,
                ra[i],
                name,
                new_name,
                NamePlace::Tail,
            ) == Some(EditV { range, new_text: text });
        lemma_has_place(state.references_by_name@, kind, ty, name, i);
        (ra[i], NamePlace::Tail)
    };
    let d = lemma_find_map_first(state.documents@, doc_with(at));
    assert forall|j: int| 0 <= j < d implies (#[trigger] state.documents@[j]).uri.text@ != at by {
        assert(doc_with(at)(state.documents@[j]) is None);
    }
    assert(is_doc(state, at, d));
    let t = rope_text(state.documents@[d].rope);
    narrowed_reference_holds_name(t, l.range, name);
    narrowed_label_holds_name(t, l.range, name);
    narrowed_key_holds_name(t, l.range, name);
}

/// What the editor shows before a rename is the name of the symbol under the
/// cursor, at a place where the document has that name.
pub proof fn what_is_renamed_is_shown(
    state: StateStore,
    uri: DocUri,
    pos: Position,
    k: int,
    kind: SymbolKind,
    ty: Option<Seq<char>>,
    name: Seq<char>,
)
    requires
        on_symbol(state, uri, pos, k, kind, ty, name),
    ensures
        prepare_answer(state, uri, pos) matches Some(p) ==> p.1 == name && range_text(
            rope_text(state.documents@[k].rope),
            p.0,
        ) == Some(name),
{
    lemma_doc(state, uri, k);
    let doc = state.documents@[k];
    let t = rope_text(doc.rope);
    let target = symbol_at_cursor(doc, pos)->0;
    narrowed_reference_holds_name(t, target.location.range, name);
    narrowed_label_holds_name(t, target.location.range, name);
    narrowed_key_holds_name(t, target.location.range, name);
}

/// On a reference the editor is shown the last segment of the reference; on a
/// definition the label of the block, and for a local value its key.
pub proof fn names_are_shown_where_they_stand(
    state: StateStore,
    uri: DocUri,
    pos: Position,
    k: int,
    n: int,
    kind: SymbolKind,
    ty: Option<Seq<char>>,
    name: Seq<char>,
)
    requires
        is_doc(state, uri.text@, k),
        crate::rename::prepare_local(rope_text(state.documents@[k].rope), pos) is None,
    ensures
        ({
            let doc = state.documents@[k];
            let t = rope_text(doc.rope);
            &&& crate::laws::common::is_reference_at(doc, pos, n) && crate::laws::common::names(
                doc.references@[n],
                kind,
                ty,
                name,
            ) ==> prepare_answer(state, uri, pos) == match crate::rename::tail_range(
                t,
                doc.references@[n].location.range,
                name,
            ) {
                Some(r) => Some((r, name)),
                None => None,
            }
            &&& (forall|j: int|
                0 <= j < doc.references@.len() ==> !crate::position::range_contains(
                    (#[trigger] doc.references@[j]).location.range,
                    pos,
                )) ==> (crate::cursor::definition_at(doc.symbols, pos) matches Some(d)
                ==> prepare_answer(state, uri, pos) == match (if d.key.kind == SymbolKind::Local {
                crate::rename::key_range(t, d.location.range, d.key.name)
            } else {
                crate::rename::label_range(t, d.location.range, d.key.name)
            }) {
                Some(r) => Some((r, d.key.name)),
                None => None,
            })
        }),
{
    lemma_doc(state, uri, k);
    let doc = state.documents@[k];
    if crate::laws::common::is_reference_at(doc, pos, n) {
        crate::laws::common::lemma_reference(doc, pos, n);
    }
    if forall|j: int|
        0 <= j < doc.references@.len() ==> !crate::position::range_contains(
            (#[trigger] doc.references@[j]).location.range,
            pos,
        ) {
        let f = crate::cursor::reference_holding(pos);
        if crate::cursor::reference_at(doc, pos) is Some {
            let j = crate::seqs::lemma_find_map_first(doc.references@, f);
            assert(!crate::position::range_contains(doc.references@[j].location.range, pos));
        }
        if crate::cursor::definition_at(doc.symbols, pos) is Some {
            lemma_definition_kind(doc.symbols, pos);
        }
    }
}

proof fn lemma_definition_kind(t: crate::state::SymbolTable, pos: Position)
    ensures
        crate::cursor::definition_at(t, pos) matches Some(d) ==> d.kind
            == crate::cursor::CursorKind::Definition,
{
    crate::cursor::lemma_found(
        t.variables@,
        crate::cursor::symbol_at(SymbolKind::Variable, pos),
    );
    crate::cursor::lemma_found(t.locals@, crate::cursor::symbol_at(SymbolKind::Local, pos));
    crate::cursor::lemma_found(t.outputs@, crate::cursor::symbol_at(SymbolKind::Output, pos));
    crate::cursor::lemma_found(t.modules@, crate::cursor::symbol_at(SymbolKind::Module, pos));
    crate::cursor::lemma_found(
        t.resources@,
        crate::cursor::resource_at(SymbolKind::Resource, pos),
    );
    crate::cursor::lemma_found(
        t.data_sources@,
        crate::cursor::resource_at(SymbolKind::DataSource, pos),
    );
}

} // verus!
