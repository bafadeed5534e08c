//! Renaming a symbol, or the local name of a provider.
//!
//! The indexes record whole references and whole blocks. An edit replaces
//! just the name in them: the last segment of a reference, the label of a
//! block.

use crate::actions::{with_edits, EditMap, EditMapV};
use crate::cursor::{find_symbol_at_cursor, key_at_cursor, key_under, symbol_at_cursor, CursorKind};
use crate::hcl::{attr_pointees, Attribute, Body};
use crate::idents::{
    ascii_alphabetic, ident_char, ident_end, ident_start, is_ascii_alphabetic, is_ident_char,
    lemma_find_from, slice_ident_end, slice_ident_start,
};
use crate::null_resource::flatten;
use crate::position::{
    byte_index, byte_len, char_at_byte, char_offset, char_to_lsp_position, edits_view,
    hcl_span_to_lsp_range, lemma_position_offset_bound, lsp_position_to_byte_offset,
    offset_position, part_of_range_holds_part, position_behind, position_offset, range_text, rope_byte_to_char, rope_text,
    rope_to_string, slice_text, span_range, utf8_len, EditV, Position, Range, TextEdit,
};
use crate::providers::{list_provider_entries, provider_entries};
use crate::seqs::{
    filter_map, find_map, lemma_filter_map_step, lemma_find_map_step, lemma_take_full,
};
use crate::state::{
    doc_with, find_doc, find_document, find_places, places, primary_doc, same_dir, DocUri,
    DocumentState, StateStore, SymbolIndex, SymbolKey, SymbolKind, SymbolLocation,
};
use crate::text::{
    chars_of, concat3, find_from, occurs_at, opt_view, slice_find_from, slice_occurs_at, str_eq,
    string_sub,
};
use ropey::Rope;
use vstd::prelude::*;

verus! {

// ---------------------------------------------------------------------
// Narrow ranges

/// `name` stands in `s` at `i` as a whole identifier.
pub open spec fn whole_word_at(s: Seq<char>, name: Seq<char>, i: int) -> bool {
    occurs_at(s, name, i) && (i == 0 || !ident_char(s[i - 1])) && (i + name.len() == s.len()
        || !ident_char(s[i + name.len()]))
}

/// The last index at or before `i` where `name` stands as a whole identifier.
pub open spec fn last_word_upto(s: Seq<char>, name: Seq<char>, i: int) -> Option<int>
    decreases i + 1,
{
    if i < 0 {
        None
    } else if whole_word_at(s, name, i) {
        Some(i)
    } else {
        last_word_upto(s, name, i - 1)
    }
}

/// The last index where `name` stands as a whole identifier.
pub open spec fn last_word(s: Seq<char>, name: Seq<char>) -> Option<int> {
    if name.len() == 0 {
        None
    } else {
        last_word_upto(s, name, s.len() - name.len())
    }
}

fn slice_last_word(s: &[char], name: &[char]) -> (r: Option<usize>)
    ensures
        match r {
            Some(i) => last_word(s@, name@) == Some(i as int) && i <= s@.len(),
            None => last_word(s@, name@) is None,
        },
{
    let n: usize = name.len();
    let m: usize = s.len();
    if n == 0 || m < n {
        return None;
    }
    let mut i: usize = m - n;
    loop
        invariant
            n == name@.len(),
            m == s@.len(),
            n > 0,
            i + n <= m,
            last_word(s@, name@) == last_word_upto(s@, name@, i as int),
        decreases i,
    {
        if slice_occurs_at(s, name, i) && (i == 0 || !is_ident_char(s[i - 1])) && (i + n == m
            || !is_ident_char(s[i + n])) {
            return Some(i);
        }
        if i == 0 {
            assert(last_word_upto(s@, name@, -1) is None);
            return None;
        }
        i -= 1;
    }
}

pub open spec fn word_offset(s: Seq<char>, name: Seq<char>) -> Option<int> {
    match last_word(s, name) {
        Some(i) => Some(utf8_len(s.take(i)) as int),
        None => None,
    }
}

/// The byte offset of the last occurrence of `name` as a whole identifier.
pub fn rfind_ident(haystack: &str, name: &str) -> (r: Option<usize>)
    ensures
        match r {
            Some(b) => word_offset(haystack@, name@) == Some(b as int),
            None => word_offset(haystack@, name@) is None,
        },
{
    let s = chars_of(haystack);
    let n = chars_of(name);
    match slice_last_word(s.as_slice(), n.as_slice()) {
        Some(i) => Some(byte_index(haystack, i)),
        None => None,
    }
}

/// What is found is a whole identifier, and none stands behind it; where
/// nothing is found there is none.
pub proof fn rightmost_whole_word(s: Seq<char>, name: Seq<char>, j: int)
    requires
        name.len() > 0,
    ensures
        match last_word(s, name) {
            Some(i) => whole_word_at(s, name, i) && (j > i ==> !whole_word_at(s, name, j)),
            None => !whole_word_at(s, name, j),
        },
{
    lemma_last_word(s, name, s.len() - name.len(), j);
}

proof fn lemma_last_word(s: Seq<char>, name: Seq<char>, i: int, j: int)
    ensures
        match last_word_upto(s, name, i) {
            Some(k) => k <= i && whole_word_at(s, name, k) && (k < j <= i ==> !whole_word_at(
                s,
                name,
                j,
            )),
            None => j <= i ==> !whole_word_at(s, name, j),
        },
    decreases i + 1,
{
    if i >= 0 && !whole_word_at(s, name, i) {
        lemma_last_word(s, name, i - 1, j);
    }
}

/// `len` bytes, `rel` bytes behind the start of a range.
pub open spec fn inner_range(t: Seq<char>, outer: Range, rel: int, len: int) -> Option<Range> {
    match position_offset(t, outer.start) {
        Some(base) => match (
            offset_position(t, base + rel),
            offset_position(t, base + rel + len),
        ) {
            (Some(start), Some(end)) => Some(Range { start, end }),
            _ => None,
        },
        None => None,
    }
}

fn absolute_range(rope: &Rope, outer: Range, rel: usize, len: usize) -> (r: Option<Range>)
    requires
        rel + len <= usize::MAX,
    ensures
        r == inner_range(rope_text(*rope), outer, rel as int, len as int),
{
    match lsp_position_to_byte_offset(rope, outer.start) {
        Some(base) => match (
            position_behind(rope, base, rel),
            position_behind(rope, base, rel + len),
        ) {
            (Some(start), Some(end)) => Some(Range { start, end }),
            _ => None,
        },
        None => None,
    }
}

/// The range of the last segment `name` of a reference.
pub open spec fn tail_range(t: Seq<char>, range: Range, name: Seq<char>) -> Option<Range> {
    match range_text(t, range) {
        Some(text) => match last_word(text, name) {
            Some(i) => inner_range(
                t,
                range,
                utf8_len(text.take(i)) as int,
                utf8_len(name) as int,
            ),
            None => None,
        },
        None => None,
    }
}

/// The range of the last occurrence of `name` as a whole identifier within a
/// range.
pub fn narrow_identifier_range(rope: &Rope, range: Range, name: &str) -> (r: Option<Range>)
    ensures
        r == tail_range(rope_text(*rope), range, name@),
{
    let text = match slice_text(rope, range) {
        Some(s) => s,
        None => {
            return None;
        },
    };
    let s = chars_of(text.as_str());
    let n = chars_of(name);
    match slice_last_word(s.as_slice(), n.as_slice()) {
        Some(i) => {
            proof {
                rightmost_whole_word(text@, name@, 0);
                lemma_part_fits(text@, name@, i as int);
            }
            let rel = byte_index(text.as_str(), i);
            let len = byte_len(name);
            let whole = byte_len(text.as_str());
            absolute_range(rope, range, rel, len)
        },
        None => None,
    }
}

/// A part of a text is not longer than the text.
proof fn lemma_part_fits(s: Seq<char>, p: Seq<char>, i: int)
    requires
        occurs_at(s, p, i),
    ensures
        utf8_len(s.take(i)) + utf8_len(p) <= utf8_len(s),
    decreases s.len(),
{
    if i + p.len() < s.len() {
        assert(s.drop_last().subrange(i, i + p.len()) =~= s.subrange(i, i + p.len()));
        assert(s.drop_last().take(i) =~= s.take(i));
        lemma_part_fits(s.drop_last(), p, i);
    } else if p.len() > 0 {
        assert(p.drop_last() =~= s.drop_last().subrange(i, i + p.len() - 1));
        assert(s.drop_last().take(i) =~= s.take(i));
        assert(p.last() == s.last());
        lemma_part_fits(s.drop_last(), p.drop_last(), i);
    } else {
        assert(s.take(i) =~= s);
    }
}

pub open spec fn quoted(name: Seq<char>) -> Seq<char> {
    "\""@ + name + "\""@
}

/// The range of the label `name` of a block, without its quotes.
pub open spec fn label_range(t: Seq<char>, range: Range, name: Seq<char>) -> Option<Range> {
    match range_text(t, range) {
        Some(text) => match find_from(text, quoted(name), 0) {
            Some(i) => inner_range(
                t,
                range,
                utf8_len(text.take(i)) as int + 1,
                utf8_len(name) as int,
            ),
            None => None,
        },
        None => None,
    }
}

/// The range of the first quoted occurrence of `name` within a range.
pub fn narrow_quoted_label(rope: &Rope, range: Range, name: &str) -> (r: Option<Range>)
    ensures
        r == label_range(rope_text(*rope), range, name@),
{
    let text = match slice_text(rope, range) {
        Some(s) => s,
        None => {
            return None;
        },
    };
    let s = chars_of(text.as_str());
    let needle = concat3("\"", name, "\"");
    let n = chars_of(needle.as_str());
    match slice_find_from(s.as_slice(), n.as_slice(), 0) {
        Some(i) => {
            proof {
                lemma_part_fits(text@, needle@, i as int);
                lemma_quoted_len(name@);
            }
            let whole = byte_len(text.as_str());
            let rel = byte_index(text.as_str(), i);
            let len = byte_len(name);
            absolute_range(rope, range, rel + 1, len)
        },
        None => None,
    }
}

proof fn lemma_quoted_len(name: Seq<char>)
    ensures
        utf8_len(quoted(name)) >= utf8_len(name) + 1,
{
    reveal_strlit("\"");
    let q = quoted(name);
    assert(q.drop_last() =~= "\""@ + name);
    let a = "\""@ + name;
    assert(a.skip(1) =~= name);
    lemma_part_fits_whole(a, name, 1);
    lemma_utf8_positive(q);
}

proof fn lemma_part_fits_whole(s: Seq<char>, p: Seq<char>, i: int)
    requires
        0 <= i,
        i + p.len() == s.len(),
        s.skip(i) == p,
    ensures
        utf8_len(p) <= utf8_len(s),
{
    assert(s.subrange(i, i + p.len()) =~= p);
    lemma_part_fits(s, p, i);
}

proof fn lemma_utf8_positive(s: Seq<char>)
    requires
        s.len() > 0,
    ensures
        utf8_len(s) >= utf8_len(s.drop_last()) + 1,
{
}

// ---------------------------------------------------------------------
// Renaming a symbol

/// The range of the key `name` that a place starts with.
pub open spec fn key_range(t: Seq<char>, range: Range, name: Seq<char>) -> Option<Range> {
    match range_text(t, range) {
        Some(text) => if name.len() > 0 && whole_word_at(text, name, 0) {
            inner_range(t, range, 0, utf8_len(name) as int)
        } else {
            None
        },
        None => None,
    }
}

/// The range of `name` at the start of a range, as a whole identifier.
pub fn narrow_leading_key(rope: &Rope, range: Range, name: &str) -> (r: Option<Range>)
    ensures
        r == key_range(rope_text(*rope), range, name@),
{
    let text = match slice_text(rope, range) {
        Some(s) => s,
        None => {
            return None;
        },
    };
    let s = chars_of(text.as_str());
    let n = chars_of(name);
    let len: usize = n.len();
    if len > 0 && len <= s.len() && slice_occurs_at(s.as_slice(), n.as_slice(), 0) && (len
        == s.len() || !is_ident_char(s[len])) {
        absolute_range(rope, range, 0, byte_len(name))
    } else {
        None
    }
}

/// Where the name of a symbol stands in one of its places: at the end of a
/// reference, in the label of a block, or as the key of a local value.
#[derive(Debug, Clone, Copy, PartialEq, Eq, Structural)]
pub enum NamePlace {
    Tail,
    Label,
    Key,
}

/// Where the definitions of a kind of symbol have the name.
pub open spec fn definition_place(kind: SymbolKind) -> NamePlace {
    if kind == SymbolKind::Local {
        NamePlace::Key
    } else {
        NamePlace::Label
    }
}

fn place_of_definition(kind: SymbolKind) -> (r: NamePlace)
    ensures
        r == definition_place(kind),
{
    if kind == SymbolKind::Local {
        NamePlace::Key
    } else {
        NamePlace::Label
    }
}

/// The range of the name in a place.
pub open spec fn narrow(t: Seq<char>, range: Range, name: Seq<char>, at: NamePlace) -> Option<
    Range,
> {
    match at {
        NamePlace::Tail => tail_range(t, range, name),
        NamePlace::Label => label_range(t, range, name),
        NamePlace::Key => key_range(t, range, name),
    }
}

fn narrow_range(rope: &Rope, range: Range, name: &str, at: NamePlace) -> (r: Option<Range>)
    ensures
        r == narrow(rope_text(*rope), range, name@, at),
{
    match at {
        NamePlace::Tail => narrow_identifier_range(rope, range, name),
        NamePlace::Label => narrow_quoted_label(rope, range, name),
        NamePlace::Key => narrow_leading_key(rope, range, name),
    }
}

/// The edit of one place, where its document is known and holds the name.
pub open spec fn place_edit(
    state: StateStore,
    l: SymbolLocation,
    old_name: Seq<char>,
    new_name: Seq<char>,
    at: NamePlace,
) -> Option<EditV> {
    match find_map(state.documents@, doc_with(l.uri@)) {
        Some(d) => match narrow(rope_text(d.rope), l.range, old_name, at) {
            Some(range) => Some(EditV { range, new_text: new_name }),
            None => None,
        },
        None => None,
    }
}

/// `m` with the edits of the first `n` places.
pub open spec fn place_edits_upto(
    state: StateStore,
    all: Seq<SymbolLocation>,
    old_name: Seq<char>,
    new_name: Seq<char>,
    at: NamePlace,
    m: EditMapV,
    n: int,
) -> EditMapV
    decreases n,
{
    if n <= 0 {
        m
    } else {
        let before = place_edits_upto(state, all, old_name, new_name, at, m, n - 1);
        match place_edit(state, all[n - 1], old_name, new_name, at) {
            Some(e) => with_edits(before, all[n - 1].uri@, seq![e]),
            None => before,
        }
    }
}

/// `m` with the edits of all places of a symbol.
pub open spec fn place_edits(
    state: StateStore,
    all: Seq<SymbolLocation>,
    old_name: Seq<char>,
    new_name: Seq<char>,
    at: NamePlace,
    m: EditMapV,
) -> EditMapV {
    place_edits_upto(state, all, old_name, new_name, at, m, all.len() as int)
}

fn push_narrow_edits(
    state: &StateStore,
    index: &Vec<SymbolIndex>,
    key: &SymbolKey,
    new_name: &str,
    at: NamePlace,
    edits: &mut EditMap,
)
    ensures
        final(edits)@ == place_edits(
            *state,
            places(index@, key@),
            key@.name,
            new_name@,
            at,
            old(edits)@,
        ),
{
    let ghost m = edits@;
    let ghost s = places(index@, key@);
    if let Some(all) = find_places(index, key) {
        for i in 0..all.len()
            invariant
                all@ == s,
                edits@ == place_edits_upto(
                    *state,
                    s,
                    key@.name,
                    new_name@,
                    at,
                    m,
                    i as int,
                ),
        {
            let l = &all[i];
            if let Some(d) = find_document(state, l.uri.as_str()) {
                if let Some(range) = narrow_range(
                    &d.rope,
                    l.range,
                    key.name.as_str(),
                    at,
                ) {
                    let e = TextEdit { range, new_text: new_name.to_owned() };
                    let v = vec![e];
                    assert(edits_view(v@) =~= seq![e@]);
                    edits.add(l.uri.as_str(), v);
                }
            }
        }
    }
}

/// The edits that rename a symbol: its definitions and then its references,
/// in all documents.
pub open spec fn symbol_edits(state: StateStore, key: crate::state::KeyV, new_name: Seq<char>) -> EditMapV {
    place_edits(
        state,
        places(state.references_by_name@, key),
        key.name,
        new_name,
        NamePlace::Tail,
        place_edits(
            state,
            places(state.definitions_by_name@, key),
            key.name,
            new_name,
            definition_place(key.kind),
            EditMapV::empty(),
        ),
    )
}

// ---------------------------------------------------------------------
// Renaming the local name of a provider

/// The local name under a character, in `provider::LOCAL`.
pub open spec fn local_span(t: Seq<char>, k: int) -> Option<(int, int)> {
    let start = ident_start(t, k);
    let end = ident_end(t, k);
    if start == end || start < 10 || !occurs_at(t, "provider::"@, start - 10) || (start > 10
        && ident_char(t[start - 11])) {
        None
    } else {
        Some((start, end))
    }
}

fn local_span_at(t: &[char], k: usize) -> (r: Option<(usize, usize)>)
    requires
        k <= t@.len(),
    ensures
        match r {
            Some(p) => local_span(t@, k as int) == Some((p.0 as int, p.1 as int)) && p.0 <= p.1
                <= t@.len(),
            None => local_span(t@, k as int) is None,
        },
{
    let start = slice_ident_start(t, k);
    let end = slice_ident_end(t, k);
    if start == end || start < 10 {
        return None;
    }
    let needle = chars_of("provider::");
    if !slice_occurs_at(t, needle.as_slice(), start - 10) {
        return None;
    }
    if start > 10 && is_ident_char(t[start - 11]) {
        return None;
    }
    Some((start, end))
}

/// The local name of a provider under a position.
pub open spec fn local_under(t: Seq<char>, pos: Position) -> Option<(int, int)> {
    match position_offset(t, pos) {
        Some(b) => local_span(t, char_at_byte(t, b as nat)),
        None => None,
    }
}

fn local_at_position(rope: &Rope, t: &[char], pos: Position) -> (r: Option<(usize, usize)>)
    requires
        t@ == rope_text(*rope),
    ensures
        match r {
            Some(p) => local_under(t@, pos) == Some((p.0 as int, p.1 as int)) && p.0 <= p.1
                <= t@.len(),
            None => local_under(t@, pos) is None,
        },
{
    match lsp_position_to_byte_offset(rope, pos) {
        Some(b) => {
            proof {
                lemma_position_offset_bound(t@, pos);
            }
            local_span_at(t, rope_byte_to_char(rope, b))
        },
        None => None,
    }
}

/// What the editor shows before a rename: the range of the name, and the name.
#[derive(Debug)]
pub struct PrepareRename {
    pub range: Range,
    pub placeholder: String,
}

pub open spec fn prepare_view(p: Option<PrepareRename>) -> Option<(Range, Seq<char>)> {
    match p {
        Some(p) => Some((p.range, p.placeholder@)),
        None => None,
    }
}

pub open spec fn prepare_local(t: Seq<char>, pos: Position) -> Option<(Range, Seq<char>)> {
    match local_under(t, pos) {
        Some((a, b)) => match (
            offset_position(t, char_offset(t, a)),
            offset_position(t, char_offset(t, b)),
        ) {
            (Some(start), Some(end)) => Some((Range { start, end }, t.subrange(a, b))),
            _ => None,
        },
        None => None,
    }
}

pub fn prepare_rename_provider_local(doc: &DocumentState, pos: Position) -> (r: Option<
    PrepareRename,
>)
    ensures
        prepare_view(r) == prepare_local(rope_text(doc.rope), pos),
{
    let text = rope_to_string(&doc.rope);
    let t = chars_of(text.as_str());
    match local_at_position(&doc.rope, t.as_slice(), pos) {
        Some((a, b)) => match (
            char_to_lsp_position(&doc.rope, a),
            char_to_lsp_position(&doc.rope, b),
        ) {
            (Some(start), Some(end)) => Some(
                PrepareRename {
                    range: Range { start, end },
                    placeholder: string_sub(t.as_slice(), a, b),
                },
            ),
            _ => None,
        },
        None => None,
    }
}

/// The range of the key of an entry of the given name. A key without a place
/// ends the search.
pub open spec fn entry_key_range(t: Seq<char>, local: Seq<char>) -> spec_fn(Attribute) -> Option<
    Option<Range>,
> {
    |a: Attribute|
        if a.key.text@ == local {
            match a.key.span {
                Some(span) => Some(span_range(t, span)),
                None => Some(None),
            }
        } else {
            None
        }
}

/// The range of the key under which a body requires a provider.
pub open spec fn required_key_range(body: Body, t: Seq<char>, local: Seq<char>) -> Option<Range> {
    flatten(find_map(provider_entries(body), entry_key_range(t, local)))
}

pub fn required_providers_key_range(body: &Body, rope: &Rope, local: &str) -> (r: Option<Range>)
    ensures
        r == required_key_range(*body, rope_text(*rope), local@),
{
    let list = list_provider_entries(body);
    let ghost s = provider_entries(*body);
    let ghost f = entry_key_range(rope_text(*rope), local@);
    proof {
        lemma_take_full(s);
    }
    for i in 0..list.len()
        invariant
            attr_pointees(list@) == s,
            s == provider_entries(*body),
            f == entry_key_range(rope_text(*rope), local@),
            find_map(s, f) == find_map(s.skip(i as int), f),
    {
        proof {
            lemma_find_map_step(s, f, i as int);
            assert(s[i as int] == *list@[i as int]);
        }
        if str_eq(list[i].key.text.as_str(), local) {
            return match list[i].key.span {
                Some(span) => hcl_span_to_lsp_range(rope, span),
                None => None,
            };
        }
    }
    None
}

/// `m` with the edit of the key in one document.
pub open spec fn with_key_edit(
    m: EditMapV,
    doc: DocumentState,
    local: Seq<char>,
    new_name: Seq<char>,
) -> EditMapV {
    match doc.body {
        Some(body) => match required_key_range(body, rope_text(doc.rope), local) {
            Some(range) => with_edits(
                m,
                doc.uri.text@,
                seq![EditV { range, new_text: new_name }],
            ),
            None => m,
        },
        None => m,
    }
}

fn add_key_edit(edits: &mut EditMap, doc: &DocumentState, local: &str, new_name: &str)
    ensures
        final(edits)@ == with_key_edit(old(edits)@, *doc, local@, new_name@),
{
    if let Some(body) = &doc.body {
        if let Some(range) = required_providers_key_range(body, &doc.rope, local) {
            let e = TextEdit { range, new_text: new_name.to_owned() };
            let v = vec![e];
            assert(edits_view(v@) =~= seq![e@]);
            edits.add(doc.uri.text.as_str(), v);
        }
    }
}

/// `m` with the edits of the keys in the documents of a module other than
/// the given one, among the first `n`.
pub open spec fn sibling_key_edits(
    docs: Seq<DocumentState>,
    uri: DocUri,
    local: Seq<char>,
    new_name: Seq<char>,
    m: EditMapV,
    n: int,
) -> EditMapV
    decreases n,
{
    if n <= 0 {
        m
    } else {
        let before = sibling_key_edits(docs, uri, local, new_name, m, n - 1);
        let d = docs[n - 1];
        if d.uri.text@ != uri.text@ && uri.dir is Some && opt_view(d.uri.dir) == opt_view(
            uri.dir,
        ) {
            with_key_edit(before, d, local, new_name)
        } else {
            before
        }
    }
}

pub open spec fn key_edits(
    state: StateStore,
    uri: DocUri,
    local: Seq<char>,
    new_name: Seq<char>,
) -> EditMapV {
    let own = match find_map(state.documents@, primary_doc(uri)) {
        Some(d) => with_key_edit(EditMapV::empty(), d, local, new_name),
        None => EditMapV::empty(),
    };
    sibling_key_edits(
        state.documents@,
        uri,
        local,
        new_name,
        own,
        state.documents@.len() as int,
    )
}

fn push_required_providers_attr_edits(
    state: &StateStore,
    uri: &DocUri,
    local: &str,
    new_name: &str,
) -> (r: EditMap)
    ensures
        r@ == key_edits(*state, *uri, local@, new_name@),
{
    let mut edits = EditMap::new();
    if let Some(doc) = find_doc(state, uri) {
        add_key_edit(&mut edits, doc, local, new_name);
    }
    let ghost own = edits@;
    for i in 0..state.documents.len()
        invariant
            edits@ == sibling_key_edits(
                state.documents@,
                *uri,
                local@,
                new_name@,
                own,
                i as int,
            ),
    {
        let d = &state.documents[i];
        if !str_eq(d.uri.text.as_str(), uri.text.as_str()) && uri.dir.is_some() && same_dir(
            &d.uri.dir,
            &uri.dir,
        ) {
            add_key_edit(&mut edits, d, local, new_name);
        }
    }
    edits
}

pub open spec fn call_prefix(local: Seq<char>) -> Seq<char> {
    "provider::"@ + local + "::"@
}

/// The prefix at `k` starts a call: no identifier and no colon stand before
/// it, and a function name follows.
pub open spec fn is_call_site(t: Seq<char>, k: int, after: int) -> bool {
    (k == 0 || !(ident_char(t[k - 1]) || t[k - 1] == ':')) && after < t.len() && (
    ascii_alphabetic(t[after]) || t[after] == '_')
}

/// Where calls with a prefix start, from character `from` on.
pub open spec fn call_sites(t: Seq<char>, prefix: Seq<char>, from: int) -> Seq<int>
    decreases t.len() - from,
{
    match find_from(t, prefix, from) {
        Some(k) => {
            let after = k + prefix.len();
            if from < after <= t.len() {
                let rest = call_sites(t, prefix, after);
                if is_call_site(t, k, after) {
                    seq![k] + rest
                } else {
                    rest
                }
            } else {
                Seq::empty()
            }
        },
        None => Seq::empty(),
    }
}

/// The edit of the local name in a call that starts at `k`.
pub open spec fn site_edit(t: Seq<char>, local: Seq<char>, new_name: Seq<char>) -> spec_fn(
    int,
) -> Option<EditV> {
    |k: int|
        match (
            offset_position(t, char_offset(t, k + 10)),
            offset_position(t, char_offset(t, k + 10 + local.len())),
        ) {
            (Some(start), Some(end)) => Some(
                EditV { range: Range { start, end }, new_text: new_name },
            ),
            _ => None,
        }
}

/// The edits of the calls in a text.
pub open spec fn site_edits(t: Seq<char>, local: Seq<char>, new_name: Seq<char>) -> Seq<EditV> {
    filter_map(call_sites(t, call_prefix(local), 0), site_edit(t, local, new_name))
}

pub open spec fn ints(v: Seq<usize>) -> Seq<int> {
    Seq::new(v.len(), |i: int| v[i] as int)
}

fn list_call_sites(t: &[char], prefix: &[char]) -> (r: Vec<usize>)
    requires
        prefix@.len() > 0,
    ensures
        ints(r@) == call_sites(t@, prefix@, 0),
        forall|i: int|
            0 <= i < r@.len() ==> (#[trigger] r@[i]) + prefix@.len() <= t@.len(),
{
    let mut out: Vec<usize> = Vec::new();
    let mut from: usize = 0;
    let n: usize = t.len();
    let p: usize = prefix.len();
    assert(ints(out@) + call_sites(t@, prefix@, 0) =~= call_sites(t@, prefix@, 0));
    loop
        invariant
            n == t@.len(),
            p == prefix@.len(),
            p > 0,
            from <= n,
            call_sites(t@, prefix@, 0) == ints(out@) + call_sites(t@, prefix@, from as int),
            forall|i: int| 0 <= i < out@.len() ==> (#[trigger] out@[i]) + p <= n,
        decreases n - from,
    {
        match slice_find_from(t, prefix, from) {
            Some(k) => {
                proof {
                    lemma_find_from(t@, prefix@, from as int);
                }
                let after: usize = k + p;
                let ghost before = ints(out@);
                let ghost rest = call_sites(t@, prefix@, after as int);
                let starts = k == 0 || !(is_ident_char(t[k - 1]) || t[k - 1] == ':');
                if starts && after < n && (is_ascii_alphabetic(t[after]) || t[after] == '_') {
                    out.push(k);
                    assert(ints(out@) =~= before.push(k as int));
                    assert(ints(out@) + rest =~= before + (seq![k as int] + rest));
                }
                from = after;
            },
            None => {
                assert(ints(out@) + Seq::<int>::empty() =~= ints(out@));
                return out;
            },
        }
    }
}

fn list_site_edits(doc: &DocumentState, local: &str, new_name: &str) -> (r: Vec<TextEdit>)
    ensures
        edits_view(r@) == site_edits(rope_text(doc.rope), local@, new_name@),
{
    let text = rope_to_string(&doc.rope);
    let t = chars_of(text.as_str());
    let prefix = concat3("provider::", local, "::");
    let p = chars_of(prefix.as_str());
    let l = chars_of(local);
    proof {
        reveal_strlit("provider::");
        reveal_strlit("::");
    }
    let sites = list_call_sites(t.as_slice(), p.as_slice());
    let ghost s = call_sites(t@, call_prefix(local@), 0);
    let ghost f = site_edit(t@, local@, new_name@);
    let n: usize = t.len();
    let len: usize = l.len();
    let mut out: Vec<TextEdit> = Vec::new();
    proof {
        lemma_take_full(s);
    }
    assert(edits_view(out@) =~= filter_map(s.take(0), f));
    for i in 0..sites.len()
        invariant
            t@ == rope_text(doc.rope),
            n == t@.len(),
            len == local@.len(),
            ints(sites@) == s,
            forall|i: int| 0 <= i < sites@.len() ==> (#[trigger] sites@[i]) + len + 12 <= n,
            f == site_edit(t@, local@, new_name@),
            edits_view(out@) == filter_map(s.take(i as int), f),
    {
        proof {
            lemma_filter_map_step(s, f, i as int);
            assert(s[i as int] == sites@[i as int]);
            assert(sites@[i as int] + len + 12 <= n);
        }
        let k: usize = sites[i];
        let ghost before = edits_view(out@);
        match (
            char_to_lsp_position(&doc.rope, k + 10),
            char_to_lsp_position(&doc.rope, k + 10 + len),
        ) {
            (Some(start), Some(end)) => {
                let e = TextEdit { range: Range { start, end }, new_text: new_name.to_owned() };
                out.push(e);
                assert(edits_view(out@) =~= before.push(e@));
            },
            _ => {},
        }
    }
    out
}

/// `m` with the edits of the calls in the first `n` documents.
pub open spec fn call_edits_upto(
    docs: Seq<DocumentState>,
    local: Seq<char>,
    new_name: Seq<char>,
    m: EditMapV,
    n: int,
) -> EditMapV
    decreases n,
{
    if n <= 0 {
        m
    } else {
        let before = call_edits_upto(docs, local, new_name, m, n - 1);
        let e = site_edits(rope_text(docs[n - 1].rope), local, new_name);
        if e.len() == 0 {
            before
        } else {
            with_edits(before, docs[n - 1].uri.text@, e)
        }
    }
}

/// The edits that rename the local name of a provider: the keys in the module,
/// and the calls in all documents.
pub open spec fn local_edits(
    state: StateStore,
    uri: DocUri,
    local: Seq<char>,
    new_name: Seq<char>,
) -> EditMapV {
    call_edits_upto(
        state.documents@,
        local,
        new_name,
        key_edits(state, uri, local, new_name),
        state.documents@.len() as int,
    )
}

/// The edits where the position is on the local name of a provider.
pub open spec fn rename_local(
    state: StateStore,
    uri: DocUri,
    doc: DocumentState,
    pos: Position,
    new_name: Seq<char>,
) -> Option<EditMapV> {
    let t = rope_text(doc.rope);
    match local_under(t, pos) {
        Some((a, b)) => {
            let m = local_edits(state, uri, t.subrange(a, b), new_name);
            if m.len() == 0 {
                None
            } else {
                Some(m)
            }
        },
        None => None,
    }
}

pub open spec fn opt_map(m: Option<EditMap>) -> Option<EditMapV> {
    match m {
        Some(m) => Some(m@),
        None => None,
    }
}

pub fn rename_provider_local(
    state: &StateStore,
    uri: &DocUri,
    doc: &DocumentState,
    pos: Position,
    new_name: &str,
) -> (r: Option<EditMap>)
    ensures
        opt_map(r) == rename_local(*state, *uri, *doc, pos, new_name@),
{
    let text = rope_to_string(&doc.rope);
    let t = chars_of(text.as_str());
    let (a, b) = match local_at_position(&doc.rope, t.as_slice(), pos) {
        Some(p) => p,
        None => {
            return None;
        },
    };
    let local = string_sub(t.as_slice(), a, b);
    let mut edits = push_required_providers_attr_edits(state, uri, local.as_str(), new_name);
    let ghost m = edits@;
    for i in 0..state.documents.len()
        invariant
            edits@ == call_edits_upto(state.documents@, local@, new_name@, m, i as int),
    {
        let v = list_site_edits(&state.documents[i], local.as_str(), new_name);
        assert(edits_view(v@).len() == v@.len());
        if v.len() > 0 {
            edits.add(state.documents[i].uri.text.as_str(), v);
        }
    }
    if edits.is_empty() {
        None
    } else {
        Some(edits)
    }
}

// ---------------------------------------------------------------------
// Requests

/// What can be renamed at a position: the local name of a provider in a call,
/// or a symbol.
pub open spec fn prepare_answer(state: StateStore, uri: DocUri, pos: Position) -> Option<
    (Range, Seq<char>),
> {
    match find_map(state.documents@, primary_doc(uri)) {
        Some(doc) => {
            let t = rope_text(doc.rope);
            match prepare_local(t, pos) {
                Some(p) => Some(p),
                None => match symbol_at_cursor(doc, pos) {
                    Some(target) => match narrow(
                        t,
                        target.location.range,
                        target.key.name,
                        if target.kind == CursorKind::Definition {
                            definition_place(target.key.kind)
                        } else {
                            NamePlace::Tail
                        },
                    ) {
                        Some(range) => Some((range, target.key.name)),
                        None => None,
                    },
                    None => None,
                },
            }
        },
        None => None,
    }
}

/// What can be renamed at a position, and its range.
pub fn prepare_rename(state: &StateStore, uri: &DocUri, pos: Position) -> (r: Option<PrepareRename>)
    ensures
        prepare_view(r) == prepare_answer(*state, *uri, pos),
{
    let doc = match find_doc(state, uri) {
        Some(d) => d,
        None => {
            return None;
        },
    };
    let local = prepare_rename_provider_local(doc, pos);
    if local.is_some() {
        return local;
    }
    let target = match find_symbol_at_cursor(doc, pos) {
        Some(t) => t,
        None => {
            return None;
        },
    };
    let at = match target.kind {
        CursorKind::Definition => place_of_definition(target.key.kind),
        CursorKind::Reference => NamePlace::Tail,
    };
    match narrow_range(
        &doc.rope,
        target.location.range,
        target.key.name.as_str(),
        at,
    ) {
        Some(range) => Some(PrepareRename { range, placeholder: target.key.name }),
        None => None,
    }
}

/// The edits of a rename, `None` where there are none.
pub open spec fn rename_answer(
    state: StateStore,
    uri: DocUri,
    pos: Position,
    new_name: Seq<char>,
) -> Option<EditMapV> {
    match find_map(state.documents@, primary_doc(uri)) {
        Some(doc) => match rename_local(state, uri, doc, pos, new_name) {
            Some(m) => Some(m),
            None => match key_under(doc, pos) {
                Some(key) => {
                    let m = symbol_edits(state, key, new_name);
                    if m.len() == 0 {
                        None
                    } else {
                        Some(m)
                    }
                },
                None => None,
            },
        },
        None => None,
    }
}

/// Rename what is under the cursor everywhere.
pub fn rename(state: &StateStore, uri: &DocUri, pos: Position, new_name: &str) -> (r: Option<
    EditMap,
>)
    ensures
        opt_map(r) == rename_answer(*state, *uri, pos, new_name@),
{
    let doc = match find_doc(state, uri) {
        Some(d) => d,
        None => {
            return None;
        },
    };
    let local = rename_provider_local(state, uri, doc, pos, new_name);
    if local.is_some() {
        return local;
    }
    let key = match key_at_cursor(doc, pos) {
        Some(k) => k,
        None => {
            return None;
        },
    };
    let mut edits = EditMap::new();
    let at = place_of_definition(key.kind);
    push_narrow_edits(state, &state.definitions_by_name, &key, new_name, at, &mut edits);
    push_narrow_edits(
        state,
        &state.references_by_name,
        &key,
        new_name,
        NamePlace::Tail,
        &mut edits,
    );
    if edits.is_empty() {
        None
    } else {
        Some(edits)
    }
}

// ---------------------------------------------------------------------
// Laws

/// What is rewritten in a reference is the name and nothing else.
pub proof fn narrowed_reference_holds_name(t: Seq<char>, range: Range, name: Seq<char>)
    ensures
        tail_range(t, range, name) matches Some(r) ==> range_text(t, r) == Some(name),
{
    if tail_range(t, range, name) is Some {
        let text = range_text(t, range)->0;
        let i = last_word(text, name)->0;
        rightmost_whole_word(text, name, 0);
        part_of_range_holds_part(t, range, i, name.len() as int);
    }
}

proof fn lemma_found_occurs(s: Seq<char>, p: Seq<char>, from: int)
    requires
        0 <= from,
    ensures
        find_from(s, p, from) matches Some(i) ==> from <= i && occurs_at(s, p, i),
    decreases s.len() + 1 - from,
{
    if from + p.len() <= s.len() && !occurs_at(s, p, from) {
        lemma_found_occurs(s, p, from + 1);
    }
}

/// What is rewritten in a declaration is the name in its label and nothing
/// else.
pub proof fn narrowed_label_holds_name(t: Seq<char>, range: Range, name: Seq<char>)
    ensures
        label_range(t, range, name) matches Some(r) ==> range_text(t, r) == Some(name),
{
    if label_range(t, range, name) is Some {
        reveal_strlit("\"");
        let text = range_text(t, range)->0;
        let q = quoted(name);
        let i = find_from(text, q, 0)->0;
        let n = name.len() as int;
        lemma_found_occurs(text, q, 0);
        assert(text.subrange(i, i + q.len()) == q);
        assert(text.subrange(i + 1, i + 1 + n) =~= name) by {
            assert forall|j: int| 0 <= j < n implies text.subrange(i + 1, i + 1 + n)[j] == name[j] by {
                assert(text.subrange(i, i + q.len())[j + 1] == q[j + 1]);
            }
        }
        assert(text.take(i + 1).drop_last() =~= text.take(i));
        assert(text.subrange(i, i + q.len())[0] == q[0]);
        assert(text.take(i + 1).last() == '"');
        part_of_range_holds_part(t, range, i + 1, n);
    }
}

/// What is rewritten where a local value is set is its key and nothing else.
pub proof fn narrowed_key_holds_name(t: Seq<char>, range: Range, name: Seq<char>)
    ensures
        key_range(t, range, name) matches Some(r) ==> range_text(t, r) == Some(name),
{
    if key_range(t, range, name) is Some {
        let text = range_text(t, range)->0;
        assert(text.take(0) =~= Seq::<char>::empty());
        part_of_range_holds_part(t, range, 0, name.len() as int);
    }
}

} // verus!
