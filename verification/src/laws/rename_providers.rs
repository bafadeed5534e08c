//! What renaming the local name of a provider changes.

use crate::actions::EditMapV;
use crate::hcl::Body;
use crate::idents::{ident_char, ident_end, ident_start};
use crate::laws::common::{is_doc, lemma_doc};
use crate::laws::rename::{has_edit, lemma_with_edits};
use crate::position::{
    char_at_byte, char_offset, offset_position, position_offset, rope_text, span_range, EditV,
    Position, Range,
};
use crate::providers::provider_entries;
use crate::rename::{
    call_edits_upto, call_sites, entry_key_range, is_call_site, key_edits, local_edits, local_span,
    local_under, prepare_local, rename_local, required_key_range, sibling_key_edits, site_edit,
    site_edits, with_key_edit,
};
use crate::seqs::{lemma_filter_map_contains, lemma_find_map_at};
use crate::state::{DocUri, DocumentState, StateStore};
use crate::text::{find_from, occurs_at};
use vstd::prelude::*;

verus! {

proof fn lemma_start(t: Seq<char>, a: int, k: int)
    requires
        0 <= a <= k <= t.len(),
        forall|i: int| a <= i < k ==> ident_char(#[trigger] t[i]),
        a > 0 ==> !ident_char(t[a - 1]),
    ensures
        ident_start(t, k) == a,
    decreases k - a,
{
    if a < k {
        assert(ident_char(t[k - 1]));
        lemma_start(t, a, k - 1);
    }
}

proof fn lemma_end(t: Seq<char>, k: int, b: int)
    requires
        0 <= k <= b <= t.len(),
        forall|i: int| k <= i < b ==> ident_char(#[trigger] t[i]),
        b < t.len() ==> !ident_char(t[b]),
    ensures
        ident_end(t, k) == b,
    decreases b - k,
{
    if k < b {
        assert(ident_char(t[k]));
        lemma_end(t, k + 1, b);
    }
}

/// A word of a text: identifier characters from `a` to `b`, and none around them.
pub open spec fn is_word(t: Seq<char>, a: int, b: int) -> bool {
    &&& 0 <= a < b <= t.len()
    &&& forall|i: int| a <= i < b ==> ident_char(#[trigger] t[i])
    &&& a > 0 ==> !ident_char(t[a - 1])
    &&& b < t.len() ==> !ident_char(t[b])
}

/// The word behind `provider::` is the local name, wherever in it the cursor
/// stands; `provider` has to be a word of its own.
pub proof fn local_names_stand_behind_provider(t: Seq<char>, a: int, b: int, k: int)
    requires
        is_word(t, a, b),
        a <= k <= b,
    ensures
        local_span(t, k) == if occurs_at(t, "provider::"@, a - 10) && (a == 10 || !ident_char(
            t[a - 11],
        )) {
            Some((a, b))
        } else {
            None
        },
{
    reveal_strlit("provider::");
    lemma_start(t, a, k);
    lemma_end(t, k, b);
}

/// The editor is shown the local name under the cursor and its own range.
pub proof fn local_names_are_shown(t: Seq<char>, pos: Position, a: int, b: int, offset: int)
    requires
        position_offset(t, pos) == Some(offset),
        0 <= offset,
        is_word(t, a, b),
        a <= char_at_byte(t, offset as nat) <= b,
        occurs_at(t, "provider::"@, a - 10),
        a == 10 || !ident_char(t[a - 11]),
        offset_position(t, char_offset(t, a)) is Some,
        offset_position(t, char_offset(t, b)) is Some,
    ensures
        prepare_local(t, pos) == Some(
            (
                Range {
                    start: offset_position(t, char_offset(t, a))->0,
                    end: offset_position(t, char_offset(t, b))->0,
                },
                t.subrange(a, b),
            ),
        ),
{
    local_names_stand_behind_provider(t, a, b, char_at_byte(t, offset as nat));
}

/// A call of a function of the provider: `provider::LOCAL::`, with a letter or an
/// underscore behind it, and not as part of a longer name.
pub open spec fn calls_provider(t: Seq<char>, local: Seq<char>, k: int) -> bool {
    let after = k + 12 + local.len();
    &&& occurs_at(t, "provider::"@ + local + "::"@, k)
    &&& k > 0 ==> !ident_char(t[k - 1]) && t[k - 1] != ':'
    &&& after < t.len()
    &&& t[after] == '_' || 97 <= t[after] as u32 <= 122 || 65 <= t[after] as u32 <= 90
}

/// The edits of a text change the local name of calls, and of nothing else.
pub proof fn only_calls_are_renamed(t: Seq<char>, local: Seq<char>, new_name: Seq<char>, e: EditV)
    requires
        site_edits(t, local, new_name).contains(e),
    ensures
        exists|k: int| #[trigger]
            calls_provider(t, local, k) && e.new_text == new_name && offset_position(
                t,
                char_offset(t, k + 10),
            ) == Some(e.range.start) && offset_position(t, char_offset(t, k + 10 + local.len()))
                == Some(e.range.end),
{
    let p = "provider::"@ + local + "::"@;
    reveal_strlit("provider::");
    reveal_strlit("::");
    let s = call_sites(t, p, 0);
    lemma_filter_map_contains(s, site_edit(t, local, new_name), e);
    let i = choose|i: int|
        0 <= i < s.len() && site_edit(t, local, new_name)(#[trigger] s[i]) == Some(e);
    lemma_sites(t, p, 0, i);
    let k = s[i];
    assert(p.len() == 12 + local.len());
    assert(occurs_at(t, p, k));
    assert(calls_provider(t, local, k));
}

proof fn lemma_sites(t: Seq<char>, p: Seq<char>, from: int, i: int)
    requires
        0 <= from,
        0 <= i < call_sites(t, p, from).len(),
    ensures
        ({
            let k = call_sites(t, p, from)[i];
            from <= k && occurs_at(t, p, k) && is_call_site(t, k, (k + p.len()) as int)
        }),
    decreases t.len() - from,
{
    crate::idents::lemma_find_from(t, p, from);
    let k = find_from(t, p, from)->0;
    let after = (k + p.len()) as int;
    let rest = call_sites(t, p, after);
    if is_call_site(t, k, after) {
        if i > 0 {
            assert(call_sites(t, p, from)[i] == rest[i - 1]);
            lemma_sites(t, p, after, i - 1);
        }
    } else {
        lemma_sites(t, p, after, i);
    }
}

/// Every call is renamed, unless its prefix overlaps with an earlier one.
pub proof fn calls_are_renamed(
    t: Seq<char>,
    local: Seq<char>,
    new_name: Seq<char>,
    k: int,
    start: Position,
    end: Position,
)
    requires
        calls_provider(t, local, k),
        forall|j: int|
            0 <= j < k && #[trigger] occurs_at(t, "provider::"@ + local + "::"@, j) ==> j + 12
                + local.len() <= k,
        offset_position(t, char_offset(t, k + 10)) == Some(start),
        offset_position(t, char_offset(t, k + 10 + local.len())) == Some(end),
    ensures
        site_edits(t, local, new_name).contains(
            EditV { range: Range { start, end }, new_text: new_name },
        ),
{
    let p = "provider::"@ + local + "::"@;
    reveal_strlit("provider::");
    reveal_strlit("::");
    assert(p.len() == 12 + local.len());
    lemma_site_found(t, p, 0, k);
    let s = call_sites(t, p, 0);
    let i = choose|i: int| 0 <= i < s.len() && s[i] == k;
    let e = EditV { range: Range { start, end }, new_text: new_name };
    lemma_filter_map_contains(s, site_edit(t, local, new_name), e);
    assert(site_edit(t, local, new_name)(s[i]) == Some(e));
}

proof fn lemma_site_found(t: Seq<char>, p: Seq<char>, from: int, k: int)
    requires
        0 <= from <= k,
        p.len() > 0,
        occurs_at(t, p, k),
        is_call_site(t, k, (k + p.len()) as int),
        forall|j: int|
            from <= j < k && #[trigger] occurs_at(t, p, j) ==> j + p.len() <= k,
    ensures
        call_sites(t, p, from).contains(k),
    decreases t.len() - from,
{
    lemma_first(t, p, from, k);
    let j = find_from(t, p, from)->0;
    let after = (j + p.len()) as int;
    let rest = call_sites(t, p, after);
    let all = call_sites(t, p, from);
    if j == k {
        assert(all[0] == k);
    } else {
        lemma_site_found(t, p, after, k);
        let i = choose|i: int| 0 <= i < rest.len() && rest[i] == k;
        if is_call_site(t, j, after) {
            assert(all[i + 1] == k);
        }
    }
}

proof fn lemma_first(t: Seq<char>, p: Seq<char>, from: int, k: int)
    requires
        0 <= from <= k,
        occurs_at(t, p, k),
    ensures
        find_from(t, p, from) matches Some(j) && from <= j <= k && occurs_at(t, p, j),
    decreases k - from,
{
    if !occurs_at(t, p, from) {
        lemma_first(t, p, from + 1, k);
    }
}

/// The key of the first entry of the name is renamed.
pub proof fn keys_of_entries_are_found(body: Body, t: Seq<char>, local: Seq<char>, i: int)
    requires
        0 <= i < provider_entries(body).len(),
        provider_entries(body)[i].key.text@ == local,
        forall|j: int|
            0 <= j < i ==> (#[trigger] provider_entries(body)[j]).key.text@ != local,
        provider_entries(body)[i].key.span is Some,
    ensures
        required_key_range(body, t, local) == span_range(
            t,
            provider_entries(body)[i].key.span->0,
        ),
{
    lemma_find_map_at(provider_entries(body), entry_key_range(t, local), i);
}

proof fn lemma_keep(m: EditMapV, doc: DocumentState, local: Seq<char>, new_name: Seq<char>, u: Seq<char>, e: EditV)
    ensures
        has_edit(m, u, e.range, e.new_text) ==> has_edit(
            with_key_edit(m, doc, local, new_name),
            u,
            e.range,
            e.new_text,
        ),
        doc.body is Some && required_key_range(doc.body->0, rope_text(doc.rope), local) == Some(
            e.range,
        ) && e.new_text == new_name && doc.uri.text@ == u ==> has_edit(
            with_key_edit(m, doc, local, new_name),
            u,
            e.range,
            e.new_text,
        ),
{
    if doc.body is Some {
        if let Some(range) = required_key_range(doc.body->0, rope_text(doc.rope), local) {
            let own = seq![EditV { range, new_text: new_name }];
            lemma_with_edits(m, doc.uri.text@, own, u, e.range, e.new_text);
            assert(own[0].range == range && own[0].new_text == new_name);
        }
    }
}

proof fn lemma_siblings(
    docs: Seq<DocumentState>,
    uri: DocUri,
    local: Seq<char>,
    new_name: Seq<char>,
    m: EditMapV,
    n: int,
    i: int,
    u: Seq<char>,
    e: EditV,
)
    requires
        0 <= n <= docs.len(),
        has_edit(m, u, e.range, e.new_text) || (0 <= i < n && docs[i].uri.text@ == u && u
            != uri.text@ && uri.dir is Some && docs[i].uri.dir is Some && docs[i].uri.dir->0@
            == uri.dir->0@ && docs[i].body is Some && required_key_range(
            docs[i].body->0,
            rope_text(docs[i].rope),
            local,
        ) == Some(e.range) && e.new_text == new_name),
    ensures
        has_edit(
            sibling_key_edits(docs, uri, local, new_name, m, n),
            u,
            e.range,
            e.new_text,
        ),
    decreases n,
{
    if n > 0 {
        let before = sibling_key_edits(docs, uri, local, new_name, m, n - 1);
        lemma_keep(before, docs[n - 1], local, new_name, u, e);
        if has_edit(m, u, e.range, e.new_text) || i < n - 1 {
            lemma_siblings(docs, uri, local, new_name, m, n - 1, i, u, e);
        }
    }
}

proof fn lemma_calls(
    docs: Seq<DocumentState>,
    local: Seq<char>,
    new_name: Seq<char>,
    m: EditMapV,
    n: int,
    i: int,
    u: Seq<char>,
    e: EditV,
)
    requires
        0 <= n <= docs.len(),
        has_edit(m, u, e.range, e.new_text) || (0 <= i < n && docs[i].uri.text@ == u && site_edits(
            rope_text(docs[i].rope),
            local,
            new_name,
        ).contains(e)),
    ensures
        has_edit(call_edits_upto(docs, local, new_name, m, n), u, e.range, e.new_text),
    decreases n,
{
    if n > 0 {
        let before = call_edits_upto(docs, local, new_name, m, n - 1);
        let own = site_edits(rope_text(docs[n - 1].rope), local, new_name);
        lemma_with_edits(before, docs[n - 1].uri.text@, own, u, e.range, e.new_text);
        if has_edit(m, u, e.range, e.new_text) || i < n - 1 {
            lemma_calls(docs, local, new_name, m, n - 1, i, u, e);
        } else {
            let j = choose|j: int| 0 <= j < own.len() && own[j] == e;
            assert(own[j].range == e.range && own[j].new_text == e.new_text);
        }
    }
}

/// The keys in the document itself and in the other documents of its module are
/// renamed.
pub proof fn keys_of_the_module_are_renamed(
    state: StateStore,
    uri: DocUri,
    local: Seq<char>,
    new_name: Seq<char>,
    k: int,
    i: int,
    range: Range,
)
    requires
        is_doc(state, uri.text@, k),
        i == k || (0 <= i < state.documents@.len() && state.documents@[i].uri.text@ != uri.text@
            && uri.dir is Some && state.documents@[i].uri.dir is Some
            && state.documents@[i].uri.dir->0@ == uri.dir->0@),
        state.documents@[i].body is Some,
        required_key_range(
            state.documents@[i].body->0,
            rope_text(state.documents@[i].rope),
            local,
        ) == Some(range),
    ensures
        has_edit(
            local_edits(state, uri, local, new_name),
            state.documents@[i].uri.text@,
            range,
            new_name,
        ),
{
    lemma_doc(state, uri, k);
    let docs = state.documents@;
    let n = docs.len() as int;
    let e = EditV { range, new_text: new_name };
    let u = docs[i].uri.text@;
    let own = with_key_edit(EditMapV::empty(), docs[k], local, new_name);
    lemma_keep(EditMapV::empty(), docs[k], local, new_name, u, e);
    lemma_siblings(docs, uri, local, new_name, own, n, i, u, e);
    lemma_calls(docs, local, new_name, key_edits(state, uri, local, new_name), n, i, u, e);
}

/// The calls in every document are renamed.
pub proof fn calls_everywhere_are_renamed(
    state: StateStore,
    uri: DocUri,
    local: Seq<char>,
    new_name: Seq<char>,
    i: int,
    e: EditV,
)
    requires
        0 <= i < state.documents@.len(),
        site_edits(rope_text(state.documents@[i].rope), local, new_name).contains(e),
    ensures
        has_edit(
            local_edits(state, uri, local, new_name),
            state.documents@[i].uri.text@,
            e.range,
            e.new_text,
        ),
{
    lemma_calls(
        state.documents@,
        local,
        new_name,
        key_edits(state, uri, local, new_name),
        state.documents@.len() as int,
        i,
        state.documents@[i].uri.text@,
        e,
    );
}

/// A rename with the cursor on a local name makes those edits.
pub proof fn local_names_are_renamed(
    state: StateStore,
    uri: DocUri,
    doc: DocumentState,
    pos: Position,
    new_name: Seq<char>,
    a: int,
    b: int,
)
    requires
        local_under(rope_text(doc.rope), pos) == Some((a, b)),
        local_edits(state, uri, rope_text(doc.rope).subrange(a, b), new_name).len() > 0,
    ensures
        rename_local(state, uri, doc, pos, new_name) == Some(
            local_edits(state, uri, rope_text(doc.rope).subrange(a, b), new_name),
        ),
{
}

} // verus!
