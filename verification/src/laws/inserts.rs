//! What the fix of a missing attribute writes, and what named values show.

use crate::actions::{DiagnosticV, WorkspaceEditV};
use crate::hcl::{blocks, Block, Body};
use crate::hover::{
    attr_after, described, dot_before, is_head, named_value_answer, type_constraint_answer,
    CursorWord, HoverV, NamedValue,
};
use crate::idents::{ident_char, ident_end};
use crate::laws::basics::{characters_are_found, not_after};
use crate::laws::hover::{
    is_named, lacks, lemma_lacks, lemma_named, lemma_resource_schema, resource_schema_at,
};
use crate::position::{
    char_at_byte, char_offset, offset_position, position_offset, rope_text, span_range, utf8_len,
    EditV, Position, Range,
};
use crate::quick_fixes::{backticked, insert_point, insert_required, resource_block_at};
use crate::schema::{Json, SchemaEntry};
use crate::seqs::lemma_find_map_at;
use crate::state::DocumentState;
use crate::text::{find_char, opt_view};
use vstd::prelude::*;

verus! {

/// The name in a message is what stands between its first two backticks.
pub proof fn messages_name_in_backticks(a: Seq<char>, name: Seq<char>, rest: Seq<char>)
    requires
        !a.contains('`'),
        !name.contains('`'),
    ensures
        backticked(a + seq!['`'] + name + seq!['`'] + rest) == Some(name),
        backticked(a) is None,
        backticked(a + seq!['`'] + name) is None,
{
    lemma_two(a, name, seq!['`'] + rest);
    lemma_two(a, name, Seq::empty());
    let s = a + seq!['`'] + name + seq!['`'] + rest;
    assert(s =~= a + seq!['`'] + name + (seq!['`'] + rest));
    assert(a + seq!['`'] + name =~= a + seq!['`'] + name + Seq::<char>::empty());
    characters_are_found(a, '`', 0);
    assert(s.subrange(1int + a.len(), (a.len() + 1 + name.len()) as int) =~= name);
}

proof fn lemma_two(a: Seq<char>, name: Seq<char>, rest: Seq<char>)
    requires
        !a.contains('`'),
        !name.contains('`'),
        rest.len() > 0 ==> rest[0] == '`',
    ensures
        ({
            let s = a + seq!['`'] + name + rest;
            find_char(s, '`', 0) == Some(a.len() as int) && find_char(s, '`', 1int + a.len())
                == if rest.len() > 0 {
                Some((a.len() + 1 + name.len()) as int)
            } else {
                None
            }
        }),
{
    let s = a + seq!['`'] + name + rest;
    characters_are_found(s, '`', 0);
    characters_are_found(s, '`', 1int + a.len());
    assert(s[a.len() as int] == '`');
    assert forall|j: int| 0 <= j < a.len() implies #[trigger] s[j] != '`' by {
        assert(s[j] == a[j]);
    }
    assert forall|j: int| a.len() + 1 <= j < a.len() + 1 + name.len() implies #[trigger] s[j]
        != '`' by {
        assert(s[j] == name[j - a.len() - 1]);
    }
    if rest.len() > 0 {
        assert(s[(a.len() + 1 + name.len()) as int] == '`');
    }
}

/// A resource or data source whose block holds the position, the first such.
pub open spec fn is_block_at(body: Body, t: Seq<char>, pos: Position, i: int) -> bool {
    &&& 0 <= i < blocks(body).len()
    &&& holds_position(blocks(body)[i], t, pos)
    &&& forall|j: int| 0 <= j < i ==> !holds_position(#[trigger] blocks(body)[j], t, pos)
}

pub open spec fn holds_position(b: Block, t: Seq<char>, pos: Position) -> bool {
    &&& b.ident.text@ == "resource"@ || b.ident.text@ == "data"@
    &&& b.span is Some
    &&& span_range(t, b.span->0) matches Some(r) && not_after(r.start, pos) && not_after(pos, r.end)
}

/// The missing attribute is inserted into the block of the diagnostic, with a
/// value of its type: an empty string, zero, false, or null.
pub proof fn missing_attributes_are_inserted(
    schemas: Seq<SchemaEntry>,
    uri: Seq<char>,
    diag: DiagnosticV,
    body: Body,
    t: Seq<char>,
    i: int,
    p: int,
    r: int,
    k: int,
    name: Seq<char>,
)
    requires
        backticked(diag.message) == Some(name),
        is_block_at(body, t, diag.range.start, i),
        blocks(body)[i].labels@.len() > 1,
        resource_schema_at(schemas, blocks(body)[i].labels@[0].text@, p, r),
        is_named(
            schemas[p].schema.resource_schemas@[r].1.block.attributes@,
            name,
            k,
        ),
    ensures
        match insert_point(t, blocks(body)[i]) {
            Some(at) => insert_required(schemas, uri, diag, body, t) matches Some(a) && a.kind
                == "quickfix"@ && a.diagnostics == Some(seq![diag]) && a.edit
                == WorkspaceEditV::Changes(
                seq![
                    (
                        uri,
                        seq![
                            EditV {
                                range: Range { start: at.0, end: at.0 },
                                new_text: at.1 + "  "@ + name + " = "@ + (
                                match schemas[p].schema.resource_schemas@[r].1.block.attributes@[k].1.ty {
                                    Some(Json::Str(ty)) => if ty@ == "bool"@ {
                                        "false"@
                                    } else if ty@ == "number"@ {
                                        "0"@
                                    } else if ty@ == "string"@ {
                                        "\"\""@
                                    } else {
                                        "null"@
                                    },
                                    _ => "null"@,
                                }) + "\n"@,
                            },
                        ],
                    ),
                ],
            ),
            None => insert_required(schemas, uri, diag, body, t) is None,
        },
{
    let b = blocks(body)[i];
    let f = resource_block_at(t, diag.range.start);
    assert forall|j: int| 0 <= j < i implies f(#[trigger] blocks(body)[j]) is None by {
        assert(!holds_position(blocks(body)[j], t, diag.range.start));
    }
    lemma_find_map_at(blocks(body), f, i);
    lemma_resource_schema(schemas, b.labels@[0].text@, p, r);
    lemma_named(schemas[p].schema.resource_schemas@[r].1.block.attributes@, name, k);
    reveal_strlit("string");
    reveal_strlit("number");
    reveal_strlit("bool");
    assert("string"@[0] != "number"@[0]);
    assert("string"@.len() != "bool"@.len());
    assert("number"@.len() != "bool"@.len());
}

/// An attribute that the type does not have is not inserted.
pub proof fn unknown_attributes_are_not_inserted(
    schemas: Seq<SchemaEntry>,
    uri: Seq<char>,
    diag: DiagnosticV,
    body: Body,
    t: Seq<char>,
    i: int,
    p: int,
    r: int,
    name: Seq<char>,
)
    requires
        backticked(diag.message) == Some(name),
        is_block_at(body, t, diag.range.start, i),
        blocks(body)[i].labels@.len() > 1,
        resource_schema_at(schemas, blocks(body)[i].labels@[0].text@, p, r),
        lacks(schemas[p].schema.resource_schemas@[r].1.block.attributes@, name),
    ensures
        insert_required(schemas, uri, diag, body, t) is None,
{
    let b = blocks(body)[i];
    let f = resource_block_at(t, diag.range.start);
    assert forall|j: int| 0 <= j < i implies f(#[trigger] blocks(body)[j]) is None by {
        assert(!holds_position(blocks(body)[j], t, diag.range.start));
    }
    lemma_find_map_at(blocks(body), f, i);
    lemma_resource_schema(schemas, b.labels@[0].text@, p, r);
    lemma_lacks(schemas[p].schema.resource_schemas@[r].1.block.attributes@, name);
}

/// A new line of a block goes right behind the line break that follows the start
/// of its body.
pub proof fn lines_are_inserted_at_the_top(t: Seq<char>, b: Block, i: int)
    requires
        b.body.span is Some,
        b.body.span->0.start <= utf8_len(t),
        char_at_byte(t, b.body.span->0.start as nat) <= i < t.len(),
        0 <= char_at_byte(t, b.body.span->0.start as nat),
        t[i] == '\n',
        forall|j: int|
            char_at_byte(t, b.body.span->0.start as nat) <= j < i ==> #[trigger] t[j] != '\n',
    ensures
        insert_point(t, b) == match offset_position(t, char_offset(t, i + 1)) {
            Some(p) => Some((p, ""@)),
            None => None,
        },
{
    characters_are_found(t, '\n', char_at_byte(t, b.body.span->0.start as nat));
}

// ---------------------------------------------------------------------
// Named values

/// The first description of a named value.
pub open spec fn describes(
    values: Seq<NamedValue>,
    head: Seq<char>,
    attr: Option<Seq<char>>,
    i: int,
) -> bool {
    &&& 0 <= i < values.len()
    &&& values[i].head@ == head && opt_view(values[i].attr) == attr && values[i].description@.len()
        > 0
    &&& forall|j: int|
        0 <= j < i ==> !((#[trigger] values[j]).head@ == head && opt_view(values[j].attr) == attr
            && values[j].description@.len() > 0)
}

/// On the head of a named value the hover describes the value with the attribute
/// behind the dot, over the word.
pub proof fn heads_of_named_values_are_described(
    doc: DocumentState,
    pos: Position,
    values: Seq<NamedValue>,
    word: CursorWord,
    before: Option<&CursorWord>,
    i: int,
)
    requires
        position_offset(rope_text(doc.rope), pos) is Some,
        describes(
            values,
            word.text@,
            attr_after(rope_text(doc.rope), word.span.end as int),
            i,
        ),
    ensures
        named_value_answer(doc, pos, values, Some(&word), before) == Some(
            HoverV {
                value: values[i].description@,
                range: span_range(rope_text(doc.rope), word.span),
            },
        ),
{
    let attr = attr_after(rope_text(doc.rope), word.span.end as int);
    lemma_find_map_at(values, described(word.text@, attr), i);
    assert(is_head(values, word.text@));
}

/// On the attribute behind a dot it describes the value whose head stands before
/// the dot.
pub proof fn attributes_of_named_values_are_described(
    doc: DocumentState,
    pos: Position,
    values: Seq<NamedValue>,
    word: CursorWord,
    before: CursorWord,
    i: int,
)
    requires
        position_offset(rope_text(doc.rope), pos) is Some,
        forall|j: int| 0 <= j < values.len() ==> (#[trigger] values[j]).head@ != word.text@,
        dot_before(rope_text(doc.rope), word.span.start as int),
        describes(values, before.text@, Some(word.text@), i),
    ensures
        named_value_answer(doc, pos, values, Some(&word), Some(&before)) == Some(
            HoverV {
                value: values[i].description@,
                range: span_range(rope_text(doc.rope), word.span),
            },
        ),
{
    lemma_find_map_at(values, described(before.text@, Some(word.text@)), i);
    assert(is_head(values, before.text@));
}

/// A word that is neither is not described.
pub proof fn other_words_are_not_named_values(
    doc: DocumentState,
    pos: Position,
    values: Seq<NamedValue>,
    word: CursorWord,
    before: Option<&CursorWord>,
)
    requires
        forall|j: int| 0 <= j < values.len() ==> (#[trigger] values[j]).head@ != word.text@,
        before is None || forall|j: int|
            0 <= j < values.len() ==> (#[trigger] values[j]).head@ != before->0.text@,
    ensures
        named_value_answer(doc, pos, values, Some(&word), before) is None,
        named_value_answer(doc, pos, values, None, before) is None,
{
}

/// The attribute behind a value: a dot right at its end, and the word from there.
pub proof fn attributes_follow_a_dot(t: Seq<char>, b: int, i: int, e: int)
    requires
        0 <= b <= utf8_len(t),
        char_at_byte(t, b as nat) == i,
        0 <= i,
        i + 1 < e <= t.len(),
        t[i] == '.',
        forall|j: int| i + 1 <= j < e ==> ident_char(#[trigger] t[j]),
        e < t.len() ==> !ident_char(t[e]),
    ensures
        attr_after(t, b) == Some(t.subrange(i + 1, e)),
{
    lemma_word(t, i + 1, e);
}

proof fn lemma_word(t: Seq<char>, i: int, j: int)
    requires
        0 <= i <= j <= t.len(),
        forall|k: int| i <= k < j ==> ident_char(#[trigger] t[k]),
        j < t.len() ==> !ident_char(t[j]),
    ensures
        ident_end(t, i) == j,
    decreases j - i,
{
    if i < j {
        assert(ident_char(t[i]));
        lemma_word(t, i + 1, j);
    }
}

/// A keyword of a type is described with its own text, in types only.
pub proof fn type_keywords_are_described(
    doc: DocumentState,
    pos: Position,
    keywords: Seq<(String, String)>,
    word: CursorWord,
    i: int,
)
    requires
        position_offset(rope_text(doc.rope), pos) is Some,
        is_named(keywords, word.text@, i),
        keywords[i].1@.len() > 0,
    ensures
        type_constraint_answer(doc, pos, keywords, Some(&word), true) == Some(
            HoverV {
                value: "**type constraint** `"@ + keywords[i].0@ + "`\n\n"@ + keywords[i].1@,
                range: span_range(rope_text(doc.rope), word.span),
            },
        ),
        type_constraint_answer(doc, pos, keywords, Some(&word), false) is None,
{
    lemma_named(keywords, word.text@, i);
}

} // verus!
