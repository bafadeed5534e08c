//! What the fixes for single findings write.

use crate::actions::{CodeActionV, DiagnosticSeverity, DiagnosticV, WorkspaceEditV};
use crate::hcl::{body_exprs, Body, ExprKind, Expression};
use crate::laws::rename::holds;
use crate::position::{position_offset, text_between, utf8_len, EditV, Range};
use crate::quick_fixes::{
    closing_brace, convert_lookup, lookup_call, lookup_edit, lookup_edit_of, placeholder, reports,
    unwrap_action, unwrap_edit,
};
use crate::schema::{AttributeSchema, Json};
use crate::seqs::{filter_map, lemma_filter_map_contains, lemma_find_map_at, lemma_find_map_first};
use crate::text::trim;
use vstd::prelude::*;

verus! {

/// An expression stands from offset `a` to offset `b`.
pub open spec fn spans(e: Expression, a: int, b: int) -> bool {
    e.span is Some && e.span->0.start == a && e.span->0.end == b
}

/// The text that an expression is written with, where it has a place in it.
pub open spec fn written(t: Seq<char>, e: Expression) -> Seq<char> {
    text_between(t, e.span->0.start as int, e.span->0.end as int)
}

pub open spec fn has_place_in(t: Seq<char>, e: Expression) -> bool {
    e.span is Some && e.span->0.start <= e.span->0.end <= utf8_len(t)
}

/// A call `lookup(X, k)` that stands from `a` to `b`.
pub open spec fn is_lookup(t: Seq<char>, e: Expression, a: int, b: int) -> bool {
    spans(e, a, b) && match e.kind {
        ExprKind::FuncCall(f) => f.namespace@.len() == 0 && f.name.text@ == "lookup"@
            && f.args@.len() == 2 && has_place_in(t, f.args@[0]) && has_place_in(t, f.args@[1]),
        _ => false,
    }
}

/// The first and the second argument of a call.
pub open spec fn first_arg(t: Seq<char>, e: Expression) -> Seq<char> {
    written(t, e.kind->FuncCall_0.args@[0])
}

pub open spec fn second_arg(t: Seq<char>, e: Expression) -> Seq<char> {
    written(t, e.kind->FuncCall_0.args@[1])
}

/// Where a range covers a call `lookup(X, k)`, the edit puts `X[k]` there: the
/// first argument, and the second in brackets behind it, both without the
/// whitespace around them.
pub proof fn lookups_become_indexes(body: Body, t: Seq<char>, range: Range, n: int)
    requires
        position_offset(t, range.start) is Some,
        position_offset(t, range.end) is Some,
        0 <= n < body_exprs(body).len(),
        is_lookup(
            t,
            body_exprs(body)[n],
            position_offset(t, range.start)->0,
            position_offset(t, range.end)->0,
        ),
        forall|j: int|
            0 <= j < n ==> !is_lookup(
                t,
                #[trigger] body_exprs(body)[j],
                position_offset(t, range.start)->0,
                position_offset(t, range.end)->0,
            ),
    ensures
        ({
            let x = trim(first_arg(t, body_exprs(body)[n]));
            let k = trim(second_arg(t, body_exprs(body)[n]));
            lookup_edit(body, t, range) matches Some(e) && e.range == range && e.new_text.len()
                == x.len() + k.len() + 2 && e.new_text.take(x.len() as int) == x
                && e.new_text[x.len() as int] == '[' && e.new_text.subrange(
                x.len() as int + 1,
                x.len() as int + 1 + k.len(),
            ) == k && e.new_text.last() == ']'
        }),
{
    reveal_strlit("[");
    reveal_strlit("]");
    let a = position_offset(t, range.start)->0;
    let b = position_offset(t, range.end)->0;
    let s = body_exprs(body);
    let f = lookup_call(t, a, b);
    assert forall|j: int| 0 <= j < n implies f(#[trigger] s[j]) is None by {
        assert(!is_lookup(t, s[j], a, b));
    }
    lemma_find_map_at(s, f, n);
    let x = trim(first_arg(t, s[n]));
    let k = trim(second_arg(t, s[n]));
    let e = lookup_edit(body, t, range)->0;
    assert(e.new_text =~= x + seq!['['] + k + seq![']']);
    assert(e.new_text.take(x.len() as int) =~= x);
    assert(e.new_text.subrange(x.len() as int + 1, x.len() as int + 1 + k.len()) =~= k);
}

/// Where a range covers no such call there is no edit.
pub proof fn only_lookups_become_indexes(body: Body, t: Seq<char>, range: Range)
    requires
        lookup_edit(body, t, range) is Some,
    ensures
        position_offset(t, range.start) is Some,
        position_offset(t, range.end) is Some,
        exists|n: int|
            0 <= n < body_exprs(body).len() && is_lookup(
                t,
                #[trigger] body_exprs(body)[n],
                position_offset(t, range.start)->0,
                position_offset(t, range.end)->0,
            ),
{
    let a = position_offset(t, range.start)->0;
    let b = position_offset(t, range.end)->0;
    let n = lemma_find_map_first(body_exprs(body), lookup_call(t, a, b));
    assert(is_lookup(t, body_exprs(body)[n], a, b));
}

/// An action edits one file, with one edit.
pub open spec fn edits_once(action: CodeActionV, uri: Seq<char>, e: EditV) -> bool {
    action.edit matches WorkspaceEditV::Changes(m) && m.len() == 1 && m[0].0 == uri && m[0].1.len()
        == 1 && m[0].1[0] == e
}

/// The quick fix for a reported `lookup` is the edit that puts the index in its
/// place, and is tied to the diagnostic.
pub proof fn lookup_fix_makes_the_edit(uri: Seq<char>, diag: DiagnosticV, body: Body, t: Seq<char>)
    ensures
        match convert_lookup(uri, diag, body, t) {
            Some(a) => a.kind == "quickfix"@ && a.diagnostics == Some(seq![diag]) && (
            lookup_edit(body, t, diag.range) matches Some(e) && edits_once(a, uri, e)),
            None => lookup_edit(body, t, diag.range) is None,
        },
{
}

/// The fix of all reported calls of a document makes exactly the edits of the
/// reported ranges.
pub proof fn all_lookups_are_fixed(body: Body, t: Seq<char>, ranges: Seq<Range>, e: EditV)
    ensures
        filter_map(ranges, lookup_edit_of(body, t)).contains(e) <==> exists|i: int|
            0 <= i < ranges.len() && lookup_edit(body, t, #[trigger] ranges[i]) == Some(e),
{
    lemma_filter_map_contains(ranges, lookup_edit_of(body, t), e);
    if exists|i: int| 0 <= i < ranges.len() && lookup_edit(body, t, #[trigger] ranges[i]) == Some(e) {
        let i = choose|i: int|
            0 <= i < ranges.len() && lookup_edit(body, t, #[trigger] ranges[i]) == Some(e);
        assert(lookup_edit_of(body, t)(ranges[i]) == Some(e));
    }
}

/// The text of a range between its offsets.
pub open spec fn between(t: Seq<char>, range: Range) -> Seq<char> {
    text_between(t, position_offset(t, range.start)->0, position_offset(t, range.end)->0)
}

proof fn lemma_closing(s: Seq<char>, i: int, depth: nat)
    requires
        0 <= i,
    ensures
        closing_brace(s, i, depth) matches Some(j) ==> i <= j < s.len() && s[j] == '}',
    decreases s.len() - i,
{
    if i < s.len() {
        if s[i] == '{' {
            lemma_closing(s, i + 1, depth + 1);
        } else if s[i] == '}' {
            if depth > 1 {
                lemma_closing(s, i + 1, (depth - 1) as nat);
            }
        } else {
            lemma_closing(s, i + 1, depth);
        }
    }
}

/// What takes the place of a string is the expression inside its `"${…}"`
/// without the whitespace around it: nothing else of the string is lost.
pub proof fn unwrapping_keeps_the_expression(t: Seq<char>, range: Range)
    ensures
        unwrap_edit(t, range) matches Some(e) ==> {
            let s = trim(between(t, range));
            &&& e.range == range
            &&& s.len() >= 5
            &&& s.take(3) == seq!['"', '$', '{']
            &&& s.skip(s.len() - 2) == seq!['}', '"']
            &&& e.new_text == trim(s.subrange(3, s.len() - 2))
            &&& e.new_text.len() > 0
        },
{
    reveal_strlit("\"${");
    if unwrap_edit(t, range) is Some {
        let s = trim(between(t, range));
        lemma_closing(s, 3, 1);
        let j = closing_brace(s, 3, 1)->0;
        assert(s.take(3) =~= seq!['"', '$', '{']) by {
            assert(s.subrange(0, 3) == "\"${"@);
            assert(s.take(3) =~= s.subrange(0, 3));
        }
        assert(s.skip(s.len() - 2) =~= seq!['}', '"']);
    }
}

/// A string that is one interpolation of a name is unwrapped to the name.
pub proof fn plain_interpolations_are_unwrapped(t: Seq<char>, range: Range, x: Seq<char>)
    requires
        position_offset(t, range.start) is Some,
        position_offset(t, range.end) is Some,
        position_offset(t, range.start)->0 < position_offset(t, range.end)->0,
        trim(between(t, range)) == seq!['"', '$', '{'] + x + seq!['}', '"'],
        forall|i: int| 0 <= i < x.len() ==> (#[trigger] x[i]) != '{' && x[i] != '}',
        trim(x).len() > 0,
    ensures
        unwrap_edit(t, range) == Some(EditV { range, new_text: trim(x) }),
{
    reveal_strlit("\"${");
    let s = trim(between(t, range));
    assert(s.subrange(0, 3) =~= "\"${"@);
    lemma_no_braces(s, 3, 3 + x.len() as int);
    assert(s.subrange(3, 3 + x.len() as int) =~= x);
}

proof fn lemma_no_braces(s: Seq<char>, i: int, j: int)
    requires
        0 <= i <= j < s.len(),
        forall|k: int| i <= k < j ==> (#[trigger] s[k]) != '{' && s[k] != '}',
        s[j] == '}',
    ensures
        closing_brace(s, i, 1) == Some(j),
    decreases j - i,
{
    if i < j {
        lemma_no_braces(s, i + 1, j);
    }
}

/// The quick fix for a reported interpolation is the edit that unwraps it.
pub proof fn unwrap_fix_makes_the_edit(uri: Seq<char>, diag: DiagnosticV, t: Seq<char>)
    ensures
        match unwrap_action(uri, diag, t) {
            Some(a) => a.kind == "quickfix"@ && a.diagnostics == Some(seq![diag]) && (
            unwrap_edit(t, diag.range) matches Some(e) && edits_once(a, uri, e)),
            None => unwrap_edit(t, diag.range) is None,
        },
{
}

/// A finding is recognised by its severity, by this server's name and by its
/// message.
pub proof fn findings_are_recognised(
    diag: DiagnosticV,
    severity: DiagnosticSeverity,
    text: Seq<char>,
)
    ensures
        reports(diag, severity, text) <==> diag.severity == Some(severity) && diag.source == Some(
            "terraform-ls-rs"@,
        ) && holds(diag.message, text),
{
    lemma_contains(diag.message, text, 0);
}

pub proof fn lemma_contains(s: Seq<char>, p: Seq<char>, from: int)
    requires
        0 <= from,
    ensures
        crate::text::find_from(s, p, from) is Some <==> exists|i: int|
            from <= i && i + p.len() <= s.len() && #[trigger] s.subrange(i, i + p.len()) == p,
    decreases s.len() + 1 - from,
{
    if from + p.len() <= s.len() {
        if s.subrange(from, from + p.len()) == p {
        } else {
            lemma_contains(s, p, from + 1);
            if exists|i: int|
                from <= i && i + p.len() <= s.len() && #[trigger] s.subrange(i, i + p.len()) == p {
                let i = choose|i: int|
                    from <= i && i + p.len() <= s.len() && #[trigger] s.subrange(i, i + p.len())
                        == p;
                assert(from + 1 <= i);
            }
        }
    }
}

/// What stands for a value that the user has to write fits the type: an empty
/// string, zero, `false`, and `null` for all others.
pub proof fn placeholders_fit_the_type(attr: AttributeSchema)
    ensures
        match attr.ty {
            Some(Json::Str(ty)) => {
                &&& ty@ == "string"@ ==> placeholder(attr) == seq!['"', '"']
                &&& ty@ == "number"@ ==> placeholder(attr) == seq!['0']
                &&& ty@ == "bool"@ ==> placeholder(attr) == "false"@
                &&& ty@ != "string"@ && ty@ != "number"@ && ty@ != "bool"@ ==> placeholder(attr)
                    == "null"@
            },
            _ => placeholder(attr) == "null"@,
        },
{
    reveal_strlit("\"\"");
    reveal_strlit("0");
    reveal_strlit("string");
    reveal_strlit("number");
    reveal_strlit("bool");
    assert("\"\""@ =~= seq!['"', '"']);
    assert("0"@ =~= seq!['0']);
    assert("string"@[0] == 's');
    assert("number"@[0] == 'n');
    assert("bool"@.len() == 4);
}

} // verus!
