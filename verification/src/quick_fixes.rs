//! Fixes for single findings: a missing attribute, a deprecated `lookup`, a
//! deprecated interpolation.

use crate::actions::{
    diagnostics_view, opt_diagnostics, CodeAction, CodeActionV, Diagnostic, DiagnosticSeverity,
    DiagnosticV, EditMap, WorkspaceEdit, WorkspaceEditV,
};
use crate::hcl::{
    block_label, block_pointees, blocks, body_exprs, label_at, list_blocks, pointees,
    walk_expressions, Block, Body, ExprKind, Expression,
};
use crate::position::{
    char_at_byte, char_offset, char_to_lsp_position, contains, edits_view, hcl_span_to_lsp_range,
    lsp_position_to_byte_offset, offset_position, position_offset, range_contains, rope_between,
    rope_byte_to_char, rope_len_bytes, rope_text, rope_to_string, span_range, text_between,
    utf8_len, EditV, Position, Range, TextEdit,
};
use crate::schema::{
    find_entry, find_resource_schema, lookup, resource_schema, AttributeSchema, Json, SchemaEntry,
};
use crate::scope::opt_action;
use crate::seqs::{
    filter_map, find_map, lemma_filter_map_step, lemma_find_map_step, lemma_take_full,
};
use crate::state::DocUri;
use crate::text::{
    chars_of, contains_text, find_char, opt_view, slice_find_char, starts_with, str_contains,
    str_eq, str_starts_with, str_trim, string_sub, trim,
};
use ropey::Rope;
use vstd::prelude::*;

verus! {

// ---------------------------------------------------------------------
// Which finding a diagnostic reports

/// The diagnostic is one of this server's, of the given severity, and its
/// message holds the text.
pub open spec fn reports(diag: DiagnosticV, severity: DiagnosticSeverity, text: Seq<char>) -> bool {
    diag.severity == Some(severity) && diag.source == Some("terraform-ls-rs"@) && contains_text(
        diag.message,
        text,
    )
}

pub fn diag_reports(diag: &Diagnostic, severity: DiagnosticSeverity, text: &str) -> (r: bool)
    ensures
        r == reports(diag@, severity, text@),
{
    let right_severity = match diag.severity {
        Some(s) => s == severity,
        None => false,
    };
    let ours = match &diag.source {
        Some(s) => str_eq(s.as_str(), "terraform-ls-rs"),
        None => false,
    };
    right_severity && ours && str_contains(diag.message.as_str(), text)
}

pub fn is_missing_required(diag: &Diagnostic) -> (r: bool)
    ensures
        r == reports(diag@, DiagnosticSeverity::Error, "missing required attribute"@),
{
    diag_reports(diag, DiagnosticSeverity::Error, "missing required attribute")
}

pub fn is_missing_variable_type(diag: &Diagnostic) -> (r: bool)
    ensures
        r == reports(diag@, DiagnosticSeverity::Warning, "variable has no type"@),
{
    diag_reports(diag, DiagnosticSeverity::Warning, "variable has no type")
}

/// The diagnostic reports a `template_file`, whoever it is from.
pub open spec fn reports_template_file(diag: DiagnosticV) -> bool {
    diag.severity == Some(DiagnosticSeverity::Warning) && crate::text::contains_text(
        diag.message,
        "`data \"template_file\"` is superseded by the built-in `templatefile()`"@,
    )
}

pub fn is_deprecated_template_file(diag: &Diagnostic) -> (r: bool)
    ensures
        r == reports_template_file(diag@),
{
    let warning = match diag.severity {
        Some(s) => s == DiagnosticSeverity::Warning,
        None => false,
    };
    warning && str_contains(
        diag.message.as_str(),
        "`data \"template_file\"` is superseded by the built-in `templatefile()`",
    )
}

pub fn is_deprecated_interpolation(diag: &Diagnostic) -> (r: bool)
    ensures
        r == reports(
            diag@,
            DiagnosticSeverity::Warning,
            "interpolation-only expressions are deprecated"@,
        ),
{
    diag_reports(
        diag,
        DiagnosticSeverity::Warning,
        "interpolation-only expressions are deprecated",
    )
}

pub fn is_deprecated_null_resource(diag: &Diagnostic) -> (r: bool)
    ensures
        r == reports(
            diag@,
            DiagnosticSeverity::Warning,
            "`null_resource` is superseded by the built-in `terraform_data`"@,
        ),
{
    diag_reports(
        diag,
        DiagnosticSeverity::Warning,
        "`null_resource` is superseded by the built-in `terraform_data`",
    )
}

pub fn is_deprecated_lookup(diag: &Diagnostic) -> (r: bool)
    ensures
        r == reports(
            diag@,
            DiagnosticSeverity::Warning,
            "two-argument `lookup()` is deprecated"@,
        ),
{
    diag_reports(diag, DiagnosticSeverity::Warning, "two-argument `lookup()` is deprecated")
}

/// The text between the first two backticks.
pub open spec fn backticked(message: Seq<char>) -> Option<Seq<char>> {
    match find_char(message, '`', 0) {
        Some(i) => match find_char(message, '`', i + 1) {
            Some(j) => Some(message.subrange(i + 1, j)),
            None => None,
        },
        None => None,
    }
}

/// The attribute name in a message such as ``missing required attribute `ami` ``.
pub fn missing_attr_name(message: &str) -> (r: Option<&str>)
    ensures
        match r {
            Some(s) => backticked(message@) == Some(s@),
            None => backticked(message@) is None,
        },
{
    let c = chars_of(message);
    let n: usize = c.len();
    match slice_find_char(c.as_slice(), '`', 0) {
        Some(i) => match slice_find_char(c.as_slice(), '`', i + 1) {
            Some(j) => Some(message.substring_char(i + 1, j)),
            None => None,
        },
        None => None,
    }
}

// ---------------------------------------------------------------------
// Places in a block

/// A `resource` or `data` block whose range holds a position.
pub open spec fn resource_block_at(t: Seq<char>, pos: Position) -> spec_fn(Block) -> Option<Block> {
    |b: Block|
        match b.span {
            Some(span) => match span_range(t, span) {
                Some(range) => if range_contains(range, pos) && (b.ident.text@ == "resource"@
                    || b.ident.text@ == "data"@) {
                    Some(b)
                } else {
                    None
                },
                None => None,
            },
            None => None,
        }
}

/// The resource or data block that holds a position.
pub fn find_block_at<'a>(body: &'a Body, rope: &Rope, pos: Position) -> (r: Option<&'a Block>)
    ensures
        match r {
            Some(b) => find_map(blocks(*body), resource_block_at(rope_text(*rope), pos)) == Some(
                *b,
            ),
            None => find_map(blocks(*body), resource_block_at(rope_text(*rope), pos)) is None,
        },
{
    let bs = list_blocks(body);
    let ghost s = blocks(*body);
    let ghost f = resource_block_at(rope_text(*rope), pos);
    proof {
        lemma_take_full(s);
    }
    for i in 0..bs.len()
        invariant
            s == blocks(*body),
            block_pointees(bs@) == s,
            f == resource_block_at(rope_text(*rope), pos),
            find_map(s, f) == find_map(s.skip(i as int), f),
    {
        proof {
            lemma_find_map_step(s, f, i as int);
            assert(s[i as int] == *bs@[i as int]);
        }
        if let Some(span) = bs[i].span {
            if let Some(range) = hcl_span_to_lsp_range(rope, span) {
                if contains(&range, pos) && (str_eq(bs[i].ident.text.as_str(), "resource")
                    || str_eq(bs[i].ident.text.as_str(), "data")) {
                    return Some(bs[i]);
                }
            }
        }
    }
    None
}

/// Where a new line goes at the top of a block, and what stands before it:
/// below the line of the opening brace, or after the brace of an empty body,
/// which gets a line break first.
pub open spec fn insert_point(t: Seq<char>, b: Block) -> Option<(Position, Seq<char>)> {
    match b.body.span {
        Some(span) => if span.start <= utf8_len(t) {
            let k = char_at_byte(t, span.start as nat);
            let at = match find_char(t, '\n', k) {
                Some(i) => i + 1,
                None => k,
            };
            match offset_position(t, char_offset(t, at)) {
                Some(p) => Some((p, ""@)),
                None => None,
            }
        } else {
            None
        },
        None => match b.span {
            Some(span) => if span.start <= span.end && span.end <= utf8_len(t) {
                match find_char(t, '{', char_at_byte(t, span.start as nat)) {
                    Some(i) => if i < char_at_byte(t, span.end as nat) {
                        match offset_position(t, char_offset(t, i + 1)) {
                            Some(p) => Some((p, "\n"@)),
                            None => None,
                        }
                    } else {
                        None
                    },
                    None => None,
                }
            } else {
                None
            },
            None => None,
        },
    }
}

pub open spec fn point_view(p: Option<(Position, &str)>) -> Option<(Position, Seq<char>)> {
    match p {
        Some(x) => Some((x.0, x.1@)),
        None => None,
    }
}

/// Where a new attribute goes in a block.
pub fn insertion_position(block: &Block, rope: &Rope) -> (r: Option<(Position, &'static str)>)
    ensures
        point_view(r) == insert_point(rope_text(*rope), *block),
{
    let ghost t = rope_text(*rope);
    let total = rope_len_bytes(rope);
    let text = rope_to_string(rope);
    let c = chars_of(text.as_str());
    let n: usize = c.len();
    match block.body.span {
        Some(span) => {
            if span.start > total {
                return None;
            }
            let k = rope_byte_to_char(rope, span.start);
            let at: usize = match slice_find_char(c.as_slice(), '\n', k) {
                Some(i) => i + 1,
                None => k,
            };
            match char_to_lsp_position(rope, at) {
                Some(p) => Some((p, "")),
                None => None,
            }
        },
        None => match block.span {
            Some(span) => {
                if span.start > span.end || span.end > total {
                    return None;
                }
                let from = rope_byte_to_char(rope, span.start);
                let to = rope_byte_to_char(rope, span.end);
                match slice_find_char(c.as_slice(), '{', from) {
                    Some(i) => {
                        if i >= to {
                            return None;
                        }
                        match char_to_lsp_position(rope, i + 1) {
                            Some(p) => Some((p, "\n")),
                            None => None,
                        }
                    },
                    None => None,
                }
            },
            None => None,
        },
    }
}

// ---------------------------------------------------------------------
// Actions on one document

/// The edits of one document as a workspace edit.
pub open spec fn one_file(uri: Seq<char>, edits: Seq<EditV>) -> WorkspaceEditV {
    WorkspaceEditV::Changes(seq![(uri, edits)])
}

pub fn changes_for(uri: &str, edits: Vec<TextEdit>) -> (r: WorkspaceEdit)
    ensures
        r@ == one_file(uri@, edits_view(edits@)),
{
    let ghost ev = edits_view(edits@);
    let mut m = EditMap::new();
    m.add(uri, edits);
    assert(m@ =~= seq![(uri@, ev)]);
    WorkspaceEdit::Changes(m)
}

pub fn change_for(uri: &str, edit: TextEdit) -> (r: WorkspaceEdit)
    ensures
        r@ == one_file(uri@, seq![edit@]),
{
    let v = vec![edit];
    assert(edits_view(v@) =~= seq![edit@]);
    changes_for(uri, v)
}

fn one_diagnostic(diag: &Diagnostic) -> (r: Option<Vec<Diagnostic>>)
    ensures
        opt_diagnostics(r) == Some(seq![diag@]),
{
    let v = vec![diag.duplicate()];
    assert(diagnostics_view(v@) =~= seq![diag@]);
    Some(v)
}

// ---------------------------------------------------------------------
// A missing required attribute

/// What stands for a value of an attribute until the user writes one.
pub open spec fn placeholder(attr: AttributeSchema) -> Seq<char> {
    match attr.ty {
        Some(Json::Str(ty)) => if ty@ == "string"@ {
            "\"\""@
        } else if ty@ == "number"@ {
            "0"@
        } else if ty@ == "bool"@ {
            "false"@
        } else {
            "null"@
        },
        _ => "null"@,
    }
}

pub fn placeholder_for(attr: &AttributeSchema) -> (r: &'static str)
    ensures
        r@ == placeholder(*attr),
{
    match &attr.ty {
        Some(Json::Str(ty)) => {
            if str_eq(ty.as_str(), "string") {
                "\"\""
            } else if str_eq(ty.as_str(), "number") {
                "0"
            } else if str_eq(ty.as_str(), "bool") {
                "false"
            } else {
                "null"
            }
        },
        _ => "null",
    }
}

/// The action that inserts the attribute that a diagnostic names: where the
/// diagnostic stands in a resource or data block with two labels whose schema
/// has the attribute.
pub open spec fn insert_required(
    schemas: Seq<SchemaEntry>,
    uri: Seq<char>,
    diag: DiagnosticV,
    body: Body,
    t: Seq<char>,
) -> Option<CodeActionV> {
    match (
        backticked(diag.message),
        find_map(blocks(body), resource_block_at(t, diag.range.start)),
    ) {
        (Some(name), Some(b)) => match (label_at(b, 0), label_at(b, 1)) {
            (Some(ty), Some(_)) => match resource_schema(schemas, ty) {
                Some(schema) => match (
                    lookup(schema.block.attributes@, name),
                    insert_point(t, b),
                ) {
                    (Some(attr), Some(at)) => Some(
                        CodeActionV {
                            title: "Insert missing required attribute `"@ + name + "`"@,
                            kind: "quickfix"@,
                            diagnostics: Some(seq![diag]),
                            edit: one_file(
                                uri,
                                seq![
                                    EditV {
                                        range: Range { start: at.0, end: at.0 },
                                        new_text: at.1 + "  "@ + name + " = "@ + placeholder(attr)
                                            + "\n"@,
                                    },
                                ],
                            ),
                            is_preferred: Some(true),
                        },
                    ),
                    _ => None,
                },
                None => None,
            },
            _ => None,
        },
        _ => None,
    }
}

pub fn make_insert_required_action(
    schemas: &Vec<SchemaEntry>,
    uri: &DocUri,
    diag: &Diagnostic,
    body: &Body,
    rope: &Rope,
) -> (r: Option<CodeAction>)
    ensures
        opt_action(r) == insert_required(
            schemas@,
            uri.text@,
            diag@,
            *body,
            rope_text(*rope),
        ),
{
    let name = match missing_attr_name(diag.message.as_str()) {
        Some(n) => n,
        None => {
            return None;
        },
    };
    let b = match find_block_at(body, rope, diag.range.start) {
        Some(b) => b,
        None => {
            return None;
        },
    };
    let ty = match (block_label(b, 0), block_label(b, 1)) {
        (Some(ty), Some(_)) => ty,
        _ => {
            return None;
        },
    };
    let schema = match find_resource_schema(schemas, ty) {
        Some(s) => s,
        None => {
            return None;
        },
    };
    let attr = match find_entry(&schema.block.attributes, name) {
        Some(a) => a,
        None => {
            return None;
        },
    };
    let (at, prefix) = match insertion_position(b, rope) {
        Some(p) => p,
        None => {
            return None;
        },
    };
    let mut new_text = prefix.to_owned();
    new_text.append("  ");
    new_text.append(name);
    new_text.append(" = ");
    new_text.append(placeholder_for(attr));
    new_text.append("\n");
    let mut title = "Insert missing required attribute `".to_owned();
    title.append(name);
    title.append("`");
    let edit = TextEdit { range: Range { start: at, end: at }, new_text };
    Some(
        CodeAction {
            title,
            kind: "quickfix".to_owned(),
            diagnostics: one_diagnostic(diag),
            edit: change_for(uri.text.as_str(), edit),
            is_preferred: Some(true),
        },
    )
}

// ---------------------------------------------------------------------
// The deprecated form of `lookup`

/// The text that an expression is written with.
pub open spec fn expr_source(t: Seq<char>, e: Expression) -> Option<Seq<char>> {
    match e.span {
        Some(s) => if s.start <= s.end <= utf8_len(t) {
            Some(text_between(t, s.start as int, s.end as int))
        } else {
            None
        },
        None => None,
    }
}

/// The text that an expression is written with.
pub fn expression_source(rope: &Rope, e: &Expression) -> (r: Option<String>)
    ensures
        opt_view(r) == expr_source(rope_text(*rope), *e),
{
    match e.span {
        Some(s) => rope_between(rope, s.start, s.end),
        None => None,
    }
}

/// The arguments of a `lookup` with two arguments that spans the offsets.
pub open spec fn lookup_call(t: Seq<char>, start: int, end: int) -> spec_fn(Expression) -> Option<
    (Seq<char>, Seq<char>),
> {
    |e: Expression|
        match e.kind {
            ExprKind::FuncCall(f) => if f.namespace@.len() == 0 && f.name.text@ == "lookup"@
                && f.args@.len() == 2 && e.span is Some && e.span->0.start == start
                && e.span->0.end == end {
                match (expr_source(t, f.args@[0]), expr_source(t, f.args@[1])) {
                    (Some(a), Some(b)) => Some((a, b)),
                    _ => None,
                }
            } else {
                None
            },
            _ => None,
        }
}

/// The arguments of the first such call.
pub open spec fn lookup_args(body: Body, t: Seq<char>, start: int, end: int) -> Option<
    (Seq<char>, Seq<char>),
> {
    find_map(body_exprs(body), lookup_call(t, start, end))
}

pub fn lookup_args_at(body: &Body, rope: &Rope, start: usize, end: usize) -> (r: Option<
    (String, String),
>)
    ensures
        match r {
            Some(p) => lookup_args(*body, rope_text(*rope), start as int, end as int) == Some(
                (p.0@, p.1@),
            ),
            None => lookup_args(*body, rope_text(*rope), start as int, end as int) is None,
        },
{
    let es = walk_expressions(body);
    let ghost s = body_exprs(*body);
    let ghost f = lookup_call(rope_text(*rope), start as int, end as int);
    proof {
        lemma_take_full(s);
    }
    for i in 0..es.len()
        invariant
            s == body_exprs(*body),
            pointees(es@) == s,
            f == lookup_call(rope_text(*rope), start as int, end as int),
            find_map(s, f) == find_map(s.skip(i as int), f),
    {
        proof {
            lemma_find_map_step(s, f, i as int);
            assert(s[i as int] == *es@[i as int]);
        }
        if let ExprKind::FuncCall(call) = &es[i].kind {
            if let Some(span) = es[i].span {
                if call.namespace.len() == 0 && str_eq(call.name.text.as_str(), "lookup")
                    && call.args.len() == 2 && span.start == start && span.end == end {
                    if let Some(a) = expression_source(rope, &call.args[0]) {
                        if let Some(b) = expression_source(rope, &call.args[1]) {
                            return Some((a, b));
                        }
                    }
                }
            }
        }
    }
    None
}

pub open spec fn lookup_args_in(body: Body, t: Seq<char>, range: Range) -> Option<
    (Seq<char>, Seq<char>),
> {
    match (position_offset(t, range.start), position_offset(t, range.end)) {
        (Some(a), Some(b)) => lookup_args(body, t, a, b),
        _ => None,
    }
}

/// `X[k]` for `lookup(X, k)`.
pub open spec fn index_text(args: (Seq<char>, Seq<char>)) -> Seq<char> {
    trim(args.0) + "["@ + trim(args.1) + "]"@
}

/// The edit from `lookup(X, k)` to `X[k]` for the call that a range covers.
pub open spec fn lookup_edit(body: Body, t: Seq<char>, range: Range) -> Option<EditV> {
    match lookup_args_in(body, t, range) {
        Some(args) => Some(EditV { range, new_text: index_text(args) }),
        None => None,
    }
}

fn lookup_args_of(body: &Body, rope: &Rope, range: Range) -> (r: Option<(String, String)>)
    ensures
        match r {
            Some(p) => lookup_args_in(*body, rope_text(*rope), range) == Some((p.0@, p.1@)),
            None => lookup_args_in(*body, rope_text(*rope), range) is None,
        },
{
    match (
        lsp_position_to_byte_offset(rope, range.start),
        lsp_position_to_byte_offset(rope, range.end),
    ) {
        (Some(a), Some(b)) => lookup_args_at(body, rope, a, b),
        _ => None,
    }
}

pub open spec fn opt_edit(e: Option<TextEdit>) -> Option<EditV> {
    match e {
        Some(e) => Some(e@),
        None => None,
    }
}

pub fn compute_lookup_to_index_edit(body: &Body, rope: &Rope, range: Range) -> (r: Option<TextEdit>)
    ensures
        opt_edit(r) == lookup_edit(*body, rope_text(*rope), range),
{
    match lookup_args_of(body, rope, range) {
        Some(args) => {
            let mut new_text = str_trim(args.0.as_str());
            new_text.append("[");
            new_text.append(str_trim(args.1.as_str()).as_str());
            new_text.append("]");
            Some(TextEdit { range, new_text })
        },
        None => None,
    }
}

pub open spec fn lookup_edit_of(body: Body, t: Seq<char>) -> spec_fn(Range) -> Option<EditV> {
    |range: Range| lookup_edit(body, t, range)
}

/// One edit per reported call.
pub fn scan_lookup_to_index(body: &Body, rope: &Rope, ranges: &Vec<Range>) -> (r: Vec<TextEdit>)
    ensures
        edits_view(r@) == filter_map(ranges@, lookup_edit_of(*body, rope_text(*rope))),
{
    let mut out: Vec<TextEdit> = Vec::new();
    let ghost f = lookup_edit_of(*body, rope_text(*rope));
    proof {
        lemma_take_full(ranges@);
    }
    assert(edits_view(out@) =~= filter_map(ranges@.take(0), f));
    for i in 0..ranges.len()
        invariant
            f == lookup_edit_of(*body, rope_text(*rope)),
            edits_view(out@) == filter_map(ranges@.take(i as int), f),
    {
        proof {
            lemma_filter_map_step(ranges@, f, i as int);
        }
        let ghost before = edits_view(out@);
        if let Some(e) = compute_lookup_to_index_edit(body, rope, ranges[i]) {
            out.push(e);
            assert(edits_view(out@) =~= before.push(e@));
        }
    }
    out
}

/// The action that converts the reported call.
pub open spec fn convert_lookup(uri: Seq<char>, diag: DiagnosticV, body: Body, t: Seq<char>) -> Option<
    CodeActionV,
> {
    match lookup_args_in(body, t, diag.range) {
        Some(args) => Some(
            CodeActionV {
                title: "Convert `lookup("@ + trim(args.0) + ", "@ + trim(args.1) + ")` to `"@
                    + index_text(args) + "`"@,
                kind: "quickfix"@,
                diagnostics: Some(seq![diag]),
                edit: one_file(
                    uri,
                    seq![EditV { range: diag.range, new_text: index_text(args) }],
                ),
                is_preferred: None,
            },
        ),
        None => None,
    }
}

pub fn make_convert_lookup_to_index_action(
    uri: &DocUri,
    diag: &Diagnostic,
    body: &Body,
    rope: &Rope,
) -> (r: Option<CodeAction>)
    ensures
        opt_action(r) == convert_lookup(uri.text@, diag@, *body, rope_text(*rope)),
{
    let args = match lookup_args_of(body, rope, diag.range) {
        Some(a) => a,
        None => {
            return None;
        },
    };
    let edit = match compute_lookup_to_index_edit(body, rope, diag.range) {
        Some(e) => e,
        None => {
            return None;
        },
    };
    let mut title = "Convert `lookup(".to_owned();
    title.append(str_trim(args.0.as_str()).as_str());
    title.append(", ");
    title.append(str_trim(args.1.as_str()).as_str());
    title.append(")` to `");
    title.append(edit.new_text.as_str());
    title.append("`");
    Some(
        CodeAction {
            title,
            kind: "quickfix".to_owned(),
            diagnostics: one_diagnostic(diag),
            edit: change_for(uri.text.as_str(), edit),
            is_preferred: None,
        },
    )
}

// ---------------------------------------------------------------------
// Interpolations without text around them

/// The index of the brace that closes `depth` open ones, from `i` on.
pub open spec fn closing_brace(s: Seq<char>, i: int, depth: nat) -> Option<int>
    decreases s.len() - i,
{
    if i >= s.len() {
        None
    } else if s[i] == '{' {
        closing_brace(s, i + 1, depth + 1)
    } else if s[i] == '}' {
        if depth <= 1 {
            Some(i)
        } else {
            closing_brace(s, i + 1, (depth - 1) as nat)
        }
    } else {
        closing_brace(s, i + 1, depth)
    }
}

/// The expression of a string that is one `"${…}"`, its braces balanced and
/// nothing around it.
pub open spec fn interpolated(s: Seq<char>) -> Option<Seq<char>> {
    if starts_with(s, "\"${"@) {
        match closing_brace(s, 3, 1) {
            Some(j) => {
                let inner = trim(s.subrange(3, j));
                if inner.len() == 0 || j + 2 != s.len() || s[j + 1] != '"' {
                    None
                } else {
                    Some(inner)
                }
            },
            None => None,
        }
    } else {
        None
    }
}

fn inner_expression(s: &str) -> (r: Option<String>)
    ensures
        opt_view(r) == interpolated(s@),
{
    if !str_starts_with(s, "\"${") {
        return None;
    }
    proof {
        reveal_strlit("\"${");
    }
    let c = chars_of(s);
    let n: usize = c.len();
    let start: usize = 3;
    let mut depth: usize = 1;
    let mut i: usize = start;
    while i < n
        invariant
            c@ == s@,
            n == c@.len(),
            start == 3,
            start <= i <= n,
            1 <= depth <= i - start + 1,
            starts_with(s@, "\"${"@),
            closing_brace(s@, start as int, 1) == closing_brace(s@, i as int, depth as nat),
        decreases n - i,
    {
        if c[i] == '{' {
            depth += 1;
        } else if c[i] == '}' {
            if depth == 1 {
                let inner = str_trim(string_sub(c.as_slice(), start, i).as_str());
                if inner.as_str().is_empty() || n - i != 2 || c[i + 1] != '"' {
                    return None;
                }
                return Some(inner);
            }
            depth -= 1;
        }
        i += 1;
    }
    None
}

/// The edit that puts the expression in place of the string around it.
pub open spec fn unwrap_edit(t: Seq<char>, range: Range) -> Option<EditV> {
    match (position_offset(t, range.start), position_offset(t, range.end)) {
        (Some(a), Some(b)) => if a < b {
            match interpolated(trim(text_between(t, a, b))) {
                Some(inner) => Some(EditV { range, new_text: inner }),
                None => None,
            }
        } else {
            None
        },
        _ => None,
    }
}

pub fn compute_unwrap_interpolation_edit(rope: &Rope, range: Range) -> (r: Option<TextEdit>)
    ensures
        opt_edit(r) == unwrap_edit(rope_text(*rope), range),
{
    let ghost t = rope_text(*rope);
    match (
        lsp_position_to_byte_offset(rope, range.start),
        lsp_position_to_byte_offset(rope, range.end),
    ) {
        (Some(a), Some(b)) => {
            if b <= a {
                return None;
            }
            proof {
                crate::position::lemma_position_offset_bound(t, range.end);
            }
            match rope_between(rope, a, b) {
                Some(s) => match inner_expression(str_trim(s.as_str()).as_str()) {
                    Some(inner) => Some(TextEdit { range, new_text: inner }),
                    None => None,
                },
                None => None,
            }
        },
        _ => None,
    }
}

pub open spec fn unwrap_edit_of(t: Seq<char>) -> spec_fn(Range) -> Option<EditV> {
    |range: Range| unwrap_edit(t, range)
}

/// One edit per reported interpolation.
pub fn scan_unwrap_interpolations(rope: &Rope, ranges: &Vec<Range>) -> (r: Vec<TextEdit>)
    ensures
        edits_view(r@) == filter_map(ranges@, unwrap_edit_of(rope_text(*rope))),
{
    let mut out: Vec<TextEdit> = Vec::new();
    let ghost f = unwrap_edit_of(rope_text(*rope));
    proof {
        lemma_take_full(ranges@);
    }
    assert(edits_view(out@) =~= filter_map(ranges@.take(0), f));
    for i in 0..ranges.len()
        invariant
            f == unwrap_edit_of(rope_text(*rope)),
            edits_view(out@) == filter_map(ranges@.take(i as int), f),
    {
        proof {
            lemma_filter_map_step(ranges@, f, i as int);
        }
        let ghost before = edits_view(out@);
        if let Some(e) = compute_unwrap_interpolation_edit(rope, ranges[i]) {
            out.push(e);
            assert(edits_view(out@) =~= before.push(e@));
        }
    }
    out
}

/// The action that unwraps the reported interpolation.
pub open spec fn unwrap_action(uri: Seq<char>, diag: DiagnosticV, t: Seq<char>) -> Option<
    CodeActionV,
> {
    match unwrap_edit(t, diag.range) {
        Some(e) => Some(
            CodeActionV {
                title: "Unwrap interpolation: `"@ + e.new_text + "`"@,
                kind: "quickfix"@,
                diagnostics: Some(seq![diag]),
                edit: one_file(uri, seq![e]),
                is_preferred: Some(true),
            },
        ),
        None => None,
    }
}

pub fn make_unwrap_interpolation_action(uri: &DocUri, diag: &Diagnostic, rope: &Rope) -> (r: Option<
    CodeAction,
>)
    ensures
        opt_action(r) == unwrap_action(uri.text@, diag@, rope_text(*rope)),
{
    match compute_unwrap_interpolation_edit(rope, diag.range) {
        Some(edit) => {
            let mut title = "Unwrap interpolation: `".to_owned();
            title.append(edit.new_text.as_str());
            title.append("`");
            Some(
                CodeAction {
                    title,
                    kind: "quickfix".to_owned(),
                    diagnostics: one_diagnostic(diag),
                    edit: change_for(uri.text.as_str(), edit),
                    is_preferred: Some(true),
                },
            )
        },
        None => None,
    }
}

} // verus!
