//! Writing the inferred type into a `variable` block.

use crate::actions::{CodeAction, CodeActionV, Diagnostic, DiagnosticV};
use crate::hcl::{
    attr_pointees, attributes, block_label, block_pointees, blocks_named, label_at,
    list_attributes, list_blocks_named, Attribute, Block, Body, ExprKind, Structure,
};
use crate::null_resource::flatten;
use crate::position::{
    contains, edits_view, hcl_span_to_lsp_range, range_contains, rope_text, span_range, EditV,
    Position, Range, Span, TextEdit,
};
use crate::quick_fixes::{
    backticked, change_for, changes_for, insert_point, insertion_position, missing_attr_name,
    one_file, opt_edit,
};
use crate::schema::{find_entry, lookup};
use crate::scope::{opt_action, plural_suffix};
use crate::seqs::{
    filter_map, find_map, lemma_filter_map_step, lemma_find_map_step, lemma_take_full,
};
use crate::state::{AssignedType, DocUri, StateStore, SymbolTable};
use crate::text::{decimal, opt_view, str_eq, u64_text};
use crate::variable_type::{actionable, is_actionable_inference, InferredType, VariableType};
use ropey::Rope;
use vstd::prelude::*;

verus! {

// ---------------------------------------------------------------------
// Inference

pub open spec fn assigned_to(dir: Seq<char>, name: Seq<char>) -> spec_fn(AssignedType) -> Option<
    InferredType,
> {
    |a: AssignedType|
        if a.dir@ == dir && a.name@ == name {
            Some(a.ty)
        } else {
            None
        }
}

/// The type on which the assignments from outside the module agree.
pub open spec fn merged_type(state: StateStore, dir: Seq<char>, name: Seq<char>) -> Option<
    InferredType,
> {
    find_map(state.assigned_types@, assigned_to(dir, name))
}

pub fn merged_assigned_type<'a>(state: &'a StateStore, dir: &str, name: &str) -> (r: Option<
    &'a InferredType,
>)
    ensures
        match r {
            Some(t) => merged_type(*state, dir@, name@) == Some(*t),
            None => merged_type(*state, dir@, name@) is None,
        },
{
    let ghost f = assigned_to(dir@, name@);
    let ghost s = state.assigned_types@;
    proof {
        lemma_take_full(s);
    }
    for i in 0..state.assigned_types.len()
        invariant
            s == state.assigned_types@,
            f == assigned_to(dir@, name@),
            find_map(s, f) == find_map(s.skip(i as int), f),
    {
        proof {
            lemma_find_map_step(s, f, i as int);
        }
        if str_eq(state.assigned_types[i].dir.as_str(), dir) && str_eq(
            state.assigned_types[i].name.as_str(),
            name,
        ) {
            return Some(&state.assigned_types[i].ty);
        }
    }
    None
}

/// Where an inferred type comes from.
#[derive(Debug, Clone, Copy, PartialEq, Eq, Structural)]
pub enum TypeSource {
    Default,
    Assignments,
}

/// The type of a variable: that of its default where it is concrete, else the
/// one on which its assignments agree, where that is concrete.
pub open spec fn inferred(
    state: StateStore,
    symbols: SymbolTable,
    dir: Option<Seq<char>>,
    name: Seq<char>,
) -> Option<(InferredType, TypeSource)> {
    let from_default = lookup(symbols.variable_defaults@, name);
    if from_default is Some && actionable(from_default->0.ty) {
        Some((from_default->0, TypeSource::Default))
    } else {
        match dir {
            Some(d) => match merged_type(state, d, name) {
                Some(t) => if actionable(t.ty) {
                    Some((t, TypeSource::Assignments))
                } else {
                    None
                },
                None => None,
            },
            None => None,
        }
    }
}

/// The inferred type of a variable and where it comes from.
pub fn infer<'a>(
    state: &'a StateStore,
    symbols: &'a SymbolTable,
    dir: &Option<String>,
    name: &str,
) -> (r: Option<(&'a InferredType, TypeSource)>)
    ensures
        match r {
            Some(x) => inferred(*state, *symbols, opt_view(*dir), name@) == Some((*x.0, x.1)),
            None => inferred(*state, *symbols, opt_view(*dir), name@) is None,
        },
{
    if let Some(t) = find_entry(&symbols.variable_defaults, name) {
        if is_actionable_inference(&t.ty) {
            return Some((t, TypeSource::Default));
        }
    }
    if let Some(d) = dir {
        if let Some(t) = merged_assigned_type(state, d.as_str(), name) {
            if is_actionable_inference(&t.ty) {
                return Some((t, TypeSource::Assignments));
            }
        }
    }
    None
}

pub open spec fn source_label(s: TypeSource) -> Seq<char> {
    match s {
        TypeSource::Default => "default"@,
        TypeSource::Assignments => "tfvars / module callers"@,
    }
}

fn source_text(s: TypeSource) -> (r: &'static str)
    ensures
        r@ == source_label(s),
{
    match s {
        TypeSource::Default => "default",
        TypeSource::Assignments => "tfvars / module callers",
    }
}

/// The title of an action that sets an inferred type.
pub open spec fn type_title(ty: Seq<char>, source: TypeSource) -> Seq<char> {
    "Set variable type to `"@ + ty + "` from "@ + source_label(source)
}

fn render_type_title(ty: &str, source: TypeSource) -> (r: String)
    ensures
        r@ == type_title(ty@, source),
{
    let mut title = "Set variable type to `".to_owned();
    title.append(ty);
    title.append("` from ");
    title.append(source_text(source));
    title
}

fn is_primitive(ty: &VariableType) -> (r: bool)
    ensures
        r == (ty is Primitive),
{
    match ty {
        VariableType::Primitive(_) => true,
        _ => false,
    }
}

// ---------------------------------------------------------------------
// Blocks

/// The block has an attribute of that name.
pub open spec fn has_attr(b: Block, name: Seq<char>) -> bool {
    exists|i: int| 0 <= i < attributes(b.body).len() && (#[trigger] attributes(b.body)[i]).key.text@
        == name
}

pub fn block_has_attribute(block: &Block, name: &str) -> (r: bool)
    ensures
        r == has_attr(*block, name@),
{
    let attrs = list_attributes(&block.body);
    let ghost s = attributes(block.body);
    for i in 0..attrs.len()
        invariant
            s == attributes(block.body),
            attr_pointees(attrs@) == s,
            forall|j: int| 0 <= j < i ==> (#[trigger] s[j]).key.text@ != name@,
    {
        assert(s[i as int] == *attrs@[i as int]);
        if str_eq(attrs[i].key.text.as_str(), name) {
            return true;
        }
    }
    assert(attr_pointees(attrs@).len() == attrs@.len());
    false
}

/// What a structure says of the `variable` block with the given label. An
/// attribute, or a `variable` block without a label, ends the search.
pub open spec fn variable_in(name: Seq<char>) -> spec_fn(Structure) -> Option<Option<Block>> {
    |s: Structure|
        match s {
            Structure::Attribute(_) => Some(None),
            Structure::Block(b) => if b.ident.text@ != "variable"@ {
                None
            } else {
                match label_at(b, 0) {
                    Some(label) => if label == name {
                        Some(Some(b))
                    } else {
                        None
                    },
                    None => Some(None),
                }
            },
        }
}

/// The `variable` block with the given label, as far as the blocks at the top
/// of the body reach.
pub open spec fn variable_block(body: Body, name: Seq<char>) -> Option<Block> {
    flatten(find_map(body.structures@, variable_in(name)))
}

/// The `variable` block with the given label. The search does not go past an
/// attribute, nor past a `variable` block without a label.
pub fn find_variable_block<'a>(body: &'a Body, name: &str) -> (r: Option<&'a Block>)
    ensures
        match r {
            Some(b) => variable_block(*body, name@) == Some(*b),
            None => variable_block(*body, name@) is None,
        },
{
    let ghost s = body.structures@;
    let ghost f = variable_in(name@);
    proof {
        lemma_take_full(s);
    }
    for i in 0..body.structures.len()
        invariant
            s == body.structures@,
            f == variable_in(name@),
            find_map(s, f) == find_map(s.skip(i as int), f),
    {
        proof {
            lemma_find_map_step(s, f, i as int);
        }
        match &body.structures[i] {
            Structure::Attribute(_) => {
                return None;
            },
            Structure::Block(b) => {
                if str_eq(b.ident.text.as_str(), "variable") {
                    match block_label(b, 0) {
                        Some(label) => {
                            if str_eq(label, name) {
                                return Some(b);
                            }
                        },
                        None => {
                            return None;
                        },
                    }
                }
            },
        }
    }
    None
}

/// The `type` line at the top of a block.
pub open spec fn type_line(at: (Position, Seq<char>), ty: Seq<char>) -> EditV {
    EditV {
        range: Range { start: at.0, end: at.0 },
        new_text: at.1 + "  type = "@ + ty + "\n"@,
    }
}

fn type_line_edit(at: Position, prefix: &str, ty: &str) -> (r: TextEdit)
    ensures
        r@ == type_line((at, prefix@), ty@),
{
    let mut new_text = prefix.to_owned();
    new_text.append("  type = ");
    new_text.append(ty);
    new_text.append("\n");
    TextEdit { range: Range { start: at, end: at }, new_text }
}

// ---------------------------------------------------------------------
// The variable that a diagnostic names

/// The action that types the variable that a diagnostic names, where the block
/// is untyped and a type is inferred.
pub open spec fn insert_type_action(
    state: StateStore,
    uri: DocUri,
    diag: DiagnosticV,
    body: Body,
    t: Seq<char>,
    symbols: SymbolTable,
) -> Option<CodeActionV> {
    match backticked(diag.message) {
        Some(name) => match variable_block(body, name) {
            Some(b) => if has_attr(b, "type"@) {
                None
            } else {
                match (inferred(state, symbols, opt_view(uri.dir), name), insert_point(t, b)) {
                    (Some(x), Some(at)) => Some(
                        CodeActionV {
                            title: type_title(x.0.text@, x.1),
                            kind: "quickfix"@,
                            diagnostics: Some(seq![diag]),
                            edit: one_file(uri.text@, seq![type_line(at, x.0.text@)]),
                            is_preferred: Some(x.0.ty is Primitive),
                        },
                    ),
                    _ => None,
                }
            },
            None => None,
        },
        None => None,
    }
}

pub fn make_insert_variable_type_action(
    uri: &DocUri,
    diag: &Diagnostic,
    body: &Body,
    rope: &Rope,
    symbols: &SymbolTable,
    state: &StateStore,
) -> (r: Option<CodeAction>)
    ensures
        opt_action(r) == insert_type_action(
            *state,
            *uri,
            diag@,
            *body,
            rope_text(*rope),
            *symbols,
        ),
{
    let name = match missing_attr_name(diag.message.as_str()) {
        Some(n) => n,
        None => {
            return None;
        },
    };
    let b = match find_variable_block(body, name) {
        Some(b) => b,
        None => {
            return None;
        },
    };
    if block_has_attribute(b, "type") {
        return None;
    }
    let (ty, source) = match infer(state, symbols, &uri.dir, name) {
        Some(x) => x,
        None => {
            return None;
        },
    };
    let (at, prefix) = match insertion_position(b, rope) {
        Some(p) => p,
        None => {
            return None;
        },
    };
    let title = render_type_title(ty.text.as_str(), source);
    let ds = vec![diag.duplicate()];
    assert(crate::actions::diagnostics_view(ds@) =~= seq![diag@]);
    Some(
        CodeAction {
            title,
            kind: "quickfix".to_owned(),
            diagnostics: Some(ds),
            edit: change_for(uri.text.as_str(), type_line_edit(at, prefix, ty.text.as_str())),
            is_preferred: Some(is_primitive(&ty.ty)),
        },
    )
}

// ---------------------------------------------------------------------
// The variable under the cursor

/// The labelled block whose range holds the cursor, and its label.
pub open spec fn holding(t: Seq<char>, cursor: Position) -> spec_fn(Block) -> Option<
    (Block, Seq<char>),
> {
    |b: Block|
        match (b.span, label_at(b, 0)) {
            (Some(span), Some(name)) => match span_range(t, span) {
                Some(range) => if range_contains(range, cursor) {
                    Some((b, name))
                } else {
                    None
                },
                None => None,
            },
            _ => None,
        }
}

/// The action that types the variable under the cursor: with the inferred
/// type, or with `any` where none is inferred.
pub open spec fn insert_type_at_cursor(
    state: StateStore,
    uri: DocUri,
    cursor: Position,
    body: Body,
    t: Seq<char>,
    symbols: SymbolTable,
) -> Option<CodeActionV> {
    match find_map(blocks_named(body, "variable"@), holding(t, cursor)) {
        Some((b, name)) => if has_attr(b, "type"@) {
            None
        } else {
            match insert_point(t, b) {
                Some(at) => {
                    let found = inferred(state, symbols, opt_view(uri.dir), name);
                    let ty = match found {
                        Some(x) => x.0.text@,
                        None => "any"@,
                    };
                    Some(
                        CodeActionV {
                            title: match found {
                                Some(x) => type_title(ty, x.1),
                                None => "Set variable type to `any` (no inference — adjust as needed)"@,
                            },
                            kind: "quickfix"@,
                            diagnostics: None,
                            edit: one_file(uri.text@, seq![type_line(at, ty)]),
                            is_preferred: Some(found is Some && (found->0).0.ty is Primitive),
                        },
                    )
                },
                None => None,
            }
        },
        None => None,
    }
}

/// The labelled `variable` block that holds the cursor.
fn variable_at<'a>(body: &'a Body, rope: &Rope, cursor: Position) -> (r: Option<
    (&'a Block, &'a str),
>)
    ensures
        match r {
            Some(x) => find_map(
                blocks_named(*body, "variable"@),
                holding(rope_text(*rope), cursor),
            ) == Some((*x.0, x.1@)),
            None => find_map(
                blocks_named(*body, "variable"@),
                holding(rope_text(*rope), cursor),
            ) is None,
        },
{
    let bs = list_blocks_named(body, "variable");
    let ghost s = blocks_named(*body, "variable"@);
    let ghost f = holding(rope_text(*rope), cursor);
    proof {
        lemma_take_full(s);
    }
    for i in 0..bs.len()
        invariant
            s == blocks_named(*body, "variable"@),
            block_pointees(bs@) == s,
            f == holding(rope_text(*rope), cursor),
            find_map(s, f) == find_map(s.skip(i as int), f),
    {
        proof {
            lemma_find_map_step(s, f, i as int);
            assert(s[i as int] == *bs@[i as int]);
        }
        let b = bs[i];
        if let Some(span) = b.span {
            if let Some(range) = hcl_span_to_lsp_range(rope, span) {
                if contains(&range, cursor) {
                    if let Some(name) = block_label(b, 0) {
                        return Some((b, name));
                    }
                }
            }
        }
    }
    None
}

pub fn make_insert_variable_type_action_at_cursor(
    uri: &DocUri,
    cursor: Position,
    body: &Body,
    rope: &Rope,
    symbols: &SymbolTable,
    state: &StateStore,
) -> (r: Option<CodeAction>)
    ensures
        opt_action(r) == insert_type_at_cursor(
            *state,
            *uri,
            cursor,
            *body,
            rope_text(*rope),
            *symbols,
        ),
{
    let (b, name) = match variable_at(body, rope, cursor) {
        Some(x) => x,
        None => {
            return None;
        },
    };
    if block_has_attribute(b, "type") {
        return None;
    }
    let (at, prefix) = match insertion_position(b, rope) {
        Some(p) => p,
        None => {
            return None;
        },
    };
    let found = infer(state, symbols, &uri.dir, name);
    let (ty, title, preferred) = match found {
        Some(x) => (
            x.0.text.as_str(),
            render_type_title(x.0.text.as_str(), x.1),
            is_primitive(&x.0.ty),
        ),
        None => (
            "any",
            "Set variable type to `any` (no inference — adjust as needed)".to_owned(),
            false,
        ),
    };
    Some(
        CodeAction {
            title,
            kind: "quickfix".to_owned(),
            diagnostics: None,
            edit: change_for(uri.text.as_str(), type_line_edit(at, prefix, ty)),
            is_preferred: Some(preferred),
        },
    )
}

/// Where a diagnostic names the variable under the cursor, the action for the
/// diagnostic is the one for the cursor: the title and the edit are the same.
pub proof fn cursor_and_diagnostic_agree(
    state: StateStore,
    uri: DocUri,
    diag: DiagnosticV,
    cursor: Position,
    body: Body,
    t: Seq<char>,
    symbols: SymbolTable,
    b: Block,
    name: Seq<char>,
)
    requires
        backticked(diag.message) == Some(name),
        variable_block(body, name) == Some(b),
        find_map(blocks_named(body, "variable"@), holding(t, cursor)) == Some((b, name)),
    ensures
        insert_type_action(state, uri, diag, body, t, symbols) matches Some(x) ==> {
            &&& insert_type_at_cursor(state, uri, cursor, body, t, symbols) matches Some(y)
            &&& y.title == x.title
            &&& y.kind == x.kind
            &&& y.edit == x.edit
            &&& y.is_preferred == x.is_preferred
        },
{
}

// ---------------------------------------------------------------------
// All variables of a document

/// The edit that types a variable, where it is untyped and a type is inferred.
pub open spec fn insert_type_edit(
    state: StateStore,
    symbols: SymbolTable,
    dir: Option<Seq<char>>,
    t: Seq<char>,
) -> spec_fn(Block) -> Option<EditV> {
    |b: Block|
        if has_attr(b, "type"@) {
            None
        } else {
            match label_at(b, 0) {
                Some(name) => match (inferred(state, symbols, dir, name), insert_point(t, b)) {
                    (Some(x), Some(at)) => Some(type_line(at, x.0.text@)),
                    _ => None,
                },
                None => None,
            }
        }
}

pub open spec fn insert_type_edits(
    state: StateStore,
    symbols: SymbolTable,
    dir: Option<Seq<char>>,
    body: Body,
    t: Seq<char>,
) -> Seq<EditV> {
    filter_map(blocks_named(body, "variable"@), insert_type_edit(state, symbols, dir, t))
}

fn type_edit_for(
    b: &Block,
    dir: &Option<String>,
    rope: &Rope,
    symbols: &SymbolTable,
    state: &StateStore,
) -> (r: Option<TextEdit>)
    ensures
        opt_edit(r) == insert_type_edit(*state, *symbols, opt_view(*dir), rope_text(*rope))(*b),
{
    if block_has_attribute(b, "type") {
        return None;
    }
    if let Some(name) = block_label(b, 0) {
        if let Some(x) = infer(state, symbols, dir, name) {
            if let Some((at, prefix)) = insertion_position(b, rope) {
                return Some(type_line_edit(at, prefix, x.0.text.as_str()));
            }
        }
    }
    None
}

/// One edit per untyped variable with an inferred type.
pub fn scan_insert_variable_types(
    dir: &Option<String>,
    body: &Body,
    rope: &Rope,
    symbols: &SymbolTable,
    state: &StateStore,
) -> (r: Vec<TextEdit>)
    ensures
        edits_view(r@) == insert_type_edits(
            *state,
            *symbols,
            opt_view(*dir),
            *body,
            rope_text(*rope),
        ),
{
    let bs = list_blocks_named(body, "variable");
    let ghost s = blocks_named(*body, "variable"@);
    let ghost f = insert_type_edit(*state, *symbols, opt_view(*dir), rope_text(*rope));
    let mut out: Vec<TextEdit> = Vec::new();
    proof {
        lemma_take_full(s);
    }
    assert(edits_view(out@) =~= filter_map(s.take(0), f));
    for i in 0..bs.len()
        invariant
            block_pointees(bs@) == s,
            f == insert_type_edit(*state, *symbols, opt_view(*dir), rope_text(*rope)),
            edits_view(out@) == filter_map(s.take(i as int), f),
    {
        proof {
            lemma_filter_map_step(s, f, i as int);
            assert(s[i as int] == *bs@[i as int]);
        }
        let ghost before = edits_view(out@);
        if let Some(e) = type_edit_for(bs[i], dir, rope, symbols, state) {
            out.push(e);
            assert(edits_view(out@) =~= before.push(e@));
        }
    }
    out
}

/// The action that types every variable of a document.
pub open spec fn fix_all_types(
    state: StateStore,
    uri: DocUri,
    body: Body,
    t: Seq<char>,
    symbols: SymbolTable,
) -> Option<CodeActionV> {
    let edits = insert_type_edits(state, symbols, opt_view(uri.dir), body, t);
    if edits.len() == 0 {
        None
    } else {
        Some(
            CodeActionV {
                title: "Set variable types: infer `type = …` for "@ + decimal(edits.len())
                    + " untyped variable"@ + plural_suffix(edits.len()),
                kind: "source.fixAll"@,
                diagnostics: None,
                edit: one_file(uri.text@, edits),
                is_preferred: None,
            },
        )
    }
}

pub fn make_fix_all_variable_types_action(
    uri: &DocUri,
    body: &Body,
    rope: &Rope,
    symbols: &SymbolTable,
    state: &StateStore,
) -> (r: Option<CodeAction>)
    ensures
        opt_action(r) == fix_all_types(*state, *uri, *body, rope_text(*rope), *symbols),
{
    let edits = scan_insert_variable_types(&uri.dir, body, rope, symbols, state);
    assert(edits_view(edits@).len() == edits@.len());
    let count: usize = edits.len();
    if count == 0 {
        return None;
    }
    let mut title = "Set variable types: infer `type = …` for ".to_owned();
    title.append(u64_text(count as u64).as_str());
    title.append(" untyped variable");
    title.append(if count == 1 { "" } else { "s" });
    Some(
        CodeAction {
            title,
            kind: "source.fixAll".to_owned(),
            diagnostics: None,
            edit: changes_for(uri.text.as_str(), edits),
            is_preferred: None,
        },
    )
}

// ---------------------------------------------------------------------
// `type = any`

pub open spec fn attr_with_key(key: Seq<char>) -> spec_fn(Attribute) -> Option<Attribute> {
    |a: Attribute|
        if a.key.text@ == key {
            Some(a)
        } else {
            None
        }
}

/// The first attribute with a key.
pub open spec fn first_attr(body: Body, key: Seq<char>) -> Option<Attribute> {
    find_map(attributes(body), attr_with_key(key))
}

pub fn find_attr<'a>(body: &'a Body, key: &str) -> (r: Option<&'a Attribute>)
    ensures
        match r {
            Some(a) => first_attr(*body, key@) == Some(*a),
            None => first_attr(*body, key@) is None,
        },
{
    let attrs = list_attributes(body);
    let ghost s = attributes(*body);
    let ghost f = attr_with_key(key@);
    proof {
        lemma_take_full(s);
    }
    for i in 0..attrs.len()
        invariant
            s == attributes(*body),
            attr_pointees(attrs@) == s,
            f == attr_with_key(key@),
            find_map(s, f) == find_map(s.skip(i as int), f),
    {
        proof {
            lemma_find_map_step(s, f, i as int);
            assert(s[i as int] == *attrs@[i as int]);
        }
        if str_eq(attrs[i].key.text.as_str(), key) {
            return Some(attrs[i]);
        }
    }
    None
}

/// The span of the value of `type = any`.
pub open spec fn any_span(b: Block) -> Option<Span> {
    match first_attr(b.body, "type"@) {
        Some(a) => match a.value.kind {
            ExprKind::Variable(v) => if v@ == "any"@ {
                a.value.span
            } else {
                None
            },
            _ => None,
        },
        None => None,
    }
}

/// The edit that puts the inferred type in place of `any`.
pub open spec fn refine_edit(
    state: StateStore,
    symbols: SymbolTable,
    dir: Option<Seq<char>>,
    t: Seq<char>,
) -> spec_fn(Block) -> Option<EditV> {
    |b: Block|
        match (label_at(b, 0), any_span(b)) {
            (Some(name), Some(span)) => match (
                inferred(state, symbols, dir, name),
                span_range(t, span),
            ) {
                (Some(x), Some(range)) => Some(EditV { range, new_text: x.0.text@ }),
                _ => None,
            },
            _ => None,
        }
}

pub open spec fn refine_edits(
    state: StateStore,
    symbols: SymbolTable,
    dir: Option<Seq<char>>,
    body: Body,
    t: Seq<char>,
) -> Seq<EditV> {
    filter_map(blocks_named(body, "variable"@), refine_edit(state, symbols, dir, t))
}

fn refine_edit_for(
    b: &Block,
    dir: &Option<String>,
    rope: &Rope,
    symbols: &SymbolTable,
    state: &StateStore,
) -> (r: Option<TextEdit>)
    ensures
        opt_edit(r) == refine_edit(*state, *symbols, opt_view(*dir), rope_text(*rope))(*b),
{
    if let Some(name) = block_label(b, 0) {
        if let Some(a) = find_attr(&b.body, "type") {
            if let ExprKind::Variable(v) = &a.value.kind {
                if str_eq(v.as_str(), "any") {
                    if let Some(span) = a.value.span {
                        if let Some(x) = infer(state, symbols, dir, name) {
                            if let Some(range) = hcl_span_to_lsp_range(rope, span) {
                                return Some(TextEdit { range, new_text: x.0.text.clone() });
                            }
                        }
                    }
                }
            }
        }
    }
    None
}

/// One edit per variable typed `any` with an inferred type.
pub fn scan_refine_any_types(
    dir: &Option<String>,
    body: &Body,
    rope: &Rope,
    symbols: &SymbolTable,
    state: &StateStore,
) -> (r: Vec<TextEdit>)
    ensures
        edits_view(r@) == refine_edits(
            *state,
            *symbols,
            opt_view(*dir),
            *body,
            rope_text(*rope),
        ),
{
    let bs = list_blocks_named(body, "variable");
    let ghost s = blocks_named(*body, "variable"@);
    let ghost f = refine_edit(*state, *symbols, opt_view(*dir), rope_text(*rope));
    let mut out: Vec<TextEdit> = Vec::new();
    proof {
        lemma_take_full(s);
    }
    assert(edits_view(out@) =~= filter_map(s.take(0), f));
    for i in 0..bs.len()
        invariant
            block_pointees(bs@) == s,
            f == refine_edit(*state, *symbols, opt_view(*dir), rope_text(*rope)),
            edits_view(out@) == filter_map(s.take(i as int), f),
    {
        proof {
            lemma_filter_map_step(s, f, i as int);
            assert(s[i as int] == *bs@[i as int]);
        }
        let ghost before = edits_view(out@);
        if let Some(e) = refine_edit_for(bs[i], dir, rope, symbols, state) {
            out.push(e);
            assert(edits_view(out@) =~= before.push(e@));
        }
    }
    out
}

/// No variable is both typed and refined: an untyped block has no `any` to
/// replace.
pub proof fn insert_and_refine_are_disjoint(
    state: StateStore,
    symbols: SymbolTable,
    dir: Option<Seq<char>>,
    t: Seq<char>,
    b: Block,
)
    ensures
        insert_type_edit(state, symbols, dir, t)(b) is None || refine_edit(state, symbols, dir, t)(
            b,
        ) is None,
{
    if any_span(b) is Some {
        let s = attributes(b.body);
        lemma_found_attr(s, "type"@);
        let i = choose|i: int| 0 <= i < s.len() && (#[trigger] s[i]).key.text@ == "type"@;
        assert(attributes(b.body)[i].key.text@ == "type"@);
    }
}

proof fn lemma_found_attr(s: Seq<Attribute>, key: Seq<char>)
    requires
        find_map(s, attr_with_key(key)) is Some,
    ensures
        exists|i: int| 0 <= i < s.len() && (#[trigger] s[i]).key.text@ == key,
    decreases s.len(),
{
    if s.len() > 0 {
        if s[0].key.text@ != key {
            lemma_found_attr(s.skip(1), key);
            let i = choose|i: int|
                0 <= i < s.skip(1).len() && (#[trigger] s.skip(1)[i]).key.text@ == key;
            assert(s[i + 1].key.text@ == key);
        }
    }
}

} // verus!
