//! Keeping declarations in the files where they belong: undeclared variables
//! are declared in `variables.tf`, stray outputs and variables move to
//! `outputs.tf` and `variables.tf`.

use crate::actions::{
    actions_view, ops_view, with_edits, CodeAction, CodeActionV, DocumentOp, DocumentOpV, EditMap,
    EditMapV, WorkspaceEdit, WorkspaceEditV,
};
use crate::block_rename::{push_rewrite_ops, rewrite_ops};
use crate::hcl::{block_pointees, blocks_named, list_blocks_named, Block, Body};
use crate::null_resource::has_name;
use crate::order::{name_set, sort_dedup_names};
use crate::position::{
    byte_offset_to_lsp_position, char_at_byte, char_offset, char_to_lsp_position, edits_view,
    offset_position, rope_byte_to_char, rope_len_bytes, rope_slice, rope_text, rope_to_string,
    utf8_len, EditV, Range, TextEdit,
};
use crate::scope::{
    doc_pointees, for_each_doc_in_scope, kind_of, scope_docs, scope_kind, scope_title, title_of,
    Scope,
};
use crate::seqs::{
    filter_map, flat_map, lemma_filter_map_step, lemma_flat_map_step, lemma_take_full,
};
use crate::state::{DocUri, DocumentState, Reference, ReferenceKind, StateStore, Symbol};
use crate::target_file::{
    append_ops, push_append_ops, resolve_target_strategy, target_strategy, TargetFileStrategy,
};
use crate::text::{chars_of, ends_with, opt_view, str_ends_with, str_eq, texts};
use ropey::Rope;
use vstd::prelude::*;

verus! {

// ---------------------------------------------------------------------
// Undeclared variables

pub open spec fn symbol_names(v: Seq<Symbol>) -> Seq<Seq<char>> {
    Seq::new(v.len(), |i: int| v[i].name@)
}

pub open spec fn doc_declared() -> spec_fn(DocumentState) -> Seq<Seq<char>> {
    |d: DocumentState| symbol_names(d.symbols.variables@)
}

/// The variables that the documents of a scope declare.
pub open spec fn declared_names(within: Seq<DocumentState>) -> Seq<Seq<char>> {
    flat_map(within, doc_declared())
}

/// The variables that the documents of a scope declare.
pub fn per_doc_declared_set(state: &StateStore, primary_uri: &DocUri, scope: Scope) -> (r: Vec<
    String,
>)
    ensures
        texts(r@) == declared_names(scope_docs(state.documents@, *primary_uri, scope)),
{
    let docs = for_each_doc_in_scope(state, primary_uri, scope);
    let ghost s = scope_docs(state.documents@, *primary_uri, scope);
    let ghost f = doc_declared();
    let mut out: Vec<String> = Vec::new();
    proof {
        lemma_take_full(s);
    }
    assert(texts(out@) =~= flat_map(s.take(0), f));
    for i in 0..docs.len()
        invariant
            doc_pointees(docs@) == s,
            f == doc_declared(),
            texts(out@) == flat_map(s.take(i as int), f),
    {
        proof {
            lemma_flat_map_step(s, f, i as int);
            assert(s[i as int] == *docs@[i as int]);
        }
        let ghost start = texts(out@);
        let vars = &docs[i].symbols.variables;
        let ghost all = symbol_names(vars@);
        assert(texts(out@) =~= start + all.take(0));
        for j in 0..vars.len()
            invariant
                all == symbol_names(vars@),
                texts(out@) == start + all.take(j as int),
        {
            let ghost before = texts(out@);
            out.push(vars[j].name.clone());
            assert(texts(out@) =~= before.push(all[j as int]));
            assert(all.take(j + 1) =~= all.take(j as int).push(all[j as int]));
            assert(texts(out@) =~= start + all.take(j + 1));
        }
        assert(all.take(all.len() as int) =~= all);
    }
    out
}

/// The variable that a reference names, where it is not declared.
pub open spec fn undeclared_ref(declared: Seq<Seq<char>>) -> spec_fn(Reference) -> Option<
    Seq<char>,
> {
    |r: Reference|
        match r.kind {
            ReferenceKind::Variable { name } => if declared.contains(name@) {
                None
            } else {
                Some(name@)
            },
            _ => None,
        }
}

pub open spec fn doc_undeclared(declared: Seq<Seq<char>>) -> spec_fn(DocumentState) -> Seq<
    Seq<char>,
> {
    |d: DocumentState| filter_map(d.references@, undeclared_ref(declared))
}

/// The names of the variables that are referenced and not declared, in order
/// and each once.
pub open spec fn undeclared_names(within: Seq<DocumentState>, declared: Seq<Seq<char>>) -> Seq<
    Seq<char>,
> {
    name_set(flat_map(within, doc_undeclared(declared)))
}

/// The names of the variables that are referenced and not declared.
pub fn collect_undeclared_names(
    state: &StateStore,
    primary_uri: &DocUri,
    scope: Scope,
    declared: &Vec<String>,
) -> (r: Vec<String>)
    ensures
        texts(r@) == undeclared_names(
            scope_docs(state.documents@, *primary_uri, scope),
            texts(declared@),
        ),
{
    let docs = for_each_doc_in_scope(state, primary_uri, scope);
    let ghost s = scope_docs(state.documents@, *primary_uri, scope);
    let ghost f = doc_undeclared(texts(declared@));
    let ghost g = undeclared_ref(texts(declared@));
    let mut out: Vec<String> = Vec::new();
    proof {
        lemma_take_full(s);
    }
    assert(texts(out@) =~= flat_map(s.take(0), f));
    for i in 0..docs.len()
        invariant
            doc_pointees(docs@) == s,
            f == doc_undeclared(texts(declared@)),
            g == undeclared_ref(texts(declared@)),
            texts(out@) == flat_map(s.take(i as int), f),
    {
        proof {
            lemma_flat_map_step(s, f, i as int);
            assert(s[i as int] == *docs@[i as int]);
        }
        let ghost start = texts(out@);
        let refs = &docs[i].references;
        proof {
            lemma_take_full(refs@);
        }
        assert(texts(out@) =~= start + filter_map(refs@.take(0), g));
        for j in 0..refs.len()
            invariant
                g == undeclared_ref(texts(declared@)),
                texts(out@) == start + filter_map(refs@.take(j as int), g),
        {
            proof {
                lemma_filter_map_step(refs@, g, j as int);
            }
            let ghost before = texts(out@);
            if let ReferenceKind::Variable { name } = &refs[j].kind {
                if !has_name(declared, name.as_str()) {
                    out.push(name.clone());
                    assert(texts(out@) =~= before.push(name@));
                }
            }
            assert(texts(out@) =~= start + filter_map(refs@.take(j + 1), g));
        }
    }
    sort_dedup_names(&out)
}

pub open spec fn stub_text() -> spec_fn(Seq<char>) -> Seq<char> {
    |n: Seq<char>| "variable \""@ + n + "\" {}\n"@
}

/// The edit that writes a text to a file: plain changes where the file exists,
/// steps that create it where it does not.
pub open spec fn write_edit(
    strategy: TargetFileStrategy,
    dir: Seq<char>,
    name: Seq<char>,
    text: Seq<char>,
) -> WorkspaceEditV {
    let ops = append_ops(strategy, dir, name, text);
    match strategy {
        TargetFileStrategy::Create => WorkspaceEditV::Operations(ops),
        _ => match ops[0] {
            DocumentOpV::Edit(e) => WorkspaceEditV::FileChanges(e),
            DocumentOpV::Create(_) => WorkspaceEditV::Operations(ops),
        },
    }
}

/// The edit that declares the variables in the file.
pub fn build_declare_undefined_workspace_edit(
    strategy: TargetFileStrategy,
    dir: &str,
    file_name: &str,
    undeclared: &Vec<String>,
) -> (r: WorkspaceEdit)
    ensures
        r@ == write_edit(
            strategy,
            dir@,
            file_name@,
            flat_map(texts(undeclared@), stub_text()),
        ),
{
    let mut blocks = String::new();
    let ghost s = texts(undeclared@);
    let ghost f = stub_text();
    proof {
        lemma_take_full(s);
    }
    assert(blocks@ =~= flat_map(s.take(0), f));
    for i in 0..undeclared.len()
        invariant
            s == texts(undeclared@),
            f == stub_text(),
            blocks@ == flat_map(s.take(i as int), f),
    {
        proof {
            lemma_flat_map_step(s, f, i as int);
        }
        let mut stub = "variable \"".to_owned();
        stub.append(undeclared[i].as_str());
        stub.append("\" {}\n");
        blocks.append(stub.as_str());
    }
    let mut ops: Vec<DocumentOp> = Vec::new();
    let ghost before = ops_view(ops@);
    push_append_ops(&mut ops, strategy, dir, file_name, blocks.as_str());
    let ghost want = append_ops(strategy, dir@, file_name@, blocks@);
    assert(ops_view(ops@) =~= want);
    match strategy {
        TargetFileStrategy::Create => WorkspaceEdit::Operations(ops),
        _ => {
            assert(want.len() == 1);
            assert(ops_view(ops@)[0] == ops@[0]@);
            assert(ops_view(ops@).len() == ops@.len());
            let op = ops.remove(0);
            match op {
                DocumentOp::Edit(e) => WorkspaceEdit::FileChanges(e),
                DocumentOp::Create(_) => {
                    // A file that is there is not created.
                    assert(false);
                    WorkspaceEdit::Operations(ops)
                },
            }
        },
    }
}

/// The action that declares the undeclared variables of a module in its
/// `variables.tf`.
pub open spec fn declare_action(state: StateStore, primary: DocUri) -> Option<CodeActionV> {
    let within = scope_docs(state.documents@, primary, Scope::Module);
    let names = undeclared_names(within, declared_names(within));
    match opt_view(primary.dir) {
        Some(dir) => if names.len() == 0 {
            None
        } else {
            Some(
                CodeActionV {
                    title: title_of(
                        "Declare undefined variables"@,
                        "undefined variable"@,
                        Scope::Module,
                        names.len(),
                    ),
                    kind: kind_of(Scope::Module, "declare-undefined-variables"@),
                    diagnostics: None,
                    edit: write_edit(
                        target_strategy(state, dir, "variables.tf"@),
                        dir,
                        "variables.tf"@,
                        flat_map(names, stub_text()),
                    ),
                    is_preferred: None,
                },
            )
        },
        None => None,
    }
}

/// What an action adds to a list.
pub open spec fn one_or_none(a: Option<CodeActionV>) -> Seq<CodeActionV> {
    match a {
        Some(a) => seq![a],
        None => Seq::empty(),
    }
}

pub fn emit_declare_undefined_actions(
    state: &StateStore,
    primary_uri: &DocUri,
    actions: &mut Vec<CodeAction>,
)
    ensures
        actions_view(final(actions)@) == actions_view(old(actions)@) + one_or_none(
            declare_action(*state, *primary_uri),
        ),
{
    let ghost start = actions_view(actions@);
    if let Some(dir) = &primary_uri.dir {
        let declared = per_doc_declared_set(state, primary_uri, Scope::Module);
        let names = collect_undeclared_names(state, primary_uri, Scope::Module, &declared);
        assert(texts(names@).len() == names@.len());
        if names.len() > 0 {
            let strategy = resolve_target_strategy(state, dir.as_str(), "variables.tf");
            let a = CodeAction {
                title: scope_title(
                    "Declare undefined variables",
                    "undefined variable",
                    Scope::Module,
                    names.len(),
                ),
                kind: scope_kind(Scope::Module, "declare-undefined-variables"),
                diagnostics: None,
                edit: build_declare_undefined_workspace_edit(
                    strategy,
                    dir.as_str(),
                    "variables.tf",
                    &names,
                ),
                is_preferred: None,
            };
            actions.push(a);
            assert(actions_view(actions@) =~= start.push(a@));
        }
    }
    assert(actions_view(actions@) =~= start + one_or_none(declare_action(*state, *primary_uri)));
}

// ---------------------------------------------------------------------
// Blocks in the wrong file

/// Past trailing blanks and one line feed.
pub open spec fn past_line_end(t: Seq<char>, k: int) -> int
    decreases t.len() - k,
{
    if k >= t.len() {
        k
    } else if t[k] == '\n' {
        k + 1
    } else if t[k] == ' ' || t[k] == '\t' || t[k] == '\r' {
        past_line_end(t, k + 1)
    } else {
        k
    }
}

/// Past the end of the line and, where the next line is blank, past that one.
pub open spec fn past_blank_line(t: Seq<char>, k: int) -> int {
    let end = past_line_end(t, k);
    let next = past_line_end(t, end);
    if 0 < end < next && t[end - 1] == '\n' && t[next - 1] == '\n' {
        next
    } else {
        end
    }
}

/// The range that a block is deleted with, which takes the rest of its last line
/// and a blank line after it, and the text of its lines.
pub open spec fn movable(t: Seq<char>) -> spec_fn(Block) -> Option<(Range, Seq<char>)> {
    |b: Block|
        match b.span {
            Some(span) => if span.start <= utf8_len(t) {
                let end = if span.end <= utf8_len(t) {
                    span.end as nat
                } else {
                    utf8_len(t)
                };
                let from = char_at_byte(t, span.start as nat);
                let to = past_line_end(t, char_at_byte(t, end));
                let deleted = past_blank_line(t, char_at_byte(t, end));
                match (
                    offset_position(t, span.start as int),
                    offset_position(t, char_offset(t, deleted)),
                ) {
                    (Some(a), Some(b)) => if from <= to {
                        Some((Range { start: a, end: b }, t.subrange(from, to)))
                    } else {
                        None
                    },
                    _ => None,
                }
            } else {
                None
            },
            None => None,
        }
}

/// The blocks of a kind with the ranges they are deleted with.
pub open spec fn movable_blocks(body: Body, t: Seq<char>, kind: Seq<char>) -> Seq<
    (Range, Seq<char>),
> {
    filter_map(blocks_named(body, kind), movable(t))
}

pub open spec fn movable_view(v: Seq<(Range, String)>) -> Seq<(Range, Seq<char>)> {
    Seq::new(v.len(), |i: int| (v[i].0, v[i].1@))
}

/// Past the rest of the line at `from`.
fn slice_past_line_end(c: &[char], from: usize) -> (r: usize)
    requires
        from <= c@.len(),
    ensures
        r == past_line_end(c@, from as int),
        from <= r <= c@.len(),
{
    let mut to: usize = from;
    while to < c.len() && c[to] != '\n' && (c[to] == ' ' || c[to] == '\t' || c[to] == '\r')
        invariant
            from <= to <= c@.len(),
            past_line_end(c@, from as int) == past_line_end(c@, to as int),
        decreases c@.len() - to,
    {
        to += 1;
    }
    if to < c.len() && c[to] == '\n' {
        to += 1;
    }
    to
}

fn movable_block(b: &Block, rope: &Rope) -> (r: Option<(Range, String)>)
    ensures
        match r {
            Some(x) => movable(rope_text(*rope))(*b) == Some((x.0, x.1@)),
            None => movable(rope_text(*rope))(*b) is None,
        },
{
    let ghost t = rope_text(*rope);
    let span = match b.span {
        Some(s) => s,
        None => {
            return None;
        },
    };
    let total = rope_len_bytes(rope);
    if span.start > total {
        return None;
    }
    let end: usize = if span.end <= total {
        span.end
    } else {
        total
    };
    let c = chars_of(rope_to_string(rope).as_str());
    let from = rope_byte_to_char(rope, span.start);
    let first = rope_byte_to_char(rope, end);
    let to = slice_past_line_end(c.as_slice(), first);
    let next = slice_past_line_end(c.as_slice(), to);
    let deleted: usize = if 0 < to && to < next && c[to - 1] == '\n' && c[next - 1] == '\n' {
        next
    } else {
        to
    };
    assert(past_blank_line(t, first as int) == deleted);
    let start_pos = match byte_offset_to_lsp_position(rope, span.start) {
        Some(p) => p,
        None => {
            return None;
        },
    };
    let end_pos = match char_to_lsp_position(rope, deleted) {
        Some(p) => p,
        None => {
            return None;
        },
    };
    if from > to {
        return None;
    }
    Some((Range { start: start_pos, end: end_pos }, rope_slice(rope, from, to)))
}

/// The blocks of a kind: the range to delete each with, and its text.
pub fn scan_blocks_of_kind(body: &Body, rope: &Rope, kind: &str) -> (r: Vec<(Range, String)>)
    ensures
        movable_view(r@) == movable_blocks(*body, rope_text(*rope), kind@),
{
    let bs = list_blocks_named(body, kind);
    let ghost s = blocks_named(*body, kind@);
    let ghost f = movable(rope_text(*rope));
    let mut out: Vec<(Range, String)> = Vec::new();
    proof {
        lemma_take_full(s);
    }
    assert(movable_view(out@) =~= filter_map(s.take(0), f));
    for i in 0..bs.len()
        invariant
            block_pointees(bs@) == s,
            f == movable(rope_text(*rope)),
            movable_view(out@) == filter_map(s.take(i as int), f),
    {
        proof {
            lemma_filter_map_step(s, f, i as int);
            assert(s[i as int] == *bs@[i as int]);
        }
        let ghost before = movable_view(out@);
        if let Some(x) = movable_block(bs[i], rope) {
            out.push(x);
            assert(movable_view(out@) =~= before.push((x.0, x.1@)));
        }
    }
    out
}

/// A text with its last line ended and one blank line after it.
pub open spec fn blank_line_after(s: Seq<char>) -> Seq<char> {
    let ended = if s.len() > 0 && !ends_with(s, "\n"@) {
        s + "\n"@
    } else {
        s
    };
    if ended.len() > 0 && !ends_with(ended, "\n\n"@) {
        ended + "\n"@
    } else {
        ended
    }
}

/// The texts one after another with a blank line between neighbours.
pub open spec fn combined(parts: Seq<Seq<char>>) -> Seq<char>
    decreases parts.len(),
{
    if parts.len() == 0 {
        Seq::empty()
    } else {
        blank_line_after(combined(parts.drop_last())) + parts.last()
    }
}

/// The texts of moved blocks with a blank line between neighbours.
pub fn combine_block_sources(blocks: &Vec<String>) -> (r: String)
    ensures
        r@ == combined(texts(blocks@)),
{
    let mut out = String::new();
    let ghost s = texts(blocks@);
    proof {
        lemma_take_full(s);
    }
    for i in 0..blocks.len()
        invariant
            s == texts(blocks@),
            out@ == combined(s.take(i as int)),
    {
        if !out.as_str().is_empty() && !str_ends_with(out.as_str(), "\n") {
            out.append("\n");
        }
        if !out.as_str().is_empty() && !str_ends_with(out.as_str(), "\n\n") {
            out.append("\n");
        }
        out.append(blocks[i].as_str());
        proof {
            assert(s.take(i + 1).drop_last() =~= s.take(i as int));
            assert(s.take(i + 1).last() == s[i as int]);
        }
    }
    proof {
        lemma_take_full(s);
    }
    out
}

/// Every block keeps its text, and what stands before it ends with a blank
/// line.
pub proof fn combined_separates(parts: Seq<Seq<char>>, last: Seq<char>)
    ensures
        combined(parts.push(last)) == blank_line_after(combined(parts)) + last,
        combined(parts).len() > 0 ==> ends_with(blank_line_after(combined(parts)), "\n\n"@),
{
    assert(parts.push(last).drop_last() =~= parts);
    reveal_strlit("\n");
    reveal_strlit("\n\n");
    let s = combined(parts);
    if s.len() > 0 {
        let ended = if !ends_with(s, "\n"@) {
            s + "\n"@
        } else {
            s
        };
        if !ends_with(ended, "\n\n"@) {
            let r = ended + "\n"@;
            assert(ended.last() == '\n') by {
                if ends_with(s, "\n"@) {
                    assert(s.subrange(s.len() - 1, s.len() as int)[0] == '\n');
                }
            }
            assert(r.subrange(r.len() - 2, r.len() as int) =~= "\n\n"@);
        }
    }
}

/// The blocks of a document that stand in the wrong file.
pub open spec fn stray_blocks(doc: DocumentState, kind: Seq<char>, file: Seq<char>) -> Seq<
    (Range, Seq<char>),
> {
    match doc.body {
        Some(b) => if opt_view(doc.uri.file_name) == Some(file) {
            Seq::empty()
        } else {
            movable_blocks(b, rope_text(doc.rope), kind)
        },
        None => Seq::empty(),
    }
}

pub open spec fn removal(x: (Range, Seq<char>)) -> EditV {
    EditV { range: x.0, new_text: ""@ }
}

pub open spec fn removals(v: Seq<(Range, Seq<char>)>) -> Seq<EditV> {
    Seq::new(v.len(), |i: int| removal(v[i]))
}

pub open spec fn sources(v: Seq<(Range, Seq<char>)>) -> Seq<Seq<char>> {
    Seq::new(v.len(), |i: int| v[i].1)
}

pub open spec fn stray_sources(kind: Seq<char>, file: Seq<char>) -> spec_fn(DocumentState) -> Seq<
    Seq<char>,
> {
    |d: DocumentState| sources(stray_blocks(d, kind, file))
}

/// The removals of the first `n` documents.
pub open spec fn removals_upto(
    within: Seq<DocumentState>,
    kind: Seq<char>,
    file: Seq<char>,
    n: int,
) -> EditMapV
    decreases n,
{
    if n <= 0 {
        EditMapV::empty()
    } else {
        let m = removals_upto(within, kind, file, n - 1);
        let v = stray_blocks(within[n - 1], kind, file);
        if v.len() == 0 {
            m
        } else {
            with_edits(m, within[n - 1].uri.text@, removals(v))
        }
    }
}

/// The removals, then the text in the target file.
pub open spec fn move_ops(
    deletions: EditMapV,
    strategy: TargetFileStrategy,
    dir: Seq<char>,
    file: Seq<char>,
    text: Seq<char>,
) -> Seq<DocumentOpV> {
    rewrite_ops(deletions) + append_ops(strategy, dir, file, text)
}

/// The removals, then the text in the target file.
pub fn build_move_blocks_workspace_edit(
    deletions: EditMap,
    strategy: TargetFileStrategy,
    dir: &str,
    file: &str,
    combined_text: &str,
) -> (r: WorkspaceEdit)
    ensures
        r@ == WorkspaceEditV::Operations(
            move_ops(deletions@, strategy, dir@, file@, combined_text@),
        ),
{
    let mut ops: Vec<DocumentOp> = Vec::new();
    assert(ops_view(ops@) =~= Seq::<DocumentOpV>::empty());
    push_rewrite_ops(&mut ops, deletions);
    push_append_ops(&mut ops, strategy, dir, file, combined_text);
    assert(ops_view(ops@) =~= move_ops(deletions@, strategy, dir@, file@, combined_text@));
    WorkspaceEdit::Operations(ops)
}

/// The wording of a move.
#[derive(Clone, Copy)]
pub struct MoveWords {
    pub kind: &'static str,
    pub file: &'static str,
    pub template: &'static str,
    pub item: &'static str,
    pub note: &'static str,
    pub id: &'static str,
}

/// The action that moves the stray blocks of a module to their file.
pub open spec fn move_action(state: StateStore, primary: DocUri, w: MoveWords) -> Option<
    CodeActionV,
> {
    let within = scope_docs(state.documents@, primary, Scope::Module);
    let srcs = flat_map(within, stray_sources(w.kind@, w.file@));
    match opt_view(primary.dir) {
        Some(dir) => if srcs.len() == 0 {
            None
        } else {
            Some(
                CodeActionV {
                    title: title_of(w.template@, w.item@, Scope::Module, srcs.len()) + w.note@,
                    kind: kind_of(Scope::Module, w.id@),
                    diagnostics: None,
                    edit: WorkspaceEditV::Operations(
                        move_ops(
                            removals_upto(within, w.kind@, w.file@, within.len() as int),
                            target_strategy(state, dir, w.file@),
                            dir,
                            w.file@,
                            combined(srcs),
                        ),
                    ),
                    is_preferred: None,
                },
            )
        },
        None => None,
    }
}

fn list_stray_blocks(doc: &DocumentState, kind: &str, file: &str) -> (r: Vec<(Range, String)>)
    ensures
        movable_view(r@) == stray_blocks(*doc, kind@, file@),
{
    let home = match &doc.uri.file_name {
        Some(f) => str_eq(f.as_str(), file),
        None => false,
    };
    if let Some(body) = &doc.body {
        if !home {
            return scan_blocks_of_kind(body, &doc.rope, kind);
        }
    }
    let out: Vec<(Range, String)> = Vec::new();
    assert(movable_view(out@) =~= stray_blocks(*doc, kind@, file@));
    out
}

fn emit_move(
    state: &StateStore,
    primary_uri: &DocUri,
    w: MoveWords,
    actions: &mut Vec<CodeAction>,
)
    ensures
        actions_view(final(actions)@) == actions_view(old(actions)@) + one_or_none(
            move_action(*state, *primary_uri, w),
        ),
{
    let ghost start = actions_view(actions@);
    let docs = for_each_doc_in_scope(state, primary_uri, Scope::Module);
    let ghost within = scope_docs(state.documents@, *primary_uri, Scope::Module);
    let ghost f = stray_sources(w.kind@, w.file@);
    let mut deletions = EditMap::new();
    let mut srcs: Vec<String> = Vec::new();
    proof {
        lemma_take_full(within);
    }
    assert(texts(srcs@) =~= flat_map(within.take(0), f));
    for i in 0..docs.len()
        invariant
            doc_pointees(docs@) == within,
            f == stray_sources(w.kind@, w.file@),
            deletions@ == removals_upto(within, w.kind@, w.file@, i as int),
            texts(srcs@) == flat_map(within.take(i as int), f),
    {
        proof {
            lemma_flat_map_step(within, f, i as int);
            assert(within[i as int] == *docs@[i as int]);
        }
        let v = list_stray_blocks(docs[i], w.kind, w.file);
        let ghost mv = movable_view(v@);
        assert(mv.len() == v@.len());
        let mut edits: Vec<TextEdit> = Vec::new();
        let ghost before = texts(srcs@);
        assert(texts(srcs@) =~= before + sources(mv).take(0));
        assert(edits_view(edits@) =~= removals(mv).take(0));
        for j in 0..v.len()
            invariant
                mv == movable_view(v@),
                edits_view(edits@) == removals(mv).take(j as int),
                texts(srcs@) == before + sources(mv).take(j as int),
        {
            let ghost e0 = edits_view(edits@);
            let ghost s0 = texts(srcs@);
            edits.push(TextEdit { range: v[j].0, new_text: "".to_owned() });
            srcs.push(v[j].1.clone());
            assert(edits_view(edits@) =~= e0.push(removal(mv[j as int])));
            assert(texts(srcs@) =~= s0.push(mv[j as int].1));
            assert(removals(mv).take(j + 1) =~= removals(mv).take(j as int).push(
                removal(mv[j as int]),
            ));
            assert(sources(mv).take(j + 1) =~= sources(mv).take(j as int).push(mv[j as int].1));
            assert(texts(srcs@) =~= before + sources(mv).take(j + 1));
        }
        assert(removals(mv).take(mv.len() as int) =~= removals(mv));
        assert(sources(mv).take(mv.len() as int) =~= sources(mv));
        if v.len() > 0 {
            deletions.add(docs[i].uri.text.as_str(), edits);
        }
    }
    assert(texts(srcs@).len() == srcs@.len());
    if let Some(dir) = &primary_uri.dir {
        if srcs.len() > 0 {
            let strategy = resolve_target_strategy(state, dir.as_str(), w.file);
            let text = combine_block_sources(&srcs);
            let mut title = scope_title(w.template, w.item, Scope::Module, srcs.len());
            title.append(w.note);
            let a = CodeAction {
                title,
                kind: scope_kind(Scope::Module, w.id),
                diagnostics: None,
                edit: build_move_blocks_workspace_edit(
                    deletions,
                    strategy,
                    dir.as_str(),
                    w.file,
                    text.as_str(),
                ),
                is_preferred: None,
            };
            actions.push(a);
            assert(actions_view(actions@) =~= start.push(a@));
        }
    }
    assert(actions_view(actions@) =~= start + one_or_none(move_action(*state, *primary_uri, w)));
}

pub open spec fn output_words() -> MoveWords {
    MoveWords {
        kind: "output",
        file: "outputs.tf",
        template: "Move output blocks",
        item: "output block",
        note: " (to `outputs.tf`)",
        id: "move-outputs-to-outputs-tf",
    }
}

pub open spec fn variable_words() -> MoveWords {
    MoveWords {
        kind: "variable",
        file: "variables.tf",
        template: "Move variable blocks",
        item: "variable block",
        note: " (to `variables.tf`)",
        id: "move-variables-to-variables-tf",
    }
}

/// Offer to move the outputs of a module to its `outputs.tf`.
pub fn emit_move_outputs_actions(
    state: &StateStore,
    primary_uri: &DocUri,
    actions: &mut Vec<CodeAction>,
)
    ensures
        actions_view(final(actions)@) == actions_view(old(actions)@) + one_or_none(
            move_action(*state, *primary_uri, output_words()),
        ),
{
    emit_move(
        state,
        primary_uri,
        MoveWords {
            kind: "output",
            file: "outputs.tf",
            template: "Move output blocks",
            item: "output block",
            note: " (to `outputs.tf`)",
            id: "move-outputs-to-outputs-tf",
        },
        actions,
    )
}

/// Offer to move the variables of a module to its `variables.tf`.
pub fn emit_move_variables_actions(
    state: &StateStore,
    primary_uri: &DocUri,
    actions: &mut Vec<CodeAction>,
)
    ensures
        actions_view(final(actions)@) == actions_view(old(actions)@) + one_or_none(
            move_action(*state, *primary_uri, variable_words()),
        ),
{
    emit_move(
        state,
        primary_uri,
        MoveWords {
            kind: "variable",
            file: "variables.tf",
            template: "Move variable blocks",
            item: "variable block",
            note: " (to `variables.tf`)",
            id: "move-variables-to-variables-tf",
        },
        actions,
    )
}

} // verus!
