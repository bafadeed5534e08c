//! Where blocks that move to another file go.

use crate::actions::{
    ops_view, range_at, DocumentOp, DocumentOpV, FileEdits, FileEditsV, FileRef, FileRefV,
};
use crate::position::{
    byte_offset_to_lsp_position, edits_view, offset_position, rope_from_str, rope_len_bytes,
    rope_text, rope_to_string, utf8_len, EditV, Position, Range, TextEdit,
};
use crate::seqs::position_from;
use crate::state::{in_dir, is_in_dir, DiskFile, DocumentState, StateStore};
use crate::text::{chars_of, opt_view, str_eq};
use ropey::Rope;
use vstd::prelude::*;

verus! {

/// How the file that blocks are appended to is reached.
#[derive(Debug, Clone, Copy, PartialEq, Eq, Structural)]
pub enum TargetFileStrategy {
    /// It is an indexed document.
    Loaded { eof: Position, needs_leading_newline: bool },
    /// It is on disk only.
    OnDisk { eof: Position, needs_leading_newline: bool },
    /// There is no such file.
    Create,
}

/// The position past the last character.
pub open spec fn end_position(t: Seq<char>) -> Position {
    match offset_position(t, utf8_len(t) as int) {
        Some(p) => p,
        None => Position { line: 0, character: 0 },
    }
}

/// The text does not end its last line.
pub open spec fn lacks_newline(t: Seq<char>) -> bool {
    t.len() > 0 && t.last() != '\n'
}

pub open spec fn is_named(dir: Seq<char>, name: Seq<char>) -> spec_fn(DocumentState) -> bool {
    |d: DocumentState| in_dir(d, dir) && opt_view(d.uri.file_name) == Some(name)
}

pub open spec fn disk_named(dir: Seq<char>, name: Seq<char>) -> spec_fn(DiskFile) -> bool {
    |d: DiskFile| d.dir@ == dir && d.file_name@ == name
}

/// How the file `name` of directory `dir` is reached.
pub open spec fn target_strategy(state: StateStore, dir: Seq<char>, name: Seq<char>) -> TargetFileStrategy {
    match position_from(state.documents@, is_named(dir, name), 0) {
        Some(i) => {
            let t = rope_text(state.documents@[i].rope);
            TargetFileStrategy::Loaded {
                eof: end_position(t),
                needs_leading_newline: lacks_newline(t),
            }
        },
        None => match position_from(state.disk@, disk_named(dir, name), 0) {
            Some(i) => {
                let t = state.disk@[i].content@;
                TargetFileStrategy::OnDisk {
                    eof: end_position(t),
                    needs_leading_newline: lacks_newline(t),
                }
            },
            None => TargetFileStrategy::Create,
        },
    }
}

/// The end of a document and whether its last line is open.
pub fn rope_end(rope: &Rope) -> (r: (Position, bool))
    ensures
        r == (end_position(rope_text(*rope)), lacks_newline(rope_text(*rope))),
{
    let eof = match byte_offset_to_lsp_position(rope, rope_len_bytes(rope)) {
        Some(p) => p,
        None => Position { line: 0, character: 0 },
    };
    let c = chars_of(rope_to_string(rope).as_str());
    let n: usize = c.len();
    (eof, n > 0 && c[n - 1] != '\n')
}

/// How the file `name` of directory `dir` is reached.
pub fn resolve_target_strategy(state: &StateStore, dir: &str, name: &str) -> (r: TargetFileStrategy)
    ensures
        r == target_strategy(*state, dir@, name@),
{
    let ghost p = is_named(dir@, name@);
    for i in 0..state.documents.len()
        invariant
            p == is_named(dir@, name@),
            position_from(state.documents@, p, 0) == position_from(state.documents@, p, i as int),
    {
        let named = match &state.documents[i].uri.file_name {
            Some(f) => str_eq(f.as_str(), name),
            None => false,
        };
        if named && is_in_dir(&state.documents[i], dir) {
            let (eof, needs_leading_newline) = rope_end(&state.documents[i].rope);
            return TargetFileStrategy::Loaded { eof, needs_leading_newline };
        }
    }
    let ghost q = disk_named(dir@, name@);
    for i in 0..state.disk.len()
        invariant
            p == is_named(dir@, name@),
            position_from(state.documents@, p, 0) is None,
            q == disk_named(dir@, name@),
            position_from(state.disk@, q, 0) == position_from(state.disk@, q, i as int),
    {
        if str_eq(state.disk[i].dir.as_str(), dir) && str_eq(
            state.disk[i].file_name.as_str(),
            name,
        ) {
            let rope = rope_from_str(state.disk[i].content.as_str());
            let (eof, needs_leading_newline) = rope_end(&rope);
            return TargetFileStrategy::OnDisk { eof, needs_leading_newline };
        }
    }
    TargetFileStrategy::Create
}

/// The steps that append `text` to the file `name` of directory `dir`: an
/// existing file gets it after its last line and a blank one, a missing file
/// is created with it.
pub open spec fn append_ops(
    strategy: TargetFileStrategy,
    dir: Seq<char>,
    name: Seq<char>,
    text: Seq<char>,
) -> Seq<DocumentOpV> {
    let file = FileRefV::InDir { dir, file_name: name };
    match strategy {
        TargetFileStrategy::Loaded { eof, needs_leading_newline }
        | TargetFileStrategy::OnDisk { eof, needs_leading_newline } => seq![
            DocumentOpV::Edit(
                FileEditsV {
                    file,
                    edits: seq![
                        EditV {
                            range: Range { start: eof, end: eof },
                            new_text: if needs_leading_newline {
                                "\n\n"@ + text
                            } else {
                                "\n"@ + text
                            },
                        },
                    ],
                },
            ),
        ],
        TargetFileStrategy::Create => seq![
            DocumentOpV::Create(file),
            DocumentOpV::Edit(
                FileEditsV {
                    file,
                    edits: seq![
                        EditV {
                            range: Range {
                                start: Position { line: 0, character: 0 },
                                end: Position { line: 0, character: 0 },
                            },
                            new_text: text,
                        },
                    ],
                },
            ),
        ],
    }
}

fn one_edit(dir: &str, name: &str, at: Position, text: String) -> (r: DocumentOp)
    ensures
        r@ == DocumentOpV::Edit(
            FileEditsV {
                file: FileRefV::InDir { dir: dir@, file_name: name@ },
                edits: seq![EditV { range: Range { start: at, end: at }, new_text: text@ }],
            },
        ),
{
    let edits = vec![TextEdit { range: range_at(at), new_text: text }];
    assert(edits_view(edits@) =~= seq![EditV { range: Range { start: at, end: at }, new_text: text@ }]);
    DocumentOp::Edit(
        FileEdits {
            file: FileRef::InDir { dir: dir.to_owned(), file_name: name.to_owned() },
            edits,
        },
    )
}

/// Append the steps for one target file.
pub fn push_append_ops(
    ops: &mut Vec<DocumentOp>,
    strategy: TargetFileStrategy,
    dir: &str,
    name: &str,
    text: &str,
)
    ensures
        ops_view(final(ops)@) == ops_view(old(ops)@) + append_ops(strategy, dir@, name@, text@),
{
    match strategy {
        TargetFileStrategy::Loaded { eof, needs_leading_newline }
        | TargetFileStrategy::OnDisk { eof, needs_leading_newline } => {
            let mut t = (if needs_leading_newline { "\n\n" } else { "\n" }).to_owned();
            t.append(text);
            ops.push(one_edit(dir, name, eof, t));
        },
        TargetFileStrategy::Create => {
            ops.push(
                DocumentOp::Create(
                    FileRef::InDir { dir: dir.to_owned(), file_name: name.to_owned() },
                ),
            );
            ops.push(one_edit(dir, name, Position { line: 0, character: 0 }, text.to_owned()));
        },
    }
    assert(ops_view(ops@) =~= ops_view(old(ops)@) + append_ops(strategy, dir@, name@, text@));
}

} // verus!
