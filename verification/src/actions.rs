//! Code actions and the workspace edits they carry.

use crate::position::{edits_view, EditV, Position, Range, TextEdit};
use crate::text::{concat2, concat3, ends_with, opt_view, str_ends_with, str_eq};
use vstd::prelude::*;

verus! {

#[derive(Debug, Clone, Copy, PartialEq, Eq, Structural)]
pub enum DiagnosticSeverity {
    Error,
    Warning,
    Information,
    Hint,
}

#[derive(Debug)]
pub struct Diagnostic {
    pub range: Range,
    pub severity: Option<DiagnosticSeverity>,
    pub source: Option<String>,
    pub message: String,
}

pub struct DiagnosticV {
    pub range: Range,
    pub severity: Option<DiagnosticSeverity>,
    pub source: Option<Seq<char>>,
    pub message: Seq<char>,
}

impl View for Diagnostic {
    type V = DiagnosticV;

    open spec fn view(&self) -> DiagnosticV {
        DiagnosticV {
            range: self.range,
            severity: self.severity,
            source: opt_view(self.source),
            message: self.message@,
        }
    }
}

pub open spec fn diagnostics_view(v: Seq<Diagnostic>) -> Seq<DiagnosticV> {
    Seq::new(v.len(), |i: int| v[i]@)
}

/// The text of an optional string, copied.
pub fn copy_opt(s: &Option<String>) -> (r: Option<String>)
    ensures
        opt_view(r) == opt_view(*s),
{
    match s {
        Some(s) => Some(s.clone()),
        None => None,
    }
}

impl Diagnostic {
    pub fn duplicate(&self) -> (r: Diagnostic)
        ensures
            r@ == self@,
    {
        Diagnostic {
            range: self.range,
            severity: self.severity,
            source: copy_opt(&self.source),
            message: self.message.clone(),
        }
    }
}

/// A file that an edit touches: one that is known by its URI, or the file of
/// a given name in a directory.
#[derive(Debug)]
pub enum FileRef {
    Uri(String),
    InDir { dir: String, file_name: String },
}

pub enum FileRefV {
    Uri(Seq<char>),
    InDir { dir: Seq<char>, file_name: Seq<char> },
}

impl View for FileRef {
    type V = FileRefV;

    open spec fn view(&self) -> FileRefV {
        match self {
            FileRef::Uri(u) => FileRefV::Uri(u@),
            FileRef::InDir { dir, file_name } => FileRefV::InDir {
                dir: dir@,
                file_name: file_name@,
            },
        }
    }
}

/// The address of a file by its path; `windows` says whose rules for paths hold.
pub uninterp spec fn file_url_of(windows: bool, path: Seq<char>) -> Option<Seq<char>>;

/// `url::Url::from_file_path` and the text of what it gives. They depend on the
/// path and on whether it is one of Windows, and on nothing else; which of the
/// two it is here is not said.
#[verifier::external_body]
fn file_url(path: &str) -> (r: Option<String>)
    ensures
        exists|windows: bool| opt_view(r) == #[trigger] file_url_of(windows, path@),
{
    url::Url::from_file_path(path).ok().map(String::from)
}

/// The path of a file in a directory.
pub open spec fn path_in(dir: Seq<char>, name: Seq<char>) -> Seq<char> {
    if ends_with(dir, "/"@) {
        dir + name
    } else {
        dir + "/"@ + name
    }
}

/// The address of a file, as a machine of that kind writes it.
pub open spec fn address_of(windows: bool, f: FileRefV) -> Option<Seq<char>> {
    match f {
        FileRefV::Uri(u) => Some(u),
        FileRefV::InDir { dir, file_name } => file_url_of(windows, path_in(dir, file_name)),
    }
}

/// The address of a file; `None` where its path has none.
pub fn file_address(f: &FileRef) -> (r: Option<String>)
    ensures
        exists|windows: bool| opt_view(r) == #[trigger] address_of(windows, f@),
{
    match f {
        FileRef::Uri(u) => {
            let r = Some(u.clone());
            assert(opt_view(r) == address_of(false, f@));
            r
        },
        FileRef::InDir { dir, file_name } => {
            let path = if str_ends_with(dir.as_str(), "/") {
                concat2(dir.as_str(), file_name.as_str())
            } else {
                concat3(dir.as_str(), "/", file_name.as_str())
            };
            let r = file_url(path.as_str());
            proof {
                let windows = choose|windows: bool|
                    opt_view(r) == #[trigger] file_url_of(windows, path@);
                assert(opt_view(r) == address_of(windows, f@));
            }
            r
        },
    }
}

/// The edits to one file.
#[derive(Debug)]
pub struct FileEdits {
    pub file: FileRef,
    pub edits: Vec<TextEdit>,
}

pub struct FileEditsV {
    pub file: FileRefV,
    pub edits: Seq<EditV>,
}

impl View for FileEdits {
    type V = FileEditsV;

    open spec fn view(&self) -> FileEditsV {
        FileEditsV { file: self.file@, edits: edits_view(self.edits@) }
    }
}

/// One step of a workspace edit.
#[derive(Debug)]
pub enum DocumentOp {
    /// Create the file unless it exists.
    Create(FileRef),
    Edit(FileEdits),
}

pub enum DocumentOpV {
    Create(FileRefV),
    Edit(FileEditsV),
}

impl View for DocumentOp {
    type V = DocumentOpV;

    open spec fn view(&self) -> DocumentOpV {
        match self {
            DocumentOp::Create(f) => DocumentOpV::Create(f@),
            DocumentOp::Edit(e) => DocumentOpV::Edit(e@),
        }
    }
}

pub open spec fn ops_view(v: Seq<DocumentOp>) -> Seq<DocumentOpV> {
    Seq::new(v.len(), |i: int| v[i]@)
}

/// The edits of each document, no document twice.
#[derive(Debug)]
pub struct EditMap {
    pub entries: Vec<(String, Vec<TextEdit>)>,
}

/// The model of an [`EditMap`].
pub type EditMapV = Seq<(Seq<char>, Seq<EditV>)>;

impl View for EditMap {
    type V = EditMapV;

    open spec fn view(&self) -> EditMapV {
        Seq::new(
            self.entries@.len(),
            |i: int| (self.entries@[i].0@, edits_view(self.entries@[i].1@)),
        )
    }
}

/// The index of the entry for `uri`, from `from` on.
pub open spec fn entry_index(m: EditMapV, uri: Seq<char>, from: int) -> Option<int>
    decreases m.len() - from,
{
    if from >= m.len() {
        None
    } else if m[from].0 == uri {
        Some(from)
    } else {
        entry_index(m, uri, from + 1)
    }
}

/// `m` with `edits` appended to the entry for `uri`, a new entry where there
/// is none.
pub open spec fn with_edits(m: EditMapV, uri: Seq<char>, edits: Seq<EditV>) -> EditMapV {
    match entry_index(m, uri, 0) {
        Some(i) => m.update(i, (m[i].0, m[i].1 + edits)),
        None => m.push((uri, edits)),
    }
}

/// No document has two entries.
pub open spec fn distinct_uris(m: EditMapV) -> bool {
    forall|i: int, j: int|
        #![trigger m[i], m[j]]
        0 <= i < j < m.len() ==> m[i].0 != m[j].0
}

proof fn lemma_entry_index(m: EditMapV, uri: Seq<char>, from: int)
    requires
        0 <= from,
    ensures
        match entry_index(m, uri, from) {
            Some(i) => from <= i < m.len() && m[i].0 == uri,
            None => forall|i: int| from <= i < m.len() ==> (#[trigger] m[i]).0 != uri,
        },
    decreases m.len() - from,
{
    if from < m.len() && m[from].0 != uri {
        lemma_entry_index(m, uri, from + 1);
    }
}

/// Adding edits keeps one entry per document.
pub proof fn with_edits_keeps_distinct(m: EditMapV, uri: Seq<char>, edits: Seq<EditV>)
    requires
        distinct_uris(m),
    ensures
        distinct_uris(with_edits(m, uri, edits)),
{
    lemma_entry_index(m, uri, 0);
}

impl EditMap {
    pub fn new() -> (r: EditMap)
        ensures
            r@ == EditMapV::empty(),
    {
        let r = EditMap { entries: Vec::new() };
        assert(r@ =~= EditMapV::empty());
        r
    }

    /// Append edits to a document's entry.
    pub fn add(&mut self, uri: &str, edits: Vec<TextEdit>)
        ensures
            final(self)@ == with_edits(old(self)@, uri@, edits_view(edits@)),
    {
        let ghost added = edits_view(edits@);
        let mut rest = edits;
        let ghost m = self@;
        let n: usize = self.entries.len();
        let mut i: usize = 0;
        while i < n
            invariant
                i <= n,
                n == self.entries@.len(),
                self@ == m,
                entry_index(m, uri@, 0) == entry_index(m, uri@, i as int),
                m == old(self)@,
                edits_view(rest@) == added,
                added == edits_view(edits@),
            decreases n - i,
        {
            assert(m[i as int].0 == self.entries@[i as int].0@);
            if str_eq(self.entries[i].0.as_str(), uri) {
                let ghost before = self.entries@[i as int].1@;
                self.entries[i].1.append(&mut rest);
                assert(edits_view(self.entries@[i as int].1@) =~= edits_view(before) + added);
                assert(self@ =~= m.update(i as int, (m[i as int].0, m[i as int].1 + added)));
                return;
            }
            i += 1;
        }
        self.entries.push((uri.to_owned(), rest));
        assert(self@ =~= m.push((uri@, added)));
    }

    pub fn is_empty(&self) -> (r: bool)
        ensures
            r == (self@.len() == 0),
    {
        self.entries.len() == 0
    }
}

/// The edits of a code action: per document, or as a list of steps.
#[derive(Debug)]
pub enum WorkspaceEdit {
    Changes(EditMap),
    /// Changes to one file that need not be an indexed document.
    FileChanges(FileEdits),
    Operations(Vec<DocumentOp>),
}

pub enum WorkspaceEditV {
    Changes(EditMapV),
    FileChanges(FileEditsV),
    Operations(Seq<DocumentOpV>),
}

impl View for WorkspaceEdit {
    type V = WorkspaceEditV;

    open spec fn view(&self) -> WorkspaceEditV {
        match self {
            WorkspaceEdit::Changes(m) => WorkspaceEditV::Changes(m@),
            WorkspaceEdit::FileChanges(f) => WorkspaceEditV::FileChanges(f@),
            WorkspaceEdit::Operations(v) => WorkspaceEditV::Operations(ops_view(v@)),
        }
    }
}

#[derive(Debug)]
pub struct CodeAction {
    pub title: String,
    pub kind: String,
    pub diagnostics: Option<Vec<Diagnostic>>,
    pub edit: WorkspaceEdit,
    pub is_preferred: Option<bool>,
}

pub struct CodeActionV {
    pub title: Seq<char>,
    pub kind: Seq<char>,
    pub diagnostics: Option<Seq<DiagnosticV>>,
    pub edit: WorkspaceEditV,
    pub is_preferred: Option<bool>,
}

pub open spec fn opt_diagnostics(d: Option<Vec<Diagnostic>>) -> Option<Seq<DiagnosticV>> {
    match d {
        Some(v) => Some(diagnostics_view(v@)),
        None => None,
    }
}

impl View for CodeAction {
    type V = CodeActionV;

    open spec fn view(&self) -> CodeActionV {
        CodeActionV {
            title: self.title@,
            kind: self.kind@,
            diagnostics: opt_diagnostics(self.diagnostics),
            edit: self.edit@,
            is_preferred: self.is_preferred,
        }
    }
}

pub open spec fn actions_view(v: Seq<CodeAction>) -> Seq<CodeActionV> {
    Seq::new(v.len(), |i: int| v[i]@)
}

/// An empty range at `p`.
pub fn range_at(p: Position) -> (r: Range)
    ensures
        r == (Range { start: p, end: p }),
{
    Range { start: p, end: p }
}

} // verus!
