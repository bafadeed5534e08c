//! Where the edits of a code action fall.
//!
//! Most actions can be offered for one occurrence, for a selection, for a
//! file, for a module (a directory) or for the whole workspace. This module
//! holds what they share: which documents a scope covers, how the action is
//! titled, and the kind it is published under.

use crate::actions::{
    opt_diagnostics, CodeAction, CodeActionV, Diagnostic, DiagnosticV, EditMap, EditMapV,
    WorkspaceEdit, WorkspaceEditV,
};
use crate::position::{edits_view, Position, Range};
use crate::seqs::{keep, lemma_keep_step, lemma_take_full};
use crate::state::{same_dir, DocUri, DocumentState, StateStore};
use crate::text::{
    char_is_whitespace, chars_of, contains_text, decimal, is_whitespace, opt_view, str_contains,
    string_sub, trim_start, u64_text,
};
use vstd::prelude::*;

verus! {

#[derive(Debug, Clone, Copy, PartialEq, Eq, Structural)]
pub enum Scope {
    /// The single thing under the cursor, or of one diagnostic.
    Instance,
    /// The highlighted range.
    Selection { range: Range },
    /// The active document.
    File,
    /// Every document in the active document's directory.
    Module,
    /// Every indexed document outside `.terraform`.
    Workspace,
}

pub open spec fn scope_label(scope: Scope) -> Seq<char> {
    match scope {
        Scope::Instance => "instance"@,
        Scope::Selection { .. } => "selection"@,
        Scope::File => "this file"@,
        Scope::Module => "this module"@,
        Scope::Workspace => "workspace"@,
    }
}

impl Scope {
    pub fn human_label(self) -> (r: &'static str)
        ensures
            r@ == scope_label(self),
    {
        match self {
            Scope::Instance => "instance",
            Scope::Selection { .. } => "selection",
            Scope::File => "this file",
            Scope::Module => "this module",
            Scope::Workspace => "workspace",
        }
    }
}

// ---------------------------------------------------------------------
// Documents in scope

/// The document falls within `scope`, seen from `primary`.
pub open spec fn doc_in_scope(doc: DocumentState, primary: DocUri, scope: Scope) -> bool {
    match scope {
        Scope::Instance | Scope::Selection { .. } | Scope::File => doc.uri.text@ == primary.text@,
        Scope::Module => primary.dir is Some && opt_view(doc.uri.dir) == opt_view(primary.dir),
        Scope::Workspace => !contains_text(doc.uri.path@, "/.terraform/"@),
    }
}

pub open spec fn in_scope_of(primary: DocUri, scope: Scope) -> spec_fn(DocumentState) -> bool {
    |doc: DocumentState| doc_in_scope(doc, primary, scope)
}

/// The documents within `scope`, in the order of the store.
pub open spec fn scope_docs(docs: Seq<DocumentState>, primary: DocUri, scope: Scope) -> Seq<
    DocumentState,
> {
    keep(docs, in_scope_of(primary, scope))
}

/// The values that a sequence of references points at.
pub open spec fn doc_pointees(v: Seq<&DocumentState>) -> Seq<DocumentState> {
    Seq::new(v.len(), |i: int| *v[i])
}

pub fn is_doc_in_scope(doc: &DocumentState, primary: &DocUri, scope: Scope) -> (r: bool)
    ensures
        r == doc_in_scope(*doc, *primary, scope),
{
    match scope {
        Scope::Instance | Scope::Selection { .. } | Scope::File => doc.uri.text == primary.text,
        Scope::Module => primary.dir.is_some() && same_dir(&doc.uri.dir, &primary.dir),
        Scope::Workspace => !str_contains(doc.uri.path.as_str(), "/.terraform/"),
    }
}

/// The documents that fall within `scope`.
pub fn for_each_doc_in_scope<'a>(
    state: &'a StateStore,
    primary_uri: &DocUri,
    scope: Scope,
) -> (r: Vec<&'a DocumentState>)
    ensures
        doc_pointees(r@) == scope_docs(state.documents@, *primary_uri, scope),
{
    let mut out: Vec<&'a DocumentState> = Vec::new();
    let ghost p = in_scope_of(*primary_uri, scope);
    proof {
        lemma_take_full(state.documents@);
    }
    assert(doc_pointees(out@) =~= keep(state.documents@.take(0), p));
    for i in 0..state.documents.len()
        invariant
            p == in_scope_of(*primary_uri, scope),
            doc_pointees(out@) == keep(state.documents@.take(i as int), p),
    {
        proof {
            lemma_keep_step(state.documents@, p, i as int);
        }
        let ghost before = doc_pointees(out@);
        if is_doc_in_scope(&state.documents[i], primary_uri, scope) {
            out.push(&state.documents[i]);
            assert(doc_pointees(out@) =~= before.push(state.documents@[i as int]));
        }
    }
    out
}

/// Every document of a narrower scope is one of the next wider: the active
/// file is in its module where it has a directory.
pub proof fn file_scope_within_module(doc: DocumentState, primary: DocUri)
    requires
        doc.uri == primary,
        primary.dir is Some,
    ensures
        doc_in_scope(doc, primary, Scope::File) && doc_in_scope(doc, primary, Scope::Module),
{
}

// ---------------------------------------------------------------------
// Titles and kinds

/// The length of the first run of non-whitespace.
pub open spec fn word_len(s: Seq<char>) -> nat
    decreases s.len(),
{
    if s.len() == 0 || char_is_whitespace(s[0]) {
        0
    } else {
        1 + word_len(s.skip(1))
    }
}

/// The first word of a text, or the text where it has none.
pub open spec fn first_word(s: Seq<char>) -> Seq<char> {
    let t = trim_start(s);
    if t.len() == 0 {
        s
    } else {
        t.take(word_len(t) as int)
    }
}

fn leading_word(s: &str) -> (r: String)
    ensures
        r@ == first_word(s@),
{
    let c = chars_of(s);
    let n: usize = c.len();
    let mut a: usize = 0;
    assert(s@.skip(0) =~= s@);
    while a < n && is_whitespace(c[a])
        invariant
            c@ == s@,
            n == c@.len(),
            a <= n,
            trim_start(s@) == trim_start(s@.skip(a as int)),
        ensures
            c@ == s@,
            n == c@.len(),
            a <= n,
            trim_start(s@) == s@.skip(a as int),
        decreases n - a,
    {
        assert(s@.skip(a as int).skip(1) =~= s@.skip(a + 1));
        a += 1;
    }
    if a == n {
        return s.to_owned();
    }
    let ghost t = s@.skip(a as int);
    let mut b: usize = a;
    assert(t.skip(0) =~= t);
    while b < n && !is_whitespace(c[b])
        invariant
            c@ == s@,
            n == c@.len(),
            a <= b <= n,
            t == s@.skip(a as int),
            word_len(t) == (b - a) + word_len(t.skip(b - a)),
        ensures
            c@ == s@,
            n == c@.len(),
            a <= b <= n,
            t == s@.skip(a as int),
            word_len(t) == b - a,
        decreases n - b,
    {
        assert(t.skip(b - a)[0] == s@[b as int]);
        assert(t.skip(b - a).skip(1) =~= t.skip(b + 1 - a));
        b += 1;
    }
    assert(t.take(b - a) =~= s@.subrange(a as int, b as int));
    string_sub(c.as_slice(), a, b)
}

pub open spec fn plural_suffix(count: nat) -> Seq<char> {
    if count == 1 {
        ""@
    } else {
        "s"@
    }
}

/// The title of an action for a scope: the template itself for one
/// occurrence, else its verb with the number of items and the place.
pub open spec fn title_of(
    template: Seq<char>,
    item_label: Seq<char>,
    scope: Scope,
    count: nat,
) -> Seq<char> {
    if scope is Instance {
        template
    } else {
        first_word(template) + " "@ + decimal(count) + " "@ + item_label + plural_suffix(count)
            + " in "@ + scope_label(scope)
    }
}

pub fn scope_title(template: &str, item_label: &str, scope: Scope, count: usize) -> (r: String)
    ensures
        r@ == title_of(template@, item_label@, scope, count as nat),
{
    if let Scope::Instance = scope {
        return template.to_owned();
    }
    let mut out = leading_word(template);
    out.append(" ");
    out.append(u64_text(count as u64).as_str());
    out.append(" ");
    out.append(item_label);
    out.append(if count == 1 { "" } else { "s" });
    out.append(" in ");
    out.append(scope.human_label());
    out
}

/// The kind under which an action of family `id` is published for a scope.
pub open spec fn kind_of(scope: Scope, id: Seq<char>) -> Seq<char> {
    match scope {
        Scope::Instance => "quickfix"@,
        Scope::File => "source.fixAll.terraform-ls-rs."@ + id,
        Scope::Selection { .. } => "quickfix.terraform-ls-rs."@ + id + ".selection"@,
        Scope::Module => "source.fixAll.terraform-ls-rs."@ + id + ".module"@,
        Scope::Workspace => "source.fixAll.terraform-ls-rs."@ + id + ".workspace"@,
    }
}

pub fn scope_kind(scope: Scope, action_id: &str) -> (r: String)
    ensures
        r@ == kind_of(scope, action_id@),
{
    let (base, suffix) = match scope {
        Scope::Instance => {
            return "quickfix".to_owned();
        },
        Scope::File => {
            let mut out = "source.fixAll.terraform-ls-rs.".to_owned();
            out.append(action_id);
            return out;
        },
        Scope::Selection { .. } => ("quickfix.terraform-ls-rs.", ".selection"),
        Scope::Module => ("source.fixAll.terraform-ls-rs.", ".module"),
        Scope::Workspace => ("source.fixAll.terraform-ls-rs.", ".workspace"),
    };
    let mut out = base.to_owned();
    out.append(action_id);
    out.append(suffix);
    out
}

/// Two scopes of one family never share a kind, and neither do two families
/// in one scope (other than for single occurrences, which all are quick fixes).
pub proof fn kinds_do_not_collide(a: Scope, b: Scope, id: Seq<char>, other: Seq<char>)
    ensures
        !(a is Instance) && kind_of(a, id) == kind_of(a, other) ==> id == other,
        !(a is Instance) && !(b is Instance) && kind_of(a, id) == kind_of(b, id) ==> same_scope(
            a,
            b,
        ),
{
    reveal_strlit("quickfix");
    reveal_strlit("source.fixAll.terraform-ls-rs.");
    reveal_strlit("quickfix.terraform-ls-rs.");
    reveal_strlit(".selection");
    reveal_strlit(".module");
    reveal_strlit(".workspace");
    let fix = "source.fixAll.terraform-ls-rs."@;
    let quick = "quickfix.terraform-ls-rs."@;
    if !(a is Instance) {
        lemma_kind_len(a, id);
        lemma_kind_len(a, other);
    }
    if !(b is Instance) {
        lemma_kind_len(b, id);
    }
    if !(a is Instance) && kind_of(a, id) == kind_of(a, other) {
        let k = kind_of(a, id);
        let p = if a is Selection { quick } else { fix };
        assert(id.len() == other.len());
        assert forall|i: int| 0 <= i < id.len() implies id[i] == other[i] by {
            assert(kind_of(a, id)[p.len() + i] == id[i]);
            assert(kind_of(a, other)[p.len() + i] == other[i]);
        }
        assert(id =~= other);
    }
    if !(a is Instance) && !(b is Instance) && kind_of(a, id) == kind_of(b, id) {
        assert(kind_of(a, id)[0] == if a is Selection { 'q' } else { 's' });
        assert(kind_of(b, id)[0] == if b is Selection { 'q' } else { 's' });
    }
}

spec fn kind_frame(scope: Scope) -> nat {
    match scope {
        Scope::Instance => 0,
        Scope::File => 30,
        Scope::Selection { .. } => 35,
        Scope::Module => 37,
        Scope::Workspace => 40,
    }
}

proof fn lemma_kind_len(scope: Scope, id: Seq<char>)
    requires
        !(scope is Instance),
    ensures
        kind_of(scope, id).len() == kind_frame(scope) + id.len(),
{
    reveal_strlit("source.fixAll.terraform-ls-rs.");
    reveal_strlit("quickfix.terraform-ls-rs.");
    reveal_strlit(".selection");
    reveal_strlit(".module");
    reveal_strlit(".workspace");
}

pub open spec fn same_scope(a: Scope, b: Scope) -> bool {
    match a {
        Scope::Instance => b is Instance,
        Scope::Selection { .. } => b is Selection,
        Scope::File => b is File,
        Scope::Module => b is Module,
        Scope::Workspace => b is Workspace,
    }
}

// ---------------------------------------------------------------------
// Ranges

/// `a` stands strictly before `b`.
pub open spec fn before(a: Position, b: Position) -> bool {
    a.line < b.line || (a.line == b.line && a.character < b.character)
}

/// The ranges share at least one position, their ends included.
pub open spec fn intersects(a: Range, b: Range) -> bool {
    !(before(a.end, b.start) || before(b.end, a.start))
}

/// True when two ranges share at least one position.
pub fn range_intersects(a: &Range, b: &Range) -> (r: bool)
    ensures
        r == intersects(*a, *b),
{
    let a_first = a.end.line < b.start.line || (a.end.line == b.start.line && a.end.character
        < b.start.character);
    let b_first = b.end.line < a.start.line || (b.end.line == a.start.line && b.end.character
        < a.start.character);
    !(a_first || b_first)
}

/// True when the range is empty, as it is without a selection.
pub fn range_is_empty(range: &Range) -> (r: bool)
    ensures
        r == (range.start == range.end),
{
    range.start == range.end
}

/// Intersection is symmetric, and for ordered ranges it is to have a position
/// in common.
pub proof fn intersects_iff_common_position(a: Range, b: Range)
    requires
        a.start.le_spec(a.end),
        b.start.le_spec(b.end),
    ensures
        intersects(a, b) == intersects(b, a),
        intersects(a, b) <==> exists|p: Position|
            #![trigger crate::position::range_contains(a, p)]
            crate::position::range_contains(a, p) && crate::position::range_contains(b, p),
{
    if intersects(a, b) {
        if a.start.le_spec(b.start) {
            assert(crate::position::range_contains(a, b.start));
            assert(crate::position::range_contains(b, b.start));
        } else {
            assert(crate::position::range_contains(a, a.start));
            assert(crate::position::range_contains(b, a.start));
        }
    }
}

// ---------------------------------------------------------------------
// Actions

/// The entries that hold an edit.
pub open spec fn has_edits() -> spec_fn((Seq<char>, Seq<crate::position::EditV>)) -> bool {
    |e: (Seq<char>, Seq<crate::position::EditV>)| e.1.len() > 0
}

/// The number of edits of all documents.
pub open spec fn edit_count(m: EditMapV) -> nat
    decreases m.len(),
{
    if m.len() == 0 {
        0
    } else {
        edit_count(m.drop_last()) + m.last().1.len()
    }
}

/// The action for a scope: none where no document has an edit.
pub open spec fn scoped_action(
    scope: Scope,
    edits: EditMapV,
    template: Seq<char>,
    item_label: Seq<char>,
    diagnostics: Option<Seq<DiagnosticV>>,
    id: Seq<char>,
) -> Option<CodeActionV> {
    let kept = keep(edits, has_edits());
    if kept.len() == 0 {
        None
    } else {
        Some(
            CodeActionV {
                title: title_of(template, item_label, scope, edit_count(kept)),
                kind: kind_of(scope, id),
                diagnostics,
                edit: WorkspaceEditV::Changes(kept),
                is_preferred: None,
            },
        )
    }
}

pub open spec fn opt_action(a: Option<CodeAction>) -> Option<CodeActionV> {
    match a {
        Some(a) => Some(a@),
        None => None,
    }
}

/// Assemble the action for a scope from the edits of each document. Documents
/// without an edit are left out; without any edit there is no action.
pub fn build_scoped_action(
    scope: Scope,
    edits_by_uri: EditMap,
    title_template: &str,
    item_label: &str,
    diagnostics: Option<Vec<Diagnostic>>,
    action_id: &str,
) -> (r: Option<CodeAction>)
    ensures
        opt_action(r) == scoped_action(
            scope,
            edits_by_uri@,
            title_template@,
            item_label@,
            opt_diagnostics(diagnostics),
            action_id@,
        ),
{
    let ghost all = edits_by_uri@;
    let ghost p = has_edits();
    let mut kept = EditMap { entries: Vec::new() };
    let mut entries = edits_by_uri.entries;
    proof {
        lemma_take_full(all);
    }
    assert(kept@ =~= keep(all.take(0), p));
    let n: usize = entries.len();
    let mut i: usize = 0;
    let ghost orig = entries@;
    while i < n
        invariant
            p == has_edits(),
            i <= n,
            n == all.len(),
            orig.len() == n,
            entries@ == orig.skip(i as int),
            forall|j: int|
                0 <= j < n ==> #[trigger] all[j] == (orig[j].0@, edits_view(orig[j].1@)),
            kept@ == keep(all.take(i as int), p),
        decreases n - i,
    {
        proof {
            lemma_keep_step(all, p, i as int);
            assert(orig.skip(i as int).remove(0) =~= orig.skip(i + 1));
        }
        let entry = entries.remove(0);
        if entry.1.len() > 0 {
            let ghost before = kept@;
            kept.entries.push(entry);
            assert(kept@ =~= before.push(all[i as int]));
        }
        i += 1;
    }
    if kept.entries.len() == 0 {
        return None;
    }
    let count = count_edits(&kept);
    Some(
        CodeAction {
            title: scope_title(title_template, item_label, scope, count),
            kind: scope_kind(scope, action_id),
            diagnostics,
            edit: WorkspaceEdit::Changes(kept),
            is_preferred: None,
        },
    )
}

/// The number of edits of all documents.
fn count_edits(m: &EditMap) -> (r: usize)
    ensures
        r == edit_count(m@),
{
    let mut ranges: Vec<Range> = Vec::new();
    assert(m@.take(0) =~= EditMapV::empty());
    for i in 0..m.entries.len()
        invariant
            ranges@.len() == edit_count(m@.take(i as int)),
    {
        let ghost before = ranges@.len();
        let edits = &m.entries[i].1;
        for j in 0..edits.len()
            invariant
                ranges@.len() == before + j,
        {
            ranges.push(edits[j].range);
        }
        assert(m@.take(i + 1).drop_last() =~= m@.take(i as int));
        assert(m@.take(i + 1).last() == m@[i as int]);
    }
    assert(m@.take(m@.len() as int) =~= m@);
    ranges.len()
}

/// Leaving out empty entries loses no edit, and a part has no more than all.
proof fn lemma_edit_count_keep(m: EditMapV, n: int)
    requires
        0 <= n <= m.len(),
    ensures
        edit_count(keep(m.take(n), has_edits())) == edit_count(m.take(n)),
        edit_count(m.take(n)) <= edit_count(m),
    decreases m.len(), n,
{
    if n > 0 {
        lemma_edit_count_keep(m, n - 1);
        lemma_keep_step(m, has_edits(), n - 1);
        assert(m.take(n).drop_last() =~= m.take(n - 1));
        let k = keep(m.take(n), has_edits());
        if m[n - 1].1.len() > 0 {
            assert(k.drop_last() =~= keep(m.take(n - 1), has_edits()));
        }
    } else {
        assert(m.take(0) =~= EditMapV::empty());
    }
    lemma_edit_count_take(m, n);
}

proof fn lemma_edit_count_take(m: EditMapV, n: int)
    requires
        0 <= n <= m.len(),
    ensures
        edit_count(m.take(n)) <= edit_count(m),
    decreases m.len() - n,
{
    if n == m.len() {
        assert(m.take(n) =~= m);
    } else {
        lemma_edit_count_take(m, n + 1);
        assert(m.take(n + 1).drop_last() =~= m.take(n));
    }
}

/// An action is offered exactly where there is an edit to make, and it makes
/// all of them.
pub proof fn scoped_action_iff_edits(
    scope: Scope,
    edits: EditMapV,
    template: Seq<char>,
    item_label: Seq<char>,
    diagnostics: Option<Seq<DiagnosticV>>,
    id: Seq<char>,
)
    ensures
        scoped_action(scope, edits, template, item_label, diagnostics, id) is Some <==> edit_count(
            edits,
        ) > 0,
        scoped_action(scope, edits, template, item_label, diagnostics, id) matches Some(a)
            ==> a.edit matches WorkspaceEditV::Changes(m) && edit_count(m) == edit_count(edits),
{
    lemma_edit_count_keep(edits, edits.len() as int);
    lemma_take_full(edits);
    let kept = keep(edits, has_edits());
    if kept.len() > 0 {
        lemma_kept_counted(edits);
    }
}

proof fn lemma_kept_counted(m: EditMapV)
    requires
        keep(m, has_edits()).len() > 0,
    ensures
        edit_count(m) > 0,
    decreases m.len(),
{
    if m.len() > 0 && m.last().1.len() == 0 {
        lemma_kept_counted(m.drop_last());
    }
}

} // verus!
