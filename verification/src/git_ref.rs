//! Pinning the git refs of module sources.
//!
//! A `source` such as `git::https://host/repo?ref=v1.2.0` names a tag that can
//! move. The actions here pin it to a commit, keep the tag as a trailing
//! comment, mend a commit and a comment that disagree, and switch to newer
//! tags. Only the value of `ref` and the comment change.

use crate::actions::{
    actions_view, CodeAction, CodeActionV, Diagnostic, DiagnosticSeverity, DiagnosticV,
};
use crate::hcl::{
    attr_pointees, attributes, block_pointees, blocks_named, list_attributes, list_blocks_named,
    Attribute, Block, Body, ExprKind,
};
use crate::position::{
    byte_offset_to_lsp_position, char_at_byte, char_offset, char_to_lsp_position, contains,
    edits_view, hcl_span_to_lsp_range, line_of, line_start, offset_position, range_contains,
    rope_byte_to_char, rope_char_to_line, rope_len_bytes, rope_line_to_char, rope_slice, rope_text,
    span_range, utf8_len, utf8_width, EditV, Position, Range, Span, TextEdit,
};
use crate::quick_fixes::{changes_for, diag_reports, one_file, opt_edit, reports};
use crate::scope::opt_action;
use crate::seqs::{
    filter_map, find_map, lemma_filter_map_step, lemma_find_map_step, lemma_take_full,
};
use crate::state::DocUri;
use crate::text::{
    chars_of, concat2, concat3, concat5, find_char, find_from, opt_view, slice_find_char,
    slice_find_from, str_eq, string_sub,
};
use ropey::Rope;
use vstd::prelude::*;

verus! {

// ---------------------------------------------------------------------
// Which finding a diagnostic reports

pub fn is_mutable_ref(diag: &Diagnostic) -> (r: bool)
    ensures
        r == reports(diag@, DiagnosticSeverity::Warning, "pinned to mutable git ref"@),
{
    diag_reports(diag, DiagnosticSeverity::Warning, "pinned to mutable git ref")
}

pub fn is_ref_tag_mismatch(diag: &Diagnostic) -> (r: bool)
    ensures
        r == reports(diag@, DiagnosticSeverity::Warning, "does not match tag"@),
{
    diag_reports(diag, DiagnosticSeverity::Warning, "does not match tag")
}

pub fn is_outdated(diag: &Diagnostic) -> (r: bool)
    ensures
        r == reports(diag@, DiagnosticSeverity::Information, "newer module version available"@),
{
    diag_reports(diag, DiagnosticSeverity::Information, "newer module version available")
}

// ---------------------------------------------------------------------
// The source under the cursor

/// The span and the text of a `source` string whose range holds `pos`.
pub open spec fn source_at(t: Seq<char>, pos: Position) -> spec_fn(Attribute) -> Option<
    (Span, Seq<char>),
> {
    |a: Attribute|
        if a.key.text@ == "source"@ {
            match (a.value.kind, a.value.span) {
                (ExprKind::Str(s), Some(span)) => match span_range(t, span) {
                    Some(range) => if range_contains(range, pos) {
                        Some((span, s@))
                    } else {
                        None
                    },
                    None => None,
                },
                _ => None,
            }
        } else {
            None
        }
}

pub open spec fn module_source_at(t: Seq<char>, pos: Position) -> spec_fn(Block) -> Option<
    (Span, Seq<char>),
> {
    |b: Block| find_map(attributes(b.body), source_at(t, pos))
}

/// The span and the text of the module source under `pos`.
pub open spec fn source_under(body: Body, t: Seq<char>, pos: Position) -> Option<
    (Span, Seq<char>),
> {
    find_map(blocks_named(body, "module"@), module_source_at(t, pos))
}

pub open spec fn found_view(f: Option<(Span, String)>) -> Option<(Span, Seq<char>)> {
    match f {
        Some(x) => Some((x.0, x.1@)),
        None => None,
    }
}

fn source_in_module(block: &Block, rope: &Rope, pos: Position) -> (r: Option<(Span, String)>)
    ensures
        found_view(r) == module_source_at(rope_text(*rope), pos)(*block),
{
    let list = list_attributes(&block.body);
    let ghost s = attributes(block.body);
    let ghost f = source_at(rope_text(*rope), pos);
    proof {
        lemma_take_full(s);
    }
    for i in 0..list.len()
        invariant
            attr_pointees(list@) == s,
            s == attributes(block.body),
            f == source_at(rope_text(*rope), pos),
            find_map(s, f) == find_map(s.skip(i as int), f),
    {
        proof {
            lemma_find_map_step(s, f, i as int);
            assert(s[i as int] == *list@[i as int]);
        }
        let a: &Attribute = list[i];
        if str_eq(a.key.text.as_str(), "source") {
            if let ExprKind::Str(text) = &a.value.kind {
                if let Some(span) = a.value.span {
                    if let Some(range) = hcl_span_to_lsp_range(rope, span) {
                        if contains(&range, pos) {
                            return Some((span, text.clone()));
                        }
                    }
                }
            }
        }
    }
    None
}

/// The `source` string of a `module` block whose quoted value holds `pos`.
pub fn find_module_source_at(body: &Body, rope: &Rope, pos: Position) -> (r: Option<(Span, String)>)
    ensures
        found_view(r) == source_under(*body, rope_text(*rope), pos),
{
    let list = list_blocks_named(body, "module");
    let ghost s = blocks_named(*body, "module"@);
    let ghost f = module_source_at(rope_text(*rope), pos);
    proof {
        lemma_take_full(s);
    }
    for i in 0..list.len()
        invariant
            block_pointees(list@) == s,
            s == blocks_named(*body, "module"@),
            f == module_source_at(rope_text(*rope), pos),
            find_map(s, f) == find_map(s.skip(i as int), f),
    {
        proof {
            lemma_find_map_step(s, f, i as int);
            assert(s[i as int] == *list@[i as int]);
        }
        let found = source_in_module(list[i], rope, pos);
        if found.is_some() {
            return found;
        }
    }
    None
}

// ---------------------------------------------------------------------
// Edits

/// The edit that puts `new_ref` where the ref of the source stands. The span
/// of a source starts with its quote.
pub open spec fn ref_edit(
    t: Seq<char>,
    span: Span,
    ref_span: Option<(usize, usize)>,
    new_ref: Seq<char>,
) -> Option<EditV> {
    match ref_span {
        Some((a, b)) => match (
            offset_position(t, span.start + 1 + a),
            offset_position(t, span.start + 1 + b),
        ) {
            (Some(start), Some(end)) => Some(
                EditV { range: Range { start, end }, new_text: new_ref },
            ),
            _ => None,
        },
        None => None,
    }
}

fn offset_position_at(rope: &Rope, base: usize, rel: usize) -> (r: Option<Position>)
    ensures
        r == offset_position(rope_text(*rope), base + 1 + rel),
{
    let total = rope_len_bytes(rope);
    if base >= total || rel > total - base - 1 {
        return None;
    }
    byte_offset_to_lsp_position(rope, base + 1 + rel)
}

/// Replace just the ref value within the quoted source.
pub fn ref_replacement_edit(
    rope: &Rope,
    value_span: Span,
    ref_span: Option<(usize, usize)>,
    new_ref: &str,
) -> (r: Option<TextEdit>)
    ensures
        opt_edit(r) == ref_edit(rope_text(*rope), value_span, ref_span, new_ref@),
{
    match ref_span {
        Some((a, b)) => match (
            offset_position_at(rope, value_span.start, a),
            offset_position_at(rope, value_span.start, b),
        ) {
            (Some(start), Some(end)) => Some(
                TextEdit { range: Range { start, end }, new_text: new_ref.to_owned() },
            ),
            _ => None,
        },
        None => None,
    }
}

/// The end of what stands between `from` and `to` without the line break.
pub open spec fn content_end(t: Seq<char>, from: int, to: int) -> int
    decreases to - from,
{
    if to > from && (t[to - 1] == '\n' || t[to - 1] == '\r') {
        content_end(t, from, to - 1)
    } else {
        to
    }
}

/// The start of a comment in the rest of a line: the first `//` or `#`.
pub open spec fn comment_mark(tail: Seq<char>) -> Option<int> {
    match (find_from(tail, "//"@, 0), find_char(tail, '#', 0)) {
        (Some(a), Some(b)) => Some(
            if a < b {
                a
            } else {
                b
            },
        ),
        (Some(a), None) => Some(a),
        (None, hash) => hash,
    }
}

/// The edit that writes `# tag` at the end of the line of character `k`, over
/// the comment that stands there after `k`.
pub open spec fn comment_edit_at(t: Seq<char>, k: int, tag: Seq<char>) -> Option<EditV> {
    let l = line_of(t, k);
    let start = line_start(t, l);
    let eol = content_end(t, start, line_start(t, l + 1));
    let from = if k < eol {
        k
    } else {
        eol
    };
    let mark = comment_mark(t.subrange(from, eol));
    let (at, text) = match mark {
        Some(m) => (from + m, "# "@ + tag),
        None => (eol, " # "@ + tag),
    };
    match (offset_position(t, char_offset(t, at)), offset_position(t, char_offset(t, eol))) {
        (Some(start), Some(end)) => Some(EditV { range: Range { start, end }, new_text: text }),
        _ => None,
    }
}

/// The edit that adds or replaces the comment on the line of a byte offset.
pub open spec fn tag_comment(t: Seq<char>, b: int, tag: Seq<char>) -> Option<EditV> {
    if 0 <= b <= utf8_len(t) {
        comment_edit_at(t, char_at_byte(t, b as nat), tag)
    } else {
        None
    }
}

/// Add or replace a trailing `# <tag>` comment. `after_quote` is the byte just
/// past the closing quote of the source.
pub fn comment_edit(rope: &Rope, after_quote: usize, tag: &str) -> (r: Option<TextEdit>)
    ensures
        opt_edit(r) == tag_comment(rope_text(*rope), after_quote as int, tag@),
{
    let ghost t = rope_text(*rope);
    if after_quote > rope_len_bytes(rope) {
        return None;
    }
    let k = rope_byte_to_char(rope, after_quote);
    let line = rope_char_to_line(rope, k);
    proof {
        crate::position::lemma_line_of_monotone(t, k as int, t.len() as int);
        crate::position::lemma_line_start_before(t, k as int, 0);
        crate::position::lemma_next_line_after(t, k as int, 0);
    }
    let start = rope_line_to_char(rope, line);
    let lines = crate::position::rope_len_lines(rope);
    assert(line < lines);
    let next = rope_line_to_char(rope, line + 1);
    let text = rope_slice(rope, start, next);
    let c = chars_of(text.as_str());
    let mut len: usize = c.len();
    while len > 0 && (c[len - 1] == '\n' || c[len - 1] == '\r')
        invariant
            start <= next <= t.len(),
            c@ == t.subrange(start as int, next as int),
            len <= c@.len(),
            content_end(t, start as int, start + len) == content_end(t, start as int, next as int),
        ensures
            len <= c@.len(),
            content_end(t, start as int, next as int) == start + len,
        decreases len,
    {
        assert(c@[len - 1] == t[start + len - 1]);
        len -= 1;
    }
    let eol: usize = start + len;
    let from: usize = if k < eol {
        k
    } else {
        eol
    };
    let tail = rope_slice(rope, from, eol);
    let tc = chars_of(tail.as_str());
    let slashes = chars_of("//");
    let mark: Option<usize> = match (
        slice_find_from(tc.as_slice(), slashes.as_slice(), 0),
        slice_find_char(tc.as_slice(), '#', 0),
    ) {
        (Some(a), Some(b)) => if a < b {
            Some(a)
        } else {
            Some(b)
        },
        (Some(a), None) => Some(a),
        (None, hash) => hash,
    };
    let (at, new_text): (usize, String) = match mark {
        Some(m) => (from + m, concat2("# ", tag)),
        None => (eol, concat2(" # ", tag)),
    };
    match (char_to_lsp_position(rope, at), char_to_lsp_position(rope, eol)) {
        (Some(start), Some(end)) => Some(TextEdit { range: Range { start, end }, new_text }),
        _ => None,
    }
}

/// The first twelve bytes of a commit.
pub open spec fn short_sha(sha: Seq<char>) -> Seq<char> {
    sha.take(char_at_byte(sha, 12))
}

fn utf8_width_of(c: char) -> (r: usize)
    ensures
        r == utf8_width(c),
        1 <= r <= 4,
{
    let n = c as u32;
    if n < 0x80 {
        1
    } else if n < 0x800 {
        2
    } else if n < 0x10000 {
        3
    } else {
        4
    }
}

/// A commit cut to what a title shows of it.
pub fn short(sha: &str) -> (r: String)
    ensures
        r@ == short_sha(sha@),
{
    let c = chars_of(sha);
    let mut k: usize = 0;
    let mut bytes: usize = 0;
    while k < c.len()
        invariant
            c@ == sha@,
            k <= c@.len(),
            bytes <= 12,
            bytes == utf8_len(sha@.take(k as int)),
            char_at_byte(sha@, 12) == crate::position::char_at_byte_from(sha@, 12, k as int),
        decreases c@.len() - k,
    {
        let w = utf8_width_of(c[k]);
        proof {
            assert(sha@.take(k + 1).drop_last() =~= sha@.take(k as int));
        }
        if bytes + w > 12 {
            assert(sha@.subrange(0, k as int) =~= sha@.take(k as int));
            return string_sub(c.as_slice(), 0, k);
        }
        bytes = bytes + w;
        k += 1;
    }
    assert(sha@.take(sha@.len() as int) =~= sha@);
    sha.to_owned()
}

// ---------------------------------------------------------------------
// Actions

pub open spec fn git_fix(
    title: Seq<char>,
    uri: DocUri,
    edits: Seq<EditV>,
    diag: Option<DiagnosticV>,
    preferred: bool,
) -> CodeActionV {
    CodeActionV {
        title,
        kind: "quickfix"@,
        diagnostics: match diag {
            Some(d) => Some(seq![d]),
            None => None,
        },
        edit: one_file(uri.text@, edits),
        is_preferred: Some(preferred),
    }
}

pub open spec fn opt_diag(d: Option<&Diagnostic>) -> Option<DiagnosticV> {
    match d {
        Some(d) => Some(d@),
        None => None,
    }
}

fn quickfix(
    title: String,
    uri: &DocUri,
    edits: Vec<TextEdit>,
    diag: Option<&Diagnostic>,
    preferred: bool,
) -> (r: CodeAction)
    ensures
        r@ == git_fix(title@, *uri, edits_view(edits@), opt_diag(diag), preferred),
{
    let diagnostics = match diag {
        Some(d) => {
            let v = vec![d.duplicate()];
            assert(crate::actions::diagnostics_view(v@) =~= seq![d@]);
            Some(v)
        },
        None => None,
    };
    CodeAction {
        title,
        kind: "quickfix".to_owned(),
        diagnostics,
        edit: changes_for(uri.text.as_str(), edits),
        is_preferred: Some(preferred),
    }
}

/// What is read off the text of a source and the line it stands on.
pub struct SourceFacts {
    pub is_git: bool,
    /// The value of `ref`, where there is one.
    pub reference: Option<String>,
    /// Where it stands in the source, in bytes.
    pub ref_span: Option<(usize, usize)>,
    /// The ref has the shape of a commit.
    pub is_sha: bool,
    pub has_comment: bool,
    /// The tag that the trailing comment names.
    pub comment_tag: Option<String>,
}

/// A tag of the repository with its commit and its major version.
pub struct NewerTag {
    pub tag: String,
    pub sha: Option<String>,
    pub major: Option<u64>,
}

/// A mutable ref pinned to the commit it names now, the ref kept as a comment.
pub open spec fn pin_ref(
    uri: DocUri,
    diag: DiagnosticV,
    body: Body,
    t: Seq<char>,
    facts: SourceFacts,
    sha: Option<Seq<char>>,
) -> Option<CodeActionV> {
    match (source_under(body, t, diag.range.start), opt_view(facts.reference), sha) {
        (Some(found), Some(name), Some(sha)) => match (
            ref_edit(t, found.0, facts.ref_span, sha),
            tag_comment(t, found.0.end as int, name),
        ) {
            (Some(pin), Some(comment)) => Some(
                git_fix(
                    "Pin git ref `"@ + name + "` to commit "@ + short_sha(sha)
                        + " (keep tag as comment)"@,
                    uri,
                    seq![pin, comment],
                    Some(diag),
                    true,
                ),
            ),
            _ => None,
        },
        _ => None,
    }
}

/// Pin a mutable `ref` to a commit. `sha` is what the ref resolved to.
pub fn pin_ref_action(
    cli_enabled: bool,
    uri: &DocUri,
    diag: &Diagnostic,
    body: &Body,
    rope: &Rope,
    facts: &SourceFacts,
    sha: &Option<String>,
) -> (r: Option<CodeAction>)
    ensures
        opt_action(r) == if cli_enabled {
            pin_ref(*uri, diag@, *body, rope_text(*rope), *facts, opt_view(*sha))
        } else {
            None
        },
{
    if !cli_enabled {
        return None;
    }
    let found = match find_module_source_at(body, rope, diag.range.start) {
        Some(f) => f,
        None => {
            return None;
        },
    };
    match (&facts.reference, sha) {
        (Some(name), Some(sha)) => {
            let pin = match ref_replacement_edit(rope, found.0, facts.ref_span, sha.as_str()) {
                Some(e) => e,
                None => {
                    return None;
                },
            };
            let comment = match comment_edit(rope, found.0.end, name.as_str()) {
                Some(e) => e,
                None => {
                    return None;
                },
            };
            let title = concat5(
                "Pin git ref `",
                name.as_str(),
                "` to commit ",
                short(sha.as_str()).as_str(),
                " (keep tag as comment)",
            );
            let edits = vec![pin, comment];
            assert(edits_view(edits@) =~= seq![pin@, comment@]);
            Some(quickfix(title, uri, edits, Some(diag), true))
        },
        _ => None,
    }
}

/// The tag comment for a source that is pinned to a commit and has none.
pub open spec fn add_sha_comment(
    uri: DocUri,
    pos: Position,
    body: Body,
    t: Seq<char>,
    facts: SourceFacts,
    tag: Option<Seq<char>>,
) -> Option<CodeActionV> {
    match (source_under(body, t, pos), tag) {
        (Some(found), Some(tag)) => if facts.is_git && facts.reference is Some && facts.is_sha
            && !facts.has_comment {
            match tag_comment(t, found.0.end as int, tag) {
                Some(comment) => Some(
                    git_fix(
                        "Add tag comment `"@ + tag + "` for pinned commit"@,
                        uri,
                        seq![comment],
                        None,
                        false,
                    ),
                ),
                None => None,
            }
        } else {
            None
        },
        _ => None,
    }
}

/// Name the tag of a pinned commit in a comment. `tag` is the tag that the
/// commit resolved back to.
pub fn add_sha_comment_action(
    cli_enabled: bool,
    uri: &DocUri,
    pos: Position,
    body: &Body,
    rope: &Rope,
    facts: &SourceFacts,
    tag: &Option<String>,
) -> (r: Option<CodeAction>)
    ensures
        opt_action(r) == if cli_enabled {
            add_sha_comment(*uri, pos, *body, rope_text(*rope), *facts, opt_view(*tag))
        } else {
            None
        },
{
    if !cli_enabled {
        return None;
    }
    let found = match find_module_source_at(body, rope, pos) {
        Some(f) => f,
        None => {
            return None;
        },
    };
    if !facts.is_git || facts.reference.is_none() || !facts.is_sha || facts.has_comment {
        return None;
    }
    match tag {
        Some(tag) => match comment_edit(rope, found.0.end, tag.as_str()) {
            Some(comment) => {
                let title = concat3(
                    "Add tag comment `",
                    tag.as_str(),
                    "` for pinned commit",
                );
                let edits = vec![comment];
                assert(edits_view(edits@) =~= seq![comment@]);
                Some(quickfix(title, uri, edits, None, false))
            },
            None => None,
        },
        None => None,
    }
}

/// The commit of the source moved to where its tag points now.
pub open spec fn repin(
    uri: DocUri,
    diag: DiagnosticV,
    t: Seq<char>,
    span: Span,
    facts: SourceFacts,
    comment_tag: Seq<char>,
    sha: Option<Seq<char>>,
) -> Seq<CodeActionV> {
    match sha {
        Some(sha) => match ref_edit(t, span, facts.ref_span, sha) {
            Some(edit) => seq![
                git_fix(
                    "Update pinned commit to tag `"@ + comment_tag + "` ("@ + short_sha(sha)
                        + ")"@,
                    uri,
                    seq![edit],
                    Some(diag),
                    false,
                ),
            ],
            None => Seq::empty(),
        },
        None => Seq::empty(),
    }
}

/// The comment changed to the tag that the pinned commit has.
pub open spec fn retag(
    uri: DocUri,
    diag: DiagnosticV,
    t: Seq<char>,
    span: Span,
    comment_tag: Seq<char>,
    real_tag: Option<Seq<char>>,
) -> Seq<CodeActionV> {
    match real_tag {
        Some(tag) => if tag != comment_tag {
            match tag_comment(t, span.end as int, tag) {
                Some(edit) => seq![
                    git_fix(
                        "Update comment to `"@ + tag + "` (matches pinned commit)"@,
                        uri,
                        seq![edit],
                        Some(diag),
                        false,
                    ),
                ],
                None => Seq::empty(),
            }
        } else {
            Seq::empty()
        },
        None => Seq::empty(),
    }
}

/// The fixes for a commit and a comment that disagree.
pub open spec fn mismatch(
    uri: DocUri,
    diag: DiagnosticV,
    body: Body,
    t: Seq<char>,
    facts: SourceFacts,
    tag_sha: Option<Seq<char>>,
    real_tag: Option<Seq<char>>,
) -> Seq<CodeActionV> {
    match (source_under(body, t, diag.range.start), facts.reference, opt_view(facts.comment_tag)) {
        (Some(found), Some(_), Some(comment_tag)) => repin(
            uri,
            diag,
            t,
            found.0,
            facts,
            comment_tag,
            tag_sha,
        ) + retag(uri, diag, t, found.0, comment_tag, real_tag),
        _ => Seq::empty(),
    }
}

fn push_retag(
    out: &mut Vec<CodeAction>,
    uri: &DocUri,
    diag: &Diagnostic,
    rope: &Rope,
    span: Span,
    comment_tag: &str,
    real_tag: &Option<String>,
)
    ensures
        actions_view(final(out)@) == actions_view(old(out)@) + retag(
            *uri,
            diag@,
            rope_text(*rope),
            span,
            comment_tag@,
            opt_view(*real_tag),
        ),
{
    let ghost before = actions_view(out@);
    if let Some(tag) = real_tag {
        if !str_eq(tag.as_str(), comment_tag) {
            if let Some(edit) = comment_edit(rope, span.end, tag.as_str()) {
                let title = concat3(
                    "Update comment to `",
                    tag.as_str(),
                    "` (matches pinned commit)",
                );
                let edits = vec![edit];
                assert(edits_view(edits@) =~= seq![edit@]);
                let a = quickfix(title, uri, edits, Some(diag), false);
                out.push(a);
                assert(actions_view(out@) =~= before + seq![a@]);
                return;
            }
        }
    }
    assert(actions_view(out@) =~= before + Seq::<CodeActionV>::empty());
}

fn push_repin(
    out: &mut Vec<CodeAction>,
    uri: &DocUri,
    diag: &Diagnostic,
    rope: &Rope,
    span: Span,
    facts: &SourceFacts,
    comment_tag: &str,
    sha: &Option<String>,
)
    ensures
        actions_view(final(out)@) == actions_view(old(out)@) + repin(
            *uri,
            diag@,
            rope_text(*rope),
            span,
            *facts,
            comment_tag@,
            opt_view(*sha),
        ),
{
    let ghost before = actions_view(out@);
    if let Some(sha) = sha {
        if let Some(edit) = ref_replacement_edit(rope, span, facts.ref_span, sha.as_str()) {
            let title = concat5(
                "Update pinned commit to tag `",
                comment_tag,
                "` (",
                short(sha.as_str()).as_str(),
                ")",
            );
            let edits = vec![edit];
            assert(edits_view(edits@) =~= seq![edit@]);
            let a = quickfix(title, uri, edits, Some(diag), false);
            out.push(a);
            assert(actions_view(out@) =~= before + seq![a@]);
            return;
        }
    }
    assert(actions_view(out@) =~= before + Seq::<CodeActionV>::empty());
}

/// Mend a commit and a comment that disagree. `tag_sha` is the commit that
/// the comment's tag has now, `real_tag` the tag of the pinned commit.
pub fn mismatch_actions(
    cli_enabled: bool,
    uri: &DocUri,
    diag: &Diagnostic,
    body: &Body,
    rope: &Rope,
    facts: &SourceFacts,
    tag_sha: &Option<String>,
    real_tag: &Option<String>,
) -> (r: Vec<CodeAction>)
    ensures
        actions_view(r@) == if cli_enabled {
            mismatch(
                *uri,
                diag@,
                *body,
                rope_text(*rope),
                *facts,
                opt_view(*tag_sha),
                opt_view(*real_tag),
            )
        } else {
            Seq::empty()
        },
{
    let mut out: Vec<CodeAction> = Vec::new();
    assert(actions_view(out@) =~= Seq::<CodeActionV>::empty());
    if !cli_enabled {
        return out;
    }
    let found = match find_module_source_at(body, rope, diag.range.start) {
        Some(f) => f,
        None => {
            return out;
        },
    };
    match (&facts.reference, &facts.comment_tag) {
        (Some(_), Some(comment_tag)) => {
            push_repin(&mut out, uri, diag, rope, found.0, facts, comment_tag.as_str(), tag_sha);
            push_retag(&mut out, uri, diag, rope, found.0, comment_tag.as_str(), real_tag);
            assert(actions_view(out@) =~= mismatch(
                *uri,
                diag@,
                *body,
                rope_text(*rope),
                *facts,
                opt_view(*tag_sha),
                opt_view(*real_tag),
            ));
        },
        _ => {},
    }
    out
}

// ---------------------------------------------------------------------
// Newer versions

/// The first tag of the given major version, at or after `from`.
pub open spec fn is_major(major: u64) -> spec_fn(NewerTag) -> Option<NewerTag> {
    |t: NewerTag|
        if t.major == Some(major) {
            Some(t)
        } else {
            None
        }
}

/// The tags to offer, newest first: the newest, and the newest of the current
/// major version where that is another.
pub open spec fn offered(newer: Seq<NewerTag>, current_major: Option<u64>) -> Seq<NewerTag> {
    if newer.len() == 0 {
        Seq::empty()
    } else {
        match current_major {
            Some(major) => match find_map(newer, is_major(major)) {
                Some(t) => if t.tag@ == newer[0].tag@ {
                    seq![newer[0]]
                } else {
                    seq![newer[0], t]
                },
                None => seq![newer[0]],
            },
            None => seq![newer[0]],
        }
    }
}

/// The module switched to a tag.
pub open spec fn switch_to(
    uri: DocUri,
    diag: Option<DiagnosticV>,
    t: Seq<char>,
    span: Span,
    ref_span: Option<(usize, usize)>,
) -> spec_fn(NewerTag) -> Option<CodeActionV> {
    |n: NewerTag|
        match opt_view(n.sha) {
            Some(sha) => match ref_edit(t, span, ref_span, sha) {
                Some(pin) => Some(
                    git_fix(
                        "Update module to "@ + n.tag@,
                        uri,
                        match tag_comment(t, span.end as int, n.tag@) {
                            Some(comment) => seq![pin, comment],
                            None => seq![pin],
                        },
                        diag,
                        false,
                    ),
                ),
                None => None,
            },
            None => None,
        }
}

/// The version that a source is at is known: its ref is a tag, or a commit
/// whose tag the comment names.
pub open spec fn version_known(facts: SourceFacts) -> bool {
    facts.is_git && facts.reference is Some && (facts.is_sha ==> facts.comment_tag is Some)
}

pub open spec fn switch_version(
    uri: DocUri,
    pos: Position,
    body: Body,
    t: Seq<char>,
    diag: Option<DiagnosticV>,
    facts: SourceFacts,
    newer: Seq<NewerTag>,
    current_major: Option<u64>,
) -> Seq<CodeActionV> {
    match source_under(body, t, pos) {
        Some(found) => if version_known(facts) {
            filter_map(
                offered(newer, current_major),
                switch_to(uri, diag, t, found.0, facts.ref_span),
            )
        } else {
            Seq::empty()
        },
        None => Seq::empty(),
    }
}

pub open spec fn tag_pointees(v: Seq<&NewerTag>) -> Seq<NewerTag> {
    Seq::new(v.len(), |i: int| *v[i])
}

fn list_offered<'a>(newer: &'a Vec<NewerTag>, current_major: Option<u64>) -> (r: Vec<&'a NewerTag>)
    ensures
        tag_pointees(r@) == offered(newer@, current_major),
{
    let mut out: Vec<&'a NewerTag> = Vec::new();
    if newer.len() == 0 {
        assert(tag_pointees(out@) =~= Seq::<NewerTag>::empty());
        return out;
    }
    out.push(&newer[0]);
    assert(tag_pointees(out@) =~= seq![newer@[0]]);
    if let Some(major) = current_major {
        let ghost f = is_major(major);
        proof {
            lemma_take_full(newer@);
        }
        for i in 0..newer.len()
            invariant
                newer@.len() > 0,
                f == is_major(major),
                current_major == Some(major),
                out@.len() == 1,
                tag_pointees(out@) == seq![newer@[0]],
                *out@[0] == newer@[0],
                find_map(newer@, f) == find_map(newer@.skip(i as int), f),
        {
            proof {
                lemma_find_map_step(newer@, f, i as int);
            }
            let hit = match newer[i].major {
                Some(m) => m == major,
                None => false,
            };
            if hit {
                if !str_eq(newer[i].tag.as_str(), newer[0].tag.as_str()) {
                    out.push(&newer[i]);
                    assert(tag_pointees(out@) =~= seq![newer@[0], newer@[i as int]]);
                }
                return out;
            }
        }
    }
    out
}

fn switch_action(
    uri: &DocUri,
    rope: &Rope,
    span: Span,
    ref_span: Option<(usize, usize)>,
    diag: Option<&Diagnostic>,
    n: &NewerTag,
) -> (r: Option<CodeAction>)
    ensures
        opt_action(r) == switch_to(*uri, opt_diag(diag), rope_text(*rope), span, ref_span)(*n),
{
    match &n.sha {
        Some(sha) => match ref_replacement_edit(rope, span, ref_span, sha.as_str()) {
            Some(pin) => {
                let mut edits = vec![pin];
                assert(edits_view(edits@) =~= seq![pin@]);
                if let Some(comment) = comment_edit(rope, span.end, n.tag.as_str()) {
                    edits.push(comment);
                    assert(edits_view(edits@) =~= seq![pin@, comment@]);
                }
                Some(
                    quickfix(
                        concat2("Update module to ", n.tag.as_str()),
                        uri,
                        edits,
                        diag,
                        false,
                    ),
                )
            },
            None => None,
        },
        None => None,
    }
}

/// Switch a module to a newer version. `newer` are the tags above the current
/// version, newest first; `current_major` is the current major version.
pub fn switch_version_actions(
    cli_enabled: bool,
    uri: &DocUri,
    pos: Position,
    body: &Body,
    rope: &Rope,
    diag: Option<&Diagnostic>,
    facts: &SourceFacts,
    newer: &Vec<NewerTag>,
    current_major: Option<u64>,
) -> (r: Vec<CodeAction>)
    ensures
        actions_view(r@) == if cli_enabled {
            switch_version(
                *uri,
                pos,
                *body,
                rope_text(*rope),
                opt_diag(diag),
                *facts,
                newer@,
                current_major,
            )
        } else {
            Seq::empty()
        },
{
    let mut out: Vec<CodeAction> = Vec::new();
    assert(actions_view(out@) =~= Seq::<CodeActionV>::empty());
    if !cli_enabled {
        return out;
    }
    let found = match find_module_source_at(body, rope, pos) {
        Some(f) => f,
        None => {
            return out;
        },
    };
    if !facts.is_git || facts.reference.is_none() || (facts.is_sha && facts.comment_tag.is_none()) {
        return out;
    }
    let chosen = list_offered(newer, current_major);
    let ghost s = offered(newer@, current_major);
    let ghost f = switch_to(*uri, opt_diag(diag), rope_text(*rope), found.0, facts.ref_span);
    proof {
        lemma_take_full(s);
    }
    for i in 0..chosen.len()
        invariant
            tag_pointees(chosen@) == s,
            f == switch_to(*uri, opt_diag(diag), rope_text(*rope), found.0, facts.ref_span),
            actions_view(out@) == filter_map(s.take(i as int), f),
    {
        proof {
            lemma_filter_map_step(s, f, i as int);
            assert(s[i as int] == *chosen@[i as int]);
        }
        let ghost before = actions_view(out@);
        if let Some(a) = switch_action(uri, rope, found.0, facts.ref_span, diag, chosen[i]) {
            out.push(a);
            assert(actions_view(out@) =~= before.push(a@));
        }
    }
    out
}

/// At most two versions are offered, and never one tag twice.
pub proof fn offers_are_few_and_distinct(newer: Seq<NewerTag>, current_major: Option<u64>)
    ensures
        offered(newer, current_major).len() <= 2,
        offered(newer, current_major).len() == 2 ==> offered(newer, current_major)[0].tag@
            != offered(newer, current_major)[1].tag@,
        newer.len() > 0 ==> offered(newer, current_major)[0] == newer[0],
{
}

} // verus!
