//! What the fixes of module sources write.

use crate::actions::{CodeActionV, DiagnosticV, WorkspaceEditV};
use crate::git_ref::{
    add_sha_comment, comment_edit_at, comment_mark, content_end, is_major, mismatch,
    module_source_at, offered, pin_ref, ref_edit, source_at, source_under, switch_to,
    switch_version, tag_comment, NewerTag, SourceFacts,
};
use crate::hcl::{attributes, blocks_named, Attribute, Block, Body, ExprKind};
use crate::laws::basics::not_after;
use crate::laws::hover::lemma_ends;
use crate::laws::modules::{has_attribute, has_block, lemma_attributes, lemma_blocks_named};
use crate::position::{
    char_offset, line_of, line_start, offset_position, span_range, EditV, Position, Span,
};
use crate::seqs::{find_map, lemma_filter_map_contains, lemma_find_map_at, lemma_find_map_first};
use crate::state::DocUri;
use crate::text::ends_with;
use vstd::prelude::*;

verus! {

/// A `module` block has a `source` string whose range holds the position.
pub open spec fn source_here(
    body: Body,
    t: Seq<char>,
    pos: Position,
    b: Block,
    a: Attribute,
    span: Span,
    text: Seq<char>,
) -> bool {
    &&& has_block(body, b)
    &&& b.ident.text@ == "module"@
    &&& has_attribute(b.body, a)
    &&& a.key.text@ == "source"@
    &&& a.value.kind matches ExprKind::Str(s) && s@ == text
    &&& a.value.span == Some(span)
    &&& span_range(t, span) matches Some(r) && not_after(r.start, pos) && not_after(pos, r.end)
}

/// What is found under the cursor is such a source, and one is found where there
/// is one.
pub proof fn sources_under_the_cursor_are_found(body: Body, t: Seq<char>, pos: Position)
    ensures
        source_under(body, t, pos) matches Some(x) ==> exists|b: Block, a: Attribute| #[trigger]
            source_here(body, t, pos, b, a, x.0, x.1),
        (exists|b: Block, a: Attribute, span: Span, text: Seq<char>| #[trigger]
            source_here(body, t, pos, b, a, span, text)) ==> source_under(body, t, pos) is Some,
{
    let s = blocks_named(body, "module"@);
    let f = module_source_at(t, pos);
    if source_under(body, t, pos) is Some {
        let i = lemma_find_map_first(s, f);
        let b = s[i];
        assert(s.contains(b));
        lemma_blocks_named(body, "module"@, b);
        let v = attributes(b.body);
        let j = lemma_find_map_first(v, source_at(t, pos));
        assert(v.contains(v[j]));
        lemma_attributes(b.body, v[j]);
        let x = source_under(body, t, pos)->0;
        assert(source_here(body, t, pos, b, v[j], x.0, x.1));
    }
    if exists|b: Block, a: Attribute, span: Span, text: Seq<char>| #[trigger]
        source_here(body, t, pos, b, a, span, text) {
        let (b, a, span, text) = choose|b: Block, a: Attribute, span: Span, text: Seq<char>|
         #[trigger]
            source_here(body, t, pos, b, a, span, text);
        lemma_attributes(b.body, a);
        let v = attributes(b.body);
        let j = choose|j: int| 0 <= j < v.len() && v[j] == a;
        lemma_some(v, source_at(t, pos), j);
        lemma_blocks_named(body, "module"@, b);
        let i = choose|i: int| 0 <= i < s.len() && s[i] == b;
        lemma_some(s, f, i);
    }
}

proof fn lemma_some<A, B>(s: Seq<A>, f: spec_fn(A) -> Option<B>, k: int)
    requires
        0 <= k < s.len(),
        f(s[k]) is Some,
    ensures
        find_map(s, f) is Some,
    decreases k,
{
    if forall|j: int| 0 <= j < k ==> f(#[trigger] s[j]) is None {
        lemma_find_map_at(s, f, k);
    } else {
        let j = choose|j: int| 0 <= j < k && !(f(#[trigger] s[j]) is None);
        lemma_some(s, f, j);
    }
}

/// An edit replaces the ref of a source, which starts behind its quote.
pub open spec fn replaces_ref(
    t: Seq<char>,
    span: Span,
    at: Option<(usize, usize)>,
    new_ref: Seq<char>,
    e: EditV,
) -> bool {
    &&& at is Some
    &&& offset_position(t, span.start + 1 + (at->0).0) == Some(e.range.start)
    &&& offset_position(t, span.start + 1 + (at->0).1) == Some(e.range.end)
    &&& e.new_text == new_ref
}

/// The edits that an action makes in a document.
pub open spec fn writes_in(a: CodeActionV, uri: DocUri, edits: Seq<EditV>) -> bool {
    a.edit == WorkspaceEditV::Changes(seq![(uri.text@, edits)])
}

pub open spec fn writes_one(a: CodeActionV, uri: DocUri, e: EditV) -> bool {
    writes_in(a, uri, seq![e])
}

pub open spec fn writes_two(a: CodeActionV, uri: DocUri, first: EditV, second: EditV) -> bool {
    writes_in(a, uri, seq![first, second])
}

/// An edit leaves `# TAG` at the end of the source's line.
pub open spec fn comments(e: EditV, tag: Seq<char>) -> bool {
    ends_with(e.new_text, "# "@ + tag)
}

/// A tag comment ends the line with the tag: over the old comment, or behind the
/// text with a blank between.
pub proof fn comments_name_the_tag(t: Seq<char>, b: int, tag: Seq<char>)
    ensures
        tag_comment(t, b, tag) matches Some(e) ==> comments(e, tag),
        tag_comment(t, b, tag) matches Some(e) ==> e.new_text == "# "@ + tag || e.new_text
            == " # "@ + tag,
{
    if tag_comment(t, b, tag) is Some {
        let e = tag_comment(t, b, tag)->0;
        reveal_strlit("# ");
        reveal_strlit(" # ");
        assert("# "@ + tag =~= Seq::empty() + ("# "@ + tag));
        lemma_ends(Seq::empty(), "# "@ + tag);
        assert(" # "@ + tag =~= seq![' '] + ("# "@ + tag));
        lemma_ends(seq![' '], "# "@ + tag);
    }
}

/// The comment edit starts at the first comment mark behind the given character
/// and goes to the end of the line; without a mark it only appends.
pub proof fn comments_replace_the_old_comment(t: Seq<char>, k: int, tag: Seq<char>)
    ensures
        comment_edit_at(t, k, tag) matches Some(e) ==> {
            let start = line_start(t, line_of(t, k));
            let eol = content_end(t, start, line_start(t, line_of(t, k) + 1));
            let from = if k < eol {
                k
            } else {
                eol
            };
            let mark = comment_mark(t.subrange(from, eol));
            &&& offset_position(t, char_offset(t, eol)) == Some(e.range.end)
            &&& mark is None ==> e.range.start == e.range.end
            &&& mark is Some ==> offset_position(t, char_offset(t, from + mark->0)) == Some(
                e.range.start,
            )
        },
{
}

/// A comment starts at the first `#` or `//`.
pub proof fn marks_start_a_comment(s: Seq<char>)
    ensures
        match comment_mark(s) {
            Some(m) => 0 <= m < s.len() && (s[m] == '#' || (m + 1 < s.len() && s[m] == '/' && s[m
                + 1] == '/')) && forall|j: int|
                0 <= j < m ==> #[trigger] s[j] != '#' && !(s[j] == '/' && j + 1 < s.len() && s[j
                    + 1] == '/'),
            None => forall|j: int|
                0 <= j < s.len() ==> #[trigger] s[j] != '#' && !(s[j] == '/' && j + 1 < s.len()
                    && s[j + 1] == '/'),
        },
{
    reveal_strlit("//");
    crate::laws::basics::characters_are_found(s, '#', 0);
    lemma_find(s, "//"@, 0);
    assert forall|j: int|
        0 <= j && j + 1 < s.len() && #[trigger] s[j] == '/' && s[j + 1]
            == '/' implies crate::text::occurs_at(s, "//"@, j) by {
        assert(s.subrange(j, j + 2) =~= "//"@);
    }
    if let Some(m) = crate::text::find_from(s, "//"@, 0) {
        assert(s.subrange(m, m + 2)[0] == s[m]);
        assert(s.subrange(m, m + 2)[1] == s[m + 1]);
    }
}

proof fn lemma_find(s: Seq<char>, p: Seq<char>, from: int)
    requires
        0 <= from,
    ensures
        match crate::text::find_from(s, p, from) {
            Some(k) => from <= k && crate::text::occurs_at(s, p, k) && forall|j: int|
                from <= j < k ==> !#[trigger] crate::text::occurs_at(s, p, j),
            None => forall|j: int| from <= j ==> !#[trigger] crate::text::occurs_at(s, p, j),
        },
    decreases s.len() + 1 - from,
{
    if from + p.len() <= s.len() && !crate::text::occurs_at(s, p, from) {
        lemma_find(s, p, from + 1);
    }
}

/// Pinning puts the commit in place of the ref and keeps the ref as a comment.
pub proof fn pins_keep_the_ref_as_comment(
    uri: DocUri,
    diag: DiagnosticV,
    body: Body,
    t: Seq<char>,
    facts: SourceFacts,
    sha: Option<Seq<char>>,
)
    ensures
        match pin_ref(uri, diag, body, t, facts, sha) {
            Some(a) => {
                let found = source_under(body, t, diag.range.start);
                &&& found is Some && facts.reference is Some && sha is Some
                &&& a.diagnostics == Some(seq![diag])
                &&& exists|pin: EditV, comment: EditV| #[trigger]
                    writes_two(a, uri, pin, comment) && replaces_ref(
                        t,
                        (found->0).0,
                        facts.ref_span,
                        sha->0,
                        pin,
                    ) && comments(comment, facts.reference->0@)
            },
            None => {
                let found = source_under(body, t, diag.range.start);
                found is Some && facts.reference is Some && sha is Some ==> ref_edit(
                    t,
                    (found->0).0,
                    facts.ref_span,
                    sha->0,
                ) is None || tag_comment(t, (found->0).0.end as int, facts.reference->0@) is None
            },
        },
{
    if let Some(a) = pin_ref(uri, diag, body, t, facts, sha) {
        let found = source_under(body, t, diag.range.start)->0;
        let pin = ref_edit(t, found.0, facts.ref_span, sha->0)->0;
        let comment = tag_comment(t, found.0.end as int, facts.reference->0@)->0;
        comments_name_the_tag(t, found.0.end as int, facts.reference->0@);
        assert(writes_two(a, uri, pin, comment));
    }
}

/// A ref is replaced where it stands in the source.
pub proof fn refs_are_replaced_in_place(
    t: Seq<char>,
    span: Span,
    at: Option<(usize, usize)>,
    new_ref: Seq<char>,
)
    ensures
        ref_edit(t, span, at, new_ref) matches Some(e) ==> replaces_ref(t, span, at, new_ref, e),
        at is Some && offset_position(t, span.start + 1 + (at->0).0) is Some && offset_position(
            t,
            span.start + 1 + (at->0).1,
        ) is Some ==> ref_edit(t, span, at, new_ref) is Some,
{
}

/// A comment is added only to a git source that is pinned to a commit and has no
/// comment; the ref stays.
pub proof fn tags_of_commits_are_added(
    uri: DocUri,
    pos: Position,
    body: Body,
    t: Seq<char>,
    facts: SourceFacts,
    tag: Option<Seq<char>>,
)
    ensures
        add_sha_comment(uri, pos, body, t, facts, tag) matches Some(a) ==> facts.is_git
            && facts.is_sha && facts.reference is Some && !facts.has_comment && tag is Some && (
        exists|comment: EditV| #[trigger]
            writes_one(a, uri, comment) && comments(comment, tag->0)),
        facts.is_git && facts.is_sha && facts.reference is Some && !facts.has_comment && tag is Some
            && source_under(body, t, pos) is Some && tag_comment(
            t,
            (source_under(body, t, pos)->0).0.end as int,
            tag->0,
        ) is Some ==> add_sha_comment(uri, pos, body, t, facts, tag) is Some,
{
    if let Some(a) = add_sha_comment(uri, pos, body, t, facts, tag) {
        let end = (source_under(body, t, pos)->0).0.end as int;
        comments_name_the_tag(t, end, tag->0);
        assert(writes_one(a, uri, tag_comment(t, end, tag->0)->0));
    }
}

/// Where commit and comment disagree, one fix moves the commit to the tag of the
/// comment, the other moves the comment to the tag of the commit.
pub proof fn mismatches_are_mended_both_ways(
    uri: DocUri,
    diag: DiagnosticV,
    body: Body,
    t: Seq<char>,
    facts: SourceFacts,
    tag_sha: Seq<char>,
    real_tag: Seq<char>,
)
    requires
        source_under(body, t, diag.range.start) is Some,
        facts.reference is Some,
        facts.comment_tag is Some,
        real_tag != facts.comment_tag->0@,
        ref_edit(t, (source_under(body, t, diag.range.start)->0).0, facts.ref_span, tag_sha) is Some,
        tag_comment(
            t,
            (source_under(body, t, diag.range.start)->0).0.end as int,
            real_tag,
        ) is Some,
    ensures
        ({
            let span = (source_under(body, t, diag.range.start)->0).0;
            let v = mismatch(uri, diag, body, t, facts, Some(tag_sha), Some(real_tag));
            &&& v.len() == 2
            &&& exists|e: EditV| #[trigger]
                writes_one(v[0], uri, e) && replaces_ref(t, span, facts.ref_span, tag_sha, e)
            &&& exists|e: EditV| #[trigger]
                writes_one(v[1], uri, e) && comments(e, real_tag)
        }),
{
    let span = (source_under(body, t, diag.range.start)->0).0;
    let v = mismatch(uri, diag, body, t, facts, Some(tag_sha), Some(real_tag));
    comments_name_the_tag(t, span.end as int, real_tag);
    assert(writes_one(v[0], uri, ref_edit(t, span, facts.ref_span, tag_sha)->0));
    assert(writes_one(v[1], uri, tag_comment(t, span.end as int, real_tag)->0));
}

/// A comment that names the tag of the commit is left alone, and without the
/// commit of the tag the ref is.
pub proof fn agreeing_comments_stay(
    uri: DocUri,
    diag: DiagnosticV,
    body: Body,
    t: Seq<char>,
    facts: SourceFacts,
    tag: Seq<char>,
)
    requires
        facts.comment_tag is Some,
        facts.comment_tag->0@ == tag,
    ensures
        mismatch(uri, diag, body, t, facts, None, Some(tag)).len() == 0,
        mismatch(uri, diag, body, t, facts, None, None).len() == 0,
{
}

/// The newest tag is offered, and the newest of the current major version where
/// that is another tag.
pub proof fn newest_tags_are_offered(newer: Seq<NewerTag>, major: u64, k: int)
    requires
        0 <= k < newer.len(),
        newer[k].major == Some(major),
        forall|j: int| 0 <= j < k ==> (#[trigger] newer[j]).major != Some(major),
    ensures
        offered(newer, Some(major))[0] == newer[0],
        newer[k].tag@ != newer[0].tag@ ==> offered(newer, Some(major)) == seq![newer[0], newer[k]],
        newer[k].tag@ == newer[0].tag@ ==> offered(newer, Some(major)) == seq![newer[0]],
        offered(newer, None) == seq![newer[0]],
{
    lemma_find_map_at(newer, is_major(major), k);
}

/// Switching to a tag puts its commit in place of the ref and the tag in the
/// comment.
pub proof fn switches_pin_the_commit_of_the_tag(
    uri: DocUri,
    diag: Option<DiagnosticV>,
    t: Seq<char>,
    span: Span,
    at: Option<(usize, usize)>,
    n: NewerTag,
)
    ensures
        match switch_to(uri, diag, t, span, at)(n) {
            Some(a) => n.sha is Some && if tag_comment(t, span.end as int, n.tag@) is Some {
                exists|pin: EditV, comment: EditV| #[trigger]
                    writes_two(a, uri, pin, comment) && replaces_ref(t, span, at, n.sha->0@, pin)
                        && comments(comment, n.tag@)
            } else {
                exists|pin: EditV| #[trigger]
                    writes_one(a, uri, pin) && replaces_ref(t, span, at, n.sha->0@, pin)
            },
            None => n.sha is None || ref_edit(t, span, at, n.sha->0@) is None,
        },
{
    if let Some(a) = switch_to(uri, diag, t, span, at)(n) {
        let pin = ref_edit(t, span, at, n.sha->0@)->0;
        comments_name_the_tag(t, span.end as int, n.tag@);
        match tag_comment(t, span.end as int, n.tag@) {
            Some(c) => {
                assert(writes_two(a, uri, pin, c));
            },
            None => {
                assert(writes_one(a, uri, pin));
            },
        }
    }
}

/// Versions are switched only of a git source whose version is known: its ref is
/// a tag, or a commit with the tag in the comment.
pub proof fn unknown_versions_are_not_switched(
    uri: DocUri,
    pos: Position,
    body: Body,
    t: Seq<char>,
    diag: Option<DiagnosticV>,
    facts: SourceFacts,
    newer: Seq<NewerTag>,
    major: Option<u64>,
    a: CodeActionV,
)
    ensures
        switch_version(uri, pos, body, t, diag, facts, newer, major).contains(a) <==> {
            &&& source_under(body, t, pos) is Some
            &&& facts.is_git && facts.reference is Some
            &&& !facts.is_sha || facts.comment_tag is Some
            &&& exists|i: int|
                0 <= i < offered(newer, major).len() && switch_to(
                    uri,
                    diag,
                    t,
                    (source_under(body, t, pos)->0).0,
                    facts.ref_span,
                )(#[trigger] offered(newer, major)[i]) == Some(a)
        },
{
    if source_under(body, t, pos) is Some {
        let f = switch_to(uri, diag, t, (source_under(body, t, pos)->0).0, facts.ref_span);
        lemma_filter_map_contains(offered(newer, major), f, a);
    }
}

} // verus!
