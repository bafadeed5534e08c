//! What the edits between two texts do: put into the old text, they give the
//! new one, and they leave alone what both have.

use crate::formatting::{
    diff_lines, diff_lines_from, document_range, edits_between, edits_from, ends_diff_line,
    hunk_edits, identity, joined, line_position, line_diff_hunks, Hunk,
};
use crate::position::{
    char_at_byte, char_offset, char_position, lemma_char_at_byte, offset_position,
    position_offset, position_round_trip, short_text_has_positions, utf16_len, EditV, Position,
};
use crate::seqs::flat_map;
use vstd::prelude::*;

verus! {

// ---------------------------------------------------------------------
// Lines

proof fn lemma_flat_map_add<A, B>(s: Seq<A>, u: Seq<A>, f: spec_fn(A) -> Seq<B>)
    ensures
        flat_map(s + u, f) == flat_map(s, f) + flat_map(u, f),
    decreases u.len(),
{
    if u.len() == 0 {
        assert(s + u =~= s);
        assert(flat_map(s, f) + flat_map(u, f) =~= flat_map(s, f));
    } else {
        lemma_flat_map_add(s, u.drop_last(), f);
        assert((s + u).drop_last() =~= s + u.drop_last());
        assert(flat_map(s + u, f) =~= flat_map(s, f) + flat_map(u, f));
    }
}

/// Joining lines up to a place and from there on joins them all.
proof fn lemma_joined_split(lines: Seq<Seq<char>>, a: int, b: int, c: int)
    requires
        0 <= a <= b <= c <= lines.len(),
    ensures
        joined(lines, a, c) == joined(lines, a, b) + joined(lines, b, c),
{
    lemma_flat_map_add(lines.subrange(a, b), lines.subrange(b, c), identity());
    assert(lines.subrange(a, b) + lines.subrange(b, c) =~= lines.subrange(a, c));
}

proof fn lemma_joined_first(x: Seq<char>, rest: Seq<Seq<char>>, m: int)
    requires
        0 < m <= rest.len() + 1,
    ensures
        joined(seq![x] + rest, 0, m) == x + joined(rest, 0, m - 1),
{
    let all = seq![x] + rest;
    assert(all.subrange(0, m) =~= seq![x] + rest.subrange(0, m - 1));
    lemma_flat_map_add(seq![x], rest.subrange(0, m - 1), identity());
    assert(seq![x].drop_last() =~= Seq::<Seq<char>>::empty());
    assert(flat_map(seq![x].drop_last(), identity()) == Seq::<char>::empty());
    assert(flat_map(seq![x], identity()) =~= Seq::<char>::empty() + identity()(x));
}

proof fn lemma_joined_none(lines: Seq<Seq<char>>, a: int)
    requires
        0 <= a <= lines.len(),
    ensures
        joined(lines, a, a) == Seq::<char>::empty(),
{
    assert(lines.subrange(a, a) =~= Seq::<Seq<char>>::empty());
}

/// The lines of the rest of a text, joined, are the rest.
proof fn lemma_lines_join(t: Seq<char>, from: int, k: int)
    requires
        0 <= from <= k <= t.len(),
    ensures
        joined(
            diff_lines_from(t, from, k),
            0,
            diff_lines_from(t, from, k).len() as int,
        ) == t.subrange(from, t.len() as int),
    decreases t.len() - k,
{
    let lines = diff_lines_from(t, from, k);
    if k >= t.len() {
        if from < t.len() {
            let x = t.subrange(from, t.len() as int);
            lemma_joined_first(x, Seq::empty(), 1);
            lemma_joined_none(Seq::empty(), 0);
            assert(seq![x] + Seq::<Seq<char>>::empty() =~= seq![x]);
            assert(x + Seq::<char>::empty() =~= x);
        } else {
            lemma_joined_none(lines, 0);
            assert(t.subrange(from, t.len() as int) =~= Seq::<char>::empty());
        }
    } else if ends_diff_line(t, k) {
        let x = t.subrange(from, k + 1);
        let rest = diff_lines_from(t, k + 1, k + 1);
        lemma_lines_join(t, k + 1, k + 1);
        lemma_joined_first(x, rest, lines.len() as int);
        assert(x + t.subrange(k + 1, t.len() as int) =~= t.subrange(from, t.len() as int));
    } else {
        lemma_lines_join(t, from, k + 1);
    }
}

/// The first `o` lines of a text are its start, and all lines are the text.
pub proof fn lemma_line_starts(t: Seq<char>, o: int)
    requires
        0 <= o <= diff_lines(t).len(),
    ensures
        joined(diff_lines(t), 0, o).len() <= t.len(),
        joined(diff_lines(t), 0, o) == t.take(joined(diff_lines(t), 0, o).len() as int),
        o == 0 ==> joined(diff_lines(t), 0, o).len() == 0,
        o == diff_lines(t).len() ==> joined(diff_lines(t), 0, o) == t,
{
    let lines = diff_lines(t);
    let last = lines.len() as int;
    lemma_lines_join(t, 0, 0);
    assert(t.subrange(0, t.len() as int) =~= t);
    lemma_joined_split(lines, 0, o, last);
    if o == 0 {
        lemma_joined_none(lines, 0);
    }
    let a = joined(lines, 0, o);
    assert(a =~= (a + joined(lines, o, last)).take(a.len() as int));
}

/// One more line is joined at the end.
pub proof fn lemma_joined_step(lines: Seq<Seq<char>>, o: int)
    requires
        0 <= o < lines.len(),
    ensures
        joined(lines, 0, o + 1) == joined(lines, 0, o) + lines[o],
{
    lemma_joined_split(lines, 0, o, o + 1);
    let one = lines.subrange(o, o + 1);
    assert(one =~= seq![lines[o]]);
    lemma_joined_first(lines[o], Seq::empty(), 1);
    assert(seq![lines[o]] + Seq::<Seq<char>>::empty() =~= seq![lines[o]]);
    assert(seq![lines[o]].subrange(0, 1) =~= seq![lines[o]]);
    lemma_joined_none(Seq::empty(), 0);
    assert(lines[o] + Seq::<char>::empty() =~= lines[o]);
}

/// The text between the starts of two lines is the lines between them.
proof fn lemma_lines_between(t: Seq<char>, a: int, b: int)
    requires
        0 <= a <= b <= diff_lines(t).len(),
    ensures
        joined(diff_lines(t), 0, a).len() <= joined(diff_lines(t), 0, b).len() <= t.len(),
        t.subrange(
            joined(diff_lines(t), 0, a).len() as int,
            joined(diff_lines(t), 0, b).len() as int,
        ) == joined(diff_lines(t), a, b),
{
    let lines = diff_lines(t);
    lemma_line_starts(t, a);
    lemma_line_starts(t, b);
    lemma_joined_split(lines, 0, a, b);
    let s = joined(lines, 0, a);
    let j = joined(lines, a, b);
    assert((s + j).subrange(s.len() as int, (s + j).len() as int) =~= j);
    assert(t.take((s + j).len() as int).subrange(s.len() as int, (s + j).len() as int)
        =~= t.subrange(s.len() as int, (s + j).len() as int));
}

// ---------------------------------------------------------------------
// Applying edits

/// The character that a position stands before.
pub open spec fn char_at_position(t: Seq<char>, p: Position) -> int {
    match position_offset(t, p) {
        Some(b) => char_at_byte(t, b as nat),
        None => t.len() as int,
    }
}

/// The text from character `k` on with edits put in that are in the order of
/// the text and do not overlap.
pub open spec fn applied(t: Seq<char>, edits: Seq<EditV>, k: int) -> Seq<char>
    decreases edits.len(),
{
    if edits.len() == 0 {
        t.skip(k)
    } else {
        t.subrange(k, char_at_position(t, edits[0].range.start)) + edits[0].new_text + applied(
            t,
            edits.skip(1),
            char_at_position(t, edits[0].range.end),
        )
    }
}

proof fn lemma_position_of(t: Seq<char>, k: int)
    requires
        utf16_len(t) <= u32::MAX,
        0 <= k <= t.len(),
    ensures
        offset_position(t, char_offset(t, k)) matches Some(p) && char_at_position(t, p) == k,
{
    short_text_has_positions(t, k);
    position_round_trip(t, k);
    lemma_char_at_byte(t, k, 0);
}

/// The range of a text starts at its first character and ends behind its last.
proof fn lemma_document_range(t: Seq<char>)
    requires
        utf16_len(t) <= u32::MAX,
    ensures
        char_at_position(t, document_range(t).start) == 0,
        char_at_position(t, document_range(t).end) == t.len(),
{
    lemma_position_of(t, 0);
    lemma_char_at_byte(t, 0, 0);
    assert(t.take(0) =~= Seq::<char>::empty());
    assert(char_position(t, 0) == (0int, 0int));
    assert(offset_position(t, char_offset(t, 0)) == Some(document_range(t).start));
    lemma_position_of(t, t.len() as int);
    assert(t.take(t.len() as int) =~= t);
}

proof fn lemma_line_position(t: Seq<char>, o: int)
    requires
        utf16_len(t) <= u32::MAX,
        0 <= o <= diff_lines(t).len(),
    ensures
        char_at_position(t, line_position(t, diff_lines(t), o)) == joined(diff_lines(t), 0, o).len(),
{
    lemma_line_starts(t, o);
    lemma_position_of(t, joined(diff_lines(t), 0, o).len() as int);
}

proof fn lemma_applied(
    old: Seq<char>,
    new: Seq<char>,
    hunks: Seq<Hunk>,
    i: int,
    o: int,
    n: int,
    k: int,
)
    requires
        utf16_len(old) <= u32::MAX,
        0 <= i <= hunks.len(),
        0 <= o <= diff_lines(old).len(),
        0 <= n <= diff_lines(new).len(),
        edits_from(old, diff_lines(old), diff_lines(new), hunks, i, o, n) is Some,
        0 <= k <= joined(diff_lines(old), 0, o).len(),
    ensures
        applied(
            old,
            edits_from(old, diff_lines(old), diff_lines(new), hunks, i, o, n)->0,
            k,
        ) == old.subrange(k, joined(diff_lines(old), 0, o).len() as int) + joined(
            diff_lines(new),
            n,
            diff_lines(new).len() as int,
        ),
    decreases hunks.len() - i,
{
    let ol = diff_lines(old);
    let nl = diff_lines(new);
    let last = nl.len() as int;
    let s = joined(ol, 0, o).len() as int;
    lemma_line_starts(old, o);
    if i == hunks.len() {
        lemma_joined_none(nl, n);
        assert(old.skip(k) =~= old.subrange(k, s) + Seq::<char>::empty());
    } else {
        let h = hunks[i];
        let oe = o + (h.old_end - h.old_start);
        let ne = n + (h.new_end - h.new_start);
        lemma_lines_between(old, o, oe);
        lemma_joined_split(nl, n, ne, last);
        let e = joined(ol, 0, oe).len() as int;
        let rest = edits_from(old, ol, nl, hunks, i + 1, oe, ne)->0;
        if h.equal {
            lemma_applied(old, new, hunks, i + 1, oe, ne, k);
            assert(joined(ol, o, oe) == joined(nl, n, ne));
            assert(old.subrange(k, e) =~= old.subrange(k, s) + old.subrange(s, e));
            assert(old.subrange(k, e) + joined(nl, ne, last) =~= old.subrange(k, s) + (joined(
                nl,
                n,
                ne,
            ) + joined(nl, ne, last)));
        } else {
            let all = edits_from(old, ol, nl, hunks, i, o, n)->0;
            assert(all.skip(1) =~= rest);
            lemma_line_position(old, o);
            lemma_line_position(old, oe);
            lemma_applied(old, new, hunks, i + 1, oe, ne, e);
            assert(old.subrange(e, e) =~= Seq::<char>::empty());
            assert(applied(old, all, k) =~= old.subrange(k, s) + (joined(nl, n, ne) + joined(
                nl,
                ne,
                last,
            )));
        }
    }
}

// ---------------------------------------------------------------------
// Laws

/// Whatever the hunks are, the edits turn the old text into the new one.
pub proof fn edits_turn_old_into_new(old: Seq<char>, new: Seq<char>, hunks: Seq<Hunk>)
    requires
        utf16_len(old) <= u32::MAX,
    ensures
        applied(old, edits_between(old, new, hunks), 0) == new,
{
    match hunk_edits(old, new, hunks) {
        Some(edits) => {
            lemma_line_starts(old, 0);
            lemma_applied(old, new, hunks, 0, 0, 0, 0);
            lemma_line_starts(new, diff_lines(new).len() as int);
            assert(old.subrange(0, 0) + new =~= new);
        },
        None => {
            let edits = edits_between(old, new, hunks);
            let end = old.len() as int;
            assert(edits.skip(1) =~= Seq::<EditV>::empty());
            lemma_document_range(old);
            assert(applied(old, edits.skip(1), end) == old.skip(end));
            assert(applied(old, edits, 0) == old.subrange(0, 0) + new + applied(
                old,
                edits.skip(1),
                end,
            ));
            assert(old.subrange(0, 0) + new + old.skip(end) =~= new);
        },
    }
}

/// The minimal edits from a text to another give the other when they are
/// applied.
pub proof fn minimal_edits_round_trip(old: Seq<char>, new: Seq<char>)
    requires
        utf16_len(old) <= u32::MAX,
    ensures
        applied(old, edits_between(old, new, line_diff_hunks(old, new)), 0) == new,
{
    edits_turn_old_into_new(old, new, line_diff_hunks(old, new));
}

/// The old line that hunk `i` starts with.
pub open spec fn first_line(hunks: Seq<Hunk>, i: int) -> int
    decreases i,
{
    if i <= 0 {
        0
    } else {
        first_line(hunks, i - 1) + (hunks[i - 1].old_end - hunks[i - 1].old_start)
    }
}

/// An edit covers the lines from `a` to before `b`.
pub open spec fn covers_lines(t: Seq<char>, e: EditV, a: int, b: int) -> bool {
    0 <= a <= b <= diff_lines(t).len() && e.range.start == line_position(t, diff_lines(t), a)
        && e.range.end == line_position(t, diff_lines(t), b)
}

proof fn lemma_first_lines(
    t: Seq<char>,
    ol: Seq<Seq<char>>,
    nl: Seq<Seq<char>>,
    hunks: Seq<Hunk>,
    i: int,
    n: int,
    j: int,
)
    requires
        0 <= i <= j < hunks.len(),
        edits_from(t, ol, nl, hunks, i, first_line(hunks, i), n) is Some,
    ensures
        first_line(hunks, i) <= first_line(hunks, j) <= first_line(hunks, j + 1),
    decreases j - i,
{
    if i < j {
        lemma_first_lines(
            t,
            ol,
            nl,
            hunks,
            i + 1,
            n + (hunks[i].new_end - hunks[i].new_start),
            j,
        );
    }
}

proof fn lemma_covered(
    t: Seq<char>,
    nl: Seq<Seq<char>>,
    hunks: Seq<Hunk>,
    i: int,
    n: int,
    e: EditV,
    j: int,
)
    requires
        0 <= i <= hunks.len(),
        0 <= j < hunks.len(),
        hunks[j].equal,
        j < i ==> first_line(hunks, j + 1) <= first_line(hunks, i),
        0 <= first_line(hunks, i) <= diff_lines(t).len(),
        edits_from(t, diff_lines(t), nl, hunks, i, first_line(hunks, i), n) is Some,
        edits_from(t, diff_lines(t), nl, hunks, i, first_line(hunks, i), n)->0.contains(e),
    ensures
        exists|a: int, b: int| #[trigger]
            covers_lines(t, e, a, b) && (b <= first_line(hunks, j) || first_line(hunks, j + 1) <= a),
    decreases hunks.len() - i,
{
    if i < hunks.len() {
        let h = hunks[i];
        let o = first_line(hunks, i);
        let oe = first_line(hunks, i + 1);
        let ne = n + (h.new_end - h.new_start);
        let all = edits_from(t, diff_lines(t), nl, hunks, i, o, n)->0;
        let rest = edits_from(t, diff_lines(t), nl, hunks, i + 1, oe, ne)->0;
        if rest.contains(e) {
            lemma_covered(t, nl, hunks, i + 1, ne, e, j);
        } else {
            let k = choose|k: int| 0 <= k < all.len() && all[k] == e;
            if h.equal || k > 0 {
                assert(rest[if h.equal {
                    k
                } else {
                    k - 1
                }] == e);
            }
            assert(covers_lines(t, e, o, oe));
            if i < j {
                lemma_first_lines(t, diff_lines(t), nl, hunks, i + 1, ne, j);
            }
        }
    }
}

/// No edit of a hunk covers a line of a hunk that both texts have.
pub proof fn unchanged_lines_are_not_covered(
    old: Seq<char>,
    new: Seq<char>,
    hunks: Seq<Hunk>,
    e: EditV,
    j: int,
)
    requires
        hunk_edits(old, new, hunks) is Some,
        hunk_edits(old, new, hunks)->0.contains(e),
        0 <= j < hunks.len(),
        hunks[j].equal,
    ensures
        exists|a: int, b: int| #[trigger]
            covers_lines(old, e, a, b) && (b <= first_line(hunks, j) || first_line(hunks, j + 1)
                <= a),
{
    lemma_covered(old, diff_lines(new), hunks, 0, 0, e, j);
}

} // verus!
