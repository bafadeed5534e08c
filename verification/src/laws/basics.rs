//! Positions, ranges and texts: what the operations on them mean.

use crate::position::{range_contains, range_within, Position, Range};
use crate::scope::intersects;
use crate::text::{
    char_is_whitespace, decimal, find_char, join, split_from, split_once, trim, trim_end,
    trim_start,
};
use vstd::prelude::*;

verus! {

/// A position does not stand behind another.
pub open spec fn not_after(a: Position, b: Position) -> bool {
    a.line < b.line || (a.line == b.line && a.character <= b.character)
}

/// A range holds the positions from its start to its end, both among them.
pub proof fn ranges_hold_both_ends(range: Range, pos: Position)
    ensures
        range_contains(range, pos) <==> not_after(range.start, pos) && not_after(pos, range.end),
        not_after(range.start, range.end) ==> range_contains(range, range.start)
            && range_contains(range, range.end),
{
}

/// A range lies within another exactly where that one holds both its ends.
pub proof fn ranges_within_are_held(outer: Range, inner: Range)
    requires
        not_after(inner.start, inner.end),
    ensures
        range_within(outer, inner) <==> range_contains(outer, inner.start) && range_contains(
            outer,
            inner.end,
        ),
{
}

/// Two ranges meet exactly where neither ends before the other starts.
pub proof fn ranges_meet(a: Range, b: Range)
    ensures
        intersects(a, b) <==> not_after(a.start, b.end) && not_after(b.start, a.end),
        intersects(a, b) == intersects(b, a),
{
}

/// A character does not occur from an index on, or the first one is found.
pub proof fn characters_are_found(s: Seq<char>, c: char, from: int)
    requires
        0 <= from,
    ensures
        match find_char(s, c, from) {
            Some(i) => from <= i < s.len() && s[i] == c && (forall|j: int|
                from <= j < i ==> #[trigger] s[j] != c),
            None => forall|j: int| from <= j < s.len() ==> #[trigger] s[j] != c,
        },
    decreases s.len() - from,
{
    if from < s.len() && s[from] != c {
        characters_are_found(s, c, from + 1);
    }
}

/// A text is cut in two at the first occurrence of a character.
pub proof fn texts_are_cut_once(a: Seq<char>, b: Seq<char>, c: char)
    requires
        !a.contains(c),
    ensures
        split_once(a + seq![c] + b, c) == Some((a, b)),
        split_once(a, c) is None,
{
    let s = a + seq![c] + b;
    characters_are_found(s, c, 0);
    characters_are_found(a, c, 0);
    assert(s[a.len() as int] == c);
    assert forall|j: int| 0 <= j < a.len() implies #[trigger] s[j] != c by {
        assert(s[j] == a[j]);
    }
    let i = find_char(s, c, 0)->0;
    assert(i == a.len());
    assert(s.take(i) =~= a);
    assert(s.skip(i + 1) =~= b);
}

/// The pieces between the occurrences of a character, joined with it, are the
/// text, and no piece has the character.
pub proof fn pieces_make_up_the_text(s: Seq<char>, c: char, from: int)
    requires
        0 <= from <= s.len(),
    ensures
        split_from(s, c, from).len() > 0,
        join(split_from(s, c, from), seq![c]) == s.skip(from),
        forall|i: int|
            0 <= i < split_from(s, c, from).len() ==> !(#[trigger] split_from(
                s,
                c,
                from,
            )[i]).contains(c),
    decreases s.len() - from,
{
    characters_are_found(s, c, from);
    let v = split_from(s, c, from);
    match find_char(s, c, from) {
        Some(i) => {
            pieces_make_up_the_text(s, c, i + 1);
            let rest = split_from(s, c, i + 1);
            let first = s.subrange(from, i);
            assert(v == seq![first] + rest);
            lemma_join_front(first, rest, seq![c]);
            assert(s.skip(from) =~= first + seq![c] + s.skip(i + 1));
            assert forall|k: int| 0 <= k < v.len() implies !(#[trigger] v[k]).contains(c) by {
                if k > 0 {
                    assert(v[k] == rest[k - 1]);
                } else {
                    assert(v[0] == first);
                    if first.contains(c) {
                        let j = choose|j: int| 0 <= j < first.len() && first[j] == c;
                        assert(s[from + j] == c);
                    }
                }
            }
        },
        None => {
            let first = s.subrange(from, s.len() as int);
            assert(v =~= seq![first]);
            assert(first =~= s.skip(from));
            lemma_join_one(first, seq![c]);
            if first.contains(c) {
                let j = choose|j: int| 0 <= j < first.len() && first[j] == c;
                assert(s[from + j] == c);
            }
        },
    }
}

proof fn lemma_join_one(a: Seq<char>, sep: Seq<char>)
    ensures
        join(seq![a], sep) == a,
{
    reveal_with_fuel(join, 2);
    assert(join(seq![a], sep) =~= a);
}

proof fn lemma_join_front(a: Seq<char>, rest: Seq<Seq<char>>, sep: Seq<char>)
    requires
        rest.len() > 0,
    ensures
        join(seq![a] + rest, sep) == a + sep + join(rest, sep),
    decreases rest.len(),
{
    let v = seq![a] + rest;
    if rest.len() == 1 {
        lemma_join_one(a, sep);
        lemma_join_one(rest[0], sep);
        assert(rest =~= seq![rest[0]]);
        assert(v.drop_last() =~= seq![a]);
        assert(v.last() == rest[0]);
        assert(join(v, sep) =~= a + sep + rest[0]);
    } else {
        lemma_join_front(a, rest.drop_last(), sep);
        assert(v.drop_last() =~= seq![a] + rest.drop_last());
        assert(v.last() == rest.last());
        assert(join(v, sep) =~= a + sep + join(rest, sep));
    }
}

/// Every character is whitespace.
pub open spec fn blank(s: Seq<char>) -> bool {
    forall|i: int| 0 <= i < s.len() ==> char_is_whitespace(#[trigger] s[i])
}

/// Trimming takes whitespace off both ends and nothing else.
pub proof fn trimming_keeps_the_content(s: Seq<char>) -> (r: (Seq<char>, Seq<char>))
    ensures
        s == r.0 + trim(s) + r.1,
        blank(r.0),
        blank(r.1),
        trim(s).len() > 0 ==> !char_is_whitespace(trim(s)[0]) && !char_is_whitespace(
            trim(s).last(),
        ),
{
    let a = lemma_trim_start(s);
    let b = lemma_trim_end(trim_start(s));
    assert(s =~= a + trim(s) + b);
    if trim(s).len() > 0 {
        assert(trim_start(s)[0] == trim(s)[0]);
    }
    (a, b)
}

proof fn lemma_trim_start(s: Seq<char>) -> (a: Seq<char>)
    ensures
        s == a + trim_start(s),
        blank(a),
        trim_start(s).len() > 0 ==> !char_is_whitespace(trim_start(s)[0]),
    decreases s.len(),
{
    if s.len() > 0 && char_is_whitespace(s[0]) {
        let a = lemma_trim_start(s.skip(1));
        let r = seq![s[0]] + a;
        assert(s =~= seq![s[0]] + s.skip(1));
        assert(s == seq![s[0]] + (a + trim_start(s)));
        assert(s =~= r + trim_start(s));
        assert forall|i: int| 0 <= i < r.len() implies char_is_whitespace(#[trigger] r[i]) by {
            if i > 0 {
                assert(r[i] == a[i - 1]);
            }
        }
        r
    } else {
        assert(s =~= Seq::empty() + s);
        Seq::empty()
    }
}

proof fn lemma_trim_end(s: Seq<char>) -> (b: Seq<char>)
    ensures
        s == trim_end(s) + b,
        blank(b),
        trim_end(s).len() > 0 ==> !char_is_whitespace(trim_end(s).last()),
    decreases s.len(),
{
    if s.len() > 0 && char_is_whitespace(s.last()) {
        let b = lemma_trim_end(s.drop_last());
        let r = b.push(s.last());
        assert(s =~= s.drop_last().push(s.last()));
        assert(s == (trim_end(s) + b).push(s.last()));
        assert(s =~= trim_end(s) + r);
        r
    } else {
        assert(s =~= s + Seq::empty());
        Seq::empty()
    }
}

/// A text that neither starts nor ends with whitespace is trimmed already.
pub proof fn trimmed_texts_stay(s: Seq<char>)
    requires
        s.len() > 0 ==> !char_is_whitespace(s[0]) && !char_is_whitespace(s.last()),
    ensures
        trim(s) == s,
{
}

/// Spaces, tabs and line breaks are whitespace; letters, digits and the marks of
/// identifiers are not.
pub proof fn whitespace_parts_words(c: char)
    ensures
        c == ' ' || c == '\t' || c == '\n' || c == '\r' ==> char_is_whitespace(c),
        'a' <= c <= 'z' || 'A' <= c <= 'Z' || '0' <= c <= '9' || c == '_' || c == '-' || c == '.'
            || c == '"' ==> !char_is_whitespace(c),
{
}

/// The digits of a number, read from the left, are the number again.
pub open spec fn number_of(s: Seq<char>) -> int
    decreases s.len(),
{
    if s.len() == 0 {
        0
    } else {
        number_of(s.drop_last()) * 10 + (s.last() as int - '0' as int)
    }
}

/// A number is written with its decimal digits, none too many.
pub proof fn numbers_are_written_in_decimal(n: nat)
    ensures
        number_of(decimal(n)) == n,
        decimal(n).len() > 0,
        forall|i: int| 0 <= i < decimal(n).len() ==> '0' <= #[trigger] decimal(n)[i] <= '9',
        n > 0 ==> decimal(n)[0] != '0',
    decreases n,
{
    let d = decimal(n);
    reveal_with_fuel(number_of, 2);
    if n >= 10 {
        numbers_are_written_in_decimal(n / 10);
        assert(d.drop_last() =~= decimal(n / 10));
        assert(d[0] == decimal(n / 10)[0]);
        assert forall|i: int| 0 <= i < d.len() implies '0' <= #[trigger] d[i] <= '9' by {
            if i < d.len() - 1 {
                assert(d[i] == decimal(n / 10)[i]);
            }
        }
    }
}

} // verus!
