//! ASCII identifiers in text.

use crate::text::{find_from, occurs_at};
use vstd::prelude::*;

verus! {

/// An ASCII letter or digit.
pub open spec fn ascii_alphanumeric(c: char) -> bool {
    let n = c as u32;
    (48 <= n && n <= 57) || ascii_alphabetic(c)
}

pub open spec fn ascii_alphabetic(c: char) -> bool {
    let n = c as u32;
    (65 <= n && n <= 90) || (97 <= n && n <= 122)
}

/// A character of an identifier.
pub open spec fn ident_char(c: char) -> bool {
    ascii_alphanumeric(c) || c == '_'
}

pub fn is_ascii_alphabetic(c: char) -> (r: bool)
    ensures
        r == ascii_alphabetic(c),
{
    let n = c as u32;
    (65 <= n && n <= 90) || (97 <= n && n <= 122)
}

pub fn is_ident_char(c: char) -> (r: bool)
    ensures
        r == ident_char(c),
{
    let n = c as u32;
    (48 <= n && n <= 57) || is_ascii_alphabetic(c) || c == '_'
}

/// The end of the identifier that starts at `i`.
pub open spec fn ident_end(t: Seq<char>, i: int) -> int
    decreases t.len() - i,
{
    if 0 <= i < t.len() && ident_char(t[i]) {
        ident_end(t, i + 1)
    } else {
        i
    }
}

pub fn slice_ident_end(t: &[char], i: usize) -> (r: usize)
    requires
        i <= t@.len(),
    ensures
        r == ident_end(t@, i as int),
        i <= r <= t@.len(),
{
    let mut k: usize = i;
    while k < t.len() && is_ident_char(t[k])
        invariant
            i <= k <= t@.len(),
            ident_end(t@, i as int) == ident_end(t@, k as int),
        ensures
            i <= k <= t@.len(),
            ident_end(t@, i as int) == k,
        decreases t@.len() - k,
    {
        k += 1;
    }
    k
}

/// The start of the identifier that ends at `i`.
pub open spec fn ident_start(t: Seq<char>, i: int) -> int
    decreases i,
{
    if 0 < i <= t.len() && ident_char(t[i - 1]) {
        ident_start(t, i - 1)
    } else {
        i
    }
}

pub fn slice_ident_start(t: &[char], i: usize) -> (r: usize)
    requires
        i <= t@.len(),
    ensures
        r == ident_start(t@, i as int),
        r <= i,
{
    let mut k: usize = i;
    while k > 0 && is_ident_char(t[k - 1])
        invariant
            k <= i <= t@.len(),
            ident_start(t@, i as int) == ident_start(t@, k as int),
        ensures
            k <= i,
            ident_start(t@, i as int) == k,
        decreases k,
    {
        k -= 1;
    }
    k
}

/// The first character at or after `i` that is neither a blank nor a tab.
pub open spec fn after_blanks(t: Seq<char>, i: int) -> int
    decreases t.len() - i,
{
    if 0 <= i < t.len() && (t[i] == ' ' || t[i] == '\t') {
        after_blanks(t, i + 1)
    } else {
        i
    }
}

pub fn slice_after_blanks(t: &[char], i: usize) -> (r: usize)
    requires
        i <= t@.len(),
    ensures
        r == after_blanks(t@, i as int),
        i <= r <= t@.len(),
{
    let mut k: usize = i;
    while k < t.len() && (t[k] == ' ' || t[k] == '\t')
        invariant
            i <= k <= t@.len(),
            after_blanks(t@, i as int) == after_blanks(t@, k as int),
        ensures
            i <= k <= t@.len(),
            after_blanks(t@, i as int) == k,
        decreases t@.len() - k,
    {
        k += 1;
    }
    k
}

/// ASCII whitespace.
pub open spec fn ascii_space(c: char) -> bool {
    c == ' ' || c == '\t' || c == '\n' || c == '\u{c}' || c == '\r'
}

/// The first character at or after `i` that is no ASCII whitespace.
pub open spec fn after_space(t: Seq<char>, i: int) -> int
    decreases t.len() - i,
{
    if 0 <= i < t.len() && ascii_space(t[i]) {
        after_space(t, i + 1)
    } else {
        i
    }
}

pub fn slice_after_space(t: &[char], i: usize) -> (r: usize)
    requires
        i <= t@.len(),
    ensures
        r == after_space(t@, i as int),
        i <= r <= t@.len(),
{
    let mut k: usize = i;
    while k < t.len() && (t[k] == ' ' || t[k] == '\t' || t[k] == '\n' || t[k] == '\u{c}' || t[k]
        == '\r')
        invariant
            i <= k <= t@.len(),
            after_space(t@, i as int) == after_space(t@, k as int),
        ensures
            i <= k <= t@.len(),
            after_space(t@, i as int) == k,
        decreases t@.len() - k,
    {
        k += 1;
    }
    k
}

pub proof fn lemma_ident_end(t: Seq<char>, i: int)
    requires
        0 <= i <= t.len(),
    ensures
        i <= ident_end(t, i) <= t.len(),
    decreases t.len() - i,
{
    if i < t.len() && ident_char(t[i]) {
        lemma_ident_end(t, i + 1);
    }
}

pub proof fn lemma_find_from(s: Seq<char>, p: Seq<char>, from: int)
    requires
        0 <= from,
    ensures
        find_from(s, p, from) matches Some(k) ==> from <= k && k + p.len() <= s.len() && occurs_at(
            s,
            p,
            k,
        ),
    decreases s.len() + 1 - from,
{
    if from + p.len() <= s.len() && !occurs_at(s, p, from) {
        lemma_find_from(s, p, from + 1);
    }
}

} // verus!
