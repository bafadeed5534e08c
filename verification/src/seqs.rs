//! Sequence combinators that the contracts are written with.

use vstd::prelude::*;

verus! {

/// What `f` gives on the elements of `s`, where it gives something.
pub open spec fn filter_map<A, B>(s: Seq<A>, f: spec_fn(A) -> Option<B>) -> Seq<B>
    decreases s.len(),
{
    if s.len() == 0 {
        Seq::empty()
    } else {
        let rest = filter_map(s.drop_last(), f);
        match f(s.last()) {
            Some(b) => rest.push(b),
            None => rest,
        }
    }
}

/// What `f` gives on the elements of `s`, one after another.
pub open spec fn flat_map<A, B>(s: Seq<A>, f: spec_fn(A) -> Seq<B>) -> Seq<B>
    decreases s.len(),
{
    if s.len() == 0 {
        Seq::empty()
    } else {
        flat_map(s.drop_last(), f) + f(s.last())
    }
}

/// The elements of `s` that satisfy `p`.
pub open spec fn keep<A>(s: Seq<A>, p: spec_fn(A) -> bool) -> Seq<A>
    decreases s.len(),
{
    if s.len() == 0 {
        Seq::empty()
    } else if p(s.last()) {
        keep(s.drop_last(), p).push(s.last())
    } else {
        keep(s.drop_last(), p)
    }
}

/// The first element of `s` on which `f` gives something, through `f`.
pub open spec fn find_map<A, B>(s: Seq<A>, f: spec_fn(A) -> Option<B>) -> Option<B>
    decreases s.len(),
{
    if s.len() == 0 {
        None
    } else {
        match f(s[0]) {
            Some(b) => Some(b),
            None => find_map(s.skip(1), f),
        }
    }
}

/// The index of the first element at or after `from` that satisfies `p`.
pub open spec fn position_from<A>(s: Seq<A>, p: spec_fn(A) -> bool, from: int) -> Option<int>
    decreases s.len() - from,
{
    if from >= s.len() {
        None
    } else if p(s[from]) {
        Some(from)
    } else {
        position_from(s, p, from + 1)
    }
}

/// `f` on each element.
pub open spec fn each<A, B>(s: Seq<A>, f: spec_fn(A) -> B) -> Seq<B> {
    Seq::new(s.len(), |i: int| f(s[i]))
}

pub proof fn lemma_filter_map_step<A, B>(s: Seq<A>, f: spec_fn(A) -> Option<B>, i: int)
    requires
        0 <= i < s.len(),
    ensures
        filter_map(s.take(i + 1), f) == match f(s[i]) {
            Some(b) => filter_map(s.take(i), f).push(b),
            None => filter_map(s.take(i), f),
        },
{
    assert(s.take(i + 1).drop_last() =~= s.take(i));
}

pub proof fn lemma_flat_map_step<A, B>(s: Seq<A>, f: spec_fn(A) -> Seq<B>, i: int)
    requires
        0 <= i < s.len(),
    ensures
        flat_map(s.take(i + 1), f) == flat_map(s.take(i), f) + f(s[i]),
{
    assert(s.take(i + 1).drop_last() =~= s.take(i));
}

pub proof fn lemma_keep_step<A>(s: Seq<A>, p: spec_fn(A) -> bool, i: int)
    requires
        0 <= i < s.len(),
    ensures
        keep(s.take(i + 1), p) == if p(s[i]) {
            keep(s.take(i), p).push(s[i])
        } else {
            keep(s.take(i), p)
        },
{
    assert(s.take(i + 1).drop_last() =~= s.take(i));
}

pub proof fn lemma_find_map_step<A, B>(s: Seq<A>, f: spec_fn(A) -> Option<B>, i: int)
    requires
        0 <= i < s.len(),
    ensures
        find_map(s.skip(i), f) == match f(s[i]) {
            Some(b) => Some(b),
            None => find_map(s.skip(i + 1), f),
        },
{
    assert(s.skip(i).skip(1) =~= s.skip(i + 1));
}

pub proof fn lemma_take_full<A>(s: Seq<A>)
    ensures
        s.take(s.len() as int) == s,
        s.skip(0) == s,
        s.skip(s.len() as int) == Seq::<A>::empty(),
        s.take(0) == Seq::<A>::empty(),
{
    assert(s.take(s.len() as int) =~= s);
    assert(s.skip(0) =~= s);
    assert(s.skip(s.len() as int) =~= Seq::<A>::empty());
    assert(s.take(0) =~= Seq::<A>::empty());
}

/// What a filter gives comes from an element.
pub proof fn lemma_filter_map_from<A, B>(s: Seq<A>, f: spec_fn(A) -> Option<B>, y: B)
    requires
        filter_map(s, f).contains(y),
    ensures
        exists|i: int| 0 <= i < s.len() && f(#[trigger] s[i]) == Some(y),
    decreases s.len(),
{
    let r = filter_map(s, f);
    let k = choose|k: int| 0 <= k < r.len() && r[k] == y;
    if s.len() > 0 {
        let rest = filter_map(s.drop_last(), f);
        if k < rest.len() {
            assert(rest[k] == y);
            lemma_filter_map_from(s.drop_last(), f, y);
            let i = choose|i: int|
                0 <= i < s.len() - 1 && f(#[trigger] s.drop_last()[i]) == Some(y);
            assert(s[i] == s.drop_last()[i]);
        } else {
            assert(f(s[s.len() - 1]) == Some(y));
        }
    }
}

/// Every kept element is an element that satisfies the predicate, and none
/// that does is left out.
pub proof fn lemma_keep_contains<A>(s: Seq<A>, p: spec_fn(A) -> bool, x: A)
    ensures
        keep(s, p).contains(x) <==> s.contains(x) && p(x),
    decreases s.len(),
{
    if s.len() > 0 {
        lemma_keep_contains(s.drop_last(), p, x);
        let k = keep(s.drop_last(), p);
        if p(s.last()) {
            let r = keep(s, p);
            if r.contains(x) {
                let i = choose|i: int| 0 <= i < r.len() && r[i] == x;
                if i < k.len() {
                    assert(k[i] == x);
                }
            }
            if k.contains(x) {
                let i = choose|i: int| 0 <= i < k.len() && k[i] == x;
                assert(r[i] == x);
            }
            assert(r[r.len() - 1] == s.last());
        }
        if s.contains(x) {
            let i = choose|i: int| 0 <= i < s.len() && s[i] == x;
            if i < s.len() - 1 {
                assert(s.drop_last()[i] == x);
            }
        }
        if s.drop_last().contains(x) {
            let i = choose|i: int| 0 <= i < s.drop_last().len() && s.drop_last()[i] == x;
            assert(s[i] == x);
        }
        assert(s[s.len() - 1] == s.last());
    }
}

/// What is found in a sequence is what the first element that gives something
/// gives.
pub proof fn lemma_find_map_at<A, B>(s: Seq<A>, f: spec_fn(A) -> Option<B>, i: int)
    requires
        0 <= i < s.len(),
        f(s[i]) is Some,
        forall|j: int| 0 <= j < i ==> f(#[trigger] s[j]) is None,
    ensures
        find_map(s, f) == f(s[i]),
    decreases i,
{
    if i > 0 {
        assert(f(s[0]) is None);
        let rest = s.skip(1);
        assert(rest[i - 1] == s[i]);
        assert forall|j: int| 0 <= j < i - 1 implies f(#[trigger] rest[j]) is None by {
            assert(rest[j] == s[j + 1]);
        }
        lemma_find_map_at(rest, f, i - 1);
    }
}

/// What is found comes from the first element that gives something; where
/// nothing is found no element gives anything.
pub proof fn lemma_find_map_first<A, B>(s: Seq<A>, f: spec_fn(A) -> Option<B>) -> (i: int)
    ensures
        match find_map(s, f) {
            Some(b) => 0 <= i < s.len() && f(s[i]) == Some(b) && forall|j: int|
                0 <= j < i ==> f(#[trigger] s[j]) is None,
            None => forall|j: int| 0 <= j < s.len() ==> f(#[trigger] s[j]) is None,
        },
    decreases s.len(),
{
    if s.len() == 0 || f(s[0]) is Some {
        0
    } else {
        let rest = s.skip(1);
        let k = lemma_find_map_first(rest, f);
        if find_map(s, f) is Some {
            assert(rest[k] == s[k + 1]);
            assert forall|j: int| 0 <= j < k + 1 implies f(#[trigger] s[j]) is None by {
                if j > 0 {
                    assert(rest[j - 1] == s[j]);
                }
            }
        } else {
            assert forall|j: int| 0 <= j < s.len() implies f(#[trigger] s[j]) is None by {
                if j > 0 {
                    assert(rest[j - 1] == s[j]);
                }
            }
        }
        k + 1
    }
}

/// A filter gives what some element gives, and nothing else.
pub proof fn lemma_filter_map_contains<A, B>(s: Seq<A>, f: spec_fn(A) -> Option<B>, y: B)
    ensures
        filter_map(s, f).contains(y) <==> exists|i: int|
            0 <= i < s.len() && f(#[trigger] s[i]) == Some(y),
    decreases s.len(),
{
    if filter_map(s, f).contains(y) {
        lemma_filter_map_from(s, f, y);
    }
    if exists|i: int| 0 <= i < s.len() && f(#[trigger] s[i]) == Some(y) {
        let i = choose|i: int| 0 <= i < s.len() && f(#[trigger] s[i]) == Some(y);
        let rest = filter_map(s.drop_last(), f);
        let all = filter_map(s, f);
        if i < s.len() - 1 {
            assert(s.drop_last()[i] == s[i]);
            lemma_filter_map_contains(s.drop_last(), f, y);
            let k = choose|k: int| 0 <= k < rest.len() && rest[k] == y;
            assert(all[k] == y);
        } else {
            assert(all[all.len() - 1] == y);
        }
    }
}

/// What all elements give together is what some element gives.
pub proof fn lemma_flat_map_contains<A, B>(s: Seq<A>, f: spec_fn(A) -> Seq<B>, y: B)
    ensures
        flat_map(s, f).contains(y) <==> exists|i: int|
            0 <= i < s.len() && (#[trigger] f(s[i])).contains(y),
    decreases s.len(),
{
    if s.len() > 0 {
        let front = flat_map(s.drop_last(), f);
        let back = f(s.last());
        let all = flat_map(s, f);
        lemma_flat_map_contains(s.drop_last(), f, y);
        if all.contains(y) {
            let k = choose|k: int| 0 <= k < all.len() && all[k] == y;
            if k < front.len() {
                assert(front[k] == y);
                let i = choose|i: int|
                    0 <= i < s.len() - 1 && (#[trigger] f(s.drop_last()[i])).contains(y);
                assert(s.drop_last()[i] == s[i]);
                assert(f(s[i]).contains(y));
            } else {
                assert(back[k - front.len()] == y);
                assert(f(s[s.len() - 1]).contains(y));
            }
        }
        if exists|i: int| 0 <= i < s.len() && (#[trigger] f(s[i])).contains(y) {
            let i = choose|i: int| 0 <= i < s.len() && (#[trigger] f(s[i])).contains(y);
            if i < s.len() - 1 {
                assert(s.drop_last()[i] == s[i]);
                assert(f(s.drop_last()[i]).contains(y));
                let k = choose|k: int| 0 <= k < front.len() && front[k] == y;
                assert(all[k] == y);
            } else {
                let k = choose|k: int| 0 <= k < back.len() && back[k] == y;
                assert(all[front.len() + k] == y);
            }
        }
    }
}

/// A mapped sequence holds what some element gives.
pub proof fn lemma_each_contains<A, B>(s: Seq<A>, f: spec_fn(A) -> B, y: B)
    ensures
        each(s, f).contains(y) <==> exists|i: int| 0 <= i < s.len() && f(#[trigger] s[i]) == y,
{
    if each(s, f).contains(y) {
        let i = choose|i: int| 0 <= i < each(s, f).len() && each(s, f)[i] == y;
        assert(f(s[i]) == y);
    }
    if exists|i: int| 0 <= i < s.len() && f(#[trigger] s[i]) == y {
        let i = choose|i: int| 0 <= i < s.len() && f(#[trigger] s[i]) == y;
        assert(each(s, f)[i] == y);
    }
}

/// A joined sequence holds what one of the two holds.
pub proof fn lemma_plus_contains<A>(a: Seq<A>, b: Seq<A>, y: A)
    ensures
        (a + b).contains(y) <==> a.contains(y) || b.contains(y),
{
    if (a + b).contains(y) {
        let i = choose|i: int| 0 <= i < (a + b).len() && (a + b)[i] == y;
        if i < a.len() {
            assert(a[i] == y);
        } else {
            assert(b[i - a.len()] == y);
        }
    }
    if a.contains(y) {
        let i = choose|i: int| 0 <= i < a.len() && a[i] == y;
        assert((a + b)[i] == y);
    }
    if b.contains(y) {
        let i = choose|i: int| 0 <= i < b.len() && b[i] == y;
        assert((a + b)[a.len() + i] == y);
    }
}

} // verus!
