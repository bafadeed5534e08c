//! Ordered sets of texts.

use crate::text::{chars_of, texts};
use vstd::prelude::*;

verus! {

/// `a` stands before `b` in the order of their characters.
pub open spec fn text_lt(a: Seq<char>, b: Seq<char>) -> bool
    decreases a.len(),
{
    if b.len() == 0 {
        false
    } else if a.len() == 0 {
        true
    } else if a[0] != b[0] {
        (a[0] as u32) < (b[0] as u32)
    } else {
        text_lt(a.skip(1), b.skip(1))
    }
}

/// Does `a` stand before `b`?
pub fn str_lt(a: &str, b: &str) -> (r: bool)
    ensures
        r == text_lt(a@, b@),
{
    let ac = chars_of(a);
    let bc = chars_of(b);
    let mut i: usize = 0;
    assert(a@.skip(0) =~= a@ && b@.skip(0) =~= b@);
    while i < ac.len() && i < bc.len()
        invariant
            ac@ == a@,
            bc@ == b@,
            i <= a@.len(),
            i <= b@.len(),
            text_lt(a@, b@) == text_lt(a@.skip(i as int), b@.skip(i as int)),
        decreases a@.len() - i,
    {
        if ac[i] != bc[i] {
            return (ac[i] as u32) < (bc[i] as u32);
        }
        assert(a@.skip(i as int).skip(1) =~= a@.skip(i + 1));
        assert(b@.skip(i as int).skip(1) =~= b@.skip(i + 1));
        i += 1;
    }
    i < bc.len()
}

proof fn lemma_code_points_differ(a: char, b: char)
    ensures
        a != b ==> a as u32 != b as u32,
{
}

/// The order is total: of two texts that differ one stands first.
pub proof fn lemma_text_lt_total(a: Seq<char>, b: Seq<char>)
    ensures
        text_lt(a, b) ==> !text_lt(b, a) && a != b,
        a != b ==> text_lt(a, b) || text_lt(b, a),
    decreases a.len(),
{
    if a.len() > 0 && b.len() > 0 {
        if a[0] == b[0] {
            lemma_text_lt_total(a.skip(1), b.skip(1));
            if a.skip(1) == b.skip(1) {
                assert forall|i: int| 0 <= i < a.len() implies a[i] == b[i] by {
                    if i > 0 {
                        assert(a.skip(1)[i - 1] == b.skip(1)[i - 1]);
                    }
                }
                assert(a.len() == a.skip(1).len() + 1);
                assert(a =~= b);
            }
            if a == b {
                assert(a.skip(1) == b.skip(1));
            }
        } else {
            lemma_code_points_differ(a[0], b[0]);
        }
    } else if a.len() == 0 && b.len() == 0 {
        assert(a =~= b);
    }
}

pub proof fn lemma_text_lt_transitive(a: Seq<char>, b: Seq<char>, c: Seq<char>)
    requires
        text_lt(a, b),
        text_lt(b, c),
    ensures
        text_lt(a, c),
    decreases a.len(),
{
    if a.len() > 0 && b.len() > 0 && c.len() > 0 && a[0] == b[0] && b[0] == c[0] {
        lemma_text_lt_transitive(a.skip(1), b.skip(1), c.skip(1));
    }
}

/// An item with an index before its text, as pairs are ordered.
pub open spec fn pair_lt(a: (int, Seq<char>), b: (int, Seq<char>)) -> bool {
    a.0 < b.0 || (a.0 == b.0 && text_lt(a.1, b.1))
}

/// `x` put where it belongs into an ascending sequence, unless it is there.
pub open spec fn insert_pair(s: Seq<(int, Seq<char>)>, x: (int, Seq<char>)) -> Seq<
    (int, Seq<char>),
>
    decreases s.len(),
{
    if s.len() == 0 {
        seq![x]
    } else if x == s.last() {
        s
    } else if pair_lt(s.last(), x) {
        s.push(x)
    } else {
        insert_pair(s.drop_last(), x).push(s.last())
    }
}

/// The elements of `s` in ascending order, each once.
pub open spec fn pair_set(s: Seq<(int, Seq<char>)>) -> Seq<(int, Seq<char>)>
    decreases s.len(),
{
    if s.len() == 0 {
        Seq::empty()
    } else {
        insert_pair(pair_set(s.drop_last()), s.last())
    }
}

pub open spec fn pairs_ascending(s: Seq<(int, Seq<char>)>) -> bool {
    forall|i: int, j: int| 0 <= i < j < s.len() ==> #[trigger] pair_lt(s[i], s[j])
}

proof fn lemma_pair_lt(a: (int, Seq<char>), b: (int, Seq<char>), c: (int, Seq<char>))
    ensures
        pair_lt(a, b) ==> a != b && !pair_lt(b, a),
        a != b ==> pair_lt(a, b) || pair_lt(b, a),
        pair_lt(a, b) && pair_lt(b, c) ==> pair_lt(a, c),
{
    lemma_text_lt_total(a.1, b.1);
    if text_lt(a.1, b.1) && text_lt(b.1, c.1) {
        lemma_text_lt_transitive(a.1, b.1, c.1);
    }
}

proof fn lemma_insert_pair(s: Seq<(int, Seq<char>)>, x: (int, Seq<char>))
    requires
        pairs_ascending(s),
    ensures
        pairs_ascending(insert_pair(s, x)),
        forall|y: (int, Seq<char>)|
            #![trigger insert_pair(s, x).contains(y)]
            insert_pair(s, x).contains(y) <==> s.contains(y) || y == x,
    decreases s.len(),
{
    let r = insert_pair(s, x);
    if s.len() == 0 {
        assert(r[0] == x);
    } else if x == s.last() {
        assert(s[s.len() - 1] == x);
    } else if pair_lt(s.last(), x) {
        assert forall|i: int, j: int| 0 <= i < j < r.len() implies #[trigger] pair_lt(
            r[i],
            r[j],
        ) by {
            if j == s.len() && i < s.len() - 1 {
                lemma_pair_lt(s[i], s.last(), x);
                assert(pair_lt(s[i], s[s.len() - 1]));
            }
        }
        assert forall|y: (int, Seq<char>)| #![trigger r.contains(y)] r.contains(y) <==> s.contains(
            y,
        ) || y == x by {
            if s.contains(y) {
                let i = choose|i: int| 0 <= i < s.len() && s[i] == y;
                assert(r[i] == y);
            }
            assert(r[s.len() as int] == x);
        }
    } else {
        let d = s.drop_last();
        assert(pairs_ascending(d)) by {
            assert forall|i: int, j: int| 0 <= i < j < d.len() implies #[trigger] pair_lt(
                d[i],
                d[j],
            ) by {
                assert(pair_lt(s[i], s[j]));
            }
        }
        lemma_insert_pair(d, x);
        let q = insert_pair(d, x);
        lemma_pair_lt(s.last(), x, x);
        assert forall|i: int, j: int| 0 <= i < j < r.len() implies #[trigger] pair_lt(
            r[i],
            r[j],
        ) by {
            if j == q.len() {
                assert(q.contains(q[i]));
                if q[i] != x {
                    let k = choose|k: int| 0 <= k < d.len() && d[k] == q[i];
                    assert(pair_lt(s[k], s[s.len() - 1]));
                }
            } else {
                assert(pair_lt(q[i], q[j]));
            }
        }
        assert forall|y: (int, Seq<char>)| #![trigger r.contains(y)] r.contains(y) <==> s.contains(
            y,
        ) || y == x by {
            if r.contains(y) {
                let i = choose|i: int| 0 <= i < r.len() && r[i] == y;
                if i < q.len() {
                    assert(q.contains(q[i]));
                    if y != x {
                        let k = choose|k: int| 0 <= k < d.len() && d[k] == y;
                        assert(s[k] == y);
                    }
                } else {
                    assert(s[s.len() - 1] == y);
                }
            }
            if s.contains(y) {
                let k = choose|k: int| 0 <= k < s.len() && s[k] == y;
                if k < d.len() {
                    assert(d[k] == y);
                    assert(q.contains(y));
                    let i = choose|i: int| 0 <= i < q.len() && q[i] == y;
                    assert(r[i] == y);
                } else {
                    assert(r[q.len() as int] == y);
                }
            }
            if y == x {
                assert(q.contains(y));
                let i = choose|i: int| 0 <= i < q.len() && q[i] == y;
                assert(r[i] == y);
            }
        }
    }
}

/// Sorting with removal of duplicates gives an ascending sequence of exactly
/// the given elements.
pub proof fn pair_set_is_ascending_set(s: Seq<(int, Seq<char>)>)
    ensures
        pairs_ascending(pair_set(s)),
        forall|y: (int, Seq<char>)|
            #![trigger pair_set(s).contains(y)]
            pair_set(s).contains(y) <==> s.contains(y),
    decreases s.len(),
{
    if s.len() > 0 {
        pair_set_is_ascending_set(s.drop_last());
        lemma_insert_pair(pair_set(s.drop_last()), s.last());
        assert forall|y: (int, Seq<char>)|
            #![trigger pair_set(s).contains(y)]
            pair_set(s).contains(y) <==> s.contains(y) by {
            if s.contains(y) {
                let i = choose|i: int| 0 <= i < s.len() && s[i] == y;
                if i < s.len() - 1 {
                    assert(s.drop_last()[i] == y);
                }
            }
            if s.drop_last().contains(y) {
                let i = choose|i: int| 0 <= i < s.drop_last().len() && s.drop_last()[i] == y;
                assert(s[i] == y);
            }
            assert(s[s.len() - 1] == s.last());
            assert(pair_set(s).contains(y) <==> pair_set(s.drop_last()).contains(y) || y
                == s.last());
        }
    }
}

/// The model of indexed names.
pub open spec fn pairs_view(v: Seq<(usize, String)>) -> Seq<(int, Seq<char>)> {
    Seq::new(v.len(), |i: int| (v[i].0 as int, v[i].1@))
}

fn insert_sorted(v: &mut Vec<(usize, String)>, x: (usize, String))
    ensures
        pairs_view(final(v)@) == insert_pair(pairs_view(old(v)@), (x.0 as int, x.1@)),
{
    let ghost s = pairs_view(v@);
    let ghost xv = (x.0 as int, x.1@);
    let mut i: usize = v.len();
    assert(s.take(i as int) =~= s);
    assert(s.skip(i as int) =~= Seq::<(int, Seq<char>)>::empty());
    assert(insert_pair(s, xv) =~= insert_pair(s.take(i as int), xv) + s.skip(i as int));
    while i > 0
        invariant
            i <= v@.len(),
            s == pairs_view(v@),
            v@ == old(v)@,
            xv == (x.0 as int, x.1@),
            insert_pair(s, xv) == insert_pair(s.take(i as int), xv) + s.skip(i as int),
        decreases i,
    {
        let ghost t = s.take(i as int);
        assert(t.last() == s[i - 1]);
        assert(t.drop_last() =~= s.take(i - 1));
        let same_index = v[i - 1].0 == x.0;
        if same_index && v[i - 1].1 == x.1 {
            assert(t + s.skip(i as int) =~= s);
            return;
        }
        if v[i - 1].0 < x.0 || (same_index && str_lt(v[i - 1].1.as_str(), x.1.as_str())) {
            let ghost before = v@;
            v.insert(i, x);
            assert(pairs_view(v@) =~= t.push(xv) + s.skip(i as int));
            return;
        }
        assert(insert_pair(t.drop_last(), xv).push(t.last()) + s.skip(i as int) =~= insert_pair(
            s.take(i - 1),
            xv,
        ) + s.skip(i - 1));
        i -= 1;
    }
    assert(s.take(0) =~= Seq::<(int, Seq<char>)>::empty());
    assert(s.skip(0) =~= s);
    v.insert(0, x);
    assert(pairs_view(v@) =~= seq![xv] + s);
}

/// The pairs in ascending order, each once.
pub fn sort_dedup_pairs(v: &Vec<(usize, String)>) -> (r: Vec<(usize, String)>)
    ensures
        pairs_view(r@) == pair_set(pairs_view(v@)),
{
    let mut out: Vec<(usize, String)> = Vec::new();
    let ghost s = pairs_view(v@);
    assert(s.take(0) =~= Seq::<(int, Seq<char>)>::empty());
    assert(pairs_view(out@) =~= pair_set(s.take(0)));
    for i in 0..v.len()
        invariant
            s == pairs_view(v@),
            pairs_view(out@) == pair_set(s.take(i as int)),
    {
        insert_sorted(&mut out, (v[i].0, v[i].1.clone()));
        assert(s.take(i + 1).drop_last() =~= s.take(i as int));
        assert(s.take(i + 1).last() == s[i as int]);
    }
    assert(s.take(s.len() as int) =~= s);
    out
}

/// Names as pairs with one index.
pub open spec fn as_pairs(s: Seq<Seq<char>>) -> Seq<(int, Seq<char>)> {
    Seq::new(s.len(), |i: int| (0int, s[i]))
}

/// The names in ascending order, each once.
pub open spec fn name_set(s: Seq<Seq<char>>) -> Seq<Seq<char>> {
    let p = pair_set(as_pairs(s));
    Seq::new(p.len(), |i: int| p[i].1)
}

/// The names in ascending order, each once.
pub fn sort_dedup_names(v: &Vec<String>) -> (r: Vec<String>)
    ensures
        texts(r@) == name_set(texts(v@)),
{
    let mut pairs: Vec<(usize, String)> = Vec::new();
    for i in 0..v.len()
        invariant
            pairs@.len() == i,
            forall|j: int| 0 <= j < i ==> (#[trigger] pairs@[j]).0 == 0 && pairs@[j].1@ == v@[j]@,
    {
        pairs.push((0, v[i].clone()));
    }
    assert(pairs_view(pairs@) =~= as_pairs(texts(v@)));
    let sorted = sort_dedup_pairs(&pairs);
    let mut out: Vec<String> = Vec::new();
    for i in 0..sorted.len()
        invariant
            out@.len() == i,
            forall|j: int| 0 <= j < i ==> (#[trigger] out@[j])@ == sorted@[j].1@,
    {
        out.push(sorted[i].1.clone());
    }
    assert(texts(out@) =~= name_set(texts(v@)));
    out
}

/// A name is in the set exactly if it is in the sequence.
pub proof fn name_set_contains(s: Seq<Seq<char>>, x: Seq<char>)
    ensures
        name_set(s).contains(x) <==> s.contains(x),
{
    let p = as_pairs(s);
    let q = pair_set(p);
    let r = name_set(s);
    pair_set_is_ascending_set(p);
    if s.contains(x) {
        let i = choose|i: int| 0 <= i < s.len() && s[i] == x;
        assert(p[i] == (0int, x));
        assert(q.contains((0int, x)));
        let k = choose|k: int| 0 <= k < q.len() && q[k] == (0int, x);
        assert(r[k] == x);
    }
    if r.contains(x) {
        let k = choose|k: int| 0 <= k < r.len() && r[k] == x;
        assert(q.contains(q[k]));
        let i = choose|i: int| 0 <= i < p.len() && p[i] == q[k];
        assert(s[i] == x);
    }
}

// ---------------------------------------------------------------------
// Sorting with duplicates

/// `x` put behind all texts of an ascending sequence that are not above it.
pub open spec fn insert_text(s: Seq<Seq<char>>, x: Seq<char>) -> Seq<Seq<char>>
    decreases s.len(),
{
    if s.len() > 0 && text_lt(x, s.last()) {
        insert_text(s.drop_last(), x).push(s.last())
    } else {
        s.push(x)
    }
}

/// The texts in ascending order, each as often as before.
pub open spec fn text_sort(s: Seq<Seq<char>>) -> Seq<Seq<char>>
    decreases s.len(),
{
    if s.len() == 0 {
        s
    } else {
        insert_text(text_sort(s.drop_last()), s.last())
    }
}

pub open spec fn texts_ascending(s: Seq<Seq<char>>) -> bool {
    forall|i: int, j: int|
        #![trigger s[i], s[j]]
        0 <= i < j < s.len() ==> !text_lt(s[j], s[i])
}

proof fn lemma_insert_text(s: Seq<Seq<char>>, x: Seq<char>)
    requires
        texts_ascending(s),
    ensures
        texts_ascending(insert_text(s, x)),
        insert_text(s, x).to_multiset() == s.to_multiset().insert(x),
        forall|j: int|
            0 <= j < insert_text(s, x).len() ==> (#[trigger] insert_text(s, x)[j]) == x
                || s.contains(insert_text(s, x)[j]),
    decreases s.len(),
{
    broadcast use vstd::seq_lib::group_to_multiset_ensures;

    if s.len() > 0 && text_lt(x, s.last()) {
        let d = s.drop_last();
        lemma_insert_text(d, x);
        let r = insert_text(d, x);
        let full = insert_text(s, x);
        assert(s =~= d.push(s.last()));
        assert forall|j: int| 0 <= j < full.len() implies (#[trigger] full[j]) == x || s.contains(
            full[j],
        ) by {
            if j < r.len() {
                assert(full[j] == r[j]);
                if r[j] != x {
                    let k = choose|k: int| 0 <= k < d.len() && d[k] == r[j];
                    assert(s[k] == r[j]);
                }
            } else {
                assert(full[j] == s[s.len() - 1]);
            }
        }
        assert forall|i: int, j: int|
            #![trigger full[i], full[j]]
            0 <= i < j < full.len() implies !text_lt(full[j], full[i]) by {
            if j < r.len() {
                assert(full[i] == r[i] && full[j] == r[j]);
            } else {
                assert(full[i] == r[i]);
                if r[i] == x {
                    lemma_text_lt_total(x, s.last());
                } else {
                    let k = choose|k: int| 0 <= k < d.len() && d[k] == r[i];
                    assert(s[k] == r[i]);
                    assert(!text_lt(s[s.len() - 1], s[k]));
                }
            }
        }
    } else {
        let full = s.push(x);
        assert forall|i: int, j: int|
            #![trigger full[i], full[j]]
            0 <= i < j < full.len() implies !text_lt(full[j], full[i]) by {
            if j == s.len() {
                assert(full[i] == s[i]);
                if i < s.len() - 1 && text_lt(x, s[i]) {
                    let l = s.last();
                    assert(!text_lt(s[s.len() - 1], s[i]));
                    lemma_text_lt_total(l, s[i]);
                    lemma_text_lt_total(x, l);
                    if text_lt(s[i], l) {
                        lemma_text_lt_transitive(x, s[i], l);
                    }
                }
            } else {
                assert(full[i] == s[i] && full[j] == s[j]);
            }
        }
        assert forall|j: int| 0 <= j < full.len() implies (#[trigger] full[j]) == x || s.contains(
            full[j],
        ) by {
            if j < s.len() {
                assert(full[j] == s[j]);
            }
        }
    }
}

/// Sorting puts the texts in order and neither adds nor loses one.
pub proof fn text_sort_orders(s: Seq<Seq<char>>)
    ensures
        texts_ascending(text_sort(s)),
        text_sort(s).to_multiset() == s.to_multiset(),
    decreases s.len(),
{
    broadcast use vstd::seq_lib::group_to_multiset_ensures;

    if s.len() > 0 {
        text_sort_orders(s.drop_last());
        lemma_insert_text(text_sort(s.drop_last()), s.last());
        assert(s =~= s.drop_last().push(s.last()));
    }
}

proof fn lemma_insert_at(s: Seq<Seq<char>>, x: Seq<char>, k: int)
    requires
        0 <= k <= s.len(),
        forall|j: int| k <= j < s.len() ==> text_lt(x, #[trigger] s[j]),
        k > 0 ==> !text_lt(x, s[k - 1]),
    ensures
        insert_text(s, x) == s.insert(k, x),
    decreases s.len(),
{
    if k < s.len() {
        lemma_insert_at(s.drop_last(), x, k);
        assert(s.drop_last().insert(k, x).push(s.last()) =~= s.insert(k, x));
    } else {
        assert(s.push(x) =~= s.insert(k, x));
    }
}

/// The texts in ascending order.
pub fn sort_texts(v: Vec<String>) -> (r: Vec<String>)
    ensures
        crate::text::texts(r@) == text_sort(crate::text::texts(v@)),
{
    let ghost all = crate::text::texts(v@);
    let mut out: Vec<String> = Vec::new();
    assert(crate::text::texts(out@) =~= text_sort(all.take(0)));
    for i in 0..v.len()
        invariant
            all == crate::text::texts(v@),
            crate::text::texts(out@) == text_sort(all.take(i as int)),
    {
        let ghost sorted = crate::text::texts(out@);
        let x = v[i].clone();
        let mut k: usize = out.len();
        while k > 0 && str_lt(x.as_str(), out[k - 1].as_str())
            invariant
                sorted == crate::text::texts(out@),
                k <= out@.len(),
                forall|j: int| k <= j < sorted.len() ==> text_lt(x@, #[trigger] sorted[j]),
            ensures
                k <= out@.len(),
                forall|j: int| k <= j < sorted.len() ==> text_lt(x@, #[trigger] sorted[j]),
                k > 0 ==> !text_lt(x@, sorted[k - 1]),
            decreases k,
        {
            assert(sorted[k - 1] == out@[k - 1]@);
            k -= 1;
        }
        proof {
            lemma_insert_at(sorted, x@, k as int);
            assert(all.take(i + 1).drop_last() =~= all.take(i as int));
            assert(all.take(i + 1).last() == v@[i as int]@);
        }
        out.insert(k, x);
        assert(crate::text::texts(out@) =~= sorted.insert(k as int, x@));
    }
    assert(all.take(v@.len() as int) =~= all);
    out
}

pub open spec fn not_after() -> spec_fn(Seq<char>, Seq<char>) -> bool {
    |a: Seq<char>, b: Seq<char>| !text_lt(b, a)
}

proof fn lemma_not_after_total()
    ensures
        vstd::relations::total_ordering(not_after()),
{
    let leq = not_after();
    assert forall|a: Seq<char>, b: Seq<char>| #[trigger] leq(a, b) && #[trigger] leq(b, a) implies a
        == b by {
        lemma_text_lt_total(a, b);
    }
    assert forall|a: Seq<char>| #[trigger] leq(a, a) by {
        lemma_text_lt_total(a, a);
    }
    assert forall|a: Seq<char>, b: Seq<char>| #[trigger] leq(a, b) || #[trigger] leq(b, a) by {
        lemma_text_lt_total(a, b);
    }
    assert forall|a: Seq<char>, b: Seq<char>, c: Seq<char>| #[trigger]
        leq(a, b) && #[trigger] leq(b, c) implies leq(a, c) by {
        lemma_text_lt_total(a, b);
        lemma_text_lt_total(b, c);
        lemma_text_lt_total(a, c);
        if a != b && b != c {
            lemma_text_lt_transitive(a, b, c);
        }
    }
}

/// The order in which texts come in has no part in how they are sorted.
pub proof fn text_sort_forgets_order(s: Seq<Seq<char>>, u: Seq<Seq<char>>)
    requires
        s.to_multiset() == u.to_multiset(),
    ensures
        text_sort(s) == text_sort(u),
{
    lemma_not_after_total();
    text_sort_orders(s);
    text_sort_orders(u);
    let x = text_sort(s);
    let y = text_sort(u);
    assert(vstd::relations::sorted_by(x, not_after())) by {
        assert forall|i: int, j: int| 0 <= i < j < x.len() implies #[trigger] not_after()(
            x[i],
            x[j],
        ) by {}
    }
    assert(vstd::relations::sorted_by(y, not_after())) by {
        assert forall|i: int, j: int| 0 <= i < j < y.len() implies #[trigger] not_after()(
            y[i],
            y[j],
        ) by {}
    }
    vstd::seq_lib::lemma_sorted_unique(x, y, not_after());
}

} // verus!
