//! How versions are ordered, merged and dated.

use crate::inlay_hints::SourceV;
use crate::laws::basics::texts_are_cut_once;
use crate::order::text_lt;
use crate::seqs::{each, find_map, lemma_find_map_at, lemma_find_map_first};
use crate::version_cache::{
    date_table, is_safe, json_strings_of, listed_entries, paths_of, provider_versions, safe,
};
use crate::versions::{
    age_of, all_digits, chained, civil_days, date_in, dated, digits_value, first_entries,
    has_version, is_digit, merged, newest_first, number, older, unsigned_part, version_key, EntryV,
};
use vstd::prelude::*;

verus! {

// ---------------------------------------------------------------------
// Order

/// A number of a version as it is written.
pub open spec fn is_number(s: Seq<char>) -> bool {
    &&& s.len() > 0
    &&& forall|i: int| 0 <= i < s.len() ==> '0' <= #[trigger] s[i] <= '9'
    &&& digits_value(s) <= i64::MAX
}

proof fn lemma_number(s: Seq<char>)
    requires
        is_number(s),
    ensures
        number(s, i64::MAX as int) == Some(digits_value(s)),
        !s.contains('.'),
        !s.contains('-'),
        !s.contains('+'),
{
    assert forall|i: int| 0 <= i < s.len() implies is_digit(#[trigger] s[i]) by {}
    assert(all_digits(s));
    assert('0' <= s[0] <= '9');
}

/// `MAJOR.MINOR.PATCH`.
pub open spec fn release(a: Seq<char>, b: Seq<char>, c: Seq<char>) -> Seq<char> {
    a + seq!['.'] + (b + seq!['.'] + c)
}

proof fn lemma_release(a: Seq<char>, b: Seq<char>, c: Seq<char>)
    requires
        is_number(a),
        is_number(b),
        is_number(c),
    ensures
        !release(a, b, c).contains('-'),
        !release(a, b, c).contains('+'),
        crate::versions::first_part(Some(release(a, b, c))) == (
            Some(digits_value(a)),
            Some(b + seq!['.'] + c),
        ),
        crate::versions::first_part(Some(b + seq!['.'] + c)) == (Some(digits_value(b)), Some(c)),
        number(c, i64::MAX as int) == Some(digits_value(c)),
{
    lemma_number(a);
    lemma_number(b);
    lemma_number(c);
    texts_are_cut_once(a, b + seq!['.'] + c, '.');
    texts_are_cut_once(b, c, '.');
    let r = release(a, b, c);
    assert forall|i: int| 0 <= i < r.len() implies #[trigger] r[i] == '.' || '0' <= r[i] <= '9' by {
        let rest = b + seq!['.'] + c;
        if i < a.len() {
            assert(r[i] == a[i]);
        } else if i > a.len() {
            assert(r[i] == rest[i - a.len() - 1]);
            if i - a.len() - 1 < b.len() {
                assert(r[i] == b[i - a.len() - 1]);
            } else if i - a.len() - 1 > b.len() {
                assert(r[i] == c[i - a.len() - 1 - b.len() - 1]);
            }
        }
    }
}

/// Releases are ordered by their numbers, the major one first.
pub proof fn releases_are_ordered_by_number(
    a: Seq<char>,
    b: Seq<char>,
    c: Seq<char>,
    x: Seq<char>,
    y: Seq<char>,
    z: Seq<char>,
    d: Option<Seq<char>>,
    e: Option<Seq<char>>,
)
    requires
        is_number(a) && is_number(b) && is_number(c),
        is_number(x) && is_number(y) && is_number(z),
    ensures
        older((release(a, b, c), d), (release(x, y, z), e)) <==> {
            ||| digits_value(a) < digits_value(x)
            ||| digits_value(a) == digits_value(x) && digits_value(b) < digits_value(y)
            ||| digits_value(a) == digits_value(x) && digits_value(b) == digits_value(y)
                && digits_value(c) < digits_value(z)
        },
{
    lemma_release_key(a, b, c);
    lemma_release_key(x, y, z);
    lemma_irreflexive(Seq::empty());
}

proof fn lemma_irreflexive(s: Seq<char>)
    ensures
        !text_lt(s, s),
{
    crate::order::lemma_text_lt_total(s, s);
}

proof fn lemma_release_key(a: Seq<char>, b: Seq<char>, c: Seq<char>)
    requires
        is_number(a) && is_number(b) && is_number(c),
    ensures
        ({
            let k = version_key(release(a, b, c));
            k.major == digits_value(a) && k.minor == digits_value(b) && k.patch == digits_value(c)
                && k.release == 1 && k.pre == Seq::<char>::empty()
        }),
{
    lemma_release(a, b, c);
    let r = release(a, b, c);
    texts_are_cut_once(r, r, '-');
    texts_are_cut_once(r, r, '+');
}

/// A pre-release is older than the release it leads to, and two pre-releases of
/// one release are ordered by their names.
pub proof fn prereleases_come_before_the_release(
    a: Seq<char>,
    b: Seq<char>,
    c: Seq<char>,
    p: Seq<char>,
    q: Seq<char>,
    d: Option<Seq<char>>,
    e: Option<Seq<char>>,
)
    requires
        is_number(a) && is_number(b) && is_number(c),
    ensures
        older((release(a, b, c) + seq!['-'] + p, d), (release(a, b, c), e)),
        !older((release(a, b, c), e), (release(a, b, c) + seq!['-'] + p, d)),
        older((release(a, b, c) + seq!['-'] + p, d), (release(a, b, c) + seq!['-'] + q, e))
            <==> text_lt(p, q),
{
    lemma_release_key(a, b, c);
    lemma_release(a, b, c);
    let r = release(a, b, c);
    texts_are_cut_once(r, p, '-');
    texts_are_cut_once(r, q, '-');
    texts_are_cut_once(r, r, '+');
}

// ---------------------------------------------------------------------
// Merging

proof fn lemma_first_entries(s: Seq<EntryV>, v: Seq<char>)
    ensures
        has_version(first_entries(s), v) <==> has_version(s, v),
        forall|i: int|
            0 <= i < first_entries(s).len() ==> s.contains(#[trigger] first_entries(s)[i]),
    decreases s.len(),
{
    if s.len() > 0 {
        let rest = first_entries(s.drop_last());
        let all = first_entries(s);
        lemma_first_entries(s.drop_last(), v);
        lemma_first_entries(s.drop_last(), s.last().0);
        assert forall|i: int| 0 <= i < all.len() implies s.contains(#[trigger] all[i]) by {
            if i < rest.len() {
                assert(all[i] == rest[i]);
                let j = choose|j: int|
                    0 <= j < s.drop_last().len() && s.drop_last()[j] == rest[i];
                assert(s[j] == rest[i]);
            } else {
                assert(s[s.len() - 1] == all[i]);
            }
        }
        if has_version(s, v) {
            let i = choose|i: int| 0 <= i < s.len() && (#[trigger] s[i]).0 == v;
            if i < s.len() - 1 {
                assert(s.drop_last()[i].0 == v);
                let j = choose|j: int| 0 <= j < rest.len() && (#[trigger] rest[j]).0 == v;
                assert(all[j].0 == v);
            } else if has_version(rest, v) {
                let j = choose|j: int| 0 <= j < rest.len() && (#[trigger] rest[j]).0 == v;
                assert(all[j].0 == v);
            } else {
                assert(all[rest.len() as int].0 == v);
            }
        }
        if has_version(all, v) {
            let j = choose|j: int| 0 <= j < all.len() && (#[trigger] all[j]).0 == v;
            assert(s.contains(all[j]));
            let i = choose|i: int| 0 <= i < s.len() && s[i] == all[j];
            assert(s[i].0 == v);
        }
    }
}

/// The first entry of a version in the list.
pub open spec fn is_first_entry(s: Seq<EntryV>, k: int) -> bool {
    0 <= k < s.len() && forall|j: int| 0 <= j < k ==> (#[trigger] s[j]).0 != s[k].0
}

proof fn lemma_kept(s: Seq<EntryV>, k: int)
    requires
        is_first_entry(s, k),
    ensures
        first_entries(s).contains(s[k]),
    decreases s.len(),
{
    let rest = first_entries(s.drop_last());
    if k < s.len() - 1 {
        assert forall|j: int| 0 <= j < k implies (#[trigger] s.drop_last()[j]).0
            != s.drop_last()[k].0 by {
            assert(s[j].0 != s[k].0);
        }
        lemma_kept(s.drop_last(), k);
        let i = choose|i: int| 0 <= i < rest.len() && rest[i] == s[k];
        assert(first_entries(s)[i] == s[k]);
    } else {
        lemma_first_entries(s.drop_last(), s[k].0);
        if has_version(rest, s[k].0) {
            let j = choose|j: int|
                0 <= j < s.drop_last().len() && (#[trigger] s.drop_last()[j]).0 == s[k].0;
            assert(s[j].0 == s[k].0);
        }
        assert(first_entries(s)[rest.len() as int] == s[k]);
    }
}

proof fn lemma_chained(lists: Seq<Seq<EntryV>>, n: int, v: Seq<char>)
    requires
        0 <= n <= lists.len(),
    ensures
        has_version(chained(lists, n), v) <==> exists|l: int|
            0 <= l < n && has_version(#[trigger] lists[l], v),
    decreases n,
{
    if n > 0 {
        lemma_chained(lists, n - 1, v);
        let a = chained(lists, n - 1);
        let b = lists[n - 1];
        let all = a + b;
        if has_version(all, v) {
            let i = choose|i: int| 0 <= i < all.len() && (#[trigger] all[i]).0 == v;
            if i < a.len() {
                assert(a[i].0 == v);
            } else {
                assert(b[i - a.len()].0 == v);
                assert(has_version(lists[n - 1], v));
            }
        }
        if exists|l: int| 0 <= l < n && has_version(#[trigger] lists[l], v) {
            let l = choose|l: int| 0 <= l < n && has_version(#[trigger] lists[l], v);
            if l < n - 1 {
                let i = choose|i: int| 0 <= i < a.len() && (#[trigger] a[i]).0 == v;
                assert(all[i].0 == v);
            } else {
                let i = choose|i: int| 0 <= i < b.len() && (#[trigger] b[i]).0 == v;
                assert(all[a.len() + i].0 == v);
            }
        }
    }
}

/// The merged list has a version exactly where one of the lists has it.
pub proof fn merging_keeps_every_version(lists: Seq<Seq<EntryV>>, v: Seq<char>)
    ensures
        (exists|l: int| 0 <= l < lists.len() && has_version(#[trigger] lists[l], v)) <==> (
        merged(lists) matches Some(m) && has_version(m, v)),
{
    let n = lists.len() as int;
    let s = chained(lists, n);
    lemma_chained(lists, n, v);
    lemma_first_entries(s, v);
    let all = first_entries(s);
    crate::versions::newest_first_orders(all);
    let m = newest_first(all);
    all.to_multiset_ensures();
    m.to_multiset_ensures();
    if has_version(all, v) {
        let i = choose|i: int| 0 <= i < all.len() && (#[trigger] all[i]).0 == v;
        assert(all.contains(all[i]));
        assert(m.to_multiset().count(all[i]) > 0);
        assert(m.contains(all[i]));
        let j = choose|j: int| 0 <= j < m.len() && m[j] == all[i];
        assert(m[j].0 == v);
    }
    if has_version(m, v) {
        let j = choose|j: int| 0 <= j < m.len() && (#[trigger] m[j]).0 == v;
        assert(m.contains(m[j]));
        assert(all.to_multiset().count(m[j]) > 0);
        assert(all.contains(m[j]));
        let i = choose|i: int| 0 <= i < all.len() && all[i] == m[j];
        assert(all[i].0 == v);
    }
}

/// Of the entries of one version, the earlier list decides.
pub proof fn earlier_lists_decide(lists: Seq<Seq<EntryV>>, k: int)
    requires
        is_first_entry(chained(lists, lists.len() as int), k),
    ensures
        merged(lists) matches Some(m) && m.contains(chained(lists, lists.len() as int)[k]),
{
    let s = chained(lists, lists.len() as int);
    lemma_kept(s, k);
    let all = first_entries(s);
    crate::versions::newest_first_orders(all);
    all.to_multiset_ensures();
    newest_first(all).to_multiset_ensures();
    assert(newest_first(all).to_multiset().count(s[k]) > 0);
}

// ---------------------------------------------------------------------
// Dates

/// A version has the date of the first table that knows it, and none where no
/// table does.
pub proof fn first_tables_date_the_versions(tables: Seq<Map<Seq<char>, Seq<char>>>, v: Seq<char>, k: int)
    ensures
        dated(tables)(v).0 == v,
        0 <= k < tables.len() && tables[k].dom().contains(v) && (forall|j: int|
            0 <= j < k ==> !(#[trigger] tables[j]).dom().contains(v)) ==> dated(tables)(v).1
            == Some(tables[k][v]),
        (forall|j: int| 0 <= j < tables.len() ==> !(#[trigger] tables[j]).dom().contains(v))
            ==> dated(tables)(v).1 is None,
{
    let f = date_in(v);
    if 0 <= k < tables.len() && tables[k].dom().contains(v) && (forall|j: int|
        0 <= j < k ==> !(#[trigger] tables[j]).dom().contains(v)) {
        lemma_find_map_at(tables, f, k);
    }
    if find_map(tables, f) is Some {
        let j = lemma_find_map_first(tables, f);
        assert(tables[j].dom().contains(v));
    }
}

/// The age of a release counts the days from its date to today.
pub proof fn ages_count_from_the_date(y: Seq<char>, m: Seq<char>, d: Seq<char>, rest: Seq<char>, today: int)
    requires
        is_number(y) && digits_value(y) <= i32::MAX,
        is_number(m) && 1 <= digits_value(m) <= 12,
        is_number(d) && d.len() == 2 && 1 <= digits_value(d) <= 31,
    ensures
        age_of(Some(y + seq!['-'] + (m + seq!['-'] + (d + rest))), today) == Some(
            today - civil_days(
                digits_value(y) as int,
                digits_value(m) as int,
                digits_value(d) as int,
            ),
        ),
{
    lemma_number(y);
    lemma_number(m);
    lemma_number(d);
    texts_are_cut_once(y, m + seq!['-'] + (d + rest), '-');
    texts_are_cut_once(m, d + rest, '-');
    assert((d + rest).take(2) =~= d);
    assert(unsigned_part(y) == y);
    assert(unsigned_part(m) == m);
    assert(unsigned_part(d) == d);
}

// ---------------------------------------------------------------------
// The cache

/// A safe text has the length of the text, and differs only where a character
/// would not do in a file name; no slash is left.
pub proof fn safe_texts_have_no_slash(s: Seq<char>, i: int)
    requires
        0 <= i < s.len(),
    ensures
        safe(s).len() == s.len(),
        is_safe(s[i]) ==> safe(s)[i] == s[i],
        !is_safe(s[i]) ==> safe(s)[i] == '_',
        s[i] == '-' || s[i] == '.' || s[i] == '_' ==> safe(s)[i] == s[i],
{
}

/// What the lists of a provider's versions hold comes back, with the dates of
/// the date files.
pub proof fn cached_versions_are_listed(
    lists: Seq<Option<Seq<char>>>,
    dates: Seq<Option<Seq<char>>>,
    l: int,
    i: int,
    text: Seq<char>,
    versions: Seq<Seq<char>>,
)
    requires
        0 <= l < lists.len(),
        lists[l] == Some(text),
        json_strings_of(text) == Some(versions),
        0 <= i < versions.len(),
    ensures
        provider_versions(lists, dates) matches Some(m) && has_version(m, versions[i]),
{
    let tables = each(dates, date_table());
    let all = each(lists, listed_entries(tables));
    assert(all[l] == each(versions, dated(tables)));
    assert(all[l][i].0 == versions[i]);
    assert(has_version(all[l], versions[i]));
    merging_keeps_every_version(all, versions[i]);
}

/// The files of a source lie under names made of the source: two for the lists,
/// that of Terraform's registry first, and two for the dates of a provider.
pub proof fn cache_files_are_named_by_their_source(source: SourceV, i: int)
    ensures
        paths_of(source).versions.len() == 2,
        match source {
            SourceV::TerraformCli => paths_of(source).dates.len() == 0 && paths_of(
                source,
            ).versions[0][0] == "tool-versions"@ && paths_of(source).versions[1][0]
                == "tool-versions"@
                && paths_of(source).versions[0].last() == "terraform"@ + ".json"@ && paths_of(
                source,
            ).versions[1].last() == "opentofu"@ + ".json"@,
            SourceV::Provider { namespace, name } => paths_of(source).dates.len() == 2 && (0 <= i
                < 2 ==> {
                let v = paths_of(source).versions[i];
                let d = paths_of(source).dates[i];
                &&& v.len() == 5 && v[0] == "registry-versions"@ && v[2] == safe(namespace) && v[3] == safe(name) && v[4]
                    == "versions.json"@
                &&& d.len() == 5 && d[0] == "registry-versions"@ && d[2] == safe(namespace) && d[3] == safe(name) && d[4]
                    == "dates.json"@
                &&& v[1] == safe(
                    if i == 0 {
                        "terraform"@
                    } else {
                        "opentofu"@
                    },
                )
                &&& d[1] == if i == 0 {
                    "dates"@
                } else {
                    "dates-opentofu"@
                }
            }),
            SourceV::Module { namespace, name, provider } => paths_of(source).dates.len() == 0 && (0
                <= i < 2 ==> {
                let v = paths_of(source).versions[i];
                &&& v.len() == 7 && v[0] == "registry-versions"@ && v[1] == "modules"@ && v[3] == safe(namespace) && v[4] == safe(
                    name,
                ) && v[5] == safe(provider) && v[6] == "versions.json"@
                &&& v[2] == safe(
                    if i == 0 {
                        "terraform"@
                    } else {
                        "opentofu"@
                    },
                )
            }),
        },
{
}

} // verus!
