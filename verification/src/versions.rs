//! Lists of published versions: how they are merged and ordered, and how old a
//! release is.

use crate::order::{lemma_text_lt_total, lemma_text_lt_transitive, str_lt, text_lt};
use crate::schema::{find_entry, lookup};
use crate::seqs::{each, find_map, lemma_find_map_step, lemma_take_full};
use crate::text::{chars_of, opt_view, split_once, str_eq, str_split_once, string_sub, texts};
use vstd::prelude::*;

verus! {

// ---------------------------------------------------------------------
// Numbers

pub open spec fn is_digit(c: char) -> bool {
    48 <= c as u32 && c as u32 <= 57
}

pub open spec fn all_digits(s: Seq<char>) -> bool {
    forall|i: int| 0 <= i < s.len() ==> is_digit(#[trigger] s[i])
}

/// The number that a sequence of digits is.
pub open spec fn digits_value(s: Seq<char>) -> nat
    decreases s.len(),
{
    if s.len() == 0 {
        0
    } else {
        digits_value(s.drop_last()) * 10 + (s.last() as u32 - 48) as nat
    }
}

/// `s` without a leading plus sign.
pub open spec fn unsigned_part(s: Seq<char>) -> Seq<char> {
    if s.len() > 0 && s[0] == '+' {
        s.skip(1)
    } else {
        s
    }
}

/// The number that a text is, where it is one that does not exceed `max`: one
/// digit or more, a plus sign may stand before them.
pub open spec fn number(s: Seq<char>, max: int) -> Option<nat> {
    let d = unsigned_part(s);
    if d.len() > 0 && all_digits(d) && digits_value(d) <= max {
        Some(digits_value(d))
    } else {
        None
    }
}

pub proof fn lemma_digits_grow(s: Seq<char>, n: int)
    requires
        0 <= n <= s.len(),
    ensures
        digits_value(s.take(n)) <= digits_value(s),
    decreases s.len(),
{
    if n < s.len() {
        assert(s.drop_last().take(n) =~= s.take(n));
        lemma_digits_grow(s.drop_last(), n);
    } else {
        assert(s.take(n) =~= s);
    }
}

/// The number that a text is.
pub fn parse_number(s: &str, max: i64) -> (r: Option<i64>)
    requires
        max >= 0,
    ensures
        match r {
            Some(n) => 0 <= n <= max && number(s@, max as int) == Some(n as nat),
            None => number(s@, max as int) is None,
        },
{
    let c = chars_of(s);
    let n: usize = c.len();
    let from: usize = if n > 0 && c[0] == '+' {
        1
    } else {
        0
    };
    let ghost d = unsigned_part(s@);
    assert(s@.skip(0) =~= s@);
    assert(d =~= s@.skip(from as int));
    if from == n {
        return None;
    }
    let mut value: u64 = 0;
    let limit: u64 = max as u64;
    for i in from..n
        invariant
            c@ == s@,
            n == c@.len(),
            from < n,
            d == s@.skip(from as int),
            d == unsigned_part(s@),
            limit == max,
            limit <= 0x7fff_ffff_ffff_ffff,
            value <= limit,
            value == digits_value(d.take(i - from)),
            forall|j: int| 0 <= j < i - from ==> is_digit(#[trigger] d[j]),
    {
        let code = c[i] as u32;
        assert(d[i - from] == c@[i as int]);
        if !(48 <= code && code <= 57) {
            assert(!is_digit(d[i - from]));
            return None;
        }
        proof {
            assert(d.take(i - from + 1).drop_last() =~= d.take(i - from));
            assert(d.take(i - from + 1).last() == c@[i as int]);
            lemma_digits_grow(d, i - from + 1);
        }
        let digit: u64 = (code - 48) as u64;
        if value > limit / 10 {
            assert(value * 10 > limit);
            return None;
        }
        if digit > limit - value * 10 {
            return None;
        }
        value = value * 10 + digit;
    }
    assert(d.take(d.len() as int) =~= d);
    Some(value as i64)
}

// ---------------------------------------------------------------------
// Release dates

/// The number of days from 1970-01-01 to a date of the Gregorian calendar.
/// Counted in years that start with March, so that a leap day ends its year.
pub open spec fn civil_days(y: int, m: int, d: int) -> int {
    let year = if m <= 2 {
        y - 1
    } else {
        y
    };
    let month = if m > 2 {
        m - 3
    } else {
        m + 9
    };
    365 * year + year / 4 - year / 100 + year / 400 + (153 * month + 2) / 5 + d - 1 - 719_468
}

/// The number of days from 1970-01-01 to a date; `None` where the month or the
/// day is out of range.
pub fn days_from_civil(y: i32, m: u32, d: u32) -> (r: Option<i64>)
    requires
        1 <= m <= 12 && 1 <= d <= 31 ==> (if m <= 2 {
            y - 1
        } else {
            y as int
        }) >= i32::MIN + 399,
    ensures
        r == if 1 <= m <= 12 && 1 <= d <= 31 {
            Some(civil_days(y as int, m as int, d as int) as i64)
        } else {
            None
        },
        r matches Some(n) ==> n == civil_days(y as int, m as int, d as int),
{
    if m < 1 || m > 12 || d < 1 || d > 31 {
        return None;
    }
    let year: i32 = if m <= 2 {
        y - 1
    } else {
        y
    };
    let up: i32 = if year >= 0 {
        year
    } else {
        year - 399
    };
    let era: i32 = if up >= 0 {
        up / 400
    } else {
        -((-(up + 1)) / 400) - (if (-(up + 1)) % 400 == 399 {
            1i32
        } else {
            0i32
        })
    };
    assert(era as int == (year as int) / 400);
    let yoe: u32 = (year - era * 400) as u32;
    let mp: u32 = if m > 2 {
        m - 3
    } else {
        m + 9
    };
    let doy: u32 = (153 * mp + 2) / 5 + d - 1;
    let doe: u32 = yoe * 365 + yoe / 4 - yoe / 100 + doy;
    let n: i64 = era as i64 * 146_097 + doe as i64 - 719_468;
    assert(n == civil_days(y as int, m as int, d as int));
    Some(n)
}

/// The day before the first of a month is the last of the month before; within
/// a month the days count up.
pub proof fn days_count_up(y: int, m: int, d: int)
    requires
        1 <= m <= 12,
    ensures
        civil_days(y, m, d + 1) == civil_days(y, m, d) + 1,
        civil_days(1970, 1, 1) == 0,
        m < 12 ==> civil_days(y, m + 1, 1) - civil_days(y, m, 1) == month_length(y, m),
        civil_days(y + 1, 1, 1) - civil_days(y, 12, 1) == 31,
{
}

/// The number of days of a month.
pub open spec fn month_length(y: int, m: int) -> int {
    if m == 2 {
        if y % 4 == 0 && (y % 100 != 0 || y % 400 == 0) {
            29
        } else {
            28
        }
    } else if m == 4 || m == 6 || m == 9 || m == 11 {
        30
    } else {
        31
    }
}

/// The year, month and day at the start of a date such as
/// `2025-06-12T18:33:49Z`.
pub open spec fn date_parts(s: Seq<char>) -> Option<(nat, nat, nat)> {
    match split_once(s, '-') {
        Some((year, rest)) => match split_once(rest, '-') {
            Some((month, tail)) => if tail.len() < 2 {
                None
            } else {
                match (
                    number(year, i32::MAX as int),
                    number(month, u32::MAX as int),
                    number(tail.take(2), u32::MAX as int),
                ) {
                    (Some(y), Some(m), Some(d)) => Some((y, m, d)),
                    _ => None,
                }
            },
            None => None,
        },
        None => None,
    }
}

fn parse_date(s: &str) -> (r: Option<(i32, u32, u32)>)
    ensures
        match r {
            Some(p) => p.0 >= 0 && date_parts(s@) == Some((p.0 as nat, p.1 as nat, p.2 as nat)),
            None => date_parts(s@) is None,
        },
{
    let (year, rest) = match str_split_once(s, '-') {
        Some(p) => p,
        None => {
            return None;
        },
    };
    let (month, tail) = match str_split_once(rest.as_str(), '-') {
        Some(p) => p,
        None => {
            return None;
        },
    };
    let t = chars_of(tail.as_str());
    if t.len() < 2 {
        return None;
    }
    let day = string_sub(t.as_slice(), 0, 2);
    assert(tail@.subrange(0, 2) =~= tail@.take(2));
    match (
        parse_number(year.as_str(), i32::MAX as i64),
        parse_number(month.as_str(), u32::MAX as i64),
        parse_number(day.as_str(), u32::MAX as i64),
    ) {
        (Some(y), Some(m), Some(d)) => Some((y as i32, m as u32, d as u32)),
        _ => None,
    }
}

/// A day number that a clock can show: seconds since 1970 in 64 bits, in days.
pub open spec fn is_clock_day(today: int) -> bool {
    -106_751_991_167_301 <= today <= 106_751_991_167_300
}

/// How many days ago a release was, by the day of today.
pub open spec fn age_of(date: Option<Seq<char>>, today: int) -> Option<int> {
    match date {
        Some(s) => match date_parts(s) {
            Some((y, m, d)) => if 1 <= m <= 12 && 1 <= d <= 31 {
                Some(today - civil_days(y as int, m as int, d as int))
            } else {
                None
            },
            None => None,
        },
        None => None,
    }
}

/// How many days ago a release was; `today` counts days since 1970-01-01.
pub fn age_days(date: &Option<String>, today: i64) -> (r: Option<i64>)
    requires
        is_clock_day(today as int),
    ensures
        match r {
            Some(n) => age_of(opt_view(*date), today as int) == Some(n as int),
            None => age_of(opt_view(*date), today as int) is None,
        },
{
    match date {
        Some(s) => match parse_date(s.as_str()) {
            Some((y, m, d)) => match days_from_civil(y, m, d) {
                Some(released) => Some(today - released),
                None => None,
            },
            None => None,
        },
        None => None,
    }
}

// ---------------------------------------------------------------------
// The order of versions

#[derive(Debug)]
pub struct VersionEntry {
    pub version: String,
    /// When it was published, where that is known.
    pub published: Option<String>,
}

pub type EntryV = (Seq<char>, Option<Seq<char>>);

impl View for VersionEntry {
    type V = EntryV;

    open spec fn view(&self) -> EntryV {
        (self.version@, opt_view(self.published))
    }
}

pub open spec fn entries_view(v: Seq<VersionEntry>) -> Seq<EntryV> {
    Seq::new(v.len(), |i: int| v[i]@)
}

impl VersionEntry {
    pub fn duplicate(&self) -> (r: VersionEntry)
        ensures
            r@ == self@,
    {
        VersionEntry {
            version: self.version.clone(),
            published: crate::actions::copy_opt(&self.published),
        }
    }
}

/// What versions are compared by: the three numbers, releases above
/// pre-releases, and the name of the pre-release.
pub struct VersionKey {
    pub major: int,
    pub minor: int,
    pub patch: int,
    pub release: int,
    pub pre: Seq<char>,
}

/// What stands before the first `c`, all of it where there is none.
pub open spec fn before(s: Seq<char>, c: char) -> Seq<char> {
    match split_once(s, c) {
        Some((a, _)) => a,
        None => s,
    }
}

/// The number at the front of a dotted list and the rest of the list.
pub open spec fn first_part(s: Option<Seq<char>>) -> (Option<nat>, Option<Seq<char>>) {
    match s {
        Some(s) => match split_once(s, '.') {
            Some((a, rest)) => (number(a, i64::MAX as int), Some(rest)),
            None => (number(s, i64::MAX as int), None),
        },
        None => (None, None),
    }
}

pub open spec fn or_zero(n: Option<nat>) -> int {
    match n {
        Some(n) => n as int,
        None => 0,
    }
}

pub open spec fn version_key(v: Seq<char>) -> VersionKey {
    let (head, pre) = match split_once(v, '-') {
        Some((a, b)) => (a, Some(b)),
        None => (v, None),
    };
    let core = before(head, '+');
    let (major, rest) = first_part(Some(core));
    let (minor, rest) = first_part(rest);
    let patch = match rest {
        Some(s) => number(s, i64::MAX as int),
        None => None,
    };
    match major {
        Some(n) => VersionKey {
            major: n as int,
            minor: or_zero(minor),
            patch: or_zero(patch),
            release: if pre is Some {
                0
            } else {
                1
            },
            pre: match pre {
                Some(p) => p,
                None => Seq::empty(),
            },
        },
        None => VersionKey { major: i64::MIN as int, minor: 0, patch: 0, release: 0, pre: v },
    }
}

/// The key of a version.
#[derive(Debug)]
pub struct SemverKey {
    pub major: i64,
    pub minor: i64,
    pub patch: i64,
    pub release: i32,
    pub pre: String,
}

impl View for SemverKey {
    type V = VersionKey;

    open spec fn view(&self) -> VersionKey {
        VersionKey {
            major: self.major as int,
            minor: self.minor as int,
            patch: self.patch as int,
            release: self.release as int,
            pre: self.pre@,
        }
    }
}

fn split_first_part(s: &Option<String>) -> (r: (Option<i64>, Option<String>))
    ensures
        match r.0 {
            Some(n) => n >= 0 && first_part(opt_view(*s)).0 == Some(n as nat),
            None => first_part(opt_view(*s)).0 is None,
        },
        opt_view(r.1) == first_part(opt_view(*s)).1,
{
    match s {
        Some(s) => match str_split_once(s.as_str(), '.') {
            Some((a, rest)) => (parse_number(a.as_str(), i64::MAX), Some(rest)),
            None => (parse_number(s.as_str(), i64::MAX), None),
        },
        None => (None, None),
    }
}

fn opt_zero(n: Option<i64>) -> (r: i64)
    ensures
        r == match n {
            Some(n) => n,
            None => 0,
        },
{
    match n {
        Some(n) => n,
        None => 0,
    }
}

/// The key that a version is ordered by.
pub fn semver_tuple(v: &str) -> (r: SemverKey)
    ensures
        r@ == version_key(v@),
{
    let (head, pre): (String, Option<String>) = match str_split_once(v, '-') {
        Some((a, b)) => (a, Some(b)),
        None => (v.to_owned(), None),
    };
    let core = match str_split_once(head.as_str(), '+') {
        Some((a, _)) => a,
        None => head,
    };
    let (major, rest) = split_first_part(&Some(core));
    let (minor, rest) = split_first_part(&rest);
    let patch = match &rest {
        Some(s) => parse_number(s.as_str(), i64::MAX),
        None => None,
    };
    match major {
        Some(n) => {
            let release: i32 = if pre.is_some() {
                0
            } else {
                1
            };
            let pre = match pre {
                Some(p) => p,
                None => {
                    let e = String::new();
                    assert(e@ =~= Seq::<char>::empty());
                    e
                },
            };
            SemverKey { major: n, minor: opt_zero(minor), patch: opt_zero(patch), release, pre }
        },
        None => SemverKey { major: i64::MIN, minor: 0, patch: 0, release: 0, pre: v.to_owned() },
    }
}

/// The first key stands below the second.
pub open spec fn key_lt(a: VersionKey, b: VersionKey) -> bool {
    a.major < b.major || (a.major == b.major && (a.minor < b.minor || (a.minor == b.minor && (
    a.patch < b.patch || (a.patch == b.patch && (a.release < b.release || (a.release == b.release
        && text_lt(a.pre, b.pre))))))))
}

fn key_below(a: &SemverKey, b: &SemverKey) -> (r: bool)
    ensures
        r == key_lt(a@, b@),
{
    a.major < b.major || (a.major == b.major && (a.minor < b.minor || (a.minor == b.minor && (
    a.patch < b.patch || (a.patch == b.patch && (a.release < b.release || (a.release == b.release
        && str_lt(a.pre.as_str(), b.pre.as_str()))))))))
}

/// The first version is older than the second.
pub open spec fn older(a: EntryV, b: EntryV) -> bool {
    key_lt(version_key(a.0), version_key(b.0))
}

/// `x` put before all older versions of a descending sequence.
pub open spec fn insert_version(s: Seq<EntryV>, x: EntryV) -> Seq<EntryV>
    decreases s.len(),
{
    if s.len() > 0 && older(s.last(), x) {
        insert_version(s.drop_last(), x).push(s.last())
    } else {
        s.push(x)
    }
}

/// The entries, newest version first; equal ones keep their order.
pub open spec fn newest_first(s: Seq<EntryV>) -> Seq<EntryV>
    decreases s.len(),
{
    if s.len() == 0 {
        s
    } else {
        insert_version(newest_first(s.drop_last()), s.last())
    }
}

pub open spec fn descending(s: Seq<EntryV>) -> bool {
    forall|i: int, j: int|
        #![trigger s[i], s[j]]
        0 <= i < j < s.len() ==> !older(s[i], s[j])
}

proof fn lemma_key_lt(a: VersionKey, b: VersionKey, c: VersionKey)
    ensures
        key_lt(a, b) ==> !key_lt(b, a),
        key_lt(a, b) && key_lt(b, c) ==> key_lt(a, c),
        !key_lt(a, b) && !key_lt(b, a) && !key_lt(b, c) && !key_lt(c, b) ==> !key_lt(a, c),
        key_lt(a, b) && !key_lt(b, c) && !key_lt(c, b) ==> key_lt(a, c),
        !key_lt(a, b) && !key_lt(b, a) && key_lt(b, c) ==> key_lt(a, c),
{
    lemma_text_lt_total(a.pre, b.pre);
    lemma_text_lt_total(b.pre, c.pre);
    lemma_text_lt_total(a.pre, c.pre);
    if text_lt(a.pre, b.pre) && text_lt(b.pre, c.pre) {
        lemma_text_lt_transitive(a.pre, b.pre, c.pre);
    }
}

proof fn lemma_insert_version(s: Seq<EntryV>, x: EntryV)
    requires
        descending(s),
    ensures
        descending(insert_version(s, x)),
        insert_version(s, x).to_multiset() == s.to_multiset().insert(x),
        forall|j: int|
            0 <= j < insert_version(s, x).len() ==> (#[trigger] insert_version(s, x)[j]) == x
                || s.contains(insert_version(s, x)[j]),
    decreases s.len(),
{
    broadcast use vstd::seq_lib::group_to_multiset_ensures;

    let full = insert_version(s, x);
    if s.len() > 0 && older(s.last(), x) {
        let d = s.drop_last();
        lemma_insert_version(d, x);
        let r = insert_version(d, x);
        assert(s =~= d.push(s.last()));
        assert forall|j: int| 0 <= j < full.len() implies (#[trigger] full[j]) == x || s.contains(
            full[j],
        ) by {
            if j < r.len() {
                assert(full[j] == r[j]);
                if r[j] != x {
                    let k = choose|k: int| 0 <= k < d.len() && d[k] == r[j];
                    assert(s[k] == r[j]);
                }
            } else {
                assert(full[j] == s[s.len() - 1]);
            }
        }
        assert forall|i: int, j: int|
            #![trigger full[i], full[j]]
            0 <= i < j < full.len() implies !older(full[i], full[j]) by {
            if j < r.len() {
                assert(full[i] == r[i] && full[j] == r[j]);
            } else {
                assert(full[i] == r[i]);
                lemma_key_lt(version_key(s.last().0), version_key(x.0), version_key(x.0));
                if r[i] != x {
                    let k = choose|k: int| 0 <= k < d.len() && d[k] == r[i];
                    assert(s[k] == r[i]);
                    assert(!older(s[k], s[s.len() - 1]));
                }
            }
        }
    } else {
        assert forall|i: int, j: int|
            #![trigger full[i], full[j]]
            0 <= i < j < full.len() implies !older(full[i], full[j]) by {
            if j == s.len() {
                assert(full[i] == s[i]);
                if i < s.len() - 1 {
                    assert(!older(s[i], s[s.len() - 1]));
                    lemma_key_lt(
                        version_key(s[i].0),
                        version_key(x.0),
                        version_key(s.last().0),
                    );
                    lemma_key_lt(
                        version_key(s.last().0),
                        version_key(s[i].0),
                        version_key(x.0),
                    );
                    lemma_key_lt(
                        version_key(s[i].0),
                        version_key(s.last().0),
                        version_key(x.0),
                    );
                    lemma_key_lt(
                        version_key(x.0),
                        version_key(s.last().0),
                        version_key(s[i].0),
                    );
                }
            } else {
                assert(full[i] == s[i] && full[j] == s[j]);
            }
        }
        assert forall|j: int| 0 <= j < full.len() implies (#[trigger] full[j]) == x || s.contains(
            full[j],
        ) by {
            if j < s.len() {
                assert(full[j] == s[j]);
            }
        }
    }
}

/// Ordering versions puts the newest first and neither adds nor loses one.
pub proof fn newest_first_orders(s: Seq<EntryV>)
    ensures
        descending(newest_first(s)),
        newest_first(s).to_multiset() == s.to_multiset(),
    decreases s.len(),
{
    broadcast use vstd::seq_lib::group_to_multiset_ensures;

    if s.len() > 0 {
        newest_first_orders(s.drop_last());
        lemma_insert_version(newest_first(s.drop_last()), s.last());
        assert(s =~= s.drop_last().push(s.last()));
    }
}

proof fn lemma_insert_version_at(s: Seq<EntryV>, x: EntryV, k: int)
    requires
        0 <= k <= s.len(),
        forall|j: int| k <= j < s.len() ==> older(#[trigger] s[j], x),
        k > 0 ==> !older(s[k - 1], x),
    ensures
        insert_version(s, x) == s.insert(k, x),
    decreases s.len(),
{
    if k < s.len() {
        lemma_insert_version_at(s.drop_last(), x, k);
        assert(s.drop_last().insert(k, x).push(s.last()) =~= s.insert(k, x));
    } else {
        assert(s.push(x) =~= s.insert(k, x));
    }
}

/// The entries, newest version first.
pub fn sort_versions_desc(v: &Vec<VersionEntry>) -> (r: Vec<VersionEntry>)
    ensures
        entries_view(r@) == newest_first(entries_view(v@)),
{
    let ghost all = entries_view(v@);
    let mut out: Vec<VersionEntry> = Vec::new();
    assert(entries_view(out@) =~= newest_first(all.take(0)));
    for i in 0..v.len()
        invariant
            all == entries_view(v@),
            entries_view(out@) == newest_first(all.take(i as int)),
    {
        let ghost sorted = entries_view(out@);
        let x = v[i].duplicate();
        let key = semver_tuple(x.version.as_str());
        let mut k: usize = out.len();
        while k > 0 && key_below(&semver_tuple(out[k - 1].version.as_str()), &key)
            invariant
                sorted == entries_view(out@),
                key@ == version_key(x@.0),
                k <= out@.len(),
                forall|j: int| k <= j < sorted.len() ==> older(#[trigger] sorted[j], x@),
            ensures
                k <= out@.len(),
                forall|j: int| k <= j < sorted.len() ==> older(#[trigger] sorted[j], x@),
                k > 0 ==> !older(sorted[k - 1], x@),
            decreases k,
        {
            assert(sorted[k - 1] == out@[k - 1]@);
            k -= 1;
        }
        proof {
            lemma_insert_version_at(sorted, x@, k as int);
            assert(all.take(i + 1).drop_last() =~= all.take(i as int));
            assert(all.take(i + 1).last() == v@[i as int]@);
        }
        out.insert(k, x);
        assert(entries_view(out@) =~= sorted.insert(k as int, x@));
    }
    assert(all.take(v@.len() as int) =~= all);
    out
}

// ---------------------------------------------------------------------
// Merging lists

pub open spec fn has_version(s: Seq<EntryV>, v: Seq<char>) -> bool {
    exists|i: int| 0 <= i < s.len() && (#[trigger] s[i]).0 == v
}

/// Of the entries of one version, the first.
pub open spec fn first_entries(s: Seq<EntryV>) -> Seq<EntryV>
    decreases s.len(),
{
    if s.len() == 0 {
        s
    } else {
        let rest = first_entries(s.drop_last());
        if has_version(rest, s.last().0) {
            rest
        } else {
            rest.push(s.last())
        }
    }
}

/// The entries of several lists, one after another.
pub open spec fn chained(lists: Seq<Seq<EntryV>>, n: int) -> Seq<EntryV>
    decreases n,
{
    if n <= 0 {
        Seq::empty()
    } else {
        chained(lists, n - 1) + lists[n - 1]
    }
}

/// Several lists as one: each version once, as the first list has it, the
/// newest first. `None` where there are no versions.
pub open spec fn merged(lists: Seq<Seq<EntryV>>) -> Option<Seq<EntryV>> {
    let all = first_entries(chained(lists, lists.len() as int));
    if all.len() == 0 {
        None
    } else {
        Some(newest_first(all))
    }
}

pub open spec fn lists_view(v: Seq<Vec<VersionEntry>>) -> Seq<Seq<EntryV>> {
    Seq::new(v.len(), |i: int| entries_view(v[i]@))
}

fn contains_version(v: &Vec<VersionEntry>, version: &str) -> (r: bool)
    ensures
        r == has_version(entries_view(v@), version@),
{
    for i in 0..v.len()
        invariant
            forall|j: int| 0 <= j < i ==> (#[trigger] entries_view(v@)[j]).0 != version@,
    {
        if str_eq(v[i].version.as_str(), version) {
            assert(entries_view(v@)[i as int].0 == version@);
            return true;
        }
    }
    false
}

fn push_new_entries(out: &mut Vec<VersionEntry>, list: &Vec<VersionEntry>, Ghost(seen): Ghost<Seq<EntryV>>)
    requires
        entries_view(old(out)@) == first_entries(seen),
    ensures
        entries_view(final(out)@) == first_entries(seen + entries_view(list@)),
{
    assert(seen + entries_view(list@).take(0) =~= seen);
    for i in 0..list.len()
        invariant
            entries_view(out@) == first_entries(seen + entries_view(list@).take(i as int)),
    {
        let ghost s = seen + entries_view(list@).take(i + 1);
        assert(s.drop_last() =~= seen + entries_view(list@).take(i as int));
        assert(s.last() == list@[i as int]@);
        let ghost before = entries_view(out@);
        if !contains_version(out, list[i].version.as_str()) {
            let x = list[i].duplicate();
            out.push(x);
            assert(entries_view(out@) =~= before.push(x@));
        }
    }
    assert(entries_view(list@).take(list@.len() as int) =~= entries_view(list@));
}

pub open spec fn opt_entries(v: Option<Vec<VersionEntry>>) -> Option<Seq<EntryV>> {
    match v {
        Some(v) => Some(entries_view(v@)),
        None => None,
    }
}

/// Several lists of versions as one.
pub fn merge_versions(lists: &Vec<Vec<VersionEntry>>) -> (r: Option<Vec<VersionEntry>>)
    ensures
        opt_entries(r) == merged(lists_view(lists@)),
{
    let ghost s = lists_view(lists@);
    let mut out: Vec<VersionEntry> = Vec::new();
    assert(entries_view(out@) =~= first_entries(chained(s, 0)));
    for i in 0..lists.len()
        invariant
            s == lists_view(lists@),
            entries_view(out@) == first_entries(chained(s, i as int)),
    {
        push_new_entries(&mut out, &lists[i], Ghost(chained(s, i as int)));
        assert(s[i as int] == entries_view(lists@[i as int]@));
    }
    assert(entries_view(out@).len() == out@.len());
    if out.len() == 0 {
        None
    } else {
        let sorted = sort_versions_desc(&out);
        Some(sorted)
    }
}

/// A table as what it says of each name.
pub open spec fn pairs_map(v: Seq<(String, String)>) -> Map<Seq<char>, Seq<char>> {
    Map::new(|k: Seq<char>| lookup(v, k) is Some, |k: Seq<char>| lookup(v, k)->0@)
}

pub open spec fn tables_view(v: Seq<Vec<(String, String)>>) -> Seq<Map<Seq<char>, Seq<char>>> {
    Seq::new(v.len(), |i: int| pairs_map(v[i]@))
}

/// When a table says that a version was published.
pub open spec fn date_in(v: Seq<char>) -> spec_fn(Map<Seq<char>, Seq<char>>) -> Option<Seq<char>> {
    |table: Map<Seq<char>, Seq<char>>|
        if table.dom().contains(v) {
            Some(table[v])
        } else {
            None
        }
}

/// A version with the date that the first table has which knows it.
pub open spec fn dated(tables: Seq<Map<Seq<char>, Seq<char>>>) -> spec_fn(Seq<char>) -> EntryV {
    |v: Seq<char>| (v, find_map(tables, date_in(v)))
}

fn find_date(tables: &Vec<Vec<(String, String)>>, v: &str) -> (r: Option<String>)
    ensures
        opt_view(r) == find_map(tables_view(tables@), date_in(v@)),
{
    let ghost s = tables_view(tables@);
    let ghost f = date_in(v@);
    proof {
        lemma_take_full(s);
    }
    for i in 0..tables.len()
        invariant
            s == tables_view(tables@),
            f == date_in(v@),
            find_map(s, f) == find_map(s.skip(i as int), f),
    {
        proof {
            lemma_find_map_step(s, f, i as int);
            assert(s[i as int] == pairs_map(tables@[i as int]@));
        }
        if let Some(d) = find_entry(&tables[i], v) {
            return Some(d.clone());
        }
    }
    None
}

/// The versions with the dates at which they were published. The first table
/// that has a version decides.
pub fn with_dates(versions: &Vec<String>, tables: &Vec<Vec<(String, String)>>) -> (r: Vec<
    VersionEntry,
>)
    ensures
        entries_view(r@) == each(texts(versions@), dated(tables_view(tables@))),
{
    let ghost f = dated(tables_view(tables@));
    let mut out: Vec<VersionEntry> = Vec::new();
    for i in 0..versions.len()
        invariant
            f == dated(tables_view(tables@)),
            out@.len() == i,
            forall|j: int| 0 <= j < i ==> (#[trigger] out@[j])@ == f(versions@[j]@),
    {
        let published = find_date(tables, versions[i].as_str());
        out.push(VersionEntry { version: versions[i].clone(), published });
    }
    assert(entries_view(out@) =~= each(texts(versions@), f));
    out
}

/// The merged list has no version twice.
pub proof fn merged_versions_are_distinct(s: Seq<EntryV>, i: int, j: int)
    requires
        0 <= i < j < first_entries(s).len(),
    ensures
        first_entries(s)[i].0 != first_entries(s)[j].0,
    decreases s.len(),
{
    let rest = first_entries(s.drop_last());
    if j < rest.len() {
        merged_versions_are_distinct(s.drop_last(), i, j);
    } else {
        assert(rest[i].0 != s.last().0);
    }
}

} // verus!
