//! What the inlay hints say, and where they stand.

use crate::hcl::{
    attributes, blocks, blocks_named, Attribute, Block, Body, ExprKind, Expression, Structure,
};
use crate::inlay_hints::{
    accepted, age_text, block_default, block_lifecycle_hints, block_version_hints, constraint_for,
    default_hint, enabled_hint, inlay_answer, is_row, lifecycle_hints, lifecycle_hints_in,
    module_source, provider_source, row_value, stale_part, table_of, terraform_hints, value_of,
    variable_defaults, version_hint, version_label, versions_for, with_row, HintKind, HintV,
    SourceV, TableV, VersionContext,
};
use crate::laws::actions::lemma_block_in;
use crate::laws::basics::{not_after, texts_are_cut_once, trimmed_texts_stay};
use crate::laws::block_renames::lemma_position_at;
use crate::laws::common::{is_doc, lemma_doc};
use crate::laws::modules::{has_attribute, has_block, lemma_attributes, lemma_blocks_named};
use crate::position::{rope_text, span_range, Range};
use crate::seqs::{
    filter_map, find_map, flat_map, lemma_filter_map_contains, lemma_find_map_at,
    lemma_find_map_first, lemma_flat_map_contains, position_from,
};
use crate::state::{DocUri, ReferenceKind, StateStore};
use crate::text::{char_is_whitespace, decimal, ends_with, opt_view, texts};
use crate::versions::VersionEntry;
use vstd::prelude::*;

verus! {

// ---------------------------------------------------------------------
// Defaults

/// How a scalar literal is shown.
pub open spec fn shows(e: Expression, text: Seq<char>) -> bool {
    match e.kind {
        ExprKind::Str(s) => text == "\""@ + s@ + "\""@,
        ExprKind::Number(n) => text == n@,
        ExprKind::Bool(b) => text == if b {
            "true"@
        } else {
            "false"@
        },
        ExprKind::Null => text == "null"@,
        _ => false,
    }
}

/// A `variable` block of a name with a scalar default.
pub open spec fn has_default(b: Block, name: Seq<char>, text: Seq<char>, i: int) -> bool {
    let v = attributes(b.body);
    &&& b.ident.text@ == "variable"@
    &&& b.labels@.len() > 0 && b.labels@[0].text@ == name
    &&& 0 <= i < v.len() && v[i].key.text@ == "default"@
    &&& forall|j: int| 0 <= j < i ==> (#[trigger] v[j]).key.text@ != "default"@
    &&& shows(v[i].value, text)
}

pub open spec fn row_in(m: TableV, name: Seq<char>) -> Option<Seq<char>> {
    find_map(m, row_value(name))
}

proof fn lemma_with_row(m: TableV, row: (Seq<char>, Seq<char>), name: Seq<char>)
    ensures
        row_in(with_row(m, row), name) == if row.0 == name {
            Some(row.1)
        } else {
            row_in(m, name)
        },
{
    let f = row_value(name);
    let w = with_row(m, row);
    lemma_position_at(m, is_row(row.0), 0);
    let at = match position_from(m, is_row(row.0), 0) {
        Some(i) => i,
        None => m.len() as int,
    };
    assert(w[at] == row);
    assert forall|j: int| 0 <= j < at implies w[j] == #[trigger] m[j] && m[j].0 != row.0 by {
        assert(!is_row(row.0)(m[j]));
    }
    if row.0 == name {
        assert forall|j: int| 0 <= j < at implies f(#[trigger] w[j]) is None by {
            assert(w[j] == m[j]);
        }
        lemma_find_map_at(w, f, at);
    } else {
        if row_in(m, name) is Some {
            let k = lemma_find_map_first(m, f);
            if at < m.len() {
                assert(is_row(row.0)(m[at]));
            }
            assert(w[k] == m[k]);
            assert forall|j: int| 0 <= j < k implies f(#[trigger] w[j]) is None by {
                if j != at {
                    assert(w[j] == m[j]);
                }
            }
            lemma_find_map_at(w, f, k);
        } else if row_in(w, name) is Some {
            let k = lemma_find_map_first(w, f);
            if k != at {
                assert(w[k] == m[k]);
                lemma_none(m, f, k);
            }
        }
    }
}

proof fn lemma_none<A, B>(s: Seq<A>, f: spec_fn(A) -> Option<B>, k: int)
    requires
        find_map(s, f) is None,
        0 <= k < s.len(),
    ensures
        f(s[k]) is None,
    decreases k,
{
    if f(s[k]) is Some {
        if forall|j: int| 0 <= j < k ==> f(#[trigger] s[j]) is None {
            lemma_find_map_at(s, f, k);
        } else {
            let j = choose|j: int| 0 <= j < k && !(f(#[trigger] s[j]) is None);
            lemma_none(s, f, j);
        }
    }
}

proof fn lemma_table(rows: TableV, n: int, name: Seq<char>, text: Seq<char>, k: int)
    requires
        0 <= k < n <= rows.len(),
        rows[k] == (name, text),
        forall|j: int| k < j < n ==> (#[trigger] rows[j]).0 != name,
    ensures
        row_in(table_of(rows, n), name) == Some(text),
    decreases n,
{
    lemma_with_row(table_of(rows, n - 1), rows[n - 1], name);
    if k < n - 1 {
        lemma_table(rows, n - 1, name, text, k);
    }
}

/// The names that have a default are those of the `variable` blocks; a name that
/// none of them gives a default has none.
proof fn lemma_no_row(rows: TableV, n: int, name: Seq<char>)
    requires
        0 <= n <= rows.len(),
        forall|j: int| 0 <= j < n ==> (#[trigger] rows[j]).0 != name,
    ensures
        row_in(table_of(rows, n), name) is None,
    decreases n,
{
    if n > 0 {
        lemma_with_row(table_of(rows, n - 1), rows[n - 1], name);
        lemma_no_row(rows, n - 1, name);
    }
}

/// Behind a visible reference to a variable stands the default of the variable,
/// where its block gives it a scalar.
pub proof fn references_show_the_default(
    state: StateStore,
    uri: DocUri,
    visible: Range,
    ctx: VersionContext,
    k: int,
    r: int,
    b: Block,
    name: Seq<char>,
    text: Seq<char>,
    i: int,
)
    requires
        is_doc(state, uri.text@, k),
        state.documents@[k].body is Some,
        0 <= r < state.documents@[k].references@.len(),
        state.documents@[k].references@[r].kind matches ReferenceKind::Variable { name: n } && n@
            == name,
        not_after(visible.start, state.documents@[k].references@[r].location.range.start),
        not_after(state.documents@[k].references@[r].location.range.end, visible.end),
        has_block(state.documents@[k].body->0, b),
        has_default(b, name, text, i),
        forall|o: Block| #[trigger]
            has_block(state.documents@[k].body->0, o) && o.ident.text@ == "variable"@
                && o.labels@.len() > 0 && o.labels@[0].text@ == name ==> o == b,
    ensures
        inlay_answer(state, uri, visible, ctx) matches Some(v) && v.contains(
            HintV {
                position: state.documents@[k].references@[r].location.range.end,
                label: " = "@ + text,
                kind: HintKind::Parameter,
                tooltip: None,
            },
        ),
{
    lemma_doc(state, uri, k);
    let doc = state.documents@[k];
    let body = doc.body->0;
    let s = blocks_named(body, "variable"@);
    let rows = filter_map(s, block_default());
    lemma_find_map_at(attributes(b.body), value_of("default"@), i);
    assert(block_default()(b) == Some((name, text)));
    lemma_blocks_named(body, "variable"@, b);
    let m = choose|m: int| 0 <= m < s.len() && s[m] == b;
    lemma_filter_map_contains(s, block_default(), (name, text));
    assert(block_default()(s[m]) == Some((name, text)));
    assert forall|j: int| 0 <= j < rows.len() && (#[trigger] rows[j]).0 == name implies rows[j].1
        == text by {
        lemma_filter_map_contains(s, block_default(), rows[j]);
        assert(rows.contains(rows[j]));
        let q = choose|q: int| 0 <= q < s.len() && block_default()(#[trigger] s[q]) == Some(rows[j]);
        assert(s.contains(s[q]));
        lemma_blocks_named(body, "variable"@, s[q]);
        assert(s[q] == b);
    }
    let first = choose|j: int| 0 <= j < rows.len() && rows[j] == (name, text);
    let last = lemma_last(rows, name, first, rows.len() as int);
    lemma_table(rows, rows.len() as int, name, text, last);
    let f = default_hint(variable_defaults(body), visible);
    let h = HintV {
        position: doc.references@[r].location.range.end,
        label: " = "@ + text,
        kind: HintKind::Parameter,
        tooltip: None,
    };
    assert(f(doc.references@[r]) == Some(h));
    lemma_filter_map_contains(doc.references@, f, h);
    let own = filter_map(doc.references@, f);
    let z = choose|z: int| 0 <= z < own.len() && own[z] == h;
    let v = own + flat_map(blocks(body), block_version_hints(rope_text(doc.rope), visible, ctx))
        + lifecycle_hints(body, rope_text(doc.rope), visible, uri.path@);
    assert(v[z] == h);
}

proof fn lemma_last(rows: TableV, name: Seq<char>, first: int, n: int) -> (k: int)
    requires
        0 <= first < n <= rows.len(),
        rows[first].0 == name,
    ensures
        first <= k < n,
        rows[k].0 == name,
        forall|j: int| k < j < n ==> (#[trigger] rows[j]).0 != name,
    decreases n,
{
    if rows[n - 1].0 == name {
        n - 1
    } else {
        lemma_last(rows, name, first, n - 1)
    }
}

/// The other references have no hint of that kind.
pub proof fn only_variables_show_a_default(defaults: TableV, visible: Range, r: crate::state::Reference)
    requires
        !(r.kind is Variable) || !(not_after(visible.start, r.location.range.start) && not_after(
            r.location.range.end,
            visible.end,
        )),
    ensures
        default_hint(defaults, visible)(r) is None,
{
}

// ---------------------------------------------------------------------
// `enabled`

/// An `enabled` setting in the lifecycle of a resource or a data source.
pub open spec fn enables(body: Body, b: Block, l: Block, a: Attribute) -> bool {
    &&& has_block(body, b)
    &&& b.ident.text@ == "resource"@ || b.ident.text@ == "data"@
    &&& has_block(b.body, l)
    &&& l.ident.text@ == "lifecycle"@
    &&& has_attribute(l.body, a)
    &&& a.key.text@ == "enabled"@
}

/// Each visible `enabled` setting gets a hint at its end in a file that
/// Terraform reads too.
pub proof fn enabled_settings_are_marked(
    body: Body,
    t: Seq<char>,
    visible: Range,
    path: Seq<char>,
    b: Block,
    l: Block,
    a: Attribute,
    range: Range,
)
    requires
        enables(body, b, l, a),
        a.value.span is Some,
        span_range(t, a.value.span->0) == Some(range),
        not_after(visible.start, range.start),
        not_after(range.end, visible.end),
        !ends_with(path, ".tofu"@),
        !ends_with(path, ".tofu.json"@),
    ensures
        exists|h: HintV| #[trigger]
            lifecycle_hints(body, t, visible, path).contains(h) && h.position == range.end && h.label
                == " OpenTofu 1.11+"@,
{
    let h = enabled_hint(t, visible)(a)->0;
    let v = attributes(l.body);
    lemma_attributes(l.body, a);
    let n = choose|n: int| 0 <= n < v.len() && v[n] == a;
    lemma_filter_map_contains(v, enabled_hint(t, visible), h);
    assert(enabled_hint(t, visible)(v[n]) == Some(h));
    let fl = lifecycle_hints_in(t, visible);
    assert(fl(l).contains(h));
    let ls = blocks_named(b.body, "lifecycle"@);
    lemma_blocks_named(b.body, "lifecycle"@, l);
    let m = choose|m: int| 0 <= m < ls.len() && ls[m] == l;
    lemma_flat_map_contains(ls, fl, h);
    assert(fl(ls[m]).contains(h));
    let fb = block_lifecycle_hints(t, visible);
    assert(fb(b).contains(h));
    lemma_block_in(body, b);
    let bs = blocks(body);
    let k = choose|k: int| 0 <= k < bs.len() && bs[k] == b;
    lemma_flat_map_contains(bs, fb, h);
    assert(fb(bs[k]).contains(h));
    assert(lifecycle_hints(body, t, visible, path).contains(h));
}

/// No other setting gets that hint.
pub proof fn only_enabled_settings_are_marked(
    body: Body,
    t: Seq<char>,
    visible: Range,
    path: Seq<char>,
    h: HintV,
)
    requires
        lifecycle_hints(body, t, visible, path).contains(h),
    ensures
        !ends_with(path, ".tofu"@),
        !ends_with(path, ".tofu.json"@),
        exists|b: Block, l: Block, a: Attribute| #[trigger]
            enables(body, b, l, a) && a.value.span is Some && (
            span_range(t, a.value.span->0) matches Some(range) && range.end == h.position
                && not_after(visible.start, range.start) && not_after(range.end, visible.end)),
{
    let bs = blocks(body);
    let fb = block_lifecycle_hints(t, visible);
    lemma_flat_map_contains(bs, fb, h);
    let k = choose|k: int| 0 <= k < bs.len() && (#[trigger] fb(bs[k])).contains(h);
    let b = bs[k];
    assert(bs.contains(b));
    lemma_block_in(body, b);
    let ls = blocks_named(b.body, "lifecycle"@);
    let fl = lifecycle_hints_in(t, visible);
    lemma_flat_map_contains(ls, fl, h);
    let m = choose|m: int| 0 <= m < ls.len() && (#[trigger] fl(ls[m])).contains(h);
    let l = ls[m];
    assert(ls.contains(l));
    lemma_blocks_named(b.body, "lifecycle"@, l);
    let v = attributes(l.body);
    lemma_filter_map_contains(v, enabled_hint(t, visible), h);
    let n = choose|n: int| 0 <= n < v.len() && enabled_hint(t, visible)(#[trigger] v[n]) == Some(h);
    assert(v.contains(v[n]));
    lemma_attributes(l.body, v[n]);
    assert(enables(body, b, l, v[n]));
}

// ---------------------------------------------------------------------
// Versions

/// The age is told in days, in months of 30 days below a year, and then in years
/// of 365 days and months, which are left out where there are none.
pub proof fn ages_are_told_in_words(years: nat, months: nat, days: nat)
    requires
        days < 30,
        30 * months + days < 365,
    ensures
        ({
            let age = 365 * years + 30 * months + days;
            &&& years == 0 && months == 0 ==> age_text(age as int)
                == crate::text::signed_decimal(days as int) + "d old"@
            &&& years == 0 && months > 0 ==> age_text(age as int) == decimal(months) + "mo old"@
            &&& years > 0 && months == 0 ==> age_text(age as int) == decimal(years) + "y old"@
            &&& years > 0 && months > 0 ==> age_text(age as int) == decimal(years) + "y "@
                + decimal(months) + "mo old"@
        }),
{
    let age = 365 * years + 30 * months + days;
    let rest = 30 * months + days;
    vstd::arithmetic::div_mod::lemma_fundamental_div_mod_converse(
        age as int,
        365,
        years as int,
        rest as int,
    );
    vstd::arithmetic::div_mod::lemma_fundamental_div_mod_converse(
        rest as int,
        30,
        months as int,
        days as int,
    );
}

/// A version is accepted where the constraint lists it.
pub open spec fn is_first_accepted(accepts: Seq<String>, entries: Seq<VersionEntry>, k: int) -> bool {
    &&& 0 <= k < entries.len()
    &&& texts(accepts).contains(entries[k].version@)
    &&& forall|j: int|
        0 <= j < k ==> !texts(accepts).contains((#[trigger] entries[j]).version@)
}

/// A constraint that accepts the newest version gets a check mark with it; else
/// the newest version is shown as one to go to, with the newest accepted one as
/// the one that is pinned.
pub proof fn newest_versions_are_shown(
    accepts: Seq<String>,
    entries: Seq<VersionEntry>,
    stale_days: u32,
    today: int,
    k: int,
)
    requires
        is_first_accepted(accepts, entries, k),
    ensures
        k == 0 ==> version_label(accepts, entries, stale_days, today) == Some(
            "✓ "@ + entries[0].version@ + stale_part(
                "   ⚠ "@,
                opt_view(entries[0].published),
                stale_days,
                today,
            ),
        ),
        k > 0 ==> version_label(accepts, entries, stale_days, today) == Some(
            "→ "@ + entries[0].version@ + "  (pinned: "@ + entries[k].version@ + ")"@ + stale_part(
                "  ⚠ "@,
                opt_view(entries[k].published),
                stale_days,
                today,
            ),
        ),
{
    lemma_find_map_at(entries, accepted(accepts), k);
}

/// A constraint that accepts no known version is not judged.
pub proof fn unmatched_constraints_are_not_judged(
    accepts: Seq<String>,
    entries: Seq<VersionEntry>,
    stale_days: u32,
    today: int,
)
    requires
        forall|j: int|
            0 <= j < entries.len() ==> !texts(accepts).contains((#[trigger] entries[j]).version@),
    ensures
        version_label(accepts, entries, stale_days, today) is None,
{
    let f = accepted(accepts);
    if find_map(entries, f) is Some {
        let k = lemma_find_map_first(entries, f);
    }
}

/// A release is called stale exactly where it is older than the limit, and never
/// without one.
pub proof fn old_releases_are_stale(
    gap: Seq<char>,
    date: Option<Seq<char>>,
    stale_days: u32,
    today: int,
)
    ensures
        match crate::versions::age_of(date, today) {
            Some(age) => if stale_days != 0 && age > stale_days {
                stale_part(gap, date, stale_days, today) == gap + age_text(age)
            } else {
                stale_part(gap, date, stale_days, today).len() == 0
            },
            None => stale_part(gap, date, stale_days, today).len() == 0,
        },
{
}

/// A part of a source address: no slash, no whitespace and not empty.
pub open spec fn is_part(s: Seq<char>) -> bool {
    &&& s.len() > 0
    &&& !s.contains('/')
    &&& forall|i: int| 0 <= i < s.len() ==> !char_is_whitespace(#[trigger] s[i])
}

/// A provider source is its namespace and its name; a host before them does not
/// count.
pub proof fn provider_sources_have_two_parts(host: Seq<char>, namespace: Seq<char>, name: Seq<char>)
    requires
        is_part(host),
        is_part(namespace),
        is_part(name),
    ensures
        provider_source(namespace + seq!['/'] + name) == Some((namespace, name)),
        provider_source(host + seq!['/'] + (namespace + seq!['/'] + name)) == Some(
            (namespace, name),
        ),
        provider_source(name) is None,
{
    let short = namespace + seq!['/'] + name;
    let long = host + seq!['/'] + short;
    assert(short[0] == namespace[0]);
    assert(short.last() == name.last());
    assert(long[0] == host[0]);
    assert(long.last() == name.last());
    trimmed_texts_stay(short);
    trimmed_texts_stay(long);
    trimmed_texts_stay(name);
    texts_are_cut_once(host, short, '/');
    texts_are_cut_once(namespace, name, '/');
    texts_are_cut_once(name, name, '/');
}

/// The constraint as it is written, and the versions of a source.
pub open spec fn is_known(
    ctx: VersionContext,
    raw: Seq<char>,
    source: SourceV,
    c: int,
    v: int,
) -> bool {
    &&& 0 <= c < ctx.constraints@.len() && ctx.constraints@[c].raw@ == raw
    &&& forall|j: int| 0 <= j < c ==> (#[trigger] ctx.constraints@[j]).raw@ != raw
    &&& 0 <= v < ctx.versions@.len() && ctx.versions@[v].source@ == source
    &&& forall|j: int| 0 <= j < v ==> (#[trigger] ctx.versions@[j]).source@ != source
}

/// Behind a visible constraint stands the label for the versions of its source.
pub proof fn constraints_are_judged_by_their_source(
    e: Expression,
    t: Seq<char>,
    visible: Range,
    source: SourceV,
    ctx: VersionContext,
    range: Range,
    raw: Seq<char>,
    c: int,
    v: int,
)
    requires
        e.span is Some,
        span_range(t, e.span->0) == Some(range),
        e.kind matches ExprKind::Str(s) && s@ == raw,
        is_known(ctx, raw, source, c, v),
    ensures
        ({
            let label = version_label(
                ctx.constraints@[c].accepts@,
                ctx.versions@[v].entries@,
                ctx.stale_days,
                ctx.today as int,
            );
            let seen = not_after(visible.start, range.start) && not_after(range.end, visible.end);
            if seen && ctx.constraints@[c].valid && label is Some {
                version_hint(e, t, visible, source, ctx) == Some(
                    HintV {
                        position: range.end,
                        label: label->0,
                        kind: HintKind::Type,
                        tooltip: None,
                    },
                )
            } else {
                version_hint(e, t, visible, source, ctx) is None
            }
        }),
{
    lemma_find_map_at(ctx.constraints@, constraint_for(raw), c);
    lemma_find_map_at(ctx.versions@, versions_for(source), v);
}

/// A `required_version` is judged by the releases of the CLI.
pub proof fn required_versions_are_judged_by_the_cli(
    body: Body,
    t: Seq<char>,
    visible: Range,
    ctx: VersionContext,
    b: Block,
    a: Attribute,
    h: HintV,
)
    requires
        has_block(body, b),
        b.ident.text@ == "terraform"@,
        has_attribute(b.body, a),
        a.key.text@ == "required_version"@,
        version_hint(a.value, t, visible, SourceV::TerraformCli, ctx) == Some(h),
    ensures
        flat_map(blocks(body), block_version_hints(t, visible, ctx)).contains(h),
{
    let s = b.body.structures@;
    let i = choose|i: int| 0 <= i < s.len() && s[i] == Structure::Attribute(a);
    let f = terraform_hints(t, visible, ctx);
    lemma_flat_map_contains(s, f, h);
    assert(f(s[i])[0] == h);
    assert(f(s[i]).contains(h));
    lemma_block_hint(body, t, visible, ctx, b, h);
}

proof fn lemma_block_hint(
    body: Body,
    t: Seq<char>,
    visible: Range,
    ctx: VersionContext,
    b: Block,
    h: HintV,
)
    requires
        has_block(body, b),
        block_version_hints(t, visible, ctx)(b).contains(h),
    ensures
        flat_map(blocks(body), block_version_hints(t, visible, ctx)).contains(h),
{
    let f = block_version_hints(t, visible, ctx);
    lemma_block_in(body, b);
    let s = blocks(body);
    let i = choose|i: int| 0 <= i < s.len() && s[i] == b;
    lemma_flat_map_contains(s, f, h);
    assert(f(s[i]).contains(h));
}

/// An object names a provider with its version, each key once.
pub open spec fn requires_provider(
    e: Expression,
    source: Seq<char>,
    i: int,
    j: int,
) -> bool {
    match e.kind {
        ExprKind::Object(items) => {
            &&& 0 <= i < items@.len() && crate::hcl::key_text(items@[i].key) == Some("source"@)
            &&& 0 <= j < items@.len() && crate::hcl::key_text(items@[j].key) == Some("version"@)
            &&& (items@[i].value.kind matches ExprKind::Str(s) && s@ == source)
            &&& forall|k: int|
                0 <= k < items@.len() && k != i ==> crate::hcl::key_text(
                    (#[trigger] items@[k]).key,
                ) != Some("source"@)
            &&& forall|k: int|
                0 <= k < items@.len() && k != j ==> crate::hcl::key_text(
                    (#[trigger] items@[k]).key,
                ) != Some("version"@)
        },
        _ => false,
    }
}

/// The version of a required provider is judged by the releases of the provider
/// that its source names.
pub proof fn provider_versions_are_judged_by_the_provider(
    body: Body,
    t: Seq<char>,
    visible: Range,
    ctx: VersionContext,
    b: Block,
    p: Block,
    a: Attribute,
    namespace: Seq<char>,
    name: Seq<char>,
    i: int,
    j: int,
    h: HintV,
)
    requires
        has_block(body, b),
        b.ident.text@ == "terraform"@,
        has_block(b.body, p),
        p.ident.text@ == "required_providers"@,
        has_attribute(p.body, a),
        is_part(namespace),
        is_part(name),
        requires_provider(a.value, namespace + seq!['/'] + name, i, j),
        a.value.kind matches ExprKind::Object(items) && version_hint(
            items@[j].value,
            t,
            visible,
            SourceV::Provider { namespace, name },
            ctx,
        ) == Some(h),
    ensures
        flat_map(blocks(body), block_version_hints(t, visible, ctx)).contains(h),
{
    provider_sources_have_two_parts(name, namespace, name);
    if let ExprKind::Object(items) = a.value.kind {
        lemma_last_item(items@, "source"@, i);
        lemma_last_item(items@, "version"@, j);
    }
    let fe = crate::inlay_hints::entry_hint(t, visible, ctx);
    assert(fe(a) == Some(h));
    let v = attributes(p.body);
    lemma_attributes(p.body, a);
    let n = choose|n: int| 0 <= n < v.len() && v[n] == a;
    lemma_filter_map_contains(v, fe, h);
    assert(fe(v[n]) == Some(h));
    let s = b.body.structures@;
    let k = choose|k: int| 0 <= k < s.len() && s[k] == Structure::Block(p);
    let f = terraform_hints(t, visible, ctx);
    lemma_flat_map_contains(s, f, h);
    assert(f(s[k]).contains(h));
    lemma_block_hint(body, t, visible, ctx, b, h);
}

proof fn lemma_last_item(items: Seq<crate::hcl::ObjectItem>, key: Seq<char>, i: int)
    requires
        0 <= i < items.len(),
        crate::hcl::key_text(items[i].key) == Some(key),
        forall|k: int|
            0 <= k < items.len() && k != i ==> crate::hcl::key_text((#[trigger] items[k]).key)
                != Some(key),
    ensures
        crate::inlay_hints::last_item(items, key) == Some(items[i].value),
    decreases items.len(),
{
    if i < items.len() - 1 {
        assert(items.last() == items[items.len() - 1]);
        assert forall|k: int|
            0 <= k < items.drop_last().len() && k != i implies crate::hcl::key_text(
            (#[trigger] items.drop_last()[k]).key,
        ) != Some(key) by {
            assert(items.drop_last()[k] == items[k]);
        }
        lemma_last_item(items.drop_last(), key, i);
    }
}

/// The version of a called module is judged by the releases of the module.
pub proof fn module_versions_are_judged_by_the_module(
    body: Body,
    t: Seq<char>,
    visible: Range,
    ctx: VersionContext,
    b: Block,
    i: int,
    j: int,
    source: Seq<char>,
    parts: (Seq<char>, Seq<char>, Seq<char>),
    h: HintV,
)
    requires
        has_block(body, b),
        b.ident.text@ == "module"@,
        0 <= i < attributes(b.body).len(),
        attributes(b.body)[i].key.text@ == "source"@,
        attributes(b.body)[i].value.kind matches ExprKind::Str(s) && s@ == source,
        forall|k: int|
            i < k < attributes(b.body).len() ==> (#[trigger] attributes(b.body)[k]).key.text@
                != "source"@,
        0 <= j < attributes(b.body).len(),
        attributes(b.body)[j].key.text@ == "version"@,
        forall|k: int|
            j < k < attributes(b.body).len() ==> (#[trigger] attributes(b.body)[k]).key.text@
                != "version"@,
        module_source(source) == Some(parts),
        version_hint(
            attributes(b.body)[j].value,
            t,
            visible,
            SourceV::Module { namespace: parts.0, name: parts.1, provider: parts.2 },
            ctx,
        ) == Some(h),
    ensures
        flat_map(blocks(body), block_version_hints(t, visible, ctx)).contains(h),
{
    lemma_last_attribute(attributes(b.body), "source"@, i);
    lemma_last_attribute(attributes(b.body), "version"@, j);
    reveal_strlit("terraform");
    reveal_strlit("module");
    assert("terraform"@.len() != "module"@.len());
    assert(block_version_hints(t, visible, ctx)(b)[0] == h);
    lemma_block_hint(body, t, visible, ctx, b, h);
}

proof fn lemma_last_attribute(s: Seq<Attribute>, key: Seq<char>, i: int)
    requires
        0 <= i < s.len(),
        s[i].key.text@ == key,
        forall|k: int| i < k < s.len() ==> (#[trigger] s[k]).key.text@ != key,
    ensures
        crate::inlay_hints::last_attribute(s, key) == Some(s[i].value),
    decreases s.len(),
{
    if i < s.len() - 1 {
        assert(s.last() == s[s.len() - 1]);
        assert forall|k: int| i < k < s.drop_last().len() implies (
        #[trigger] s.drop_last()[k]).key.text@ != key by {
            assert(s.drop_last()[k] == s[k]);
        }
        lemma_last_attribute(s.drop_last(), key, i);
    }
}

/// A registry module source is its namespace, its name and its provider.
pub proof fn module_sources_have_three_parts(s: Seq<char>)
    ensures
        module_source(s) matches Some(p) ==> crate::text::trim(s) == p.0 + seq!['/'] + p.1
            + seq!['/'] + p.2 && p.0.len() > 0 && p.1.len() > 0 && p.2.len() > 0
            && !p.0.contains('/') && !p.1.contains('/') && !p.2.contains('/'),
{
    let t = crate::text::trim(s);
    let v = crate::text::split(t, '/');
    crate::laws::basics::pieces_make_up_the_text(t, '/', 0);
    assert(t.skip(0) =~= t);
    if module_source(s) is Some {
        assert(!v[0].contains('/') && !v[1].contains('/') && !v[2].contains('/'));
        reveal_with_fuel(crate::text::join, 4);
        assert(v.drop_last().drop_last()[0] == v[0]);
        assert(v.drop_last().last() == v[1]);
        assert(crate::text::join(v, seq!['/']) =~= v[0] + seq!['/'] + v[1] + seq!['/'] + v[2]);
    }
}

} // verus!
