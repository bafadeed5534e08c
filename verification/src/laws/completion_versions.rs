//! What completion offers of versions and sources.

use crate::builtin::{CommonProvider, ConstraintOp, Language};
use crate::completion_cursor::FilterV;
use crate::completion_item::{lemma_sorted_contains, ItemV, SortBy};
use crate::completion_sources::{
    cached_minor, catalog_detail, common_sources, entry_item, entry_items, minor_for, source_item,
    source_values, with_catalog, with_new, CachedMinor, CatalogEntry,
};
use crate::completion_versions::{
    flavours, is_stable, latest_of, matching, matching_items, minor_of, module_version_values,
    numbered_versions, operator_item, operator_items, or_operators, prefilled, provider_source,
    provider_version_values, stamped, tool_version_values, unquoted, version_starts, CursorSlot,
    PublishedVersion,
};
use crate::inlay_hints::module_source;
use crate::laws::basics::{characters_are_found, pieces_make_up_the_text, texts_are_cut_once};
use crate::laws::completion_names::has_label;
use crate::position::{EditV, Position, Range};
use crate::seqs::{
    each, filter_map, find_map, keep, lemma_filter_map_contains, lemma_find_map_at,
    lemma_find_map_first, lemma_keep_contains,
};
use crate::text::{split, starts_with, trim};
use vstd::prelude::*;

verus! {

/// An item has a label and inserts a text.
pub open spec fn offers_text(v: Seq<ItemV>, label: Seq<char>, text: Seq<char>) -> bool {
    exists|i: int|
        0 <= i < v.len() && (#[trigger] v[i]).label == label && v[i].insert_text == Some(text)
}

proof fn lemma_offers(v: Seq<ItemV>, x: ItemV, label: Seq<char>, text: Seq<char>)
    requires
        v.contains(x),
        x.label == label,
        x.insert_text == Some(text),
    ensures
        offers_text(v, label, text),
{
    let i = choose|i: int| 0 <= i < v.len() && v[i] == x;
    assert(v[i].label == label);
}

/// A version has a minor number: `MAJOR.MINOR`, with more behind it or not.
pub proof fn minors_are_the_first_two_numbers(a: Seq<char>, b: Seq<char>, rest: Seq<char>)
    requires
        a.len() > 0 && !a.contains('.') && !a.contains('-'),
        b.len() > 0 && !b.contains('.') && !b.contains('-'),
        !rest.contains('-'),
    ensures
        minor_of(a + seq!['.'] + b) == Some(a + "."@ + b),
        minor_of(a + seq!['.'] + (b + seq!['.'] + rest)) == Some(a + "."@ + b),
        minor_of(a) is None,
{
    let short = a + seq!['.'] + b;
    let tail = b + seq!['.'] + rest;
    let long = a + seq!['.'] + tail;
    lemma_no_dash(a, b);
    lemma_no_dash(b, rest);
    lemma_no_dash(a, tail);
    texts_are_cut_once(short, short, '-');
    texts_are_cut_once(long, long, '-');
    texts_are_cut_once(a, a, '-');
    texts_are_cut_once(a, b, '.');
    texts_are_cut_once(a, tail, '.');
    texts_are_cut_once(b, rest, '.');
    texts_are_cut_once(b, b, '.');
    texts_are_cut_once(a, a, '.');
}

proof fn lemma_no_dash(a: Seq<char>, b: Seq<char>)
    requires
        !a.contains('-'),
        !b.contains('-'),
    ensures
        !(a + seq!['.'] + b).contains('-'),
{
    let s = a + seq!['.'] + b;
    if s.contains('-') {
        let i = choose|i: int| 0 <= i < s.len() && s[i] == '-';
        if i < a.len() {
            assert(a[i] == '-');
        } else if i > a.len() {
            assert(b[i - a.len() - 1] == '-');
        }
    }
}

/// The first version without a pre-release part is the latest; where all are
/// pre-releases, the first.
pub proof fn latest_versions_are_stable(v: Seq<PublishedVersion>, k: int)
    ensures
        0 <= k < v.len() && !v[k].version@.contains('-') && (forall|j: int|
            0 <= j < k ==> (#[trigger] v[j]).version@.contains('-')) ==> latest_of(v) == Some(v[k]),
        v.len() > 0 && (forall|j: int|
            0 <= j < v.len() ==> (#[trigger] v[j]).version@.contains('-')) ==> latest_of(v)
            == Some(v[0]),
        v.len() == 0 ==> latest_of(v) is None,
{
    let f = is_stable();
    assert forall|j: int| 0 <= j < v.len() implies (f(#[trigger] v[j]) is None
        <==> v[j].version@.contains('-')) by {
        let s = v[j].version@;
        characters_are_found(s, '-', 0);
        if s.contains('-') {
            let i = choose|i: int| 0 <= i < s.len() && s[i] == '-';
            assert(s[i] == '-');
        }
    }
    if 0 <= k < v.len() && f(v[k]) is Some && (forall|j: int|
        0 <= j < k ==> (#[trigger] v[j]).version@.contains('-')) {
        assert forall|j: int| 0 <= j < k implies f(#[trigger] v[j]) is None by {
            assert(v[j].version@.contains('-'));
        }
        lemma_find_map_at(v, f, k);
    }
    if find_map(v, f) is Some {
        let j = lemma_find_map_first(v, f);
        assert(!v[j].version@.contains('-'));
    }
}

/// An empty constraint is offered the latest version, `~>` with its minor number
/// where it has one, `>=` with the version, all operators and all versions.
pub proof fn empty_constraints_are_offered_the_latest(
    lang: Language,
    v: Seq<PublishedVersion>,
    heading: Seq<char>,
    source: Seq<char>,
    i: int,
    o: int,
)
    requires
        latest_of(v) is Some,
    ensures
        ({
            let items = prefilled(lang, Some(v), heading, source);
            let latest = (latest_of(v)->0).version@;
            &&& items[0].label == latest && items[0].insert_text == Some(latest)
                && items[0].preselect
            &&& minor_of(latest) matches Some(mm) ==> offers_text(
                items,
                "~> "@ + mm,
                "~> "@ + mm,
            )
            &&& offers_text(items, ">= "@ + latest, ">= "@ + latest)
            &&& 0 <= o < lang.operators@.len() ==> offers_text(
                items,
                lang.operators@[o].token@,
                lang.operators@[o].token@ + " ${1}"@,
            )
            &&& 0 <= i < v.len() ==> offers_text(items, v[i].version@, v[i].version@)
        }),
{
    let items = prefilled(lang, Some(v), heading, source);
    let latest = latest_of(v)->0;
    let a = flavours(latest, heading);
    let b = each(lang.operators@, operator_item("1"@));
    let c = numbered_versions(source, v);
    assert(items =~= a + b + c);
    assert(items[0] == a[0]);
    if let Some(mm) = minor_of(latest.version@) {
        assert(items[1] == a[1]);
        assert(items[1].label == "~> "@ + mm);
        assert(items[2] == a[2]);
        assert(items[2].label == ">= "@ + latest.version@);
    } else {
        assert(items[1] == a[1]);
        assert(items[1].label == ">= "@ + latest.version@);
    }
    if 0 <= o < lang.operators@.len() {
        assert(items[a.len() + o] == b[o]);
        assert(items[a.len() + o].label == lang.operators@[o].token@);
    }
    if 0 <= i < v.len() {
        assert(items[a.len() + b.len() + i] == c[i]);
        assert(items[a.len() + b.len() + i].label == v[i].version@);
    }
}

/// Behind an operator the versions are offered that start with what is typed, all
/// of them where none does.
pub proof fn typed_versions_are_completed(
    source: Seq<char>,
    v: Seq<PublishedVersion>,
    partial: Seq<char>,
    i: int,
)
    requires
        0 <= i < v.len(),
    ensures
        starts_with(v[i].version@, partial) ==> offers_text(
            matching_items(source, Some(v), partial),
            v[i].version@,
            v[i].version@,
        ),
        (forall|j: int| 0 <= j < v.len() ==> !starts_with((#[trigger] v[j]).version@, partial))
            ==> offers_text(
            matching_items(source, Some(v), partial),
            v[i].version@,
            v[i].version@,
        ),
        forall|x: ItemV| #[trigger]
            matching_items(source, Some(v), partial).contains(x) && starts_with(
                v[i].version@,
                partial,
            ) ==> starts_with(x.label, partial),
{
    let p = version_starts(partial);
    let kept = keep(v, p);
    let m = matching(v, partial);
    let items = matching_items(source, Some(v), partial);
    if starts_with(v[i].version@, partial) {
        lemma_keep_contains(v, p, v[i]);
        assert(v.contains(v[i]));
        assert(kept.contains(v[i]));
        let k = choose|k: int| 0 <= k < m.len() && m[k] == v[i];
        assert(items[k].label == v[i].version@);
        assert forall|x: ItemV| #[trigger] items.contains(x) implies starts_with(
            x.label,
            partial,
        ) by {
            let j = choose|j: int| 0 <= j < items.len() && items[j] == x;
            lemma_keep_contains(v, p, m[j]);
            assert(m.contains(m[j]));
        }
    }
    if forall|j: int| 0 <= j < v.len() ==> !starts_with((#[trigger] v[j]).version@, partial) {
        if kept.len() > 0 {
            lemma_keep_contains(v, p, kept[0]);
            assert(kept.contains(kept[0]));
            let j = choose|j: int| 0 <= j < v.len() && v[j] == kept[0];
            assert(starts_with(v[j].version@, partial));
        }
        assert(items[i].label == v[i].version@);
    }
}

/// Where an operator can stand, the whole offer for an empty constraint is made;
/// behind one, the versions; the operators alone where nothing is known.
pub proof fn slots_decide_what_is_offered(
    lang: Language,
    source: Seq<char>,
    ns: Seq<char>,
    name: Seq<char>,
    v: Option<Seq<PublishedVersion>>,
    op: ConstraintOp,
    partial: String,
)
    requires
        provider_source(source) == Some((ns, name)),
    ensures
        provider_version_values(lang, Some(source), CursorSlot::AtOperator, v) == or_operators(
            prefilled(
                lang,
                v,
                "latest — "@ + ns + "/"@ + name,
                ns + "/"@ + name,
            ),
            lang,
        ),
        provider_version_values(lang, Some(source), CursorSlot::Trailing, v)
            == provider_version_values(lang, Some(source), CursorSlot::AtOperator, v),
        provider_version_values(
            lang,
            Some(source),
            CursorSlot::InsideVersion { op, partial },
            v,
        ) == or_operators(matching_items(ns + "/"@ + name, v, partial@), lang),
        provider_version_values(lang, Some(source), CursorSlot::AfterOperator(op), v)
            == or_operators(matching_items(ns + "/"@ + name, v, ""@), lang),
        provider_version_values(lang, None, CursorSlot::AtOperator, v) == operator_items(lang),
        tool_version_values(lang, CursorSlot::InsideVersion { op, partial }, v) == or_operators(
            matching_items("CLI release"@, v, partial@),
            lang,
        ),
        tool_version_values(lang, CursorSlot::AtOperator, v) == or_operators(
            prefilled(lang, v, "latest CLI release"@, "CLI release"@),
            lang,
        ),
        module_version_values(lang, Some(source), CursorSlot::AtOperator, v) == operator_items(
            lang,
        ),
        prefilled(lang, None, ns, name) == operator_items(lang),
        matching_items(ns, None, partial@).len() == 0,
{
    assert("latest — "@ + (ns + "/"@ + name) =~= "latest — "@ + ns + "/"@ + name);
}

/// In the version of a module call the versions of the module are offered that
/// its source names.
pub proof fn module_versions_belong_to_the_source(
    lang: Language,
    source: Seq<char>,
    ns: Seq<char>,
    name: Seq<char>,
    provider: Seq<char>,
    v: Option<Seq<PublishedVersion>>,
    op: ConstraintOp,
    partial: String,
)
    requires
        module_source(unquoted(source)) == Some((ns, name, provider)),
    ensures
        module_version_values(
            lang,
            Some(source),
            CursorSlot::InsideVersion { op, partial },
            v,
        ) == or_operators(
            matching_items(ns + "/"@ + name + "/"@ + provider, v, partial@),
            lang,
        ),
{
}

/// A provider source is `NAMESPACE/NAME` or `HOST/NAMESPACE/NAME`.
pub proof fn sources_name_namespace_and_provider(s: Seq<char>)
    requires
        s.len() > 0 ==> s[0] != '"' && s.last() != '"',
        trim(s) == s,
    ensures
        match provider_source(s) {
            Some(x) => s == x.0 + seq!['/'] + x.1 && x.0.len() > 0 && x.1.len() > 0
                && !x.0.contains('/') && !x.1.contains('/') || exists|host: Seq<char>|
                s == #[trigger] (host + seq!['/'] + x.0 + seq!['/'] + x.1) && host.len() > 0
                    && x.0.len() > 0 && x.1.len() > 0 && !x.0.contains('/') && !x.1.contains('/'),
            None => true,
        },
{
    let parts = split(s, '/');
    pieces_make_up_the_text(s, '/', 0);
    assert(s.skip(0) =~= s);
    assert(unquoted(s) == s);
    if provider_source(s) is Some {
        reveal_with_fuel(crate::text::join, 4);
        let n = parts.len() as int;
        assert(!parts[n - 1].contains('/') && !parts[n - 2].contains('/'));
        assert(parts[n - 1].len() > 0 && parts[n - 2].len() > 0 && parts[0].len() > 0);
        if n == 2 {
            assert(parts.drop_last()[0] == parts[0]);
            assert(s =~= parts[0] + seq!['/'] + parts[1]);
        } else {
            assert(parts.drop_last().drop_last()[0] == parts[0]);
            assert(parts.drop_last().last() == parts[1]);
            assert(s =~= parts[0] + seq!['/'] + parts[1] + seq!['/'] + parts[2]);
        }
    }
}

/// An offered version takes the place of what is typed of it, on the same line.
pub proof fn offers_replace_what_is_typed(
    items: Seq<ItemV>,
    pos: Position,
    op: ConstraintOp,
    partial: String,
    i: int,
)
    requires
        0 <= i < items.len(),
        0 < partial@.len() <= pos.character,
    ensures
        ({
            let v = stamped(items, pos, CursorSlot::InsideVersion { op, partial });
            &&& v.len() == items.len()
            &&& v[i].label == items[i].label
            &&& v[i].insert_text is None
            &&& v[i].text_edit == Some(
                EditV {
                    range: Range {
                        start: Position {
                            line: pos.line,
                            character: (pos.character - partial@.len()) as u32,
                        },
                        end: pos,
                    },
                    new_text: match items[i].insert_text {
                        Some(t) => t,
                        None => items[i].label,
                    },
                },
            )
        }),
        stamped(items, pos, CursorSlot::AtOperator) == items,
        stamped(items, pos, CursorSlot::Trailing) == items,
        stamped(items, pos, CursorSlot::AfterOperator(op)) == items,
{
    reveal_strlit("");
    let n = partial@.len();
    assert(n % 0x1_0000_0000 == n);
}

// ---------------------------------------------------------------------
// Sources

/// The offered entry of a common provider names it, its source and, where it is
/// known, the latest minor version; providers that have an entry are left out.
pub proof fn entries_of_common_providers_are_offered(
    lang: Language,
    cached: Seq<CachedMinor>,
    filter: FilterV,
    i: int,
    ns: Seq<char>,
    name: Seq<char>,
)
    requires
        0 <= i < lang.common_providers@.len(),
        lang.common_providers@[i].source@ == ns + seq!['/'] + name,
        !ns.contains('/'),
    ensures
        ({
            let p = lang.common_providers@[i];
            &&& !filter.attrs.contains(p.local_name@) ==> exists|x: ItemV| #[trigger]
                entry_items(lang, cached, filter).contains(x) && x.label == p.local_name@
                    && x.insert_text == Some(
                    p.local_name@ + " = {\n  source  = \""@ + p.source@ + "\"\n  version = \""@ + (
                    match cached_minor(cached, ns, name) {
                        Some(mm) => "${1:~> "@ + mm + "}"@,
                        None => "${1}"@,
                    }) + "\"\n}$0"@,
                )
            &&& forall|x: ItemV| #[trigger]
                entry_items(lang, cached, filter).contains(x) ==> !filter.attrs.contains(x.label)
        }),
{
    let p = lang.common_providers@[i];
    let f = entry_item(cached, filter);
    let s = lang.common_providers@;
    texts_are_cut_once(ns, name, '/');
    if !filter.attrs.contains(p.local_name@) {
        let x = f(p)->0;
        assert(f(s[i]) == Some(x));
        lemma_filter_map_contains(s, f, x);
        lemma_sorted_contains(SortBy::Label, filter_map(s, f), x);
        assert(entry_items(lang, cached, filter).contains(x));
    }
    assert forall|x: ItemV| #[trigger]
        entry_items(lang, cached, filter).contains(x) implies !filter.attrs.contains(x.label) by {
        lemma_sorted_contains(SortBy::Label, filter_map(s, f), x);
        lemma_filter_map_contains(s, f, x);
        let k = choose|k: int| 0 <= k < s.len() && f(#[trigger] s[k]) == Some(x);
        assert(f(s[k]) is Some);
    }
}

/// The minor version is that of the provider with the namespace and the name.
pub proof fn minors_belong_to_their_provider(
    cached: Seq<CachedMinor>,
    ns: Seq<char>,
    name: Seq<char>,
    i: int,
)
    requires
        0 <= i < cached.len(),
        cached[i].namespace@ == ns && cached[i].name@ == name,
        forall|j: int|
            0 <= j < i ==> !((#[trigger] cached[j]).namespace@ == ns && cached[j].name@ == name),
    ensures
        cached_minor(cached, ns, name) == Some(cached[i].minor@),
{
    lemma_find_map_at(cached, minor_for(ns, name), i);
}

proof fn lemma_keeps(s: Seq<ItemV>, x: ItemV, label: Seq<char>)
    ensures
        has_label(with_new(s, x), label) <==> has_label(s, label) || x.label == label,
{
    let w = with_new(s, x);
    if has_label(s, label) {
        let i = choose|i: int| 0 <= i < s.len() && (#[trigger] s[i]).label == label;
        assert(w[i].label == label);
    }
    if x.label == label && !crate::completion_sources::has_label(s, x.label) {
        assert(w[s.len() as int].label == label);
    }
    if x.label == label && crate::completion_sources::has_label(s, x.label) {
        let i = choose|i: int| 0 <= i < s.len() && (#[trigger] s[i]).label == x.label;
        assert(w[i].label == label);
    }
    if has_label(w, label) {
        let i = choose|i: int| 0 <= i < w.len() && (#[trigger] w[i]).label == label;
        if i < s.len() {
            assert(s[i].label == label);
        }
    }
}

/// A source is offered exactly where a common provider has it, bare or behind one
/// of the two registries, or the catalog lists it.
pub open spec fn is_source(lang: Language, catalog: Seq<CatalogEntry>, label: Seq<char>) -> bool {
    ||| exists|i: int|
        0 <= i < lang.common_providers@.len() && ((#[trigger] lang.common_providers@[i]).source@
            == label || "registry.terraform.io/"@ + lang.common_providers@[i].source@ == label
            || "registry.opentofu.org/"@ + lang.common_providers@[i].source@ == label)
    ||| exists|i: int| 0 <= i < catalog.len() && (#[trigger] catalog[i]).source@ == label
}

pub proof fn known_sources_are_offered(lang: Language, catalog: Seq<CatalogEntry>, label: Seq<char>)
    ensures
        has_label(source_values(lang, catalog), label) <==> is_source(lang, catalog, label),
{
    let p = lang.common_providers@;
    lemma_common(p, p.len() as int, label);
    lemma_catalog(common_sources(p, p.len() as int), catalog, catalog.len() as int, label);
}

proof fn lemma_common(p: Seq<CommonProvider>, n: int, label: Seq<char>)
    requires
        0 <= n <= p.len(),
    ensures
        has_label(common_sources(p, n), label) <==> exists|i: int|
            0 <= i < n && ((#[trigger] p[i]).source@ == label || "registry.terraform.io/"@
                + p[i].source@ == label || "registry.opentofu.org/"@ + p[i].source@ == label),
    decreases n,
{
    if n > 0 {
        lemma_common(p, n - 1, label);
        let s = common_sources(p, n - 1);
        let q = p[n - 1];
        let a = source_item(q.source@, "00_"@, "default registry — "@ + q.hint@);
        let b = source_item(
            "registry.terraform.io/"@ + q.source@,
            "00_"@,
            "Terraform registry — "@ + q.hint@,
        );
        let c = source_item(
            "registry.opentofu.org/"@ + q.source@,
            "00_"@,
            "OpenTofu registry — "@ + q.hint@,
        );
        lemma_keeps(s, a, label);
        lemma_keeps(with_new(s, a), b, label);
        lemma_keeps(with_new(with_new(s, a), b), c, label);
        if has_label(common_sources(p, n), label) && !has_label(s, label) {
            assert(p[n - 1].source@ == label || "registry.terraform.io/"@ + p[n - 1].source@
                == label || "registry.opentofu.org/"@ + p[n - 1].source@ == label);
        }
    }
}

proof fn lemma_catalog(s: Seq<ItemV>, catalog: Seq<CatalogEntry>, n: int, label: Seq<char>)
    requires
        0 <= n <= catalog.len(),
    ensures
        has_label(with_catalog(s, catalog, n), label) <==> has_label(s, label) || exists|i: int|
            0 <= i < n && (#[trigger] catalog[i]).source@ == label,
    decreases n,
{
    if n > 0 {
        lemma_catalog(s, catalog, n - 1, label);
        lemma_keeps(
            with_catalog(s, catalog, n - 1),
            source_item(catalog[n - 1].source@, "01_"@, catalog_detail(catalog[n - 1])),
            label,
        );
        if catalog[n - 1].source@ == label {
            assert(0 <= n - 1 < n && catalog[n - 1].source@ == label);
        }
    }
}

} // verus!
