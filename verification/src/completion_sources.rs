//! Completion of the entries of `required_providers` and of their sources.

use crate::builtin::{CommonProvider, Language};
use crate::completion_body::no_items;
use crate::completion_cursor::{BodyFilter, FilterV};
use crate::completion_item::{
    insert_item, items_view, push_item, sort_items, sorted_items, CompletionItem, InsertFormat,
    ItemKind, ItemV, SortBy,
};
use crate::seqs::{
    filter_map, find_map, lemma_filter_map_step, lemma_find_map_step, lemma_take_full,
};
use crate::text::{
    concat2, concat3, concat5, opt_view, split_once, str_eq, str_split_once, str_trim, trim,
};
use vstd::prelude::*;

verus! {

/// The major and minor number of the latest version of a provider, as far as it
/// was fetched before.
#[derive(Debug)]
pub struct CachedMinor {
    pub namespace: String,
    pub name: String,
    pub minor: String,
}

/// A provider that a registry lists.
#[derive(Debug)]
pub struct CatalogEntry {
    pub source: String,
    pub tier: Option<String>,
    pub description: Option<String>,
}

// ---------------------------------------------------------------------
// Entries

pub open spec fn minor_for(ns: Seq<char>, name: Seq<char>) -> spec_fn(CachedMinor) -> Option<
    Seq<char>,
> {
    |c: CachedMinor|
        if c.namespace@ == ns && c.name@ == name {
            Some(c.minor@)
        } else {
            None
        }
}

pub open spec fn cached_minor(cached: Seq<CachedMinor>, ns: Seq<char>, name: Seq<char>) -> Option<
    Seq<char>,
> {
    find_map(cached, minor_for(ns, name))
}

fn find_minor<'a>(cached: &'a Vec<CachedMinor>, ns: &str, name: &str) -> (r: Option<&'a str>)
    ensures
        match r {
            Some(m) => cached_minor(cached@, ns@, name@) == Some(m@),
            None => cached_minor(cached@, ns@, name@) is None,
        },
{
    let ghost f = minor_for(ns@, name@);
    proof {
        lemma_take_full(cached@);
    }
    for i in 0..cached.len()
        invariant
            f == minor_for(ns@, name@),
            find_map(cached@, f) == find_map(cached@.skip(i as int), f),
    {
        proof {
            lemma_find_map_step(cached@, f, i as int);
        }
        if str_eq(cached[i].namespace.as_str(), ns) && str_eq(cached[i].name.as_str(), name) {
            return Some(cached[i].minor.as_str());
        }
    }
    None
}

/// The tabstop for the version: the compatible range of the latest version,
/// where that is known.
pub open spec fn version_tabstop(minor: Option<Seq<char>>) -> Seq<char> {
    match minor {
        Some(mm) => "${1:~> "@ + mm + "}"@,
        None => "${1}"@,
    }
}

pub open spec fn entry_text(p: CommonProvider, minor: Option<Seq<char>>) -> Seq<char> {
    p.local_name@ + " = {\n  source  = \""@ + p.source@ + "\"\n  version = \""@ + version_tabstop(
        minor,
    ) + "\"\n}$0"@
}

/// The offer of a whole entry for a provider that has none yet.
pub open spec fn entry_item(cached: Seq<CachedMinor>, filter: FilterV) -> spec_fn(
    CommonProvider,
) -> Option<ItemV> {
    |p: CommonProvider|
        if filter.attrs.contains(p.local_name@) {
            None
        } else {
            match split_once(p.source@, '/') {
                Some((ns, name)) => Some(
                    insert_item(
                        p.local_name@,
                        ItemKind::Module,
                        p.hint@ + " — source "@ + p.source@,
                        entry_text(p, cached_minor(cached, ns, name)),
                        InsertFormat::Snippet,
                    ),
                ),
                None => None,
            }
        }
}

pub open spec fn entry_items(lang: Language, cached: Seq<CachedMinor>, filter: FilterV) -> Seq<
    ItemV,
> {
    sorted_items(
        SortBy::Label,
        filter_map(lang.common_providers@, entry_item(cached, filter)),
    )
}

fn render_entry(p: &CommonProvider, minor: Option<&str>) -> (r: String)
    ensures
        r@ == entry_text(
            *p,
            match minor {
                Some(m) => Some(m@),
                None => None,
            },
        ),
{
    let tab = match minor {
        Some(mm) => concat3("${1:~> ", mm, "}"),
        None => "${1}".to_owned(),
    };
    let head = concat2(p.local_name.as_str(), " = {\n  source  = \"");
    concat5(head.as_str(), p.source.as_str(), "\"\n  version = \"", tab.as_str(), "\"\n}$0")
}

/// The entries that can be added to `required_providers`.
pub fn required_providers_entry_items(
    lang: &Language,
    cached: &Vec<CachedMinor>,
    filter: &BodyFilter,
) -> (r: Vec<CompletionItem>)
    ensures
        items_view(r@) == entry_items(*lang, cached@, filter@),
{
    let ghost s = lang.common_providers@;
    let ghost f = entry_item(cached@, filter@);
    let mut out = no_items();
    proof {
        lemma_take_full(s);
    }
    for i in 0..lang.common_providers.len()
        invariant
            s == lang.common_providers@,
            f == entry_item(cached@, filter@),
            items_view(out@) == filter_map(s.take(i as int), f),
    {
        proof {
            lemma_filter_map_step(s, f, i as int);
        }
        let p = &lang.common_providers[i];
        if !filter.has_attr(p.local_name.as_str()) {
            if let Some((ns, name)) = str_split_once(p.source.as_str(), '/') {
                let minor = find_minor(cached, ns.as_str(), name.as_str());
                let item = CompletionItem::inserting(
                    p.local_name.as_str(),
                    ItemKind::Module,
                    concat3(p.hint.as_str(), " — source ", p.source.as_str()),
                    render_entry(p, minor),
                    InsertFormat::Snippet,
                );
                push_item(&mut out, item);
            }
        }
    }
    sort_items(&out, SortBy::Label)
}

// ---------------------------------------------------------------------
// Sources

pub open spec fn has_label(s: Seq<ItemV>, label: Seq<char>) -> bool {
    exists|i: int| 0 <= i < s.len() && (#[trigger] s[i]).label == label
}

/// An item goes behind the list, unless the list has its label.
pub open spec fn with_new(s: Seq<ItemV>, x: ItemV) -> Seq<ItemV> {
    if has_label(s, x.label) {
        s
    } else {
        s.push(x)
    }
}

pub fn push_new(out: &mut Vec<CompletionItem>, item: CompletionItem)
    ensures
        items_view(final(out)@) == with_new(items_view(old(out)@), item@),
{
    let ghost s = items_view(out@);
    let mut known = false;
    for i in 0..out.len()
        invariant
            s == items_view(out@),
            *out == *old(out),
            known <==> exists|j: int| 0 <= j < i && (#[trigger] s[j]).label == item@.label,
    {
        assert(s[i as int] == out@[i as int]@);
        if str_eq(out[i].label.as_str(), item.label.as_str()) {
            known = true;
        }
    }
    if !known {
        push_item(out, item);
    }
}

pub open spec fn source_item(source: Seq<char>, lead: Seq<char>, detail: Seq<char>) -> ItemV {
    ItemV {
        sort_text: Some(lead + source),
        ..insert_item(source, ItemKind::Value, detail, source, InsertFormat::PlainText)
    }
}

fn render_source(source: &str, lead: &str, detail: String) -> (r: CompletionItem)
    ensures
        r@ == source_item(source@, lead@, detail@),
{
    CompletionItem::inserting(
        source,
        ItemKind::Value,
        detail,
        source.to_owned(),
        InsertFormat::PlainText,
    ).with_sort(concat2(lead, source))
}

/// A common provider in three forms: bare, and with each of the registries
/// before it.
pub open spec fn with_common(s: Seq<ItemV>, p: CommonProvider) -> Seq<ItemV> {
    with_new(
        with_new(
            with_new(s, source_item(p.source@, "00_"@, "default registry — "@ + p.hint@)),
            source_item(
                "registry.terraform.io/"@ + p.source@,
                "00_"@,
                "Terraform registry — "@ + p.hint@,
            ),
        ),
        source_item(
            "registry.opentofu.org/"@ + p.source@,
            "00_"@,
            "OpenTofu registry — "@ + p.hint@,
        ),
    )
}

pub open spec fn common_sources(providers: Seq<CommonProvider>, n: int) -> Seq<ItemV>
    decreases n,
{
    if n <= 0 {
        Seq::empty()
    } else {
        with_common(common_sources(providers, n - 1), providers[n - 1])
    }
}

pub open spec fn tier_label(tier: Option<Seq<char>>) -> Seq<char> {
    match tier {
        Some(t) => t + " tier"@,
        None => "public"@,
    }
}

pub open spec fn catalog_detail(e: CatalogEntry) -> Seq<char> {
    match opt_view(e.description) {
        Some(d) => if trim(d).len() == 0 {
            tier_label(opt_view(e.tier))
        } else {
            tier_label(opt_view(e.tier)) + " — "@ + trim(d)
        },
        None => tier_label(opt_view(e.tier)),
    }
}

fn render_catalog_detail(e: &CatalogEntry) -> (r: String)
    ensures
        r@ == catalog_detail(*e),
{
    let tier = match &e.tier {
        Some(t) => concat2(t.as_str(), " tier"),
        None => "public".to_owned(),
    };
    if let Some(d) = &e.description {
        let text = str_trim(d.as_str());
        if !text.as_str().is_empty() {
            return concat3(tier.as_str(), " — ", text.as_str());
        }
    }
    tier
}

/// The first `n` entries of the catalog behind the list.
pub open spec fn with_catalog(s: Seq<ItemV>, catalog: Seq<CatalogEntry>, n: int) -> Seq<ItemV>
    decreases n,
{
    if n <= 0 {
        s
    } else {
        with_new(
            with_catalog(s, catalog, n - 1),
            source_item(catalog[n - 1].source@, "01_"@, catalog_detail(catalog[n - 1])),
        )
    }
}

pub open spec fn opt_catalog(c: Option<&Vec<CatalogEntry>>) -> Seq<CatalogEntry> {
    match c {
        Some(c) => c@,
        None => Seq::empty(),
    }
}

/// What is offered as a source: the common providers, then those of the
/// registry's catalog, each once.
pub open spec fn source_values(lang: Language, catalog: Seq<CatalogEntry>) -> Seq<ItemV> {
    with_catalog(
        common_sources(lang.common_providers@, lang.common_providers@.len() as int),
        catalog,
        catalog.len() as int,
    )
}

fn list_common_sources(lang: &Language) -> (r: Vec<CompletionItem>)
    ensures
        items_view(r@) == common_sources(
            lang.common_providers@,
            lang.common_providers@.len() as int,
        ),
{
    let mut out = no_items();
    for i in 0..lang.common_providers.len()
        invariant
            items_view(out@) == common_sources(lang.common_providers@, i as int),
    {
        let p = &lang.common_providers[i];
        let bare = p.source.as_str();
        push_new(
            &mut out,
            render_source(bare, "00_", concat2("default registry — ", p.hint.as_str())),
        );
        let terraform = concat2("registry.terraform.io/", bare);
        push_new(
            &mut out,
            render_source(
                terraform.as_str(),
                "00_",
                concat2("Terraform registry — ", p.hint.as_str()),
            ),
        );
        let tofu = concat2("registry.opentofu.org/", bare);
        push_new(
            &mut out,
            render_source(
                tofu.as_str(),
                "00_",
                concat2("OpenTofu registry — ", p.hint.as_str()),
            ),
        );
    }
    out
}

/// The sources that can be put into an entry; `catalog` is what the registry
/// listed, where it answered.
pub fn required_provider_source_value_items(
    lang: &Language,
    catalog: Option<&Vec<CatalogEntry>>,
) -> (r: Vec<CompletionItem>)
    ensures
        items_view(r@) == source_values(*lang, opt_catalog(catalog)),
{
    let mut out = list_common_sources(lang);
    if let Some(c) = catalog {
        let ghost start = items_view(out@);
        for i in 0..c.len()
            invariant
                items_view(out@) == with_catalog(start, c@, i as int),
        {
            let item = render_source(c[i].source.as_str(), "01_", render_catalog_detail(&c[i]));
            push_new(&mut out, item);
        }
    }
    out
}

// ---------------------------------------------------------------------
// Laws

pub open spec fn distinct_labels(s: Seq<ItemV>) -> bool {
    forall|i: int, j: int|
        #![trigger s[i], s[j]]
        0 <= i < j < s.len() ==> s[i].label != s[j].label
}

proof fn lemma_with_new(s: Seq<ItemV>, x: ItemV)
    requires
        distinct_labels(s),
    ensures
        distinct_labels(with_new(s, x)),
{
    let r = with_new(s, x);
    assert forall|i: int, j: int|
        #![trigger r[i], r[j]]
        0 <= i < j < r.len() implies r[i].label != r[j].label by {
        assert(r[i] == s[i]);
        if j < s.len() {
            assert(r[j] == s[j]);
        }
    }
}

proof fn lemma_common_distinct(providers: Seq<CommonProvider>, n: int)
    ensures
        distinct_labels(common_sources(providers, n)),
    decreases n,
{
    if n > 0 {
        lemma_common_distinct(providers, n - 1);
        let s = common_sources(providers, n - 1);
        let p = providers[n - 1];
        let a = source_item(p.source@, "00_"@, "default registry — "@ + p.hint@);
        let b = source_item(
            "registry.terraform.io/"@ + p.source@,
            "00_"@,
            "Terraform registry — "@ + p.hint@,
        );
        let c = source_item(
            "registry.opentofu.org/"@ + p.source@,
            "00_"@,
            "OpenTofu registry — "@ + p.hint@,
        );
        lemma_with_new(s, a);
        lemma_with_new(with_new(s, a), b);
        lemma_with_new(with_new(with_new(s, a), b), c);
    }
}

proof fn lemma_catalog_distinct(s: Seq<ItemV>, catalog: Seq<CatalogEntry>, n: int)
    requires
        distinct_labels(s),
    ensures
        distinct_labels(with_catalog(s, catalog, n)),
    decreases n,
{
    if n > 0 {
        lemma_catalog_distinct(s, catalog, n - 1);
        lemma_with_new(
            with_catalog(s, catalog, n - 1),
            source_item(catalog[n - 1].source@, "01_"@, catalog_detail(catalog[n - 1])),
        );
    }
}

/// No source is offered twice.
pub proof fn sources_are_distinct(lang: Language, catalog: Seq<CatalogEntry>)
    ensures
        distinct_labels(source_values(lang, catalog)),
{
    let n = lang.common_providers@.len() as int;
    lemma_common_distinct(lang.common_providers@, n);
    lemma_catalog_distinct(
        common_sources(lang.common_providers@, n),
        catalog,
        catalog.len() as int,
    );
}

proof fn lemma_catalog_extends(s: Seq<ItemV>, catalog: Seq<CatalogEntry>, n: int)
    ensures
        s.len() <= with_catalog(s, catalog, n).len(),
        with_catalog(s, catalog, n).take(s.len() as int) == s,
    decreases n,
{
    if n > 0 {
        lemma_catalog_extends(s, catalog, n - 1);
        let r = with_catalog(s, catalog, n - 1);
        assert(r.push(
            source_item(catalog[n - 1].source@, "01_"@, catalog_detail(catalog[n - 1])),
        ).take(s.len() as int) =~= r.take(s.len() as int));
    } else {
        assert(s.take(s.len() as int) =~= s);
    }
}

/// Whatever the registry lists, the common providers are offered, and first.
pub proof fn common_sources_lead(lang: Language, catalog: Seq<CatalogEntry>)
    ensures
        ({
            let common = common_sources(
                lang.common_providers@,
                lang.common_providers@.len() as int,
            );
            &&& common.len() <= source_values(lang, catalog).len()
            &&& source_values(lang, catalog).take(common.len() as int) == common
        }),
{
    lemma_catalog_extends(
        common_sources(lang.common_providers@, lang.common_providers@.len() as int),
        catalog,
        catalog.len() as int,
    );
}

} // verus!
