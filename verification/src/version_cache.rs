//! Where the version lists are kept on disk, and what the files there say.

use crate::inlay_hints::{SourceV, VersionSource};
use crate::seqs::each;
use crate::text::{
    char_is_alphanumeric, chars_of, concat2, is_alphanumeric, opt_view, string_of, texts,
};
use crate::versions::{
    dated, entries_view, lists_view, merge_versions, merged, opt_entries, pairs_map, tables_view,
    with_dates, EntryV, VersionEntry,
};
use vstd::prelude::*;

verus! {

pub open spec fn is_safe(c: char) -> bool {
    char_is_alphanumeric(c) || c == '-' || c == '.' || c == '_'
}

/// A text as part of a path: what a file name should not have becomes `_`.
pub open spec fn safe(s: Seq<char>) -> Seq<char> {
    Seq::new(
        s.len(),
        |i: int|
            if is_safe(s[i]) {
                s[i]
            } else {
                '_'
            },
    )
}

pub fn sanitise(component: &str) -> (r: String)
    ensures
        r@ == safe(component@),
{
    let chars = chars_of(component);
    let mut out: Vec<char> = Vec::new();
    for i in 0..chars.len()
        invariant
            chars@ == component@,
            out@.len() == i,
            forall|j: int| 0 <= j < i ==> #[trigger] out@[j] == safe(component@)[j],
    {
        let c = chars[i];
        if is_alphanumeric(c) || c == '-' || c == '.' || c == '_' {
            out.push(c);
        } else {
            out.push('_');
        }
    }
    assert(out@ =~= safe(component@));
    string_of(out.as_slice())
}

/// Making a text safe twice is making it safe once.
pub proof fn safe_is_stable(s: Seq<char>)
    ensures
        safe(safe(s)) == safe(s),
{
    assert(safe(safe(s)) =~= safe(s));
}

/// The files that belong to a source, each as its path below the cache: those
/// that list versions, the earlier ones first, and those that date them.
#[derive(Debug)]
pub struct CachePaths {
    pub versions: Vec<Vec<String>>,
    pub dates: Vec<Vec<String>>,
}

#[verifier::ext_equal]
pub struct PathsV {
    pub versions: Seq<Seq<Seq<char>>>,
    pub dates: Seq<Seq<Seq<char>>>,
}

pub open spec fn paths_view(v: Seq<Vec<String>>) -> Seq<Seq<Seq<char>>> {
    Seq::new(v.len(), |i: int| texts(v[i]@))
}

impl View for CachePaths {
    type V = PathsV;

    open spec fn view(&self) -> PathsV {
        PathsV { versions: paths_view(self.versions@), dates: paths_view(self.dates@) }
    }
}

pub open spec fn provider_path(registry: Seq<char>, ns: Seq<char>, name: Seq<char>) -> Seq<
    Seq<char>,
> {
    seq!["registry-versions"@, registry, safe(ns), safe(name), "versions.json"@]
}

pub open spec fn dates_path(kind: Seq<char>, ns: Seq<char>, name: Seq<char>) -> Seq<Seq<char>> {
    seq!["registry-versions"@, kind, safe(ns), safe(name), "dates.json"@]
}

pub open spec fn module_list_path(
    registry: Seq<char>,
    ns: Seq<char>,
    name: Seq<char>,
    provider: Seq<char>,
) -> Seq<Seq<char>> {
    seq![
        "registry-versions"@,
        "modules"@,
        registry,
        safe(ns),
        safe(name),
        safe(provider),
        "versions.json"@,
    ]
}

pub open spec fn paths_of(source: SourceV) -> PathsV {
    match source {
        SourceV::TerraformCli => PathsV {
            versions: seq![
                seq!["tool-versions"@, "terraform"@ + ".json"@],
                seq!["tool-versions"@, "opentofu"@ + ".json"@],
            ],
            dates: Seq::empty(),
        },
        SourceV::Provider { namespace, name } => PathsV {
            versions: seq![
                provider_path(safe("terraform"@), namespace, name),
                provider_path(safe("opentofu"@), namespace, name),
            ],
            dates: seq![
                dates_path("dates"@, namespace, name),
                dates_path("dates-opentofu"@, namespace, name),
            ],
        },
        SourceV::Module { namespace, name, provider } => PathsV {
            versions: seq![
                module_list_path(safe("terraform"@), namespace, name, provider),
                module_list_path(safe("opentofu"@), namespace, name, provider),
            ],
            dates: Seq::empty(),
        },
    }
}

fn tool_file(slug: &str) -> (r: Vec<String>)
    ensures
        texts(r@) == seq!["tool-versions"@, slug@ + ".json"@],
{
    let v = vec!["tool-versions".to_owned(), concat2(slug, ".json")];
    assert(texts(v@) =~= seq!["tool-versions"@, slug@ + ".json"@]);
    v
}

fn provider_file(registry: &str, ns: &str, name: &str) -> (r: Vec<String>)
    ensures
        texts(r@) == provider_path(safe(registry@), ns@, name@),
{
    let v = vec![
        "registry-versions".to_owned(),
        sanitise(registry),
        sanitise(ns),
        sanitise(name),
        "versions.json".to_owned(),
    ];
    assert(texts(v@) =~= provider_path(safe(registry@), ns@, name@));
    v
}

fn dates_file(kind: &str, ns: &str, name: &str) -> (r: Vec<String>)
    ensures
        texts(r@) == dates_path(kind@, ns@, name@),
{
    let v = vec![
        "registry-versions".to_owned(),
        kind.to_owned(),
        sanitise(ns),
        sanitise(name),
        "dates.json".to_owned(),
    ];
    assert(texts(v@) =~= dates_path(kind@, ns@, name@));
    v
}

fn module_file(registry: &str, ns: &str, name: &str, provider: &str) -> (r: Vec<String>)
    ensures
        texts(r@) == module_list_path(safe(registry@), ns@, name@, provider@),
{
    let v = vec![
        "registry-versions".to_owned(),
        "modules".to_owned(),
        sanitise(registry),
        sanitise(ns),
        sanitise(name),
        sanitise(provider),
        "versions.json".to_owned(),
    ];
    assert(texts(v@) =~= module_list_path(safe(registry@), ns@, name@, provider@));
    v
}

/// The files that hold the versions of a source.
pub fn cache_paths(source: &VersionSource) -> (r: CachePaths)
    ensures
        r@ == paths_of(source@),
{
    let r = match source {
        VersionSource::TerraformCli => CachePaths {
            versions: vec![tool_file("terraform"), tool_file("opentofu")],
            dates: Vec::new(),
        },
        VersionSource::Provider { namespace, name } => {
            let (ns, n) = (namespace.as_str(), name.as_str());
            CachePaths {
                versions: vec![
                    provider_file("terraform", ns, n),
                    provider_file("opentofu", ns, n),
                ],
                dates: vec![dates_file("dates", ns, n), dates_file("dates-opentofu", ns, n)],
            }
        },
        VersionSource::Module { namespace, name, provider } => {
            let (ns, n, p) = (namespace.as_str(), name.as_str(), provider.as_str());
            CachePaths {
                versions: vec![
                    module_file("terraform", ns, n, p),
                    module_file("opentofu", ns, n, p),
                ],
                dates: Vec::new(),
            }
        },
    };
    assert(r@.versions =~= paths_of(source@).versions);
    assert(r@.dates =~= paths_of(source@).dates);
    r
}

// ---------------------------------------------------------------------
// What the files say

/// The strings of a text that is a JSON array of strings.
pub uninterp spec fn json_strings_of(text: Seq<char>) -> Option<Seq<Seq<char>>>;

/// `serde_json::from_str` into a vector of strings: what it reads, or that it
/// fails, depends on the text alone.
#[verifier::external_body]
fn json_strings(text: &str) -> (r: Option<Vec<String>>)
    ensures
        match r {
            Some(v) => json_strings_of(text@) == Some(texts(v@)),
            None => json_strings_of(text@) is None,
        },
{
    serde_json::from_str::<Vec<String>>(text).ok()
}

/// The entries of a text that is a JSON object of strings.
pub uninterp spec fn json_string_map_of(text: Seq<char>) -> Option<Map<Seq<char>, Seq<char>>>;

/// `serde_json::from_str` into a hash map of strings, as its pairs: what the map
/// holds, or that it fails, depends on the text alone. In which order the pairs
/// come is not said.
#[verifier::external_body]
fn json_string_map(text: &str) -> (r: Option<Vec<(String, String)>>)
    ensures
        match r {
            Some(v) => json_string_map_of(text@) == Some(pairs_map(v@)),
            None => json_string_map_of(text@) is None,
        },
{
    let read = serde_json::from_str::<std::collections::HashMap<String, String>>(text);
    read.ok().map(|m| m.into_iter().collect())
}

/// The texts of files, where there are such files.
pub open spec fn slots(v: Seq<Option<String>>) -> Seq<Option<Seq<char>>> {
    Seq::new(v.len(), |i: int| opt_view(v[i]))
}

/// The versions that a file lists; none where it is missing or malformed.
pub open spec fn listed() -> spec_fn(Option<Seq<char>>) -> Seq<Seq<char>> {
    |text: Option<Seq<char>>|
        match text {
            Some(t) => match json_strings_of(t) {
                Some(v) => v,
                None => Seq::empty(),
            },
            None => Seq::empty(),
        }
}

/// The dates that a file gives; none where it is missing or malformed.
pub open spec fn date_table() -> spec_fn(Option<Seq<char>>) -> Map<Seq<char>, Seq<char>> {
    |text: Option<Seq<char>>|
        match text {
            Some(t) => match json_string_map_of(t) {
                Some(m) => m,
                None => Map::empty(),
            },
            None => Map::empty(),
        }
}

/// The entries of a file that lists versions.
pub open spec fn listed_entries(tables: Seq<Map<Seq<char>, Seq<char>>>) -> spec_fn(
    Option<Seq<char>>,
) -> Seq<EntryV> {
    |text: Option<Seq<char>>| each(listed()(text), dated(tables))
}

/// The versions of a provider: those that any of the files lists, each with the
/// date that the first of the date files has.
pub open spec fn provider_versions(
    lists: Seq<Option<Seq<char>>>,
    dates: Seq<Option<Seq<char>>>,
) -> Option<Seq<EntryV>> {
    merged(each(lists, listed_entries(each(dates, date_table()))))
}

fn read_list(text: &Option<String>, tables: &Vec<Vec<(String, String)>>) -> (r: Vec<VersionEntry>)
    ensures
        entries_view(r@) == listed_entries(tables_view(tables@))(opt_view(*text)),
{
    let versions: Vec<String> = match text {
        Some(t) => match json_strings(t.as_str()) {
            Some(v) => v,
            None => Vec::new(),
        },
        None => Vec::new(),
    };
    assert(texts(versions@) =~= listed()(opt_view(*text)));
    with_dates(&versions, tables)
}

fn read_lists(lists: &Vec<Option<String>>, tables: &Vec<Vec<(String, String)>>) -> (r: Option<
    Vec<VersionEntry>,
>)
    ensures
        opt_entries(r) == merged(
            each(slots(lists@), listed_entries(tables_view(tables@))),
        ),
{
    let ghost f = listed_entries(tables_view(tables@));
    let mut all: Vec<Vec<VersionEntry>> = Vec::new();
    for i in 0..lists.len()
        invariant
            f == listed_entries(tables_view(tables@)),
            all@.len() == i,
            forall|j: int|
                0 <= j < i ==> entries_view((#[trigger] all@[j])@) == f(opt_view(lists@[j])),
    {
        all.push(read_list(&lists[i], tables));
    }
    assert(lists_view(all@) =~= each(slots(lists@), f));
    merge_versions(&all)
}

fn read_dates(text: &Option<String>) -> (r: Vec<(String, String)>)
    ensures
        pairs_map(r@) == date_table()(opt_view(*text)),
{
    let pairs: Vec<(String, String)> = match text {
        Some(t) => match json_string_map(t.as_str()) {
            Some(v) => v,
            None => Vec::new(),
        },
        None => Vec::new(),
    };
    assert(pairs@.len() == 0 ==> pairs_map(pairs@) =~= Map::empty());
    pairs
}

/// The cached versions of a provider, newest first: `lists` are the texts of the
/// files that list versions, `dates` those of the files that date them.
pub fn provider_entries(lists: &Vec<Option<String>>, dates: &Vec<Option<String>>) -> (r: Option<
    Vec<VersionEntry>,
>)
    ensures
        opt_entries(r) == provider_versions(slots(lists@), slots(dates@)),
{
    let ghost g = date_table();
    let mut tables: Vec<Vec<(String, String)>> = Vec::new();
    for i in 0..dates.len()
        invariant
            g == date_table(),
            tables@.len() == i,
            forall|j: int|
                0 <= j < i ==> pairs_map((#[trigger] tables@[j])@) == g(opt_view(dates@[j])),
    {
        tables.push(read_dates(&dates[i]));
    }
    assert(tables_view(tables@) =~= each(slots(dates@), g));
    read_lists(lists, &tables)
}

/// The cached versions of a module, newest first, without dates: `lists` are the
/// texts of the files that list versions.
pub fn module_entries(lists: &Vec<Option<String>>) -> (r: Option<Vec<VersionEntry>>)
    ensures
        opt_entries(r) == merged(each(slots(lists@), listed_entries(Seq::empty()))),
{
    let tables: Vec<Vec<(String, String)>> = Vec::new();
    assert(tables_view(tables@) =~= Seq::<Map<Seq<char>, Seq<char>>>::empty());
    read_lists(lists, &tables)
}

/// What a file with the versions of a tool holds: entries with dates, or a text
/// that is not in that form and may be a plain list.
#[derive(Debug)]
pub enum ToolList {
    Dated(Vec<VersionEntry>),
    Text(String),
}

pub open spec fn tool_list(l: ToolList) -> Seq<EntryV> {
    match l {
        ToolList::Dated(v) => entries_view(v@),
        ToolList::Text(t) => listed_entries(Seq::empty())(Some(t@)),
    }
}

fn copy_entries(v: &Vec<VersionEntry>) -> (r: Vec<VersionEntry>)
    ensures
        entries_view(r@) == entries_view(v@),
{
    let mut out: Vec<VersionEntry> = Vec::new();
    for i in 0..v.len()
        invariant
            out@.len() == i,
            forall|j: int| 0 <= j < i ==> (#[trigger] out@[j])@ == v@[j]@,
    {
        out.push(v[i].duplicate());
    }
    assert(entries_view(out@) =~= entries_view(v@));
    out
}

/// The cached versions of a tool, newest first.
pub fn tool_entries(lists: &Vec<ToolList>) -> (r: Option<Vec<VersionEntry>>)
    ensures
        opt_entries(r) == merged(Seq::new(lists@.len(), |i: int| tool_list(lists@[i]))),
{
    let tables: Vec<Vec<(String, String)>> = Vec::new();
    assert(tables_view(tables@) =~= Seq::<Map<Seq<char>, Seq<char>>>::empty());
    let mut all: Vec<Vec<VersionEntry>> = Vec::new();
    for i in 0..lists.len()
        invariant
            tables_view(tables@) == Seq::<Map<Seq<char>, Seq<char>>>::empty(),
            all@.len() == i,
            forall|j: int|
                0 <= j < i ==> entries_view((#[trigger] all@[j])@) == tool_list(lists@[j]),
    {
        let entries = match &lists[i] {
            ToolList::Dated(v) => copy_entries(v),
            ToolList::Text(t) => {
                let text = Some(t.clone());
                read_list(&text, &tables)
            },
        };
        all.push(entries);
    }
    assert(lists_view(all@) =~= Seq::new(lists@.len(), |i: int| tool_list(lists@[i])));
    merge_versions(&all)
}

} // verus!
