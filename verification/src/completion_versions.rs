//! Completion of versions, version constraints and provider sources.

use crate::builtin::{ConstraintOp, Language, OperatorEntry};
use crate::completion_body::no_items;
use crate::completion_item::{
    append_items, insert_item, items_view, push_item, CompletionItem, InsertFormat, ItemKind, ItemV,
};
use crate::inlay_hints::module_source;
use crate::position::{EditV, Position, Range, TextEdit};
use crate::seqs::{each, find_map, keep, lemma_find_map_step, lemma_keep_step, lemma_take_full};
use crate::text::{
    chars_of, concat2, concat3, concat5, find_char, opt_str, opt_view, padded, padded_text,
    slice_find_char, split, split_once, starts_with, str_split, str_split_once, str_starts_with,
    str_trim, string_sub, texts, trim,
};
use crate::versions::before;
use vstd::prelude::*;

verus! {

/// Where in a version constraint the cursor stands.
#[derive(Debug)]
pub enum CursorSlot {
    AtOperator,
    Trailing,
    AfterOperator(ConstraintOp),
    InsideVersion { op: ConstraintOp, partial: String },
}

pub open spec fn typed_version(slot: CursorSlot) -> Seq<char> {
    match slot {
        CursorSlot::InsideVersion { op: _, partial } => partial@,
        _ => ""@,
    }
}

/// What of a version is typed already.
pub fn version_partial_of(slot: &CursorSlot) -> (r: &str)
    ensures
        r@ == typed_version(*slot),
{
    match slot {
        CursorSlot::InsideVersion { op: _, partial } => partial.as_str(),
        _ => "",
    }
}

/// A published version and where it was published.
#[derive(Debug)]
pub struct PublishedVersion {
    pub version: String,
    pub provenance: String,
}

// ---------------------------------------------------------------------
// Sources

/// `s` without the quotes at its start.
pub open spec fn strip_quotes_start(s: Seq<char>) -> Seq<char>
    decreases s.len(),
{
    if s.len() > 0 && s[0] == '"' {
        strip_quotes_start(s.skip(1))
    } else {
        s
    }
}

pub open spec fn strip_quotes_end(s: Seq<char>) -> Seq<char>
    decreases s.len(),
{
    if s.len() > 0 && s.last() == '"' {
        strip_quotes_end(s.drop_last())
    } else {
        s
    }
}

/// `s` without the quotes around it.
pub open spec fn unquoted(s: Seq<char>) -> Seq<char> {
    strip_quotes_end(strip_quotes_start(s))
}

fn strip_quotes(s: &str) -> (r: String)
    ensures
        r@ == unquoted(s@),
{
    let chars = chars_of(s);
    let ghost t = s@;
    let mut a: usize = 0;
    assert(t.skip(0) =~= t);
    while a < chars.len() && chars[a] == '"'
        invariant
            chars@ == t,
            a <= t.len(),
            strip_quotes_start(t) == strip_quotes_start(t.skip(a as int)),
        decreases t.len() - a,
    {
        assert(t.skip(a as int).skip(1) =~= t.skip(a + 1));
        a += 1;
    }
    let ghost u = t.skip(a as int);
    assert(strip_quotes_start(t) == u);
    let mut b: usize = chars.len();
    assert(t.subrange(a as int, b as int) =~= u);
    while b > a && chars[b - 1] == '"'
        invariant
            chars@ == t,
            a <= b <= t.len(),
            strip_quotes_end(u) == strip_quotes_end(t.subrange(a as int, b as int)),
        decreases b,
    {
        assert(t.subrange(a as int, b as int).drop_last() =~= t.subrange(a as int, b - 1));
        b -= 1;
    }
    string_sub(chars.as_slice(), a, b)
}

/// The namespace and the name of a provider source: the last two of two or
/// three parts, none of them empty.
pub open spec fn provider_source(s: Seq<char>) -> Option<(Seq<char>, Seq<char>)> {
    let parts = split(trim(unquoted(s)), '/');
    let n = parts.len();
    if (n == 2 || n == 3) && (forall|i: int| 0 <= i < n ==> (#[trigger] parts[i]).len() > 0) {
        Some((parts[n - 2], parts[n - 1]))
    } else {
        None
    }
}

pub open spec fn pair_view(p: Option<(String, String)>) -> Option<(Seq<char>, Seq<char>)> {
    match p {
        Some(p) => Some((p.0@, p.1@)),
        None => None,
    }
}

pub fn parse_source(s: &str) -> (r: Option<(String, String)>)
    ensures
        pair_view(r) == provider_source(s@),
{
    let stripped = strip_quotes(s);
    let t = str_trim(stripped.as_str());
    let parts = str_split(t.as_str(), '/');
    let n: usize = parts.len();
    let ghost p = texts(parts@);
    assert(p.len() == n);
    for i in 0..n
        invariant
            n == parts@.len(),
            p == texts(parts@),
            p == split(trim(unquoted(s@)), '/'),
            forall|j: int| 0 <= j < i ==> (#[trigger] p[j]).len() > 0,
    {
        assert(p[i as int] == parts@[i as int]@);
        if parts[i].as_str().is_empty() {
            return None;
        }
    }
    if n != 2 && n != 3 {
        return None;
    }
    assert(p[n - 2] == parts@[n - 2]@ && p[n - 1] == parts@[n - 1]@);
    Some((parts[n - 2].clone(), parts[n - 1].clone()))
}

pub open spec fn opt_provider_source(s: Option<Seq<char>>) -> Option<(Seq<char>, Seq<char>)> {
    match s {
        Some(s) => provider_source(s),
        None => None,
    }
}

fn opt_parse_source(s: Option<&str>) -> (r: Option<(String, String)>)
    ensures
        pair_view(r) == opt_provider_source(opt_str(s)),
{
    match s {
        Some(s) => parse_source(s),
        None => None,
    }
}

/// The namespace, name and provider of a module of a registry.
pub fn parse_module_source(s: &str) -> (r: Option<(String, String, String)>)
    ensures
        match r {
            Some(p) => module_source(unquoted(s@)) == Some((p.0@, p.1@, p.2@)),
            None => module_source(unquoted(s@)) is None,
        },
{
    let stripped = strip_quotes(s);
    crate::inlay_hints::parse_module_source(stripped.as_str())
}

/// The major and the minor number of a version.
pub open spec fn minor_of(version: Seq<char>) -> Option<Seq<char>> {
    match split_once(before(version, '-'), '.') {
        Some((major, rest)) => if major.len() == 0 || before(rest, '.').len() == 0 {
            None
        } else {
            Some(major + "."@ + before(rest, '.'))
        },
        None => None,
    }
}

fn text_before(s: &str, c: char) -> (r: String)
    ensures
        r@ == before(s@, c),
{
    match str_split_once(s, c) {
        Some((a, _)) => a,
        None => s.to_owned(),
    }
}

pub fn major_minor(version: &str) -> (r: Option<String>)
    ensures
        opt_view(r) == minor_of(version@),
{
    let core = text_before(version, '-');
    match str_split_once(core.as_str(), '.') {
        Some((major, rest)) => {
            let minor = text_before(rest.as_str(), '.');
            if major.as_str().is_empty() || minor.as_str().is_empty() {
                None
            } else {
                Some(concat3(major.as_str(), ".", minor.as_str()))
            }
        },
        None => None,
    }
}

// ---------------------------------------------------------------------
// Operators

pub open spec fn operator_place(op: ConstraintOp) -> Seq<char> {
    match op {
        ConstraintOp::Gte => "00"@,
        ConstraintOp::Pessimistic => "01"@,
        ConstraintOp::Eq => "02"@,
        ConstraintOp::Ne => "03"@,
        ConstraintOp::Gt => "04"@,
        ConstraintOp::Lt => "05"@,
        ConstraintOp::Lte => "06"@,
    }
}

/// The offer of an operator; `lead` stands before its place in the order.
pub open spec fn operator_item(lead: Seq<char>) -> spec_fn(OperatorEntry) -> ItemV {
    |e: OperatorEntry|
        ItemV {
            documentation: Some(e.long_description@),
            sort_text: Some(lead + operator_place(e.op)),
            ..insert_item(
                e.token@,
                ItemKind::Operator,
                e.short_description@,
                e.token@ + " ${1}"@,
                InsertFormat::Snippet,
            )
        }
}

pub open spec fn operator_items(lang: Language) -> Seq<ItemV> {
    each(lang.operators@, operator_item(""@))
}

fn list_operators(lang: &Language, lead: &str) -> (r: Vec<CompletionItem>)
    ensures
        items_view(r@) == each(lang.operators@, operator_item(lead@)),
{
    let ghost all = each(lang.operators@, operator_item(lead@));
    let mut out = no_items();
    assert(items_view(out@) =~= all.take(0));
    for i in 0..lang.operators.len()
        invariant
            all == each(lang.operators@, operator_item(lead@)),
            items_view(out@) == all.take(i as int),
    {
        let e = &lang.operators[i];
        let place = match e.op {
            ConstraintOp::Gte => "00",
            ConstraintOp::Pessimistic => "01",
            ConstraintOp::Eq => "02",
            ConstraintOp::Ne => "03",
            ConstraintOp::Gt => "04",
            ConstraintOp::Lt => "05",
            ConstraintOp::Lte => "06",
        };
        let item = CompletionItem::inserting(
            e.token.as_str(),
            ItemKind::Operator,
            e.short_description.clone(),
            concat2(e.token.as_str(), " ${1}"),
            InsertFormat::Snippet,
        ).with_documentation(Some(e.long_description.clone())).with_sort(concat2(lead, place));
        push_item(&mut out, item);
        assert(items_view(out@) =~= all.take(i + 1));
    }
    assert(all.take(lang.operators@.len() as int) =~= all);
    out
}

/// The operators, the most usual first.
pub fn constraint_operator_items(lang: &Language) -> (r: Vec<CompletionItem>)
    ensures
        items_view(r@) == operator_items(*lang),
{
    list_operators(lang, "")
}

// ---------------------------------------------------------------------
// The flavours of the latest version

pub open spec fn is_stable() -> spec_fn(PublishedVersion) -> Option<PublishedVersion> {
    |v: PublishedVersion|
        if find_char(v.version@, '-', 0) is None {
            Some(v)
        } else {
            None
        }
}

/// The first version that is no pre-release, else the first.
pub open spec fn latest_of(v: Seq<PublishedVersion>) -> Option<PublishedVersion> {
    match find_map(v, is_stable()) {
        Some(x) => Some(x),
        None => if v.len() > 0 {
            Some(v[0])
        } else {
            None
        },
    }
}

fn find_latest<'a>(v: &'a Vec<PublishedVersion>) -> (r: Option<&'a PublishedVersion>)
    ensures
        match r {
            Some(x) => latest_of(v@) == Some(*x),
            None => latest_of(v@) is None,
        },
{
    let ghost f = is_stable();
    proof {
        lemma_take_full(v@);
    }
    for i in 0..v.len()
        invariant
            f == is_stable(),
            find_map(v@, f) == find_map(v@.skip(i as int), f),
    {
        proof {
            lemma_find_map_step(v@, f, i as int);
        }
        let chars = chars_of(v[i].version.as_str());
        if slice_find_char(chars.as_slice(), '-', 0).is_none() {
            return Some(&v[i]);
        }
    }
    if v.len() > 0 {
        Some(&v[0])
    } else {
        None
    }
}

/// The offer to take a constraint as it stands.
pub open spec fn constraint_item(text: Seq<char>, detail: Seq<char>, place: Seq<char>) -> ItemV {
    ItemV {
        sort_text: Some(place),
        ..insert_item(text, ItemKind::Snippet, detail, text, InsertFormat::PlainText)
    }
}

/// The latest version as it stands, as a compatible range where it has a minor
/// number, and as a lower bound.
pub open spec fn flavours(latest: PublishedVersion, heading: Seq<char>) -> Seq<ItemV> {
    let v = latest.version@;
    seq![
        ItemV {
            sort_text: Some("0000_latest"@),
            preselect: true,
            ..insert_item(
                v,
                ItemKind::Value,
                heading + " ("@ + latest.provenance@ + ")"@,
                v,
                InsertFormat::PlainText,
            )
        },
    ] + match minor_of(v) {
        Some(mm) => seq![
            constraint_item(
                "~> "@ + mm,
                "pessimistic (compatible) constraint to latest"@,
                "0001_pessimistic"@,
            ),
        ],
        None => Seq::empty(),
    } + seq![constraint_item(">= "@ + v, "at least latest, any future"@, "0002_gte_latest"@)]
}

fn list_flavours(latest: &PublishedVersion, heading: &str) -> (r: Vec<CompletionItem>)
    ensures
        items_view(r@) == flavours(*latest, heading@),
{
    let v = latest.version.as_str();
    let mut out = no_items();
    let start = concat2(heading, " (");
    let detail = concat3(start.as_str(), latest.provenance.as_str(), ")");
    let mut first = CompletionItem::inserting(
        v,
        ItemKind::Value,
        detail,
        v.to_owned(),
        InsertFormat::PlainText,
    );
    first.sort_text = Some("0000_latest".to_owned());
    first.preselect = true;
    push_item(&mut out, first);
    let ghost one = items_view(out@);
    let ghost second = match minor_of(v@) {
        Some(mm) => seq![
            constraint_item(
                "~> "@ + mm,
                "pessimistic (compatible) constraint to latest"@,
                "0001_pessimistic"@,
            ),
        ],
        None => Seq::empty(),
    };
    if let Some(mm) = major_minor(v) {
        let label = concat2("~> ", mm.as_str());
        let item = CompletionItem::inserting(
            label.as_str(),
            ItemKind::Snippet,
            "pessimistic (compatible) constraint to latest".to_owned(),
            label.clone(),
            InsertFormat::PlainText,
        ).with_sort("0001_pessimistic".to_owned());
        push_item(&mut out, item);
    }
    assert(items_view(out@) =~= one + second);
    let gte = concat2(">= ", v);
    let item = CompletionItem::inserting(
        gte.as_str(),
        ItemKind::Snippet,
        "at least latest, any future".to_owned(),
        gte.clone(),
        InsertFormat::PlainText,
    ).with_sort("0002_gte_latest".to_owned());
    push_item(&mut out, item);
    assert(items_view(out@) =~= flavours(*latest, heading@));
    out
}

// ---------------------------------------------------------------------
// Exact versions

pub open spec fn version_detail(source: Seq<char>, v: PublishedVersion) -> Seq<char> {
    source + " — "@ + v.provenance@
}

pub open spec fn version_item(source: Seq<char>) -> spec_fn(PublishedVersion) -> ItemV {
    |v: PublishedVersion|
        insert_item(
            v.version@,
            ItemKind::Value,
            version_detail(source, v),
            v.version@,
            InsertFormat::PlainText,
        )
}

fn render_version(source: &str, v: &PublishedVersion) -> (r: CompletionItem)
    ensures
        r@ == version_item(source@)(*v),
{
    let detail = concat3(source, " — ", v.provenance.as_str());
    CompletionItem::inserting(
        v.version.as_str(),
        ItemKind::Value,
        detail,
        v.version.clone(),
        InsertFormat::PlainText,
    )
}

/// Every version, in the order of the list.
pub open spec fn numbered_versions(source: Seq<char>, v: Seq<PublishedVersion>) -> Seq<ItemV> {
    Seq::new(
        v.len(),
        |i: int|
            ItemV { sort_text: Some("2"@ + padded(i as nat)), ..version_item(source)(v[i]) },
    )
}

fn list_numbered(source: &str, v: &Vec<PublishedVersion>) -> (r: Vec<CompletionItem>)
    ensures
        items_view(r@) == numbered_versions(source@, v@),
{
    let ghost all = numbered_versions(source@, v@);
    let mut out = no_items();
    assert(items_view(out@) =~= all.take(0));
    for i in 0..v.len()
        invariant
            all == numbered_versions(source@, v@),
            items_view(out@) == all.take(i as int),
    {
        let number = padded_text(i as u128);
        let item = render_version(source, &v[i]).with_sort(concat2("2", number.as_str()));
        push_item(&mut out, item);
        assert(items_view(out@) =~= all.take(i + 1));
    }
    assert(all.take(v@.len() as int) =~= all);
    out
}

/// What is offered for an empty constraint: the flavours of the latest version,
/// the operators, then every version. Without versions, the operators alone.
pub open spec fn prefilled(
    lang: Language,
    versions: Option<Seq<PublishedVersion>>,
    heading: Seq<char>,
    source: Seq<char>,
) -> Seq<ItemV> {
    match versions {
        Some(v) => match latest_of(v) {
            Some(latest) => flavours(latest, heading) + each(
                lang.operators@,
                operator_item("1"@),
            ) + numbered_versions(source, v),
            None => operator_items(lang),
        },
        None => operator_items(lang),
    }
}

pub open spec fn opt_versions(v: Option<&Vec<PublishedVersion>>) -> Option<Seq<PublishedVersion>> {
    match v {
        Some(v) => Some(v@),
        None => None,
    }
}

fn list_prefilled(
    lang: &Language,
    versions: Option<&Vec<PublishedVersion>>,
    heading: &str,
    source: &str,
) -> (r: Vec<CompletionItem>)
    ensures
        items_view(r@) == prefilled(*lang, opt_versions(versions), heading@, source@),
{
    if let Some(v) = versions {
        if let Some(latest) = find_latest(v) {
            let mut out = list_flavours(latest, heading);
            append_items(&mut out, list_operators(lang, "1"));
            append_items(&mut out, list_numbered(source, v));
            return out;
        }
    }
    constraint_operator_items(lang)
}

pub open spec fn version_starts(partial: Seq<char>) -> spec_fn(PublishedVersion) -> bool {
    |v: PublishedVersion| starts_with(v.version@, partial)
}

/// The versions that start with what is typed, all where none does.
pub open spec fn matching(v: Seq<PublishedVersion>, partial: Seq<char>) -> Seq<PublishedVersion> {
    if keep(v, version_starts(partial)).len() == 0 {
        v
    } else {
        keep(v, version_starts(partial))
    }
}

pub open spec fn matching_items(
    source: Seq<char>,
    v: Option<Seq<PublishedVersion>>,
    partial: Seq<char>,
) -> Seq<ItemV> {
    match v {
        Some(v) => each(matching(v, partial), version_item(source)),
        None => Seq::empty(),
    }
}

fn list_matching(source: &str, v: &Vec<PublishedVersion>, partial: &str) -> (r: Vec<CompletionItem>)
    ensures
        items_view(r@) == each(matching(v@, partial@), version_item(source@)),
{
    let ghost p = version_starts(partial@);
    let ghost g = version_item(source@);
    let mut out = no_items();
    proof {
        lemma_take_full(v@);
    }
    assert(items_view(out@) =~= each(keep(v@.take(0), p), g));
    for i in 0..v.len()
        invariant
            p == version_starts(partial@),
            g == version_item(source@),
            items_view(out@) == each(keep(v@.take(i as int), p), g),
    {
        proof {
            lemma_keep_step(v@, p, i as int);
        }
        let ghost before = keep(v@.take(i as int), p);
        if str_starts_with(v[i].version.as_str(), partial) {
            let item = render_version(source, &v[i]);
            push_item(&mut out, item);
            assert(items_view(out@) =~= each(before.push(v@[i as int]), g));
        }
    }
    assert(items_view(out@).len() == keep(v@, p).len());
    if out.len() > 0 {
        return out;
    }
    let ghost all = each(v@, g);
    assert(items_view(out@) =~= all.take(0));
    for i in 0..v.len()
        invariant
            g == version_item(source@),
            all == each(v@, g),
            items_view(out@) == all.take(i as int),
    {
        let item = render_version(source, &v[i]);
        push_item(&mut out, item);
        assert(items_view(out@) =~= all.take(i + 1));
    }
    assert(all.take(v@.len() as int) =~= all);
    out
}

// ---------------------------------------------------------------------
// The version of a provider, of the CLI, of a module

pub open spec fn or_operators(items: Seq<ItemV>, lang: Language) -> Seq<ItemV> {
    if items.len() == 0 {
        operator_items(lang)
    } else {
        items
    }
}

fn or_list_operators(items: Vec<CompletionItem>, lang: &Language) -> (r: Vec<CompletionItem>)
    ensures
        items_view(r@) == or_operators(items_view(items@), *lang),
{
    assert(items_view(items@).len() == items@.len());
    if items.len() == 0 {
        constraint_operator_items(lang)
    } else {
        items
    }
}

pub open spec fn slashed(a: Seq<char>, b: Seq<char>) -> Seq<char> {
    a + "/"@ + b
}

/// The empty constraint on a provider.
pub open spec fn provider_prefilled(
    lang: Language,
    source: Option<Seq<char>>,
    versions: Option<Seq<PublishedVersion>>,
) -> Seq<ItemV> {
    match opt_provider_source(source) {
        Some((ns, name)) => prefilled(
            lang,
            versions,
            "latest — "@ + slashed(ns, name),
            slashed(ns, name),
        ),
        None => operator_items(lang),
    }
}

pub fn prefilled_provider_version_items(
    lang: &Language,
    source: Option<&str>,
    versions: Option<&Vec<PublishedVersion>>,
) -> (r: Vec<CompletionItem>)
    ensures
        items_view(r@) == provider_prefilled(*lang, opt_str(source), opt_versions(versions)),
{
    match opt_parse_source(source) {
        Some((ns, name)) => {
            let path = concat3(ns.as_str(), "/", name.as_str());
            let heading = concat2("latest — ", path.as_str());
            list_prefilled(lang, versions, heading.as_str(), path.as_str())
        },
        None => constraint_operator_items(lang),
    }
}

pub open spec fn provider_versions(
    source: Option<Seq<char>>,
    versions: Option<Seq<PublishedVersion>>,
    partial: Seq<char>,
) -> Seq<ItemV> {
    match opt_provider_source(source) {
        Some((ns, name)) => matching_items(slashed(ns, name), versions, partial),
        None => Seq::empty(),
    }
}

/// The exact versions of a provider that fit what is typed.
pub fn provider_version_items_from_registry(
    source: Option<&str>,
    versions: Option<&Vec<PublishedVersion>>,
    version_partial: &str,
) -> (r: Vec<CompletionItem>)
    ensures
        items_view(r@) == provider_versions(
            opt_str(source),
            opt_versions(versions),
            version_partial@,
        ),
{
    match (opt_parse_source(source), versions) {
        (Some((ns, name)), Some(v)) => {
            let path = concat3(ns.as_str(), "/", name.as_str());
            list_matching(path.as_str(), v, version_partial)
        },
        _ => no_items(),
    }
}

/// The slot is one where an operator can be put.
pub open spec fn takes_operator(slot: CursorSlot) -> bool {
    slot is AtOperator || slot is Trailing
}

fn slot_takes_operator(slot: &CursorSlot) -> (r: bool)
    ensures
        r == takes_operator(*slot),
{
    match slot {
        CursorSlot::AtOperator => true,
        CursorSlot::Trailing => true,
        _ => false,
    }
}

pub open spec fn provider_version_values(
    lang: Language,
    source: Option<Seq<char>>,
    slot: CursorSlot,
    versions: Option<Seq<PublishedVersion>>,
) -> Seq<ItemV> {
    or_operators(
        if takes_operator(slot) {
            provider_prefilled(lang, source, versions)
        } else {
            provider_versions(source, versions, typed_version(slot))
        },
        lang,
    )
}

/// What is offered in the `version` of an entry of `required_providers`;
/// `versions` is what the registry answered, where it did.
pub fn required_provider_version_value_items(
    lang: &Language,
    source: Option<&str>,
    slot: &CursorSlot,
    versions: Option<&Vec<PublishedVersion>>,
) -> (r: Vec<CompletionItem>)
    ensures
        items_view(r@) == provider_version_values(
            *lang,
            opt_str(source),
            *slot,
            opt_versions(versions),
        ),
{
    let items = if slot_takes_operator(slot) {
        prefilled_provider_version_items(lang, source, versions)
    } else {
        provider_version_items_from_registry(source, versions, version_partial_of(slot))
    };
    or_list_operators(items, lang)
}

pub open spec fn tool_prefilled(lang: Language, versions: Option<Seq<PublishedVersion>>) -> Seq<
    ItemV,
> {
    prefilled(lang, versions, "latest CLI release"@, "CLI release"@)
}

/// The empty constraint on the CLI.
pub fn prefilled_tool_version_items(lang: &Language, versions: Option<&Vec<PublishedVersion>>) -> (r:
    Vec<CompletionItem>)
    ensures
        items_view(r@) == tool_prefilled(*lang, opt_versions(versions)),
{
    list_prefilled(lang, versions, "latest CLI release", "CLI release")
}

pub open spec fn tool_versions(versions: Option<Seq<PublishedVersion>>, partial: Seq<char>) -> Seq<
    ItemV,
> {
    matching_items("CLI release"@, versions, partial)
}

/// The releases of the CLI that fit what is typed.
pub fn tool_version_items_from_github(
    versions: Option<&Vec<PublishedVersion>>,
    version_partial: &str,
) -> (r: Vec<CompletionItem>)
    ensures
        items_view(r@) == tool_versions(opt_versions(versions), version_partial@),
{
    match versions {
        Some(v) => list_matching("CLI release", v, version_partial),
        None => no_items(),
    }
}

pub open spec fn tool_version_values(
    lang: Language,
    slot: CursorSlot,
    versions: Option<Seq<PublishedVersion>>,
) -> Seq<ItemV> {
    or_operators(
        if takes_operator(slot) {
            tool_prefilled(lang, versions)
        } else {
            tool_versions(versions, typed_version(slot))
        },
        lang,
    )
}

/// What is offered in `required_version`.
pub fn required_version_value_items(
    lang: &Language,
    slot: &CursorSlot,
    versions: Option<&Vec<PublishedVersion>>,
) -> (r: Vec<CompletionItem>)
    ensures
        items_view(r@) == tool_version_values(*lang, *slot, opt_versions(versions)),
{
    let items = if slot_takes_operator(slot) {
        prefilled_tool_version_items(lang, versions)
    } else {
        tool_version_items_from_github(versions, version_partial_of(slot))
    };
    or_list_operators(items, lang)
}

pub open spec fn module_versions(
    source: Option<Seq<char>>,
    versions: Option<Seq<PublishedVersion>>,
    partial: Seq<char>,
) -> Seq<ItemV> {
    match source {
        Some(s) => match module_source(unquoted(s)) {
            Some((ns, name, provider)) => matching_items(
                ns + "/"@ + name + "/"@ + provider,
                versions,
                partial,
            ),
            None => Seq::empty(),
        },
        None => Seq::empty(),
    }
}

/// The exact versions of a module that fit what is typed.
pub fn module_version_items_from_registry(
    source: Option<&str>,
    versions: Option<&Vec<PublishedVersion>>,
    version_partial: &str,
) -> (r: Vec<CompletionItem>)
    ensures
        items_view(r@) == module_versions(
            opt_str(source),
            opt_versions(versions),
            version_partial@,
        ),
{
    if let Some(s) = source {
        if let Some((ns, name, provider)) = parse_module_source(s) {
            if let Some(v) = versions {
                let path = concat5(ns.as_str(), "/", name.as_str(), "/", provider.as_str());
                return list_matching(path.as_str(), v, version_partial);
            }
        }
    }
    no_items()
}

pub open spec fn module_version_values(
    lang: Language,
    source: Option<Seq<char>>,
    slot: CursorSlot,
    versions: Option<Seq<PublishedVersion>>,
) -> Seq<ItemV> {
    if takes_operator(slot) {
        operator_items(lang)
    } else {
        or_operators(module_versions(source, versions, typed_version(slot)), lang)
    }
}

/// What is offered in the `version` of a module call.
pub fn module_version_value_items(
    lang: &Language,
    source: Option<&str>,
    slot: &CursorSlot,
    versions: Option<&Vec<PublishedVersion>>,
) -> (r: Vec<CompletionItem>)
    ensures
        items_view(r@) == module_version_values(
            *lang,
            opt_str(source),
            *slot,
            opt_versions(versions),
        ),
{
    if slot_takes_operator(slot) {
        return constraint_operator_items(lang);
    }
    let items = module_version_items_from_registry(source, versions, version_partial_of(slot));
    or_list_operators(items, lang)
}

// ---------------------------------------------------------------------
// Replacing what is typed

/// The range of the last `n` columns before a position.
pub open spec fn range_before(pos: Position, n: int) -> Range {
    Range {
        start: Position {
            line: pos.line,
            character: if pos.character >= n {
                (pos.character - n) as u32
            } else {
                0
            },
        },
        end: pos,
    }
}

pub open spec fn replacing(range: Range) -> spec_fn(ItemV) -> ItemV {
    |x: ItemV|
        ItemV {
            insert_text: None,
            filter_text: match x.filter_text {
                Some(f) => Some(f),
                None => Some(x.label),
            },
            text_edit: Some(
                EditV {
                    range,
                    new_text: match x.insert_text {
                        Some(t) => t,
                        None => x.label,
                    },
                },
            ),
            ..x
        }
}

/// Columns are counted modulo 2^32.
pub open spec fn columns(n: nat) -> int {
    (n % 0x1_0000_0000) as int
}

pub open spec fn stamped(items: Seq<ItemV>, pos: Position, slot: CursorSlot) -> Seq<ItemV> {
    let n = columns(typed_version(slot).len());
    if n == 0 {
        items
    } else {
        each(items, replacing(range_before(pos, n)))
    }
}

/// Makes the items replace the part of the version that is typed already.
pub fn stamp_version_replace(items: Vec<CompletionItem>, pos: Position, slot: &CursorSlot) -> (r: Vec<
    CompletionItem,
>)
    ensures
        items_view(r@) == stamped(items_view(items@), pos, *slot),
{
    let partial = version_partial_of(slot);
    let total: usize = partial.unicode_len();
    let n: u32 = (total as u64 % 0x1_0000_0000u64) as u32;
    assert(n == columns(typed_version(*slot).len()));
    if n == 0 {
        return items;
    }
    let start: u32 = if pos.character >= n {
        pos.character - n
    } else {
        0
    };
    let range = Range { start: Position { line: pos.line, character: start }, end: pos };
    let ghost all = each(items_view(items@), replacing(range));
    let mut out = no_items();
    assert(items_view(out@) =~= all.take(0));
    for i in 0..items.len()
        invariant
            all == each(items_view(items@), replacing(range)),
            items_view(out@) == all.take(i as int),
    {
        let mut item = items[i].duplicate();
        let new_text = match &item.insert_text {
            Some(t) => t.clone(),
            None => item.label.clone(),
        };
        item.insert_text = None;
        if item.filter_text.is_none() {
            item.filter_text = Some(item.label.clone());
        }
        item.text_edit = Some(TextEdit { range, new_text });
        assert(item@ =~= replacing(range)(items@[i as int]@));
        push_item(&mut out, item);
        assert(items_view(out@) =~= all.take(i + 1));
    }
    assert(all.take(items@.len() as int) =~= all);
    out
}

} // verus!
