//! Inlay hints: the defaults of variables, how fresh version constraints are,
//! and settings that only OpenTofu knows.

use crate::hcl::{
    attr_pointees, attributes, block_label, block_pointees, blocks, blocks_named, key_text,
    label_at, list_attributes, list_blocks, list_blocks_named, literal_string, literal_text,
    object_key_as_str, Attribute, Block, Body, ExprKind, Expression, ObjectItem, Structure,
};
use crate::position::{
    hcl_span_to_lsp_range, range_within, rope_text, span_range, within, Position, Range,
};
use crate::seqs::{
    filter_map, find_map, flat_map, lemma_filter_map_step, lemma_find_map_step,
    lemma_flat_map_step, lemma_take_full, position_from,
};
use crate::state::{find_doc, primary_doc, DocUri, Reference, ReferenceKind, StateStore};
use crate::text::{
    concat2, concat3, concat5, contains_text, decimal, ends_with, i64_text, opt_view,
    signed_decimal, split, split_once, starts_with, str_contains, str_ends_with, str_eq, str_split,
    str_split_once, str_starts_with, str_trim, texts, trim, u64_text,
};
use crate::versions::{age_days, age_of, is_clock_day, VersionEntry};
use ropey::Rope;
use vstd::prelude::*;

verus! {

#[derive(Debug, Clone, Copy, PartialEq, Eq, Structural)]
pub enum HintKind {
    Parameter,
    Type,
}

/// A text that is shown at a position, with padding before it.
#[derive(Debug)]
pub struct InlayHint {
    pub position: Position,
    pub label: String,
    pub kind: HintKind,
    pub tooltip: Option<String>,
}

pub struct HintV {
    pub position: Position,
    pub label: Seq<char>,
    pub kind: HintKind,
    pub tooltip: Option<Seq<char>>,
}

impl View for InlayHint {
    type V = HintV;

    open spec fn view(&self) -> HintV {
        HintV {
            position: self.position,
            label: self.label@,
            kind: self.kind,
            tooltip: opt_view(self.tooltip),
        }
    }
}

pub open spec fn hints_view(v: Seq<InlayHint>) -> Seq<HintV> {
    Seq::new(v.len(), |i: int| v[i]@)
}

pub open spec fn opt_hint(h: Option<InlayHint>) -> Option<HintV> {
    match h {
        Some(h) => Some(h@),
        None => None,
    }
}

// ---------------------------------------------------------------------
// Defaults of variables

/// How a literal scalar is written.
pub open spec fn scalar_text(e: Expression) -> Option<Seq<char>> {
    match e.kind {
        ExprKind::Str(s) => Some("\""@ + s@ + "\""@),
        ExprKind::Number(n) => Some(n@),
        ExprKind::Bool(b) => Some(
            if b {
                "true"@
            } else {
                "false"@
            },
        ),
        ExprKind::Null => Some("null"@),
        _ => None,
    }
}

/// How a literal scalar is written; compound values have no such text.
pub fn literal_scalar(e: &Expression) -> (r: Option<String>)
    ensures
        opt_view(r) == scalar_text(*e),
{
    match &e.kind {
        ExprKind::Str(s) => Some(concat3("\"", s.as_str(), "\"")),
        ExprKind::Number(n) => Some(n.clone()),
        ExprKind::Bool(b) => if *b {
            Some("true".to_owned())
        } else {
            Some("false".to_owned())
        },
        ExprKind::Null => Some("null".to_owned()),
        _ => None,
    }
}

/// The value of an attribute with the given key.
pub open spec fn value_of(key: Seq<char>) -> spec_fn(Attribute) -> Option<Expression> {
    |a: Attribute|
        if a.key.text@ == key {
            Some(a.value)
        } else {
            None
        }
}

/// The name and the literal default of a `variable` block.
pub open spec fn block_default() -> spec_fn(Block) -> Option<(Seq<char>, Seq<char>)> {
    |b: Block|
        match (label_at(b, 0), find_map(attributes(b.body), value_of("default"@))) {
            (Some(name), Some(e)) => match scalar_text(e) {
                Some(text) => Some((name, text)),
                None => None,
            },
            _ => None,
        }
}

pub type TableV = Seq<(Seq<char>, Seq<char>)>;

pub open spec fn is_row(name: Seq<char>) -> spec_fn((Seq<char>, Seq<char>)) -> bool {
    |r: (Seq<char>, Seq<char>)| r.0 == name
}

/// A table with the value of a name put in, over the one it had.
pub open spec fn with_row(m: TableV, row: (Seq<char>, Seq<char>)) -> TableV {
    match position_from(m, is_row(row.0), 0) {
        Some(i) => m.update(i, row),
        None => m.push(row),
    }
}

/// The table of the first `n` rows.
pub open spec fn table_of(rows: TableV, n: int) -> TableV
    decreases n,
{
    if n <= 0 {
        Seq::empty()
    } else {
        with_row(table_of(rows, n - 1), rows[n - 1])
    }
}

/// The literal defaults of the variables of a body; of two blocks for one
/// variable the later one counts.
pub open spec fn variable_defaults(body: Body) -> TableV {
    let rows = filter_map(blocks_named(body, "variable"@), block_default());
    table_of(rows, rows.len() as int)
}

pub open spec fn table_view(v: Seq<(String, String)>) -> TableV {
    Seq::new(v.len(), |i: int| (v[i].0@, v[i].1@))
}

fn default_of_block(b: &Block) -> (r: Option<(String, String)>)
    ensures
        match r {
            Some(p) => block_default()(*b) == Some((p.0@, p.1@)),
            None => block_default()(*b) is None,
        },
{
    let name = match block_label(b, 0) {
        Some(n) => n,
        None => {
            return None;
        },
    };
    let list = list_attributes(&b.body);
    let ghost s = attributes(b.body);
    let ghost f = value_of("default"@);
    proof {
        lemma_take_full(s);
    }
    for i in 0..list.len()
        invariant
            attr_pointees(list@) == s,
            s == attributes(b.body),
            f == value_of("default"@),
            find_map(s, f) == find_map(s.skip(i as int), f),
            label_at(*b, 0) == Some(name@),
    {
        proof {
            lemma_find_map_step(s, f, i as int);
            assert(s[i as int] == *list@[i as int]);
        }
        if str_eq(list[i].key.text.as_str(), "default") {
            return match literal_scalar(&list[i].value) {
                Some(text) => Some((name.to_owned(), text)),
                None => None,
            };
        }
    }
    None
}

fn put_row(v: &mut Vec<(String, String)>, row: (String, String))
    ensures
        table_view(final(v)@) == with_row(table_view(old(v)@), (row.0@, row.1@)),
{
    let ghost m = table_view(v@);
    let ghost p = is_row(row.0@);
    let n: usize = v.len();
    let mut i: usize = 0;
    while i < n
        invariant
            i <= n,
            n == v@.len(),
            v@ == old(v)@,
            m == table_view(v@),
            p == is_row(row.0@),
            position_from(m, p, 0) == position_from(m, p, i as int),
        decreases n - i,
    {
        assert(m[i as int] == (v@[i as int].0@, v@[i as int].1@));
        if str_eq(v[i].0.as_str(), row.0.as_str()) {
            let ghost r = (row.0@, row.1@);
            v.set(i, row);
            assert(table_view(v@) =~= m.update(i as int, r));
            return;
        }
        i += 1;
    }
    let ghost r = (row.0@, row.1@);
    v.push(row);
    assert(table_view(v@) =~= m.push(r));
}

/// The literal defaults of the variables of a body.
pub fn collect_variable_defaults(body: &Body) -> (r: Vec<(String, String)>)
    ensures
        table_view(r@) == variable_defaults(*body),
{
    let list = list_blocks_named(body, "variable");
    let ghost s = blocks_named(*body, "variable"@);
    let ghost f = block_default();
    let mut out: Vec<(String, String)> = Vec::new();
    proof {
        lemma_take_full(s);
    }
    assert(table_view(out@) =~= table_of(filter_map(s.take(0), f), 0));
    for i in 0..list.len()
        invariant
            block_pointees(list@) == s,
            f == block_default(),
            table_view(out@) == table_of(
                filter_map(s.take(i as int), f),
                filter_map(s.take(i as int), f).len() as int,
            ),
    {
        let ghost rows = filter_map(s.take(i as int), f);
        proof {
            lemma_filter_map_step(s, f, i as int);
            assert(s[i as int] == *list@[i as int]);
        }
        if let Some(row) = default_of_block(list[i]) {
            proof {
                let next = filter_map(s.take(i + 1), f);
                lemma_table_prefix(rows, next, rows.len() as int);
            }
            put_row(&mut out, row);
        }
    }
    out
}

proof fn lemma_table_prefix(a: TableV, b: TableV, n: int)
    requires
        0 <= n <= a.len(),
        n <= b.len(),
        forall|i: int| 0 <= i < n ==> a[i] == b[i],
    ensures
        table_of(a, n) == table_of(b, n),
    decreases n,
{
    if n > 0 {
        lemma_table_prefix(a, b, n - 1);
    }
}

pub open spec fn row_value(name: Seq<char>) -> spec_fn((Seq<char>, Seq<char>)) -> Option<
    Seq<char>,
> {
    |r: (Seq<char>, Seq<char>)|
        if r.0 == name {
            Some(r.1)
        } else {
            None
        }
}

/// The hint behind a reference to a variable with a literal default.
pub open spec fn default_hint(defaults: TableV, visible: Range) -> spec_fn(Reference) -> Option<
    HintV,
> {
    |r: Reference|
        match r.kind {
            ReferenceKind::Variable { name } => if range_within(visible, r.location.range) {
                match find_map(defaults, row_value(name@)) {
                    Some(text) => Some(
                        HintV {
                            position: r.location.range.end,
                            label: " = "@ + text,
                            kind: HintKind::Parameter,
                            tooltip: None,
                        },
                    ),
                    None => None,
                }
            } else {
                None
            },
            _ => None,
        }
}

fn find_row<'a>(v: &'a Vec<(String, String)>, name: &str) -> (r: Option<&'a str>)
    ensures
        match r {
            Some(x) => find_map(table_view(v@), row_value(name@)) == Some(x@),
            None => find_map(table_view(v@), row_value(name@)) is None,
        },
{
    let ghost s = table_view(v@);
    let ghost f = row_value(name@);
    proof {
        lemma_take_full(s);
    }
    for i in 0..v.len()
        invariant
            s == table_view(v@),
            f == row_value(name@),
            find_map(s, f) == find_map(s.skip(i as int), f),
    {
        proof {
            lemma_find_map_step(s, f, i as int);
        }
        if str_eq(v[i].0.as_str(), name) {
            return Some(v[i].1.as_str());
        }
    }
    assert(table_view(v@).len() == v@.len());
    None
}

fn push_default_hints(
    out: &mut Vec<InlayHint>,
    references: &Vec<Reference>,
    defaults: &Vec<(String, String)>,
    visible: &Range,
)
    ensures
        hints_view(final(out)@) == hints_view(old(out)@) + filter_map(
            references@,
            default_hint(table_view(defaults@), *visible),
        ),
{
    let ghost s = references@;
    let ghost f = default_hint(table_view(defaults@), *visible);
    let ghost start = hints_view(out@);
    proof {
        lemma_take_full(s);
    }
    assert(hints_view(out@) =~= start + filter_map(s.take(0), f));
    for i in 0..references.len()
        invariant
            s == references@,
            f == default_hint(table_view(defaults@), *visible),
            hints_view(out@) == start + filter_map(s.take(i as int), f),
    {
        proof {
            lemma_filter_map_step(s, f, i as int);
        }
        let ghost before = hints_view(out@);
        let range = references[i].location.range;
        if let ReferenceKind::Variable { name } = &references[i].kind {
            if within(visible, range) {
                if let Some(text) = find_row(defaults, name.as_str()) {
                    let h = InlayHint {
                        position: range.end,
                        label: concat2(" = ", text),
                        kind: HintKind::Parameter,
                        tooltip: None,
                    };
                    out.push(h);
                    assert(hints_view(out@) =~= before.push(h@));
                }
            }
        }
        assert(hints_view(out@) =~= start + filter_map(s.take(i + 1), f));
    }
}

// ---------------------------------------------------------------------
// `lifecycle { enabled = … }`

/// A file that only OpenTofu reads.
pub open spec fn opentofu_path(path: Seq<char>) -> bool {
    ends_with(path, ".tofu"@) || ends_with(path, ".tofu.json"@)
}

pub fn is_opentofu_file(uri: &DocUri) -> (r: bool)
    ensures
        r == opentofu_path(uri.path@),
{
    str_ends_with(uri.path.as_str(), ".tofu") || str_ends_with(uri.path.as_str(), ".tofu.json")
}

/// The hint behind an `enabled` setting.
pub open spec fn enabled_hint(t: Seq<char>, visible: Range) -> spec_fn(Attribute) -> Option<HintV> {
    |a: Attribute|
        if a.key.text@ == "enabled"@ {
            match a.value.span {
                Some(span) => match span_range(t, span) {
                    Some(range) => if range_within(visible, range) {
                        Some(
                            HintV {
                                position: range.end,
                                label: " OpenTofu 1.11+"@,
                                kind: HintKind::Parameter,
                                tooltip: Some(
                                    "`enabled` is an [OpenTofu 1.11+ meta-argument](https://opentofu.org/docs/language/meta-arguments/enabled/).\n\nTerraform does not support it — if this module is OpenTofu-only, rename the file to `.tofu` (or `.tofu.json`) to suppress this hint. For Terraform-compatible code, use `count = var.create ? 1 : 0` or `for_each` instead."@,
                                ),
                            },
                        )
                    } else {
                        None
                    },
                    None => None,
                },
                None => None,
            }
        } else {
            None
        }
}

pub open spec fn lifecycle_hints_in(t: Seq<char>, visible: Range) -> spec_fn(Block) -> Seq<HintV> {
    |b: Block| filter_map(attributes(b.body), enabled_hint(t, visible))
}

pub open spec fn block_lifecycle_hints(t: Seq<char>, visible: Range) -> spec_fn(Block) -> Seq<
    HintV,
> {
    |b: Block|
        if b.ident.text@ == "resource"@ || b.ident.text@ == "data"@ {
            flat_map(blocks_named(b.body, "lifecycle"@), lifecycle_hints_in(t, visible))
        } else {
            Seq::empty()
        }
}

/// The hints for `enabled` in the lifecycles of resources and data sources,
/// in files that Terraform reads too.
pub open spec fn lifecycle_hints(body: Body, t: Seq<char>, visible: Range, path: Seq<char>) -> Seq<
    HintV,
> {
    if opentofu_path(path) {
        Seq::empty()
    } else {
        flat_map(blocks(body), block_lifecycle_hints(t, visible))
    }
}

fn enabled_hint_for(a: &Attribute, rope: &Rope, visible: &Range) -> (r: Option<InlayHint>)
    ensures
        opt_hint(r) == enabled_hint(rope_text(*rope), *visible)(*a),
{
    if !str_eq(a.key.text.as_str(), "enabled") {
        return None;
    }
    if let Some(span) = a.value.span {
        if let Some(range) = hcl_span_to_lsp_range(rope, span) {
            if within(visible, range) {
                return Some(
                    InlayHint {
                        position: range.end,
                        label: " OpenTofu 1.11+".to_owned(),
                        kind: HintKind::Parameter,
                        tooltip: Some(
                            "`enabled` is an [OpenTofu 1.11+ meta-argument](https://opentofu.org/docs/language/meta-arguments/enabled/).\n\nTerraform does not support it — if this module is OpenTofu-only, rename the file to `.tofu` (or `.tofu.json`) to suppress this hint. For Terraform-compatible code, use `count = var.create ? 1 : 0` or `for_each` instead.".to_owned(),
                        ),
                    },
                );
            }
        }
    }
    None
}

fn push_enabled_hints(out: &mut Vec<InlayHint>, b: &Block, rope: &Rope, visible: &Range)
    ensures
        hints_view(final(out)@) == hints_view(old(out)@) + lifecycle_hints_in(
            rope_text(*rope),
            *visible,
        )(*b),
{
    let list = list_attributes(&b.body);
    let ghost s = attributes(b.body);
    let ghost f = enabled_hint(rope_text(*rope), *visible);
    let ghost start = hints_view(out@);
    proof {
        lemma_take_full(s);
    }
    assert(hints_view(out@) =~= start + filter_map(s.take(0), f));
    for i in 0..list.len()
        invariant
            attr_pointees(list@) == s,
            f == enabled_hint(rope_text(*rope), *visible),
            hints_view(out@) == start + filter_map(s.take(i as int), f),
    {
        proof {
            lemma_filter_map_step(s, f, i as int);
            assert(s[i as int] == *list@[i as int]);
        }
        let ghost before = hints_view(out@);
        if let Some(h) = enabled_hint_for(list[i], rope, visible) {
            out.push(h);
            assert(hints_view(out@) =~= before.push(h@));
        }
        assert(hints_view(out@) =~= start + filter_map(s.take(i + 1), f));
    }
}

fn push_lifecycles(out: &mut Vec<InlayHint>, b: &Block, rope: &Rope, visible: &Range)
    ensures
        hints_view(final(out)@) == hints_view(old(out)@) + flat_map(
            blocks_named(b.body, "lifecycle"@),
            lifecycle_hints_in(rope_text(*rope), *visible),
        ),
{
    let list = list_blocks_named(&b.body, "lifecycle");
    let ghost s = blocks_named(b.body, "lifecycle"@);
    let ghost f = lifecycle_hints_in(rope_text(*rope), *visible);
    let ghost start = hints_view(out@);
    proof {
        lemma_take_full(s);
    }
    assert(hints_view(out@) =~= start + flat_map(s.take(0), f));
    for i in 0..list.len()
        invariant
            block_pointees(list@) == s,
            f == lifecycle_hints_in(rope_text(*rope), *visible),
            hints_view(out@) == start + flat_map(s.take(i as int), f),
    {
        proof {
            lemma_flat_map_step(s, f, i as int);
            assert(s[i as int] == *list@[i as int]);
        }
        push_enabled_hints(out, list[i], rope, visible);
        assert(hints_view(out@) =~= start + flat_map(s.take(i + 1), f));
    }
}

pub fn lifecycle_enabled_hints(body: &Body, rope: &Rope, visible: &Range, uri: &DocUri) -> (r: Vec<
    InlayHint,
>)
    ensures
        hints_view(r@) == lifecycle_hints(*body, rope_text(*rope), *visible, uri.path@),
{
    let mut out: Vec<InlayHint> = Vec::new();
    assert(hints_view(out@) =~= Seq::<HintV>::empty());
    if is_opentofu_file(uri) {
        return out;
    }
    let list = list_blocks(body);
    let ghost s = blocks(*body);
    let ghost f = block_lifecycle_hints(rope_text(*rope), *visible);
    proof {
        lemma_take_full(s);
    }
    assert(hints_view(out@) =~= flat_map(s.take(0), f));
    for i in 0..list.len()
        invariant
            block_pointees(list@) == s,
            f == block_lifecycle_hints(rope_text(*rope), *visible),
            hints_view(out@) == flat_map(s.take(i as int), f),
    {
        proof {
            lemma_flat_map_step(s, f, i as int);
            assert(s[i as int] == *list@[i as int]);
        }
        let name = list[i].ident.text.as_str();
        if str_eq(name, "resource") || str_eq(name, "data") {
            push_lifecycles(&mut out, list[i], rope, visible);
        }
        assert(hints_view(out@) =~= flat_map(s.take(i + 1), f));
    }
    out
}

// ---------------------------------------------------------------------
// Freshness of versions

/// What a version constraint is about.
#[derive(Debug)]
pub enum VersionSource {
    TerraformCli,
    Provider { namespace: String, name: String },
    Module { namespace: String, name: String, provider: String },
}

pub enum SourceV {
    TerraformCli,
    Provider { namespace: Seq<char>, name: Seq<char> },
    Module { namespace: Seq<char>, name: Seq<char>, provider: Seq<char> },
}

impl View for VersionSource {
    type V = SourceV;

    open spec fn view(&self) -> SourceV {
        match self {
            VersionSource::TerraformCli => SourceV::TerraformCli,
            VersionSource::Provider { namespace, name } => SourceV::Provider {
                namespace: namespace@,
                name: name@,
            },
            VersionSource::Module { namespace, name, provider } => SourceV::Module {
                namespace: namespace@,
                name: name@,
                provider: provider@,
            },
        }
    }
}

fn same_source(a: &VersionSource, b: &VersionSource) -> (r: bool)
    ensures
        r == (a@ == b@),
{
    match (a, b) {
        (VersionSource::TerraformCli, VersionSource::TerraformCli) => true,
        (
            VersionSource::Provider { namespace: n, name: m },
            VersionSource::Provider { namespace: k, name: l },
        ) => str_eq(n.as_str(), k.as_str()) && str_eq(m.as_str(), l.as_str()),
        (
            VersionSource::Module { namespace: n, name: m, provider: p },
            VersionSource::Module { namespace: k, name: l, provider: q },
        ) => str_eq(n.as_str(), k.as_str()) && str_eq(m.as_str(), l.as_str()) && str_eq(
            p.as_str(),
            q.as_str(),
        ),
        _ => false,
    }
}

/// The versions of a source that are known, newest first.
#[derive(Debug)]
pub struct CachedVersions {
    pub source: VersionSource,
    pub entries: Vec<VersionEntry>,
}

/// A version constraint as it is written, and the known versions that it
/// accepts.
#[derive(Debug)]
pub struct ParsedConstraint {
    pub raw: String,
    /// It parses, and constrains something.
    pub valid: bool,
    pub accepts: Vec<String>,
}

/// What the hints on versions are made from.
pub struct VersionContext {
    /// The age in days from which a release is stale; none is for zero.
    pub stale_days: u32,
    /// The number of days from 1970-01-01 to today.
    pub today: i64,
    pub constraints: Vec<ParsedConstraint>,
    pub versions: Vec<CachedVersions>,
}

/// An age in words.
pub open spec fn age_text(days: int) -> Seq<char> {
    if days < 30 {
        signed_decimal(days) + "d old"@
    } else if days < 365 {
        decimal((days / 30) as nat) + "mo old"@
    } else if (days % 365) / 30 == 0 {
        decimal((days / 365) as nat) + "y old"@
    } else {
        decimal((days / 365) as nat) + "y "@ + decimal(((days % 365) / 30) as nat) + "mo old"@
    }
}

/// An age in words.
pub fn humanise_age(days: i64) -> (r: String)
    ensures
        r@ == age_text(days as int),
{
    if days < 30 {
        concat2(i64_text(days).as_str(), "d old")
    } else {
        let n: u64 = days as u64;
        if n < 365 {
            concat2(u64_text(n / 30).as_str(), "mo old")
        } else {
            let years: u64 = n / 365;
            let months: u64 = (n % 365) / 30;
            if months == 0 {
                concat2(u64_text(years).as_str(), "y old")
            } else {
                let mut s = concat3(
                    u64_text(years).as_str(),
                    "y ",
                    u64_text(months).as_str(),
                );
                s.append("mo old");
                s
            }
        }
    }
}

/// The warning on a stale release, with `gap` before it.
pub open spec fn stale_part(
    gap: Seq<char>,
    date: Option<Seq<char>>,
    stale_days: u32,
    today: int,
) -> Seq<char> {
    match age_of(date, today) {
        Some(age) => if stale_days > 0 && age > stale_days {
            gap + age_text(age)
        } else {
            Seq::empty()
        },
        None => Seq::empty(),
    }
}

pub open spec fn accepted(accepts: Seq<String>) -> spec_fn(VersionEntry) -> Option<VersionEntry> {
    |e: VersionEntry|
        if texts(accepts).contains(e.version@) {
            Some(e)
        } else {
            None
        }
}

/// The label of a constraint: a check mark where the newest version is
/// accepted, else the newest version and the newest accepted one. None where
/// no version is accepted.
pub open spec fn version_label(
    accepts: Seq<String>,
    entries: Seq<VersionEntry>,
    stale_days: u32,
    today: int,
) -> Option<Seq<char>> {
    if entries.len() == 0 {
        None
    } else {
        let latest = entries[0].version@;
        match find_map(entries, accepted(accepts)) {
            Some(e) => if e.version@ == latest {
                Some(
                    "✓ "@ + e.version@ + stale_part(
                        "   ⚠ "@,
                        opt_view(e.published),
                        stale_days,
                        today,
                    ),
                )
            } else {
                Some(
                    "→ "@ + latest + "  (pinned: "@ + e.version@ + ")"@ + stale_part(
                        "  ⚠ "@,
                        opt_view(e.published),
                        stale_days,
                        today,
                    ),
                )
            },
            None => None,
        }
    }
}

fn stale_warning(gap: &str, date: &Option<String>, stale_days: u32, today: i64) -> (r: String)
    requires
        is_clock_day(today as int),
    ensures
        r@ == stale_part(gap@, opt_view(*date), stale_days, today as int),
{
    if let Some(age) = age_days(date, today) {
        if stale_days > 0 && age > stale_days as i64 {
            return concat2(gap, humanise_age(age).as_str());
        }
    }
    let s = String::new();
    assert(s@ =~= Seq::<char>::empty());
    s
}

fn lists_text(v: &Vec<String>, x: &str) -> (r: bool)
    ensures
        r == texts(v@).contains(x@),
{
    for i in 0..v.len()
        invariant
            forall|j: int| 0 <= j < i ==> (#[trigger] texts(v@)[j]) != x@,
    {
        if str_eq(v[i].as_str(), x) {
            assert(texts(v@)[i as int] == x@);
            return true;
        }
    }
    false
}

pub fn compose_label(
    accepts: &Vec<String>,
    entries: &Vec<VersionEntry>,
    stale_days: u32,
    today: i64,
) -> (r: Option<String>)
    requires
        is_clock_day(today as int),
    ensures
        opt_view(r) == version_label(accepts@, entries@, stale_days, today as int),
{
    if entries.len() == 0 {
        return None;
    }
    let latest = entries[0].version.as_str();
    let ghost f = accepted(accepts@);
    proof {
        lemma_take_full(entries@);
    }
    for i in 0..entries.len()
        invariant
            is_clock_day(today as int),
            entries@.len() > 0,
            latest@ == entries@[0].version@,
            f == accepted(accepts@),
            find_map(entries@, f) == find_map(entries@.skip(i as int), f),
    {
        proof {
            lemma_find_map_step(entries@, f, i as int);
        }
        let e = &entries[i];
        if lists_text(accepts, e.version.as_str()) {
            if str_eq(e.version.as_str(), latest) {
                let mut label = concat2("✓ ", e.version.as_str());
                label.append(stale_warning("   ⚠ ", &e.published, stale_days, today).as_str());
                return Some(label);
            }
            let mut label = concat5("→ ", latest, "  (pinned: ", e.version.as_str(), ")");
            label.append(stale_warning("  ⚠ ", &e.published, stale_days, today).as_str());
            return Some(label);
        }
    }
    None
}

pub open spec fn constraint_for(raw: Seq<char>) -> spec_fn(ParsedConstraint) -> Option<
    ParsedConstraint,
> {
    |c: ParsedConstraint|
        if c.raw@ == raw {
            Some(c)
        } else {
            None
        }
}

pub open spec fn versions_for(source: SourceV) -> spec_fn(CachedVersions) -> Option<
    CachedVersions,
> {
    |c: CachedVersions|
        if c.source@ == source {
            Some(c)
        } else {
            None
        }
}

/// The hint behind a version constraint.
pub open spec fn version_hint(
    e: Expression,
    t: Seq<char>,
    visible: Range,
    source: SourceV,
    ctx: VersionContext,
) -> Option<HintV> {
    match e.span {
        Some(span) => match span_range(t, span) {
            Some(range) => if range_within(visible, range) {
                match literal_text(e) {
                    Some(raw) => match (
                        find_map(ctx.constraints@, constraint_for(raw)),
                        find_map(ctx.versions@, versions_for(source)),
                    ) {
                        (Some(c), Some(known)) => if c.valid {
                            match version_label(
                                c.accepts@,
                                known.entries@,
                                ctx.stale_days,
                                ctx.today as int,
                            ) {
                                Some(label) => Some(
                                    HintV {
                                        position: range.end,
                                        label,
                                        kind: HintKind::Type,
                                        tooltip: None,
                                    },
                                ),
                                None => None,
                            }
                        } else {
                            None
                        },
                        _ => None,
                    },
                    None => None,
                }
            } else {
                None
            },
            None => None,
        },
        None => None,
    }
}

fn find_constraint<'a>(v: &'a Vec<ParsedConstraint>, raw: &str) -> (r: Option<&'a ParsedConstraint>)
    ensures
        match r {
            Some(c) => find_map(v@, constraint_for(raw@)) == Some(*c),
            None => find_map(v@, constraint_for(raw@)) is None,
        },
{
    let ghost f = constraint_for(raw@);
    proof {
        lemma_take_full(v@);
    }
    for i in 0..v.len()
        invariant
            f == constraint_for(raw@),
            find_map(v@, f) == find_map(v@.skip(i as int), f),
    {
        proof {
            lemma_find_map_step(v@, f, i as int);
        }
        if str_eq(v[i].raw.as_str(), raw) {
            return Some(&v[i]);
        }
    }
    None
}

fn find_versions<'a>(v: &'a Vec<CachedVersions>, source: &VersionSource) -> (r: Option<
    &'a CachedVersions,
>)
    ensures
        match r {
            Some(c) => find_map(v@, versions_for(source@)) == Some(*c),
            None => find_map(v@, versions_for(source@)) is None,
        },
{
    let ghost f = versions_for(source@);
    proof {
        lemma_take_full(v@);
    }
    for i in 0..v.len()
        invariant
            f == versions_for(source@),
            find_map(v@, f) == find_map(v@.skip(i as int), f),
    {
        proof {
            lemma_find_map_step(v@, f, i as int);
        }
        if same_source(&v[i].source, source) {
            return Some(&v[i]);
        }
    }
    None
}

fn emit_for_attr(
    e: &Expression,
    rope: &Rope,
    visible: &Range,
    source: &VersionSource,
    ctx: &VersionContext,
) -> (r: Option<InlayHint>)
    requires
        is_clock_day(ctx.today as int),
    ensures
        opt_hint(r) == version_hint(*e, rope_text(*rope), *visible, source@, *ctx),
{
    let span = match e.span {
        Some(s) => s,
        None => {
            return None;
        },
    };
    let range = match hcl_span_to_lsp_range(rope, span) {
        Some(r) => r,
        None => {
            return None;
        },
    };
    if !within(visible, range) {
        return None;
    }
    let raw = match literal_string(e) {
        Some(s) => s,
        None => {
            return None;
        },
    };
    match (
        find_constraint(&ctx.constraints, raw.as_str()),
        find_versions(&ctx.versions, source),
    ) {
        (Some(c), Some(known)) => {
            if !c.valid {
                return None;
            }
            match compose_label(&c.accepts, &known.entries, ctx.stale_days, ctx.today) {
                Some(label) => Some(
                    InlayHint {
                        position: range.end,
                        label,
                        kind: HintKind::Type,
                        tooltip: None,
                    },
                ),
                None => None,
            }
        },
        _ => None,
    }
}

// ---------------------------------------------------------------------
// Where version constraints stand

/// The namespace and the name in a provider source, with or without a host.
pub open spec fn provider_source(s: Seq<char>) -> Option<(Seq<char>, Seq<char>)> {
    match split_once(trim(s), '/') {
        Some((a, rest)) => match split_once(rest, '/') {
            Some((b, c)) => Some((b, c)),
            None => Some((a, rest)),
        },
        None => None,
    }
}

pub fn parse_provider_source(s: &str) -> (r: Option<(String, String)>)
    ensures
        match r {
            Some(p) => provider_source(s@) == Some((p.0@, p.1@)),
            None => provider_source(s@) is None,
        },
{
    let t = str_trim(s);
    match str_split_once(t.as_str(), '/') {
        Some((a, rest)) => match str_split_once(rest.as_str(), '/') {
            Some((b, c)) => Some((b, c)),
            None => Some((a, rest)),
        },
        None => None,
    }
}

/// The parts of a registry module source: three, none of them empty.
pub open spec fn module_source(s: Seq<char>) -> Option<(Seq<char>, Seq<char>, Seq<char>)> {
    let t = trim(s);
    let parts = split(t, '/');
    if starts_with(t, "."@) || starts_with(t, "/"@) || contains_text(t, "://"@) || contains_text(
        t,
        "::"@,
    ) || parts.len() != 3 || parts[0].len() == 0 || parts[1].len() == 0 || parts[2].len() == 0 {
        None
    } else {
        Some((parts[0], parts[1], parts[2]))
    }
}

pub fn parse_module_source(s: &str) -> (r: Option<(String, String, String)>)
    ensures
        match r {
            Some(p) => module_source(s@) == Some((p.0@, p.1@, p.2@)),
            None => module_source(s@) is None,
        },
{
    let t = str_trim(s);
    if str_starts_with(t.as_str(), ".") || str_starts_with(t.as_str(), "/") || str_contains(
        t.as_str(),
        "://",
    ) || str_contains(t.as_str(), "::") {
        return None;
    }
    let parts = str_split(t.as_str(), '/');
    assert(texts(parts@).len() == parts@.len());
    if parts.len() != 3 {
        return None;
    }
    assert(texts(parts@)[0] == parts@[0]@ && texts(parts@)[1] == parts@[1]@ && texts(parts@)[2]
        == parts@[2]@);
    if parts[0].as_str().is_empty() || parts[1].as_str().is_empty() || parts[2].as_str().is_empty() {
        return None;
    }
    Some((parts[0].clone(), parts[1].clone(), parts[2].clone()))
}

/// The value of the last item with the given key.
pub open spec fn last_item(items: Seq<ObjectItem>, key: Seq<char>) -> Option<Expression>
    decreases items.len(),
{
    if items.len() == 0 {
        None
    } else if key_text(items.last().key) == Some(key) {
        Some(items.last().value)
    } else {
        last_item(items.drop_last(), key)
    }
}

fn find_last_item<'a>(items: &'a Vec<ObjectItem>, key: &str) -> (r: Option<&'a Expression>)
    ensures
        match r {
            Some(e) => last_item(items@, key@) == Some(*e),
            None => last_item(items@, key@) is None,
        },
{
    let mut n: usize = items.len();
    assert(items@.take(n as int) =~= items@);
    while n > 0
        invariant
            n <= items@.len(),
            last_item(items@, key@) == last_item(items@.take(n as int), key@),
        decreases n,
    {
        proof {
            assert(items@.take(n as int).drop_last() =~= items@.take(n - 1));
            assert(items@.take(n as int).last() == items@[n - 1]);
        }
        let hit = match object_key_as_str(&items[n - 1].key) {
            Some(k) => str_eq(k, key),
            None => false,
        };
        if hit {
            return Some(&items[n - 1].value);
        }
        n -= 1;
    }
    assert(items@.take(0) =~= Seq::<ObjectItem>::empty());
    None
}

/// The value of the last attribute with the given key.
pub open spec fn last_attribute(s: Seq<Attribute>, key: Seq<char>) -> Option<Expression>
    decreases s.len(),
{
    if s.len() == 0 {
        None
    } else if s.last().key.text@ == key {
        Some(s.last().value)
    } else {
        last_attribute(s.drop_last(), key)
    }
}

fn find_last_attribute<'a>(body: &'a Body, key: &str) -> (r: Option<&'a Expression>)
    ensures
        match r {
            Some(e) => last_attribute(attributes(*body), key@) == Some(*e),
            None => last_attribute(attributes(*body), key@) is None,
        },
{
    let list = list_attributes(body);
    let ghost s = attributes(*body);
    let mut n: usize = list.len();
    assert(s.len() == list@.len());
    assert(s.take(n as int) =~= s);
    while n > 0
        invariant
            attr_pointees(list@) == s,
            n <= list@.len(),
            s.len() == list@.len(),
            s == attributes(*body),
            last_attribute(s, key@) == last_attribute(s.take(n as int), key@),
        decreases n,
    {
        proof {
            assert(s.take(n as int).drop_last() =~= s.take(n - 1));
            assert(s.take(n as int).last() == s[n - 1]);
            assert(s[n - 1] == *list@[n - 1]);
        }
        let a: &'a Attribute = list[n - 1];
        if str_eq(a.key.text.as_str(), key) {
            return Some(&a.value);
        }
        n -= 1;
    }
    assert(s.take(0) =~= Seq::<Attribute>::empty());
    None
}

/// The hint on the version of a required provider.
pub open spec fn entry_hint(t: Seq<char>, visible: Range, ctx: VersionContext) -> spec_fn(
    Attribute,
) -> Option<HintV> {
    |a: Attribute|
        match a.value.kind {
            ExprKind::Object(items) => match (
                last_item(items@, "source"@),
                last_item(items@, "version"@),
            ) {
                (Some(source), Some(version)) => match literal_text(source) {
                    Some(s) => match provider_source(s) {
                        Some((namespace, name)) => version_hint(
                            version,
                            t,
                            visible,
                            SourceV::Provider { namespace, name },
                            ctx,
                        ),
                        None => None,
                    },
                    None => None,
                },
                _ => None,
            },
            _ => None,
        }
}

fn entry_hint_for(a: &Attribute, rope: &Rope, visible: &Range, ctx: &VersionContext) -> (r: Option<
    InlayHint,
>)
    requires
        is_clock_day(ctx.today as int),
    ensures
        opt_hint(r) == entry_hint(rope_text(*rope), *visible, *ctx)(*a),
{
    match &a.value.kind {
        ExprKind::Object(items) => match (
            find_last_item(items, "source"),
            find_last_item(items, "version"),
        ) {
            (Some(source), Some(version)) => match literal_string(source) {
                Some(s) => match parse_provider_source(s.as_str()) {
                    Some((namespace, name)) => emit_for_attr(
                        version,
                        rope,
                        visible,
                        &VersionSource::Provider { namespace, name },
                        ctx,
                    ),
                    None => None,
                },
                None => None,
            },
            _ => None,
        },
        _ => None,
    }
}

/// The hint on the version of a module call.
pub open spec fn module_hint(b: Body, t: Seq<char>, visible: Range, ctx: VersionContext) -> Option<
    HintV,
> {
    match (last_attribute(attributes(b), "version"@), last_attribute(attributes(b), "source"@)) {
        (Some(version), Some(source)) => match literal_text(source) {
            Some(s) => match module_source(s) {
                Some((namespace, name, provider)) => version_hint(
                    version,
                    t,
                    visible,
                    SourceV::Module { namespace, name, provider },
                    ctx,
                ),
                None => None,
            },
            None => None,
        },
        _ => None,
    }
}

fn walk_module(body: &Body, rope: &Rope, visible: &Range, ctx: &VersionContext) -> (r: Option<
    InlayHint,
>)
    requires
        is_clock_day(ctx.today as int),
    ensures
        opt_hint(r) == module_hint(*body, rope_text(*rope), *visible, *ctx),
{
    match (find_last_attribute(body, "version"), find_last_attribute(body, "source")) {
        (Some(version), Some(source)) => match literal_string(source) {
            Some(s) => match parse_module_source(s.as_str()) {
                Some((namespace, name, provider)) => emit_for_attr(
                    version,
                    rope,
                    visible,
                    &VersionSource::Module { namespace, name, provider },
                    ctx,
                ),
                None => None,
            },
            None => None,
        },
        _ => None,
    }
}

pub open spec fn one_hint(h: Option<HintV>) -> Seq<HintV> {
    match h {
        Some(h) => seq![h],
        None => Seq::empty(),
    }
}

/// The hints in a `terraform` block, structure by structure.
pub open spec fn terraform_hints(t: Seq<char>, visible: Range, ctx: VersionContext) -> spec_fn(
    Structure,
) -> Seq<HintV> {
    |s: Structure|
        match s {
            Structure::Attribute(a) => if a.key.text@ == "required_version"@ {
                one_hint(version_hint(a.value, t, visible, SourceV::TerraformCli, ctx))
            } else {
                Seq::empty()
            },
            Structure::Block(b) => if b.ident.text@ == "required_providers"@ {
                filter_map(attributes(b.body), entry_hint(t, visible, ctx))
            } else {
                Seq::empty()
            },
        }
}

fn push_entry_hints(
    out: &mut Vec<InlayHint>,
    body: &Body,
    rope: &Rope,
    visible: &Range,
    ctx: &VersionContext,
)
    requires
        is_clock_day(ctx.today as int),
    ensures
        hints_view(final(out)@) == hints_view(old(out)@) + filter_map(
            attributes(*body),
            entry_hint(rope_text(*rope), *visible, *ctx),
        ),
{
    let list = list_attributes(body);
    let ghost s = attributes(*body);
    let ghost f = entry_hint(rope_text(*rope), *visible, *ctx);
    let ghost start = hints_view(out@);
    proof {
        lemma_take_full(s);
    }
    assert(hints_view(out@) =~= start + filter_map(s.take(0), f));
    for i in 0..list.len()
        invariant
            is_clock_day(ctx.today as int),
            attr_pointees(list@) == s,
            f == entry_hint(rope_text(*rope), *visible, *ctx),
            hints_view(out@) == start + filter_map(s.take(i as int), f),
    {
        proof {
            lemma_filter_map_step(s, f, i as int);
            assert(s[i as int] == *list@[i as int]);
        }
        let ghost before = hints_view(out@);
        if let Some(h) = entry_hint_for(list[i], rope, visible, ctx) {
            out.push(h);
            assert(hints_view(out@) =~= before.push(h@));
        }
        assert(hints_view(out@) =~= start + filter_map(s.take(i + 1), f));
    }
}

fn walk_terraform(
    out: &mut Vec<InlayHint>,
    body: &Body,
    rope: &Rope,
    visible: &Range,
    ctx: &VersionContext,
)
    requires
        is_clock_day(ctx.today as int),
    ensures
        hints_view(final(out)@) == hints_view(old(out)@) + flat_map(
            body.structures@,
            terraform_hints(rope_text(*rope), *visible, *ctx),
        ),
{
    let ghost s = body.structures@;
    let ghost f = terraform_hints(rope_text(*rope), *visible, *ctx);
    let ghost start = hints_view(out@);
    proof {
        lemma_take_full(s);
    }
    assert(hints_view(out@) =~= start + flat_map(s.take(0), f));
    for i in 0..body.structures.len()
        invariant
            is_clock_day(ctx.today as int),
            s == body.structures@,
            f == terraform_hints(rope_text(*rope), *visible, *ctx),
            hints_view(out@) == start + flat_map(s.take(i as int), f),
    {
        proof {
            lemma_flat_map_step(s, f, i as int);
        }
        match &body.structures[i] {
            Structure::Attribute(a) => {
                if str_eq(a.key.text.as_str(), "required_version") {
                    let ghost before = hints_view(out@);
                    if let Some(h) = emit_for_attr(
                        &a.value,
                        rope,
                        visible,
                        &VersionSource::TerraformCli,
                        ctx,
                    ) {
                        out.push(h);
                        assert(hints_view(out@) =~= before.push(h@));
                    }
                }
            },
            Structure::Block(b) => {
                if str_eq(b.ident.text.as_str(), "required_providers") {
                    push_entry_hints(out, &b.body, rope, visible, ctx);
                }
            },
        }
        assert(hints_view(out@) =~= start + flat_map(s.take(i + 1), f));
    }
}

pub open spec fn block_version_hints(t: Seq<char>, visible: Range, ctx: VersionContext) -> spec_fn(
    Block,
) -> Seq<HintV> {
    |b: Block|
        if b.ident.text@ == "terraform"@ {
            flat_map(b.body.structures@, terraform_hints(t, visible, ctx))
        } else if b.ident.text@ == "module"@ {
            one_hint(module_hint(b.body, t, visible, ctx))
        } else {
            Seq::empty()
        }
}

/// The hints on the version constraints of a body.
pub fn version_hints(body: &Body, rope: &Rope, visible: &Range, ctx: &VersionContext) -> (r: Vec<
    InlayHint,
>)
    requires
        is_clock_day(ctx.today as int),
    ensures
        hints_view(r@) == flat_map(
            blocks(*body),
            block_version_hints(rope_text(*rope), *visible, *ctx),
        ),
{
    let mut out: Vec<InlayHint> = Vec::new();
    let list = list_blocks(body);
    let ghost s = blocks(*body);
    let ghost f = block_version_hints(rope_text(*rope), *visible, *ctx);
    proof {
        lemma_take_full(s);
    }
    assert(hints_view(out@) =~= flat_map(s.take(0), f));
    for i in 0..list.len()
        invariant
            is_clock_day(ctx.today as int),
            block_pointees(list@) == s,
            f == block_version_hints(rope_text(*rope), *visible, *ctx),
            hints_view(out@) == flat_map(s.take(i as int), f),
    {
        proof {
            lemma_flat_map_step(s, f, i as int);
            assert(s[i as int] == *list@[i as int]);
        }
        let name = list[i].ident.text.as_str();
        if str_eq(name, "terraform") {
            walk_terraform(&mut out, &list[i].body, rope, visible, ctx);
        } else if str_eq(name, "module") {
            let ghost before = hints_view(out@);
            if let Some(h) = walk_module(&list[i].body, rope, visible, ctx) {
                out.push(h);
                assert(hints_view(out@) =~= before.push(h@));
            }
        }
        assert(hints_view(out@) =~= flat_map(s.take(i + 1), f));
    }
    out
}

// ---------------------------------------------------------------------
// The request

/// All hints of the visible part of a document, `None` where there are none.
pub open spec fn inlay_answer(
    state: StateStore,
    uri: DocUri,
    visible: Range,
    ctx: VersionContext,
) -> Option<Seq<HintV>> {
    match find_map(state.documents@, primary_doc(uri)) {
        Some(doc) => match doc.body {
            Some(body) => {
                let t = rope_text(doc.rope);
                let all = filter_map(
                    doc.references@,
                    default_hint(variable_defaults(body), visible),
                ) + flat_map(blocks(body), block_version_hints(t, visible, ctx)) + lifecycle_hints(
                    body,
                    t,
                    visible,
                    uri.path@,
                );
                if all.len() == 0 {
                    None
                } else {
                    Some(all)
                }
            },
            None => None,
        },
        None => None,
    }
}

pub open spec fn opt_hints(v: Option<Vec<InlayHint>>) -> Option<Seq<HintV>> {
    match v {
        Some(v) => Some(hints_view(v@)),
        None => None,
    }
}

/// The hints of the visible part of a document.
pub fn inlay_hint(state: &StateStore, uri: &DocUri, visible: &Range, ctx: &VersionContext) -> (r:
    Option<Vec<InlayHint>>)
    requires
        is_clock_day(ctx.today as int),
    ensures
        opt_hints(r) == inlay_answer(*state, *uri, *visible, *ctx),
{
    let doc = match find_doc(state, uri) {
        Some(d) => d,
        None => {
            return None;
        },
    };
    let body = match &doc.body {
        Some(b) => b,
        None => {
            return None;
        },
    };
    let mut out: Vec<InlayHint> = Vec::new();
    assert(hints_view(out@) =~= Seq::<HintV>::empty());
    let defaults = collect_variable_defaults(body);
    push_default_hints(&mut out, &doc.references, &defaults, visible);
    let ghost first = hints_view(out@);
    let mut versions = version_hints(body, &doc.rope, visible, ctx);
    let ghost second = hints_view(versions@);
    out.append(&mut versions);
    assert(hints_view(out@) =~= first + second);
    let mut lifecycles = lifecycle_enabled_hints(body, &doc.rope, visible, uri);
    let ghost third = hints_view(lifecycles@);
    out.append(&mut lifecycles);
    assert(hints_view(out@) =~= first + second + third);
    assert(first =~= filter_map(
        doc.references@,
        default_hint(variable_defaults(*body), *visible),
    ));
    assert(hints_view(out@).len() == out@.len());
    if out.len() == 0 {
        None
    } else {
        Some(out)
    }
}

/// A file that only OpenTofu reads gets no hint on OpenTofu's own settings.
pub proof fn opentofu_files_are_left_alone(body: Body, t: Seq<char>, visible: Range, path: Seq<char>)
    requires
        opentofu_path(path),
    ensures
        lifecycle_hints(body, t, visible, path).len() == 0,
{
}

} // verus!
