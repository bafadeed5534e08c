//! Links from resource and data blocks to the documentation of their types.

use crate::state::{find_doc, primary_doc};
use crate::position::Range;
use crate::schema::{find_entry, lookup, ProviderAddress, SchemaEntry};
use crate::seqs::{
    filter_map, find_map, lemma_filter_map_step, lemma_find_map_step, lemma_take_full,
};
use crate::state::{DocUri, ResourceSymbol, StateStore};
use crate::text::{concat3, opt_view, str_eq};
use vstd::prelude::*;

verus! {

#[derive(Debug)]
pub struct DocumentLink {
    pub range: Range,
    pub target: String,
    pub tooltip: String,
}

pub struct LinkV {
    pub range: Range,
    pub target: Seq<char>,
    pub tooltip: Seq<char>,
}

impl View for DocumentLink {
    type V = LinkV;

    open spec fn view(&self) -> LinkV {
        LinkV { range: self.range, target: self.target@, tooltip: self.tooltip@ }
    }
}

pub open spec fn links_view(v: Seq<DocumentLink>) -> Seq<LinkV> {
    Seq::new(v.len(), |i: int| v[i]@)
}

/// What a text is as a URL, where it is one.
pub uninterp spec fn url_parsed(text: Seq<char>) -> Option<Seq<char>>;

/// `url::Url::parse` and the text of what it gives, which depend on the given
/// text alone. Which texts are URLs is not said here.
#[verifier::external_body]
fn url_parse(text: &str) -> (r: Option<String>)
    ensures
        opt_view(r) == url_parsed(text@),
{
    url::Url::parse(text).ok().map(String::from)
}

/// The address of a type's documentation on the public registry.
pub open spec fn registry_address(p: ProviderAddress, kind: Seq<char>, ty: Seq<char>) -> Seq<char> {
    "https://registry.terraform.io/providers/"@ + p.namespace@ + "/"@ + p.ty@ + "/latest/docs/"@
        + kind + "/"@ + ty
}

pub open spec fn link_for(p: ProviderAddress, kind: Seq<char>, ty: Seq<char>) -> Option<Seq<char>> {
    if p.hostname@ == "registry.terraform.io"@ {
        url_parsed(registry_address(p, kind, ty))
    } else {
        None
    }
}

/// The address of a type's documentation as text.
pub fn registry_text(p: &ProviderAddress, kind: &str, ty: &str) -> (r: String)
    ensures
        r@ == registry_address(*p, kind@, ty@),
{
    let mut s = concat3(
        "https://registry.terraform.io/providers/",
        p.namespace.as_str(),
        "/",
    );
    s.append(p.ty.as_str());
    s.append("/latest/docs/");
    s.append(kind);
    s.append("/");
    s.append(ty);
    s
}

/// A link to a type's documentation; only for providers of the public
/// registry.
pub fn registry_link(p: &ProviderAddress, kind: &str, ty: &str) -> (r: Option<String>)
    ensures
        opt_view(r) == link_for(*p, kind@, ty@),
{
    if !str_eq(p.hostname.as_str(), "registry.terraform.io") {
        return None;
    }
    url_parse(registry_text(p, kind, ty).as_str())
}

/// The address of a provider that has a resource, or a data source.
pub open spec fn provider_with(ty: Seq<char>, data: bool) -> spec_fn(SchemaEntry) -> Option<
    ProviderAddress,
> {
    |e: SchemaEntry|
        if (if data {
            lookup(e.schema.data_source_schemas@, ty) is Some
        } else {
            lookup(e.schema.resource_schemas@, ty) is Some
        }) {
            Some(e.address)
        } else {
            None
        }
}

/// The address of the first provider that has a resource, or a data source.
pub fn find_provider_address<'a>(schemas: &'a Vec<SchemaEntry>, ty: &str, data: bool) -> (r: Option<
    &'a ProviderAddress,
>)
    ensures
        match r {
            Some(p) => find_map(schemas@, provider_with(ty@, data)) == Some(*p),
            None => find_map(schemas@, provider_with(ty@, data)) is None,
        },
{
    let ghost f = provider_with(ty@, data);
    proof {
        lemma_take_full(schemas@);
    }
    for i in 0..schemas.len()
        invariant
            f == provider_with(ty@, data),
            find_map(schemas@, f) == find_map(schemas@.skip(i as int), f),
    {
        proof {
            lemma_find_map_step(schemas@, f, i as int);
        }
        let has = if data {
            find_entry(&schemas[i].schema.data_source_schemas, ty).is_some()
        } else {
            find_entry(&schemas[i].schema.resource_schemas, ty).is_some()
        };
        if has {
            return Some(&schemas[i].address);
        }
    }
    None
}

pub open spec fn kind_path(data: bool) -> Seq<char> {
    if data {
        "data-sources"@
    } else {
        "resources"@
    }
}

/// The link over a block whose documentation has the given address.
pub open spec fn link_at(range: Range, ty: Seq<char>, target: Option<Seq<char>>) -> Option<LinkV> {
    match target {
        Some(target) => Some(
            LinkV {
                range,
                target,
                tooltip: "Open `"@ + ty + "` docs on registry.terraform.io"@,
            },
        ),
        None => None,
    }
}

pub open spec fn opt_link(l: Option<DocumentLink>) -> Option<LinkV> {
    match l {
        Some(l) => Some(l@),
        None => None,
    }
}

/// The link over a block.
pub fn make_link(range: Range, ty: &str, target: Option<String>) -> (r: Option<DocumentLink>)
    ensures
        opt_link(r) == link_at(range, ty@, opt_view(target)),
{
    match target {
        Some(target) => Some(
            DocumentLink {
                range,
                target,
                tooltip: concat3("Open `", ty, "` docs on registry.terraform.io"),
            },
        ),
        None => None,
    }
}

/// The link of a block, where its provider is known and on the registry.
pub open spec fn block_link(schemas: Seq<SchemaEntry>, data: bool) -> spec_fn(
    ResourceSymbol,
) -> Option<LinkV> {
    |s: ResourceSymbol|
        match find_map(schemas, provider_with(s.resource_type@, data)) {
            Some(p) => link_at(
                s.location.range,
                s.resource_type@,
                link_for(p, kind_path(data), s.resource_type@),
            ),
            None => None,
        }
}

fn push_links(
    out: &mut Vec<DocumentLink>,
    schemas: &Vec<SchemaEntry>,
    v: &Vec<ResourceSymbol>,
    data: bool,
)
    ensures
        links_view(final(out)@) == links_view(old(out)@) + filter_map(
            v@,
            block_link(schemas@, data),
        ),
{
    let ghost f = block_link(schemas@, data);
    let ghost start = links_view(out@);
    proof {
        lemma_take_full(v@);
    }
    assert(links_view(out@) =~= start + filter_map(v@.take(0), f));
    for i in 0..v.len()
        invariant
            f == block_link(schemas@, data),
            links_view(out@) == start + filter_map(v@.take(i as int), f),
    {
        proof {
            lemma_filter_map_step(v@, f, i as int);
        }
        let ghost before = links_view(out@);
        let ty = v[i].resource_type.as_str();
        if let Some(p) = find_provider_address(schemas, ty, data) {
            let kind = if data {
                "data-sources"
            } else {
                "resources"
            };
            if let Some(link) = make_link(v[i].location.range, ty, registry_link(p, kind, ty)) {
                out.push(link);
                assert(links_view(out@) =~= before.push(link@));
            }
        }
        assert(links_view(out@) =~= start + filter_map(v@.take(i + 1), f));
    }
}

/// The links of a document, `None` where there are none.
pub open spec fn document_links(state: StateStore, uri: DocUri) -> Option<Seq<LinkV>> {
    match find_map(state.documents@, primary_doc(uri)) {
        Some(doc) => {
            let all = filter_map(doc.symbols.resources@, block_link(state.schemas@, false))
                + filter_map(doc.symbols.data_sources@, block_link(state.schemas@, true));
            if all.len() == 0 {
                None
            } else {
                Some(all)
            }
        },
        None => None,
    }
}

pub open spec fn opt_links(v: Option<Vec<DocumentLink>>) -> Option<Seq<LinkV>> {
    match v {
        Some(v) => Some(links_view(v@)),
        None => None,
    }
}

/// The links of a document.
pub fn document_link(state: &StateStore, uri: &DocUri) -> (r: Option<Vec<DocumentLink>>)
    ensures
        opt_links(r) == document_links(*state, *uri),
{
    let doc = match find_doc(state, uri) {
        Some(d) => d,
        None => {
            return None;
        },
    };
    let mut out: Vec<DocumentLink> = Vec::new();
    assert(links_view(out@) =~= Seq::<LinkV>::empty());
    push_links(&mut out, &state.schemas, &doc.symbols.resources, false);
    push_links(&mut out, &state.schemas, &doc.symbols.data_sources, true);
    assert(links_view(out@) =~= filter_map(
        doc.symbols.resources@,
        block_link(state.schemas@, false),
    ) + filter_map(doc.symbols.data_sources@, block_link(state.schemas@, true)));
    assert(links_view(out@).len() == out@.len());
    if out.len() == 0 {
        None
    } else {
        Some(out)
    }
}

/// Providers of another registry get no link.
pub proof fn private_registries_have_no_links(
    p: ProviderAddress,
    range: Range,
    kind: Seq<char>,
    ty: Seq<char>,
)
    requires
        p.hostname@ != "registry.terraform.io"@,
    ensures
        link_at(range, ty, link_for(p, kind, ty)) is None,
{
}

} // verus!
