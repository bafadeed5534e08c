//! Reading `terraform { required_providers { … } }`.

use crate::hcl::{
    attr_pointees, attributes, block_pointees, blocks_named, key_text, list_attributes,
    list_blocks_named, literal_string, literal_text, object_key_as_str, Attribute, Block, Body,
    ExprKind, ObjectItem,
};
use crate::seqs::{
    find_map, flat_map, lemma_find_map_step, lemma_flat_map_step, lemma_take_full,
};
use crate::text::{opt_view, split, str_eq, str_split, texts};
use vstd::prelude::*;

verus! {

pub open spec fn provider_attributes() -> spec_fn(Block) -> Seq<Attribute> {
    |b: Block| attributes(b.body)
}

pub open spec fn provider_entries_of() -> spec_fn(Block) -> Seq<Attribute> {
    |b: Block| flat_map(blocks_named(b.body, "required_providers"@), provider_attributes())
}

/// The entries of every `required_providers` block of every `terraform` block.
pub open spec fn provider_entries(body: Body) -> Seq<Attribute> {
    flat_map(blocks_named(body, "terraform"@), provider_entries_of())
}

fn append_attrs<'a>(out: &mut Vec<&'a Attribute>, v: Vec<&'a Attribute>)
    ensures
        attr_pointees(final(out)@) == attr_pointees(old(out)@) + attr_pointees(v@),
{
    let mut v = v;
    let ghost w = attr_pointees(v@);
    out.append(&mut v);
    assert(attr_pointees(out@) =~= attr_pointees(old(out)@) + w);
}

/// The entries of every `required_providers` block.
pub fn list_provider_entries(body: &Body) -> (r: Vec<&Attribute>)
    ensures
        attr_pointees(r@) == provider_entries(*body),
{
    let mut out: Vec<&Attribute> = Vec::new();
    let tf = list_blocks_named(body, "terraform");
    let ghost tfs = blocks_named(*body, "terraform"@);
    let ghost f = provider_entries_of();
    let ghost g = provider_attributes();
    proof {
        lemma_take_full(tfs);
    }
    assert(attr_pointees(out@) =~= flat_map(tfs.take(0), f));
    for i in 0..tf.len()
        invariant
            tfs == blocks_named(*body, "terraform"@),
            block_pointees(tf@) == tfs,
            f == provider_entries_of(),
            g == provider_attributes(),
            attr_pointees(out@) == flat_map(tfs.take(i as int), f),
    {
        let ghost start = attr_pointees(out@);
        let rp = list_blocks_named(&tf[i].body, "required_providers");
        let ghost rps = block_pointees(rp@);
        proof {
            assert(tfs[i as int] == *tf@[i as int]);
            lemma_flat_map_step(tfs, f, i as int);
            lemma_take_full(rps);
        }
        assert(attr_pointees(out@) =~= start + flat_map(rps.take(0), g));
        for j in 0..rp.len()
            invariant
                rps == block_pointees(rp@),
                g == provider_attributes(),
                attr_pointees(out@) == start + flat_map(rps.take(j as int), g),
        {
            proof {
                lemma_flat_map_step(rps, g, j as int);
            }
            let attrs = list_attributes(&rp[j].body);
            append_attrs(&mut out, attrs);
            assert(attr_pointees(out@) =~= start + flat_map(rps.take(j + 1), g));
        }
    }
    out
}

// ---------------------------------------------------------------------
// Provider names

/// The provider name in a source address: its last segment.
pub open spec fn source_name(src: Seq<char>) -> Option<Seq<char>> {
    let parts = split(src, '/');
    if parts.len() > 0 && parts.last().len() > 0 {
        Some(parts.last())
    } else {
        None
    }
}

/// The provider name of a `source`, in the short and in the long form.
pub fn parse_source_provider_name(src: &str) -> (r: Option<String>)
    ensures
        opt_view(r) == source_name(src@),
{
    let parts = str_split(src, '/');
    let n: usize = parts.len();
    assert(texts(parts@).len() == n);
    if n == 0 {
        return None;
    }
    assert(texts(parts@).last() == parts@[n - 1]@);
    if parts[n - 1].as_str().is_empty() {
        return None;
    }
    Some(parts[n - 1].clone())
}

/// The literal value of an item with the given key.
pub open spec fn item_literal(key: Seq<char>) -> spec_fn(ObjectItem) -> Option<Seq<char>> {
    |item: ObjectItem|
        if key_text(item.key) == Some(key) {
            literal_text(item.value)
        } else {
            None
        }
}

/// The first literal value under a key of an object.
pub open spec fn object_literal(items: Seq<ObjectItem>, key: Seq<char>) -> Option<Seq<char>> {
    find_map(items, item_literal(key))
}

pub fn find_object_literal(items: &Vec<ObjectItem>, key: &str) -> (r: Option<String>)
    ensures
        opt_view(r) == object_literal(items@, key@),
{
    let ghost f = item_literal(key@);
    proof {
        lemma_take_full(items@);
    }
    for i in 0..items.len()
        invariant
            f == item_literal(key@),
            object_literal(items@, key@) == find_map(items@.skip(i as int), f),
    {
        proof {
            lemma_find_map_step(items@, f, i as int);
        }
        if let Some(k) = object_key_as_str(&items[i].key) {
            if str_eq(k, key) {
                if let Some(s) = literal_string(&items[i].value) {
                    return Some(s);
                }
            }
        }
    }
    None
}

/// The name of the provider that an entry declares: from its source in the
/// long form, else the entry's own name.
pub open spec fn entry_provider(a: Attribute) -> Seq<char> {
    match a.value.kind {
        ExprKind::Object(items) => match object_literal(items@, "source"@) {
            Some(src) => match source_name(src) {
                Some(n) => n,
                None => a.key.text@,
            },
            None => a.key.text@,
        },
        _ => a.key.text@,
    }
}

pub fn entry_provider_name(a: &Attribute) -> (r: String)
    ensures
        r@ == entry_provider(*a),
{
    if let ExprKind::Object(items) = &a.value.kind {
        if let Some(src) = find_object_literal(items, "source") {
            if let Some(n) = parse_source_provider_name(src.as_str()) {
                return n;
            }
        }
    }
    a.key.text.clone()
}

pub open spec fn entry_for(local: Seq<char>) -> spec_fn(Attribute) -> Option<Seq<char>> {
    |a: Attribute|
        if a.key.text@ == local {
            Some(entry_provider(a))
        } else {
            None
        }
}

/// The provider that a local name stands for.
pub open spec fn local_provider(body: Body, local: Seq<char>) -> Option<Seq<char>> {
    find_map(provider_entries(body), entry_for(local))
}

/// The provider name that `required_providers` gives a local name: in the
/// long form the last segment of its source, else the local name itself.
pub fn required_providers_local_to_name_pub(body: &Body, local: &str) -> (r: Option<String>)
    ensures
        opt_view(r) == local_provider(*body, local@),
{
    let entries = list_provider_entries(body);
    let ghost es = provider_entries(*body);
    let ghost f = entry_for(local@);
    proof {
        lemma_take_full(es);
    }
    for i in 0..entries.len()
        invariant
            es == provider_entries(*body),
            attr_pointees(entries@) == es,
            f == entry_for(local@),
            local_provider(*body, local@) == find_map(es.skip(i as int), f),
    {
        proof {
            lemma_find_map_step(es, f, i as int);
            assert(es[i as int] == *entries@[i as int]);
        }
        if str_eq(entries[i].key.text.as_str(), local) {
            return Some(entry_provider_name(entries[i]));
        }
    }
    None
}

// ---------------------------------------------------------------------
// Version constraints

/// The literal value of an attribute with the given key.
pub open spec fn attr_literal(key: Seq<char>) -> spec_fn(Attribute) -> Option<Seq<char>> {
    |a: Attribute|
        if a.key.text@ == key {
            literal_text(a.value)
        } else {
            None
        }
}

pub open spec fn body_literal(body: Body, key: Seq<char>) -> Option<Seq<char>> {
    find_map(attributes(body), attr_literal(key))
}

/// The first literal value of an attribute with the given key.
pub fn find_body_literal(body: &Body, key: &str) -> (r: Option<String>)
    ensures
        opt_view(r) == body_literal(*body, key@),
{
    let attrs = list_attributes(body);
    let ghost es = attributes(*body);
    let ghost f = attr_literal(key@);
    proof {
        lemma_take_full(es);
    }
    for i in 0..attrs.len()
        invariant
            es == attributes(*body),
            attr_pointees(attrs@) == es,
            f == attr_literal(key@),
            body_literal(*body, key@) == find_map(es.skip(i as int), f),
    {
        proof {
            lemma_find_map_step(es, f, i as int);
            assert(es[i as int] == *attrs@[i as int]);
        }
        if str_eq(attrs[i].key.text.as_str(), key) {
            if let Some(s) = literal_string(&attrs[i].value) {
                return Some(s);
            }
        }
    }
    None
}

pub open spec fn block_required_version() -> spec_fn(Block) -> Option<Seq<char>> {
    |b: Block| body_literal(b.body, "required_version"@)
}

/// The `required_version` of a file.
pub open spec fn required_version(body: Body) -> Option<Seq<char>> {
    find_map(blocks_named(body, "terraform"@), block_required_version())
}

pub fn extract_required_version(body: &Body) -> (r: Option<String>)
    ensures
        opt_view(r) == required_version(*body),
{
    let tf = list_blocks_named(body, "terraform");
    let ghost es = blocks_named(*body, "terraform"@);
    let ghost f = block_required_version();
    proof {
        lemma_take_full(es);
    }
    for i in 0..tf.len()
        invariant
            es == blocks_named(*body, "terraform"@),
            block_pointees(tf@) == es,
            f == block_required_version(),
            required_version(*body) == find_map(es.skip(i as int), f),
    {
        proof {
            lemma_find_map_step(es, f, i as int);
            assert(es[i as int] == *tf@[i as int]);
        }
        if let Some(s) = find_body_literal(&tf[i].body, "required_version") {
            return Some(s);
        }
    }
    None
}

/// The version constraint of an entry: the `version` of the long form, or
/// the entry's own string in the short form.
pub open spec fn entry_version(a: Attribute) -> Option<Seq<char>> {
    match a.value.kind {
        ExprKind::Object(items) => object_literal(items@, "version"@),
        _ => literal_text(a.value),
    }
}

pub open spec fn entry_version_for(provider: Seq<char>) -> spec_fn(Attribute) -> Option<
    Seq<char>,
> {
    |a: Attribute|
        if a.key.text@ == provider {
            entry_version(a)
        } else {
            None
        }
}

/// The version constraint that a file puts on a provider.
pub open spec fn required_provider_version(body: Body, provider: Seq<char>) -> Option<Seq<char>> {
    find_map(provider_entries(body), entry_version_for(provider))
}

pub fn extract_required_provider_version(body: &Body, provider: &str) -> (r: Option<String>)
    ensures
        opt_view(r) == required_provider_version(*body, provider@),
{
    let entries = list_provider_entries(body);
    let ghost es = provider_entries(*body);
    let ghost f = entry_version_for(provider@);
    proof {
        lemma_take_full(es);
    }
    for i in 0..entries.len()
        invariant
            es == provider_entries(*body),
            attr_pointees(entries@) == es,
            f == entry_version_for(provider@),
            required_provider_version(*body, provider@) == find_map(es.skip(i as int), f),
    {
        proof {
            lemma_find_map_step(es, f, i as int);
            assert(es[i as int] == *entries@[i as int]);
        }
        if str_eq(entries[i].key.text.as_str(), provider) {
            let v = match &entries[i].value.kind {
                ExprKind::Object(items) => find_object_literal(items, "version"),
                _ => literal_string(&entries[i].value),
            };
            if v.is_some() {
                return v;
            }
        }
    }
    None
}

} // verus!
