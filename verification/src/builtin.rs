//! What the language itself defines: the attributes and blocks of built-in
//! blocks, and the meta-arguments of every block.

use crate::seqs::{find_map, lemma_find_map_step, lemma_take_full};
use crate::text::{str_eq, texts};
use vstd::prelude::*;

verus! {

#[derive(Debug)]
pub struct BuiltinAttr {
    pub name: String,
    pub required: bool,
    pub detail: String,
}

#[derive(Debug)]
pub struct BuiltinBlock {
    pub name: String,
    pub detail: String,
    /// An example of the block's label, where it has one.
    pub label_placeholder: Option<String>,
    /// The attributes that the block must have.
    pub required_attrs: Vec<RequiredAttr>,
}

#[derive(Debug)]
pub struct RequiredAttr {
    pub name: String,
    /// The value is a string.
    pub quoted: bool,
}

#[derive(Debug)]
pub struct BuiltinSchema {
    pub attrs: Vec<BuiltinAttr>,
    pub blocks: Vec<BuiltinBlock>,
}

/// The body that a path of block keywords leads to.
#[derive(Debug)]
pub struct BuiltinEntry {
    pub path: Vec<String>,
    pub schema: BuiltinSchema,
}

/// The tables of the language.
#[derive(Debug)]
pub struct Language {
    /// The bodies of built-in blocks, from the root keyword down.
    pub builtins: Vec<BuiltinEntry>,
    /// The attributes that every provider block may have.
    pub provider_meta: Vec<BuiltinAttr>,
    pub lifecycle_resource: Vec<BuiltinAttr>,
    pub lifecycle_data: Vec<BuiltinAttr>,
    /// The meta-arguments of resources and data sources, and what they do.
    pub meta_attrs: Vec<(String, String)>,
    /// The attributes of `lifecycle` in resources and in data sources at length.
    pub lifecycle_resource_docs: Vec<(String, String)>,
    pub lifecycle_data_docs: Vec<(String, String)>,
    /// The attributes of preconditions and postconditions.
    pub condition_docs: Vec<(String, String)>,
    /// The bodies of the blocks of test files, from the root keyword down.
    pub tests: Vec<BuiltinEntry>,
    /// The bodies of the known backends.
    pub backends: Vec<(String, BuiltinSchema)>,
    /// The attributes of an entry of `required_providers`.
    pub provider_entry: Vec<BuiltinAttr>,
    pub common_providers: Vec<CommonProvider>,
    pub operators: Vec<OperatorEntry>,
    pub resource_meta_blocks: Vec<MetaBlock>,
    pub data_meta_blocks: Vec<MetaBlock>,
    /// The meta-arguments of `dynamic` blocks at length.
    pub dynamic_docs: Vec<(String, String)>,
    pub content_doc: String,
    pub optional_doc: String,
}

/// A provider that is offered by name.
#[derive(Debug)]
pub struct CommonProvider {
    pub local_name: String,
    /// `namespace/name`.
    pub source: String,
    pub hint: String,
}

#[derive(Debug, Clone, Copy, PartialEq, Eq, Structural)]
pub enum ConstraintOp {
    Eq,
    Ne,
    Gt,
    Gte,
    Lt,
    Lte,
    Pessimistic,
}

/// An operator of version constraints.
#[derive(Debug)]
pub struct OperatorEntry {
    pub op: ConstraintOp,
    pub token: String,
    pub short_description: String,
    pub long_description: String,
}

/// A block that every resource, or every data source, may have.
#[derive(Debug)]
pub struct MetaBlock {
    pub name: String,
    pub description: String,
    /// At most one of it may stand in a body.
    pub singleton: bool,
}

pub open spec fn entry_at(path: Seq<Seq<char>>) -> spec_fn(BuiltinEntry) -> Option<BuiltinSchema> {
    |e: BuiltinEntry|
        if texts(e.path@) == path {
            Some(e.schema)
        } else {
            None
        }
}

/// The built-in body at a path of keywords.
pub open spec fn builtin_at(entries: Seq<BuiltinEntry>, path: Seq<Seq<char>>) -> Option<
    BuiltinSchema,
> {
    find_map(entries, entry_at(path))
}

pub open spec fn attr_named(name: Seq<char>) -> spec_fn(BuiltinAttr) -> Option<BuiltinAttr> {
    |a: BuiltinAttr|
        if a.name@ == name {
            Some(a)
        } else {
            None
        }
}

pub open spec fn block_entry(name: Seq<char>) -> spec_fn(BuiltinBlock) -> Option<BuiltinBlock> {
    |b: BuiltinBlock|
        if b.name@ == name {
            Some(b)
        } else {
            None
        }
}

/// The texts are the same, one by one.
pub fn same_texts(a: &Vec<String>, b: &Vec<String>) -> (r: bool)
    ensures
        r == (texts(a@) == texts(b@)),
{
    assert(texts(a@).len() == a@.len() && texts(b@).len() == b@.len());
    if a.len() != b.len() {
        return false;
    }
    for i in 0..a.len()
        invariant
            a@.len() == b@.len(),
            forall|j: int| 0 <= j < i ==> (#[trigger] texts(a@)[j]) == texts(b@)[j],
    {
        if !str_eq(a[i].as_str(), b[i].as_str()) {
            assert(texts(a@)[i as int] != texts(b@)[i as int]);
            return false;
        }
    }
    assert(texts(a@) =~= texts(b@));
    true
}

pub fn find_builtin<'a>(entries: &'a Vec<BuiltinEntry>, path: &Vec<String>) -> (r: Option<
    &'a BuiltinSchema,
>)
    ensures
        match r {
            Some(s) => builtin_at(entries@, texts(path@)) == Some(*s),
            None => builtin_at(entries@, texts(path@)) is None,
        },
{
    let ghost f = entry_at(texts(path@));
    proof {
        lemma_take_full(entries@);
    }
    for i in 0..entries.len()
        invariant
            f == entry_at(texts(path@)),
            find_map(entries@, f) == find_map(entries@.skip(i as int), f),
    {
        proof {
            lemma_find_map_step(entries@, f, i as int);
        }
        if same_texts(&entries[i].path, path) {
            return Some(&entries[i].schema);
        }
    }
    None
}

pub fn find_attr<'a>(attrs: &'a Vec<BuiltinAttr>, name: &str) -> (r: Option<&'a BuiltinAttr>)
    ensures
        match r {
            Some(a) => find_map(attrs@, attr_named(name@)) == Some(*a),
            None => find_map(attrs@, attr_named(name@)) is None,
        },
{
    let ghost f = attr_named(name@);
    proof {
        lemma_take_full(attrs@);
    }
    for i in 0..attrs.len()
        invariant
            f == attr_named(name@),
            find_map(attrs@, f) == find_map(attrs@.skip(i as int), f),
    {
        proof {
            lemma_find_map_step(attrs@, f, i as int);
        }
        if str_eq(attrs[i].name.as_str(), name) {
            return Some(&attrs[i]);
        }
    }
    None
}

pub fn find_block<'a>(blocks: &'a Vec<BuiltinBlock>, name: &str) -> (r: Option<&'a BuiltinBlock>)
    ensures
        match r {
            Some(b) => find_map(blocks@, block_entry(name@)) == Some(*b),
            None => find_map(blocks@, block_entry(name@)) is None,
        },
{
    let ghost f = block_entry(name@);
    proof {
        lemma_take_full(blocks@);
    }
    for i in 0..blocks.len()
        invariant
            f == block_entry(name@),
            find_map(blocks@, f) == find_map(blocks@.skip(i as int), f),
    {
        proof {
            lemma_find_map_step(blocks@, f, i as int);
        }
        if str_eq(blocks[i].name.as_str(), name) {
            return Some(&blocks[i]);
        }
    }
    None
}

} // verus!
