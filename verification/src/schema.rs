//! Provider schemas.

use crate::seqs::{find_map, lemma_find_map_step, lemma_take_full};
use crate::text::str_eq;
use vstd::prelude::*;

verus! {

/// A type expression of a schema, as the JSON value that it is written in.
#[derive(Debug)]
pub enum Json {
    Null,
    Bool(bool),
    Number(String),
    Str(String),
    Array(Vec<Json>),
    Object(Vec<(String, Json)>),
}

#[derive(Debug)]
pub struct AttributeSchema {
    pub ty: Option<Json>,
    pub required: bool,
    pub optional: bool,
    pub computed: bool,
    pub sensitive: bool,
    pub deprecated: bool,
    pub description: Option<String>,
    pub conflicts_with: Vec<String>,
    pub required_with: Vec<String>,
    pub exactly_one_of: Vec<String>,
    pub at_least_one_of: Vec<String>,
    /// The values that the attribute may have, where they are known.
    pub allowed_values: Option<Vec<String>>,
    /// An object, or a collection of objects, that a configuration may write in
    /// the form of a block.
    pub block_like: bool,
}

#[derive(Debug, Clone, Copy, PartialEq, Eq, Structural)]
pub enum NestingMode {
    Single,
    ListOf,
    SetOf,
    MapOf,
    Group,
}

#[derive(Debug)]
pub struct NestedBlockSchema {
    pub nesting_mode: NestingMode,
    pub block: BlockSchema,
    pub min_items: u64,
    pub max_items: u64,
}

/// The attributes and nested blocks of a block, no name twice.
#[derive(Debug)]
pub struct BlockSchema {
    pub attributes: Vec<(String, AttributeSchema)>,
    pub block_types: Vec<(String, NestedBlockSchema)>,
    pub description: Option<String>,
    pub deprecated: bool,
}

#[derive(Debug)]
pub struct ResourceSchema {
    pub block: BlockSchema,
}

/// `registry.terraform.io/hashicorp/aws` in its parts.
#[derive(Debug)]
pub struct ProviderAddress {
    pub hostname: String,
    pub namespace: String,
    pub ty: String,
}

#[derive(Debug)]
pub struct ProviderSchema {
    pub provider: ResourceSchema,
    pub resource_schemas: Vec<(String, ResourceSchema)>,
    pub data_source_schemas: Vec<(String, ResourceSchema)>,
}

/// The value of an entry with the given name.
pub open spec fn entry_named<T>(name: Seq<char>) -> spec_fn((String, T)) -> Option<T> {
    |e: (String, T)|
        if e.0@ == name {
            Some(e.1)
        } else {
            None
        }
}

/// The value under a name.
pub open spec fn lookup<T>(m: Seq<(String, T)>, name: Seq<char>) -> Option<T> {
    find_map(m, entry_named(name))
}

/// The value under a name.
pub fn find_entry<'a, T>(m: &'a Vec<(String, T)>, name: &str) -> (r: Option<&'a T>)
    ensures
        match r {
            Some(x) => lookup(m@, name@) == Some(*x),
            None => lookup(m@, name@) is None,
        },
{
    let ghost f = entry_named::<T>(name@);
    proof {
        lemma_take_full(m@);
    }
    for i in 0..m.len()
        invariant
            f == entry_named::<T>(name@),
            lookup(m@, name@) == find_map(m@.skip(i as int), f),
    {
        proof {
            lemma_find_map_step(m@, f, i as int);
        }
        if str_eq(m[i].0.as_str(), name) {
            return Some(&m[i].1);
        }
    }
    None
}

/// A provider and its schema.
#[derive(Debug)]
pub struct SchemaEntry {
    pub address: ProviderAddress,
    pub schema: ProviderSchema,
}

pub open spec fn resource_in(ty: Seq<char>) -> spec_fn(SchemaEntry) -> Option<ResourceSchema> {
    |e: SchemaEntry| lookup(e.schema.resource_schemas@, ty)
}

pub open spec fn data_source_in(ty: Seq<char>) -> spec_fn(SchemaEntry) -> Option<ResourceSchema> {
    |e: SchemaEntry| lookup(e.schema.data_source_schemas@, ty)
}

pub open spec fn provider_in(name: Seq<char>) -> spec_fn(SchemaEntry) -> Option<ResourceSchema> {
    |e: SchemaEntry|
        if e.address.ty@ == name {
            Some(e.schema.provider)
        } else {
            None
        }
}

/// The schema of a resource type, of the first provider that has it.
pub open spec fn resource_schema(schemas: Seq<SchemaEntry>, ty: Seq<char>) -> Option<
    ResourceSchema,
> {
    find_map(schemas, resource_in(ty))
}

pub open spec fn data_source_schema(schemas: Seq<SchemaEntry>, ty: Seq<char>) -> Option<
    ResourceSchema,
> {
    find_map(schemas, data_source_in(ty))
}

pub open spec fn provider_schema(schemas: Seq<SchemaEntry>, name: Seq<char>) -> Option<
    ResourceSchema,
> {
    find_map(schemas, provider_in(name))
}

pub fn find_resource_schema<'a>(schemas: &'a Vec<SchemaEntry>, ty: &str) -> (r: Option<
    &'a ResourceSchema,
>)
    ensures
        match r {
            Some(x) => resource_schema(schemas@, ty@) == Some(*x),
            None => resource_schema(schemas@, ty@) is None,
        },
{
    let ghost f = resource_in(ty@);
    proof {
        lemma_take_full(schemas@);
    }
    for i in 0..schemas.len()
        invariant
            f == resource_in(ty@),
            resource_schema(schemas@, ty@) == find_map(schemas@.skip(i as int), f),
    {
        proof {
            lemma_find_map_step(schemas@, f, i as int);
        }
        if let Some(x) = find_entry(&schemas[i].schema.resource_schemas, ty) {
            return Some(x);
        }
    }
    None
}

pub fn find_data_source_schema<'a>(schemas: &'a Vec<SchemaEntry>, ty: &str) -> (r: Option<
    &'a ResourceSchema,
>)
    ensures
        match r {
            Some(x) => data_source_schema(schemas@, ty@) == Some(*x),
            None => data_source_schema(schemas@, ty@) is None,
        },
{
    let ghost f = data_source_in(ty@);
    proof {
        lemma_take_full(schemas@);
    }
    for i in 0..schemas.len()
        invariant
            f == data_source_in(ty@),
            data_source_schema(schemas@, ty@) == find_map(schemas@.skip(i as int), f),
    {
        proof {
            lemma_find_map_step(schemas@, f, i as int);
        }
        if let Some(x) = find_entry(&schemas[i].schema.data_source_schemas, ty) {
            return Some(x);
        }
    }
    None
}

pub fn find_provider_schema<'a>(schemas: &'a Vec<SchemaEntry>, name: &str) -> (r: Option<
    &'a ResourceSchema,
>)
    ensures
        match r {
            Some(x) => provider_schema(schemas@, name@) == Some(*x),
            None => provider_schema(schemas@, name@) is None,
        },
{
    let ghost f = provider_in(name@);
    proof {
        lemma_take_full(schemas@);
    }
    for i in 0..schemas.len()
        invariant
            f == provider_in(name@),
            provider_schema(schemas@, name@) == find_map(schemas@.skip(i as int), f),
    {
        proof {
            lemma_find_map_step(schemas@, f, i as int);
        }
        if str_eq(schemas[i].address.ty.as_str(), name) {
            return Some(&schemas[i].schema.provider);
        }
    }
    None
}

} // verus!
