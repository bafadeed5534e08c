//! What the server knows of the workspace: its documents, the symbol indexes,
//! the loaded provider schemas and the known functions.

use crate::hcl::Body;
use crate::position::Range;
use crate::schema::SchemaEntry;
use crate::variable_type::{InferredType, VariableType};
use crate::actions::copy_opt;
use crate::seqs::{find_map, lemma_find_map_step, lemma_take_full};
use crate::text::{opt_view, str_eq};
use ropey::Rope;
use vstd::prelude::*;

verus! {

/// A document's address: the URI itself and what is read off it.
#[derive(Debug)]
pub struct DocUri {
    /// The URI as text.
    pub text: String,
    /// Its path component.
    pub path: String,
    /// The directory of the file it names, where it names one.
    pub dir: Option<String>,
    /// The last component of the file's path.
    pub file_name: Option<String>,
}

#[derive(Debug, Clone, Copy, PartialEq, Eq, Structural)]
pub enum SymbolKind {
    Variable,
    Local,
    Output,
    Module,
    Resource,
    DataSource,
    Provider,
    TerraformBlock,
}

/// What a symbol is called: for a resource or a data source also its type.
#[derive(Debug)]
pub struct SymbolKey {
    pub kind: SymbolKind,
    pub resource_type: Option<String>,
    pub name: String,
}

pub struct KeyV {
    pub kind: SymbolKind,
    pub resource_type: Option<Seq<char>>,
    pub name: Seq<char>,
}

impl View for SymbolKey {
    type V = KeyV;

    open spec fn view(&self) -> KeyV {
        KeyV {
            kind: self.kind,
            resource_type: opt_view(self.resource_type),
            name: self.name@,
        }
    }
}

/// A place in a document.
#[derive(Debug)]
pub struct SymbolLocation {
    pub uri: String,
    /// The directory of the document, where it has one.
    pub dir: Option<String>,
    pub range: Range,
}

pub struct LocationV {
    pub uri: Seq<char>,
    pub dir: Option<Seq<char>>,
    pub range: Range,
}

impl View for SymbolLocation {
    type V = LocationV;

    open spec fn view(&self) -> LocationV {
        LocationV { uri: self.uri@, dir: opt_view(self.dir), range: self.range }
    }
}

pub open spec fn locations_view(v: Seq<SymbolLocation>) -> Seq<LocationV> {
    Seq::new(v.len(), |i: int| v[i]@)
}

/// A declared name, where its block stands and how it is described.
#[derive(Debug)]
pub struct Symbol {
    pub name: String,
    pub location: SymbolLocation,
    pub doc: Option<String>,
}

/// A resource or a data source: its address and where its block stands.
#[derive(Debug)]
pub struct ResourceSymbol {
    pub resource_type: String,
    pub name: String,
    pub location: SymbolLocation,
}

/// What a document declares, no name twice in one table.
#[derive(Debug)]
pub struct SymbolTable {
    pub variables: Vec<Symbol>,
    pub locals: Vec<Symbol>,
    pub outputs: Vec<Symbol>,
    pub modules: Vec<Symbol>,
    pub resources: Vec<ResourceSymbol>,
    pub data_sources: Vec<ResourceSymbol>,
    /// The `source` of each module call.
    pub module_sources: Vec<(String, String)>,
    /// The declared type of a variable.
    pub variable_types: Vec<(String, InferredType)>,
    /// The type that a variable's default has.
    pub variable_defaults: Vec<(String, InferredType)>,
    /// The shape of a local's value.
    pub local_shapes: Vec<(String, VariableType)>,
    /// The shapes of the collections that `for_each` goes over.
    pub for_each_shapes: Vec<AddressShape>,
    pub data_source_for_each_shapes: Vec<AddressShape>,
    pub module_for_each_shapes: Vec<(String, VariableType)>,
}

/// The shape that belongs to a resource or a data source.
#[derive(Debug)]
pub struct AddressShape {
    pub resource_type: String,
    pub name: String,
    pub shape: VariableType,
}

#[derive(Debug)]
pub enum ReferenceKind {
    Variable { name: String },
    Local { name: String },
    Module { name: String },
    Resource { resource_type: String, name: String },
    DataSource { resource_type: String, name: String },
}

#[derive(Debug)]
pub struct Reference {
    pub kind: ReferenceKind,
    pub location: SymbolLocation,
}

/// An open or indexed document.
pub struct DocumentState {
    pub uri: DocUri,
    pub rope: Rope,
    /// The syntax tree, where the text parses.
    pub body: Option<Body>,
    pub version: i32,
    pub symbols: SymbolTable,
    pub references: Vec<Reference>,
    /// What the formatter makes of the text, where it accepts it.
    pub formatted: Option<String>,
    /// The ranges of the strings that are one interpolation and nothing else.
    pub interpolation_ranges: Vec<Range>,
    /// The ranges of the calls of `lookup` with two arguments.
    pub lookup_ranges: Vec<Range>,
    /// The enclosing module admits a CLI that knows `terraform_data`.
    pub supports_terraform_data: bool,
    /// The enclosing module admits a CLI that knows `templatefile()`.
    pub supports_templatefile: bool,
    /// The provider names that calls such as `provider::aws::arn_parse(..)` use.
    pub function_locals: Vec<String>,
}

/// A file that was read from disk because an action may write to it.
#[derive(Debug)]
pub struct DiskFile {
    pub dir: String,
    pub file_name: String,
    pub content: String,
}

/// The type on which all assignments of a variable from outside its module
/// agree.
#[derive(Debug)]
pub struct AssignedType {
    pub dir: String,
    pub name: String,
    pub ty: InferredType,
}

/// The places of a symbol, over all documents.
#[derive(Debug)]
pub struct SymbolIndex {
    pub key: SymbolKey,
    pub locations: Vec<SymbolLocation>,
}

#[derive(Debug)]
pub struct FunctionParameter {
    pub name: String,
    /// How the parameter's type is written.
    pub type_label: String,
    pub description: Option<String>,
}

/// A function: a builtin under its name, or one of a provider under
/// `provider::<namespace>::<provider>::<name>`.
#[derive(Debug)]
pub struct FunctionEntry {
    pub name: String,
    /// The call with its parameters and its result.
    pub label: String,
    pub description: Option<String>,
    pub parameters: Vec<FunctionParameter>,
    pub variadic_parameter: Option<FunctionParameter>,
}

/// Where the source of a module call leads.
#[derive(Debug)]
pub struct ModuleDir {
    /// The directory of the calling document.
    pub dir: String,
    pub label: String,
    pub source: String,
    /// The directory that holds the called module.
    pub child: String,
}

pub struct StateStore {
    /// The documents, no URI twice.
    pub documents: Vec<DocumentState>,
    pub disk: Vec<DiskFile>,
    pub schemas: Vec<SchemaEntry>,
    pub assigned_types: Vec<AssignedType>,
    /// Where each symbol is declared, no symbol twice.
    pub definitions_by_name: Vec<SymbolIndex>,
    /// Where each symbol is used, no symbol twice.
    pub references_by_name: Vec<SymbolIndex>,
    pub functions: Vec<FunctionEntry>,
    pub module_dirs: Vec<ModuleDir>,
}

/// Equality of optional texts.
pub fn same_dir(a: &Option<String>, b: &Option<String>) -> (r: bool)
    ensures
        r == (opt_view(*a) == opt_view(*b)),
{
    match (a, b) {
        (Some(a), Some(b)) => *a == *b,
        (None, None) => true,
        _ => false,
    }
}

/// The document lies in the directory `dir`.
pub open spec fn in_dir(doc: DocumentState, dir: Seq<char>) -> bool {
    opt_view(doc.uri.dir) == Some(dir)
}

pub fn is_in_dir(doc: &DocumentState, dir: &str) -> (r: bool)
    ensures
        r == in_dir(*doc, dir@),
{
    match &doc.uri.dir {
        Some(d) => crate::text::str_eq(d.as_str(), dir),
        None => false,
    }
}

// ---------------------------------------------------------------------
// Keys and places

pub open spec fn name_key(kind: SymbolKind, name: Seq<char>) -> KeyV {
    KeyV { kind, resource_type: None, name }
}

pub open spec fn resource_key(kind: SymbolKind, ty: Seq<char>, name: Seq<char>) -> KeyV {
    KeyV { kind, resource_type: Some(ty), name }
}

impl SymbolKey {
    pub fn new(kind: SymbolKind, name: &str) -> (r: SymbolKey)
        ensures
            r@ == name_key(kind, name@),
    {
        SymbolKey { kind, resource_type: None, name: name.to_owned() }
    }

    pub fn resource(kind: SymbolKind, ty: &str, name: &str) -> (r: SymbolKey)
        ensures
            r@ == resource_key(kind, ty@, name@),
    {
        SymbolKey { kind, resource_type: Some(ty.to_owned()), name: name.to_owned() }
    }

    pub fn duplicate(&self) -> (r: SymbolKey)
        ensures
            r@ == self@,
    {
        SymbolKey {
            kind: self.kind,
            resource_type: copy_opt(&self.resource_type),
            name: self.name.clone(),
        }
    }

    pub fn same(&self, other: &SymbolKey) -> (r: bool)
        ensures
            r == (self@ == other@),
    {
        self.kind == other.kind && same_dir(&self.resource_type, &other.resource_type) && str_eq(
            self.name.as_str(),
            other.name.as_str(),
        )
    }
}

impl SymbolLocation {
    pub fn duplicate(&self) -> (r: SymbolLocation)
        ensures
            r@ == self@,
    {
        SymbolLocation { uri: self.uri.clone(), dir: copy_opt(&self.dir), range: self.range }
    }
}

/// What a reference refers to.
pub open spec fn key_of(kind: ReferenceKind) -> KeyV {
    match kind {
        ReferenceKind::Variable { name } => name_key(SymbolKind::Variable, name@),
        ReferenceKind::Local { name } => name_key(SymbolKind::Local, name@),
        ReferenceKind::Module { name } => name_key(SymbolKind::Module, name@),
        ReferenceKind::Resource { resource_type, name } => resource_key(
            SymbolKind::Resource,
            resource_type@,
            name@,
        ),
        ReferenceKind::DataSource { resource_type, name } => resource_key(
            SymbolKind::DataSource,
            resource_type@,
            name@,
        ),
    }
}

pub fn reference_key(kind: &ReferenceKind) -> (r: SymbolKey)
    ensures
        r@ == key_of(*kind),
{
    match kind {
        ReferenceKind::Variable { name } => SymbolKey::new(SymbolKind::Variable, name.as_str()),
        ReferenceKind::Local { name } => SymbolKey::new(SymbolKind::Local, name.as_str()),
        ReferenceKind::Module { name } => SymbolKey::new(SymbolKind::Module, name.as_str()),
        ReferenceKind::Resource { resource_type, name } => SymbolKey::resource(
            SymbolKind::Resource,
            resource_type.as_str(),
            name.as_str(),
        ),
        ReferenceKind::DataSource { resource_type, name } => SymbolKey::resource(
            SymbolKind::DataSource,
            resource_type.as_str(),
            name.as_str(),
        ),
    }
}

pub open spec fn places_if(key: KeyV) -> spec_fn(SymbolIndex) -> Option<Seq<SymbolLocation>> {
    |e: SymbolIndex|
        if e.key@ == key {
            Some(e.locations@)
        } else {
            None
        }
}

/// The places that an index has for a symbol, none for an unknown one.
pub open spec fn places(index: Seq<SymbolIndex>, key: KeyV) -> Seq<SymbolLocation> {
    match find_map(index, places_if(key)) {
        Some(v) => v,
        None => Seq::empty(),
    }
}

/// The places that an index has for a symbol.
pub fn find_places<'a>(index: &'a Vec<SymbolIndex>, key: &SymbolKey) -> (r: Option<
    &'a Vec<SymbolLocation>,
>)
    ensures
        match r {
            Some(v) => v@ == places(index@, key@),
            None => places(index@, key@) == Seq::<SymbolLocation>::empty(),
        },
{
    let ghost f = places_if(key@);
    proof {
        lemma_take_full(index@);
    }
    for i in 0..index.len()
        invariant
            f == places_if(key@),
            find_map(index@, f) == find_map(index@.skip(i as int), f),
    {
        proof {
            lemma_find_map_step(index@, f, i as int);
        }
        if index[i].key.same(key) {
            return Some(&index[i].locations);
        }
    }
    None
}

// ---------------------------------------------------------------------
// Documents by their URI

pub open spec fn doc_with(uri: Seq<char>) -> spec_fn(DocumentState) -> Option<DocumentState> {
    |d: DocumentState|
        if d.uri.text@ == uri {
            Some(d)
        } else {
            None
        }
}

pub open spec fn primary_doc(primary: DocUri) -> spec_fn(DocumentState) -> Option<DocumentState> {
    doc_with(primary.text@)
}

/// The document with a URI.
pub fn find_document<'a>(state: &'a StateStore, uri: &str) -> (r: Option<&'a DocumentState>)
    ensures
        match r {
            Some(d) => find_map(state.documents@, doc_with(uri@)) == Some(*d),
            None => find_map(state.documents@, doc_with(uri@)) is None,
        },
{
    let ghost f = doc_with(uri@);
    let ghost s = state.documents@;
    proof {
        lemma_take_full(s);
    }
    for i in 0..state.documents.len()
        invariant
            s == state.documents@,
            f == doc_with(uri@),
            find_map(s, f) == find_map(s.skip(i as int), f),
    {
        proof {
            lemma_find_map_step(s, f, i as int);
        }
        if str_eq(state.documents[i].uri.text.as_str(), uri) {
            return Some(&state.documents[i]);
        }
    }
    None
}

pub fn find_doc<'a>(state: &'a StateStore, primary: &DocUri) -> (r: Option<&'a DocumentState>)
    ensures
        match r {
            Some(d) => find_map(state.documents@, primary_doc(*primary)) == Some(*d),
            None => find_map(state.documents@, primary_doc(*primary)) is None,
        },
{
    find_document(state, primary.text.as_str())
}

} // verus!
