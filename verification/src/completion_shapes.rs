//! Completion by the shape of a value: the fields of objects, the keys of maps
//! and what `for_each` goes over.

use crate::completion_body::no_items;
use crate::completion_cursor::{enclosing_address, enclosing_addressable_block, opt_body};
use crate::completion_item::{
    insert_item, items_view, plain_item, push_item, sort_items, sorted_items, CompletionItem,
    InsertFormat, ItemKind, ItemV, SortBy,
};
use crate::completion_symbols::{doc_in_dir, doc_within, opt_dir, parent_dir};
use crate::completion_versions::columns;
use crate::hcl::Body;
use crate::position::{
    byte_len, utf16_len, utf16_width, utf8_len, utf8_width, EditV, Position, Range, TextEdit,
};
use crate::schema::{find_entry, lookup};
use crate::seqs::{
    each, filter_map, find_map, lemma_filter_map_step, lemma_find_map_step, lemma_take_full,
};
use crate::state::{AddressShape, DocUri, DocumentState, StateStore, SymbolTable};
use crate::text::{chars_of, concat3, opt_view, str_eq, texts};
use crate::variable_type::{InferredType, VariableType};
use crate::versions::{digits_value, is_digit, lemma_digits_grow, number, unsigned_part};
use vstd::prelude::*;

verus! {

/// What an index expression, or the collection of a `for`, starts with.
#[derive(Debug)]
pub enum IndexRootRef {
    Variable { name: String },
    Local { name: String },
    Resource { resource_type: String, name: String },
    DataSource { resource_type: String, name: String },
    Module { module_name: String },
}

pub enum RefV {
    Variable(Seq<char>),
    Local(Seq<char>),
    Resource(Seq<char>, Seq<char>),
    DataSource(Seq<char>, Seq<char>),
    Module(Seq<char>),
}

impl View for IndexRootRef {
    type V = RefV;

    open spec fn view(&self) -> RefV {
        match *self {
            IndexRootRef::Variable { name } => RefV::Variable(name@),
            IndexRootRef::Local { name } => RefV::Local(name@),
            IndexRootRef::Resource { resource_type, name } => RefV::Resource(
                resource_type@,
                name@,
            ),
            IndexRootRef::DataSource { resource_type, name } => RefV::DataSource(
                resource_type@,
                name@,
            ),
            IndexRootRef::Module { module_name } => RefV::Module(module_name@),
        }
    }
}

/// A step into a value: `["key"]` or `.name`.
#[derive(Debug)]
pub enum PathStep {
    Bracket(String),
    Attr(String),
}

// ---------------------------------------------------------------------
// The shapes of a root

pub open spec fn shape_at(ty: Seq<char>, name: Seq<char>) -> spec_fn(AddressShape) -> Option<
    VariableType,
> {
    |a: AddressShape|
        if a.resource_type@ == ty && a.name@ == name {
            Some(a.shape)
        } else {
            None
        }
}

fn find_shape<'a>(v: &'a Vec<AddressShape>, ty: &str, name: &str) -> (r: Option<&'a VariableType>)
    ensures
        match r {
            Some(t) => find_map(v@, shape_at(ty@, name@)) == Some(*t),
            None => find_map(v@, shape_at(ty@, name@)) is None,
        },
{
    let ghost f = shape_at(ty@, name@);
    proof {
        lemma_take_full(v@);
    }
    for i in 0..v.len()
        invariant
            f == shape_at(ty@, name@),
            find_map(v@, f) == find_map(v@.skip(i as int), f),
    {
        proof {
            lemma_find_map_step(v@, f, i as int);
        }
        if str_eq(v[i].resource_type.as_str(), ty) && str_eq(v[i].name.as_str(), name) {
            return Some(&v[i].shape);
        }
    }
    None
}

pub open spec fn one_shape(t: Option<VariableType>) -> Seq<VariableType> {
    match t {
        Some(t) => seq![t],
        None => Seq::empty(),
    }
}

pub open spec fn inferred_shape(t: Option<InferredType>) -> Seq<VariableType> {
    match t {
        Some(t) => seq![t.ty],
        None => Seq::empty(),
    }
}

/// The shapes that a document knows for a root: of a variable its declared type
/// and that of its default.
pub open spec fn table_shapes(t: SymbolTable, root: RefV) -> Seq<VariableType> {
    match root {
        RefV::Variable(name) => inferred_shape(lookup(t.variable_types@, name)) + inferred_shape(
            lookup(t.variable_defaults@, name),
        ),
        RefV::Local(name) => one_shape(lookup(t.local_shapes@, name)),
        RefV::Resource(ty, name) => one_shape(find_map(t.for_each_shapes@, shape_at(ty, name))),
        RefV::DataSource(ty, name) => one_shape(
            find_map(t.data_source_for_each_shapes@, shape_at(ty, name)),
        ),
        RefV::Module(name) => one_shape(lookup(t.module_for_each_shapes@, name)),
    }
}

pub open spec fn shapes_view(v: Seq<&VariableType>) -> Seq<VariableType> {
    Seq::new(v.len(), |i: int| *v[i])
}

fn push_shape<'a>(out: &mut Vec<&'a VariableType>, t: &'a VariableType)
    ensures
        shapes_view(final(out)@) == shapes_view(old(out)@).push(*t),
{
    out.push(t);
    assert(shapes_view(out@) =~= shapes_view(old(out)@).push(*t));
}

fn list_table_shapes<'a>(t: &'a SymbolTable, root: &IndexRootRef) -> (r: Vec<&'a VariableType>)
    ensures
        shapes_view(r@) == table_shapes(*t, root@),
{
    let mut out: Vec<&'a VariableType> = Vec::new();
    assert(shapes_view(out@) =~= Seq::<VariableType>::empty());
    match root {
        IndexRootRef::Variable { name } => {
            let ghost declared = inferred_shape(lookup(t.variable_types@, name@));
            if let Some(ty) = find_entry(&t.variable_types, name.as_str()) {
                push_shape(&mut out, &ty.ty);
            }
            assert(shapes_view(out@) =~= declared);
            if let Some(ty) = find_entry(&t.variable_defaults, name.as_str()) {
                push_shape(&mut out, &ty.ty);
            }
            assert(shapes_view(out@) =~= declared + inferred_shape(
                lookup(t.variable_defaults@, name@),
            ));
        },
        IndexRootRef::Local { name } => {
            if let Some(ty) = find_entry(&t.local_shapes, name.as_str()) {
                push_shape(&mut out, ty);
            }
        },
        IndexRootRef::Resource { resource_type, name } => {
            if let Some(ty) = find_shape(
                &t.for_each_shapes,
                resource_type.as_str(),
                name.as_str(),
            ) {
                push_shape(&mut out, ty);
            }
        },
        IndexRootRef::DataSource { resource_type, name } => {
            if let Some(ty) = find_shape(
                &t.data_source_for_each_shapes,
                resource_type.as_str(),
                name.as_str(),
            ) {
                push_shape(&mut out, ty);
            }
        },
        IndexRootRef::Module { module_name } => {
            if let Some(ty) = find_entry(&t.module_for_each_shapes, module_name.as_str()) {
                push_shape(&mut out, ty);
            }
        },
    }
    assert(shapes_view(out@) =~= table_shapes(*t, root@));
    out
}

pub open spec fn doc_shapes(dir: Option<Seq<char>>, root: RefV) -> spec_fn(
    DocumentState,
) -> Option<Seq<VariableType>> {
    |d: DocumentState|
        if doc_within(d, dir) && table_shapes(d.symbols, root).len() > 0 {
            Some(table_shapes(d.symbols, root))
        } else {
            None
        }
}

/// The shapes that the documents of a module know for a root, document by
/// document. To be merged: first those of each document, then the results.
pub open spec fn root_shapes(docs: Seq<DocumentState>, dir: Option<Seq<char>>, root: RefV) -> Seq<
    Seq<VariableType>,
> {
    filter_map(docs, doc_shapes(dir, root))
}

pub open spec fn groups_view(v: Seq<Vec<&VariableType>>) -> Seq<Seq<VariableType>> {
    Seq::new(v.len(), |i: int| shapes_view(v[i]@))
}

pub fn shape_for_root<'a>(state: &'a StateStore, uri: &DocUri, root: &IndexRootRef) -> (r: Vec<
    Vec<&'a VariableType>,
>)
    ensures
        groups_view(r@) == root_shapes(state.documents@, opt_view(uri.dir), root@),
{
    let dir = parent_dir(uri);
    let ghost s = state.documents@;
    let ghost f = doc_shapes(opt_view(uri.dir), root@);
    let mut out: Vec<Vec<&'a VariableType>> = Vec::new();
    proof {
        lemma_take_full(s);
    }
    assert(groups_view(out@) =~= filter_map(s.take(0), f));
    for i in 0..state.documents.len()
        invariant
            s == state.documents@,
            opt_dir(dir) == opt_view(uri.dir),
            f == doc_shapes(opt_view(uri.dir), root@),
            groups_view(out@) == filter_map(s.take(i as int), f),
    {
        proof {
            lemma_filter_map_step(s, f, i as int);
        }
        let ghost before = groups_view(out@);
        if doc_in_dir(&state.documents[i], dir) {
            let shapes = list_table_shapes(&state.documents[i].symbols, root);
            assert(shapes_view(shapes@).len() == shapes@.len());
            if shapes.len() > 0 {
                let ghost v = shapes_view(shapes@);
                out.push(shapes);
                assert(groups_view(out@) =~= before.push(v));
            }
        }
    }
    out
}

/// The one shape that several make: of none there is none, one is itself, and
/// `merged` is what merging several of them gave.
pub open spec fn combined(groups: Seq<Seq<VariableType>>, merged: Option<VariableType>) -> Option<
    VariableType,
> {
    if groups.len() == 0 {
        None
    } else if groups.len() == 1 && groups[0].len() == 1 {
        Some(groups[0][0])
    } else {
        merged
    }
}

pub open spec fn opt_shape(t: Option<&VariableType>) -> Option<VariableType> {
    match t {
        Some(t) => Some(*t),
        None => None,
    }
}

pub fn combine<'a>(groups: &Vec<Vec<&'a VariableType>>, merged: Option<&'a VariableType>) -> (r: Option<
    &'a VariableType,
>)
    ensures
        opt_shape(r) == combined(groups_view(groups@), opt_shape(merged)),
{
    assert(groups_view(groups@).len() == groups@.len());
    if groups.len() == 0 {
        return None;
    }
    assert(groups_view(groups@)[0].len() == groups@[0]@.len());
    if groups.len() == 1 && groups[0].len() == 1 {
        assert(groups_view(groups@)[0][0] == *groups@[0]@[0]);
        return Some(groups[0][0]);
    }
    merged
}

pub open spec fn field_shape() -> spec_fn((String, InferredType)) -> VariableType {
    |f: (String, InferredType)| f.1.ty
}

/// The shapes of the elements of a collection: of an object those of all its
/// fields.
pub open spec fn element_shapes(t: VariableType) -> Seq<VariableType> {
    match t {
        VariableType::Object(fields) => each(fields@, field_shape()),
        VariableType::MapOf(v) => seq![*v],
        VariableType::ListOf(v) => seq![*v],
        VariableType::SetOf(v) => seq![*v],
        _ => Seq::empty(),
    }
}

pub fn for_each_element_shape<'a>(collection: &'a VariableType) -> (r: Vec<&'a VariableType>)
    ensures
        shapes_view(r@) == element_shapes(*collection),
{
    let mut out: Vec<&'a VariableType> = Vec::new();
    assert(shapes_view(out@) =~= Seq::<VariableType>::empty());
    match collection {
        VariableType::Object(fields) => {
            let ghost all = each(fields@, field_shape());
            assert(shapes_view(out@) =~= all.take(0));
            for i in 0..fields.len()
                invariant
                    all == each(fields@, field_shape()),
                    shapes_view(out@) == all.take(i as int),
            {
                push_shape(&mut out, &fields[i].1.ty);
                assert(shapes_view(out@) =~= all.take(i + 1));
            }
            assert(all.take(fields@.len() as int) =~= all);
        },
        VariableType::MapOf(v) => {
            push_shape(&mut out, v);
            assert(shapes_view(out@) =~= seq![**v]);
        },
        VariableType::ListOf(v) => {
            push_shape(&mut out, v);
            assert(shapes_view(out@) =~= seq![**v]);
        },
        VariableType::SetOf(v) => {
            push_shape(&mut out, v);
            assert(shapes_view(out@) =~= seq![**v]);
        },
        _ => {},
    }
    out
}

/// The one shape of an element; `merged` is what merging several gave.
pub open spec fn element_shape(t: VariableType, merged: Option<VariableType>) -> Option<
    VariableType,
> {
    let parts = element_shapes(t);
    if parts.len() == 0 {
        None
    } else if parts.len() == 1 {
        Some(parts[0])
    } else {
        merged
    }
}

pub fn combine_elements<'a>(t: &'a VariableType, merged: Option<&'a VariableType>) -> (r: Option<
    &'a VariableType,
>)
    ensures
        opt_shape(r) == element_shape(*t, opt_shape(merged)),
{
    let parts = for_each_element_shape(t);
    assert(shapes_view(parts@).len() == parts@.len());
    if parts.len() == 0 {
        return None;
    }
    if parts.len() == 1 {
        return Some(parts[0]);
    }
    merged
}

// ---------------------------------------------------------------------
// Steps into a shape

/// The item of a tuple that an index names.
pub open spec fn tuple_item(items: Seq<VariableType>, k: Seq<char>) -> Option<VariableType> {
    match number(k, usize::MAX as int) {
        Some(n) => if n < items.len() {
            Some(items[n as int])
        } else {
            None
        },
        None => None,
    }
}

/// The index below `len` that a text is.
fn parse_index(s: &str, len: usize) -> (r: Option<usize>)
    ensures
        match r {
            Some(i) => i < len && number(s@, usize::MAX as int) == Some(i as nat),
            None => match number(s@, usize::MAX as int) {
                Some(n) => n >= len,
                None => true,
            },
        },
{
    let chars = chars_of(s);
    let start: usize = if chars.len() > 0 && chars[0] == '+' {
        1
    } else {
        0
    };
    let ghost d = unsigned_part(s@);
    assert(d =~= s@.skip(start as int));
    if start >= chars.len() {
        return None;
    }
    let mut v: u128 = 0;
    let mut i: usize = start;
    assert(d.take(0) =~= Seq::<char>::empty());
    while i < chars.len()
        invariant
            chars@ == s@,
            start <= i <= chars@.len(),
            start <= 1,
            d == unsigned_part(s@),
            d == s@.skip(start as int),
            d.len() > 0,
            v < len || v == 0,
            v == digits_value(d.take(i - start)),
            forall|j: int| 0 <= j < i - start ==> is_digit(#[trigger] d[j]),
        decreases chars@.len() - i,
    {
        let c = chars[i];
        assert(d[i - start] == c);
        if !(48 <= c as u32 && c as u32 <= 57) {
            assert(!is_digit(d[i - start]));
            return None;
        }
        v = v * 10 + (c as u32 - 48) as u128;
        assert(d.take(i - start + 1).drop_last() =~= d.take(i - start));
        i += 1;
        if v >= len as u128 {
            proof {
                lemma_digits_grow(d, i - start);
            }
            return None;
        }
    }
    assert(d.take(d.len() as int) =~= d);
    if v >= len as u128 {
        return None;
    }
    Some(v as usize)
}

pub open spec fn step_text(step: PathStep) -> Seq<char> {
    match step {
        PathStep::Bracket(k) => k@,
        PathStep::Attr(k) => k@,
    }
}

/// What a step into a shape leads to.
pub open spec fn step_shape(t: VariableType, step: PathStep) -> Option<VariableType> {
    match t {
        VariableType::Object(fields) => match lookup(fields@, step_text(step)) {
            Some(f) => Some(f.ty),
            None => None,
        },
        VariableType::MapOf(v) => if step is Bracket {
            Some(*v)
        } else {
            None
        },
        VariableType::ListOf(v) => if step is Bracket {
            Some(*v)
        } else {
            None
        },
        VariableType::SetOf(v) => if step is Bracket {
            Some(*v)
        } else {
            None
        },
        VariableType::Tuple(items) => if step is Bracket {
            tuple_item(items@, step_text(step))
        } else {
            None
        },
        _ => None,
    }
}

fn take_step<'a>(t: &'a VariableType, step: &PathStep) -> (r: Option<&'a VariableType>)
    ensures
        opt_shape(r) == step_shape(*t, *step),
{
    let (key, bracket) = match step {
        PathStep::Bracket(k) => (k, true),
        PathStep::Attr(k) => (k, false),
    };
    match t {
        VariableType::Object(fields) => match find_entry(fields, key.as_str()) {
            Some(f) => Some(&f.ty),
            None => None,
        },
        VariableType::MapOf(v) => if bracket {
            Some(v)
        } else {
            None
        },
        VariableType::ListOf(v) => if bracket {
            Some(v)
        } else {
            None
        },
        VariableType::SetOf(v) => if bracket {
            Some(v)
        } else {
            None
        },
        VariableType::Tuple(items) => if bracket {
            match parse_index(key.as_str(), items.len()) {
                Some(i) => Some(&items[i]),
                None => None,
            }
        } else {
            None
        },
        _ => None,
    }
}

/// Where the first `n` steps of a path lead.
pub open spec fn shape_behind(t: VariableType, path: Seq<PathStep>, n: int) -> Option<VariableType>
    decreases n,
{
    if n <= 0 {
        Some(t)
    } else {
        match shape_behind(t, path, n - 1) {
            Some(s) => step_shape(s, path[n - 1]),
            None => None,
        }
    }
}

proof fn lemma_no_shape(t: VariableType, path: Seq<PathStep>, n: int, m: int)
    requires
        0 <= n <= m,
        shape_behind(t, path, n) is None,
    ensures
        shape_behind(t, path, m) is None,
    decreases m - n,
{
    if n < m {
        assert(shape_behind(t, path, n + 1) is None);
        lemma_no_shape(t, path, n + 1, m);
    }
}

pub fn walk_shape<'a>(shape: &'a VariableType, path: &Vec<PathStep>) -> (r: Option<
    &'a VariableType,
>)
    ensures
        opt_shape(r) == shape_behind(*shape, path@, path@.len() as int),
{
    let mut current = shape;
    for i in 0..path.len()
        invariant
            Some(*current) == shape_behind(*shape, path@, i as int),
    {
        match take_step(current, &path[i]) {
            Some(t) => {
                current = t;
            },
            None => {
                proof {
                    lemma_no_shape(*shape, path@, i + 1, path@.len() as int);
                }
                return None;
            },
        }
    }
    Some(current)
}

pub open spec fn as_fields(names: Seq<Seq<char>>, t: VariableType, n: int) -> Option<VariableType>
    decreases n,
{
    if n <= 0 {
        Some(t)
    } else {
        match as_fields(names, t, n - 1) {
            Some(VariableType::Object(fields)) => match lookup(fields@, names[n - 1]) {
                Some(f) => Some(f.ty),
                None => None,
            },
            _ => None,
        }
    }
}

proof fn lemma_no_field(names: Seq<Seq<char>>, t: VariableType, n: int, m: int)
    requires
        0 <= n <= m,
        as_fields(names, t, n) is None,
    ensures
        as_fields(names, t, m) is None,
    decreases m - n,
{
    if n < m {
        assert(as_fields(names, t, n + 1) is None);
        lemma_no_field(names, t, n + 1, m);
    }
}

/// The shape behind the fields `names[from..]`.
fn walk_fields<'a>(shape: &'a VariableType, names: &Vec<String>, from: usize) -> (r: Option<
    &'a VariableType,
>)
    requires
        from <= names@.len(),
    ensures
        opt_shape(r) == as_fields(
            texts(names@).skip(from as int),
            *shape,
            names@.len() - from,
        ),
{
    let mut current = shape;
    let ghost rest = texts(names@).skip(from as int);
    for i in from..names.len()
        invariant
            from <= names@.len(),
            rest == texts(names@).skip(from as int),
            Some(*current) == as_fields(rest, *shape, i - from),
    {
        assert(rest[i - from] == names@[i as int]@);
        let next = match current {
            VariableType::Object(fields) => find_entry(fields, names[i].as_str()),
            _ => None,
        };
        match next {
            Some(f) => {
                current = &f.ty;
            },
            None => {
                proof {
                    lemma_no_field(rest, *shape, i - from + 1, names@.len() - from);
                }
                return None;
            },
        }
    }
    Some(current)
}

// ---------------------------------------------------------------------
// Fields of elements

pub open spec fn element_field_item() -> spec_fn((String, InferredType)) -> ItemV {
    |f: (String, InferredType)|
        insert_item(
            f.0@,
            ItemKind::Field,
            "element field"@,
            f.0@,
            InsertFormat::PlainText,
        )
}

pub open spec fn element_field_items(element: Option<VariableType>, path: Seq<Seq<char>>) -> Seq<
    ItemV,
> {
    match element {
        Some(t) => match as_fields(path, t, path.len() as int) {
            Some(VariableType::Object(fields)) => sorted_items(
                SortBy::Label,
                each(fields@, element_field_item()),
            ),
            _ => Seq::empty(),
        },
        None => Seq::empty(),
    }
}

fn list_element_fields(element: Option<&VariableType>, path: &Vec<String>) -> (r: Vec<
    CompletionItem,
>)
    ensures
        items_view(r@) == element_field_items(opt_shape(element), texts(path@)),
{
    let t = match element {
        Some(t) => t,
        None => {
            return no_items();
        },
    };
    proof {
        lemma_take_full(texts(path@));
        assert(texts(path@).len() == path@.len());
    }
    let found = match walk_fields(t, path, 0) {
        Some(f) => f,
        None => {
            return no_items();
        },
    };
    if let VariableType::Object(fields) = found {
        let ghost all = each(fields@, element_field_item());
        let mut out = no_items();
        assert(items_view(out@) =~= all.take(0));
        for i in 0..fields.len()
            invariant
                all == each(fields@, element_field_item()),
                items_view(out@) == all.take(i as int),
        {
            let name = fields[i].0.as_str();
            let item = CompletionItem::inserting(
                name,
                ItemKind::Field,
                "element field".to_owned(),
                name.to_owned(),
                InsertFormat::PlainText,
            );
            push_item(&mut out, item);
            assert(items_view(out@) =~= all.take(i + 1));
        }
        assert(all.take(fields@.len() as int) =~= all);
        return sort_items(&out, SortBy::Label);
    }
    no_items()
}

/// What merging the shapes of a root, and then those of its elements, gave.
#[derive(Debug)]
pub struct MergedShapes {
    pub root: Option<VariableType>,
    pub element: Option<VariableType>,
}

/// The fields of the elements of a root.
pub open spec fn element_offers(
    state: StateStore,
    uri: DocUri,
    root: RefV,
    path: Seq<Seq<char>>,
    merged: MergedShapes,
) -> Seq<ItemV> {
    match combined(root_shapes(state.documents@, opt_view(uri.dir), root), merged.root) {
        Some(t) => element_field_items(element_shape(t, merged.element), path),
        None => Seq::empty(),
    }
}

pub fn drill_collection_element_fields(
    state: &StateStore,
    uri: &DocUri,
    root: &IndexRootRef,
    path: &Vec<String>,
    merged: &MergedShapes,
) -> (r: Vec<CompletionItem>)
    ensures
        items_view(r@) == element_offers(*state, *uri, root@, texts(path@), *merged),
{
    let groups = shape_for_root(state, uri, root);
    let collection = match combine(&groups, merged.root.as_ref()) {
        Some(t) => t,
        None => {
            return no_items();
        },
    };
    let element = combine_elements(collection, merged.element.as_ref());
    list_element_fields(element, path)
}

pub open spec fn address_root(a: (Seq<char>, Seq<char>, Seq<char>)) -> RefV {
    if a.0 == "resource"@ {
        RefV::Resource(a.1, a.2)
    } else if a.0 == "data"@ {
        RefV::DataSource(a.1, a.2)
    } else {
        RefV::Module(a.1)
    }
}

pub open spec fn each_source(body: Option<Body>, offset: int) -> Option<RefV> {
    match body {
        Some(b) => match enclosing_address(b, offset) {
            Some(a) => Some(address_root(a)),
            None => None,
        },
        None => None,
    }
}

/// The root whose elements `each` stands for: the block that the cursor is in.
pub fn each_root(body: Option<&Body>, offset: usize) -> (r: Option<IndexRootRef>)
    ensures
        match r {
            Some(root) => each_source(opt_body(body), offset as int) == Some(root@),
            None => each_source(opt_body(body), offset as int) is None,
        },
{
    let address = match body {
        Some(b) => enclosing_addressable_block(b, offset),
        None => None,
    };
    match address {
        Some((keyword, ty, name)) => {
            if str_eq(keyword.as_str(), "resource") {
                Some(IndexRootRef::Resource { resource_type: ty, name })
            } else if str_eq(keyword.as_str(), "data") {
                Some(IndexRootRef::DataSource { resource_type: ty, name })
            } else {
                Some(IndexRootRef::Module { module_name: ty })
            }
        },
        None => None,
    }
}

/// The fields of what `each.value` stands for at the cursor.
pub open spec fn each_offers(
    state: StateStore,
    uri: DocUri,
    body: Option<Body>,
    offset: int,
    path: Seq<Seq<char>>,
    merged: MergedShapes,
) -> Seq<ItemV> {
    match each_source(body, offset) {
        Some(root) => element_offers(state, uri, root, path, merged),
        None => Seq::empty(),
    }
}

pub fn each_attr_items(
    state: &StateStore,
    uri: &DocUri,
    body: Option<&Body>,
    offset: usize,
    path: &Vec<String>,
    merged: &MergedShapes,
) -> (r: Vec<CompletionItem>)
    ensures
        items_view(r@) == each_offers(
            *state,
            *uri,
            opt_body(body),
            offset as int,
            texts(path@),
            *merged,
        ),
{
    match each_root(body, offset) {
        Some(root) => {
            drill_collection_element_fields(state, uri, &root, path, merged)
        },
        None => no_items(),
    }
}

// ---------------------------------------------------------------------
// Fields of variables

pub open spec fn declared_type(dir: Option<Seq<char>>, name: Seq<char>) -> spec_fn(
    DocumentState,
) -> Option<VariableType> {
    |d: DocumentState|
        if doc_within(d, dir) {
            match lookup(d.symbols.variable_types@, name) {
                Some(t) => Some(t.ty),
                None => None,
            }
        } else {
            None
        }
}

pub open spec fn typed_field_item() -> spec_fn((String, InferredType)) -> ItemV {
    |f: (String, InferredType)|
        insert_item(f.0@, ItemKind::Field, f.1.text@, f.0@, InsertFormat::PlainText)
}

/// The fields of a variable, or of a field of it: `path` is the variable's name
/// and the names of the fields.
pub open spec fn variable_fields(state: StateStore, uri: DocUri, path: Seq<Seq<char>>) -> Seq<
    ItemV,
> {
    if path.len() == 0 {
        Seq::empty()
    } else {
        match find_map(state.documents@, declared_type(opt_view(uri.dir), path[0])) {
            Some(t) => match as_fields(path.skip(1), t, path.len() - 1) {
                Some(VariableType::Object(fields)) => sorted_items(
                    SortBy::Label,
                    each(fields@, typed_field_item()),
                ),
                _ => Seq::empty(),
            },
            None => Seq::empty(),
        }
    }
}

fn find_declared_type<'a>(state: &'a StateStore, uri: &DocUri, name: &str) -> (r: Option<
    &'a VariableType,
>)
    ensures
        opt_shape(r) == find_map(state.documents@, declared_type(opt_view(uri.dir), name@)),
{
    let dir = parent_dir(uri);
    let ghost s = state.documents@;
    let ghost f = declared_type(opt_view(uri.dir), name@);
    proof {
        lemma_take_full(s);
    }
    for i in 0..state.documents.len()
        invariant
            s == state.documents@,
            opt_dir(dir) == opt_view(uri.dir),
            f == declared_type(opt_view(uri.dir), name@),
            find_map(s, f) == find_map(s.skip(i as int), f),
    {
        proof {
            lemma_find_map_step(s, f, i as int);
        }
        if doc_in_dir(&state.documents[i], dir) {
            if let Some(t) = find_entry(&state.documents[i].symbols.variable_types, name) {
                return Some(&t.ty);
            }
        }
    }
    None
}

pub fn variable_attr_items(state: &StateStore, uri: &DocUri, path: &Vec<String>) -> (r: Vec<
    CompletionItem,
>)
    ensures
        items_view(r@) == variable_fields(*state, *uri, texts(path@)),
{
    assert(texts(path@).len() == path@.len());
    if path.len() == 0 {
        return no_items();
    }
    assert(texts(path@)[0] == path@[0]@);
    let t = match find_declared_type(state, uri, path[0].as_str()) {
        Some(t) => t,
        None => {
            return no_items();
        },
    };
    let found = match walk_fields(t, path, 1) {
        Some(f) => f,
        None => {
            return no_items();
        },
    };
    if let VariableType::Object(fields) = found {
        let ghost all = each(fields@, typed_field_item());
        let mut out = no_items();
        assert(items_view(out@) =~= all.take(0));
        for i in 0..fields.len()
            invariant
                all == each(fields@, typed_field_item()),
                items_view(out@) == all.take(i as int),
        {
            let name = fields[i].0.as_str();
            let item = CompletionItem::inserting(
                name,
                ItemKind::Field,
                fields[i].1.text.clone(),
                name.to_owned(),
                InsertFormat::PlainText,
            );
            push_item(&mut out, item);
            assert(items_view(out@) =~= all.take(i + 1));
        }
        assert(all.take(fields@.len() as int) =~= all);
        return sort_items(&out, SortBy::Label);
    }
    no_items()
}

// ---------------------------------------------------------------------
// Columns

/// The first character at or behind `k` that starts at a UTF-16 column or
/// behind it.
pub open spec fn char_from_utf16(s: Seq<char>, cu: int, k: int) -> int
    decreases s.len() - k,
{
    if 0 <= k < s.len() && utf16_len(s.take(k)) < cu {
        char_from_utf16(s, cu, k + 1)
    } else {
        k
    }
}

/// The first character at or behind `k` that starts at a byte or behind it.
pub open spec fn char_from_byte(s: Seq<char>, byte: int, k: int) -> int
    decreases s.len() - k,
{
    if 0 <= k < s.len() && utf8_len(s.take(k)) < byte {
        char_from_byte(s, byte, k + 1)
    } else {
        k
    }
}

proof fn lemma_utf16_below_utf8(s: Seq<char>)
    ensures
        utf16_len(s) <= utf8_len(s),
        s.len() <= utf16_len(s),
    decreases s.len(),
{
    if s.len() > 0 {
        lemma_utf16_below_utf8(s.drop_last());
    }
}

proof fn lemma_len_grows(s: Seq<char>, a: int, b: int)
    requires
        0 <= a <= b <= s.len(),
    ensures
        utf8_len(s.take(a)) <= utf8_len(s.take(b)),
        utf16_len(s.take(a)) <= utf16_len(s.take(b)),
        a < b ==> utf8_len(s.take(a)) < utf8_len(s.take(b)) && utf16_len(s.take(a)) < utf16_len(
            s.take(b),
        ),
    decreases b - a,
{
    if a < b {
        lemma_len_grows(s, a, b - 1);
        assert(s.take(b).drop_last() =~= s.take(b - 1));
    }
}

fn widths(c: char) -> (r: (usize, usize))
    ensures
        r.0 == utf8_width(c),
        r.1 == utf16_width(c),
{
    let n = c as u32;
    let bytes: usize = if n < 0x80 {
        1
    } else if n < 0x800 {
        2
    } else if n < 0x10000 {
        3
    } else {
        4
    };
    let units: usize = if n < 0x10000 {
        1
    } else {
        2
    };
    (bytes, units)
}

/// The byte offset of a UTF-16 column of a line, the line's length where it is
/// shorter.
pub fn utf16_cu_to_byte(line: &str, cu: usize) -> (r: usize)
    ensures
        r == utf8_len(line@.take(char_from_utf16(line@, cu as int, 0))),
{
    let total = byte_len(line);
    let chars = chars_of(line);
    let ghost s = line@;
    let mut units: usize = 0;
    let mut bytes: usize = 0;
    let mut k: usize = 0;
    proof {
        lemma_take_full(s);
    }
    while k < chars.len() && units < cu
        invariant
            s == line@,
            chars@ == s,
            total == utf8_len(s),
            k <= s.len(),
            units == utf16_len(s.take(k as int)),
            bytes == utf8_len(s.take(k as int)),
            char_from_utf16(s, cu as int, 0) == char_from_utf16(s, cu as int, k as int),
        decreases s.len() - k,
    {
        let (b, u) = widths(chars[k]);
        proof {
            assert(s.take(k + 1).drop_last() =~= s.take(k as int));
            lemma_len_grows(s, k + 1, s.len() as int);
            assert(s.take(s.len() as int) =~= s);
            lemma_utf16_below_utf8(s.take(k + 1));
        }
        bytes += b;
        units += u;
        k += 1;
    }
    bytes
}

/// The UTF-16 column of a byte offset of a line.
pub fn byte_to_utf16_cu(line: &str, byte: usize) -> (r: usize)
    ensures
        r == utf16_len(line@.take(char_from_byte(line@, byte as int, 0))),
{
    let total = byte_len(line);
    let chars = chars_of(line);
    let ghost s = line@;
    let mut units: usize = 0;
    let mut bytes: usize = 0;
    let mut k: usize = 0;
    proof {
        lemma_take_full(s);
    }
    while k < chars.len() && bytes < byte
        invariant
            s == line@,
            chars@ == s,
            total == utf8_len(s),
            k <= s.len(),
            units == utf16_len(s.take(k as int)),
            bytes == utf8_len(s.take(k as int)),
            char_from_byte(s, byte as int, 0) == char_from_byte(s, byte as int, k as int),
        decreases s.len() - k,
    {
        let (b, u) = widths(chars[k]);
        proof {
            assert(s.take(k + 1).drop_last() =~= s.take(k as int));
            lemma_len_grows(s, k + 1, s.len() as int);
            assert(s.take(s.len() as int) =~= s);
            lemma_utf16_below_utf8(s.take(k + 1));
        }
        bytes += b;
        units += u;
        k += 1;
    }
    units
}

proof fn lemma_char_from(s: Seq<char>, k: int, j: int)
    requires
        0 <= j <= k <= s.len(),
    ensures
        char_from_utf16(s, utf16_len(s.take(k)) as int, j) == k,
        char_from_byte(s, utf8_len(s.take(k)) as int, j) == k,
    decreases k - j,
{
    lemma_len_grows(s, j, k);
    if j < k {
        lemma_char_from(s, k, j + 1);
    }
}

/// The column of a character leads back to its byte, and its byte to its
/// column.
pub proof fn columns_and_bytes_round_trip(s: Seq<char>, k: int)
    requires
        0 <= k <= s.len(),
    ensures
        utf8_len(s.take(char_from_utf16(s, utf16_len(s.take(k)) as int, 0))) == utf8_len(
            s.take(k),
        ),
        utf16_len(s.take(char_from_byte(s, utf8_len(s.take(k)) as int, 0))) == utf16_len(
            s.take(k),
        ),
{
    lemma_char_from(s, k, 0);
}

// ---------------------------------------------------------------------
// Keys in brackets

pub open spec fn is_key_char(c: char) -> bool {
    let n = c as u32;
    65 <= n <= 90 || 97 <= n <= 122 || is_digit(c) || c == '_' || c == '-' || c == '"'
}

/// What follows the cursor of a key that is typed in part, with the bracket
/// that closes it.
pub open spec fn key_end(s: Seq<char>, k: int) -> int
    decreases s.len() - k,
{
    if 0 <= k < s.len() {
        if is_key_char(s[k]) {
            key_end(s, k + 1)
        } else if s[k] == ']' {
            k + 1
        } else {
            k
        }
    } else {
        k
    }
}

/// Behind the last opening bracket before `k`.
pub open spec fn behind_bracket(s: Seq<char>, k: int) -> Option<int>
    decreases k,
{
    if k <= 0 || k > s.len() {
        None
    } else if s[k - 1] == '[' {
        Some(k)
    } else {
        behind_bracket(s, k - 1)
    }
}

/// The range that a key replaces: from the last bracket before the cursor to
/// the end of what is typed of the key.
pub open spec fn key_range(s: Seq<char>, pos: Position) -> Range {
    let k = char_from_utf16(s, pos.character as int, 0);
    let start = match behind_bracket(s, k) {
        Some(b) => b,
        None => k,
    };
    Range {
        start: Position {
            line: pos.line,
            character: columns(utf16_len(s.take(start))) as u32,
        },
        end: Position {
            line: pos.line,
            character: columns(utf16_len(s.take(key_end(s, k)))) as u32,
        },
    }
}

fn column_of(line: &str, k: usize) -> (r: u32)
    requires
        k <= line@.len(),
    ensures
        r == columns(utf16_len(line@.take(k as int))),
{
    let b = crate::position::byte_index(line, k);
    proof {
        lemma_char_from(line@, k as int, 0);
    }
    let units = byte_to_utf16_cu(line, b);
    (units as u64 % 0x1_0000_0000u64) as u32
}

pub fn compute_index_replace_range(line: &str, pos: Position) -> (r: Range)
    ensures
        r == key_range(line@, pos),
{
    let chars = chars_of(line);
    let ghost s = line@;
    let cu = pos.character as u128;
    let mut units: u128 = 0;
    let mut k: usize = 0;
    proof {
        lemma_take_full(s);
    }
    while k < chars.len() && units < cu
        invariant
            s == line@,
            chars@ == s,
            cu == pos.character,
            k <= s.len(),
            units == utf16_len(s.take(k as int)),
            units <= 2 * k,
            char_from_utf16(s, cu as int, 0) == char_from_utf16(s, cu as int, k as int),
        decreases s.len() - k,
    {
        assert(s.take(k + 1).drop_last() =~= s.take(k as int));
        units += widths(chars[k]).1 as u128;
        k += 1;
    }
    let mut b: usize = k;
    while b > 0 && chars[b - 1] != '['
        invariant
            chars@ == s,
            b <= k <= s.len(),
            behind_bracket(s, k as int) == behind_bracket(s, b as int),
        decreases b,
    {
        b -= 1;
    }
    let start: usize = if b == 0 {
        k
    } else {
        b
    };
    let mut e: usize = k;
    while e < chars.len() && (is_ascii_key(chars[e]))
        invariant
            chars@ == s,
            k <= e <= s.len(),
            key_end(s, k as int) == key_end(s, e as int),
        decreases s.len() - e,
    {
        e += 1;
    }
    if e < chars.len() && chars[e] == ']' {
        e += 1;
    }
    assert(e == key_end(s, k as int));
    Range {
        start: Position { line: pos.line, character: column_of(line, start) },
        end: Position { line: pos.line, character: column_of(line, e) },
    }
}

fn is_ascii_key(c: char) -> (r: bool)
    ensures
        r == is_key_char(c),
{
    let n = c as u32;
    (65 <= n && n <= 90) || (97 <= n && n <= 122) || (48 <= n && n <= 57) || c == '_' || c == '-'
        || c == '"'
}

pub open spec fn key_item(range: Range) -> spec_fn((String, InferredType)) -> ItemV {
    |f: (String, InferredType)|
        ItemV {
            detail: Some(f.1.text@),
            text_edit: Some(EditV { range, new_text: "\""@ + f.0@ + "\"]"@ }),
            insert_text_format: Some(InsertFormat::PlainText),
            ..plain_item(f.0@, ItemKind::Value)
        }
}

/// The keys of the object that an index expression is on.
pub open spec fn key_offers(
    state: StateStore,
    uri: DocUri,
    root: RefV,
    path: Seq<PathStep>,
    line: Seq<char>,
    pos: Position,
    merged: MergedShapes,
) -> Seq<ItemV> {
    match combined(root_shapes(state.documents@, opt_view(uri.dir), root), merged.root) {
        Some(t) => match shape_behind(t, path, path.len() as int) {
            Some(VariableType::Object(fields)) => sorted_items(
                SortBy::Label,
                each(fields@, key_item(key_range(line, pos))),
            ),
            _ => Seq::empty(),
        },
        None => Seq::empty(),
    }
}

pub fn index_key_items(
    state: &StateStore,
    uri: &DocUri,
    root: &IndexRootRef,
    path: &Vec<PathStep>,
    line: &str,
    pos: Position,
    merged: &MergedShapes,
) -> (r: Vec<CompletionItem>)
    ensures
        items_view(r@) == key_offers(*state, *uri, root@, path@, line@, pos, *merged),
{
    let groups = shape_for_root(state, uri, root);
    let shape = match combine(&groups, merged.root.as_ref()) {
        Some(t) => t,
        None => {
            return no_items();
        },
    };
    let current = match walk_shape(shape, path) {
        Some(t) => t,
        None => {
            return no_items();
        },
    };
    if let VariableType::Object(fields) = current {
        let range = compute_index_replace_range(line, pos);
        let ghost all = each(fields@, key_item(range));
        let mut out = no_items();
        assert(items_view(out@) =~= all.take(0));
        for i in 0..fields.len()
            invariant
                all == each(fields@, key_item(range)),
                items_view(out@) == all.take(i as int),
        {
            let name = fields[i].0.as_str();
            let mut item = CompletionItem::new(name, ItemKind::Value);
            item.detail = Some(fields[i].1.text.clone());
            item.text_edit = Some(TextEdit { range, new_text: concat3("\"", name, "\"]") });
            item.insert_text_format = Some(InsertFormat::PlainText);
            assert(item@ =~= key_item(range)(fields@[i as int]));
            push_item(&mut out, item);
            assert(items_view(out@) =~= all.take(i + 1));
        }
        assert(all.take(fields@.len() as int) =~= all);
        return sort_items(&out, SortBy::Label);
    }
    no_items()
}

} // verus!
