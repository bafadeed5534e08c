//! What completion knows of the shapes of values, and of the block around the
//! cursor.

use crate::completion_cursor::{address_at, content_path_from, nested_path_from};
use crate::completion_item::{lemma_sorted_contains, ItemV, SortBy};
use crate::completion_shapes::{
    behind_bracket, combined, declared_type, doc_shapes, each_source, element_field_item,
    element_offers, element_shape, element_shapes, key_end, key_item, key_offers, key_range,
    root_shapes, shape_at, shape_behind, step_shape, table_shapes, typed_field_item,
    variable_fields, MergedShapes, PathStep, RefV,
};
use crate::hcl::{blocks, Block, Body, Structure};
use crate::laws::hover::{is_named, lemma_named};
use crate::laws::modules::covers;
use crate::position::Position;
use crate::seqs::{each, lemma_filter_map_contains, lemma_find_map_at};
use crate::state::{AddressShape, DocUri, DocumentState, StateStore, SymbolTable};
use crate::text::opt_view;
use crate::variable_type::{InferredType, VariableType};
use vstd::prelude::*;

verus! {

// ---------------------------------------------------------------------
// Shapes of roots

/// The shape of an address: the first entry with the type and the name.
pub open spec fn is_shape_at(v: Seq<AddressShape>, ty: Seq<char>, name: Seq<char>, i: int) -> bool {
    &&& 0 <= i < v.len() && v[i].resource_type@ == ty && v[i].name@ == name
    &&& forall|j: int|
        0 <= j < i ==> !((#[trigger] v[j]).resource_type@ == ty && v[j].name@ == name)
}

/// A root has the shape that its own table has under its name: a variable that of
/// its type and that of its default, a local its own, and a resource, a data
/// source and a module call that of its `for_each`.
pub proof fn roots_have_the_shapes_of_their_tables(t: SymbolTable, ty: Seq<char>, name: Seq<char>, i: int)
    ensures
        is_named(t.variable_types@, name, i) ==> table_shapes(t, RefV::Variable(name)).contains(
            t.variable_types@[i].1.ty,
        ),
        is_named(t.variable_defaults@, name, i) ==> table_shapes(t, RefV::Variable(name)).contains(
            t.variable_defaults@[i].1.ty,
        ),
        is_named(t.local_shapes@, name, i) ==> table_shapes(t, RefV::Local(name)) == seq![
            t.local_shapes@[i].1,
        ],
        is_shape_at(t.for_each_shapes@, ty, name, i) ==> table_shapes(t, RefV::Resource(ty, name))
            == seq![t.for_each_shapes@[i].shape],
        is_shape_at(t.data_source_for_each_shapes@, ty, name, i) ==> table_shapes(
            t,
            RefV::DataSource(ty, name),
        ) == seq![t.data_source_for_each_shapes@[i].shape],
        is_named(t.module_for_each_shapes@, name, i) ==> table_shapes(t, RefV::Module(name))
            == seq![t.module_for_each_shapes@[i].1],
{
    if is_named(t.variable_types@, name, i) {
        lemma_named(t.variable_types@, name, i);
        let v = table_shapes(t, RefV::Variable(name));
        assert(v[0] == t.variable_types@[i].1.ty);
    }
    if is_named(t.variable_defaults@, name, i) {
        lemma_named(t.variable_defaults@, name, i);
        let v = table_shapes(t, RefV::Variable(name));
        assert(v[v.len() - 1] == t.variable_defaults@[i].1.ty);
    }
    if is_named(t.local_shapes@, name, i) {
        lemma_named(t.local_shapes@, name, i);
    }
    if is_shape_at(t.for_each_shapes@, ty, name, i) {
        lemma_find_map_at(t.for_each_shapes@, shape_at(ty, name), i);
    }
    if is_shape_at(t.data_source_for_each_shapes@, ty, name, i) {
        lemma_find_map_at(t.data_source_for_each_shapes@, shape_at(ty, name), i);
    }
    if is_named(t.module_for_each_shapes@, name, i) {
        lemma_named(t.module_for_each_shapes@, name, i);
    }
}

/// The shapes of a root come from the documents of the module that know one.
pub proof fn shapes_come_from_the_module(
    docs: Seq<DocumentState>,
    dir: Option<Seq<char>>,
    root: RefV,
    g: Seq<VariableType>,
)
    ensures
        root_shapes(docs, dir, root).contains(g) <==> g.len() > 0 && exists|k: int|
            0 <= k < docs.len() && table_shapes((#[trigger] docs[k]).symbols, root) == g && (
            dir is Some ==> docs[k].uri.dir is Some && docs[k].uri.dir->0@ == dir->0),
{
    let f = doc_shapes(dir, root);
    lemma_filter_map_contains(docs, f, g);
    if root_shapes(docs, dir, root).contains(g) {
        let k = choose|k: int| 0 <= k < docs.len() && f(#[trigger] docs[k]) == Some(g);
        assert(table_shapes(docs[k].symbols, root) == g);
    }
    if g.len() > 0 && exists|k: int|
        0 <= k < docs.len() && table_shapes((#[trigger] docs[k]).symbols, root) == g && (
        dir is Some ==> docs[k].uri.dir is Some && docs[k].uri.dir->0@ == dir->0) {
        let k = choose|k: int|
            0 <= k < docs.len() && table_shapes((#[trigger] docs[k]).symbols, root) == g && (
            dir is Some ==> docs[k].uri.dir is Some && docs[k].uri.dir->0@ == dir->0);
        assert(f(docs[k]) == Some(g));
    }
}

/// An element of a map, a list or a set has the element type; those of an object
/// are its fields.
pub proof fn elements_have_the_element_type(t: VariableType, i: int)
    ensures
        t matches VariableType::MapOf(v) ==> element_shapes(t) == seq![*v],
        t matches VariableType::ListOf(v) ==> element_shapes(t) == seq![*v],
        t matches VariableType::SetOf(v) ==> element_shapes(t) == seq![*v],
        t matches VariableType::Object(f) ==> element_shapes(t).len() == f@.len() && (0 <= i
            < f@.len() ==> element_shapes(t)[i] == f@[i].1.ty),
        t is Primitive || t is Any || t is Tuple ==> element_shapes(t).len() == 0,
        element_shapes(t).len() == 0 ==> element_shape(t, None) is None,
        element_shapes(t).len() == 1 ==> element_shape(t, None) == Some(element_shapes(t)[0]),
{
}

/// A step into an object leads to the field of that name, in brackets or behind a
/// dot; into a map, a list or a set only brackets lead.
pub proof fn steps_lead_into_the_shape(t: VariableType, key: String, i: int)
    ensures
        t matches VariableType::Object(f) ==> (is_named(f@, key@, i) ==> step_shape(
            t,
            PathStep::Bracket(key),
        ) == Some(f@[i].1.ty) && step_shape(t, PathStep::Attr(key)) == Some(f@[i].1.ty)),
        t matches VariableType::MapOf(v) ==> step_shape(t, PathStep::Bracket(key)) == Some(*v)
            && step_shape(t, PathStep::Attr(key)) is None,
        t matches VariableType::ListOf(v) ==> step_shape(t, PathStep::Bracket(key)) == Some(*v)
            && step_shape(t, PathStep::Attr(key)) is None,
        t matches VariableType::SetOf(v) ==> step_shape(t, PathStep::Bracket(key)) == Some(*v)
            && step_shape(t, PathStep::Attr(key)) is None,
        t matches VariableType::Tuple(v) ==> step_shape(t, PathStep::Attr(key)) is None,
        t is Primitive || t is Any ==> step_shape(t, PathStep::Bracket(key)) is None && step_shape(
            t,
            PathStep::Attr(key),
        ) is None,
{
    if let VariableType::Object(f) = t {
        if is_named(f@, key@, i) {
            lemma_named(f@, key@, i);
        }
    }
}

/// A path leads where its last step leads from where the others do.
pub proof fn paths_lead_step_by_step(t: VariableType, path: Seq<PathStep>, n: int)
    requires
        0 < n <= path.len(),
    ensures
        shape_behind(t, path, 0) == Some(t),
        shape_behind(t, path, n) == match shape_behind(t, path, n - 1) {
            Some(s) => step_shape(s, path[n - 1]),
            None => None,
        },
{
}

// ---------------------------------------------------------------------
// What is offered

/// Inside brackets the keys of the object are offered that the path leads to,
/// quoted and with the closing bracket, over what is typed.
pub proof fn keys_of_objects_are_offered(
    state: StateStore,
    uri: DocUri,
    root: RefV,
    path: Seq<PathStep>,
    line: Seq<char>,
    pos: Position,
    merged: MergedShapes,
    fields: Seq<(String, InferredType)>,
    i: int,
)
    requires
        combined(root_shapes(state.documents@, opt_view(uri.dir), root), merged.root) matches Some(
            t,
        ) && (shape_behind(t, path, path.len() as int) matches Some(VariableType::Object(f)) && f@
            == fields),
        0 <= i < fields.len(),
    ensures
        exists|x: ItemV| #[trigger]
            key_offers(state, uri, root, path, line, pos, merged).contains(x) && x.label
                == fields[i].0@ && (x.text_edit matches Some(e) && e.range == key_range(line, pos)
                && e.new_text == "\""@ + fields[i].0@ + "\"]"@),
        forall|x: ItemV| #[trigger]
            key_offers(state, uri, root, path, line, pos, merged).contains(x) ==> exists|j: int|
                0 <= j < fields.len() && x.label == (#[trigger] fields[j]).0@,
{
    let f = key_item(key_range(line, pos));
    let v = each(fields, f);
    let x = f(fields[i]);
    assert(v[i] == x);
    lemma_sorted_contains(SortBy::Label, v, x);
    assert(key_offers(state, uri, root, path, line, pos, merged).contains(x));
    assert forall|x: ItemV| #[trigger]
        key_offers(state, uri, root, path, line, pos, merged).contains(x) implies exists|j: int|
        0 <= j < fields.len() && x.label == (#[trigger] fields[j]).0@ by {
        lemma_sorted_contains(SortBy::Label, v, x);
        let j = choose|j: int| 0 <= j < v.len() && v[j] == x;
        assert(x.label == fields[j].0@);
    }
}

/// What is replaced starts right behind the last opening bracket before the
/// cursor.
pub proof fn keys_start_behind_the_bracket(s: Seq<char>, k: int, b: int)
    requires
        0 < b <= k <= s.len(),
        s[b - 1] == '[',
        forall|j: int| b <= j < k ==> #[trigger] s[j] != '[',
    ensures
        behind_bracket(s, k) == Some(b),
    decreases k,
{
    if b < k {
        assert(s[k - 1] != '[');
        keys_start_behind_the_bracket(s, k - 1, b);
    }
}

/// It ends with the closing bracket, where one follows the key.
pub proof fn keys_end_with_the_bracket(s: Seq<char>, k: int, e: int)
    requires
        0 <= k <= e <= s.len(),
        forall|j: int|
            k <= j < e ==> {
                let c = #[trigger] s[j];
                'a' <= c <= 'z' || 'A' <= c <= 'Z' || '0' <= c <= '9' || c == '_' || c == '-' || c
                    == '"'
            },
        e < s.len() ==> s[e] == ']' || s[e] == ' ',
    ensures
        key_end(s, k) == if e < s.len() && s[e] == ']' {
            e + 1
        } else {
            e
        },
    decreases e - k,
{
    if k < e {
        assert(s[k] == s[k]);
        keys_end_with_the_bracket(s, k + 1, e);
    }
}

/// The fields of a variable are offered with their types: those of the type that
/// the first document of the module with the variable declares.
pub proof fn fields_of_variables_are_offered(
    state: StateStore,
    uri: DocUri,
    name: Seq<char>,
    k: int,
    v: int,
    i: int,
    fields: Seq<(String, InferredType)>,
)
    requires
        0 <= k < state.documents@.len(),
        uri.dir is Some,
        state.documents@[k].uri.dir is Some,
        state.documents@[k].uri.dir->0@ == uri.dir->0@,
        is_named(state.documents@[k].symbols.variable_types@, name, v),
        state.documents@[k].symbols.variable_types@[v].1.ty matches VariableType::Object(f) && f@
            == fields,
        forall|j: int|
            0 <= j < k ==> declared_type(opt_view(uri.dir), name)(
                #[trigger] state.documents@[j],
            ) is None,
        0 <= i < fields.len(),
    ensures
        exists|x: ItemV| #[trigger]
            variable_fields(state, uri, seq![name]).contains(x) && x.label == fields[i].0@
                && x.insert_text == Some(fields[i].0@) && x.detail == Some(fields[i].1.text@),
{
    let f = declared_type(opt_view(uri.dir), name);
    lemma_named(state.documents@[k].symbols.variable_types@, name, v);
    lemma_find_map_at(state.documents@, f, k);
    let path = seq![name];
    let all = each(fields, typed_field_item());
    let x = all[i];
    lemma_sorted_contains(SortBy::Label, all, x);
    assert(all.contains(x));
    assert(variable_fields(state, uri, path).contains(x));
}

/// The fields of the elements of a root are offered, where the elements are
/// objects.
pub proof fn fields_of_elements_are_offered(
    state: StateStore,
    uri: DocUri,
    root: RefV,
    merged: MergedShapes,
    t: VariableType,
    fields: Seq<(String, InferredType)>,
    i: int,
)
    requires
        combined(root_shapes(state.documents@, opt_view(uri.dir), root), merged.root) == Some(t),
        element_shape(t, merged.element) matches Some(VariableType::Object(f)) && f@ == fields,
        0 <= i < fields.len(),
    ensures
        exists|x: ItemV| #[trigger]
            element_offers(state, uri, root, Seq::empty(), merged).contains(x) && x.label
                == fields[i].0@ && x.insert_text == Some(fields[i].0@),
{
    let all = each(fields, element_field_item());
    let x = all[i];
    lemma_sorted_contains(SortBy::Label, all, x);
    assert(all.contains(x));
    assert(element_offers(state, uri, root, Seq::empty(), merged).contains(x));
}

/// One shape of a root is the shape; several are merged.
pub proof fn single_shapes_are_taken_as_they_are(
    docs: Seq<DocumentState>,
    t: VariableType,
    merged: Option<VariableType>,
)
    ensures
        combined(seq![seq![t]], merged) == Some(t),
        combined(Seq::empty(), merged) is None,
        combined(seq![seq![t], seq![t]], merged) == merged,
        combined(seq![seq![t, t]], merged) == merged,
{
}

// ---------------------------------------------------------------------
// The block around the cursor

/// The first block of the file that covers the offset.
pub open spec fn is_outer(body: Body, offset: int, i: int) -> bool {
    &&& 0 <= i < blocks(body).len()
    &&& covers(blocks(body)[i].span, offset)
    &&& forall|j: int| 0 <= j < i ==> !covers((#[trigger] blocks(body)[j]).span, offset)
}

/// `each` stands for the elements of the resource, the data source or the module
/// call that the cursor is in.
pub proof fn each_stands_for_the_block_around_it(body: Body, offset: int, i: int)
    requires
        is_outer(body, offset, i),
    ensures
        ({
            let b = blocks(body)[i];
            let source = each_source(Some(body), offset);
            &&& b.ident.text@ == "resource"@ && b.labels@.len() > 1 ==> source == Some(
                RefV::Resource(b.labels@[0].text@, b.labels@[1].text@),
            )
            &&& b.ident.text@ == "data"@ && b.labels@.len() > 1 ==> source == Some(
                RefV::DataSource(b.labels@[0].text@, b.labels@[1].text@),
            )
            &&& b.ident.text@ == "module"@ && b.labels@.len() > 0 ==> source == Some(
                RefV::Module(b.labels@[0].text@),
            )
            &&& b.ident.text@ != "resource"@ && b.ident.text@ != "data"@ && b.ident.text@
                != "module"@ ==> source is None
        }),
        each_source(None, offset) is None,
{
    let f = address_at(offset);
    assert forall|j: int| 0 <= j < i implies f(#[trigger] blocks(body)[j]) is None by {
        assert(!covers(blocks(body)[j].span, offset));
    }
    lemma_find_map_at(blocks(body), f, i);
    reveal_strlit("resource");
    reveal_strlit("data");
    reveal_strlit("module");
    assert("resource"@.len() == 8);
    assert("data"@.len() == 4);
    assert("module"@.len() == 6);
}

/// The path of a position in a nested block has the names of the blocks around
/// it, the outer ones first; a `dynamic` block counts by its label.
pub proof fn nested_blocks_make_the_path(body: Body, i: int, k: int, offset: int)
    requires
        0 <= i <= k < body.structures@.len(),
        body.structures@[k] is Block,
        covers((body.structures@[k]->Block_0).span, offset),
        crate::completion_cursor::in_block_body(body.structures@[k]->Block_0, offset),
        forall|j: int|
            i <= j < k ==> ((#[trigger] body.structures@[j]) is Block ==> !covers(
                (body.structures@[j]->Block_0).span,
                offset,
            )),
    ensures
        ({
            let b = body.structures@[k]->Block_0;
            &&& b.ident.text@ != "dynamic"@ ==> nested_path_from(body, i, offset) == seq![
                b.ident.text@,
            ] + nested_path_from(b.body, 0, offset)
            &&& b.ident.text@ == "dynamic"@ && b.labels@.len() > 0 ==> nested_path_from(
                body,
                i,
                offset,
            ) == seq![b.labels@[0].text@] + content_path_from(b.body, 0, offset)
        }),
    decreases k - i,
{
    if i < k {
        match body.structures@[i] {
            Structure::Block(b) => {
                assert(!covers(b.span, offset));
            },
            _ => {},
        }
        nested_blocks_make_the_path(body, i + 1, k, offset);
    }
}

} // verus!
