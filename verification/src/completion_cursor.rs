//! Where the cursor of a completion request stands in the syntax tree.

use crate::hcl::{
    attr_pointees, attributes, block_label, block_pointees, blocks, label_at, list_attributes,
    list_blocks, Attribute, Block, Body, Structure,
};
use crate::navigation::{span_contains, span_holds};
use crate::null_resource::flatten;
use crate::position::{char_at_byte, rope_byte_to_char, rope_from_str, rope_len_bytes, utf8_len};
use crate::seqs::{each, find_map, lemma_find_map_step, lemma_take_full};
use crate::text::{
    char_is_alphanumeric, chars_of, find_char, is_alphanumeric, slice_find_char, str_eq, texts,
};
use vstd::prelude::*;

verus! {

/// The offset lies between the braces of a block. Where no extent is recorded
/// for the body, that is anywhere in the block.
pub open spec fn in_block_body(b: Block, offset: int) -> bool {
    match b.body.span {
        Some(s) => s.start < offset <= s.end,
        None => span_holds(b.span, offset),
    }
}

pub fn cursor_in_block_body(block: &Block, offset: usize) -> (r: bool)
    ensures
        r == in_block_body(*block, offset as int),
{
    match block.body.span {
        Some(s) => s.start < offset && offset <= s.end,
        None => span_contains(block.span, offset),
    }
}

// ---------------------------------------------------------------------
// The innermost block

pub open spec fn or_block(found: Option<Block>, b: Block) -> Option<Block> {
    match found {
        Some(x) => Some(x),
        None => Some(b),
    }
}

/// The innermost block whose body holds the offset, from structure `i` on. The
/// first block that holds the offset decides; on its header no block does.
pub open spec fn innermost_from(body: Body, i: int, offset: int) -> Option<Block>
    decreases body, body.structures@.len() - i,
{
    if i < 0 || i >= body.structures@.len() {
        None
    } else {
        match body.structures@[i] {
            Structure::Attribute(_) => innermost_from(body, i + 1, offset),
            Structure::Block(b) => if !span_holds(b.span, offset) {
                innermost_from(body, i + 1, offset)
            } else if !in_block_body(b, offset) {
                None
            } else if b.ident.text@ == "dynamic"@ && innermost_content_from(b.body, 0, offset)
                is Some {
                innermost_content_from(b.body, 0, offset)
            } else {
                or_block(innermost_from(b.body, 0, offset), b)
            },
        }
    }
}

/// The innermost block in the first `content` block whose body holds the
/// offset, from structure `i` on.
pub open spec fn innermost_content_from(body: Body, i: int, offset: int) -> Option<Block>
    decreases body, body.structures@.len() - i,
{
    if i < 0 || i >= body.structures@.len() {
        None
    } else {
        match body.structures@[i] {
            Structure::Attribute(_) => innermost_content_from(body, i + 1, offset),
            Structure::Block(b) => if b.ident.text@ == "content"@ && in_block_body(b, offset) {
                or_block(innermost_from(b.body, 0, offset), b)
            } else {
                innermost_content_from(body, i + 1, offset)
            },
        }
    }
}

pub open spec fn opt_block(b: Option<&Block>) -> Option<Block> {
    match b {
        Some(b) => Some(*b),
        None => None,
    }
}

/// The innermost block whose body holds the offset.
pub fn innermost_block_at<'a>(body: &'a Body, offset: usize) -> (r: Option<&'a Block>)
    ensures
        opt_block(r) == innermost_from(*body, 0, offset as int),
    decreases *body, body.structures@.len() + 1,
{
    for i in 0..body.structures.len()
        invariant
            innermost_from(*body, 0, offset as int) == innermost_from(
                *body,
                i as int,
                offset as int,
            ),
    {
        proof {
            assert(decreases_to!(*body => body.structures));
            assert(decreases_to!(body.structures => body.structures@));
            assert(decreases_to!(body.structures@ => body.structures@[i as int]));
        }
        if let Structure::Block(b) = &body.structures[i] {
            if span_contains(b.span, offset) {
                if !cursor_in_block_body(b, offset) {
                    return None;
                }
                if str_eq(b.ident.text.as_str(), "dynamic") {
                    if let Some(x) = innermost_in_content(&b.body, offset) {
                        return Some(x);
                    }
                }
                return match innermost_block_at(&b.body, offset) {
                    Some(x) => Some(x),
                    None => Some(b),
                };
            }
        }
    }
    None
}

fn innermost_in_content<'a>(body: &'a Body, offset: usize) -> (r: Option<&'a Block>)
    ensures
        opt_block(r) == innermost_content_from(*body, 0, offset as int),
    decreases *body, body.structures@.len() + 1,
{
    for i in 0..body.structures.len()
        invariant
            innermost_content_from(*body, 0, offset as int) == innermost_content_from(
                *body,
                i as int,
                offset as int,
            ),
    {
        proof {
            assert(decreases_to!(*body => body.structures));
            assert(decreases_to!(body.structures => body.structures@));
            assert(decreases_to!(body.structures@ => body.structures@[i as int]));
        }
        if let Structure::Block(b) = &body.structures[i] {
            if str_eq(b.ident.text.as_str(), "content") && cursor_in_block_body(b, offset) {
                return match innermost_block_at(&b.body, offset) {
                    Some(x) => Some(x),
                    None => Some(b),
                };
            }
        }
    }
    None
}

/// The innermost block, where the text parses and there is one.
pub open spec fn block_at(body: Option<Body>, offset: int) -> Option<Block> {
    match body {
        Some(b) => innermost_from(b, 0, offset),
        None => None,
    }
}

pub open spec fn opt_body(b: Option<&Body>) -> Option<Body> {
    match b {
        Some(b) => Some(*b),
        None => None,
    }
}

pub open spec fn on_dynamic_body(body: Option<Body>, offset: int) -> bool {
    match block_at(body, offset) {
        Some(b) => b.ident.text@ == "dynamic"@,
        None => false,
    }
}

/// The cursor is in the body of a `dynamic` block, outside its `content`.
pub fn cursor_on_dynamic_body(body: Option<&Body>, offset: usize) -> (r: bool)
    ensures
        r == on_dynamic_body(opt_body(body), offset as int),
{
    match body {
        Some(b) => match innermost_block_at(b, offset) {
            Some(x) => str_eq(x.ident.text.as_str(), "dynamic"),
            None => false,
        },
        None => false,
    }
}

// ---------------------------------------------------------------------
// What the enclosing block holds already

/// The attributes and the nested blocks of the block that the cursor is in, as
/// often as they stand there.
#[derive(Debug)]
pub struct BodyFilter {
    pub present_attrs: Vec<String>,
    pub present_blocks: Vec<String>,
}

#[verifier::ext_equal]
pub struct FilterV {
    pub attrs: Seq<Seq<char>>,
    pub blocks: Seq<Seq<char>>,
}

impl View for BodyFilter {
    type V = FilterV;

    open spec fn view(&self) -> FilterV {
        FilterV { attrs: texts(self.present_attrs@), blocks: texts(self.present_blocks@) }
    }
}

/// How often a name stands in a list.
pub open spec fn occurrences(names: Seq<Seq<char>>, name: Seq<char>) -> nat
    decreases names.len(),
{
    if names.len() == 0 {
        0
    } else {
        occurrences(names.drop_last(), name) + if names.last() == name {
            1nat
        } else {
            0
        }
    }
}

pub proof fn lemma_occurrences(names: Seq<Seq<char>>, name: Seq<char>)
    ensures
        occurrences(names, name) <= names.len(),
        occurrences(names, name) > 0 <==> names.contains(name),
    decreases names.len(),
{
    if names.len() > 0 {
        lemma_occurrences(names.drop_last(), name);
        if names.contains(name) {
            let k = choose|k: int| 0 <= k < names.len() && names[k] == name;
            if k < names.len() - 1 {
                assert(names.drop_last()[k] == name);
            }
        }
        if names.drop_last().contains(name) {
            let k = choose|k: int| 0 <= k < names.len() - 1 && names.drop_last()[k] == name;
            assert(names[k] == name);
        }
        assert(names[names.len() - 1] == names.last());
    }
}

/// Does a name stand in a list?
pub fn is_listed(names: &Vec<String>, name: &str) -> (r: bool)
    ensures
        r == texts(names@).contains(name@),
{
    assert(texts(names@).len() == names@.len());
    for i in 0..names.len()
        invariant
            texts(names@).len() == names@.len(),
            forall|j: int| 0 <= j < i ==> (#[trigger] texts(names@)[j]) != name@,
    {
        assert(texts(names@)[i as int] == names@[i as int]@);
        if str_eq(names[i].as_str(), name) {
            return true;
        }
    }
    false
}

impl BodyFilter {
    pub fn has_attr(&self, name: &str) -> (r: bool)
        ensures
            r == self@.attrs.contains(name@),
    {
        is_listed(&self.present_attrs, name)
    }

    pub fn block_present(&self, name: &str) -> (r: bool)
        ensures
            r == self@.blocks.contains(name@),
    {
        is_listed(&self.present_blocks, name)
    }

    pub fn block_count(&self, name: &str) -> (r: usize)
        ensures
            r == occurrences(self@.blocks, name@),
    {
        let ghost s = self@.blocks;
        let mut n: usize = 0;
        proof {
            lemma_take_full(s);
        }
        for i in 0..self.present_blocks.len()
            invariant
                s == self@.blocks,
                s.len() == self.present_blocks@.len(),
                n == occurrences(s.take(i as int), name@),
                n <= i,
        {
            assert(s.take(i + 1).drop_last() =~= s.take(i as int));
            assert(s.take(i + 1).last() == self.present_blocks@[i as int]@);
            if str_eq(self.present_blocks[i].as_str(), name) {
                n += 1;
            }
        }
        n
    }
}

pub open spec fn attr_key() -> spec_fn(Attribute) -> Seq<char> {
    |a: Attribute| a.key.text@
}

pub open spec fn block_ident() -> spec_fn(Block) -> Seq<char> {
    |b: Block| b.ident.text@
}

pub open spec fn no_filter() -> FilterV {
    FilterV { attrs: Seq::empty(), blocks: Seq::empty() }
}

pub open spec fn body_filter(body: Option<Body>, offset: int) -> FilterV {
    match block_at(body, offset) {
        Some(b) => FilterV {
            attrs: each(attributes(b.body), attr_key()),
            blocks: each(blocks(b.body), block_ident()),
        },
        None => no_filter(),
    }
}

/// The names of the attributes of a body.
pub fn list_keys(body: &Body) -> (r: Vec<String>)
    ensures
        texts(r@) == each(attributes(*body), attr_key()),
{
    let attrs = list_attributes(body);
    let mut out: Vec<String> = Vec::new();
    for i in 0..attrs.len()
        invariant
            attr_pointees(attrs@) == attributes(*body),
            out@.len() == i,
            forall|j: int| 0 <= j < i ==> (#[trigger] out@[j])@ == attributes(*body)[j].key.text@,
    {
        assert(attributes(*body)[i as int] == *attrs@[i as int]);
        out.push(attrs[i].key.text.clone());
    }
    assert(attributes(*body).len() == attrs@.len());
    assert(texts(out@) =~= each(attributes(*body), attr_key()));
    out
}

fn list_idents(body: &Body) -> (r: Vec<String>)
    ensures
        texts(r@) == each(blocks(*body), block_ident()),
{
    let list = list_blocks(body);
    let mut out: Vec<String> = Vec::new();
    for i in 0..list.len()
        invariant
            block_pointees(list@) == blocks(*body),
            out@.len() == i,
            forall|j: int| 0 <= j < i ==> (#[trigger] out@[j])@ == blocks(*body)[j].ident.text@,
    {
        assert(blocks(*body)[i as int] == *list@[i as int]);
        out.push(list[i].ident.text.clone());
    }
    assert(blocks(*body).len() == list@.len());
    assert(texts(out@) =~= each(blocks(*body), block_ident()));
    out
}

/// What the block that the cursor is in holds already.
pub fn compute_body_filter(body: Option<&Body>, offset: usize) -> (r: BodyFilter)
    ensures
        r@ == body_filter(opt_body(body), offset as int),
{
    if let Some(b) = body {
        if let Some(block) = innermost_block_at(b, offset) {
            return BodyFilter {
                present_attrs: list_keys(&block.body),
                present_blocks: list_idents(&block.body),
            };
        }
    }
    let r = BodyFilter { present_attrs: Vec::new(), present_blocks: Vec::new() };
    assert(r@ =~= no_filter());
    r
}

// ---------------------------------------------------------------------
// The path of nested blocks

/// The names of the nested blocks around the offset, outermost first, from
/// structure `i` on. A `dynamic` block counts as the block that its label
/// names; its `content` does not count.
pub open spec fn nested_path_from(body: Body, i: int, offset: int) -> Seq<Seq<char>>
    decreases body, body.structures@.len() - i,
{
    if i < 0 || i >= body.structures@.len() {
        Seq::empty()
    } else {
        match body.structures@[i] {
            Structure::Attribute(_) => nested_path_from(body, i + 1, offset),
            Structure::Block(b) => if !span_holds(b.span, offset) {
                nested_path_from(body, i + 1, offset)
            } else if !in_block_body(b, offset) {
                Seq::empty()
            } else if b.ident.text@ == "dynamic"@ {
                match label_at(b, 0) {
                    Some(label) => seq![label] + content_path_from(b.body, 0, offset),
                    None => Seq::empty(),
                }
            } else {
                seq![b.ident.text@] + nested_path_from(b.body, 0, offset)
            },
        }
    }
}

/// The path inside the first `content` block whose body holds the offset.
pub open spec fn content_path_from(body: Body, i: int, offset: int) -> Seq<Seq<char>>
    decreases body, body.structures@.len() - i,
{
    if i < 0 || i >= body.structures@.len() {
        Seq::empty()
    } else {
        match body.structures@[i] {
            Structure::Attribute(_) => content_path_from(body, i + 1, offset),
            Structure::Block(b) => if b.ident.text@ == "content"@ && in_block_body(b, offset) {
                nested_path_from(b.body, 0, offset)
            } else {
                content_path_from(body, i + 1, offset)
            },
        }
    }
}

fn push_text(path: &mut Vec<String>, x: &str)
    ensures
        texts(final(path)@) == texts(old(path)@).push(x@),
{
    path.push(x.to_owned());
    assert(texts(path@) =~= texts(old(path)@).push(x@));
}

/// Appends the names of the nested blocks around the offset.
pub fn collect_nested_path(body: &Body, offset: usize, path: &mut Vec<String>)
    ensures
        texts(final(path)@) == texts(old(path)@) + nested_path_from(*body, 0, offset as int),
    decreases *body, body.structures@.len() + 1,
{
    let ghost start = texts(path@);
    for i in 0..body.structures.len()
        invariant
            start == texts(old(path)@),
            texts(path@) == start,
            nested_path_from(*body, 0, offset as int) == nested_path_from(
                *body,
                i as int,
                offset as int,
            ),
    {
        proof {
            assert(decreases_to!(*body => body.structures));
            assert(decreases_to!(body.structures => body.structures@));
            assert(decreases_to!(body.structures@ => body.structures@[i as int]));
        }
        if let Structure::Block(b) = &body.structures[i] {
            if span_contains(b.span, offset) {
                if !cursor_in_block_body(b, offset) {
                    assert(texts(path@) =~= start + Seq::<Seq<char>>::empty());
                    return ;
                }
                if str_eq(b.ident.text.as_str(), "dynamic") {
                    if let Some(label) = block_label(b, 0) {
                        push_text(path, label);
                        collect_content_path(&b.body, offset, path);
                        assert(texts(path@) =~= start + (seq![label@] + content_path_from(
                            b.body,
                            0,
                            offset as int,
                        )));
                    } else {
                        assert(texts(path@) =~= start + Seq::<Seq<char>>::empty());
                    }
                    return ;
                }
                push_text(path, b.ident.text.as_str());
                collect_nested_path(&b.body, offset, path);
                assert(texts(path@) =~= start + (seq![b.ident.text@] + nested_path_from(
                    b.body,
                    0,
                    offset as int,
                )));
                return ;
            }
        }
    }
    assert(texts(path@) =~= start + Seq::<Seq<char>>::empty());
}

fn collect_content_path(body: &Body, offset: usize, path: &mut Vec<String>)
    ensures
        texts(final(path)@) == texts(old(path)@) + content_path_from(*body, 0, offset as int),
    decreases *body, body.structures@.len() + 1,
{
    let ghost start = texts(path@);
    for i in 0..body.structures.len()
        invariant
            start == texts(old(path)@),
            texts(path@) == start,
            content_path_from(*body, 0, offset as int) == content_path_from(
                *body,
                i as int,
                offset as int,
            ),
    {
        proof {
            assert(decreases_to!(*body => body.structures));
            assert(decreases_to!(body.structures => body.structures@));
            assert(decreases_to!(body.structures@ => body.structures@[i as int]));
        }
        if let Structure::Block(b) = &body.structures[i] {
            if str_eq(b.ident.text.as_str(), "content") && cursor_in_block_body(b, offset) {
                collect_nested_path(&b.body, offset, path);
                return ;
            }
        }
    }
    assert(texts(path@) =~= start + Seq::<Seq<char>>::empty());
}

pub open spec fn holds_in_body(offset: int) -> spec_fn(Block) -> Option<Block> {
    |b: Block|
        if span_holds(b.span, offset) && in_block_body(b, offset) {
            Some(b)
        } else {
            None
        }
}

/// The first top-level block whose body holds the offset.
pub open spec fn outer_block(body: Body, offset: int) -> Option<Block> {
    find_map(blocks(body), holds_in_body(offset))
}

fn find_outer_block<'a>(body: &'a Body, offset: usize) -> (r: Option<&'a Block>)
    ensures
        opt_block(r) == outer_block(*body, offset as int),
{
    let list = list_blocks(body);
    let ghost s = blocks(*body);
    let ghost f = holds_in_body(offset as int);
    proof {
        lemma_take_full(s);
    }
    for i in 0..list.len()
        invariant
            s == blocks(*body),
            block_pointees(list@) == s,
            f == holds_in_body(offset as int),
            find_map(s, f) == find_map(s.skip(i as int), f),
    {
        proof {
            lemma_find_map_step(s, f, i as int);
            assert(s[i as int] == *list@[i as int]);
        }
        if span_contains(list[i].span, offset) && cursor_in_block_body(list[i], offset) {
            return Some(list[i]);
        }
    }
    None
}

/// The names of the blocks between the top-level block that the offset is in
/// and the innermost one.
pub open spec fn nested_path(body: Body, offset: int) -> Seq<Seq<char>> {
    match outer_block(body, offset) {
        Some(b) => nested_path_from(b.body, 0, offset),
        None => Seq::empty(),
    }
}

pub fn nested_block_path(body: &Body, offset: usize) -> (r: Vec<String>)
    ensures
        texts(r@) == nested_path(*body, offset as int),
{
    let mut path: Vec<String> = Vec::new();
    assert(texts(path@) =~= Seq::<Seq<char>>::empty());
    if let Some(b) = find_outer_block(body, offset) {
        collect_nested_path(&b.body, offset, &mut path);
        assert(texts(path@) =~= nested_path_from(b.body, 0, offset as int));
    }
    path
}

/// The names of the blocks around the offset, the top-level one first.
pub open spec fn block_path(body: Body, offset: int) -> Seq<Seq<char>> {
    match outer_block(body, offset) {
        Some(b) => seq![b.ident.text@] + nested_path_from(b.body, 0, offset),
        None => Seq::empty(),
    }
}

pub fn tftest_block_path(body: &Body, offset: usize) -> (r: Vec<String>)
    ensures
        texts(r@) == block_path(*body, offset as int),
{
    let mut path: Vec<String> = Vec::new();
    assert(texts(path@) =~= Seq::<Seq<char>>::empty());
    if let Some(b) = find_outer_block(body, offset) {
        push_text(&mut path, b.ident.text.as_str());
        assert(texts(path@) =~= seq![b.ident.text@]);
        collect_nested_path(&b.body, offset, &mut path);
    }
    path
}

// ---------------------------------------------------------------------
// The enclosing address

pub open spec fn address_at(offset: int) -> spec_fn(Block) -> Option<
    Option<(Seq<char>, Seq<char>, Seq<char>)>,
> {
    |b: Block|
        if !span_holds(b.span, offset) {
            None
        } else if b.ident.text@ == "resource"@ || b.ident.text@ == "data"@ {
            match (label_at(b, 0), label_at(b, 1)) {
                (Some(ty), Some(name)) => Some(Some((b.ident.text@, ty, name))),
                (Some(ty), None) => Some(Some((b.ident.text@, ty, Seq::empty()))),
                _ => Some(None),
            }
        } else if b.ident.text@ == "module"@ {
            match label_at(b, 0) {
                Some(name) => Some(Some(("module"@, name, Seq::empty()))),
                None => Some(None),
            }
        } else {
            Some(None)
        }
}

/// The resource, data source or module call that the offset is in: its keyword,
/// its type (of a module call its name) and its name. The first top-level block
/// that holds the offset decides.
pub open spec fn enclosing_address(body: Body, offset: int) -> Option<
    (Seq<char>, Seq<char>, Seq<char>),
> {
    flatten(find_map(blocks(body), address_at(offset)))
}

pub open spec fn triple_view(a: Option<(String, String, String)>) -> Option<
    (Seq<char>, Seq<char>, Seq<char>),
> {
    match a {
        Some(a) => Some((a.0@, a.1@, a.2@)),
        None => None,
    }
}

fn block_address(b: &Block) -> (r: Option<(String, String, String)>)
    ensures
        forall|offset: int|
            span_holds(b.span, offset) ==> (#[trigger] address_at(offset))(*b) == Some(
                triple_view(r),
            ),
{
    proof {
        reveal_strlit("");
    }
    assert(""@ =~= Seq::<char>::empty());
    if str_eq(b.ident.text.as_str(), "resource") || str_eq(b.ident.text.as_str(), "data") {
        let ty = match block_label(b, 0) {
            Some(t) => t,
            None => {
                return None;
            },
        };
        let name = match block_label(b, 1) {
            Some(n) => n,
            None => "",
        };
        return Some((b.ident.text.clone(), ty.to_owned(), name.to_owned()));
    }
    if str_eq(b.ident.text.as_str(), "module") {
        return match block_label(b, 0) {
            Some(name) => Some(("module".to_owned(), name.to_owned(), "".to_owned())),
            None => None,
        };
    }
    None
}

pub fn enclosing_addressable_block(body: &Body, offset: usize) -> (r: Option<
    (String, String, String),
>)
    ensures
        triple_view(r) == enclosing_address(*body, offset as int),
{
    let list = list_blocks(body);
    let ghost s = blocks(*body);
    let ghost f = address_at(offset as int);
    proof {
        lemma_take_full(s);
    }
    for i in 0..list.len()
        invariant
            s == blocks(*body),
            block_pointees(list@) == s,
            f == address_at(offset as int),
            find_map(s, f) == find_map(s.skip(i as int), f),
    {
        proof {
            lemma_find_map_step(s, f, i as int);
            assert(s[i as int] == *list@[i as int]);
        }
        if span_contains(list[i].span, offset) {
            return block_address(list[i]);
        }
    }
    None
}

// ---------------------------------------------------------------------
// A closed label

pub open spec fn is_label_char(c: char) -> bool {
    char_is_alphanumeric(c) || c == '_'
}

/// The first character at or behind `i` that a type name cannot have.
pub open spec fn label_end(s: Seq<char>, i: int) -> int
    decreases s.len() - i,
{
    if 0 <= i < s.len() && is_label_char(s[i]) {
        label_end(s, i + 1)
    } else {
        i
    }
}

/// A quote follows the name that `s` starts with, on the same line.
pub open spec fn closes_label(s: Seq<char>) -> bool {
    let line = match find_char(s, '\n', 0) {
        Some(k) => s.take(k),
        None => s,
    };
    let e = label_end(line, 0);
    e < line.len() && line[e] == '"'
}

pub open spec fn label_closed(t: Seq<char>, offset: int) -> bool {
    0 <= offset <= utf8_len(t) && closes_label(t.skip(char_at_byte(t, offset as nat)))
}

/// The cursor is inside a label that a quote closes already.
pub fn label_closed_after(text: &str, offset: usize) -> (r: bool)
    ensures
        r == label_closed(text@, offset as int),
{
    let rope = rope_from_str(text);
    if offset > rope_len_bytes(&rope) {
        return false;
    }
    let from = rope_byte_to_char(&rope, offset);
    let chars = chars_of(text);
    let ghost s = text@.skip(from as int);
    let rest = crate::text::slice_sub(chars.as_slice(), from, chars.len());
    assert(rest@ =~= s);
    let end = match slice_find_char(rest.as_slice(), '\n', 0) {
        Some(k) => k,
        None => rest.len(),
    };
    let line = crate::text::slice_sub(rest.as_slice(), 0, end);
    let ghost l = match find_char(s, '\n', 0) {
        Some(k) => s.take(k),
        None => s,
    };
    assert(line@ =~= l);
    let mut i: usize = 0;
    while i < line.len() && (is_alphanumeric(line[i]) || line[i] == '_')
        invariant
            line@ == l,
            i <= line@.len(),
            label_end(l, 0) == label_end(l, i as int),
        decreases line@.len() - i,
    {
        i += 1;
    }
    i < line.len() && line[i] == '"'
}

// ---------------------------------------------------------------------
// Laws

/// The block that completion filters by is one whose body holds the cursor.
pub proof fn innermost_block_holds_cursor(body: Body, i: int, offset: int)
    ensures
        innermost_from(body, i, offset) is Some ==> in_block_body(
            innermost_from(body, i, offset)->0,
            offset,
        ),
        innermost_content_from(body, i, offset) is Some ==> in_block_body(
            innermost_content_from(body, i, offset)->0,
            offset,
        ),
    decreases body, body.structures@.len() - i,
{
    if 0 <= i < body.structures@.len() {
        innermost_block_holds_cursor(body, i + 1, offset);
        assert(decreases_to!(body => body.structures));
        assert(decreases_to!(body.structures => body.structures@));
        assert(decreases_to!(body.structures@ => body.structures@[i as int]));
        if let Structure::Block(b) = body.structures@[i] {
            innermost_block_holds_cursor(b.body, 0, offset);
        }
    }
}

} // verus!
