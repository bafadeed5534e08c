//! Hovers for attribute keys and for the headers of nested blocks.

use crate::builtin::{
    attr_named, block_entry, builtin_at, find_attr, find_block, find_builtin, BuiltinAttr,
    BuiltinBlock, BuiltinSchema, Language,
};
use crate::hcl::{
    block_label, block_pointees, blocks, label_at, list_blocks, Attribute, Block, Body, Structure,
};
use crate::hover::{opt_hover, Hover, HoverV};
use crate::inlay_hints::{is_opentofu_file, opentofu_path};
use crate::navigation::{span_contains, span_holds};
use crate::order::{sort_texts, text_sort};
use crate::position::{
    hcl_span_to_lsp_range, lsp_position_to_byte_offset, position_offset, rope_text, span_range,
    Position, Span,
};
use crate::schema::{
    data_source_schema, find_data_source_schema, find_entry, find_provider_schema,
    find_resource_schema, lookup, provider_schema, resource_schema, AttributeSchema, BlockSchema,
    NestedBlockSchema, NestingMode, ResourceSchema, SchemaEntry,
};
use crate::seqs::{
    each, filter_map, find_map, lemma_filter_map_step, lemma_find_map_step, lemma_take_full,
};
use crate::state::{DocUri, DocumentState, StateStore};
use crate::text::{
    concat2, concat3, concat5, decimal, join, opt_view, str_eq, str_join, str_trim, texts, trim,
    u64_text,
};
use vstd::prelude::*;

verus! {

// ---------------------------------------------------------------------
// What the cursor is on

/// The kind of the top-level block that an attribute belongs to.
#[derive(Debug, Clone, Copy, PartialEq, Eq, Structural)]
pub enum RootBlockKind {
    Resource,
    DataSource,
    Provider,
    Terraform,
    Variable,
    Output,
    Module,
}

pub open spec fn root_kind(keyword: Seq<char>) -> Option<RootBlockKind> {
    if keyword == "resource"@ {
        Some(RootBlockKind::Resource)
    } else if keyword == "data"@ {
        Some(RootBlockKind::DataSource)
    } else if keyword == "provider"@ {
        Some(RootBlockKind::Provider)
    } else if keyword == "terraform"@ {
        Some(RootBlockKind::Terraform)
    } else if keyword == "variable"@ {
        Some(RootBlockKind::Variable)
    } else if keyword == "output"@ {
        Some(RootBlockKind::Output)
    } else if keyword == "module"@ {
        Some(RootBlockKind::Module)
    } else {
        None
    }
}

fn root_kind_of(keyword: &str) -> (r: Option<RootBlockKind>)
    ensures
        r == root_kind(keyword@),
{
    if str_eq(keyword, "resource") {
        Some(RootBlockKind::Resource)
    } else if str_eq(keyword, "data") {
        Some(RootBlockKind::DataSource)
    } else if str_eq(keyword, "provider") {
        Some(RootBlockKind::Provider)
    } else if str_eq(keyword, "terraform") {
        Some(RootBlockKind::Terraform)
    } else if str_eq(keyword, "variable") {
        Some(RootBlockKind::Variable)
    } else if str_eq(keyword, "output") {
        Some(RootBlockKind::Output)
    } else if str_eq(keyword, "module") {
        Some(RootBlockKind::Module)
    } else {
        None
    }
}

/// The keyword of a root block that the language defines; the others are
/// defined by schemas.
pub open spec fn builtin_keyword(kind: RootBlockKind) -> Option<Seq<char>> {
    match kind {
        RootBlockKind::Terraform => Some("terraform"@),
        RootBlockKind::Variable => Some("variable"@),
        RootBlockKind::Output => Some("output"@),
        RootBlockKind::Module => Some("module"@),
        _ => None,
    }
}

impl RootBlockKind {
    pub fn builtin_root_keyword(self) -> (r: Option<&'static str>)
        ensures
            match r {
                Some(k) => builtin_keyword(self) == Some(k@),
                None => builtin_keyword(self) is None,
            },
    {
        match self {
            RootBlockKind::Terraform => Some("terraform"),
            RootBlockKind::Variable => Some("variable"),
            RootBlockKind::Output => Some("output"),
            RootBlockKind::Module => Some("module"),
            _ => None,
        }
    }
}

#[derive(Debug)]
pub struct AttributeHit {
    pub root_kind: RootBlockKind,
    /// The type of a resource or data source, else the name of the block.
    pub root_type: String,
    /// The nested blocks between the root and the attribute.
    pub nested_path: Vec<String>,
    pub attr_name: String,
    pub key_span: Span,
}

#[derive(Debug)]
pub struct NestedBlockHeaderHit {
    pub root_kind: RootBlockKind,
    pub root_type: String,
    /// The nested blocks between the root and the one under the cursor.
    pub parent_path: Vec<String>,
    pub block_name: String,
    pub ident_span: Span,
}

#[derive(Debug)]
pub enum Hit {
    Attribute(AttributeHit),
    NestedBlockHeader(NestedBlockHeaderHit),
}

/// A root block, the path below it and a name with its place: an attribute, or
/// the header of a nested block.
pub struct HitV {
    pub is_header: bool,
    pub root_kind: RootBlockKind,
    pub root_type: Seq<char>,
    pub path: Seq<Seq<char>>,
    pub name: Seq<char>,
    pub span: Span,
}

impl View for AttributeHit {
    type V = HitV;

    open spec fn view(&self) -> HitV {
        HitV {
            is_header: false,
            root_kind: self.root_kind,
            root_type: self.root_type@,
            path: texts(self.nested_path@),
            name: self.attr_name@,
            span: self.key_span,
        }
    }
}

impl View for NestedBlockHeaderHit {
    type V = HitV;

    open spec fn view(&self) -> HitV {
        HitV {
            is_header: true,
            root_kind: self.root_kind,
            root_type: self.root_type@,
            path: texts(self.parent_path@),
            name: self.block_name@,
            span: self.ident_span,
        }
    }
}

impl View for Hit {
    type V = HitV;

    open spec fn view(&self) -> HitV {
        match self {
            Hit::Attribute(h) => h@,
            Hit::NestedBlockHeader(h) => h@,
        }
    }
}

pub open spec fn opt_hit(h: Option<Hit>) -> Option<HitV> {
    match h {
        Some(h) => Some(h@),
        None => None,
    }
}

/// What a block-level search has found before it reaches a name.
pub struct RootV {
    pub kind: RootBlockKind,
    pub ty: Seq<char>,
}

pub open spec fn attribute_hit(root: RootV, path: Seq<Seq<char>>, a: Attribute) -> HitV {
    HitV {
        is_header: false,
        root_kind: root.kind,
        root_type: root.ty,
        path,
        name: a.key.text@,
        span: a.key.span->0,
    }
}

pub open spec fn header_hit(root: RootV, path: Seq<Seq<char>>, b: Block) -> HitV {
    HitV {
        is_header: true,
        root_kind: root.kind,
        root_type: root.ty,
        path,
        name: b.ident.text@,
        span: b.ident.span->0,
    }
}

/// What the offset is on in a body, from structure `i` on. A `dynamic` block
/// counts as the block that its label names, with its `content` as the body;
/// where one holds the offset the search ends with it.
pub open spec fn scan_from(body: Body, i: int, offset: int, path: Seq<Seq<char>>, root: RootV) -> Option<
    HitV,
>
    decreases body, body.structures@.len() - i,
{
    if i < 0 || i >= body.structures@.len() {
        None
    } else {
        match body.structures@[i] {
            Structure::Attribute(a) => if span_holds(a.key.span, offset) {
                Some(attribute_hit(root, path, a))
            } else {
                scan_from(body, i + 1, offset, path, root)
            },
            Structure::Block(b) => if !span_holds(b.span, offset) {
                scan_from(body, i + 1, offset, path, root)
            } else if span_holds(b.ident.span, offset) {
                Some(header_hit(root, path, b))
            } else if b.ident.text@ == "dynamic"@ {
                match label_at(b, 0) {
                    Some(label) => scan_dynamic_from(b.body, 0, offset, path.push(label), root),
                    None => None,
                }
            } else {
                match scan_from(b.body, 0, offset, path.push(b.ident.text@), root) {
                    Some(h) => Some(h),
                    None => scan_from(body, i + 1, offset, path, root),
                }
            },
        }
    }
}

/// What the offset is on in the body of a `dynamic` block, from structure `i`
/// on: its own attributes, the word `content`, or what stands in `content`.
pub open spec fn scan_dynamic_from(
    body: Body,
    i: int,
    offset: int,
    path: Seq<Seq<char>>,
    root: RootV,
) -> Option<HitV>
    decreases body, body.structures@.len() - i,
{
    if i < 0 || i >= body.structures@.len() {
        None
    } else {
        match body.structures@[i] {
            Structure::Attribute(a) => if span_holds(a.key.span, offset) {
                Some(attribute_hit(root, path, a))
            } else {
                scan_dynamic_from(body, i + 1, offset, path, root)
            },
            Structure::Block(b) => if !span_holds(b.span, offset) || b.ident.text@ != "content"@ {
                scan_dynamic_from(body, i + 1, offset, path, root)
            } else if span_holds(b.ident.span, offset) {
                Some(header_hit(root, path, b))
            } else {
                scan_from(b.body, 0, offset, path, root)
            },
        }
    }
}

fn copy_texts(v: &Vec<String>) -> (r: Vec<String>)
    ensures
        texts(r@) == texts(v@),
{
    let mut out: Vec<String> = Vec::new();
    for i in 0..v.len()
        invariant
            out@.len() == i,
            forall|j: int| 0 <= j < i ==> (#[trigger] out@[j])@ == v@[j]@,
    {
        out.push(v[i].clone());
    }
    assert(texts(out@) =~= texts(v@));
    out
}

fn extended(v: &Vec<String>, x: &str) -> (r: Vec<String>)
    ensures
        texts(r@) == texts(v@).push(x@),
{
    let mut out = copy_texts(v);
    out.push(x.to_owned());
    assert(texts(out@) =~= texts(v@).push(x@));
    out
}

pub open spec fn root_of(kind: RootBlockKind, ty: &str) -> RootV {
    RootV { kind, ty: ty@ }
}

fn hit_attribute(kind: RootBlockKind, ty: &str, path: &Vec<String>, a: &Attribute, span: Span) -> (r:
    Hit)
    requires
        a.key.span == Some(span),
    ensures
        r@ == attribute_hit(root_of(kind, ty), texts(path@), *a),
{
    Hit::Attribute(
        AttributeHit {
            root_kind: kind,
            root_type: ty.to_owned(),
            nested_path: copy_texts(path),
            attr_name: a.key.text.clone(),
            key_span: span,
        },
    )
}

fn hit_header(kind: RootBlockKind, ty: &str, path: &Vec<String>, b: &Block, span: Span) -> (r: Hit)
    requires
        b.ident.span == Some(span),
    ensures
        r@ == header_hit(root_of(kind, ty), texts(path@), *b),
{
    Hit::NestedBlockHeader(
        NestedBlockHeaderHit {
            root_kind: kind,
            root_type: ty.to_owned(),
            parent_path: copy_texts(path),
            block_name: b.ident.text.clone(),
            ident_span: span,
        },
    )
}

fn scan_block(body: &Body, offset: usize, path: &Vec<String>, kind: RootBlockKind, ty: &str) -> (r:
    Option<Hit>)
    ensures
        opt_hit(r) == scan_from(*body, 0, offset as int, texts(path@), root_of(kind, ty)),
    decreases *body, body.structures@.len() + 1,
{
    let ghost root = root_of(kind, ty);
    let ghost p = texts(path@);
    for i in 0..body.structures.len()
        invariant
            root == root_of(kind, ty),
            p == texts(path@),
            scan_from(*body, 0, offset as int, p, root) == scan_from(
                *body,
                i as int,
                offset as int,
                p,
                root,
            ),
    {
        proof {
            assert(decreases_to!(*body => body.structures));
            assert(decreases_to!(body.structures => body.structures@));
            assert(decreases_to!(body.structures@ => body.structures@[i as int]));
        }
        match &body.structures[i] {
            Structure::Attribute(a) => {
                if let Some(span) = a.key.span {
                    if span_contains(Some(span), offset) {
                        return Some(hit_attribute(kind, ty, path, a, span));
                    }
                }
            },
            Structure::Block(b) => {
                if span_contains(b.span, offset) {
                    if let Some(span) = b.ident.span {
                        if span_contains(Some(span), offset) {
                            return Some(hit_header(kind, ty, path, b, span));
                        }
                    }
                    if str_eq(b.ident.text.as_str(), "dynamic") {
                        return match block_label(b, 0) {
                            Some(label) => {
                                let inner = extended(path, label);
                                scan_block_dynamic_body(&b.body, offset, &inner, kind, ty)
                            },
                            None => None,
                        };
                    }
                    let inner = extended(path, b.ident.text.as_str());
                    let hit = scan_block(&b.body, offset, &inner, kind, ty);
                    if hit.is_some() {
                        return hit;
                    }
                }
            },
        }
    }
    None
}

fn scan_block_dynamic_body(
    body: &Body,
    offset: usize,
    path: &Vec<String>,
    kind: RootBlockKind,
    ty: &str,
) -> (r: Option<Hit>)
    ensures
        opt_hit(r) == scan_dynamic_from(*body, 0, offset as int, texts(path@), root_of(kind, ty)),
    decreases *body, body.structures@.len() + 1,
{
    let ghost root = root_of(kind, ty);
    let ghost p = texts(path@);
    for i in 0..body.structures.len()
        invariant
            root == root_of(kind, ty),
            p == texts(path@),
            scan_dynamic_from(*body, 0, offset as int, p, root) == scan_dynamic_from(
                *body,
                i as int,
                offset as int,
                p,
                root,
            ),
    {
        proof {
            assert(decreases_to!(*body => body.structures));
            assert(decreases_to!(body.structures => body.structures@));
            assert(decreases_to!(body.structures@ => body.structures@[i as int]));
        }
        match &body.structures[i] {
            Structure::Attribute(a) => {
                if let Some(span) = a.key.span {
                    if span_contains(Some(span), offset) {
                        return Some(hit_attribute(kind, ty, path, a, span));
                    }
                }
            },
            Structure::Block(b) => {
                if span_contains(b.span, offset) && str_eq(b.ident.text.as_str(), "content") {
                    if let Some(span) = b.ident.span {
                        if span_contains(Some(span), offset) {
                            return Some(hit_header(kind, ty, path, b, span));
                        }
                    }
                    return scan_block(&b.body, offset, path, kind, ty);
                }
            },
        }
    }
    None
}

/// The root of a top-level block: its kind, and its first label.
pub open spec fn block_root(b: Block) -> Option<RootV> {
    match root_kind(b.ident.text@) {
        Some(kind) => if kind == RootBlockKind::Terraform {
            Some(RootV { kind, ty: "terraform"@ })
        } else {
            match label_at(b, 0) {
                Some(ty) => Some(RootV { kind, ty }),
                None => None,
            }
        },
        None => None,
    }
}

pub open spec fn block_hit(offset: int) -> spec_fn(Block) -> Option<HitV> {
    |b: Block|
        match block_root(b) {
            Some(root) => if span_holds(b.span, offset) {
                scan_from(b.body, 0, offset, Seq::empty(), root)
            } else {
                None
            },
            None => None,
        }
}

/// What a position is on: an attribute key or the header of a nested block.
pub open spec fn hit_at(body: Body, t: Seq<char>, pos: Position) -> Option<HitV> {
    match position_offset(t, pos) {
        Some(offset) => find_map(blocks(body), block_hit(offset)),
        None => None,
    }
}

fn hit_in_block(b: &Block, offset: usize) -> (r: Option<Hit>)
    ensures
        opt_hit(r) == block_hit(offset as int)(*b),
{
    let kind = match root_kind_of(b.ident.text.as_str()) {
        Some(k) => k,
        None => {
            return None;
        },
    };
    let ty = if kind == RootBlockKind::Terraform {
        "terraform"
    } else {
        match block_label(b, 0) {
            Some(l) => l,
            None => {
                return None;
            },
        }
    };
    if !span_contains(b.span, offset) {
        return None;
    }
    let path: Vec<String> = Vec::new();
    assert(texts(path@) =~= Seq::<Seq<char>>::empty());
    scan_block(&b.body, offset, &path, kind, ty)
}

pub fn find_hit_at(body: &Body, doc: &DocumentState, pos: Position) -> (r: Option<Hit>)
    ensures
        opt_hit(r) == hit_at(*body, rope_text(doc.rope), pos),
{
    let offset = match lsp_position_to_byte_offset(&doc.rope, pos) {
        Some(o) => o,
        None => {
            return None;
        },
    };
    let list = list_blocks(body);
    let ghost s = blocks(*body);
    let ghost f = block_hit(offset as int);
    proof {
        lemma_take_full(s);
    }
    for i in 0..list.len()
        invariant
            block_pointees(list@) == s,
            s == blocks(*body),
            f == block_hit(offset as int),
            position_offset(rope_text(doc.rope), pos) == Some(offset as int),
            find_map(s, f) == find_map(s.skip(i as int), f),
    {
        proof {
            lemma_find_map_step(s, f, i as int);
            assert(s[i as int] == *list@[i as int]);
        }
        let hit = hit_in_block(list[i], offset);
        if hit.is_some() {
            return hit;
        }
    }
    None
}

// ---------------------------------------------------------------------
// Parts of texts

pub open spec fn code() -> spec_fn(Seq<char>) -> Seq<char> {
    |n: Seq<char>| "`"@ + n + "`"@
}

/// Names as code, with commas between them.
pub open spec fn code_list(names: Seq<Seq<char>>) -> Seq<char> {
    join(each(names, code()), ", "@)
}

fn render_code_list(names: &Vec<String>) -> (r: String)
    ensures
        r@ == code_list(texts(names@)),
{
    let mut parts: Vec<String> = Vec::new();
    for i in 0..names.len()
        invariant
            parts@.len() == i,
            forall|j: int| 0 <= j < i ==> (#[trigger] parts@[j])@ == code()(names@[j]@),
    {
        parts.push(concat3("`", names[i].as_str(), "`"));
    }
    assert(texts(parts@) =~= each(texts(names@), code()));
    str_join(&parts, ", ")
}

fn empty() -> (r: String)
    ensures
        r@ == Seq::<char>::empty(),
{
    let s = String::new();
    assert(s@ =~= Seq::<char>::empty());
    s
}

/// A heading and the names under it; nothing where there are none.
pub open spec fn named_part(heading: Seq<char>, names: Seq<Seq<char>>) -> Seq<char> {
    if names.len() == 0 {
        Seq::empty()
    } else {
        "\n\n**"@ + heading + ":** "@ + code_list(names)
    }
}

fn render_named(heading: &str, names: &Vec<String>) -> (r: String)
    ensures
        r@ == named_part(heading@, texts(names@)),
{
    assert(texts(names@).len() == names@.len());
    if names.len() == 0 {
        return empty();
    }
    let mut out = concat3("\n\n**", heading, ":** ");
    out.append(render_code_list(names).as_str());
    out
}

/// A text behind a blank line; nothing where it is empty.
pub open spec fn paragraph(text: Seq<char>) -> Seq<char> {
    if text.len() == 0 {
        Seq::empty()
    } else {
        "\n\n"@ + text
    }
}

fn render_paragraph(text: &str) -> (r: String)
    ensures
        r@ == paragraph(text@),
{
    if text.is_empty() {
        empty()
    } else {
        concat2("\n\n", text)
    }
}

/// A description on its own line; nothing where it is blank.
pub open spec fn description_line(d: Option<Seq<char>>) -> Seq<char> {
    match d {
        Some(d) => if trim(d).len() == 0 {
            Seq::empty()
        } else {
            "\n"@ + d
        },
        None => Seq::empty(),
    }
}

fn render_description(d: &Option<String>) -> (r: String)
    ensures
        r@ == description_line(opt_view(*d)),
{
    match d {
        Some(d) => {
            let t = str_trim(d.as_str());
            if t.as_str().is_empty() {
                empty()
            } else {
                concat2("\n", d.as_str())
            }
        },
        None => empty(),
    }
}

pub open spec fn kind_label(kind: RootBlockKind) -> Seq<char> {
    match kind {
        RootBlockKind::Resource => "resource"@,
        RootBlockKind::DataSource => "data source"@,
        RootBlockKind::Provider => "provider"@,
        _ => "built-in"@,
    }
}

fn kind_text(kind: RootBlockKind) -> (r: &'static str)
    ensures
        r@ == kind_label(kind),
{
    match kind {
        RootBlockKind::Resource => "resource",
        RootBlockKind::DataSource => "data source",
        RootBlockKind::Provider => "provider",
        _ => "built-in",
    }
}

pub open spec fn dotted(path: Seq<Seq<char>>) -> Seq<char> {
    join(path, "."@)
}

/// A path between two texts; nothing where it is empty.
pub open spec fn path_part(open: Seq<char>, path: Seq<Seq<char>>, close: Seq<char>) -> Seq<char> {
    if path.len() == 0 {
        Seq::empty()
    } else {
        open + dotted(path) + close
    }
}

fn render_path(open: &str, path: &Vec<String>, close: &str) -> (r: String)
    ensures
        r@ == path_part(open@, texts(path@), close@),
{
    assert(texts(path@).len() == path@.len());
    if path.len() == 0 {
        return empty();
    }
    concat3(open, str_join(path, ".").as_str(), close)
}

// ---------------------------------------------------------------------
// Attributes of schemas

pub open spec fn one_if(cond: bool, text: Seq<char>) -> Seq<Seq<char>> {
    if cond {
        seq![text]
    } else {
        Seq::empty()
    }
}

pub open spec fn attribute_flags(s: AttributeSchema) -> Seq<Seq<char>> {
    (if s.required {
        seq!["required"@]
    } else {
        one_if(s.optional, "optional"@)
    }) + one_if(s.computed, "computed"@) + one_if(s.sensitive, "sensitive"@) + one_if(
        s.deprecated,
        "deprecated"@,
    )
}

fn push_if(out: &mut Vec<String>, cond: bool, text: &str)
    ensures
        texts(final(out)@) == texts(old(out)@) + one_if(cond, text@),
{
    let ghost before = texts(out@);
    if cond {
        let x = text.to_owned();
        out.push(x);
        assert(texts(out@) =~= before + seq![text@]);
    } else {
        assert(texts(out@) =~= before + Seq::<Seq<char>>::empty());
    }
}

fn list_attribute_flags(s: &AttributeSchema) -> (r: Vec<String>)
    ensures
        texts(r@) == attribute_flags(*s),
{
    let mut flags: Vec<String> = Vec::new();
    assert(texts(flags@) =~= Seq::<Seq<char>>::empty());
    if s.required {
        push_if(&mut flags, true, "required");
        assert(texts(flags@) =~= seq!["required"@]);
    } else {
        push_if(&mut flags, s.optional, "optional");
        assert(texts(flags@) =~= one_if(s.optional, "optional"@));
    }
    push_if(&mut flags, s.computed, "computed");
    push_if(&mut flags, s.sensitive, "sensitive");
    push_if(&mut flags, s.deprecated, "deprecated");
    flags
}

/// All that a schema says of an attribute.
pub open spec fn schema_flags(s: AttributeSchema) -> Seq<Seq<char>> {
    one_if(s.required, "required"@) + one_if(s.optional, "optional"@) + one_if(
        s.computed,
        "computed"@,
    ) + one_if(s.sensitive, "sensitive"@) + one_if(s.deprecated, "deprecated"@)
}

pub fn list_flags(s: &AttributeSchema) -> (r: Vec<String>)
    ensures
        texts(r@) == schema_flags(*s),
{
    let mut flags: Vec<String> = Vec::new();
    assert(texts(flags@) =~= Seq::<Seq<char>>::empty());
    push_if(&mut flags, s.required, "required");
    assert(texts(flags@) =~= one_if(s.required, "required"@));
    push_if(&mut flags, s.optional, "optional");
    push_if(&mut flags, s.computed, "computed");
    push_if(&mut flags, s.sensitive, "sensitive");
    push_if(&mut flags, s.deprecated, "deprecated");
    flags
}

/// Flags behind a dash; nothing where there are none.
pub open spec fn flags_part(flags: Seq<Seq<char>>) -> Seq<char> {
    if flags.len() == 0 {
        Seq::empty()
    } else {
        " — "@ + join(flags, ", "@)
    }
}

fn render_flags(flags: &Vec<String>) -> (r: String)
    ensures
        r@ == flags_part(texts(flags@)),
{
    assert(texts(flags@).len() == flags@.len());
    if flags.len() == 0 {
        return empty();
    }
    concat2(" — ", str_join(flags, ", ").as_str())
}

/// What a hover shows of an attribute that a schema describes.
pub open spec fn attribute_text(hit: HitV, s: AttributeSchema) -> Seq<char> {
    "**"@ + kind_label(hit.root_kind) + "** `"@ + hit.root_type + "`"@ + path_part(
        " / `"@,
        hit.path,
        "`"@,
    ) + "\n\n"@ + "**attribute** `"@ + hit.name + "`"@ + flags_part(attribute_flags(s)) + "\n"@
        + description_line(opt_view(s.description)) + named_part(
        "Conflicts with"@,
        texts(s.conflicts_with@),
    ) + named_part("Required with"@, texts(s.required_with@)) + named_part(
        "Exactly one of"@,
        texts(s.exactly_one_of@),
    ) + named_part("At least one of"@, texts(s.at_least_one_of@))
}

pub fn render_attribute(hit: &AttributeHit, s: &AttributeSchema) -> (r: String)
    ensures
        r@ == attribute_text(hit@, *s),
{
    let mut out = concat5(
        "**",
        kind_text(hit.root_kind),
        "** `",
        hit.root_type.as_str(),
        "`",
    );
    out.append(render_path(" / `", &hit.nested_path, "`").as_str());
    out.append("\n\n");
    out.append("**attribute** `");
    out.append(hit.attr_name.as_str());
    out.append("`");
    out.append(render_flags(&list_attribute_flags(s)).as_str());
    out.append("\n");
    out.append(render_description(&s.description).as_str());
    out.append(render_named("Conflicts with", &s.conflicts_with).as_str());
    out.append(render_named("Required with", &s.required_with).as_str());
    out.append(render_named("Exactly one of", &s.exactly_one_of).as_str());
    out.append(render_named("At least one of", &s.at_least_one_of).as_str());
    out
}

pub open spec fn attribute_heading(hit: HitV) -> Seq<char> {
    "**attribute** `"@ + hit.name + "` on "@ + kind_label(hit.root_kind) + " `"@ + hit.root_type
        + "`"@ + path_part(" (block `"@, hit.path, "`)"@)
}

fn attribute_header(hit: &AttributeHit) -> (r: String)
    ensures
        r@ == attribute_heading(hit@),
{
    let mut out = concat5(
        "**attribute** `",
        hit.attr_name.as_str(),
        "` on ",
        kind_text(hit.root_kind),
        " `",
    );
    out.append(hit.root_type.as_str());
    out.append("`");
    out.append(render_path(" (block `", &hit.nested_path, "`)").as_str());
    out
}

pub open spec fn not_loaded_text(hit: HitV) -> Seq<char> {
    attribute_heading(hit)
        + "\n\n_No provider schemas are loaded._ Run `terraform init` (or `tofu init`) in this workspace so tfls can fetch attribute documentation via `terraform providers schema -json`."@
}

pub fn render_schemas_not_loaded(hit: &AttributeHit) -> (r: String)
    ensures
        r@ == not_loaded_text(hit@),
{
    concat2(
        attribute_header(hit).as_str(),
        "\n\n_No provider schemas are loaded._ Run `terraform init` (or `tofu init`) in this workspace so tfls can fetch attribute documentation via `terraform providers schema -json`.",
    )
}

pub open spec fn provider_missing_text(hit: HitV) -> Seq<char> {
    attribute_heading(hit) + "\n\n_No schema for `"@ + hit.root_type
        + "` is loaded._ The relevant provider may not be declared in `required_providers`, or `terraform init` has not been run since it was added."@
}

pub fn render_provider_missing(hit: &AttributeHit) -> (r: String)
    ensures
        r@ == provider_missing_text(hit@),
{
    let mut out = attribute_header(hit);
    out.append("\n\n_No schema for `");
    out.append(hit.root_type.as_str());
    out.append(
        "` is loaded._ The relevant provider may not be declared in `required_providers`, or `terraform init` has not been run since it was added.",
    );
    out
}

pub open spec fn attribute_unknown_text(hit: HitV) -> Seq<char> {
    attribute_heading(hit) + "\n\n_Attribute `"@ + hit.name + "` is not in the schema for `"@
        + hit.root_type + "`._ Check the spelling or provider version."@
}

pub fn render_attribute_unknown(hit: &AttributeHit) -> (r: String)
    ensures
        r@ == attribute_unknown_text(hit@),
{
    let mut out = attribute_header(hit);
    out.append("\n\n_Attribute `");
    out.append(hit.attr_name.as_str());
    out.append("` is not in the schema for `");
    out.append(hit.root_type.as_str());
    out.append("`._ Check the spelling or provider version.");
    out
}

// ---------------------------------------------------------------------
// Finding schemas

/// The block that a path of nested blocks leads to.
pub open spec fn descend(block: BlockSchema, path: Seq<Seq<char>>) -> Option<BlockSchema>
    decreases path.len(),
{
    if path.len() == 0 {
        Some(block)
    } else {
        match lookup(block.block_types@, path[0]) {
            Some(nb) => descend(nb.block, path.skip(1)),
            None => None,
        }
    }
}

pub fn descend_schema<'a>(root: &'a BlockSchema, path: &Vec<String>) -> (r: Option<&'a BlockSchema>)
    ensures
        match r {
            Some(b) => descend(*root, texts(path@)) == Some(*b),
            None => descend(*root, texts(path@)) is None,
        },
{
    let mut current: &'a BlockSchema = root;
    let ghost p = texts(path@);
    proof {
        lemma_take_full(p);
    }
    for i in 0..path.len()
        invariant
            p == texts(path@),
            descend(*root, p) == descend(*current, p.skip(i as int)),
    {
        proof {
            assert(p.skip(i as int).skip(1) =~= p.skip(i + 1));
            assert(p.skip(i as int)[0] == path@[i as int]@);
        }
        current = match find_entry(&current.block_types, path[i].as_str()) {
            Some(nb) => &nb.block,
            None => {
                return None;
            },
        };
    }
    assert(p.skip(path@.len() as int) =~= Seq::<Seq<char>>::empty());
    Some(current)
}

/// The schema of a root block that a schema describes.
pub open spec fn root_schema(schemas: Seq<SchemaEntry>, kind: RootBlockKind, ty: Seq<char>) -> Option<
    ResourceSchema,
> {
    match kind {
        RootBlockKind::Resource => resource_schema(schemas, ty),
        RootBlockKind::DataSource => data_source_schema(schemas, ty),
        RootBlockKind::Provider => provider_schema(schemas, ty),
        _ => None,
    }
}

fn find_root_schema<'a>(schemas: &'a Vec<SchemaEntry>, kind: RootBlockKind, ty: &str) -> (r: Option<
    &'a ResourceSchema,
>)
    ensures
        match r {
            Some(s) => root_schema(schemas@, kind, ty@) == Some(*s),
            None => root_schema(schemas@, kind, ty@) is None,
        },
{
    match kind {
        RootBlockKind::Resource => find_resource_schema(schemas, ty),
        RootBlockKind::DataSource => find_data_source_schema(schemas, ty),
        RootBlockKind::Provider => find_provider_schema(schemas, ty),
        _ => None,
    }
}

/// What a hover shows of an attribute of a block that a schema describes, or
/// why there is nothing to show.
pub open spec fn schema_attribute_text(state: StateStore, hit: HitV) -> Seq<char> {
    if state.schemas@.len() == 0 {
        not_loaded_text(hit)
    } else if builtin_keyword(hit.root_kind) is Some {
        attribute_unknown_text(hit)
    } else {
        match root_schema(state.schemas@, hit.root_kind, hit.root_type) {
            Some(root) => match descend(root.block, hit.path) {
                Some(b) => match lookup(b.attributes@, hit.name) {
                    Some(s) => attribute_text(hit, s),
                    None => attribute_unknown_text(hit),
                },
                None => attribute_unknown_text(hit),
            },
            None => provider_missing_text(hit),
        }
    }
}

fn render_schema_attribute(state: &StateStore, hit: &AttributeHit) -> (r: String)
    ensures
        r@ == schema_attribute_text(*state, hit@),
{
    if state.schemas.len() == 0 {
        return render_schemas_not_loaded(hit);
    }
    if hit.root_kind.builtin_root_keyword().is_some() {
        return render_attribute_unknown(hit);
    }
    let root = match find_root_schema(&state.schemas, hit.root_kind, hit.root_type.as_str()) {
        Some(s) => s,
        None => {
            return render_provider_missing(hit);
        },
    };
    match descend_schema(&root.block, &hit.nested_path) {
        Some(b) => match find_entry(&b.attributes, hit.attr_name.as_str()) {
            Some(s) => render_attribute(hit, s),
            None => render_attribute_unknown(hit),
        },
        None => render_attribute_unknown(hit),
    }
}

// ---------------------------------------------------------------------
// Meta-arguments

/// The path starts in a block whose contents the language defines.
pub open spec fn is_meta_path(path: Seq<Seq<char>>) -> bool {
    path.len() > 0 && (path[0] == "lifecycle"@ || path[0] == "provisioner"@ || path[0]
        == "connection"@)
}

pub fn is_meta_block_path(path: &Vec<String>) -> (r: bool)
    ensures
        r == is_meta_path(texts(path@)),
{
    if path.len() == 0 {
        return false;
    }
    assert(texts(path@)[0] == path@[0]@);
    let first = path[0].as_str();
    str_eq(first, "lifecycle") || str_eq(first, "provisioner") || str_eq(first, "connection")
}

/// The description in a table where it is not empty.
pub open spec fn rich_text(docs: Seq<(String, String)>, name: Seq<char>) -> Option<Seq<char>> {
    match lookup(docs, name) {
        Some(d) => if d@.len() == 0 {
            None
        } else {
            Some(d@)
        },
        None => None,
    }
}

fn find_rich_text(docs: &Vec<(String, String)>, name: &str) -> (r: Option<String>)
    ensures
        opt_view(r) == rich_text(docs@, name@),
{
    match find_entry(docs, name) {
        Some(d) => if d.as_str().is_empty() {
            None
        } else {
            Some(d.clone())
        },
        None => None,
    }
}

/// What is known of an attribute below `lifecycle`.
pub open spec fn lifecycle_detail(lang: Language, hit: HitV) -> Option<Seq<char>> {
    let data = hit.root_kind == RootBlockKind::DataSource;
    if hit.path.len() == 1 {
        let docs = if data {
            lang.lifecycle_data_docs@
        } else {
            lang.lifecycle_resource_docs@
        };
        let attrs = if data {
            lang.lifecycle_data@
        } else {
            lang.lifecycle_resource@
        };
        match rich_text(docs, hit.name) {
            Some(d) => Some(d),
            None => match find_map(attrs, attr_named(hit.name)) {
                Some(a) => Some(a.detail@),
                None => None,
            },
        }
    } else if hit.path.len() > 1 && (hit.path[1] == "precondition"@ || hit.path[1]
        == "postcondition"@) {
        rich_text(lang.condition_docs@, hit.name)
    } else {
        None
    }
}

fn find_lifecycle_detail(lang: &Language, hit: &AttributeHit) -> (r: Option<String>)
    ensures
        opt_view(r) == lifecycle_detail(*lang, hit@),
{
    let data = hit.root_kind == RootBlockKind::DataSource;
    let name = hit.attr_name.as_str();
    assert(texts(hit.nested_path@).len() == hit.nested_path@.len());
    if hit.nested_path.len() == 1 {
        let rich = if data {
            find_rich_text(&lang.lifecycle_data_docs, name)
        } else {
            find_rich_text(&lang.lifecycle_resource_docs, name)
        };
        if rich.is_some() {
            return rich;
        }
        let attr = if data {
            find_attr(&lang.lifecycle_data, name)
        } else {
            find_attr(&lang.lifecycle_resource, name)
        };
        return match attr {
            Some(a) => Some(a.detail.clone()),
            None => None,
        };
    }
    if hit.nested_path.len() > 1 {
        assert(texts(hit.nested_path@)[1] == hit.nested_path@[1]@);
        let second = hit.nested_path[1].as_str();
        if str_eq(second, "precondition") || str_eq(second, "postcondition") {
            return find_rich_text(&lang.condition_docs, name);
        }
    }
    None
}

/// What is said of `enabled`, which only OpenTofu knows.
pub open spec fn enabled_note(hit: HitV, path: Seq<char>) -> Seq<char> {
    if hit.name == "enabled"@ {
        if opentofu_path(path) {
            "\n\n_OpenTofu 1.11+ meta-argument. ([docs](https://opentofu.org/docs/language/meta-arguments/enabled/))_"@
        } else {
            "\n\n⚠ _OpenTofu 1.11+ meta-argument — Terraform does not support it. Rename this file to `.tofu` (or `.tofu.json`) if this module is OpenTofu-only, or use `count = var.create ? 1 : 0` / `for_each` for Terraform compatibility. ([docs](https://opentofu.org/docs/language/meta-arguments/enabled/))_"@
        }
    } else {
        Seq::empty()
    }
}

fn render_enabled_note(hit: &AttributeHit, uri: &DocUri) -> (r: String)
    ensures
        r@ == enabled_note(hit@, uri.path@),
{
    if !str_eq(hit.attr_name.as_str(), "enabled") {
        return empty();
    }
    if is_opentofu_file(uri) {
        "\n\n_OpenTofu 1.11+ meta-argument. ([docs](https://opentofu.org/docs/language/meta-arguments/enabled/))_".to_owned()
    } else {
        "\n\n⚠ _OpenTofu 1.11+ meta-argument — Terraform does not support it. Rename this file to `.tofu` (or `.tofu.json`) if this module is OpenTofu-only, or use `count = var.create ? 1 : 0` / `for_each` for Terraform compatibility. ([docs](https://opentofu.org/docs/language/meta-arguments/enabled/))_".to_owned()
    }
}

pub open spec fn detail_part(d: Option<Seq<char>>) -> Seq<char> {
    match d {
        Some(d) => "\n\n"@ + d,
        None => Seq::empty(),
    }
}

/// What a hover shows of an attribute below `lifecycle`, `provisioner` or
/// `connection`.
pub open spec fn meta_attribute_text(lang: Language, hit: HitV, path: Seq<char>) -> Seq<char> {
    if hit.path.len() > 0 && hit.path[0] == "lifecycle"@ {
        "**attribute** `"@ + hit.name + "` in `"@ + dotted(hit.path) + "`"@ + detail_part(
            lifecycle_detail(lang, hit),
        ) + enabled_note(hit, path)
    } else {
        "**attribute** `"@ + hit.name + "` in `"@ + dotted(hit.path)
            + "` (Terraform/OpenTofu language meta-argument)\n\nMeta-block contents aren't provider-defined; their valid keys are part of the Terraform / OpenTofu language specification rather than the provider schema."@
    }
}

pub fn render_meta_attribute(lang: &Language, hit: &AttributeHit, uri: &DocUri) -> (r: String)
    ensures
        r@ == meta_attribute_text(*lang, hit@, uri.path@),
{
    let mut out = concat3("**attribute** `", hit.attr_name.as_str(), "` in `");
    out.append(str_join(&hit.nested_path, ".").as_str());
    let in_lifecycle = if hit.nested_path.len() > 0 {
        assert(texts(hit.nested_path@)[0] == hit.nested_path@[0]@);
        str_eq(hit.nested_path[0].as_str(), "lifecycle")
    } else {
        false
    };
    if in_lifecycle {
        out.append("`");
        let detail = match find_lifecycle_detail(lang, hit) {
            Some(d) => concat2("\n\n", d.as_str()),
            None => empty(),
        };
        out.append(detail.as_str());
        out.append(render_enabled_note(hit, uri).as_str());
    } else {
        out.append(
            "` (Terraform/OpenTofu language meta-argument)\n\nMeta-block contents aren't provider-defined; their valid keys are part of the Terraform / OpenTofu language specification rather than the provider schema.",
        );
    }
    out
}

pub open spec fn meta_kind(kind: RootBlockKind) -> Seq<char> {
    match kind {
        RootBlockKind::Resource => "resource"@,
        RootBlockKind::DataSource => "data source"@,
        RootBlockKind::Provider => "provider"@,
        RootBlockKind::Terraform => "terraform"@,
        RootBlockKind::Variable => "variable"@,
        RootBlockKind::Output => "output"@,
        RootBlockKind::Module => "module"@,
    }
}

/// What a hover shows of a meta-argument such as `count`.
pub open spec fn meta_argument_text(hit: HitV, description: Seq<char>) -> Seq<char> {
    "**meta-argument** `"@ + hit.name + "` on "@ + meta_kind(hit.root_kind) + " `"@ + hit.root_type
        + "`\n\n"@ + description
}

fn render_top_level_meta_arg(hit: &AttributeHit, description: &str) -> (r: String)
    ensures
        r@ == meta_argument_text(hit@, description@),
{
    let kind = match hit.root_kind {
        RootBlockKind::Resource => "resource",
        RootBlockKind::DataSource => "data source",
        RootBlockKind::Provider => "provider",
        RootBlockKind::Terraform => "terraform",
        RootBlockKind::Variable => "variable",
        RootBlockKind::Output => "output",
        RootBlockKind::Module => "module",
    };
    let mut out = concat5("**meta-argument** `", hit.attr_name.as_str(), "` on ", kind, " `");
    out.append(hit.root_type.as_str());
    out.append("`\n\n");
    out.append(description);
    out
}

pub open spec fn required_part(required: bool) -> Seq<char> {
    if required {
        " — required"@
    } else {
        Seq::empty()
    }
}

fn render_required(required: bool) -> (r: String)
    ensures
        r@ == required_part(required),
{
    if required {
        " — required".to_owned()
    } else {
        empty()
    }
}

/// What a hover shows of `alias` or `version` of a provider block.
pub open spec fn provider_meta_text(hit: HitV, a: BuiltinAttr) -> Seq<char> {
    "**meta-argument** `"@ + hit.name + "` on provider `"@ + hit.root_type + "`"@ + required_part(
        a.required,
    ) + paragraph(a.detail@)
}

fn render_provider_meta_attr(hit: &AttributeHit, a: &BuiltinAttr) -> (r: String)
    ensures
        r@ == provider_meta_text(hit@, *a),
{
    let mut out = concat5(
        "**meta-argument** `",
        hit.attr_name.as_str(),
        "` on provider `",
        hit.root_type.as_str(),
        "`",
    );
    out.append(render_required(a.required).as_str());
    out.append(render_paragraph(a.detail.as_str()).as_str());
    out
}

// ---------------------------------------------------------------------
// Built-in blocks

/// The keywords from a built-in root down a path.
pub open spec fn full_path(keyword: Seq<char>, path: Seq<Seq<char>>) -> Seq<Seq<char>> {
    seq![keyword] + path
}

fn path_below(keyword: &str, path: &Vec<String>) -> (r: Vec<String>)
    ensures
        texts(r@) == full_path(keyword@, texts(path@)),
{
    let mut out: Vec<String> = Vec::new();
    out.push(keyword.to_owned());
    for i in 0..path.len()
        invariant
            out@.len() == i + 1,
            out@[0]@ == keyword@,
            forall|j: int| 0 <= j < i ==> (#[trigger] out@[j + 1])@ == path@[j]@,
    {
        out.push(path[i].clone());
    }
    assert forall|k: int| 0 <= k < texts(out@).len() implies texts(out@)[k] == full_path(
        keyword@,
        texts(path@),
    )[k] by {
        if k > 0 {
            assert(out@[(k - 1) + 1]@ == path@[k - 1]@);
        }
    }
    assert(texts(out@) =~= full_path(keyword@, texts(path@)));
    out
}

/// The attribute of a built-in body.
pub open spec fn builtin_attr_of(lang: Language, keyword: Seq<char>, hit: HitV) -> Option<
    BuiltinAttr,
> {
    match builtin_at(lang.builtins@, full_path(keyword, hit.path)) {
        Some(s) => find_map(s.attrs@, attr_named(hit.name)),
        None => None,
    }
}

/// What a hover shows of an attribute of a built-in block. Nothing for an
/// unknown one of a module call: that is an input of the module.
pub open spec fn builtin_attribute_text(lang: Language, keyword: Seq<char>, hit: HitV) -> Option<
    Seq<char>,
> {
    let attr = builtin_attr_of(lang, keyword, hit);
    if attr is None && hit.root_kind == RootBlockKind::Module {
        None
    } else {
        Some(
            "**attribute** `"@ + hit.name + "` in `"@ + dotted(full_path(keyword, hit.path)) + "`"@
                + (match attr {
                Some(a) => required_part(a.required) + paragraph(a.detail@),
                None => "\n\n_Unknown attribute for this built-in block._"@,
            }),
        )
    }
}

pub fn render_builtin_attribute_for_hit(lang: &Language, hit: &AttributeHit, keyword: &str) -> (r:
    Option<String>)
    ensures
        opt_view(r) == builtin_attribute_text(*lang, keyword@, hit@),
{
    let path = path_below(keyword, &hit.nested_path);
    let attr = match find_builtin(&lang.builtins, &path) {
        Some(s) => find_attr(&s.attrs, hit.attr_name.as_str()),
        None => None,
    };
    if attr.is_none() && hit.root_kind == RootBlockKind::Module {
        return None;
    }
    let mut out = concat3("**attribute** `", hit.attr_name.as_str(), "` in `");
    out.append(str_join(&path, ".").as_str());
    out.append("`");
    let tail = match attr {
        Some(a) => concat2(
            render_required(a.required).as_str(),
            render_paragraph(a.detail.as_str()).as_str(),
        ),
        None => "\n\n_Unknown attribute for this built-in block._".to_owned(),
    };
    out.append(tail.as_str());
    Some(out)
}

pub open spec fn builtin_name(required: bool) -> spec_fn(BuiltinAttr) -> Option<Seq<char>> {
    |a: BuiltinAttr|
        if a.required == required {
            Some(a.name@)
        } else {
            None
        }
}

pub open spec fn builtin_block_name() -> spec_fn(BuiltinBlock) -> Seq<char> {
    |b: BuiltinBlock| b.name@
}

fn list_builtin_names(attrs: &Vec<BuiltinAttr>, required: bool) -> (r: Vec<String>)
    ensures
        texts(r@) == filter_map(attrs@, builtin_name(required)),
{
    let ghost f = builtin_name(required);
    let mut out: Vec<String> = Vec::new();
    proof {
        lemma_take_full(attrs@);
    }
    assert(texts(out@) =~= filter_map(attrs@.take(0), f));
    for i in 0..attrs.len()
        invariant
            f == builtin_name(required),
            texts(out@) == filter_map(attrs@.take(i as int), f),
    {
        proof {
            lemma_filter_map_step(attrs@, f, i as int);
        }
        let ghost before = texts(out@);
        if attrs[i].required == required {
            let x = attrs[i].name.clone();
            out.push(x);
            assert(texts(out@) =~= before.push(x@));
        }
    }
    out
}

fn list_builtin_blocks(blocks: &Vec<BuiltinBlock>) -> (r: Vec<String>)
    ensures
        texts(r@) == each(blocks@, builtin_block_name()),
{
    let mut out: Vec<String> = Vec::new();
    for i in 0..blocks.len()
        invariant
            out@.len() == i,
            forall|j: int| 0 <= j < i ==> (#[trigger] out@[j])@ == blocks@[j].name@,
    {
        out.push(blocks[i].name.clone());
    }
    assert(texts(out@) =~= each(blocks@, builtin_block_name()));
    out
}

pub open spec fn root_label(hit: HitV) -> Seq<char> {
    match hit.root_kind {
        RootBlockKind::Terraform => "terraform block"@,
        RootBlockKind::Variable => "variable `"@ + hit.root_type + "`"@,
        RootBlockKind::Output => "output `"@ + hit.root_type + "`"@,
        RootBlockKind::Module => "module `"@ + hit.root_type + "`"@,
        _ => "built-in block"@,
    }
}

fn render_root_label(hit: &NestedBlockHeaderHit) -> (r: String)
    ensures
        r@ == root_label(hit@),
{
    match hit.root_kind {
        RootBlockKind::Terraform => "terraform block".to_owned(),
        RootBlockKind::Variable => concat3("variable `", hit.root_type.as_str(), "`"),
        RootBlockKind::Output => concat3("output `", hit.root_type.as_str(), "`"),
        RootBlockKind::Module => concat3("module `", hit.root_type.as_str(), "`"),
        _ => "built-in block".to_owned(),
    }
}

/// Where a built-in block stands.
pub open spec fn builtin_place(hit: HitV, keyword: Seq<char>) -> Seq<char> {
    if hit.path.len() == 0 {
        " on "@ + root_label(hit)
    } else {
        " inside `"@ + dotted(full_path(keyword, hit.path)) + "`"@
    }
}

/// The summary of a built-in block, and an example of its label.
pub open spec fn builtin_info(name: Seq<char>, info: Option<BuiltinBlock>) -> Seq<char> {
    match info {
        Some(b) => paragraph(b.detail@) + (match opt_view(b.label_placeholder) {
            Some(label) => "\n\n_Labelled block — example: `"@ + name + " \""@ + label
                + "\" { … }`_"@,
            None => Seq::empty(),
        }),
        None => Seq::empty(),
    }
}

fn render_builtin_info(name: &str, info: Option<&BuiltinBlock>) -> (r: String)
    ensures
        r@ == builtin_info(
            name@,
            match info {
                Some(b) => Some(*b),
                None => None,
            },
        ),
{
    match info {
        Some(b) => {
            let label = match &b.label_placeholder {
                Some(label) => concat5(
                    "\n\n_Labelled block — example: `",
                    name,
                    " \"",
                    label.as_str(),
                    "\" { … }`_",
                ),
                None => empty(),
            };
            concat2(render_paragraph(b.detail.as_str()).as_str(), label.as_str())
        },
        None => empty(),
    }
}

/// What the body of a built-in block may hold.
pub open spec fn builtin_body(schema: Option<BuiltinSchema>, known: bool) -> Seq<char> {
    match schema {
        Some(s) => named_part("Required attrs"@, filter_map(s.attrs@, builtin_name(true)))
            + named_part("Optional attrs"@, filter_map(s.attrs@, builtin_name(false)))
            + named_part("Nested blocks"@, each(s.blocks@, builtin_block_name())),
        None => if known {
            Seq::empty()
        } else {
            "\n\n_Unknown nested block for this terraform tree._"@
        },
    }
}

fn render_builtin_body(schema: Option<&BuiltinSchema>, known: bool) -> (r: String)
    ensures
        r@ == builtin_body(
            match schema {
                Some(s) => Some(*s),
                None => None,
            },
            known,
        ),
{
    match schema {
        Some(s) => concat3(
            render_named("Required attrs", &list_builtin_names(&s.attrs, true)).as_str(),
            render_named("Optional attrs", &list_builtin_names(&s.attrs, false)).as_str(),
            render_named("Nested blocks", &list_builtin_blocks(&s.blocks)).as_str(),
        ),
        None => if known {
            empty()
        } else {
            "\n\n_Unknown nested block for this terraform tree._".to_owned()
        },
    }
}

/// The entry of a nested built-in block in the body around it.
pub open spec fn builtin_entry(lang: Language, keyword: Seq<char>, hit: HitV) -> Option<
    BuiltinBlock,
> {
    match builtin_at(lang.builtins@, full_path(keyword, hit.path)) {
        Some(s) => find_map(s.blocks@, block_entry(hit.name)),
        None => None,
    }
}

/// What a hover shows of the header of a nested built-in block.
pub open spec fn builtin_block_text(lang: Language, hit: HitV) -> Seq<char> {
    match builtin_keyword(hit.root_kind) {
        Some(keyword) => {
            let info = builtin_entry(lang, keyword, hit);
            "**block** `"@ + hit.name + "`"@ + builtin_place(hit, keyword) + builtin_info(
                hit.name,
                info,
            ) + builtin_body(
                builtin_at(lang.builtins@, full_path(keyword, hit.path).push(hit.name)),
                info is Some,
            )
        },
        None => block_unknown_text(hit),
    }
}

pub fn render_builtin_nested_block(lang: &Language, hit: &NestedBlockHeaderHit) -> (r: String)
    ensures
        r@ == builtin_block_text(*lang, hit@),
{
    let keyword = match hit.root_kind.builtin_root_keyword() {
        Some(k) => k,
        None => {
            return render_nested_block_unknown(hit);
        },
    };
    let parent = path_below(keyword, &hit.parent_path);
    let own = extended(&parent, hit.block_name.as_str());
    let schema = find_builtin(&lang.builtins, &own);
    let info = match find_builtin(&lang.builtins, &parent) {
        Some(s) => find_block(&s.blocks, hit.block_name.as_str()),
        None => None,
    };
    let mut out = concat3("**block** `", hit.block_name.as_str(), "`");
    assert(texts(hit.parent_path@).len() == hit.parent_path@.len());
    let place = if hit.parent_path.len() == 0 {
        concat2(" on ", render_root_label(hit).as_str())
    } else {
        concat3(" inside `", str_join(&parent, ".").as_str(), "`")
    };
    out.append(place.as_str());
    out.append(render_builtin_info(hit.block_name.as_str(), info).as_str());
    out.append(render_builtin_body(schema, info.is_some()).as_str());
    out
}

// ---------------------------------------------------------------------
// Nested blocks of schemas

pub open spec fn block_heading(hit: HitV) -> Seq<char> {
    "**block** `"@ + hit.name + "` on "@ + kind_label(hit.root_kind) + " `"@ + hit.root_type + "`"@
        + path_part(" (inside `"@, hit.path, "`)"@)
}

fn nested_block_header(hit: &NestedBlockHeaderHit) -> (r: String)
    ensures
        r@ == block_heading(hit@),
{
    let mut out = concat5(
        "**block** `",
        hit.block_name.as_str(),
        "` on ",
        kind_text(hit.root_kind),
        " `",
    );
    out.append(hit.root_type.as_str());
    out.append("`");
    out.append(render_path(" (inside `", &hit.parent_path, "`)").as_str());
    out
}

pub open spec fn block_not_loaded_text(hit: HitV) -> Seq<char> {
    block_heading(hit)
        + "\n\n_No provider schemas are loaded._ Run `terraform init` (or `tofu init`) so tfls can fetch block documentation."@
}

pub fn render_nested_block_schemas_not_loaded(hit: &NestedBlockHeaderHit) -> (r: String)
    ensures
        r@ == block_not_loaded_text(hit@),
{
    concat2(
        nested_block_header(hit).as_str(),
        "\n\n_No provider schemas are loaded._ Run `terraform init` (or `tofu init`) so tfls can fetch block documentation.",
    )
}

pub open spec fn block_provider_missing_text(hit: HitV) -> Seq<char> {
    block_heading(hit) + "\n\n_No schema for `"@ + hit.root_type + "` is loaded._"@
}

pub fn render_nested_block_provider_missing(hit: &NestedBlockHeaderHit) -> (r: String)
    ensures
        r@ == block_provider_missing_text(hit@),
{
    let mut out = nested_block_header(hit);
    out.append("\n\n_No schema for `");
    out.append(hit.root_type.as_str());
    out.append("` is loaded._");
    out
}

pub open spec fn block_unknown_text(hit: HitV) -> Seq<char> {
    block_heading(hit) + "\n\n_Block `"@ + hit.name + "` is not in the schema for `"@
        + hit.root_type + "`._"@
}

pub fn render_nested_block_unknown(hit: &NestedBlockHeaderHit) -> (r: String)
    ensures
        r@ == block_unknown_text(hit@),
{
    let mut out = nested_block_header(hit);
    out.append("\n\n_Block `");
    out.append(hit.block_name.as_str());
    out.append("` is not in the schema for `");
    out.append(hit.root_type.as_str());
    out.append("`._");
    out
}

pub open spec fn nesting_word(mode: NestingMode) -> Seq<char> {
    match mode {
        NestingMode::Single => "single"@,
        NestingMode::ListOf => "list"@,
        NestingMode::SetOf => "set"@,
        NestingMode::MapOf => "map"@,
        NestingMode::Group => "group"@,
    }
}

/// How a block nests and how often it may occur.
pub open spec fn block_flags(nb: NestedBlockSchema) -> Seq<Seq<char>> {
    seq!["nesting: "@ + nesting_word(nb.nesting_mode)] + one_if(
        nb.min_items > 0,
        "min_items: "@ + decimal(nb.min_items as nat),
    ) + one_if(nb.max_items > 0, "max_items: "@ + decimal(nb.max_items as nat)) + one_if(
        nb.block.deprecated,
        "deprecated"@,
    )
}

fn list_block_flags(nb: &NestedBlockSchema) -> (r: Vec<String>)
    ensures
        texts(r@) == block_flags(*nb),
{
    let word = match nb.nesting_mode {
        NestingMode::Single => "single",
        NestingMode::ListOf => "list",
        NestingMode::SetOf => "set",
        NestingMode::MapOf => "map",
        NestingMode::Group => "group",
    };
    let mut flags: Vec<String> = Vec::new();
    flags.push(concat2("nesting: ", word));
    assert(texts(flags@) =~= seq!["nesting: "@ + nesting_word(nb.nesting_mode)]);
    push_if(
        &mut flags,
        nb.min_items > 0,
        concat2("min_items: ", u64_text(nb.min_items).as_str()).as_str(),
    );
    push_if(
        &mut flags,
        nb.max_items > 0,
        concat2("max_items: ", u64_text(nb.max_items).as_str()).as_str(),
    );
    push_if(&mut flags, nb.block.deprecated, "deprecated");
    flags
}

/// The name of an attribute that is required, or that is optional.
pub open spec fn attribute_name_if(required: bool) -> spec_fn((String, AttributeSchema)) -> Option<
    Seq<char>,
> {
    |a: (String, AttributeSchema)|
        if (if required {
            a.1.required
        } else {
            a.1.optional && !a.1.required
        }) {
            Some(a.0@)
        } else {
            None
        }
}

pub open spec fn nested_name() -> spec_fn((String, NestedBlockSchema)) -> Seq<char> {
    |b: (String, NestedBlockSchema)| b.0@
}

fn list_attribute_names(attrs: &Vec<(String, AttributeSchema)>, required: bool) -> (r: Vec<String>)
    ensures
        texts(r@) == text_sort(filter_map(attrs@, attribute_name_if(required))),
{
    let ghost f = attribute_name_if(required);
    let mut out: Vec<String> = Vec::new();
    proof {
        lemma_take_full(attrs@);
    }
    assert(texts(out@) =~= filter_map(attrs@.take(0), f));
    for i in 0..attrs.len()
        invariant
            f == attribute_name_if(required),
            texts(out@) == filter_map(attrs@.take(i as int), f),
    {
        proof {
            lemma_filter_map_step(attrs@, f, i as int);
        }
        let ghost before = texts(out@);
        let listed = if required {
            attrs[i].1.required
        } else {
            attrs[i].1.optional && !attrs[i].1.required
        };
        if listed {
            let x = attrs[i].0.clone();
            out.push(x);
            assert(texts(out@) =~= before.push(x@));
        }
    }
    sort_texts(out)
}

fn list_nested_names(v: &Vec<(String, NestedBlockSchema)>) -> (r: Vec<String>)
    ensures
        texts(r@) == text_sort(each(v@, nested_name())),
{
    let mut out: Vec<String> = Vec::new();
    for i in 0..v.len()
        invariant
            out@.len() == i,
            forall|j: int| 0 <= j < i ==> (#[trigger] out@[j])@ == v@[j].0@,
    {
        out.push(v[i].0.clone());
    }
    assert(texts(out@) =~= each(v@, nested_name()));
    sort_texts(out)
}

/// What a hover shows of a nested block that a schema describes.
pub open spec fn nested_block_text(hit: HitV, nb: NestedBlockSchema) -> Seq<char> {
    block_heading(hit) + " — "@ + join(block_flags(nb), ", "@) + "\n"@ + description_line(
        opt_view(nb.block.description),
    ) + named_part(
        "Required attrs"@,
        text_sort(filter_map(nb.block.attributes@, attribute_name_if(true))),
    ) + named_part(
        "Optional attrs"@,
        text_sort(filter_map(nb.block.attributes@, attribute_name_if(false))),
    ) + named_part("Nested blocks"@, text_sort(each(nb.block.block_types@, nested_name())))
}

pub fn render_nested_block(hit: &NestedBlockHeaderHit, nb: &NestedBlockSchema) -> (r: String)
    ensures
        r@ == nested_block_text(hit@, *nb),
{
    let mut out = nested_block_header(hit);
    out.append(" — ");
    out.append(str_join(&list_block_flags(nb), ", ").as_str());
    out.append("\n");
    out.append(render_description(&nb.block.description).as_str());
    let required = list_attribute_names(&nb.block.attributes, true);
    out.append(render_named("Required attrs", &required).as_str());
    let optional = list_attribute_names(&nb.block.attributes, false);
    out.append(render_named("Optional attrs", &optional).as_str());
    let nested = list_nested_names(&nb.block.block_types);
    out.append(render_named("Nested blocks", &nested).as_str());
    out
}

/// What a hover shows of a nested block below a block that a schema describes,
/// or why there is nothing to show.
pub open spec fn schema_block_text(state: StateStore, hit: HitV) -> Seq<char> {
    if state.schemas@.len() == 0 {
        block_not_loaded_text(hit)
    } else if builtin_keyword(hit.root_kind) is Some {
        block_unknown_text(hit)
    } else {
        match root_schema(state.schemas@, hit.root_kind, hit.root_type) {
            Some(root) => match descend(root.block, hit.path) {
                Some(parent) => match lookup(parent.block_types@, hit.name) {
                    Some(nb) => nested_block_text(hit, nb),
                    None => block_unknown_text(hit),
                },
                None => block_unknown_text(hit),
            },
            None => block_provider_missing_text(hit),
        }
    }
}

fn render_schema_block(state: &StateStore, hit: &NestedBlockHeaderHit) -> (r: String)
    ensures
        r@ == schema_block_text(*state, hit@),
{
    if state.schemas.len() == 0 {
        return render_nested_block_schemas_not_loaded(hit);
    }
    if hit.root_kind.builtin_root_keyword().is_some() {
        return render_nested_block_unknown(hit);
    }
    let root = match find_root_schema(&state.schemas, hit.root_kind, hit.root_type.as_str()) {
        Some(s) => s,
        None => {
            return render_nested_block_provider_missing(hit);
        },
    };
    match descend_schema(&root.block, &hit.parent_path) {
        Some(parent) => match find_entry(&parent.block_types, hit.block_name.as_str()) {
            Some(nb) => render_nested_block(hit, nb),
            None => render_nested_block_unknown(hit),
        },
        None => render_nested_block_unknown(hit),
    }
}

// ---------------------------------------------------------------------
// The hover

/// What a hover shows of an attribute, by where it stands.
pub open spec fn attribute_hover_text(
    state: StateStore,
    lang: Language,
    hit: HitV,
    path: Seq<char>,
) -> Option<Seq<char>> {
    match builtin_keyword(hit.root_kind) {
        Some(keyword) => builtin_attribute_text(lang, keyword, hit),
        None => Some(
            match find_map(lang.provider_meta@, attr_named(hit.name)) {
                Some(a) if hit.root_kind == RootBlockKind::Provider && hit.path.len() == 0 => {
                    provider_meta_text(hit, a)
                },
                _ => if is_meta_path(hit.path) {
                    meta_attribute_text(lang, hit, path)
                } else {
                    match lookup(lang.meta_attrs@, hit.name) {
                        Some(d) if hit.path.len() == 0 => meta_argument_text(hit, d@),
                        _ => schema_attribute_text(state, hit),
                    }
                },
            },
        ),
    }
}

/// What a hover shows of what is under the cursor.
pub open spec fn hit_text(state: StateStore, lang: Language, hit: HitV, path: Seq<char>) -> Option<
    Seq<char>,
> {
    if hit.is_header {
        Some(
            if builtin_keyword(hit.root_kind) is Some {
                builtin_block_text(lang, hit)
            } else {
                schema_block_text(state, hit)
            },
        )
    } else {
        attribute_hover_text(state, lang, hit, path)
    }
}

fn render_attribute_hit(state: &StateStore, lang: &Language, hit: &AttributeHit, uri: &DocUri) -> (r:
    Option<String>)
    ensures
        opt_view(r) == attribute_hover_text(*state, *lang, hit@, uri.path@),
{
    if let Some(keyword) = hit.root_kind.builtin_root_keyword() {
        return render_builtin_attribute_for_hit(lang, hit, keyword);
    }
    assert(texts(hit.nested_path@).len() == hit.nested_path@.len());
    if hit.root_kind == RootBlockKind::Provider && hit.nested_path.len() == 0 {
        if let Some(a) = find_attr(&lang.provider_meta, hit.attr_name.as_str()) {
            return Some(render_provider_meta_attr(hit, a));
        }
    }
    if is_meta_block_path(&hit.nested_path) {
        return Some(render_meta_attribute(lang, hit, uri));
    }
    if hit.nested_path.len() == 0 {
        if let Some(d) = find_entry(&lang.meta_attrs, hit.attr_name.as_str()) {
            return Some(render_top_level_meta_arg(hit, d.as_str()));
        }
    }
    Some(render_schema_attribute(state, hit))
}

/// The hover for an attribute key or the header of a nested block.
pub open spec fn attribute_answer(
    state: StateStore,
    lang: Language,
    doc: DocumentState,
    pos: Position,
    path: Seq<char>,
) -> Option<HoverV> {
    let t = rope_text(doc.rope);
    match doc.body {
        Some(body) => match hit_at(body, t, pos) {
            Some(hit) => match (hit_text(state, lang, hit, path), span_range(t, hit.span)) {
                (Some(value), Some(range)) => Some(HoverV { value, range: Some(range) }),
                _ => None,
            },
            None => None,
        },
        None => None,
    }
}

pub fn attribute_hover(
    state: &StateStore,
    lang: &Language,
    doc: &DocumentState,
    pos: Position,
    uri: &DocUri,
) -> (r: Option<Hover>)
    ensures
        opt_hover(r) == attribute_answer(*state, *lang, *doc, pos, uri.path@),
{
    let body = match &doc.body {
        Some(b) => b,
        None => {
            return None;
        },
    };
    let hit = match find_hit_at(body, doc, pos) {
        Some(h) => h,
        None => {
            return None;
        },
    };
    let (value, span): (String, Span) = match &hit {
        Hit::Attribute(h) => match render_attribute_hit(state, lang, h, uri) {
            Some(v) => (v, h.key_span),
            None => {
                return None;
            },
        },
        Hit::NestedBlockHeader(h) => {
            let v = if h.root_kind.builtin_root_keyword().is_some() {
                render_builtin_nested_block(lang, h)
            } else {
                render_schema_block(state, h)
            };
            (v, h.ident_span)
        },
    };
    match hcl_span_to_lsp_range(&doc.rope, span) {
        Some(range) => Some(Hover { value, range: Some(range) }),
        None => None,
    }
}

/// On a key of a block that a schema describes there is always something to
/// show, even where no schema is loaded.
pub proof fn schema_keys_always_have_a_hover(
    state: StateStore,
    lang: Language,
    hit: HitV,
    path: Seq<char>,
)
    requires
        builtin_keyword(hit.root_kind) is None,
    ensures
        hit_text(state, lang, hit, path) is Some,
{
}

/// Only a key of a module call is left to the hovers that follow.
pub proof fn only_module_inputs_fall_through(
    state: StateStore,
    lang: Language,
    hit: HitV,
    path: Seq<char>,
)
    requires
        hit_text(state, lang, hit, path) is None,
    ensures
        hit.root_kind == RootBlockKind::Module && !hit.is_header,
{
}

} // verus!
