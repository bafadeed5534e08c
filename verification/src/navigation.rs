//! Going to definitions and finding references.

use crate::cursor::{
    either, key_at_cursor, key_under, reference_at, reference_at_position,
};
use crate::state::{find_doc, primary_doc};
use crate::hcl::{
    attr_pointees, attributes, block_label, block_pointees, blocks_named, body_exprs, label_at,
    list_attributes, list_blocks_named, pointees, walk_expressions, Attribute, Block, Body,
    ExprKind, Expression, Operator, TraversalOperator,
};
use crate::null_resource::flatten;
use crate::position::{
    hcl_span_to_lsp_range, lsp_position_to_byte_offset, position_offset, rope_text, span_range,
    Position, Range, Span,
};
use crate::schema::{find_entry, lookup};
use crate::seqs::{
    find_map, keep, lemma_find_map_step, lemma_keep_step, lemma_take_full,
};
use crate::state::{
    find_places, key_of, locations_view, places, reference_key, DocUri, DocumentState, KeyV,
    LocationV, ModuleDir, StateStore, Symbol, SymbolIndex, SymbolKey, SymbolKind, SymbolLocation,
};
use crate::text::{opt_view, str_eq};
use ropey::Rope;
use vstd::prelude::*;

verus! {

// ---------------------------------------------------------------------
// Module calls

/// The span holds the offset, both ends included.
pub open spec fn span_holds(span: Option<Span>, offset: int) -> bool {
    match span {
        Some(s) => s.start <= offset <= s.end,
        None => false,
    }
}

pub fn span_contains(span: Option<Span>, offset: usize) -> (r: bool)
    ensures
        r == span_holds(span, offset as int),
{
    match span {
        Some(s) => s.start <= offset && offset <= s.end,
        None => false,
    }
}

pub open spec fn block_holding(offset: int) -> spec_fn(Block) -> Option<Block> {
    |b: Block|
        if span_holds(b.span, offset) {
            Some(b)
        } else {
            None
        }
}

/// The module call that holds an offset.
pub open spec fn module_block_at(body: Body, offset: int) -> Option<Block> {
    find_map(blocks_named(body, "module"@), block_holding(offset))
}

pub fn find_module_block_at<'a>(body: &'a Body, offset: usize) -> (r: Option<&'a Block>)
    ensures
        match r {
            Some(b) => module_block_at(*body, offset as int) == Some(*b),
            None => module_block_at(*body, offset as int) is None,
        },
{
    let list = list_blocks_named(body, "module");
    let ghost s = blocks_named(*body, "module"@);
    let ghost f = block_holding(offset as int);
    proof {
        lemma_take_full(s);
    }
    for i in 0..list.len()
        invariant
            block_pointees(list@) == s,
            s == blocks_named(*body, "module"@),
            f == block_holding(offset as int),
            find_map(s, f) == find_map(s.skip(i as int), f),
    {
        proof {
            lemma_find_map_step(s, f, i as int);
            assert(s[i as int] == *list@[i as int]);
        }
        if span_contains(list[i].span, offset) {
            return Some(list[i]);
        }
    }
    None
}

pub open spec fn string_under(key: Seq<char>) -> spec_fn(Attribute) -> Option<Seq<char>> {
    |a: Attribute|
        if a.key.text@ == key {
            match a.value.kind {
                ExprKind::Str(s) => Some(s@),
                _ => None,
            }
        } else {
            None
        }
}

/// The first plain string that a block assigns to a key.
pub open spec fn string_of_key(b: Block, key: Seq<char>) -> Option<Seq<char>> {
    find_map(attributes(b.body), string_under(key))
}

pub fn string_attribute(block: &Block, key: &str) -> (r: Option<String>)
    ensures
        opt_view(r) == string_of_key(*block, key@),
{
    let list = list_attributes(&block.body);
    let ghost s = attributes(block.body);
    let ghost f = string_under(key@);
    proof {
        lemma_take_full(s);
    }
    for i in 0..list.len()
        invariant
            attr_pointees(list@) == s,
            s == attributes(block.body),
            f == string_under(key@),
            find_map(s, f) == find_map(s.skip(i as int), f),
    {
        proof {
            lemma_find_map_step(s, f, i as int);
            assert(s[i as int] == *list@[i as int]);
        }
        let a: &Attribute = list[i];
        if str_eq(a.key.text.as_str(), key) {
            if let ExprKind::Str(text) = &a.value.kind {
                return Some(text.clone());
            }
        }
    }
    None
}

/// What a key says of an offset: nothing where it stands elsewhere; else the
/// name and the range. A key without a place ends the search.
pub open spec fn key_holding(t: Seq<char>, offset: int) -> spec_fn(Attribute) -> Option<
    Option<(Seq<char>, Range)>,
> {
    |a: Attribute|
        match a.key.span {
            Some(span) => if span.start <= offset <= span.end {
                match span_range(t, span) {
                    Some(range) => Some(Some((a.key.text@, range))),
                    None => Some(None),
                }
            } else {
                None
            },
            None => Some(None),
        }
}

/// The attribute key at an offset, with its range.
pub open spec fn key_at(body: Body, t: Seq<char>, offset: int) -> Option<(Seq<char>, Range)> {
    flatten(find_map(attributes(body), key_holding(t, offset)))
}

pub open spec fn key_view(k: Option<(&str, Range)>) -> Option<(Seq<char>, Range)> {
    match k {
        Some(k) => Some((k.0@, k.1)),
        None => None,
    }
}

pub fn attribute_key_at<'a>(body: &'a Body, offset: usize, rope: &Rope) -> (r: Option<
    (&'a str, Range),
>)
    ensures
        key_view(r) == key_at(*body, rope_text(*rope), offset as int),
{
    let list = list_attributes(body);
    let ghost s = attributes(*body);
    let ghost f = key_holding(rope_text(*rope), offset as int);
    proof {
        lemma_take_full(s);
    }
    for i in 0..list.len()
        invariant
            attr_pointees(list@) == s,
            s == attributes(*body),
            f == key_holding(rope_text(*rope), offset as int),
            find_map(s, f) == find_map(s.skip(i as int), f),
    {
        proof {
            lemma_find_map_step(s, f, i as int);
            assert(s[i as int] == *list@[i as int]);
        }
        let a: &'a Attribute = list[i];
        match a.key.span {
            Some(span) => {
                if span.start <= offset && offset <= span.end {
                    match hcl_span_to_lsp_range(rope, span) {
                        Some(range) => {
                            return Some((a.key.text.as_str(), range));
                        },
                        None => {
                            return None;
                        },
                    }
                }
            },
            None => {
                return None;
            },
        }
    }
    None
}

pub open spec fn module_dir_for(dir: Seq<char>, label: Seq<char>, source: Seq<char>) -> spec_fn(
    ModuleDir,
) -> Option<Seq<char>> {
    |m: ModuleDir|
        if m.dir@ == dir && m.label@ == label && m.source@ == source {
            Some(m.child@)
        } else {
            None
        }
}

/// The directory that a module call leads to.
pub open spec fn module_target(
    dirs: Seq<ModuleDir>,
    dir: Seq<char>,
    label: Seq<char>,
    source: Seq<char>,
) -> Option<Seq<char>> {
    find_map(dirs, module_dir_for(dir, label, source))
}

pub fn resolve_module_source<'a>(
    dirs: &'a Vec<ModuleDir>,
    dir: &str,
    label: &str,
    source: &str,
) -> (r: Option<&'a str>)
    ensures
        match r {
            Some(c) => module_target(dirs@, dir@, label@, source@) == Some(c@),
            None => module_target(dirs@, dir@, label@, source@) is None,
        },
{
    let ghost f = module_dir_for(dir@, label@, source@);
    proof {
        lemma_take_full(dirs@);
    }
    for i in 0..dirs.len()
        invariant
            f == module_dir_for(dir@, label@, source@),
            find_map(dirs@, f) == find_map(dirs@.skip(i as int), f),
    {
        proof {
            lemma_find_map_step(dirs@, f, i as int);
        }
        let m: &'a ModuleDir = &dirs[i];
        if str_eq(m.dir.as_str(), dir) && str_eq(m.label.as_str(), label) && str_eq(
            m.source.as_str(),
            source,
        ) {
            return Some(m.child.as_str());
        }
    }
    None
}

pub open spec fn symbol_named(name: Seq<char>) -> spec_fn(Symbol) -> Option<Symbol> {
    |s: Symbol|
        if s.name@ == name {
            Some(s)
        } else {
            None
        }
}

pub fn find_symbol_named<'a>(v: &'a Vec<Symbol>, name: &str) -> (r: Option<&'a Symbol>)
    ensures
        match r {
            Some(x) => find_map(v@, symbol_named(name@)) == Some(*x),
            None => find_map(v@, symbol_named(name@)) is None,
        },
{
    let ghost f = symbol_named(name@);
    proof {
        lemma_take_full(v@);
    }
    for i in 0..v.len()
        invariant
            f == symbol_named(name@),
            find_map(v@, f) == find_map(v@.skip(i as int), f),
    {
        proof {
            lemma_find_map_step(v@, f, i as int);
        }
        if str_eq(v[i].name.as_str(), name) {
            return Some(&v[i]);
        }
    }
    None
}

/// Where a document of a directory declares a variable, or an output.
pub open spec fn declared_in(dir: Seq<char>, outputs: bool, name: Seq<char>) -> spec_fn(
    DocumentState,
) -> Option<LocationV> {
    |d: DocumentState|
        if opt_view(d.uri.dir) == Some(dir) {
            let table = if outputs {
                d.symbols.outputs@
            } else {
                d.symbols.variables@
            };
            match find_map(table, symbol_named(name)) {
                Some(s) => Some(s.location@),
                None => None,
            }
        } else {
            None
        }
}

pub open spec fn opt_location(l: Option<SymbolLocation>) -> Option<LocationV> {
    match l {
        Some(l) => Some(l@),
        None => None,
    }
}

/// Where the module in a directory declares a variable, or an output.
pub fn lookup_child_module_symbol(state: &StateStore, dir: &str, outputs: bool, name: &str) -> (r:
    Option<SymbolLocation>)
    ensures
        opt_location(r) == find_map(state.documents@, declared_in(dir@, outputs, name@)),
{
    let ghost s = state.documents@;
    let ghost f = declared_in(dir@, outputs, name@);
    proof {
        lemma_take_full(s);
    }
    for i in 0..state.documents.len()
        invariant
            s == state.documents@,
            f == declared_in(dir@, outputs, name@),
            find_map(s, f) == find_map(s.skip(i as int), f),
    {
        proof {
            lemma_find_map_step(s, f, i as int);
        }
        let d = &state.documents[i];
        if crate::state::is_in_dir(d, dir) {
            let found = if outputs {
                find_symbol_named(&d.symbols.outputs, name)
            } else {
                find_symbol_named(&d.symbols.variables, name)
            };
            if let Some(sym) = found {
                return Some(sym.location.duplicate());
            }
        }
    }
    None
}

/// The keys of a module call that are not inputs of the module.
pub open spec fn is_call_setting(key: Seq<char>) -> bool {
    key == "source"@ || key == "version"@ || key == "providers"@ || key == "count"@ || key
        == "for_each"@ || key == "depends_on"@
}

fn call_setting(key: &str) -> (r: bool)
    ensures
        r == is_call_setting(key@),
{
    str_eq(key, "source") || str_eq(key, "version") || str_eq(key, "providers") || str_eq(
        key,
        "count",
    ) || str_eq(key, "for_each") || str_eq(key, "depends_on")
}

/// The module call, its label, its source and the key under an offset.
pub open spec fn module_key_at(body: Body, t: Seq<char>, offset: int) -> Option<
    (Seq<char>, Seq<char>, Seq<char>, Range),
> {
    match module_block_at(body, offset) {
        Some(b) => match (
            label_at(b, 0),
            string_of_key(b, "source"@),
            key_at(b.body, t, offset),
        ) {
            (Some(label), Some(source), Some((key, range))) => Some((label, source, key, range)),
            _ => None,
        },
        None => None,
    }
}

/// Where the variable behind a key of a module call is declared.
pub open spec fn module_input(
    state: StateStore,
    doc: DocumentState,
    uri: DocUri,
    pos: Position,
) -> Option<LocationV> {
    let t = rope_text(doc.rope);
    match (doc.body, position_offset(t, pos)) {
        (Some(body), Some(offset)) => match module_key_at(body, t, offset) {
            Some((label, source, key, _)) => if is_call_setting(key) {
                None
            } else {
                match opt_view(uri.dir) {
                    Some(dir) => match module_target(state.module_dirs@, dir, label, source) {
                        Some(child) => find_map(state.documents@, declared_in(child, false, key)),
                        None => None,
                    },
                    None => None,
                }
            },
            None => None,
        },
        _ => None,
    }
}

/// Where the cursor is on a key of a module call: the declaration of the
/// variable in the called module.
pub fn module_input_goto_at(state: &StateStore, doc: &DocumentState, uri: &DocUri, pos: Position) -> (r:
    Option<SymbolLocation>)
    ensures
        opt_location(r) == module_input(*state, *doc, *uri, pos),
{
    let body = match &doc.body {
        Some(b) => b,
        None => {
            return None;
        },
    };
    let offset = match lsp_position_to_byte_offset(&doc.rope, pos) {
        Some(o) => o,
        None => {
            return None;
        },
    };
    let block = match find_module_block_at(body, offset) {
        Some(b) => b,
        None => {
            return None;
        },
    };
    let label = match block_label(block, 0) {
        Some(l) => l,
        None => {
            return None;
        },
    };
    let source = match string_attribute(block, "source") {
        Some(s) => s,
        None => {
            return None;
        },
    };
    let (key, _range) = match attribute_key_at(&block.body, offset, &doc.rope) {
        Some(k) => k,
        None => {
            return None;
        },
    };
    if call_setting(key) {
        return None;
    }
    match &uri.dir {
        Some(dir) => match resolve_module_source(
            &state.module_dirs,
            dir.as_str(),
            label,
            source.as_str(),
        ) {
            Some(child) => lookup_child_module_symbol(state, child, false, key),
            None => None,
        },
        None => None,
    }
}

// ---------------------------------------------------------------------
// Module outputs

/// The first operator at or after `i` that is no index.
pub open spec fn after_indexes(ops: Seq<Operator>, i: int) -> int
    decreases ops.len() - i,
{
    if 0 <= i < ops.len() && ops[i].kind is Index {
        after_indexes(ops, i + 1)
    } else {
        i
    }
}

/// The end of the last attribute segment among the operators from `i` up to
/// `n` that has a place.
pub open spec fn last_segment_end(ops: Seq<Operator>, i: int, n: int) -> Option<usize>
    decreases n,
{
    if n <= i || n <= 0 {
        None
    } else {
        match ops[n - 1].kind {
            TraversalOperator::GetAttr(ident) => match ident.span {
                Some(s) => Some(s.end),
                None => last_segment_end(ops, i, n - 1),
            },
            _ => last_segment_end(ops, i, n - 1),
        }
    }
}

/// The label and the output of `module.LABEL.OUTPUT`, where the offset is on
/// the output or on an attribute behind it. Indexes may follow the label.
pub open spec fn output_hit(ops: Seq<Operator>, offset: int) -> Option<(Seq<char>, Seq<char>)> {
    if ops.len() == 0 {
        None
    } else {
        match ops[0].kind {
            TraversalOperator::GetAttr(label) => {
                let i = after_indexes(ops, 1);
                if i < ops.len() {
                    match ops[i].kind {
                        TraversalOperator::GetAttr(output) => match output.span {
                            Some(span) => {
                                let end = match last_segment_end(ops, i, ops.len() as int) {
                                    Some(e) => e,
                                    None => span.end,
                                };
                                if span.start <= offset <= end {
                                    Some((label.text@, output.text@))
                                } else {
                                    None
                                }
                            },
                            None => None,
                        },
                        _ => None,
                    }
                } else {
                    None
                }
            },
            _ => None,
        }
    }
}

pub open spec fn hit_view(h: Option<(&str, &str)>) -> Option<(Seq<char>, Seq<char>)> {
    match h {
        Some(h) => Some((h.0@, h.1@)),
        None => None,
    }
}

pub fn module_output_hit<'a>(ops: &'a Vec<Operator>, offset: usize) -> (r: Option<
    (&'a str, &'a str),
>)
    ensures
        hit_view(r) == output_hit(ops@, offset as int),
{
    let n: usize = ops.len();
    if n == 0 {
        return None;
    }
    let label = match &ops[0].kind {
        TraversalOperator::GetAttr(l) => l,
        _ => {
            return None;
        },
    };
    let mut i: usize = 1;
    loop
        invariant
            n == ops@.len(),
            1 <= i <= n,
            after_indexes(ops@, 1) == after_indexes(ops@, i as int),
        ensures
            1 <= i <= n,
            after_indexes(ops@, 1) == i,
        decreases n - i,
    {
        if i >= n {
            break;
        }
        match &ops[i].kind {
            TraversalOperator::Index(_) => {},
            _ => {
                break;
            },
        }
        i += 1;
    }
    if i >= n {
        return None;
    }
    let output = match &ops[i].kind {
        TraversalOperator::GetAttr(o) => o,
        _ => {
            return None;
        },
    };
    let span = match output.span {
        Some(s) => s,
        None => {
            return None;
        },
    };
    let mut end: usize = span.end;
    let mut k: usize = n;
    while k > i
        invariant_except_break
            n == ops@.len(),
            i <= k <= n,
            end == span.end,
            last_segment_end(ops@, i as int, n as int) == last_segment_end(
                ops@,
                i as int,
                k as int,
            ),
        ensures
            end == (match last_segment_end(ops@, i as int, n as int) {
                Some(e) => e,
                None => span.end,
            }),
        decreases k,
    {
        if let TraversalOperator::GetAttr(ident) = &ops[k - 1].kind {
            if let Some(s) = ident.span {
                end = s.end;
                break;
            }
        }
        k -= 1;
    }
    if span.start <= offset && offset <= end {
        Some((label.text.as_str(), output.text.as_str()))
    } else {
        None
    }
}

/// The label and the output where an expression is `module.LABEL.OUTPUT` and
/// the offset is on the output.
pub open spec fn output_in(offset: int) -> spec_fn(Expression) -> Option<(Seq<char>, Seq<char>)> {
    |e: Expression|
        match e.kind {
            ExprKind::Traversal(t) => match t.expr.kind {
                ExprKind::Variable(v) => if v@ == "module"@ {
                    output_hit(t.operators@, offset)
                } else {
                    None
                },
                _ => None,
            },
            _ => None,
        }
}

/// The module output under an offset, in any expression of a body.
pub fn find_module_output_segment_at<'a>(body: &'a Body, offset: usize) -> (r: Option<
    (&'a str, &'a str),
>)
    ensures
        hit_view(r) == find_map(body_exprs(*body), output_in(offset as int)),
{
    let list = walk_expressions(body);
    let ghost s = body_exprs(*body);
    let ghost f = output_in(offset as int);
    proof {
        lemma_take_full(s);
    }
    for i in 0..list.len()
        invariant
            pointees(list@) == s,
            s == body_exprs(*body),
            f == output_in(offset as int),
            find_map(s, f) == find_map(s.skip(i as int), f),
    {
        proof {
            lemma_find_map_step(s, f, i as int);
            assert(s[i as int] == *list@[i as int]);
        }
        let e: &'a Expression = list[i];
        if let ExprKind::Traversal(t) = &e.kind {
            if let ExprKind::Variable(v) = &t.expr.kind {
                if str_eq(v.as_str(), "module") {
                    let hit = module_output_hit(&t.operators, offset);
                    if hit.is_some() {
                        return hit;
                    }
                }
            }
        }
    }
    None
}

/// Where the output behind `module.LABEL.OUTPUT` is declared.
pub open spec fn module_output(
    state: StateStore,
    doc: DocumentState,
    uri: DocUri,
    pos: Position,
) -> Option<LocationV> {
    match (doc.body, position_offset(rope_text(doc.rope), pos)) {
        (Some(body), Some(offset)) => match find_map(body_exprs(body), output_in(offset)) {
            Some((label, output)) => match (
                lookup(doc.symbols.module_sources@, label),
                opt_view(uri.dir),
            ) {
                (Some(source), Some(dir)) => match module_target(
                    state.module_dirs@,
                    dir,
                    label,
                    source@,
                ) {
                    Some(child) => find_map(state.documents@, declared_in(child, true, output)),
                    None => None,
                },
                _ => None,
            },
            None => None,
        },
        _ => None,
    }
}

/// Where the cursor is on the output of `module.LABEL.OUTPUT`: the
/// declaration of that output in the called module.
pub fn module_output_goto_at(state: &StateStore, doc: &DocumentState, uri: &DocUri, pos: Position) -> (r:
    Option<SymbolLocation>)
    ensures
        opt_location(r) == module_output(*state, *doc, *uri, pos),
{
    let body = match &doc.body {
        Some(b) => b,
        None => {
            return None;
        },
    };
    let offset = match lsp_position_to_byte_offset(&doc.rope, pos) {
        Some(o) => o,
        None => {
            return None;
        },
    };
    let (label, output) = match find_module_output_segment_at(body, offset) {
        Some(h) => h,
        None => {
            return None;
        },
    };
    match (find_entry(&doc.symbols.module_sources, label), &uri.dir) {
        (Some(source), Some(dir)) => match resolve_module_source(
            &state.module_dirs,
            dir.as_str(),
            label,
            source.as_str(),
        ) {
            Some(child) => lookup_child_module_symbol(state, child, true, output),
            None => None,
        },
        _ => None,
    }
}

// ---------------------------------------------------------------------
// Definitions and references

pub open spec fn place_in(dir: Seq<char>) -> spec_fn(SymbolLocation) -> bool {
    |l: SymbolLocation| opt_view(l.dir) == Some(dir)
}

/// The places that can be seen from a module: those in its directory, or all
/// where the directory is not known.
pub open spec fn visible(all: Seq<SymbolLocation>, dir: Option<Seq<char>>) -> Seq<LocationV> {
    match dir {
        Some(d) => locations_view(keep(all, place_in(d))),
        None => locations_view(all),
    }
}

fn push_visible(
    out: &mut Vec<SymbolLocation>,
    index: &Vec<SymbolIndex>,
    key: &SymbolKey,
    dir: &Option<String>,
)
    ensures
        locations_view(final(out)@) == locations_view(old(out)@) + visible(
            places(index@, key@),
            opt_view(*dir),
        ),
{
    let ghost start = locations_view(out@);
    let ghost s = places(index@, key@);
    let ghost d = opt_view(*dir);
    match find_places(index, key) {
        None => {
            assert(s =~= Seq::<SymbolLocation>::empty());
            assert(visible(s, d) =~= Seq::<LocationV>::empty());
            assert(locations_view(out@) =~= start + visible(s, d));
        },
        Some(all) => {
            proof {
                lemma_take_full(s);
                assert(visible(s.take(0), d) =~= Seq::<LocationV>::empty());
            }
            assert(locations_view(out@) =~= start + visible(s.take(0), d));
            for i in 0..all.len()
                invariant
                    all@ == s,
                    d == opt_view(*dir),
                    locations_view(out@) == start + visible(s.take(i as int), d),
            {
                let ghost before = locations_view(out@);
                let l = &all[i];
                let seen = match (dir, &l.dir) {
                    (Some(d), Some(own)) => str_eq(d.as_str(), own.as_str()),
                    (Some(_), None) => false,
                    (None, _) => true,
                };
                proof {
                    if d is Some {
                        lemma_keep_step(s, place_in(d->0), i as int);
                    }
                }
                if seen {
                    out.push(l.duplicate());
                    assert(visible(s.take(i + 1), d) =~= visible(s.take(i as int), d).push(
                        s[i as int]@,
                    ));
                    assert(locations_view(out@) =~= before.push(s[i as int]@));
                    assert(locations_view(out@) =~= start + visible(s.take(i + 1), d));
                }
            }
        },
    }
}

/// Where to go: to one place, or to a choice of places.
pub enum GotoTarget {
    One(SymbolLocation),
    Many(Vec<SymbolLocation>),
}

pub enum GotoV {
    One(LocationV),
    Many(Seq<LocationV>),
}

pub open spec fn opt_goto(t: Option<GotoTarget>) -> Option<GotoV> {
    match t {
        Some(GotoTarget::One(l)) => Some(GotoV::One(l@)),
        Some(GotoTarget::Many(v)) => Some(GotoV::Many(locations_view(v@))),
        None => None,
    }
}

/// The places of a symbol, `None` where there are none.
pub open spec fn some_places(v: Seq<LocationV>) -> Option<Seq<LocationV>> {
    if v.len() == 0 {
        None
    } else {
        Some(v)
    }
}

/// Where a reference leads: the input or the output of a called module, else
/// the definitions in the module of the reference.
pub open spec fn definition_of(state: StateStore, uri: DocUri, pos: Position) -> Option<GotoV> {
    match find_map(state.documents@, primary_doc(uri)) {
        Some(doc) => match either(
            module_input(state, doc, uri, pos),
            module_output(state, doc, uri, pos),
        ) {
            Some(l) => Some(GotoV::One(l)),
            None => match reference_at(doc, pos) {
                Some(r) => match some_places(
                    visible(
                        places(state.definitions_by_name@, key_of(r.kind)),
                        opt_view(uri.dir),
                    ),
                ) {
                    Some(v) => Some(GotoV::Many(v)),
                    None => None,
                },
                None => None,
            },
        },
        None => None,
    }
}

/// Where the definition of what is under the cursor stands.
pub fn goto_definition(state: &StateStore, uri: &DocUri, pos: Position) -> (r: Option<GotoTarget>)
    ensures
        opt_goto(r) == definition_of(*state, *uri, pos),
{
    let doc = match find_doc(state, uri) {
        Some(d) => d,
        None => {
            return None;
        },
    };
    if let Some(l) = module_input_goto_at(state, doc, uri, pos) {
        return Some(GotoTarget::One(l));
    }
    if let Some(l) = module_output_goto_at(state, doc, uri, pos) {
        return Some(GotoTarget::One(l));
    }
    let key = match reference_at_position(doc, pos) {
        Some(reference) => reference_key(&reference.kind),
        None => {
            return None;
        },
    };
    let mut out: Vec<SymbolLocation> = Vec::new();
    assert(locations_view(out@) =~= Seq::<LocationV>::empty());
    push_visible(&mut out, &state.definitions_by_name, &key, &uri.dir);
    assert(locations_view(out@) =~= visible(
        places(state.definitions_by_name@, key@),
        opt_view(uri.dir),
    ));
    assert(locations_view(out@).len() == out@.len());
    if out.len() == 0 {
        None
    } else {
        Some(GotoTarget::Many(out))
    }
}

/// A declaration is looked up like a definition.
pub fn goto_declaration(state: &StateStore, uri: &DocUri, pos: Position) -> (r: Option<GotoTarget>)
    ensures
        opt_goto(r) == definition_of(*state, *uri, pos),
{
    goto_definition(state, uri, pos)
}

/// The places of the symbol under the cursor in its module, the definitions
/// first where they are asked for.
pub open spec fn references_of(
    state: StateStore,
    uri: DocUri,
    pos: Position,
    include_declaration: bool,
) -> Option<Seq<LocationV>> {
    match find_map(state.documents@, primary_doc(uri)) {
        Some(doc) => match key_under(doc, pos) {
            Some(key) => some_places(
                (if include_declaration {
                    visible(places(state.definitions_by_name@, key), opt_view(uri.dir))
                } else {
                    Seq::empty()
                }) + visible(places(state.references_by_name@, key), opt_view(uri.dir)),
            ),
            None => None,
        },
        None => None,
    }
}

pub open spec fn opt_locations(v: Option<Vec<SymbolLocation>>) -> Option<Seq<LocationV>> {
    match v {
        Some(v) => Some(locations_view(v@)),
        None => None,
    }
}

/// Where the symbol under the cursor is used in its module.
pub fn references(state: &StateStore, uri: &DocUri, pos: Position, include_declaration: bool) -> (r:
    Option<Vec<SymbolLocation>>)
    ensures
        opt_locations(r) == references_of(*state, *uri, pos, include_declaration),
{
    let doc = match find_doc(state, uri) {
        Some(d) => d,
        None => {
            return None;
        },
    };
    let key = match key_at_cursor(doc, pos) {
        Some(k) => k,
        None => {
            return None;
        },
    };
    let mut out: Vec<SymbolLocation> = Vec::new();
    assert(locations_view(out@) =~= Seq::<LocationV>::empty());
    if include_declaration {
        push_visible(&mut out, &state.definitions_by_name, &key, &uri.dir);
        assert(locations_view(out@) =~= visible(
            places(state.definitions_by_name@, key@),
            opt_view(uri.dir),
        ));
    }
    push_visible(&mut out, &state.references_by_name, &key, &uri.dir);
    assert(locations_view(out@).len() == out@.len());
    if out.len() == 0 {
        None
    } else {
        Some(out)
    }
}

pub open spec fn kind_word(kind: SymbolKind) -> Seq<char> {
    match kind {
        SymbolKind::Variable => "variable"@,
        SymbolKind::Local => "local"@,
        SymbolKind::Output => "output"@,
        SymbolKind::Module => "module"@,
        SymbolKind::Resource => "resource"@,
        SymbolKind::DataSource => "data source"@,
        SymbolKind::Provider => "provider"@,
        SymbolKind::TerraformBlock => "terraform block"@,
    }
}

pub open spec fn key_description(key: KeyV) -> Seq<char> {
    "**"@ + kind_word(key.kind) + "** `"@ + key.name + "`"@
}

/// What a hover says of a symbol.
pub fn describe_key(key: &SymbolKey) -> (r: String)
    ensures
        r@ == key_description(key@),
{
    let kind = match key.kind {
        SymbolKind::Variable => "variable",
        SymbolKind::Local => "local",
        SymbolKind::Output => "output",
        SymbolKind::Module => "module",
        SymbolKind::Resource => "resource",
        SymbolKind::DataSource => "data source",
        SymbolKind::Provider => "provider",
        SymbolKind::TerraformBlock => "terraform block",
    };
    crate::text::concat5("**", kind, "** `", key.name.as_str(), "`")
}

/// From a document with a directory, neither a definition nor a reference of
/// another module is shown.
pub proof fn results_stay_in_module(all: Seq<SymbolLocation>, dir: Seq<char>, i: int)
    requires
        0 <= i < visible(all, Some(dir)).len(),
    ensures
        visible(all, Some(dir))[i].dir == Some(dir),
{
    let kept = keep(all, place_in(dir));
    assert(kept.contains(kept[i]));
    crate::seqs::lemma_keep_contains(all, place_in(dir), kept[i]);
}

} // verus!
