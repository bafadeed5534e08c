//! How the calls of modules are followed into the called modules.

use crate::hcl::{
    attribute_in, attributes, block_with, blocks_named, body_exprs, Attribute, Block, Body,
    ExprKind, Structure, TraversalOperator,
};
use crate::hover::{input_text, module_input_answer, variable_in};
use crate::laws::hover::{is_named, lacks, lemma_lacks, lemma_named};
use crate::navigation::{
    block_holding, declared_in, key_holding, module_dir_for, module_input, module_key_at,
    module_output, module_target, output_in, string_of_key, string_under, symbol_named,
};
use crate::position::{position_offset, rope_text, span_range, Position, Span};
use crate::seqs::{find_map, lemma_filter_map_contains, lemma_find_map_at, lemma_find_map_first};
use crate::state::{DocUri, DocumentState, LocationV, ModuleDir, StateStore, Symbol};
use vstd::prelude::*;

verus! {

/// The offset lies in a span, both ends included.
pub open spec fn covers(s: Option<Span>, offset: int) -> bool {
    s is Some && s->0.start <= offset && offset <= s->0.end
}

pub open spec fn has_block(body: Body, b: Block) -> bool {
    body.structures@.contains(Structure::Block(b))
}

pub open spec fn has_attribute(body: Body, a: Attribute) -> bool {
    body.structures@.contains(Structure::Attribute(a))
}

/// A body gives a key a plain string.
pub open spec fn sets_string(body: Body, key: Seq<char>, value: Seq<char>) -> bool {
    exists|a: Attribute| #[trigger]
        has_attribute(body, a) && a.key.text@ == key && match a.value.kind {
            ExprKind::Str(s) => s@ == value,
            _ => false,
        }
}

pub proof fn lemma_attributes(body: Body, a: Attribute)
    ensures
        attributes(body).contains(a) <==> has_attribute(body, a),
{
    let s = body.structures@;
    lemma_filter_map_contains(s, attribute_in(), a);
    if has_attribute(body, a) {
        let i = choose|i: int| 0 <= i < s.len() && s[i] == Structure::Attribute(a);
        assert(attribute_in()(s[i]) == Some(a));
    }
    if attributes(body).contains(a) {
        let i = choose|i: int| 0 <= i < s.len() && attribute_in()(#[trigger] s[i]) == Some(a);
        assert(s[i] == Structure::Attribute(a));
    }
}

pub proof fn lemma_blocks_named(body: Body, name: Seq<char>, b: Block)
    ensures
        blocks_named(body, name).contains(b) <==> has_block(body, b) && b.ident.text@ == name,
{
    let s = body.structures@;
    lemma_filter_map_contains(s, block_with(name), b);
    if has_block(body, b) && b.ident.text@ == name {
        let i = choose|i: int| 0 <= i < s.len() && s[i] == Structure::Block(b);
        assert(block_with(name)(s[i]) == Some(b));
    }
    if blocks_named(body, name).contains(b) {
        let i = choose|i: int| 0 <= i < s.len() && block_with(name)(#[trigger] s[i]) == Some(b);
        assert(s[i] == Structure::Block(b));
    }
}

/// An attribute of a module call whose key an offset is on: the call has a
/// label and a source.
pub open spec fn is_call_key(
    body: Body,
    offset: int,
    label: Seq<char>,
    source: Seq<char>,
    b: Block,
    a: Attribute,
) -> bool {
    &&& has_block(body, b)
    &&& b.ident.text@ == "module"@
    &&& covers(b.span, offset)
    &&& b.labels@.len() > 0 && b.labels@[0].text@ == label
    &&& sets_string(b.body, "source"@, source)
    &&& has_attribute(b.body, a)
    &&& covers(a.key.span, offset)
}

/// The source of a call in a directory leads to another directory.
pub open spec fn leads_to(
    dirs: Seq<ModuleDir>,
    dir: Option<String>,
    label: Seq<char>,
    source: Seq<char>,
    child: Seq<char>,
) -> bool {
    dir is Some && exists|m: int|
        0 <= m < dirs.len() && (#[trigger] dirs[m]).dir@ == dir->0@ && dirs[m].label@ == label
            && dirs[m].source@ == source && dirs[m].child@ == child
}

/// A document of a directory has a symbol of the name in a table, there.
pub open spec fn declared_at(
    docs: Seq<DocumentState>,
    dir: Seq<char>,
    outputs: bool,
    name: Seq<char>,
    l: LocationV,
) -> bool {
    exists|d: int, i: int|
        #![trigger docs[d], table_of(docs[d], outputs)[i]]
        0 <= d < docs.len() && docs[d].uri.dir is Some && docs[d].uri.dir->0@ == dir && 0 <= i
            < table_of(docs[d], outputs).len() && table_of(docs[d], outputs)[i].name@ == name
            && table_of(docs[d], outputs)[i].location.range == l.range && table_of(
            docs[d],
            outputs,
        )[i].location.uri@ == l.uri
}

pub open spec fn table_of(d: DocumentState, outputs: bool) -> Seq<Symbol> {
    if outputs {
        d.symbols.outputs@
    } else {
        d.symbols.variables@
    }
}

/// What a key of a module call is about: an input of the called module.
pub open spec fn is_input(
    state: StateStore,
    body: Body,
    dir: Option<String>,
    offset: int,
    l: LocationV,
    label: Seq<char>,
    source: Seq<char>,
    b: Block,
    a: Attribute,
    child: Seq<char>,
) -> bool {
    &&& is_call_key(body, offset, label, source, b, a)
    &&& a.key.text@ != "source"@ && a.key.text@ != "version"@ && a.key.text@ != "providers"@
        && a.key.text@ != "count"@ && a.key.text@ != "for_each"@ && a.key.text@ != "depends_on"@
    &&& leads_to(state.module_dirs@, dir, label, source, child)
    &&& declared_at(state.documents@, child, false, a.key.text@, l)
}

proof fn lemma_call_key(body: Body, t: Seq<char>, offset: int) -> (r: (Block, Attribute))
    requires
        module_key_at(body, t, offset) is Some,
    ensures
        ({
            let (label, source, key, range) = module_key_at(body, t, offset)->0;
            is_call_key(body, offset, label, source, r.0, r.1) && r.1.key.text@ == key && span_range(
                t,
                r.1.key.span->0,
            ) == Some(range)
        }),
{
    let calls = blocks_named(body, "module"@);
    let n = lemma_find_map_first(calls, block_holding(offset));
    let b = calls[n];
    lemma_blocks_named(body, "module"@, b);
    assert(calls.contains(b));
    let attrs = attributes(b.body);
    let i = lemma_find_map_first(attrs, string_under("source"@));
    lemma_attributes(b.body, attrs[i]);
    assert(attrs.contains(attrs[i]));
    let j = lemma_find_map_first(attrs, key_holding(t, offset));
    lemma_attributes(b.body, attrs[j]);
    assert(attrs.contains(attrs[j]));
    assert(sets_string(b.body, "source"@, string_of_key(b, "source"@)->0));
    (b, attrs[j])
}

proof fn lemma_leads_to(
    dirs: Seq<ModuleDir>,
    dir: Option<String>,
    label: Seq<char>,
    source: Seq<char>,
)
    requires
        dir is Some,
    ensures
        module_target(dirs, dir->0@, label, source) matches Some(child) ==> leads_to(
            dirs,
            dir,
            label,
            source,
            child,
        ),
{
    let m = lemma_find_map_first(dirs, module_dir_for(dir->0@, label, source));
}

proof fn lemma_declared_in(
    docs: Seq<DocumentState>,
    dir: Seq<char>,
    outputs: bool,
    name: Seq<char>,
)
    ensures
        match find_map(docs, declared_in(dir, outputs, name)) {
            Some(l) => declared_at(docs, dir, outputs, name, l),
            None => forall|d: int, i: int|
                #![trigger docs[d], table_of(docs[d], outputs)[i]]
                0 <= d < docs.len() && docs[d].uri.dir is Some && docs[d].uri.dir->0@ == dir && 0
                    <= i < table_of(docs[d], outputs).len() ==> table_of(
                    docs[d],
                    outputs,
                )[i].name@ != name,
        },
{
    let f = declared_in(dir, outputs, name);
    let d = lemma_find_map_first(docs, f);
    match find_map(docs, f) {
        Some(l) => {
            let table = table_of(docs[d], outputs);
            let i = lemma_find_map_first(table, symbol_named(name));
            assert(table_of(docs[d], outputs)[i].name@ == name);
        },
        None => {
            assert forall|d: int, i: int|
                #![trigger docs[d], table_of(docs[d], outputs)[i]]
                0 <= d < docs.len() && docs[d].uri.dir is Some && docs[d].uri.dir->0@ == dir && 0
                    <= i < table_of(docs[d], outputs).len() implies table_of(
                docs[d],
                outputs,
            )[i].name@ != name by {
                assert(f(docs[d]) is None);
                let table = table_of(docs[d], outputs);
                let k = lemma_find_map_first(table, symbol_named(name));
                assert(symbol_named(name)(table[i]) is None);
            }
        },
    }
}

/// From a key of a module call one goes to a variable of that name in the
/// directory that the source of the call leads to; the keys of the call itself
/// lead nowhere.
pub proof fn inputs_lead_to_variables_of_the_called_module(
    state: StateStore,
    doc: DocumentState,
    uri: DocUri,
    pos: Position,
)
    requires
        doc.body is Some,
        position_offset(rope_text(doc.rope), pos) is Some,
    ensures
        module_input(state, doc, uri, pos) matches Some(l) ==> exists|
            label: Seq<char>,
            source: Seq<char>,
            b: Block,
            a: Attribute,
            child: Seq<char>,
        | #[trigger]
            is_input(
                state,
                doc.body->0,
                uri.dir,
                position_offset(rope_text(doc.rope), pos)->0,
                l,
                label,
                source,
                b,
                a,
                child,
            ),
{
    if module_input(state, doc, uri, pos) is Some {
        let t = rope_text(doc.rope);
        let offset = position_offset(t, pos)->0;
        let body = doc.body->0;
        let (label, source, key, range) = module_key_at(body, t, offset)->0;
        let (b, a) = lemma_call_key(body, t, offset);
        lemma_leads_to(state.module_dirs@, uri.dir, label, source);
        let child = module_target(state.module_dirs@, uri.dir->0@, label, source)->0;
        lemma_declared_in(state.documents@, child, false, key);
        assert(is_input(
            state,
            body,
            uri.dir,
            offset,
            module_input(state, doc, uri, pos)->0,
            label,
            source,
            b,
            a,
            child,
        ));
    }
}

/// Where a key of a module call is found under the cursor, and the source of
/// the call leads to a directory with a variable of that name, there is a place
/// to go to.
pub proof fn declared_inputs_are_found(
    state: StateStore,
    doc: DocumentState,
    uri: DocUri,
    pos: Position,
    label: Seq<char>,
    source: Seq<char>,
    key: Seq<char>,
    m: int,
    d: int,
    i: int,
)
    requires
        doc.body is Some,
        position_offset(rope_text(doc.rope), pos) is Some,
        module_key_at(
            doc.body->0,
            rope_text(doc.rope),
            position_offset(rope_text(doc.rope), pos)->0,
        ) matches Some(k) && k.0 == label && k.1 == source && k.2 == key,
        key != "source"@ && key != "version"@ && key != "providers"@ && key != "count"@ && key
            != "for_each"@ && key != "depends_on"@,
        uri.dir is Some,
        first_target(state.module_dirs@, uri.dir->0@, label, source, m),
        0 <= d < state.documents@.len(),
        state.documents@[d].uri.dir is Some,
        state.documents@[d].uri.dir->0@ == state.module_dirs@[m].child@,
        0 <= i < state.documents@[d].symbols.variables@.len(),
        state.documents@[d].symbols.variables@[i].name@ == key,
    ensures
        module_input(state, doc, uri, pos) is Some,
        declared_at(
            state.documents@,
            state.module_dirs@[m].child@,
            false,
            key,
            module_input(state, doc, uri, pos)->0,
        ),
{
    lemma_first_target(state.module_dirs@, uri.dir->0@, label, source, m);
    lemma_declared_in(state.documents@, state.module_dirs@[m].child@, false, key);
    assert(table_of(state.documents@[d], false)[i].name@ == key);
}

/// The first entry of the table of directories for a call.
pub open spec fn first_target(
    dirs: Seq<ModuleDir>,
    dir: Seq<char>,
    label: Seq<char>,
    source: Seq<char>,
    m: int,
) -> bool {
    0 <= m < dirs.len() && dirs[m].dir@ == dir && dirs[m].label@ == label && dirs[m].source@
        == source && forall|j: int|
        0 <= j < m ==> !((#[trigger] dirs[j]).dir@ == dir && dirs[j].label@ == label
            && dirs[j].source@ == source)
}

pub proof fn lemma_first_target(
    dirs: Seq<ModuleDir>,
    dir: Seq<char>,
    label: Seq<char>,
    source: Seq<char>,
    m: int,
)
    requires
        first_target(dirs, dir, label, source, m),
    ensures
        module_target(dirs, dir, label, source) == Some(dirs[m].child@),
{
    lemma_find_map_at(dirs, module_dir_for(dir, label, source), m);
}

/// A traversal `module.LABEL.OUTPUT`, with indexes behind the label or not, in
/// which an offset is on the output or behind it.
pub open spec fn is_output_use(
    body: Body,
    offset: int,
    label: Seq<char>,
    output: Seq<char>,
    n: int,
    k: int,
) -> bool {
    0 <= n < body_exprs(body).len() && match body_exprs(body)[n].kind {
        ExprKind::Traversal(t) => {
            &&& t.expr.kind matches ExprKind::Variable(v) && v@ == "module"@
            &&& 1 <= k < t.operators@.len()
            &&& t.operators@[0].kind matches TraversalOperator::GetAttr(l) && l.text@ == label
            &&& forall|j: int| 1 <= j < k ==> (#[trigger] t.operators@[j]).kind is Index
            &&& t.operators@[k].kind matches TraversalOperator::GetAttr(o) && o.text@ == output
                && o.span is Some && o.span->0.start <= offset
        },
        _ => false,
    }
}

proof fn lemma_after_indexes(ops: Seq<crate::hcl::Operator>, i: int)
    requires
        0 <= i <= ops.len(),
    ensures
        i <= crate::navigation::after_indexes(ops, i) <= ops.len(),
        forall|j: int|
            i <= j < crate::navigation::after_indexes(ops, i) ==> (#[trigger] ops[j]).kind is Index,
    decreases ops.len() - i,
{
    if i < ops.len() && ops[i].kind is Index {
        lemma_after_indexes(ops, i + 1);
    }
}

/// What the output of a module call is about: an output of the called module.
pub open spec fn is_output(
    state: StateStore,
    doc: DocumentState,
    dir: Option<String>,
    offset: int,
    l: LocationV,
    label: Seq<char>,
    output: Seq<char>,
    n: int,
    k: int,
    s: int,
    child: Seq<char>,
) -> bool {
    &&& is_output_use(doc.body->0, offset, label, output, n, k)
    &&& is_named(doc.symbols.module_sources@, label, s)
    &&& leads_to(state.module_dirs@, dir, label, doc.symbols.module_sources@[s].1@, child)
    &&& declared_at(state.documents@, child, true, output, l)
}

/// From the output in `module.LABEL.OUTPUT` one goes to an output of that name
/// in the directory that the source of the call leads to.
pub proof fn outputs_lead_to_outputs_of_the_called_module(
    state: StateStore,
    doc: DocumentState,
    uri: DocUri,
    pos: Position,
)
    requires
        doc.body is Some,
        position_offset(rope_text(doc.rope), pos) is Some,
    ensures
        module_output(state, doc, uri, pos) matches Some(l) ==> exists|
            label: Seq<char>,
            output: Seq<char>,
            n: int,
            k: int,
            s: int,
            child: Seq<char>,
        | #[trigger]
            is_output(
                state,
                doc,
                uri.dir,
                position_offset(rope_text(doc.rope), pos)->0,
                l,
                label,
                output,
                n,
                k,
                s,
                child,
            ),
{
    if module_output(state, doc, uri, pos) is Some {
        let offset = position_offset(rope_text(doc.rope), pos)->0;
        let body = doc.body->0;
        let es = body_exprs(body);
        let n = lemma_find_map_first(es, output_in(offset));
        let (label, output) = find_map(es, output_in(offset))->0;
        let ops = es[n].kind->Traversal_0.operators@;
        lemma_after_indexes(ops, 1);
        let k = crate::navigation::after_indexes(ops, 1);
        lemma_lacks(doc.symbols.module_sources@, label);
        let s = lemma_find_map_first(
            doc.symbols.module_sources@,
            crate::schema::entry_named::<String>(label),
        );
        assert forall|j: int| 0 <= j < s implies (
        #[trigger] doc.symbols.module_sources@[j]).0@ != label by {
            assert(crate::schema::entry_named::<String>(label)(doc.symbols.module_sources@[j])
                is None);
        }
        assert(is_named(doc.symbols.module_sources@, label, s));
        let source = doc.symbols.module_sources@[s].1@;
        lemma_leads_to(state.module_dirs@, uri.dir, label, source);
        let child = module_target(state.module_dirs@, uri.dir->0@, label, source)->0;
        lemma_declared_in(state.documents@, child, true, output);
        assert(is_output(
            state,
            doc,
            uri.dir,
            offset,
            module_output(state, doc, uri, pos)->0,
            label,
            output,
            n,
            k,
            s,
            child,
        ));
    }
}

/// Where the output in `module.LABEL.OUTPUT` is found under the cursor, and the
/// source of the call leads to a directory with an output of that name, there
/// is a place to go to.
pub proof fn declared_outputs_are_found(
    state: StateStore,
    doc: DocumentState,
    uri: DocUri,
    pos: Position,
    label: Seq<char>,
    output: Seq<char>,
    s: int,
    m: int,
    d: int,
    i: int,
)
    requires
        doc.body is Some,
        position_offset(rope_text(doc.rope), pos) is Some,
        find_map(
            body_exprs(doc.body->0),
            output_in(position_offset(rope_text(doc.rope), pos)->0),
        ) == Some((label, output)),
        is_named(doc.symbols.module_sources@, label, s),
        uri.dir is Some,
        first_target(
            state.module_dirs@,
            uri.dir->0@,
            label,
            doc.symbols.module_sources@[s].1@,
            m,
        ),
        0 <= d < state.documents@.len(),
        state.documents@[d].uri.dir is Some,
        state.documents@[d].uri.dir->0@ == state.module_dirs@[m].child@,
        0 <= i < state.documents@[d].symbols.outputs@.len(),
        state.documents@[d].symbols.outputs@[i].name@ == output,
    ensures
        module_output(state, doc, uri, pos) is Some,
        declared_at(
            state.documents@,
            state.module_dirs@[m].child@,
            true,
            output,
            module_output(state, doc, uri, pos)->0,
        ),
{
    lemma_named(doc.symbols.module_sources@, label, s);
    lemma_first_target(
        state.module_dirs@,
        uri.dir->0@,
        label,
        doc.symbols.module_sources@[s].1@,
        m,
    );
    lemma_declared_in(state.documents@, state.module_dirs@[m].child@, true, output);
    assert(table_of(state.documents@[d], true)[i].name@ == output);
}

/// The hover of a key of a module call names the key and the type that the
/// called module gives the variable, `any` where it gives none.
pub proof fn hovers_of_inputs_describe_the_variable(
    state: StateStore,
    doc: DocumentState,
    pos: Position,
    label: Seq<char>,
    source: Seq<char>,
    key: Seq<char>,
    m: int,
    d: int,
    i: int,
)
    requires
        doc.body is Some,
        position_offset(rope_text(doc.rope), pos) is Some,
        module_key_at(
            doc.body->0,
            rope_text(doc.rope),
            position_offset(rope_text(doc.rope), pos)->0,
        ) matches Some(k) && k.0 == label && k.1 == source && k.2 == key,
        doc.uri.dir is Some,
        first_target(state.module_dirs@, doc.uri.dir->0@, label, source, m),
        first_declaration(state.documents@, state.module_dirs@[m].child@, key, d, i),
    ensures
        ({
            let t = state.documents@[d].symbols;
            module_input_answer(state, doc, pos) matches Some(h) && {
                &&& forall|n: int|
                    #[trigger] is_named(t.variable_types@, key, n) ==> crate::text::starts_with(
                        h.value,
                        "### `"@ + key + "`  *("@ + t.variable_types@[n].1.text@ + ")*"@,
                    )
                &&& lacks(t.variable_types@, key) ==> crate::text::starts_with(
                    h.value,
                    "### `"@ + key + "`  *("@ + "any"@ + ")*"@,
                )
                &&& t.variables@[i].doc is Some && t.variables@[i].doc->0@.len() > 0
                    ==> crate::text::ends_with(h.value, "\n\n"@ + t.variables@[i].doc->0@)
            }
        }),
{
    lemma_first_target(state.module_dirs@, doc.uri.dir->0@, label, source, m);
    let child = state.module_dirs@[m].child@;
    let docs = state.documents@;
    let t = docs[d].symbols;
    lemma_find_map_at(t.variables@, symbol_named(key), i);
    let f = variable_in(child, key);
    assert forall|j: int| 0 <= j < d implies f(#[trigger] docs[j]) is None by {
        if docs[j].uri.dir is Some && docs[j].uri.dir->0@ == child {
            assert(lacks_variable(docs[j], key));
            let k = lemma_find_map_first(docs[j].symbols.variables@, symbol_named(key));
            if find_map(docs[j].symbols.variables@, symbol_named(key)) is Some {
                assert(docs[j].symbols.variables@[k].name@ == key);
            }
        }
    }
    lemma_find_map_at(docs, f, d);
    let h = module_input_answer(state, doc, pos)->0;
    let (ty, text) = f(docs[d])->0;
    assert(h.value == input_text(key, ty, text));
    let head = "### `"@ + key + "`  *("@ + ty + ")*"@;
    assert(h.value.subrange(0, head.len() as int) =~= head);
    assert forall|n: int| #[trigger] is_named(t.variable_types@, key, n) implies ty
        == t.variable_types@[n].1.text@ by {
        lemma_named(t.variable_types@, key, n);
    }
    lemma_lacks(t.variable_types@, key);
    if t.variables@[i].doc is Some && t.variables@[i].doc->0@.len() > 0 {
        let x = t.variables@[i].doc->0@;
        let tail = "\n\n"@ + x;
        assert(h.value =~= head + tail);
        assert(h.value.subrange(h.value.len() - tail.len(), h.value.len() as int) =~= tail);
    }
}

pub open spec fn lacks_variable(d: DocumentState, name: Seq<char>) -> bool {
    forall|i: int|
        0 <= i < d.symbols.variables@.len() ==> (#[trigger] d.symbols.variables@[i]).name@ != name
}

/// The first variable of a name in the documents of a directory.
pub open spec fn first_declaration(
    docs: Seq<DocumentState>,
    dir: Seq<char>,
    name: Seq<char>,
    d: int,
    i: int,
) -> bool {
    &&& 0 <= d < docs.len()
    &&& docs[d].uri.dir is Some && docs[d].uri.dir->0@ == dir
    &&& 0 <= i < docs[d].symbols.variables@.len()
    &&& docs[d].symbols.variables@[i].name@ == name
    &&& forall|j: int|
        0 <= j < i ==> (#[trigger] docs[d].symbols.variables@[j]).name@ != name
    &&& forall|j: int|
        0 <= j < d && (#[trigger] docs[j]).uri.dir is Some && docs[j].uri.dir->0@ == dir
            ==> lacks_variable(docs[j], name)
}

} // verus!
