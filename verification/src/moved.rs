//! `moved` blocks.

use crate::hcl::{
    attr_pointees, attributes, block_pointees, blocks_named, list_attributes, list_blocks_named,
    Attribute, Block, Body, ExprKind, Operator, Traversal, TraversalOperator,
};
use crate::seqs::{
    filter_map, find_map, flat_map, lemma_filter_map_step, lemma_find_map_step,
    lemma_flat_map_step, lemma_take_full,
};
use crate::state::{in_dir, is_in_dir, DocumentState, StateStore};
use crate::text::{opt_view, split_once, str_eq, str_split_once};
use vstd::prelude::*;

verus! {

/// Attribute steps as text, each after a dot; `None` where another step is
/// among them.
pub open spec fn steps_text(ops: Seq<Operator>) -> Option<Seq<char>>
    decreases ops.len(),
{
    if ops.len() == 0 {
        Some(Seq::empty())
    } else {
        match (steps_text(ops.drop_last()), ops.last().kind) {
            (Some(t), TraversalOperator::GetAttr(i)) => Some(t + "."@ + i.text@),
            _ => None,
        }
    }
}

/// The dotted text of a traversal of names.
pub open spec fn traversal_text(t: Traversal) -> Option<Seq<char>> {
    match (t.expr.kind, steps_text(t.operators@)) {
        (ExprKind::Variable(head), Some(s)) => Some(head@ + s),
        _ => None,
    }
}

proof fn lemma_steps_prefix(ops: Seq<Operator>, n: int)
    requires
        0 <= n <= ops.len(),
        steps_text(ops.take(n)) is None,
    ensures
        steps_text(ops) is None,
    decreases ops.len() - n,
{
    if n < ops.len() {
        assert(ops.take(n + 1).drop_last() =~= ops.take(n));
        lemma_steps_prefix(ops, n + 1);
    } else {
        assert(ops.take(n) =~= ops);
    }
}

/// The dotted text of a traversal of names.
pub fn traversal_string(t: &Traversal) -> (r: Option<String>)
    ensures
        opt_view(r) == traversal_text(*t),
{
    let head = match &t.expr.kind {
        ExprKind::Variable(v) => v,
        _ => {
            return None;
        },
    };
    let mut steps = String::new();
    assert(t.operators@.take(0) =~= Seq::<Operator>::empty());
    for i in 0..t.operators.len()
        invariant
            steps_text(t.operators@.take(i as int)) == Some(steps@),
    {
        assert(t.operators@.take(i + 1).drop_last() =~= t.operators@.take(i as int));
        match &t.operators[i].kind {
            TraversalOperator::GetAttr(d) => {
                steps.append(".");
                steps.append(d.text.as_str());
            },
            _ => {
                proof {
                    lemma_steps_prefix(t.operators@, i + 1);
                }
                return None;
            },
        }
    }
    assert(t.operators@.take(t.operators@.len() as int) =~= t.operators@);
    let mut out = head.clone();
    out.append(steps.as_str());
    Some(out)
}

pub open spec fn attr_traversal(key: Seq<char>) -> spec_fn(Attribute) -> Option<Option<Seq<char>>> {
    |a: Attribute|
        if a.key.text@ == key {
            match a.value.kind {
                ExprKind::Traversal(t) => Some(traversal_text(*t)),
                _ => None,
            }
        } else {
            None
        }
}

/// The dotted text of the first attribute with the key that is a traversal.
pub open spec fn body_traversal(body: Body, key: Seq<char>) -> Option<Seq<char>> {
    match find_map(attributes(body), attr_traversal(key)) {
        Some(t) => t,
        None => None,
    }
}

/// The dotted text of an attribute's traversal.
pub fn traversal_attr_string(body: &Body, key: &str) -> (r: Option<String>)
    ensures
        opt_view(r) == body_traversal(*body, key@),
{
    let attrs = list_attributes(body);
    let ghost es = attributes(*body);
    let ghost f = attr_traversal(key@);
    proof {
        lemma_take_full(es);
    }
    for i in 0..attrs.len()
        invariant
            es == attributes(*body),
            attr_pointees(attrs@) == es,
            f == attr_traversal(key@),
            find_map(es, f) == find_map(es.skip(i as int), f),
    {
        proof {
            lemma_find_map_step(es, f, i as int);
            assert(es[i as int] == *attrs@[i as int]);
        }
        if str_eq(attrs[i].key.text.as_str(), key) {
            if let ExprKind::Traversal(t) = &attrs[i].value.kind {
                return traversal_string(t);
            }
        }
    }
    None
}

/// The type that a block moves from, the type it moves to, and the name.
pub type MoveV = (Seq<char>, Seq<char>, Seq<char>);

pub open spec fn moved_pair() -> spec_fn(Block) -> Option<MoveV> {
    |b: Block|
        match (body_traversal(b.body, "from"@), body_traversal(b.body, "to"@)) {
            (Some(from), Some(to)) => match (split_once(from, '.'), split_once(to, '.')) {
                (Some(f), Some(t)) => Some((f.0, t.0, f.1)),
                _ => None,
            },
            _ => None,
        }
}

pub open spec fn doc_moved_pairs(dir: Seq<char>) -> spec_fn(DocumentState) -> Seq<MoveV> {
    |d: DocumentState|
        if in_dir(d, dir) {
            match d.body {
                Some(b) => filter_map(blocks_named(b, "moved"@), moved_pair()),
                None => Seq::empty(),
            }
        } else {
            Seq::empty()
        }
}

/// What the `moved` blocks of a module already cover.
pub open spec fn existing_moves(docs: Seq<DocumentState>, dir: Seq<char>) -> Seq<MoveV> {
    flat_map(docs, doc_moved_pairs(dir))
}

pub struct Move {
    pub from_type: String,
    pub to_type: String,
    pub name: String,
}

pub open spec fn moves_view(v: Seq<Move>) -> Seq<MoveV> {
    Seq::new(v.len(), |i: int| (v[i].from_type@, v[i].to_type@, v[i].name@))
}

fn block_move(b: &Block) -> (r: Option<Move>)
    ensures
        match r {
            Some(m) => moved_pair()(*b) == Some((m.from_type@, m.to_type@, m.name@)),
            None => moved_pair()(*b) is None,
        },
{
    let from = traversal_attr_string(&b.body, "from");
    let to = traversal_attr_string(&b.body, "to");
    if let (Some(from), Some(to)) = (from, to) {
        if let Some(f) = str_split_once(from.as_str(), '.') {
            if let Some(t) = str_split_once(to.as_str(), '.') {
                return Some(Move { from_type: f.0, to_type: t.0, name: f.1 });
            }
        }
    }
    None
}

/// What the `moved` blocks of a module already cover.
pub fn collect_existing_moved_pairs(state: &StateStore, module_dir: &str) -> (r: Vec<Move>)
    ensures
        moves_view(r@) == existing_moves(state.documents@, module_dir@),
{
    let mut out: Vec<Move> = Vec::new();
    let ghost f = doc_moved_pairs(module_dir@);
    let ghost g = moved_pair();
    proof {
        lemma_take_full(state.documents@);
    }
    assert(moves_view(out@) =~= flat_map(state.documents@.take(0), f));
    for i in 0..state.documents.len()
        invariant
            f == doc_moved_pairs(module_dir@),
            g == moved_pair(),
            moves_view(out@) == flat_map(state.documents@.take(i as int), f),
    {
        let ghost start = moves_view(out@);
        proof {
            lemma_flat_map_step(state.documents@, f, i as int);
        }
        let mut done = false;
        if is_in_dir(&state.documents[i], module_dir) {
            if let Some(body) = &state.documents[i].body {
                let bs = list_blocks_named(body, "moved");
                let ghost s = block_pointees(bs@);
                proof {
                    lemma_take_full(s);
                }
                assert(moves_view(out@) =~= start + filter_map(s.take(0), g));
                for j in 0..bs.len()
                    invariant
                        s == block_pointees(bs@),
                        g == moved_pair(),
                        moves_view(out@) == start + filter_map(s.take(j as int), g),
                {
                    proof {
                        lemma_filter_map_step(s, g, j as int);
                        assert(s[j as int] == *bs@[j as int]);
                    }
                    let ghost before = moves_view(out@);
                    if let Some(m) = block_move(bs[j]) {
                        out.push(m);
                        assert(moves_view(out@) =~= before.push(
                            (m.from_type@, m.to_type@, m.name@),
                        ));
                    }
                    assert(moves_view(out@) =~= start + filter_map(s.take(j + 1), g));
                }
                done = true;
            }
        }
        assert(!done ==> moves_view(out@) =~= start + f(state.documents@[i as int]));
        assert(moves_view(out@) =~= start + f(state.documents@[i as int]));
    }
    out
}

/// Is the move among those that are covered?
pub fn covers(v: &Vec<Move>, from: &str, to: &str, name: &str) -> (r: bool)
    ensures
        r == moves_view(v@).contains((from@, to@, name@)),
{
    for i in 0..v.len()
        invariant
            forall|j: int| 0 <= j < i ==> #[trigger] moves_view(v@)[j] != (from@, to@, name@),
    {
        if str_eq(v[i].from_type.as_str(), from) && str_eq(v[i].to_type.as_str(), to) && str_eq(
            v[i].name.as_str(),
            name,
        ) {
            assert(moves_view(v@)[i as int] == (from@, to@, name@));
            return true;
        }
        assert(moves_view(v@)[i as int] != (from@, to@, name@));
    }
    false
}

/// A `moved` block from one address to another of the same name.
pub open spec fn moved_block(from: Seq<char>, to: Seq<char>, name: Seq<char>) -> Seq<char> {
    "moved {\n  from = "@ + from + "."@ + name + "\n  to   = "@ + to + "."@ + name + "\n}\n"@
}

pub fn format_moved(from: &str, to: &str, name: &str) -> (r: String)
    ensures
        r@ == moved_block(from@, to@, name@),
{
    let mut out = "moved {\n  from = ".to_owned();
    out.append(from);
    out.append(".");
    out.append(name);
    out.append("\n  to   = ");
    out.append(to);
    out.append(".");
    out.append(name);
    out.append("\n}\n");
    out
}

} // verus!
