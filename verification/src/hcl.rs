//! The syntax tree of a configuration file.
//!
//! The tree holds what the handlers read: names, literal values, the nesting of
//! blocks and expressions, and the byte span of each node where the parser
//! recorded one.

use crate::position::Span;
use crate::seqs::{filter_map, lemma_filter_map_step, lemma_take_full};
use crate::text::str_eq;
use vstd::prelude::*;

verus! {

/// A name and where it stands.
#[derive(Debug)]
pub struct Ident {
    pub text: String,
    pub span: Option<Span>,
}

/// A block label, written with quotes or bare.
#[derive(Debug)]
pub struct BlockLabel {
    pub text: String,
    pub quoted: bool,
    pub span: Option<Span>,
}

#[derive(Debug)]
pub struct Body {
    pub structures: Vec<Structure>,
    /// What stands between the braces; nothing is recorded for an empty body.
    pub span: Option<Span>,
}

#[derive(Debug)]
pub enum Structure {
    Attribute(Attribute),
    Block(Block),
}

#[derive(Debug)]
pub struct Attribute {
    pub key: Ident,
    pub value: Expression,
    pub span: Option<Span>,
}

#[derive(Debug)]
pub struct Block {
    pub ident: Ident,
    pub labels: Vec<BlockLabel>,
    pub body: Body,
    pub span: Option<Span>,
}

#[derive(Debug)]
pub struct Expression {
    pub kind: ExprKind,
    pub span: Option<Span>,
}

#[derive(Debug)]
pub enum ExprKind {
    Null,
    Bool(bool),
    /// A number, as it prints.
    Number(String),
    Str(String),
    Array(Vec<Expression>),
    Object(Vec<ObjectItem>),
    StringTemplate(Vec<Element>),
    HeredocTemplate(Vec<Element>),
    Parenthesis(Box<Expression>),
    Variable(String),
    Conditional(Box<Conditional>),
    FuncCall(FuncCall),
    Traversal(Box<Traversal>),
    UnaryOp(Box<Expression>),
    BinaryOp(Box<BinaryOp>),
    ForExpr(Box<ForExpr>),
}

#[derive(Debug)]
pub struct ObjectItem {
    pub key: ObjectKey,
    pub value: Expression,
}

#[derive(Debug)]
pub enum ObjectKey {
    Ident(Ident),
    Expression(Expression),
}

/// A piece of a template.
#[derive(Debug)]
pub enum Element {
    Literal(String),
    Interpolation(Expression),
    /// An `%{ if }` or `%{ for }` directive: its expressions and those of the
    /// template pieces inside it, in the order in which they stand.
    Directive(Vec<Expression>),
}

#[derive(Debug)]
pub struct Conditional {
    pub cond_expr: Expression,
    pub true_expr: Expression,
    pub false_expr: Expression,
}

#[derive(Debug)]
pub struct FuncCall {
    /// The segments before the last `::`.
    pub namespace: Vec<Ident>,
    pub name: Ident,
    pub args: Vec<Expression>,
}

#[derive(Debug)]
pub struct Traversal {
    pub expr: Expression,
    pub operators: Vec<Operator>,
}

/// A step of a traversal and where it stands.
#[derive(Debug)]
pub struct Operator {
    pub kind: TraversalOperator,
    pub span: Option<Span>,
}

#[derive(Debug)]
pub enum TraversalOperator {
    AttrSplat,
    FullSplat,
    GetAttr(Ident),
    Index(Expression),
    LegacyIndex(u64),
}

#[derive(Debug)]
pub struct BinaryOp {
    pub lhs_expr: Expression,
    pub rhs_expr: Expression,
}

#[derive(Debug)]
pub struct ForExpr {
    pub collection_expr: Expression,
    pub key_expr: Option<Expression>,
    pub value_expr: Expression,
    pub cond_expr: Option<Expression>,
}


// ---------------------------------------------------------------------
// Nested expressions

/// The expressions of an object item: the key where it is an expression, then
/// the value.
pub open spec fn item_exprs(item: ObjectItem) -> Seq<Expression> {
    match item.key {
        ObjectKey::Ident(_) => seq![item.value],
        ObjectKey::Expression(k) => seq![k, item.value],
    }
}

/// The expressions of a template piece.
pub open spec fn element_exprs(el: Element) -> Seq<Expression> {
    match el {
        Element::Literal(_) => Seq::empty(),
        Element::Interpolation(e) => seq![e],
        Element::Directive(v) => v@,
    }
}

/// The expressions of a traversal step.
pub open spec fn operator_exprs(op: Operator) -> Seq<Expression> {
    match op.kind {
        TraversalOperator::Index(e) => seq![e],
        _ => Seq::empty(),
    }
}

pub open spec fn option_expr(e: Option<Expression>) -> Seq<Expression> {
    match e {
        Some(e) => seq![e],
        None => Seq::empty(),
    }
}

pub open spec fn items_exprs(s: Seq<ObjectItem>) -> Seq<Expression>
    decreases s.len(),
{
    if s.len() == 0 {
        Seq::empty()
    } else {
        items_exprs(s.drop_last()) + item_exprs(s.last())
    }
}

pub open spec fn elements_exprs(s: Seq<Element>) -> Seq<Expression>
    decreases s.len(),
{
    if s.len() == 0 {
        Seq::empty()
    } else {
        elements_exprs(s.drop_last()) + element_exprs(s.last())
    }
}

pub open spec fn operators_exprs(s: Seq<Operator>) -> Seq<Expression>
    decreases s.len(),
{
    if s.len() == 0 {
        Seq::empty()
    } else {
        operators_exprs(s.drop_last()) + operator_exprs(s.last())
    }
}

/// The expressions directly inside `e`, in the order in which they stand.
pub open spec fn children(e: Expression) -> Seq<Expression> {
    match e.kind {
        ExprKind::Array(v) => v@,
        ExprKind::Object(v) => items_exprs(v@),
        ExprKind::StringTemplate(v) => elements_exprs(v@),
        ExprKind::HeredocTemplate(v) => elements_exprs(v@),
        ExprKind::Parenthesis(x) => seq![*x],
        ExprKind::Conditional(c) => seq![c.cond_expr, c.true_expr, c.false_expr],
        ExprKind::FuncCall(f) => f.args@,
        ExprKind::Traversal(t) => seq![t.expr] + operators_exprs(t.operators@),
        ExprKind::UnaryOp(x) => seq![*x],
        ExprKind::BinaryOp(b) => seq![b.lhs_expr, b.rhs_expr],
        ExprKind::ForExpr(f) => seq![f.collection_expr] + option_expr(f.key_expr)
            + seq![f.value_expr] + option_expr(f.cond_expr),
        _ => Seq::empty(),
    }
}

proof fn lemma_items_smaller(s: Seq<ObjectItem>, i: int)
    requires
        0 <= i < items_exprs(s).len(),
    ensures
        decreases_to!(s => items_exprs(s)[i]),
    decreases s.len(),
{
    let n = items_exprs(s.drop_last()).len();
    if i < n {
        lemma_items_smaller(s.drop_last(), i);
        assert(decreases_to!(s => s.drop_last()));
    } else {
        assert(decreases_to!(s => s[s.len() - 1]));
        let item = s.last();
        match item.key {
            ObjectKey::Ident(_) => {},
            ObjectKey::Expression(k) => {
                assert(decreases_to!(item => item.key));
                assert(decreases_to!(item.key => k));
            },
        }
        assert(decreases_to!(item => item.value));
    }
}

proof fn lemma_elements_smaller(s: Seq<Element>, i: int)
    requires
        0 <= i < elements_exprs(s).len(),
    ensures
        decreases_to!(s => elements_exprs(s)[i]),
    decreases s.len(),
{
    let n = elements_exprs(s.drop_last()).len();
    if i < n {
        lemma_elements_smaller(s.drop_last(), i);
        assert(decreases_to!(s => s.drop_last()));
    } else {
        assert(decreases_to!(s => s[s.len() - 1]));
        let el = s.last();
        match el {
            Element::Literal(_) => {},
            Element::Interpolation(e) => {
                assert(decreases_to!(el => e));
            },
            Element::Directive(v) => {
                assert(decreases_to!(el => v));
                assert(decreases_to!(v => v@));
                assert(decreases_to!(v@ => v@[i - n]));
            },
        }
    }
}

proof fn lemma_operators_smaller(s: Seq<Operator>, i: int)
    requires
        0 <= i < operators_exprs(s).len(),
    ensures
        decreases_to!(s => operators_exprs(s)[i]),
    decreases s.len(),
{
    let n = operators_exprs(s.drop_last()).len();
    if i < n {
        lemma_operators_smaller(s.drop_last(), i);
        assert(decreases_to!(s => s.drop_last()));
    } else {
        assert(decreases_to!(s => s[s.len() - 1]));
        let op = s.last();
        assert(decreases_to!(op => op.kind));
        match op.kind {
            TraversalOperator::Index(e) => {
                assert(decreases_to!(op.kind => e));
            },
            _ => {},
        }
    }
}

/// A nested expression is structurally smaller than the one that holds it.
pub proof fn lemma_child_smaller(e: Expression, i: int)
    requires
        0 <= i < children(e).len(),
    ensures
        decreases_to!(e => children(e)[i]),
{
    assert(decreases_to!(e => e.kind));
    match e.kind {
        ExprKind::Array(v) => {
            assert(decreases_to!(e.kind => v));
            assert(decreases_to!(v => v@));
            assert(decreases_to!(v@ => v@[i]));
        },
        ExprKind::Object(v) => {
            assert(decreases_to!(e.kind => v));
            assert(decreases_to!(v => v@));
            lemma_items_smaller(v@, i);
        },
        ExprKind::StringTemplate(v) => {
            assert(decreases_to!(e.kind => v));
            assert(decreases_to!(v => v@));
            lemma_elements_smaller(v@, i);
        },
        ExprKind::HeredocTemplate(v) => {
            assert(decreases_to!(e.kind => v));
            assert(decreases_to!(v => v@));
            lemma_elements_smaller(v@, i);
        },
        ExprKind::Parenthesis(x) => {
            assert(decreases_to!(e.kind => *x));
        },
        ExprKind::Conditional(c) => {
            assert(decreases_to!(e.kind => *c));
            assert(decreases_to!(*c => c.cond_expr));
            assert(decreases_to!(*c => c.true_expr));
            assert(decreases_to!(*c => c.false_expr));
        },
        ExprKind::FuncCall(f) => {
            assert(decreases_to!(e.kind => f));
            assert(decreases_to!(f => f.args));
            assert(decreases_to!(f.args => f.args@));
            assert(decreases_to!(f.args@ => f.args@[i]));
        },
        ExprKind::Traversal(t) => {
            assert(decreases_to!(e.kind => *t));
            assert(decreases_to!(*t => t.expr));
            assert(decreases_to!(*t => t.operators));
            assert(decreases_to!(t.operators => t.operators@));
            if i > 0 {
                lemma_operators_smaller(t.operators@, i - 1);
            }
        },
        ExprKind::UnaryOp(x) => {
            assert(decreases_to!(e.kind => *x));
        },
        ExprKind::BinaryOp(b) => {
            assert(decreases_to!(e.kind => *b));
            assert(decreases_to!(*b => b.lhs_expr));
            assert(decreases_to!(*b => b.rhs_expr));
        },
        ExprKind::ForExpr(f) => {
            assert(decreases_to!(e.kind => *f));
            assert(decreases_to!(*f => f.collection_expr));
            assert(decreases_to!(*f => f.key_expr));
            assert(decreases_to!(*f => f.value_expr));
            assert(decreases_to!(*f => f.cond_expr));
            if let Some(k) = f.key_expr {
                assert(decreases_to!(f.key_expr => k));
            }
            if let Some(k) = f.cond_expr {
                assert(decreases_to!(f.cond_expr => k));
            }
        },
        _ => {},
    }
}

/// `e` and every expression inside it, each before what it holds.
pub open spec fn expr_list(e: Expression) -> Seq<Expression>
    decreases e, children(e).len() + 1,
{
    seq![e] + expr_list_upto(e, children(e).len() as int)
}

/// The expressions inside the first `n` children of `e`.
pub open spec fn expr_list_upto(e: Expression, n: int) -> Seq<Expression>
    decreases e, n,
{
    if n <= 0 || n > children(e).len() {
        Seq::empty()
    } else {
        proof {
            lemma_child_smaller(e, n - 1);
        }
        expr_list_upto(e, n - 1) + expr_list(children(e)[n - 1])
    }
}

/// Every expression of a body, in the order in which they stand, each before
/// what it holds.
pub open spec fn body_exprs(body: Body) -> Seq<Expression>
    decreases body, body.structures@.len() + 1,
{
    body_exprs_upto(body, body.structures@.len() as int)
}

/// The expressions of the first `n` structures.
pub open spec fn body_exprs_upto(body: Body, n: int) -> Seq<Expression>
    decreases body, n,
{
    if n <= 0 || n > body.structures@.len() {
        Seq::empty()
    } else {
        body_exprs_upto(body, n - 1) + match body.structures@[n - 1] {
            Structure::Attribute(a) => expr_list(a.value),
            Structure::Block(b) => body_exprs(b.body),
        }
    }
}

/// The values that a sequence of references points at.
pub open spec fn pointees(v: Seq<&Expression>) -> Seq<Expression> {
    Seq::new(v.len(), |i: int| *v[i])
}

/// The expressions directly inside `e`.
pub fn child_exprs(e: &Expression) -> (r: Vec<&Expression>)
    ensures
        pointees(r@) == children(*e),
{
    let mut out: Vec<&Expression> = Vec::new();
    match &e.kind {
        ExprKind::Array(v) => push_all(v, &mut out),
        ExprKind::Object(v) => {
            for i in 0..v.len()
                invariant
                    pointees(out@) == items_exprs(v@.take(i as int)),
            {
                let ghost before = pointees(out@);
                match &v[i].key {
                    ObjectKey::Ident(_) => {
                        out.push(&v[i].value);
                    },
                    ObjectKey::Expression(k) => {
                        out.push(k);
                        out.push(&v[i].value);
                    },
                }
                assert(v@.take(i + 1).drop_last() =~= v@.take(i as int));
                assert(pointees(out@) =~= before + item_exprs(v@[i as int]));
            }
            assert(v@.take(v@.len() as int) =~= v@);
        },
        ExprKind::StringTemplate(v) => push_elements(v, &mut out),
        ExprKind::HeredocTemplate(v) => push_elements(v, &mut out),
        ExprKind::Parenthesis(x) => {
            out.push(x);
        },
        ExprKind::Conditional(c) => {
            out.push(&c.cond_expr);
            out.push(&c.true_expr);
            out.push(&c.false_expr);
        },
        ExprKind::FuncCall(f) => push_all(&f.args, &mut out),
        ExprKind::Traversal(t) => {
            out.push(&t.expr);
            assert(pointees(out@) =~= seq![t.expr] + operators_exprs(t.operators@.take(0)));
            for i in 0..t.operators.len()
                invariant
                    pointees(out@) == seq![t.expr] + operators_exprs(t.operators@.take(i as int)),
            {
                let ghost before = pointees(out@);
                if let TraversalOperator::Index(x) = &t.operators[i].kind {
                    out.push(x);
                }
                assert(t.operators@.take(i + 1).drop_last() =~= t.operators@.take(i as int));
                assert(pointees(out@) =~= before + operator_exprs(t.operators@[i as int]));
                assert(pointees(out@) =~= seq![t.expr] + operators_exprs(
                    t.operators@.take(i + 1),
                ));
            }
            assert(t.operators@.take(t.operators@.len() as int) =~= t.operators@);
        },
        ExprKind::UnaryOp(x) => {
            out.push(x);
        },
        ExprKind::BinaryOp(b) => {
            out.push(&b.lhs_expr);
            out.push(&b.rhs_expr);
        },
        ExprKind::ForExpr(f) => {
            out.push(&f.collection_expr);
            if let Some(k) = &f.key_expr {
                out.push(k);
            }
            out.push(&f.value_expr);
            if let Some(c) = &f.cond_expr {
                out.push(c);
            }
        },
        _ => {},
    }
    assert(pointees(out@) =~= children(*e));
    out
}

fn push_all<'a>(v: &'a Vec<Expression>, out: &mut Vec<&'a Expression>)
    ensures
        pointees(final(out)@) == pointees(old(out)@) + v@,
{
    for i in 0..v.len()
        invariant
            pointees(out@) == pointees(old(out)@) + v@.take(i as int),
    {
        let ghost before = pointees(out@);
        out.push(&v[i]);
        assert(pointees(out@) =~= before.push(v@[i as int]));
        assert(v@.take(i + 1) =~= v@.take(i as int).push(v@[i as int]));
    }
    assert(v@.take(v@.len() as int) =~= v@);
}

fn push_elements<'a>(v: &'a Vec<Element>, out: &mut Vec<&'a Expression>)
    ensures
        pointees(final(out)@) == pointees(old(out)@) + elements_exprs(v@),
{
    assert(pointees(out@) =~= pointees(old(out)@) + elements_exprs(v@.take(0)));
    for i in 0..v.len()
        invariant
            pointees(out@) == pointees(old(out)@) + elements_exprs(v@.take(i as int)),
    {
        let ghost before = pointees(out@);
        match &v[i] {
            Element::Literal(_) => {},
            Element::Interpolation(e) => {
                out.push(e);
            },
            Element::Directive(d) => push_all(d, out),
        }
        assert(v@.take(i + 1).drop_last() =~= v@.take(i as int));
        assert(pointees(out@) =~= before + element_exprs(v@[i as int]));
        assert(pointees(out@) =~= pointees(old(out)@) + elements_exprs(v@.take(i + 1)));
    }
    assert(v@.take(v@.len() as int) =~= v@);
}

fn push_exprs<'a>(e: &'a Expression, out: &mut Vec<&'a Expression>)
    ensures
        pointees(final(out)@) == pointees(old(out)@) + expr_list(*e),
    decreases *e,
{
    let ghost start = pointees(out@);
    out.push(e);
    assert(pointees(out@) =~= start + seq![*e] + expr_list_upto(*e, 0));
    let kids = child_exprs(e);
    for i in 0..kids.len()
        invariant
            pointees(kids@) == children(*e),
            pointees(out@) == start + seq![*e] + expr_list_upto(*e, i as int),
    {
        let ghost before = pointees(out@);
        proof {
            lemma_child_smaller(*e, i as int);
            assert(pointees(kids@)[i as int] == *kids@[i as int]);
        }
        push_exprs(kids[i], out);
        assert(expr_list_upto(*e, i + 1) == expr_list_upto(*e, i as int) + expr_list(
            children(*e)[i as int],
        ));
        assert(pointees(out@) =~= start + seq![*e] + expr_list_upto(*e, i + 1));
    }
    assert(pointees(out@) =~= start + expr_list(*e));
}

fn push_body_exprs<'a>(body: &'a Body, out: &mut Vec<&'a Expression>)
    ensures
        pointees(final(out)@) == pointees(old(out)@) + body_exprs(*body),
    decreases *body,
{
    let ghost start = pointees(out@);
    assert(pointees(out@) =~= start + body_exprs_upto(*body, 0));
    for i in 0..body.structures.len()
        invariant
            pointees(out@) == start + body_exprs_upto(*body, i as int),
    {
        let ghost before = pointees(out@);
        proof {
            assert(decreases_to!(*body => body.structures));
            assert(decreases_to!(body.structures => body.structures@));
            assert(decreases_to!(body.structures@ => body.structures@[i as int]));
        }
        match &body.structures[i] {
            Structure::Attribute(a) => push_exprs(&a.value, out),
            Structure::Block(b) => push_body_exprs(&b.body, out),
        }
        assert(pointees(out@) =~= start + body_exprs_upto(*body, i + 1));
    }
}

/// Every expression of a body, each before what it holds.
pub fn walk_expressions(body: &Body) -> (r: Vec<&Expression>)
    ensures
        pointees(r@) == body_exprs(*body),
{
    let mut out: Vec<&Expression> = Vec::new();
    push_body_exprs(body, &mut out);
    assert(pointees(out@) =~= body_exprs(*body));
    out
}

/// `e` and every expression inside it.
pub fn walk_expression(e: &Expression) -> (r: Vec<&Expression>)
    ensures
        pointees(r@) == expr_list(*e),
{
    let mut out: Vec<&Expression> = Vec::new();
    push_exprs(e, &mut out);
    assert(pointees(out@) =~= expr_list(*e));
    out
}

// ---------------------------------------------------------------------
// Structures by name

/// The block of a structure, where it is one with the given keyword.
pub open spec fn block_with(name: Seq<char>) -> spec_fn(Structure) -> Option<Block> {
    |s: Structure|
        match s {
            Structure::Block(b) => if b.ident.text@ == name {
                Some(b)
            } else {
                None
            },
            Structure::Attribute(_) => None,
        }
}

pub open spec fn attribute_in() -> spec_fn(Structure) -> Option<Attribute> {
    |s: Structure|
        match s {
            Structure::Attribute(a) => Some(a),
            Structure::Block(_) => None,
        }
}

pub open spec fn block_in() -> spec_fn(Structure) -> Option<Block> {
    |s: Structure|
        match s {
            Structure::Block(b) => Some(b),
            Structure::Attribute(_) => None,
        }
}

/// The blocks of a body that have the given keyword.
pub open spec fn blocks_named(body: Body, name: Seq<char>) -> Seq<Block> {
    filter_map(body.structures@, block_with(name))
}

/// The attributes of a body.
pub open spec fn attributes(body: Body) -> Seq<Attribute> {
    filter_map(body.structures@, attribute_in())
}

/// The blocks of a body.
pub open spec fn blocks(body: Body) -> Seq<Block> {
    filter_map(body.structures@, block_in())
}

pub open spec fn block_pointees(v: Seq<&Block>) -> Seq<Block> {
    Seq::new(v.len(), |i: int| *v[i])
}

pub open spec fn attr_pointees(v: Seq<&Attribute>) -> Seq<Attribute> {
    Seq::new(v.len(), |i: int| *v[i])
}

/// The blocks of a body that have the given keyword.
pub fn list_blocks_named<'a>(body: &'a Body, name: &str) -> (r: Vec<&'a Block>)
    ensures
        block_pointees(r@) == blocks_named(*body, name@),
{
    let mut out: Vec<&'a Block> = Vec::new();
    let ghost f = block_with(name@);
    proof {
        lemma_take_full(body.structures@);
    }
    assert(block_pointees(out@) =~= filter_map(body.structures@.take(0), f));
    for i in 0..body.structures.len()
        invariant
            f == block_with(name@),
            block_pointees(out@) == filter_map(body.structures@.take(i as int), f),
    {
        proof {
            lemma_filter_map_step(body.structures@, f, i as int);
        }
        let ghost before = block_pointees(out@);
        if let Structure::Block(b) = &body.structures[i] {
            if str_eq(b.ident.text.as_str(), name) {
                out.push(b);
                assert(block_pointees(out@) =~= before.push(*b));
            }
        }
    }
    out
}

/// The attributes of a body.
pub fn list_attributes<'a>(body: &'a Body) -> (r: Vec<&'a Attribute>)
    ensures
        attr_pointees(r@) == attributes(*body),
{
    let mut out: Vec<&'a Attribute> = Vec::new();
    let ghost f = attribute_in();
    proof {
        lemma_take_full(body.structures@);
    }
    assert(attr_pointees(out@) =~= filter_map(body.structures@.take(0), f));
    for i in 0..body.structures.len()
        invariant
            f == attribute_in(),
            attr_pointees(out@) == filter_map(body.structures@.take(i as int), f),
    {
        proof {
            lemma_filter_map_step(body.structures@, f, i as int);
        }
        let ghost before = attr_pointees(out@);
        if let Structure::Attribute(a) = &body.structures[i] {
            out.push(a);
            assert(attr_pointees(out@) =~= before.push(*a));
        }
    }
    out
}

/// The blocks of a body.
pub fn list_blocks<'a>(body: &'a Body) -> (r: Vec<&'a Block>)
    ensures
        block_pointees(r@) == blocks(*body),
{
    let mut out: Vec<&'a Block> = Vec::new();
    let ghost f = block_in();
    proof {
        lemma_take_full(body.structures@);
    }
    assert(block_pointees(out@) =~= filter_map(body.structures@.take(0), f));
    for i in 0..body.structures.len()
        invariant
            f == block_in(),
            block_pointees(out@) == filter_map(body.structures@.take(i as int), f),
    {
        proof {
            lemma_filter_map_step(body.structures@, f, i as int);
        }
        let ghost before = block_pointees(out@);
        if let Structure::Block(b) = &body.structures[i] {
            out.push(b);
            assert(block_pointees(out@) =~= before.push(*b));
        }
    }
    out
}

/// A block holds a block with the same or a smaller measure than its body: a
/// listed block is structurally smaller than the body it stands in.
pub proof fn lemma_block_smaller(body: Body, i: int)
    requires
        0 <= i < blocks(body).len(),
    ensures
        decreases_to!(body => blocks(body)[i].body),
        decreases_to!(body => blocks(body)[i]),
{
    lemma_listed_block(body.structures@, i);
    let k = choose|k: int|
        0 <= k < body.structures@.len() && body.structures@[k] == Structure::Block(
            blocks(body)[i],
        );
    assert(decreases_to!(body => body.structures));
    assert(decreases_to!(body.structures => body.structures@));
    assert(decreases_to!(body.structures@ => body.structures@[k]));
    let b = blocks(body)[i];
    assert(body.structures@[k]->Block_0 == b);
    assert(decreases_to!(body.structures@[k] => body.structures@[k]->Block_0));
    assert(decreases_to!(b => b.body));
}

proof fn lemma_listed_block(s: Seq<Structure>, i: int)
    requires
        0 <= i < filter_map(s, block_in()).len(),
    ensures
        exists|k: int|
            0 <= k < s.len() && s[k] == Structure::Block(filter_map(s, block_in())[i]),
    decreases s.len(),
{
    let rest = filter_map(s.drop_last(), block_in());
    if i < rest.len() {
        lemma_listed_block(s.drop_last(), i);
        let k = choose|k: int|
            0 <= k < s.drop_last().len() && s.drop_last()[k] == Structure::Block(rest[i]);
        assert(s[k] == Structure::Block(rest[i]));
    } else {
        assert(s[s.len() - 1] == s.last());
    }
}

// ---------------------------------------------------------------------
// Literals

/// The text of template pieces that are all literal.
pub open spec fn literal_pieces(s: Seq<Element>) -> Option<Seq<char>>
    decreases s.len(),
{
    if s.len() == 0 {
        Some(Seq::empty())
    } else {
        match (literal_pieces(s.drop_last()), s.last()) {
            (Some(t), Element::Literal(l)) => Some(t + l@),
            _ => None,
        }
    }
}

/// The text of an expression that is a string without interpolation.
pub open spec fn literal_text(e: Expression) -> Option<Seq<char>> {
    match e.kind {
        ExprKind::Str(s) => Some(s@),
        ExprKind::StringTemplate(v) => literal_pieces(v@),
        _ => None,
    }
}

proof fn lemma_literal_prefix(s: Seq<Element>, n: int)
    requires
        0 <= n <= s.len(),
        literal_pieces(s.take(n)) is None,
    ensures
        literal_pieces(s) is None,
    decreases s.len() - n,
{
    if n < s.len() {
        assert(s.take(n + 1).drop_last() =~= s.take(n));
        lemma_literal_prefix(s, n + 1);
    } else {
        assert(s.take(n) =~= s);
    }
}

/// The text of an expression that is a string without interpolation.
pub fn literal_string(e: &Expression) -> (r: Option<String>)
    ensures
        match r {
            Some(s) => literal_text(*e) == Some(s@),
            None => literal_text(*e) is None,
        },
{
    match &e.kind {
        ExprKind::Str(s) => Some(s.clone()),
        ExprKind::StringTemplate(v) => {
            let mut out = String::new();
            assert(v@.take(0) =~= Seq::<Element>::empty());
            for i in 0..v.len()
                invariant
                    literal_pieces(v@.take(i as int)) == Some(out@),
                    e.kind == ExprKind::StringTemplate(*v),
            {
                assert(v@.take(i + 1).drop_last() =~= v@.take(i as int));
                match &v[i] {
                    Element::Literal(l) => {
                        out.append(l.as_str());
                    },
                    _ => {
                        proof {
                            lemma_literal_prefix(v@, i + 1);
                        }
                        return None;
                    },
                }
            }
            assert(v@.take(v@.len() as int) =~= v@);
            Some(out)
        },
        _ => None,
    }
}

/// The name of an object key that is an identifier or a string.
pub open spec fn key_text(k: ObjectKey) -> Option<Seq<char>> {
    match k {
        ObjectKey::Ident(i) => Some(i.text@),
        ObjectKey::Expression(e) => match e.kind {
            ExprKind::Str(s) => Some(s@),
            _ => None,
        },
    }
}

pub fn object_key_as_str(key: &ObjectKey) -> (r: Option<&str>)
    ensures
        match r {
            Some(s) => key_text(*key) == Some(s@),
            None => key_text(*key) is None,
        },
{
    match key {
        ObjectKey::Ident(i) => Some(i.text.as_str()),
        ObjectKey::Expression(e) => match &e.kind {
            ExprKind::Str(s) => Some(s.as_str()),
            _ => None,
        },
    }
}

/// The text of the label at an index.
pub open spec fn label_at(b: Block, i: int) -> Option<Seq<char>> {
    if 0 <= i < b.labels@.len() {
        Some(b.labels@[i].text@)
    } else {
        None
    }
}

pub fn block_label(b: &Block, i: usize) -> (r: Option<&str>)
    ensures
        match r {
            Some(s) => label_at(*b, i as int) == Some(s@),
            None => label_at(*b, i as int) is None,
        },
{
    if i < b.labels.len() {
        Some(b.labels[i].text.as_str())
    } else {
        None
    }
}

} // verus!
