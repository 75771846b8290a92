//! The abstract syntax tree: what the parser makes of a program and what
//! the evaluator walks.
//!
//! A node owns its children; no subtree is shared. `Nil` stands for "no
//! node": the parser gives it where a line belongs to an enclosing block,
//! and the evaluator gives it where a statement has no value.

use vstd::prelude::*;
use vstd::string::*;
use crate::object::{PyObject, PyObjectView};

verus! {

/// Whether a name is written, read or deleted.
#[derive(Debug, Clone, Copy, PartialEq, Eq, Structural)]
pub enum PyCtx {
    Store,
    Load,
    Del,
}

/// The operators.
#[derive(Debug, Clone, Copy, PartialEq, Eq, Structural)]
pub enum Operator {
    Add,
    Sub,
    Mult,
    Div,
    Mod,
    Pow,
    BitAnd,
    MatMult,
    Eq,
    NotEq,
    Lt,
    Gt,
    LtE,
    GtE,
    Not,
    UAdd,
    USub,
    In,
    NotIn,
    Is,
    IsNot,
    And,
    Or,
}

/// A name, and how it is used.
#[derive(Debug, PartialEq)]
pub struct Name {
    pub id: String,
    pub ctx: PyCtx,
}

impl Name {
    /// Sets how the name is used and hands back a copy of the updated
    /// name.
    pub fn ctx(&mut self, ctx: PyCtx) -> (r: Self)
        ensures
            *final(self) == (Name { ctx, ..*old(self) }),
            r == *final(self),
    {
        self.ctx = ctx;
        Name { id: self.id.clone(), ctx: self.ctx }
    }
}

/// An attribute of a named object.
#[derive(Debug, PartialEq)]
pub struct Attribute {
    pub value: Name,
    pub attr: String,
    pub py_ctx: PyCtx,
}

/// A value.
#[derive(Debug, PartialEq)]
pub struct Constant {
    pub value: PyObject,
    pub type_comment: String,
}

impl Constant {
    /// The constant of the object `value`, without a comment.
    pub fn new(value: PyObject) -> (r: Constant)
        ensures
            r.value == value,
            r.type_comment@ == Seq::<char>::empty(),
    {
        Constant { value, type_comment: String::new() }
    }
}

/// An assignment of a value to a target.
#[derive(Debug, PartialEq)]
pub struct Assign {
    pub target: Box<Type>,
    pub value: Box<Type>,
    pub type_comment: String,
}

/// An operation on two operands.
#[derive(Debug, PartialEq)]
pub struct BinOp {
    pub left: Box<Type>,
    pub op: Operator,
    pub right: Box<Type>,
}

/// A chain of comparisons: `left ops[0] comparators[0] ops[1] ...`.
#[derive(Debug, PartialEq)]
pub struct Compare {
    pub left: Box<Type>,
    pub ops: Vec<Operator>,
    pub comparators: Vec<Type>,
}

/// An operation on one operand.
#[derive(Debug, PartialEq)]
pub struct UnaryOp {
    pub op: Operator,
    pub operand: Box<Type>,
}

/// `and` or `or` over a list of operands.
#[derive(Debug, PartialEq)]
pub struct BoolOp {
    pub op: Operator,
    pub values: Vec<Type>,
}

/// A print statement.
#[derive(Debug, PartialEq)]
pub struct Print {
    pub arg: Box<Type>,
}

impl Print {
    /// The print statement that prints nothing yet.
    pub fn builder() -> (r: Print)
        ensures
            *r.arg == Type::Nil,
    {
        Print { arg: Box::new(Type::Nil) }
    }

    /// Sets what is printed.
    pub fn arg(self, arg: Type) -> (r: Print)
        ensures
            *r.arg == arg,
    {
        Print { arg: Box::new(arg) }
    }

    /// The finished print statement.
    pub fn build(self) -> (r: Print)
        ensures
            r == self,
    {
        self
    }
}

/// A conditional: the statements of `body` where the test holds, else
/// those of `orelse`.
#[derive(Debug, PartialEq)]
pub struct If {
    pub test: Box<Type>,
    pub body: Vec<Type>,
    pub orelse: Vec<Type>,
}

/// A loop: the statements of `body` while the test holds, then those of
/// `orelse` unless the loop was left by `break`.
#[derive(Debug, PartialEq)]
pub struct While {
    pub test: Box<Type>,
    pub body: Vec<Type>,
    pub orelse: Vec<Type>,
}

/// A node of the tree.
#[derive(Debug, PartialEq)]
pub enum Type {
    Assign(Box<Assign>),
    Constant(Constant),
    Name(Name),
    BinOp(BinOp),
    Compare(Compare),
    UnaryOp(UnaryOp),
    BoolOp(BoolOp),
    Print(Box<Print>),
    Attribute(Attribute),
    If(Box<If>),
    While(Box<While>),
    Break,
    Continue,
    Nil,
}

/// A whole program: its statements, and the part of the source text that
/// it spans.
#[derive(Debug)]
pub struct PyRootNode {
    pub body: Vec<Type>,
    pub lineno: usize,
    pub end_lineno: usize,
    pub col_offset: usize,
    pub end_col_offset: usize,
}

impl Default for PyRootNode {
    /// The empty program.
    fn default() -> (r: Self)
        ensures
            r.body@.len() == 0,
            r.lineno == 0,
            r.end_lineno == 0,
            r.col_offset == 0,
            r.end_col_offset == 0,
    {
        PyRootNode { body: Vec::new(), lineno: 0, end_lineno: 0, col_offset: 0, end_col_offset: 0 }
    }
}

// ---------------------------------------------------------------------
// The mathematical value of a tree
// ---------------------------------------------------------------------

/// The mathematical value of a [`Type`]: the same tree, field by field,
/// with the value of every object, string and list in it.
pub enum TypeView {
    Assign { target: Box<TypeView>, value: Box<TypeView>, type_comment: Seq<char> },
    Constant(PyObjectView, Seq<char>),
    Name(Seq<char>, PyCtx),
    BinOp { left: Box<TypeView>, op: Operator, right: Box<TypeView> },
    Compare { left: Box<TypeView>, ops: Seq<Operator>, comparators: Seq<TypeView> },
    UnaryOp { op: Operator, operand: Box<TypeView> },
    BoolOp { op: Operator, values: Seq<TypeView> },
    Print(Box<TypeView>),
    Attribute { object: Seq<char>, object_ctx: PyCtx, attr: Seq<char>, ctx: PyCtx },
    If { test: Box<TypeView>, body: Seq<TypeView>, orelse: Seq<TypeView> },
    While { test: Box<TypeView>, body: Seq<TypeView>, orelse: Seq<TypeView> },
    Break,
    Continue,
    Nil,
}

/// The values of a list of nodes.
pub open spec fn views_of(nodes: Seq<Type>) -> Seq<TypeView>
    decreases nodes,
{
    Seq::new(
        nodes.len(),
        |i: int|
            if 0 <= i < nodes.len() {
                type_view(nodes[i])
            } else {
                TypeView::Nil
            },
    )
}

/// The value of a node.
pub open spec fn type_view(node: Type) -> TypeView
    decreases node,
{
    match node {
        Type::Assign(a) => TypeView::Assign {
            target: Box::new(type_view(*a.target)),
            value: Box::new(type_view(*a.value)),
            type_comment: a.type_comment@,
        },
        Type::Constant(c) => TypeView::Constant(c.value@, c.type_comment@),
        Type::Name(n) => TypeView::Name(n.id@, n.ctx),
        Type::BinOp(b) => TypeView::BinOp {
            left: Box::new(type_view(*b.left)),
            op: b.op,
            right: Box::new(type_view(*b.right)),
        },
        Type::Compare(c) => TypeView::Compare {
            left: Box::new(type_view(*c.left)),
            ops: c.ops@,
            comparators: views_of(c.comparators@),
        },
        Type::UnaryOp(u) => TypeView::UnaryOp { op: u.op, operand: Box::new(type_view(*u.operand)) },
        Type::BoolOp(b) => TypeView::BoolOp { op: b.op, values: views_of(b.values@) },
        Type::Print(p) => TypeView::Print(Box::new(type_view(*p.arg))),
        Type::Attribute(a) => TypeView::Attribute {
            object: a.value.id@,
            object_ctx: a.value.ctx,
            attr: a.attr@,
            ctx: a.py_ctx,
        },
        Type::If(x) => TypeView::If {
            test: Box::new(type_view(*x.test)),
            body: views_of(x.body@),
            orelse: views_of(x.orelse@),
        },
        Type::While(x) => TypeView::While {
            test: Box::new(type_view(*x.test)),
            body: views_of(x.body@),
            orelse: views_of(x.orelse@),
        },
        Type::Break => TypeView::Break,
        Type::Continue => TypeView::Continue,
        Type::Nil => TypeView::Nil,
    }
}

impl View for Type {
    type V = TypeView;

    open spec fn view(&self) -> TypeView {
        type_view(*self)
    }
}

} // verus!
