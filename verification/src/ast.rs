//! The typed syntax tree that the parser builds.
use vstd::prelude::*;
use lrpar::Span;
use crate::symbol::Symbol;
use crate::type_table::{Type, RefType, Primitive, indexed_type, primitive_type};

verus! {

/// The binary operators of expressions.
#[derive(Clone, Copy, Debug, PartialEq, Eq, Structural)]
pub enum Op {
    Plus,
    Minus,
    Mul,
    Div,
    Mod,
    Lt,
    Gt,
    Le,
    Ge,
    Eq,
    Ne,
}

/// A node of the syntax tree.
#[derive(Debug)]
pub enum Tnode {
    /// An integer literal, with its decimal text.
    Constant { span: Span, ttype: Type, value: String },
    /// An occurrence of a variable, with the expressions that index it.
    Var { span: Span, symbol: Symbol, ref_type: RefType, access: Vec<Box<Tnode>> },
    /// A binary operation and the type of its result.
    Operator { op: Op, span: Span, ttype: Type, lhs: Box<Tnode>, rhs: Box<Tnode> },
    Asgn { span: Span, lhs: Box<Tnode>, rhs: Box<Tnode> },
    Write { span: Span, expression: Box<Tnode> },
    While { span: Span, condition: Box<Tnode>, stmts: Box<Tnode> },
    Repeat { span: Span, stmts: Box<Tnode>, condition: Box<Tnode> },
    If { span: Span, condition: Box<Tnode>, if_stmt: Box<Tnode>, else_stmt: Option<Box<Tnode>> },
}

/// The type of the value a node computes: literals and operations carry
/// theirs, a variable has the type of its symbol once fully indexed, and
/// statements have none (`Void`).
pub open spec fn node_type(n: Tnode) -> Type {
    match n {
        Tnode::Constant { ttype, .. } => ttype,
        Tnode::Operator { ttype, .. } => ttype,
        Tnode::Var { symbol, .. } => indexed_type(symbol@.dtype()),
        _ => Type::Void,
    }
}

/// Where the node stands in the source.
pub open spec fn node_span(n: Tnode) -> Span {
    match n {
        Tnode::Constant { span, .. } => span,
        Tnode::Var { span, .. } => span,
        Tnode::Operator { span, .. } => span,
        Tnode::Asgn { span, .. } => span,
        Tnode::Write { span, .. } => span,
        Tnode::While { span, .. } => span,
        Tnode::Repeat { span, .. } => span,
        Tnode::If { span, .. } => span,
    }
}

/// An occurrence of a variable has the type the variable was declared with,
/// once fully indexed: a scalar keeps its own type (a `bool` variable is a
/// `bool`, never an `int`), a pointer stays a pointer, and an array gives
/// the scalar it is made of. Literals and operations have the type they
/// carry, and statements have none.
pub proof fn law_node_types(n: Tnode)
    ensures
        n matches Tnode::Var { symbol, .. } ==> (match symbol@.dtype() {
            Type::Int => node_type(n) == Type::Int,
            Type::Bool => node_type(n) == Type::Bool,
            Type::Str => node_type(n) == Type::Str,
            Type::Void => node_type(n) == Type::Void,
            Type::Pointer(p) => node_type(n) == Type::Pointer(p),
            Type::Array(Primitive::Int, _) => node_type(n) == Type::Int,
            Type::Array(Primitive::Bool, _) => node_type(n) == Type::Bool,
            Type::Array(Primitive::Str, _) => node_type(n) == Type::Str,
        }),
        n matches Tnode::Constant { ttype, .. } ==> node_type(n) == ttype,
        n matches Tnode::Operator { ttype, .. } ==> node_type(n) == ttype,
        (n is Asgn || n is Write || n is While || n is Repeat || n is If) ==> node_type(n) == Type::Void,
{
}

impl Tnode {
    /// The type of the value the node computes.
    pub fn get_type(&self) -> (t: Type)
        ensures
            t == node_type(*self),
            *self matches Tnode::Var { symbol, .. } ==> (match symbol@.dtype() {
                Type::Array(p, _) => t == primitive_type(p),
                d => t == d,
            }),
    {
        match self {
            Tnode::Constant { ttype, .. } => *ttype,
            Tnode::Operator { ttype, .. } => *ttype,
            Tnode::Var { symbol, .. } => symbol.get_type().indexed(),
            _ => Type::Void,
        }
    }

    /// Where the node stands in the source.
    pub fn get_span(&self) -> (s: Option<Span>)
        ensures
            s == Some(node_span(*self)),
    {
        match self {
            Tnode::Constant { span, .. } => Some(*span),
            Tnode::Var { span, .. } => Some(*span),
            Tnode::Operator { span, .. } => Some(*span),
            Tnode::Asgn { span, .. } => Some(*span),
            Tnode::Write { span, .. } => Some(*span),
            Tnode::While { span, .. } => Some(*span),
            Tnode::Repeat { span, .. } => Some(*span),
            Tnode::If { span, .. } => Some(*span),
        }
    }
}

} // verus!
