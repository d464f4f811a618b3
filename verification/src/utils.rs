//! Constructors of the typed syntax tree, which check the types of the
//! pieces they are given.
pub mod label;

use vstd::prelude::*;
use lrpar::Span;
use crate::ast::{Op, Tnode, node_type, node_span};
use crate::type_table::Type;
use crate::decimal::{parse_u32, spec_parse_u32, u32_to_decimal, decimal, lemma_parse_decimal};

verus! {

/// An arithmetic operation: both operands must be integers, and so is the
/// result.
pub fn create_int_node(op: Op, span: Span, left: Tnode, right: Tnode) -> (r: Result<
    Tnode,
    (Option<Span>, &'static str),
>)
    ensures
        r is Ok <==> node_type(left) == Type::Int && node_type(right) == Type::Int,
        r matches Ok(n) ==> node_type(n) == Type::Int,
        r matches Ok(n) ==> n == (Tnode::Operator {
            op,
            span,
            ttype: Type::Int,
            lhs: Box::new(left),
            rhs: Box::new(right),
        }),
        r matches Err(e) ==> e.0 == Some(span) && e.1@ == "Type mismatch, excepted integer"@,
{
    match (left.get_type(), right.get_type()) {
        (Type::Int, Type::Int) => {},
        _ => return Err((Some(span), "Type mismatch, excepted integer")),
    }
    Ok(Tnode::Operator { op, span, ttype: Type::Int, lhs: Box::new(left), rhs: Box::new(right) })
}

/// A comparison: both operands must be integers, and the result is a
/// boolean.
pub fn create_bool_node(op: Op, span: Span, left: Tnode, right: Tnode) -> (r: Result<
    Tnode,
    (Option<Span>, &'static str),
>)
    ensures
        r is Ok <==> node_type(left) == Type::Int && node_type(right) == Type::Int,
        r matches Ok(n) ==> node_type(n) == Type::Bool,
        r matches Ok(n) ==> n == (Tnode::Operator {
            op,
            span,
            ttype: Type::Bool,
            lhs: Box::new(left),
            rhs: Box::new(right),
        }),
        r matches Err(e) ==> e.0 == Some(span) && e.1@ == "Type mismatch, excepted integer"@,
{
    match (left.get_type(), right.get_type()) {
        (Type::Int, Type::Int) => {},
        _ => return Err((Some(span), "Type mismatch, excepted integer")),
    }
    Ok(Tnode::Operator { op, span, ttype: Type::Bool, lhs: Box::new(left), rhs: Box::new(right) })
}

/// An assignment: the assigned value must be an integer. The error points
/// at the value.
pub fn create_asg_node(span: Span, left: Tnode, right: Tnode) -> (r: Result<
    Tnode,
    (Option<Span>, &'static str),
>)
    ensures
        r is Ok <==> node_type(right) == Type::Int,
        r matches Ok(n) ==> n == (Tnode::Asgn { span, lhs: Box::new(left), rhs: Box::new(right) }),
        r matches Err(e) ==> e.0 == Some(node_span(right)) && e.1@
            == "Type mismatch, excepted integer"@,
{
    match right.get_type() {
        Type::Int => {},
        _ => return Err((right.get_span(), "Type mismatch, excepted integer")),
    }
    Ok(Tnode::Asgn { span, lhs: Box::new(left), rhs: Box::new(right) })
}

/// A write statement: the written value must be an integer. The error
/// points at the value.
pub fn create_write_node(span: Span, e: Tnode) -> (r: Result<Tnode, (Option<Span>, &'static str)>)
    ensures
        r is Ok <==> node_type(e) == Type::Int,
        r matches Ok(n) ==> n == (Tnode::Write { span, expression: Box::new(e) }),
        r matches Err(err) ==> err.0 == Some(node_span(e)) && err.1@
            == "Type mismatch, excepted integer"@,
{
    match e.get_type() {
        Type::Int => {},
        _ => return Err((e.get_span(), "Type mismatch, excepted integer")),
    }
    Ok(Tnode::Write { span, expression: Box::new(e) })
}

/// A while loop: the condition must be a boolean. The error points at the
/// condition.
pub fn create_while_node(span: Span, condition: Tnode, stmts: Tnode) -> (r: Result<
    Tnode,
    (Option<Span>, &'static str),
>)
    ensures
        r is Ok <==> node_type(condition) == Type::Bool,
        r matches Ok(n) ==> n == (Tnode::While {
            span,
            condition: Box::new(condition),
            stmts: Box::new(stmts),
        }),
        r matches Err(e) ==> e.0 == Some(node_span(condition)) && e.1@
            == "Type mismatch, excepted boolen"@,
{
    match condition.get_type() {
        Type::Bool => {},
        _ => return Err((condition.get_span(), "Type mismatch, excepted boolen")),
    }
    Ok(Tnode::While { span, condition: Box::new(condition), stmts: Box::new(stmts) })
}

/// A repeat-until loop: the condition must be a boolean. The error points
/// at the condition.
pub fn create_repeat_node(span: Span, stmts: Tnode, condition: Tnode) -> (r: Result<
    Tnode,
    (Option<Span>, &'static str),
>)
    ensures
        r is Ok <==> node_type(condition) == Type::Bool,
        r matches Ok(n) ==> n == (Tnode::Repeat {
            span,
            stmts: Box::new(stmts),
            condition: Box::new(condition),
        }),
        r matches Err(e) ==> e.0 == Some(node_span(condition)) && e.1@
            == "Type mismatch, excepted boolen"@,
{
    match condition.get_type() {
        Type::Bool => {},
        _ => return Err((condition.get_span(), "Type mismatch, excepted boolen")),
    }
    Ok(Tnode::Repeat { span, stmts: Box::new(stmts), condition: Box::new(condition) })
}

/// An if statement, with or without an else branch: the condition must be a
/// boolean. The error points at the condition.
pub fn create_if_node(span: Span, condition: Tnode, if_stmts: Tnode, else_stmts: Option<Tnode>) -> (r:
    Result<Tnode, (Option<Span>, &'static str)>)
    ensures
        r is Ok <==> node_type(condition) == Type::Bool,
        r matches Ok(n) ==> n == (Tnode::If {
            span,
            condition: Box::new(condition),
            if_stmt: Box::new(if_stmts),
            else_stmt: match else_stmts {
                Some(val) => Some(Box::new(val)),
                None => None,
            },
        }),
        r matches Err(e) ==> e.0 == Some(node_span(condition)) && e.1@
            == "Type mismatch, excepted boolen"@,
{
    match condition.get_type() {
        Type::Bool => {},
        _ => return Err((condition.get_span(), "Type mismatch, excepted boolen")),
    }
    let else_stmt = match else_stmts {
        Some(val) => Some(Box::new(val)),
        None => None,
    };
    Ok(Tnode::If { span, condition: Box::new(condition), if_stmt: Box::new(if_stmts), else_stmt })
}

/// An integer literal, from the text of its token and the token's span:
/// fails where the text is not a `u32`; otherwise the node holds the
/// literal's value in its shortest decimal text.
pub fn create_constant_node(text: &str, span: Span) -> (r: Result<Tnode, (Option<Span>, &'static str)>)
    ensures
        r is Ok <==> spec_parse_u32(text@) is Some,
        r matches Ok(n) ==> node_type(n) == Type::Int,
        r matches Ok(n) ==> n matches Tnode::Constant { span: s, ttype, value } && s == span && ttype
            == Type::Int && value@ == decimal(spec_parse_u32(text@).unwrap() as nat),
        r matches Err(e) ==> e.0 == Some(span) && e.1@ == "Can't parse to u32"@,
{
    match parse_u32(text) {
        Some(val) => Ok(Tnode::Constant { span, ttype: Type::Int, value: u32_to_decimal(val) }),
        None => Err((Some(span), "Can't parse to u32")),
    }
}

/// The text that a constant node keeps reads back as the literal it was
/// made from: `parse_int` of a node's value gives what `parse_int` of the
/// token's text gave.
pub proof fn law_constant_value_reparses(text: Seq<char>)
    requires
        spec_parse_u32(text) is Some,
    ensures
        spec_parse_u32(decimal(spec_parse_u32(text).unwrap() as nat)) == spec_parse_u32(text),
{
    lemma_parse_decimal(spec_parse_u32(text).unwrap());
}

} // verus!
