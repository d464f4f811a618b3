use lrpar::Span;
use myexpl::ast::{Op, Tnode};
use myexpl::frontend::methods::{get_variable, insert_gst, parse_int};
use myexpl::frontend::Parser;
use myexpl::symbol::SymbolBuilder;
use myexpl::type_table::{RefType, Type};
use myexpl::utils::{
    create_asg_node, create_bool_node, create_constant_node, create_if_node, create_int_node,
    create_repeat_node, create_while_node, create_write_node,
};

fn sp(a: usize, b: usize) -> Span {
    Span::new(a, b)
}

fn num(v: &str, at: usize) -> Tnode {
    create_constant_node(v, sp(at, at + v.len())).unwrap()
}

fn cond(at: usize) -> Tnode {
    create_bool_node(Op::Lt, sp(at, at + 5), num("1", at), num("2", at + 4)).unwrap()
}

fn str_var(at: usize) -> Tnode {
    let mut p = Parser::new();
    let b = SymbolBuilder::new(sp(0, 1), "s".to_string(), false);
    assert_eq!(insert_gst(vec![b], Type::Str, &mut p), Ok(()));
    get_variable("s", sp(at, at + 1), vec![], RefType::Value, &p).unwrap()
}

#[test]
fn constant_node_value() {
    match create_constant_node("007", sp(3, 6)).unwrap() {
        Tnode::Constant { span, ttype, value } => {
            assert_eq!(span, sp(3, 6));
            assert_eq!(ttype, Type::Int);
            assert_eq!(value, "7");
        }
        _ => panic!("not a constant"),
    }
    let e = create_constant_node("4294967296", sp(0, 10)).unwrap_err();
    assert_eq!(e, (Some(sp(0, 10)), "Can't parse to u32"));
}

#[test]
fn constant_value_reparses() {
    for text in ["0", "+12", "000450", "4294967295"] {
        let node = create_constant_node(text, sp(0, text.len())).unwrap();
        match node {
            Tnode::Constant { value, .. } => {
                assert_eq!(parse_int(&value, sp(0, 1)), parse_int(text, sp(0, 1)));
            }
            _ => panic!("not a constant"),
        }
    }
}

#[test]
fn int_node_types() {
    let n = create_int_node(Op::Mul, sp(0, 5), num("3", 0), num("4", 4)).unwrap();
    assert_eq!(n.get_type(), Type::Int);
    assert_eq!(n.get_span(), Some(sp(0, 5)));
    let e = create_int_node(Op::Plus, sp(0, 9), num("3", 0), cond(4)).unwrap_err();
    assert_eq!(e, (Some(sp(0, 9)), "Type mismatch, excepted integer"));
    let e = create_int_node(Op::Plus, sp(0, 9), str_var(0), num("3", 4)).unwrap_err();
    assert_eq!(e, (Some(sp(0, 9)), "Type mismatch, excepted integer"));
}

#[test]
fn bool_node_types() {
    let n = create_bool_node(Op::Eq, sp(0, 6), num("3", 0), num("3", 5)).unwrap();
    assert_eq!(n.get_type(), Type::Bool);
    let e = create_bool_node(Op::Ne, sp(1, 8), cond(0), num("3", 6)).unwrap_err();
    assert_eq!(e, (Some(sp(1, 8)), "Type mismatch, excepted integer"));
}

#[test]
fn assignment_node() {
    let n = create_asg_node(sp(0, 6), num("1", 0), num("2", 5)).unwrap();
    assert_eq!(n.get_type(), Type::Void);
    let e = create_asg_node(sp(0, 9), num("1", 0), cond(4)).unwrap_err();
    assert_eq!(e, (Some(sp(4, 9)), "Type mismatch, excepted integer"));
}

#[test]
fn write_node() {
    assert!(matches!(create_write_node(sp(0, 8), num("5", 6)), Ok(Tnode::Write { .. })));
    let e = create_write_node(sp(0, 8), str_var(6)).unwrap_err();
    assert_eq!(e, (Some(sp(6, 7)), "Type mismatch, excepted integer"));
}

#[test]
fn loop_nodes() {
    let body = create_write_node(sp(20, 28), num("5", 26)).unwrap();
    assert!(matches!(create_while_node(sp(0, 30), cond(6), body), Ok(Tnode::While { .. })));
    let body = create_write_node(sp(20, 28), num("5", 26)).unwrap();
    let e = create_while_node(sp(0, 30), num("1", 6), body).unwrap_err();
    assert_eq!(e, (Some(sp(6, 7)), "Type mismatch, excepted boolen"));
    let body = create_write_node(sp(20, 28), num("5", 26)).unwrap();
    assert!(matches!(create_repeat_node(sp(0, 40), body, cond(30)), Ok(Tnode::Repeat { .. })));
    let body = create_write_node(sp(20, 28), num("5", 26)).unwrap();
    let e = create_repeat_node(sp(0, 40), body, num("7", 31)).unwrap_err();
    assert_eq!(e, (Some(sp(31, 32)), "Type mismatch, excepted boolen"));
}

#[test]
fn if_node() {
    let then_part = create_write_node(sp(10, 18), num("5", 16)).unwrap();
    let else_part = create_write_node(sp(20, 28), num("6", 26)).unwrap();
    match create_if_node(sp(0, 30), cond(3), then_part, Some(else_part)).unwrap() {
        Tnode::If { else_stmt, .. } => assert!(else_stmt.is_some()),
        _ => panic!("not an if"),
    }
    let then_part = create_write_node(sp(10, 18), num("5", 16)).unwrap();
    match create_if_node(sp(0, 30), cond(3), then_part, None).unwrap() {
        Tnode::If { else_stmt, .. } => assert!(else_stmt.is_none()),
        _ => panic!("not an if"),
    }
    let then_part = create_write_node(sp(10, 18), num("5", 16)).unwrap();
    let e = create_if_node(sp(0, 30), str_var(3), then_part, None).unwrap_err();
    assert_eq!(e, (Some(sp(3, 4)), "Type mismatch, excepted boolen"));
}
