use lrpar::Span;
use myexpl::ast::{Op, Tnode};
use myexpl::frontend::methods::{
    check_access_vec, get_variable, insert, insert_args, insert_gst, insert_lst, parse_int, GLOBAL_BASE,
    LOCAL_BASE,
};
use myexpl::frontend::Parser;
use myexpl::symbol::{Symbol, SymbolBuilder, SymbolTable};
use myexpl::type_table::{Primitive, RefType, Type};
use myexpl::utils::create_constant_node;

fn sp(a: usize, b: usize) -> Span {
    Span::new(a, b)
}

fn var(name: &str, at: usize) -> SymbolBuilder {
    SymbolBuilder::new(sp(at, at + name.len()), name.to_string(), false)
}

fn int_const(v: &str, at: usize) -> Box<Tnode> {
    Box::new(create_constant_node(v, sp(at, at + v.len())).unwrap())
}

#[test]
fn parse_int_ok_and_err() {
    assert_eq!(parse_int("123", sp(0, 3)), Ok(123));
    assert_eq!(parse_int("99999999999", sp(4, 15)), Err((Some(sp(4, 15)), "Can't parse to u32")));
}

#[test]
fn insert_declares_in_order() {
    let mut t = SymbolTable::default();
    let mut arr = var("b", 2);
    arr.dim(vec![3]);
    let list = vec![var("a", 0), arr, var("c", 4)];
    assert_eq!(insert(list, Type::Int, &mut t, 10), Ok(()));
    assert_eq!(t.get("a").unwrap().get_binding(), Ok(&10));
    assert_eq!(t.get("b").unwrap().get_binding(), Ok(&11));
    assert_eq!(t.get("b").unwrap().get_type(), &Type::Array(Primitive::Int, 1));
    assert_eq!(t.get("c").unwrap().get_binding(), Ok(&14));
    assert_eq!(*t.get_size(), 5);
}

#[test]
fn insert_stops_at_duplicate() {
    let mut t = SymbolTable::default();
    let list = vec![var("a", 0), var("b", 2), var("a", 4), var("c", 6)];
    assert_eq!(insert(list, Type::Str, &mut t, 1), Err((Some(sp(4, 5)), "Variable declared multiple times")));
    assert!(t.get("a").is_some());
    assert!(t.get("b").is_some());
    assert!(t.get("c").is_none());
    assert_eq!(*t.get_size(), 2);
}

#[test]
fn insert_global_and_local_bases() {
    let mut p = Parser::new();
    assert_eq!(insert_gst(vec![var("g", 0), var("h", 2)], Type::Int, &mut p), Ok(()));
    assert_eq!(insert_lst(vec![var("l", 4)], Type::Bool, &mut p), Ok(()));
    assert_eq!(p.gst().get("g").unwrap().get_binding(), Ok(&GLOBAL_BASE));
    assert_eq!(p.gst().get("h").unwrap().get_binding(), Ok(&4100));
    assert_eq!(p.lst().get("l").unwrap().get_binding(), Ok(&LOCAL_BASE));
    assert!(p.lst().get("g").is_none());
}

#[test]
fn get_variable_cases() {
    let mut p = Parser::new();
    let mut a = var("a", 0);
    a.dim(vec![4, 4]);
    assert_eq!(insert_gst(vec![var("x", 0), a], Type::Int, &mut p), Ok(()));
    assert_eq!(insert_lst(vec![var("x", 8)], Type::Str, &mut p), Ok(()));

    let e = get_variable("nope", sp(20, 24), vec![], RefType::Value, &p).unwrap_err();
    assert_eq!(e, (Some(sp(20, 24)), "Variable not declared"));

    let e = get_variable("a", sp(20, 21), vec![int_const("1", 22)], RefType::Value, &p).unwrap_err();
    assert_eq!(e, (Some(sp(20, 21)), "Array access dimension does not match the declared dimension"));

    let n = get_variable("a", sp(20, 21), vec![int_const("1", 22), int_const("2", 25)], RefType::Value, &p)
        .unwrap();
    assert_eq!(n.get_type(), Type::Int);
    assert_eq!(n.get_span(), Some(sp(20, 21)));

    // The local `x` hides the global one.
    let n = get_variable("x", sp(30, 31), vec![], RefType::Address, &p).unwrap();
    match n {
        Tnode::Var { symbol, ref_type, access, .. } => {
            assert_eq!(symbol.get_binding(), Ok(&1));
            assert_eq!(symbol.get_type(), &Type::Str);
            assert_eq!(ref_type, RefType::Address);
            assert!(access.is_empty());
        }
        _ => panic!("not a variable"),
    }
}

#[test]
fn get_variable_of_function() {
    let mut p = Parser::new();
    let f = Symbol::Function { name: "f".to_string(), label: 0, idx: None, ret_type: Type::Int, params: vec![] };
    assert_eq!(p.gst().insert_symbol(f, true), Ok(()));
    let e = get_variable("f", sp(0, 1), vec![], RefType::Value, &p).unwrap_err();
    assert_eq!(e, (Some(sp(0, 1)), "No dimention for functions"));
}

#[test]
fn check_access_vec_cases() {
    let ok = check_access_vec(vec![int_const("1", 0), int_const("2", 2)]).unwrap();
    assert_eq!(ok.len(), 2);
    let mut p = Parser::new();
    assert_eq!(insert_gst(vec![var("s", 0)], Type::Str, &mut p), Ok(()));
    let s = Box::new(get_variable("s", sp(5, 6), vec![], RefType::Value, &p).unwrap());
    let t = Box::new(get_variable("s", sp(8, 9), vec![], RefType::Value, &p).unwrap());
    let e = check_access_vec(vec![int_const("1", 0), s, t]).unwrap_err();
    assert_eq!(e, (Some(sp(5, 6)), "Index should be of type integer"));
    assert_eq!(check_access_vec(vec![]).unwrap().len(), 0);
}

#[test]
fn insert_args_bindings() {
    let mut p = Parser::new();
    let params = vec![(Type::Int, "a".to_string()), (Type::Str, "b".to_string()), (Type::Int, "c".to_string())];
    p.set_cfn_params(params.clone());
    assert_eq!(insert_args(params, sp(0, 10), &mut p), Ok(()));
    assert_eq!(p.lst().get("a").unwrap().get_binding(), Ok(&-5));
    assert_eq!(p.lst().get("b").unwrap().get_binding(), Ok(&-4));
    assert_eq!(p.lst().get("c").unwrap().get_binding(), Ok(&-3));
    assert_eq!(p.lst().get("b").unwrap().get_type(), &Type::Str);
    assert!(p.lst().get("b").unwrap().is_local());
    assert_eq!(*p.lst().get_size(), 0);
}

#[test]
fn insert_args_mismatch() {
    let mut p = Parser::new();
    p.set_cfn_params(vec![(Type::Int, "a".to_string()), (Type::Int, "b".to_string())]);
    let e = insert_args(vec![(Type::Int, "a".to_string()), (Type::Str, "b".to_string())], sp(3, 9), &mut p);
    assert_eq!(e, Err((Some(sp(3, 9)), "Arguments of function don't match with definition")));
    // The matching first parameter was declared before the mismatch.
    assert_eq!(p.lst().get("a").unwrap().get_binding(), Ok(&-4));
    assert!(p.lst().get("b").is_none());

    let mut q = Parser::new();
    q.set_cfn_params(vec![(Type::Int, "a".to_string())]);
    let e = insert_args(vec![], sp(0, 1), &mut q);
    assert_eq!(e, Err((Some(sp(0, 1)), "Arguments of function don't match with definition")));
    let e = insert_args(vec![(Type::Int, "a".to_string()), (Type::Int, "z".to_string())], sp(0, 1), &mut q);
    assert_eq!(e, Err((Some(sp(0, 1)), "Arguments of function don't match with definition")));
}

#[test]
fn insert_args_duplicate_name() {
    let mut p = Parser::new();
    let params = vec![(Type::Int, "a".to_string()), (Type::Int, "a".to_string())];
    p.set_cfn_params(params.clone());
    let e = insert_args(params, sp(0, 4), &mut p);
    assert_eq!(e, Err((Some(sp(0, 4)), "Multiple variables with same name defined")));
}

#[test]
fn no_params() {
    let mut p = Parser::new();
    assert_eq!(insert_args(vec![], sp(0, 0), &mut p), Ok(()));
}

#[test]
fn consecutive_addresses_do_not_overlap() {
    let mut p = Parser::new();
    let mut a = var("a", 0);
    a.dim(vec![2, 3]);
    let mut b = var("b", 2);
    b.dim(vec![5]);
    assert_eq!(insert_gst(vec![a, b, var("c", 4)], Type::Int, &mut p), Ok(()));
    let ba = *p.gst().get("a").unwrap().get_binding().unwrap();
    let bb = *p.gst().get("b").unwrap().get_binding().unwrap();
    let bc = *p.gst().get("c").unwrap().get_binding().unwrap();
    assert_eq!(bb, ba + 6);
    assert_eq!(bc, bb + 5);
    assert_eq!(*p.gst().get_size(), 12);
}

#[test]
fn operator_in_expression_tree() {
    let l = *int_const("1", 0);
    let r = *int_const("2", 4);
    let n = myexpl::utils::create_int_node(Op::Plus, sp(0, 5), l, r).unwrap();
    assert_eq!(n.get_type(), Type::Int);
}

#[test]
fn layout_of_many_variables() {
    let mut t = SymbolTable::default();
    let mut first = var("p", 0);
    first.dim(vec![2]);
    assert_eq!(insert(vec![first], Type::Int, &mut t, 100), Ok(()));
    let mut b = var("b", 2);
    b.dim(vec![4]);
    let mut d = var("d", 6);
    d.dim(vec![2, 2]);
    let list = vec![var("a", 0), b, var("c", 4), d, var("e", 8)];
    assert_eq!(insert(list, Type::Int, &mut t, 100), Ok(()));
    let expected = [("a", 102, 1), ("b", 103, 4), ("c", 107, 1), ("d", 108, 4), ("e", 112, 1)];
    for (name, at, _) in expected.iter() {
        assert_eq!(t.get(name).unwrap().get_binding(), Ok(at));
    }
    for w in expected.windows(2) {
        assert!(w[0].1 + w[0].2 <= w[1].1);
    }
    assert_eq!(*t.get_size(), 2 + 11);
}
