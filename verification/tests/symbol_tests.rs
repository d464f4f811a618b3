use lrpar::Span;
use myexpl::symbol::{Symbol, SymbolBuilder, SymbolTable};
use myexpl::type_table::{Primitive, Type, TypeBuilder};
use myexpl::utils::label::LabelGenerator;

fn var(name: &str, at: usize) -> SymbolBuilder {
    SymbolBuilder::new(Span::new(at, at + name.len()), name.to_string(), false)
}

#[test]
fn type_builder_plain() {
    let mut b = TypeBuilder::new();
    assert_eq!(b.build(), Err("Type of the symbol is not known"));
    b.dtype(Type::Int);
    assert_eq!(b.build(), Ok(Type::Int));
    assert_eq!(b.get_size(), 1);
}

#[test]
fn type_builder_array_and_pointer() {
    let mut b = TypeBuilder::new();
    b.dtype(Type::Str);
    b.dim(vec![3, 4]);
    assert_eq!(b.build(), Ok(Type::Array(Primitive::Str, 2)));
    assert_eq!(b.get_size(), 12);
    b.set_pointer();
    assert_eq!(b.build(), Err("Arrays of pointers are not supported"));
    assert_eq!(b.get_size(), 1);

    let mut p = TypeBuilder::new();
    p.dtype(Type::Int);
    p.set_pointer();
    assert_eq!(p.build(), Ok(Type::Pointer(Primitive::Int)));

    let mut v = TypeBuilder::new();
    v.dtype(Type::Void);
    v.set_pointer();
    assert_eq!(v.build(), Err("Pointers and arrays must be of int, bool or str"));
}

#[test]
fn type_builder_zero_dimension() {
    let mut b = TypeBuilder::new();
    b.dtype(Type::Int);
    b.dim(vec![255, 255, 0]);
    assert_eq!(b.get_size(), 0);
}

#[test]
fn type_dims() {
    assert_eq!(Type::Array(Primitive::Int, 3).get_dim(), 3);
    assert_eq!(Type::Int.get_dim(), 0);
    assert_eq!(Type::Array(Primitive::Bool, 1).indexed(), Type::Bool);
    assert_eq!(Type::Pointer(Primitive::Int).indexed(), Type::Pointer(Primitive::Int));
}

#[test]
fn builder_builds_variable() {
    let mut b = var("x", 4);
    b.dtype(Type::Int).binding(7);
    assert_eq!(b.get_name(), Span::new(4, 5));
    assert!(!b.is_func());
    let s = b.build().unwrap();
    assert_eq!(
        s,
        Symbol::Variable { name: "x".to_string(), binding: 7, dtype: Type::Int, is_static: false }
    );
}

#[test]
fn builder_builds_function() {
    let mut labels = LabelGenerator::new();
    assert_eq!(labels.get(), 0);
    let mut b = var("f", 0);
    b.dtype(Type::Bool).params(vec![(Type::Int, "a".to_string())], &mut labels);
    assert!(b.is_func());
    let s = b.build().unwrap();
    assert_eq!(
        s,
        Symbol::Function {
            name: "f".to_string(),
            label: 1,
            idx: None,
            ret_type: Type::Bool,
            params: vec![(Type::Int, "a".to_string())],
        }
    );
    assert_eq!(labels.get(), 2);
}

#[test]
fn builder_errors() {
    let mut b = var("y", 0);
    b.dtype(Type::Int);
    assert_eq!(b.build().unwrap_err(), "Couldn't create symbol from builder");
    let mut c = var("z", 0);
    c.binding(1);
    assert_eq!(c.build().unwrap_err(), "Type of the symbol is not known");
}

#[test]
fn builder_dim_and_ptr() {
    let mut b = var("a", 0);
    b.dtype(Type::Int).dim(vec![2, 5]).binding(10);
    assert_eq!(b.get_size(), 10);
    let s = b.build().unwrap();
    assert_eq!(s.get_dim(), Ok(2));
    assert_eq!(s.get_type(), &Type::Array(Primitive::Int, 2));

    let mut p = var("p", 0);
    p.ptr().dtype(Type::Str).binding(3);
    assert_eq!(p.build().unwrap().get_type(), &Type::Pointer(Primitive::Str));
}

#[test]
fn symbol_getters_variable() {
    let s = Symbol::Variable { name: "v".to_string(), binding: 300, dtype: Type::Int, is_static: false };
    assert_eq!(s.get_name(), "v");
    assert_eq!(s.get_type(), &Type::Int);
    assert_eq!(s.get_dim(), Ok(0));
    assert_eq!(s.get_binding(), Ok(&300));
    assert_eq!(s.get_label(), Err("This symbol is has no label"));
    assert_eq!(s.get_idx(), Ok(44));
    assert_eq!(s.get_params(), Err("The symbol was not of a function"));
    assert!(s.is_local());
    let g = Symbol::Variable { name: "g".to_string(), binding: -2, dtype: Type::Str, is_static: true };
    assert!(!g.is_local());
    assert_eq!(g.get_idx(), Ok(254));
}

#[test]
fn symbol_getters_function() {
    let params = vec![(Type::Int, "a".to_string()), (Type::Str, "b".to_string())];
    let f = Symbol::Function {
        name: "f".to_string(),
        label: 3,
        idx: Some(9),
        ret_type: Type::Void,
        params: params.clone(),
    };
    assert_eq!(f.get_name(), "f");
    assert_eq!(f.get_type(), &Type::Void);
    assert_eq!(f.get_dim(), Err("No dimention for functions"));
    assert_eq!(f.get_binding(), Err("This symbol is bound to an address"));
    assert_eq!(f.get_label(), Ok(&3));
    assert_eq!(f.get_idx(), Ok(9));
    assert_eq!(f.get_params(), Ok(&params));
    assert!(!f.is_local());
    let h = Symbol::Function { name: "h".to_string(), label: 0, idx: None, ret_type: Type::Int, params: vec![] };
    assert_eq!(h.get_idx(), Err("This function has no index"));
    assert_eq!(h.copy(), h);
}

#[test]
fn table_insert_builder_lays_out_variables() {
    let mut t = SymbolTable::default();
    assert_eq!(*t.get_size(), 0);
    let mut a = var("a", 0);
    a.dtype(Type::Int);
    assert_eq!(t.insert_builder(a, 4099), Ok(()));
    let mut b = var("b", 2);
    b.dtype(Type::Int).dim(vec![10]);
    assert_eq!(t.insert_builder(b, 4099), Ok(()));
    let mut c = var("c", 4);
    c.dtype(Type::Str);
    assert_eq!(t.insert_builder(c, 4099), Ok(()));
    assert_eq!(t.get("a").unwrap().get_binding(), Ok(&4099));
    assert_eq!(t.get("b").unwrap().get_binding(), Ok(&4100));
    assert_eq!(t.get("c").unwrap().get_binding(), Ok(&4110));
    assert_eq!(*t.get_size(), 12);
    assert!(t.get("d").is_none());
}

#[test]
fn table_insert_builder_function_takes_no_memory() {
    let mut t = SymbolTable::default();
    let mut labels = LabelGenerator::new();
    let mut f = var("f", 0);
    f.dtype(Type::Int).params(vec![], &mut labels);
    assert_eq!(t.insert_builder(f, 1), Ok(()));
    assert_eq!(*t.get_size(), 0);
    assert_eq!(t.get("f").unwrap().get_label(), Ok(&0));
}

#[test]
fn table_insert_builder_duplicate() {
    let mut t = SymbolTable::default();
    let mut a = var("a", 0);
    a.dtype(Type::Int);
    assert_eq!(t.insert_builder(a, 1), Ok(()));
    let mut again = var("a", 5);
    again.dtype(Type::Str).dim(vec![4]);
    assert_eq!(t.insert_builder(again, 1), Err("Variable declared multiple times"));
    assert_eq!(*t.get_size(), 1);
    assert_eq!(t.get("a").unwrap().get_type(), &Type::Int);
}

#[test]
fn table_insert_symbol() {
    let mut t = SymbolTable::default();
    let s = Symbol::Variable { name: "x".to_string(), binding: -3, dtype: Type::Int, is_static: false };
    assert_eq!(t.insert_symbol(s.clone(), true), Ok(()));
    assert_eq!(t.get("x"), Some(&s));
    let s2 = Symbol::Variable { name: "x".to_string(), binding: -4, dtype: Type::Str, is_static: false };
    assert_eq!(t.insert_symbol(s2.clone(), true), Err("Multiple variables with same name defined"));
    assert_eq!(t.get("x"), Some(&s));
    assert_eq!(t.insert_symbol(s2.clone(), false), Ok(()));
    assert_eq!(t.get("x"), Some(&s2));
    assert_eq!(*t.get_size(), 0);
}

#[test]
fn labels_are_fresh() {
    let mut g = LabelGenerator::new();
    let a = g.get();
    let b = g.get();
    let c = g.get();
    assert_eq!((a, b, c), (0, 1, 2));
}

#[test]
fn builder_is_func_only_after_params() {
    let mut labels = LabelGenerator::new();
    let mut b = var("f", 0);
    assert!(!b.is_func());
    b.dtype(Type::Int).dim(vec![2]).ptr().binding(4);
    assert!(!b.is_func());
    b.params(vec![], &mut labels);
    assert!(b.is_func());
    b.binding(5).dim(vec![]);
    assert!(b.is_func());
}

#[test]
fn table_size_never_shrinks() {
    let mut t = SymbolTable::default();
    let mut a = var("a", 0);
    a.dtype(Type::Int).dim(vec![3]);
    assert_eq!(t.insert_builder(a, 1), Ok(()));
    assert_eq!(*t.get_size(), 3);
    let mut dup = var("a", 2);
    dup.dtype(Type::Int);
    assert!(t.insert_builder(dup, 1).is_err());
    assert_eq!(*t.get_size(), 3);
    let s = Symbol::Variable { name: "a".to_string(), binding: 9, dtype: Type::Int, is_static: false };
    assert_eq!(t.insert_symbol(s, false), Ok(()));
    assert_eq!(*t.get_size(), 3);
    let mut b = var("b", 4);
    b.dtype(Type::Int);
    assert_eq!(t.insert_builder(b, 1), Ok(()));
    assert_eq!(*t.get_size(), 4);
}

#[test]
fn table_fits_checks() {
    let mut t = SymbolTable::default();
    let mut a = var("a", 0);
    a.dtype(Type::Int).dim(vec![255, 255]);
    assert!(t.fits(&a, 1));
    assert_eq!(t.insert_builder(a, 1), Ok(()));
    assert_eq!(*t.get_size(), 65025);
    let mut big = var("b", 0);
    big.dtype(Type::Int).dim(vec![255, 3]);
    assert!(!t.fits(&big, 1));
    let mut small = var("c", 0);
    small.dtype(Type::Int).dim(vec![10]);
    // The table's size, taken as an i16, is -511 here.
    assert!(!t.fits(&small, -32768));
    assert!(t.fits(&small, 32767));
    let mut untyped = var("d", 0);
    untyped.binding(0);
    assert!(!t.fits(&untyped, 1));
    let mut labels = LabelGenerator::new();
    let mut f = var("f", 0);
    f.dtype(Type::Void).params(vec![], &mut labels);
    assert!(t.fits(&f, 32767));
}

#[test]
fn layout_of_separate_calls() {
    let mut t = SymbolTable::default();
    let mut a = var("a", 0);
    a.dtype(Type::Int).dim(vec![2, 3]);
    let mut p = var("p", 2);
    p.dtype(Type::Str).ptr();
    let mut s = var("s", 4);
    s.dtype(Type::Bool).dim(vec![4]);
    for b in [a, p, s] {
        assert!(t.fits(&b, 50));
        assert_eq!(t.insert_builder(b, 50), Ok(()));
    }
    assert_eq!(t.get("a").unwrap().get_binding(), Ok(&50));
    assert_eq!(t.get("p").unwrap().get_binding(), Ok(&56));
    assert_eq!(t.get("s").unwrap().get_binding(), Ok(&57));
    assert_eq!(*t.get_size(), 11);
}
