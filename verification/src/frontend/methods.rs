//! The checks and declarations that the grammar's actions perform.
use vstd::prelude::*;
use lrpar::Span;
use crate::ast::{Tnode, node_type, node_span};
use crate::decimal::{parse_u32, spec_parse_u32};
use crate::frontend::{Parser, ParserView, spec_lookup};
use crate::symbol::{
    Symbol, SymbolBuilder, SymbolBuilderView, SymbolTable, SymbolTableView, SymbolView,
    copy_params, params_view, spec_symbol_of, builder_fits, declare, TableCall, after_table_call,
    after_table_calls, table_calls_fit,
};
use crate::type_table::{Type, RefType, TypeBuilderView, spec_built_type, spec_type_size, spec_dim};

verus! {

/// Reads an integer from the text of its token: fails, pointing at the
/// token, where the text is not a `u32`.
pub fn parse_int(text: &str, span: Span) -> (r: Result<u32, (Option<Span>, &'static str)>)
    ensures
        match spec_parse_u32(text@) {
            Some(v) => r == Ok::<u32, (Option<Span>, &'static str)>(v),
            None => r matches Err(e) && e.0 == Some(span) && e.1@ == "Can't parse to u32"@,
        },
{
    match parse_u32(text) {
        Some(val) => Ok(val),
        None => Err((Some(span), "Can't parse to u32")),
    }
}

/// The builder once the declaration's base type is known.
pub open spec fn with_type(b: SymbolBuilderView, inner: Type) -> SymbolBuilderView {
    SymbolBuilderView { dtype: TypeBuilderView { inner: Some(inner), ..b.dtype }, ..b }
}

/// Whether every builder of the list can be declared in turn, up to the
/// first whose name is taken.
pub open spec fn all_fit(t: SymbolTableView, vars: Seq<SymbolBuilderView>, inner: Type, base: i16) -> bool
    decreases vars.len(),
{
    if vars.len() == 0 {
        true
    } else {
        let b = with_type(vars[0], inner);
        if t.symbols.contains_key(b.name) {
            true
        } else {
            builder_fits(t, b, base) && all_fit(declare(t, b, base), vars.drop_first(), inner, base)
        }
    }
}

/// The table after the builders are declared in turn, and where the first
/// name that was taken already stands, if any (the declarations stop there).
pub open spec fn declare_all(t: SymbolTableView, vars: Seq<SymbolBuilderView>, inner: Type, base: i16) -> (
    SymbolTableView,
    Option<Span>,
)
    decreases vars.len(),
{
    if vars.len() == 0 {
        (t, None)
    } else {
        let b = with_type(vars[0], inner);
        if t.symbols.contains_key(b.name) {
            (t, Some(b.span))
        } else {
            declare_all(declare(t, b, base), vars.drop_first(), inner, base)
        }
    }
}

pub open spec fn builders_view(vars: Seq<SymbolBuilder>) -> Seq<SymbolBuilderView> {
    vars.map_values(|b: SymbolBuilder| b@)
}

/// Declares the names of one declaration, in order, all with the base type
/// `inner_type`, the variables at addresses from `base` on. Stops at the
/// first name that is declared already, with an error that points at it.
pub fn insert(var_list: Vec<SymbolBuilder>, inner_type: Type, s_table: &mut SymbolTable, base: i16) -> (r:
    Result<(), (Option<Span>, &'static str)>)
    requires
        all_fit(old(s_table)@, builders_view(var_list@), inner_type, base),
    ensures
        final(s_table)@ == declare_all(old(s_table)@, builders_view(var_list@), inner_type, base).0,
        match declare_all(old(s_table)@, builders_view(var_list@), inner_type, base).1 {
            None => r is Ok,
            Some(sp) => r matches Err(e) && e.0 == Some(sp) && e.1@ == "Variable declared multiple times"@,
        },
        old(s_table)@.well_named() ==> final(s_table)@.well_named(),
{
    let ghost all = builders_view(var_list@);
    let ghost t0 = s_table@;
    let mut vars = var_list;
    while vars.len() > 0
        invariant
            all_fit(s_table@, builders_view(vars@), inner_type, base),
            declare_all(s_table@, builders_view(vars@), inner_type, base) == declare_all(
                t0,
                all,
                inner_type,
                base,
            ),
            t0.well_named() ==> s_table@.well_named(),
            t0 == old(s_table)@,
            all == builders_view(var_list@),
        decreases vars@.len(),
    {
        let ghost rest = builders_view(vars@);
        let mut var = vars.remove(0);
        proof {
            assert(builders_view(vars@) =~= rest.drop_first());
            assert(var@ == rest[0]);
        }
        var.dtype(inner_type);
        let span = var.get_name();
        match s_table.insert_builder(var, base) {
            Ok(()) => {},
            Err(msg) => {
                return Err((Some(span), msg));
            },
        }
    }
    Ok(())
}

/// The address from which global variables are laid out.
pub const GLOBAL_BASE: i16 = 4099;

/// The address from which a function's local variables are laid out.
pub const LOCAL_BASE: i16 = 1;

/// Declares global names: `insert` into the global table, from
/// `GLOBAL_BASE` on.
pub fn insert_gst(var_list: Vec<SymbolBuilder>, inner_type: Type, parser: &mut Parser) -> (r: Result<
    (),
    (Option<Span>, &'static str),
>)
    requires
        all_fit(old(parser)@.gst, builders_view(var_list@), inner_type, GLOBAL_BASE),
    ensures
        final(parser)@ == (ParserView {
            gst: declare_all(old(parser)@.gst, builders_view(var_list@), inner_type, GLOBAL_BASE).0,
            ..old(parser)@
        }),
        match declare_all(old(parser)@.gst, builders_view(var_list@), inner_type, GLOBAL_BASE).1 {
            None => r is Ok,
            Some(sp) => r matches Err(e) && e.0 == Some(sp) && e.1@ == "Variable declared multiple times"@,
        },
{
    insert(var_list, inner_type, parser.gst(), GLOBAL_BASE)
}

/// Declares local names: `insert` into the local table, from `LOCAL_BASE`
/// on.
pub fn insert_lst(var_list: Vec<SymbolBuilder>, inner_type: Type, parser: &mut Parser) -> (r: Result<
    (),
    (Option<Span>, &'static str),
>)
    requires
        all_fit(old(parser)@.lst, builders_view(var_list@), inner_type, LOCAL_BASE),
    ensures
        final(parser)@ == (ParserView {
            lst: declare_all(old(parser)@.lst, builders_view(var_list@), inner_type, LOCAL_BASE).0,
            ..old(parser)@
        }),
        match declare_all(old(parser)@.lst, builders_view(var_list@), inner_type, LOCAL_BASE).1 {
            None => r is Ok,
            Some(sp) => r matches Err(e) && e.0 == Some(sp) && e.1@ == "Variable declared multiple times"@,
        },
{
    insert(var_list, inner_type, parser.lst(), LOCAL_BASE)
}

/// Whether every index expression is an integer.
pub open spec fn all_int(exp: Seq<Box<Tnode>>) -> bool {
    forall|i: int| 0 <= i < exp.len() ==> node_type(*#[trigger] exp[i]) == Type::Int
}

/// Checks that every index expression of an array access is an integer.
/// Fails, pointing at the first index that is not, where one is not.
pub fn check_access_vec(exp: Vec<Box<Tnode>>) -> (r: Result<Vec<Box<Tnode>>, (Option<Span>, &'static str)>)
    ensures
        r is Ok <==> all_int(exp@),
        r matches Ok(v) ==> v == exp,
        r matches Err(e) ==> exists|k: int|
            0 <= k < exp@.len() && node_type(*#[trigger] exp@[k]) != Type::Int && all_int(exp@.take(k))
                && e.0 == Some(node_span(*exp@[k])) && e.1@ == "Index should be of type integer"@,
{
    let mut i: usize = 0;
    while i < exp.len()
        invariant
            i <= exp@.len(),
            all_int(exp@.take(i as int)),
        decreases exp@.len() - i,
    {
        match exp[i].get_type() {
            Type::Int => {},
            _ => {
                assert(node_type(*exp@[i as int]) != Type::Int);
                return Err((exp[i].get_span(), "Index should be of type integer"));
            },
        }
        proof {
            assert forall|j: int| 0 <= j < i + 1 implies node_type(*#[trigger] exp@.take(i + 1)[j])
                == Type::Int by {
                if j < i {
                    assert(exp@.take(i + 1)[j] == exp@.take(i as int)[j]);
                }
            }
        }
        i = i + 1;
    }
    assert(exp@.take(i as int) =~= exp@);
    Ok(exp)
}

/// An occurrence of the variable `name`, written at `span`, indexed by
/// `access`. Fails where the name is not declared, where it is a function,
/// and where the number of indices differs from the number of dimensions
/// (both taken as `i16`).
pub fn get_variable(name: &str, span: Span, access: Vec<Box<Tnode>>, ref_type: RefType, parser: &Parser) -> (r:
    Result<Tnode, (Option<Span>, &'static str)>)
    ensures
        match spec_lookup(parser@, name@) {
            None => r matches Err(e) && e.0 == Some(span) && e.1@ == "Variable not declared"@,
            Some(SymbolView::Function { .. }) => r matches Err(e) && e.0 == Some(span) && e.1@
                == "No dimention for functions"@,
            Some(SymbolView::Variable { dtype, .. }) => if (spec_dim(dtype) as i16) != (access@.len() as i16) {
                r matches Err(e) && e.0 == Some(span) && e.1@
                    == "Array access dimension does not match the declared dimension"@
            } else {
                r matches Ok(Tnode::Var { span: s, symbol, ref_type: rt, access: a }) && s == span && symbol@
                    == spec_lookup(parser@, name@).unwrap() && rt == ref_type && a == access
            },
        },
{
    let entry = match parser.get_var(name) {
        Ok(entry) => entry,
        Err(msg) => return Err((Some(span), msg)),
    };
    let dim = match entry.get_dim() {
        Ok(d) => d,
        Err(msg) => return Err((Some(span), msg)),
    };
    if (dim as i16) != (access.len() as i16) {
        return Err((Some(span), "Array access dimension does not match the declared dimension"));
    }
    Ok(Tnode::Var { span, symbol: entry, ref_type, access })
}

/// The local variable that a parameter becomes.
pub open spec fn arg_symbol(p: (Type, Seq<char>), binding: i16) -> SymbolView {
    SymbolView::Variable { name: p.1, binding, dtype: p.0, is_static: false }
}

/// The local table after the parameters of a definition are declared in
/// turn, checked against those declared for the function, the first at the
/// address `-counter` and each next one a word higher; and the error at
/// which the declarations stop, if any.
pub open spec fn declare_args(
    t: SymbolTableView,
    declared: Seq<(Type, Seq<char>)>,
    given: Seq<(Type, Seq<char>)>,
    counter: int,
) -> (SymbolTableView, Option<Seq<char>>)
    decreases given.len(),
{
    if declared.len() > 0 && given.len() > 0 {
        if declared[0] != given[0] {
            (t, Some("Arguments of function don't match with definition"@))
        } else if t.symbols.contains_key(declared[0].1) {
            (t, Some("Multiple variables with same name defined"@))
        } else {
            declare_args(
                SymbolTableView {
                    symbols: t.symbols.insert(declared[0].1, arg_symbol(declared[0], (-counter) as i16)),
                    size: t.size,
                },
                declared.drop_first(),
                given.drop_first(),
                counter - 1,
            )
        }
    } else if declared.len() == 0 && given.len() == 0 {
        (t, None)
    } else {
        (t, Some("Arguments of function don't match with definition"@))
    }
}

/// Declaring parameters succeeds only where the definition's parameters are
/// the declared ones: same number, and at each position the same type and
/// the same name.
pub proof fn law_args_success_means_match(
    t: SymbolTableView,
    declared: Seq<(Type, Seq<char>)>,
    given: Seq<(Type, Seq<char>)>,
    counter: int,
)
    ensures
        declare_args(t, declared, given, counter).1 is None ==> declared.len() == given.len() && forall|i: int|
            0 <= i < declared.len() ==> (#[trigger] declared[i]).0 == given[i].0 && declared[i].1 == given[i].1,
    decreases given.len(),
{
    if declared.len() > 0 && given.len() > 0 && declared[0] == given[0] && !t.symbols.contains_key(
        declared[0].1,
    ) {
        let t1 = SymbolTableView {
            symbols: t.symbols.insert(declared[0].1, arg_symbol(declared[0], (-counter) as i16)),
            size: t.size,
        };
        law_args_success_means_match(t1, declared.drop_first(), given.drop_first(), counter - 1);
        if declare_args(t, declared, given, counter).1 is None {
            assert forall|i: int| 0 <= i < declared.len() implies (#[trigger] declared[i]).0 == given[i].0
                && declared[i].1 == given[i].1 by {
                if i > 0 {
                    assert(declared.drop_first()[i - 1] == declared[i]);
                    assert(given.drop_first()[i - 1] == given[i]);
                }
            }
        }
    }
}

/// Where the parameters agree up to position `k` (and their names there are
/// new and distinct), and at `k` they differ in type or name, or one list
/// ends before the other, declaring them fails with the mismatch error.
pub proof fn law_args_first_mismatch(
    t: SymbolTableView,
    declared: Seq<(Type, Seq<char>)>,
    given: Seq<(Type, Seq<char>)>,
    counter: int,
    k: int,
)
    requires
        0 <= k <= declared.len(),
        k <= given.len(),
        forall|j: int| 0 <= j < k ==> #[trigger] declared[j] == given[j],
        forall|i: int, j: int| 0 <= i < j < k ==> declared[i].1 != declared[j].1,
        forall|j: int| 0 <= j < k ==> !t.symbols.contains_key(#[trigger] declared[j].1),
        !(k == declared.len() && k == given.len()),
        k < declared.len() && k < given.len() ==> declared[k].0 != given[k].0 || declared[k].1 != given[k].1,
    ensures
        declare_args(t, declared, given, counter).1 == Some("Arguments of function don't match with definition"@),
    decreases k,
{
    if k > 0 {
        let t1 = SymbolTableView {
            symbols: t.symbols.insert(declared[0].1, arg_symbol(declared[0], (-counter) as i16)),
            size: t.size,
        };
        let d1 = declared.drop_first();
        let g1 = given.drop_first();
        assert(declared[0] == given[0]);
        assert forall|j: int| 0 <= j < k - 1 implies #[trigger] d1[j] == g1[j] by {
            assert(declared[j + 1] == given[j + 1]);
        }
        assert forall|i: int, j: int| 0 <= i < j < k - 1 implies d1[i].1 != d1[j].1 by {
            assert(d1[i] == declared[i + 1]);
            assert(d1[j] == declared[j + 1]);
        }
        assert forall|j: int| 0 <= j < k - 1 implies !t1.symbols.contains_key(#[trigger] d1[j].1) by {
            assert(d1[j] == declared[j + 1]);
        }
        if k - 1 < d1.len() && k - 1 < g1.len() {
            assert(d1[k - 1] == declared[k] && g1[k - 1] == given[k]);
        }
        law_args_first_mismatch(t1, d1, g1, counter - 1, k - 1);
    } else {
        if declared.len() > 0 && given.len() > 0 {
            assert(declared[0] != given[0]);
        }
    }
}

/// Declares the parameters of a function's definition as its local
/// variables, after checking them one by one against the parameters
/// declared for the function: same types, same names, same number. With
/// `n` parameters, the first lives at address `-(n + 2)` and the last at
/// `-3`. Stops at the first mismatch or name already declared, with an
/// error that points at `span`.
pub fn insert_args(params: Vec<(Type, String)>, span: Span, parser: &mut Parser) -> (r: Result<
    (),
    (Option<Span>, &'static str),
>)
    requires
        params@.len() + 2 <= i16::MAX,
    ensures
        final(parser)@ == (ParserView {
            lst: declare_args(old(parser)@.lst, old(parser)@.cfn_params, params_view(params@), params@.len() + 2int).0,
            ..old(parser)@
        }),
        match declare_args(old(parser)@.lst, old(parser)@.cfn_params, params_view(params@), params@.len() + 2int).1 {
            None => r is Ok,
            Some(msg) => r matches Err(e) && e.0 == Some(span) && e.1@ == msg,
        },
        r is Ok ==> old(parser)@.cfn_params.len() == params@.len() && forall|i: int|
            0 <= i < params@.len() ==> (#[trigger] old(parser)@.cfn_params[i]).0 == params@[i].0
                && old(parser)@.cfn_params[i].1 == params@[i].1@,
{
    let declared = copy_params(parser.cfn_params());
    let n = params.len();
    let mut counter: i16 = n as i16 + 2;
    let mut i: usize = 0;
    let ghost given = params_view(params@);
    let ghost dec = params_view(declared@);
    let ghost p0 = parser@;
    assert(dec.skip(0) =~= dec);
    assert(given.skip(0) =~= given);
    while i < n && i < declared.len()
        invariant
            n == params@.len(),
            n + 2 <= i16::MAX,
            i <= n,
            i <= declared@.len(),
            counter == n + 2 - i,
            given == params_view(params@),
            dec == params_view(declared@),
            dec == p0.cfn_params,
            p0 == old(parser)@,
            parser@ == (ParserView { lst: parser@.lst, ..p0 }),
            declare_args(parser@.lst, dec.skip(i as int), given.skip(i as int), counter as int) == declare_args(
                p0.lst,
                dec,
                given,
                n + 2int,
            ),
        decreases n - i,
    {
        let ghost t = parser@.lst;
        proof {
            assert(dec.skip(i as int).drop_first() =~= dec.skip(i + 1));
            assert(given.skip(i as int).drop_first() =~= given.skip(i + 1));
            assert(dec.skip(i as int)[0] == dec[i as int]);
            assert(given.skip(i as int)[0] == given[i as int]);
        }
        if !(declared[i].0 == params[i].0 && declared[i].1 == params[i].1) {
            return Err((Some(span), "Arguments of function don't match with definition"));
        }
        let sym = Symbol::Variable {
            name: declared[i].1.clone(),
            binding: -1 * counter,
            dtype: declared[i].0,
            is_static: false,
        };
        match parser.lst().insert_symbol(sym, true) {
            Ok(()) => {},
            Err(msg) => return Err((Some(span), msg)),
        }
        counter = counter - 1;
        i = i + 1;
    }
    if i < n || i < declared.len() {
        return Err((Some(span), "Arguments of function don't match with definition"));
    }
    proof {
        assert(dec.skip(i as int).len() == 0);
        assert(given.skip(i as int).len() == 0);
        law_args_success_means_match(p0.lst, dec, given, n + 2int);
        assert forall|j: int| 0 <= j < params@.len() implies (#[trigger] old(parser)@.cfn_params[j]).0
            == params@[j].0 && old(parser)@.cfn_params[j].1 == params@[j].1@ by {
            assert(given[j] == (params@[j].0, params@[j].1@));
        }
    }
    Ok(())
}

/// Variables declared one after the other are laid out one after the
/// other: the second starts where the first ends, so their memory does not
/// overlap.
pub proof fn law_consecutive_addresses(t: SymbolTableView, b1: SymbolBuilderView, b2: SymbolBuilderView, base: i16)
    requires
        !b1.is_func(),
        !b2.is_func(),
        b1.name != b2.name,
        !t.symbols.contains_key(b1.name),
        !t.symbols.contains_key(b2.name),
        builder_fits(t, b1, base),
        builder_fits(declare(t, b1, base), b2, base),
        t.size + spec_type_size(b1.dtype) <= i16::MAX,
    ensures
        declare(declare(t, b1, base), b2, base).symbols[b1.name] matches SymbolView::Variable {
            binding: a1,
            ..
        } && declare(declare(t, b1, base), b2, base).symbols[b2.name] matches SymbolView::Variable {
            binding: a2,
            ..
        } && a2 == a1 + spec_type_size(b1.dtype),
{
    let t1 = declare(t, b1, base);
    let sz = t.size;
    let sz1 = t1.size;
    assert(sz as i16 == sz) by (bit_vector)
        requires
            sz <= 32767u16,
    ;
    assert(sz1 as i16 == sz1) by (bit_vector)
        requires
            sz1 <= 32767u16,
    ;
}

/// The parameters of a definition that match the declared ones and whose
/// names are new and distinct are all declared, in order, each a word above
/// the one before: the parameter at position `i` lives at `-(counter - i)`.
/// The memory the table takes does not change, nor does any other name.
pub proof fn law_parameter_addresses(t: SymbolTableView, d: Seq<(Type, Seq<char>)>, counter: int)
    requires
        forall|i: int, j: int| 0 <= i < j < d.len() ==> d[i].1 != d[j].1,
        forall|i: int| 0 <= i < d.len() ==> !t.symbols.contains_key(#[trigger] d[i].1),
        counter <= i16::MAX,
        counter - d.len() >= 0,
    ensures
        declare_args(t, d, d, counter).1 is None,
        declare_args(t, d, d, counter).0.size == t.size,
        forall|i: int|
            0 <= i < d.len() ==> declare_args(t, d, d, counter).0.symbols.contains_key(d[i].1)
                && #[trigger] declare_args(t, d, d, counter).0.symbols[d[i].1] == arg_symbol(
                d[i],
                (-(counter - i)) as i16,
            ),
        forall|k: Seq<char>|
            (forall|i: int| 0 <= i < d.len() ==> d[i].1 != k) ==> (#[trigger] declare_args(t, d, d, counter).0.symbols.contains_key(k)
                == t.symbols.contains_key(k) && (t.symbols.contains_key(k) ==> declare_args(
                t,
                d,
                d,
                counter,
            ).0.symbols[k] == t.symbols[k])),
    decreases d.len(),
{
    if d.len() > 0 {
        let t1 = SymbolTableView {
            symbols: t.symbols.insert(d[0].1, arg_symbol(d[0], (-counter) as i16)),
            size: t.size,
        };
        let rest = d.drop_first();
        assert forall|i: int| 0 <= i < rest.len() implies !t1.symbols.contains_key(#[trigger] rest[i].1) by {
            assert(rest[i] == d[i + 1]);
        }
        assert forall|i: int, j: int| 0 <= i < j < rest.len() implies rest[i].1 != rest[j].1 by {
            assert(rest[i] == d[i + 1]);
            assert(rest[j] == d[j + 1]);
        }
        law_parameter_addresses(t1, rest, counter - 1);
        let r = declare_args(t, d, d, counter).0;
        assert(r == declare_args(t1, rest, rest, counter - 1).0);
        assert forall|i: int| 0 <= i < d.len() implies r.symbols.contains_key(d[i].1)
            && #[trigger] r.symbols[d[i].1] == arg_symbol(d[i], (-(counter - i)) as i16) by {
            if i == 0 {
                assert forall|j: int| 0 <= j < rest.len() implies rest[j].1 != d[0].1 by {
                    assert(rest[j] == d[j + 1]);
                }
                assert(t1.symbols.contains_key(d[0].1));
                assert(r.symbols.contains_key(d[0].1));
                assert(-(counter - i) == -counter);
            } else {
                assert(rest[i - 1] == d[i]);
            }
        }
        assert forall|k: Seq<char>| (forall|i: int| 0 <= i < d.len() ==> d[i].1 != k) implies (
        #[trigger] r.symbols.contains_key(k) == t.symbols.contains_key(k) && (t.symbols.contains_key(k)
            ==> r.symbols[k] == t.symbols[k])) by {
            assert(d[0].1 != k);
            assert forall|j: int| 0 <= j < rest.len() implies rest[j].1 != k by {
                assert(rest[j] == d[j + 1]);
            }
        }
    }
}

/// The memory that a list of declarations takes, in words.
pub open spec fn sizes_sum(vars: Seq<SymbolBuilderView>) -> nat
    decreases vars.len(),
{
    if vars.len() == 0 {
        0
    } else {
        sizes_sum(vars.drop_last()) + spec_type_size(vars.last().dtype)
    }
}

/// The memory of a list is that of its first declaration plus that of the
/// rest.
pub proof fn lemma_sizes_sum_first(vars: Seq<SymbolBuilderView>)
    requires
        vars.len() > 0,
    ensures
        sizes_sum(vars) == spec_type_size(vars[0].dtype) + sizes_sum(vars.drop_first()),
    decreases vars.len(),
{
    if vars.len() > 1 {
        lemma_sizes_sum_first(vars.drop_last());
        assert(vars.drop_last().drop_first() =~= vars.drop_first().drop_last());
        assert(vars.drop_first().last() == vars.last());
        assert(vars.drop_last()[0] == vars[0]);
        let df = vars.drop_first();
        assert(sizes_sum(df) == sizes_sum(df.drop_last()) + spec_type_size(df.last().dtype));
        assert(sizes_sum(vars) == sizes_sum(vars.drop_last()) + spec_type_size(vars.last().dtype));
    } else {
        assert(vars.drop_first().len() == 0);
        assert(vars.drop_last().len() == 0);
        assert(vars.last() == vars[0]);
        assert(sizes_sum(vars.drop_first()) == 0);
        assert(sizes_sum(vars.drop_last()) == 0);
    }
}

/// A longer prefix of a list never takes less memory.
pub proof fn lemma_sizes_sum_prefix(vars: Seq<SymbolBuilderView>, i: int, j: int)
    requires
        0 <= i <= j <= vars.len(),
    ensures
        sizes_sum(vars.take(i)) <= sizes_sum(vars.take(j)),
        j == i + 1 ==> sizes_sum(vars.take(j)) == sizes_sum(vars.take(i)) + spec_type_size(vars[i].dtype),
    decreases j - i,
{
    if i < j {
        lemma_sizes_sum_prefix(vars, i, j - 1);
        assert(vars.take(j).drop_last() =~= vars.take(j - 1));
    }
}

pub proof fn lemma_u16_as_i16(x: u16)
    requires
        x <= 32767,
    ensures
        x as i16 == x,
{
    assert(x as i16 == x) by (bit_vector)
        requires
            x <= 32767u16,
    ;
}

/// The address that the `i`-th of a list of variables declared in `t` gets:
/// `base` plus the memory the table took before plus that of the variables
/// before it.
pub open spec fn layout_address(t: SymbolTableView, vars: Seq<SymbolBuilderView>, base: i16, i: int) -> int {
    base + t.size + sizes_sum(vars.take(i))
}

/// Variables declared by one declaration are laid out one after the other:
/// where the names are new and distinct and none is a function, every
/// variable is declared, the `i`-th at `layout_address`, with the built
/// type; the table then takes the memory it took before plus that of the
/// variables; each variable's memory lies inside the new part of the table,
/// and no two overlap. Names not in the list are untouched.
pub proof fn law_layout(t: SymbolTableView, vars: Seq<SymbolBuilderView>, inner: Type, base: i16)
    requires
        forall|i: int| 0 <= i < vars.len() ==> !(#[trigger] vars[i]).is_func(),
        forall|i: int, j: int| 0 <= i < j < vars.len() ==> vars[i].name != vars[j].name,
        forall|i: int| 0 <= i < vars.len() ==> !t.symbols.contains_key(#[trigger] vars[i].name),
        all_fit(t, vars, inner, base),
        t.size + sizes_sum(vars) <= i16::MAX,
    ensures
        declare_all(t, vars, inner, base).1 is None,
        declare_all(t, vars, inner, base).0.size == t.size + sizes_sum(vars),
        forall|i: int|
            0 <= i < vars.len() ==> declare_all(t, vars, inner, base).0.symbols.contains_key(vars[i].name)
                && (#[trigger] declare_all(t, vars, inner, base).0.symbols[vars[i].name] matches SymbolView::Variable {
                name,
                binding,
                dtype,
                is_static,
            } && name == vars[i].name && binding == layout_address(t, vars, base, i) && Some(dtype)
                == spec_built_type(with_type(vars[i], inner).dtype) && is_static == vars[i].is_static),
        forall|i: int|
            0 <= i < vars.len() ==> base + t.size <= #[trigger] layout_address(t, vars, base, i)
                && layout_address(t, vars, base, i) + spec_type_size(vars[i].dtype) <= base + t.size
                + sizes_sum(vars),
        forall|i: int, j: int|
            0 <= i < j < vars.len() ==> #[trigger] layout_address(t, vars, base, i) + spec_type_size(
                vars[i].dtype,
            ) <= #[trigger] layout_address(t, vars, base, j),
        forall|k: Seq<char>|
            (forall|i: int| 0 <= i < vars.len() ==> vars[i].name != k) ==> (
            #[trigger] declare_all(t, vars, inner, base).0.symbols.contains_key(k) == t.symbols.contains_key(k)
                && (t.symbols.contains_key(k) ==> declare_all(t, vars, inner, base).0.symbols[k]
                == t.symbols[k])),
    decreases vars.len(),
{
    let total = sizes_sum(vars);
    if vars.len() > 0 {
        let b = with_type(vars[0], inner);
        let rest = vars.drop_first();
        let t1 = declare(t, b, base);
        lemma_sizes_sum_first(vars);
        lemma_u16_as_i16(t.size);
        assert(!vars[0].is_func());
        assert(t1.size == t.size + spec_type_size(vars[0].dtype));
        assert forall|i: int| 0 <= i < rest.len() implies !t1.symbols.contains_key(#[trigger] rest[i].name) by {
            assert(rest[i] == vars[i + 1]);
        }
        assert forall|i: int, j: int| 0 <= i < j < rest.len() implies rest[i].name != rest[j].name by {
            assert(rest[i] == vars[i + 1]);
            assert(rest[j] == vars[j + 1]);
        }
        assert forall|i: int| 0 <= i < rest.len() implies !(#[trigger] rest[i]).is_func() by {
            assert(rest[i] == vars[i + 1]);
        }
        law_layout(t1, rest, inner, base);
        let r = declare_all(t, vars, inner, base).0;
        assert(r == declare_all(t1, rest, inner, base).0);
        assert forall|i: int| 0 <= i <= vars.len() implies #[trigger] layout_address(t, vars, base, i)
            == if i == 0 {
            base + t.size
        } else {
            layout_address(t1, rest, base, i - 1)
        } by {
            if i > 0 {
                lemma_sizes_sum_first(vars.take(i));
                assert(vars.take(i).drop_first() =~= rest.take(i - 1));
                assert(vars.take(i)[0] == vars[0]);
            } else {
                assert(vars.take(0).len() == 0);
            }
        }
        assert forall|i: int|
            0 <= i < vars.len() implies r.symbols.contains_key(vars[i].name) && (
        #[trigger] r.symbols[vars[i].name] matches SymbolView::Variable { name, binding, dtype, is_static }
            && name == vars[i].name && binding == layout_address(t, vars, base, i) && Some(dtype)
            == spec_built_type(with_type(vars[i], inner).dtype) && is_static == vars[i].is_static) by {
            if i == 0 {
                assert forall|j: int| 0 <= j < rest.len() implies rest[j].name != vars[0].name by {
                    assert(rest[j] == vars[j + 1]);
                }
                assert(t1.symbols.contains_key(vars[0].name));
                assert(r.symbols.contains_key(vars[0].name));
                assert(layout_address(t, vars, base, 0) == base + t.size);
            } else {
                assert(rest[i - 1] == vars[i]);
                assert(layout_address(t, vars, base, i) == layout_address(t1, rest, base, i - 1));
            }
        }
        assert forall|i: int|
            0 <= i < vars.len() implies base + t.size <= #[trigger] layout_address(t, vars, base, i)
            && layout_address(t, vars, base, i) + spec_type_size(vars[i].dtype) <= base + t.size + total by {
            lemma_sizes_sum_prefix(vars, i, i + 1);
            lemma_sizes_sum_prefix(vars, i + 1, vars.len() as int);
            assert(vars.take(vars.len() as int) =~= vars);
        }
        assert forall|i: int, j: int| 0 <= i < j < vars.len() implies #[trigger] layout_address(
            t,
            vars,
            base,
            i,
        ) + spec_type_size(vars[i].dtype) <= #[trigger] layout_address(t, vars, base, j) by {
            lemma_sizes_sum_prefix(vars, i, i + 1);
            lemma_sizes_sum_prefix(vars, i + 1, j);
        }
        assert forall|k: Seq<char>| (forall|i: int| 0 <= i < vars.len() ==> vars[i].name != k) implies (
        #[trigger] r.symbols.contains_key(k) == t.symbols.contains_key(k) && (t.symbols.contains_key(k)
            ==> r.symbols[k] == t.symbols[k])) by {
            assert(vars[0].name != k);
            assert forall|j: int| 0 <= j < rest.len() implies rest[j].name != k by {
                assert(rest[j] == vars[j + 1]);
            }
        }
    }
}

/// The addresses that `layout_address` gives a list of declarations lie,
/// each with its memory, inside the part of the table that the list adds,
/// and do not overlap.
pub proof fn lemma_layout_bounds(t: SymbolTableView, vars: Seq<SymbolBuilderView>, base: i16)
    ensures
        forall|i: int|
            0 <= i < vars.len() ==> base + t.size <= #[trigger] layout_address(t, vars, base, i)
                && layout_address(t, vars, base, i) + spec_type_size(vars[i].dtype) <= base + t.size
                + sizes_sum(vars),
        forall|i: int, j: int|
            0 <= i < j < vars.len() ==> #[trigger] layout_address(t, vars, base, i) + spec_type_size(
                vars[i].dtype,
            ) <= #[trigger] layout_address(t, vars, base, j),
{
    assert forall|i: int|
        0 <= i < vars.len() implies base + t.size <= #[trigger] layout_address(t, vars, base, i)
        && layout_address(t, vars, base, i) + spec_type_size(vars[i].dtype) <= base + t.size + sizes_sum(
        vars,
    ) by {
        lemma_sizes_sum_prefix(vars, i, i + 1);
        lemma_sizes_sum_prefix(vars, i + 1, vars.len() as int);
        assert(vars.take(vars.len() as int) =~= vars);
    }
    assert forall|i: int, j: int| 0 <= i < j < vars.len() implies #[trigger] layout_address(
        t,
        vars,
        base,
        i,
    ) + spec_type_size(vars[i].dtype) <= #[trigger] layout_address(t, vars, base, j) by {
        lemma_sizes_sum_prefix(vars, i, i + 1);
        lemma_sizes_sum_prefix(vars, i + 1, j);
    }
}

/// The calls `insert_builder(b, base)` for each builder of a list, in turn.
pub open spec fn builder_calls(bs: Seq<SymbolBuilderView>, base: i16) -> Seq<TableCall> {
    bs.map_values(|b: SymbolBuilderView| TableCall::Builder(b, base))
}

/// Variables declared by any sequence of `insert_builder` calls with the
/// same base, each builder with its own type, are laid out one after the
/// other: where the names are new and distinct, none is a function and
/// every call fits, the `i`-th variable lives at `layout_address` (the base,
/// plus the memory the table took before, plus that of the variables
/// declared before it) with its built type; the table then takes its old
/// memory plus theirs; each variable's memory lies inside the new part of
/// the table and no two overlap. Names not declared are untouched. From an
/// empty table the addresses start at `base` itself.
pub proof fn law_layout_calls(t: SymbolTableView, bs: Seq<SymbolBuilderView>, base: i16)
    requires
        forall|i: int| 0 <= i < bs.len() ==> !(#[trigger] bs[i]).is_func(),
        forall|i: int, j: int| 0 <= i < j < bs.len() ==> bs[i].name != bs[j].name,
        forall|i: int| 0 <= i < bs.len() ==> !t.symbols.contains_key(#[trigger] bs[i].name),
        table_calls_fit(t, builder_calls(bs, base)),
        t.size + sizes_sum(bs) <= i16::MAX,
    ensures
        after_table_calls(t, builder_calls(bs, base)).size == t.size + sizes_sum(bs),
        forall|i: int|
            0 <= i < bs.len() ==> after_table_calls(t, builder_calls(bs, base)).symbols.contains_key(bs[i].name)
                && (#[trigger] after_table_calls(t, builder_calls(bs, base)).symbols[bs[i].name] matches SymbolView::Variable {
                name,
                binding,
                dtype,
                is_static,
            } && name == bs[i].name && binding == layout_address(t, bs, base, i) && Some(dtype)
                == spec_built_type(bs[i].dtype) && is_static == bs[i].is_static),
        forall|i: int|
            0 <= i < bs.len() ==> base + t.size <= #[trigger] layout_address(t, bs, base, i)
                && layout_address(t, bs, base, i) + spec_type_size(bs[i].dtype) <= base + t.size
                + sizes_sum(bs),
        forall|i: int, j: int|
            0 <= i < j < bs.len() ==> #[trigger] layout_address(t, bs, base, i) + spec_type_size(
                bs[i].dtype,
            ) <= #[trigger] layout_address(t, bs, base, j),
        forall|k: Seq<char>|
            (forall|i: int| 0 <= i < bs.len() ==> bs[i].name != k) ==> (
            #[trigger] after_table_calls(t, builder_calls(bs, base)).symbols.contains_key(k)
                == t.symbols.contains_key(k) && (t.symbols.contains_key(k) ==> after_table_calls(
                t,
                builder_calls(bs, base),
            ).symbols[k] == t.symbols[k])),
    decreases bs.len(),
{
    lemma_layout_bounds(t, bs, base);
    let cs = builder_calls(bs, base);
    if bs.len() > 0 {
        let b = bs[0];
        let rest = bs.drop_first();
        assert(cs[0] == TableCall::Builder(b, base));
        assert(cs.drop_first() =~= builder_calls(rest, base));
        let t1 = declare(t, b, base);
        assert(after_table_call(t, cs[0]) == t1);
        lemma_sizes_sum_first(bs);
        lemma_u16_as_i16(t.size);
        assert(!bs[0].is_func());
        assert(t1.size == t.size + spec_type_size(bs[0].dtype));
        assert forall|i: int| 0 <= i < rest.len() implies !t1.symbols.contains_key(#[trigger] rest[i].name) by {
            assert(rest[i] == bs[i + 1]);
        }
        assert forall|i: int, j: int| 0 <= i < j < rest.len() implies rest[i].name != rest[j].name by {
            assert(rest[i] == bs[i + 1]);
            assert(rest[j] == bs[j + 1]);
        }
        assert forall|i: int| 0 <= i < rest.len() implies !(#[trigger] rest[i]).is_func() by {
            assert(rest[i] == bs[i + 1]);
        }
        law_layout_calls(t1, rest, base);
        let r = after_table_calls(t, cs);
        assert(r == after_table_calls(t1, builder_calls(rest, base)));
        assert forall|i: int| 0 <= i <= bs.len() implies #[trigger] layout_address(t, bs, base, i)
            == if i == 0 {
            base + t.size
        } else {
            layout_address(t1, rest, base, i - 1)
        } by {
            if i > 0 {
                lemma_sizes_sum_first(bs.take(i));
                assert(bs.take(i).drop_first() =~= rest.take(i - 1));
                assert(bs.take(i)[0] == bs[0]);
            } else {
                assert(bs.take(0).len() == 0);
            }
        }
        assert forall|i: int|
            0 <= i < bs.len() implies r.symbols.contains_key(bs[i].name) && (
        #[trigger] r.symbols[bs[i].name] matches SymbolView::Variable { name, binding, dtype, is_static }
            && name == bs[i].name && binding == layout_address(t, bs, base, i) && Some(dtype)
            == spec_built_type(bs[i].dtype) && is_static == bs[i].is_static) by {
            if i == 0 {
                assert forall|j: int| 0 <= j < rest.len() implies rest[j].name != bs[0].name by {
                    assert(rest[j] == bs[j + 1]);
                }
                assert(t1.symbols.contains_key(bs[0].name));
                assert(r.symbols.contains_key(bs[0].name));
                assert(layout_address(t, bs, base, 0) == base + t.size);
            } else {
                assert(rest[i - 1] == bs[i]);
                assert(layout_address(t, bs, base, i) == layout_address(t1, rest, base, i - 1));
            }
        }
        assert forall|k: Seq<char>| (forall|i: int| 0 <= i < bs.len() ==> bs[i].name != k) implies (
        #[trigger] r.symbols.contains_key(k) == t.symbols.contains_key(k) && (t.symbols.contains_key(k)
            ==> r.symbols[k] == t.symbols[k])) by {
            assert(bs[0].name != k);
            assert forall|j: int| 0 <= j < rest.len() implies rest[j].name != k by {
                assert(rest[j] == bs[j + 1]);
            }
        }
    } else {
        assert(cs.len() == 0);
    }
}

/// A declaration list declares its functions as functions: where the names
/// are new and distinct and everything fits, every builder on which
/// `params` was called (and no address set) becomes a function symbol with
/// its own label, index and parameters and the declaration's type as its
/// return type; a list of functions only takes no memory; names not in the
/// list are untouched.
pub proof fn law_insert_functions(t: SymbolTableView, vars: Seq<SymbolBuilderView>, inner: Type, base: i16)
    requires
        forall|i: int, j: int| 0 <= i < j < vars.len() ==> vars[i].name != vars[j].name,
        forall|i: int| 0 <= i < vars.len() ==> !t.symbols.contains_key(#[trigger] vars[i].name),
        all_fit(t, vars, inner, base),
    ensures
        declare_all(t, vars, inner, base).1 is None,
        forall|i: int|
            0 <= i < vars.len() && (#[trigger] vars[i]).params is Some && vars[i].binding is None
                ==> declare_all(t, vars, inner, base).0.symbols.contains_key(vars[i].name) && (declare_all(
                t,
                vars,
                inner,
                base,
            ).0.symbols[vars[i].name] matches SymbolView::Function { name, label, idx, ret_type, params }
                && name == vars[i].name && label == vars[i].label.unwrap() && idx == vars[i].idx && Some(params)
                == vars[i].params && Some(ret_type) == spec_built_type(
                TypeBuilderView { inner: Some(inner), ..vars[i].dtype },
            )),
        (forall|i: int| 0 <= i < vars.len() ==> (#[trigger] vars[i]).params is Some) ==> declare_all(
            t,
            vars,
            inner,
            base,
        ).0.size == t.size,
        forall|k: Seq<char>|
            (forall|i: int| 0 <= i < vars.len() ==> vars[i].name != k) ==> (
            #[trigger] declare_all(t, vars, inner, base).0.symbols.contains_key(k) == t.symbols.contains_key(k)
                && (t.symbols.contains_key(k) ==> declare_all(t, vars, inner, base).0.symbols[k]
                == t.symbols[k])),
    decreases vars.len(),
{
    if vars.len() > 0 {
        let b = with_type(vars[0], inner);
        let rest = vars.drop_first();
        let t1 = declare(t, b, base);
        assert forall|i: int| 0 <= i < rest.len() implies !t1.symbols.contains_key(#[trigger] rest[i].name) by {
            assert(rest[i] == vars[i + 1]);
        }
        assert forall|i: int, j: int| 0 <= i < j < rest.len() implies rest[i].name != rest[j].name by {
            assert(rest[i] == vars[i + 1]);
            assert(rest[j] == vars[j + 1]);
        }
        law_insert_functions(t1, rest, inner, base);
        let r = declare_all(t, vars, inner, base).0;
        assert(r == declare_all(t1, rest, inner, base).0);
        assert forall|i: int|
            0 <= i < vars.len() && (#[trigger] vars[i]).params is Some && vars[i].binding is None
                implies r.symbols.contains_key(vars[i].name) && (r.symbols[vars[i].name] matches SymbolView::Function {
            name,
            label,
            idx,
            ret_type,
            params,
        } && name == vars[i].name && label == vars[i].label.unwrap() && idx == vars[i].idx && Some(params)
            == vars[i].params && Some(ret_type) == spec_built_type(
            TypeBuilderView { inner: Some(inner), ..vars[i].dtype },
        )) by {
            if i == 0 {
                assert forall|j: int| 0 <= j < rest.len() implies rest[j].name != vars[0].name by {
                    assert(rest[j] == vars[j + 1]);
                }
                assert(t1.symbols.contains_key(vars[0].name));
                assert(r.symbols.contains_key(vars[0].name));
            } else {
                assert(rest[i - 1] == vars[i]);
            }
        }
        if forall|i: int| 0 <= i < vars.len() ==> (#[trigger] vars[i]).params is Some {
            assert(vars[0].params is Some);
            assert forall|i: int| 0 <= i < rest.len() implies (#[trigger] rest[i]).params is Some by {
                assert(rest[i] == vars[i + 1]);
            }
        }
        assert forall|k: Seq<char>| (forall|i: int| 0 <= i < vars.len() ==> vars[i].name != k) implies (
        #[trigger] r.symbols.contains_key(k) == t.symbols.contains_key(k) && (t.symbols.contains_key(k)
            ==> r.symbols[k] == t.symbols[k])) by {
            assert(vars[0].name != k);
            assert forall|j: int| 0 <= j < rest.len() implies rest[j].name != k by {
                assert(rest[j] == vars[j + 1]);
            }
            assert(b.name == vars[0].name);
            assert(t1.symbols.contains_key(k) == t.symbols.contains_key(k));
            assert(t.symbols.contains_key(k) ==> t1.symbols[k] == t.symbols[k]);
            assert(r.symbols.contains_key(k) == t1.symbols.contains_key(k));
        }
    }
}

/// A declaration list whose names are new and distinct declares every one
/// of them, and no name that was declared before is lost.
pub proof fn lemma_declare_all_declares(t: SymbolTableView, vars: Seq<SymbolBuilderView>, inner: Type, base: i16)
    requires
        forall|i: int, j: int| 0 <= i < j < vars.len() ==> vars[i].name != vars[j].name,
        forall|i: int| 0 <= i < vars.len() ==> !t.symbols.contains_key(#[trigger] vars[i].name),
    ensures
        declare_all(t, vars, inner, base).1 is None,
        forall|i: int|
            0 <= i < vars.len() ==> declare_all(t, vars, inner, base).0.symbols.contains_key(
                #[trigger] vars[i].name,
            ),
        forall|k: Seq<char>|
            t.symbols.contains_key(k) ==> #[trigger] declare_all(t, vars, inner, base).0.symbols.contains_key(k),
    decreases vars.len(),
{
    if vars.len() > 0 {
        let b = with_type(vars[0], inner);
        let rest = vars.drop_first();
        let t1 = declare(t, b, base);
        assert forall|i: int| 0 <= i < rest.len() implies !t1.symbols.contains_key(#[trigger] rest[i].name) by {
            assert(rest[i] == vars[i + 1]);
        }
        assert forall|i: int, j: int| 0 <= i < j < rest.len() implies rest[i].name != rest[j].name by {
            assert(rest[i] == vars[i + 1]);
            assert(rest[j] == vars[j + 1]);
        }
        lemma_declare_all_declares(t1, rest, inner, base);
        let r = declare_all(t, vars, inner, base).0;
        assert(r == declare_all(t1, rest, inner, base).0);
        assert forall|i: int| 0 <= i < vars.len() implies r.symbols.contains_key(#[trigger] vars[i].name) by {
            if i == 0 {
                assert(t1.symbols.contains_key(vars[0].name));
            } else {
                assert(rest[i - 1] == vars[i]);
            }
        }
        assert forall|k: Seq<char>| t.symbols.contains_key(k) implies #[trigger] r.symbols.contains_key(k) by {
            assert(t1.symbols.contains_key(k));
        }
    }
}

/// Names declared by `insert_lst` are found by lookup, as the symbols the
/// local table now holds: a variable occurrence of any of them resolves.
pub proof fn law_lookup_after_insert_lst(p: ParserView, vars: Seq<SymbolBuilderView>, inner: Type, i: int)
    requires
        forall|a: int, b: int| 0 <= a < b < vars.len() ==> vars[a].name != vars[b].name,
        forall|a: int| 0 <= a < vars.len() ==> !p.lst.symbols.contains_key(#[trigger] vars[a].name),
        0 <= i < vars.len(),
    ensures
        spec_lookup(
            ParserView { lst: declare_all(p.lst, vars, inner, LOCAL_BASE).0, ..p },
            vars[i].name,
        ) == Some(declare_all(p.lst, vars, inner, LOCAL_BASE).0.symbols[vars[i].name]),
{
    lemma_declare_all_declares(p.lst, vars, inner, LOCAL_BASE);
}

} // verus!
