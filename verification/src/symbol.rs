//! Symbols, the tables that hold them, and the builder that assembles a
//! symbol while its declaration is parsed.
use vstd::prelude::*;
use vstd::hash_map::StringHashMap;
use crate::type_table::{Type, TypeBuilder, TypeBuilderView, spec_dim, spec_type_size, spec_built_type, type_build_error};
use crate::utils::label::LabelGenerator;
use lrpar::Span;

verus! {

broadcast use vstd::std_specs::vec::group_vec_axioms;

/// What a symbol says, with its strings taken by their characters.
pub ghost enum SymbolView {
    Variable { name: Seq<char>, binding: i16, dtype: Type, is_static: bool },
    Function {
        name: Seq<char>,
        label: u8,
        idx: Option<u8>,
        ret_type: Type,
        params: Seq<(Type, Seq<char>)>,
    },
}

/// A parameter list taken by the characters of its names.
pub open spec fn params_view(p: Seq<(Type, String)>) -> Seq<(Type, Seq<char>)> {
    p.map_values(|e: (Type, String)| (e.0, e.1@))
}

/// A declared name: a variable with its address, or a function with its
/// label and parameters.
#[derive(Debug, Clone, PartialEq, Eq)]
pub enum Symbol {
    Variable { name: String, binding: i16, dtype: Type, is_static: bool },
    Function { name: String, label: u8, idx: Option<u8>, ret_type: Type, params: Vec<(Type, String)> },
}

impl View for Symbol {
    type V = SymbolView;

    open spec fn view(&self) -> SymbolView {
        match self {
            Symbol::Variable { name, binding, dtype, is_static } => SymbolView::Variable {
                name: name@,
                binding: *binding,
                dtype: *dtype,
                is_static: *is_static,
            },
            Symbol::Function { name, label, idx, ret_type, params } => SymbolView::Function {
                name: name@,
                label: *label,
                idx: *idx,
                ret_type: *ret_type,
                params: params_view(params@),
            },
        }
    }
}

impl SymbolView {
    pub open spec fn name(self) -> Seq<char> {
        match self {
            SymbolView::Variable { name, .. } => name,
            SymbolView::Function { name, .. } => name,
        }
    }

    /// The type of a variable, the return type of a function.
    pub open spec fn dtype(self) -> Type {
        match self {
            SymbolView::Variable { dtype, .. } => dtype,
            SymbolView::Function { ret_type, .. } => ret_type,
        }
    }
}

/// A parameter list keeps its length and order when its names are taken by
/// their characters: position `i` holds the `i`-th type and name.
pub proof fn law_params_view(p: Seq<(Type, String)>)
    ensures
        params_view(p).len() == p.len(),
        forall|i: int| 0 <= i < p.len() ==> #[trigger] params_view(p)[i] == (p[i].0, p[i].1@),
{
}

/// Copies a parameter list.
pub fn copy_params(p: &Vec<(Type, String)>) -> (r: Vec<(Type, String)>)
    ensures
        params_view(r@) == params_view(p@),
{
    let mut r: Vec<(Type, String)> = Vec::new();
    let mut i: usize = 0;
    while i < p.len()
        invariant
            i <= p@.len(),
            r@.len() == i,
            forall|j: int| 0 <= j < i ==> #[trigger] r@[j].0 == p@[j].0 && r@[j].1@ == p@[j].1@,
        decreases p@.len() - i,
    {
        let t = p[i].0;
        let n = p[i].1.clone();
        r.push((t, n));
        i = i + 1;
    }
    assert(params_view(r@) =~= params_view(p@));
    r
}

impl Symbol {
    /// A copy of the symbol.
    pub fn copy(&self) -> (s: Symbol)
        ensures
            s@ == self@,
    {
        match self {
            Symbol::Variable { name, binding, dtype, is_static } => Symbol::Variable {
                name: name.clone(),
                binding: *binding,
                dtype: *dtype,
                is_static: *is_static,
            },
            Symbol::Function { name, label, idx, ret_type, params } => Symbol::Function {
                name: name.clone(),
                label: *label,
                idx: *idx,
                ret_type: *ret_type,
                params: copy_params(params),
            },
        }
    }

    /// The declared name.
    pub fn get_name(&self) -> (r: &str)
        ensures
            r@ == self@.name(),
    {
        match self {
            Self::Variable { name, .. } | Self::Function { name, .. } => name.as_str(),
        }
    }

    /// The type of a variable; the return type of a function.
    pub fn get_type(&self) -> (r: &Type)
        ensures
            *r == self@.dtype(),
    {
        match self {
            Self::Variable { dtype, .. } | Self::Function { ret_type: dtype, .. } => dtype,
        }
    }

    /// The number of array dimensions of a variable; functions have none.
    pub fn get_dim(&self) -> (r: Result<u8, &'static str>)
        ensures
            match self@ {
                SymbolView::Variable { dtype, .. } => r == Ok::<u8, &'static str>(spec_dim(dtype)),
                SymbolView::Function { .. } => r matches Err(e) && e@ == "No dimention for functions"@,
            },
    {
        match self {
            Self::Variable { dtype, .. } => Ok(dtype.get_dim()),
            _ => Err("No dimention for functions"),
        }
    }

    /// The address of a variable.
    pub fn get_binding(&self) -> (r: Result<&i16, &'static str>)
        ensures
            match self@ {
                SymbolView::Variable { binding, .. } => r matches Ok(b) && *b == binding,
                SymbolView::Function { .. } => r matches Err(e) && e@ == "This symbol is bound to an address"@,
            },
    {
        match self {
            Self::Variable { binding, .. } => Ok(binding),
            _ => Err("This symbol is bound to an address"),
        }
    }

    /// The code label of a function.
    pub fn get_label(&self) -> (r: Result<&u8, &'static str>)
        ensures
            match self@ {
                SymbolView::Function { label, .. } => r matches Ok(l) && *l == label,
                SymbolView::Variable { .. } => r matches Err(e) && e@ == "This symbol is has no label"@,
            },
    {
        match self {
            Self::Function { label, .. } => Ok(label),
            Self::Variable { .. } => Err("This symbol is has no label"),
        }
    }

    /// The index of a function, where it has one; for a variable, the low
    /// byte of its address.
    pub fn get_idx(&self) -> (r: Result<u8, &'static str>)
        ensures
            match self@ {
                SymbolView::Function { idx: Some(i), .. } => r == Ok::<u8, &'static str>(i),
                SymbolView::Function { idx: None, .. } => r matches Err(e) && e@ == "This function has no index"@,
                SymbolView::Variable { binding, .. } => r == Ok::<u8, &'static str>(binding as u8),
            },
    {
        match self {
            Self::Function { idx, .. } => match idx {
                Some(i) => Ok(*i),
                None => Err("This function has no index"),
            },
            Self::Variable { binding, .. } => Ok(*binding as u8),
        }
    }

    /// The parameters of a function.
    pub fn get_params(&self) -> (r: Result<&Vec<(Type, String)>, &'static str>)
        ensures
            match self@ {
                SymbolView::Function { params, .. } => r matches Ok(p) && params_view(p@) == params,
                SymbolView::Variable { .. } => r matches Err(e) && e@ == "The symbol was not of a function"@,
            },
    {
        match self {
            Self::Function { params, .. } => Ok(params),
            _ => Err("The symbol was not of a function"),
        }
    }

    /// Whether the symbol is a variable that is not static.
    pub fn is_local(&self) -> (r: bool)
        ensures
            r == (self@ matches SymbolView::Variable { is_static, .. } && !is_static),
    {
        match self {
            Self::Variable { is_static, .. } => !is_static,
            _ => false,
        }
    }
}


pub ghost struct SymbolBuilderView {
    pub span: Span,
    pub name: Seq<char>,
    pub binding: Option<i16>,
    pub is_static: bool,
    pub dtype: TypeBuilderView,
    pub label: Option<u8>,
    pub idx: Option<u8>,
    pub params: Option<Seq<(Type, Seq<char>)>>,
}

/// What a declaration has said of a name so far. The pieces of a
/// declaration are parsed by several grammar rules (`int foo, **bar`: the
/// stars, the name and the base type each come from a rule of their own),
/// so the symbol is built up step by step.
pub struct SymbolBuilder {
    name: Span,
    name_str: String,
    binding: Option<i16>,
    is_static: bool,
    dtype: TypeBuilder,
    label: Option<u8>,
    idx: Option<u8>,
    params: Option<Vec<(Type, String)>>,
}

impl View for SymbolBuilder {
    type V = SymbolBuilderView;

    closed spec fn view(&self) -> SymbolBuilderView {
        SymbolBuilderView {
            span: self.name,
            name: self.name_str@,
            binding: self.binding,
            is_static: self.is_static,
            dtype: self.dtype@,
            label: self.label,
            idx: self.idx,
            params: match self.params {
                Some(p) => Some(params_view(p@)),
                None => None,
            },
        }
    }
}

impl SymbolBuilderView {
    pub open spec fn is_func(self) -> bool {
        self.params is Some
    }
}

/// One of the builder's recording methods, with what it is given (for
/// `params`, the parameters and the generator's next label).
pub ghost enum BuilderCall {
    Dim(Seq<u8>),
    Ptr,
    Dtype(Type),
    Binding(i16),
    Params(Seq<(Type, Seq<char>)>, nat),
}

/// What a builder says once a recording method is called on it.
pub open spec fn after_call(b: SymbolBuilderView, c: BuilderCall) -> SymbolBuilderView {
    match c {
        BuilderCall::Dim(dims) => SymbolBuilderView { dtype: TypeBuilderView { dims, ..b.dtype }, ..b },
        BuilderCall::Ptr => SymbolBuilderView { dtype: TypeBuilderView { pointer: true, ..b.dtype }, ..b },
        BuilderCall::Dtype(t) => SymbolBuilderView { dtype: TypeBuilderView { inner: Some(t), ..b.dtype }, ..b },
        BuilderCall::Binding(x) => SymbolBuilderView { binding: Some(x), ..b },
        BuilderCall::Params(p, l) => SymbolBuilderView { params: Some(p), label: Some(l as u8), ..b },
    }
}

/// What a builder says once the recording methods are called in turn.
pub open spec fn after_calls(b: SymbolBuilderView, cs: Seq<BuilderCall>) -> SymbolBuilderView
    decreases cs.len(),
{
    if cs.len() == 0 {
        b
    } else {
        after_calls(after_call(b, cs[0]), cs.drop_first())
    }
}

/// A builder describes a function exactly when it already did or `params`
/// was called on it; a new builder is a function's exactly when `params`
/// was called.
pub proof fn law_is_func_after_calls(b: SymbolBuilderView, cs: Seq<BuilderCall>)
    ensures
        after_calls(b, cs).is_func() == (b.is_func() || exists|i: int|
            0 <= i < cs.len() && #[trigger] cs[i] is Params),
    decreases cs.len(),
{
    if cs.len() > 0 {
        let rest = cs.drop_first();
        law_is_func_after_calls(after_call(b, cs[0]), rest);
        if exists|i: int| 0 <= i < rest.len() && #[trigger] rest[i] is Params {
            let i = choose|i: int| 0 <= i < rest.len() && #[trigger] rest[i] is Params;
            assert(cs[i + 1] == rest[i]);
        }
        if exists|i: int| 0 <= i < cs.len() && #[trigger] cs[i] is Params {
            let i = choose|i: int| 0 <= i < cs.len() && #[trigger] cs[i] is Params;
            if i > 0 {
                assert(rest[i - 1] == cs[i]);
            }
        }
    }
}

/// `params` records the given parameters as they are, in their order, and
/// the label it is given; a builder with no address then builds a function
/// whose parameters are exactly those, element by element, whose label is
/// that label and whose return type is the built type.
pub proof fn law_params_recorded(b: SymbolBuilderView, p: Seq<(Type, Seq<char>)>, l: nat)
    ensures
        after_call(b, BuilderCall::Params(p, l)).params == Some(p),
        after_call(b, BuilderCall::Params(p, l)).label == Some(l as u8),
        b.binding is None && spec_built_type(b.dtype) is Some ==> (spec_symbol_of(
            after_call(b, BuilderCall::Params(p, l)),
        ) matches Some(SymbolView::Function { name, label, idx, ret_type, params }) && name == b.name && label
            == l as u8 && idx == b.idx && Some(ret_type) == spec_built_type(b.dtype) && params.len() == p.len()
            && forall|i: int| 0 <= i < p.len() ==> #[trigger] params[i] == p[i]),
{
}

/// The symbol that a builder makes, where it makes one.
pub open spec fn spec_symbol_of(b: SymbolBuilderView) -> Option<SymbolView> {
    match b.binding {
        Some(binding) => match spec_built_type(b.dtype) {
            Some(t) => Some(SymbolView::Variable { name: b.name, binding, dtype: t, is_static: b.is_static }),
            None => None,
        },
        None => match b.params {
            Some(params) => match spec_built_type(b.dtype) {
                Some(t) => Some(SymbolView::Function {
                    name: b.name,
                    label: b.label.unwrap(),
                    idx: b.idx,
                    ret_type: t,
                    params,
                }),
                None => None,
            },
            None => None,
        },
    }
}

impl SymbolBuilder {
    /// A function's builder always has its label.
    #[verifier::type_invariant]
    spec fn inv(self) -> bool {
        self.params is Some ==> self.label is Some
    }

    /// The builder of the name written `text` at `name`.
    pub fn new(name: Span, text: String, is_static: bool) -> (b: SymbolBuilder)
        ensures
            b@ == (SymbolBuilderView {
                span: name,
                name: text@,
                binding: None,
                is_static,
                dtype: TypeBuilderView { inner: None, dims: Seq::empty(), pointer: false },
                label: None,
                idx: None,
                params: None,
            }),
    {
        SymbolBuilder {
            name,
            name_str: text,
            binding: None,
            is_static,
            dtype: TypeBuilder::new(),
            idx: None,
            label: None,
            params: None,
        }
    }

    /// Where the name stands in the source.
    pub fn get_name(&self) -> (r: Span)
        ensures
            r == self@.span,
    {
        self.name
    }

    /// The number of memory words the declared type takes.
    pub fn get_size(&self) -> (r: u16)
        requires
            spec_type_size(self@.dtype) <= u16::MAX,
        ensures
            r == spec_type_size(self@.dtype),
    {
        self.dtype.get_size()
    }

    /// Whether the declaration is that of a function.
    pub fn is_func(&self) -> (r: bool)
        ensures
            r == self@.is_func(),
    {
        !matches!(self.params, None)
    }

    /// Records the sizes of the array dimensions.
    pub fn dim(&mut self, dim: Vec<u8>) -> (r: &mut Self)
        ensures
            r@ == after_call(old(self)@, BuilderCall::Dim(dim@)),
            *final(self) == *final(r),
    {
        proof {
            use_type_invariant(&*self);
        }
        self.dtype.dim(dim);
        self
    }

    /// Records that the declared name is a pointer.
    pub fn ptr(&mut self) -> (r: &mut SymbolBuilder)
        ensures
            r@ == after_call(old(self)@, BuilderCall::Ptr),
            *final(self) == *final(r),
    {
        proof {
            use_type_invariant(&*self);
        }
        self.dtype.set_pointer();
        self
    }

    /// Records that the declaration is that of a function with these
    /// parameters, and gives the function a fresh label (the low byte of the
    /// generator's next label).
    pub fn params(&mut self, params: Vec<(Type, String)>, flabel: &mut LabelGenerator) -> (r: &mut SymbolBuilder)
        requires
            old(flabel)@ < usize::MAX,
        ensures
            r@ == after_call(old(self)@, BuilderCall::Params(params_view(params@), old(flabel)@)),
            r@.params == Some(params_view(params@)),
            r@.label == Some(old(flabel)@ as u8),
            r@.binding == old(self)@.binding && r@.dtype == old(self)@.dtype && r@.name == old(self)@.name
                && r@.span == old(self)@.span && r@.idx == old(self)@.idx && r@.is_static == old(self)@.is_static,
            final(flabel)@ == old(flabel)@ + 1,
            *final(self) == *final(r),
    {
        let l = flabel.get();
        self.label = Some(l as u8);
        self.params = Some(params);
        self
    }

    /// Records the base type of the declaration.
    pub fn dtype(&mut self, inner_type: Type) -> (r: &mut SymbolBuilder)
        ensures
            r@ == after_call(old(self)@, BuilderCall::Dtype(inner_type)),
            *final(self) == *final(r),
    {
        proof {
            use_type_invariant(&*self);
        }
        self.dtype.dtype(inner_type);
        self
    }

    /// Records the address of a variable.
    pub fn binding(&mut self, binding: i16) -> (r: &mut SymbolBuilder)
        ensures
            r@ == after_call(old(self)@, BuilderCall::Binding(binding)),
            *final(self) == *final(r),
    {
        proof {
            use_type_invariant(&*self);
        }
        self.binding = Some(binding);
        self
    }

    /// The symbol: a variable where an address was given, else a function
    /// where parameters were given. Fails where neither was given, and where
    /// the type cannot be built (with the type's own error).
    pub fn build(self) -> (r: Result<Symbol, &'static str>)
        ensures
            r is Ok <==> spec_symbol_of(self@) is Some,
            r matches Ok(sym) ==> spec_symbol_of(self@) == Some(sym@),
            self@.binding is None && self@.params is None ==> (r matches Err(e)
                && e@ == "Couldn't create symbol from builder"@),
            (self@.binding is Some || self@.params is Some) ==> (r matches Err(e) ==> e@ == type_build_error(
                self@.dtype,
            )),
    {
        proof {
            use_type_invariant(&self);
        }
        if let Some(binding) = self.binding {
            let dtype = self.dtype.build()?;
            Ok(Symbol::Variable { name: self.name_str, binding, dtype, is_static: self.is_static })
        } else if let Some(params) = self.params {
            let label = self.label.unwrap();
            let ret_type = self.dtype.build()?;
            Ok(Symbol::Function { name: self.name_str, label, ret_type, idx: self.idx, params })
        } else {
            Err("Couldn't create symbol from builder")
        }
    }
}

pub ghost struct SymbolTableView {
    pub symbols: Map<Seq<char>, SymbolView>,
    pub size: u16,
}

impl SymbolTableView {
    /// Every symbol is filed under its own name.
    pub open spec fn well_named(self) -> bool {
        forall|k: Seq<char>| #[trigger] self.symbols.contains_key(k) ==> self.symbols[k].name() == k
    }
}

/// Whether `SymbolTable::insert_builder` can declare `b` in `t` without
/// running out of addresses or memory.
pub open spec fn builder_fits(t: SymbolTableView, b: SymbolBuilderView, base: i16) -> bool {
    &&& spec_built_type(b.dtype) is Some
    &&& !b.is_func() ==> t.size + spec_type_size(b.dtype) <= u16::MAX
    &&& !b.is_func() ==> i16::MIN <= base + (t.size as i16) <= i16::MAX
}

/// The table once `b`, whose name is new to it, is declared in it.
pub open spec fn declare(t: SymbolTableView, b: SymbolBuilderView, base: i16) -> SymbolTableView {
    SymbolTableView {
        symbols: t.symbols.insert(
            b.name,
            spec_symbol_of(
                if b.is_func() {
                    b
                } else {
                    SymbolBuilderView { binding: Some((base + (t.size as i16)) as i16), ..b }
                },
            ).unwrap(),
        ),
        size: if b.is_func() {
            t.size
        } else {
            (t.size + spec_type_size(b.dtype)) as u16
        },
    }
}

/// A call that changes a symbol table: `insert_builder` of a builder at a
/// base address, or `insert_symbol` of a symbol, checked or not.
pub ghost enum TableCall {
    Builder(SymbolBuilderView, i16),
    Declare(SymbolView, bool),
}

/// Whether the call can be made without running out of addresses or
/// memory (what `insert_builder` requires).
pub open spec fn table_call_fits(t: SymbolTableView, c: TableCall) -> bool {
    match c {
        TableCall::Builder(b, base) => !t.symbols.contains_key(b.name) ==> builder_fits(t, b, base),
        TableCall::Declare(..) => true,
    }
}

/// The table once the call is made, whether it succeeds or fails.
pub open spec fn after_table_call(t: SymbolTableView, c: TableCall) -> SymbolTableView {
    match c {
        TableCall::Builder(b, base) => if t.symbols.contains_key(b.name) {
            t
        } else {
            declare(t, b, base)
        },
        TableCall::Declare(s, check) => if check && t.symbols.contains_key(s.name()) {
            t
        } else {
            SymbolTableView { symbols: t.symbols.insert(s.name(), s), size: t.size }
        },
    }
}

/// Whether each call of a sequence fits the table that the calls before
/// it left.
pub open spec fn table_calls_fit(t: SymbolTableView, cs: Seq<TableCall>) -> bool
    decreases cs.len(),
{
    cs.len() == 0 || (table_call_fits(t, cs[0]) && table_calls_fit(after_table_call(t, cs[0]), cs.drop_first()))
}

/// The table once the calls are made in turn.
pub open spec fn after_table_calls(t: SymbolTableView, cs: Seq<TableCall>) -> SymbolTableView
    decreases cs.len(),
{
    if cs.len() == 0 {
        t
    } else {
        after_table_calls(after_table_call(t, cs[0]), cs.drop_first())
    }
}

/// The memory that a table takes never shrinks: whatever declarations are
/// made, or refused, it takes at least what it took before.
pub proof fn law_size_never_shrinks(t: SymbolTableView, cs: Seq<TableCall>)
    requires
        table_calls_fit(t, cs),
    ensures
        after_table_calls(t, cs).size >= t.size,
    decreases cs.len(),
{
    if cs.len() > 0 {
        law_size_never_shrinks(after_table_call(t, cs[0]), cs.drop_first());
    }
}

/// What is declared is found: once `s` is declared in `t`, as
/// `insert_symbol` does when it succeeds, its name leads to `s`, every
/// other name leads where it led before, and the table stays well named.
pub proof fn law_lookup_after_declare(t: SymbolTableView, s: SymbolView, name: Seq<char>)
    ensures
        t.symbols.insert(s.name(), s).contains_key(s.name()),
        t.symbols.insert(s.name(), s)[s.name()] == s,
        name != s.name() ==> (t.symbols.insert(s.name(), s).contains_key(name) == t.symbols.contains_key(name)),
        name != s.name() && t.symbols.contains_key(name) ==> t.symbols.insert(s.name(), s)[name]
            == t.symbols[name],
        t.well_named() ==> (SymbolTableView { symbols: t.symbols.insert(s.name(), s), size: t.size }).well_named(),
{
}

/// The names declared in one scope, with the number of memory words that
/// the scope's variables take.
pub struct SymbolTable {
    table: StringHashMap<Symbol>,
    size: u16,
}

impl View for SymbolTable {
    type V = SymbolTableView;

    closed spec fn view(&self) -> SymbolTableView {
        SymbolTableView { symbols: self.table@.map_values(|s: Symbol| s@), size: self.size }
    }
}

impl Default for SymbolTable {
    /// An empty table whose variables take no memory.
    fn default() -> (t: Self)
        ensures
            t@.symbols == Map::<Seq<char>, SymbolView>::empty(),
            t@.size == 0,
    {
        let t = SymbolTable { table: StringHashMap::new(), size: 0 };
        assert(t@.symbols =~= Map::<Seq<char>, SymbolView>::empty());
        t
    }
}

impl SymbolTable {
    /// The number of memory words that the table's variables take.
    pub fn get_size(&self) -> (r: &u16)
        ensures
            *r == self@.size,
    {
        &self.size
    }

    /// The symbol declared under `name`, if any.
    pub fn get(&self, name: &str) -> (r: Option<&Symbol>)
        ensures
            match r {
                Some(s) => self@.symbols.contains_key(name@) && s@ == self@.symbols[name@],
                None => !self@.symbols.contains_key(name@),
            },
    {
        self.table.get(name)
    }

    /// Whether `insert_builder` can declare `b` from `base` on without
    /// running out of addresses or memory: its type can be built, and unless
    /// it is a function, the memory it takes fits beside the table's and its
    /// address fits in an `i16`.
    pub fn fits(&self, b: &SymbolBuilder, base: i16) -> (r: bool)
        ensures
            r == builder_fits(self@, b@, base),
    {
        match b.dtype.build() {
            Ok(_) => {},
            Err(_) => return false,
        }
        if b.is_func() {
            return true;
        }
        if !b.dtype.size_within(65535u16 - self.size) {
            return false;
        }
        let at: i32 = (base as i32) + ((self.size as i16) as i32);
        -32768i32 <= at && at <= 32767i32
    }

    /// Declares the name of a builder. Fails where the name is declared
    /// already, and leaves the table as it was. Otherwise, unless the
    /// builder is that of a function, the variable gets the address `base`
    /// plus the memory already taken (as an `i16`), and the memory it takes
    /// is added to the table's.
    pub fn insert_builder(&mut self, mut s: SymbolBuilder, base: i16) -> (r: Result<(), &'static str>)
        requires
            !old(self)@.symbols.contains_key(s@.name) ==> builder_fits(old(self)@, s@, base),
        ensures
            old(self)@.symbols.contains_key(s@.name) ==> (r matches Err(e) && e@
                == "Variable declared multiple times"@ && final(self)@ == old(self)@),
            !old(self)@.symbols.contains_key(s@.name) ==> r is Ok,
            r is Ok ==> final(self)@ == declare(old(self)@, s@, base),
            final(self)@ == after_table_call(old(self)@, TableCall::Builder(s@, base)),
            old(self)@.well_named() ==> final(self)@.well_named(),
    {
        if self.table.contains_key(s.name_str.as_str()) {
            return Err("Variable declared multiple times");
        }
        if !s.is_func() {
            s.binding(base + self.size as i16);
            let sz = s.get_size();
            self.size = self.size + sz;
        }
        let name = s.name_str.clone();
        let ghost b = s@;
        match s.build() {
            Ok(sym) => {
                self.table.insert(name, sym);
                proof {
                    assert(self@.symbols =~= old(self)@.symbols.insert(b.name, sym@));
                }
                Ok(())
            },
            Err(_) => {
                proof {
                    assert(false);
                }
                Err("Couldn't create symbol from builder")
            },
        }
    }

    /// Declares a symbol, replacing any symbol of the same name. With
    /// `check`, fails instead where the name is declared already, and leaves
    /// the table as it was. The memory that the table takes is unchanged.
    pub fn insert_symbol(&mut self, s: Symbol, check: bool) -> (r: Result<(), &'static str>)
        ensures
            check && old(self)@.symbols.contains_key(s@.name()) ==> (r matches Err(e) && e@
                == "Multiple variables with same name defined"@ && final(self)@ == old(self)@),
            !(check && old(self)@.symbols.contains_key(s@.name())) ==> (r is Ok && final(self)@ == (
            SymbolTableView { symbols: old(self)@.symbols.insert(s@.name(), s@), size: old(self)@.size })),
            final(self)@ == after_table_call(old(self)@, TableCall::Declare(s@, check)),
            old(self)@.well_named() ==> final(self)@.well_named(),
    {
        if check && self.table.contains_key(s.get_name()) {
            return Err("Multiple variables with same name defined");
        }
        let name = s.get_name().to_owned();
        let ghost v = s@;
        self.table.insert(name, s);
        proof {
            assert(self@.symbols =~= old(self)@.symbols.insert(v.name(), v));
        }
        Ok(())
    }
}

} // verus!
