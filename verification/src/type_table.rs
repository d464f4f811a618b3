//! The types of the source language and the builder that assembles a
//! declared type piece by piece while the declaration is parsed.
use vstd::prelude::*;

verus! {

/// The scalar types that pointers and arrays are made of.
#[derive(Clone, Copy, Debug, PartialEq, Eq, Structural)]
pub enum Primitive {
    Int,
    Bool,
    Str,
}

/// The type of an expression or of a declared name.
#[derive(Clone, Copy, Debug, PartialEq, Eq, Structural)]
pub enum Type {
    Int,
    Bool,
    Str,
    Void,
    /// A pointer to a scalar.
    Pointer(Primitive),
    /// An array of scalars with the given number of dimensions.
    Array(Primitive, u8),
}

/// The type that a scalar stands for.
pub open spec fn primitive_type(p: Primitive) -> Type {
    match p {
        Primitive::Int => Type::Int,
        Primitive::Bool => Type::Bool,
        Primitive::Str => Type::Str,
    }
}

/// The scalar that a type is, if it is one.
pub open spec fn as_primitive(t: Type) -> Option<Primitive> {
    match t {
        Type::Int => Some(Primitive::Int),
        Type::Bool => Some(Primitive::Bool),
        Type::Str => Some(Primitive::Str),
        _ => None,
    }
}

/// The number of array dimensions of a type.
pub open spec fn spec_dim(t: Type) -> u8 {
    match t {
        Type::Array(_, d) => d,
        _ => 0,
    }
}

/// The type of a name once every dimension of it has been indexed: an array
/// gives its element type, any other type stays as it is.
pub open spec fn indexed_type(t: Type) -> Type {
    match t {
        Type::Array(p, _) => primitive_type(p),
        _ => t,
    }
}

impl Type {
    /// The number of array dimensions; 0 for anything but an array.
    pub fn get_dim(&self) -> (d: u8)
        ensures
            d == spec_dim(*self),
    {
        match self {
            Type::Array(_, d) => *d,
            _ => 0,
        }
    }

    /// The type of a name of this type once all its dimensions are indexed.
    pub fn indexed(&self) -> (t: Type)
        ensures
            t == indexed_type(*self),
    {
        match self {
            Type::Array(p, _) => match p {
                Primitive::Int => Type::Int,
                Primitive::Bool => Type::Bool,
                Primitive::Str => Type::Str,
            },
            _ => *self,
        }
    }
}

/// How an occurrence of a variable is used: for its value, for its address,
/// or through the pointer it holds.
#[derive(Clone, Copy, Debug, PartialEq, Eq, Structural)]
pub enum RefType {
    Value,
    Address,
    Deref,
}

/// The product of the dimension sizes: the number of memory words that an
/// array with these dimensions takes (1 for a scalar).
pub open spec fn dims_size(dims: Seq<u8>) -> nat
    decreases dims.len(),
{
    if dims.len() == 0 {
        1
    } else {
        dims_size(dims.drop_last()) * (dims.last() as nat)
    }
}

pub ghost struct TypeBuilderView {
    pub inner: Option<Type>,
    pub dims: Seq<u8>,
    pub pointer: bool,
}

/// What a declaration has said of a type so far: the base type, the array
/// dimensions and whether it is a pointer.
#[derive(Debug)]
pub struct TypeBuilder {
    inner: Option<Type>,
    dims: Vec<u8>,
    pointer: bool,
}

/// The number of memory words that a name declared with this type takes.
pub open spec fn spec_type_size(b: TypeBuilderView) -> nat {
    if b.pointer {
        1
    } else {
        dims_size(b.dims)
    }
}

/// What `TypeBuilder::build` gives: `None` stands for each of its errors.
pub open spec fn spec_built_type(b: TypeBuilderView) -> Option<Type> {
    match b.inner {
        None => None,
        Some(t) => if !b.pointer && b.dims.len() == 0 {
            Some(t)
        } else {
            match as_primitive(t) {
                None => None,
                Some(p) => if b.pointer {
                    if b.dims.len() == 0 {
                        Some(Type::Pointer(p))
                    } else {
                        None
                    }
                } else if b.dims.len() <= 255 {
                    Some(Type::Array(p, b.dims.len() as u8))
                } else {
                    None
                },
            }
        },
    }
}

/// The message with which `TypeBuilder::build` fails, where it fails.
pub open spec fn type_build_error(b: TypeBuilderView) -> Seq<char> {
    match b.inner {
        None => "Type of the symbol is not known"@,
        Some(t) => if as_primitive(t) is None {
            "Pointers and arrays must be of int, bool or str"@
        } else if b.pointer {
            "Arrays of pointers are not supported"@
        } else {
            "Too many array dimensions"@
        },
    }
}

impl View for TypeBuilder {
    type V = TypeBuilderView;

    closed spec fn view(&self) -> TypeBuilderView {
        TypeBuilderView { inner: self.inner, dims: self.dims@, pointer: self.pointer }
    }
}

impl TypeBuilder {
    /// A builder that knows nothing of the type yet.
    pub fn new() -> (b: TypeBuilder)
        ensures
            b@ == (TypeBuilderView { inner: None, dims: Seq::empty(), pointer: false }),
    {
        TypeBuilder { inner: None, dims: Vec::new(), pointer: false }
    }

    /// Records the sizes of the array dimensions.
    pub fn dim(&mut self, dim: Vec<u8>)
        ensures
            final(self)@ == (TypeBuilderView { dims: dim@, ..old(self)@ }),
    no_unwind
    {
        self.dims = dim;
    }

    /// Records that the type is a pointer.
    pub fn set_pointer(&mut self)
        ensures
            final(self)@ == (TypeBuilderView { pointer: true, ..old(self)@ }),
    no_unwind
    {
        self.pointer = true;
    }

    /// Records the base type.
    pub fn dtype(&mut self, inner: Type)
        ensures
            final(self)@ == (TypeBuilderView { inner: Some(inner), ..old(self)@ }),
    no_unwind
    {
        self.inner = Some(inner);
    }

    /// Whether a name of this type takes at most `limit` memory words.
    pub fn size_within(&self, limit: u16) -> (r: bool)
        ensures
            r == (spec_type_size(self@) <= limit),
    {
        if self.pointer {
            return 1 <= limit;
        }
        let mut k: usize = 0;
        while k < self.dims.len()
            invariant
                k <= self.dims@.len(),
                !self.pointer,
                forall|j: int| 0 <= j < k ==> self.dims@[j] != 0,
            decreases self.dims@.len() - k,
        {
            if self.dims[k] == 0 {
                proof {
                    lemma_dims_size_zero(self.dims@, k as int);
                }
                return true;
            }
            k = k + 1;
        }
        proof {
            lemma_dims_size_positive(self.dims@);
        }
        if limit == 0 {
            return false;
        }
        let mut size: u32 = 1;
        let mut i: usize = 0;
        while i < self.dims.len()
            invariant
                i <= self.dims@.len(),
                !self.pointer,
                dims_size(self.dims@) > 0,
                size == dims_size(self.dims@.take(i as int)),
                size <= limit,
            decreases self.dims@.len() - i,
        {
            proof {
                assert(self.dims@.take(i + 1).drop_last() =~= self.dims@.take(i as int));
                lemma_dims_size_prefix(self.dims@, i + 1);
            }
            let d = self.dims[i] as u32;
            assert(size * d <= 65535 * 255) by (nonlinear_arith)
                requires
                    size <= 65535,
                    d <= 255,
            ;
            size = size * d;
            if size > limit as u32 {
                return false;
            }
            i = i + 1;
        }
        assert(self.dims@.take(i as int) =~= self.dims@);
        true
    }

    /// The number of memory words taken by a name of this type.
    pub fn get_size(&self) -> (s: u16)
        requires
            spec_type_size(self@) <= u16::MAX,
        ensures
            s == spec_type_size(self@),
    {
        if self.pointer {
            return 1;
        }
        let mut k: usize = 0;
        while k < self.dims.len()
            invariant
                k <= self.dims@.len(),
                !self.pointer,
                forall|j: int| 0 <= j < k ==> self.dims@[j] != 0,
            decreases self.dims@.len() - k,
        {
            if self.dims[k] == 0 {
                proof {
                    lemma_dims_size_zero(self.dims@, k as int);
                }
                return 0;
            }
            k = k + 1;
        }
        proof {
            lemma_dims_size_positive(self.dims@);
        }
        let mut size: u16 = 1;
        let mut i: usize = 0;
        while i < self.dims.len()
            invariant
                i <= self.dims@.len(),
                !self.pointer,
                dims_size(self.dims@) <= u16::MAX,
                dims_size(self.dims@) > 0,
                size == dims_size(self.dims@.take(i as int)),
            decreases self.dims@.len() - i,
        {
            proof {
                assert(self.dims@.take(i + 1).drop_last() =~= self.dims@.take(i as int));
                lemma_dims_size_prefix(self.dims@, i + 1);
            }
            size = size * (self.dims[i] as u16);
            i = i + 1;
        }
        assert(self.dims@.take(i as int) =~= self.dims@);
        size
    }

    /// The declared type. Fails where no base type was given, where a
    /// pointer or an array is made of something else than a scalar, where a
    /// pointer has dimensions, and where there are more than 255 dimensions.
    pub fn build(&self) -> (r: Result<Type, &'static str>)
        ensures
            r is Ok <==> spec_built_type(self@) is Some,
            r matches Ok(t) ==> spec_built_type(self@) == Some(t),
            r matches Err(e) ==> e@ == type_build_error(self@),
    {
        let t = match self.inner {
            None => return Err("Type of the symbol is not known"),
            Some(t) => t,
        };
        if !self.pointer && self.dims.len() == 0 {
            return Ok(t);
        }
        let p = match t {
            Type::Int => Primitive::Int,
            Type::Bool => Primitive::Bool,
            Type::Str => Primitive::Str,
            _ => return Err("Pointers and arrays must be of int, bool or str"),
        };
        if self.pointer {
            if self.dims.len() == 0 {
                Ok(Type::Pointer(p))
            } else {
                Err("Arrays of pointers are not supported")
            }
        } else if self.dims.len() <= 255 {
            Ok(Type::Array(p, self.dims.len() as u8))
        } else {
            Err("Too many array dimensions")
        }
    }
}

/// An array with a dimension of size 0 takes no memory.
pub proof fn lemma_dims_size_zero(dims: Seq<u8>, k: int)
    requires
        0 <= k < dims.len(),
        dims[k] == 0,
    ensures
        dims_size(dims) == 0,
    decreases dims.len(),
{
    if k < dims.len() - 1 {
        lemma_dims_size_zero(dims.drop_last(), k);
        assert(dims_size(dims) == dims_size(dims.drop_last()) * (dims.last() as nat));
    }
}

/// An array whose dimensions are all non-zero takes some memory.
pub proof fn lemma_dims_size_positive(dims: Seq<u8>)
    requires
        forall|j: int| 0 <= j < dims.len() ==> dims[j] != 0,
    ensures
        dims_size(dims) > 0,
    decreases dims.len(),
{
    if dims.len() > 0 {
        let t = dims.drop_last();
        lemma_dims_size_positive(t);
        let a = dims_size(t);
        let last = dims.last() as nat;
        assert(a * last > 0) by (nonlinear_arith)
            requires
                a > 0,
                last > 0,
        ;
    }
}

/// The size of a prefix of the dimensions divides into the size of the
/// whole, so it is never larger unless a dimension is 0.
pub proof fn lemma_dims_size_prefix(dims: Seq<u8>, k: int)
    requires
        0 <= k <= dims.len(),
        dims_size(dims) > 0,
    ensures
        dims_size(dims.take(k)) <= dims_size(dims),
    decreases dims.len(),
{
    if k < dims.len() {
        let t = dims.drop_last();
        assert(t.take(k) =~= dims.take(k));
        let last = dims.last() as nat;
        let a = dims_size(t);
        assert(dims_size(dims) == a * last);
        assert(a > 0 && last > 0) by (nonlinear_arith)
            requires
                a * last > 0,
        ;
        assert(a <= a * last) by (nonlinear_arith)
            requires
                last > 0,
        ;
        lemma_dims_size_prefix(t, k);
    } else {
        assert(dims.take(k) =~= dims);
    }
}

} // verus!
