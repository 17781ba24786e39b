//! The type language of the checker: the executable `Type`, its mathematical
//! model `Ty`, and the elementary classifications of types.
use vstd::prelude::*;

verus! {

broadcast use vstd::std_specs::vec::group_vec_axioms;

/// Mutability of a reference type (`&T` / `&mut T`).
#[derive(Clone, Copy, PartialEq, Eq, Structural, Debug)]
pub enum Mutability {
    Immutable,
    Mutable,
}

/// A function signature: parameter types and return type.
#[derive(Debug)]
pub struct FnSig {
    pub params: Vec<Type>,
    pub return_type: Type,
}

/// A checked type.
#[derive(Debug)]
pub enum Type {
    /// Not yet determined (`_`); compatible with every type.
    Infer,
    Unit,
    Never,
    Bool,
    Char,
    I8,
    I16,
    I32,
    I64,
    ISize,
    U8,
    U16,
    U32,
    U64,
    USize,
    F32,
    F64,
    /// A string slice value (`str`).
    Str,
    /// `[T; N]`; length 0 denotes a dynamically sized buffer.
    Array(Box<Type>, usize),
    /// `[T]`.
    Slice(Box<Type>),
    /// A named (struct / enum / library) type with type arguments.
    Named(String, Vec<Type>),
    Ref(Box<Type>, Mutability),
    /// `*const T` (false) / `*mut T` (true).
    RawPtr(Box<Type>, bool),
    Fn(Box<FnSig>),
    Closure { fn_name: String, captures: Vec<Type>, params: Vec<Type>, ret: Box<Type>, is_move: bool },
    Tuple(Vec<Type>),
    /// A type parameter (`T`, or `Self::Item` inside trait declarations).
    Generic(String),
    /// An enum whose values are plain tags.
    ScalarEnum(String),
    /// `dyn Trait`.
    Dyn(String),
    /// `A | B | ...`.
    Union(Vec<Type>),
    /// `Base::assoc` (an associated-type projection).
    AssocProjection { base: Box<Type>, assoc: String },
}

/// The mathematical model of a `Type`.
pub enum Ty {
    Infer,
    Unit,
    Never,
    Bool,
    Char,
    I8,
    I16,
    I32,
    I64,
    ISize,
    U8,
    U16,
    U32,
    U64,
    USize,
    F32,
    F64,
    Str,
    Array(Box<Ty>, nat),
    Slice(Box<Ty>),
    Named(Seq<char>, Seq<Ty>),
    Ref(Box<Ty>, Mutability),
    RawPtr(Box<Ty>, bool),
    Fn(Seq<Ty>, Box<Ty>),
    Closure { fn_name: Seq<char>, captures: Seq<Ty>, params: Seq<Ty>, ret: Box<Ty>, is_move: bool },
    Tuple(Seq<Ty>),
    Generic(Seq<char>),
    ScalarEnum(Seq<char>),
    Dyn(Seq<char>),
    Union(Seq<Ty>),
    AssocProjection { base: Box<Ty>, assoc: Seq<char> },
}

pub open spec fn view_type(t: Type) -> Ty
    decreases t,
{
    match t {
        Type::Infer => Ty::Infer,
        Type::Unit => Ty::Unit,
        Type::Never => Ty::Never,
        Type::Bool => Ty::Bool,
        Type::Char => Ty::Char,
        Type::I8 => Ty::I8,
        Type::I16 => Ty::I16,
        Type::I32 => Ty::I32,
        Type::I64 => Ty::I64,
        Type::ISize => Ty::ISize,
        Type::U8 => Ty::U8,
        Type::U16 => Ty::U16,
        Type::U32 => Ty::U32,
        Type::U64 => Ty::U64,
        Type::USize => Ty::USize,
        Type::F32 => Ty::F32,
        Type::F64 => Ty::F64,
        Type::Str => Ty::Str,
        Type::Array(e, n) => Ty::Array(Box::new(view_type(*e)), n as nat),
        Type::Slice(e) => Ty::Slice(Box::new(view_type(*e))),
        Type::Named(n, args) => Ty::Named(n@, view_types(args@)),
        Type::Ref(e, m) => Ty::Ref(Box::new(view_type(*e)), m),
        Type::RawPtr(e, m) => Ty::RawPtr(Box::new(view_type(*e)), m),
        Type::Fn(sig) => Ty::Fn(view_types(sig.params@), Box::new(view_type(sig.return_type))),
        Type::Closure { fn_name, captures, params, ret, is_move } => Ty::Closure {
            fn_name: fn_name@,
            captures: view_types(captures@),
            params: view_types(params@),
            ret: Box::new(view_type(*ret)),
            is_move,
        },
        Type::Tuple(ts) => Ty::Tuple(view_types(ts@)),
        Type::Generic(n) => Ty::Generic(n@),
        Type::ScalarEnum(n) => Ty::ScalarEnum(n@),
        Type::Dyn(n) => Ty::Dyn(n@),
        Type::Union(ts) => Ty::Union(view_types(ts@)),
        Type::AssocProjection { base, assoc } => Ty::AssocProjection {
            base: Box::new(view_type(*base)),
            assoc: assoc@,
        },
    }
}

pub open spec fn view_types(s: Seq<Type>) -> Seq<Ty>
    decreases s,
{
    if s.len() == 0 {
        Seq::empty()
    } else {
        view_types(s.subrange(0, s.len() - 1)).push(view_type(s[s.len() - 1]))
    }
}

impl View for Type {
    type V = Ty;

    open spec fn view(&self) -> Ty {
        view_type(*self)
    }
}

impl View for FnSig {
    type V = (Seq<Ty>, Ty);

    open spec fn view(&self) -> (Seq<Ty>, Ty) {
        (view_types(self.params@), self.return_type@)
    }
}

/// The model of a vector of types, element by element.
pub proof fn lemma_view_types(s: Seq<Type>)
    ensures
        view_types(s).len() == s.len(),
        forall|i: int| 0 <= i < s.len() ==> #[trigger] view_types(s)[i] == s[i]@,
    decreases s.len(),
{
    if s.len() > 0 {
        lemma_view_types(s.subrange(0, s.len() - 1));
    }
}

/// The model of every vector of types is read off element by element.
pub broadcast proof fn lemma_view_types_len(s: Seq<Type>)
    ensures
        #[trigger] view_types(s).len() == s.len(),
{
    lemma_view_types(s);
}

/// Indexing the model of a vector of types.
pub broadcast proof fn lemma_view_types_index(s: Seq<Type>, i: int)
    requires
        0 <= i < s.len(),
    ensures
        #[trigger] view_types(s)[i] == s[i]@,
{
    lemma_view_types(s);
}

pub broadcast group group_view_types {
    lemma_view_types_len,
    lemma_view_types_index,
}

// ---------------------------------------------------------------------------
// Elementary classifications
// ---------------------------------------------------------------------------

pub open spec fn spec_is_integer(t: Ty) -> bool {
    match t {
        Ty::I8 | Ty::I16 | Ty::I32 | Ty::I64 | Ty::ISize | Ty::U8 | Ty::U16 | Ty::U32 | Ty::U64
        | Ty::USize => true,
        _ => false,
    }
}

pub open spec fn spec_is_float(t: Ty) -> bool {
    match t {
        Ty::F32 | Ty::F64 => true,
        _ => false,
    }
}

pub open spec fn spec_is_numeric(t: Ty) -> bool {
    spec_is_integer(t) || spec_is_float(t)
}

pub open spec fn spec_is_bool(t: Ty) -> bool {
    t is Bool
}

impl Type {
    /// Whether the type is one of the integer types.
    pub fn is_integer(&self) -> (r: bool)
        ensures
            r == spec_is_integer(self@),
    {
        match self {
            Type::I8 | Type::I16 | Type::I32 | Type::I64 | Type::ISize | Type::U8 | Type::U16
            | Type::U32 | Type::U64 | Type::USize => true,
            _ => false,
        }
    }

    /// Whether the type is one of the two floating-point types.
    pub fn is_float(&self) -> (r: bool)
        ensures
            r == spec_is_float(self@),
    {
        match self {
            Type::F32 | Type::F64 => true,
            _ => false,
        }
    }

    /// Whether the type is an integer or floating-point type.
    pub fn is_numeric(&self) -> (r: bool)
        ensures
            r == spec_is_numeric(self@),
    {
        self.is_integer() || self.is_float()
    }

    /// Whether the type is `bool`.
    pub fn is_bool(&self) -> (r: bool)
        ensures
            r == spec_is_bool(self@),
    {
        match self {
            Type::Bool => true,
            _ => false,
        }
    }
}


// ---------------------------------------------------------------------------
// Structural equality and copying
// ---------------------------------------------------------------------------

/// Structural equality of two types.
pub fn type_eq(a: &Type, b: &Type) -> (r: bool)
    ensures
        r == (a@ == b@),
    decreases a,
{
    broadcast use group_view_types;
    match (a, b) {
        (Type::Infer, Type::Infer) => true,
        (Type::Unit, Type::Unit) => true,
        (Type::Never, Type::Never) => true,
        (Type::Bool, Type::Bool) => true,
        (Type::Char, Type::Char) => true,
        (Type::I8, Type::I8) => true,
        (Type::I16, Type::I16) => true,
        (Type::I32, Type::I32) => true,
        (Type::I64, Type::I64) => true,
        (Type::ISize, Type::ISize) => true,
        (Type::U8, Type::U8) => true,
        (Type::U16, Type::U16) => true,
        (Type::U32, Type::U32) => true,
        (Type::U64, Type::U64) => true,
        (Type::USize, Type::USize) => true,
        (Type::F32, Type::F32) => true,
        (Type::F64, Type::F64) => true,
        (Type::Str, Type::Str) => true,
        (Type::Array(x, n), Type::Array(y, m)) => *n == *m && type_eq(x, y),
        (Type::Slice(x), Type::Slice(y)) => type_eq(x, y),
        (Type::Named(n, xs), Type::Named(m, ys)) => *n == *m && types_eq(xs, ys),
        (Type::Ref(x, p), Type::Ref(y, q)) => *p == *q && type_eq(x, y),
        (Type::RawPtr(x, p), Type::RawPtr(y, q)) => *p == *q && type_eq(x, y),
        (Type::Fn(f), Type::Fn(g)) => {
            let r = types_eq(&f.params, &g.params) && type_eq(&f.return_type, &g.return_type);
            assert(r == (a@ == b@)) by {
                if view_types(f.params@) == view_types(g.params@) && f.return_type@ == g.return_type@ {
                    assert(a@ == b@);
                }
            }
            r
        },
        (
            Type::Closure { fn_name: n1, captures: c1, params: p1, ret: r1, is_move: m1 },
            Type::Closure { fn_name: n2, captures: c2, params: p2, ret: r2, is_move: m2 },
        ) => *n1 == *n2 && *m1 == *m2 && types_eq(c1, c2) && types_eq(p1, p2) && type_eq(r1, r2),
        (Type::Tuple(xs), Type::Tuple(ys)) => types_eq(xs, ys),
        (Type::Generic(n), Type::Generic(m)) => *n == *m,
        (Type::ScalarEnum(n), Type::ScalarEnum(m)) => *n == *m,
        (Type::Dyn(n), Type::Dyn(m)) => *n == *m,
        (Type::Union(xs), Type::Union(ys)) => types_eq(xs, ys),
        (
            Type::AssocProjection { base: x, assoc: n },
            Type::AssocProjection { base: y, assoc: m },
        ) => *n == *m && type_eq(x, y),
        _ => false,
    }
}

/// Element-wise structural equality of two vectors of types.
pub fn types_eq(a: &Vec<Type>, b: &Vec<Type>) -> (r: bool)
    ensures
        r == (view_types(a@) == view_types(b@)),
    decreases a,
{
    broadcast use group_view_types;
    if a.len() != b.len() {
        assert(view_types(a@).len() != view_types(b@).len());
        return false;
    }
    let mut i: usize = 0;
    while i < a.len()
        invariant
            i <= a.len(),
            a.len() == b.len(),
            forall|j: int| 0 <= j < i ==> #[trigger] a@[j]@ == b@[j]@,
        decreases a.len() - i,
    {
        if !type_eq(&a[i], &b[i]) {
            proof {
                lemma_view_types(a@);
                lemma_view_types(b@);
            }
            assert(view_types(a@)[i as int] != view_types(b@)[i as int]);
            return false;
        }
        i += 1;
    }
    assert(view_types(a@) =~= view_types(b@));
    true
}

/// A copy of a type with the same model.
pub fn clone_type(t: &Type) -> (r: Type)
    ensures
        r@ == t@,
    decreases t,
{
    broadcast use group_view_types;
    match t {
        Type::Infer => Type::Infer,
        Type::Unit => Type::Unit,
        Type::Never => Type::Never,
        Type::Bool => Type::Bool,
        Type::Char => Type::Char,
        Type::I8 => Type::I8,
        Type::I16 => Type::I16,
        Type::I32 => Type::I32,
        Type::I64 => Type::I64,
        Type::ISize => Type::ISize,
        Type::U8 => Type::U8,
        Type::U16 => Type::U16,
        Type::U32 => Type::U32,
        Type::U64 => Type::U64,
        Type::USize => Type::USize,
        Type::F32 => Type::F32,
        Type::F64 => Type::F64,
        Type::Str => Type::Str,
        Type::Array(e, n) => Type::Array(Box::new(clone_type(e)), *n),
        Type::Slice(e) => Type::Slice(Box::new(clone_type(e))),
        Type::Named(n, args) => Type::Named(n.clone(), clone_types(args)),
        Type::Ref(e, m) => Type::Ref(Box::new(clone_type(e)), *m),
        Type::RawPtr(e, m) => Type::RawPtr(Box::new(clone_type(e)), *m),
        Type::Fn(sig) => Type::Fn(
            Box::new(FnSig { params: clone_types(&sig.params), return_type: clone_type(&sig.return_type) }),
        ),
        Type::Closure { fn_name, captures, params, ret, is_move } => Type::Closure {
            fn_name: fn_name.clone(),
            captures: clone_types(captures),
            params: clone_types(params),
            ret: Box::new(clone_type(ret)),
            is_move: *is_move,
        },
        Type::Tuple(ts) => Type::Tuple(clone_types(ts)),
        Type::Generic(n) => Type::Generic(n.clone()),
        Type::ScalarEnum(n) => Type::ScalarEnum(n.clone()),
        Type::Dyn(n) => Type::Dyn(n.clone()),
        Type::Union(ts) => Type::Union(clone_types(ts)),
        Type::AssocProjection { base, assoc } => Type::AssocProjection {
            base: Box::new(clone_type(base)),
            assoc: assoc.clone(),
        },
    }
}

/// A copy of a vector of types with the same model.
pub fn clone_types(ts: &Vec<Type>) -> (r: Vec<Type>)
    ensures
        view_types(r@) == view_types(ts@),
        r@.len() == ts@.len(),
    decreases ts,
{
    broadcast use group_view_types;
    let mut out: Vec<Type> = Vec::new();
    let mut i: usize = 0;
    while i < ts.len()
        invariant
            i <= ts.len(),
            out@.len() == i,
            forall|j: int| 0 <= j < i ==> #[trigger] out@[j]@ == ts@[j]@,
        decreases ts.len() - i,
    {
        let c = clone_type(&ts[i]);
        out.push(c);
        i += 1;
    }
    assert(view_types(out@) =~= view_types(ts@));
    out
}

// ---------------------------------------------------------------------------
// Compatibility
// ---------------------------------------------------------------------------

/// Whether a value of type `a` may stand where `b` is expected: `Infer` on
/// either side matches anything; numeric types are mutually compatible;
/// constructors match when their components do (a `&mut T` may stand for a `&T`,
/// and an array of length 0, a buffer of unknown length, matches any length);
/// all other types only match themselves.
pub open spec fn spec_compatible(a: Ty, b: Ty) -> bool
    decreases a,
{
    if a is Infer || b is Infer {
        true
    } else if spec_is_numeric(a) && spec_is_numeric(b) {
        true
    } else {
        match (a, b) {
            (Ty::Named(n1, xs), Ty::Named(n2, ys)) => n1 == n2 && xs.len() == ys.len()
                && all_compatible(xs, ys),
            (Ty::Ref(x, m1), Ty::Ref(y, m2)) => (m1 == m2 || m1 == Mutability::Mutable)
                && spec_compatible(*x, *y),
            (Ty::RawPtr(x, m1), Ty::RawPtr(y, m2)) => m1 == m2 && spec_compatible(*x, *y),
            (Ty::Array(x, n), Ty::Array(y, m)) => (n == m || n == 0 || m == 0) && spec_compatible(
                *x,
                *y,
            ),
            (Ty::Slice(x), Ty::Slice(y)) => spec_compatible(*x, *y),
            (Ty::Tuple(xs), Ty::Tuple(ys)) => xs.len() == ys.len() && all_compatible(xs, ys),
            (Ty::Fn(xs, r1), Ty::Fn(ys, r2)) => xs.len() == ys.len() && all_compatible(xs, ys)
                && spec_compatible(*r1, *r2),
            _ => a == b,
        }
    }
}

/// Pairwise compatibility of two lists of equal length.
pub open spec fn all_compatible(xs: Seq<Ty>, ys: Seq<Ty>) -> bool
    decreases xs,
{
    xs.len() == 0 || (all_compatible(xs.subrange(0, xs.len() - 1), ys.subrange(0, xs.len() - 1))
        && spec_compatible(xs[xs.len() - 1], ys[xs.len() - 1]))
}

impl Type {
    /// Whether a value of this type may stand where `other` is expected.
    pub fn compatible_with(&self, other: &Type) -> (r: bool)
        ensures
            r == spec_compatible(self@, other@),
        decreases self,
    {
        broadcast use group_view_types;
        if matches!(self, Type::Infer) || matches!(other, Type::Infer) {
            return true;
        }
        if self.is_numeric() && other.is_numeric() {
            return true;
        }
        match (self, other) {
            (Type::Named(n1, xs), Type::Named(n2, ys)) => {
                proof {
                    lemma_view_types(xs@);
                    lemma_view_types(ys@);
                }
                *n1 == *n2 && xs.len() == ys.len() && all_compatible_with(xs, ys)
            },
            (Type::Ref(x, m1), Type::Ref(y, m2)) => (*m1 == *m2 || *m1 == Mutability::Mutable)
                && x.compatible_with(y),
            (Type::RawPtr(x, m1), Type::RawPtr(y, m2)) => *m1 == *m2 && x.compatible_with(y),
            (Type::Array(x, n), Type::Array(y, m)) => (*n == *m || *n == 0 || *m == 0)
                && x.compatible_with(y),
            (Type::Slice(x), Type::Slice(y)) => x.compatible_with(y),
            (Type::Tuple(xs), Type::Tuple(ys)) => {
                proof {
                    lemma_view_types(xs@);
                    lemma_view_types(ys@);
                }
                xs.len() == ys.len() && all_compatible_with(xs, ys)
            },
            (Type::Fn(f), Type::Fn(g)) => {
                proof {
                    lemma_view_types(f.params@);
                    lemma_view_types(g.params@);
                }
                f.params.len() == g.params.len() && all_compatible_with(&f.params, &g.params)
                    && f.return_type.compatible_with(&g.return_type)
            },
            _ => {
                let r = type_eq(self, other);
                assert(r == spec_compatible(self@, other@)) by {
                    assert(!(self@ is Infer) && !(other@ is Infer));
                }
                r
            },
        }
    }
}

/// Pairwise compatibility of two vectors of equal length.
fn all_compatible_with(xs: &Vec<Type>, ys: &Vec<Type>) -> (r: bool)
    requires
        xs@.len() == ys@.len(),
    ensures
        r == all_compatible(view_types(xs@), view_types(ys@)),
    decreases xs,
{
    broadcast use group_view_types;
    let ghost vx = view_types(xs@);
    let ghost vy = view_types(ys@);
    proof {
        lemma_view_types(xs@);
        lemma_view_types(ys@);
    }
    let mut ok = true;
    let mut i: usize = 0;
    while i < xs.len()
        invariant
            i <= xs.len(),
            xs@.len() == ys@.len(),
            vx == view_types(xs@),
            vy == view_types(ys@),
            vx.len() == xs@.len(),
            vy.len() == ys@.len(),
            ok == all_compatible(vx.subrange(0, i as int), vy.subrange(0, i as int)),
        decreases xs.len() - i,
    {
        assert(vx.subrange(0, i + 1).subrange(0, i as int) =~= vx.subrange(0, i as int));
        assert(vy.subrange(0, i + 1).subrange(0, i as int) =~= vy.subrange(0, i as int));
        proof {
            lemma_view_types(xs@);
            lemma_view_types(ys@);
        }
        assert(vx.subrange(0, i + 1)[i as int] == xs@[i as int]@);
        assert(vy.subrange(0, i + 1)[i as int] == ys@[i as int]@);
        if ok && !xs[i].compatible_with(&ys[i]) {
            ok = false;
        }
        i += 1;
    }
    assert(vx.subrange(0, xs.len() as int) =~= vx);
    assert(vy.subrange(0, xs.len() as int) =~= vy);
    ok
}

/// Every type is compatible with itself.
pub proof fn law_compatible_reflexive(t: Ty)
    ensures
        spec_compatible(t, t),
    decreases t,
{
    if !(t is Infer) && !spec_is_numeric(t) {
        match t {
            Ty::Named(_, xs) => lemma_all_compatible_reflexive(xs),
            Ty::Ref(x, _) => law_compatible_reflexive(*x),
            Ty::RawPtr(x, _) => law_compatible_reflexive(*x),
            Ty::Array(x, _) => law_compatible_reflexive(*x),
            Ty::Slice(x) => law_compatible_reflexive(*x),
            Ty::Tuple(xs) => lemma_all_compatible_reflexive(xs),
            Ty::Fn(xs, r) => {
                lemma_all_compatible_reflexive(xs);
                law_compatible_reflexive(*r);
            },
            _ => {},
        }
    }
}

proof fn lemma_all_compatible_reflexive(xs: Seq<Ty>)
    ensures
        all_compatible(xs, xs),
    decreases xs,
{
    if xs.len() > 0 {
        lemma_all_compatible_reflexive(xs.subrange(0, xs.len() - 1));
        law_compatible_reflexive(xs[xs.len() - 1]);
    }
}

} // verus!
