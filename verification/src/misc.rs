//! Built-in function signatures, run-time type identities and the built-in
//! trait tags (`Any`, `Drop`).
use vstd::prelude::*;
use crate::render::{render, type_to_string};
use crate::text::{ends_with, spec_ends_with, str_eq};
use crate::ty::{Ty, Type, view_types};
use crate::error::{Span, TypeError};
use vstd::string::StringExecFns;

verus! {

broadcast use vstd::std_specs::vec::group_vec_axioms;

/// The element-agnostic dynamic buffer type `[_; 0]`.
pub open spec fn dyn_arr() -> Ty {
    Ty::Array(Box::new(Ty::Infer), 0)
}

/// The signature (parameter types, result type) of a compiler built-in function.
pub open spec fn spec_builtin_signature(name: Seq<char>) -> Option<(Seq<Ty>, Ty)> {
    if name == "print"@ || name == "println"@ || name == "eprint"@ || name == "eprintln"@ {
        Some((seq![Ty::Infer], Ty::Unit))
    } else if name == "alloc_array"@ {
        Some((seq![Ty::I64], dyn_arr()))
    } else if name == "array_copy"@ {
        Some((seq![dyn_arr(), dyn_arr(), Ty::I64], Ty::Unit))
    } else if name == "array_free"@ {
        Some((seq![dyn_arr()], Ty::Unit))
    } else if name == "alloc_bytes"@ {
        Some((seq![Ty::I64], Ty::Array(Box::new(Ty::U8), 0)))
    } else if name == "copy_bytes"@ {
        Some((seq![Ty::Infer, Ty::Infer, Ty::I64], Ty::Unit))
    } else if name == "bytes_eq"@ {
        Some((seq![Ty::Infer, Ty::Infer, Ty::I64], Ty::Bool))
    } else if name == "bytes_cmp"@ {
        Some((seq![Ty::Infer, Ty::Infer, Ty::I64], Ty::I64))
    } else if name == "print_string"@ || name == "println_string"@ {
        Some((seq![Ty::Infer], Ty::Unit))
    } else if name == "hash_value"@ {
        Some((seq![Ty::Infer], Ty::I64))
    } else {
        None
    }
}

fn mk_dyn_arr() -> (r: Type)
    ensures
        r@ == dyn_arr(),
{
    let r = Type::Array(Box::new(Type::Infer), 0);
    assert(crate::ty::view_type(Type::Infer) == Ty::Infer);
    r
}

/// The signature of the built-in function `name`, or `None` when `name` is not
/// a built-in. `Infer` parameters accept any argument.
pub fn builtin_signature(name: &str) -> (r: Option<(Vec<Type>, Type)>)
    ensures
        match spec_builtin_signature(name@) {
            Some((ps, ret)) => r matches Some((ps2, ret2)) && view_types(ps2@) == ps && ret2@ == ret,
            None => r is None,
        },
{
    let (ps, ret): (Vec<Type>, Type) = if str_eq(name, "print") || str_eq(name, "println") || str_eq(
        name,
        "eprint",
    ) || str_eq(name, "eprintln") {
        (vec![Type::Infer], Type::Unit)
    } else if str_eq(name, "alloc_array") {
        (vec![Type::I64], mk_dyn_arr())
    } else if str_eq(name, "array_copy") {
        (vec![mk_dyn_arr(), mk_dyn_arr(), Type::I64], Type::Unit)
    } else if str_eq(name, "array_free") {
        (vec![mk_dyn_arr()], Type::Unit)
    } else if str_eq(name, "alloc_bytes") {
        assert(crate::ty::view_type(Type::U8) == Ty::U8);
        (vec![Type::I64], Type::Array(Box::new(Type::U8), 0))
    } else if str_eq(name, "copy_bytes") {
        (vec![Type::Infer, Type::Infer, Type::I64], Type::Unit)
    } else if str_eq(name, "bytes_eq") {
        (vec![Type::Infer, Type::Infer, Type::I64], Type::Bool)
    } else if str_eq(name, "bytes_cmp") {
        (vec![Type::Infer, Type::Infer, Type::I64], Type::I64)
    } else if str_eq(name, "print_string") || str_eq(name, "println_string") {
        (vec![Type::Infer], Type::Unit)
    } else if str_eq(name, "hash_value") {
        (vec![Type::Infer], Type::I64)
    } else {
        return None;
    };
    proof {
        crate::ty::lemma_view_types(ps@);
    }
    assert(view_types(ps@) =~= spec_builtin_signature(name@).unwrap().0);
    Some((ps, ret))
}

// ---------------------------------------------------------------------------
// Run-time type identity
// ---------------------------------------------------------------------------

pub open spec fn fnv_offset_basis() -> u64 {
    0xcbf2_9ce4_8422_2325u64
}

pub open spec fn fnv_prime() -> u64 {
    0x0000_0100_0000_01b3u64
}

/// The 64-bit FNV-1a hash of a byte sequence.
pub open spec fn fnv1a(bytes: Seq<u8>) -> u64
    decreases bytes.len(),
{
    if bytes.len() == 0 {
        fnv_offset_basis()
    } else {
        vstd::wrapping::u64_specs::wrapping_mul(
            fnv1a(bytes.drop_last()) ^ (bytes.last() as u64),
            fnv_prime(),
        )
    }
}

/// The 64-bit FNV-1a hash of `bytes`.
pub fn fnv1a_64(bytes: &[u8]) -> (r: u64)
    ensures
        r == fnv1a(bytes@),
{
    let mut h: u64 = 0xcbf2_9ce4_8422_2325;
    let mut i: usize = 0;
    while i < bytes.len()
        invariant
            i <= bytes@.len(),
            h == fnv1a(bytes@.subrange(0, i as int)),
        decreases bytes@.len() - i,
    {
        assert(bytes@.subrange(0, i + 1).drop_last() =~= bytes@.subrange(0, i as int));
        h = h ^ (bytes[i] as u64);
        h = h.wrapping_mul(0x0000_0100_0000_01b3);
        i += 1;
    }
    assert(bytes@.subrange(0, bytes@.len() as int) =~= bytes@);
    h
}

/// The run-time identity of a type: the FNV-1a hash of the UTF-8 bytes of its
/// canonical text, so that equal types get equal identities in every module.
pub open spec fn spec_type_id(t: Ty) -> i64 {
    fnv1a(vstd::utf8::encode_utf8(render(t))) as i64
}

/// The run-time identity of `ty`, compared by `dyn Any` downcasts.
pub fn type_id_of(ty: &Type) -> (r: i64)
    ensures
        r == spec_type_id(ty@),
{
    let text = type_to_string(ty);
    let h = fnv1a_64(text.as_str().as_bytes());
    h as i64
}

// ---------------------------------------------------------------------------
// Built-in trait tags
// ---------------------------------------------------------------------------

/// Whether a (possibly module-qualified) trait name denotes `Any`.
pub fn is_any_trait(name: &str) -> (r: bool)
    ensures
        r == (name@ == "Any"@ || spec_ends_with(name@, "::Any"@)),
{
    str_eq(name, "Any") || ends_with(name, "::Any")
}

/// Whether a (possibly module-qualified) trait name denotes `Drop`.
pub fn is_drop_trait(name: &str) -> (r: bool)
    ensures
        r == (name@ == "Drop"@ || spec_ends_with(name@, "::Drop"@)),
{
    str_eq(name, "Drop") || ends_with(name, "::Drop")
}

/// Types with the same canonical text have the same run-time identity, in
/// every module and at every coercion to `dyn Any`.
pub proof fn law_type_id_by_text(a: Ty, b: Ty)
    requires
        render(a) == render(b),
    ensures
        spec_type_id(a) == spec_type_id(b),
{
}

/// Whether `t` is `dyn Any`.
pub open spec fn is_dyn_any(t: Ty) -> bool {
    t matches Ty::Dyn(n) && (n == "Any"@ || spec_ends_with(n, "::Any"@))
}

/// Checks that the argument of the `dyn Any` operation `who` has type
/// `dyn Any`.
pub fn ensure_dyn_any(ty: &Type, who: &str, span: Span) -> (r: Result<(), TypeError>)
    ensures
        is_dyn_any(ty@) ==> r is Ok,
        !is_dyn_any(ty@) ==> (r matches Err(TypeError::Unsupported { what, span: sp }) && what@ == "`"@ + who@
            + "` 需要 `dyn Any` 实参，实际为 `"@ + render(ty@) + "`"@ && sp == span),
{
    if let Type::Dyn(n) = ty {
        if is_any_trait(n.as_str()) {
            return Ok(());
        }
    }
    let mut what = "`".to_string();
    what.append(who);
    what.append("` 需要 `dyn Any` 实参，实际为 `");
    crate::render::push_type(&mut what, ty);
    what.append("`");
    Err(TypeError::Unsupported { what, span })
}

} // verus!
