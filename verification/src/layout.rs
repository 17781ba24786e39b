//! Object layout: how many slots a value of a type occupies on the heap, and
//! the tag of an enum variant.
use vstd::prelude::*;
use crate::context::{
    full_name_or_self, spec_lookup_enum, spec_lookup_struct, Ctx, TypeContext, fields_view, variants_view,
};
use crate::error::{Span, TypeError};
use crate::render::{push_type, render};
use crate::text::{str_eq, string_is};
use crate::ty::{Ty, Type};

verus! {

/// The single-slot pointer wrappers of the runtime.
pub open spec fn is_pointer_wrapper(full: Seq<char>) -> bool {
    ||| full == "Box"@
    ||| full == "Rc"@
    ||| full == "Arc"@
    ||| full == "Weak"@
    ||| full == "Gc"@
}

pub open spec fn msg_unknown_layout(full: Seq<char>) -> Seq<char> {
    "无法确定对象布局（未知类型 `"@ + full + "`）"@
}

pub open spec fn msg_not_boxable(t: Ty) -> Seq<char> {
    "该类型不支持堆装箱（`"@ + render(t) + "`）"@
}

/// The number of slots a value of `t` occupies, or the message explaining why
/// its layout is unknown.
pub open spec fn spec_slot_count(c: Ctx, t: Ty) -> Result<nat, Seq<char>> {
    match t {
        Ty::I8 | Ty::I16 | Ty::I32 | Ty::I64 | Ty::ISize | Ty::U8 | Ty::U16 | Ty::U32 | Ty::U64
        | Ty::USize | Ty::F32 | Ty::F64 | Ty::Bool | Ty::Char => Ok(1),
        Ty::Array(_, n) => Ok(if n > 0 { n } else { 1 }),
        Ty::Tuple(ts) => Ok(ts.len()),
        Ty::Named(n, args) => {
            let full = full_name_or_self(c.aliases, n);
            if is_pointer_wrapper(full) && args.len() == 1 {
                Ok(1)
            } else {
                match spec_lookup_struct(c, full) {
                    Some(fs) => Ok(fs.len()),
                    None => match spec_lookup_enum(c, full) {
                        Some((_, k)) => Ok(k),
                        None => Err(msg_unknown_layout(full)),
                    },
                }
            }
        },
        Ty::Ref(..) | Ty::Fn(..) | Ty::Closure { .. } => Ok(1),
        _ => Err(msg_not_boxable(t)),
    }
}

fn is_pointer_wrapper_name(full: &String) -> (r: bool)
    ensures
        r == is_pointer_wrapper(full@),
{
    string_is(full, "Box") || string_is(full, "Rc") || string_is(full, "Arc") || string_is(full, "Weak")
        || string_is(full, "Gc")
}

fn unknown_layout_message(full: &String) -> (r: String)
    ensures
        r@ == msg_unknown_layout(full@),
{
    let mut s = "无法确定对象布局（未知类型 `".to_string();
    s.append(full.as_str());
    s.append("`）");
    s
}

fn not_boxable_message(t: &Type) -> (r: String)
    ensures
        r@ == msg_not_boxable(t@),
{
    let mut s = "该类型不支持堆装箱（`".to_string();
    push_type(&mut s, t);
    s.append("`）");
    s
}

/// The number of slots a value of `ty` occupies on the heap: one for a
/// scalar, a reference, a function or a closure, and for a pointer wrapper
/// with one type argument; the length of an array (one for an empty one); the
/// arity of a tuple; the field count of a struct; the slot count recorded for
/// an enum. Any other type is reported as unsupported.
pub fn type_slot_count(ctx: &TypeContext, ty: &Type, span: Span) -> (r: Result<usize, TypeError>)
    ensures
        match spec_slot_count(ctx@, ty@) {
            Ok(n) => r matches Ok(k) && k == n,
            Err(m) => r matches Err(TypeError::Unsupported { what, span: sp }) && what@ == m && sp == span,
        },
{
    match ty {
        Type::I8 | Type::I16 | Type::I32 | Type::I64 | Type::ISize | Type::U8 | Type::U16 | Type::U32
        | Type::U64 | Type::USize | Type::F32 | Type::F64 | Type::Bool | Type::Char => Ok(1),
        Type::Array(_, n) => Ok(if *n > 0 { *n } else { 1 }),
        Type::Tuple(ts) => {
            proof {
                crate::ty::lemma_view_types(ts@);
            }
            Ok(ts.len())
        },
        Type::Named(n, args) => {
            proof {
                crate::ty::lemma_view_types(args@);
            }
            assert(ty@ == Ty::Named(n@, crate::ty::view_types(args@)));
            let full = match ctx.resolve_full_name(n) {
                Some(f) => f,
                None => n.clone(),
            };
            assert(full@ == full_name_or_self(ctx@.aliases, n@));
            if is_pointer_wrapper_name(&full) && args.len() == 1 {
                return Ok(1);
            }
            match ctx.lookup_struct(&full) {
                Some(def) => {
                    assert(fields_view(def.fields@).len() == def.fields@.len());
                    Ok(def.fields.len())
                },
                None => match ctx.lookup_enum(&full) {
                    Some(def) => Ok(def.slot_count),
                    None => Err(TypeError::Unsupported { what: unknown_layout_message(&full), span }),
                },
            }
        },
        Type::Ref(..) | Type::Fn(..) | Type::Closure { .. } => Ok(1),
        _ => Err(TypeError::Unsupported { what: not_boxable_message(ty), span }),
    }
}

/// The tag of the first variant named `v`.
pub open spec fn find_tag(vs: Seq<(Seq<char>, nat)>, v: Seq<char>) -> Option<nat>
    decreases vs.len(),
{
    if vs.len() == 0 {
        None
    } else if vs[0].0 == v {
        Some(vs[0].1)
    } else {
        find_tag(vs.subrange(1, vs.len() as int), v)
    }
}

/// The tag of `variant` in the enum `enum_name` and the enum's slot count.
/// An unknown enum is an undefined type; an unknown variant is reported as a
/// missing function `enum_name::variant`.
pub fn enum_variant_info(ctx: &TypeContext, enum_name: &str, variant: &str, span: Span) -> (r: Result<
    (usize, usize),
    TypeError,
>)
    ensures
        match spec_lookup_enum(ctx@, enum_name@) {
            None => r matches Err(TypeError::UndefinedType { name, span: sp }) && name@ == enum_name@ && sp
                == span,
            Some((vs, k)) => match find_tag(vs, variant@) {
                Some(t) => r matches Ok((a, b)) && a == t && b == k,
                None => r matches Err(TypeError::FunctionNotFound { name, span: sp }) && name@ == enum_name@
                    + "::"@ + variant@ && sp == span,
            },
        },
{
    let en = enum_name.to_string();
    let def = match ctx.lookup_enum(&en) {
        Some(d) => d,
        None => {
            return Err(TypeError::UndefinedType { name: en, span });
        },
    };
    let ghost vs = variants_view(def.variants@);
    assert(spec_lookup_enum(ctx@, enum_name@) == Some((vs, def.slot_count as nat)));
    let mut i: usize = 0;
    assert(vs.subrange(0, vs.len() as int) =~= vs);
    while i < def.variants.len()
        invariant
            i <= def.variants@.len(),
            vs == variants_view(def.variants@),
            vs.len() == def.variants@.len(),
            find_tag(vs.subrange(i as int, vs.len() as int), variant@) == find_tag(vs, variant@),
            spec_lookup_enum(ctx@, enum_name@) == Some((vs, def.slot_count as nat)),
            en@ == enum_name@,
        decreases def.variants.len() - i,
    {
        let ghost rest = vs.subrange(i as int, vs.len() as int);
        assert(rest.subrange(1, rest.len() as int) =~= vs.subrange(i + 1, vs.len() as int));
        assert(rest[0] == (def.variants@[i as int].0@, def.variants@[i as int].1 as nat));
        if str_eq(def.variants[i].0.as_str(), variant) {
            return Ok((def.variants[i].1, def.slot_count));
        }
        i += 1;
    }
    let mut name = en;
    name.append("::");
    name.append(variant);
    Err(TypeError::FunctionNotFound { name, span })
}

} // verus!
