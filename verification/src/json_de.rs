//! `json.parse::<T>(s)` and `json.try_parse::<T>(s)`: the source-level
//! desugaring of JSON deserialization, by the target type.
use vstd::prelude::*;
use vstd::string::StringExecFns;
use crate::ast::{
    AType, AstBlock, AstExpr, AstStmt, AstType, Blk, CompareOp, Ex, ExK, Pat, St, atypes0, clone_expr, ex, mk_assign,
    mk_binary, mk_block, mk_block_expr, mk_bool, mk_field, mk_for, mk_if, mk_int, mk_let, mk_let_typed,
    mk_method_call, mk_semi, mk_struct_ctor, vec0, vec1, vec2, view_atypes, view_inits, view_stmts, view_strings,
};
use crate::binary::BinaryOp;
use crate::context::{Ctx, TypeContext, fields_view, spec_lookup_struct, temp_name};
use crate::desugar::{mk_ident_call, mk_path_call, spec_ident_call, spec_path_call};
use crate::error::{Span, TypeError};
use crate::json_ser::{
    SerStep, blk, clone_fields, chain2, chain2_ast, ident, ident_ast, int_lit, let_ident, lit, lit_ast, mcall, semi, semi_block,
    statics, step_matches,
};
use crate::render::{push_type, render};
use crate::subst::{spec_substitute, substitute};
use crate::text::string_is;
use crate::ty::{Ty, Type, view_types};

verus! {

broadcast use vstd::std_specs::vec::group_vec_axioms, vstd::string::group_string_axioms, crate::ty::group_view_types;

// ---------------------------------------------------------------------------
// Types as written
// ---------------------------------------------------------------------------

/// The source form of a type: a path with the type's name (`i64`, `u8`,
/// `f64`, `bool`, `()`, or a named type with its arguments); every other type
/// is written `()`.
pub open spec fn spec_ty_to_ast(t: Ty) -> AType
    decreases t,
{
    match t {
        Ty::I64 => AType::Path("i64"@, Seq::empty()),
        Ty::U8 => AType::Path("u8"@, Seq::empty()),
        Ty::F64 => AType::Path("f64"@, Seq::empty()),
        Ty::Bool => AType::Path("bool"@, Seq::empty()),
        Ty::Unit => AType::Path("()"@, Seq::empty()),
        Ty::Named(n, args) => AType::Path(n, tys_to_ast(args)),
        _ => AType::Path("()"@, Seq::empty()),
    }
}

pub open spec fn tys_to_ast(s: Seq<Ty>) -> Seq<AType>
    decreases s,
{
    if s.len() == 0 {
        Seq::empty()
    } else {
        tys_to_ast(s.subrange(0, s.len() - 1)).push(spec_ty_to_ast(s[s.len() - 1]))
    }
}

fn path0(name: &str) -> (r: AstType)
    ensures
        r@ == AType::Path(name@, Seq::empty()),
{
    let r = AstType::Path(name.to_string(), Vec::new());
    assert(view_atypes(Seq::<AstType>::empty()) =~= Seq::<AType>::empty());
    r
}

/// The source form of `ty` (see `spec_ty_to_ast`).
pub fn ty_to_ast(ty: &Type) -> (r: AstType)
    ensures
        r@ == spec_ty_to_ast(ty@),
    decreases ty,
{
    match ty {
        Type::I64 => path0("i64"),
        Type::U8 => path0("u8"),
        Type::F64 => path0("f64"),
        Type::Bool => path0("bool"),
        Type::Unit => path0("()"),
        Type::Named(n, args) => AstType::Path(n.clone(), tys_to_ast_vec(args)),
        _ => path0("()"),
    }
}

pub(crate) fn tys_to_ast_vec(args: &Vec<Type>) -> (r: Vec<AstType>)
    ensures
        view_atypes(r@) == tys_to_ast(view_types(args@)),
    decreases args,
{
    let ghost va = view_types(args@);
    let mut out: Vec<AstType> = Vec::new();
    let mut i: usize = 0;
    while i < args.len()
        invariant
            i <= args.len(),
            va == view_types(args@),
            va.len() == args.len(),
            view_atypes(out@) == tys_to_ast(va.subrange(0, i as int)),
        decreases args.len() - i,
    {
        proof {
            crate::ty::lemma_view_types(args@);
            crate::ast::lemma_view_atypes(out@);
        }
        let a = ty_to_ast(&args[i]);
        let ghost o0 = out@;
        out.push(a);
        proof {
            crate::ast::lemma_view_atypes(out@);
            crate::ast::lemma_view_atypes(o0);
            assert(va.subrange(0, i + 1).subrange(0, i as int) =~= va.subrange(0, i as int));
            assert(view_atypes(out@) =~= view_atypes(o0).push(a@));
        }
        i += 1;
    }
    assert(va.subrange(0, args.len() as int) =~= va);
    out
}

// ---------------------------------------------------------------------------
// Zero values
// ---------------------------------------------------------------------------

pub open spec fn msg_no_zero(t: Ty) -> Seq<char> {
    "结构体反序列化：字段类型 `"@ + render(t) + "` 无零值"@
}

/// The zero value of a struct field of type `t`, with `fuel` levels of nested
/// structs available: `0`, `false`, `String::new()`, `Vec::new()`,
/// `HashMap::new()`, or the struct literal of a field-less-argument struct
/// with the zero values of its fields. Other types have no zero value.
pub open spec fn zero(c: Ctx, t: Ty, span: Span, fuel: nat) -> Option<Result<Ex, Seq<char>>>
    decreases fuel, 0nat,
{
    if fuel == 0 {
        None
    } else {
        match t {
            Ty::I64 => Some(Ok(int_lit(0, span))),
            Ty::Bool => Some(Ok(ex(ExK::Bool(false), span))),
            Ty::Named(name, args) => if name == "String"@ || name == "Vec"@ || name == "HashMap"@ {
                Some(Ok(spec_path_call(seq![name, "new"@], Seq::empty(), span)))
            } else if spec_lookup_struct(c, name) is Some && args.len() == 0 {
                match zero_inits(c, spec_lookup_struct(c, name).unwrap(), 0, span, (fuel - 1) as nat) {
                    Some(Ok(inits)) => Some(Ok(ex(ExK::StructCtor(seq![name], Seq::empty(), inits), span))),
                    Some(Err(m)) => Some(Err(m)),
                    None => None,
                }
            } else {
                Some(Err(msg_no_zero(t)))
            },
            _ => Some(Err(msg_no_zero(t))),
        }
    }
}

/// The initializers `f: <zero>` of fields `i..`.
pub open spec fn zero_inits(c: Ctx, fs: Seq<(Seq<char>, Ty)>, i: nat, span: Span, fuel: nat) -> Option<
    Result<Seq<(Seq<char>, Ex)>, Seq<char>>,
>
    decreases fuel, fs.len() - i + 1,
{
    if i >= fs.len() {
        Some(Ok(Seq::empty()))
    } else {
        match zero(c, fs[i as int].1, span, fuel) {
            Some(Ok(z)) => match zero_inits(c, fs, i + 1, span, fuel) {
                Some(Ok(rest)) => Some(Ok(seq![(fs[i as int].0, z)] + rest)),
                other => other,
            },
            Some(Err(m)) => Some(Err(m)),
            None => None,
        }
    }
}

fn msg_no_zero_string(t: &Type) -> (r: String)
    ensures
        r@ == msg_no_zero(t@),
{
    let mut s = "结构体反序列化：字段类型 `".to_string();
    push_type(&mut s, t);
    s.append("` 无零值");
    s
}

fn new_call(name: &String, span: Span) -> (r: AstExpr)
    ensures
        r@ == spec_path_call(seq![name@, "new"@], Seq::empty(), span),
{
    let segs = vec![name.clone(), "new".to_string()];
    assert(view_strings(segs@) =~= seq![name@, "new"@]);
    mk_path_call(segs, vec0(), span)
}

/// The zero value of a struct field of type `ty` (see `zero`).
fn zero_rec(ctx: &TypeContext, ty: &Type, span: Span, Ghost(fuel): Ghost<nat>) -> (r: Result<AstExpr, TypeError>)
    requires
        zero(statics(ctx@), ty@, span, fuel) is Some,
    ensures
        zero(statics(ctx@), ty@, span, fuel) matches Some(res) && step_matches(r, res, span),
    decreases fuel, 0nat,
{
    let ghost cs = statics(ctx@);
    match ty {
        Type::I64 => Ok(mk_int(0, span)),
        Type::Bool => Ok(mk_bool(false, span)),
        Type::Named(name, args) => {
            if string_is(name, "String") || string_is(name, "Vec") || string_is(name, "HashMap") {
                Ok(new_call(name, span))
            } else if ctx.lookup_struct(name).is_some() && args.len() == 0 {
                assert(ty@ == Ty::Named(name@, view_types(args@)));
                assert(spec_lookup_struct(cs, name@) == spec_lookup_struct(ctx@, name@));
                let fs = match ctx.lookup_struct(name) {
                    Some(d) => clone_fields(&d.fields),
                    None => Vec::new(),
                };
                assert(fields_view(fs@) == spec_lookup_struct(cs, name@).unwrap());
                match zero_inits_from(ctx, &fs, 0, span, Ghost((fuel - 1) as nat)) {
                    Ok(inits) => {
                        let segs = vec![name.clone()];
                        assert(view_strings(segs@) =~= seq![name@]);
                        Ok(mk_struct_ctor(segs, atypes0(), inits, span))
                    },
                    Err(e) => Err(e),
                }
            } else {
                Err(TypeError::Unsupported { what: msg_no_zero_string(ty), span })
            }
        },
        _ => Err(TypeError::Unsupported { what: msg_no_zero_string(ty), span }),
    }
}

pub(crate) fn zero_inits_from(
    ctx: &TypeContext,
    fs: &Vec<(String, Type)>,
    i: usize,
    span: Span,
    Ghost(fuel): Ghost<nat>,
) -> (r: Result<Vec<(String, AstExpr)>, TypeError>)
    requires
        i <= fs.len(),
        zero_inits(statics(ctx@), fields_view(fs@), i as nat, span, fuel) is Some,
    ensures
        zero_inits(statics(ctx@), fields_view(fs@), i as nat, span, fuel) matches Some(res) && match res {
            Ok(inits) => r matches Ok(v) && view_inits(v@) == inits,
            Err(m) => r matches Err(TypeError::Unsupported { what, span: sp }) && what@ == m && sp == span,
        },
    decreases fuel, fs.len() - i + 1,
{
    let ghost fsv = fields_view(fs@);
    if i >= fs.len() {
        let v: Vec<(String, AstExpr)> = Vec::new();
        assert(view_inits(v@) =~= Seq::<(Seq<char>, Ex)>::empty());
        return Ok(v);
    }
    assert(fsv[i as int] == (fs@[i as int].0@, fs@[i as int].1@));
    match zero_rec(ctx, &fs[i].1, span, Ghost(fuel)) {
        Ok(z) => match zero_inits_from(ctx, fs, i + 1, span, Ghost(fuel)) {
            Ok(rest) => {
                let ghost zv = z@;
                let ghost rv = view_inits(rest@);
                let mut v: Vec<(String, AstExpr)> = vec![(fs[i].0.clone(), z)];
                let ghost v0 = v@;
                let mut rest = rest;
                let ghost r0 = rest@;
                v.append(&mut rest);
                proof {
                    crate::ast::lemma_view_inits(v@);
                    crate::ast::lemma_view_inits(v0);
                    crate::ast::lemma_view_inits(r0);
                    assert(view_inits(v@) =~= seq![(fsv[i as int].0, zv)] + rv);
                }
                Ok(v)
            },
            Err(e) => Err(e),
        },
        Err(e) => Err(e),
    }
}

/// The zero value of a struct field of type `ty`: `0`, `false`,
/// `String::new()`, `Vec::new()`, `HashMap::new()`, or the literal of a struct
/// (without type arguments) with the zero values of its fields; other types are
/// unsupported.
pub fn ty_to_zero_ast(ctx: &TypeContext, ty: &Type, span: Span) -> (r: Result<AstExpr, TypeError>)
    requires
        exists|fuel: nat| zero(statics(ctx@), ty@, span, fuel) is Some,
    ensures
        step_matches(r, spec_zero(ctx@, ty@, span), span),
{
    let ghost fuel = choose|fuel: nat| zero(statics(ctx@), ty@, span, fuel) is Some;
    proof {
        lemma_zero_fuel(statics(ctx@), ty@, span, fuel, zero_fuel(ctx@, ty@, span));
    }
    zero_rec(ctx, ty, span, Ghost(fuel))
}

/// The fuel that the zero value of `t` is computed with.
pub open spec fn zero_fuel(c: Ctx, t: Ty, span: Span) -> nat {
    choose|fuel: nat| zero(statics(c), t, span, fuel) is Some
}

/// The zero value of `t` in context `c` (when nested structs are finite).
pub open spec fn spec_zero(c: Ctx, t: Ty, span: Span) -> Result<Ex, Seq<char>> {
    zero(statics(c), t, span, zero_fuel(c, t, span)).unwrap()
}

/// Enough fuel gives the same zero value whatever the amount.
pub proof fn lemma_zero_fuel(c: Ctx, t: Ty, span: Span, f1: nat, f2: nat)
    requires
        zero(c, t, span, f1) is Some,
        zero(c, t, span, f2) is Some,
    ensures
        zero(c, t, span, f1) == zero(c, t, span, f2),
    decreases f1, 0nat,
{
    if let Ty::Named(name, args) = t {
        if !(name == "String"@ || name == "Vec"@ || name == "HashMap"@) && spec_lookup_struct(c, name) is Some
            && args.len() == 0 {
            lemma_zero_inits_fuel(c, spec_lookup_struct(c, name).unwrap(), 0, span, (f1 - 1) as nat, (f2 - 1) as nat);
        }
    }
}

proof fn lemma_zero_inits_fuel(c: Ctx, fs: Seq<(Seq<char>, Ty)>, i: nat, span: Span, f1: nat, f2: nat)
    requires
        zero_inits(c, fs, i, span, f1) is Some,
        zero_inits(c, fs, i, span, f2) is Some,
    ensures
        zero_inits(c, fs, i, span, f1) == zero_inits(c, fs, i, span, f2),
    decreases f1, fs.len() - i + 1,
{
    if i < fs.len() {
        lemma_zero_fuel(c, fs[i as int].1, span, f1, f2);
        if let Some(Ok(_)) = zero(c, fs[i as int].1, span, f1) {
            lemma_zero_inits_fuel(c, fs, i + 1, span, f1, f2);
        }
    }
}

// ---------------------------------------------------------------------------
// The deserialization, on the model
// ---------------------------------------------------------------------------

/// `String::from(<arg>)`.
pub open spec fn string_from(arg: Ex, span: Span) -> Ex {
    spec_path_call(seq!["String"@, "from"@], seq![arg], span)
}

/// The temporary `b + k` as an expression.
pub open spec fn tmp(b: nat, k: nat, span: Span) -> Ex {
    ident(temp_name(b + k), span)
}

pub open spec fn bin(op: BinaryOp, l: Ex, r: Ex, span: Span) -> Ex {
    ex(ExK::Binary(op, Box::new(l), Box::new(r)), span)
}

/// `<part>.substring(0, <colon>)`: the text before the colon of an entry.
pub open spec fn key_slice(b: nat, span: Span) -> Ex {
    mcall(tmp(b, 4, span), "substring"@, seq![int_lit(0, span), tmp(b, 5, span)], span)
}

/// `<part>.substring(<colon> + 1, <part>.len())`: the text after the colon.
pub open spec fn val_slice(b: nat, span: Span) -> Ex {
    mcall(
        tmp(b, 4, span),
        "substring"@,
        seq![bin(BinaryOp::Add, tmp(b, 5, span), int_lit(1, span), span), mcall(tmp(b, 4, span), "len"@, Seq::empty(), span)],
        span,
    )
}

/// `if <colon> >= 0 { <stmts> }`
pub open spec fn when_colon(b: nat, stmts: Seq<St>, span: Span) -> Ex {
    ex(ExK::If(Box::new(chain2(tmp(b, 5, span), CompareOp::Ge, int_lit(0, span), span)), blk(stmts, None, span), None), span)
}

/// `for <part> in <parts> { let <colon> = <part>.find(":"); <body>; }`
pub open spec fn entry_loop(b: nat, body: Ex, span: Span) -> Ex {
    ex(ExK::For(
        Pat::Ident(temp_name(b + 4)),
        Box::new(tmp(b, 2, span)),
        blk(seq![let_ident(temp_name(b + 5), mcall(tmp(b, 4, span), "find"@, seq![lit(":"@, span)], span), false), semi(body)], None, span),
    ), span)
}

/// The block shared by maps and structs, with temporaries from `b`: the text,
/// the text without its first and last characters, its parts split at `,`, the
/// result (annotated `anno`, initialized with `init`), then the loop over the
/// parts with `body`; the block's value is the result.
/// `{ let s = String::from(arg); let body = s.substring(1, s.len() - 1);
///    let parts = body.split(","); let mut out: <anno> = <init>;
///    for part in parts { let c = part.find(":"); <body> } out }`
pub open spec fn entries_block(arg: Ex, b: nat, anno: AType, init: Ex, body: Ex, span: Span) -> Ex {
    ex(ExK::Block(blk(seq![
        let_ident(temp_name(b), string_from(arg, span), false),
        let_ident(temp_name(b + 1), mcall(tmp(b, 0, span), "substring"@, seq![
            int_lit(1, span),
            bin(BinaryOp::Sub, mcall(tmp(b, 0, span), "len"@, Seq::empty(), span), int_lit(1, span), span),
        ], span), false),
        let_ident(temp_name(b + 2), mcall(tmp(b, 1, span), "split"@, seq![lit(","@, span)], span), false),
        St::Let(Pat::Ident(temp_name(b + 3)), Some(anno), Box::new(init), true),
        semi(entry_loop(b, body, span)),
    ], Some(tmp(b, 3, span)), span)), span)
}

/// The key of a map entry: `json_unescape(<key text>)`, turned into an
/// integer by `string_to_int` for `i64` keys.
pub open spec fn key_parse(key_is_i64: bool, b: nat, span: Span) -> Ex {
    let k = spec_ident_call("json_unescape"@, seq![tmp(b, 6, span)], span);
    if key_is_i64 {
        spec_ident_call("string_to_int"@, seq![k], span)
    } else {
        k
    }
}

/// The deserialization of a map with temporaries `b..b + 10` and the value
/// parse `val` of the value text (temporary `b + 7`).
pub open spec fn map_parse(arg: Ex, key_is_i64: bool, k: Ty, v: Ty, val: Ex, b: nat, span: Span) -> Ex {
    entries_block(
        arg,
        b,
        AType::Path("HashMap"@, seq![spec_ty_to_ast(k), spec_ty_to_ast(v)]),
        spec_path_call(seq!["HashMap"@, "new"@], Seq::empty(), span),
        when_colon(b, map_entry(key_is_i64, val, b, span), span),
        span,
    )
}

/// `if <name> == "<f>" { <out>.<f> = <v>; } else { <inner> }` for the struct
/// deserialization with temporaries from `b`.
pub open spec fn field_if(b: nat, f: Seq<char>, v: Ex, inner: Option<Ex>, span: Span) -> Ex {
    ex(ExK::If(
        Box::new(chain2(tmp(b, 6, span), CompareOp::Eq, lit(f, span), span)),
        blk(seq![semi(ex(ExK::Assign(Box::new(ex(ExK::Field(Box::new(tmp(b, 3, span)), f), span)), crate::ast::AssignOp::Assign, Box::new(v)), span))], None, span),
        Some(blk(Seq::empty(), inner, span)),
    ), span)
}

/// The deserialization of a struct named `name` with temporaries `b..b + 8`,
/// the zero-value initializers `inits` and the chain of field tests `chain`.
pub open spec fn struct_parse(arg: Ex, name: Seq<char>, inits: Seq<(Seq<char>, Ex)>, chain: Ex, b: nat, span: Span) -> Ex {
    entries_block(
        arg,
        b,
        AType::Path(name, Seq::empty()),
        ex(ExK::StructCtor(seq![name], Seq::empty(), inits), span),
        when_colon(b, seq![
            let_ident(temp_name(b + 6), spec_ident_call("json_unescape"@, seq![key_slice(b, span)], span), false),
            let_ident(temp_name(b + 7), val_slice(b, span), false),
            semi(chain),
        ], span),
        span,
    )
}

pub open spec fn msg_map_infer() -> Seq<char> {
    "json.parse：HashMap 键/值类型未确定（turbofish 显式定型，如 `json.parse::<HashMap<i64, i64>>(s)`）"@
}

pub open spec fn msg_map_key(k: Ty) -> Seq<char> {
    "json.parse：HashMap 键类型 `"@ + render(k) + "`（MVP 支持 i64 / String）"@
}

pub open spec fn msg_nested_map() -> Seq<char> {
    "json.parse：嵌套 HashMap 值反序列化（MVP 支持标量值 i64 / bool / String）"@
}

pub open spec fn msg_empty_struct(name: Seq<char>) -> Seq<char> {
    "json.parse：空结构体 `"@ + name + "` 反序列化"@
}

pub open spec fn msg_other(t: Ty) -> Seq<char> {
    "json.parse：类型 `"@ + render(t) + "` 反序列化"@
}

/// The deserialization of the JSON text `arg` into type `t`, starting with
/// temporary counter `n`, with `fuel` levels of nested deserialization
/// available (`None` when they do not suffice).
pub open spec fn parse(c: Ctx, t: Ty, arg: Ex, span: Span, n: nat, fuel: nat) -> Option<SerStep>
    decreases fuel, 0nat,
{
    if fuel == 0 {
        None
    } else {
        match t {
            Ty::I64 => Some((Ok(spec_ident_call("string_to_int"@, seq![string_from(arg, span)], span)), n)),
            Ty::Bool => Some((Ok(ex(ExK::If(
                Box::new(chain2(string_from(arg, span), CompareOp::Eq, lit("true"@, span), span)),
                blk(Seq::empty(), Some(ex(ExK::Bool(true), span)), span),
                Some(blk(Seq::empty(), Some(ex(ExK::Bool(false), span)), span)),
            ), span)), n)),
            Ty::Named(name, args) => if name == "String"@ {
                Some((Ok(spec_ident_call("json_unescape"@, seq![string_from(arg, span)], span)), n))
            } else if name == "HashMap"@ && args.len() == 2 {
                let kt = spec_substitute(args[0], c.subst);
                let vt = spec_substitute(args[1], c.subst);
                if kt is Infer || vt is Infer {
                    Some((Err(msg_map_infer()), n))
                } else if !(kt is I64) && !(kt matches Ty::Named(kn, _) && kn == "String"@) {
                    Some((Err(msg_map_key(kt)), n))
                } else if vt matches Ty::Named(vn, _) && vn == "HashMap"@ {
                    Some((Err(msg_nested_map()), n))
                } else {
                    match parse(c, vt, tmp(n, 7, span), span, n + 10, (fuel - 1) as nat) {
                        Some((Ok(val), n2)) => Some((Ok(map_parse(arg, kt is I64, kt, vt, val, n, span)), n2)),
                        Some((Err(m), n2)) => Some((Err(m), n2)),
                        None => None,
                    }
                }
            } else if spec_lookup_struct(c, name) is Some && args.len() == 0 {
                let fs = spec_lookup_struct(c, name).unwrap();
                if fs.len() == 0 {
                    Some((Err(msg_empty_struct(name)), n))
                } else {
                    match zero_inits(c, fs, 0, span, (fuel - 1) as nat) {
                        Some(Ok(inits)) => match field_chain(c, fs, fs.len(), None, n, span, n + 8, (fuel - 1) as nat) {
                            Some((Ok(ch), n2)) => Some((Ok(struct_parse(arg, name, inits, ch.unwrap(), n, span)), n2)),
                            Some((Err(m), n2)) => Some((Err(m), n2)),
                            None => None,
                        },
                        Some(Err(m)) => Some((Err(m), n + 8)),
                        None => None,
                    }
                }
            } else {
                Some((Err(msg_other(t)), n))
            },
            _ => Some((Err(msg_other(t)), n)),
        }
    }
}

/// The chain of field tests for fields `k - 1` down to `0`, wrapped around
/// `acc` (the tests of the fields after them), with temporaries from `b`;
/// each field's value parse takes its temporaries from counter `n` on.
pub open spec fn field_chain(
    c: Ctx,
    fs: Seq<(Seq<char>, Ty)>,
    k: nat,
    acc: Option<Ex>,
    b: nat,
    span: Span,
    n: nat,
    fuel: nat,
) -> Option<(Result<Option<Ex>, Seq<char>>, nat)>
    decreases fuel, k + 1,
{
    if k == 0 || k > fs.len() {
        Some((Ok(acc), n))
    } else {
        match parse(c, fs[k - 1].1, tmp(b, 7, span), span, n, fuel) {
            Some((Ok(v), n2)) => field_chain(c, fs, (k - 1) as nat, Some(field_if(b, fs[k - 1].0, v, acc, span)), b, span, n2, fuel),
            Some((Err(m), n2)) => Some((Err(m), n2)),
            None => None,
        }
    }
}

/// Whether the deserialization of `t` is finite: nested struct fields and map
/// values do not lead back to the same type forever.
pub open spec fn parse_finite(c: Ctx, t: Ty, arg: Ex, span: Span) -> bool {
    exists|fuel: nat| parse(statics(c), t, arg, span, c.next_temp, fuel) is Some
}

/// The deserialization of `arg` into `t` in context `c` (when it is finite).
pub open spec fn spec_json_parse(c: Ctx, t: Ty, arg: Ex, span: Span) -> SerStep {
    parse(statics(c), t, arg, span, c.next_temp, choose|fuel: nat| parse(statics(c), t, arg, span, c.next_temp, fuel) is Some).unwrap()
}

// ---------------------------------------------------------------------------
// Counter monotonicity
// ---------------------------------------------------------------------------

pub proof fn lemma_parse_counter(c: Ctx, t: Ty, arg: Ex, span: Span, n: nat, fuel: nat)
    ensures
        parse(c, t, arg, span, n, fuel) matches Some((_, n2)) ==> n <= n2,
    decreases fuel, 0nat,
{
    if fuel > 0 {
        if let Ty::Named(name, args) = t {
            if name == "HashMap"@ && args.len() == 2 {
                let vt = spec_substitute(args[1], c.subst);
                lemma_parse_counter(c, vt, tmp(n, 7, span), span, n + 10, (fuel - 1) as nat);
            } else if name != "String"@ && spec_lookup_struct(c, name) is Some && args.len() == 0 {
                let fs = spec_lookup_struct(c, name).unwrap();
                lemma_chain_counter(c, fs, fs.len(), None, n, span, n + 8, (fuel - 1) as nat);
            }
        }
    }
}

pub proof fn lemma_chain_counter(
    c: Ctx,
    fs: Seq<(Seq<char>, Ty)>,
    k: nat,
    acc: Option<Ex>,
    b: nat,
    span: Span,
    n: nat,
    fuel: nat,
)
    ensures
        field_chain(c, fs, k, acc, b, span, n, fuel) matches Some((_, n2)) ==> n <= n2,
    decreases fuel, k + 1,
{
    if k > 0 && k <= fs.len() {
        lemma_parse_counter(c, fs[k - 1].1, tmp(b, 7, span), span, n, fuel);
        if let Some((Ok(v), n2)) = parse(c, fs[k - 1].1, tmp(b, 7, span), span, n, fuel) {
            lemma_chain_counter(c, fs, (k - 1) as nat, Some(field_if(b, fs[k - 1].0, v, acc, span)), b, span, n2, fuel);
        }
    }
}

// ---------------------------------------------------------------------------
// The desugaring
// ---------------------------------------------------------------------------

pub open spec fn opt_view(o: Option<AstExpr>) -> Option<Ex> {
    match o {
        Some(e) => Some(e@),
        None => None,
    }
}

/// Whether `names[k]` is the temporary `b + k` for every `k < count`.
pub open spec fn temps_from(names: Seq<String>, b: nat, count: nat) -> bool {
    names.len() >= count && forall|k: int| 0 <= k < count ==> (#[trigger] names[k])@ == temp_name(b + k as nat)
}

/// `count` fresh temporaries, in order.
pub(crate) fn fresh_temps(ctx: &mut TypeContext, count: usize) -> (r: Vec<String>)
    requires
        old(ctx)@.next_temp + count <= usize::MAX,
    ensures
        r@.len() == count,
        temps_from(r@, old(ctx)@.next_temp, count as nat),
        final(ctx)@ == (Ctx { next_temp: old(ctx)@.next_temp + count as nat, ..old(ctx)@ }),
{
    let ghost c0 = ctx@;
    let mut out: Vec<String> = Vec::new();
    let mut i: usize = 0;
    while i < count
        invariant
            i <= count,
            c0.next_temp + count <= usize::MAX,
            out@.len() == i,
            temps_from(out@, c0.next_temp, i as nat),
            ctx@ == (Ctx { next_temp: c0.next_temp + i as nat, ..c0 }),
        decreases count - i,
    {
        let t = ctx.fresh_temp();
        out.push(t);
        i += 1;
    }
    out
}

pub(crate) fn tmp_ast(names: &Vec<String>, k: usize, span: Span, Ghost(b): Ghost<nat>) -> (r: AstExpr)
    requires
        k < names@.len(),
        names@[k as int]@ == temp_name(b + k as nat),
    ensures
        r@ == tmp(b, k as nat, span),
{
    ident_ast(&names[k], span)
}

pub(crate) fn string_from_ast(arg: &AstExpr, span: Span) -> (r: AstExpr)
    ensures
        r@ == string_from(arg@, span),
{
    let segs = vec!["String".to_string(), "from".to_string()];
    assert(view_strings(segs@) =~= seq!["String"@, "from"@]);
    mk_path_call(segs, vec1(clone_expr(arg)), span)
}

pub(crate) fn key_slice_ast(names: &Vec<String>, span: Span, Ghost(b): Ghost<nat>) -> (r: AstExpr)
    requires
        temps_from(names@, b, 6),
    ensures
        r@ == key_slice(b, span),
{
    let a = vec2(mk_int(0, span), tmp_ast(names, 5, span, Ghost(b)));
    mk_method_call(tmp_ast(names, 4, span, Ghost(b)), "substring".to_string(), a, span)
}

pub(crate) fn val_slice_ast(names: &Vec<String>, span: Span, Ghost(b): Ghost<nat>) -> (r: AstExpr)
    requires
        temps_from(names@, b, 6),
    ensures
        r@ == val_slice(b, span),
{
    let from = mk_binary(BinaryOp::Add, tmp_ast(names, 5, span, Ghost(b)), mk_int(1, span), span);
    let len = mk_method_call(tmp_ast(names, 4, span, Ghost(b)), "len".to_string(), vec0(), span);
    mk_method_call(tmp_ast(names, 4, span, Ghost(b)), "substring".to_string(), vec2(from, len), span)
}

pub(crate) fn when_colon_ast(names: &Vec<String>, stmts: Vec<AstStmt>, span: Span, Ghost(b): Ghost<nat>) -> (r: AstExpr)
    requires
        temps_from(names@, b, 6),
    ensures
        r@ == when_colon(b, view_stmts(stmts@), span),
{
    let cond = chain2_ast(tmp_ast(names, 5, span, Ghost(b)), CompareOp::Ge, mk_int(0, span), span);
    mk_if(cond, mk_block(stmts, None, span), None, span)
}

fn entry_loop_ast(names: &Vec<String>, body: AstExpr, span: Span, Ghost(b): Ghost<nat>) -> (r: AstExpr)
    requires
        temps_from(names@, b, 6),
    ensures
        r@ == entry_loop(b, body@, span),
{
    let find = mk_method_call(tmp_ast(names, 4, span, Ghost(b)), "find".to_string(), vec1(lit_ast(":", span)), span);
    assert(names@[5]@ == temp_name(b + 5));
    assert(names@[4]@ == temp_name(b + 4));
    let s1 = mk_let(names[5].clone(), find, false);
    let s2 = mk_semi(body);
    let ghost v1 = s1@;
    let ghost v2 = s2@;
    let stmts = vec![s1, s2];
    proof {
        crate::ast::lemma_view_stmts(stmts@);
    }
    assert(view_stmts(stmts@) =~= seq![v1, v2]);
    let pat = crate::ast::AstPattern::Ident(names[4].clone());
    assert(pat@ == Pat::Ident(temp_name(b + 4)));
    mk_for(pat, tmp_ast(names, 2, span, Ghost(b)), mk_block(stmts, None, span), span)
}

fn entries_block_ast(
    arg: &AstExpr,
    names: &Vec<String>,
    anno: AstType,
    init: AstExpr,
    body: AstExpr,
    span: Span,
    Ghost(b): Ghost<nat>,
) -> (r: AstExpr)
    requires
        temps_from(names@, b, 6),
    ensures
        r@ == entries_block(arg@, b, anno@, init@, body@, span),
{
    assert(names@[0]@ == temp_name(b + 0));
    assert(names@[1]@ == temp_name(b + 1));
    assert(names@[2]@ == temp_name(b + 2));
    assert(names@[3]@ == temp_name(b + 3));
    let s1 = mk_let(names[0].clone(), string_from_ast(arg, span), false);
    let len = mk_method_call(tmp_ast(names, 0, span, Ghost(b)), "len".to_string(), vec0(), span);
    let upto = mk_binary(BinaryOp::Sub, len, mk_int(1, span), span);
    let sub = mk_method_call(tmp_ast(names, 0, span, Ghost(b)), "substring".to_string(), vec2(mk_int(1, span), upto), span);
    let s2 = mk_let(names[1].clone(), sub, false);
    let split = mk_method_call(tmp_ast(names, 1, span, Ghost(b)), "split".to_string(), vec1(lit_ast(",", span)), span);
    let s3 = mk_let(names[2].clone(), split, false);
    let s4 = mk_let_typed(names[3].clone(), anno, init, true);
    let s5 = mk_semi(entry_loop_ast(names, body, span, Ghost(b)));
    let ghost v1 = s1@;
    let ghost v2 = s2@;
    let ghost v3 = s3@;
    let ghost v4 = s4@;
    let ghost v5 = s5@;
    let stmts = vec![s1, s2, s3, s4, s5];
    proof {
        crate::ast::lemma_view_stmts(stmts@);
    }
    assert(view_stmts(stmts@) =~= seq![v1, v2, v3, v4, v5]);
    let out = tmp_ast(names, 3, span, Ghost(b));
    mk_block_expr(mk_block(stmts, Some(out), span), span)
}

pub(crate) fn key_parse_ast(key_is_i64: bool, names: &Vec<String>, span: Span, Ghost(b): Ghost<nat>) -> (r: AstExpr)
    requires
        temps_from(names@, b, 7),
    ensures
        r@ == key_parse(key_is_i64, b, span),
{
    let k = mk_ident_call("json_unescape".to_string(), vec1(tmp_ast(names, 6, span, Ghost(b))), span);
    if key_is_i64 {
        mk_ident_call("string_to_int".to_string(), vec1(k), span)
    } else {
        k
    }
}

/// The statements of a map entry.
pub open spec fn map_entry(key_is_i64: bool, val: Ex, b: nat, span: Span) -> Seq<St> {
    seq![
        let_ident(temp_name(b + 6), key_slice(b, span), false),
        let_ident(temp_name(b + 7), val_slice(b, span), false),
        let_ident(temp_name(b + 8), key_parse(key_is_i64, b, span), false),
        let_ident(temp_name(b + 9), val, false),
        semi(mcall(tmp(b, 3, span), "insert"@, seq![tmp(b, 8, span), tmp(b, 9, span)], span)),
    ]
}

pub(crate) fn map_entry_ast(key_is_i64: bool, val: AstExpr, names: &Vec<String>, span: Span, Ghost(b): Ghost<nat>) -> (r: Vec<AstStmt>)
    requires
        temps_from(names@, b, 10),
    ensures
        view_stmts(r@) == map_entry(key_is_i64, val@, b, span),
{
    assert(names@[6]@ == temp_name(b + 6));
    assert(names@[7]@ == temp_name(b + 7));
    assert(names@[8]@ == temp_name(b + 8));
    assert(names@[9]@ == temp_name(b + 9));
    let s1 = mk_let(names[6].clone(), key_slice_ast(names, span, Ghost(b)), false);
    let s2 = mk_let(names[7].clone(), val_slice_ast(names, span, Ghost(b)), false);
    let s3 = mk_let(names[8].clone(), key_parse_ast(key_is_i64, names, span, Ghost(b)), false);
    let s4 = mk_let(names[9].clone(), val, false);
    let ins = mk_method_call(
        tmp_ast(names, 3, span, Ghost(b)),
        "insert".to_string(),
        vec2(tmp_ast(names, 8, span, Ghost(b)), tmp_ast(names, 9, span, Ghost(b))),
        span,
    );
    let s5 = mk_semi(ins);
    let ghost v1 = s1@;
    let ghost v2 = s2@;
    let ghost v3 = s3@;
    let ghost v4 = s4@;
    let ghost v5 = s5@;
    let stmts = vec![s1, s2, s3, s4, s5];
    proof {
        crate::ast::lemma_view_stmts(stmts@);
    }
    assert(view_stmts(stmts@) =~= seq![v1, v2, v3, v4, v5]);
    stmts
}

fn map_parse_ast(
    arg: &AstExpr,
    key_is_i64: bool,
    kt: &Type,
    vt: &Type,
    val: AstExpr,
    names: &Vec<String>,
    span: Span,
    Ghost(b): Ghost<nat>,
) -> (r: AstExpr)
    requires
        temps_from(names@, b, 10),
    ensures
        r@ == map_parse(arg@, key_is_i64, kt@, vt@, val@, b, span),
{
    let stmts = map_entry_ast(key_is_i64, val, names, span, Ghost(b));
    let body = when_colon_ast(names, stmts, span, Ghost(b));
    let targs = vec![ty_to_ast(kt), ty_to_ast(vt)];
    proof {
        crate::ast::lemma_view_atypes(targs@);
    }
    assert(view_atypes(targs@) =~= seq![spec_ty_to_ast(kt@), spec_ty_to_ast(vt@)]);
    let anno = AstType::Path("HashMap".to_string(), targs);
    let segs = vec!["HashMap".to_string(), "new".to_string()];
    assert(view_strings(segs@) =~= seq!["HashMap"@, "new"@]);
    let init = mk_path_call(segs, vec0(), span);
    entries_block_ast(arg, names, anno, init, body, span, Ghost(b))
}

pub(crate) fn field_if_ast(
    names: &Vec<String>,
    f: &String,
    v: AstExpr,
    inner: Option<AstExpr>,
    span: Span,
    Ghost(b): Ghost<nat>,
) -> (r: AstExpr)
    requires
        temps_from(names@, b, 7),
    ensures
        r@ == field_if(b, f@, v@, opt_view(inner), span),
{
    let cond = chain2_ast(tmp_ast(names, 6, span, Ghost(b)), CompareOp::Eq, lit_ast(f.as_str(), span), span);
    let target = mk_field(tmp_ast(names, 3, span, Ghost(b)), f.clone(), span);
    let then_block = semi_block(mk_assign(target, v, span), span);
    let else_block = mk_block(Vec::new(), inner, span);
    assert(view_stmts(Seq::<AstStmt>::empty()) =~= Seq::<St>::empty());
    mk_if(cond, then_block, Some(else_block), span)
}

fn struct_parse_ast(
    arg: &AstExpr,
    name: &String,
    inits: Vec<(String, AstExpr)>,
    chain: AstExpr,
    names: &Vec<String>,
    span: Span,
    Ghost(b): Ghost<nat>,
) -> (r: AstExpr)
    requires
        temps_from(names@, b, 8),
    ensures
        r@ == struct_parse(arg@, name@, view_inits(inits@), chain@, b, span),
{
    assert(names@[6]@ == temp_name(b + 6));
    assert(names@[7]@ == temp_name(b + 7));
    let key = mk_ident_call("json_unescape".to_string(), vec1(key_slice_ast(names, span, Ghost(b))), span);
    let s1 = mk_let(names[6].clone(), key, false);
    let s2 = mk_let(names[7].clone(), val_slice_ast(names, span, Ghost(b)), false);
    let s3 = mk_semi(chain);
    let ghost v1 = s1@;
    let ghost v2 = s2@;
    let ghost v3 = s3@;
    let stmts = vec![s1, s2, s3];
    proof {
        crate::ast::lemma_view_stmts(stmts@);
    }
    assert(view_stmts(stmts@) =~= seq![v1, v2, v3]);
    let body = when_colon_ast(names, stmts, span, Ghost(b));
    let anno = AstType::Path(name.clone(), Vec::new());
    assert(view_atypes(Seq::<AstType>::empty()) =~= Seq::<AType>::empty());
    let segs = vec![name.clone()];
    assert(view_strings(segs@) =~= seq![name@]);
    let init = mk_struct_ctor(segs, atypes0(), inits, span);
    entries_block_ast(arg, names, anno, init, body, span, Ghost(b))
}

pub(crate) fn msg_string(prefix: &str, t: &Type, suffix: &str) -> (r: String)
    ensures
        r@ == prefix@ + render(t@) + suffix@,
{
    let mut s = prefix.to_string();
    push_type(&mut s, t);
    s.append(suffix);
    s
}

/// The field tests of fields `k - 1` down to `0` (see `field_chain`).
fn field_chain_from(
    ctx: &mut TypeContext,
    fs: &Vec<(String, Type)>,
    k: usize,
    acc: Option<AstExpr>,
    names: &Vec<String>,
    span: Span,
    Ghost(b): Ghost<nat>,
    Ghost(fuel): Ghost<nat>,
) -> (r: Result<Option<AstExpr>, TypeError>)
    requires
        k <= fs@.len(),
        temps_from(names@, b, 8),
        field_chain(statics(old(ctx)@), fields_view(fs@), k as nat, opt_view(acc), b, span, old(ctx)@.next_temp, fuel) matches Some((_, n2)) && n2 <= usize::MAX,
    ensures
        field_chain(statics(old(ctx)@), fields_view(fs@), k as nat, opt_view(acc), b, span, old(ctx)@.next_temp, fuel) matches Some((res, n2)) && final(ctx)@ == (Ctx {
            next_temp: n2,
            ..old(ctx)@
        }) && match res {
            Ok(ch) => r matches Ok(x) && ch == opt_view(x),
            Err(m) => r matches Err(TypeError::Unsupported { what, span: sp }) && what@ == m && sp == span,
        },
    decreases fuel, k + 1,
{
    let ghost cs = statics(ctx@);
    let ghost fsv = fields_view(fs@);
    let ghost accv = opt_view(acc);
    if k == 0 {
        return Ok(acc);
    }
    assert(fsv[k - 1] == (fs@[k - 1].0@, fs@[k - 1].1@));
    let val_id = tmp_ast(names, 7, span, Ghost(b));
    let ghost n0 = ctx@.next_temp;
    proof {
        lemma_parse_counter(cs, fsv[k - 1].1, tmp(b, 7, span), span, n0, fuel);
        if let Some((Ok(v), n2)) = parse(cs, fsv[k - 1].1, tmp(b, 7, span), span, n0, fuel) {
            lemma_chain_counter(cs, fsv, (k - 1) as nat, Some(field_if(b, fsv[k - 1].0, v, accv, span)), b, span, n2, fuel);
        }
    }
    match json_parse_rec(ctx, &fs[k - 1].1, &val_id, span, Ghost(fuel)) {
        Ok(v) => {
            let next = field_if_ast(names, &fs[k - 1].0, v, acc, span, Ghost(b));
            field_chain_from(ctx, fs, k - 1, Some(next), names, span, Ghost(b), Ghost(fuel))
        },
        Err(e) => Err(e),
    }
}

fn json_parse_rec(ctx: &mut TypeContext, ty: &Type, arg: &AstExpr, span: Span, Ghost(fuel): Ghost<nat>) -> (r: Result<AstExpr, TypeError>)
    requires
        parse(statics(old(ctx)@), ty@, arg@, span, old(ctx)@.next_temp, fuel) matches Some((_, n2)) && n2 <= usize::MAX,
    ensures
        parse(statics(old(ctx)@), ty@, arg@, span, old(ctx)@.next_temp, fuel) matches Some((res, n2))
            && final(ctx)@ == (Ctx { next_temp: n2, ..old(ctx)@ }) && step_matches(r, res, span),
    decreases fuel, 0nat,
{
    let ghost cs = statics(ctx@);
    let ghost n0 = ctx@.next_temp;
    match ty {
        Type::I64 => Ok(mk_ident_call("string_to_int".to_string(), vec1(string_from_ast(arg, span)), span)),
        Type::Bool => {
            let cond = chain2_ast(string_from_ast(arg, span), CompareOp::Eq, lit_ast("true", span), span);
            let tb = mk_block(Vec::new(), Some(mk_bool(true, span)), span);
            let eb = mk_block(Vec::new(), Some(mk_bool(false, span)), span);
            assert(view_stmts(Seq::<AstStmt>::empty()) =~= Seq::<St>::empty());
            Ok(mk_if(cond, tb, Some(eb), span))
        },
        Type::Named(name, args) => {
            assert(ty@ == Ty::Named(name@, view_types(args@)));
            if string_is(name, "String") {
                Ok(mk_ident_call("json_unescape".to_string(), vec1(string_from_ast(arg, span)), span))
            } else if string_is(name, "HashMap") && args.len() == 2 {
                assert(view_types(args@)[0] == args@[0]@);
                assert(view_types(args@)[1] == args@[1]@);
                let kt = substitute(&args[0], &ctx.generic_subst);
                let vt = substitute(&args[1], &ctx.generic_subst);
                if matches!(kt, Type::Infer) || matches!(vt, Type::Infer) {
                    return Err(TypeError::Unsupported {
                        what: "json.parse：HashMap 键/值类型未确定（turbofish 显式定型，如 `json.parse::<HashMap<i64, i64>>(s)`）".to_string(),
                        span,
                    });
                }
                let key_is_i64 = matches!(kt, Type::I64);
                let key_is_string = match &kt {
                    Type::Named(kn, _) => string_is(kn, "String"),
                    _ => false,
                };
                if !key_is_i64 && !key_is_string {
                    return Err(TypeError::Unsupported {
                        what: msg_string("json.parse：HashMap 键类型 `", &kt, "`（MVP 支持 i64 / String）"),
                        span,
                    });
                }
                let nested = match &vt {
                    Type::Named(vn, _) => string_is(vn, "HashMap"),
                    _ => false,
                };
                if nested {
                    return Err(TypeError::Unsupported {
                        what: "json.parse：嵌套 HashMap 值反序列化（MVP 支持标量值 i64 / bool / String）".to_string(),
                        span,
                    });
                }
                proof {
                    lemma_parse_counter(cs, vt@, tmp(n0, 7, span), span, n0 + 10, (fuel - 1) as nat);
                }
                let names = fresh_temps(ctx, 10);
                let vpart = tmp_ast(&names, 7, span, Ghost(n0));
                match json_parse_rec(ctx, &vt, &vpart, span, Ghost((fuel - 1) as nat)) {
                    Ok(val) => Ok(map_parse_ast(arg, key_is_i64, &kt, &vt, val, &names, span, Ghost(n0))),
                    Err(e) => Err(e),
                }
            } else if ctx.lookup_struct(name).is_some() && args.len() == 0 {
                assert(spec_lookup_struct(cs, name@) == spec_lookup_struct(ctx@, name@));
                let fs = match ctx.lookup_struct(name) {
                    Some(d) => clone_fields(&d.fields),
                    None => Vec::new(),
                };
                let ghost fsv = fields_view(fs@);
                assert(fsv == spec_lookup_struct(cs, name@).unwrap());
                if fs.len() == 0 {
                    let mut what = "json.parse：空结构体 `".to_string();
                    what.append(name.as_str());
                    what.append("` 反序列化");
                    return Err(TypeError::Unsupported { what, span });
                }
                let ghost f = (fuel - 1) as nat;
                proof {
                    lemma_chain_counter(cs, fsv, fsv.len(), None, n0, span, n0 + 8, f);
                }
                let names = fresh_temps(ctx, 8);
                assert(zero_inits(statics(ctx@), fsv, 0, span, f) == zero_inits(cs, fsv, 0, span, f));
                let inits = match zero_inits_from(ctx, &fs, 0, span, Ghost(f)) {
                    Ok(v) => v,
                    Err(e) => return Err(e),
                };
                assert(statics(ctx@) == cs);
                match field_chain_from(ctx, &fs, fs.len(), None, &names, span, Ghost(n0), Ghost(f)) {
                    Ok(Some(ch)) => Ok(struct_parse_ast(arg, name, inits, ch, &names, span, Ghost(n0))),
                    Ok(None) => {
                        proof {
                            lemma_field_chain_some(cs, fsv, fsv.len(), None, n0, span, n0 + 8, f);
                        }
                        Err(TypeError::Unsupported { what: msg_string("json.parse：类型 `", ty, "` 反序列化"), span })
                    },
                    Err(e) => Err(e),
                }
            } else {
                Err(TypeError::Unsupported { what: msg_string("json.parse：类型 `", ty, "` 反序列化"), span })
            }
        },
        _ => Err(TypeError::Unsupported { what: msg_string("json.parse：类型 `", ty, "` 反序列化"), span }),
    }
}

/// A chain over at least one field is a test.
pub proof fn lemma_field_chain_some(
    c: Ctx,
    fs: Seq<(Seq<char>, Ty)>,
    k: nat,
    acc: Option<Ex>,
    b: nat,
    span: Span,
    n: nat,
    fuel: nat,
)
    requires
        (k > 0 && k <= fs.len()) || acc is Some,
    ensures
        field_chain(c, fs, k, acc, b, span, n, fuel) matches Some((Ok(ch), _)) ==> ch is Some,
    decreases k,
{
    if k > 0 && k <= fs.len() {
        if let Some((Ok(v), n2)) = parse(c, fs[k - 1].1, tmp(b, 7, span), span, n, fuel) {
            lemma_field_chain_some(c, fs, (k - 1) as nat, Some(field_if(b, fs[k - 1].0, v, acc, span)), b, span, n2, fuel);
        }
    }
}

/// The desugaring of `json.parse::<T>(arg)` for the target type `ty`:
/// `string_to_int(String::from(arg))` for `i64`;
/// `if String::from(arg) == "true" { true } else { false }` for `bool`;
/// `json_unescape(String::from(arg))` for `String`; for `HashMap<K, V>` (keys
/// `i64` or `String`, values not maps) and for structs without type arguments, a
/// block that strips the outer braces, splits the text at `,`, splits each part
/// at its first `:` and inserts the entry (maps) or assigns the field of that
/// name (structs, whose other fields keep their zero values). Other types, and
/// maps whose key or value types are still undetermined, are unsupported.
pub fn json_parse_ast(ctx: &mut TypeContext, ty: &Type, arg: &AstExpr, span: Span) -> (r: Result<AstExpr, TypeError>)
    requires
        parse_finite(old(ctx)@, ty@, arg@, span),
        spec_json_parse(old(ctx)@, ty@, arg@, span).1 <= usize::MAX,
    ensures
        final(ctx)@ == (Ctx { next_temp: spec_json_parse(old(ctx)@, ty@, arg@, span).1, ..old(ctx)@ }),
        step_matches(r, spec_json_parse(old(ctx)@, ty@, arg@, span).0, span),
{
    let ghost fuel = choose|fuel: nat| parse(statics(ctx@), ty@, arg@, span, ctx@.next_temp, fuel) is Some;
    json_parse_rec(ctx, ty, arg, span, Ghost(fuel))
}

// ---------------------------------------------------------------------------
// Strict parsing
// ---------------------------------------------------------------------------

/// The validity test of the JSON text `s` for the target type `t`, with the
/// message of the error it reports (`None` for unsupported targets):
/// `parse_int_strict(s).is_ok() == 1` for `i64`; `s == "true" || s == "false"`
/// for `bool`; `json_unescape_checked(s).is_ok() == 1` for `String`; for other
/// named types (maps and structs) that the text is at least two characters long,
/// starts with `{` and ends with `}`.
pub open spec fn try_check(t: Ty, s: Ex, span: Span) -> Option<(Ex, Seq<char>)> {
    match t {
        Ty::I64 => Some((
            chain2(mcall(spec_ident_call("parse_int_strict"@, seq![s], span), "is_ok"@, Seq::empty(), span), CompareOp::Eq, int_lit(1, span), span),
            "invalid integer"@,
        )),
        Ty::Bool => Some((
            bin(BinaryOp::Or, chain2(s, CompareOp::Eq, lit("true"@, span), span), chain2(s, CompareOp::Eq, lit("false"@, span), span), span),
            "invalid bool"@,
        )),
        Ty::Named(name, _) => if name == "String"@ {
            Some((
                chain2(mcall(spec_ident_call("json_unescape_checked"@, seq![s], span), "is_ok"@, Seq::empty(), span), CompareOp::Eq, int_lit(1, span), span),
                "invalid string"@,
            ))
        } else {
            Some((object_check(s, span), "invalid object"@))
        },
        _ => None,
    }
}

/// `s.len() >= 2 && s.get(0) == 123 && s.get(s.len() - 1) == 125`: the text
/// starts with `{` and ends with `}`.
pub open spec fn object_check(s: Ex, span: Span) -> Ex {
    let len = mcall(s, "len"@, Seq::empty(), span);
    let first = chain2(mcall(s, "get"@, seq![int_lit(0, span)], span), CompareOp::Eq, int_lit(123, span), span);
    let last = chain2(mcall(s, "get"@, seq![bin(BinaryOp::Sub, len, int_lit(1, span), span)], span), CompareOp::Eq, int_lit(125, span), span);
    bin(BinaryOp::And, bin(BinaryOp::And, chain2(len, CompareOp::Ge, int_lit(2, span), span), first, span), last, span)
}

/// `{ let s = String::from(arg); if <cond> { Result::Ok(<parse>) } else {
///    Result::Err(serde::JsonError::ParseError("<msg>")) } }` with temporary `n`.
pub open spec fn try_block(arg: Ex, n: nat, cond: Ex, parsed: Ex, msg: Seq<char>, span: Span) -> Ex {
    let ok = spec_path_call(seq!["Result"@, "Ok"@], seq![parsed], span);
    let err = spec_path_call(
        seq!["Result"@, "Err"@],
        seq![spec_path_call(seq!["serde"@, "JsonError"@, "ParseError"@], seq![lit(msg, span)], span)],
        span,
    );
    ex(ExK::Block(blk(
        seq![let_ident(temp_name(n), string_from(arg, span), false)],
        Some(ex(ExK::If(Box::new(cond), blk(Seq::empty(), Some(ok), span), Some(blk(Seq::empty(), Some(err), span))), span)),
        span,
    )), span)
}

pub open spec fn msg_try_other(t: Ty) -> Seq<char> {
    "json.try_parse：类型 `"@ + render(t) + "` 反序列化"@
}

/// The strict deserialization of `arg` into `t` from temporary counter `n`.
pub open spec fn try_parse(c: Ctx, t: Ty, arg: Ex, span: Span, n: nat, fuel: nat) -> Option<SerStep> {
    match try_check(t, tmp(n, 0, span), span) {
        None => Some((Err(msg_try_other(t)), n + 1)),
        Some((cond, msg)) => match parse(c, t, tmp(n, 0, span), span, n + 1, fuel) {
            Some((Ok(p), n2)) => Some((Ok(try_block(arg, n, cond, p, msg, span)), n2)),
            Some((Err(m), n2)) => Some((Err(m), n2)),
            None => None,
        },
    }
}

pub open spec fn try_finite(c: Ctx, t: Ty, arg: Ex, span: Span) -> bool {
    exists|fuel: nat| try_parse(statics(c), t, arg, span, c.next_temp, fuel) is Some
}

pub open spec fn spec_json_try_parse(c: Ctx, t: Ty, arg: Ex, span: Span) -> SerStep {
    try_parse(statics(c), t, arg, span, c.next_temp, choose|fuel: nat| try_parse(statics(c), t, arg, span, c.next_temp, fuel) is Some).unwrap()
}

pub(crate) fn is_ok_eq_one(call: AstExpr, span: Span) -> (r: AstExpr)
    ensures
        r@ == chain2(mcall(call@, "is_ok"@, Seq::empty(), span), CompareOp::Eq, int_lit(1, span), span),
{
    chain2_ast(mk_method_call(call, "is_ok".to_string(), vec0(), span), CompareOp::Eq, mk_int(1, span), span)
}

fn object_check_ast(s_name: &String, span: Span) -> (r: AstExpr)
    ensures
        r@ == object_check(ident(s_name@, span), span),
{
    let len = mk_method_call(ident_ast(s_name, span), "len".to_string(), vec0(), span);
    let len_ge2 = chain2_ast(len, CompareOp::Ge, mk_int(2, span), span);
    let g0 = mk_method_call(ident_ast(s_name, span), "get".to_string(), vec1(mk_int(0, span)), span);
    let first = chain2_ast(g0, CompareOp::Eq, mk_int(123, span), span);
    let len2 = mk_method_call(ident_ast(s_name, span), "len".to_string(), vec0(), span);
    let lastidx = mk_binary(BinaryOp::Sub, len2, mk_int(1, span), span);
    let gl = mk_method_call(ident_ast(s_name, span), "get".to_string(), vec1(lastidx), span);
    let last = chain2_ast(gl, CompareOp::Eq, mk_int(125, span), span);
    mk_binary(BinaryOp::And, mk_binary(BinaryOp::And, len_ge2, first, span), last, span)
}

fn try_check_ast(ty: &Type, s_name: &String, span: Span) -> (r: Option<(AstExpr, &'static str)>)
    ensures
        match try_check(ty@, ident(s_name@, span), span) {
            None => r is None,
            Some((c, m)) => r matches Some((x, ms)) && x@ == c && ms@ == m,
        },
{
    proof {
        reveal_strlit("invalid integer");
        reveal_strlit("invalid bool");
        reveal_strlit("invalid string");
        reveal_strlit("invalid object");
    }
    match ty {
        Type::I64 => {
            let call = mk_ident_call("parse_int_strict".to_string(), vec1(ident_ast(s_name, span)), span);
            Some((is_ok_eq_one(call, span), "invalid integer"))
        },
        Type::Bool => {
            let t = chain2_ast(ident_ast(s_name, span), CompareOp::Eq, lit_ast("true", span), span);
            let f = chain2_ast(ident_ast(s_name, span), CompareOp::Eq, lit_ast("false", span), span);
            Some((mk_binary(BinaryOp::Or, t, f, span), "invalid bool"))
        },
        Type::Named(name, _) => {
            if string_is(name, "String") {
                let call = mk_ident_call("json_unescape_checked".to_string(), vec1(ident_ast(s_name, span)), span);
                Some((is_ok_eq_one(call, span), "invalid string"))
            } else {
                Some((object_check_ast(s_name, span), "invalid object"))
            }
        },
        _ => None,
    }
}

fn try_block_ast(arg: &AstExpr, s_name: String, cond: AstExpr, parsed: AstExpr, msg: &str, span: Span, Ghost(n): Ghost<nat>) -> (r: AstExpr)
    requires
        s_name@ == temp_name(n),
    ensures
        r@ == try_block(arg@, n, cond@, parsed@, msg@, span),
{
    let okp = vec!["Result".to_string(), "Ok".to_string()];
    assert(view_strings(okp@) =~= seq!["Result"@, "Ok"@]);
    let ok = mk_path_call(okp, vec1(parsed), span);
    let pe = vec!["serde".to_string(), "JsonError".to_string(), "ParseError".to_string()];
    assert(view_strings(pe@) =~= seq!["serde"@, "JsonError"@, "ParseError"@]);
    let perr = mk_path_call(pe, vec1(lit_ast(msg, span)), span);
    let errp = vec!["Result".to_string(), "Err".to_string()];
    assert(view_strings(errp@) =~= seq!["Result"@, "Err"@]);
    let err = mk_path_call(errp, vec1(perr), span);
    assert(view_stmts(Seq::<AstStmt>::empty()) =~= Seq::<St>::empty());
    let ife = mk_if(cond, mk_block(Vec::new(), Some(ok), span), Some(mk_block(Vec::new(), Some(err), span)), span);
    let st = mk_let(s_name, string_from_ast(arg, span), false);
    let ghost sv = st@;
    let stmts = vec![st];
    proof {
        crate::ast::lemma_view_stmts(stmts@);
    }
    assert(view_stmts(stmts@) =~= seq![sv]);
    mk_block_expr(mk_block(stmts, Some(ife), span), span)
}

fn try_parse_rec(ctx: &mut TypeContext, ty: &Type, arg: &AstExpr, span: Span, Ghost(fuel): Ghost<nat>) -> (r: Result<AstExpr, TypeError>)
    requires
        try_parse(statics(old(ctx)@), ty@, arg@, span, old(ctx)@.next_temp, fuel) matches Some((_, n2)) && n2 <= usize::MAX,
    ensures
        try_parse(statics(old(ctx)@), ty@, arg@, span, old(ctx)@.next_temp, fuel) matches Some((res, n2))
            && final(ctx)@ == (Ctx { next_temp: n2, ..old(ctx)@ }) && step_matches(r, res, span),
{
    let ghost cs = statics(ctx@);
    let ghost n0 = ctx@.next_temp;
    proof {
        lemma_parse_counter(cs, ty@, tmp(n0, 0, span), span, n0 + 1, fuel);
    }
    let s_name = ctx.fresh_temp();
    let (cond, msg) = match try_check_ast(ty, &s_name, span) {
        Some(cm) => cm,
        None => {
            return Err(TypeError::Unsupported { what: msg_string("json.try_parse：类型 `", ty, "` 反序列化"), span });
        },
    };
    let s_id = ident_ast(&s_name, span);
    match json_parse_rec(ctx, ty, &s_id, span, Ghost(fuel)) {
        Ok(parsed) => Ok(try_block_ast(arg, s_name, cond, parsed, msg, span, Ghost(n0))),
        Err(e) => Err(e),
    }
}

/// The desugaring of `json.try_parse::<T>(arg)`: the text is bound to a
/// temporary and checked strictly for the target type (see `try_check`); valid
/// text gives `Result::Ok(<json.parse of it>)`, other text
/// `Result::Err(JsonError::ParseError("<reason>"))`. Target types other than
/// `i64`, `bool` and named types are unsupported, as are those that
/// `json_parse_ast` does not support.
pub fn json_try_parse_ast(ctx: &mut TypeContext, ty: &Type, arg: &AstExpr, span: Span) -> (r: Result<AstExpr, TypeError>)
    requires
        try_finite(old(ctx)@, ty@, arg@, span),
        spec_json_try_parse(old(ctx)@, ty@, arg@, span).1 <= usize::MAX,
    ensures
        final(ctx)@ == (Ctx { next_temp: spec_json_try_parse(old(ctx)@, ty@, arg@, span).1, ..old(ctx)@ }),
        step_matches(r, spec_json_try_parse(old(ctx)@, ty@, arg@, span).0, span),
{
    let ghost fuel = choose|fuel: nat| try_parse(statics(ctx@), ty@, arg@, span, ctx@.next_temp, fuel) is Some;
    try_parse_rec(ctx, ty, arg, span, Ghost(fuel))
}

/// `json.parse` and `json.try_parse` only advance the temporary counter: the
/// names of the temporaries they create were never handed out before.
pub proof fn law_parse_counter_advances(c: Ctx, t: Ty, arg: Ex, span: Span)
    ensures
        parse_finite(c, t, arg, span) ==> c.next_temp <= spec_json_parse(c, t, arg, span).1,
        try_finite(c, t, arg, span) ==> c.next_temp < spec_json_try_parse(c, t, arg, span).1,
{
    if parse_finite(c, t, arg, span) {
        let fuel = choose|fuel: nat| parse(statics(c), t, arg, span, c.next_temp, fuel) is Some;
        lemma_parse_counter(statics(c), t, arg, span, c.next_temp, fuel);
    }
    if try_finite(c, t, arg, span) {
        let fuel = choose|fuel: nat| try_parse(statics(c), t, arg, span, c.next_temp, fuel) is Some;
        lemma_parse_counter(statics(c), t, tmp(c.next_temp, 0, span), span, c.next_temp + 1, fuel);
    }
}

} // verus!
