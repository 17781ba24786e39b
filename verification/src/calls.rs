//! The built-in calls of the `json` and `toml` modules: their argument checks
//! and the source expressions they stand for. The checker infers the type of
//! that expression (and of the arguments these checks read) itself.
use vstd::prelude::*;
use vstd::string::StringExecFns;
use crate::ast::{AstExpr, AstType, Ex, ExK, clone_atypes, clone_expr, ex, mk_call, mk_method_call, mk_path, vec0, vec1, view_atypes, view_exprs, view_strings};
use crate::context::{Ctx, TypeContext};
use crate::desugar::{mk_path_call, spec_path_call};
use crate::error::{Span, TypeError};
use crate::json_de::{json_parse_ast, json_try_parse_ast, parse_finite, spec_json_parse, spec_json_try_parse, try_finite};
use crate::json_ser::{json_serialize_ast, mcall, ser_finite, spec_json_serialize, step_matches};
use crate::render::{push_type, render};
use crate::text::{ends_with, spec_ends_with, string_is};
use crate::toml_de::{spec_toml_parse, spec_toml_try_parse, toml_parse_ast, toml_try_parse_ast, tparse_finite, ttry_finite};
use crate::ty::{Ty, Type};

verus! {

broadcast use vstd::std_specs::vec::group_vec_axioms, vstd::string::group_string_axioms;

/// The error for a call of `name` with `found` arguments where `expected` are needed.
pub open spec fn is_count_error(r: Result<AstExpr, TypeError>, name: Seq<char>, expected: usize, found: usize, span: Span) -> bool {
    r matches Err(TypeError::UnexpectedArgumentCount { name: n, expected: e, found: f, span: sp }) && n@ == name && e
        == expected && f == found && sp == span
}

/// The error `Unsupported { what }` at `span`.
pub open spec fn is_unsupported(r: Result<AstExpr, TypeError>, what: Seq<char>, span: Span) -> bool {
    r matches Err(TypeError::Unsupported { what: w, span: sp }) && w@ == what && sp == span
}

fn count_error(name: &str, expected: usize, found: usize, span: Span) -> (r: Result<AstExpr, TypeError>)
    ensures
        is_count_error(r, name@, expected, found, span),
{
    Err(TypeError::UnexpectedArgumentCount { name: name.to_string(), expected, found, span })
}

fn unsupported(what: &str, span: Span) -> (r: Result<AstExpr, TypeError>)
    ensures
        is_unsupported(r, what@, span),
{
    Err(TypeError::Unsupported { what: what.to_string(), span })
}

/// `json.stringify(v)`: one argument, serialized by the type `arg_ty` inferred
/// for it (see `json_serialize_ast`).
pub fn check_json_stringify(ctx: &mut TypeContext, args: &[AstExpr], arg_ty: &Type, span: Span) -> (r: Result<AstExpr, TypeError>)
    requires
        args@.len() == 1 ==> ser_finite(old(ctx)@, arg_ty@, args@[0]@, span) && spec_json_serialize(
            old(ctx)@,
            arg_ty@,
            args@[0]@,
            span,
        ).1 <= usize::MAX,
    ensures
        args@.len() != 1 ==> is_count_error(r, "json.stringify"@, 1, args@.len() as usize, span) && final(ctx)@ == old(ctx)@,
        args@.len() == 1 ==> step_matches(r, spec_json_serialize(old(ctx)@, arg_ty@, args@[0]@, span).0, span) && final(ctx)@
            == (Ctx { next_temp: spec_json_serialize(old(ctx)@, arg_ty@, args@[0]@, span).1, ..old(ctx)@ }),
{
    if args.len() != 1 {
        return count_error("json.stringify", 1, args.len(), span);
    }
    json_serialize_ast(ctx, arg_ty, &args[0], span)
}

/// `json.parse::<T>(s)`: one argument and one type argument, whose resolved
/// type is `target` (see `json_parse_ast`).
pub fn check_json_parse(ctx: &mut TypeContext, args: &[AstExpr], type_args: &[AstType], target: &Type, span: Span) -> (r: Result<AstExpr, TypeError>)
    requires
        args@.len() == 1 && type_args@.len() == 1 ==> parse_finite(old(ctx)@, target@, args@[0]@, span) && spec_json_parse(
            old(ctx)@,
            target@,
            args@[0]@,
            span,
        ).1 <= usize::MAX,
    ensures
        args@.len() != 1 ==> is_count_error(r, "json.parse"@, 1, args@.len() as usize, span) && final(ctx)@ == old(ctx)@,
        args@.len() == 1 && type_args@.len() != 1 ==> is_unsupported(
            r,
            "json.parse 需要 1 个类型实参（turbofish `json.parse::<T>(s)`）"@,
            span,
        ) && final(ctx)@ == old(ctx)@,
        args@.len() == 1 && type_args@.len() == 1 ==> step_matches(r, spec_json_parse(old(ctx)@, target@, args@[0]@, span).0, span)
            && final(ctx)@ == (Ctx { next_temp: spec_json_parse(old(ctx)@, target@, args@[0]@, span).1, ..old(ctx)@ }),
{
    if args.len() != 1 {
        return count_error("json.parse", 1, args.len(), span);
    }
    if type_args.len() != 1 {
        return unsupported("json.parse 需要 1 个类型实参（turbofish `json.parse::<T>(s)`）", span);
    }
    json_parse_ast(ctx, target, &args[0], span)
}

/// `json.try_parse::<T>(s)`: one argument and one type argument, whose
/// resolved type is `target` (see `json_try_parse_ast`).
pub fn check_json_try_parse(ctx: &mut TypeContext, args: &[AstExpr], type_args: &[AstType], target: &Type, span: Span) -> (r: Result<AstExpr, TypeError>)
    requires
        args@.len() == 1 && type_args@.len() == 1 ==> try_finite(old(ctx)@, target@, args@[0]@, span) && spec_json_try_parse(
            old(ctx)@,
            target@,
            args@[0]@,
            span,
        ).1 <= usize::MAX,
    ensures
        args@.len() != 1 ==> is_count_error(r, "json.try_parse"@, 1, args@.len() as usize, span) && final(ctx)@ == old(ctx)@,
        args@.len() == 1 && type_args@.len() != 1 ==> is_unsupported(
            r,
            "json.try_parse 需要 1 个类型实参（turbofish `json.try_parse::<T>(s)`）"@,
            span,
        ) && final(ctx)@ == old(ctx)@,
        args@.len() == 1 && type_args@.len() == 1 ==> step_matches(r, spec_json_try_parse(old(ctx)@, target@, args@[0]@, span).0, span)
            && final(ctx)@ == (Ctx { next_temp: spec_json_try_parse(old(ctx)@, target@, args@[0]@, span).1, ..old(ctx)@ }),
{
    if args.len() != 1 {
        return count_error("json.try_parse", 1, args.len(), span);
    }
    if type_args.len() != 1 {
        return unsupported("json.try_parse 需要 1 个类型实参（turbofish `json.try_parse::<T>(s)`）", span);
    }
    json_try_parse_ast(ctx, target, &args[0], span)
}

/// `toml.parse::<T>(s)`: one argument and one type argument, whose resolved
/// type is `target`; the text is a top-level document (see `toml_parse_ast`).
pub fn check_toml_parse(ctx: &mut TypeContext, args: &[AstExpr], type_args: &[AstType], target: &Type, span: Span) -> (r: Result<AstExpr, TypeError>)
    requires
        args@.len() == 1 && type_args@.len() == 1 ==> tparse_finite(old(ctx)@, target@, args@[0]@, span, false) && spec_toml_parse(
            old(ctx)@,
            target@,
            args@[0]@,
            span,
            false,
        ).1 <= usize::MAX,
    ensures
        args@.len() != 1 ==> is_count_error(r, "toml.parse"@, 1, args@.len() as usize, span) && final(ctx)@ == old(ctx)@,
        args@.len() == 1 && type_args@.len() != 1 ==> is_unsupported(
            r,
            "toml.parse 需要 1 个类型实参（turbofish `toml.parse::<T>(s)`）"@,
            span,
        ) && final(ctx)@ == old(ctx)@,
        args@.len() == 1 && type_args@.len() == 1 ==> step_matches(r, spec_toml_parse(old(ctx)@, target@, args@[0]@, span, false).0, span)
            && final(ctx)@ == (Ctx { next_temp: spec_toml_parse(old(ctx)@, target@, args@[0]@, span, false).1, ..old(ctx)@ }),
{
    if args.len() != 1 {
        return count_error("toml.parse", 1, args.len(), span);
    }
    if type_args.len() != 1 {
        return unsupported("toml.parse 需要 1 个类型实参（turbofish `toml.parse::<T>(s)`）", span);
    }
    toml_parse_ast(ctx, target, &args[0], span, false)
}

/// `toml.try_parse::<T>(s)`: one argument and one type argument, whose
/// resolved type is `target` (see `toml_try_parse_ast`).
pub fn check_toml_try_parse(ctx: &mut TypeContext, args: &[AstExpr], type_args: &[AstType], target: &Type, span: Span) -> (r: Result<AstExpr, TypeError>)
    requires
        args@.len() == 1 && type_args@.len() == 1 ==> ttry_finite(old(ctx)@, target@, args@[0]@, span) && spec_toml_try_parse(
            old(ctx)@,
            target@,
            args@[0]@,
            span,
        ).1 <= usize::MAX,
    ensures
        args@.len() != 1 ==> is_count_error(r, "toml.try_parse"@, 1, args@.len() as usize, span) && final(ctx)@ == old(ctx)@,
        args@.len() == 1 && type_args@.len() != 1 ==> is_unsupported(
            r,
            "toml.try_parse 需要 1 个类型实参（turbofish `toml.try_parse::<T>(s)`）"@,
            span,
        ) && final(ctx)@ == old(ctx)@,
        args@.len() == 1 && type_args@.len() == 1 ==> step_matches(r, spec_toml_try_parse(old(ctx)@, target@, args@[0]@, span).0, span)
            && final(ctx)@ == (Ctx { next_temp: spec_toml_try_parse(old(ctx)@, target@, args@[0]@, span).1, ..old(ctx)@ }),
{
    if args.len() != 1 {
        return count_error("toml.try_parse", 1, args.len(), span);
    }
    if type_args.len() != 1 {
        return unsupported("toml.try_parse 需要 1 个类型实参（turbofish `toml.try_parse::<T>(s)`）", span);
    }
    toml_try_parse_ast(ctx, target, &args[0], span)
}

/// Whether a (possibly module-qualified) type name denotes `File`.
pub open spec fn is_file_name(n: Seq<char>) -> bool {
    n == "File"@ || spec_ends_with(n, "::File"@)
}

/// Whether `t` is a file handle: `File`, `&File` or `&mut File`.
pub open spec fn is_file_handle(t: Ty) -> bool {
    match t {
        Ty::Named(n, _) => is_file_name(n),
        Ty::Ref(inner, _) => match *inner {
            Ty::Named(n, _) => is_file_name(n),
            _ => false,
        },
        _ => false,
    }
}

fn is_file_name_exec(n: &String) -> (r: bool)
    ensures
        r == is_file_name(n@),
{
    let a = string_is(n, "File");
    let b = ends_with(n.as_str(), "::File");
    a || b
}

fn is_file_handle_exec(t: &Type) -> (r: bool)
    ensures
        r == is_file_handle(t@),
{
    match t {
        Type::Named(n, args) => {
            assert(t@ == Ty::Named(n@, crate::ty::view_types(args@)));
            is_file_name_exec(n)
        },
        Type::Ref(inner, _) => match &**inner {
            Type::Named(n, args) => {
                assert(inner@ == Ty::Named(n@, crate::ty::view_types(args@)));
                is_file_name_exec(n)
            },
            _ => false,
        },
        _ => false,
    }
}

pub open spec fn msg_writer(t: Ty) -> Seq<char> {
    "json.to_writer：首个参数须为 `File`（MVP；TcpStream 留待流式接线），实为 `"@ + render(t) + "`"@
}

pub open spec fn msg_reader(t: Ty) -> Seq<char> {
    "json.from_reader：首个参数须为 `File`（MVP；TcpStream 留待流式接线），实为 `"@ + render(t) + "`"@
}

/// `w.write_all(json::stringify(v))`
pub open spec fn to_writer_call(w: Ex, v: Ex, span: Span) -> Ex {
    mcall(w, "write_all"@, seq![spec_path_call(seq!["json"@, "stringify"@], seq![v], span)], span)
}

/// `json::parse::<T>(r.read_to_string().unwrap())`
pub open spec fn from_reader_call(rd: Ex, type_args: Seq<crate::ast::AType>, span: Span) -> Ex {
    let read = mcall(mcall(rd, "read_to_string"@, Seq::empty(), span), "unwrap"@, Seq::empty(), span);
    ex(ExK::Call(Box::new(ex(ExK::Path(seq!["json"@, "parse"@]), span)), seq![read], type_args), span)
}

fn with_type(prefix: &str, t: &Type, suffix: &str) -> (r: String)
    ensures
        r@ == prefix@ + render(t@) + suffix@,
{
    let mut s = prefix.to_string();
    push_type(&mut s, t);
    s.append(suffix);
    s
}

/// `json.to_writer(w, v)`: two arguments, the first a file handle (its
/// inferred type is `writer_ty`); it stands for `w.write_all(json.stringify(v))`.
pub fn check_json_to_writer(args: &[AstExpr], writer_ty: &Type, span: Span) -> (r: Result<AstExpr, TypeError>)
    ensures
        args@.len() != 2 ==> is_count_error(r, "json.to_writer"@, 2, args@.len() as usize, span),
        args@.len() == 2 && !is_file_handle(writer_ty@) ==> is_unsupported(r, msg_writer(writer_ty@), span),
        args@.len() == 2 && is_file_handle(writer_ty@) ==> (r matches Ok(e) && e@ == to_writer_call(args@[0]@, args@[1]@, span)),
{
    if args.len() != 2 {
        return count_error("json.to_writer", 2, args.len(), span);
    }
    if !is_file_handle_exec(writer_ty) {
        let what = with_type("json.to_writer：首个参数须为 `File`（MVP；TcpStream 留待流式接线），实为 `", writer_ty, "`");
        return Err(TypeError::Unsupported { what, span });
    }
    let segs = vec!["json".to_string(), "stringify".to_string()];
    assert(view_strings(segs@) =~= seq!["json"@, "stringify"@]);
    let ser = mk_path_call(segs, vec1(clone_expr(&args[1])), span);
    Ok(mk_method_call(clone_expr(&args[0]), "write_all".to_string(), vec1(ser), span))
}

/// `json.from_reader::<T>(r)`: one argument, a file handle (its inferred type
/// is `reader_ty`), and one type argument; it stands for
/// `json.parse::<T>(r.read_to_string().unwrap())`.
pub fn check_json_from_reader(args: &[AstExpr], type_args: &[AstType], reader_ty: &Type, span: Span) -> (r: Result<AstExpr, TypeError>)
    ensures
        args@.len() != 1 ==> is_count_error(r, "json.from_reader"@, 1, args@.len() as usize, span),
        args@.len() == 1 && type_args@.len() != 1 ==> is_unsupported(
            r,
            "json.from_reader：须显式泛型实参 `json.from_reader::<T>(r)`"@,
            span,
        ),
        args@.len() == 1 && type_args@.len() == 1 && !is_file_handle(reader_ty@) ==> is_unsupported(
            r,
            msg_reader(reader_ty@),
            span,
        ),
        args@.len() == 1 && type_args@.len() == 1 && is_file_handle(reader_ty@) ==> (r matches Ok(e) && e@ == from_reader_call(
            args@[0]@,
            view_atypes(type_args@),
            span,
        )),
{
    if args.len() != 1 {
        return count_error("json.from_reader", 1, args.len(), span);
    }
    if type_args.len() != 1 {
        return unsupported("json.from_reader：须显式泛型实参 `json.from_reader::<T>(r)`", span);
    }
    if !is_file_handle_exec(reader_ty) {
        let what = with_type("json.from_reader：首个参数须为 `File`（MVP；TcpStream 留待流式接线），实为 `", reader_ty, "`");
        return Err(TypeError::Unsupported { what, span });
    }
    let read = mk_method_call(clone_expr(&args[0]), "read_to_string".to_string(), vec0(), span);
    let unwrap = mk_method_call(read, "unwrap".to_string(), vec0(), span);
    let segs = vec!["json".to_string(), "parse".to_string()];
    assert(view_strings(segs@) =~= seq!["json"@, "parse"@]);
    let mut targs: Vec<AstType> = Vec::new();
    targs.push(crate::ast::clone_atype(&type_args[0]));
    proof {
        crate::ast::lemma_view_atypes(targs@);
        crate::ast::lemma_view_atypes(type_args@);
    }
    assert(view_atypes(targs@) =~= view_atypes(type_args@));
    Ok(mk_call(mk_path(segs, span), vec1(unwrap), targs, span))
}

} // verus!
