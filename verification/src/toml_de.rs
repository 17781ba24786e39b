//! `toml.parse::<T>(s)` and `toml.try_parse::<T>(s)`: the source-level
//! desugaring of TOML deserialization, by the target type. Top-level structs
//! are read line by line (`key = value`, with `[section]` headers for nested
//! struct fields); nested values are inline tables `{ ... }`.
use vstd::prelude::*;
use vstd::string::StringExecFns;
use crate::ast::{
    AType, AssignOp, AstBlock, AstExpr, AstStmt, AstType, Blk, CompareOp, Ex, ExK, Pat, St, atypes0, clone_expr,
    ex, mk_array_lit, mk_assign, mk_binary, mk_block, mk_block_expr, mk_bool, mk_field, mk_for, mk_if, mk_index,
    mk_int, mk_let, mk_let_typed, mk_method_call, mk_semi, mk_struct_ctor, vec0, vec1, vec2, view_atypes,
    view_exprs, view_inits, view_opt_block, view_stmts, view_strings,
};
use crate::binary::BinaryOp;
use crate::context::{Ctx, TypeContext, fields_view, spec_lookup_struct, temp_name};
use crate::desugar::{mk_ident_call, mk_path_call, spec_ident_call, spec_path_call};
use crate::error::{Span, TypeError};
use crate::json_de::{
    fresh_temps, string_from_ast, tmp_ast, bin, field_if, key_slice, map_entry, opt_view, spec_ty_to_ast, string_from, temps_from, tmp, val_slice,
    when_colon, zero_inits,
};
use crate::json_ser::{
    SerStep, blk, chain2, chain2_ast, ident, ident_ast, int_lit, is_struct_target, let_ident, lit, lit_ast, mcall,
    semi, semi_block, statics, step_matches,
};
use crate::render::render;
use crate::subst::{spec_substitute, substitute};
use crate::text::string_is;
use crate::meaning::{Val, eval, eval_lets};
use crate::ty::{Ty, Type, view_types};

verus! {

broadcast use vstd::std_specs::vec::group_vec_axioms, vstd::string::group_string_axioms, crate::ty::group_view_types;

// ---------------------------------------------------------------------------
// Building blocks
// ---------------------------------------------------------------------------

/// `split_quoted(<body>, 44)`: the parts of `body` at the commas outside
/// quoted strings.
pub open spec fn split_quoted(body: Ex, span: Span) -> Ex {
    spec_ident_call("split_quoted"@, seq![body, int_lit(44, span)], span)
}

/// `<s>.get(<i>)`
pub open spec fn getc(s: Ex, i: Ex, span: Span) -> Ex {
    mcall(s, "get"@, seq![i], span)
}

/// `<e> == 34` (a double quote).
pub open spec fn is_quote(e: Ex, span: Span) -> Ex {
    chain2(e, CompareOp::Eq, int_lit(34, span), span)
}

/// `<len> - <o>`
pub open spec fn len_minus(len: Ex, o: int, span: Span) -> Ex {
    bin(BinaryOp::Sub, len, int_lit(o, span), span)
}

/// The value of a TOML string `s`: with `t = String::from(s.trim())`, a
/// multi-line string `"""..."""` (at least six characters, three quotes at
/// each end) gives `t.substring(3, t.len() - 3)`, any other string
/// `json_unescape(t)`.
pub open spec fn string_value(s: Ex, span: Span) -> Ex {
    let t = spec_path_call(seq!["String"@, "from"@], seq![mcall(s, "trim"@, Seq::empty(), span)], span);
    let len = mcall(t, "len"@, Seq::empty(), span);
    let first3 = bin(
        BinaryOp::And,
        bin(BinaryOp::And, is_quote(getc(t, int_lit(0, span), span), span), is_quote(getc(t, int_lit(1, span), span), span), span),
        is_quote(getc(t, int_lit(2, span), span), span),
        span,
    );
    let last3 = bin(
        BinaryOp::And,
        bin(BinaryOp::And, is_quote(getc(t, len_minus(len, 3, span), span), span), is_quote(getc(t, len_minus(len, 2, span), span), span), span),
        is_quote(getc(t, len_minus(len, 1, span), span), span),
        span,
    );
    let is_ml = bin(BinaryOp::And, bin(BinaryOp::And, first3, last3, span), chain2(len, CompareOp::Ge, int_lit(6, span), span), span);
    let raw = mcall(t, "substring"@, seq![int_lit(3, span), len_minus(len, 3, span)], span);
    let esc = spec_ident_call("json_unescape"@, seq![t], span);
    ex(ExK::If(Box::new(is_ml), blk(Seq::empty(), Some(raw), span), Some(blk(Seq::empty(), Some(esc), span))), span)
}

/// `<s>.substring(1, <s>.len() - 1)` for the text temporary `b`.
pub open spec fn inner_text(b: nat, span: Span) -> Ex {
    mcall(tmp(b, 0, span), "substring"@, seq![int_lit(1, span), len_minus(mcall(tmp(b, 0, span), "len"@, Seq::empty(), span), 1, span)], span)
}

/// The first statements of arrays, vectors and maps: the text, the text
/// without its brackets, its parts at the commas outside strings.
pub open spec fn prologue(arg: Ex, b: nat, span: Span) -> Seq<St> {
    seq![
        let_ident(temp_name(b), string_from(arg, span), false),
        let_ident(temp_name(b + 1), inner_text(b, span), false),
        let_ident(temp_name(b + 2), split_quoted(tmp(b, 1, span), span), false),
    ]
}

/// `[T; N]`: `{ <prologue> [<parse of parts[0]>, ..., <parse of parts[N-1]>] }`.
pub open spec fn array_block(arg: Ex, elems: Seq<Ex>, b: nat, span: Span) -> Ex {
    ex(ExK::Block(blk(prologue(arg, b, span), Some(ex(ExK::ArrayLit(elems), span)), span)), span)
}

/// `parts[<i>]` for the parts temporary of `b`.
pub open spec fn part_at(b: nat, i: int, span: Span) -> Ex {
    ex(ExK::Index(Box::new(tmp(b, 2, span)), Box::new(int_lit(i, span))), span)
}

/// `Vec<T>`: `{ <prologue> let mut v: Vec<T> = Vec::new();
///   for part in parts { let e = <elem>; v.push(e); } v }`.
pub open spec fn vec_block(arg: Ex, et: Ty, elem: Ex, b: nat, span: Span) -> Ex {
    ex(ExK::Block(blk(prologue(arg, b, span) + seq![
        St::Let(Pat::Ident(temp_name(b + 3)), Some(AType::Path("Vec"@, seq![spec_ty_to_ast(et)])), Box::new(spec_path_call(seq!["Vec"@, "new"@], Seq::empty(), span)), true),
        semi(ex(ExK::For(
            Pat::Ident(temp_name(b + 4)),
            Box::new(tmp(b, 2, span)),
            blk(seq![let_ident(temp_name(b + 5), elem, false), semi(mcall(tmp(b, 3, span), "push"@, seq![tmp(b, 5, span)], span))], None, span),
        ), span)),
    ], Some(tmp(b, 3, span)), span)), span)
}

/// `HashMap<K, V>` (an inline table `{k = v, ...}`): like the JSON map, with
/// the parts split outside strings and the entries split at `=`.
pub open spec fn map_block(arg: Ex, key_is_i64: bool, kt: Ty, vt: Ty, val: Ex, b: nat, span: Span) -> Ex {
    ex(ExK::Block(blk(prologue(arg, b, span) + seq![
        St::Let(
            Pat::Ident(temp_name(b + 3)),
            Some(AType::Path("HashMap"@, seq![spec_ty_to_ast(kt), spec_ty_to_ast(vt)])),
            Box::new(spec_path_call(seq!["HashMap"@, "new"@], Seq::empty(), span)),
            true,
        ),
        map_loop(key_is_i64, val, b, span),
    ], Some(tmp(b, 3, span)), span)), span)
}

/// `for part in parts { let c = part.find("="); if c >= 0 { <entry> } }`
pub open spec fn map_loop(key_is_i64: bool, val: Ex, b: nat, span: Span) -> St {
    semi(ex(ExK::For(
        Pat::Ident(temp_name(b + 4)),
        Box::new(tmp(b, 2, span)),
        blk(seq![
            let_ident(temp_name(b + 5), mcall(tmp(b, 4, span), "find"@, seq![lit("="@, span)], span), false),
            semi(when_colon(b, map_entry(key_is_i64, val, b, span), span)),
        ], None, span),
    ), span))
}

/// `if <line>.find("[") == 0 { let cbr = <line>.find("]");
///   cur = <line>.substring(1, cbr).trim(); }`: a `[section]` header sets the
/// current section.
pub open spec fn section_detect(b: nat, span: Span) -> St {
    semi(ex(ExK::If(
        Box::new(chain2(mcall(tmp(b, 4, span), "find"@, seq![lit("["@, span)], span), CompareOp::Eq, int_lit(0, span), span)),
        blk(seq![
            let_ident(temp_name(b + 9), mcall(tmp(b, 4, span), "find"@, seq![lit("]"@, span)], span), false),
            semi(ex(ExK::Assign(
                Box::new(tmp(b, 8, span)),
                AssignOp::Assign,
                Box::new(mcall(mcall(tmp(b, 4, span), "substring"@, seq![int_lit(1, span), tmp(b, 9, span)], span), "trim"@, Seq::empty(), span)),
            ), span)),
        ], None, span),
        None,
    ), span))
}

/// The statements of the loop over the parts of a struct's text.
pub open spec fn struct_loop_stmts(b: nat, inline: bool, dispatch: Ex, span: Span) -> Seq<St> {
    (if inline { Seq::empty() } else { seq![section_detect(b, span)] }) + seq![
        let_ident(temp_name(b + 5), mcall(tmp(b, 4, span), "find"@, seq![lit("="@, span)], span), false),
        semi(when_colon(b, seq![
            let_ident(temp_name(b + 6), mcall(key_slice(b, span), "trim"@, Seq::empty(), span), false),
            let_ident(temp_name(b + 7), mcall(val_slice(b, span), "trim"@, Seq::empty(), span), false),
            semi(dispatch),
        ], span)),
    ]
}

/// A struct: an inline table (`inline`) is stripped of its braces and split at
/// commas outside strings; a top-level text is split into lines. Each
/// `key = value` part assigns the field of that name (`dispatch`); other
/// fields keep their zero values.
pub open spec fn struct_block(arg: Ex, name: Seq<char>, inits: Seq<(Seq<char>, Ex)>, dispatch: Ex, inline: bool, b: nat, span: Span) -> Ex {
    ex(ExK::Block(blk(struct_head(arg, inline, b, span) + seq![
        St::Let(Pat::Ident(temp_name(b + 3)), Some(AType::Path(name, Seq::empty())), Box::new(ex(ExK::StructCtor(seq![name], Seq::empty(), inits), span)), true),
        St::Let(Pat::Ident(temp_name(b + 8)), None, Box::new(spec_path_call(seq!["String"@, "new"@], Seq::empty(), span)), true),
        semi(ex(ExK::For(Pat::Ident(temp_name(b + 4)), Box::new(tmp(b, 2, span)), blk(struct_loop_stmts(b, inline, dispatch, span), None, span)), span)),
    ], Some(tmp(b, 3, span)), span)), span)
}

/// The text, its body (without braces for an inline table) and its parts
/// (split at commas outside strings for an inline table, else into lines).
pub open spec fn struct_head(arg: Ex, inline: bool, b: nat, span: Span) -> Seq<St> {
    seq![
        let_ident(temp_name(b), string_from(arg, span), false),
        let_ident(temp_name(b + 1), if inline { inner_text(b, span) } else { tmp(b, 0, span) }, false),
        let_ident(temp_name(b + 2), if inline {
            split_quoted(tmp(b, 1, span), span)
        } else {
            mcall(tmp(b, 1, span), "split"@, seq![lit("\n"@, span)], span)
        }, false),
    ]
}

/// The dispatch of a top-level struct: `if cur.len() == 0 { <fields> } else
/// { <sections> }`.
pub open spec fn top_dispatch(b: nat, fields: Ex, sections: Option<Blk>, span: Span) -> Ex {
    ex(ExK::If(
        Box::new(chain2(mcall(tmp(b, 8, span), "len"@, Seq::empty(), span), CompareOp::Eq, int_lit(0, span), span)),
        blk(seq![semi(fields)], None, span),
        Some(match sections {
            Some(bk) => bk,
            None => blk(Seq::empty(), None, span),
        }),
    ), span)
}

/// Whether a field type is a nested struct, written as a `[section]`.
pub open spec fn is_nested_struct(c: Ctx, t: Ty) -> bool {
    t matches Ty::Named(n, _) && is_struct_target(c, n)
}

/// `out.<path[0]>.<path[1]>...`
pub open spec fn path_target(b: nat, path: Seq<Seq<char>>, span: Span) -> Ex
    decreases path.len(),
{
    if path.len() == 0 {
        tmp(b, 3, span)
    } else {
        ex(ExK::Field(Box::new(path_target(b, path.drop_last(), span)), path.last()), span)
    }
}

/// The segments of a section path joined by `.`.
pub open spec fn join_dot(path: Seq<Seq<char>>) -> Seq<char>
    decreases path.len(),
{
    if path.len() == 0 {
        Seq::empty()
    } else if path.len() == 1 {
        path[0]
    } else {
        join_dot(path.drop_last()) + "."@ + path.last()
    }
}

pub open spec fn msg_arr_infer() -> Seq<char> {
    "toml.parse：固定数组元素类型未确定（如 `toml::from_str::<[i64; 3]>(s)` 需标注类型）"@
}

pub open spec fn msg_arr_empty() -> Seq<char> {
    "toml.parse：空固定数组 `[T; 0]` 反序列化未支持"@
}

pub open spec fn msg_vec_infer() -> Seq<char> {
    "toml.parse：Vec 元素类型未确定（turbofish 显式定型，如 `toml.parse::<Vec<i64>>(s)`）"@
}

pub open spec fn msg_map_infer() -> Seq<char> {
    "toml.parse：HashMap 键/值类型未确定（turbofish 显式定型，如 `toml.parse::<HashMap<i64, i64>>(s)`）"@
}

pub open spec fn msg_map_key(k: Ty) -> Seq<char> {
    "toml.parse：HashMap 键类型 `"@ + render(k) + "`（MVP 支持 i64 / String）"@
}

pub open spec fn msg_empty_struct(name: Seq<char>) -> Seq<char> {
    "toml.parse：空结构体 `"@ + name + "` 反序列化"@
}

pub open spec fn msg_other(t: Ty) -> Seq<char> {
    "toml.parse：类型 `"@ + render(t) + "` 反序列化"@
}

// ---------------------------------------------------------------------------
// The deserialization, on the model
// ---------------------------------------------------------------------------

/// The deserialization of the TOML text `arg` into `t` (an inline table when
/// `inline`), from temporary counter `n`, with `fuel` levels of nesting.
pub open spec fn tparse(c: Ctx, t: Ty, arg: Ex, span: Span, inline: bool, n: nat, fuel: nat) -> Option<SerStep>
    decreases fuel, 0nat,
{
    if fuel == 0 {
        None
    } else {
        let f = (fuel - 1) as nat;
        match t {
            Ty::I64 => Some((Ok(spec_ident_call("string_to_int"@, seq![string_from(arg, span)], span)), n)),
            Ty::Bool => Some((Ok(ex(ExK::If(
                Box::new(chain2(string_from(arg, span), CompareOp::Eq, lit("true"@, span), span)),
                blk(Seq::empty(), Some(ex(ExK::Bool(true), span)), span),
                Some(blk(Seq::empty(), Some(ex(ExK::Bool(false), span)), span)),
            ), span)), n)),
            Ty::F64 => Some((Ok(spec_ident_call("string_to_float"@, seq![string_from(arg, span)], span)), n)),
            Ty::Array(elem, len) => {
                let et = spec_substitute(*elem, c.subst);
                if et is Infer {
                    Some((Err(msg_arr_infer()), n))
                } else if len == 0 {
                    Some((Err(msg_arr_empty()), n))
                } else {
                    match array_elems(c, et, n, span, 0, len, n + 3, f) {
                        Some((Ok(es), n2)) => Some((Ok(array_block(arg, es, n, span)), n2)),
                        Some((Err(m), n2)) => Some((Err(m), n2)),
                        None => None,
                    }
                }
            },
            Ty::Named(name, args) => if name == "String"@ {
                Some((Ok(string_value(string_from(arg, span), span)), n))
            } else if name == "Vec"@ && args.len() == 1 {
                let et = spec_substitute(args[0], c.subst);
                if et is Infer {
                    Some((Err(msg_vec_infer()), n))
                } else {
                    match tparse(c, et, tmp(n, 4, span), span, false, n + 6, f) {
                        Some((Ok(e), n2)) => Some((Ok(vec_block(arg, et, e, n, span)), n2)),
                        Some((Err(m), n2)) => Some((Err(m), n2)),
                        None => None,
                    }
                }
            } else if name == "HashMap"@ && args.len() == 2 {
                let kt = spec_substitute(args[0], c.subst);
                let vt = spec_substitute(args[1], c.subst);
                if kt is Infer || vt is Infer {
                    Some((Err(msg_map_infer()), n))
                } else if !(kt is I64) && !(kt matches Ty::Named(kn, _) && kn == "String"@) {
                    Some((Err(msg_map_key(kt)), n))
                } else {
                    match tparse(c, vt, tmp(n, 7, span), span, false, n + 10, f) {
                        Some((Ok(val), n2)) => Some((Ok(map_block(arg, kt is I64, kt, vt, val, n, span)), n2)),
                        Some((Err(m), n2)) => Some((Err(m), n2)),
                        None => None,
                    }
                }
            } else if spec_lookup_struct(c, name) is Some && args.len() == 0 {
                let fs = spec_lookup_struct(c, name).unwrap();
                if fs.len() == 0 {
                    Some((Err(msg_empty_struct(name)), n))
                } else {
                    match zero_inits(c, fs, 0, span, f) {
                        Some(Ok(inits)) => match tfield_chain(c, fs, fs.len(), None, n, span, n + 10, f) {
                            Some((Ok(ch), n2)) => if inline {
                                Some((Ok(struct_block(arg, name, inits, ch.unwrap(), inline, n, span)), n2))
                            } else {
                                match sections(c, fs, Seq::empty(), n, span, None, fs.len(), n2, f) {
                                    Some((secs, n3)) => Some((Ok(struct_block(arg, name, inits, top_dispatch(n, ch.unwrap(), secs, span), inline, n, span)), n3)),
                                    None => None,
                                }
                            },
                            Some((Err(m), n2)) => Some((Err(m), n2)),
                            None => None,
                        },
                        Some(Err(m)) => Some((Err(m), n + 10)),
                        None => None,
                    }
                }
            } else {
                Some((Err(msg_other(t)), n))
            },
            _ => Some((Err(msg_other(t)), n)),
        }
    }
}

/// The parses of array elements `i..len` (`parts[i]`), from counter `n`.
pub open spec fn array_elems(c: Ctx, et: Ty, b: nat, span: Span, i: nat, len: nat, n: nat, fuel: nat) -> Option<(Result<Seq<Ex>, Seq<char>>, nat)>
    decreases fuel, len - i + 1,
{
    if i >= len {
        Some((Ok(Seq::empty()), n))
    } else {
        match tparse(c, et, part_at(b, i as int, span), span, false, n, fuel) {
            Some((Ok(e), n2)) => match array_elems(c, et, b, span, i + 1, len, n2, fuel) {
                Some((Ok(rest), n3)) => Some((Ok(seq![e] + rest), n3)),
                other => other,
            },
            Some((Err(m), n2)) => Some((Err(m), n2)),
            None => None,
        }
    }
}

/// The field tests of a struct for fields `k - 1` down to `0` (values parsed
/// as inline tables), wrapped around `acc`.
pub open spec fn tfield_chain(c: Ctx, fs: Seq<(Seq<char>, Ty)>, k: nat, acc: Option<Ex>, b: nat, span: Span, n: nat, fuel: nat) -> Option<
    (Result<Option<Ex>, Seq<char>>, nat),
>
    decreases fuel, k + 1,
{
    if k == 0 || k > fs.len() {
        Some((Ok(acc), n))
    } else {
        match tparse(c, fs[k - 1].1, tmp(b, 7, span), span, true, n, fuel) {
            Some((Ok(v), n2)) => tfield_chain(c, fs, (k - 1) as nat, Some(field_if(b, fs[k - 1].0, v, acc, span)), b, span, n2, fuel),
            Some((Err(m), n2)) => Some((Err(m), n2)),
            None => None,
        }
    }
}

/// The `[section]` branches for the nested struct fields `k - 1` down to `0`
/// of `fs` (at section path `prefix`), deeper sections first, wrapped around
/// `acc`: `if cur == "<path>" { <field tests of the nested struct> } else { .. }`.
pub open spec fn sections(
    c: Ctx,
    fs: Seq<(Seq<char>, Ty)>,
    prefix: Seq<Seq<char>>,
    b: nat,
    span: Span,
    acc: Option<Blk>,
    k: nat,
    n: nat,
    fuel: nat,
) -> Option<(Option<Blk>, nat)>
    decreases fuel, k + 1,
{
    if fuel == 0 {
        None
    } else if k == 0 || k > fs.len() {
        Some((acc, n))
    } else {
        let f = (fuel - 1) as nat;
        let ft = fs[k - 1].1;
        if !is_nested_struct(c, ft) {
            sections(c, fs, prefix, b, span, acc, (k - 1) as nat, n, fuel)
        } else {
            let path = prefix.push(fs[k - 1].0);
            let inner = nested_fields(c, ft);
            let deeper = match inner {
                Some(ifs) => sections(c, ifs, path, b, span, acc, ifs.len(), n, f),
                None => Some((acc, n)),
            };
            match deeper {
                Some((acc1, n1)) => match inner_chain(c, path, b, or_empty(inner), or_empty(inner).len(), None, span, n1, f) {
                    Some((d, n2)) => sections(c, fs, prefix, b, span, Some(section_if(b, path, d, acc1, span)), (k - 1) as nat, n2, fuel),
                    None => None,
                },
                None => None,
            }
        }
    }
}

/// The fields of the struct that a field type names.
pub open spec fn nested_fields(c: Ctx, ft: Ty) -> Option<Seq<(Seq<char>, Ty)>> {
    match ft {
        Ty::Named(iname, _) => spec_lookup_struct(c, iname),
        _ => None,
    }
}

pub open spec fn or_empty(o: Option<Seq<(Seq<char>, Ty)>>) -> Seq<(Seq<char>, Ty)> {
    match o {
        Some(x) => x,
        None => Seq::empty(),
    }
}

/// `{ if cur == "<path>" { <d or {}>; } [else <acc>] }`
pub open spec fn section_if(b: nat, path: Seq<Seq<char>>, d: Option<Ex>, acc: Option<Blk>, span: Span) -> Blk {
    let disp = match d {
        Some(e) => e,
        None => ex(ExK::Block(blk(Seq::empty(), None, span)), span),
    };
    blk(Seq::empty(), Some(ex(ExK::If(
        Box::new(chain2(tmp(b, 8, span), CompareOp::Eq, lit(join_dot(path), span), span)),
        blk(seq![semi(disp)], None, span),
        acc,
    ), span)), span)
}

/// The value assigned to a field inside a section: its parse, or the text
/// itself when the field's type is unsupported.
pub open spec fn inner_value(res: Result<Ex, Seq<char>>, b: nat, span: Span) -> Ex {
    match res {
        Ok(v) => v,
        Err(_) => tmp(b, 7, span),
    }
}

/// `if name == "<f>" { out.<path>.<f> = <v>; } [else { <acc> }]`
pub open spec fn inner_if(b: nat, path: Seq<Seq<char>>, f: Seq<char>, v: Ex, acc: Option<Ex>, span: Span) -> Ex {
    let target = ex(ExK::Field(Box::new(path_target(b, path, span)), f), span);
    ex(ExK::If(
        Box::new(chain2(tmp(b, 6, span), CompareOp::Eq, lit(f, span), span)),
        blk(seq![semi(ex(ExK::Assign(Box::new(target), AssignOp::Assign, Box::new(v)), span))], None, span),
        match acc {
            Some(e) => Some(blk(Seq::empty(), Some(e), span)),
            None => None,
        },
    ), span)
}

/// The field tests inside section `path` for fields `k - 1` down to `0` of
/// the nested struct (see `inner_if` and `inner_value`).
pub open spec fn inner_chain(
    c: Ctx,
    path: Seq<Seq<char>>,
    b: nat,
    ifs: Seq<(Seq<char>, Ty)>,
    k: nat,
    acc: Option<Ex>,
    span: Span,
    n: nat,
    fuel: nat,
) -> Option<(Option<Ex>, nat)>
    decreases fuel, k + 1,
{
    if k == 0 || k > ifs.len() {
        Some((acc, n))
    } else {
        match tparse(c, ifs[k - 1].1, tmp(b, 7, span), span, false, n, fuel) {
            Some((res, n2)) => inner_chain(
                c,
                path,
                b,
                ifs,
                (k - 1) as nat,
                Some(inner_if(b, path, ifs[k - 1].0, inner_value(res, b, span), acc, span)),
                span,
                n2,
                fuel,
            ),
            None => None,
        }
    }
}

pub open spec fn tparse_finite(c: Ctx, t: Ty, arg: Ex, span: Span, inline: bool) -> bool {
    exists|fuel: nat| tparse(statics(c), t, arg, span, inline, c.next_temp, fuel) is Some
}

/// The deserialization of `arg` into `t` in context `c` (when it is finite).
pub open spec fn spec_toml_parse(c: Ctx, t: Ty, arg: Ex, span: Span, inline: bool) -> SerStep {
    tparse(statics(c), t, arg, span, inline, c.next_temp, choose|fuel: nat| tparse(statics(c), t, arg, span, inline, c.next_temp, fuel) is Some).unwrap()
}

// ---------------------------------------------------------------------------
// Counter monotonicity
// ---------------------------------------------------------------------------

pub proof fn lemma_tparse_counter(c: Ctx, t: Ty, arg: Ex, span: Span, inline: bool, n: nat, fuel: nat)
    ensures
        tparse(c, t, arg, span, inline, n, fuel) matches Some((_, n2)) ==> n <= n2,
    decreases fuel, 0nat,
{
    if fuel > 0 {
        let f = (fuel - 1) as nat;
        match t {
            Ty::Array(elem, len) => {
                let et = spec_substitute(*elem, c.subst);
                lemma_array_counter(c, et, n, span, 0, len, n + 3, f);
            },
            Ty::Named(name, args) => {
                if name == "String"@ {
                } else if name == "Vec"@ && args.len() == 1 {
                    lemma_tparse_counter(c, spec_substitute(args[0], c.subst), tmp(n, 4, span), span, false, n + 6, f);
                } else if name == "HashMap"@ && args.len() == 2 {
                    lemma_tparse_counter(c, spec_substitute(args[1], c.subst), tmp(n, 7, span), span, false, n + 10, f);
                } else if spec_lookup_struct(c, name) is Some && args.len() == 0 {
                    let fs = spec_lookup_struct(c, name).unwrap();
                    lemma_tchain_counter(c, fs, fs.len(), None, n, span, n + 10, f);
                    if let Some((Ok(_), n2)) = tfield_chain(c, fs, fs.len(), None, n, span, n + 10, f) {
                        lemma_sections_counter(c, fs, Seq::empty(), n, span, None, fs.len(), n2, f);
                    }
                }
            },
            _ => {},
        }
    }
}

pub proof fn lemma_array_counter(c: Ctx, et: Ty, b: nat, span: Span, i: nat, len: nat, n: nat, fuel: nat)
    ensures
        array_elems(c, et, b, span, i, len, n, fuel) matches Some((_, n2)) ==> n <= n2,
    decreases fuel, len - i + 1,
{
    if i < len {
        lemma_tparse_counter(c, et, part_at(b, i as int, span), span, false, n, fuel);
        if let Some((Ok(_), n2)) = tparse(c, et, part_at(b, i as int, span), span, false, n, fuel) {
            lemma_array_counter(c, et, b, span, i + 1, len, n2, fuel);
        }
    }
}

pub proof fn lemma_tchain_counter(c: Ctx, fs: Seq<(Seq<char>, Ty)>, k: nat, acc: Option<Ex>, b: nat, span: Span, n: nat, fuel: nat)
    ensures
        tfield_chain(c, fs, k, acc, b, span, n, fuel) matches Some((_, n2)) ==> n <= n2,
    decreases fuel, k + 1,
{
    if k > 0 && k <= fs.len() {
        lemma_tparse_counter(c, fs[k - 1].1, tmp(b, 7, span), span, true, n, fuel);
        if let Some((Ok(v), n2)) = tparse(c, fs[k - 1].1, tmp(b, 7, span), span, true, n, fuel) {
            lemma_tchain_counter(c, fs, (k - 1) as nat, Some(field_if(b, fs[k - 1].0, v, acc, span)), b, span, n2, fuel);
        }
    }
}

pub proof fn lemma_sections_counter(
    c: Ctx,
    fs: Seq<(Seq<char>, Ty)>,
    prefix: Seq<Seq<char>>,
    b: nat,
    span: Span,
    acc: Option<Blk>,
    k: nat,
    n: nat,
    fuel: nat,
)
    ensures
        sections(c, fs, prefix, b, span, acc, k, n, fuel) matches Some((_, n2)) ==> n <= n2,
    decreases fuel, k + 1,
{
    if fuel > 0 && k > 0 && k <= fs.len() {
        let f = (fuel - 1) as nat;
        let ft = fs[k - 1].1;
        if !is_nested_struct(c, ft) {
            lemma_sections_counter(c, fs, prefix, b, span, acc, (k - 1) as nat, n, fuel);
        } else {
            let path = prefix.push(fs[k - 1].0);
            let inner = nested_fields(c, ft);
            if let Some(ifs) = inner {
                lemma_sections_counter(c, ifs, path, b, span, acc, ifs.len(), n, f);
            }
            let deeper = match inner {
                Some(ifs) => sections(c, ifs, path, b, span, acc, ifs.len(), n, f),
                None => Some((acc, n)),
            };
            if let Some((acc1, n1)) = deeper {
                lemma_inner_counter(c, path, b, or_empty(inner), or_empty(inner).len(), None, span, n1, f);
                if let Some((d, n2)) = inner_chain(c, path, b, or_empty(inner), or_empty(inner).len(), None, span, n1, f) {
                    lemma_sections_counter(c, fs, prefix, b, span, Some(section_if(b, path, d, acc1, span)), (k - 1) as nat, n2, fuel);
                }
            }
        }
    }
}

pub proof fn lemma_inner_counter(
    c: Ctx,
    path: Seq<Seq<char>>,
    b: nat,
    ifs: Seq<(Seq<char>, Ty)>,
    k: nat,
    acc: Option<Ex>,
    span: Span,
    n: nat,
    fuel: nat,
)
    ensures
        inner_chain(c, path, b, ifs, k, acc, span, n, fuel) matches Some((_, n2)) ==> n <= n2,
    decreases fuel, k + 1,
{
    if k > 0 && k <= ifs.len() {
        lemma_tparse_counter(c, ifs[k - 1].1, tmp(b, 7, span), span, false, n, fuel);
        if let Some((res, n2)) = tparse(c, ifs[k - 1].1, tmp(b, 7, span), span, false, n, fuel) {
            lemma_inner_counter(c, path, b, ifs, (k - 1) as nat, Some(inner_if(b, path, ifs[k - 1].0, inner_value(res, b, span), acc, span)), span, n2, fuel);
        }
    }
}

/// A chain over at least one field is a test.
pub proof fn lemma_tchain_some(c: Ctx, fs: Seq<(Seq<char>, Ty)>, k: nat, acc: Option<Ex>, b: nat, span: Span, n: nat, fuel: nat)
    requires
        (k > 0 && k <= fs.len()) || acc is Some,
    ensures
        tfield_chain(c, fs, k, acc, b, span, n, fuel) matches Some((Ok(ch), _)) ==> ch is Some,
    decreases k,
{
    if k > 0 && k <= fs.len() {
        if let Some((Ok(v), n2)) = tparse(c, fs[k - 1].1, tmp(b, 7, span), span, true, n, fuel) {
            lemma_tchain_some(c, fs, (k - 1) as nat, Some(field_if(b, fs[k - 1].0, v, acc, span)), b, span, n2, fuel);
        }
    }
}

// ---------------------------------------------------------------------------
// Builders
// ---------------------------------------------------------------------------

fn quote_ast(e: AstExpr, span: Span) -> (r: AstExpr)
    ensures
        r@ == is_quote(e@, span),
{
    chain2_ast(e, CompareOp::Eq, mk_int(34, span), span)
}

fn getc_ast(t: &AstExpr, i: AstExpr, span: Span) -> (r: AstExpr)
    ensures
        r@ == getc(t@, i@, span),
{
    mk_method_call(clone_expr(t), "get".to_string(), vec1(i), span)
}

fn len_ast(t: &AstExpr, span: Span) -> (r: AstExpr)
    ensures
        r@ == mcall(t@, "len"@, Seq::empty(), span),
{
    mk_method_call(clone_expr(t), "len".to_string(), vec0(), span)
}

fn len_minus_ast(t: &AstExpr, o: i128, span: Span) -> (r: AstExpr)
    ensures
        r@ == len_minus(mcall(t@, "len"@, Seq::empty(), span), o as int, span),
{
    mk_binary(BinaryOp::Sub, len_ast(t, span), mk_int(o, span), span)
}

fn and_ast(a: AstExpr, b: AstExpr, span: Span) -> (r: AstExpr)
    ensures
        r@ == bin(BinaryOp::And, a@, b@, span),
{
    mk_binary(BinaryOp::And, a, b, span)
}

/// The value of a TOML string (see `string_value`).
pub fn toml_string_value_ast(s: &AstExpr, span: Span) -> (r: AstExpr)
    ensures
        r@ == string_value(s@, span),
{
    let segs = vec!["String".to_string(), "from".to_string()];
    assert(view_strings(segs@) =~= seq!["String"@, "from"@]);
    let t = mk_path_call(segs, vec1(mk_method_call(clone_expr(s), "trim".to_string(), vec0(), span)), span);
    let q0 = quote_ast(getc_ast(&t, mk_int(0, span), span), span);
    let q1 = quote_ast(getc_ast(&t, mk_int(1, span), span), span);
    let q2 = quote_ast(getc_ast(&t, mk_int(2, span), span), span);
    let first3 = and_ast(and_ast(q0, q1, span), q2, span);
    let l3 = quote_ast(getc_ast(&t, len_minus_ast(&t, 3, span), span), span);
    let l2 = quote_ast(getc_ast(&t, len_minus_ast(&t, 2, span), span), span);
    let l1 = quote_ast(getc_ast(&t, len_minus_ast(&t, 1, span), span), span);
    let last3 = and_ast(and_ast(l3, l2, span), l1, span);
    let ge6 = chain2_ast(len_ast(&t, span), CompareOp::Ge, mk_int(6, span), span);
    let is_ml = and_ast(and_ast(first3, last3, span), ge6, span);
    let raw = mk_method_call(clone_expr(&t), "substring".to_string(), vec2(mk_int(3, span), len_minus_ast(&t, 3, span)), span);
    let esc = mk_ident_call("json_unescape".to_string(), vec1(t), span);
    assert(view_stmts(Seq::<AstStmt>::empty()) =~= Seq::<St>::empty());
    mk_if(is_ml, mk_block(Vec::new(), Some(raw), span), Some(mk_block(Vec::new(), Some(esc), span)), span)
}

fn inner_text_ast(names: &Vec<String>, span: Span, Ghost(b): Ghost<nat>) -> (r: AstExpr)
    requires
        temps_from(names@, b, 1),
    ensures
        r@ == inner_text(b, span),
{
    let s0 = tmp_ast(names, 0, span, Ghost(b));
    let upto = len_minus_ast(&s0, 1, span);
    mk_method_call(s0, "substring".to_string(), vec2(mk_int(1, span), upto), span)
}

fn split_quoted_ast(body: AstExpr, span: Span) -> (r: AstExpr)
    ensures
        r@ == split_quoted(body@, span),
{
    mk_ident_call("split_quoted".to_string(), vec2(body, mk_int(44, span)), span)
}

fn prologue_ast(arg: &AstExpr, names: &Vec<String>, span: Span, Ghost(b): Ghost<nat>) -> (r: Vec<AstStmt>)
    requires
        temps_from(names@, b, 3),
    ensures
        view_stmts(r@) == prologue(arg@, b, span),
{
    assert(names@[0]@ == temp_name(b + 0));
    assert(names@[1]@ == temp_name(b + 1));
    assert(names@[2]@ == temp_name(b + 2));
    let s1 = mk_let(names[0].clone(), string_from_ast(arg, span), false);
    let s2 = mk_let(names[1].clone(), inner_text_ast(names, span, Ghost(b)), false);
    let s3 = mk_let(names[2].clone(), split_quoted_ast(tmp_ast(names, 1, span, Ghost(b)), span), false);
    let ghost v1 = s1@;
    let ghost v2 = s2@;
    let ghost v3 = s3@;
    let stmts = vec![s1, s2, s3];
    proof {
        crate::ast::lemma_view_stmts(stmts@);
    }
    assert(view_stmts(stmts@) =~= seq![v1, v2, v3]);
    stmts
}

/// `stmts` followed by `more`.
fn append_stmts(stmts: Vec<AstStmt>, more: Vec<AstStmt>) -> (r: Vec<AstStmt>)
    ensures
        view_stmts(r@) == view_stmts(stmts@) + view_stmts(more@),
{
    let mut a = stmts;
    let mut m = more;
    let ghost a0 = a@;
    let ghost m0 = m@;
    a.append(&mut m);
    proof {
        crate::ast::lemma_view_stmts(a@);
        crate::ast::lemma_view_stmts(a0);
        crate::ast::lemma_view_stmts(m0);
    }
    assert(view_stmts(a@) =~= view_stmts(a0) + view_stmts(m0));
    a
}

fn array_block_ast(arg: &AstExpr, elems: Vec<AstExpr>, names: &Vec<String>, span: Span, Ghost(b): Ghost<nat>) -> (r: AstExpr)
    requires
        temps_from(names@, b, 3),
    ensures
        r@ == array_block(arg@, view_exprs(elems@), b, span),
{
    let stmts = prologue_ast(arg, names, span, Ghost(b));
    mk_block_expr(mk_block(stmts, Some(mk_array_lit(elems, span)), span), span)
}

fn vec_block_ast(arg: &AstExpr, et: &Type, elem: AstExpr, names: &Vec<String>, span: Span, Ghost(b): Ghost<nat>) -> (r: AstExpr)
    requires
        temps_from(names@, b, 6),
    ensures
        r@ == vec_block(arg@, et@, elem@, b, span),
{
    assert(names@[3]@ == temp_name(b + 3));
    assert(names@[4]@ == temp_name(b + 4));
    assert(names@[5]@ == temp_name(b + 5));
    let targs = vec![crate::json_de::ty_to_ast(et)];
    proof {
        crate::ast::lemma_view_atypes(targs@);
    }
    assert(view_atypes(targs@) =~= seq![spec_ty_to_ast(et@)]);
    let segs = vec!["Vec".to_string(), "new".to_string()];
    assert(view_strings(segs@) =~= seq!["Vec"@, "new"@]);
    let s4 = mk_let_typed(names[3].clone(), AstType::Path("Vec".to_string(), targs), mk_path_call(segs, vec0(), span), true);
    let l1 = mk_let(names[5].clone(), elem, false);
    let l2 = mk_semi(mk_method_call(tmp_ast(names, 3, span, Ghost(b)), "push".to_string(), vec1(tmp_ast(names, 5, span, Ghost(b))), span));
    let ghost w1 = l1@;
    let ghost w2 = l2@;
    let body = vec![l1, l2];
    proof {
        crate::ast::lemma_view_stmts(body@);
    }
    assert(view_stmts(body@) =~= seq![w1, w2]);
    let pat = crate::ast::AstPattern::Ident(names[4].clone());
    assert(pat@ == Pat::Ident(temp_name(b + 4)));
    let s5 = mk_semi(mk_for(pat, tmp_ast(names, 2, span, Ghost(b)), mk_block(body, None, span), span));
    let ghost v4 = s4@;
    let ghost v5 = s5@;
    let rest = vec![s4, s5];
    proof {
        crate::ast::lemma_view_stmts(rest@);
    }
    assert(view_stmts(rest@) =~= seq![v4, v5]);
    let stmts = append_stmts(prologue_ast(arg, names, span, Ghost(b)), rest);
    mk_block_expr(mk_block(stmts, Some(tmp_ast(names, 3, span, Ghost(b))), span), span)
}

fn find_ast(names: &Vec<String>, sep: &str, span: Span, Ghost(b): Ghost<nat>) -> (r: AstExpr)
    requires
        temps_from(names@, b, 5),
    ensures
        r@ == mcall(tmp(b, 4, span), "find"@, seq![lit(sep@, span)], span),
{
    mk_method_call(tmp_ast(names, 4, span, Ghost(b)), "find".to_string(), vec1(lit_ast(sep, span)), span)
}

fn map_loop_ast(key_is_i64: bool, val: AstExpr, names: &Vec<String>, span: Span, Ghost(b): Ghost<nat>) -> (r: AstStmt)
    requires
        temps_from(names@, b, 10),
    ensures
        r@ == map_loop(key_is_i64, val@, b, span),
{
    assert(names@[4]@ == temp_name(b + 4));
    assert(names@[5]@ == temp_name(b + 5));
    let entry = crate::json_de::map_entry_ast(key_is_i64, val, names, span, Ghost(b));
    let guarded = crate::json_de::when_colon_ast(names, entry, span, Ghost(b));
    let l1 = mk_let(names[5].clone(), find_ast(names, "=", span, Ghost(b)), false);
    let l2 = mk_semi(guarded);
    let ghost w1 = l1@;
    let ghost w2 = l2@;
    let body = vec![l1, l2];
    proof {
        crate::ast::lemma_view_stmts(body@);
    }
    assert(view_stmts(body@) =~= seq![w1, w2]);
    let pat = crate::ast::AstPattern::Ident(names[4].clone());
    assert(pat@ == Pat::Ident(temp_name(b + 4)));
    mk_semi(mk_for(pat, tmp_ast(names, 2, span, Ghost(b)), mk_block(body, None, span), span))
}

fn map_block_ast(
    arg: &AstExpr,
    key_is_i64: bool,
    kt: &Type,
    vt: &Type,
    val: AstExpr,
    names: &Vec<String>,
    span: Span,
    Ghost(b): Ghost<nat>,
) -> (r: AstExpr)
    requires
        temps_from(names@, b, 10),
    ensures
        r@ == map_block(arg@, key_is_i64, kt@, vt@, val@, b, span),
{
    assert(names@[3]@ == temp_name(b + 3));
    let s5 = map_loop_ast(key_is_i64, val, names, span, Ghost(b));
    let targs = vec![crate::json_de::ty_to_ast(kt), crate::json_de::ty_to_ast(vt)];
    proof {
        crate::ast::lemma_view_atypes(targs@);
    }
    assert(view_atypes(targs@) =~= seq![spec_ty_to_ast(kt@), spec_ty_to_ast(vt@)]);
    let segs = vec!["HashMap".to_string(), "new".to_string()];
    assert(view_strings(segs@) =~= seq!["HashMap"@, "new"@]);
    let s4 = mk_let_typed(names[3].clone(), AstType::Path("HashMap".to_string(), targs), mk_path_call(segs, vec0(), span), true);
    let ghost v4 = s4@;
    let ghost v5 = s5@;
    let rest = vec![s4, s5];
    proof {
        crate::ast::lemma_view_stmts(rest@);
    }
    assert(view_stmts(rest@) =~= seq![v4, v5]);
    let stmts = append_stmts(prologue_ast(arg, names, span, Ghost(b)), rest);
    mk_block_expr(mk_block(stmts, Some(tmp_ast(names, 3, span, Ghost(b))), span), span)
}

fn section_detect_ast(names: &Vec<String>, span: Span, Ghost(b): Ghost<nat>) -> (r: AstStmt)
    requires
        temps_from(names@, b, 10),
    ensures
        r@ == section_detect(b, span),
{
    assert(names@[9]@ == temp_name(b + 9));
    let cond = chain2_ast(find_ast(names, "[", span, Ghost(b)), CompareOp::Eq, mk_int(0, span), span);
    let l1 = mk_let(names[9].clone(), find_ast(names, "]", span, Ghost(b)), false);
    let sub = mk_method_call(tmp_ast(names, 4, span, Ghost(b)), "substring".to_string(), vec2(mk_int(1, span), tmp_ast(names, 9, span, Ghost(b))), span);
    let trimmed = mk_method_call(sub, "trim".to_string(), vec0(), span);
    let l2 = mk_semi(mk_assign(tmp_ast(names, 8, span, Ghost(b)), trimmed, span));
    let ghost w1 = l1@;
    let ghost w2 = l2@;
    let body = vec![l1, l2];
    proof {
        crate::ast::lemma_view_stmts(body@);
    }
    assert(view_stmts(body@) =~= seq![w1, w2]);
    mk_semi(mk_if(cond, mk_block(body, None, span), None, span))
}

fn struct_loop_stmts_ast(names: &Vec<String>, inline: bool, dispatch: AstExpr, span: Span, Ghost(b): Ghost<nat>) -> (r: Vec<AstStmt>)
    requires
        temps_from(names@, b, 10),
    ensures
        view_stmts(r@) == struct_loop_stmts(b, inline, dispatch@, span),
{
    assert(names@[5]@ == temp_name(b + 5));
    assert(names@[6]@ == temp_name(b + 6));
    assert(names@[7]@ == temp_name(b + 7));
    let k1 = mk_let(names[6].clone(), mk_method_call(crate::json_de::key_slice_ast(names, span, Ghost(b)), "trim".to_string(), vec0(), span), false);
    let k2 = mk_let(names[7].clone(), mk_method_call(crate::json_de::val_slice_ast(names, span, Ghost(b)), "trim".to_string(), vec0(), span), false);
    let k3 = mk_semi(dispatch);
    let ghost u1 = k1@;
    let ghost u2 = k2@;
    let ghost u3 = k3@;
    let inner = vec![k1, k2, k3];
    proof {
        crate::ast::lemma_view_stmts(inner@);
    }
    assert(view_stmts(inner@) =~= seq![u1, u2, u3]);
    let guarded = crate::json_de::when_colon_ast(names, inner, span, Ghost(b));
    let l1 = mk_let(names[5].clone(), find_ast(names, "=", span, Ghost(b)), false);
    let l2 = mk_semi(guarded);
    let ghost w1 = l1@;
    let ghost w2 = l2@;
    let tail = vec![l1, l2];
    proof {
        crate::ast::lemma_view_stmts(tail@);
    }
    assert(view_stmts(tail@) =~= seq![w1, w2]);
    let head: Vec<AstStmt> = if inline {
        Vec::new()
    } else {
        let d = section_detect_ast(names, span, Ghost(b));
        let ghost dv = d@;
        let h = vec![d];
        proof {
            crate::ast::lemma_view_stmts(h@);
        }
        assert(view_stmts(h@) =~= seq![dv]);
        h
    };
    assert(view_stmts(Seq::<AstStmt>::empty()) =~= Seq::<St>::empty());
    append_stmts(head, tail)
}

fn struct_head_ast(arg: &AstExpr, inline: bool, names: &Vec<String>, span: Span, Ghost(b): Ghost<nat>) -> (r: Vec<AstStmt>)
    requires
        temps_from(names@, b, 10),
    ensures
        view_stmts(r@) == struct_head(arg@, inline, b, span),
{
    assert(names@[0]@ == temp_name(b + 0));
    assert(names@[1]@ == temp_name(b + 1));
    assert(names@[2]@ == temp_name(b + 2));
    let s1 = mk_let(names[0].clone(), string_from_ast(arg, span), false);
    let body_init = if inline {
        inner_text_ast(names, span, Ghost(b))
    } else {
        tmp_ast(names, 0, span, Ghost(b))
    };
    let s2 = mk_let(names[1].clone(), body_init, false);
    let parts_init = if inline {
        split_quoted_ast(tmp_ast(names, 1, span, Ghost(b)), span)
    } else {
        mk_method_call(tmp_ast(names, 1, span, Ghost(b)), "split".to_string(), vec1(lit_ast("\n", span)), span)
    };
    let s3 = mk_let(names[2].clone(), parts_init, false);
    let ghost v1 = s1@;
    let ghost v2 = s2@;
    let ghost v3 = s3@;
    let stmts = vec![s1, s2, s3];
    proof {
        crate::ast::lemma_view_stmts(stmts@);
    }
    assert(view_stmts(stmts@) =~= seq![v1, v2, v3]);
    stmts
}

#[verifier::rlimit(60)]
fn struct_block_ast(
    arg: &AstExpr,
    name: &String,
    inits: Vec<(String, AstExpr)>,
    dispatch: AstExpr,
    inline: bool,
    names: &Vec<String>,
    span: Span,
    Ghost(b): Ghost<nat>,
) -> (r: AstExpr)
    requires
        temps_from(names@, b, 10),
    ensures
        r@ == struct_block(arg@, name@, view_inits(inits@), dispatch@, inline, b, span),
{
    assert(names@[3]@ == temp_name(b + 3));
    assert(names@[4]@ == temp_name(b + 4));
    assert(names@[8]@ == temp_name(b + 8));
    let head = struct_head_ast(arg, inline, names, span, Ghost(b));
    let anno = AstType::Path(name.clone(), Vec::new());
    assert(view_atypes(Seq::<AstType>::empty()) =~= Seq::<AType>::empty());
    let segs = vec![name.clone()];
    assert(view_strings(segs@) =~= seq![name@]);
    let s4 = mk_let_typed(names[3].clone(), anno, mk_struct_ctor(segs, atypes0(), inits, span), true);
    let nsegs = vec!["String".to_string(), "new".to_string()];
    assert(view_strings(nsegs@) =~= seq!["String"@, "new"@]);
    let s5 = mk_let(names[8].clone(), mk_path_call(nsegs, vec0(), span), true);
    let loop_stmts = struct_loop_stmts_ast(names, inline, dispatch, span, Ghost(b));
    let pat = crate::ast::AstPattern::Ident(names[4].clone());
    assert(pat@ == Pat::Ident(temp_name(b + 4)));
    let s6 = mk_semi(mk_for(pat, tmp_ast(names, 2, span, Ghost(b)), mk_block(loop_stmts, None, span), span));
    let ghost v4 = s4@;
    let ghost v5 = s5@;
    let ghost v6 = s6@;
    let rest = vec![s4, s5, s6];
    proof {
        crate::ast::lemma_view_stmts(rest@);
    }
    assert(view_stmts(rest@) =~= seq![v4, v5, v6]);
    let stmts = append_stmts(head, rest);
    mk_block_expr(mk_block(stmts, Some(tmp_ast(names, 3, span, Ghost(b))), span), span)
}

fn top_dispatch_ast(names: &Vec<String>, fields: AstExpr, secs: Option<AstBlock>, span: Span, Ghost(b): Ghost<nat>) -> (r: AstExpr)
    requires
        temps_from(names@, b, 10),
    ensures
        r@ == top_dispatch(b, fields@, view_opt_block(secs), span),
{
    let cond = chain2_ast(len_ast(&tmp_ast(names, 8, span, Ghost(b)), span), CompareOp::Eq, mk_int(0, span), span);
    let other = match secs {
        Some(bk) => bk,
        None => {
            assert(view_stmts(Seq::<AstStmt>::empty()) =~= Seq::<St>::empty());
            mk_block(Vec::new(), None, span)
        },
    };
    mk_if(cond, semi_block(fields, span), Some(other), span)
}

/// `out.<path[0]>.<path[1]>...`
fn path_target_ast(names: &Vec<String>, path: &Vec<String>, span: Span, Ghost(b): Ghost<nat>) -> (r: AstExpr)
    requires
        temps_from(names@, b, 4),
    ensures
        r@ == path_target(b, view_strings(path@), span),
{
    let ghost pv = view_strings(path@);
    let mut base = tmp_ast(names, 3, span, Ghost(b));
    let mut i: usize = 0;
    assert(pv.subrange(0, 0).len() == 0);
    while i < path.len()
        invariant
            i <= path.len(),
            pv == view_strings(path@),
            pv.len() == path@.len(),
            base@ == path_target(b, pv.subrange(0, i as int), span),
        decreases path.len() - i,
    {
        assert(pv.subrange(0, i + 1).drop_last() =~= pv.subrange(0, i as int));
        assert(pv.subrange(0, i + 1).last() == path@[i as int]@);
        base = mk_field(base, path[i].clone(), span);
        i += 1;
    }
    assert(pv.subrange(0, path.len() as int) =~= pv);
    base
}

/// The segments of `path` joined by `.`.
fn join_dot_string(path: &Vec<String>) -> (r: String)
    ensures
        r@ == join_dot(view_strings(path@)),
{
    let ghost pv = view_strings(path@);
    let mut out = String::new();
    let mut i: usize = 0;
    while i < path.len()
        invariant
            i <= path.len(),
            pv == view_strings(path@),
            pv.len() == path@.len(),
            out@ == join_dot(pv.subrange(0, i as int)),
        decreases path.len() - i,
    {
        assert(pv.subrange(0, i + 1).drop_last() =~= pv.subrange(0, i as int));
        assert(pv.subrange(0, i + 1).last() == path@[i as int]@);
        if i > 0 {
            out.append(".");
        }
        out.append(path[i].as_str());
        i += 1;
        proof {
            if i == 1 {
                assert(out@ =~= join_dot(pv.subrange(0, i as int)));
            } else {
                assert(out@ =~= join_dot(pv.subrange(0, i as int)));
            }
        }
    }
    assert(pv.subrange(0, path.len() as int) =~= pv);
    out
}

// ---------------------------------------------------------------------------
// The desugaring
// ---------------------------------------------------------------------------

fn is_nested_struct_exec(ctx: &TypeContext, t: &Type) -> (r: bool)
    ensures
        r == is_nested_struct(statics(ctx@), t@),
{
    match t {
        Type::Named(n, _) => {
            let found = ctx.lookup_struct(n).is_some();
            let full = match ctx.resolve_full_name(n) {
                Some(f) => f,
                None => n.clone(),
            };
            assert(spec_lookup_struct(statics(ctx@), n@) == spec_lookup_struct(ctx@, n@));
            found && !string_is(&full, "Vec") && !string_is(&full, "HashMap")
        },
        _ => false,
    }
}

/// The parses of array elements `i..len` (see `array_elems`).
fn array_elems_from(
    ctx: &mut TypeContext,
    et: &Type,
    names: &Vec<String>,
    span: Span,
    i: usize,
    len: usize,
    Ghost(b): Ghost<nat>,
    Ghost(fuel): Ghost<nat>,
) -> (r: Result<Vec<AstExpr>, TypeError>)
    requires
        i <= len,
        temps_from(names@, b, 3),
        array_elems(statics(old(ctx)@), et@, b, span, i as nat, len as nat, old(ctx)@.next_temp, fuel) matches Some((_, n2))
            && n2 <= usize::MAX,
    ensures
        array_elems(statics(old(ctx)@), et@, b, span, i as nat, len as nat, old(ctx)@.next_temp, fuel) matches Some((res, n2))
            && final(ctx)@ == (Ctx { next_temp: n2, ..old(ctx)@ }) && match res {
                Ok(es) => r matches Ok(v) && view_exprs(v@) == es,
                Err(m) => r matches Err(TypeError::Unsupported { what, span: sp }) && what@ == m && sp == span,
            },
    decreases fuel, len - i + 1,
{
    let ghost cs = statics(ctx@);
    if i >= len {
        return Ok(vec0());
    }
    let part = mk_index(tmp_ast(names, 2, span, Ghost(b)), mk_int(i as i128, span), span);
    assert(part@ == part_at(b, i as int, span));
    let ghost n0 = ctx@.next_temp;
    proof {
        lemma_tparse_counter(cs, et@, part@, span, false, n0, fuel);
        if let Some((Ok(_), n2)) = tparse(cs, et@, part@, span, false, n0, fuel) {
            lemma_array_counter(cs, et@, b, span, (i + 1) as nat, len as nat, n2, fuel);
        }
    }
    match tparse_rec(ctx, et, &part, span, false, Ghost(fuel)) {
        Ok(e) => {
            let ghost ev = e@;
            match array_elems_from(ctx, et, names, span, i + 1, len, Ghost(b), Ghost(fuel)) {
                Ok(rest) => {
                    let mut v = vec1(e);
                    let ghost v0 = v@;
                    let mut rest = rest;
                    let ghost r0 = rest@;
                    v.append(&mut rest);
                    proof {
                        crate::ast::lemma_view_exprs(v@);
                        crate::ast::lemma_view_exprs(v0);
                        crate::ast::lemma_view_exprs(r0);
                        assert(view_exprs(v@) =~= seq![ev] + view_exprs(r0));
                    }
                    Ok(v)
                },
                Err(err) => Err(err),
            }
        },
        Err(err) => Err(err),
    }
}

/// The field tests of fields `k - 1` down to `0` (see `tfield_chain`).
fn tfield_chain_from(
    ctx: &mut TypeContext,
    fs: &Vec<(String, Type)>,
    k: usize,
    acc: Option<AstExpr>,
    names: &Vec<String>,
    span: Span,
    Ghost(b): Ghost<nat>,
    Ghost(fuel): Ghost<nat>,
) -> (r: Result<Option<AstExpr>, TypeError>)
    requires
        k <= fs@.len(),
        temps_from(names@, b, 10),
        tfield_chain(statics(old(ctx)@), fields_view(fs@), k as nat, opt_view(acc), b, span, old(ctx)@.next_temp, fuel)
            matches Some((_, n2)) && n2 <= usize::MAX,
    ensures
        tfield_chain(statics(old(ctx)@), fields_view(fs@), k as nat, opt_view(acc), b, span, old(ctx)@.next_temp, fuel)
            matches Some((res, n2)) && final(ctx)@ == (Ctx { next_temp: n2, ..old(ctx)@ }) && match res {
                Ok(ch) => r matches Ok(x) && ch == opt_view(x),
                Err(m) => r matches Err(TypeError::Unsupported { what, span: sp }) && what@ == m && sp == span,
            },
    decreases fuel, k + 1,
{
    let ghost cs = statics(ctx@);
    let ghost fsv = fields_view(fs@);
    let ghost accv = opt_view(acc);
    if k == 0 {
        return Ok(acc);
    }
    assert(fsv[k - 1] == (fs@[k - 1].0@, fs@[k - 1].1@));
    let val_id = tmp_ast(names, 7, span, Ghost(b));
    let ghost n0 = ctx@.next_temp;
    proof {
        lemma_tparse_counter(cs, fsv[k - 1].1, tmp(b, 7, span), span, true, n0, fuel);
        if let Some((Ok(v), n2)) = tparse(cs, fsv[k - 1].1, tmp(b, 7, span), span, true, n0, fuel) {
            lemma_tchain_counter(cs, fsv, (k - 1) as nat, Some(field_if(b, fsv[k - 1].0, v, accv, span)), b, span, n2, fuel);
        }
    }
    match tparse_rec(ctx, &fs[k - 1].1, &val_id, span, true, Ghost(fuel)) {
        Ok(v) => {
            let next = crate::json_de::field_if_ast(names, &fs[k - 1].0, v, acc, span, Ghost(b));
            tfield_chain_from(ctx, fs, k - 1, Some(next), names, span, Ghost(b), Ghost(fuel))
        },
        Err(e) => Err(e),
    }
}

fn inner_if_ast(
    names: &Vec<String>,
    path: &Vec<String>,
    f: &String,
    v: AstExpr,
    acc: Option<AstExpr>,
    span: Span,
    Ghost(b): Ghost<nat>,
) -> (r: AstExpr)
    requires
        temps_from(names@, b, 10),
    ensures
        r@ == inner_if(b, view_strings(path@), f@, v@, opt_view(acc), span),
{
    let target = mk_field(path_target_ast(names, path, span, Ghost(b)), f.clone(), span);
    let then_b = semi_block(mk_assign(target, v, span), span);
    let else_b = match acc {
        Some(e) => {
            assert(view_stmts(Seq::<AstStmt>::empty()) =~= Seq::<St>::empty());
            Some(mk_block(Vec::new(), Some(e), span))
        },
        None => None,
    };
    let cond = chain2_ast(tmp_ast(names, 6, span, Ghost(b)), CompareOp::Eq, lit_ast(f.as_str(), span), span);
    mk_if(cond, then_b, else_b, span)
}

fn section_if_ast(names: &Vec<String>, path: &Vec<String>, d: Option<AstExpr>, acc: Option<AstBlock>, span: Span, Ghost(b): Ghost<nat>) -> (r: AstBlock)
    requires
        temps_from(names@, b, 10),
    ensures
        r@ == section_if(b, view_strings(path@), opt_view(d), view_opt_block(acc), span),
{
    assert(view_stmts(Seq::<AstStmt>::empty()) =~= Seq::<St>::empty());
    let disp = match d {
        Some(e) => e,
        None => mk_block_expr(mk_block(Vec::new(), None, span), span),
    };
    let label = join_dot_string(path);
    let cond = chain2_ast(tmp_ast(names, 8, span, Ghost(b)), CompareOp::Eq, lit_ast(label.as_str(), span), span);
    let new_if = mk_if(cond, semi_block(disp, span), acc, span);
    mk_block(Vec::new(), Some(new_if), span)
}

/// The field tests inside a section (see `inner_chain`).
fn inner_chain_from(
    ctx: &mut TypeContext,
    path: &Vec<String>,
    names: &Vec<String>,
    ifs: &Vec<(String, Type)>,
    k: usize,
    acc: Option<AstExpr>,
    span: Span,
    Ghost(b): Ghost<nat>,
    Ghost(fuel): Ghost<nat>,
) -> (r: Option<AstExpr>)
    requires
        k <= ifs@.len(),
        temps_from(names@, b, 10),
        inner_chain(statics(old(ctx)@), view_strings(path@), b, fields_view(ifs@), k as nat, opt_view(acc), span, old(ctx)@.next_temp, fuel)
            matches Some((_, n2)) && n2 <= usize::MAX,
    ensures
        inner_chain(statics(old(ctx)@), view_strings(path@), b, fields_view(ifs@), k as nat, opt_view(acc), span, old(ctx)@.next_temp, fuel)
            matches Some((res, n2)) && final(ctx)@ == (Ctx { next_temp: n2, ..old(ctx)@ }) && res == opt_view(r),
    decreases fuel, k + 1,
{
    let ghost cs = statics(ctx@);
    let ghost fsv = fields_view(ifs@);
    let ghost pv = view_strings(path@);
    let ghost accv = opt_view(acc);
    if k == 0 {
        return acc;
    }
    assert(fsv[k - 1] == (ifs@[k - 1].0@, ifs@[k - 1].1@));
    let val_id = tmp_ast(names, 7, span, Ghost(b));
    let ghost n0 = ctx@.next_temp;
    proof {
        lemma_tparse_counter(cs, fsv[k - 1].1, tmp(b, 7, span), span, false, n0, fuel);
        if let Some((res, n2)) = tparse(cs, fsv[k - 1].1, tmp(b, 7, span), span, false, n0, fuel) {
            lemma_inner_counter(cs, pv, b, fsv, (k - 1) as nat, Some(inner_if(b, pv, fsv[k - 1].0, inner_value(res, b, span), accv, span)), span, n2, fuel);
        }
    }
    let v = match tparse_rec(ctx, &ifs[k - 1].1, &val_id, span, false, Ghost(fuel)) {
        Ok(v) => v,
        Err(_) => tmp_ast(names, 7, span, Ghost(b)),
    };
    let new_if = inner_if_ast(names, path, &ifs[k - 1].0, v, acc, span, Ghost(b));
    inner_chain_from(ctx, path, names, ifs, k - 1, Some(new_if), span, Ghost(b), Ghost(fuel))
}

/// The `[section]` branches (see `sections`).
fn sections_from(
    ctx: &mut TypeContext,
    fs: &Vec<(String, Type)>,
    prefix: &Vec<String>,
    names: &Vec<String>,
    span: Span,
    acc: Option<AstBlock>,
    k: usize,
    Ghost(b): Ghost<nat>,
    Ghost(fuel): Ghost<nat>,
) -> (r: Option<AstBlock>)
    requires
        k <= fs@.len(),
        temps_from(names@, b, 10),
        sections(statics(old(ctx)@), fields_view(fs@), view_strings(prefix@), b, span, view_opt_block(acc), k as nat, old(ctx)@.next_temp, fuel)
            matches Some((_, n2)) && n2 <= usize::MAX,
    ensures
        sections(statics(old(ctx)@), fields_view(fs@), view_strings(prefix@), b, span, view_opt_block(acc), k as nat, old(ctx)@.next_temp, fuel)
            matches Some((res, n2)) && final(ctx)@ == (Ctx { next_temp: n2, ..old(ctx)@ }) && res == view_opt_block(r),
    decreases fuel, k + 1,
{
    let ghost cs = statics(ctx@);
    let ghost fsv = fields_view(fs@);
    let ghost pv = view_strings(prefix@);
    let ghost accv = view_opt_block(acc);
    let ghost n0 = ctx@.next_temp;
    if k == 0 {
        return acc;
    }
    let ghost f = (fuel - 1) as nat;
    assert(fsv[k - 1] == (fs@[k - 1].0@, fs@[k - 1].1@));
    let ft = &fs[k - 1].1;
    if !is_nested_struct_exec(ctx, ft) {
        return sections_from(ctx, fs, prefix, names, span, acc, k - 1, Ghost(b), Ghost(fuel));
    }
    let mut path = crate::ast::clone_strings(prefix);
    path.push(fs[k - 1].0.clone());
    let ghost pathv = view_strings(path@);
    assert(pathv =~= pv.push(fsv[k - 1].0));
    let inner_fs: Option<Vec<(String, Type)>> = match ft {
        Type::Named(iname, _) => {
            assert(spec_lookup_struct(cs, iname@) == spec_lookup_struct(ctx@, iname@));
            match ctx.lookup_struct(iname) {
                Some(d) => Some(crate::json_ser::clone_fields(&d.fields)),
                None => None,
            }
        },
        _ => None,
    };
    let ghost inner = nested_fields(cs, ft@);
    assert(match inner_fs {
        Some(v) => inner == Some(fields_view(v@)),
        None => inner is None,
    });
    proof {
        if let Some(ifs) = inner {
            lemma_sections_counter(cs, ifs, pathv, b, span, accv, ifs.len(), n0, f);
        }
        let deeper = match inner {
            Some(ifs) => sections(cs, ifs, pathv, b, span, accv, ifs.len(), n0, f),
            None => Some((accv, n0)),
        };
        if let Some((acc1, n1)) = deeper {
            lemma_inner_counter(cs, pathv, b, or_empty(inner), or_empty(inner).len(), None, span, n1, f);
            if let Some((d, n2)) = inner_chain(cs, pathv, b, or_empty(inner), or_empty(inner).len(), None, span, n1, f) {
                lemma_sections_counter(cs, fsv, pv, b, span, Some(section_if(b, pathv, d, acc1, span)), (k - 1) as nat, n2, fuel);
            }
        }
    }
    let acc1 = match &inner_fs {
        Some(ifs) => sections_from(ctx, ifs, &path, names, span, acc, ifs.len(), Ghost(b), Ghost(f)),
        None => acc,
    };
    let ifs = match inner_fs {
        Some(v) => v,
        None => Vec::new(),
    };
    assert(fields_view(ifs@) == or_empty(inner)) by {
        if inner is None {
            assert(fields_view(ifs@) =~= Seq::<(Seq<char>, Ty)>::empty());
        }
    }
    let d = inner_chain_from(ctx, &path, names, &ifs, ifs.len(), None, span, Ghost(b), Ghost(f));
    let next = section_if_ast(names, &path, d, acc1, span, Ghost(b));
    sections_from(ctx, fs, prefix, names, span, Some(next), k - 1, Ghost(b), Ghost(fuel))
}

fn tparse_rec(ctx: &mut TypeContext, ty: &Type, arg: &AstExpr, span: Span, inline: bool, Ghost(fuel): Ghost<nat>) -> (r: Result<AstExpr, TypeError>)
    requires
        tparse(statics(old(ctx)@), ty@, arg@, span, inline, old(ctx)@.next_temp, fuel) matches Some((_, n2)) && n2 <= usize::MAX,
    ensures
        tparse(statics(old(ctx)@), ty@, arg@, span, inline, old(ctx)@.next_temp, fuel) matches Some((res, n2))
            && final(ctx)@ == (Ctx { next_temp: n2, ..old(ctx)@ }) && step_matches(r, res, span),
    decreases fuel, 0nat,
{
    let ghost cs = statics(ctx@);
    let ghost n0 = ctx@.next_temp;
    let ghost f = (fuel - 1) as nat;
    match ty {
        Type::I64 => Ok(mk_ident_call("string_to_int".to_string(), vec1(string_from_ast(arg, span)), span)),
        Type::Bool => {
            let cond = chain2_ast(string_from_ast(arg, span), CompareOp::Eq, lit_ast("true", span), span);
            assert(view_stmts(Seq::<AstStmt>::empty()) =~= Seq::<St>::empty());
            Ok(mk_if(cond, mk_block(Vec::new(), Some(mk_bool(true, span)), span), Some(mk_block(Vec::new(), Some(mk_bool(false, span)), span)), span))
        },
        Type::F64 => Ok(mk_ident_call("string_to_float".to_string(), vec1(string_from_ast(arg, span)), span)),
        Type::Array(elem, len) => {
            let et = substitute(elem, &ctx.generic_subst);
            if matches!(et, Type::Infer) {
                return Err(TypeError::Unsupported {
                    what: "toml.parse：固定数组元素类型未确定（如 `toml::from_str::<[i64; 3]>(s)` 需标注类型）".to_string(),
                    span,
                });
            }
            if *len == 0 {
                return Err(TypeError::Unsupported { what: "toml.parse：空固定数组 `[T; 0]` 反序列化未支持".to_string(), span });
            }
            proof {
                lemma_array_counter(cs, et@, n0, span, 0, *len as nat, n0 + 3, f);
            }
            let names = fresh_temps(ctx, 3);
            match array_elems_from(ctx, &et, &names, span, 0, *len, Ghost(n0), Ghost(f)) {
                Ok(es) => Ok(array_block_ast(arg, es, &names, span, Ghost(n0))),
                Err(e) => Err(e),
            }
        },
        Type::Named(name, args) => {
            assert(ty@ == Ty::Named(name@, view_types(args@)));
            if string_is(name, "String") {
                Ok(toml_string_value_ast(&string_from_ast(arg, span), span))
            } else if string_is(name, "Vec") && args.len() == 1 {
                assert(view_types(args@)[0] == args@[0]@);
                let et = substitute(&args[0], &ctx.generic_subst);
                if matches!(et, Type::Infer) {
                    return Err(TypeError::Unsupported {
                        what: "toml.parse：Vec 元素类型未确定（turbofish 显式定型，如 `toml.parse::<Vec<i64>>(s)`）".to_string(),
                        span,
                    });
                }
                proof {
                    lemma_tparse_counter(cs, et@, tmp(n0, 4, span), span, false, n0 + 6, f);
                }
                let names = fresh_temps(ctx, 6);
                let part = tmp_ast(&names, 4, span, Ghost(n0));
                match tparse_rec(ctx, &et, &part, span, false, Ghost(f)) {
                    Ok(e) => Ok(vec_block_ast(arg, &et, e, &names, span, Ghost(n0))),
                    Err(e) => Err(e),
                }
            } else if string_is(name, "HashMap") && args.len() == 2 {
                assert(view_types(args@)[0] == args@[0]@);
                assert(view_types(args@)[1] == args@[1]@);
                let kt = substitute(&args[0], &ctx.generic_subst);
                let vt = substitute(&args[1], &ctx.generic_subst);
                if matches!(kt, Type::Infer) || matches!(vt, Type::Infer) {
                    return Err(TypeError::Unsupported {
                        what: "toml.parse：HashMap 键/值类型未确定（turbofish 显式定型，如 `toml.parse::<HashMap<i64, i64>>(s)`）".to_string(),
                        span,
                    });
                }
                let key_is_i64 = matches!(kt, Type::I64);
                let key_is_string = match &kt {
                    Type::Named(kn, _) => string_is(kn, "String"),
                    _ => false,
                };
                if !key_is_i64 && !key_is_string {
                    return Err(TypeError::Unsupported {
                        what: crate::json_de::msg_string("toml.parse：HashMap 键类型 `", &kt, "`（MVP 支持 i64 / String）"),
                        span,
                    });
                }
                proof {
                    lemma_tparse_counter(cs, vt@, tmp(n0, 7, span), span, false, n0 + 10, f);
                }
                let names = fresh_temps(ctx, 10);
                let vpart = tmp_ast(&names, 7, span, Ghost(n0));
                match tparse_rec(ctx, &vt, &vpart, span, false, Ghost(f)) {
                    Ok(val) => Ok(map_block_ast(arg, key_is_i64, &kt, &vt, val, &names, span, Ghost(n0))),
                    Err(e) => Err(e),
                }
            } else if ctx.lookup_struct(name).is_some() && args.len() == 0 {
                assert(spec_lookup_struct(cs, name@) == spec_lookup_struct(ctx@, name@));
                let fs = match ctx.lookup_struct(name) {
                    Some(d) => crate::json_ser::clone_fields(&d.fields),
                    None => Vec::new(),
                };
                let ghost fsv = fields_view(fs@);
                assert(fsv == spec_lookup_struct(cs, name@).unwrap());
                if fs.len() == 0 {
                    let mut what = "toml.parse：空结构体 `".to_string();
                    what.append(name.as_str());
                    what.append("` 反序列化");
                    return Err(TypeError::Unsupported { what, span });
                }
                proof {
                    lemma_tchain_counter(cs, fsv, fsv.len(), None, n0, span, n0 + 10, f);
                    if let Some((Ok(_), n2)) = tfield_chain(cs, fsv, fsv.len(), None, n0, span, n0 + 10, f) {
                        lemma_sections_counter(cs, fsv, Seq::empty(), n0, span, None, fsv.len(), n2, f);
                    }
                }
                let names = fresh_temps(ctx, 10);
                let inits = match crate::json_de::zero_inits_from(ctx, &fs, 0, span, Ghost(f)) {
                    Ok(v) => v,
                    Err(e) => return Err(e),
                };
                let ch = match tfield_chain_from(ctx, &fs, fs.len(), None, &names, span, Ghost(n0), Ghost(f)) {
                    Ok(Some(ch)) => ch,
                    Ok(None) => {
                        proof {
                            lemma_tchain_some(cs, fsv, fsv.len(), None, n0, span, n0 + 10, f);
                        }
                        return Err(TypeError::Unsupported { what: crate::json_de::msg_string("toml.parse：类型 `", ty, "` 反序列化"), span });
                    },
                    Err(e) => return Err(e),
                };
                if inline {
                    Ok(struct_block_ast(arg, name, inits, ch, inline, &names, span, Ghost(n0)))
                } else {
                    let empty: Vec<String> = Vec::new();
                    assert(view_strings(empty@) =~= Seq::<Seq<char>>::empty());
                    let secs = sections_from(ctx, &fs, &empty, &names, span, None, fs.len(), Ghost(n0), Ghost(f));
                    let dispatch = top_dispatch_ast(&names, ch, secs, span, Ghost(n0));
                    Ok(struct_block_ast(arg, name, inits, dispatch, inline, &names, span, Ghost(n0)))
                }
            } else {
                Err(TypeError::Unsupported { what: crate::json_de::msg_string("toml.parse：类型 `", ty, "` 反序列化"), span })
            }
        },
        _ => Err(TypeError::Unsupported { what: crate::json_de::msg_string("toml.parse：类型 `", ty, "` 反序列化"), span }),
    }
}

/// The desugaring of `toml.parse::<T>(arg)` for the target type `ty` (`inline`
/// for a value nested in an inline table): `string_to_int(..)` for `i64`;
/// `string_to_float(..)` for `f64`; a `true` test for `bool`; the string value
/// (raw for `"""..."""`, unescaped otherwise) for `String`; the array of the
/// element parses for `[T; N]`; a loop pushing each element for `Vec<T>`; a
/// loop inserting each `k = v` entry for `HashMap<K, V>` (keys `i64` or
/// `String`); for a struct without type arguments, a loop over its lines (or
/// inline-table parts) assigning the field named by each `key = value`, where
/// at top level `[section]` headers select the nested struct field that the
/// following lines assign. Other types, arrays of length 0 and collections
/// whose element types are still undetermined are unsupported.
pub fn toml_parse_ast(ctx: &mut TypeContext, ty: &Type, arg: &AstExpr, span: Span, inline: bool) -> (r: Result<AstExpr, TypeError>)
    requires
        tparse_finite(old(ctx)@, ty@, arg@, span, inline),
        spec_toml_parse(old(ctx)@, ty@, arg@, span, inline).1 <= usize::MAX,
    ensures
        final(ctx)@ == (Ctx { next_temp: spec_toml_parse(old(ctx)@, ty@, arg@, span, inline).1, ..old(ctx)@ }),
        step_matches(r, spec_toml_parse(old(ctx)@, ty@, arg@, span, inline).0, span),
{
    let ghost fuel = choose|fuel: nat| tparse(statics(ctx@), ty@, arg@, span, inline, ctx@.next_temp, fuel) is Some;
    tparse_rec(ctx, ty, arg, span, inline, Ghost(fuel))
}

// ---------------------------------------------------------------------------
// Strict parsing
// ---------------------------------------------------------------------------

/// `s.len() >= 2 && s.get(0) == <open> && s.get(s.len() - 1) == <open + 2>`:
/// the text is enclosed in `[ ]` (91, 93) or `{ }` (123, 125).
pub open spec fn enclosed(s: Ex, open: int, span: Span) -> Ex {
    let len = mcall(s, "len"@, Seq::empty(), span);
    bin(
        BinaryOp::And,
        bin(BinaryOp::And, chain2(len, CompareOp::Ge, int_lit(2, span), span), chain2(getc(s, int_lit(0, span), span), CompareOp::Eq, int_lit(open, span), span), span),
        chain2(getc(s, len_minus(len, 1, span), span), CompareOp::Eq, int_lit(open + 2, span), span),
        span,
    )
}

/// `<f>(s).is_ok() == 1`
pub open spec fn ok_check(f: Seq<char>, s: Ex, span: Span) -> Ex {
    chain2(mcall(spec_ident_call(f, seq![s], span), "is_ok"@, Seq::empty(), span), CompareOp::Eq, int_lit(1, span), span)
}

/// The validity test of the TOML text `s` for the target type `t`, with the
/// message of the error it reports (`None` for unsupported targets): strict
/// integer, boolean, string and float tests; `[ ]` around arrays and vectors;
/// `{ }` around other named types (maps and structs).
pub open spec fn ttry_check(t: Ty, s: Ex, span: Span) -> Option<(Ex, Seq<char>)> {
    match t {
        Ty::I64 => Some((ok_check("parse_int_strict"@, s, span), "invalid integer"@)),
        Ty::Bool => Some((
            bin(BinaryOp::Or, chain2(s, CompareOp::Eq, lit("true"@, span), span), chain2(s, CompareOp::Eq, lit("false"@, span), span), span),
            "invalid bool"@,
        )),
        Ty::Named(name, _) => if name == "String"@ {
            Some((ok_check("json_unescape_checked"@, s, span), "invalid string"@))
        } else if name == "Vec"@ {
            Some((enclosed(s, 91, span), "invalid array"@))
        } else {
            Some((enclosed(s, 123, span), "invalid object"@))
        },
        Ty::F64 => Some((ok_check("parse_float_strict"@, s, span), "invalid float"@)),
        Ty::Array(..) => Some((enclosed(s, 91, span), "invalid array"@)),
        _ => None,
    }
}

/// `{ let s = String::from(arg); if <cond> { Result::Ok(<parse>) } else {
///    Result::Err(serde::TomlError::ParseError("<msg>")) } }` with temporary `n`.
pub open spec fn ttry_block(arg: Ex, n: nat, cond: Ex, parsed: Ex, msg: Seq<char>, span: Span) -> Ex {
    let ok = spec_path_call(seq!["Result"@, "Ok"@], seq![parsed], span);
    let err = spec_path_call(
        seq!["Result"@, "Err"@],
        seq![spec_path_call(seq!["serde"@, "TomlError"@, "ParseError"@], seq![lit(msg, span)], span)],
        span,
    );
    ex(ExK::Block(blk(
        seq![let_ident(temp_name(n), string_from(arg, span), false)],
        Some(ex(ExK::If(Box::new(cond), blk(Seq::empty(), Some(ok), span), Some(blk(Seq::empty(), Some(err), span))), span)),
        span,
    )), span)
}

pub open spec fn msg_try_other(t: Ty) -> Seq<char> {
    "toml.try_parse：类型 `"@ + render(t) + "` 反序列化"@
}

/// The strict deserialization of `arg` into `t` from temporary counter `n`.
pub open spec fn ttry_parse(c: Ctx, t: Ty, arg: Ex, span: Span, n: nat, fuel: nat) -> Option<SerStep> {
    match ttry_check(t, tmp(n, 0, span), span) {
        None => Some((Err(msg_try_other(t)), n + 1)),
        Some((cond, msg)) => match tparse(c, t, tmp(n, 0, span), span, false, n + 1, fuel) {
            Some((Ok(p), n2)) => Some((Ok(ttry_block(arg, n, cond, p, msg, span)), n2)),
            Some((Err(m), n2)) => Some((Err(m), n2)),
            None => None,
        },
    }
}

pub open spec fn ttry_finite(c: Ctx, t: Ty, arg: Ex, span: Span) -> bool {
    exists|fuel: nat| ttry_parse(statics(c), t, arg, span, c.next_temp, fuel) is Some
}

pub open spec fn spec_toml_try_parse(c: Ctx, t: Ty, arg: Ex, span: Span) -> SerStep {
    ttry_parse(statics(c), t, arg, span, c.next_temp, choose|fuel: nat| ttry_parse(statics(c), t, arg, span, c.next_temp, fuel) is Some).unwrap()
}

fn enclosed_ast(s_name: &String, open: i128, span: Span) -> (r: AstExpr)
    requires
        open < 1000,
    ensures
        r@ == enclosed(ident(s_name@, span), open as int, span),
{
    let s = ident_ast(s_name, span);
    let len_ge2 = chain2_ast(len_ast(&s, span), CompareOp::Ge, mk_int(2, span), span);
    let first = chain2_ast(getc_ast(&s, mk_int(0, span), span), CompareOp::Eq, mk_int(open, span), span);
    let last = chain2_ast(getc_ast(&s, len_minus_ast(&s, 1, span), span), CompareOp::Eq, mk_int(open + 2, span), span);
    and_ast(and_ast(len_ge2, first, span), last, span)
}

fn ok_check_ast(f: &str, s_name: &String, span: Span) -> (r: AstExpr)
    ensures
        r@ == ok_check(f@, ident(s_name@, span), span),
{
    let call = mk_ident_call(f.to_string(), vec1(ident_ast(s_name, span)), span);
    crate::json_de::is_ok_eq_one(call, span)
}

fn ttry_check_ast(ty: &Type, s_name: &String, span: Span) -> (r: Option<(AstExpr, &'static str)>)
    ensures
        match ttry_check(ty@, ident(s_name@, span), span) {
            None => r is None,
            Some((c, m)) => r matches Some((x, ms)) && x@ == c && ms@ == m,
        },
{
    proof {
        reveal_strlit("invalid integer");
        reveal_strlit("invalid bool");
        reveal_strlit("invalid string");
        reveal_strlit("invalid array");
        reveal_strlit("invalid object");
        reveal_strlit("invalid float");
    }
    match ty {
        Type::I64 => Some((ok_check_ast("parse_int_strict", s_name, span), "invalid integer")),
        Type::Bool => {
            let t = chain2_ast(ident_ast(s_name, span), CompareOp::Eq, lit_ast("true", span), span);
            let f = chain2_ast(ident_ast(s_name, span), CompareOp::Eq, lit_ast("false", span), span);
            Some((mk_binary(BinaryOp::Or, t, f, span), "invalid bool"))
        },
        Type::Named(name, _) => {
            if string_is(name, "String") {
                Some((ok_check_ast("json_unescape_checked", s_name, span), "invalid string"))
            } else if string_is(name, "Vec") {
                Some((enclosed_ast(s_name, 91, span), "invalid array"))
            } else {
                Some((enclosed_ast(s_name, 123, span), "invalid object"))
            }
        },
        Type::F64 => Some((ok_check_ast("parse_float_strict", s_name, span), "invalid float")),
        Type::Array(..) => Some((enclosed_ast(s_name, 91, span), "invalid array")),
        _ => None,
    }
}

fn ttry_block_ast(arg: &AstExpr, s_name: String, cond: AstExpr, parsed: AstExpr, msg: &str, span: Span, Ghost(n): Ghost<nat>) -> (r: AstExpr)
    requires
        s_name@ == temp_name(n),
    ensures
        r@ == ttry_block(arg@, n, cond@, parsed@, msg@, span),
{
    let okp = vec!["Result".to_string(), "Ok".to_string()];
    assert(view_strings(okp@) =~= seq!["Result"@, "Ok"@]);
    let ok = mk_path_call(okp, vec1(parsed), span);
    let pe = vec!["serde".to_string(), "TomlError".to_string(), "ParseError".to_string()];
    assert(view_strings(pe@) =~= seq!["serde"@, "TomlError"@, "ParseError"@]);
    let perr = mk_path_call(pe, vec1(lit_ast(msg, span)), span);
    let errp = vec!["Result".to_string(), "Err".to_string()];
    assert(view_strings(errp@) =~= seq!["Result"@, "Err"@]);
    let err = mk_path_call(errp, vec1(perr), span);
    assert(view_stmts(Seq::<AstStmt>::empty()) =~= Seq::<St>::empty());
    let ife = mk_if(cond, mk_block(Vec::new(), Some(ok), span), Some(mk_block(Vec::new(), Some(err), span)), span);
    let st = mk_let(s_name, string_from_ast(arg, span), false);
    let ghost sv = st@;
    let stmts = vec![st];
    proof {
        crate::ast::lemma_view_stmts(stmts@);
    }
    assert(view_stmts(stmts@) =~= seq![sv]);
    mk_block_expr(mk_block(stmts, Some(ife), span), span)
}

fn ttry_parse_rec(ctx: &mut TypeContext, ty: &Type, arg: &AstExpr, span: Span, Ghost(fuel): Ghost<nat>) -> (r: Result<AstExpr, TypeError>)
    requires
        ttry_parse(statics(old(ctx)@), ty@, arg@, span, old(ctx)@.next_temp, fuel) matches Some((_, n2)) && n2 <= usize::MAX,
    ensures
        ttry_parse(statics(old(ctx)@), ty@, arg@, span, old(ctx)@.next_temp, fuel) matches Some((res, n2))
            && final(ctx)@ == (Ctx { next_temp: n2, ..old(ctx)@ }) && step_matches(r, res, span),
{
    let ghost cs = statics(ctx@);
    let ghost n0 = ctx@.next_temp;
    proof {
        lemma_tparse_counter(cs, ty@, tmp(n0, 0, span), span, false, n0 + 1, fuel);
    }
    let s_name = ctx.fresh_temp();
    let (cond, msg) = match ttry_check_ast(ty, &s_name, span) {
        Some(cm) => cm,
        None => {
            return Err(TypeError::Unsupported { what: crate::json_de::msg_string("toml.try_parse：类型 `", ty, "` 反序列化"), span });
        },
    };
    let s_id = ident_ast(&s_name, span);
    match tparse_rec(ctx, ty, &s_id, span, false, Ghost(fuel)) {
        Ok(parsed) => Ok(ttry_block_ast(arg, s_name, cond, parsed, msg, span, Ghost(n0))),
        Err(e) => Err(e),
    }
}

/// The desugaring of `toml.try_parse::<T>(arg)`: the text is bound to a
/// temporary and checked for the target type (see `ttry_check`); valid text
/// gives `Result::Ok(<toml.parse of it>)`, other text
/// `Result::Err(TomlError::ParseError("<reason>"))`. Targets without a check,
/// and those that `toml_parse_ast` does not support, are unsupported.
pub fn toml_try_parse_ast(ctx: &mut TypeContext, ty: &Type, arg: &AstExpr, span: Span) -> (r: Result<AstExpr, TypeError>)
    requires
        ttry_finite(old(ctx)@, ty@, arg@, span),
        spec_toml_try_parse(old(ctx)@, ty@, arg@, span).1 <= usize::MAX,
    ensures
        final(ctx)@ == (Ctx { next_temp: spec_toml_try_parse(old(ctx)@, ty@, arg@, span).1, ..old(ctx)@ }),
        step_matches(r, spec_toml_try_parse(old(ctx)@, ty@, arg@, span).0, span),
{
    let ghost fuel = choose|fuel: nat| ttry_parse(statics(ctx@), ty@, arg@, span, ctx@.next_temp, fuel) is Some;
    ttry_parse_rec(ctx, ty, arg, span, Ghost(fuel))
}

/// `toml.parse` and `toml.try_parse` only advance the temporary counter: the
/// names of the temporaries they create were never handed out before.
pub proof fn law_toml_counter_advances(c: Ctx, t: Ty, arg: Ex, span: Span, inline: bool)
    ensures
        tparse_finite(c, t, arg, span, inline) ==> c.next_temp <= spec_toml_parse(c, t, arg, span, inline).1,
        ttry_finite(c, t, arg, span) ==> c.next_temp < spec_toml_try_parse(c, t, arg, span).1,
{
    if tparse_finite(c, t, arg, span, inline) {
        let fuel = choose|fuel: nat| tparse(statics(c), t, arg, span, inline, c.next_temp, fuel) is Some;
        lemma_tparse_counter(statics(c), t, arg, span, inline, c.next_temp, fuel);
    }
    if ttry_finite(c, t, arg, span) {
        let fuel = choose|fuel: nat| ttry_parse(statics(c), t, arg, span, c.next_temp, fuel) is Some;
        lemma_tparse_counter(statics(c), t, tmp(c.next_temp, 0, span), span, false, c.next_temp + 1, fuel);
    }
}


/// `"true"` and `"false"` are different texts.
proof fn lemma_true_false_differ()
    ensures
        "true"@ != "false"@,
{
    reveal_strlit("true");
    reveal_strlit("false");
    assert("true"@.len() == 4 && "false"@.len() == 5);
}

/// `toml.try_parse::<bool>(s)` accepts exactly the texts `true` and `false`:
/// run on a text, its expansion gives `Ok(true)` for `true`, `Ok(false)` for
/// `false`, and the `invalid bool` parse error for every other text.
pub proof fn law_toml_try_parse_bool(c: Ctx, a: Seq<char>, span: Span, text: Seq<char>)
    ensures
        spec_toml_try_parse(c, Ty::Bool, ident(a, span), span).0 matches Ok(e) && eval(
            e,
            map![a => Val::Str(text)],
        ) == Some(
            if text == "true"@ {
                Val::Okv(Box::new(Val::Bool(true)))
            } else if text == "false"@ {
                Val::Okv(Box::new(Val::Bool(false)))
            } else {
                Val::Errv(Box::new(Val::Str("invalid bool"@)))
            },
        ),
{
    lemma_true_false_differ();
    let arg = ident(a, span);
    let cs = statics(c);
    let n = c.next_temp;
    assert(ttry_parse(cs, Ty::Bool, arg, span, n, 1) is Some);
    let f = choose|fuel: nat| ttry_parse(cs, Ty::Bool, arg, span, n, fuel) is Some;
    assert(ttry_parse(cs, Ty::Bool, arg, span, n, f) is Some);
    assert(f > 0);
    let s = tmp(n, 0, span);
    let cond = bin(
        BinaryOp::Or,
        chain2(s, CompareOp::Eq, lit("true"@, span), span),
        chain2(s, CompareOp::Eq, lit("false"@, span), span),
        span,
    );
    let parsed = ex(ExK::If(
        Box::new(chain2(string_from(s, span), CompareOp::Eq, lit("true"@, span), span)),
        blk(Seq::empty(), Some(ex(ExK::Bool(true), span)), span),
        Some(blk(Seq::empty(), Some(ex(ExK::Bool(false), span)), span)),
    ), span);
    assert(ttry_check(Ty::Bool, s, span) == Some((cond, "invalid bool"@)));
    assert(tparse(cs, Ty::Bool, s, span, false, n + 1, f) == Some((Ok::<Ex, Seq<char>>(parsed), n + 1)));
    let e = ttry_block(arg, n, cond, parsed, "invalid bool"@, span);
    assert(spec_toml_try_parse(c, Ty::Bool, arg, span).0 == Ok::<Ex, Seq<char>>(e));
    let env0 = map![a => Val::Str(text)];
    let t0 = temp_name(n);
    let env1 = env0.insert(t0, Val::Str(text));
    assert(eval(arg, env0) == Some(Val::Str(text)));
    assert(eval(string_from(arg, span), env0) == Some(Val::Str(text)));
    assert(eval(s, env1) == Some(Val::Str(text)));
    assert(eval(ex(ExK::Str("true"@), span), env1) == Some(Val::Str("true"@)));
    assert(eval(ex(ExK::Str("false"@), span), env1) == Some(Val::Str("false"@)));
    assert(eval(ex(ExK::Str("invalid bool"@), span), env1) == Some(Val::Str("invalid bool"@)));
    assert(eval(lit("true"@, span), env1) == Some(Val::Str("true"@)));
    assert(eval(lit("false"@, span), env1) == Some(Val::Str("false"@)));
    assert(eval(lit("invalid bool"@, span), env1) == Some(Val::Str("invalid bool"@)));
    assert(eval(chain2(s, CompareOp::Eq, lit("true"@, span), span), env1) == Some(Val::Bool(text == "true"@)));
    assert(eval(chain2(s, CompareOp::Eq, lit("false"@, span), span), env1) == Some(Val::Bool(text == "false"@)));
    assert(eval(cond, env1) == Some(Val::Bool(text == "true"@ || text == "false"@)));
    assert(eval(string_from(s, span), env1) == Some(Val::Str(text)));
    assert(eval(chain2(string_from(s, span), CompareOp::Eq, lit("true"@, span), span), env1) == Some(
        Val::Bool(text == "true"@),
    ));
    crate::meaning::lemma_call_paths_differ();
    assert(eval(ex(ExK::Bool(true), span), env1) == Some(Val::Bool(true)));
    assert(eval(ex(ExK::Bool(false), span), env1) == Some(Val::Bool(false)));
    let bt = blk(Seq::empty(), Some(ex(ExK::Bool(true), span)), span);
    let bf = blk(Seq::empty(), Some(ex(ExK::Bool(false), span)), span);
    assert(eval_lets(bt, 0, env1) == Some(Val::Bool(true)));
    assert(eval_lets(bf, 0, env1) == Some(Val::Bool(false)));
    assert(eval(parsed, env1) == Some(Val::Bool(text == "true"@)));
    let ok = spec_path_call(seq!["Result"@, "Ok"@], seq![parsed], span);
    let perr = spec_path_call(seq!["serde"@, "TomlError"@, "ParseError"@], seq![lit("invalid bool"@, span)], span);
    let err = spec_path_call(seq!["Result"@, "Err"@], seq![perr], span);
    assert(eval(ok, env1) == Some(Val::Okv(Box::new(Val::Bool(text == "true"@)))));
    assert(eval(perr, env1) == Some(Val::Str("invalid bool"@)));
    assert(eval(err, env1) == Some(Val::Errv(Box::new(Val::Str("invalid bool"@)))));
    let bok = blk(Seq::empty(), Some(ok), span);
    let berr = blk(Seq::empty(), Some(err), span);
    assert(eval_lets(bok, 0, env1) == eval(ok, env1));
    assert(eval_lets(berr, 0, env1) == eval(err, env1));
    let body = ex(ExK::If(Box::new(cond), bok, Some(berr)), span);
    let outer = blk(seq![let_ident(t0, string_from(arg, span), false)], Some(body), span);
    assert(eval_lets(outer, 1, env1) == eval(body, env1));
    assert(eval_lets(outer, 0, env0) == eval_lets(outer, 1, env1));
    assert(e == ex(ExK::Block(outer), span));
}

} // verus!
