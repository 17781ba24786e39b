//! `json.stringify(v)`: the source-level desugaring of JSON serialization,
//! by the type of the value.
use vstd::prelude::*;
use vstd::string::StringExecFns;
use crate::ast::{
    AstBlock, AstExpr, AstPattern, AstStmt, Blk, CompareOp, Ex, ExK, Pat, St, clone_expr, ex, mk_assign,
    mk_block, mk_block_expr, mk_chain, mk_field, mk_for, mk_ident, mk_if, mk_index, mk_int, mk_let,
    mk_method_call, mk_semi, mk_while, vec0, vec1, vec2, vec3, view_exprs, view_pats, view_stmts, view_strings,
};
use crate::context::{Ctx, StructDef, TypeContext, fields_view, full_name_or_self, spec_lookup_struct, temp_name};
use crate::desugar::{
    bin_add, fold_add, mk_ident_call, mk_path_call, spec_bin_add, spec_fold_add, spec_ident_call, spec_path_call,
    spec_string_from_lit, string_from_lit_ast,
};
use crate::error::{Span, TypeError};
use crate::render::{push_type, render};
use crate::subst::{spec_substitute, substitute};
use crate::text::string_is;
use crate::meaning::{Val, eval, int_text};
use crate::ty::{Ty, Type};

verus! {

broadcast use vstd::std_specs::vec::group_vec_axioms, vstd::string::group_string_axioms, crate::ty::group_view_types;

// ---------------------------------------------------------------------------
// The desugaring, on the model
// ---------------------------------------------------------------------------

pub open spec fn lit(s: Seq<char>, span: Span) -> Ex {
    spec_string_from_lit(s, span)
}

pub open spec fn ident(n: Seq<char>, span: Span) -> Ex {
    ex(ExK::Ident(n), span)
}

pub open spec fn int_lit(v: int, span: Span) -> Ex {
    ex(ExK::Int(v), span)
}

pub open spec fn semi(e: Ex) -> St {
    St::Semi(Box::new(e))
}

pub open spec fn let_ident(n: Seq<char>, init: Ex, mutable: bool) -> St {
    St::Let(Pat::Ident(n), None, Box::new(init), mutable)
}

/// `<recv>.<method>(<args>)`.
pub open spec fn mcall(recv: Ex, method: Seq<char>, args: Seq<Ex>, span: Span) -> Ex {
    ex(ExK::MethodCall(Box::new(recv), method, args, None), span)
}

/// `<recv>.push_str(<val>)`.
pub open spec fn push_str(recv: Ex, val: Ex, span: Span) -> Ex {
    mcall(recv, "push_str"@, seq![val], span)
}

/// A one-operator comparison chain `a op b`.
pub open spec fn chain2(a: Ex, op: CompareOp, b: Ex, span: Span) -> Ex {
    ex(ExK::Chain(seq![a, b], seq![op]), span)
}

pub open spec fn blk(stmts: Seq<St>, fin: Option<Ex>, span: Span) -> Blk {
    Blk {
        stmts,
        final_expr: match fin {
            Some(e) => Some(Box::new(e)),
            None => None,
        },
        span,
    }
}

/// `String::new()`.
pub open spec fn string_new(span: Span) -> Ex {
    spec_path_call(seq!["String"@, "new"@], Seq::empty(), span)
}

/// `"\"" + json_escape(<e>) + "\""`.
pub open spec fn quoted_escape(e: Ex, span: Span) -> Ex {
    spec_fold_add(
        seq![lit("\""@, span), spec_ident_call("json_escape"@, seq![e], span), lit("\""@, span)],
        span,
    )
}

pub open spec fn msg_vec_infer() -> Seq<char> {
    "json.stringify：Vec 元素类型未确定（如 `let v: Vec<i64> = vec![...]` 注解）"@
}

pub open spec fn msg_map_infer() -> Seq<char> {
    "json.stringify：HashMap 键/值类型未确定（如 `let m: HashMap<i64, i64> = map![...]` 注解定型）"@
}

pub open spec fn msg_map_key(k: Ty) -> Seq<char> {
    "json.stringify：HashMap 键类型 `"@ + render(k) + "`（MVP 支持 i64 / String）"@
}

pub open spec fn msg_other(t: Ty) -> Seq<char> {
    "json.stringify：类型 `"@ + render(t) + "` 序列化"@
}

/// The outcome of a desugaring step: the expression or an error message, and
/// the temporary counter after the step.
pub type SerStep = (Result<Ex, Seq<char>>, nat);

/// `if <i> > 0 { <o>.push_str(","); }`
pub open spec fn comma_unless_first(o: Ex, i: Ex, span: Span) -> St {
    semi(ex(ExK::If(Box::new(chain2(i, CompareOp::Gt, int_lit(0, span), span)),
        blk(seq![semi(push_str(o, lit(","@, span), span))], None, span), None), span))
}

/// `<o>.push_str(json.stringify(<arg>[<i>]));`
pub open spec fn push_elem(o: Ex, arg: Ex, i: Ex, span: Span) -> St {
    semi(push_str(o, spec_path_call(seq!["json"@, "stringify"@], seq![ex(ExK::Index(Box::new(arg), Box::new(i)), span)], span), span))
}

/// `<i> = <i> + 1;`
pub open spec fn increment(i: Ex, span: Span) -> St {
    semi(ex(ExK::Assign(Box::new(i), crate::ast::AssignOp::Assign, Box::new(spec_bin_add(i, int_lit(1, span), span))), span))
}

/// `while <i> < <arg>.len() { ... }`
pub open spec fn vec_loop(arg: Ex, span: Span, n: nat) -> Ex {
    let out = ident(temp_name(n), span);
    let i = ident(temp_name(n + 1), span);
    ex(ExK::While(
        Box::new(chain2(i, CompareOp::Lt, mcall(arg, "len"@, Seq::empty(), span), span)),
        blk(seq![comma_unless_first(out, i, span), push_elem(out, arg, i, span), increment(i, span)], None, span),
    ), span)
}

/// The serialization of a `Vec` value `arg` (element type known), with
/// temporaries `n` (buffer) and `n + 1` (index):
/// `{ let mut o = String::new(); let mut i = 0; o.push_str("[");
///    while i < arg.len() { if i > 0 { o.push_str(","); }
///      o.push_str(json.stringify(arg[i])); i = i + 1; }
///    o.push_str("]"); o }`.
#[verifier::opaque]
pub open spec fn ser_vec(arg: Ex, span: Span, n: nat) -> Ex {
    let out = ident(temp_name(n), span);
    ex(ExK::Block(blk(seq![
        let_ident(temp_name(n), string_new(span), true),
        let_ident(temp_name(n + 1), int_lit(0, span), true),
        semi(push_str(out, lit("["@, span), span)),
        semi(vec_loop(arg, span, n)),
        semi(push_str(out, lit("]"@, span), span)),
    ], Some(out), span)), span)
}

/// The key text of a `HashMap` entry key `k`.
pub open spec fn map_key_ser(key_is_i64: bool, k: Ex, span: Span) -> Ex {
    if key_is_i64 {
        spec_fold_add(seq![lit("\""@, span), spec_ident_call("int_to_string"@, seq![k], span), lit("\""@, span)], span)
    } else {
        spec_path_call(seq!["json"@, "stringify"@], seq![k], span)
    }
}

/// `if <f> > 0 { <f> = 0; } else { <o>.push_str(","); }`
pub open spec fn first_or_comma(o: Ex, f: Ex, span: Span) -> St {
    semi(ex(ExK::If(Box::new(chain2(f, CompareOp::Gt, int_lit(0, span), span)),
        blk(seq![semi(ex(ExK::Assign(Box::new(f), crate::ast::AssignOp::Assign, Box::new(int_lit(0, span))), span))], None, span),
        Some(blk(seq![semi(push_str(o, lit(","@, span), span))], None, span))), span))
}

/// `for (k, v) in <arg> { ... }` of the map serialization.
pub open spec fn map_loop(key_is_i64: bool, val: Ex, arg: Ex, span: Span, n: nat) -> Ex {
    let out = ident(temp_name(n), span);
    let first = ident(temp_name(n + 1), span);
    let k = ident(temp_name(n + 2), span);
    ex(ExK::For(
        Pat::Tuple(seq![Pat::Ident(temp_name(n + 2)), Pat::Ident(temp_name(n + 3))], Span { start: 0, end: 0 }),
        Box::new(arg),
        blk(seq![
            first_or_comma(out, first, span),
            semi(push_str(out, map_key_ser(key_is_i64, k, span), span)),
            semi(push_str(out, lit(":"@, span), span)),
            semi(push_str(out, val, span)),
        ], None, span),
    ), span)
}

/// The serialization of a `HashMap` value `arg`, with temporaries `n` (buffer),
/// `n + 1` (first-entry flag), `n + 2` (key), `n + 3` (value), and the value
/// serialization `val`:
/// `{ let mut o = String::new(); let mut f = 1; o.push_str("{");
///    for (k, v) in arg { if f > 0 { f = 0; } else { o.push_str(","); }
///      o.push_str(<key>); o.push_str(":"); o.push_str(<val>); }
///    o.push_str("}"); o }`.
#[verifier::opaque]
pub open spec fn ser_map(key_is_i64: bool, val: Ex, arg: Ex, span: Span, n: nat) -> Ex {
    let out = ident(temp_name(n), span);
    ex(ExK::Block(blk(seq![
        let_ident(temp_name(n), string_new(span), true),
        let_ident(temp_name(n + 1), int_lit(1, span), true),
        semi(push_str(out, lit("{"@, span), span)),
        semi(map_loop(key_is_i64, val, arg, span, n)),
        semi(push_str(out, lit("}"@, span), span)),
    ], Some(out), span)), span)
}

/// The literal that precedes field `i` named `f`: `{"f":` or `,"f":`.
pub open spec fn field_prefix(i: int, f: Seq<char>) -> Seq<char> {
    if i == 0 {
        "{\""@ + f + "\":"@
    } else {
        ",\""@ + f + "\":"@
    }
}

/// Whether a named type is serialized as a struct: it names a struct and is
/// not `Vec` / `HashMap` (after alias resolution).
pub open spec fn is_struct_target(c: Ctx, name: Seq<char>) -> bool {
    spec_lookup_struct(c, name) is Some && full_name_or_self(c.aliases, name) != "Vec"@
        && full_name_or_self(c.aliases, name) != "HashMap"@
}

/// The serialization of `arg` of type `t`, starting with temporary counter `n`,
/// with `fuel` levels of nested serialization available (`None` when they do
/// not suffice).
pub open spec fn ser(c: Ctx, t: Ty, arg: Ex, span: Span, n: nat, fuel: nat) -> Option<SerStep>
    decreases fuel, 0nat,
{
    if fuel == 0 {
        None
    } else {
        match t {
            Ty::I64 => Some((Ok(spec_ident_call("int_to_string"@, seq![arg], span)), n)),
            Ty::Bool => Some((Ok(ex(ExK::If(Box::new(arg), blk(Seq::empty(), Some(lit("true"@, span)), span),
                Some(blk(Seq::empty(), Some(lit("false"@, span)), span))), span)), n)),
            Ty::Str => Some((Ok(quoted_escape(spec_path_call(seq!["String"@, "from"@], seq![arg], span), span)), n)),
            Ty::Array(elem, len) => match array_parts(c, *elem, arg, span, len, 0, n, (fuel - 1) as nat) {
                Some((Ok(ps), n2)) => Some((Ok(spec_fold_add(seq![lit("["@, span)] + ps + seq![lit("]"@, span)], span)), n2)),
                Some((Err(m), n2)) => Some((Err(m), n2)),
                None => None,
            },
            Ty::Named(name, args) => if name == "String"@ {
                Some((Ok(quoted_escape(arg, span)), n))
            } else if name == "Vec"@ && args.len() == 1 {
                let elem = spec_substitute(args[0], c.subst);
                if elem is Infer {
                    Some((Err(msg_vec_infer()), n))
                } else {
                    Some((Ok(ser_vec(arg, span, n)), n + 2))
                }
            } else if name == "HashMap"@ && args.len() == 2 {
                let kt = spec_substitute(args[0], c.subst);
                let vt = spec_substitute(args[1], c.subst);
                if kt is Infer || vt is Infer {
                    Some((Err(msg_map_infer()), n))
                } else if !(kt is I64) && !(kt matches Ty::Named(kn, _) && kn == "String"@) {
                    Some((Err(msg_map_key(kt)), n))
                } else {
                    match ser(c, vt, ident(temp_name(n + 3), span), span, n + 4, (fuel - 1) as nat) {
                        Some((Ok(val), n2)) => Some((Ok(ser_map(kt is I64, val, arg, span, n)), n2)),
                        Some((Err(m), n2)) => Some((Err(m), n2)),
                        None => None,
                    }
                }
            } else if is_struct_target(c, name) {
                let fs = spec_lookup_struct(c, name).unwrap();
                match field_parts(c, fs, arg, span, 0, n, (fuel - 1) as nat) {
                    Some((Ok(ps), n2)) => Some((Ok(spec_fold_add(ps + seq![lit(struct_close(fs.len()), span)], span)), n2)),
                    Some((Err(m), n2)) => Some((Err(m), n2)),
                    None => None,
                }
            } else {
                Some((Err(msg_other(t)), n))
            },
            _ => Some((Err(msg_other(t)), n)),
        }
    }
}

/// The parts for elements `i..len` of an array: a `,` literal before each
/// element but the first, then the element's serialization.
pub open spec fn array_parts(c: Ctx, elem: Ty, arg: Ex, span: Span, len: nat, i: nat, n: nat, fuel: nat)
    -> Option<(Result<Seq<Ex>, Seq<char>>, nat)>
    decreases fuel, len - i + 1,
{
    if i >= len {
        Some((Ok(Seq::empty()), n))
    } else {
        let sep = if i > 0 { seq![lit(","@, span)] } else { Seq::empty() };
        let idx = ex(ExK::Index(Box::new(arg), Box::new(int_lit(i as int, span))), span);
        match ser(c, elem, idx, span, n, fuel) {
            Some((Ok(e), n2)) => match array_parts(c, elem, arg, span, len, i + 1, n2, fuel) {
                Some((Ok(rest), n3)) => Some((Ok(sep + seq![e] + rest), n3)),
                other => other,
            },
            Some((Err(m), n2)) => Some((Err(m), n2)),
            None => None,
        }
    }
}

/// The literal that ends a struct's object text: `}`, or the whole `{}` for a
/// struct without fields.
pub open spec fn struct_close(nfields: nat) -> Seq<char> {
    if nfields == 0 { "{}"@ } else { "}"@ }
}

/// The parts for fields `i..` of a struct: the field's prefix literal, then the
/// serialization of the field.
pub open spec fn field_parts(c: Ctx, fs: Seq<(Seq<char>, Ty)>, arg: Ex, span: Span, i: nat, n: nat, fuel: nat)
    -> Option<(Result<Seq<Ex>, Seq<char>>, nat)>
    decreases fuel, fs.len() - i + 1,
{
    if i >= fs.len() {
        Some((Ok(Seq::empty()), n))
    } else {
        let farg = ex(ExK::Field(Box::new(arg), fs[i as int].0), span);
        match ser(c, fs[i as int].1, farg, span, n, fuel) {
            Some((Ok(e), n2)) => match field_parts(c, fs, arg, span, i + 1, n2, fuel) {
                Some((Ok(rest), n3)) => Some((Ok(seq![lit(field_prefix(i as int, fs[i as int].0), span), e] + rest), n3)),
                other => other,
            },
            Some((Err(m), n2)) => Some((Err(m), n2)),
            None => None,
        }
    }
}

/// Whether the serialization of `t` is finite: nested struct fields, array
/// elements and map values do not lead back to the same type forever.
pub open spec fn ser_finite(c: Ctx, t: Ty, arg: Ex, span: Span) -> bool {
    exists|fuel: nat| ser(statics(c), t, arg, span, c.next_temp, fuel) is Some
}

/// The part of a context that does not change while desugaring.
pub open spec fn statics(c: Ctx) -> Ctx {
    Ctx { next_temp: 0, ..c }
}

/// The serialization of `arg` of type `t` in context `c` (when it is finite).
pub open spec fn spec_json_serialize(c: Ctx, t: Ty, arg: Ex, span: Span) -> SerStep {
    ser(statics(c), t, arg, span, c.next_temp, choose|fuel: nat| ser(statics(c), t, arg, span, c.next_temp, fuel) is Some).unwrap()
}

// ---------------------------------------------------------------------------
// Counter monotonicity
// ---------------------------------------------------------------------------

pub proof fn lemma_ser_counter(c: Ctx, t: Ty, arg: Ex, span: Span, n: nat, fuel: nat)
    ensures
        ser(c, t, arg, span, n, fuel) matches Some((_, n2)) ==> n <= n2,
    decreases fuel, 0nat,
{
    if fuel > 0 {
        match t {
            Ty::Array(elem, len) => {
                lemma_array_counter(c, *elem, arg, span, len, 0, n, (fuel - 1) as nat);
            },
            Ty::Named(name, args) => {
                if name == "HashMap"@ && args.len() == 2 {
                    let vt = spec_substitute(args[1], c.subst);
                    lemma_ser_counter(c, vt, ident(temp_name(n + 3), span), span, n + 4, (fuel - 1) as nat);
                } else if is_struct_target(c, name) {
                    let fs = spec_lookup_struct(c, name).unwrap();
                    lemma_field_counter(c, fs, arg, span, 0, n, (fuel - 1) as nat);
                }
            },
            _ => {},
        }
    }
}

pub proof fn lemma_array_counter(c: Ctx, elem: Ty, arg: Ex, span: Span, len: nat, i: nat, n: nat, fuel: nat)
    ensures
        array_parts(c, elem, arg, span, len, i, n, fuel) matches Some((_, n2)) ==> n <= n2,
    decreases fuel, len - i + 1,
{
    if i < len {
        let idx = ex(ExK::Index(Box::new(arg), Box::new(int_lit(i as int, span))), span);
        lemma_ser_counter(c, elem, idx, span, n, fuel);
        if let Some((Ok(_), n2)) = ser(c, elem, idx, span, n, fuel) {
            lemma_array_counter(c, elem, arg, span, len, i + 1, n2, fuel);
        }
    }
}

pub proof fn lemma_field_counter(c: Ctx, fs: Seq<(Seq<char>, Ty)>, arg: Ex, span: Span, i: nat, n: nat, fuel: nat)
    ensures
        field_parts(c, fs, arg, span, i, n, fuel) matches Some((_, n2)) ==> n <= n2,
    decreases fuel, fs.len() - i + 1,
{
    if i < fs.len() {
        let farg = ex(ExK::Field(Box::new(arg), fs[i as int].0), span);
        lemma_ser_counter(c, fs[i as int].1, farg, span, n, fuel);
        if let Some((Ok(_), n2)) = ser(c, fs[i as int].1, farg, span, n, fuel) {
            lemma_field_counter(c, fs, arg, span, i + 1, n2, fuel);
        }
    }
}

// ---------------------------------------------------------------------------
// The desugaring
// ---------------------------------------------------------------------------

pub(crate) fn lit_ast(s: &str, span: Span) -> (r: AstExpr)
    ensures
        r@ == lit(s@, span),
{
    string_from_lit_ast(s.to_string(), span)
}

pub(crate) fn ident_ast(name: &String, span: Span) -> (r: AstExpr)
    ensures
        r@ == ident(name@, span),
{
    mk_ident(name.clone(), span)
}

fn push_str_ast(recv: AstExpr, val: AstExpr, span: Span) -> (r: AstExpr)
    ensures
        r@ == push_str(recv@, val@, span),
{
    mk_method_call(recv, "push_str".to_string(), vec1(val), span)
}

pub(crate) fn chain2_ast(a: AstExpr, op: CompareOp, b: AstExpr, span: Span) -> (r: AstExpr)
    ensures
        r@ == chain2(a@, op, b@, span),
{
    let ops = vec![op];
    assert(ops@ =~= seq![op]);
    mk_chain(vec2(a, b), ops, span)
}

pub(crate) fn string_new_ast(span: Span) -> (r: AstExpr)
    ensures
        r@ == string_new(span),
{
    let segs = vec!["String".to_string(), "new".to_string()];
    assert(view_strings(segs@) =~= seq!["String"@, "new"@]);
    mk_path_call(segs, vec0(), span)
}

fn quoted_escape_ast(e: AstExpr, span: Span) -> (r: AstExpr)
    ensures
        r@ == quoted_escape(e@, span),
{
    let esc = mk_ident_call("json_escape".to_string(), vec1(e), span);
    fold_add(vec3(lit_ast("\"", span), esc, lit_ast("\"", span)), span)
}

fn json_stringify_call(e: AstExpr, span: Span) -> (r: AstExpr)
    ensures
        r@ == spec_path_call(seq!["json"@, "stringify"@], seq![e@], span),
{
    let segs = vec!["json".to_string(), "stringify".to_string()];
    assert(view_strings(segs@) =~= seq!["json"@, "stringify"@]);
    mk_path_call(segs, vec1(e), span)
}

pub(crate) fn semi_block(e: AstExpr, span: Span) -> (r: AstBlock)
    ensures
        r@ == blk(seq![semi(e@)], None, span),
{
    let ghost ev = e@;
    let stmts = vec![mk_semi(e)];
    proof {
        crate::ast::lemma_view_stmts(stmts@);
    }
    assert(view_stmts(stmts@) =~= seq![semi(ev)]);
    mk_block(stmts, None, span)
}

fn vec_loop_ast(arg: &AstExpr, span: Span, out_name: &String, i_name: &String, Ghost(n): Ghost<nat>) -> (r: AstExpr)
    requires
        out_name@ == temp_name(n),
        i_name@ == temp_name(n + 1),
    ensures
        r@ == vec_loop(arg@, span, n),
{
    let gt0 = chain2_ast(ident_ast(i_name, span), CompareOp::Gt, mk_int(0, span), span);
    let comma = push_str_ast(ident_ast(out_name, span), lit_ast(",", span), span);
    let s1 = mk_semi(mk_if(gt0, semi_block(comma, span), None, span));
    assert(s1@ == comma_unless_first(ident(out_name@, span), ident(i_name@, span), span));
    let idx = mk_index(clone_expr(arg), ident_ast(i_name, span), span);
    let s2 = mk_semi(push_str_ast(ident_ast(out_name, span), json_stringify_call(idx, span), span));
    assert(s2@ == push_elem(ident(out_name@, span), arg@, ident(i_name@, span), span));
    let inc = bin_add(ident_ast(i_name, span), mk_int(1, span), span);
    let s3 = mk_semi(mk_assign(ident_ast(i_name, span), inc, span));
    assert(s3@ == increment(ident(i_name@, span), span));
    let ghost l1 = s1@;
    let ghost l2 = s2@;
    let ghost l3 = s3@;
    let loop_stmts = vec![s1, s2, s3];
    proof {
        crate::ast::lemma_view_stmts(loop_stmts@);
    }
    assert(view_stmts(loop_stmts@) =~= seq![l1, l2, l3]);
    let len_call = mk_method_call(clone_expr(arg), "len".to_string(), vec0(), span);
    let cond = chain2_ast(ident_ast(i_name, span), CompareOp::Lt, len_call, span);
    mk_while(cond, mk_block(loop_stmts, None, span), span)
}

fn ser_vec_ast(arg: &AstExpr, span: Span, out_name: String, i_name: String, Ghost(n): Ghost<nat>) -> (r: AstExpr)
    requires
        out_name@ == temp_name(n),
        i_name@ == temp_name(n + 1),
    ensures
        r@ == ser_vec(arg@, span, n),
{
    reveal(ser_vec);
    let w = vec_loop_ast(arg, span, &out_name, &i_name, Ghost(n));
    let b3 = mk_semi(push_str_ast(ident_ast(&out_name, span), lit_ast("[", span), span));
    let b4 = mk_semi(w);
    let b5 = mk_semi(push_str_ast(ident_ast(&out_name, span), lit_ast("]", span), span));
    let out = ident_ast(&out_name, span);
    let b1 = mk_let(out_name, string_new_ast(span), true);
    let b2 = mk_let(i_name, mk_int(0, span), true);
    let ghost v1 = b1@;
    let ghost v2 = b2@;
    let ghost v3 = b3@;
    let ghost v4 = b4@;
    let ghost v5 = b5@;
    let body = vec![b1, b2, b3, b4, b5];
    proof {
        crate::ast::lemma_view_stmts(body@);
    }
    assert(view_stmts(body@) =~= seq![v1, v2, v3, v4, v5]);
    mk_block_expr(mk_block(body, Some(out), span), span)
}

fn map_key_ser_ast(key_is_i64: bool, k_name: &String, span: Span) -> (r: AstExpr)
    ensures
        r@ == map_key_ser(key_is_i64, ident(k_name@, span), span),
{
    if key_is_i64 {
        let call = mk_ident_call("int_to_string".to_string(), vec1(ident_ast(k_name, span)), span);
        fold_add(vec3(lit_ast("\"", span), call, lit_ast("\"", span)), span)
    } else {
        json_stringify_call(ident_ast(k_name, span), span)
    }
}

fn first_or_comma_ast(out_name: &String, first_name: &String, span: Span) -> (r: AstStmt)
    ensures
        r@ == first_or_comma(ident(out_name@, span), ident(first_name@, span), span),
{
    let gt0 = chain2_ast(ident_ast(first_name, span), CompareOp::Gt, mk_int(0, span), span);
    let reset = mk_assign(ident_ast(first_name, span), mk_int(0, span), span);
    let comma = push_str_ast(ident_ast(out_name, span), lit_ast(",", span), span);
    mk_semi(mk_if(gt0, semi_block(reset, span), Some(semi_block(comma, span)), span))
}

fn map_loop_ast(
    key_is_i64: bool,
    val: AstExpr,
    arg: &AstExpr,
    span: Span,
    out_name: &String,
    first_name: &String,
    k_name: String,
    v_name: String,
    Ghost(n): Ghost<nat>,
) -> (r: AstExpr)
    requires
        out_name@ == temp_name(n),
        first_name@ == temp_name(n + 1),
        k_name@ == temp_name(n + 2),
        v_name@ == temp_name(n + 3),
    ensures
        r@ == map_loop(key_is_i64, val@, arg@, span, n),
{
    let s1 = first_or_comma_ast(out_name, first_name, span);
    let s2 = mk_semi(push_str_ast(ident_ast(out_name, span), map_key_ser_ast(key_is_i64, &k_name, span), span));
    let s3 = mk_semi(push_str_ast(ident_ast(out_name, span), lit_ast(":", span), span));
    let s4 = mk_semi(push_str_ast(ident_ast(out_name, span), val, span));
    let ghost l1 = s1@;
    let ghost l2 = s2@;
    let ghost l3 = s3@;
    let ghost l4 = s4@;
    let loop_stmts = vec![s1, s2, s3, s4];
    proof {
        crate::ast::lemma_view_stmts(loop_stmts@);
    }
    assert(view_stmts(loop_stmts@) =~= seq![l1, l2, l3, l4]);
    let pk = AstPattern::Ident(k_name);
    let pv = AstPattern::Ident(v_name);
    assert(pk@ == Pat::Ident(temp_name(n + 2)));
    assert(pv@ == Pat::Ident(temp_name(n + 3)));
    let ghost pkv = pk@;
    let ghost pvv = pv@;
    let pats = vec![pk, pv];
    proof {
        crate::ast::lemma_view_pats(pats@);
    }
    assert(view_pats(pats@) =~= seq![pkv, pvv]);
    let pat = AstPattern::Tuple(pats, Span::dummy());
    assert(pat@ == Pat::Tuple(seq![Pat::Ident(temp_name(n + 2)), Pat::Ident(temp_name(n + 3))], Span { start: 0, end: 0 }));
    mk_for(pat, clone_expr(arg), mk_block(loop_stmts, None, span), span)
}

fn ser_map_ast(
    key_is_i64: bool,
    val: AstExpr,
    arg: &AstExpr,
    span: Span,
    out_name: String,
    first_name: String,
    k_name: String,
    v_name: String,
    Ghost(n): Ghost<nat>,
) -> (r: AstExpr)
    requires
        out_name@ == temp_name(n),
        first_name@ == temp_name(n + 1),
        k_name@ == temp_name(n + 2),
        v_name@ == temp_name(n + 3),
    ensures
        r@ == ser_map(key_is_i64, val@, arg@, span, n),
{
    reveal(ser_map);
    let for_expr = map_loop_ast(key_is_i64, val, arg, span, &out_name, &first_name, k_name, v_name, Ghost(n));
    let b3 = mk_semi(push_str_ast(ident_ast(&out_name, span), lit_ast("{", span), span));
    let b4 = mk_semi(for_expr);
    let b5 = mk_semi(push_str_ast(ident_ast(&out_name, span), lit_ast("}", span), span));
    let out = ident_ast(&out_name, span);
    let b1 = mk_let(out_name, string_new_ast(span), true);
    let b2 = mk_let(first_name, mk_int(1, span), true);
    let ghost v1 = b1@;
    let ghost v2 = b2@;
    let ghost v3 = b3@;
    let ghost v4 = b4@;
    let ghost v5 = b5@;
    let body = vec![b1, b2, b3, b4, b5];
    proof {
        crate::ast::lemma_view_stmts(body@);
    }
    assert(view_stmts(body@) =~= seq![v1, v2, v3, v4, v5]);
    mk_block_expr(mk_block(body, Some(out), span), span)
}

fn msg_other_string(t: &Type) -> (r: String)
    ensures
        r@ == msg_other(t@),
{
    let mut s = "json.stringify：类型 `".to_string();
    push_type(&mut s, t);
    s.append("` 序列化");
    assert(s@ =~= msg_other(t@));
    s
}

pub(crate) fn clone_fields(fs: &Vec<(String, Type)>) -> (r: Vec<(String, Type)>)
    ensures
        fields_view(r@) == fields_view(fs@),
{
    let mut out: Vec<(String, Type)> = Vec::new();
    let mut i: usize = 0;
    while i < fs.len()
        invariant
            i <= fs.len(),
            out@.len() == i,
            forall|j: int| 0 <= j < i ==> (#[trigger] out@[j]).0@ == fs@[j].0@ && out@[j].1@ == fs@[j].1@,
        decreases fs.len() - i,
    {
        out.push((fs[i].0.clone(), crate::ty::clone_type(&fs[i].1)));
        i += 1;
    }
    assert(fields_view(out@) =~= fields_view(fs@));
    out
}

/// The outcome `r` of a desugaring step matches the step `step` on the model.
pub open spec fn step_matches(r: Result<AstExpr, TypeError>, step: Result<Ex, Seq<char>>, span: Span) -> bool {
    match step {
        Ok(e) => r matches Ok(x) && x@ == e,
        Err(m) => r matches Err(TypeError::Unsupported { what, span: sp }) && what@ == m && sp == span,
    }
}


proof fn lemma_exprs_append(v1: Seq<AstExpr>, v2: Seq<AstExpr>)
    ensures
        crate::ast::view_exprs(v1 + v2) == crate::ast::view_exprs(v1) + crate::ast::view_exprs(v2),
{
    crate::ast::lemma_view_exprs(v1 + v2);
    crate::ast::lemma_view_exprs(v1);
    crate::ast::lemma_view_exprs(v2);
    assert(crate::ast::view_exprs(v1 + v2) =~= crate::ast::view_exprs(v1) + crate::ast::view_exprs(v2));
}

/// The parts of array elements `i..len` (see `array_parts`).
fn array_parts_from(
    ctx: &mut TypeContext,
    elem: &Type,
    arg: &AstExpr,
    span: Span,
    len: usize,
    i: usize,
    Ghost(fuel): Ghost<nat>,
) -> (r: Result<Vec<AstExpr>, TypeError>)
    requires
        i <= len,
        array_parts(statics(old(ctx)@), elem@, arg@, span, len as nat, i as nat, old(ctx)@.next_temp, fuel)
            matches Some((_, n2)) && n2 <= usize::MAX,
    ensures
        array_parts(statics(old(ctx)@), elem@, arg@, span, len as nat, i as nat, old(ctx)@.next_temp, fuel)
            matches Some((res, n2)) && final(ctx)@ == (Ctx { next_temp: n2, ..old(ctx)@ }) && match res {
                Ok(ps) => r matches Ok(v) && crate::ast::view_exprs(v@) == ps,
                Err(m) => r matches Err(TypeError::Unsupported { what, span: sp }) && what@ == m && sp == span,
            },
    decreases fuel, len - i + 1,
{
    let ghost cs = statics(ctx@);
    if i >= len {
        return Ok(vec0());
    }
    let idx = mk_index(clone_expr(arg), mk_int(i as i128, span), span);
    let ghost nb = ctx@.next_temp;
    proof {
        lemma_ser_counter(cs, elem@, idx@, span, nb, fuel);
        if let Some((Ok(_), n2)) = ser(cs, elem@, idx@, span, nb, fuel) {
            lemma_array_counter(cs, elem@, arg@, span, len as nat, (i + 1) as nat, n2, fuel);
        }
    }
    match ser_rec(ctx, elem, &idx, span, Ghost(fuel)) {
        Ok(e) => {
            let ghost ev = e@;
            match array_parts_from(ctx, elem, arg, span, len, i + 1, Ghost(fuel)) {
                Ok(mut rest) => {
                    let mut v: Vec<AstExpr> = Vec::new();
                    if i > 0 {
                        v.push(lit_ast(",", span));
                    }
                    v.push(e);
                    let ghost vv = v@;
                    let ghost rv = rest@;
                    v.append(&mut rest);
                    proof {
                        crate::ast::lemma_view_exprs(v@);
                        crate::ast::lemma_view_exprs(vv);
                        crate::ast::lemma_view_exprs(rv);
                        let sep = if i > 0 { seq![lit(","@, span)] } else { Seq::<Ex>::empty() };
                        assert(crate::ast::view_exprs(vv) =~= sep + seq![ev]);
                        assert(crate::ast::view_exprs(v@) =~= sep + seq![ev] + crate::ast::view_exprs(rv));
                    }
                    Ok(v)
                },
                Err(err) => Err(err),
            }
        },
        Err(err) => Err(err),
    }
}

/// The parts of struct fields `i..` (see `field_parts`).
fn field_parts_from(
    ctx: &mut TypeContext,
    fs: &Vec<(String, Type)>,
    arg: &AstExpr,
    span: Span,
    i: usize,
    Ghost(fuel): Ghost<nat>,
) -> (r: Result<Vec<AstExpr>, TypeError>)
    requires
        i <= fs@.len(),
        field_parts(statics(old(ctx)@), fields_view(fs@), arg@, span, i as nat, old(ctx)@.next_temp, fuel)
            matches Some((_, n2)) && n2 <= usize::MAX,
    ensures
        field_parts(statics(old(ctx)@), fields_view(fs@), arg@, span, i as nat, old(ctx)@.next_temp, fuel)
            matches Some((res, n2)) && final(ctx)@ == (Ctx { next_temp: n2, ..old(ctx)@ }) && match res {
                Ok(ps) => r matches Ok(v) && crate::ast::view_exprs(v@) == ps,
                Err(m) => r matches Err(TypeError::Unsupported { what, span: sp }) && what@ == m && sp == span,
            },
    decreases fuel, fs@.len() - i + 1,
{
    let ghost cs = statics(ctx@);
    let ghost fsv = fields_view(fs@);
    if i >= fs.len() {
        return Ok(vec0());
    }
    let mut prefix = if i == 0 {
        "{\"".to_string()
    } else {
        ",\"".to_string()
    };
    prefix.append(fs[i].0.as_str());
    prefix.append("\":");
    assert(prefix@ =~= field_prefix(i as int, fsv[i as int].0));
    let farg = mk_field(clone_expr(arg), fs[i].0.clone(), span);
    let ghost nb = ctx@.next_temp;
    proof {
        lemma_ser_counter(cs, fsv[i as int].1, farg@, span, nb, fuel);
        if let Some((Ok(_), n2)) = ser(cs, fsv[i as int].1, farg@, span, nb, fuel) {
            lemma_field_counter(cs, fsv, arg@, span, (i + 1) as nat, n2, fuel);
        }
    }
    match ser_rec(ctx, &fs[i].1, &farg, span, Ghost(fuel)) {
        Ok(e) => {
            let ghost ev = e@;
            match field_parts_from(ctx, fs, arg, span, i + 1, Ghost(fuel)) {
                Ok(mut rest) => {
                    let p = string_from_lit_ast(prefix, span);
                    let v0 = vec2(p, e);
                    let mut v = v0;
                    let ghost vv = v@;
                    let ghost rv = rest@;
                    v.append(&mut rest);
                    proof {
                        crate::ast::lemma_view_exprs(v@);
                        crate::ast::lemma_view_exprs(vv);
                        crate::ast::lemma_view_exprs(rv);
                        assert(crate::ast::view_exprs(v@) =~= crate::ast::view_exprs(vv) + crate::ast::view_exprs(rv));
                    }
                    Ok(v)
                },
                Err(err) => Err(err),
            }
        },
        Err(err) => Err(err),
    }
}

fn ser_rec(ctx: &mut TypeContext, ty: &Type, arg: &AstExpr, span: Span, Ghost(fuel): Ghost<nat>) -> (r: Result<AstExpr, TypeError>)
    requires
        ser(statics(old(ctx)@), ty@, arg@, span, old(ctx)@.next_temp, fuel) matches Some((_, n2)) && n2 <= usize::MAX,
    ensures
        ser(statics(old(ctx)@), ty@, arg@, span, old(ctx)@.next_temp, fuel) matches Some((res, n2))
            && final(ctx)@ == (Ctx { next_temp: n2, ..old(ctx)@ }) && step_matches(r, res, span),
    decreases fuel, 0nat,
{
    let ghost cs = statics(ctx@);
    let ghost n0 = ctx@.next_temp;
    match ty {
        Type::I64 => Ok(mk_ident_call("int_to_string".to_string(), vec1(clone_expr(arg)), span)),
        Type::Bool => {
            let tb = mk_block(Vec::new(), Some(lit_ast("true", span)), span);
            let eb = mk_block(Vec::new(), Some(lit_ast("false", span)), span);
            assert(view_stmts(Seq::<AstStmt>::empty()) =~= Seq::<St>::empty());
            Ok(mk_if(clone_expr(arg), tb, Some(eb), span))
        },
        Type::Str => {
            let segs = vec!["String".to_string(), "from".to_string()];
            assert(view_strings(segs@) =~= seq!["String"@, "from"@]);
            let sf = mk_path_call(segs, vec1(clone_expr(arg)), span);
            Ok(quoted_escape_ast(sf, span))
        },
        Type::Array(elem, len) => {
            let ghost f = (fuel - 1) as nat;
            match array_parts_from(ctx, elem, arg, span, *len, 0, Ghost(f)) {
                Ok(mut ps) => {
                    let mut parts: Vec<AstExpr> = vec![lit_ast("[", span)];
                    let ghost p0 = parts@;
                    let ghost ps0 = ps@;
                    parts.append(&mut ps);
                    let close = vec1(lit_ast("]", span));
                    let ghost c0 = close@;
                    let mut close = close;
                    parts.append(&mut close);
                    proof {
                        lemma_exprs_append(p0, ps0);
                        lemma_exprs_append(p0 + ps0, c0);
                        crate::ast::lemma_view_exprs(p0);
                        assert(crate::ast::view_exprs(p0) =~= seq![lit("["@, span)]);
                        assert(parts@ == p0 + ps0 + c0);
                    }
                    Ok(fold_add(parts, span))
                },
                Err(e) => Err(e),
            }
        },
        Type::Named(name, args) => {
            if string_is(name, "String") {
                Ok(quoted_escape_ast(clone_expr(arg), span))
            } else if string_is(name, "Vec") && args.len() == 1 {
                let elem = substitute(&args[0], &ctx.generic_subst);
                assert(ty@ == Ty::Named(name@, crate::ty::view_types(args@)));
                assert(crate::ty::view_types(args@)[0] == args@[0]@);
                if matches!(elem, Type::Infer) {
                    assert(elem@ is Infer);
                    assert(ser(cs, ty@, arg@, span, n0, fuel) == Some((Err::<Ex, Seq<char>>(msg_vec_infer()), n0)));
                    return Err(TypeError::Unsupported {
                        what: "json.stringify：Vec 元素类型未确定（如 `let v: Vec<i64> = vec![...]` 注解）".to_string(),
                        span,
                    });
                }
                assert(!(elem@ is Infer));
                assert(ser(cs, ty@, arg@, span, n0, fuel) == Some((Ok::<Ex, Seq<char>>(ser_vec(arg@, span, n0)), n0 + 2)));
                let out_name = ctx.fresh_temp();
                let i_name = ctx.fresh_temp();
                Ok(ser_vec_ast(arg, span, out_name, i_name, Ghost(n0)))
            } else if string_is(name, "HashMap") && args.len() == 2 {
                let kt = substitute(&args[0], &ctx.generic_subst);
                let vt = substitute(&args[1], &ctx.generic_subst);
                if matches!(kt, Type::Infer) || matches!(vt, Type::Infer) {
                    return Err(TypeError::Unsupported {
                        what: "json.stringify：HashMap 键/值类型未确定（如 `let m: HashMap<i64, i64> = map![...]` 注解定型）".to_string(),
                        span,
                    });
                }
                let key_is_i64 = matches!(kt, Type::I64);
                let key_is_string = match &kt {
                    Type::Named(kn, _) => string_is(kn, "String"),
                    _ => false,
                };
                if !key_is_i64 && !key_is_string {
                    let mut what = "json.stringify：HashMap 键类型 `".to_string();
                    push_type(&mut what, &kt);
                    what.append("`（MVP 支持 i64 / String）");
                    assert(what@ =~= msg_map_key(kt@));
                    return Err(TypeError::Unsupported { what, span });
                }
                assert(ty@ == Ty::Named(name@, crate::ty::view_types(args@)));
                proof {
                    lemma_ser_counter(cs, vt@, ident(temp_name(n0 + 3), span), span, n0 + 4, (fuel - 1) as nat);
                }
                let out_name = ctx.fresh_temp();
                let first_name = ctx.fresh_temp();
                let k_name = ctx.fresh_temp();
                let v_name = ctx.fresh_temp();
                let v_id = ident_ast(&v_name, span);
                let val = ser_rec(ctx, &vt, &v_id, span, Ghost((fuel - 1) as nat));
                match val {
                    Ok(val) => Ok(ser_map_ast(key_is_i64, val, arg, span, out_name, first_name, k_name, v_name, Ghost(n0))),
                    Err(e) => Err(e),
                }
            } else {
                let found = ctx.lookup_struct(name).is_some();
                let full = match ctx.resolve_full_name(name) {
                    Some(f) => f,
                    None => name.clone(),
                };
                if found && !string_is(&full, "Vec") && !string_is(&full, "HashMap") {
                    let fs = match ctx.lookup_struct(name) {
                        Some(d) => clone_fields(&d.fields),
                        None => Vec::new(),
                    };
                    let ghost fsv = fields_view(fs@);
                    assert(fsv == spec_lookup_struct(cs, name@).unwrap());
                    let ghost f = (fuel - 1) as nat;
                    match field_parts_from(ctx, &fs, arg, span, 0, Ghost(f)) {
                        Ok(mut parts) => {
                            let ghost p0 = parts@;
                            let mut close = if fs.len() == 0 {
                                vec1(lit_ast("{}", span))
                            } else {
                                vec1(lit_ast("}", span))
                            };
                            let ghost c0 = close@;
                            parts.append(&mut close);
                            proof {
                                lemma_exprs_append(p0, c0);
                                assert(parts@ == p0 + c0);
                            }
                            Ok(fold_add(parts, span))
                        },
                        Err(e) => Err(e),
                    }
                } else {
                    Err(TypeError::Unsupported { what: msg_other_string(ty), span })
                }
            }
        },
        _ => Err(TypeError::Unsupported { what: msg_other_string(ty), span }),
    }
}

/// The desugaring of `json.stringify(arg)` for a value of type `ty`:
/// `int_to_string(x)` for `i64`; `if x { "true" } else { "false" }` for
/// `bool`; `"\"" + json_escape(..) + "\""` for `String` / `str`; the
/// concatenation `"[" + e0 + "," + e1 + ... + "]"` for arrays; a loop over the
/// elements for `Vec<T>` and over the entries for `HashMap<K, V>` (keys `i64` or
/// `String`); `"{\"f\":" + v + ... + "}"` for structs (`"{}"` for a struct without fields). Other types, and
/// collections whose element types are still undetermined, are unsupported.
pub fn json_serialize_ast(ctx: &mut TypeContext, ty: &Type, arg: &AstExpr, span: Span) -> (r: Result<AstExpr, TypeError>)
    requires
        ser_finite(old(ctx)@, ty@, arg@, span),
        spec_json_serialize(old(ctx)@, ty@, arg@, span).1 <= usize::MAX,
    ensures
        final(ctx)@ == (Ctx { next_temp: spec_json_serialize(old(ctx)@, ty@, arg@, span).1, ..old(ctx)@ }),
        step_matches(r, spec_json_serialize(old(ctx)@, ty@, arg@, span).0, span),
{
    let ghost fuel = choose|fuel: nat| ser(statics(ctx@), ty@, arg@, span, ctx@.next_temp, fuel) is Some;
    ser_rec(ctx, ty, arg, span, Ghost(fuel))
}

/// `json.stringify` only advances the temporary counter: the names of the
/// temporaries it creates were never handed out before.
pub proof fn law_serialize_counter_advances(c: Ctx, t: Ty, arg: Ex, span: Span)
    requires
        ser_finite(c, t, arg, span),
    ensures
        c.next_temp <= spec_json_serialize(c, t, arg, span).1,
{
    let fuel = choose|fuel: nat| ser(statics(c), t, arg, span, c.next_temp, fuel) is Some;
    lemma_ser_counter(statics(c), t, arg, span, c.next_temp, fuel);
}


/// The text that the loop of a map serialization `e` pushes for an entry
/// whose key is `key`: the argument of the loop's key `push_str`, evaluated
/// with the loop's key variable bound to `key`.
pub open spec fn pushed_key_text(e: Ex, key: Val) -> Option<Val> {
    match e.kind {
        ExK::Block(b) => if b.stmts.len() > 3 {
            match b.stmts[3] {
                St::Semi(l) => match l.kind {
                    ExK::For(Pat::Tuple(ps, _), _, body) => if ps.len() == 2 && body.stmts.len() > 1 {
                        match (ps[0], body.stmts[1]) {
                            (Pat::Ident(kn), St::Semi(push)) => match push.kind {
                                ExK::MethodCall(_, m, args, _) => if m == "push_str"@ && args.len() == 1 {
                                    eval(args[0], map![kn => key])
                                } else {
                                    None
                                },
                                _ => None,
                            },
                            _ => None,
                        }
                    } else {
                        None
                    },
                    _ => None,
                },
                _ => None,
            }
        } else {
            None
        },
        _ => None,
    }
}

/// `json.stringify` of a `HashMap<i64, i64>` writes each key as a JSON
/// string: for an entry with key `v` the loop pushes a quote, the decimal
/// text of `v`, and a quote.
pub proof fn law_json_int_map_key_is_quoted(c: Ctx, a: Seq<char>, span: Span, v: int)
    ensures
        spec_json_serialize(c, Ty::Named("HashMap"@, seq![Ty::I64, Ty::I64]), ident(a, span), span).0 matches Ok(e)
            && pushed_key_text(e, Val::Int(v)) == Some(Val::Str("\""@ + int_text(v) + "\""@)),
{
    reveal(ser_map);
    let t = Ty::Named("HashMap"@, seq![Ty::I64, Ty::I64]);
    let arg = ident(a, span);
    let cs = statics(c);
    let n = c.next_temp;
    reveal_strlit("HashMap");
    reveal_strlit("String");
    reveal_strlit("Vec");
    assert("HashMap"@ != "String"@) by {
        assert("HashMap"@.len() == 7 && "String"@.len() == 6);
    }
    assert("HashMap"@ != "Vec"@) by {
        assert("Vec"@.len() == 3);
    }
    assert(spec_substitute(Ty::I64, cs.subst) == Ty::I64);
    let vser = ser(cs, Ty::I64, ident(temp_name(n + 3), span), span, n + 4, 1);
    assert(vser == Some((Ok::<Ex, Seq<char>>(spec_ident_call("int_to_string"@, seq![ident(temp_name(n + 3), span)], span)), n + 4)));
    assert(ser(cs, t, arg, span, n, 2) is Some);
    let f = choose|fuel: nat| ser(cs, t, arg, span, n, fuel) is Some;
    assert(ser(cs, t, arg, span, n, f) is Some);
    assert(f >= 2) by {
        if f == 1 {
            assert(ser(cs, Ty::I64, ident(temp_name(n + 3), span), span, n + 4, 0) is None);
        }
    }
    let val = spec_ident_call("int_to_string"@, seq![ident(temp_name(n + 3), span)], span);
    assert(ser(cs, Ty::I64, ident(temp_name(n + 3), span), span, n + 4, (f - 1) as nat) == Some((Ok::<Ex, Seq<char>>(val), n + 4)));
    let e = ser_map(true, val, arg, span, n);
    assert(spec_json_serialize(c, t, arg, span).0 == Ok::<Ex, Seq<char>>(e));
    let k = ident(temp_name(n + 2), span);
    let key = map_key_ser(true, k, span);
    let env = map![temp_name(n + 2) => Val::Int(v)];
    crate::meaning::lemma_call_paths_differ();
    reveal_strlit("int_to_string");
    assert(eval(k, env) == Some(Val::Int(v)));
    let call = spec_ident_call("int_to_string"@, seq![k], span);
    assert(eval(call, env) == Some(Val::Str(int_text(v))));
    let q = lit("\""@, span);
    assert(eval(ex(ExK::Str("\""@), span), env) == Some(Val::Str("\""@)));
    assert(eval(q, env) == Some(Val::Str("\""@)));
    let parts = seq![q, call, q];
    assert(parts.subrange(0, 2) =~= seq![q, call]);
    assert(seq![q, call].subrange(0, 1) =~= seq![q]);
    assert(spec_fold_add(seq![q], span) == q);
    assert(spec_fold_add(seq![q, call], span) == spec_bin_add(q, call, span));
    assert(key == spec_bin_add(spec_bin_add(q, call, span), q, span));
    assert(eval(spec_bin_add(q, call, span), env) == Some(Val::Str("\""@ + int_text(v))));
    assert(eval(key, env) == Some(Val::Str("\""@ + int_text(v) + "\""@)));
    assert(pushed_key_text(e, Val::Int(v)) == eval(key, env));
}


/// `json.stringify` of an `i64` yields its decimal text, and of a `bool`
/// the text `true` or `false`.
pub proof fn law_json_scalars(c: Ctx, a: Seq<char>, span: Span, v: int, b: bool)
    ensures
        spec_json_serialize(c, Ty::I64, ident(a, span), span).0 matches Ok(e) && eval(e, map![a => Val::Int(v)])
            == Some(Val::Str(int_text(v))),
        spec_json_serialize(c, Ty::Bool, ident(a, span), span).0 matches Ok(e) && eval(e, map![a => Val::Bool(b)])
            == Some(Val::Str(if b { "true"@ } else { "false"@ })),
{
    lemma_json_scalars(c, a, span, v, b);
}

proof fn lemma_json_scalars(c: Ctx, a: Seq<char>, span: Span, v: int, b: bool)
    ensures
        spec_json_serialize(c, Ty::I64, ident(a, span), span).0 matches Ok(e) && eval(e, map![a => Val::Int(v)])
            == Some(Val::Str(int_text(v))),
        spec_json_serialize(c, Ty::Bool, ident(a, span), span).0 matches Ok(e) && eval(e, map![a => Val::Bool(b)])
            == Some(Val::Str(if b { "true"@ } else { "false"@ })),
{
    let cs = statics(c);
    let n = c.next_temp;
    let arg = ident(a, span);
    crate::meaning::lemma_call_paths_differ();
    reveal_strlit("int_to_string");
    assert(ser(cs, Ty::I64, arg, span, n, 1) is Some);
    let f = choose|fuel: nat| ser(cs, Ty::I64, arg, span, n, fuel) is Some;
    assert(ser(cs, Ty::I64, arg, span, n, f) is Some);
    let ei = spec_ident_call("int_to_string"@, seq![arg], span);
    assert(spec_json_serialize(c, Ty::I64, arg, span).0 == Ok::<Ex, Seq<char>>(ei));
    let envi = map![a => Val::Int(v)];
    assert(eval(arg, envi) == Some(Val::Int(v)));
    assert(eval(ei, envi) == Some(Val::Str(int_text(v))));
    assert(ser(cs, Ty::Bool, arg, span, n, 1) is Some);
    let g = choose|fuel: nat| ser(cs, Ty::Bool, arg, span, n, fuel) is Some;
    assert(ser(cs, Ty::Bool, arg, span, n, g) is Some);
    let bt = blk(Seq::empty(), Some(lit("true"@, span)), span);
    let bf = blk(Seq::empty(), Some(lit("false"@, span)), span);
    let eb = ex(ExK::If(Box::new(arg), bt, Some(bf)), span);
    assert(spec_json_serialize(c, Ty::Bool, arg, span).0 == Ok::<Ex, Seq<char>>(eb));
    let envb = map![a => Val::Bool(b)];
    assert(eval(arg, envb) == Some(Val::Bool(b)));
    assert(eval(ex(ExK::Str("true"@), span), envb) == Some(Val::Str("true"@)));
    assert(eval(ex(ExK::Str("false"@), span), envb) == Some(Val::Str("false"@)));
    assert(eval(lit("true"@, span), envb) == Some(Val::Str("true"@)));
    assert(eval(lit("false"@, span), envb) == Some(Val::Str("false"@)));
    assert(crate::meaning::eval_lets(bt, 0, envb) == Some(Val::Str("true"@)));
    assert(crate::meaning::eval_lets(bf, 0, envb) == Some(Val::Str("false"@)));
    assert(eval(eb, envb) == Some(Val::Str(if b { "true"@ } else { "false"@ })));
}

} // verus!
