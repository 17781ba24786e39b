//! Syntax-tree builders and the desugarings of the panic-family macros
//! (`panic!`, `unreachable!`, `todo!`, `assert!`, `assert_eq!`, `assert_ne!`).
use vstd::prelude::*;
use vstd::string::StringExecFns;
use crate::ast::{
    AstExpr, Blk, CompareOp, Ex, ExK, St, UnaryOp, atypes0, clone_expr, ex, group_ast_views, mk_binary,
    mk_block, mk_call, mk_chain, mk_ident, mk_if, mk_method_call, mk_path, mk_semi, mk_str, mk_unary, mk_unit, vec0, vec1, vec2,
    view_exprs, view_stmts, view_strings,
};
use crate::binary::BinaryOp;
use crate::error::{Span, TypeError};
use crate::text::str_eq;

verus! {

broadcast use vstd::std_specs::vec::group_vec_axioms, vstd::string::group_string_axioms, group_ast_views;

/// `""`.
pub open spec fn spec_empty_str(span: Span) -> Ex {
    ex(ExK::Str(Seq::empty()), span)
}

/// `String::from("<s>")`.
pub open spec fn spec_string_from_lit(s: Seq<char>, span: Span) -> Ex {
    ex(
        ExK::Call(
            Box::new(ex(ExK::Path(seq!["String"@, "from"@]), span)),
            seq![ex(ExK::Str(s), span)],
            Seq::empty(),
        ),
        span,
    )
}

/// `<name>(<args>)`.
pub open spec fn spec_ident_call(name: Seq<char>, args: Seq<Ex>, span: Span) -> Ex {
    ex(ExK::Call(Box::new(ex(ExK::Ident(name), span)), args, Seq::empty()), span)
}

/// `<a::b::c>(<args>)`.
pub open spec fn spec_path_call(segments: Seq<Seq<char>>, args: Seq<Ex>, span: Span) -> Ex {
    ex(ExK::Call(Box::new(ex(ExK::Path(segments), span)), args, Seq::empty()), span)
}

/// `<left> + <right>`.
pub open spec fn spec_bin_add(left: Ex, right: Ex, span: Span) -> Ex {
    ex(ExK::Binary(BinaryOp::Add, Box::new(left), Box::new(right)), span)
}

/// `p0 + p1 + ... + pn`, associated to the left.
pub open spec fn spec_fold_add(parts: Seq<Ex>, span: Span) -> Ex
    decreases parts.len(),
{
    if parts.len() <= 1 {
        parts[0]
    } else {
        spec_bin_add(spec_fold_add(parts.drop_last(), span), parts.last(), span)
    }
}

/// The expression `""`.
pub fn empty_str(span: Span) -> (r: AstExpr)
    ensures
        r@ == spec_empty_str(span),
{
    mk_str(String::new(), span)
}

/// The expression `String::from("<s>")`.
pub fn string_from_lit_ast(s: String, span: Span) -> (r: AstExpr)
    ensures
        r@ == spec_string_from_lit(s@, span),
{
    let segs = vec!["String".to_string(), "from".to_string()];
    assert(view_strings(segs@) =~= seq!["String"@, "from"@]);
    let callee = mk_path(segs, span);
    let arg = mk_str(s, span);
    mk_call(callee, vec1(arg), atypes0(), span)
}

/// The expression `<name>(<args>)`.
pub fn mk_ident_call(name: String, args: Vec<AstExpr>, span: Span) -> (r: AstExpr)
    ensures
        r@ == spec_ident_call(name@, view_exprs(args@), span),
{
    mk_call(mk_ident(name, span), args, atypes0(), span)
}

/// The expression `<segments joined by ::>(<args>)`.
pub fn mk_path_call(segments: Vec<String>, args: Vec<AstExpr>, span: Span) -> (r: AstExpr)
    ensures
        r@ == spec_path_call(view_strings(segments@), view_exprs(args@), span),
{
    mk_call(mk_path(segments, span), args, atypes0(), span)
}

/// The expression `<left> + <right>`.
pub fn bin_add(left: AstExpr, right: AstExpr, span: Span) -> (r: AstExpr)
    ensures
        r@ == spec_bin_add(left@, right@, span),
{
    mk_binary(BinaryOp::Add, left, right, span)
}

/// The sum `p0 + p1 + ...` of a non-empty list of expressions.
pub fn fold_add(parts: Vec<AstExpr>, span: Span) -> (r: AstExpr)
    requires
        parts@.len() > 0,
    ensures
        r@ == spec_fold_add(view_exprs(parts@), span),
    decreases parts@.len(),
{
    let mut parts = parts;
    let ghost all = view_exprs(parts@);
    let last = parts.pop().unwrap();
    if parts.len() == 0 {
        assert(all.len() == 1);
        last
    } else {
        let ghost rest = parts@;
        assert(view_exprs(rest) =~= all.drop_last());
        let head = fold_add(parts, span);
        bin_add(head, last, span)
    }
}

// ---------------------------------------------------------------------------
// Panic-family macros
// ---------------------------------------------------------------------------

/// Which assertion macro is desugared.
#[derive(Clone, Copy, PartialEq, Eq, Structural, Debug)]
pub enum AssertKind {
    /// `assert!(cond, msg?)`.
    Plain,
    /// `assert_eq!(a, b, msg?)`.
    Eq,
    /// `assert_ne!(a, b, msg?)`.
    Ne,
}

/// `panic(<msg>)`.
pub open spec fn spec_panic_call(msg: Ex, span: Span) -> Ex {
    spec_ident_call("panic"@, seq![msg], span)
}

/// `panic!(msg?)`: a call of the built-in `panic` with the message, `""` when
/// there is none.
pub open spec fn spec_panic_macro(args: Seq<Ex>, span: Span) -> Ex {
    spec_panic_call(if args.len() > 0 { args[0] } else { spec_empty_str(span) }, span)
}

/// The `panic!` desugaring.
pub fn panic_macro_ast(args: &[AstExpr], span: Span) -> (r: AstExpr)
    ensures
        r@ == spec_panic_macro(view_exprs(args@), span),
{
    let msg = if args.len() > 0 {
        clone_expr(&args[0])
    } else {
        empty_str(span)
    };
    mk_ident_call("panic".to_string(), vec1(msg), span)
}

/// `unreachable!()` / `todo!()`: a panic with the message `<name> 不可达`.
pub open spec fn spec_unreachable_macro(name: Seq<char>, span: Span) -> Ex {
    spec_panic_call(ex(ExK::Str(name + " 不可达"@), span), span)
}

/// The `unreachable!` / `todo!` desugaring.
pub fn unreachable_macro_ast(name: &str, span: Span) -> (r: AstExpr)
    ensures
        r@ == spec_unreachable_macro(name@, span),
{
    let mut text = name.to_string();
    text.append(" 不可达");
    let lit = mk_str(text, span);
    mk_ident_call("panic".to_string(), vec1(lit), span)
}

/// `a == b` as a one-comparison chain.
pub open spec fn spec_cmp_eq(a: Ex, b: Ex, span: Span) -> Ex {
    ex(ExK::Chain(seq![a, b], seq![CompareOp::Eq]), span)
}

pub open spec fn spec_not(e: Ex, span: Span) -> Ex {
    ex(ExK::Unary(UnaryOp::Not, Box::new(e)), span)
}

/// The asserted condition of an assertion macro.
pub open spec fn assert_cond(args: Seq<Ex>, kind: AssertKind, span: Span) -> Ex {
    match kind {
        AssertKind::Plain => args[0],
        AssertKind::Eq => spec_cmp_eq(args[0], args[1], span),
        AssertKind::Ne => spec_not(spec_cmp_eq(args[0], args[1], span), span),
    }
}

/// The index of the optional message argument of an assertion macro.
pub open spec fn assert_msg_index(kind: AssertKind) -> int {
    match kind {
        AssertKind::Plain => 1,
        _ => 2,
    }
}

/// `if !(cond) { panic(msg); } else { () }`.
pub open spec fn spec_assert_like(args: Seq<Ex>, kind: AssertKind, span: Span) -> Ex {
    let i = assert_msg_index(kind);
    let msg = if i < args.len() { args[i] } else { spec_empty_str(span) };
    ex(
        ExK::If(
            Box::new(spec_not(assert_cond(args, kind, span), span)),
            Blk { stmts: seq![St::Semi(Box::new(spec_panic_call(msg, span)))], final_expr: None, span },
            Some(Blk { stmts: Seq::empty(), final_expr: Some(Box::new(ex(ExK::Unit, span))), span }),
        ),
        span,
    )
}

/// The number of arguments an assertion macro needs.
pub open spec fn assert_arity(kind: AssertKind) -> int {
    match kind {
        AssertKind::Plain => 1,
        _ => 2,
    }
}

fn cmp_eq(a: AstExpr, b: AstExpr, span: Span) -> (r: AstExpr)
    ensures
        r@ == spec_cmp_eq(a@, b@, span),
{
    let operators = vec![CompareOp::Eq];
    assert(operators@ =~= seq![CompareOp::Eq]);
    mk_chain(vec2(a, b), operators, span)
}

/// The desugaring of `assert!`, `assert_eq!` and `assert_ne!`:
/// `if !(cond) { panic(msg); } else { () }`, with `cond` the argument, or
/// `a == b`, or `!(a == b)`, and the message the next argument or `""`.
pub fn assert_like_ast(args: &[AstExpr], kind: AssertKind, span: Span) -> (r: AstExpr)
    requires
        args@.len() >= assert_arity(kind),
    ensures
        r@ == spec_assert_like(view_exprs(args@), kind, span),
{
    let cond = match kind {
        AssertKind::Plain => clone_expr(&args[0]),
        AssertKind::Eq => cmp_eq(clone_expr(&args[0]), clone_expr(&args[1]), span),
        AssertKind::Ne => mk_unary(UnaryOp::Not, cmp_eq(clone_expr(&args[0]), clone_expr(&args[1]), span), span),
    };
    let not_cond = mk_unary(UnaryOp::Not, cond, span);
    let msg_idx: usize = match kind {
        AssertKind::Plain => 1,
        AssertKind::Eq | AssertKind::Ne => 2,
    };
    let msg = if msg_idx < args.len() {
        clone_expr(&args[msg_idx])
    } else {
        empty_str(span)
    };
    let panic_call = mk_ident_call("panic".to_string(), vec1(msg), span);
    let ghost pc = panic_call@;
    let then_stmts = vec![mk_semi(panic_call)];
    assert(view_stmts(then_stmts@) =~= seq![St::Semi(Box::new(pc))]);
    let then_block = mk_block(then_stmts, None, span);
    let else_stmts = Vec::new();
    assert(view_stmts(else_stmts@) =~= Seq::<St>::empty());
    let else_block = mk_block(else_stmts, Some(mk_unit(span)), span);
    mk_if(not_cond, then_block, Some(else_block), span)
}

/// How a macro call is expanded.
#[derive(Debug)]
pub enum MacroExpansion {
    /// `println!`, `print!`, `format!`, `eprintln!`, `eprint!`: handled by the
    /// formatting desugaring of the named macro.
    Format,
    /// `dbg!`: handled by the value-printing desugaring.
    Dbg,
    /// Expanded to the given expression.
    Expr(AstExpr),
}

pub open spec fn is_format_macro(name: Seq<char>) -> bool {
    name == "println!"@ || name == "print!"@ || name == "format!"@ || name == "eprintln!"@ || name
        == "eprint!"@
}

/// Expands a macro call `name(args)`. Unknown macros are reported as unsupported.
pub fn macro_call_ast(name: &str, args: &[AstExpr], span: Span) -> (r: Result<MacroExpansion, TypeError>)
    requires
        name@ == "assert!"@ ==> args@.len() >= 1,
        name@ == "assert_eq!"@ || name@ == "assert_ne!"@ ==> args@.len() >= 2,
    ensures
        is_format_macro(name@) ==> r matches Ok(MacroExpansion::Format),
        !is_format_macro(name@) ==> if name@ == "dbg!"@ {
            r matches Ok(MacroExpansion::Dbg)
        } else if name@ == "panic!"@ {
            r matches Ok(MacroExpansion::Expr(e)) && e@ == spec_panic_macro(view_exprs(args@), span)
        } else if name@ == "unreachable!"@ || name@ == "todo!"@ {
            r matches Ok(MacroExpansion::Expr(e)) && e@ == spec_unreachable_macro(name@, span)
        } else if name@ == "assert!"@ {
            r matches Ok(MacroExpansion::Expr(e)) && e@ == spec_assert_like(view_exprs(args@), AssertKind::Plain, span)
        } else if name@ == "assert_eq!"@ {
            r matches Ok(MacroExpansion::Expr(e)) && e@ == spec_assert_like(view_exprs(args@), AssertKind::Eq, span)
        } else if name@ == "assert_ne!"@ {
            r matches Ok(MacroExpansion::Expr(e)) && e@ == spec_assert_like(view_exprs(args@), AssertKind::Ne, span)
        } else {
            r matches Err(TypeError::Unsupported { what, span: sp }) && what@ == "未实现的宏 `"@ + name@ + "`"@
                && sp == span
        },
{
    if str_eq(name, "println!") || str_eq(name, "print!") || str_eq(name, "format!") || str_eq(name, "eprintln!")
        || str_eq(name, "eprint!") {
        Ok(MacroExpansion::Format)
    } else if str_eq(name, "dbg!") {
        Ok(MacroExpansion::Dbg)
    } else if str_eq(name, "panic!") {
        Ok(MacroExpansion::Expr(panic_macro_ast(args, span)))
    } else if str_eq(name, "unreachable!") || str_eq(name, "todo!") {
        Ok(MacroExpansion::Expr(unreachable_macro_ast(name, span)))
    } else if str_eq(name, "assert!") {
        Ok(MacroExpansion::Expr(assert_like_ast(args, AssertKind::Plain, span)))
    } else if str_eq(name, "assert_eq!") {
        Ok(MacroExpansion::Expr(assert_like_ast(args, AssertKind::Eq, span)))
    } else if str_eq(name, "assert_ne!") {
        Ok(MacroExpansion::Expr(assert_like_ast(args, AssertKind::Ne, span)))
    } else {
        let mut what = "未实现的宏 `".to_string();
        what.append(name);
        what.append("`");
        Err(TypeError::Unsupported { what, span })
    }
}

/// `<receiver>.deref()`.
pub open spec fn spec_deref_receiver(receiver: Ex, span: Span) -> Ex {
    ex(ExK::MethodCall(Box::new(receiver), "deref"@, Seq::empty(), None), span)
}

/// The receiver `receiver.deref()` that a method call on a smart pointer goes
/// through.
pub fn make_deref_receiver(receiver: &AstExpr, span: Span) -> (r: AstExpr)
    ensures
        r@ == spec_deref_receiver(receiver@, span),
{
    mk_method_call(clone_expr(receiver), "deref".to_string(), vec0(), span)
}

} // verus!
