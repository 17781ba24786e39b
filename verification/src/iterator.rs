//! Iterator adapters (`map`, `filter`, `fold`, `take`, `skip`, `collect`):
//! their expansion into a source-level loop that fills a `Vec` (or folds into
//! an accumulator).
use vstd::prelude::*;
use vstd::string::StringExecFns;
use crate::ast::{
    Arm, AstBlock, AstExpr, AstPattern, AstStmt, AstType, AType, AssignOp, Blk, CompareOp, Ex, ExK, ExprKind,
    MatchArm, Pat, St, clone_expr, ex, mk_block, mk_block_expr, mk_call, mk_for, mk_if, mk_int, mk_let,
    mk_let_typed, mk_method_call, mk_semi, vec0, vec1, vec2, view_arms, view_atypes, view_pats, view_stmts,
    atypes0,
};
use crate::context::{Ctx, TypeContext, full_name_or_self};
use crate::desugar::{mk_path_call, spec_path_call};
use crate::error::{Span, TypeError};
use crate::json_de::{spec_ty_to_ast, ty_to_ast, tys_to_ast, tys_to_ast_vec};
use crate::json_ser::{blk, chain2, chain2_ast, ident, ident_ast, int_lit, let_ident, mcall, semi, semi_block};
use crate::render::{decimal, push_decimal};
use crate::text::{str_eq, string_is};
use crate::meaning::{Val, eval, exec_expr, exec_for, exec_stmt, exec_stmts};
use crate::ty::{Ty, Type, clone_type, view_types};

verus! {

broadcast use vstd::std_specs::vec::group_vec_axioms, vstd::string::group_string_axioms, crate::ty::group_view_types;

// ---------------------------------------------------------------------------
// The expansion, on the model
// ---------------------------------------------------------------------------

/// The number of arguments an adapter takes.
pub open spec fn adapter_arity(method: Seq<char>) -> nat {
    if method == "collect"@ {
        0
    } else if method == "fold"@ {
        2
    } else {
        1
    }
}

/// The name of an adapter's temporary: `__adp_<role>_<n>`.
pub open spec fn adp(role: Seq<char>, n: nat) -> Seq<char> {
    "__adp_"@ + role + "_"@ + decimal(n)
}

/// The receiver is walked with `for` (arrays and `Vec`) rather than by `next()`.
pub open spec fn walks_by_for(c: Ctx, self_ty: Ty) -> bool {
    match self_ty {
        Ty::Array(_, _) => true,
        Ty::Named(n, _) => full_name_or_self(c.aliases, n) == "Vec"@,
        _ => false,
    }
}

pub open spec fn is_closure_lit(e: Ex) -> bool {
    e.kind is Closure
}

/// The type of the result: the accumulator for `fold`, else a `Vec` of the
/// closure's results (`map`) or of the elements.
pub open spec fn adapter_result(method: Seq<char>, elem: Ty, closure_ret: Ty, init_ty: Ty) -> Ty {
    if method == "fold"@ {
        init_ty
    } else if method == "map"@ {
        Ty::Named("Vec"@, seq![closure_ret])
    } else {
        Ty::Named("Vec"@, seq![elem])
    }
}

/// The annotation of the output variable.
pub open spec fn out_annotation(t: Ty) -> AType {
    match t {
        Ty::Named(_, _) => spec_ty_to_ast(t),
        _ => AType::Path("Vec"@, seq![spec_ty_to_ast(t)]),
    }
}

/// `<f>(<a>, ...)` with identifier arguments.
pub open spec fn call_f(f: Seq<char>, args: Seq<Seq<char>>, span: Span) -> Ex {
    ex(ExK::Call(Box::new(ident(f, span)), args.map_values(|a: Seq<char>| ident(a, span)), Seq::empty()), span)
}

/// `<out>.push(<v>)`.
pub open spec fn push_var(out: Seq<char>, v: Seq<char>, span: Span) -> Ex {
    mcall(ident(out, span), "push"@, seq![ident(v, span)], span)
}

/// `<n> += 1`.
pub open spec fn bump(n: Seq<char>, span: Span) -> Ex {
    ex(ExK::Assign(Box::new(ident(n, span)), AssignOp::AddAssign, Box::new(int_lit(1, span))), span)
}

/// The statements applied to each element `x` inside the loop; `n` is the
/// counter value the temporaries were numbered with.
pub open spec fn apply_stmts(method: Seq<char>, n: nat, arg0: Ex, span: Span) -> Seq<St> {
    let f = adp("f"@, n);
    let x = adp("x"@, n);
    let out = adp("out"@, n);
    let acc = adp("acc"@, n);
    let cnt = adp("n"@, n);
    if method == "map"@ {
        let u = adp("u"@, n + 6);
        seq![let_ident(u, call_f(f, seq![x], span), false), semi(push_var(out, u, span))]
    } else if method == "filter"@ {
        seq![semi(ex(ExK::If(Box::new(call_f(f, seq![x], span)), blk(seq![semi(push_var(out, x, span))], None, span), None), span))]
    } else if method == "fold"@ {
        seq![semi(ex(ExK::Assign(Box::new(ident(acc, span)), AssignOp::Assign, Box::new(call_f(f, seq![acc, x], span))), span))]
    } else if method == "take"@ {
        seq![semi(ex(ExK::If(
            Box::new(chain2(ident(cnt, span), CompareOp::Lt, arg0, span)),
            blk(seq![semi(bump(cnt, span)), semi(push_var(out, x, span))], None, span),
            Some(blk(seq![semi(ex(ExK::Break(None), span))], None, span)),
        ), span))]
    } else if method == "skip"@ {
        seq![semi(ex(ExK::If(
            Box::new(chain2(ident(cnt, span), CompareOp::Lt, arg0, span)),
            blk(seq![semi(bump(cnt, span))], None, span),
            Some(blk(seq![semi(push_var(out, x, span))], None, span)),
        ), span))]
    } else {
        seq![semi(push_var(out, x, span))]
    }
}

/// The loop over the receiver: `for x in recv { apply }`, or
/// `loop { match it.next() { Some(x) => { apply }, None => break } }`.
pub open spec fn adapter_loop(by_for: bool, n: nat, recv: Ex, apply: Seq<St>, span: Span) -> Ex {
    let x = adp("x"@, n);
    if by_for {
        ex(ExK::For(Pat::Ident(x), Box::new(recv), blk(apply, None, span)), span)
    } else {
        let next = mcall(ident(adp("it"@, n), span), "next"@, Seq::empty(), span);
        let some_arm = Arm {
            pattern: Pat::Enum("Some"@, seq![Pat::Ident(x)]),
            guard: None,
            body: Box::new(ex(ExK::Block(blk(apply, None, span)), span)),
            span,
        };
        let none_arm = Arm {
            pattern: Pat::Enum("None"@, Seq::empty()),
            guard: None,
            body: Box::new(ex(ExK::Break(None), span)),
            span,
        };
        ex(ExK::Loop(blk(seq![semi(ex(ExK::Match(Box::new(next), seq![some_arm, none_arm]), span))], None, span)), span)
    }
}

/// The whole expansion: the output vector (and accumulator, counter or
/// iterator bindings), the loop, and the result variable.
/// The bindings before the loop: the output vector, then the accumulator
/// (`fold`), the counter (`take` / `skip`) and the iterator (receivers walked
/// by `next()`).
pub open spec fn adapter_prefix(n: nat, by_for: bool, method: Seq<char>, recv: Ex, arg0: Ex, result: Ty, span: Span) -> Seq<St> {
    let head = seq![St::Let(Pat::Ident(adp("out"@, n)), Some(out_annotation(result)), Box::new(spec_path_call(seq!["Vec"@, "new"@], Seq::empty(), span)), true)];
    let with_acc = if method == "fold"@ { head.push(let_ident(adp("acc"@, n), arg0, true)) } else { head };
    let with_cnt = if method == "take"@ || method == "skip"@ { with_acc.push(let_ident(adp("n"@, n), int_lit(0, span), true)) } else { with_acc };
    if !by_for { with_cnt.push(let_ident(adp("it"@, n), recv, true)) } else { with_cnt }
}

/// The whole expansion: the bindings, the loop, and the result variable.
pub open spec fn adapter_block(c: Ctx, recv: Ex, self_ty: Ty, method: Seq<char>, args: Seq<Ex>, result: Ty, span: Span) -> Ex {
    let n = c.next_temp;
    let by_for = walks_by_for(c, self_ty);
    let arg0 = if args.len() > 0 { args[0] } else { ex(ExK::Unit, span) };
    let stmts = adapter_prefix(n, by_for, method, recv, arg0, result, span).push(
        semi(adapter_loop(by_for, n, recv, apply_stmts(method, n, arg0, span), span)),
    );
    let fin = if method == "fold"@ { ident(adp("acc"@, n), span) } else { ident(adp("out"@, n), span) };
    ex(ExK::Block(blk(stmts, Some(fin), span)), span)
}

pub open spec fn msg_closure_required(method: Seq<char>) -> Seq<char> {
    "`"@ + method + "` 的参数必须是闭包 `|x| ..`"@
}

pub open spec fn msg_fold_closure() -> Seq<char> {
    "`fold` 的第二个参数必须是闭包 `|acc, x| ..`"@
}

pub open spec fn msg_fold_init() -> Seq<char> {
    "`fold` 的初始值要求类型确定（如 `0` / `String::from(\"\")`）"@
}

/// The adapter names are pairwise distinct.
proof fn lemma_adapter_names()
    ensures
        "map"@ != "filter"@, "map"@ != "fold"@, "map"@ != "take"@, "map"@ != "skip"@, "map"@ != "collect"@,
        "filter"@ != "fold"@, "filter"@ != "take"@, "filter"@ != "skip"@, "filter"@ != "collect"@,
        "fold"@ != "take"@, "fold"@ != "skip"@, "fold"@ != "collect"@,
        "take"@ != "skip"@, "take"@ != "collect"@, "skip"@ != "collect"@,
{
    reveal_strlit("map");
    reveal_strlit("filter");
    reveal_strlit("fold");
    reveal_strlit("take");
    reveal_strlit("skip");
    reveal_strlit("collect");
    assert("map"@.len() == 3 && "filter"@.len() == 6 && "fold"@.len() == 4 && "take"@.len() == 4);
    assert("skip"@.len() == 4 && "collect"@.len() == 7);
    assert("fold"@[0] == 'f' && "take"@[0] == 't' && "skip"@[0] == 's');
}

// ---------------------------------------------------------------------------
// Building the expansion
// ---------------------------------------------------------------------------

fn adp_name(role: &str, n: usize) -> (r: String)
    ensures
        r@ == adp(role@, n as nat),
{
    let mut s = "__adp_".to_string();
    s.append(role);
    s.append("_");
    push_decimal(&mut s, n);
    s
}

fn call_f_ast(f: &String, args: &Vec<String>, span: Span) -> (r: AstExpr)
    ensures
        r@ == call_f(f@, args@.map_values(|a: String| a@), span),
{
    let mut es: Vec<AstExpr> = Vec::new();
    let mut i: usize = 0;
    while i < args.len()
        invariant
            i <= args@.len(),
            es@.len() == i,
            forall|j: int| 0 <= j < i ==> (#[trigger] es@[j])@ == ident(args@[j]@, span),
        decreases args.len() - i,
    {
        es.push(ident_ast(&args[i], span));
        i += 1;
    }
    proof {
        crate::ast::lemma_view_exprs(es@);
    }
    let ghost names = args@.map_values(|a: String| a@);
    assert(crate::ast::view_exprs(es@) =~= names.map_values(|a: Seq<char>| ident(a, span)));
    let r = mk_call(ident_ast(f, span), es, atypes0(), span);
    r
}

fn call1(f: &String, a: &String, span: Span) -> (r: AstExpr)
    ensures
        r@ == call_f(f@, seq![a@], span),
{
    let args = vec![a.clone()];
    let r = call_f_ast(f, &args, span);
    assert(args@.map_values(|s: String| s@) =~= seq![a@]);
    r
}

fn call2(f: &String, a: &String, b: &String, span: Span) -> (r: AstExpr)
    ensures
        r@ == call_f(f@, seq![a@, b@], span),
{
    let args = vec![a.clone(), b.clone()];
    let r = call_f_ast(f, &args, span);
    assert(args@.map_values(|s: String| s@) =~= seq![a@, b@]);
    r
}

fn push_var_ast(out: &String, v: &String, span: Span) -> (r: AstExpr)
    ensures
        r@ == push_var(out@, v@, span),
{
    mk_method_call(ident_ast(out, span), "push".to_string(), vec1(ident_ast(v, span)), span)
}

fn bump_ast(n: &String, span: Span) -> (r: AstExpr)
    ensures
        r@ == bump(n@, span),
{
    AstExpr::new(ExprKind::Assign { target: ident_ast(n, span), op: AssignOp::AddAssign, value: mk_int(1, span) }, span)
}

fn break_ast(span: Span) -> (r: AstExpr)
    ensures
        r@ == ex(ExK::Break(None), span),
{
    AstExpr::new(ExprKind::Break(None), span)
}

fn block2(a: AstStmt, b: AstStmt, span: Span) -> (r: AstBlock)
    ensures
        r@ == blk(seq![a@, b@], None, span),
{
    let ghost (av, bv) = (a@, b@);
    let stmts = vec![a, b];
    proof {
        crate::ast::lemma_view_stmts(stmts@);
    }
    assert(view_stmts(stmts@) =~= seq![av, bv]);
    mk_block(stmts, None, span)
}

fn semi_stmts1(e: AstExpr) -> (r: Vec<AstStmt>)
    ensures
        view_stmts(r@) == seq![semi(e@)],
{
    let ghost ev = e@;
    let v = vec![mk_semi(e)];
    proof {
        crate::ast::lemma_view_stmts(v@);
    }
    assert(view_stmts(v@) =~= seq![semi(ev)]);
    v
}

/// The per-element statements (see `apply_stmts`).
fn apply_ast(method: &str, n: usize, arg0: &AstExpr, span: Span) -> (r: Vec<AstStmt>)
    requires
        n + 6 <= usize::MAX,
    ensures
        view_stmts(r@) == apply_stmts(method@, n as nat, arg0@, span),
{
    let f = adp_name("f", n);
    let x = adp_name("x", n);
    let out = adp_name("out", n);
    let acc = adp_name("acc", n);
    let cnt = adp_name("n", n);
    if str_eq(method, "map") {
        let u = adp_name("u", n + 6);
        let s1 = mk_let(u.clone(), call1(&f, &x, span), false);
        let s2 = mk_semi(push_var_ast(&out, &u, span));
        let ghost (v1, v2) = (s1@, s2@);
        let v = vec![s1, s2];
        proof {
            crate::ast::lemma_view_stmts(v@);
        }
        assert(view_stmts(v@) =~= seq![v1, v2]);
        v
    } else if str_eq(method, "filter") {
        let then_b = semi_block(push_var_ast(&out, &x, span), span);
        semi_stmts1(mk_if(call1(&f, &x, span), then_b, None, span))
    } else if str_eq(method, "fold") {
        let asg = AstExpr::new(
            ExprKind::Assign { target: ident_ast(&acc, span), op: AssignOp::Assign, value: call2(&f, &acc, &x, span) },
            span,
        );
        semi_stmts1(asg)
    } else if str_eq(method, "take") {
        let cond = chain2_ast(ident_ast(&cnt, span), CompareOp::Lt, clone_expr(arg0), span);
        let then_b = block2(mk_semi(bump_ast(&cnt, span)), mk_semi(push_var_ast(&out, &x, span)), span);
        let else_b = semi_block(break_ast(span), span);
        semi_stmts1(mk_if(cond, then_b, Some(else_b), span))
    } else if str_eq(method, "skip") {
        let cond = chain2_ast(ident_ast(&cnt, span), CompareOp::Lt, clone_expr(arg0), span);
        let then_b = semi_block(bump_ast(&cnt, span), span);
        let else_b = semi_block(push_var_ast(&out, &x, span), span);
        semi_stmts1(mk_if(cond, then_b, Some(else_b), span))
    } else {
        semi_stmts1(push_var_ast(&out, &x, span))
    }
}

/// The loop over the receiver (see `adapter_loop`).
fn loop_ast(by_for: bool, n: usize, recv: &AstExpr, apply: Vec<AstStmt>, span: Span) -> (r: AstExpr)
    ensures
        r@ == adapter_loop(by_for, n as nat, recv@, view_stmts(apply@), span),
{
    let x = adp_name("x", n);
    if by_for {
        mk_for(AstPattern::Ident(x), clone_expr(recv), mk_block(apply, None, span), span)
    } else {
        let ghost av = view_stmts(apply@);
        let next = mk_method_call(ident_ast(&adp_name("it", n), span), "next".to_string(), vec0(), span);
        let ps = vec![AstPattern::Ident(x.clone())];
        proof {
            crate::ast::lemma_view_pats(ps@);
        }
        assert(view_pats(ps@) =~= seq![Pat::Ident(x@)]);
        let some_pat = AstPattern::Enum("Some".to_string(), ps);
        let some_arm = MatchArm {
            pattern: some_pat,
            guard: None,
            body: mk_block_expr(mk_block(apply, None, span), span),
            span,
        };
        let none_pat = AstPattern::Enum("None".to_string(), Vec::new());
        assert(view_pats(Seq::<AstPattern>::empty()) =~= Seq::<Pat>::empty());
        let none_arm = MatchArm { pattern: none_pat, guard: None, body: break_ast(span), span };
        assert(crate::ast::view_arm(some_arm).pattern == Pat::Enum("Some"@, seq![Pat::Ident(x@)]));
        assert(crate::ast::view_arm(none_arm).pattern == Pat::Enum("None"@, Seq::<Pat>::empty()));
        let arms = vec![some_arm, none_arm];
        proof {
            crate::ast::lemma_view_arms(arms@);
        }
        let ghost arms_v = seq![
            Arm {
                pattern: Pat::Enum("Some"@, seq![Pat::Ident(x@)]),
                guard: None,
                body: Box::new(ex(ExK::Block(blk(av, None, span)), span)),
                span,
            },
            Arm { pattern: Pat::Enum("None"@, Seq::empty()), guard: None, body: Box::new(ex(ExK::Break(None), span)), span },
        ];
        assert(view_arms(arms@) =~= arms_v);
        let m = AstExpr::new(ExprKind::Match { expr: next, arms }, span);
        let body = mk_block(semi_stmts1(m), None, span);
        AstExpr::new(ExprKind::Loop { body }, span)
    }
}

/// The annotation of the output variable (see `out_annotation`).
fn out_annotation_ast(t: &Type) -> (r: AstType)
    ensures
        r@ == out_annotation(t@),
{
    match t {
        Type::Named(_, _) => ty_to_ast(t),
        _ => {
            let inner = vec![ty_to_ast(t)];
            proof {
                crate::ast::lemma_view_atypes(inner@);
            }
            assert(view_atypes(inner@) =~= seq![spec_ty_to_ast(t@)]);
            AstType::Path("Vec".to_string(), inner)
        },
    }
}

fn push_stmt(v: &mut Vec<AstStmt>, s: AstStmt)
    ensures
        view_stmts(final(v)@) == view_stmts(old(v)@).push(s@),
{
    let ghost old_v = v@;
    v.push(s);
    proof {
        crate::ast::lemma_view_stmts(v@);
        crate::ast::lemma_view_stmts(old_v);
    }
    assert(view_stmts(v@) =~= view_stmts(old_v).push(s@));
}

/// The expansion of an iterator adapter `recv.<method>(args)` over elements of
/// type `elem_ty`, for a receiver of type `self_ty`: a block that binds
/// `__adp_out_<n>: Vec<..> = Vec::new()` (with `__adp_acc_<n>` for `fold`,
/// `__adp_n_<n>` for `take` / `skip`, `__adp_it_<n>` for a receiver walked by
/// `next()`), runs the loop, and yields the vector (the accumulator for
/// `fold`). The temporaries are numbered with the context's counter, which
/// advances by six (seven for `map`).
///
/// `closure_ret` is the type the closure argument of `map` returns and
/// `init_ty` the type of `fold`'s initial value, both as inferred by the
/// caller; the closure itself is bound to `__adp_f_<n>` by the caller, which
/// also checks the returned block.
#[verifier::rlimit(60)]
pub fn check_iterator_adapter(
    ctx: &mut TypeContext,
    receiver: &AstExpr,
    self_ty: &Type,
    method: &str,
    args: &[AstExpr],
    elem_ty: &Type,
    closure_ret: &Type,
    init_ty: &Type,
    span: Span,
) -> (r: Result<AstExpr, TypeError>)
    requires
        old(ctx)@.next_temp + 7 <= usize::MAX,
    ensures
        args@.len() != adapter_arity(method@) ==> (r matches Err(TypeError::UnexpectedArgumentCount {
            name,
            expected,
            found,
            span: sp,
        }) && name@ == "<"@ + method@ + ">"@ && expected == adapter_arity(method@) && found == args@.len()
            && sp == span) && final(ctx)@ == old(ctx)@,
        args@.len() == adapter_arity(method@) ==> {
            let c6 = Ctx { next_temp: old(ctx)@.next_temp + 6, ..old(ctx)@ };
            if (method@ == "map"@ || method@ == "filter"@) && !is_closure_lit(args@[0]@) {
                (r matches Err(TypeError::Unsupported { what, span: sp }) && what@ == msg_closure_required(method@)
                    && sp == args@[0].span) && final(ctx)@ == c6
            } else if method@ == "fold"@ && !is_closure_lit(args@[1]@) {
                (r matches Err(TypeError::Unsupported { what, span: sp }) && what@ == msg_fold_closure() && sp
                    == args@[1].span) && final(ctx)@ == c6
            } else if method@ == "fold"@ && init_ty@ is Infer {
                (r matches Err(TypeError::Unsupported { what, span: sp }) && what@ == msg_fold_init() && sp
                    == args@[0].span) && final(ctx)@ == c6
            } else {
                (r matches Ok(e) && e@ == adapter_block(
                    old(ctx)@,
                    receiver@,
                    self_ty@,
                    method@,
                    crate::ast::view_exprs(args@),
                    adapter_result(method@, elem_ty@, closure_ret@, init_ty@),
                    span,
                )) && final(ctx)@ == (Ctx {
                    next_temp: old(ctx)@.next_temp + if method@ == "map"@ { 7nat } else { 6nat },
                    ..old(ctx)@
                })
            }
        },
{
    proof {
        crate::ast::lemma_view_exprs(args@);
        lemma_adapter_names();
    }
    let by_for = match self_ty {
        Type::Array(_, _) => true,
        Type::Named(n, _) => {
            let full = match ctx.resolve_full_name(n) {
                Some(f) => f,
                None => n.clone(),
            };
            string_is(&full, "Vec")
        },
        _ => false,
    };
    assert(by_for == walks_by_for(old(ctx)@, self_ty@));
    let expect: usize = if str_eq(method, "collect") {
        0
    } else if str_eq(method, "fold") {
        2
    } else {
        1
    };
    assert(expect == adapter_arity(method@));
    if args.len() != expect {
        let mut name = "<".to_string();
        name.append(method);
        name.append(">");
        return Err(TypeError::UnexpectedArgumentCount { name, expected: expect, found: args.len(), span });
    }
    let n = ctx.next_temp;
    ctx.next_temp = n + 6;
    let is_map = str_eq(method, "map");
    let is_fold = str_eq(method, "fold");
    if is_map || str_eq(method, "filter") {
        if !matches!(*args[0].kind, ExprKind::Closure { .. }) {
            let mut what = "`".to_string();
            what.append(method);
            what.append("` 的参数必须是闭包 `|x| ..`");
            return Err(TypeError::Unsupported { what, span: args[0].span });
        }
    } else if is_fold {
        if !matches!(*args[1].kind, ExprKind::Closure { .. }) {
            return Err(TypeError::Unsupported {
                what: "`fold` 的第二个参数必须是闭包 `|acc, x| ..`".to_string(),
                span: args[1].span,
            });
        }
        if matches!(init_ty, Type::Infer) {
            return Err(TypeError::Unsupported {
                what: "`fold` 的初始值要求类型确定（如 `0` / `String::from(\"\")`）".to_string(),
                span: args[0].span,
            });
        }
    }
    if is_map {
        ctx.next_temp = n + 7;
    }
    let result = if is_fold {
        clone_type(init_ty)
    } else if is_map {
        Type::Named("Vec".to_string(), vec![clone_type(closure_ret)])
    } else {
        Type::Named("Vec".to_string(), vec![clone_type(elem_ty)])
    };
    proof {
        if let Type::Named(_, targs) = &result {
            crate::ty::lemma_view_types(targs@);
            if !is_fold {
                assert(view_types(targs@) =~= seq![if is_map { closure_ret@ } else { elem_ty@ }]);
            }
        }
    }
    assert(result@ == adapter_result(method@, elem_ty@, closure_ret@, init_ty@));
    let e = adapter_block_ast(Ghost(old(ctx)@), by_for, n, receiver, self_ty, method, args, &result, span);
    Ok(e)
}

/// `let mut __adp_out_<n>: <annotation> = Vec::new();`
fn out_binding_ast(n: usize, result: &Type, span: Span) -> (r: AstStmt)
    ensures
        r@ == St::Let(Pat::Ident(adp("out"@, n as nat)), Some(out_annotation(result@)), Box::new(spec_path_call(seq!["Vec"@, "new"@], Seq::empty(), span)), true),
{
    let segs = vec!["Vec".to_string(), "new".to_string()];
    assert(crate::ast::view_strings(segs@) =~= seq!["Vec"@, "new"@]);
    let init = mk_path_call(segs, vec0(), span);
    mk_let_typed(adp_name("out", n), out_annotation_ast(result), init, true)
}

/// The bindings before the loop (see `adapter_prefix`).
#[verifier::rlimit(40)]
fn prefix_ast(by_for: bool, n: usize, receiver: &AstExpr, method: &str, arg0: &AstExpr, result: &Type, span: Span) -> (r: Vec<AstStmt>)
    requires
        n + 7 <= usize::MAX,
    ensures
        view_stmts(r@) == adapter_prefix(n as nat, by_for, method@, receiver@, arg0@, result@, span),
{
    proof {
        lemma_adapter_names();
    }
    let first = out_binding_ast(n, result, span);
    let ghost head = seq![first@];
    let mut stmts: Vec<AstStmt> = Vec::new();
    assert(view_stmts(stmts@) =~= Seq::<St>::empty());
    push_stmt(&mut stmts, first);
    assert(view_stmts(stmts@) =~= head);
    let ghost with_acc = if method@ == "fold"@ { head.push(let_ident(adp("acc"@, n as nat), arg0@, true)) } else { head };
    if str_eq(method, "fold") {
        push_stmt(&mut stmts, mk_let(adp_name("acc", n), clone_expr(arg0), true));
    }
    assert(view_stmts(stmts@) == with_acc);
    let ghost with_cnt = if method@ == "take"@ || method@ == "skip"@ { with_acc.push(let_ident(adp("n"@, n as nat), int_lit(0, span), true)) } else { with_acc };
    if str_eq(method, "take") || str_eq(method, "skip") {
        push_stmt(&mut stmts, mk_let(adp_name("n", n), mk_int(0, span), true));
    }
    assert(view_stmts(stmts@) == with_cnt);
    if !by_for {
        push_stmt(&mut stmts, mk_let(adp_name("it", n), clone_expr(receiver), true));
    }
    stmts
}

/// Builds the expansion (see `adapter_block`) once the arguments are checked.
#[verifier::rlimit(40)]
fn adapter_block_ast(
    Ghost(c): Ghost<Ctx>,
    by_for: bool,
    n: usize,
    receiver: &AstExpr,
    self_ty: &Type,
    method: &str,
    args: &[AstExpr],
    result: &Type,
    span: Span,
) -> (r: AstExpr)
    requires
        n == c.next_temp,
        n + 7 <= usize::MAX,
        by_for == walks_by_for(c, self_ty@),
    ensures
        r@ == adapter_block(c, receiver@, self_ty@, method@, crate::ast::view_exprs(args@), result@, span),
{
    proof {
        crate::ast::lemma_view_exprs(args@);
        lemma_adapter_names();
    }
    let is_fold = str_eq(method, "fold");
    let unit = AstExpr::new(ExprKind::Unit, span);
    let arg0 = if args.len() > 0 { &args[0] } else { &unit };
    let apply = apply_ast(method, n, arg0, span);
    let out = adp_name("out", n);
    let mut stmts = prefix_ast(by_for, n, receiver, method, arg0, result, span);
    push_stmt(&mut stmts, mk_semi(loop_ast(by_for, n, receiver, apply, span)));
    let fin = if is_fold {
        ident_ast(&adp_name("acc", n), span)
    } else {
        ident_ast(&out, span)
    };
    let e = mk_block_expr(mk_block(stmts, Some(fin), span), span);
    e
}

// ---------------------------------------------------------------------------
// What `skip` does
// ---------------------------------------------------------------------------

/// The counter, output and element temporaries of one expansion differ.
proof fn lemma_adp_roles_differ(n: nat)
    ensures
        adp("n"@, n) != adp("out"@, n),
        adp("n"@, n) != adp("x"@, n),
        adp("out"@, n) != adp("x"@, n),
{
    reveal_strlit("__adp_");
    reveal_strlit("n");
    reveal_strlit("out");
    reveal_strlit("x");
    assert(adp("n"@, n)[6] == 'n');
    assert(adp("out"@, n)[6] == 'o');
    assert(adp("x"@, n)[6] == 'x');
}

/// One element through the body of `skip(k)`: while the counter is below
/// `k` it is incremented and nothing is pushed; once it has reached `k` the
/// element is pushed and the counter stays.
pub proof fn law_skip_step(n: nat, k: int, cnt: int, out: Seq<Val>, x: Val, env: Map<Seq<char>, Val>, span: Span)
    requires
        env.dom().contains(adp("n"@, n)) && env[adp("n"@, n)] == Val::Int(cnt),
        env.dom().contains(adp("out"@, n)) && env[adp("out"@, n)] == Val::List(out),
        env.dom().contains(adp("x"@, n)) && env[adp("x"@, n)] == x,
    ensures
        exec_stmts(apply_stmts("skip"@, n, int_lit(k, span), span), 0, env) == Some(
            if cnt < k {
                env.insert(adp("n"@, n), Val::Int(cnt + 1))
            } else {
                env.insert(adp("out"@, n), Val::List(out.push(x)))
            },
        ),
{
    lemma_adapter_names();
    reveal_strlit("push");
    let cn = adp("n"@, n);
    let on = adp("out"@, n);
    let xn = adp("x"@, n);
    let cond = chain2(ident(cn, span), CompareOp::Lt, int_lit(k, span), span);
    assert(eval(ident(cn, span), env) == Some(Val::Int(cnt)));
    assert(eval(int_lit(k, span), env) == Some(Val::Int(k)));
    assert(eval(cond, env) == Some(Val::Bool(cnt < k)));
    let inc = bump(cn, span);
    let push = push_var(on, xn, span);
    assert(eval(int_lit(1, span), env) == Some(Val::Int(1)));
    assert(exec_expr(inc, env) == Some(env.insert(cn, Val::Int(cnt + 1))));
    assert(eval(ident(xn, span), env) == Some(x));
    assert(exec_expr(push, env) == Some(env.insert(on, Val::List(out.push(x)))));
    let then_s = seq![semi(inc)];
    let else_s = seq![semi(push)];
    assert(exec_stmts(then_s, 1, env.insert(cn, Val::Int(cnt + 1))) == Some(env.insert(cn, Val::Int(cnt + 1))));
    assert(exec_stmt(then_s[0], env) == exec_expr(inc, env));
    assert(exec_stmts(then_s, 0, env) == Some(env.insert(cn, Val::Int(cnt + 1))));
    assert(exec_stmts(else_s, 1, env.insert(on, Val::List(out.push(x)))) == Some(env.insert(on, Val::List(out.push(x)))));
    assert(exec_stmt(else_s[0], env) == exec_expr(push, env));
    assert(exec_stmts(else_s, 0, env) == Some(env.insert(on, Val::List(out.push(x)))));
    let ife = ex(ExK::If(Box::new(cond), blk(then_s, None, span), Some(blk(else_s, None, span))), span);
    let stmts = apply_stmts("skip"@, n, int_lit(k, span), span);
    assert(stmts == seq![semi(ife)]);
    let r = exec_expr(ife, env).unwrap();
    assert(exec_stmt(semi(ife), env) == exec_expr(ife, env));
    assert(exec_stmts(stmts, 1, r) == Some(r));
}

/// How many elements `skip(k)` has dropped after `i` elements.
pub open spec fn skipped_after(k: int, i: int) -> int {
    if k <= 0 {
        0
    } else if i < k {
        i
    } else {
        k
    }
}

proof fn lemma_skip_loop(n: nat, k: int, xs: Seq<Val>, i: nat, env: Map<Seq<char>, Val>, span: Span)
    requires
        i <= xs.len(),
        env.dom().contains(adp("n"@, n)) && env[adp("n"@, n)] == Val::Int(skipped_after(k, i as int)),
        env.dom().contains(adp("out"@, n)) && env[adp("out"@, n)] == Val::List(xs.subrange(skipped_after(k, i as int), i as int)),
    ensures
        exec_for(blk(apply_stmts("skip"@, n, int_lit(k, span), span), None, span), adp("x"@, n), xs, i, env) matches Some(env2)
            && env2.dom().contains(adp("out"@, n)) && env2[adp("out"@, n)] == Val::List(xs.subrange(skipped_after(k, xs.len() as int), xs.len() as int)),
    decreases xs.len() - i,
{
    let b = blk(apply_stmts("skip"@, n, int_lit(k, span), span), None, span);
    lemma_adp_roles_differ(n);
    if i < xs.len() {
        let cn = adp("n"@, n);
        let on = adp("out"@, n);
        let xn = adp("x"@, n);
        let e1 = env.insert(xn, xs[i as int]);
        let m = skipped_after(k, i as int);
        law_skip_step(n, k, m, xs.subrange(m, i as int), xs[i as int], e1, span);
        let e2 = if m < k {
            e1.insert(cn, Val::Int(m + 1))
        } else {
            e1.insert(on, Val::List(xs.subrange(m, i as int).push(xs[i as int])))
        };
        assert(exec_stmts(b.stmts, 0, e1) == Some(e2));
        if m < k {
            assert(skipped_after(k, (i + 1) as int) == m + 1);
            assert(xs.subrange(m, i as int) =~= xs.subrange(m + 1, (i + 1) as int));
        } else {
            assert(skipped_after(k, (i + 1) as int) == m);
            assert(xs.subrange(m, i as int).push(xs[i as int]) =~= xs.subrange(m, (i + 1) as int));
        }
        lemma_skip_loop(n, k, xs, i + 1, e2, span);
    }
}

/// `skip(k)` over a `Vec` or an array drops exactly the first `k` elements
/// (none for `k <= 0`, all when there are fewer): run on the elements `xs`
/// from an empty output and a zero counter, its loop leaves the output
/// holding the elements after the first `k`.
pub proof fn law_skip_drops_first(n: nat, k: int, xs: Seq<Val>, recv: Seq<char>, env: Map<Seq<char>, Val>, span: Span)
    requires
        env.dom().contains(recv) && env[recv] == Val::List(xs),
        env.dom().contains(adp("n"@, n)) && env[adp("n"@, n)] == Val::Int(0),
        env.dom().contains(adp("out"@, n)) && env[adp("out"@, n)] == Val::List(Seq::empty()),
    ensures
        exec_expr(adapter_loop(true, n, ident(recv, span), apply_stmts("skip"@, n, int_lit(k, span), span), span), env)
            matches Some(env2) && env2.dom().contains(adp("out"@, n)) && env2[adp("out"@, n)] == Val::List(
            if k <= 0 {
                xs
            } else if k < xs.len() {
                xs.subrange(k, xs.len() as int)
            } else {
                Seq::empty()
            },
        ),
{
    assert(xs.subrange(0, 0) =~= Seq::<Val>::empty());
    lemma_skip_loop(n, k, xs, 0, env, span);
    assert(eval(ident(recv, span), env) == Some(Val::List(xs)));
    if k <= 0 {
        assert(xs.subrange(0, xs.len() as int) =~= xs);
    } else if k >= xs.len() {
        assert(xs.subrange(xs.len() as int, xs.len() as int) =~= Seq::<Val>::empty());
    }
}


proof fn lemma_collect_loop(n: nat, xs: Seq<Val>, i: nat, env: Map<Seq<char>, Val>, span: Span)
    requires
        i <= xs.len(),
        env.dom().contains(adp("out"@, n)) && env[adp("out"@, n)] == Val::List(xs.subrange(0, i as int)),
    ensures
        exec_for(blk(apply_stmts("collect"@, n, ex(ExK::Unit, span), span), None, span), adp("x"@, n), xs, i, env) matches Some(env2)
            && env2.dom().contains(adp("out"@, n)) && env2[adp("out"@, n)] == Val::List(xs),
    decreases xs.len() - i,
{
    lemma_adapter_names();
    lemma_adp_roles_differ(n);
    reveal_strlit("push");
    let b = blk(apply_stmts("collect"@, n, ex(ExK::Unit, span), span), None, span);
    let on = adp("out"@, n);
    let xn = adp("x"@, n);
    if i < xs.len() {
        let e1 = env.insert(xn, xs[i as int]);
        let push = push_var(on, xn, span);
        assert(eval(ident(xn, span), e1) == Some(xs[i as int]));
        let e2 = e1.insert(on, Val::List(xs.subrange(0, i as int).push(xs[i as int])));
        assert(exec_expr(push, e1) == Some(e2));
        assert(b.stmts == seq![semi(push)]);
        assert(exec_stmt(b.stmts[0], e1) == exec_expr(push, e1));
        assert(exec_stmts(b.stmts, 1, e2) == Some(e2));
        assert(exec_stmts(b.stmts, 0, e1) == Some(e2));
        assert(xs.subrange(0, i as int).push(xs[i as int]) =~= xs.subrange(0, (i + 1) as int));
        lemma_collect_loop(n, xs, i + 1, e2, span);
    } else {
        assert(xs.subrange(0, i as int) =~= xs);
    }
}

/// `collect()` over a `Vec` or an array keeps every element, in order: run
/// on the elements `xs` from an empty output, its loop leaves the output
/// equal to `xs`.
pub proof fn law_collect_keeps_all(n: nat, xs: Seq<Val>, recv: Seq<char>, env: Map<Seq<char>, Val>, span: Span)
    requires
        env.dom().contains(recv) && env[recv] == Val::List(xs),
        env.dom().contains(adp("out"@, n)) && env[adp("out"@, n)] == Val::List(Seq::empty()),
    ensures
        exec_expr(adapter_loop(true, n, ident(recv, span), apply_stmts("collect"@, n, ex(ExK::Unit, span), span), span), env)
            matches Some(env2) && env2.dom().contains(adp("out"@, n)) && env2[adp("out"@, n)] == Val::List(xs),
{
    assert(xs.subrange(0, 0) =~= Seq::<Val>::empty());
    lemma_collect_loop(n, xs, 0, env, span);
    assert(eval(ident(recv, span), env) == Some(Val::List(xs)));
}

} // verus!
