//! The meaning of the generated source code, on the fragment the expansions
//! use: values, expressions that compute a value from an environment, and
//! statements that update it.
use vstd::prelude::*;
use crate::ast::{AssignOp, Blk, CompareOp, Ex, ExK, Pat, St};
use crate::binary::BinaryOp;
use crate::render::decimal;

verus! {

/// A run-time value.
pub enum Val {
    Unit,
    Bool(bool),
    Int(int),
    Str(Seq<char>),
    List(Seq<Val>),
    /// `Result::Ok(v)`.
    Okv(Box<Val>),
    /// `Result::Err(v)`.
    Errv(Box<Val>),
}

/// The decimal text of an integer, with a leading `-` when negative
/// (what `int_to_string` yields).
pub open spec fn int_text(i: int) -> Seq<char> {
    if i < 0 {
        "-"@ + decimal((-i) as nat)
    } else {
        decimal(i as nat)
    }
}

/// The value of `e` in the environment `env` (`None` outside the fragment).
pub open spec fn eval(e: Ex, env: Map<Seq<char>, Val>) -> Option<Val>
    decreases e, 0nat,
{
    match e.kind {
        ExK::Int(i) => Some(Val::Int(i)),
        ExK::Bool(b) => Some(Val::Bool(b)),
        ExK::Str(s) => Some(Val::Str(s)),
        ExK::Unit => Some(Val::Unit),
        ExK::Ident(n) => if env.dom().contains(n) {
            Some(env[n])
        } else {
            None
        },
        ExK::Call(callee, args, _) => if args.len() == 1 {
            match eval(args[0], env) {
                Some(v) => match callee.kind {
                    ExK::Path(p) => if p == seq!["String"@, "from"@] {
                        match v {
                            Val::Str(_) => Some(v),
                            _ => None,
                        }
                    } else if p == seq!["Result"@, "Ok"@] {
                        Some(Val::Okv(Box::new(v)))
                    } else if p == seq!["Result"@, "Err"@] {
                        Some(Val::Errv(Box::new(v)))
                    } else if p == seq!["serde"@, "TomlError"@, "ParseError"@] {
                        Some(v)
                    } else {
                        None
                    },
                    ExK::Ident(f) => if f == "int_to_string"@ {
                        match v {
                            Val::Int(i) => Some(Val::Str(int_text(i))),
                            _ => None,
                        }
                    } else {
                        None
                    },
                    _ => None,
                },
                None => None,
            }
        } else {
            None
        },
        ExK::Binary(op, l, r) => match (eval(*l, env), eval(*r, env)) {
            (Some(Val::Bool(x)), Some(Val::Bool(y))) => if op == BinaryOp::Or {
                Some(Val::Bool(x || y))
            } else if op == BinaryOp::And {
                Some(Val::Bool(x && y))
            } else {
                None
            },
            (Some(Val::Str(x)), Some(Val::Str(y))) => if op == BinaryOp::Add {
                Some(Val::Str(x + y))
            } else {
                None
            },
            (Some(Val::Int(x)), Some(Val::Int(y))) => if op == BinaryOp::Add {
                Some(Val::Int(x + y))
            } else {
                None
            },
            _ => None,
        },
        ExK::Chain(es, ops) => if es.len() == 2 && ops.len() == 1 {
            match (eval(es[0], env), eval(es[1], env)) {
                (Some(x), Some(y)) => if ops[0] == CompareOp::Eq {
                    Some(Val::Bool(x == y))
                } else if ops[0] == CompareOp::Lt {
                    match (x, y) {
                        (Val::Int(i), Val::Int(j)) => Some(Val::Bool(i < j)),
                        _ => None,
                    }
                } else {
                    None
                },
                _ => None,
            }
        } else {
            None
        },
        ExK::If(c, t, el) => match eval(*c, env) {
            Some(Val::Bool(true)) => eval_lets(t, 0, env),
            Some(Val::Bool(false)) => match el {
                Some(b) => eval_lets(b, 0, env),
                None => Some(Val::Unit),
            },
            _ => None,
        },
        ExK::Block(b) => eval_lets(b, 0, env),
        _ => None,
    }
}

/// The value of the block `b` from statement `i` on, when its statements
/// only bind names (`let x = e;`).
pub open spec fn eval_lets(b: Blk, i: nat, env: Map<Seq<char>, Val>) -> Option<Val>
    decreases b, b.stmts.len() - i + 1,
{
    if i >= b.stmts.len() {
        match b.final_expr {
            Some(e) => eval(*e, env),
            None => Some(Val::Unit),
        }
    } else {
        match b.stmts[i as int] {
            St::Let(Pat::Ident(n), _, init, _) => match eval(*init, env) {
                Some(v) => eval_lets(b, i + 1, env.insert(n, v)),
                None => None,
            },
            _ => None,
        }
    }
}

/// The value of a block.
pub open spec fn eval_block(b: Blk, env: Map<Seq<char>, Val>) -> Option<Val> {
    eval_lets(b, 0, env)
}

/// The environment after running `s`: `e;` for a block of such statements,
/// `if c { .. } else { .. }`, `x += e`, `x = e` and `v.push(e)` on a list.
pub open spec fn exec_stmt(s: St, env: Map<Seq<char>, Val>) -> Option<Map<Seq<char>, Val>>
    decreases s, 2nat,
{
    match s {
        St::Semi(e) => exec_expr(*e, env),
        _ => None,
    }
}

pub open spec fn exec_expr(e: Ex, env: Map<Seq<char>, Val>) -> Option<Map<Seq<char>, Val>>
    decreases e, 1nat,
{
    match e.kind {
        ExK::If(c, t, el) => match eval(*c, env) {
            Some(Val::Bool(true)) => exec_stmts(t.stmts, 0, env),
            Some(Val::Bool(false)) => match el {
                Some(b) => exec_stmts(b.stmts, 0, env),
                None => Some(env),
            },
            _ => None,
        },
        ExK::For(Pat::Ident(x), it, body) => match eval(*it, env) {
            Some(Val::List(xs)) => exec_for(body, x, xs, 0, env),
            _ => None,
        },
        ExK::Assign(target, op, value) => match (target.kind, eval(*value, env)) {
            (ExK::Ident(n), Some(v)) => if op == AssignOp::Assign {
                Some(env.insert(n, v))
            } else if op == AssignOp::AddAssign && env.dom().contains(n) {
                match (env[n], v) {
                    (Val::Int(x), Val::Int(y)) => Some(env.insert(n, Val::Int(x + y))),
                    _ => None,
                }
            } else {
                None
            },
            _ => None,
        },
        ExK::MethodCall(recv, m, args, _) => if m == "push"@ && args.len() == 1 {
            match (recv.kind, eval(args[0], env)) {
                (ExK::Ident(n), Some(v)) => if env.dom().contains(n) {
                    match env[n] {
                        Val::List(xs) => Some(env.insert(n, Val::List(xs.push(v)))),
                        _ => None,
                    }
                } else {
                    None
                },
                _ => None,
            }
        } else {
            None
        },
        _ => None,
    }
}

/// Runs the loop body `b` for the elements `xs[i..]`, each bound to `x`.
pub open spec fn exec_for(b: Blk, x: Seq<char>, xs: Seq<Val>, i: nat, env: Map<Seq<char>, Val>) -> Option<Map<Seq<char>, Val>>
    decreases b, xs.len() - i,
{
    if i >= xs.len() {
        Some(env)
    } else {
        match exec_stmts(b.stmts, 0, env.insert(x, xs[i as int])) {
            Some(env2) => exec_for(b, x, xs, i + 1, env2),
            None => None,
        }
    }
}

pub open spec fn exec_stmts(stmts: Seq<St>, i: nat, env: Map<Seq<char>, Val>) -> Option<Map<Seq<char>, Val>>
    decreases stmts, stmts.len() - i,
{
    if i >= stmts.len() {
        Some(env)
    } else {
        match exec_stmt(stmts[i as int], env) {
            Some(env2) => exec_stmts(stmts, i + 1, env2),
            None => None,
        }
    }
}

/// The paths of the calls the evaluator knows are pairwise different.
pub proof fn lemma_call_paths_differ()
    ensures
        seq!["Result"@, "Ok"@] != seq!["String"@, "from"@],
        seq!["Result"@, "Err"@] != seq!["String"@, "from"@],
        seq!["Result"@, "Err"@] != seq!["Result"@, "Ok"@],
        seq!["serde"@, "TomlError"@, "ParseError"@] != seq!["String"@, "from"@],
        seq!["serde"@, "TomlError"@, "ParseError"@] != seq!["Result"@, "Ok"@],
        seq!["serde"@, "TomlError"@, "ParseError"@] != seq!["Result"@, "Err"@],
{
    assert(seq!["serde"@, "TomlError"@, "ParseError"@].len() == 3);
    assert(seq!["String"@, "from"@].len() == 2);
    reveal_strlit("Result");
    reveal_strlit("String");
    reveal_strlit("Ok");
    reveal_strlit("Err");
    assert("Result"@[0] == 'R' && "String"@[0] == 'S');
    assert(seq!["Result"@, "Ok"@][0] != seq!["String"@, "from"@][0]);
    assert(seq!["Result"@, "Err"@][0] != seq!["String"@, "from"@][0]);
    assert("Ok"@.len() == 2 && "Err"@.len() == 3);
    assert(seq!["Result"@, "Err"@][1] != seq!["Result"@, "Ok"@][1]);
}

} // verus!
