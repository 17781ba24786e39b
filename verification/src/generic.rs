//! Generic instantiation: unification of parameter types with argument types,
//! occurrence tests on types, and instance keys.
use vstd::prelude::*;
use vstd::string::StringExecFns;
use crate::error::TypeError;
use crate::render::{push_type, render};
use crate::subst::{Subst, fill_infer, lemma_substitute_seq, spec_substitute, substitute_seq};
use crate::text::{spec_starts_with, starts_with, string_is};
use crate::ty::{Ty, Type, clone_type, group_view_types, view_types};

verus! {

broadcast use vstd::std_specs::vec::group_vec_axioms, group_view_types;

// ---------------------------------------------------------------------------
// Unification
// ---------------------------------------------------------------------------

/// The bindings obtained by matching the parameter type `p` against the argument
/// type `a`, starting from `m`. Type parameters are bound (a later binding
/// replaces an earlier one); constructors are matched argument by argument as
/// far as both sides reach; `Infer` in the parameter fills every binding that is
/// still `Infer`; a mismatch of constructors binds nothing.
pub open spec fn spec_unify(p: Ty, a: Ty, m: Map<Seq<char>, Ty>) -> Map<Seq<char>, Ty>
    decreases p,
{
    match p {
        Ty::Generic(tp) => m.insert(tp, a),
        Ty::Named(pn, ps) => match a {
            Ty::Named(an, args) => if pn == an {
                unify_seq(ps, args, m)
            } else {
                m
            },
            _ => m,
        },
        Ty::Ref(pi, _) => match a {
            Ty::Ref(ai, _) => spec_unify(*pi, *ai, m),
            _ => m,
        },
        Ty::RawPtr(pi, _) => match a {
            Ty::RawPtr(ai, _) => spec_unify(*pi, *ai, m),
            _ => m,
        },
        Ty::Fn(pps, pr) => match a {
            Ty::Fn(aps, ar) => spec_unify(*pr, *ar, unify_seq(pps, aps, m)),
            _ => m,
        },
        Ty::Tuple(ps) => match a {
            Ty::Tuple(args) => unify_seq(ps, args, m),
            _ => m,
        },
        Ty::Infer => m.map_values(|v: Ty| fill_infer(v, a)),
        _ => m,
    }
}

/// Pairwise unification, left to right, over the common length.
pub open spec fn unify_seq(ps: Seq<Ty>, args: Seq<Ty>, m: Map<Seq<char>, Ty>) -> Map<Seq<char>, Ty>
    decreases ps,
{
    if ps.len() == 0 || args.len() == 0 {
        m
    } else {
        unify_seq(
            ps.subrange(1, ps.len() as int),
            args.subrange(1, args.len() as int),
            spec_unify(ps[0], args[0], m),
        )
    }
}

/// Infers type-parameter bindings from a parameter type and the type of the
/// corresponding argument. Never fails. Every binding made before stays
/// bound; a binding is added only for a type parameter occurring in `param`; a
/// type parameter `param` is bound to `arg`; a `param` whose constructor
/// differs from `arg`'s leaves the bindings as they were.
pub fn unify(param: &Type, arg: &Type, subst: &mut Subst) -> (r: Result<(), TypeError>)
    ensures
        r is Ok,
        final(subst)@ == spec_unify(param@, arg@, old(subst)@),
        forall|k: Seq<char>| old(subst)@.dom().contains(k) ==> #[trigger] final(subst)@.dom().contains(k),
        forall|k: Seq<char>| #[trigger] final(subst)@.dom().contains(k) && !old(subst)@.dom().contains(k) ==> generic_in(param@, k),
        param@ matches Ty::Generic(tp) ==> final(subst)@ == old(subst)@.insert(tp, arg@),
        !unify_descends(param@, arg@) ==> final(subst)@ == old(subst)@,
    decreases param,
{
    proof {
        lemma_unify_domain(param@, arg@, old(subst)@);
    }
    match param {
        Type::Generic(tp) => {
            subst.insert(tp.clone(), crate::ty::clone_type(arg));
            Ok(())
        },
        Type::Named(pn, ps) => {
            if let Type::Named(an, args) = arg {
                if *pn == *an {
                    unify_all(ps, args, subst);
                }
            }
            Ok(())
        },
        Type::Ref(inner, _) => {
            if let Type::Ref(ainner, _) = arg {
                let _ = unify(inner, ainner, subst);
            }
            Ok(())
        },
        Type::RawPtr(inner, _) => {
            if let Type::RawPtr(ainner, _) = arg {
                let _ = unify(inner, ainner, subst);
            }
            Ok(())
        },
        Type::Fn(sig) => {
            if let Type::Fn(asig) = arg {
                unify_all(&sig.params, &asig.params, subst);
                let _ = unify(&sig.return_type, &asig.return_type, subst);
            }
            Ok(())
        },
        Type::Tuple(ts) => {
            if let Type::Tuple(ats) = arg {
                unify_all(ts, ats, subst);
            }
            Ok(())
        },
        Type::Infer => {
            subst.fill_infer(arg);
            Ok(())
        },
        _ => Ok(()),
    }
}

/// Unifies `ps[i]` with `args[i]` for every index both reach, in order.
fn unify_all(ps: &Vec<Type>, args: &Vec<Type>, subst: &mut Subst)
    ensures
        final(subst)@ == unify_seq(view_types(ps@), view_types(args@), old(subst)@),
    decreases ps,
{
    let ghost vp = view_types(ps@);
    let ghost va = view_types(args@);
    let ghost m0 = subst@;
    assert(vp.subrange(0, vp.len() as int) =~= vp);
    assert(va.subrange(0, va.len() as int) =~= va);
    let mut i: usize = 0;
    while i < ps.len() && i < args.len()
        invariant
            i <= ps.len(),
            i <= args.len(),
            vp == view_types(ps@),
            va == view_types(args@),
            unify_seq(vp.subrange(i as int, vp.len() as int), va.subrange(i as int, va.len() as int), subst@)
                == unify_seq(vp, va, m0),
        decreases ps.len() - i,
    {
        let ghost tp = vp.subrange(i as int, vp.len() as int);
        let ghost ta = va.subrange(i as int, va.len() as int);
        assert(tp.subrange(1, tp.len() as int) =~= vp.subrange(i + 1, vp.len() as int));
        assert(ta.subrange(1, ta.len() as int) =~= va.subrange(i + 1, va.len() as int));
        assert(tp[0] == ps@[i as int]@);
        assert(ta[0] == args@[i as int]@);
        let _ = unify(&ps[i], &args[i], subst);
        i += 1;
    }
}

// ---------------------------------------------------------------------------
// Unification recovers an instance
// ---------------------------------------------------------------------------

/// Whether `t` holds no type parameter.
pub open spec fn no_generic(t: Ty) -> bool
    decreases t,
{
    match t {
        Ty::Generic(_) => false,
        Ty::Array(e, _) => no_generic(*e),
        Ty::Slice(e) => no_generic(*e),
        Ty::Named(_, args) => all_no_generic(args),
        Ty::Ref(e, _) => no_generic(*e),
        Ty::RawPtr(e, _) => no_generic(*e),
        Ty::Fn(ps, r) => all_no_generic(ps) && no_generic(*r),
        Ty::Closure { captures, params, ret, .. } => all_no_generic(captures) && all_no_generic(params)
            && no_generic(*ret),
        Ty::Tuple(ts) => all_no_generic(ts),
        Ty::Union(ts) => all_no_generic(ts),
        Ty::AssocProjection { base, .. } => no_generic(*base),
        _ => true,
    }
}

pub open spec fn all_no_generic(s: Seq<Ty>) -> bool
    decreases s,
{
    s.len() == 0 || (no_generic(s[0]) && all_no_generic(s.subrange(1, s.len() as int)))
}

/// Whether every type parameter of the parameter type `p` stands where
/// unification looks for it (under named types, references, raw pointers,
/// function types and tuples), and `p` holds no `Infer` there.
pub open spec fn matchable(p: Ty) -> bool
    decreases p,
{
    match p {
        Ty::Generic(_) => true,
        Ty::Infer => false,
        Ty::Named(_, ps) => all_matchable(ps),
        Ty::Tuple(ps) => all_matchable(ps),
        Ty::Ref(i, _) => matchable(*i),
        Ty::RawPtr(i, _) => matchable(*i),
        Ty::Fn(ps, r) => all_matchable(ps) && matchable(*r),
        _ => no_generic(p),
    }
}

pub open spec fn all_matchable(s: Seq<Ty>) -> bool
    decreases s,
{
    s.len() == 0 || (matchable(s[0]) && all_matchable(s.subrange(1, s.len() as int)))
}

proof fn lemma_all_no_generic_at(s: Seq<Ty>, i: int)
    requires
        all_no_generic(s),
        0 <= i < s.len(),
    ensures
        no_generic(s[i]),
    decreases s.len(),
{
    if i > 0 {
        assert(s.subrange(1, s.len() as int)[i - 1] == s[i]);
        lemma_all_no_generic_at(s.subrange(1, s.len() as int), i - 1);
    }
}

/// A type without type parameters is left unchanged by every substitution.
proof fn lemma_substitute_no_generic(t: Ty, m: Map<Seq<char>, Ty>)
    requires
        no_generic(t),
    ensures
        spec_substitute(t, m) == t,
    decreases t,
{
    match t {
        Ty::Array(e, _) => lemma_substitute_no_generic(*e, m),
        Ty::Slice(e) => lemma_substitute_no_generic(*e, m),
        Ty::Named(_, args) => lemma_substitute_seq_no_generic(args, m),
        Ty::Ref(e, _) => lemma_substitute_no_generic(*e, m),
        Ty::RawPtr(e, _) => lemma_substitute_no_generic(*e, m),
        Ty::Fn(ps, r) => {
            lemma_substitute_seq_no_generic(ps, m);
            lemma_substitute_no_generic(*r, m);
        },
        Ty::Closure { captures, params, ret, .. } => {
            lemma_substitute_seq_no_generic(captures, m);
            lemma_substitute_seq_no_generic(params, m);
            lemma_substitute_no_generic(*ret, m);
        },
        Ty::Tuple(ts) => lemma_substitute_seq_no_generic(ts, m),
        Ty::Union(ts) => lemma_substitute_seq_no_generic(ts, m),
        Ty::AssocProjection { base, .. } => lemma_substitute_no_generic(*base, m),
        _ => {},
    }
}

proof fn lemma_substitute_seq_no_generic(s: Seq<Ty>, m: Map<Seq<char>, Ty>)
    requires
        all_no_generic(s),
    ensures
        substitute_seq(s, m) == s,
    decreases s,
{
    lemma_substitute_seq(s, m);
    assert forall|i: int| 0 <= i < s.len() implies substitute_seq(s, m)[i] == s[i] by {
        lemma_all_no_generic_at(s, i);
        lemma_substitute_no_generic(s[i], m);
    }
    assert(substitute_seq(s, m) =~= s);
}

/// Rebinding a type parameter to the value `s` gives it keeps every type on
/// which `m` and `s` agree in agreement.
proof fn lemma_insert_agrees(p: Ty, m: Map<Seq<char>, Ty>, s: Map<Seq<char>, Ty>, t: Seq<char>)
    requires
        spec_substitute(p, m) == spec_substitute(p, s),
    ensures
        spec_substitute(p, m.insert(t, spec_substitute(Ty::Generic(t), s))) == spec_substitute(p, s),
    decreases p,
{
    let m2 = m.insert(t, spec_substitute(Ty::Generic(t), s));
    match p {
        Ty::Array(e, _) => lemma_insert_agrees(*e, m, s, t),
        Ty::Slice(e) => lemma_insert_agrees(*e, m, s, t),
        Ty::Named(_, args) => lemma_insert_agrees_seq(args, m, s, t),
        Ty::Ref(e, _) => lemma_insert_agrees(*e, m, s, t),
        Ty::RawPtr(e, _) => lemma_insert_agrees(*e, m, s, t),
        Ty::Fn(ps, r) => {
            lemma_insert_agrees_seq(ps, m, s, t);
            lemma_insert_agrees(*r, m, s, t);
        },
        Ty::Closure { captures, params, ret, .. } => {
            lemma_insert_agrees_seq(captures, m, s, t);
            lemma_insert_agrees_seq(params, m, s, t);
            lemma_insert_agrees(*ret, m, s, t);
        },
        Ty::Tuple(ts) => lemma_insert_agrees_seq(ts, m, s, t),
        Ty::Union(ts) => lemma_insert_agrees_seq(ts, m, s, t),
        Ty::AssocProjection { base, .. } => lemma_insert_agrees(*base, m, s, t),
        _ => {},
    }
}

proof fn lemma_insert_agrees_seq(ps: Seq<Ty>, m: Map<Seq<char>, Ty>, s: Map<Seq<char>, Ty>, t: Seq<char>)
    requires
        substitute_seq(ps, m) == substitute_seq(ps, s),
    ensures
        substitute_seq(ps, m.insert(t, spec_substitute(Ty::Generic(t), s))) == substitute_seq(ps, s),
    decreases ps,
{
    let m2 = m.insert(t, spec_substitute(Ty::Generic(t), s));
    lemma_substitute_seq(ps, m);
    lemma_substitute_seq(ps, s);
    lemma_substitute_seq(ps, m2);
    assert forall|i: int| 0 <= i < ps.len() implies substitute_seq(ps, m2)[i] == substitute_seq(ps, s)[i] by {
        assert(substitute_seq(ps, m)[i] == substitute_seq(ps, s)[i]);
        assert(substitute_seq(ps, m)[i] == spec_substitute(ps[i], m));
        assert(substitute_seq(ps, s)[i] == spec_substitute(ps[i], s));
        lemma_insert_agrees(ps[i], m, s, t);
    }
    assert(substitute_seq(ps, m2) =~= substitute_seq(ps, s));
}

proof fn lemma_tail_instance(ps: Seq<Ty>, s: Map<Seq<char>, Ty>)
    requires
        ps.len() > 0,
    ensures
        substitute_seq(ps, s)[0] == spec_substitute(ps[0], s),
        substitute_seq(ps, s).subrange(1, ps.len() as int) == substitute_seq(ps.subrange(1, ps.len() as int), s),
{
    let tail = ps.subrange(1, ps.len() as int);
    lemma_substitute_seq(ps, s);
    lemma_substitute_seq(tail, s);
    assert(substitute_seq(ps, s).subrange(1, ps.len() as int) =~= substitute_seq(tail, s));
}

/// Unifying a matchable type `q` with an instance of it keeps every type on
/// which the bindings agreed with the instance in agreement.
proof fn lemma_unify_preserves(p: Ty, q: Ty, m: Map<Seq<char>, Ty>, s: Map<Seq<char>, Ty>)
    requires
        matchable(q),
        spec_substitute(p, m) == spec_substitute(p, s),
    ensures
        spec_substitute(p, spec_unify(q, spec_substitute(q, s), m)) == spec_substitute(p, s),
    decreases q,
{
    match q {
        Ty::Generic(t) => lemma_insert_agrees(p, m, s, t),
        Ty::Named(_, qs) => lemma_unify_seq_preserves(p, qs, m, s),
        Ty::Tuple(qs) => lemma_unify_seq_preserves(p, qs, m, s),
        Ty::Ref(qi, _) => lemma_unify_preserves(p, *qi, m, s),
        Ty::RawPtr(qi, _) => lemma_unify_preserves(p, *qi, m, s),
        Ty::Fn(qs, r) => {
            lemma_unify_seq_preserves(p, qs, m, s);
            lemma_unify_preserves(p, *r, unify_seq(qs, substitute_seq(qs, s), m), s);
        },
        _ => {},
    }
}

proof fn lemma_unify_seq_preserves(p: Ty, qs: Seq<Ty>, m: Map<Seq<char>, Ty>, s: Map<Seq<char>, Ty>)
    requires
        all_matchable(qs),
        spec_substitute(p, m) == spec_substitute(p, s),
    ensures
        spec_substitute(p, unify_seq(qs, substitute_seq(qs, s), m)) == spec_substitute(p, s),
    decreases qs,
{
    lemma_substitute_seq(qs, s);
    if qs.len() > 0 {
        lemma_tail_instance(qs, s);
        lemma_unify_preserves(p, qs[0], m, s);
        let m0 = spec_unify(qs[0], spec_substitute(qs[0], s), m);
        lemma_unify_seq_preserves(p, qs.subrange(1, qs.len() as int), m0, s);
    }
}

proof fn lemma_unify_seq_recovers(ps: Seq<Ty>, s: Map<Seq<char>, Ty>, m: Map<Seq<char>, Ty>)
    requires
        all_matchable(ps),
    ensures
        forall|i: int|
            0 <= i < ps.len() ==> spec_substitute(ps[i], unify_seq(ps, substitute_seq(ps, s), m))
                == #[trigger] spec_substitute(ps[i], s),
    decreases ps,
{
    lemma_substitute_seq(ps, s);
    if ps.len() > 0 {
        let tail = ps.subrange(1, ps.len() as int);
        lemma_tail_instance(ps, s);
        let m0 = spec_unify(ps[0], spec_substitute(ps[0], s), m);
        law_unify_recovers_instance(ps[0], s, m);
        lemma_unify_seq_preserves(ps[0], tail, m0, s);
        lemma_unify_seq_recovers(tail, s, m0);
        assert forall|i: int| 0 <= i < ps.len() implies spec_substitute(
            ps[i],
            unify_seq(ps, substitute_seq(ps, s), m),
        ) == #[trigger] spec_substitute(ps[i], s) by {
            if i > 0 {
                assert(tail[i - 1] == ps[i]);
            }
        }
    }
}

proof fn lemma_seq_agrees(ps: Seq<Ty>, m: Map<Seq<char>, Ty>, s: Map<Seq<char>, Ty>)
    requires
        forall|i: int| 0 <= i < ps.len() ==> spec_substitute(ps[i], m) == #[trigger] spec_substitute(ps[i], s),
    ensures
        substitute_seq(ps, m) == substitute_seq(ps, s),
{
    lemma_substitute_seq(ps, m);
    lemma_substitute_seq(ps, s);
    assert(substitute_seq(ps, m) =~= substitute_seq(ps, s));
}

/// Unification recovers an instance: when the argument type is the parameter
/// type `p` with its type parameters replaced (by `s`), the bindings that
/// unification produces turn `p` back into that argument type, whatever the
/// bindings were before. `p` must be matchable: its type parameters stand
/// under named types, references, raw pointers, function types and tuples, and
/// it holds no `Infer` there.
pub proof fn law_unify_recovers_instance(p: Ty, s: Map<Seq<char>, Ty>, m: Map<Seq<char>, Ty>)
    requires
        matchable(p),
    ensures
        spec_substitute(p, spec_unify(p, spec_substitute(p, s), m)) == spec_substitute(p, s),
    decreases p,
{
    match p {
        Ty::Generic(_) => {},
        Ty::Named(_, ps) => {
            lemma_unify_seq_recovers(ps, s, m);
            lemma_seq_agrees(ps, unify_seq(ps, substitute_seq(ps, s), m), s);
        },
        Ty::Tuple(ps) => {
            lemma_unify_seq_recovers(ps, s, m);
            lemma_seq_agrees(ps, unify_seq(ps, substitute_seq(ps, s), m), s);
        },
        Ty::Ref(pi, _) => law_unify_recovers_instance(*pi, s, m),
        Ty::RawPtr(pi, _) => law_unify_recovers_instance(*pi, s, m),
        Ty::Fn(ps, r) => {
            let m1 = unify_seq(ps, substitute_seq(ps, s), m);
            lemma_unify_seq_recovers(ps, s, m);
            law_unify_recovers_instance(*r, s, m1);
            let m2 = spec_unify(*r, spec_substitute(*r, s), m1);
            assert forall|i: int| 0 <= i < ps.len() implies spec_substitute(ps[i], m2) == #[trigger] spec_substitute(
                ps[i],
                s,
            ) by {
                lemma_unify_preserves(ps[i], *r, m1, s);
            }
            lemma_seq_agrees(ps, m2, s);
        },
        _ => {
            lemma_substitute_no_generic(p, m);
            lemma_substitute_no_generic(p, s);
        },
    }
}

// ---------------------------------------------------------------------------
// Occurrence tests
// ---------------------------------------------------------------------------

/// Whether `Infer` occurs in `t` (through named-type arguments, references,
/// tuples and array elements).
pub open spec fn spec_contains_infer(t: Ty) -> bool
    decreases t,
{
    match t {
        Ty::Infer => true,
        Ty::Named(_, ps) => any_contains_infer(ps),
        Ty::Ref(inner, _) => spec_contains_infer(*inner),
        Ty::Tuple(ts) => any_contains_infer(ts),
        Ty::Array(inner, _) => spec_contains_infer(*inner),
        _ => false,
    }
}

pub open spec fn any_contains_infer(s: Seq<Ty>) -> bool
    decreases s,
{
    s.len() > 0 && (any_contains_infer(s.subrange(0, s.len() - 1)) || spec_contains_infer(
        s[s.len() - 1],
    ))
}

/// Whether `Infer` occurs in `ty`.
pub fn contains_infer(ty: &Type) -> (r: bool)
    ensures
        r == spec_contains_infer(ty@),
    decreases ty,
{
    match ty {
        Type::Infer => true,
        Type::Named(_, ps) => contains_infer_any(ps),
        Type::Ref(inner, _) => contains_infer(inner),
        Type::Tuple(ts) => contains_infer_any(ts),
        Type::Array(inner, _) => contains_infer(inner),
        _ => false,
    }
}

fn contains_infer_any(ts: &Vec<Type>) -> (r: bool)
    ensures
        r == any_contains_infer(view_types(ts@)),
    decreases ts,
{
    let ghost vs = view_types(ts@);
    let mut found = false;
    let mut i: usize = 0;
    while i < ts.len()
        invariant
            i <= ts.len(),
            vs == view_types(ts@),
            found == any_contains_infer(vs.subrange(0, i as int)),
        decreases ts.len() - i,
    {
        assert(vs.subrange(0, i + 1).subrange(0, i as int) =~= vs.subrange(0, i as int));
        if !found && contains_infer(&ts[i]) {
            found = true;
        }
        i += 1;
    }
    assert(vs.subrange(0, ts.len() as int) =~= vs);
    found
}

/// Whether one of the type parameters `names` occurs in `t`.
pub open spec fn spec_contains_generic_named(t: Ty, names: Seq<Seq<char>>) -> bool
    decreases t,
{
    match t {
        Ty::Generic(n) => names.contains(n),
        Ty::Named(_, ps) => any_contains_generic_named(ps, names),
        Ty::Ref(inner, _) => spec_contains_generic_named(*inner, names),
        Ty::RawPtr(inner, _) => spec_contains_generic_named(*inner, names),
        Ty::Fn(ps, r) => any_contains_generic_named(ps, names) || spec_contains_generic_named(
            *r,
            names,
        ),
        Ty::Tuple(ts) => any_contains_generic_named(ts, names),
        Ty::Array(inner, _) => spec_contains_generic_named(*inner, names),
        _ => false,
    }
}

pub open spec fn any_contains_generic_named(s: Seq<Ty>, names: Seq<Seq<char>>) -> bool
    decreases s,
{
    s.len() > 0 && (any_contains_generic_named(s.subrange(0, s.len() - 1), names)
        || spec_contains_generic_named(s[s.len() - 1], names))
}

/// The texts of a vector of names.
pub open spec fn names_view(names: Seq<String>) -> Seq<Seq<char>> {
    names.map_values(|s: String| s@)
}

/// Whether `n` is one of `names`.
pub fn name_in(names: &Vec<String>, n: &String) -> (r: bool)
    ensures
        r == names_view(names@).contains(n@),
{
    let mut i: usize = 0;
    while i < names.len()
        invariant
            i <= names.len(),
            forall|j: int| 0 <= j < i ==> names@[j]@ != n@,
        decreases names.len() - i,
    {
        if names[i] == *n {
            assert(names_view(names@)[i as int] == n@);
            return true;
        }
        i += 1;
    }
    assert(!names_view(names@).contains(n@)) by {
        if names_view(names@).contains(n@) {
            let k = choose|k: int| 0 <= k < names_view(names@).len() && names_view(names@)[k] == n@;
            assert(names@[k]@ == n@);
        }
    }
    false
}

/// Whether one of the type parameters `names` occurs in `ty`.
pub fn contains_generic_named(ty: &Type, names: &Vec<String>) -> (r: bool)
    ensures
        r == spec_contains_generic_named(ty@, names_view(names@)),
    decreases ty,
{
    match ty {
        Type::Generic(n) => name_in(names, n),
        Type::Named(_, ps) => contains_generic_named_any(ps, names),
        Type::Ref(inner, _) => contains_generic_named(inner, names),
        Type::RawPtr(inner, _) => contains_generic_named(inner, names),
        Type::Fn(sig) => contains_generic_named_any(&sig.params, names) || contains_generic_named(
            &sig.return_type,
            names,
        ),
        Type::Tuple(ts) => contains_generic_named_any(ts, names),
        Type::Array(inner, _) => contains_generic_named(inner, names),
        _ => false,
    }
}

fn contains_generic_named_any(ts: &Vec<Type>, names: &Vec<String>) -> (r: bool)
    ensures
        r == any_contains_generic_named(view_types(ts@), names_view(names@)),
    decreases ts,
{
    let ghost vs = view_types(ts@);
    let mut found = false;
    let mut i: usize = 0;
    while i < ts.len()
        invariant
            i <= ts.len(),
            vs == view_types(ts@),
            found == any_contains_generic_named(vs.subrange(0, i as int), names_view(names@)),
        decreases ts.len() - i,
    {
        assert(vs.subrange(0, i + 1).subrange(0, i as int) =~= vs.subrange(0, i as int));
        if !found && contains_generic_named(&ts[i], names) {
            found = true;
        }
        i += 1;
    }
    assert(vs.subrange(0, ts.len() as int) =~= vs);
    found
}

/// Whether `Self` (or an associated type `Self::X`) occurs in `t`.
pub open spec fn spec_mentions_self(t: Ty) -> bool
    decreases t,
{
    match t {
        Ty::Generic(n) => n == "Self"@ || spec_starts_with(n, "Self::"@),
        Ty::Ref(inner, _) => spec_mentions_self(*inner),
        Ty::RawPtr(inner, _) => spec_mentions_self(*inner),
        Ty::Array(inner, _) => spec_mentions_self(*inner),
        Ty::Named(_, ps) => any_mentions_self(ps),
        Ty::Tuple(ps) => any_mentions_self(ps),
        _ => false,
    }
}

pub open spec fn any_mentions_self(s: Seq<Ty>) -> bool
    decreases s,
{
    s.len() > 0 && (any_mentions_self(s.subrange(0, s.len() - 1)) || spec_mentions_self(
        s[s.len() - 1],
    ))
}

/// `t` with every `Self` (`Generic("Self")`) replaced by `concrete`, through
/// named-type arguments, references, raw pointers, tuples, arrays, function
/// and closure types and projection bases.
pub open spec fn spec_replace_self(t: Ty, concrete: Ty) -> Ty
    decreases t,
{
    match t {
        Ty::Generic(n) => if n == "Self"@ {
            concrete
        } else {
            t
        },
        Ty::Named(n, args) => Ty::Named(n, replace_self_seq(args, concrete)),
        Ty::Ref(i, m) => Ty::Ref(Box::new(spec_replace_self(*i, concrete)), m),
        Ty::RawPtr(i, m) => Ty::RawPtr(Box::new(spec_replace_self(*i, concrete)), m),
        Ty::Tuple(ts) => Ty::Tuple(replace_self_seq(ts, concrete)),
        Ty::Array(i, n) => Ty::Array(Box::new(spec_replace_self(*i, concrete)), n),
        Ty::Fn(ps, r) => Ty::Fn(replace_self_seq(ps, concrete), Box::new(spec_replace_self(*r, concrete))),
        Ty::Closure { fn_name, captures, params, ret, is_move } => Ty::Closure {
            fn_name,
            captures: replace_self_seq(captures, concrete),
            params: replace_self_seq(params, concrete),
            ret: Box::new(spec_replace_self(*ret, concrete)),
            is_move,
        },
        Ty::AssocProjection { base, assoc } => Ty::AssocProjection { base: Box::new(spec_replace_self(*base, concrete)), assoc },
        _ => t,
    }
}

pub open spec fn replace_self_seq(s: Seq<Ty>, concrete: Ty) -> Seq<Ty>
    decreases s,
{
    if s.len() == 0 {
        Seq::empty()
    } else {
        replace_self_seq(s.subrange(0, s.len() - 1), concrete).push(spec_replace_self(s[s.len() - 1], concrete))
    }
}

/// Replaces `Self` in `ty` by the implementing type `concrete` (see
/// `spec_replace_self`).
pub fn replace_type_self(ty: &Type, concrete: &Type) -> (r: Type)
    ensures
        r@ == spec_replace_self(ty@, concrete@),
    decreases ty,
{
    match ty {
        Type::Generic(n) => {
            if string_is(n, "Self") {
                clone_type(concrete)
            } else {
                clone_type(ty)
            }
        },
        Type::Named(name, args) => Type::Named(name.clone(), replace_self_all(args, concrete)),
        Type::Ref(inner, m) => Type::Ref(Box::new(replace_type_self(inner, concrete)), *m),
        Type::RawPtr(inner, m) => Type::RawPtr(Box::new(replace_type_self(inner, concrete)), *m),
        Type::Tuple(items) => Type::Tuple(replace_self_all(items, concrete)),
        Type::Array(inner, size) => Type::Array(Box::new(replace_type_self(inner, concrete)), *size),
        Type::Fn(sig) => {
            let params = replace_self_all(&sig.params, concrete);
            let ret = replace_type_self(&sig.return_type, concrete);
            Type::Fn(Box::new(crate::ty::FnSig { params, return_type: ret }))
        },
        Type::Closure { captures, params, ret, fn_name, is_move } => Type::Closure {
            captures: replace_self_all(captures, concrete),
            params: replace_self_all(params, concrete),
            ret: Box::new(replace_type_self(ret, concrete)),
            fn_name: fn_name.clone(),
            is_move: *is_move,
        },
        Type::AssocProjection { base, assoc } => Type::AssocProjection {
            base: Box::new(replace_type_self(base, concrete)),
            assoc: assoc.clone(),
        },
        _ => clone_type(ty),
    }
}

fn replace_self_all(ts: &Vec<Type>, concrete: &Type) -> (r: Vec<Type>)
    ensures
        view_types(r@) == replace_self_seq(view_types(ts@), concrete@),
    decreases ts,
{
    let ghost vs = view_types(ts@);
    let mut out: Vec<Type> = Vec::new();
    let mut i: usize = 0;
    while i < ts.len()
        invariant
            i <= ts.len(),
            vs == view_types(ts@),
            view_types(out@) == replace_self_seq(vs.subrange(0, i as int), concrete@),
        decreases ts.len() - i,
    {
        proof {
            crate::ty::lemma_view_types(ts@);
        }
        let t = replace_type_self(&ts[i], concrete);
        let ghost o0 = out@;
        out.push(t);
        proof {
            crate::ty::lemma_view_types(out@);
            crate::ty::lemma_view_types(o0);
            assert(vs.subrange(0, i + 1).subrange(0, i as int) =~= vs.subrange(0, i as int));
            assert(view_types(out@) =~= view_types(o0).push(t@));
        }
        i += 1;
    }
    assert(vs.subrange(0, ts.len() as int) =~= vs);
    out
}

proof fn lemma_replace_self_seq(s: Seq<Ty>, concrete: Ty)
    ensures
        replace_self_seq(s, concrete).len() == s.len(),
        forall|i: int| 0 <= i < s.len() ==> #[trigger] replace_self_seq(s, concrete)[i] == spec_replace_self(s[i], concrete),
    decreases s.len(),
{
    if s.len() > 0 {
        lemma_replace_self_seq(s.subrange(0, s.len() - 1), concrete);
    }
}

/// Replacing `Self` by `Self` itself leaves every type unchanged.
pub proof fn law_replace_self_by_self(t: Ty)
    ensures
        spec_replace_self(t, Ty::Generic("Self"@)) == t,
    decreases t,
{
    let s = Ty::Generic("Self"@);
    match t {
        Ty::Named(_, args) => lemma_replace_self_seq_identity(args),
        Ty::Ref(i, _) => law_replace_self_by_self(*i),
        Ty::RawPtr(i, _) => law_replace_self_by_self(*i),
        Ty::Tuple(ts) => lemma_replace_self_seq_identity(ts),
        Ty::Array(i, _) => law_replace_self_by_self(*i),
        Ty::Fn(ps, r) => {
            lemma_replace_self_seq_identity(ps);
            law_replace_self_by_self(*r);
        },
        Ty::Closure { captures, params, ret, .. } => {
            lemma_replace_self_seq_identity(captures);
            lemma_replace_self_seq_identity(params);
            law_replace_self_by_self(*ret);
        },
        Ty::AssocProjection { base, .. } => law_replace_self_by_self(*base),
        _ => {},
    }
}

proof fn lemma_replace_self_seq_identity(s: Seq<Ty>)
    ensures
        replace_self_seq(s, Ty::Generic("Self"@)) == s,
    decreases s,
{
    lemma_replace_self_seq(s, Ty::Generic("Self"@));
    assert forall|i: int| 0 <= i < s.len() implies replace_self_seq(s, Ty::Generic("Self"@))[i] == s[i] by {
        law_replace_self_by_self(s[i]);
    }
    assert(replace_self_seq(s, Ty::Generic("Self"@)) =~= s);
}

/// Whether `Self` (or `Self::X`) occurs in `ty`; such signatures cannot be
/// called through a trait object.
pub fn type_mentions_self(ty: &Type) -> (r: bool)
    ensures
        r == spec_mentions_self(ty@),
    decreases ty,
{
    match ty {
        Type::Generic(n) => string_is(n, "Self") || starts_with(n.as_str(), "Self::"),
        Type::Ref(t, _) => type_mentions_self(t),
        Type::RawPtr(t, _) => type_mentions_self(t),
        Type::Array(t, _) => type_mentions_self(t),
        Type::Named(_, ps) => mentions_self_any(ps),
        Type::Tuple(ps) => mentions_self_any(ps),
        _ => false,
    }
}

fn mentions_self_any(ts: &Vec<Type>) -> (r: bool)
    ensures
        r == any_mentions_self(view_types(ts@)),
    decreases ts,
{
    let ghost vs = view_types(ts@);
    let mut found = false;
    let mut i: usize = 0;
    while i < ts.len()
        invariant
            i <= ts.len(),
            vs == view_types(ts@),
            found == any_mentions_self(vs.subrange(0, i as int)),
        decreases ts.len() - i,
    {
        assert(vs.subrange(0, i + 1).subrange(0, i as int) =~= vs.subrange(0, i as int));
        if !found && type_mentions_self(&ts[i]) {
            found = true;
        }
        i += 1;
    }
    assert(vs.subrange(0, ts.len() as int) =~= vs);
    found
}

/// Whether a reference type occurs anywhere in `t` (through element types of
/// arrays, slices, raw pointers and tuples, named-type arguments, closure
/// captures / parameters / results, function signatures and unions).
pub open spec fn spec_contains_ref(t: Ty) -> bool
    decreases t,
{
    match t {
        Ty::Ref(..) => true,
        Ty::Named(_, args) => any_contains_ref(args),
        Ty::Closure { captures, params, ret, .. } => any_contains_ref(captures) || any_contains_ref(
            params,
        ) || spec_contains_ref(*ret),
        Ty::Fn(ps, r) => any_contains_ref(ps) || spec_contains_ref(*r),
        Ty::Union(ms) => any_contains_ref(ms),
        Ty::Tuple(ts) => any_contains_ref(ts),
        Ty::Array(e, _) => spec_contains_ref(*e),
        Ty::Slice(e) => spec_contains_ref(*e),
        Ty::RawPtr(e, _) => spec_contains_ref(*e),
        _ => false,
    }
}

pub open spec fn any_contains_ref(s: Seq<Ty>) -> bool
    decreases s,
{
    s.len() > 0 && (any_contains_ref(s.subrange(0, s.len() - 1)) || spec_contains_ref(
        s[s.len() - 1],
    ))
}

/// Whether a reference type occurs in `ty`; values of such types may not be
/// handed to another thread.
pub fn type_contains_ref(ty: &Type) -> (r: bool)
    ensures
        r == spec_contains_ref(ty@),
    decreases ty,
{
    match ty {
        Type::Ref(..) => true,
        Type::Named(_, args) => contains_ref_any(args),
        Type::Closure { captures, params, ret, .. } => contains_ref_any(captures) || contains_ref_any(
            params,
        ) || type_contains_ref(ret),
        Type::Fn(sig) => contains_ref_any(&sig.params) || type_contains_ref(&sig.return_type),
        Type::Union(members) => contains_ref_any(members),
        Type::Tuple(ts) => contains_ref_any(ts),
        Type::Array(e, _) => type_contains_ref(e),
        Type::Slice(e) => type_contains_ref(e),
        Type::RawPtr(e, _) => type_contains_ref(e),
        _ => false,
    }
}

fn contains_ref_any(ts: &Vec<Type>) -> (r: bool)
    ensures
        r == any_contains_ref(view_types(ts@)),
    decreases ts,
{
    let ghost vs = view_types(ts@);
    let mut found = false;
    let mut i: usize = 0;
    while i < ts.len()
        invariant
            i <= ts.len(),
            vs == view_types(ts@),
            found == any_contains_ref(vs.subrange(0, i as int)),
        decreases ts.len() - i,
    {
        assert(vs.subrange(0, i + 1).subrange(0, i as int) =~= vs.subrange(0, i as int));
        if !found && type_contains_ref(&ts[i]) {
            found = true;
        }
        i += 1;
    }
    assert(vs.subrange(0, ts.len() as int) =~= vs);
    found
}

// ---------------------------------------------------------------------------
// Instance keys
// ---------------------------------------------------------------------------

/// The text of one type argument in an instance key: the bound type if the
/// parameter is bound, else the parameter's own name.
pub open spec fn key_part(tp: Seq<char>, m: Map<Seq<char>, Ty>) -> Seq<char> {
    if m.contains_key(tp) {
        render(m[tp])
    } else {
        tp
    }
}

/// The key parts of a list of type parameters joined by `sep`.
pub open spec fn key_parts(tps: Seq<Seq<char>>, m: Map<Seq<char>, Ty>, sep: Seq<char>) -> Seq<char>
    decreases tps.len(),
{
    if tps.len() == 0 {
        Seq::empty()
    } else if tps.len() == 1 {
        key_part(tps[0], m)
    } else {
        key_parts(tps.drop_last(), m, sep) + sep + key_part(tps.last(), m)
    }
}

/// Appends the key parts of `type_params` separated by `sep`.
pub fn push_key_parts(out: &mut String, type_params: &Vec<String>, subst: &Subst, sep: &str)
    ensures
        final(out)@ == old(out)@ + key_parts(names_view(type_params@), subst@, sep@),
{
    let ghost start = out@;
    let ghost tps = names_view(type_params@);
    let mut i: usize = 0;
    while i < type_params.len()
        invariant
            i <= type_params.len(),
            tps == names_view(type_params@),
            out@ == start + key_parts(tps.subrange(0, i as int), subst@, sep@),
        decreases type_params.len() - i,
    {
        assert(tps.subrange(0, i + 1).drop_last() =~= tps.subrange(0, i as int));
        if i > 0 {
            out.append(sep);
        }
        match subst.get(&type_params[i]) {
            Some(t) => push_type(out, t),
            None => out.append(type_params[i].as_str()),
        }
        i += 1;
        assert(out@ =~= start + key_parts(tps.subrange(0, i as int), subst@, sep@));
    }
    assert(tps.subrange(0, type_params.len() as int) =~= tps);
}

/// The cache key of the instance of generic function `resolved` for the
/// bindings `subst` of its type parameters: `name#A,B,...`.
pub fn mono_key(resolved: &str, type_params: &Vec<String>, subst: &Subst) -> (r: String)
    ensures
        r@ == resolved@ + "#"@ + key_parts(names_view(type_params@), subst@, ","@),
{
    let mut out = String::new();
    out.append(resolved);
    out.append("#");
    push_key_parts(&mut out, type_params, subst, ",");
    assert(out@ =~= resolved@ + "#"@ + key_parts(names_view(type_params@), subst@, ","@));
    out
}


// ---------------------------------------------------------------------------
// What unification may change
// ---------------------------------------------------------------------------

/// The type parameter `k` occurs in `t` where unification looks for it: under
/// named types, references, raw pointers, function types and tuples.
pub open spec fn generic_in(t: Ty, k: Seq<char>) -> bool
    decreases t, 0nat,
{
    match t {
        Ty::Generic(n) => n == k,
        Ty::Named(_, ps) => generic_in_seq(ps, k),
        Ty::Ref(i, _) => generic_in(*i, k),
        Ty::RawPtr(i, _) => generic_in(*i, k),
        Ty::Fn(ps, r) => generic_in_seq(ps, k) || generic_in(*r, k),
        Ty::Tuple(ts) => generic_in_seq(ts, k),
        _ => false,
    }
}

/// The type parameter `k` occurs in one of `ts`.
pub open spec fn generic_in_seq(ts: Seq<Ty>, k: Seq<char>) -> bool
    decreases ts, 1nat,
{
    ts.len() > 0 && (generic_in(ts[0], k) || generic_in_seq(ts.subrange(1, ts.len() as int), k))
}

/// Whether unification of `p` with `a` looks any further: `p` is a type
/// parameter or `_`, or both sides have the same constructor (and, for named
/// types, the same name).
pub open spec fn unify_descends(p: Ty, a: Ty) -> bool {
    match (p, a) {
        (Ty::Generic(_), _) => true,
        (Ty::Infer, _) => true,
        (Ty::Named(pn, _), Ty::Named(an, _)) => pn == an,
        (Ty::Ref(..), Ty::Ref(..)) => true,
        (Ty::RawPtr(..), Ty::RawPtr(..)) => true,
        (Ty::Fn(..), Ty::Fn(..)) => true,
        (Ty::Tuple(_), Ty::Tuple(_)) => true,
        _ => false,
    }
}

proof fn lemma_unify_domain(p: Ty, a: Ty, m: Map<Seq<char>, Ty>)
    ensures
        forall|k: Seq<char>| m.dom().contains(k) ==> #[trigger] spec_unify(p, a, m).dom().contains(k),
        forall|k: Seq<char>| #[trigger] spec_unify(p, a, m).dom().contains(k) && !m.dom().contains(k) ==> generic_in(p, k),
    decreases p, 0nat,
{
    match p {
        Ty::Named(pn, ps) => {
            if let Ty::Named(an, args) = a {
                if pn == an {
                    lemma_unify_seq_domain(ps, args, m);
                    assert(spec_unify(p, a, m) == unify_seq(ps, args, m));
                    assert(forall|k: Seq<char>| generic_in(p, k) == generic_in_seq(ps, k));
                }
            }
        },
        Ty::Ref(pi, _) => {
            if let Ty::Ref(ai, _) = a {
                lemma_unify_domain(*pi, *ai, m);
                assert(spec_unify(p, a, m) == spec_unify(*pi, *ai, m));
                assert(forall|k: Seq<char>| generic_in(p, k) == generic_in(*pi, k));
            }
        },
        Ty::RawPtr(pi, _) => {
            if let Ty::RawPtr(ai, _) = a {
                lemma_unify_domain(*pi, *ai, m);
                assert(spec_unify(p, a, m) == spec_unify(*pi, *ai, m));
                assert(forall|k: Seq<char>| generic_in(p, k) == generic_in(*pi, k));
            }
        },
        Ty::Fn(pps, pr) => {
            if let Ty::Fn(aps, ar) = a {
                lemma_unify_seq_domain(pps, aps, m);
                lemma_unify_domain(*pr, *ar, unify_seq(pps, aps, m));
                assert(spec_unify(p, a, m) == spec_unify(*pr, *ar, unify_seq(pps, aps, m)));
                assert(forall|k: Seq<char>| generic_in(p, k) == (generic_in_seq(pps, k) || generic_in(*pr, k)));
            }
        },
        Ty::Tuple(ps) => {
            if let Ty::Tuple(args) = a {
                lemma_unify_seq_domain(ps, args, m);
                assert(spec_unify(p, a, m) == unify_seq(ps, args, m));
                assert(forall|k: Seq<char>| generic_in(p, k) == generic_in_seq(ps, k));
            }
        },
        Ty::Infer => {
            assert(m.map_values(|v: Ty| fill_infer(v, a)).dom() =~= m.dom());
        },
        _ => {},
    }
}

proof fn lemma_unify_seq_domain(ps: Seq<Ty>, args: Seq<Ty>, m: Map<Seq<char>, Ty>)
    ensures
        forall|k: Seq<char>| m.dom().contains(k) ==> #[trigger] unify_seq(ps, args, m).dom().contains(k),
        forall|k: Seq<char>| #[trigger] unify_seq(ps, args, m).dom().contains(k) && !m.dom().contains(k) ==> generic_in_seq(ps, k),
    decreases ps, 1nat,
{
    if ps.len() > 0 && args.len() > 0 {
        let m1 = spec_unify(ps[0], args[0], m);
        lemma_unify_domain(ps[0], args[0], m);
        lemma_unify_seq_domain(ps.subrange(1, ps.len() as int), args.subrange(1, args.len() as int), m1);
        assert(unify_seq(ps, args, m) == unify_seq(ps.subrange(1, ps.len() as int), args.subrange(1, args.len() as int), m1));
        assert(forall|k: Seq<char>| generic_in_seq(ps, k) == (generic_in(ps[0], k) || generic_in_seq(ps.subrange(1, ps.len() as int), k)));
    }
}

/// What unification changes: every binding made before stays bound, a new
/// binding is made only for a type parameter that occurs in the parameter
/// type, a type parameter is bound to the argument type, and a parameter type
/// whose constructor differs from the argument's leaves the bindings as they
/// were.
pub proof fn law_unify_changes_only_parameters(p: Ty, a: Ty, m: Map<Seq<char>, Ty>)
    ensures
        forall|k: Seq<char>| m.dom().contains(k) ==> #[trigger] spec_unify(p, a, m).dom().contains(k),
        forall|k: Seq<char>| #[trigger] spec_unify(p, a, m).dom().contains(k) && !m.dom().contains(k) ==> generic_in(p, k),
        p matches Ty::Generic(tp) ==> spec_unify(p, a, m) == m.insert(tp, a),
        !unify_descends(p, a) ==> spec_unify(p, a, m) == m,
{
    lemma_unify_domain(p, a, m);
}

} // verus!
