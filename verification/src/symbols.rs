//! Resolution of names against the declarations of the context: traits, trait
//! implementations, associated types and callable functions.
use vstd::prelude::*;
use vstd::string::StringExecFns;
use crate::context::{Ctx, TypeContext, full_name_or_self, spec_resolve_full_name};
use crate::error::{Span, TypeError};
use crate::generic::{name_in, names_view};
use crate::render::{render, type_to_string};
use crate::subst::{Subst, spec_substitute, substitute};
use crate::text::{chars_of, push_char, spec_starts_with, starts_with, str_eq};
use crate::ty::{Ty, Type, clone_type, spec_compatible, type_eq, view_types};

verus! {

broadcast use vstd::std_specs::vec::group_vec_axioms, vstd::string::group_string_axioms, crate::ty::group_view_types;

// ---------------------------------------------------------------------------
// Path segments
// ---------------------------------------------------------------------------

/// The end of the last `::` within `s[..j]` (0 when there is none).
pub open spec fn sep_end(s: Seq<char>, j: int) -> int
    decreases j,
{
    if j < 2 {
        0
    } else if s[j - 2] == ':' && s[j - 1] == ':' {
        j
    } else {
        sep_end(s, j - 1)
    }
}

/// The last segment of a path: the text after its last `::` (all of it when
/// it has none).
pub open spec fn last_segment(s: Seq<char>) -> Seq<char> {
    s.subrange(sep_end(s, s.len() as int), s.len() as int)
}

proof fn lemma_sep_end(s: Seq<char>, j: int)
    ensures
        j >= 0 ==> 0 <= sep_end(s, j) <= j,
        j < 0 ==> sep_end(s, j) == 0,
    decreases j,
{
    if j >= 2 {
        lemma_sep_end(s, j - 1);
    }
}

/// Whether `s` holds `::` at position `i`.
pub open spec fn sep_at(s: Seq<char>, i: int) -> bool {
    0 <= i && i + 1 < s.len() && s[i] == ':' && s[i + 1] == ':'
}

/// Whether `s` holds `::`.
pub open spec fn has_sep(s: Seq<char>) -> bool {
    exists|i: int| #[trigger] sep_at(s, i)
}

fn has_sep_exec(s: &str) -> (r: bool)
    ensures
        r == has_sep(s@),
{
    let cs = chars_of(s);
    let mut i: usize = 0;
    while i < cs.len() && i + 1 < cs.len()
        invariant
            cs@ == s@,
            forall|k: int| 0 <= k < i ==> !#[trigger] sep_at(s@, k),
        decreases cs.len() - i,
    {
        if cs[i] == ':' && cs[i + 1] == ':' {
            assert(sep_at(s@, i as int));
            return true;
        }
        i += 1;
    }
    assert forall|k: int| !#[trigger] sep_at(s@, k) by {
        if sep_at(s@, k) {
            assert(0 <= k < i);
        }
    }
    false
}

/// The text of `cs[from..]`.
fn suffix_string(cs: &Vec<char>, from: usize) -> (r: String)
    requires
        from <= cs@.len(),
    ensures
        r@ == cs@.subrange(from as int, cs@.len() as int),
{
    let mut out = String::new();
    let mut i = from;
    while i < cs.len()
        invariant
            from <= i <= cs@.len(),
            out@ == cs@.subrange(from as int, i as int),
        decreases cs.len() - i,
    {
        push_char(&mut out, cs[i]);
        i += 1;
        assert(out@ =~= cs@.subrange(from as int, i as int));
    }
    out
}

/// The last segment of the path `s`.
pub fn last_segment_of(s: &str) -> (r: String)
    ensures
        r@ == last_segment(s@),
{
    let cs = chars_of(s);
    let mut j = cs.len();
    while j >= 2 && !(cs[j - 2] == ':' && cs[j - 1] == ':')
        invariant
            cs@ == s@,
            j <= cs@.len(),
            sep_end(s@, j as int) == sep_end(s@, s@.len() as int),
        decreases j,
    {
        j -= 1;
    }
    let end = if j < 2 {
        0
    } else {
        j
    };
    proof {
        lemma_sep_end(s@, s@.len() as int);
    }
    suffix_string(&cs, end)
}

// ---------------------------------------------------------------------------
// Traits and implementations
// ---------------------------------------------------------------------------

/// The first declared trait (from `i`) whose last segment is `name`.
pub open spec fn first_with_segment(traits: Seq<Seq<char>>, name: Seq<char>, i: nat) -> Option<Seq<char>>
    decreases traits.len() - i,
{
    if i >= traits.len() {
        None
    } else if last_segment(traits[i as int]) == name {
        Some(traits[i as int])
    } else {
        first_with_segment(traits, name, i + 1)
    }
}

/// The full name of the trait that `name` denotes: `name` itself when it is a
/// declared trait; else its alias when that is a declared trait; else the first
/// declared trait whose last segment is `name`; else `name` unchanged.
pub open spec fn spec_resolve_trait(c: Ctx, name: Seq<char>) -> Seq<char> {
    if c.traits.contains(name) {
        name
    } else if spec_resolve_full_name(c.aliases, name) is Some && c.traits.contains(spec_resolve_full_name(c.aliases, name).unwrap()) {
        spec_resolve_full_name(c.aliases, name).unwrap()
    } else {
        match first_with_segment(c.traits, name, 0) {
            Some(k) => k,
            None => name,
        }
    }
}

/// The full name of the trait that `name` denotes (see `spec_resolve_trait`).
pub fn resolve_trait_def_name(ctx: &TypeContext, name: &str) -> (r: String)
    ensures
        r@ == spec_resolve_trait(ctx@, name@),
{
    let n = name.to_string();
    assert(names_view(ctx.trait_names@) =~= ctx@.traits);
    if name_in(&ctx.trait_names, &n) {
        return n;
    }
    match ctx.resolve_full_name(&n) {
        Some(f) => {
            if name_in(&ctx.trait_names, &f) {
                return f;
            }
        },
        None => {},
    }
    let mut i: usize = 0;
    while i < ctx.trait_names.len()
        invariant
            i <= ctx.trait_names@.len(),
            ctx@.traits == names_view(ctx.trait_names@),
            spec_resolve_trait(ctx@, name@) == match first_with_segment(ctx@.traits, name@, i as nat) {
                Some(k) => k,
                None => name@,
            },
        decreases ctx.trait_names.len() - i,
    {
        let seg = last_segment_of(ctx.trait_names[i].as_str());
        assert(ctx@.traits[i as int] == ctx.trait_names@[i as int]@);
        if str_eq(seg.as_str(), name) {
            return ctx.trait_names[i].clone();
        }
        i += 1;
    }
    n
}

/// Whether the impl block `imp` implements trait `bound` for `concrete`: the
/// impl is for a named type whose name is that of `concrete` (for a named
/// type) or the canonical text of `concrete` (otherwise).
pub open spec fn implements(imp: crate::context::Imp, bound: Seq<char>, concrete: Ty) -> bool {
    &&& imp.trait_name == Some(bound)
    &&& imp.self_type matches Ty::Named(iname, _)
    &&& match concrete {
        Ty::Named(cname, _) => iname == cname,
        t => iname == render(t),
    }
}

/// Whether some impl block implements trait `bound` for `concrete`.
pub fn type_implements_trait(ctx: &TypeContext, bound: &str, concrete: &Type) -> (r: bool)
    ensures
        r == exists|i: int| 0 <= i < ctx@.impls.len() && implements(#[trigger] ctx@.impls[i], bound@, concrete@),
{
    let text = type_to_string(concrete);
    let mut i: usize = 0;
    while i < ctx.impl_defs.len()
        invariant
            i <= ctx.impl_defs@.len(),
            text@ == render(concrete@),
            forall|k: int| 0 <= k < i ==> !implements(#[trigger] ctx@.impls[k], bound@, concrete@),
        decreases ctx.impl_defs.len() - i,
    {
        let imp = &ctx.impl_defs[i];
        assert(ctx@.impls[i as int] == crate::context::impl_view(*imp));
        let for_trait = match &imp.trait_name {
            Some(t) => str_eq(t.as_str(), bound),
            None => false,
        };
        if for_trait {
            if let Type::Named(iname, _) = &imp.self_type {
                let same = match concrete {
                    Type::Named(cname, _) => *iname == *cname,
                    _ => *iname == text,
                };
                if same {
                    return true;
                }
            }
        }
        i += 1;
    }
    false
}

// ---------------------------------------------------------------------------
// Associated types
// ---------------------------------------------------------------------------

/// The first associated type named `member`.
pub open spec fn assoc_lookup(assoc: Seq<(Seq<char>, Ty)>, member: Seq<char>) -> Option<Ty>
    decreases assoc.len(),
{
    if assoc.len() == 0 {
        None
    } else if assoc[0].0 == member {
        Some(assoc[0].1)
    } else {
        assoc_lookup(assoc.subrange(1, assoc.len() as int), member)
    }
}

/// The bindings of the impl's type parameters `tps[..i]` that stand directly as
/// the arguments of its self type, to the base type's arguments at the same
/// positions.
pub open spec fn impl_bindings(tps: Seq<Seq<char>>, self_args: Seq<Ty>, base_args: Seq<Ty>, i: nat) -> Map<Seq<char>, Ty>
    decreases i,
{
    if i == 0 || i > tps.len() {
        Map::empty()
    } else {
        let m = impl_bindings(tps, self_args, base_args, (i - 1) as nat);
        let k = i - 1;
        if k < self_args.len() && k < base_args.len() && self_args[k] == Ty::Generic(tps[k]) {
            m.insert(tps[k], base_args[k])
        } else {
            m
        }
    }
}

/// For a named base type: the first impl (from `i`) for a type of the same
/// name that has the associated type `member`, with the impl's type parameters
/// replaced by the base type's arguments.
pub open spec fn eval_named(impls: Seq<crate::context::Imp>, bname: Seq<char>, bargs: Seq<Ty>, member: Seq<char>, i: nat) -> Option<Ty>
    decreases impls.len() - i,
{
    if i >= impls.len() {
        None
    } else {
        let imp = impls[i as int];
        match imp.self_type {
            Ty::Named(iname, sargs) => if iname == bname && assoc_lookup(imp.assoc, member) is Some {
                Some(spec_substitute(
                    assoc_lookup(imp.assoc, member).unwrap(),
                    impl_bindings(imp.type_params, sargs, bargs, imp.type_params.len()),
                ))
            } else {
                eval_named(impls, bname, bargs, member, i + 1)
            },
            _ => eval_named(impls, bname, bargs, member, i + 1),
        }
    }
}

/// For any other base type: the associated type `member` of the first impl
/// (from `i`) whose type is compatible with the base and that has it.
pub open spec fn eval_loose(impls: Seq<crate::context::Imp>, base: Ty, member: Seq<char>, i: nat) -> Option<Ty>
    decreases impls.len() - i,
{
    if i >= impls.len() {
        None
    } else if spec_compatible(impls[i as int].self_type, base) && assoc_lookup(impls[i as int].assoc, member) is Some {
        assoc_lookup(impls[i as int].assoc, member)
    } else {
        eval_loose(impls, base, member, i + 1)
    }
}

/// The value of the associated type `member` of `base`.
pub open spec fn spec_eval_assoc(c: Ctx, base: Ty, member: Seq<char>) -> Option<Ty> {
    match base {
        Ty::Named(bname, bargs) => eval_named(c.impls, bname, bargs, member, 0),
        _ => eval_loose(c.impls, base, member, 0),
    }
}

fn assoc_lookup_exec(assoc: &Vec<(String, Type)>, member: &str) -> (r: Option<Type>)
    ensures
        match assoc_lookup(crate::context::fields_view(assoc@), member@) {
            Some(t) => r matches Some(x) && x@ == t,
            None => r is None,
        },
{
    let ghost av = crate::context::fields_view(assoc@);
    let mut i: usize = 0;
    assert(av.subrange(0, av.len() as int) =~= av);
    while i < assoc.len()
        invariant
            i <= assoc@.len(),
            av == crate::context::fields_view(assoc@),
            assoc_lookup(av.subrange(i as int, av.len() as int), member@) == assoc_lookup(av, member@),
        decreases assoc.len() - i,
    {
        let ghost rest = av.subrange(i as int, av.len() as int);
        assert(rest.subrange(1, rest.len() as int) =~= av.subrange(i + 1, av.len() as int));
        assert(rest[0] == (assoc@[i as int].0@, assoc@[i as int].1@));
        if str_eq(assoc[i].0.as_str(), member) {
            return Some(clone_type(&assoc[i].1));
        }
        i += 1;
    }
    None
}

fn impl_bindings_exec(tps: &Vec<String>, self_args: &Vec<Type>, base_args: &Vec<Type>) -> (r: Subst)
    ensures
        r@ == impl_bindings(names_view(tps@), view_types(self_args@), view_types(base_args@), tps@.len()),
{
    let ghost tv = names_view(tps@);
    let ghost sv = view_types(self_args@);
    let ghost bv = view_types(base_args@);
    let mut s = Subst::new();
    let mut i: usize = 0;
    while i < tps.len()
        invariant
            i <= tps@.len(),
            tv == names_view(tps@),
            sv == view_types(self_args@),
            bv == view_types(base_args@),
            s@ == impl_bindings(tv, sv, bv, i as nat),
        decreases tps.len() - i,
    {
        assert(tv[i as int] == tps@[i as int]@);
        if i < self_args.len() && i < base_args.len() {
            let g = Type::Generic(tps[i].clone());
            if type_eq(&self_args[i], &g) {
                s.insert(tps[i].clone(), clone_type(&base_args[i]));
            }
        }
        i += 1;
    }
    s
}

/// The value of the associated type `member` of `base` (`Base::member`): for a
/// named base, the first impl for a type of that name that defines `member`,
/// with the impl's type parameters bound to the base's type arguments; for
/// another base, the first impl whose type is compatible with it and that
/// defines `member`. `None` when no impl defines it.
pub fn eval_assoc_projection(ctx: &TypeContext, base: &Type, member: &str) -> (r: Option<Type>)
    ensures
        match spec_eval_assoc(ctx@, base@, member@) {
            Some(t) => r matches Some(x) && x@ == t,
            None => r is None,
        },
{
    let ghost impls = ctx@.impls;
    let mut i: usize = 0;
    match base {
        Type::Named(bname, bargs) => {
            assert(base@ == Ty::Named(bname@, view_types(bargs@)));
            while i < ctx.impl_defs.len()
                invariant
                    i <= ctx.impl_defs@.len(),
                    impls == ctx@.impls,
                    impls.len() == ctx.impl_defs@.len(),
                    eval_named(impls, bname@, view_types(bargs@), member@, i as nat) == spec_eval_assoc(ctx@, base@, member@),
                decreases ctx.impl_defs.len() - i,
            {
                let imp = &ctx.impl_defs[i];
                assert(impls[i as int] == crate::context::impl_view(*imp));
                if let Type::Named(iname, sargs) = &imp.self_type {
                    if *iname == *bname {
                        match assoc_lookup_exec(&imp.assoc_types, member) {
                            Some(t) => {
                                let b = impl_bindings_exec(&imp.type_params, sargs, bargs);
                                assert(names_view(imp.type_params@) =~= impls[i as int].type_params);
                                return Some(substitute(&t, &b));
                            },
                            None => {},
                        }
                    }
                }
                i += 1;
            }
            None
        },
        _ => {
            while i < ctx.impl_defs.len()
                invariant
                    i <= ctx.impl_defs@.len(),
                    impls == ctx@.impls,
                    impls.len() == ctx.impl_defs@.len(),
                    eval_loose(impls, base@, member@, i as nat) == spec_eval_assoc(ctx@, base@, member@),
                decreases ctx.impl_defs.len() - i,
            {
                let imp = &ctx.impl_defs[i];
                assert(impls[i as int] == crate::context::impl_view(*imp));
                if imp.self_type.compatible_with(base) {
                    match assoc_lookup_exec(&imp.assoc_types, member) {
                        Some(t) => {
                            return Some(t);
                        },
                        None => {},
                    }
                }
                i += 1;
            }
            None
        },
    }
}

/// The type `base::member` names: with `base` a bound type parameter, the
/// associated type of its binding, or the projection of the binding when no
/// impl defines it; with `base` an unbound parameter, the projection itself.
pub open spec fn spec_resolve_assoc(c: Ctx, base: Seq<char>, member: Seq<char>) -> Ty {
    if c.subst.contains_key(base) {
        match spec_eval_assoc(c, c.subst[base], member) {
            Some(t) => t,
            None => Ty::AssocProjection { base: Box::new(c.subst[base]), assoc: member },
        }
    } else {
        Ty::AssocProjection { base: Box::new(Ty::Generic(base)), assoc: member }
    }
}

/// Resolves the associated-type projection `base::member` (see
/// `spec_resolve_assoc`). It always succeeds.
pub fn resolve_assoc_projection(ctx: &TypeContext, base: &str, member: &str, span: Span) -> (r: Result<Type, TypeError>)
    ensures
        r matches Ok(t) && t@ == spec_resolve_assoc(ctx@, base@, member@),
{
    let b = base.to_string();
    assert(b@ == base@);
    assert(ctx@.subst == ctx.generic_subst@);
    match ctx.generic_subst.get(&b) {
        Some(concrete) => {
            assert(ctx@.subst.contains_key(base@));
            assert(concrete@ == ctx@.subst[base@]);
            match eval_assoc_projection(ctx, concrete, member) {
                Some(t) => Ok(t),
                None => {
                    let r = Type::AssocProjection { base: Box::new(clone_type(concrete)), assoc: member.to_string() };
                    assert(r@ == Ty::AssocProjection { base: Box::new(ctx@.subst[base@]), assoc: member@ });
                    Ok(r)
                },
            }
        },
        None => {
            let g = Type::Generic(b);
            assert(g@ == Ty::Generic(base@));
            let r = Type::AssocProjection { base: Box::new(g), assoc: member.to_string() };
            assert(r@ == Ty::AssocProjection { base: Box::new(Ty::Generic(base@)), assoc: member@ });
            Ok(r)
        },
    }
}

// ---------------------------------------------------------------------------
// Callables
// ---------------------------------------------------------------------------

/// The registered name that a call of `name` binds to: a raw name `r#f`
/// binds to the root symbol `f`; inside a module, a bare name binds first to the
/// module's own function; at top level, a bare name shadowed by a user function
/// binds to it; a declared function binds to itself; any other name binds to
/// its alias target or stays as it is.
pub open spec fn spec_resolve_callable(c: Ctx, name: Seq<char>) -> Seq<char> {
    let qualified = c.module_prefix + "::"@ + name;
    if spec_starts_with(name, "r#"@) {
        name.subrange(2, name.len() as int)
    } else if !has_sep(name) && c.module_prefix.len() > 0 && c.fns.contains(qualified) {
        qualified
    } else if !has_sep(name) && c.module_prefix.len() == 0 && spec_resolve_full_name(c.shadows, name) is Some {
        spec_resolve_full_name(c.shadows, name).unwrap()
    } else if c.fns.contains(name) {
        name
    } else {
        full_name_or_self(c.aliases, name)
    }
}

/// The last entry for `name` in `pairs`.
fn last_entry(pairs: &Vec<(String, String)>, name: &String) -> (r: Option<String>)
    ensures
        match spec_resolve_full_name(pairs@.map_values(|a: (String, String)| (a.0@, a.1@)), name@) {
            Some(f) => r matches Some(s) && s@ == f,
            None => r is None,
        },
{
    let ghost al = pairs@.map_values(|a: (String, String)| (a.0@, a.1@));
    let mut i = pairs.len();
    assert(al.subrange(0, i as int) =~= al);
    while i > 0
        invariant
            i <= pairs@.len(),
            al == pairs@.map_values(|a: (String, String)| (a.0@, a.1@)),
            spec_resolve_full_name(al.subrange(0, i as int), name@) == spec_resolve_full_name(al, name@),
        decreases i,
    {
        assert(al.subrange(0, i as int).drop_last() =~= al.subrange(0, i - 1));
        assert(al[i - 1] == (pairs@[i - 1].0@, pairs@[i - 1].1@));
        if pairs[i - 1].0 == *name {
            return Some(pairs[i - 1].1.clone());
        }
        i -= 1;
    }
    None
}

/// The registered name that a call of `name` binds to (see
/// `spec_resolve_callable`).
pub fn resolve_callable(ctx: &TypeContext, name: &str) -> (r: String)
    ensures
        r@ == spec_resolve_callable(ctx@, name@),
{
    assert(names_view(ctx.fn_names@) =~= ctx@.fns);
    proof {
        reveal_strlit("r#");
    }
    if starts_with(name, "r#") {
        let cs = chars_of(name);
        return suffix_string(&cs, 2);
    }
    let n = name.to_string();
    let bare = !has_sep_exec(name);
    let mut qualified = ctx.module_prefix.clone();
    qualified.append("::");
    qualified.append(name);
    let in_module = ctx.module_prefix.as_str().unicode_len() > 0;
    if bare && in_module && name_in(&ctx.fn_names, &qualified) {
        return qualified;
    }
    if bare && !in_module {
        match last_entry(&ctx.fn_shadow_of, &n) {
            Some(m) => {
                return m;
            },
            None => {},
        }
    }
    if name_in(&ctx.fn_names, &n) {
        return n;
    }
    match ctx.resolve_full_name(&n) {
        Some(f) => f,
        None => n,
    }
}

// ---------------------------------------------------------------------------
// Bounds of generic parameters
// ---------------------------------------------------------------------------

/// How a bound of a type parameter fails.
pub enum BoundFailure {
    /// The bound names no declared trait.
    Undefined,
    /// The parameter's binding does not implement the trait.
    Mismatch,
}

/// Whether some impl block implements trait `bound` for `concrete`.
pub open spec fn spec_implements(c: Ctx, bound: Seq<char>, concrete: Ty) -> bool {
    exists|i: int| 0 <= i < c.impls.len() && implements(#[trigger] c.impls[i], bound, concrete)
}

/// How bound `b` of a parameter bound to `concrete` fails, if it does.
pub open spec fn bound_failure(c: Ctx, b: Seq<char>, concrete: Ty) -> Option<BoundFailure> {
    let full = spec_resolve_trait(c, b);
    if !c.traits.contains(full) {
        Some(BoundFailure::Undefined)
    } else if !spec_implements(c, full, concrete) {
        Some(BoundFailure::Mismatch)
    } else {
        None
    }
}

/// The first failing bound among `bs[j..]`.
pub open spec fn first_failing_bound(c: Ctx, bs: Seq<Seq<char>>, concrete: Ty, j: nat) -> Option<(Seq<char>, BoundFailure)>
    decreases bs.len() - j,
{
    if j >= bs.len() {
        None
    } else {
        match bound_failure(c, bs[j as int], concrete) {
            Some(f) => Some((bs[j as int], f)),
            None => first_failing_bound(c, bs, concrete, j + 1),
        }
    }
}

/// The first failing bound of the parameters `bounds[i..]` that `m` binds
/// (parameters it does not bind are skipped): the parameter, the bound and how
/// it fails.
pub open spec fn first_bound_failure(c: Ctx, bounds: Seq<(Seq<char>, Seq<Seq<char>>)>, m: Map<Seq<char>, Ty>, i: nat) -> Option<
    (Seq<char>, Seq<char>, BoundFailure),
>
    decreases bounds.len() - i,
{
    if i >= bounds.len() {
        None
    } else {
        let p = bounds[i as int].0;
        if !m.contains_key(p) {
            first_bound_failure(c, bounds, m, i + 1)
        } else {
            match first_failing_bound(c, bounds[i as int].1, m[p], 0) {
                Some((b, f)) => Some((p, b, f)),
                None => first_bound_failure(c, bounds, m, i + 1),
            }
        }
    }
}

pub open spec fn bounds_view(bounds: Seq<(String, Vec<String>)>) -> Seq<(Seq<char>, Seq<Seq<char>>)> {
    bounds.map_values(|e: (String, Vec<String>)| (e.0@, names_view(e.1@)))
}

proof fn lemma_first_failing_none(c: Ctx, bs: Seq<Seq<char>>, concrete: Ty, j: nat)
    ensures
        first_failing_bound(c, bs, concrete, j) is None <==> forall|k: int| j <= k < bs.len() ==> (#[trigger] bound_failure(c, bs[k], concrete)) is None,
    decreases bs.len() - j,
{
    if j < bs.len() {
        lemma_first_failing_none(c, bs, concrete, j + 1);
    }
}

proof fn lemma_first_bound_none(c: Ctx, bounds: Seq<(Seq<char>, Seq<Seq<char>>)>, m: Map<Seq<char>, Ty>, i: nat)
    ensures
        first_bound_failure(c, bounds, m, i) is None <==> forall|k: int, j: int|
            i <= k < bounds.len() && m.contains_key(bounds[k].0) && 0 <= j < bounds[k].1.len() ==> (#[trigger] bound_failure(
                c,
                bounds[k].1[j],
                m[bounds[k].0],
            )) is None,
    decreases bounds.len() - i,
{
    if i < bounds.len() {
        lemma_first_bound_none(c, bounds, m, i + 1);
        let p = bounds[i as int].0;
        if m.contains_key(p) {
            lemma_first_failing_none(c, bounds[i as int].1, m[p], 0);
        }
    }
}

proof fn lemma_bounds_view(c: Ctx, bounds: Seq<(String, Vec<String>)>, m: Map<Seq<char>, Ty>)
    ensures
        (forall|k: int, j: int|
            0 <= k < bounds_view(bounds).len() && m.contains_key(bounds_view(bounds)[k].0) && 0 <= j < bounds_view(bounds)[k].1.len()
                ==> (#[trigger] bound_failure(c, bounds_view(bounds)[k].1[j], m[bounds_view(bounds)[k].0])) is None) <==> (forall|
            k: int,
            j: int,
        |
            0 <= k < bounds.len() && m.contains_key(bounds[k].0@) && 0 <= j < bounds[k].1@.len() ==> (#[trigger] bound_failure(
                c,
                bounds[k].1@[j]@,
                m[bounds[k].0@],
            )) is None),
{
    let bv = bounds_view(bounds);
    assert forall|k: int| 0 <= k < bounds.len() implies #[trigger] bv[k] == (bounds[k].0@, names_view(bounds[k].1@)) by {}
    if forall|k: int, j: int|
        0 <= k < bv.len() && m.contains_key(bv[k].0) && 0 <= j < bv[k].1.len() ==> (#[trigger] bound_failure(c, bv[k].1[j], m[bv[k].0])) is None {
        assert forall|k: int, j: int|
            0 <= k < bounds.len() && m.contains_key(bounds[k].0@) && 0 <= j < bounds[k].1@.len() implies (#[trigger] bound_failure(
                c,
                bounds[k].1@[j]@,
                m[bounds[k].0@],
            )) is None by {
            assert(bv[k] == (bounds[k].0@, names_view(bounds[k].1@)));
            assert(bv[k].1[j] == bounds[k].1@[j]@);
            assert(bound_failure(c, bv[k].1[j], m[bv[k].0]) is None);
        }
    }
    if forall|k: int, j: int|
        0 <= k < bounds.len() && m.contains_key(bounds[k].0@) && 0 <= j < bounds[k].1@.len() ==> (#[trigger] bound_failure(
            c,
            bounds[k].1@[j]@,
            m[bounds[k].0@],
        )) is None {
        assert forall|k: int, j: int|
            0 <= k < bv.len() && m.contains_key(bv[k].0) && 0 <= j < bv[k].1.len() implies (#[trigger] bound_failure(c, bv[k].1[j], m[bv[k].0])) is None by {
            assert(bv[k] == (bounds[k].0@, names_view(bounds[k].1@)));
            assert(bv[k].1[j] == bounds[k].1@[j]@);
            assert(bound_failure(c, bounds[k].1@[j]@, m[bounds[k].0@]) is None);
        }
    }
}

fn implements_exec(ctx: &TypeContext, bound: &String, concrete: &Type) -> (r: bool)
    ensures
        r == spec_implements(ctx@, bound@, concrete@),
{
    type_implements_trait(ctx, bound.as_str(), concrete)
}

/// Checks the trait bounds of the type parameters (`bounds`: each parameter
/// with its bounds) against their bindings `subst`: every bound must name a
/// declared trait that the binding implements. Parameters without a binding
/// are not checked. The first failing bound, in order, is reported.
pub fn check_generic_bounds(ctx: &TypeContext, bounds: &Vec<(String, Vec<String>)>, subst: &Subst, span: Span) -> (r: Result<(), TypeError>)
    ensures
        match first_bound_failure(ctx@, bounds_view(bounds@), subst@, 0) {
            None => r is Ok,
            Some((p, b, BoundFailure::Undefined)) => r matches Err(TypeError::UndefinedType { name, span: sp }) && name@ == b
                && sp == span,
            Some((p, b, BoundFailure::Mismatch)) => r matches Err(TypeError::GenericBoundMismatch { param, bound, ty, span: sp })
                && param@ == p && bound@ == b && ty@ == render(subst@[p]) && sp == span,
        },
        r is Ok <==> forall|k: int, j: int|
            0 <= k < bounds@.len() && subst@.contains_key(bounds@[k].0@) && 0 <= j < bounds@[k].1@.len() ==> (
            #[trigger] bound_failure(ctx@, bounds@[k].1@[j]@, subst@[bounds@[k].0@])) is None,
{
    let ghost bv = bounds_view(bounds@);
    proof {
        lemma_first_bound_none(ctx@, bv, subst@, 0);
        lemma_bounds_view(ctx@, bounds@, subst@);
    }
    let mut i: usize = 0;
    while i < bounds.len()
        invariant
            i <= bounds@.len(),
            bv == bounds_view(bounds@),
            bv.len() == bounds@.len(),
            first_bound_failure(ctx@, bv, subst@, i as nat) == first_bound_failure(ctx@, bv, subst@, 0),
        decreases bounds.len() - i,
    {
        let param = &bounds[i].0;
        let bound_list = &bounds[i].1;
        assert(bv[i as int] == (param@, names_view(bound_list@)));
        match subst.get(param) {
            None => {},
            Some(concrete) => {
                let ghost bs = names_view(bound_list@);
                let mut j: usize = 0;
                while j < bound_list.len()
                    invariant
                        j <= bound_list@.len(),
                        bs == names_view(bound_list@),
                        bs.len() == bound_list@.len(),
                        subst@.contains_key(param@),
                        concrete@ == subst@[param@],
                        bv == bounds_view(bounds@),
                        bv[i as int] == (param@, bs),
                        i < bounds@.len(),
                        first_failing_bound(ctx@, bs, concrete@, j as nat) == first_failing_bound(ctx@, bs, concrete@, 0),
                        first_bound_failure(ctx@, bv, subst@, i as nat) == first_bound_failure(ctx@, bv, subst@, 0),
                    decreases bound_list.len() - j,
                {
                    let bound = &bound_list[j];
                    assert(bs[j as int] == bound@);
                    let full = resolve_trait_def_name(ctx, bound.as_str());
                    assert(names_view(ctx.trait_names@) =~= ctx@.traits);
                    if !name_in(&ctx.trait_names, &full) {
                        return Err(TypeError::UndefinedType { name: bound.clone(), span });
                    }
                    if !implements_exec(ctx, &full, concrete) {
                        return Err(TypeError::GenericBoundMismatch {
                            param: param.clone(),
                            bound: bound.clone(),
                            ty: type_to_string(concrete),
                            span,
                        });
                    }
                    j += 1;
                }
            },
        }
        i += 1;
    }
    Ok(())
}

} // verus!
