//! Substitutions of type parameters and their application to types.
use vstd::prelude::*;
use crate::ty::{Ty, Type, FnSig, clone_type, group_view_types, view_types};

verus! {

broadcast use vstd::std_specs::vec::group_vec_axioms, group_view_types;

/// A mapping from type-parameter names to types. Later entries take precedence
/// over earlier ones with the same name.
pub struct Subst {
    pub entries: Vec<(String, Type)>,
}

pub open spec fn subst_view(s: Seq<(String, Type)>) -> Map<Seq<char>, Ty>
    decreases s.len(),
{
    if s.len() == 0 {
        Map::empty()
    } else {
        subst_view(s.drop_last()).insert(s.last().0@, s.last().1@)
    }
}

impl View for Subst {
    type V = Map<Seq<char>, Ty>;

    open spec fn view(&self) -> Map<Seq<char>, Ty> {
        subst_view(self.entries@)
    }
}

/// The last entry for `key` determines its binding.
pub proof fn lemma_subst_lookup(s: Seq<(String, Type)>, key: Seq<char>, k: int)
    requires
        0 <= k < s.len(),
        s[k].0@ == key,
        forall|j: int| k < j < s.len() ==> (#[trigger] s[j]).0@ != key,
    ensures
        subst_view(s).contains_key(key),
        subst_view(s)[key] == s[k].1@,
    decreases s.len(),
{
    if k < s.len() - 1 {
        lemma_subst_lookup(s.drop_last(), key, k);
    }
}

/// A name with no entry is unbound.
pub proof fn lemma_subst_absent(s: Seq<(String, Type)>, key: Seq<char>)
    requires
        forall|j: int| 0 <= j < s.len() ==> (#[trigger] s[j]).0@ != key,
    ensures
        !subst_view(s).contains_key(key),
    decreases s.len(),
{
    if s.len() > 0 {
        lemma_subst_absent(s.drop_last(), key);
    }
}

/// The binding of an `Infer` entry after it is filled with `a`.
pub open spec fn fill_infer(v: Ty, a: Ty) -> Ty {
    if v is Infer {
        a
    } else {
        v
    }
}

proof fn lemma_fill_entries(s1: Seq<(String, Type)>, s2: Seq<(String, Type)>, a: Ty)
    requires
        s1.len() == s2.len(),
        forall|j: int|
            0 <= j < s1.len() ==> (#[trigger] s2[j]).0@ == s1[j].0@ && s2[j].1@ == fill_infer(
                s1[j].1@,
                a,
            ),
    ensures
        subst_view(s2) == subst_view(s1).map_values(|v: Ty| fill_infer(v, a)),
    decreases s1.len(),
{
    if s1.len() > 0 {
        lemma_fill_entries(s1.drop_last(), s2.drop_last(), a);
        assert(subst_view(s2) =~= subst_view(s1).map_values(|v: Ty| fill_infer(v, a)));
    } else {
        assert(subst_view(s2) =~= subst_view(s1).map_values(|v: Ty| fill_infer(v, a)));
    }
}

impl Subst {
    /// The empty substitution.
    pub fn new() -> (r: Subst)
        ensures
            r@ == Map::<Seq<char>, Ty>::empty(),
    {
        Subst { entries: Vec::new() }
    }

    /// The type bound to `key`, if any.
    pub fn get(&self, key: &String) -> (r: Option<&Type>)
        ensures
            r matches Some(t) ==> self@.contains_key(key@) && t@ == self@[key@],
            r is None ==> !self@.contains_key(key@),
    {
        let mut i = self.entries.len();
        while i > 0
            invariant
                i <= self.entries@.len(),
                forall|j: int| i <= j < self.entries@.len() ==> (#[trigger] self.entries@[j]).0@ != key@,
            decreases i,
        {
            i -= 1;
            if self.entries[i].0 == *key {
                proof {
                    lemma_subst_lookup(self.entries@, key@, i as int);
                }
                return Some(&self.entries[i].1);
            }
        }
        proof {
            lemma_subst_absent(self.entries@, key@);
        }
        None
    }

    /// Whether `key` is bound.
    pub fn contains_key(&self, key: &String) -> (r: bool)
        ensures
            r == self@.contains_key(key@),
    {
        self.get(key).is_some()
    }

    /// Binds `key` to `value`, replacing an earlier binding.
    pub fn insert(&mut self, key: String, value: Type)
        ensures
            final(self)@ == old(self)@.insert(key@, value@),
    {
        let ghost k = key@;
        let ghost v = value@;
        self.entries.push((key, value));
        assert(self.entries@.drop_last() =~= old(self).entries@);
    }

    /// Replaces every binding to `Infer` by `arg`.
    pub fn fill_infer(&mut self, arg: &Type)
        ensures
            final(self)@ == old(self)@.map_values(|v: Ty| fill_infer(v, arg@)),
    {
        let ghost s0 = self.entries@;
        let mut i: usize = 0;
        while i < self.entries.len()
            invariant
                self.entries@.len() == s0.len(),
                i <= s0.len(),
                forall|j: int|
                    0 <= j < i ==> (#[trigger] self.entries@[j]).0@ == s0[j].0@
                        && self.entries@[j].1@ == fill_infer(s0[j].1@, arg@),
                forall|j: int| i <= j < s0.len() ==> #[trigger] self.entries@[j] == s0[j],
            decreases s0.len() - i,
        {
            if matches!(self.entries[i].1, Type::Infer) {
                let k = self.entries[i].0.clone();
                let v = clone_type(arg);
                self.entries.set(i, (k, v));
            }
            i += 1;
        }
        proof {
            lemma_fill_entries(s0, self.entries@, arg@);
        }
    }
}

// ---------------------------------------------------------------------------
// Application of a substitution
// ---------------------------------------------------------------------------

/// `t` with every bound type parameter replaced by its binding.
pub open spec fn spec_substitute(t: Ty, m: Map<Seq<char>, Ty>) -> Ty
    decreases t,
{
    match t {
        Ty::Generic(n) => if m.contains_key(n) {
            m[n]
        } else {
            Ty::Generic(n)
        },
        Ty::Array(e, n) => Ty::Array(Box::new(spec_substitute(*e, m)), n),
        Ty::Slice(e) => Ty::Slice(Box::new(spec_substitute(*e, m))),
        Ty::Named(n, args) => Ty::Named(n, substitute_seq(args, m)),
        Ty::Ref(e, q) => Ty::Ref(Box::new(spec_substitute(*e, m)), q),
        Ty::RawPtr(e, q) => Ty::RawPtr(Box::new(spec_substitute(*e, m)), q),
        Ty::Fn(ps, r) => Ty::Fn(substitute_seq(ps, m), Box::new(spec_substitute(*r, m))),
        Ty::Closure { fn_name, captures, params, ret, is_move } => Ty::Closure {
            fn_name,
            captures: substitute_seq(captures, m),
            params: substitute_seq(params, m),
            ret: Box::new(spec_substitute(*ret, m)),
            is_move,
        },
        Ty::Tuple(ts) => Ty::Tuple(substitute_seq(ts, m)),
        Ty::Union(ts) => Ty::Union(substitute_seq(ts, m)),
        Ty::AssocProjection { base, assoc } => Ty::AssocProjection {
            base: Box::new(spec_substitute(*base, m)),
            assoc,
        },
        _ => t,
    }
}

/// Element-wise substitution.
pub open spec fn substitute_seq(s: Seq<Ty>, m: Map<Seq<char>, Ty>) -> Seq<Ty>
    decreases s,
{
    if s.len() == 0 {
        Seq::empty()
    } else {
        substitute_seq(s.subrange(0, s.len() - 1), m).push(spec_substitute(s[s.len() - 1], m))
    }
}

pub proof fn lemma_substitute_seq(s: Seq<Ty>, m: Map<Seq<char>, Ty>)
    ensures
        substitute_seq(s, m).len() == s.len(),
        forall|i: int| 0 <= i < s.len() ==> #[trigger] substitute_seq(s, m)[i] == spec_substitute(s[i], m),
    decreases s.len(),
{
    if s.len() > 0 {
        lemma_substitute_seq(s.subrange(0, s.len() - 1), m);
    }
}

/// Replaces the type parameters bound in `subst` inside `t`.
pub fn substitute(t: &Type, subst: &Subst) -> (r: Type)
    ensures
        r@ == spec_substitute(t@, subst@),
    decreases t,
{
    match t {
        Type::Generic(n) => match subst.get(n) {
            Some(b) => clone_type(b),
            None => Type::Generic(n.clone()),
        },
        Type::Array(e, n) => Type::Array(Box::new(substitute(e, subst)), *n),
        Type::Slice(e) => Type::Slice(Box::new(substitute(e, subst))),
        Type::Named(n, args) => Type::Named(n.clone(), substitute_all(args, subst)),
        Type::Ref(e, q) => Type::Ref(Box::new(substitute(e, subst)), *q),
        Type::RawPtr(e, q) => Type::RawPtr(Box::new(substitute(e, subst)), *q),
        Type::Fn(sig) => Type::Fn(
            Box::new(
                FnSig {
                    params: substitute_all(&sig.params, subst),
                    return_type: substitute(&sig.return_type, subst),
                },
            ),
        ),
        Type::Closure { fn_name, captures, params, ret, is_move } => Type::Closure {
            fn_name: fn_name.clone(),
            captures: substitute_all(captures, subst),
            params: substitute_all(params, subst),
            ret: Box::new(substitute(ret, subst)),
            is_move: *is_move,
        },
        Type::Tuple(ts) => Type::Tuple(substitute_all(ts, subst)),
        Type::Union(ts) => Type::Union(substitute_all(ts, subst)),
        Type::AssocProjection { base, assoc } => Type::AssocProjection {
            base: Box::new(substitute(base, subst)),
            assoc: assoc.clone(),
        },
        _ => clone_type(t),
    }
}

/// Replaces the bound type parameters inside every element of `ts`.
pub fn substitute_all(ts: &Vec<Type>, subst: &Subst) -> (r: Vec<Type>)
    ensures
        view_types(r@) == substitute_seq(view_types(ts@), subst@),
    decreases ts,
{
    let ghost vs = view_types(ts@);
    let mut out: Vec<Type> = Vec::new();
    let mut i: usize = 0;
    while i < ts.len()
        invariant
            i <= ts.len(),
            vs == view_types(ts@),
            out@.len() == i,
            forall|j: int| 0 <= j < i ==> #[trigger] out@[j]@ == spec_substitute(vs[j], subst@),
        decreases ts.len() - i,
    {
        let x = substitute(&ts[i], subst);
        out.push(x);
        i += 1;
    }
    proof {
        lemma_substitute_seq(vs, subst@);
    }
    assert(view_types(out@) =~= substitute_seq(vs, subst@));
    out
}

/// Substitution with no bindings leaves every type unchanged.
pub proof fn law_substitute_empty(t: Ty)
    ensures
        spec_substitute(t, Map::empty()) == t,
    decreases t,
{
    match t {
        Ty::Array(e, _) => law_substitute_empty(*e),
        Ty::Slice(e) => law_substitute_empty(*e),
        Ty::Named(_, args) => lemma_substitute_seq_empty(args),
        Ty::Ref(e, _) => law_substitute_empty(*e),
        Ty::RawPtr(e, _) => law_substitute_empty(*e),
        Ty::Fn(ps, r) => {
            lemma_substitute_seq_empty(ps);
            law_substitute_empty(*r);
        },
        Ty::Closure { captures, params, ret, .. } => {
            lemma_substitute_seq_empty(captures);
            lemma_substitute_seq_empty(params);
            law_substitute_empty(*ret);
        },
        Ty::Tuple(ts) => lemma_substitute_seq_empty(ts),
        Ty::Union(ts) => lemma_substitute_seq_empty(ts),
        Ty::AssocProjection { base, .. } => law_substitute_empty(*base),
        _ => {},
    }
}

proof fn lemma_substitute_seq_empty(s: Seq<Ty>)
    ensures
        substitute_seq(s, Map::empty()) == s,
    decreases s,
{
    lemma_substitute_seq(s, Map::empty());
    assert forall|i: int| 0 <= i < s.len() implies substitute_seq(s, Map::empty())[i] == s[i] by {
        law_substitute_empty(s[i]);
    }
    assert(substitute_seq(s, Map::empty()) =~= s);
}

} // verus!
