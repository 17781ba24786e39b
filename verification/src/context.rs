//! The part of the checking context that the desugarings read: struct
//! definitions, `use` aliases, the bindings of the generic instance being
//! checked, and the counter of compiler-generated temporaries.
use vstd::prelude::*;
use vstd::string::StringExecFns;
use crate::render::{decimal, push_decimal};
use crate::subst::Subst;
use crate::ty::{Ty, Type};

verus! {

broadcast use vstd::std_specs::vec::group_vec_axioms;

/// A struct definition: its name and its fields in definition order.
pub struct StructDef {
    pub name: String,
    pub fields: Vec<(String, Type)>,
}

/// An enum definition: its name, its variants (name and tag) and the number of
/// slots a value of it takes.
pub struct EnumDef {
    pub name: String,
    pub variants: Vec<(String, usize)>,
    pub slot_count: usize,
}

/// An impl block: the implementing type, the implemented trait (none for an
/// inherent impl), the impl's type parameters and its associated types.
pub struct ImplDef {
    pub self_type: Type,
    pub trait_name: Option<String>,
    pub type_params: Vec<String>,
    pub assoc_types: Vec<(String, Type)>,
}

/// The checking context.
pub struct TypeContext {
    pub structs: Vec<StructDef>,
    /// `use` aliases: short name to full name; a later entry replaces an earlier one.
    pub use_aliases: Vec<(String, String)>,
    /// Bindings of the type parameters of the generic instance being checked.
    pub generic_subst: Subst,
    /// The number of temporaries created so far.
    pub next_temp: usize,
    /// The impl blocks, in declaration order.
    pub impl_defs: Vec<ImplDef>,
    /// The full names of the declared traits.
    pub trait_names: Vec<String>,
    /// The full names of the declared functions.
    pub fn_names: Vec<String>,
    /// User functions that shadow a library function of the same bare name:
    /// bare name to the user function's registered name (a later entry wins).
    pub fn_shadow_of: Vec<(String, String)>,
    /// The module whose items are being checked (empty at top level).
    pub module_prefix: String,
    pub enums: Vec<EnumDef>,
}

/// The model of the fields of a struct.
pub open spec fn fields_view(fs: Seq<(String, Type)>) -> Seq<(Seq<char>, Ty)> {
    fs.map_values(|f: (String, Type)| (f.0@, f.1@))
}

/// The model of the variants of an enum.
pub open spec fn variants_view(vs: Seq<(String, usize)>) -> Seq<(Seq<char>, nat)> {
    vs.map_values(|v: (String, usize)| (v.0@, v.1 as nat))
}

/// The model of an impl block.
pub struct Imp {
    pub self_type: Ty,
    pub trait_name: Option<Seq<char>>,
    pub type_params: Seq<Seq<char>>,
    pub assoc: Seq<(Seq<char>, Ty)>,
}

pub open spec fn impl_view(d: ImplDef) -> Imp {
    Imp {
        self_type: d.self_type@,
        trait_name: match d.trait_name {
            Some(t) => Some(t@),
            None => None,
        },
        type_params: d.type_params@.map_values(|p: String| p@),
        assoc: fields_view(d.assoc_types@),
    }
}

/// The model of the context.
pub struct Ctx {
    pub structs: Seq<(Seq<char>, Seq<(Seq<char>, Ty)>)>,
    pub aliases: Seq<(Seq<char>, Seq<char>)>,
    pub subst: Map<Seq<char>, Ty>,
    pub next_temp: nat,
    pub impls: Seq<Imp>,
    pub traits: Seq<Seq<char>>,
    pub fns: Seq<Seq<char>>,
    pub shadows: Seq<(Seq<char>, Seq<char>)>,
    pub module_prefix: Seq<char>,
    pub enums: Seq<(Seq<char>, Seq<(Seq<char>, nat)>, nat)>,
}

impl View for TypeContext {
    type V = Ctx;

    open spec fn view(&self) -> Ctx {
        Ctx {
            structs: self.structs@.map_values(|d: StructDef| (d.name@, fields_view(d.fields@))),
            aliases: self.use_aliases@.map_values(|a: (String, String)| (a.0@, a.1@)),
            subst: self.generic_subst@,
            next_temp: self.next_temp as nat,
            impls: self.impl_defs@.map_values(|d: ImplDef| impl_view(d)),
            traits: self.trait_names@.map_values(|t: String| t@),
            fns: self.fn_names@.map_values(|f: String| f@),
            shadows: self.fn_shadow_of@.map_values(|a: (String, String)| (a.0@, a.1@)),
            module_prefix: self.module_prefix@,
            enums: self.enums@.map_values(|d: EnumDef| (d.name@, variants_view(d.variants@), d.slot_count as nat)),
        }
    }
}

/// The name of the `n`-th compiler-generated temporary.
pub open spec fn temp_name(n: nat) -> Seq<char> {
    "__t"@ + decimal(n)
}

/// The full name that `name` is an alias of: the last alias entry for it.
pub open spec fn spec_resolve_full_name(aliases: Seq<(Seq<char>, Seq<char>)>, name: Seq<char>) -> Option<Seq<char>>
    decreases aliases.len(),
{
    if aliases.len() == 0 {
        None
    } else if aliases.last().0 == name {
        Some(aliases.last().1)
    } else {
        spec_resolve_full_name(aliases.drop_last(), name)
    }
}

/// `name` with an alias replaced by its full name.
pub open spec fn full_name_or_self(aliases: Seq<(Seq<char>, Seq<char>)>, name: Seq<char>) -> Seq<char> {
    match spec_resolve_full_name(aliases, name) {
        Some(f) => f,
        None => name,
    }
}

/// The fields of the first struct named `name`.
pub open spec fn find_struct(structs: Seq<(Seq<char>, Seq<(Seq<char>, Ty)>)>, name: Seq<char>) -> Option<Seq<(Seq<char>, Ty)>>
    decreases structs.len(),
{
    if structs.len() == 0 {
        None
    } else if structs[0].0 == name {
        Some(structs[0].1)
    } else {
        find_struct(structs.subrange(1, structs.len() as int), name)
    }
}

/// The fields of the struct `name` refers to (through an alias if there is one).
pub open spec fn spec_lookup_struct(c: Ctx, name: Seq<char>) -> Option<Seq<(Seq<char>, Ty)>> {
    find_struct(c.structs, full_name_or_self(c.aliases, name))
}

/// The first enum named `name`: its variants and slot count.
pub open spec fn find_enum(enums: Seq<(Seq<char>, Seq<(Seq<char>, nat)>, nat)>, name: Seq<char>) -> Option<(Seq<(Seq<char>, nat)>, nat)>
    decreases enums.len(),
{
    if enums.len() == 0 {
        None
    } else if enums[0].0 == name {
        Some((enums[0].1, enums[0].2))
    } else {
        find_enum(enums.subrange(1, enums.len() as int), name)
    }
}

/// The enum `name` refers to (through an alias if there is one).
pub open spec fn spec_lookup_enum(c: Ctx, name: Seq<char>) -> Option<(Seq<(Seq<char>, nat)>, nat)> {
    find_enum(c.enums, full_name_or_self(c.aliases, name))
}

impl TypeContext {
    /// A fresh temporary name `__t<n>`.
    pub fn fresh_temp(&mut self) -> (r: String)
        requires
            old(self).next_temp < usize::MAX,
        ensures
            r@ == temp_name(old(self)@.next_temp),
            final(self)@ == (Ctx { next_temp: old(self)@.next_temp + 1, ..old(self)@ }),
    {
        let mut s = String::new();
        s.append("__t");
        push_decimal(&mut s, self.next_temp);
        self.next_temp = self.next_temp + 1;
        assert(s@ =~= temp_name(old(self)@.next_temp));
        s
    }

    /// The full name that `name` is an alias of, if it is one.
    pub fn resolve_full_name(&self, name: &String) -> (r: Option<String>)
        ensures
            match spec_resolve_full_name(self@.aliases, name@) {
                Some(f) => r matches Some(s) && s@ == f,
                None => r is None,
            },
    {
        let ghost al = self@.aliases;
        let mut i = self.use_aliases.len();
        assert(al.subrange(0, i as int) =~= al);
        while i > 0
            invariant
                i <= self.use_aliases@.len(),
                al == self@.aliases,
                spec_resolve_full_name(al.subrange(0, i as int), name@) == spec_resolve_full_name(al, name@),
            decreases i,
        {
            assert(al.subrange(0, i as int).drop_last() =~= al.subrange(0, i - 1));
            assert(al[i - 1] == (self.use_aliases@[i - 1].0@, self.use_aliases@[i - 1].1@));
            if self.use_aliases[i - 1].0 == *name {
                return Some(self.use_aliases[i - 1].1.clone());
            }
            i -= 1;
        }
        None
    }

    /// The fields of the struct `name` refers to.
    pub fn lookup_struct(&self, name: &String) -> (r: Option<&StructDef>)
        ensures
            match spec_lookup_struct(self@, name@) {
                Some(fs) => r matches Some(d) && fields_view(d.fields@) == fs,
                None => r is None,
            },
    {
        let full = match self.resolve_full_name(name) {
            Some(f) => f,
            None => name.clone(),
        };
        assert(full@ == full_name_or_self(self@.aliases, name@));
        let ghost ss = self@.structs;
        let mut i: usize = 0;
        assert(ss.subrange(0, ss.len() as int) =~= ss);
        while i < self.structs.len()
            invariant
                i <= self.structs@.len(),
                ss == self@.structs,
                full@ == full_name_or_self(self@.aliases, name@),
                find_struct(ss.subrange(i as int, ss.len() as int), full@) == find_struct(ss, full@),
            decreases self.structs.len() - i,
        {
            let ghost rest = ss.subrange(i as int, ss.len() as int);
            assert(rest.subrange(1, rest.len() as int) =~= ss.subrange(i + 1, ss.len() as int));
            assert(rest[0] == (self.structs@[i as int].name@, fields_view(self.structs@[i as int].fields@)));
            if self.structs[i].name == full {
                return Some(&self.structs[i]);
            }
            i += 1;
        }
        None
    }
}

impl TypeContext {
    /// The enum `name` refers to.
    pub fn lookup_enum(&self, name: &String) -> (r: Option<&EnumDef>)
        ensures
            match spec_lookup_enum(self@, name@) {
                Some((vs, n)) => r matches Some(d) && variants_view(d.variants@) == vs && d.slot_count == n,
                None => r is None,
            },
    {
        let full = match self.resolve_full_name(name) {
            Some(f) => f,
            None => name.clone(),
        };
        assert(full@ == full_name_or_self(self@.aliases, name@));
        let ghost es = self@.enums;
        let mut i: usize = 0;
        assert(es.subrange(0, es.len() as int) =~= es);
        while i < self.enums.len()
            invariant
                i <= self.enums@.len(),
                es == self@.enums,
                full@ == full_name_or_self(self@.aliases, name@),
                find_enum(es.subrange(i as int, es.len() as int), full@) == find_enum(es, full@),
            decreases self.enums.len() - i,
        {
            let ghost rest = es.subrange(i as int, es.len() as int);
            assert(rest.subrange(1, rest.len() as int) =~= es.subrange(i + 1, es.len() as int));
            assert(rest[0] == (self.enums@[i as int].name@, variants_view(self.enums@[i as int].variants@), self.enums@[i as int].slot_count as nat));
            if self.enums[i].name == full {
                return Some(&self.enums[i]);
            }
            i += 1;
        }
        None
    }
}

/// Temporaries with different numbers have different names, so the names that
/// successive calls of `fresh_temp` give never collide.
pub proof fn law_temp_names_distinct(n: nat, m: nat)
    requires
        n != m,
    ensures
        temp_name(n) != temp_name(m),
{
    if temp_name(n) == temp_name(m) {
        let p = "__t"@;
        assert(decimal(n) =~= temp_name(n).subrange(p.len() as int, temp_name(n).len() as int));
        assert(decimal(m) =~= temp_name(m).subrange(p.len() as int, temp_name(m).len() as int));
        crate::render::lemma_decimal_injective(n, m);
    }
}

} // verus!
