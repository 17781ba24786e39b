use lib::generic::{contains_generic_named, contains_infer, mono_key, type_contains_ref, type_mentions_self, unify};
use lib::render::type_to_string;
use lib::subst::{substitute, Subst};
use lib::ty::{clone_type, type_eq, FnSig, Mutability, Type};

fn named(n: &str, args: Vec<Type>) -> Type {
    Type::Named(n.to_string(), args)
}

fn generic(n: &str) -> Type {
    Type::Generic(n.to_string())
}

#[test]
fn renders_canonical_text() {
    assert_eq!(type_to_string(&Type::I64), "i64");
    assert_eq!(type_to_string(&Type::Ref(Box::new(named("Vec", vec![Type::I64])), Mutability::Mutable)), "&mut Vec<i64>");
    assert_eq!(type_to_string(&Type::Ref(Box::new(Type::Str), Mutability::Immutable)), "&str");
    assert_eq!(type_to_string(&Type::Array(Box::new(Type::U8), 4)), "[u8; 4]");
    assert_eq!(type_to_string(&Type::Array(Box::new(Type::U8), 1234)), "[u8; 1234]");
    assert_eq!(type_to_string(&Type::Slice(Box::new(Type::Bool))), "[bool]");
    assert_eq!(type_to_string(&Type::Tuple(vec![Type::I64, Type::Bool])), "(i64, bool)");
    let f = Type::Fn(Box::new(FnSig { params: vec![Type::I64, Type::Bool], return_type: Type::Unit }));
    assert_eq!(type_to_string(&f), "fn(i64, bool) -> ()");
    assert_eq!(type_to_string(&Type::Dyn("Any".to_string())), "dyn Any");
    assert_eq!(type_to_string(&Type::Union(vec![Type::I64, named("String", vec![])])), "i64 | String");
    assert_eq!(type_to_string(&Type::RawPtr(Box::new(Type::U8), true)), "*mut u8");
    assert_eq!(type_to_string(&named("HashMap", vec![named("String", vec![]), Type::I64])), "HashMap<String, i64>");
    let proj = Type::AssocProjection { base: Box::new(generic("F")), assoc: "Output".to_string() };
    assert_eq!(type_to_string(&proj), "F::Output");
}

#[test]
fn compatibility_is_reflexive_on_samples() {
    let samples = vec![
        Type::I64,
        named("Vec", vec![Type::Bool]),
        Type::Ref(Box::new(Type::Str), Mutability::Mutable),
        Type::Tuple(vec![Type::I64, named("String", vec![])]),
        Type::Array(Box::new(Type::U8), 3),
        Type::Dyn("Any".to_string()),
    ];
    for t in &samples {
        assert!(t.compatible_with(t));
    }
}

#[test]
fn compatibility_rules() {
    assert!(Type::Infer.compatible_with(&named("Vec", vec![Type::I64])));
    assert!(Type::I32.compatible_with(&Type::F64));
    assert!(!Type::Bool.compatible_with(&Type::I64));
    // `&mut T` may stand where `&T` is expected, not the other way round.
    let r = Type::Ref(Box::new(Type::I64), Mutability::Immutable);
    let m = Type::Ref(Box::new(Type::I64), Mutability::Mutable);
    assert!(m.compatible_with(&r));
    assert!(!r.compatible_with(&m));
    // A length-0 array is a dynamically sized buffer.
    assert!(Type::Array(Box::new(Type::U8), 0).compatible_with(&Type::Array(Box::new(Type::U8), 9)));
    assert!(!Type::Array(Box::new(Type::U8), 2).compatible_with(&Type::Array(Box::new(Type::U8), 9)));
    assert!(!named("Vec", vec![Type::Bool]).compatible_with(&named("Vec", vec![Type::Str])));
    assert!(!named("Vec", vec![]).compatible_with(&named("VecDeque", vec![])));
}

#[test]
fn type_equality_and_copy() {
    let t = named("HashMap", vec![named("String", vec![]), Type::Ref(Box::new(Type::I64), Mutability::Mutable)]);
    let c = clone_type(&t);
    assert!(type_eq(&t, &c));
    assert!(!type_eq(&t, &named("HashMap", vec![])));
}

#[test]
fn substitution_with_no_bindings_is_identity() {
    let empty = Subst::new();
    let t = named("Vec", vec![generic("T"), Type::Ref(Box::new(generic("U")), Mutability::Immutable)]);
    assert!(type_eq(&substitute(&t, &empty), &t));
}

#[test]
fn substitution_replaces_bound_parameters() {
    let mut s = Subst::new();
    s.insert("T".to_string(), Type::I64);
    s.insert("T".to_string(), Type::Bool);
    assert!(s.contains_key(&"T".to_string()));
    assert!(!s.contains_key(&"U".to_string()));
    assert!(matches!(s.get(&"T".to_string()), Some(Type::Bool)));
    let t = named("Pair", vec![generic("T"), generic("U")]);
    let r = substitute(&t, &s);
    assert_eq!(type_to_string(&r), "Pair<bool, U>");
}

#[test]
fn unification_recovers_the_instance() {
    let param = named("Map", vec![generic("K"), Type::Ref(Box::new(generic("V")), Mutability::Immutable)]);
    let arg = named("Map", vec![named("String", vec![]), Type::Ref(Box::new(Type::I64), Mutability::Immutable)]);
    let mut s = Subst::new();
    s.insert("K".to_string(), Type::Bool);
    assert!(unify(&param, &arg, &mut s).is_ok());
    assert!(matches!(s.get(&"K".to_string()), Some(Type::Named(n, a)) if n == "String" && a.is_empty()));
    assert!(type_eq(&substitute(&param, &s), &arg));
}

#[test]
fn unification_of_function_types_and_mismatches() {
    let param = Type::Fn(Box::new(FnSig { params: vec![generic("A")], return_type: generic("B") }));
    let arg = Type::Fn(Box::new(FnSig { params: vec![Type::I64], return_type: Type::Bool }));
    let mut s = Subst::new();
    unify(&param, &arg, &mut s).unwrap();
    assert_eq!(type_to_string(&substitute(&param, &s)), "fn(i64) -> bool");
    // Different constructors bind nothing.
    let mut s2 = Subst::new();
    unify(&named("Vec", vec![generic("T")]), &named("Option", vec![Type::I64]), &mut s2).unwrap();
    assert!(!s2.contains_key(&"T".to_string()));
}

#[test]
fn unification_fills_undetermined_bindings() {
    let mut s = Subst::new();
    s.insert("T".to_string(), Type::Infer);
    s.insert("U".to_string(), Type::Bool);
    unify(&Type::Infer, &Type::I64, &mut s).unwrap();
    assert!(matches!(s.get(&"T".to_string()), Some(Type::I64)));
    assert!(matches!(s.get(&"U".to_string()), Some(Type::Bool)));
}

#[test]
fn occurrence_tests() {
    assert!(contains_infer(&named("Vec", vec![Type::Infer])));
    assert!(!contains_infer(&named("Vec", vec![Type::I64])));
    let names = vec!["T".to_string(), "U".to_string()];
    assert!(contains_generic_named(&Type::Ref(Box::new(generic("U")), Mutability::Mutable), &names));
    assert!(!contains_generic_named(&generic("V"), &names));
    assert!(type_mentions_self(&named("Vec", vec![generic("Self")])));
    assert!(type_mentions_self(&Type::Ref(Box::new(generic("Self::Item")), Mutability::Immutable)));
    assert!(!type_mentions_self(&Type::I64));
    assert!(type_contains_ref(&named("Option", vec![Type::Ref(Box::new(Type::I64), Mutability::Immutable)])));
    assert!(!type_contains_ref(&named("Option", vec![Type::I64])));
}

#[test]
fn instance_keys() {
    let mut s = Subst::new();
    s.insert("T".to_string(), named("Vec", vec![Type::I64]));
    let tps = vec!["T".to_string(), "U".to_string()];
    assert_eq!(mono_key("util::max", &tps, &s), "util::max#Vec<i64>,U");
    assert_eq!(mono_key("f", &Vec::new(), &s), "f#");
}

#[test]
fn references_inside_tuples_arrays_slices_and_pointers_are_found() {
    let r = || Type::Ref(Box::new(Type::I64), Mutability::Immutable);
    assert!(type_contains_ref(&Type::Tuple(vec![Type::I64, r()])));
    assert!(type_contains_ref(&Type::Array(Box::new(Type::Ref(Box::new(Type::I64), Mutability::Mutable)), 2)));
    assert!(type_contains_ref(&Type::Slice(Box::new(r()))));
    assert!(type_contains_ref(&Type::RawPtr(Box::new(r()), false)));
    assert!(!type_contains_ref(&Type::Tuple(vec![Type::I64, Type::Array(Box::new(Type::Bool), 3)])));
}

#[test]
fn unification_keeps_old_bindings_and_adds_only_parameters() {
    let param = Type::Tuple(vec![generic("A"), named("Vec", vec![generic("B")])]);
    let arg = Type::Tuple(vec![Type::I64, named("Vec", vec![Type::Bool])]);
    let mut s = Subst::new();
    s.insert("Z".to_string(), Type::Char);
    unify(&param, &arg, &mut s).unwrap();
    assert!(matches!(s.get(&"Z".to_string()), Some(Type::Char)));
    assert!(matches!(s.get(&"A".to_string()), Some(Type::I64)));
    assert!(matches!(s.get(&"B".to_string()), Some(Type::Bool)));
    assert!(!s.contains_key(&"C".to_string()));
    // A reference parameter against a tuple argument binds nothing.
    let mut s2 = Subst::new();
    s2.insert("Z".to_string(), Type::Char);
    unify(&Type::Ref(Box::new(generic("A")), Mutability::Immutable), &arg, &mut s2).unwrap();
    assert!(!s2.contains_key(&"A".to_string()));
    assert!(matches!(s2.get(&"Z".to_string()), Some(Type::Char)));
}
