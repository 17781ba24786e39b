use lib::context::{ImplDef, TypeContext};
use lib::error::{Span, TypeError};
use lib::generic::replace_type_self;
use lib::render::type_to_string;
use lib::subst::Subst;
use lib::symbols::{
    check_generic_bounds, eval_assoc_projection, last_segment_of, resolve_assoc_projection, resolve_callable, resolve_trait_def_name,
    type_implements_trait,
};
use lib::ty::{Mutability, Type};

fn ctx() -> TypeContext {
    TypeContext {
        structs: Vec::new(),
        use_aliases: Vec::new(),
        generic_subst: Subst::new(),
        next_temp: 0,
        impl_defs: Vec::new(),
        trait_names: Vec::new(),
        fn_names: Vec::new(),
        fn_shadow_of: Vec::new(),
        module_prefix: String::new(),
        enums: Vec::new(),
    }
}

fn named(n: &str, args: Vec<Type>) -> Type {
    Type::Named(n.to_string(), args)
}

fn s(x: &str) -> String {
    x.to_string()
}

#[test]
fn last_segments() {
    assert_eq!(last_segment_of("io::file::File"), "File");
    assert_eq!(last_segment_of("File"), "File");
    assert_eq!(last_segment_of("a::"), "");
    assert_eq!(last_segment_of("a:::b"), "b");
}

#[test]
fn trait_names_resolve_by_name_alias_or_segment() {
    let mut c = ctx();
    c.trait_names = vec![s("fmt::Display"), s("Clone")];
    c.use_aliases = vec![(s("Show"), s("fmt::Display"))];
    assert_eq!(resolve_trait_def_name(&c, "Clone"), "Clone");
    assert_eq!(resolve_trait_def_name(&c, "Show"), "fmt::Display");
    assert_eq!(resolve_trait_def_name(&c, "Display"), "fmt::Display");
    assert_eq!(resolve_trait_def_name(&c, "Debug"), "Debug");
}

#[test]
fn trait_implementations() {
    let mut c = ctx();
    c.impl_defs = vec![
        ImplDef { self_type: named("Point", vec![]), trait_name: Some(s("Show")), type_params: vec![], assoc_types: vec![] },
        ImplDef { self_type: named("i64", vec![]), trait_name: Some(s("Show")), type_params: vec![], assoc_types: vec![] },
        ImplDef { self_type: named("Line", vec![]), trait_name: None, type_params: vec![], assoc_types: vec![] },
    ];
    assert!(type_implements_trait(&c, "Show", &named("Point", vec![Type::I64])));
    assert!(type_implements_trait(&c, "Show", &Type::I64));
    assert!(!type_implements_trait(&c, "Show", &Type::Bool));
    assert!(!type_implements_trait(&c, "Show", &named("Line", vec![])));
    assert!(!type_implements_trait(&c, "Eq", &named("Point", vec![])));
}

fn wrapper_ctx() -> TypeContext {
    let mut c = ctx();
    c.impl_defs = vec![
        ImplDef {
            self_type: named("Wrapper", vec![Type::Generic(s("T"))]),
            trait_name: Some(s("Iterator")),
            type_params: vec![s("T")],
            assoc_types: vec![(s("Item"), named("Vec", vec![Type::Generic(s("T"))]))],
        },
        ImplDef {
            self_type: Type::Ref(Box::new(Type::I64), Mutability::Immutable),
            trait_name: Some(s("Deref")),
            type_params: vec![],
            assoc_types: vec![(s("Target"), Type::I64)],
        },
    ];
    c
}

#[test]
fn associated_types_of_named_types_are_instantiated() {
    let c = wrapper_ctx();
    let t = eval_assoc_projection(&c, &named("Wrapper", vec![Type::Bool]), "Item").unwrap();
    assert_eq!(type_to_string(&t), "Vec<bool>");
    assert!(eval_assoc_projection(&c, &named("Wrapper", vec![Type::Bool]), "Output").is_none());
    assert!(eval_assoc_projection(&c, &named("Other", vec![]), "Item").is_none());
}

#[test]
fn associated_types_of_other_types_go_by_compatibility() {
    let c = wrapper_ctx();
    let r = Type::Ref(Box::new(Type::I64), Mutability::Immutable);
    assert_eq!(type_to_string(&eval_assoc_projection(&c, &r, "Target").unwrap()), "i64");
    // `&i64` cannot stand where `&mut i64` is expected.
    let m = Type::Ref(Box::new(Type::I64), Mutability::Mutable);
    assert!(eval_assoc_projection(&c, &m, "Target").is_none());
    assert!(eval_assoc_projection(&c, &Type::Bool, "Target").is_none());
}

#[test]
fn projections_resolve_through_bindings() {
    let mut c = wrapper_ctx();
    let span = Span { start: 0, end: 1 };
    let unbound = resolve_assoc_projection(&c, "F", "Item", span).unwrap();
    assert_eq!(type_to_string(&unbound), "F::Item");
    c.generic_subst.insert(s("F"), named("Wrapper", vec![Type::I64]));
    assert_eq!(type_to_string(&resolve_assoc_projection(&c, "F", "Item", span).unwrap()), "Vec<i64>");
    assert_eq!(type_to_string(&resolve_assoc_projection(&c, "F", "Output", span).unwrap()), "Wrapper<i64>::Output");
}

#[test]
fn callables() {
    let mut c = ctx();
    c.fn_names = vec![s("io::read"), s("read"), s("print")];
    c.fn_shadow_of = vec![(s("print"), s("user::print"))];
    c.use_aliases = vec![(s("r"), s("outer::revealed"))];
    // Raw names bind to the root symbol.
    assert_eq!(resolve_callable(&c, "r#read"), "read");
    // At top level, a shadowed library function binds to the user's function.
    assert_eq!(resolve_callable(&c, "print"), "user::print");
    assert_eq!(resolve_callable(&c, "read"), "read");
    assert_eq!(resolve_callable(&c, "r"), "outer::revealed");
    assert_eq!(resolve_callable(&c, "missing"), "missing");
    // Inside a module, the module's own function wins.
    c.module_prefix = s("io");
    assert_eq!(resolve_callable(&c, "read"), "io::read");
    assert_eq!(resolve_callable(&c, "print"), "print");
    assert_eq!(resolve_callable(&c, "io::read"), "io::read");
}

#[test]
fn trait_segment_matches_take_the_first_declared() {
    let mut c = ctx();
    c.trait_names = vec![s("a::Show"), s("b::Show")];
    assert_eq!(resolve_trait_def_name(&c, "Show"), "a::Show");
}

#[test]
fn generic_bounds() {
    let mut c = ctx();
    c.trait_names = vec![s("fmt::Show"), s("Eq")];
    c.impl_defs = vec![ImplDef { self_type: named("Point", vec![]), trait_name: Some(s("fmt::Show")), type_params: vec![], assoc_types: vec![] }];
    let span = Span { start: 4, end: 5 };
    let mut m = Subst::new();
    m.insert(s("T"), named("Point", vec![]));
    // `U` has no binding: its bounds are not checked.
    let ok = vec![(s("T"), vec![s("Show")]), (s("U"), vec![s("Missing")])];
    assert!(check_generic_bounds(&c, &ok, &m, span).is_ok());
    let undefined = vec![(s("T"), vec![s("Show"), s("Missing")])];
    match check_generic_bounds(&c, &undefined, &m, span) {
        Err(TypeError::UndefinedType { name, span: sp }) => {
            assert_eq!(name, "Missing");
            assert_eq!(sp, span);
        },
        other => panic!("unexpected {:?}", other),
    }
    let mismatch = vec![(s("T"), vec![s("Eq")])];
    match check_generic_bounds(&c, &mismatch, &m, span) {
        Err(TypeError::GenericBoundMismatch { param, bound, ty, .. }) => {
            assert_eq!(param, "T");
            assert_eq!(bound, "Eq");
            assert_eq!(ty, "Point");
        },
        other => panic!("unexpected {:?}", other),
    }
}

#[test]
fn self_is_replaced_by_the_implementing_type() {
    let sig = Type::Fn(Box::new(lib::ty::FnSig {
        params: vec![Type::Ref(Box::new(Type::Generic(s("Self"))), Mutability::Immutable)],
        return_type: named("Take2", vec![Type::Generic(s("Self"))]),
    }));
    let r = replace_type_self(&sig, &named("Counter", vec![]));
    assert_eq!(type_to_string(&r), "fn(&Counter) -> Take2<Counter>");
    // Other type parameters, and `Self` inside slices, stay.
    assert_eq!(type_to_string(&replace_type_self(&Type::Generic(s("T")), &Type::I64)), "T");
    let sl = Type::Slice(Box::new(Type::Generic(s("Self"))));
    assert_eq!(type_to_string(&replace_type_self(&sl, &Type::I64)), "[Self]");
    // Replacing `Self` by `Self` changes nothing.
    assert_eq!(type_to_string(&replace_type_self(&sig, &Type::Generic(s("Self")))), type_to_string(&sig));
}
