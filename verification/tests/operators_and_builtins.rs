use lib::binary::{check_binary, is_castable_scalar, merge_numeric, overload_method, BinaryOp, HirBinaryOp};
use lib::error::{Span, TypeError};
use lib::misc::{builtin_signature, ensure_dyn_any, fnv1a_64, is_any_trait, is_drop_trait, type_id_of};
use lib::ty::{Mutability, Type};

fn sp() -> Span {
    Span { start: 3, end: 9 }
}

#[test]
fn logical_operators_need_bools() {
    let r = check_binary(BinaryOp::And, &Type::Bool, &Type::Bool, sp()).unwrap();
    assert_eq!(r.0, HirBinaryOp::And);
    assert!(matches!(r.1, Type::Bool));
    let r = check_binary(BinaryOp::Or, &Type::Bool, &Type::Bool, sp()).unwrap();
    assert_eq!(r.0, HirBinaryOp::Or);
    match check_binary(BinaryOp::Or, &Type::I64, &Type::Bool, sp()) {
        Err(TypeError::ExpectedBool { found, span }) => {
            assert_eq!(found, "i64");
            assert_eq!(span, sp());
        },
        other => panic!("unexpected {:?}", other),
    }
}

#[test]
fn bit_operators_need_integers() {
    let r = check_binary(BinaryOp::Shl, &Type::U32, &Type::I64, sp()).unwrap();
    assert_eq!(r.0, HirBinaryOp::Shl);
    assert!(matches!(r.1, Type::U32));
    let e = Type::ScalarEnum("Color".to_string());
    let r = check_binary(BinaryOp::BitOr, &e, &Type::I64, sp()).unwrap();
    assert!(matches!(r.1, Type::I64));
    match check_binary(BinaryOp::BitAnd, &Type::F64, &Type::I64, sp()) {
        Err(TypeError::ExpectedInt { found, .. }) => assert_eq!(found, "f64"),
        other => panic!("unexpected {:?}", other),
    }
}

#[test]
fn arithmetic_needs_compatible_numbers() {
    let r = check_binary(BinaryOp::Add, &Type::I32, &Type::F64, sp()).unwrap();
    assert_eq!(r.0, HirBinaryOp::Add);
    assert!(matches!(r.1, Type::F64));
    let r = check_binary(BinaryOp::Mod, &Type::U8, &Type::I64, sp()).unwrap();
    assert_eq!(r.0, HirBinaryOp::Mod);
    assert!(matches!(r.1, Type::I64));
    match check_binary(BinaryOp::Mul, &Type::Str, &Type::I64, sp()) {
        Err(TypeError::ExpectedNumeric { found, .. }) => assert_eq!(found, "str"),
        other => panic!("unexpected {:?}", other),
    }
    match check_binary(BinaryOp::Sub, &Type::I64, &Type::Bool, sp()) {
        Err(TypeError::ExpectedNumeric { found, .. }) => assert_eq!(found, "i64"),
        other => panic!("unexpected {:?}", other),
    }
}

#[test]
fn numeric_merge_and_casts() {
    assert!(matches!(merge_numeric(Type::I8, Type::U64), Type::I64));
    assert!(matches!(merge_numeric(Type::F32, Type::I64), Type::F64));
    assert!(is_castable_scalar(&Type::Char));
    assert!(is_castable_scalar(&Type::Bool));
    assert!(is_castable_scalar(&Type::USize));
    assert!(!is_castable_scalar(&Type::Str));
    assert!(!is_castable_scalar(&Type::Ref(Box::new(Type::I64), Mutability::Immutable)));
}

#[test]
fn operator_trait_methods() {
    assert_eq!(overload_method(BinaryOp::Add), Some("add"));
    assert_eq!(overload_method(BinaryOp::Mod), Some("rem"));
    assert_eq!(overload_method(BinaryOp::BitXor), Some("bitxor"));
    assert_eq!(overload_method(BinaryOp::Shr), Some("shr"));
    assert_eq!(overload_method(BinaryOp::And), None);
    assert_eq!(overload_method(BinaryOp::Or), None);
}

#[test]
fn builtin_signatures() {
    let (ps, ret) = builtin_signature("println").unwrap();
    assert_eq!(ps.len(), 1);
    assert!(matches!(ps[0], Type::Infer));
    assert!(matches!(ret, Type::Unit));
    let (ps, ret) = builtin_signature("bytes_cmp").unwrap();
    assert_eq!(ps.len(), 3);
    assert!(matches!(ps[2], Type::I64));
    assert!(matches!(ret, Type::I64));
    let (ps, ret) = builtin_signature("alloc_bytes").unwrap();
    assert!(matches!(ps[0], Type::I64));
    assert!(matches!(ret, Type::Array(ref e, 0) if matches!(**e, Type::U8)));
    let (ps, _) = builtin_signature("array_copy").unwrap();
    assert!(matches!(ps[0], Type::Array(ref e, 0) if matches!(**e, Type::Infer)));
    assert!(builtin_signature("printf").is_none());
}

#[test]
fn fnv1a_known_values() {
    assert_eq!(fnv1a_64(b""), 0xcbf29ce484222325);
    assert_eq!(fnv1a_64(b"a"), 0xaf63dc4c8601ec8c);
    assert_eq!(fnv1a_64(b"foobar"), 0x85944171f73967e8);
}

#[test]
fn type_identity_follows_the_canonical_text() {
    let a = Type::Named("Vec".to_string(), vec![Type::I64]);
    let b = Type::Named("Vec".to_string(), vec![Type::I64]);
    assert_eq!(type_id_of(&a), type_id_of(&b));
    assert_eq!(type_id_of(&a), fnv1a_64(b"Vec<i64>") as i64);
    assert_ne!(type_id_of(&a), type_id_of(&Type::I64));
}

#[test]
fn builtin_trait_tags() {
    assert!(is_any_trait("Any"));
    assert!(is_any_trait("std::any::Any"));
    assert!(!is_any_trait("Anything"));
    assert!(is_drop_trait("Drop"));
    assert!(is_drop_trait("ops::Drop"));
    assert!(!is_drop_trait("MyDrop"));
}

#[test]
fn dyn_any_arguments() {
    assert!(ensure_dyn_any(&Type::Dyn("Any".to_string()), "any_type_id", sp()).is_ok());
    assert!(ensure_dyn_any(&Type::Dyn("std::any::Any".to_string()), "any_type_id", sp()).is_ok());
    match ensure_dyn_any(&Type::Dyn("Show".to_string()), "any_downcast_ref", sp()) {
        Err(TypeError::Unsupported { what, span }) => {
            assert_eq!(what, "`any_downcast_ref` 需要 `dyn Any` 实参，实际为 `dyn Show`");
            assert_eq!(span, sp());
        },
        other => panic!("unexpected {:?}", other),
    }
}
