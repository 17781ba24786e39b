use lib::context::{EnumDef, StructDef, TypeContext};
use lib::error::{Span, TypeError};
use lib::layout::{enum_variant_info, type_slot_count};
use lib::subst::Subst;
use lib::ty::{FnSig, Mutability, Type};

fn sp() -> Span {
    Span { start: 3, end: 9 }
}

fn layout_ctx() -> TypeContext {
    TypeContext {
        structs: vec![StructDef {
            name: "Point".to_string(),
            fields: vec![("x".to_string(), Type::I64), ("y".to_string(), Type::I64), ("z".to_string(), Type::I64)],
        }],
        use_aliases: vec![("P".to_string(), "Point".to_string()), ("Shape".to_string(), "geo::Shape".to_string())],
        generic_subst: Subst::new(),
        next_temp: 0,
        impl_defs: Vec::new(),
        trait_names: Vec::new(),
        fn_names: Vec::new(),
        fn_shadow_of: Vec::new(),
        module_prefix: String::new(),
        enums: vec![EnumDef {
            name: "geo::Shape".to_string(),
            variants: vec![("Circle".to_string(), 0), ("Rect".to_string(), 1), ("Rect".to_string(), 7)],
            slot_count: 4,
        }],
    }
}

fn named(n: &str, args: Vec<Type>) -> Type {
    Type::Named(n.to_string(), args)
}

fn unsupported_what(r: Result<usize, TypeError>) -> String {
    match r {
        Err(TypeError::Unsupported { what, span }) => {
            assert_eq!(span, sp());
            what
        }
        other => panic!("expected an unsupported-layout error, got {:?}", other),
    }
}

#[test]
fn scalars_take_one_slot() {
    let ctx = layout_ctx();
    for t in [Type::I8, Type::U64, Type::USize, Type::F64, Type::Bool, Type::Char] {
        assert_eq!(type_slot_count(&ctx, &t, sp()).unwrap(), 1);
    }
}

#[test]
fn arrays_take_their_length_and_at_least_one_slot() {
    let ctx = layout_ctx();
    assert_eq!(type_slot_count(&ctx, &Type::Array(Box::new(Type::I32), 5), sp()).unwrap(), 5);
    assert_eq!(type_slot_count(&ctx, &Type::Array(Box::new(Type::I32), 0), sp()).unwrap(), 1);
}

#[test]
fn tuples_take_their_arity() {
    let ctx = layout_ctx();
    let t = Type::Tuple(vec![Type::I32, Type::Bool, Type::Char]);
    assert_eq!(type_slot_count(&ctx, &t, sp()).unwrap(), 3);
    assert_eq!(type_slot_count(&ctx, &Type::Tuple(vec![]), sp()).unwrap(), 0);
}

#[test]
fn references_functions_and_closures_take_one_slot() {
    let ctx = layout_ctx();
    let r = Type::Ref(Box::new(Type::Str), Mutability::Immutable);
    let f = Type::Fn(Box::new(FnSig { params: vec![Type::I32], return_type: Type::Unit }));
    let c = Type::Closure {
        fn_name: "__closure0".to_string(),
        captures: vec![Type::I32, Type::I32],
        params: vec![],
        ret: Box::new(Type::Unit),
        is_move: false,
    };
    assert_eq!(type_slot_count(&ctx, &r, sp()).unwrap(), 1);
    assert_eq!(type_slot_count(&ctx, &f, sp()).unwrap(), 1);
    assert_eq!(type_slot_count(&ctx, &c, sp()).unwrap(), 1);
}

#[test]
fn pointer_wrappers_take_one_slot_with_one_argument() {
    let ctx = layout_ctx();
    for w in ["Box", "Rc", "Arc", "Weak", "Gc"] {
        assert_eq!(type_slot_count(&ctx, &named(w, vec![Type::I32]), sp()).unwrap(), 1);
    }
    let bare = unsupported_what(type_slot_count(&ctx, &named("Rc", vec![]), sp()));
    assert_eq!(bare, "无法确定对象布局（未知类型 `Rc`）");
}

#[test]
fn structs_take_their_field_count_through_aliases() {
    let ctx = layout_ctx();
    assert_eq!(type_slot_count(&ctx, &named("Point", vec![]), sp()).unwrap(), 3);
    assert_eq!(type_slot_count(&ctx, &named("P", vec![]), sp()).unwrap(), 3);
}

#[test]
fn enums_take_their_recorded_slot_count() {
    let ctx = layout_ctx();
    assert_eq!(type_slot_count(&ctx, &named("Shape", vec![]), sp()).unwrap(), 4);
    assert_eq!(type_slot_count(&ctx, &named("geo::Shape", vec![]), sp()).unwrap(), 4);
}

#[test]
fn unknown_named_type_reports_its_full_name() {
    let ctx = layout_ctx();
    let what = unsupported_what(type_slot_count(&ctx, &named("Missing", vec![Type::I32]), sp()));
    assert_eq!(what, "无法确定对象布局（未知类型 `Missing`）");
}

#[test]
fn unboxable_types_are_reported() {
    let ctx = layout_ctx();
    let what = unsupported_what(type_slot_count(&ctx, &Type::Str, sp()));
    assert_eq!(what, "该类型不支持堆装箱（`str`）");
    let what = unsupported_what(type_slot_count(&ctx, &Type::Unit, sp()));
    assert_eq!(what, "该类型不支持堆装箱（`()`）");
}

#[test]
fn variant_info_gives_tag_and_slot_count() {
    let ctx = layout_ctx();
    assert_eq!(enum_variant_info(&ctx, "Shape", "Circle", sp()).unwrap(), (0, 4));
    assert_eq!(enum_variant_info(&ctx, "geo::Shape", "Rect", sp()).unwrap(), (1, 4));
}

#[test]
fn variant_info_of_unknown_enum_is_undefined_type() {
    let ctx = layout_ctx();
    match enum_variant_info(&ctx, "Color", "Red", sp()) {
        Err(TypeError::UndefinedType { name, span }) => {
            assert_eq!(name, "Color");
            assert_eq!(span, sp());
        }
        other => panic!("unexpected {:?}", other),
    }
}

#[test]
fn variant_info_of_unknown_variant_is_missing_function() {
    let ctx = layout_ctx();
    match enum_variant_info(&ctx, "Shape", "Square", sp()) {
        Err(TypeError::FunctionNotFound { name, span }) => {
            assert_eq!(name, "Shape::Square");
            assert_eq!(span, sp());
        }
        other => panic!("unexpected {:?}", other),
    }
}
