use lib::context::{StructDef, TypeContext};
use lib::error::{Span, TypeError};
use lib::format::parse_format_string;
use lib::resolve::{check_union_disjoint, union_overlap_reason};
use lib::subst::Subst;
use lib::ty::{Mutability, Type};

fn sp() -> Span {
    Span { start: 7, end: 8 }
}

fn empty_ctx() -> TypeContext {
    TypeContext {
        structs: Vec::new(),
        use_aliases: Vec::new(),
        generic_subst: Subst::new(),
        next_temp: 0,
        impl_defs: Vec::new(),
        trait_names: Vec::new(),
        fn_names: Vec::new(),
        fn_shadow_of: Vec::new(),
        module_prefix: String::new(),
        enums: Vec::new(),
    }
}

fn named(n: &str) -> Type {
    Type::Named(n.to_string(), vec![])
}

// ---------------------------------------------------------------------------
// Format strings
// ---------------------------------------------------------------------------

#[test]
fn plain_text_is_one_segment() {
    let segs = parse_format_string("hello, world", sp()).unwrap();
    assert_eq!(segs.len(), 1);
    assert_eq!(segs[0].text, "hello, world");
    assert!(!segs[0].is_value);
    let segs = parse_format_string("", sp()).unwrap();
    assert_eq!(segs.len(), 1);
    assert_eq!(segs[0].text, "");
}

#[test]
fn placeholders_split_the_text() {
    let segs = parse_format_string("a{}b{:?}", sp()).unwrap();
    assert_eq!(segs.len(), 4);
    assert_eq!(segs[0].text, "a");
    assert!(segs[1].is_value && !segs[1].is_debug);
    assert_eq!(segs[2].text, "b");
    assert!(segs[3].is_value && segs[3].is_debug);
}

#[test]
fn escaped_braces_are_literal() {
    let segs = parse_format_string("{{x}}", sp()).unwrap();
    assert_eq!(segs.len(), 1);
    assert_eq!(segs[0].text, "{x}");
}

#[test]
fn width_alignment_and_fill() {
    let segs = parse_format_string("{:>5}", sp()).unwrap();
    assert_eq!(segs.len(), 1);
    assert!(segs[0].is_value);
    assert_eq!(segs[0].align, '>');
    assert_eq!(segs[0].width, 5);
    assert_eq!(segs[0].fill, b' ');
    let segs = parse_format_string("{:*^12}", sp()).unwrap();
    assert_eq!(segs[0].align, '^');
    assert_eq!(segs[0].width, 12);
    assert_eq!(segs[0].fill, b'*');
    let segs = parse_format_string("{:3}", sp()).unwrap();
    assert_eq!(segs[0].align, '\0');
    assert_eq!(segs[0].width, 3);
}

#[test]
fn unbalanced_braces_are_errors() {
    match parse_format_string("a{", sp()) {
        Err(TypeError::Unsupported { what, span }) => {
            assert_eq!(what, "格式串中的 `{` 未闭合（转义应写作 `{{`）");
            assert_eq!(span, sp());
        },
        other => panic!("unexpected {:?}", other.map(|v| v.len())),
    }
    match parse_format_string("a}b", sp()) {
        Err(TypeError::Unsupported { what, .. }) => assert_eq!(what, "格式串中的 `}` 未配对（转义应写作 `}}`）"),
        other => panic!("unexpected {:?}", other.map(|v| v.len())),
    }
}

// ---------------------------------------------------------------------------
// Context
// ---------------------------------------------------------------------------

#[test]
fn fresh_temporaries_never_repeat() {
    let mut ctx = empty_ctx();
    ctx.next_temp = 9;
    let a = ctx.fresh_temp();
    let b = ctx.fresh_temp();
    assert_eq!(a, "__t9");
    assert_eq!(b, "__t10");
    assert_ne!(a, b);
    assert_eq!(ctx.next_temp, 11);
}

#[test]
fn aliases_and_struct_lookup() {
    let mut ctx = empty_ctx();
    ctx.structs = vec![StructDef { name: "geo::Point".to_string(), fields: vec![("x".to_string(), Type::I64)] }];
    ctx.use_aliases = vec![
        ("Point".to_string(), "old::Point".to_string()),
        ("Point".to_string(), "geo::Point".to_string()),
    ];
    assert_eq!(ctx.resolve_full_name(&"Point".to_string()), Some("geo::Point".to_string()));
    assert_eq!(ctx.resolve_full_name(&"Line".to_string()), None);
    let d = ctx.lookup_struct(&"Point".to_string()).unwrap();
    assert_eq!(d.fields.len(), 1);
    assert!(ctx.lookup_struct(&"geo::Point".to_string()).is_some());
    assert!(ctx.lookup_struct(&"Line".to_string()).is_none());
}

// ---------------------------------------------------------------------------
// Unions
// ---------------------------------------------------------------------------

#[test]
fn overlap_reasons() {
    assert_eq!(union_overlap_reason(&Type::I64, &Type::I64), Some("重复成员".to_string()));
    assert_eq!(union_overlap_reason(&Type::I64, &Type::ISize), Some("数值类型互通（宽度 / 平台相关重叠）".to_string()));
    let r = Type::Ref(Box::new(named("A")), Mutability::Immutable);
    let m = Type::Ref(Box::new(named("A")), Mutability::Mutable);
    assert_eq!(union_overlap_reason(&r, &m), Some("引用可变性重叠（`&T` 与 `&mut T`）".to_string()));
    let p = Type::RawPtr(Box::new(Type::U8), false);
    let q = Type::RawPtr(Box::new(Type::U8), true);
    assert_eq!(union_overlap_reason(&p, &q), Some("裸指针可变性重叠（`*const T` 与 `*mut T`）".to_string()));
    assert_eq!(union_overlap_reason(&named("A"), &named("B")), None);
    assert_eq!(union_overlap_reason(&Type::Bool, &named("String")), None);
}

#[test]
fn nested_unions_overlap_through_their_members() {
    let inner = Type::Union(vec![named("A"), Type::I32]);
    assert_eq!(
        union_overlap_reason(&inner, &Type::I64),
        Some("嵌套联合成员重叠（数值类型互通（宽度 / 平台相关重叠））".to_string())
    );
    assert_eq!(
        union_overlap_reason(&named("A"), &inner),
        Some("嵌套联合成员重叠（重复成员）".to_string())
    );
    assert_eq!(union_overlap_reason(&inner, &named("B")), None);
}

#[test]
fn disjoint_unions_are_accepted() {
    assert!(check_union_disjoint(&[Type::I64, Type::Bool, named("String")], sp()).is_ok());
    assert!(check_union_disjoint(&[], sp()).is_ok());
}

#[test]
fn the_first_overlapping_pair_is_reported() {
    let members = [Type::Bool, named("A"), Type::I32, named("A"), Type::I64];
    match check_union_disjoint(&members, sp()) {
        Err(TypeError::UnionMembersNotDisjoint { first, second, why, span }) => {
            assert_eq!(first, "A");
            assert_eq!(second, "A");
            assert_eq!(why, "重复成员");
            assert_eq!(span, sp());
        },
        other => panic!("unexpected {:?}", other),
    }
}

#[test]
fn overlap_is_found_in_either_order() {
    let left = Type::Union(vec![named("A"), Type::Union(vec![Type::Bool, Type::I32])]);
    let right = Type::Union(vec![named("B"), Type::U8]);
    assert!(union_overlap_reason(&left, &right).is_some());
    assert!(union_overlap_reason(&right, &left).is_some());
    let other = Type::Union(vec![named("B"), Type::Char]);
    assert_eq!(union_overlap_reason(&left, &other), None);
    assert_eq!(union_overlap_reason(&other, &left), None);
}

#[test]
fn an_empty_union_member_breaks_the_symmetry() {
    let empty = Type::Union(vec![]);
    let holder = Type::Union(vec![Type::Union(vec![]), named("S")]);
    assert_eq!(union_overlap_reason(&holder, &empty), Some("嵌套联合成员重叠（重复成员）".to_string()));
    assert_eq!(union_overlap_reason(&empty, &holder), None);
}

#[test]
fn parsed_segments_never_put_two_literals_side_by_side() {
    let segs = parse_format_string("a{{b}}{}{:?}c{:>4}", sp()).unwrap();
    assert!(!segs.is_empty());
    for w in segs.windows(2) {
        assert!(w[0].is_value || w[1].is_value);
    }
    let texts: Vec<&str> = segs.iter().filter(|g| !g.is_value).map(|g| g.text.as_str()).collect();
    assert_eq!(texts, vec!["a{b}", "c"]);
    assert_eq!(segs.iter().filter(|g| g.is_value).count(), 3);
    let empty = parse_format_string("", sp()).unwrap();
    assert_eq!(empty.len(), 1);
    assert_eq!(empty[0].text, "");
}

#[test]
fn an_empty_union_beside_a_member_keeps_the_symmetry() {
    let left = Type::Union(vec![Type::Union(vec![]), Type::I32]);
    assert!(union_overlap_reason(&left, &Type::I64).is_some());
    assert!(union_overlap_reason(&Type::I64, &left).is_some());
    assert_eq!(union_overlap_reason(&left, &Type::Bool), None);
    assert_eq!(union_overlap_reason(&Type::Bool, &left), None);
}

#[test]
fn literal_texts_reassemble_the_unescaped_string() {
    let segs = parse_format_string("{{x}} = {:>3}, y = {:?}!", sp()).unwrap();
    let joined: String = segs.iter().filter(|g| !g.is_value).map(|g| g.text.as_str()).collect();
    assert_eq!(joined, "{x} = , y = !");
    assert_eq!(segs.iter().filter(|g| g.is_value).count(), 2);
}
