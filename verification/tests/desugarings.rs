use lib::ast::{AssignOp, AstBlock, AstExpr, AstPattern, AstStmt, AstType, CompareOp, ExprKind, UnaryOp};
use lib::binary::BinaryOp;
use lib::context::{StructDef, TypeContext};
use lib::desugar::{
    assert_like_ast, empty_str, fold_add, macro_call_ast, make_deref_receiver, mk_ident_call, mk_path_call, panic_macro_ast,
    string_from_lit_ast, unreachable_macro_ast, AssertKind, MacroExpansion,
};
use lib::error::{Span, TypeError};
use lib::json_de::{json_parse_ast, json_try_parse_ast, ty_to_ast, ty_to_zero_ast};
use lib::calls::{
    check_json_from_reader, check_json_parse, check_json_stringify, check_json_to_writer, check_json_try_parse,
    check_toml_parse, check_toml_try_parse,
};
use lib::json_ser::json_serialize_ast;
use lib::iterator::check_iterator_adapter;
use lib::toml_de::{toml_parse_ast, toml_string_value_ast, toml_try_parse_ast};
use lib::subst::Subst;
use lib::ty::Type;

fn sp() -> Span {
    Span { start: 1, end: 2 }
}

fn list(v: &[AstExpr]) -> String {
    v.iter().map(show).collect::<Vec<_>>().join(", ")
}

fn show_type(t: &AstType) -> String {
    match t {
        AstType::Path(n, args) if args.is_empty() => n.clone(),
        AstType::Path(n, args) => format!("{}<{}>", n, args.iter().map(show_type).collect::<Vec<_>>().join(", ")),
        other => format!("{:?}", other),
    }
}

fn show_pat(p: &AstPattern) -> String {
    match p {
        AstPattern::Ident(n) => n.clone(),
        AstPattern::Tuple(ps, _) => format!("({})", ps.iter().map(show_pat).collect::<Vec<_>>().join(", ")),
        AstPattern::Wildcard => "_".to_string(),
        AstPattern::Enum(n, ps) if ps.is_empty() => n.clone(),
        AstPattern::Enum(n, ps) => format!("{}({})", n, ps.iter().map(show_pat).collect::<Vec<_>>().join(", ")),
    }
}

fn show_block(b: &AstBlock) -> String {
    let mut parts: Vec<String> = Vec::new();
    for s in &b.stmts {
        parts.push(match s {
            AstStmt::Let { pattern, type_anno, init, mutable } => format!(
                "let {}{}{} = {};",
                if *mutable { "mut " } else { "" },
                show_pat(pattern),
                match type_anno {
                    Some(t) => format!(": {}", show_type(t)),
                    None => String::new(),
                },
                show(init)
            ),
            AstStmt::Semi(e) => format!("{};", show(e)),
            AstStmt::Expr(e) => show(e),
        });
    }
    if let Some(e) = &b.final_expr {
        parts.push(show(e));
    }
    if parts.is_empty() {
        "{}".to_string()
    } else {
        format!("{{ {} }}", parts.join(" "))
    }
}

fn binop(op: &BinaryOp) -> &'static str {
    match op {
        BinaryOp::Add => "+",
        BinaryOp::Sub => "-",
        BinaryOp::Mul => "*",
        BinaryOp::Div => "/",
        BinaryOp::Mod => "%",
        BinaryOp::And => "&&",
        BinaryOp::Or => "||",
        BinaryOp::BitAnd => "&",
        BinaryOp::BitOr => "|",
        BinaryOp::BitXor => "^",
        BinaryOp::Shl => "<<",
        BinaryOp::Shr => ">>",
    }
}

fn cmpop(op: &CompareOp) -> &'static str {
    match op {
        CompareOp::Eq => "==",
        CompareOp::Ne => "!=",
        CompareOp::Lt => "<",
        CompareOp::Le => "<=",
        CompareOp::Gt => ">",
        CompareOp::Ge => ">=",
    }
}

/// A compact source-like rendering of an expression.
fn show(e: &AstExpr) -> String {
    match &*e.kind {
        ExprKind::IntLiteral(v) => v.to_string(),
        ExprKind::BoolLiteral(b) => b.to_string(),
        ExprKind::StringLiteral(s) => format!("{:?}", s),
        ExprKind::CharLiteral(c) => format!("{:?}", c),
        ExprKind::Unit => "()".to_string(),
        ExprKind::Ident(n) => n.clone(),
        ExprKind::Path(segs) => segs.join("::"),
        ExprKind::Call { callee, args, .. } => format!("{}({})", show(callee), list(args)),
        ExprKind::MethodCall { receiver, method, args, .. } => format!("{}.{}({})", show(receiver), method, list(args)),
        ExprKind::Binary { op, left, right } => format!("({} {} {})", show(left), binop(op), show(right)),
        ExprKind::Unary { op, operand } => format!(
            "{}{}",
            match op {
                UnaryOp::Neg => "-",
                UnaryOp::Not => "!",
                UnaryOp::Deref => "*",
                UnaryOp::AddrOf => "&",
                UnaryOp::AddrOfMut => "&mut ",
            },
            show(operand)
        ),
        ExprKind::ComparisonChain { elements, operators } => {
            let mut s = show(&elements[0]);
            for (i, op) in operators.iter().enumerate() {
                s = format!("{} {} {}", s, cmpop(op), show(&elements[i + 1]));
            }
            s
        },
        ExprKind::If { cond, then_block, else_block } => match else_block {
            Some(b) => format!("if {} {} else {}", show(cond), show_block(then_block), show_block(b)),
            None => format!("if {} {}", show(cond), show_block(then_block)),
        },
        ExprKind::Block(b) => show_block(b),
        ExprKind::While { cond, body } => format!("while {} {}", show(cond), show_block(body)),
        ExprKind::For { pattern, iterator, body } => format!("for {} in {} {}", show_pat(pattern), show(iterator), show_block(body)),
        ExprKind::Assign { target, op, value } => format!(
            "{} {} {}",
            show(target),
            match op {
                AssignOp::Assign => "=",
                AssignOp::AddAssign => "+=",
                AssignOp::SubAssign => "-=",
                AssignOp::MulAssign => "*=",
                AssignOp::DivAssign => "/=",
                AssignOp::ModAssign => "%=",
            },
            show(value)
        ),
        ExprKind::Index { expr, index } => format!("{}[{}]", show(expr), show(index)),
        ExprKind::FieldAccess { expr, field } => format!("{}.{}", show(expr), field),
        ExprKind::ArrayLit(es) => format!("[{}]", list(es)),
        ExprKind::Match { expr, arms } => format!(
            "match {} {{ {} }}",
            show(expr),
            arms.iter().map(|a| format!("{} => {}", show_pat(&a.pattern), show(&a.body))).collect::<Vec<_>>().join(", ")
        ),
        ExprKind::Loop { body } => format!("loop {}", show_block(body)),
        ExprKind::Break(None) => "break".to_string(),
        ExprKind::Break(Some(v)) => format!("break {}", show(v)),
        ExprKind::Closure { params, body } => format!(
            "|{}| {}",
            params.iter().map(show_pat).collect::<Vec<_>>().join(", "),
            show(body)
        ),
        ExprKind::StructCtor { name_path, fields, .. } => format!(
            "{} {{ {} }}",
            name_path.join("::"),
            fields.iter().map(|(f, v)| format!("{}: {}", f, show(v))).collect::<Vec<_>>().join(", ")
        ),
    }
}

fn ident(n: &str) -> AstExpr {
    AstExpr::new(ExprKind::Ident(n.to_string()), sp())
}

fn named(n: &str, args: Vec<Type>) -> Type {
    Type::Named(n.to_string(), args)
}

fn ctx_with(structs: Vec<StructDef>) -> TypeContext {
    TypeContext {
        structs,
        use_aliases: Vec::new(),
        generic_subst: Subst::new(),
        next_temp: 0,
        impl_defs: Vec::new(),
        trait_names: Vec::new(),
        fn_names: Vec::new(),
        fn_shadow_of: Vec::new(),
        module_prefix: String::new(),
        enums: Vec::new(),
    }
}

fn point() -> StructDef {
    StructDef { name: "Point".to_string(), fields: vec![("x".to_string(), Type::I64), ("ok".to_string(), Type::Bool)] }
}

fn unsupported(r: Result<AstExpr, TypeError>) -> String {
    match r {
        Err(TypeError::Unsupported { what, span }) => {
            assert_eq!(span, sp());
            what
        },
        other => panic!("expected an unsupported error, got {:?}", other.map(|e| show(&e))),
    }
}

// ---------------------------------------------------------------------------
// Building blocks and macros
// ---------------------------------------------------------------------------

#[test]
fn building_blocks() {
    assert_eq!(show(&empty_str(sp())), "\"\"");
    assert_eq!(show(&string_from_lit_ast("hi".to_string(), sp())), "String::from(\"hi\")");
    assert_eq!(show(&mk_ident_call("f".to_string(), vec![ident("a"), ident("b")], sp())), "f(a, b)");
    assert_eq!(show(&mk_path_call(vec!["a".to_string(), "b".to_string()], vec![], sp())), "a::b()");
    assert_eq!(show(&fold_add(vec![ident("a"), ident("b"), ident("c")], sp())), "((a + b) + c)");
    assert_eq!(show(&fold_add(vec![ident("a")], sp())), "a");
    assert_eq!(show(&make_deref_receiver(&ident("rc"), sp())), "rc.deref()");
}

#[test]
fn panic_like_macros() {
    assert_eq!(show(&panic_macro_ast(&[], sp())), "panic(\"\")");
    assert_eq!(show(&panic_macro_ast(&[ident("m")], sp())), "panic(m)");
    assert_eq!(show(&unreachable_macro_ast("todo!", sp())), "panic(\"todo! 不可达\")");
}

#[test]
fn assert_macros() {
    assert_eq!(
        show(&assert_like_ast(&[ident("c")], AssertKind::Plain, sp())),
        "if !c { panic(\"\"); } else { () }"
    );
    assert_eq!(
        show(&assert_like_ast(&[ident("a"), ident("b"), ident("m")], AssertKind::Eq, sp())),
        "if !a == b { panic(m); } else { () }"
    );
    assert_eq!(
        show(&assert_like_ast(&[ident("a"), ident("b")], AssertKind::Ne, sp())),
        "if !!a == b { panic(\"\"); } else { () }"
    );
}

#[test]
fn macro_dispatch() {
    assert!(matches!(macro_call_ast("println!", &[], sp()), Ok(MacroExpansion::Format)));
    assert!(matches!(macro_call_ast("format!", &[], sp()), Ok(MacroExpansion::Format)));
    assert!(matches!(macro_call_ast("dbg!", &[ident("x")], sp()), Ok(MacroExpansion::Dbg)));
    match macro_call_ast("assert!", &[ident("c")], sp()) {
        Ok(MacroExpansion::Expr(e)) => assert_eq!(show(&e), "if !c { panic(\"\"); } else { () }"),
        _ => panic!("assert! expands to an expression"),
    }
    match macro_call_ast("vec_of!", &[], sp()) {
        Err(TypeError::Unsupported { what, .. }) => assert_eq!(what, "未实现的宏 `vec_of!`"),
        _ => panic!("unknown macros are unsupported"),
    }
}

// ---------------------------------------------------------------------------
// json.stringify
// ---------------------------------------------------------------------------

#[test]
fn stringify_scalars() {
    let mut ctx = ctx_with(vec![]);
    assert_eq!(show(&json_serialize_ast(&mut ctx, &Type::I64, &ident("v"), sp()).unwrap()), "int_to_string(v)");
    assert_eq!(
        show(&json_serialize_ast(&mut ctx, &Type::Bool, &ident("v"), sp()).unwrap()),
        "if v { String::from(\"true\") } else { String::from(\"false\") }"
    );
    assert_eq!(
        show(&json_serialize_ast(&mut ctx, &named("String", vec![]), &ident("v"), sp()).unwrap()),
        "((String::from(\"\\\"\") + json_escape(v)) + String::from(\"\\\"\"))"
    );
    assert_eq!(ctx.next_temp, 0);
}

#[test]
fn stringify_array_and_vec() {
    let mut ctx = ctx_with(vec![]);
    let arr = Type::Array(Box::new(Type::I64), 2);
    assert_eq!(
        show(&json_serialize_ast(&mut ctx, &arr, &ident("a"), sp()).unwrap()),
        "((((String::from(\"[\") + int_to_string(a[0])) + String::from(\",\")) + int_to_string(a[1])) + String::from(\"]\"))"
    );
    let v = named("Vec", vec![Type::I64]);
    assert_eq!(
        show(&json_serialize_ast(&mut ctx, &v, &ident("v"), sp()).unwrap()),
        "{ let mut __t0 = String::new(); let mut __t1 = 0; __t0.push_str(String::from(\"[\")); \
         while __t1 < v.len() { if __t1 > 0 { __t0.push_str(String::from(\",\")); }; \
         __t0.push_str(json::stringify(v[__t1])); __t1 = (__t1 + 1); }; \
         __t0.push_str(String::from(\"]\")); __t0 }"
    );
    assert_eq!(ctx.next_temp, 2);
}

#[test]
fn stringify_struct() {
    let mut ctx = ctx_with(vec![point()]);
    assert_eq!(
        show(&json_serialize_ast(&mut ctx, &named("Point", vec![]), &ident("p"), sp()).unwrap()),
        "((((String::from(\"{\\\"x\\\":\") + int_to_string(p.x)) + String::from(\",\\\"ok\\\":\")) + \
         if p.ok { String::from(\"true\") } else { String::from(\"false\") }) + String::from(\"}\"))"
    );
}

#[test]
fn stringify_struct_without_fields_is_an_empty_object() {
    let mut ctx = ctx_with(vec![StructDef { name: "Unit".to_string(), fields: vec![] }]);
    assert_eq!(
        show(&json_serialize_ast(&mut ctx, &named("Unit", vec![]), &ident("u"), sp()).unwrap()),
        "String::from(\"{}\")"
    );
}

#[test]
fn stringify_errors() {
    let mut ctx = ctx_with(vec![]);
    assert_eq!(
        unsupported(json_serialize_ast(&mut ctx, &Type::F64, &ident("v"), sp())),
        "json.stringify：类型 `f64` 序列化"
    );
    assert_eq!(
        unsupported(json_serialize_ast(&mut ctx, &named("Vec", vec![Type::Infer]), &ident("v"), sp())),
        "json.stringify：Vec 元素类型未确定（如 `let v: Vec<i64> = vec![...]` 注解）"
    );
    assert_eq!(
        unsupported(json_serialize_ast(&mut ctx, &named("HashMap", vec![Type::Bool, Type::I64]), &ident("m"), sp())),
        "json.stringify：HashMap 键类型 `bool`（MVP 支持 i64 / String）"
    );
}

// ---------------------------------------------------------------------------
// json.parse / json.try_parse
// ---------------------------------------------------------------------------

#[test]
fn source_forms_of_types() {
    assert_eq!(show_type(&ty_to_ast(&named("HashMap", vec![named("String", vec![]), Type::I64]))), "HashMap<String, i64>");
    assert_eq!(show_type(&ty_to_ast(&Type::F64)), "f64");
    assert_eq!(show_type(&ty_to_ast(&Type::Str)), "()");
}

#[test]
fn zero_values() {
    let ctx = ctx_with(vec![point()]);
    assert_eq!(show(&ty_to_zero_ast(&ctx, &Type::I64, sp()).unwrap()), "0");
    assert_eq!(show(&ty_to_zero_ast(&ctx, &named("String", vec![]), sp()).unwrap()), "String::new()");
    assert_eq!(show(&ty_to_zero_ast(&ctx, &named("Point", vec![]), sp()).unwrap()), "Point { x: 0, ok: false }");
    assert!(ty_to_zero_ast(&ctx, &Type::F64, sp()).is_err());
}

#[test]
fn parse_scalars() {
    let mut ctx = ctx_with(vec![]);
    assert_eq!(show(&json_parse_ast(&mut ctx, &Type::I64, &ident("s"), sp()).unwrap()), "string_to_int(String::from(s))");
    assert_eq!(
        show(&json_parse_ast(&mut ctx, &Type::Bool, &ident("s"), sp()).unwrap()),
        "if String::from(s) == String::from(\"true\") { true } else { false }"
    );
    assert_eq!(
        show(&json_parse_ast(&mut ctx, &named("String", vec![]), &ident("s"), sp()).unwrap()),
        "json_unescape(String::from(s))"
    );
    assert_eq!(ctx.next_temp, 0);
}

#[test]
fn parse_map() {
    let mut ctx = ctx_with(vec![]);
    let m = named("HashMap", vec![Type::I64, Type::Bool]);
    assert_eq!(
        show(&json_parse_ast(&mut ctx, &m, &ident("s"), sp()).unwrap()),
        "{ let __t0 = String::from(s); let __t1 = __t0.substring(1, (__t0.len() - 1)); \
         let __t2 = __t1.split(String::from(\",\")); let mut __t3: HashMap<i64, bool> = HashMap::new(); \
         for __t4 in __t2 { let __t5 = __t4.find(String::from(\":\")); if __t5 >= 0 { \
         let __t6 = __t4.substring(0, __t5); let __t7 = __t4.substring((__t5 + 1), __t4.len()); \
         let __t8 = string_to_int(json_unescape(__t6)); \
         let __t9 = if String::from(__t7) == String::from(\"true\") { true } else { false }; \
         __t3.insert(__t8, __t9); }; }; __t3 }"
    );
    assert_eq!(ctx.next_temp, 10);
}

#[test]
fn parse_struct() {
    let mut ctx = ctx_with(vec![point()]);
    ctx.next_temp = 5;
    assert_eq!(
        show(&json_parse_ast(&mut ctx, &named("Point", vec![]), &ident("s"), sp()).unwrap()),
        "{ let __t5 = String::from(s); let __t6 = __t5.substring(1, (__t5.len() - 1)); \
         let __t7 = __t6.split(String::from(\",\")); let mut __t8: Point = Point { x: 0, ok: false }; \
         for __t9 in __t7 { let __t10 = __t9.find(String::from(\":\")); if __t10 >= 0 { \
         let __t11 = json_unescape(__t9.substring(0, __t10)); let __t12 = __t9.substring((__t10 + 1), __t9.len()); \
         if __t11 == String::from(\"x\") { __t8.x = string_to_int(String::from(__t12)); } else { \
         if __t11 == String::from(\"ok\") { __t8.ok = if String::from(__t12) == String::from(\"true\") { true } else { false }; } else {} }; }; }; __t8 }"
    );
    assert_eq!(ctx.next_temp, 13);
}

#[test]
fn parse_errors() {
    let mut ctx = ctx_with(vec![StructDef { name: "Empty".to_string(), fields: vec![] }]);
    assert_eq!(
        unsupported(json_parse_ast(&mut ctx, &named("HashMap", vec![Type::Infer, Type::I64]), &ident("s"), sp())),
        "json.parse：HashMap 键/值类型未确定（turbofish 显式定型，如 `json.parse::<HashMap<i64, i64>>(s)`）"
    );
    assert_eq!(
        unsupported(json_parse_ast(&mut ctx, &named("HashMap", vec![Type::Bool, Type::I64]), &ident("s"), sp())),
        "json.parse：HashMap 键类型 `bool`（MVP 支持 i64 / String）"
    );
    let nested = named("HashMap", vec![Type::I64, named("HashMap", vec![Type::I64, Type::I64])]);
    assert_eq!(
        unsupported(json_parse_ast(&mut ctx, &nested, &ident("s"), sp())),
        "json.parse：嵌套 HashMap 值反序列化（MVP 支持标量值 i64 / bool / String）"
    );
    assert_eq!(unsupported(json_parse_ast(&mut ctx, &named("Empty", vec![]), &ident("s"), sp())), "json.parse：空结构体 `Empty` 反序列化");
    assert_eq!(unsupported(json_parse_ast(&mut ctx, &Type::F64, &ident("s"), sp())), "json.parse：类型 `f64` 反序列化");
    assert_eq!(ctx.next_temp, 0);
}

#[test]
fn try_parse() {
    let mut ctx = ctx_with(vec![]);
    assert_eq!(
        show(&json_try_parse_ast(&mut ctx, &Type::I64, &ident("s"), sp()).unwrap()),
        "{ let __t0 = String::from(s); if parse_int_strict(__t0).is_ok() == 1 { Result::Ok(string_to_int(String::from(__t0))) } \
         else { Result::Err(serde::JsonError::ParseError(String::from(\"invalid integer\"))) } }"
    );
    assert_eq!(
        show(&json_try_parse_ast(&mut ctx, &Type::Bool, &ident("s"), sp()).unwrap()),
        "{ let __t1 = String::from(s); if (__t1 == String::from(\"true\") || __t1 == String::from(\"false\")) \
         { Result::Ok(if String::from(__t1) == String::from(\"true\") { true } else { false }) } \
         else { Result::Err(serde::JsonError::ParseError(String::from(\"invalid bool\"))) } }"
    );
    let m = named("HashMap", vec![named("String", vec![]), Type::I64]);
    let e = show(&json_try_parse_ast(&mut ctx, &m, &ident("s"), sp()).unwrap());
    assert!(e.starts_with(
        "{ let __t2 = String::from(s); if ((__t2.len() >= 2 && __t2.get(0) == 123) && __t2.get((__t2.len() - 1)) == 125) { Result::Ok({ let __t3 = String::from(__t2);"
    ));
    assert!(e.ends_with("else { Result::Err(serde::JsonError::ParseError(String::from(\"invalid object\"))) } }"));
    assert_eq!(ctx.next_temp, 13);
    assert_eq!(unsupported(json_try_parse_ast(&mut ctx, &Type::F64, &ident("s"), sp())), "json.try_parse：类型 `f64` 反序列化");
    assert_eq!(ctx.next_temp, 14);
}

// ---------------------------------------------------------------------------
// toml.parse / toml.try_parse
// ---------------------------------------------------------------------------

#[test]
fn toml_scalars() {
    let mut ctx = ctx_with(vec![]);
    assert_eq!(show(&toml_parse_ast(&mut ctx, &Type::I64, &ident("s"), sp(), false).unwrap()), "string_to_int(String::from(s))");
    assert_eq!(show(&toml_parse_ast(&mut ctx, &Type::F64, &ident("s"), sp(), false).unwrap()), "string_to_float(String::from(s))");
    assert_eq!(
        show(&toml_parse_ast(&mut ctx, &Type::Bool, &ident("s"), sp(), true).unwrap()),
        "if String::from(s) == String::from(\"true\") { true } else { false }"
    );
    assert_eq!(ctx.next_temp, 0);
}

#[test]
fn toml_strings_may_be_multi_line() {
    let v = show(&toml_string_value_ast(&ident("s"), sp()));
    assert_eq!(
        v,
        "if ((((String::from(s.trim()).get(0) == 34 && String::from(s.trim()).get(1) == 34) && String::from(s.trim()).get(2) == 34) && \
         ((String::from(s.trim()).get((String::from(s.trim()).len() - 3)) == 34 && String::from(s.trim()).get((String::from(s.trim()).len() - 2)) == 34) && \
         String::from(s.trim()).get((String::from(s.trim()).len() - 1)) == 34)) && String::from(s.trim()).len() >= 6) \
         { String::from(s.trim()).substring(3, (String::from(s.trim()).len() - 3)) } else { json_unescape(String::from(s.trim())) }"
    );
    let mut ctx = ctx_with(vec![]);
    let p = show(&toml_parse_ast(&mut ctx, &named("String", vec![]), &ident("s"), sp(), false).unwrap());
    assert!(p.ends_with("else { json_unescape(String::from(String::from(s).trim())) }"));
}

#[test]
fn toml_arrays_and_vectors() {
    let mut ctx = ctx_with(vec![]);
    let arr = Type::Array(Box::new(Type::I64), 2);
    assert_eq!(
        show(&toml_parse_ast(&mut ctx, &arr, &ident("s"), sp(), false).unwrap()),
        "{ let __t0 = String::from(s); let __t1 = __t0.substring(1, (__t0.len() - 1)); let __t2 = split_quoted(__t1, 44); \
         [string_to_int(String::from(__t2[0])), string_to_int(String::from(__t2[1]))] }"
    );
    assert_eq!(ctx.next_temp, 3);
    let v = named("Vec", vec![Type::Bool]);
    assert_eq!(
        show(&toml_parse_ast(&mut ctx, &v, &ident("s"), sp(), false).unwrap()),
        "{ let __t3 = String::from(s); let __t4 = __t3.substring(1, (__t3.len() - 1)); let __t5 = split_quoted(__t4, 44); \
         let mut __t6: Vec<bool> = Vec::new(); for __t7 in __t5 { \
         let __t8 = if String::from(__t7) == String::from(\"true\") { true } else { false }; __t6.push(__t8); }; __t6 }"
    );
    assert_eq!(ctx.next_temp, 9);
}

#[test]
fn toml_inline_tables() {
    let mut ctx = ctx_with(vec![]);
    let m = named("HashMap", vec![named("String", vec![]), Type::I64]);
    assert_eq!(
        show(&toml_parse_ast(&mut ctx, &m, &ident("s"), sp(), false).unwrap()),
        "{ let __t0 = String::from(s); let __t1 = __t0.substring(1, (__t0.len() - 1)); let __t2 = split_quoted(__t1, 44); \
         let mut __t3: HashMap<String, i64> = HashMap::new(); for __t4 in __t2 { let __t5 = __t4.find(String::from(\"=\")); \
         if __t5 >= 0 { let __t6 = __t4.substring(0, __t5); let __t7 = __t4.substring((__t5 + 1), __t4.len()); \
         let __t8 = json_unescape(__t6); let __t9 = string_to_int(String::from(__t7)); __t3.insert(__t8, __t9); }; }; __t3 }"
    );
    assert_eq!(ctx.next_temp, 10);
}

#[test]
fn toml_struct_with_sections() {
    let inner = StructDef { name: "Inner".to_string(), fields: vec![("x".to_string(), Type::Bool)] };
    let outer = StructDef {
        name: "Outer".to_string(),
        fields: vec![("a".to_string(), Type::I64), ("inner".to_string(), named("Inner", vec![]))],
    };
    let mut ctx = ctx_with(vec![inner, outer]);
    let e = show(&toml_parse_ast(&mut ctx, &named("Outer", vec![]), &ident("s"), sp(), false).unwrap());
    assert_eq!(ctx.next_temp, 20);
    assert!(e.starts_with(
        "{ let __t0 = String::from(s); let __t1 = __t0; let __t2 = __t1.split(String::from(\"\\n\")); \
         let mut __t3: Outer = Outer { a: 0, inner: Inner { x: false } }; let mut __t8 = String::new(); for __t4 in __t2 { \
         if __t4.find(String::from(\"[\")) == 0 { let __t9 = __t4.find(String::from(\"]\")); __t8 = __t4.substring(1, __t9).trim(); }; \
         let __t5 = __t4.find(String::from(\"=\")); if __t5 >= 0 { let __t6 = __t4.substring(0, __t5).trim(); \
         let __t7 = __t4.substring((__t5 + 1), __t4.len()).trim(); if __t8.len() == 0 { if __t6 == String::from(\"a\") { "
    ));
    assert!(e.contains(
        "let __t10 = String::from(__t7); let __t11 = __t10.substring(1, (__t10.len() - 1)); let __t12 = split_quoted(__t11, 44); \
         let mut __t13: Inner = Inner { x: false }; let mut __t18 = String::new(); for __t14 in __t12 { let __t15 = __t14.find(String::from(\"=\"));"
    ));
    assert!(e.contains(
        "} else { if __t8 == String::from(\"inner\") { if __t6 == String::from(\"x\") { \
         __t3.inner.x = if String::from(__t7) == String::from(\"true\") { true } else { false }; }; } }; }; }; __t3 }"
    ));
}

#[test]
fn toml_errors() {
    let mut ctx = ctx_with(vec![StructDef { name: "Empty".to_string(), fields: vec![] }]);
    assert_eq!(
        unsupported(toml_parse_ast(&mut ctx, &Type::Array(Box::new(Type::I64), 0), &ident("s"), sp(), false)),
        "toml.parse：空固定数组 `[T; 0]` 反序列化未支持"
    );
    assert_eq!(
        unsupported(toml_parse_ast(&mut ctx, &named("Vec", vec![Type::Infer]), &ident("s"), sp(), false)),
        "toml.parse：Vec 元素类型未确定（turbofish 显式定型，如 `toml.parse::<Vec<i64>>(s)`）"
    );
    assert_eq!(
        unsupported(toml_parse_ast(&mut ctx, &named("HashMap", vec![Type::F64, Type::I64]), &ident("s"), sp(), false)),
        "toml.parse：HashMap 键类型 `f64`（MVP 支持 i64 / String）"
    );
    assert_eq!(unsupported(toml_parse_ast(&mut ctx, &named("Empty", vec![]), &ident("s"), sp(), false)), "toml.parse：空结构体 `Empty` 反序列化");
    assert_eq!(unsupported(toml_parse_ast(&mut ctx, &Type::Char, &ident("s"), sp(), false)), "toml.parse：类型 `char` 反序列化");
    assert_eq!(ctx.next_temp, 0);
}

#[test]
fn toml_try_parse() {
    let mut ctx = ctx_with(vec![]);
    let e = show(&toml_try_parse_ast(&mut ctx, &named("Vec", vec![Type::I64]), &ident("s"), sp()).unwrap());
    assert!(e.starts_with(
        "{ let __t0 = String::from(s); if ((__t0.len() >= 2 && __t0.get(0) == 91) && __t0.get((__t0.len() - 1)) == 93) { Result::Ok({ let __t1 = String::from(__t0);"
    ));
    assert!(e.ends_with("else { Result::Err(serde::TomlError::ParseError(String::from(\"invalid array\"))) } }"));
    assert_eq!(ctx.next_temp, 7);
    assert_eq!(
        show(&toml_try_parse_ast(&mut ctx, &Type::F64, &ident("s"), sp()).unwrap()),
        "{ let __t7 = String::from(s); if parse_float_strict(__t7).is_ok() == 1 { Result::Ok(string_to_float(String::from(__t7))) } \
         else { Result::Err(serde::TomlError::ParseError(String::from(\"invalid float\"))) } }"
    );
    assert_eq!(unsupported(toml_try_parse_ast(&mut ctx, &Type::Str, &ident("s"), sp())), "toml.try_parse：类型 `str` 反序列化");
    assert_eq!(ctx.next_temp, 9);
}

// ---------------------------------------------------------------------------
// Built-in calls
// ---------------------------------------------------------------------------

fn count_error(r: Result<AstExpr, TypeError>) -> (String, usize, usize) {
    match r {
        Err(TypeError::UnexpectedArgumentCount { name, expected, found, span }) => {
            assert_eq!(span, sp());
            (name, expected, found)
        },
        other => panic!("expected an argument-count error, got {:?}", other.map(|e| show(&e))),
    }
}

#[test]
fn json_and_toml_call_checks() {
    let mut ctx = ctx_with(vec![]);
    let i64_ty = AstType::Path("i64".to_string(), vec![]);
    assert_eq!(
        count_error(check_json_stringify(&mut ctx, &[], &Type::I64, sp())),
        ("json.stringify".to_string(), 1, 0)
    );
    assert_eq!(show(&check_json_stringify(&mut ctx, &[ident("v")], &Type::I64, sp()).unwrap()), "int_to_string(v)");
    assert_eq!(
        count_error(check_json_parse(&mut ctx, &[ident("a"), ident("b")], &[], &Type::I64, sp())),
        ("json.parse".to_string(), 1, 2)
    );
    assert_eq!(
        unsupported(check_json_parse(&mut ctx, &[ident("s")], &[], &Type::I64, sp())),
        "json.parse 需要 1 个类型实参（turbofish `json.parse::<T>(s)`）"
    );
    assert_eq!(
        show(&check_json_parse(&mut ctx, &[ident("s")], &[i64_ty], &Type::I64, sp()).unwrap()),
        "string_to_int(String::from(s))"
    );
    assert_eq!(
        unsupported(check_json_try_parse(&mut ctx, &[ident("s")], &[], &Type::I64, sp())),
        "json.try_parse 需要 1 个类型实参（turbofish `json.try_parse::<T>(s)`）"
    );
    assert_eq!(count_error(check_toml_parse(&mut ctx, &[], &[], &Type::I64, sp())), ("toml.parse".to_string(), 1, 0));
    assert_eq!(
        unsupported(check_toml_try_parse(&mut ctx, &[ident("s")], &[], &Type::I64, sp())),
        "toml.try_parse 需要 1 个类型实参（turbofish `toml.try_parse::<T>(s)`）"
    );
    assert_eq!(ctx.next_temp, 0);
}

#[test]
fn writers_and_readers_must_be_files() {
    let file = named("io::file::File", vec![]);
    let mut_file = Type::Ref(Box::new(named("File", vec![])), lib::ty::Mutability::Mutable);
    assert_eq!(
        show(&check_json_to_writer(&[ident("w"), ident("v")], &mut_file, sp()).unwrap()),
        "w.write_all(json::stringify(v))"
    );
    assert_eq!(count_error(check_json_to_writer(&[ident("w")], &file, sp())), ("json.to_writer".to_string(), 2, 1));
    assert_eq!(
        unsupported(check_json_to_writer(&[ident("w"), ident("v")], &named("TcpStream", vec![]), sp())),
        "json.to_writer：首个参数须为 `File`（MVP；TcpStream 留待流式接线），实为 `TcpStream`"
    );
    let t = AstType::Path("Config".to_string(), vec![]);
    let e = check_json_from_reader(&[ident("r")], &[t], &file, sp()).unwrap();
    assert_eq!(show(&e), "json::parse(r.read_to_string().unwrap())");
    match &*e.kind {
        ExprKind::Call { type_args, .. } => assert_eq!(type_args.len(), 1),
        _ => panic!("a call"),
    }
    assert_eq!(
        unsupported(check_json_from_reader(&[ident("r")], &[], &file, sp())),
        "json.from_reader：须显式泛型实参 `json.from_reader::<T>(r)`"
    );
    assert_eq!(
        unsupported(check_json_from_reader(&[ident("r")], &[AstType::Infer], &Type::I64, sp())),
        "json.from_reader：首个参数须为 `File`（MVP；TcpStream 留待流式接线），实为 `i64`"
    );
}

// ---------------------------------------------------------------------------
// Iterator adapters
// ---------------------------------------------------------------------------

fn closure(p: &str) -> AstExpr {
    AstExpr::new(ExprKind::Closure { params: vec![AstPattern::Ident(p.to_string())], body: ident(p) }, sp())
}

#[test]
fn map_over_a_vec_expands_to_a_for_loop() {
    let mut ctx = ctx_with(vec![]);
    ctx.next_temp = 3;
    let vec_i64 = named("Vec", vec![Type::I64]);
    let e = check_iterator_adapter(&mut ctx, &ident("v"), &vec_i64, "map", &[closure("x")], &Type::I64, &Type::Bool, &Type::Infer, sp())
        .unwrap();
    assert_eq!(
        show(&e),
        "{ let mut __adp_out_3: Vec<bool> = Vec::new(); for __adp_x_3 in v { let __adp_u_9 = __adp_f_3(__adp_x_3); \
         __adp_out_3.push(__adp_u_9); }; __adp_out_3 }"
    );
    assert_eq!(ctx.next_temp, 10);
}

#[test]
fn take_over_a_custom_iterator_uses_next() {
    let mut ctx = ctx_with(vec![]);
    let it_ty = named("Counter", vec![]);
    let e = check_iterator_adapter(&mut ctx, &ident("c"), &it_ty, "take", &[AstExpr::new(ExprKind::IntLiteral(2), sp())], &Type::I64, &Type::Infer, &Type::Infer, sp())
        .unwrap();
    assert_eq!(
        show(&e),
        "{ let mut __adp_out_0: Vec<i64> = Vec::new(); let mut __adp_n_0 = 0; let mut __adp_it_0 = c; \
         loop { match __adp_it_0.next() { Some(__adp_x_0) => { if __adp_n_0 < 2 { __adp_n_0 += 1; __adp_out_0.push(__adp_x_0); } else { break; }; }, None => break }; }; __adp_out_0 }"
    );
    assert_eq!(ctx.next_temp, 6);
}

#[test]
fn fold_binds_an_accumulator() {
    let mut ctx = ctx_with(vec![]);
    let arr = Type::Array(Box::new(Type::I64), 3);
    let two = AstExpr::new(ExprKind::Closure { params: vec![], body: ident("a") }, sp());
    let e = check_iterator_adapter(&mut ctx, &ident("a"), &arr, "fold", &[AstExpr::new(ExprKind::IntLiteral(0), sp()), two], &Type::I64, &Type::I64, &Type::I64, sp())
        .unwrap();
    assert_eq!(
        show(&e),
        "{ let mut __adp_out_0: Vec<i64> = Vec::new(); let mut __adp_acc_0 = 0; \
         for __adp_x_0 in a { __adp_acc_0 = __adp_f_0(__adp_acc_0, __adp_x_0); }; __adp_acc_0 }"
    );
}

#[test]
fn adapter_errors() {
    let mut ctx = ctx_with(vec![]);
    let vec_i64 = named("Vec", vec![Type::I64]);
    match check_iterator_adapter(&mut ctx, &ident("v"), &vec_i64, "collect", &[ident("x")], &Type::I64, &Type::I64, &Type::I64, sp()) {
        Err(TypeError::UnexpectedArgumentCount { name, expected, found, .. }) => {
            assert_eq!((name.as_str(), expected, found), ("<collect>", 0, 1));
        },
        other => panic!("unexpected {:?}", other.map(|e| show(&e))),
    }
    assert_eq!(ctx.next_temp, 0);
    assert_eq!(
        unsupported(check_iterator_adapter(&mut ctx, &ident("v"), &vec_i64, "filter", &[ident("p")], &Type::I64, &Type::Bool, &Type::I64, sp())),
        "`filter` 的参数必须是闭包 `|x| ..`"
    );
    assert_eq!(ctx.next_temp, 6);
    assert_eq!(
        unsupported(check_iterator_adapter(&mut ctx, &ident("v"), &vec_i64, "fold", &[ident("z"), ident("g")], &Type::I64, &Type::I64, &Type::I64, sp())),
        "`fold` 的第二个参数必须是闭包 `|acc, x| ..`"
    );
    assert_eq!(
        unsupported(check_iterator_adapter(&mut ctx, &ident("v"), &vec_i64, "fold", &[ident("z"), closure("x")], &Type::I64, &Type::I64, &Type::Infer, sp())),
        "`fold` 的初始值要求类型确定（如 `0` / `String::from(\"\")`）"
    );
}
