use jimc::ast::{ClassDecl, Expr, ExprKind, Type};
use jimc::parser::parse_source;
use jimc::scan::{scan_block, scan_class};
use jimc::subst::{subst_class, subst_expr, subst_function};
use jimc::typing::{
    check_template_type, class_info_of, deopt, try_coerce, type_available, type_is_concrete, ClassKind,
};

fn named(n: &str) -> Type {
    Type::named(n)
}

fn opt(t: Type) -> Type {
    Type::Optional(Box::new(t))
}

fn generic(n: &str, p: Type) -> Type {
    Type::Generic(n.to_string(), Box::new(p))
}

fn ex(kind: ExprKind) -> Expr {
    Expr { kind, line: 3, col: 4 }
}

fn strings(v: &[&str]) -> Vec<String> {
    v.iter().map(|s| s.to_string()).collect()
}

#[test]
fn deopt_unwraps_optionals_only() {
    let (e, t) = deopt((ex(ExprKind::Ident("x".into())), opt(named("Integer"))));
    assert_eq!(t.display(), "Integer");
    assert!(matches!(e.kind, ExprKind::OptUnwrap { .. }));
    assert_eq!((e.line, e.col), (3, 4));
    let (e, t) = deopt((ex(ExprKind::Int(1)), named("Integer")));
    assert_eq!(t.display(), "Integer");
    assert!(matches!(e.kind, ExprKind::Int(1)));
}

#[test]
fn coercions_wrap_unwrap_or_refuse() {
    let r = try_coerce((ex(ExprKind::Int(1)), named("Integer")), &named("Integer"));
    assert!(matches!(r, Ok(Expr { kind: ExprKind::Int(1), .. })));
    let r = try_coerce((ex(ExprKind::Int(1)), named("Integer")), &opt(named("Integer")));
    assert!(matches!(r, Ok(Expr { kind: ExprKind::OptWrap { .. }, .. })));
    let r = try_coerce((ex(ExprKind::Ident("o".into())), opt(named("Integer"))), &named("Integer"));
    assert!(matches!(r, Ok(Expr { kind: ExprKind::OptUnwrap { .. }, .. })));
    let r = try_coerce((ex(ExprKind::Int(1)), named("Integer")), &named("String"));
    match r {
        Err((e, t)) => {
            assert!(matches!(e.kind, ExprKind::Int(1)));
            assert_eq!(t.display(), "Integer");
        }
        Ok(_) => panic!("Integer is not a String"),
    }
}

#[test]
fn available_types() {
    let classes = strings(&["Point", "Vector<Integer>"]);
    assert_eq!(type_available(&classes, &named("Integer"), false), Ok(()));
    assert_eq!(type_available(&classes, &named("None"), true), Ok(()));
    assert_eq!(
        type_available(&classes, &named("None"), false),
        Err("None is only usable as a return type".to_string())
    );
    assert_eq!(type_available(&classes, &named("Point"), false), Ok(()));
    assert_eq!(type_available(&classes, &named("Nope"), false), Err("unknown type 'Nope'".to_string()));
    assert_eq!(
        type_available(&classes, &named("Vector"), false),
        Err("Vector<T> requires a type argument".to_string())
    );
    assert_eq!(type_available(&classes, &generic("Vector", named("Integer")), false), Ok(()));
    assert_eq!(
        type_available(&classes, &generic("Vector", named("Float")), false),
        Err("Vector<T> is not defined (is core.j loaded?)".to_string())
    );
    assert_eq!(
        type_available(&classes, &generic("Vector", Type::Pointer(Box::new(named("Integer")))), false),
        Err("containers of pointers are not allowed (the pointed-to variable may die before the container)".to_string())
    );
    assert_eq!(
        type_available(&classes, &opt(opt(named("Integer"))), false),
        Err("nested optionals (T??) are not allowed".to_string())
    );
    assert_eq!(
        type_available(&classes, &opt(named("Exception")), false),
        Err("Exception? is not supported".to_string())
    );
    assert_eq!(
        type_available(&classes, &Type::Pointer(Box::new(Type::Pointer(Box::new(named("Integer"))))), false),
        Err("**T (pointer to pointer) is not supported".to_string())
    );
}

#[test]
fn template_types() {
    let tp = strings(&["T"]);
    let classes = strings(&["Point"]);
    assert_eq!(check_template_type(&generic("Vector", named("T")), &tp, &classes), Ok(()));
    assert_eq!(check_template_type(&named("None"), &tp, &classes), Ok(()));
    assert_eq!(
        check_template_type(&named("U"), &tp, &classes),
        Err("unknown type 'U'".to_string())
    );
    assert_eq!(
        check_template_type(&generic("Map", named("T")), &tp, &classes),
        Err("'Map' is not a generic type \u{2014} only Array<T> and Vector<T> exist".to_string())
    );
    assert!(type_is_concrete(&generic("Vector", named("Point")), &classes, &strings(&["Vector"])));
    assert!(!type_is_concrete(&generic("Vector", named("T")), &classes, &strings(&["Vector"])));
    assert!(type_is_concrete(&generic("RawBuffer", named("Integer")), &classes, &strings(&[])));
}

fn class(src: &str) -> ClassDecl {
    parse_source(src, 0, false).unwrap().classes.remove(0)
}

#[test]
fn class_table_entries() {
    let c = class("class P { public x: Integer = 0; public get() -> Integer { return this.x; } P(x: Integer) { } }");
    let info = class_info_of(&c, ClassKind::UserRef).unwrap();
    assert_eq!(info.methods.len(), 1);
    assert_eq!(info.methods[0].0, "get");
    assert_eq!(info.fields[0].0, "x");
    assert_eq!(info.ctor_params.len(), 1);
    assert_eq!(info.kind, ClassKind::UserRef);
    let c = class("class P { public f() -> None { } public f() -> None { } }");
    assert_eq!(class_info_of(&c, ClassKind::UserRef).err(), Some("duplicate method 'f' in class 'P'".to_string()));
    let c = class("class P { public f: Integer = 0; public f() -> None { } }");
    assert_eq!(
        class_info_of(&c, ClassKind::UserRef).err(),
        Some("field 'f' collides with a method of the same name in class 'P'".to_string())
    );
    let c = class("class P { public a: Integer = 0; private a: Float = 1.0; }");
    assert_eq!(class_info_of(&c, ClassKind::UserRef).err(), Some("duplicate field 'a' in class 'P'".to_string()));
}

#[test]
fn stamping_a_class_template() {
    let c = class("class Box<T> { public v: T = x; public get(d: T) -> T? { var y: Vector<T> = f(); return this.v; } }");
    let inst = subst_class(&c, "T", &named("Integer"), "Box<Integer>".to_string());
    assert_eq!(inst.name, "Box<Integer>");
    assert!(inst.type_param.is_none());
    assert_eq!(inst.fields[0].ty.display(), "Integer");
    assert_eq!(inst.methods[0].params[0].ty.display(), "Integer");
    assert_eq!(inst.methods[0].ret.display(), "Integer?");
    match &inst.methods[0].body.stmts[0].kind {
        jimc::ast::StmtKind::VarDecl { ty, .. } => assert_eq!(ty.display(), "Vector<Integer>"),
        other => panic!("unexpected {:?}", other),
    }
}

#[test]
fn stamping_a_function_template() {
    let f = parse_source("function id<T>(x: T) -> T { return first<T>(x); }", 0, false).unwrap().functions.remove(0);
    let b = vec![("T".to_string(), named("Float"))];
    let inst = subst_function(f, &b, "id<Float>");
    assert_eq!(inst.name, "id<Float>");
    assert!(inst.type_params.is_empty());
    assert_eq!(inst.params[0].ty.display(), "Float");
    assert_eq!(inst.ret.display(), "Float");
    let call = match &inst.body.stmts[0].kind {
        jimc::ast::StmtKind::Return(Some(e)) => e,
        other => panic!("unexpected {:?}", other),
    };
    match &call.kind {
        ExprKind::GenericCall { type_args, .. } => assert_eq!(type_args[0].display(), "Float"),
        other => panic!("unexpected {:?}", other),
    }
    let e = subst_expr(&ex(ExprKind::Int(7)), &b);
    assert!(matches!(e.kind, ExprKind::Int(7)));
}

#[test]
fn scanning_for_written_types() {
    let f = parse_source(
        "function f(a: Integer) -> None { var v: Vector<Float> = g<Array<Char>>(1); while (true) { var b: Bool = h(); } }",
        0,
        false,
    )
    .unwrap()
    .functions
    .remove(0);
    let mut out = Vec::new();
    scan_block(&f.body, &mut out);
    let shown: Vec<String> = out.iter().map(|t| t.display()).collect();
    assert_eq!(shown, vec!["Vector<Float>", "Array<Char>", "Bool"]);
    let c = class("class P { public x: Integer = 0; public m(s: String) -> Float { return 1.0; } }");
    let mut out = Vec::new();
    scan_class(&c, &mut out);
    let shown: Vec<String> = out.iter().map(|t| t.display()).collect();
    assert_eq!(shown, vec!["Integer", "String", "Float"]);
}
