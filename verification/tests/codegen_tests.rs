use jimc::ast::{Block, Expr, ExprKind, Stmt, StmtKind, Type};
use jimc::codegen::Cg;
use jimc::codegen_names::{
    block_always_returns, c_name, class_key_of, core_opt_sfx, escape_c, indent, intrinsic_block,
    is_core_class, local, mangle, mangle_method, method_key, opt_is_struct,
};

fn cg(debug: bool) -> Cg {
    Cg {
        user_classes: vec!["Point".to_string()],
        files: vec!["main.j".to_string()],
        panic_file: "main.j".to_string(),
        panic_func: "main".to_string(),
        debug,
        panic_abort: false,
        ret_ctype: "int64_t".to_string(),
    }
}

fn ex(kind: ExprKind) -> Expr {
    Expr { kind, line: 7, col: 1 }
}

fn st(kind: StmtKind) -> Stmt {
    Stmt { kind, line: 7, col: 1 }
}

fn generic(n: &str, p: Type) -> Type {
    Type::Generic(n.to_string(), Box::new(p))
}

#[test]
fn c_identifiers_from_class_keys() {
    assert_eq!(c_name("Vector<Integer>"), "Vector_Integer_");
    assert_eq!(mangle("max<Vector<Float>,Float>"), "jim_user_max_Vector_Float__Float_");
    assert_eq!(mangle_method("Vector<Integer>", "push"), "jim_m_Vector_Integer__push");
    assert_eq!(method_key("Integer", "plus"), "Integer#plus");
    assert_eq!(local("count"), "jl_count");
}

#[test]
fn core_classes_and_optional_representations() {
    for n in ["Integer", "Float", "Bool", "Char", "String", "Exception"] {
        assert!(is_core_class(n));
    }
    assert!(!is_core_class("Vector"));
    assert!(opt_is_struct(&Type::named("Integer")));
    assert!(!opt_is_struct(&Type::named("Point")));
    assert_eq!(core_opt_sfx(&Type::named("Integer")), "i64");
    assert_eq!(core_opt_sfx(&Type::named("Float")), "f64");
    assert_eq!(core_opt_sfx(&Type::named("String")), "str");
    assert_eq!(class_key_of(&generic("Vector", Type::named("Integer"))), "Vector<Integer>");
}

#[test]
fn escape_c_uses_octal_for_unprintables() {
    assert_eq!(escape_c(b"a\"b\\\n"), "a\\\"b\\\\\\012");
    assert_eq!(escape_c(&[0x7f, 0xff, b' ']), "\\177\\377 ");
    assert_eq!(escape_c(b""), "");
}

#[test]
fn indent_is_four_spaces_per_level() {
    let mut s = String::from("x");
    indent(&mut s, 2);
    assert_eq!(s, "x        ");
}

#[test]
fn intrinsics_map_to_runtime_blocks() {
    assert_eq!(intrinsic_block("i64_add"), Some("INT"));
    assert_eq!(intrinsic_block("f64_sqrt"), Some("FLOATMATH"));
    assert_eq!(intrinsic_block("str_concat"), Some("STRING"));
    assert_eq!(intrinsic_block("read_file"), Some("IOFILE"));
    assert_eq!(intrinsic_block("panic"), None);
}

#[test]
fn c_types_of_jim_types() {
    let c = cg(false);
    assert_eq!(c.ctype(&Type::named("Integer")), "int64_t");
    assert_eq!(c.ctype(&Type::named("String")), "jim_str");
    assert_eq!(c.ctype(&Type::named("None")), "void");
    assert_eq!(c.ctype(&Type::named("Point")), "jim_c_Point*");
    assert_eq!(c.ctype(&generic("Vector", Type::named("Integer"))), "jim_c_Vector_Integer_*");
    assert_eq!(c.ctype(&generic("RawBuffer", Type::named("Integer"))), "jim_buf_Integer");
    assert_eq!(c.ctype(&Type::Optional(Box::new(Type::named("Integer")))), "jim_opt_i64");
    assert_eq!(c.ctype(&Type::Optional(Box::new(Type::named("Point")))), "jim_c_Point*");
    assert_eq!(c.ctype(&Type::Pointer(Box::new(Type::named("Integer")))), "int64_t*");
}

#[test]
fn implicit_none_returns() {
    let c = cg(false);
    let r = c.implicit_none_return(&Type::Optional(Box::new(Type::named("Integer"))));
    assert_eq!(r.as_deref(), Some("    return rt_opt_i64_none();\n"));
    let r = c.implicit_none_return(&Type::Optional(Box::new(Type::named("Point"))));
    assert_eq!(r.as_deref(), Some("    return (jim_c_Point*)NULL;\n"));
    assert_eq!(c.implicit_none_return(&Type::named("Integer")), None);
}

#[test]
fn debug_frames_and_line_marks() {
    let d = cg(true);
    assert_eq!(d.frame_push(), "    rt_push_frame(\"main.j\", \"main\");\n");
    assert_eq!(d.frame_pop(), "    rt_pop_frame();\n");
    assert_eq!(d.line_mark(12, "f()".to_string()), "(rt_frame_line(12), f())");
    let r = cg(false);
    assert_eq!(r.frame_push(), "");
    assert_eq!(r.frame_pop(), "");
    assert_eq!(r.line_mark(12, "f()".to_string()), "f()");
}

#[test]
fn set_panic_ctx_picks_the_file_name() {
    let mut c = cg(false);
    c.set_panic_ctx(0, "go".to_string());
    assert_eq!(c.panic_file, "main.j");
    assert_eq!(c.panic_func, "go");
    c.set_panic_ctx(5, "go".to_string());
    assert_eq!(c.panic_file, "?");
}

#[test]
fn expressions_to_c() {
    let c = cg(false);
    assert_eq!(c.cg_expr(&ex(ExprKind::Int(5))), "INT64_C(5)");
    assert_eq!(c.cg_expr(&ex(ExprKind::Int(-3))), "INT64_C(-3)");
    assert_eq!(c.cg_expr(&ex(ExprKind::Str("hi\n".to_string()))), "rt_str_lit(\"hi\\012\", 3)");
    assert_eq!(c.cg_expr(&ex(ExprKind::CharLit(65))), "65u");
    assert_eq!(c.cg_expr(&ex(ExprKind::Bool(true))), "true");
    assert_eq!(c.cg_expr(&ex(ExprKind::Ident("x".to_string()))), "jl_x");
    assert_eq!(c.cg_expr(&ex(ExprKind::This)), "jl_this");
    let call = ex(ExprKind::Call {
        name: "f".to_string(),
        args: vec![ex(ExprKind::Int(1)), ex(ExprKind::Ident("y".to_string()))],
    });
    assert_eq!(c.cg_expr(&call), "jim_user_f(INT64_C(1), jl_y)");
    assert_eq!(cg(true).cg_expr(&call), "(rt_frame_line(7), jim_user_f(INT64_C(1), jl_y))");
}

#[test]
fn float_literals_keep_a_decimal_point() {
    let c = cg(false);
    assert_eq!(c.cg_expr(&ex(ExprKind::Float("2.5".to_string()))), "2.5");
}

#[test]
fn statements_to_c() {
    let c = cg(false);
    let mut out = String::new();
    c.emit_stmt(&mut out, &st(StmtKind::Return(Some(ex(ExprKind::Int(0))))), 1);
    assert_eq!(out, "    return INT64_C(0);\n");
    let mut out = String::new();
    let decl = StmtKind::VarDecl {
        is_const: false,
        name: "x".to_string(),
        ty: Type::named("Integer"),
        init: ex(ExprKind::Int(2)),
    };
    c.emit_stmt(&mut out, &st(decl), 0);
    assert_eq!(out, "int64_t jl_x = INT64_C(2);\n");
    let mut out = String::new();
    c.emit_stmt(&mut out, &st(StmtKind::Return(None)), 0);
    assert_eq!(out, "return;\n");
    let mut out = String::new();
    cg(true).emit_stmt(&mut out, &st(StmtKind::Return(Some(ex(ExprKind::Int(1))))), 0);
    assert_eq!(out, "{ int64_t jim_rv = INT64_C(1); rt_pop_frame(); return jim_rv; }\n");
}

#[test]
fn if_else_to_c() {
    let c = cg(false);
    let ret = |v: i64| Block { stmts: vec![st(StmtKind::Return(Some(ex(ExprKind::Int(v)))))] };
    let s = st(StmtKind::If {
        arms: vec![(ex(ExprKind::Bool(true)), ret(1))],
        else_block: Some(ret(2)),
    });
    let mut out = String::new();
    c.emit_stmt(&mut out, &s, 0);
    assert_eq!(out, "if (true) {\n    return INT64_C(1);\n} else {\n    return INT64_C(2);\n}\n");
    let b = Block { stmts: vec![s] };
    assert!(block_always_returns(&b));
}
