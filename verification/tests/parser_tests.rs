use jimc::ast::{AssignOp, BinOp, ExprKind, ImportKind, Module, StmtKind, Type, UnOp};
use jimc::lexer::Lexer;
use jimc::parser::{parse_source, Parser};

fn parse(src: &str) -> Module {
    parse_source(src, 0, false).expect("parses")
}

fn parse_err(src: &str) -> (String, u32, u32) {
    let e = parse_source(src, 0, false).expect_err("should fail");
    (e.msg, e.line, e.col)
}

fn expr(src: &str) -> jimc::ast::Expr {
    let toks = Lexer::new(src).tokenize().unwrap();
    Parser::new(toks).parse_expr().expect("expression parses")
}

#[test]
fn a_function_with_params_and_return() {
    let m = parse("function add(a: Integer, b: Integer) -> Integer { return a + b; }");
    assert_eq!(m.functions.len(), 1);
    let f = &m.functions[0];
    assert_eq!(f.name, "add");
    assert_eq!(f.params.len(), 2);
    assert_eq!(f.params[1].name, "b");
    assert_eq!(f.params[1].ty.display(), "Integer");
    assert_eq!(f.ret.display(), "Integer");
    assert_eq!((f.line, f.col), (1, 1));
    assert_eq!(f.body.stmts.len(), 1);
    match &f.body.stmts[0].kind {
        StmtKind::Return(Some(e)) => match &e.kind {
            ExprKind::Binary { op, .. } => assert_eq!(*op, BinOp::Add),
            other => panic!("unexpected {:?}", other),
        },
        other => panic!("unexpected {:?}", other),
    }
}

#[test]
fn file_index_and_std_flag_are_recorded() {
    let m = parse_source("function f() -> None { }", 3, true).unwrap();
    assert_eq!(m.functions[0].file_idx, 3);
    assert!(m.functions[0].from_std);
}

#[test]
fn generic_function_type_params() {
    let m = parse("function id<T>(x: T) -> T { return x; }");
    assert_eq!(m.functions[0].type_params, vec!["T".to_string()]);
    let (msg, _, _) = parse_err("function f<T, T>(x: T) -> T { return x; }");
    assert_eq!(msg, "duplicate type parameter 'T'");
}

#[test]
fn missing_return_type_is_reported() {
    let (msg, line, col) = parse_err("function main() { }");
    assert_eq!(
        msg,
        "function 'main' is missing its return type: jim requires '-> Type' (use '-> None' for no value)"
    );
    assert_eq!((line, col), (1, 17));
}

#[test]
fn imports_of_both_kinds() {
    let m = parse("#import <io>\n#import \"util.j\"\n");
    assert_eq!(m.imports.len(), 2);
    assert!(matches!(&m.imports[0].kind, ImportKind::Std(n) if n == "io"));
    assert!(matches!(&m.imports[1].kind, ImportKind::Local(p) if p == "util.j"));
    assert_eq!((m.imports[1].line, m.imports[1].col), (2, 1));
    let (msg, _, _) = parse_err("#import 5");
    assert_eq!(msg, "expected '<library>' or \"file.j\" after '#import', found an integer literal");
}

#[test]
fn a_class_with_field_ctor_and_method() {
    let src = "class Point {\n  public x: Integer = 0;\n  Point(x: Integer) { this.x = x; }\n  public get() -> Integer { return this.x; }\n}";
    let m = parse(src);
    assert_eq!(m.classes.len(), 1);
    let c = &m.classes[0];
    assert_eq!(c.name, "Point");
    assert!(c.type_param.is_none());
    assert_eq!(c.fields.len(), 1);
    assert_eq!(c.fields[0].name, "x");
    assert!(c.fields[0].is_public);
    assert!(c.ctor.is_some());
    assert_eq!(c.ctor.as_ref().unwrap().params.len(), 1);
    assert_eq!(c.methods.len(), 1);
    assert_eq!(c.methods[0].name, "get");
}

#[test]
fn class_errors() {
    assert_eq!(
        parse_err("class A { A() { } A() { } }").0,
        "class 'A' already has a constructor (jim has no overloading)"
    );
    assert_eq!(
        parse_err("class A { B() { } }").0,
        "class members start with 'public' or 'private' (or a 'A(...)' constructor), found 'B'"
    );
    assert_eq!(parse_err("class A { ").0, "unexpected end of file inside a class (missing '}')");
    assert_eq!(parse_err("class A { A() -> None { } }").0, "constructors have no return type");
}

#[test]
fn top_level_errors() {
    assert_eq!(
        parse_err("var x: Integer = 1;").0,
        "expected 'function', 'class' or '#import' at top level, found 'var'"
    );
    assert_eq!(
        parse_err("try { }").0,
        "try/catch is a statement — put it inside a function"
    );
}

#[test]
fn precedence_of_binary_operators() {
    let e = expr("1 + 2 * 3");
    match e.kind {
        ExprKind::Binary { op: BinOp::Add, lhs, rhs } => {
            assert!(matches!(lhs.kind, ExprKind::Int(1)));
            assert!(matches!(rhs.kind, ExprKind::Binary { op: BinOp::Mul, .. }));
        }
        other => panic!("unexpected {:?}", other),
    }
    let e = expr("a or b and not c");
    match e.kind {
        ExprKind::Binary { op: BinOp::Or, rhs, .. } => match rhs.kind {
            ExprKind::Binary { op: BinOp::And, rhs, .. } => {
                assert!(matches!(rhs.kind, ExprKind::Unary { op: UnOp::Not, .. }))
            }
            other => panic!("unexpected {:?}", other),
        },
        other => panic!("unexpected {:?}", other),
    }
}

#[test]
fn postfix_calls_fields_and_indexing() {
    let e = expr("v.items[2].len()");
    match e.kind {
        ExprKind::MethodCall { recv, name, args } => {
            assert_eq!(name, "len");
            assert!(args.is_empty());
            assert!(matches!(recv.kind, ExprKind::Index { .. }));
        }
        other => panic!("unexpected {:?}", other),
    }
}

#[test]
fn statements_of_a_body() {
    let src = "function f() -> None {\n var x: Integer = 1;\n x += 2;\n x++;\n while (x < 10) { x = x + 1; }\n if (x == 1) { return; } else { x = 0; }\n for (i: Integer in v) { }\n}";
    let m = parse(src);
    let s = &m.functions[0].body.stmts;
    assert!(matches!(&s[0].kind, StmtKind::VarDecl { is_const: false, name, .. } if name == "x"));
    assert!(matches!(&s[1].kind, StmtKind::Assign { op: AssignOp::Add, .. }));
    assert!(matches!(&s[2].kind, StmtKind::IncDec { inc: true, .. }));
    assert!(matches!(&s[3].kind, StmtKind::While { .. }));
    assert!(matches!(&s[4].kind, StmtKind::If { else_block: Some(_), .. }));
    assert!(matches!(&s[5].kind, StmtKind::ForIn { .. }));
    assert_eq!((s[1].line, s[1].col), (3, 2));
    let (msg, _, _) = parse_err("function f() -> None { for (i: Integer; ) { } }");
    assert_eq!(msg, "expected '=' (C-style for) or 'in' (for-in) after the loop variable, found ';'");
}

#[test]
fn types_are_parsed_with_pointers_optionals_and_generics() {
    let m = parse("function f(p: *Vector<Integer>?) -> None { }");
    let t: &Type = &m.functions[0].params[0].ty;
    assert_eq!(t.display(), "*Vector<Integer>?");
}
