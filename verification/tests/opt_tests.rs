use jimc::ast::{Expr, ExprKind};
use jimc::opt::try_fold;

fn ex(kind: ExprKind) -> Expr {
    Expr { kind, line: 1, col: 1 }
}

fn ints(v: &[i64]) -> Vec<Expr> {
    v.iter().map(|&i| ex(ExprKind::Int(i))).collect()
}

#[test]
fn checked_integer_arithmetic_folds() {
    assert!(matches!(try_fold("i64_add", &ints(&[2, 3])), Some(ExprKind::Int(5))));
    assert!(matches!(try_fold("i64_sub", &ints(&[2, 3])), Some(ExprKind::Int(-1))));
    assert!(matches!(try_fold("i64_mul", &ints(&[-4, 3])), Some(ExprKind::Int(-12))));
    assert!(matches!(try_fold("i64_divtrunc", &ints(&[-7, 2])), Some(ExprKind::Int(-3))));
    assert!(matches!(try_fold("i64_mod", &ints(&[-7, 2])), Some(ExprKind::Int(-1))));
}

#[test]
fn operations_that_would_panic_stay_in_place() {
    assert!(try_fold("i64_add", &ints(&[i64::MAX, 1])).is_none());
    assert!(try_fold("i64_divtrunc", &ints(&[1, 0])).is_none());
    assert!(try_fold("i64_mod", &ints(&[1, 0])).is_none());
    assert!(try_fold("i64_to_char", &ints(&[256])).is_none());
    assert!(try_fold("i64_shl", &ints(&[1, 64])).is_none());
}

#[test]
fn min_mod_minus_one_is_zero_and_min_results_stay() {
    assert!(matches!(try_fold("i64_mod", &ints(&[i64::MIN, -1])), Some(ExprKind::Int(0))));
    assert!(try_fold("i64_sub", &ints(&[i64::MIN + 1, 1])).is_none());
    assert!(try_fold("i64_neg", &ints(&[i64::MIN])).is_none());
    assert!(matches!(try_fold("i64_neg", &ints(&[5])), Some(ExprKind::Int(-5))));
}

#[test]
fn comparisons_and_conversions() {
    assert!(matches!(try_fold("i64_eq", &ints(&[4, 4])), Some(ExprKind::Bool(true))));
    assert!(matches!(try_fold("i64_lt", &ints(&[5, 4])), Some(ExprKind::Bool(false))));
    assert!(matches!(try_fold("i64_to_string", &ints(&[-42])), Some(ExprKind::Str(s)) if s == "-42"));
    assert!(matches!(try_fold("i64_to_char", &ints(&[65])), Some(ExprKind::CharLit(65))));
    let c = vec![ex(ExprKind::CharLit(b'a'))];
    assert!(matches!(try_fold("char_to_i64", &c), Some(ExprKind::Int(97))));
    assert!(matches!(try_fold("char_to_string", &c), Some(ExprKind::Str(s)) if s == "a"));
    let hi = vec![ex(ExprKind::CharLit(0x80))];
    assert!(try_fold("char_to_string", &hi).is_none());
}

#[test]
fn string_intrinsics() {
    let s = |t: &str| ex(ExprKind::Str(t.to_string()));
    assert!(matches!(try_fold("str_len", &[s("héllo")]), Some(ExprKind::Int(6))));
    assert!(matches!(try_fold("str_concat", &[s("n = "), s("3")]), Some(ExprKind::Str(r)) if r == "n = 3"));
    assert!(matches!(try_fold("str_eq", &[s("a"), s("a")]), Some(ExprKind::Bool(true))));
    assert!(matches!(try_fold("str_lt", &[s("ab"), s("b")]), Some(ExprKind::Bool(true))));
    assert!(matches!(try_fold("str_lt", &[s("b"), s("b")]), Some(ExprKind::Bool(false))));
}

#[test]
fn bit_operations() {
    assert!(matches!(try_fold("i64_and", &ints(&[6, 3])), Some(ExprKind::Int(2))));
    assert!(matches!(try_fold("i64_or", &ints(&[6, 3])), Some(ExprKind::Int(7))));
    assert!(matches!(try_fold("i64_xor", &ints(&[6, 3])), Some(ExprKind::Int(5))));
    assert!(matches!(try_fold("i64_not", &ints(&[0])), Some(ExprKind::Int(-1))));
    assert!(matches!(try_fold("i64_shl", &ints(&[1, 4])), Some(ExprKind::Int(16))));
}

#[test]
fn non_literal_arguments_do_not_fold() {
    let args = vec![ex(ExprKind::Ident("x".to_string())), ex(ExprKind::Int(1))];
    assert!(try_fold("i64_add", &args).is_none());
    assert!(try_fold("print_string", &[ex(ExprKind::Str("x".to_string()))]).is_none());
}

use jimc::ast::{Program, Stmt, StmtKind};
use jimc::parser::parse_source;
use jimc::opt::optimize;

fn program(src: &str) -> Program {
    let m = parse_source(src, 0, false).expect("parses");
    Program { functions: m.functions, classes: m.classes }
}

fn returned(st: &Stmt) -> &ExprKind {
    match &st.kind {
        StmtKind::Return(Some(e)) => &e.kind,
        other => panic!("not a return: {:?}", other),
    }
}

#[test]
fn forwarder_calls_are_inlined_and_folded() {
    let mut p = program(
        "function add(a: Integer, b: Integer) -> Integer { return @i64_add(a, b); }\n\
         function main() -> Integer { return add(2, 3); }",
    );
    optimize(&mut p);
    assert!(matches!(returned(&p.functions[1].body.stmts[0]), ExprKind::Int(5)));
    // the forwarder's own body has no literals and stays a call
    assert!(matches!(returned(&p.functions[0].body.stmts[0]), ExprKind::IntrinsicCall { name, .. } if name == "i64_add"));
}

#[test]
fn overflowing_calls_are_inlined_but_not_folded() {
    let mut p = program(
        "function add(a: Integer, b: Integer) -> Integer { return @i64_add(a, b); }\n\
         function main() -> Integer { return add(9223372036854775807, 1); }",
    );
    optimize(&mut p);
    match returned(&p.functions[1].body.stmts[0]) {
        ExprKind::IntrinsicCall { name, args } => {
            assert_eq!(name, "i64_add");
            assert_eq!(args.len(), 2);
        }
        other => panic!("unexpected {:?}", other),
    }
}

#[test]
fn non_forwarders_and_panic_wrappers_stay_calls() {
    let mut p = program(
        "function twice(a: Integer) -> Integer { return @i64_add(a, a); }\n\
         function boom(m: String) -> None { @panic(m); }\n\
         function main() -> Integer { boom(\"x\"); return twice(2); }",
    );
    optimize(&mut p);
    let body = &p.functions[2].body.stmts;
    assert!(matches!(&body[0].kind, StmtKind::ExprStmt(e) if matches!(&e.kind, ExprKind::Call { name, .. } if name == "boom")));
    assert!(matches!(returned(&body[1]), ExprKind::Call { name, .. } if name == "twice"));
}

#[test]
fn nested_literals_fold_bottom_up_and_keep_positions() {
    let mut p = program(
        "function main() -> Integer { return @i64_mul(@i64_add(1, 2), @i64_sub(10, 4)); }",
    );
    optimize(&mut p);
    let st = &p.functions[0].body.stmts[0];
    match &st.kind {
        StmtKind::Return(Some(e)) => {
            assert!(matches!(e.kind, ExprKind::Int(18)));
            assert_eq!((e.line, e.col), (1, 37));
        }
        other => panic!("unexpected {:?}", other),
    }
}

#[test]
fn method_forwarders_inline_core_method_calls() {
    let mut p = program(
        "class Integer { public plus(other: Integer) -> Integer { return @i64_add(this, other); } }\n\
         function main() -> Integer { return 0; }",
    );
    let call = ex(ExprKind::CoreMethodCall {
        class: "Integer".to_string(),
        name: "plus".to_string(),
        recv: Box::new(ex(ExprKind::Int(40))),
        args: vec![ex(ExprKind::Int(2))],
    });
    p.functions[0].body.stmts[0] = Stmt { kind: StmtKind::Return(Some(call)), line: 1, col: 1 };
    optimize(&mut p);
    assert!(matches!(returned(&p.functions[0].body.stmts[0]), ExprKind::Int(42)));
}
