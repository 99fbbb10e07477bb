use jimc::generic_calls::{
    cannot_infer_message, check_generic_arity, explicit_bindings, final_arg, infer_mismatch, instance_key,
    ordered_bindings, unbound_params,
};
use jimc::ast::{AssignOp, BinOp, Block, Expr, ExprKind, FieldDecl, Param, Stmt, StmtKind, Type, UnOp};
use jimc::calls::{
    check_compound_target, check_condition, comparison_call, container_protocol, context_ctor, core_call,
    declare_var, desugar_augmented, logic_operand, method_params, none_for, none_side, none_test,
    not_operand, deref_operand, operands_binary, resolve_field, to_float, var_assign, widen, buf_alloc_elem,
    check_declared_type, Origin,
};
use jimc::headers::{check_field, check_fn_result, check_fn_returns, check_method_result, check_method_returns, params_env};
use jimc::leaves::{call_target, intrinsic_arg, intrinsic_target, lower_leaf, type_args_message, CallTarget, FuncSig};
use jimc::sema::Env;
use jimc::stmt_rules::{check_catch_type, check_jump, check_return, for_in_hidden_names, for_in_loop, inc_dec_assign};
use jimc::typing::{ClassInfo, ClassKind, FieldInfo, MethodSig};

fn named(n: &str) -> Type {
    Type::named(n)
}

fn ex(kind: ExprKind) -> Expr {
    Expr { kind, line: 2, col: 5 }
}

fn lit(v: i64) -> Expr {
    ex(ExprKind::Int(v))
}

fn ident(n: &str) -> Expr {
    ex(ExprKind::Ident(n.to_string()))
}

fn sig(params: Vec<Type>, ret: Type, is_public: bool) -> MethodSig {
    MethodSig { params, ret, is_public }
}

fn value_class(methods: Vec<(&str, MethodSig)>) -> ClassInfo {
    ClassInfo {
        methods: methods.into_iter().map(|(n, s)| (n.to_string(), s)).collect(),
        fields: vec![],
        ctor_params: vec![],
        kind: ClassKind::CoreValue,
    }
}

/// A small class table: Integer and Float with arithmetic and comparisons,
/// Bool, a user class Point with a private method and a private field, and
/// the containers Array<Integer> and Vector<Integer>.
fn table() -> Vec<(String, ClassInfo)> {
    let i = || named("Integer");
    let f = || named("Float");
    let b = || named("Bool");
    vec![
        (
            "Integer".to_string(),
            value_class(vec![
                ("plus", sig(vec![i()], i(), true)),
                ("divide", sig(vec![i()], i(), true)),
                ("equals", sig(vec![i()], b(), true)),
                ("less_than", sig(vec![i()], b(), true)),
                ("to_float", sig(vec![], f(), true)),
            ]),
        ),
        (
            "Float".to_string(),
            value_class(vec![
                ("plus", sig(vec![f()], f(), true)),
                ("less_than", sig(vec![f()], i(), true)),
            ]),
        ),
        ("Bool".to_string(), value_class(vec![])),
        (
            "Point".to_string(),
            ClassInfo {
                methods: vec![("secret".to_string(), sig(vec![], i(), false)), ("norm".to_string(), sig(vec![i(), i()], i(), true))],
                fields: vec![
                    ("x".to_string(), FieldInfo { ty: i(), is_public: true }),
                    ("hidden".to_string(), FieldInfo { ty: i(), is_public: false }),
                ],
                ctor_params: vec![i(), i()],
                kind: ClassKind::UserRef,
            },
        ),
        (
            "Array<Integer>".to_string(),
            ClassInfo {
                methods: vec![("set".to_string(), sig(vec![i(), i()], named("None"), true))],
                fields: vec![],
                ctor_params: vec![i()],
                kind: ClassKind::Container,
            },
        ),
        (
            "Vector<Integer>".to_string(),
            ClassInfo {
                methods: vec![("push".to_string(), sig(vec![f()], named("None"), true))],
                fields: vec![],
                ctor_params: vec![],
                kind: ClassKind::Container,
            },
        ),
    ]
}

fn op(sym: &str) -> Origin {
    Origin::Operator(format!("operator '{}'", sym))
}

fn err_msg<T>(r: Result<T, jimc::errors::JimError>) -> (String, u32, u32) {
    match r {
        Err(e) => (e.msg, e.line, e.col),
        Ok(_) => panic!("expected an error"),
    }
}

#[test]
fn core_call_resolves_a_method() {
    let t = table();
    let (call, ret) = core_call(&t, &None, &named("Integer"), "plus", lit(1), vec![(lit(2), named("Integer"))], 7, 8, &op("+")).ok().unwrap();
    assert_eq!(ret.display(), "Integer");
    match call.kind {
        ExprKind::CoreMethodCall { class, name, args, .. } => {
            assert_eq!(class, "Integer");
            assert_eq!(name, "plus");
            assert_eq!(args.len(), 1);
        }
        _ => panic!("expected a core method call"),
    }
    assert_eq!((call.line, call.col), (7, 8));
}

#[test]
fn core_call_errors_name_the_problem() {
    let t = table();
    let e = err_msg(core_call(&t, &None, &Type::Pointer(Box::new(named("Integer"))), "plus", lit(1), vec![], 1, 1, &op("+")));
    assert_eq!(e.0, "operator '+' cannot be applied to *Integer");
    let e = err_msg(core_call(&t, &None, &Type::Pointer(Box::new(named("Integer"))), "plus", lit(1), vec![], 1, 1, &Origin::Plain));
    assert_eq!(e.0, "type *Integer has no methods");
    let e = err_msg(core_call(&t, &None, &named("String"), "plus", lit(1), vec![], 1, 1, &op("+")));
    assert_eq!(e.0, "operator '+' needs String.plus(), but class 'String' is not defined (is core.j loaded?)");
    let e = err_msg(core_call(&t, &None, &named("String"), "size", lit(1), vec![], 1, 1, &Origin::Plain));
    assert_eq!(e.0, "type String has no method 'size' (class 'String' is not defined \u{e2}\u{20ac}\u{201d} is core.j loaded?)");
    let e = err_msg(core_call(&t, &None, &named("Integer"), "minus", lit(1), vec![], 1, 1, &op("-")));
    assert_eq!(e.0, "operator '-' needs Integer.minus(), but class 'Integer' has no method 'minus'");
    let e = err_msg(core_call(&t, &None, &named("Integer"), "minus", lit(1), vec![], 1, 1, &Origin::Plain));
    assert_eq!(e.0, "class 'Integer' has no method 'minus'");
    let e = err_msg(core_call(&t, &None, &named("Point"), "secret", ident("p"), vec![], 1, 1, &Origin::Plain));
    assert_eq!(e.0, "method 'secret' of class 'Point' is private");
    assert!(core_call(&t, &Some("Point".to_string()), &named("Point"), "secret", ident("p"), vec![], 1, 1, &Origin::Plain).is_ok());
    let e = err_msg(core_call(&t, &None, &named("Integer"), "plus", lit(1), vec![], 1, 1, &op("+")));
    assert_eq!(e.0, "operator '+' calls Integer.plus with 0 argument(s), but it is declared with 1 parameter(s)");
    let e = err_msg(core_call(&t, &None, &named("Point"), "norm", ident("p"), vec![(lit(1), named("Integer"))], 1, 1, &Origin::Plain));
    assert_eq!(e.0, "method 'Point.norm' expects 2 argument(s), got 1");
    let e = err_msg(core_call(&t, &None, &named("Integer"), "plus", lit(1), vec![(ex(ExprKind::Bool(true)), named("Bool"))], 1, 1, &op("+")));
    assert_eq!(e, ("operator '+': Integer.plus expects Integer, found Bool".to_string(), 2, 5));
    let e = err_msg(core_call(&t, &None, &named("Integer"), "plus", lit(1), vec![(ex(ExprKind::Bool(true)), named("Bool"))], 1, 1, &Origin::Plain));
    assert_eq!(e.0, "argument type mismatch in 'Integer.plus': expected Integer, found Bool");
}

#[test]
fn core_call_coerces_arguments() {
    let t = table();
    let opt_int = Type::Optional(Box::new(named("Integer")));
    let (call, _) = core_call(&t, &None, &named("Integer"), "plus", lit(1), vec![(ident("o"), opt_int)], 1, 1, &op("+")).ok().unwrap();
    match call.kind {
        ExprKind::CoreMethodCall { args, .. } => assert!(matches!(args[0].kind, ExprKind::OptUnwrap { .. })),
        _ => panic!("expected a core method call"),
    }
}

#[test]
fn comparisons_go_through_equals_and_less_than() {
    let t = table();
    let (e, ty) = comparison_call(&t, &None, "!=", "equals", (lit(1), named("Integer")), (lit(2), named("Integer")), true, 4, 4).ok().unwrap();
    assert_eq!(ty.display(), "Bool");
    assert!(matches!(e.kind, ExprKind::Unary { op: UnOp::Not, .. }));
    let e = err_msg(comparison_call(&t, &None, "<", "less_than", (lit(1), named("Float")), (lit(2), named("Float")), false, 4, 4));
    assert_eq!(e.0, "'Float.less_than' must return Bool to back operator '<' (it returns Integer)");
    let opt_int = Type::Optional(Box::new(named("Integer")));
    let e = err_msg(comparison_call(&t, &None, "<", "less_than", (lit(1), opt_int), (lit(2), named("Integer")), false, 4, 4));
    assert_eq!(e.0, "operator '<' cannot be applied to Integer?");
}

#[test]
fn mixed_arithmetic_widens_the_integer() {
    let t = table();
    let ((l, lt), (_, rt)) = widen(&t, &None, (lit(1), named("Integer")), (ex(ExprKind::Float("2.5".to_string())), named("Float"))).ok().unwrap();
    assert_eq!((lt.display(), rt.display()), ("Float".to_string(), "Float".to_string()));
    assert!(matches!(l.kind, ExprKind::CoreMethodCall { .. }));
    let (_, ty) = to_float(&t, &None, (lit(1), named("Integer"))).ok().unwrap();
    assert_eq!(ty.display(), "Float");
    let e = err_msg(to_float(&t, &None, (ex(ExprKind::Bool(true)), named("Bool"))));
    assert_eq!(e.0, "mixed Integer/Float arithmetic needs Bool.to_float(), but class 'Bool' has no method 'to_float'");
    let (_, ty) = operands_binary(&t, &None, BinOp::Add, (lit(1), named("Integer")), (ex(ExprKind::Float("2.5".to_string())), named("Float")), 1, 1).ok().unwrap();
    assert_eq!(ty.display(), "Float");
}

#[test]
fn binary_operators_pick_their_methods() {
    let t = table();
    let (e, ty) = operands_binary(&t, &None, BinOp::Gt, (lit(1), named("Integer")), (lit(2), named("Integer")), 1, 1).ok().unwrap();
    assert_eq!(ty.display(), "Bool");
    match e.kind {
        ExprKind::CoreMethodCall { name, recv, .. } => {
            assert_eq!(name, "less_than");
            assert!(matches!(recv.kind, ExprKind::Int(2)));
        }
        _ => panic!("expected a call of less_than"),
    }
    let e = err_msg(operands_binary(&t, &None, BinOp::Mod, (lit(1), named("Integer")), (lit(2), named("Integer")), 3, 3));
    assert_eq!(e.0, "operator '%' needs Integer.mod(), but class 'Integer' has no method 'mod'");
}

#[test]
fn logic_and_none_tests() {
    assert!(logic_operand("and", (ex(ExprKind::Bool(true)), named("Bool"))).is_ok());
    let e = err_msg(logic_operand("or", (lit(1), named("Integer"))));
    assert_eq!(e, ("'or' needs Bool operands, found Integer".to_string(), 2, 5));
    let none = ex(ExprKind::NoneLit);
    let e = err_msg(none_side(BinOp::Eq, &none, &none, 9, 9));
    assert_eq!(e, ("cannot compare None with None".to_string(), 9, 9));
    assert_eq!(none_side(BinOp::Eq, &none, &lit(1), 9, 9).ok().unwrap(), Some(true));
    assert_eq!(none_side(BinOp::NotEq, &lit(1), &none, 9, 9).ok().unwrap(), Some(false));
    assert_eq!(none_side(BinOp::Lt, &none, &none, 9, 9).ok().unwrap(), None);
    let opt_int = Type::Optional(Box::new(named("Integer")));
    let (e, _) = none_test(BinOp::NotEq, (ident("o"), opt_int), 1, 1).ok().unwrap();
    assert!(matches!(e.kind, ExprKind::OptHas { .. }));
    let e = err_msg(none_test(BinOp::Eq, (ident("o"), named("Integer")), 1, 1));
    assert_eq!(e.0, "only optional values (T?) can be compared with None \u{e2}\u{20ac}\u{201d} this is Integer");
    let e = err_msg(not_operand((lit(1), named("Integer")), 1, 1));
    assert_eq!(e.0, "'not' needs a Bool operand, found Integer");
    let e = err_msg(deref_operand((lit(1), named("Integer")), 1, 1));
    assert_eq!(e.0, "'*' needs a pointer, found Integer");
    let (_, ty) = deref_operand((ident("p"), Type::Pointer(Box::new(named("Float")))), 1, 1).ok().unwrap();
    assert_eq!(ty.display(), "Float");
    let e = err_msg(check_condition("while", (lit(1), named("Integer"))));
    assert_eq!(e.0, "while condition must be Bool, found Integer");
}

#[test]
fn fields_resolve_with_privacy() {
    let t = table();
    let (c, ty) = resolve_field(&t, &None, &named("Point"), "x", 1, 1).ok().unwrap();
    assert_eq!((c, ty.display()), ("Point".to_string(), "Integer".to_string()));
    assert_eq!(err_msg(resolve_field(&t, &None, &named("Point"), "hidden", 1, 1)).0, "field 'hidden' of class 'Point' is private");
    assert!(resolve_field(&t, &Some("Point".to_string()), &named("Point"), "hidden", 1, 1).is_ok());
    assert_eq!(err_msg(resolve_field(&t, &None, &named("Point"), "y", 1, 1)).0, "class 'Point' has no field 'y'");
    assert_eq!(err_msg(resolve_field(&t, &None, &named("Shape"), "y", 1, 1)).0, "type Shape has no fields");
    assert_eq!(err_msg(resolve_field(&t, &None, &Type::Pointer(Box::new(named("Point"))), "x", 1, 1)).0, "type *Point has no fields");
}

#[test]
fn augmented_assignment_desugars() {
    let t = table();
    let k = desugar_augmented(&t, &None, "'x'", ident("x"), &named("Integer"), "plus", "+=", (lit(1), named("Integer")), 1, 1).ok().unwrap();
    assert!(matches!(k, StmtKind::Assign { op: AssignOp::Plain, .. }));
    let e = err_msg(desugar_augmented(&t, &None, "'x'", ident("x"), &named("Integer"), "plus", "+=", (ex(ExprKind::Float("1.5".to_string())), named("Float")), 1, 1));
    assert_eq!(e.0, "operator '+=': result is Float but 'x' is Integer (the target's type cannot change)");
}

#[test]
fn context_typed_forms() {
    let t = table();
    let (e, _) = (none_for(&Type::Optional(Box::new(named("Integer"))), 1, 2).ok().unwrap(), ());
    assert!(matches!(e.kind, ExprKind::OptNone { .. }));
    assert_eq!(err_msg(none_for(&named("Integer"), 1, 2)).0, "'None' only fits optional types (T?), but Integer is expected here");
    assert_eq!(container_protocol(&t, "Array", &named("Integer"), 1, 1).ok().unwrap(), ("Array<Integer>".to_string(), true));
    assert_eq!(err_msg(container_protocol(&t, "Vector", &named("Integer"), 1, 1)).0, "vector literals need Vector<T> to declare 'push(value: T)' in core.j");
    assert_eq!(err_msg(container_protocol(&t, "Array", &named("Float"), 1, 1)).0, "Array<T> is not defined (is core.j loaded?)");
    let want = Type::Generic("Array".to_string(), Box::new(named("Integer")));
    let (key, ps) = context_ctor(&t, "Array", &want, 1, 1, 1).ok().unwrap();
    assert_eq!((key, ps.len()), ("Array<Integer>".to_string(), 1));
    assert_eq!(err_msg(context_ctor(&t, "Array", &want, 0, 1, 1)).0, "constructor 'Array<Integer>' expects 1 argument(s), got 0");
    let raw = Type::Generic("RawBuffer".to_string(), Box::new(named("Integer")));
    assert_eq!(buf_alloc_elem(true, false, &raw, 1, 1, 1).ok().unwrap().display(), "Integer");
    assert_eq!(err_msg(buf_alloc_elem(false, false, &raw, 1, 1, 1)).0, "'@buf_alloc' \u{e2}\u{20ac}\u{201d} intrinsics are only allowed in the standard library (or with --allow-intrinsics)");
    assert_eq!(err_msg(buf_alloc_elem(true, false, &named("Integer"), 1, 1, 1)).0, "'@buf_alloc' creates a RawBuffer<T>, but Integer is expected here");
    assert_eq!(err_msg(buf_alloc_elem(true, false, &raw, 2, 1, 1)).0, "'@buf_alloc' expects exactly 1 argument (the capacity)");
    assert_eq!(method_params(&t, &named("Point"), "norm").unwrap().len(), 2);
    assert!(method_params(&t, &named("Point"), "nope").is_none());
}

#[test]
fn assignments_to_variables() {
    let mut env = Env::new();
    assert!(declare_var(&mut env, "p", Type::Pointer(Box::new(named("Integer"))), false, 1, 1).is_ok());
    assert_eq!(err_msg(declare_var(&mut env, "p", named("Integer"), false, 3, 3)), ("'p' is already declared in this scope".to_string(), 3, 3));
    assert!(declare_var(&mut env, "k", named("Integer"), true, 1, 1).is_ok());
    env.push();
    assert!(declare_var(&mut env, "y", named("Integer"), false, 1, 1).is_ok());
    let addr_y = ex(ExprKind::Unary { op: UnOp::AddrOf, operand: Box::new(ident("y")) });
    assert_eq!(
        err_msg(var_assign(&env, "p", &addr_y, 6, 7, 6, 1)),
        ("cannot store a pointer to 'y' in 'p': 'y' lives in an inner scope and dies first".to_string(), 6, 7)
    );
    assert_eq!(err_msg(var_assign(&env, "k", &lit(1), 6, 7, 6, 1)), ("cannot assign to constant 'k'".to_string(), 6, 1));
    assert_eq!(err_msg(var_assign(&env, "z", &lit(1), 6, 7, 6, 1)).0, "unknown variable 'z'");
    assert_eq!(var_assign(&env, "y", &lit(1), 6, 7, 6, 1).ok().unwrap().display(), "Integer");
    assert_eq!(err_msg(check_declared_type(&vec!["Integer".to_string()], "q", &named("Shape"), 1, 1)).0.starts_with("in declaration of 'q': "), true);
}

#[test]
fn compound_targets_must_be_simple() {
    let call = ex(ExprKind::Call { name: "f".to_string(), args: vec![] });
    let idx = ex(ExprKind::Index { recv: Box::new(call), index: Box::new(lit(0)) });
    assert_eq!(err_msg(check_compound_target(AssignOp::Add, &idx, 1, 1)).0, "compound assignment to an index needs a simple receiver and index (e.g. 'v[i] += x')");
    assert!(check_compound_target(AssignOp::Plain, &idx, 1, 1).is_ok());
    let good = ex(ExprKind::Index { recv: Box::new(ident("v")), index: Box::new(ident("i")) });
    assert!(check_compound_target(AssignOp::Sub, &good, 1, 1).is_ok());
    let deref = ex(ExprKind::Unary { op: UnOp::Deref, operand: Box::new(ex(ExprKind::This)) });
    assert_eq!(err_msg(check_compound_target(AssignOp::Mul, &deref, 1, 1)).0, "compound assignment through a pointer needs a simple pointer variable ('*p += v')");
}

fn param(n: &str, t: Type) -> Param {
    Param { name: n.to_string(), ty: t, line: 4, col: 9 }
}

#[test]
fn headers_and_returns() {
    let known = vec!["Integer".to_string(), "None".to_string(), "Bool".to_string()];
    let env = params_env(&known, &vec![param("a", named("Integer")), param("b", named("Bool"))]).ok().unwrap();
    assert_eq!(env.lookup("b").unwrap().0.display(), "Bool");
    assert_eq!(err_msg(params_env(&known, &vec![param("a", named("Integer")), param("a", named("Bool"))])), ("duplicate parameter 'a'".to_string(), 4, 9));
    assert!(err_msg(params_env(&known, &vec![param("a", named("Shape"))])).0.starts_with("in parameter 'a': "));
    let ptr = Type::Pointer(Box::new(named("Integer")));
    assert_eq!(err_msg(check_fn_result(&known, "f", &ptr, 1, 1)).0, "function 'f' cannot return a pointer (a pointer to a local would dangle after the call)");
    assert_eq!(err_msg(check_method_result(&known, "P", "m", &ptr, 1, 1)).0, "method 'P.m' cannot return a pointer (a pointer to a local would dangle after the call)");
    let field = FieldDecl { is_public: true, name: "p".to_string(), ty: ptr, default: lit(0), line: 2, col: 3 };
    assert_eq!(err_msg(check_field(&known, &field)), ("field 'p' cannot hold a pointer (the pointed-to variable may die before the object)".to_string(), 2, 3));
    let empty = Block { stmts: vec![] };
    assert_eq!(err_msg(check_fn_returns("f", &named("Integer"), &empty, 1, 1)).0, "function 'f' may reach the end without returning Integer (every path must return)");
    assert!(check_fn_returns("main", &named("Integer"), &empty, 1, 1).is_ok());
    assert!(check_fn_returns("f", &Type::Optional(Box::new(named("Integer"))), &empty, 1, 1).is_ok());
    assert_eq!(err_msg(check_method_returns("P", "m", &named("Bool"), &empty, 1, 1)).0, "method 'P.m' may reach the end without returning Bool (every path must return)");
    let ret = Block { stmts: vec![Stmt { kind: StmtKind::Return(Some(lit(1))), line: 1, col: 1 }] };
    assert!(check_method_returns("P", "m", &named("Integer"), &ret, 1, 1).is_ok());
}

#[test]
fn statement_rules() {
    assert_eq!(err_msg(check_jump(true, 0, &vec![], 1, 1)).0, "'break' outside a loop");
    assert_eq!(err_msg(check_jump(false, 1, &vec![1], 1, 1)).0, "'continue' cannot leave a try block (milestone 9)");
    assert!(check_jump(true, 2, &vec![1], 1, 1).is_ok());
    assert_eq!(err_msg(check_return(true, "f", &named("Integer"), true, 1, 1)).0, "'return' inside a try block is not supported yet (the handler must unwind first \u{2014} milestone 9)");
    assert_eq!(err_msg(check_return(false, "f", &named("None"), true, 1, 1)).0, "'f' returns None and cannot return a value");
    assert_eq!(err_msg(check_return(false, "f", &Type::Optional(Box::new(named("Integer"))), false, 1, 1)).0, "'return;' without a value in 'f' which returns Integer? (use 'return None;' to return no value)");
    assert_eq!(err_msg(check_return(false, "f", &named("Integer"), false, 1, 1)).0, "'return;' without a value in 'f' which returns Integer");
    assert!(check_return(false, "f", &named("None"), false, 1, 1).is_ok());
    assert_eq!(err_msg(check_catch_type(&named("Error"), 1, 1)).0, "catch variables must be typed Exception, found Error");
    let s = inc_dec_assign(&ident("i"), false, 3, 4);
    match s.kind {
        StmtKind::Assign { op, value, .. } => {
            assert!(matches!(op, AssignOp::Sub));
            assert!(matches!(value.kind, ExprKind::Int(1)));
        }
        _ => panic!("expected an assignment"),
    }
    let (it, idx) = for_in_hidden_names(12, 7);
    assert_eq!((it.as_str(), idx.as_str()), ("__jim_it_12_7", "__jim_i_12_7"));
    let body = Block { stmts: vec![Stmt { kind: StmtKind::Break, line: 1, col: 1 }] };
    let lp = for_in_loop("x", &named("Integer"), &body, &it, &idx, 12, 7);
    match lp.kind {
        StmtKind::ForC { var_name, body, .. } => {
            assert_eq!(var_name, "__jim_i_12_7");
            assert_eq!(body.stmts.len(), 2);
            assert!(matches!(body.stmts[0].kind, StmtKind::VarDecl { .. }));
        }
        _ => panic!("expected a for loop"),
    }
}

#[test]
fn leaves_and_call_targets() {
    let t = table();
    let mut env = Env::new();
    env.declare("k", named("Integer"), true);
    let (_, ty) = lower_leaf(&env, &t, &None, &None, &ex(ExprKind::Str("s".to_string()))).unwrap().ok().unwrap();
    assert_eq!(ty.display(), "String");
    assert!(lower_leaf(&env, &t, &None, &None, &ex(ExprKind::Binary { op: BinOp::Add, lhs: Box::new(lit(1)), rhs: Box::new(lit(2)) })).is_none());
    assert_eq!(err_msg(lower_leaf(&env, &t, &Some("Point".to_string()), &None, &ident("x")).unwrap()).0, "unknown variable 'x' \u{e2}\u{20ac}\u{201d} member access must be written 'this.x'");
    assert_eq!(err_msg(lower_leaf(&env, &t, &None, &None, &ident("x")).unwrap()).0, "unknown variable 'x'");
    assert_eq!(err_msg(lower_leaf(&env, &t, &None, &None, &ex(ExprKind::This)).unwrap()).0, "'this' is only valid inside a class method");
    let addr_k = ex(ExprKind::Unary { op: UnOp::AddrOf, operand: Box::new(ident("k")) });
    assert_eq!(err_msg(lower_leaf(&env, &t, &None, &None, &addr_k).unwrap()).0, "cannot take the address of constant 'k' (writing through the pointer would mutate it)");
    let funcs = vec![("f".to_string(), FuncSig { params: vec![named("Integer")], ret: named("Bool") })];
    let templates = vec!["max".to_string()];
    assert!(matches!(call_target(&t, &funcs, &templates, "Point", 2, 1, 1).ok().unwrap(), CallTarget::New { .. }));
    assert!(matches!(call_target(&t, &funcs, &templates, "max", 1, 1, 1).ok().unwrap(), CallTarget::Generic));
    assert!(matches!(call_target(&t, &funcs, &templates, "f", 1, 1, 1).ok().unwrap(), CallTarget::Plain { .. }));
    assert_eq!(err_msg(call_target(&t, &funcs, &templates, "Integer", 0, 1, 1)).0, "class 'Integer' has no constructor (it is a value class)");
    assert_eq!(err_msg(call_target(&t, &funcs, &templates, "f", 0, 1, 1)).0, "function 'f' expects 1 argument(s), got 0");
    assert_eq!(err_msg(call_target(&t, &funcs, &templates, "g", 0, 1, 1)).0, "unknown function 'g'");
    assert_eq!(err_msg(call_target(&t, &funcs, &templates, "Vector", 0, 1, 1)).0, "Vector(...) is generic \u{2014} construction takes its type from context, e.g. 'var a: Vector<Integer> = Vector(...);'");
    let (ps, ret) = intrinsic_target(true, false, "i64_add", 2, 1, 1).ok().unwrap();
    assert_eq!((ps.len(), ret.display()), (2, "Integer".to_string()));
    assert_eq!(err_msg(intrinsic_target(true, false, "nope", 2, 1, 1)).0, "unknown intrinsic '@nope'");
    assert_eq!(err_msg(intrinsic_target(false, false, "i64_add", 2, 1, 1)).0, "'@i64_add' \u{e2}\u{20ac}\u{201d} intrinsics are only allowed in the standard library (or with --allow-intrinsics)");
    assert_eq!(err_msg(intrinsic_target(true, true, "i64_add", 1, 1, 1)).0, "'@i64_add' expects 2 argument(s), got 1");
    assert_eq!(err_msg(intrinsic_arg("i64_add", &named("Integer"), (ex(ExprKind::Bool(true)), named("Bool")))).0, "argument type mismatch in '@i64_add': expected Integer, found Bool");
    assert_eq!(type_args_message(&funcs, &t, &vec![], &env, "f"), "function 'f' is not generic \u{2014} remove the explicit type arguments");
    assert_eq!(type_args_message(&funcs, &t, &vec![], &env, "k"), "'k' is a variable, not a generic function \u{2014} if you meant comparisons, parenthesize them: '(a < b), (c > d)'");
}

#[test]
fn generic_call_steps() {
    let known = vec!["Integer".to_string(), "Float".to_string()];
    let tps = vec!["T".to_string(), "U".to_string()];
    assert_eq!(err_msg(check_generic_arity("max", 1, 2, 1, 1)).0, "function 'max' expects 1 argument(s), got 2");
    assert!(check_generic_arity("max", 2, 2, 1, 1).is_ok());
    assert_eq!(
        err_msg(explicit_bindings(&known, "pick", &tps, &vec![named("Integer")], 1, 1)).0,
        "function 'pick' takes 2 type argument(s) (<T, U>), got 1"
    );
    assert_eq!(
        err_msg(explicit_bindings(&known, "pick", &tps, &vec![named("Integer"), named("Shape")], 1, 1)).0.starts_with("in type argument for 'U': "),
        true
    );
    let b = explicit_bindings(&known, "pick", &tps, &vec![named("Integer"), named("Float")], 1, 1).ok().unwrap();
    assert_eq!(b.len(), 2);
    assert_eq!(unbound_params(&tps, &vec![("U".to_string(), named("Float"))]), vec!["T".to_string()]);
    assert_eq!(
        cannot_infer_message("pick", &vec!["T".to_string()]),
        "cannot infer type parameter T of 'pick' \u{2014} annotate the target ('var x: Type = pick(...);') or pass explicit type arguments ('pick<...>(...)') "
    );
    assert_eq!(
        cannot_infer_message("pick", &tps),
        "cannot infer type parameters T, U of 'pick' \u{2014} annotate the target ('var x: Type = pick(...);') or pass explicit type arguments ('pick<...>(...)') "
    );
    let unordered = vec![("U".to_string(), named("Float")), ("T".to_string(), Type::Generic("Vector".to_string(), Box::new(named("Float"))))];
    let ordered = ordered_bindings(&tps, &unordered);
    assert_eq!(ordered[0].0, "T");
    assert_eq!(instance_key("max", &ordered), "max<Vector<Float>,Float>");
    let e = infer_mismatch("max", &Type::Generic("Vector".to_string(), Box::new(named("T"))), &(lit(1), named("Integer")));
    assert_eq!((e.msg.as_str(), e.line), ("cannot infer the type parameters of 'max': the parameter is declared Vector<T> but the argument is Integer", 2));
    assert_eq!(err_msg(final_arg("max", &named("Float"), (lit(1), named("Integer")))).0, "argument type mismatch in call to 'max': expected Float, found Integer");
    assert!(final_arg("max", &named("Integer"), (lit(1), named("Integer"))).is_ok());
}

#[test]
fn function_table_splits_plain_and_generic() {
    let m = jimc::parser::parse_source(
        "function f(a: Integer, b: Float) -> Bool { return true; }\nfunction max<T>(x: T) -> T { return x; }",
        0,
        false,
    )
    .ok()
    .unwrap();
    let (table, templates) = jimc::leaves::function_table(&m.functions);
    assert_eq!(table.len(), 1);
    assert_eq!(table[0].0, "f");
    assert_eq!(table[0].1.params.len(), 2);
    assert_eq!(table[0].1.ret.display(), "Bool");
    assert_eq!(templates, vec!["max".to_string()]);
}

fn return_expr(src: &str) -> Expr {
    let text = format!("function probe() -> None {{ return {}; }}", src);
    let mut m = jimc::parser::parse_source(&text, 0, false).ok().unwrap();
    let mut f = m.functions.remove(0);
    match f.body.stmts.remove(0).kind {
        StmtKind::Return(Some(e)) => e,
        _ => panic!("expected a return"),
    }
}

fn tables_with(fn_src: &str) -> jimc::lowering_spec::Tables {
    let m = jimc::parser::parse_source(fn_src, 0, false).ok().unwrap();
    let (funcs, _) = jimc::leaves::function_table(&m.functions);
    let fn_templates = m.functions.into_iter().filter(|f| !f.type_params.is_empty()).collect();
    jimc::lowering_spec::Tables {
        known: vec!["Integer".to_string(), "Float".to_string(), "Bool".to_string(), "None".to_string()],
        classes: table(),
        funcs,
        fn_templates,
        class_templates: vec!["Array".to_string(), "Vector".to_string()],
        allow_intrinsics: false,
    }
}

fn place(env: Env) -> jimc::lowering_spec::Place {
    jimc::lowering_spec::Place { env, current: None, this_ty: None, from_std: false }
}

#[test]
fn expressions_lower_to_method_calls() {
    let t = tables_with("function id<T>(x: T) -> T { return x; }\nfunction f(a: Integer) -> Bool { return true; }");
    let p = place(Env::new());
    let (e, ty, reqs) = jimc::lowering::lower_expr(&t, &p, &return_expr("1 + 2")).ok().unwrap();
    assert_eq!(ty.display(), "Integer");
    assert!(matches!(e.kind, ExprKind::CoreMethodCall { .. }));
    assert!(reqs.is_empty());
    let (_, ty, _) = jimc::lowering::lower_expr(&t, &p, &return_expr("1 + 2.5")).ok().unwrap();
    assert_eq!(ty.display(), "Float");
    let (_, ty, _) = jimc::lowering::lower_expr(&t, &p, &return_expr("f(3)")).ok().unwrap();
    assert_eq!(ty.display(), "Bool");
    let e = err_msg(jimc::lowering::lower_expr(&t, &p, &return_expr("f(true)")));
    assert_eq!(e.0, "argument type mismatch in call to 'f': expected Integer, found Bool");
    let e = err_msg(jimc::lowering::lower_expr(&t, &p, &return_expr("g(1)")));
    assert_eq!(e.0, "unknown function 'g'");
    let e = err_msg(jimc::lowering::lower_expr(&t, &p, &return_expr("1 and true")));
    assert_eq!(e.0, "'and' needs Bool operands, found Integer");
}

#[test]
fn generic_calls_name_their_instance() {
    let t = tables_with("function id<T>(x: T) -> T { return x; }");
    let p = place(Env::new());
    let (e, ty, reqs) = jimc::lowering::lower_expr(&t, &p, &return_expr("id(5)")).ok().unwrap();
    assert_eq!(ty.display(), "Integer");
    match e.kind {
        ExprKind::Call { name, .. } => assert_eq!(name, "id<Integer>"),
        _ => panic!("expected a call"),
    }
    assert_eq!(reqs.len(), 1);
    assert_eq!(reqs[0].key, "id<Integer>");
    assert_eq!(reqs[0].template, "id");
    let (_, ty, _) = jimc::lowering::lower_expr(&t, &p, &return_expr("id<Float>(1.5)")).ok().unwrap();
    assert_eq!(ty.display(), "Float");
    let e = err_msg(jimc::lowering::lower_expr(&t, &p, &return_expr("id<Float, Integer>(1.5)")));
    assert_eq!(e.0, "function 'id' takes 1 type argument(s) (<T>), got 2");
}

#[test]
fn expected_types_shape_values() {
    let t = tables_with("function id<T>(x: T) -> T { return x; }");
    let mut env = Env::new();
    env.declare("o", Type::Optional(Box::new(named("Integer"))), false);
    let p = place(env);
    let opt_int = Type::Optional(Box::new(named("Integer")));
    let (e, _) = jimc::lowering::expect(&t, &p, &return_expr("None"), &opt_int, &jimc::lowering::Mismatch::Index).ok().unwrap();
    assert!(matches!(e.kind, ExprKind::OptNone { .. }));
    let arr = Type::Generic("Array".to_string(), Box::new(named("Integer")));
    let (e, _) = jimc::lowering::expect(&t, &p, &return_expr("[1, 2]"), &arr, &jimc::lowering::Mismatch::Index).ok().unwrap();
    match e.kind {
        ExprKind::ContainerLit { class, is_array, elems } => {
            assert_eq!(class, "Array<Integer>");
            assert!(is_array);
            assert_eq!(elems.len(), 2);
        }
        _ => panic!("expected a container literal"),
    }
    let (e, ty, _) = jimc::lowering::lower_expr(&t, &p, &return_expr("o != None")).ok().unwrap();
    assert_eq!(ty.display(), "Bool");
    assert!(matches!(e.kind, ExprKind::OptHas { .. }));
    let e = err_msg(jimc::lowering::expect(&t, &p, &return_expr("true"), &named("Integer"), &jimc::lowering::Mismatch::Index));
    assert_eq!(e.0, "index must be Integer, found Bool");
    let (e, _) = jimc::lowering::expect(&t, &p, &return_expr("o"), &named("Integer"), &jimc::lowering::Mismatch::Index).ok().unwrap();
    assert!(matches!(e.kind, ExprKind::OptUnwrap { .. }));
}

#[test]
fn functions_type_check_their_bodies() {
    let src = "function id<T>(x: T) -> T { return x; }\n\
               function sum(v: Integer) -> Integer {\n  var total: Integer = 0;\n  for (i: Integer = 0; i < v; i++) { total += i; }\n  while (total > 100) { total = total + 1; }\n  return id(total);\n}\n\
               function bad(v: Integer) -> Integer { if (v > 0) { return 1; } }\n\
               function dup(v: Integer) -> None { var a: Integer = 1; var a: Integer = 2; }\n\
               function brk() -> None { break; }";
    let mut m = jimc::parser::parse_source(src, 0, false).ok().unwrap();
    let t = tables_with("function id<T>(x: T) -> T { return x; }");
    let brk = m.functions.pop().unwrap();
    let dup = m.functions.pop().unwrap();
    let bad = m.functions.pop().unwrap();
    let sum = m.functions.pop().unwrap();
    let (f, reqs) = match jimc::members::lower_function(&t, sum) { Ok(v) => v, Err(e) => panic!("{}", e.msg) };
    assert_eq!(f.name, "sum");
    assert_eq!(reqs.len(), 1);
    assert_eq!(reqs[0].key, "id<Integer>");
    let e = err_msg(jimc::members::lower_function(&t, bad));
    assert_eq!(e.0, "function 'bad' may reach the end without returning Integer (every path must return)");
    let e = err_msg(jimc::members::lower_function(&t, dup));
    assert_eq!(e.0, "'a' is already declared in this scope");
    let e = err_msg(jimc::members::lower_function(&t, brk));
    assert_eq!(e.0, "'break' outside a loop");
}

#[test]
fn for_in_loops_become_index_loops() {
    let src = "class Bag {\n  public length() -> Integer { return 0; }\n  public get(i: Integer) -> Integer { return i; }\n}\nfunction total(b: Bag) -> Integer {\n  var s: Integer = 0;\n  for (x: Integer in b) { s += x; }\n  return s;\n}";
    let mut m = jimc::parser::parse_source(src, 0, false).ok().unwrap();
    let mut t = tables_with("function id<T>(x: T) -> T { return x; }");
    let c = &m.classes[0];
    let info = jimc::typing::class_info_of(c, ClassKind::UserRef).ok().unwrap();
    t.classes.push(("Bag".to_string(), info));
    t.known.push("Bag".to_string());
    let f = m.functions.remove(0);
    let (f, _) = jimc::members::lower_function(&t, f).ok().unwrap();
    match &f.body.stmts[1].kind {
        StmtKind::Scope(b) => {
            assert_eq!(b.stmts.len(), 2);
            assert!(matches!(b.stmts[1].kind, StmtKind::ForC { .. }));
        }
        _ => panic!("expected the for-in loop as a scope"),
    }
    let (cls, _) = jimc::members::lower_class(&t, &m.classes[0], &named("Bag")).ok().unwrap();
    assert_eq!(cls.methods.len(), 2);
}
