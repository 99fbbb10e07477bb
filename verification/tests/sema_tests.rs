use jimc::ast::Type;
use jimc::sema::{class_key, contains_pointer, intrinsic_sig, opt_payload, subst_type, unify, Env};

fn generic(n: &str, p: Type) -> Type {
    Type::Generic(n.to_string(), Box::new(p))
}

#[test]
fn type_display() {
    assert_eq!(Type::named("Integer").display(), "Integer");
    assert_eq!(generic("Vector", Type::named("Float")).display(), "Vector<Float>");
    assert_eq!(Type::Pointer(Box::new(Type::named("Char"))).display(), "*Char");
    assert_eq!(Type::Optional(Box::new(Type::named("String"))).display(), "String?");
}

#[test]
fn class_keys_are_the_displayed_type() {
    assert_eq!(class_key(&Type::named("Shape")), Some("Shape".to_string()));
    let v = generic("Vector", Type::named("Integer"));
    assert_eq!(class_key(&v), Some(v.display()));
    assert_eq!(class_key(&Type::Pointer(Box::new(Type::named("Integer")))), None);
}

#[test]
fn optional_payloads_and_pointers() {
    let o = Type::Optional(Box::new(Type::named("Integer")));
    assert_eq!(opt_payload(&o).map(|t| t.display()), Some("Integer".to_string()));
    assert!(opt_payload(&Type::named("Integer")).is_none());
    assert!(contains_pointer(&generic("Vector", Type::Pointer(Box::new(Type::named("Integer"))))));
    assert!(!contains_pointer(&generic("Vector", Type::named("Integer"))));
}

#[test]
fn unify_binds_type_parameters() {
    let tparams = vec!["T".to_string()];
    let mut b: Vec<(String, Type)> = Vec::new();
    let pat = generic("Vector", Type::named("T"));
    let got = generic("Vector", Type::named("Float"));
    assert!(unify(&pat, &got, &tparams, &mut b));
    assert_eq!(b.len(), 1);
    assert_eq!(b[0].0, "T");
    assert_eq!(b[0].1.display(), "Float");
    // a second use must agree with the binding
    assert!(unify(&Type::named("T"), &Type::named("Float"), &tparams, &mut b));
    assert!(!unify(&Type::named("T"), &Type::named("Integer"), &tparams, &mut b));
    assert!(!unify(&Type::named("Integer"), &Type::named("Float"), &tparams, &mut b));
    assert_eq!(subst_type(&generic("Vector", Type::named("T")), &b).display(), "Vector<Float>");
}

#[test]
fn environment_scopes() {
    let mut env = Env::new();
    assert!(env.declare("x", Type::named("Integer"), false));
    assert!(!env.declare("x", Type::named("Float"), false));
    env.push();
    assert!(env.declare("x", Type::named("Float"), true));
    let (t, c) = env.lookup("x").unwrap();
    assert_eq!(t.display(), "Float");
    assert!(c);
    assert_eq!(env.lookup_depth("x"), Some(1));
    env.pop();
    let (t, c) = env.lookup("x").unwrap();
    assert_eq!(t.display(), "Integer");
    assert!(!c);
    assert!(env.lookup("y").is_none());
}

#[test]
fn intrinsic_signatures() {
    let (params, ret) = intrinsic_sig("i64_add").unwrap();
    assert_eq!(params.len(), 2);
    assert_eq!(params[0].display(), "Integer");
    assert_eq!(ret.display(), "Integer");
    let (params, ret) = intrinsic_sig("str_len").unwrap();
    assert_eq!(params.len(), 1);
    assert_eq!(params[0].display(), "String");
    assert_eq!(ret.display(), "Integer");
    assert!(intrinsic_sig("no_such_intrinsic").is_none());
}
