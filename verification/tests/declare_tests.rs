use jimc::ast::Program;
use jimc::declare::check_declarations;
use jimc::parser::parse_source;

fn program(src: &str, from_std: bool) -> Program {
    let m = parse_source(src, 0, from_std).expect("parses");
    Program { functions: m.functions, classes: m.classes }
}

fn err(src: &str) -> (String, u32, u32) {
    let e = check_declarations(&program(src, false), false, true).err().expect("should fail");
    (e.err.msg, e.err.line, e.err.col)
}

#[test]
fn a_plain_program_passes() {
    let p = program("class P { public x: Integer = 0; }\nfunction main() -> Integer { return 0; }", false);
    let d = check_declarations(&p, false, true).ok().expect("passes");
    assert!(d.classes.iter().any(|(k, _)| k == "P"));
    assert!(d.mono.is_empty());
}

#[test]
fn function_rules() {
    assert_eq!(
        err("function f() -> None { }\nfunction f() -> None { }\nfunction main() -> Integer { return 0; }").0,
        "duplicate function 'f' (jim has no function overloading)"
    );
    assert_eq!(err("function main<T>() -> Integer { return 0; }").0, "'main' cannot be generic");
    assert_eq!(
        err("class f { }\nfunction f() -> None { }\nfunction main() -> Integer { return 0; }"),
        ("function 'f' collides with class 'f' (constructor calls use the class name)".to_string(), 2, 1)
    );
}

#[test]
fn class_rules() {
    assert_eq!(
        err("class Box<T> { }\nfunction main() -> Integer { return 0; }").0,
        "user generic classes are not supported (only the std Array<T>/Vector<T>)"
    );
    assert_eq!(
        err("class Integer { }\nfunction main() -> Integer { return 0; }").0,
        "class 'Integer' is a core class and can only be defined in the standard library"
    );
    assert_eq!(
        err("class Vector { }\nfunction main() -> Integer { return 0; }").0,
        "class Vector must take a type parameter: 'class Vector<T>'"
    );
    assert_eq!(
        err("class RawBuffer { }\nfunction main() -> Integer { return 0; }").0,
        "'RawBuffer' is provided by the compiler"
    );
    assert_eq!(
        err("class A { }\nclass A { }\nfunction main() -> Integer { return 0; }").0,
        "duplicate class 'A'"
    );
    assert_eq!(
        err("class A {\n  public f() -> None { }\n  public f() -> None { }\n}\nfunction main() -> Integer { return 0; }"),
        ("duplicate method 'f' in class 'A' (jim has no overloading)".to_string(), 3, 3)
    );
}

#[test]
fn template_rules() {
    assert_eq!(
        err("function id<Integer>(x: Integer) -> Integer { return x; }\nfunction main() -> Integer { return 0; }").0,
        "type parameter 'Integer' of 'id' shadows the type 'Integer'"
    );
    assert_eq!(
        err("function id<T>(x: U) -> T { return x; }\nfunction main() -> Integer { return 0; }").0,
        "in parameter 'x': unknown type 'U'"
    );
    assert_eq!(
        err("function id<T>(x: T) -> *T { return x; }\nfunction main() -> Integer { return 0; }").0,
        "function 'id' cannot return a pointer (a pointer to a local would dangle after the call)"
    );
}

#[test]
fn entry_point_rules() {
    assert_eq!(err("function f() -> None { }"), ("program has no entry point: 'function main() -> Integer'".to_string(), 1, 1));
    let p = program("function f() -> None { }", false);
    assert!(check_declarations(&p, false, false).is_ok());
    assert_eq!(
        err("function main(x: Integer) -> Integer { return 0; }").0,
        "main must be 'function main() -> Integer' or 'function main(argv: Array<String>) -> Integer'"
    );
    assert_eq!(
        err("function main(argv: Array<String>) -> Integer { return 0; }").0,
        "'main(argv)' needs class Array<T> in core.j with 'Array(len: Integer)' and 'set(i: Integer, value: T)'"
    );
}

#[test]
fn containers_are_stamped_from_std_templates() {
    let src = "class Array<T> {\n  Array(len: Integer) { }\n  public set(i: Integer, value: T) -> None { }\n}\nfunction main(argv: Array<String>) -> Integer { return 0; }";
    let p = program(src, true);
    let d = check_declarations(&p, false, true).ok().expect("passes");
    assert!(d.classes.iter().any(|(k, _)| k == "Array<String>"));
    assert!(d.classes.iter().any(|(k, _)| k == "Array<Integer>"));
    assert!(d.mono.iter().any(|(c, _)| c.name == "Array<String>"));
}
