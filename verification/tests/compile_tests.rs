use jimc::compile_to_c;

const RUNTIME: &str = "/* rt */\n#ifdef JIM_RT_PANIC\npanic_helpers\n#ifndef JIM_PANIC_ABORT\n#include <setjmp.h>\njmp_buf rt_handler_buf;\n#endif\n#endif\n";

fn files(main: &str) -> Vec<(String, String)> {
    vec![("main.j".to_string(), main.to_string())]
}

#[test]
fn no_double_return_and_minimal_runtime() {
    let c = compile_to_c("main.j", files("function main() -> Integer { return 0; }\n"), None, false, false, false, RUNTIME)
        .expect("tiny compiles");
    assert_eq!(c.matches("return INT64_C(0)").count(), 1, "expected exactly one return in jim_user_main");
    for absent in [
        "rt_panic(",
        "rt_opt_i64_some",
        "rt_f64_sqrt",
        "jmp_buf",
        "rt_i64_add",
        "rt_arena_alloc",
        "rt_init",
        "jim_str",
        "rt_frame_top",
        "JIM_DEFINE_BUF",
        "struct jim_c_",
    ] {
        assert!(!c.contains(absent), "tiny build should not contain `{absent}`");
    }
}

#[test]
fn a_type_error_comes_back_rendered() {
    let err = compile_to_c(
        "main.j",
        files("function main() -> Integer {\n    return \"not an integer\";\n}\n"),
        None,
        false,
        false,
        false,
        RUNTIME,
    )
    .expect_err("returning a String from an Integer function should fail");
    assert!(err.contains("main.j"), "diagnostic should name the virtual file, got: {err}");
}

#[test]
fn missing_entry_point_is_reported() {
    let err = compile_to_c("main.j", files("function helper() -> Integer { return 1; }\n"), None, false, false, false, RUNTIME)
        .expect_err("a build needs main");
    assert!(err.contains("program has no entry point: 'function main() -> Integer'"), "got: {err}");
}

#[test]
fn unreached_functions_are_left_out() {
    let c = compile_to_c(
        "main.j",
        files("function unused() -> Integer { return 2; }\nfunction main() -> Integer { return 0; }\n"),
        None,
        false,
        false,
        false,
        RUNTIME,
    )
    .expect("compiles");
    assert!(c.contains("jim_user_main"));
    assert!(!c.contains("jim_user_unused"));
}

#[test]
fn missing_input_is_an_error() {
    let err = compile_to_c("nope.j", files("function main() -> Integer { return 0; }\n"), None, false, false, false, RUNTIME)
        .expect_err("no such file");
    assert!(err.contains("nope.j"), "got: {err}");
}

/// A small standard library standing in for the test doubles: a prelude
/// with two value classes and an `io` module with `print`.
fn with_std(main: &str) -> Vec<(String, String)> {
    vec![
        (
            "std/core.j".to_string(),
            "class Integer {\n    public plus(other: Integer) -> Integer { return 0; }\n    public times(other: Integer) -> Integer { return 0; }\n}\n\
             class Float {\n    public plus(other: Float) -> Float { return 0.0; }\n}\n"
                .to_string(),
        ),
        ("std/io.j".to_string(), "function print(s: String) -> None { }\n".to_string()),
        ("main.j".to_string(), main.to_string()),
    ]
}

#[test]
fn compiles_hello_in_memory() {
    let c = compile_to_c(
        "main.j",
        with_std("#import <io>\n\nfunction main() -> Integer {\n    print(\"Hello, jim!\");\n    return 0;\n}\n"),
        Some("std".to_string()),
        false,
        false,
        false,
        RUNTIME,
    )
    .expect("in-memory compile should succeed");
    assert!(c.contains("main"), "generated C should define main");
    assert!(!c.trim().is_empty(), "generated C should be non-empty");
    assert!(c.contains("rt_str_lit"), "hello needs the string representation");
    assert!(!c.contains("rt_arena_alloc"), "hello should not carry the arena");
}

#[test]
fn operators_desugar_to_method_calls_in_memory() {
    let src = "#import <io>\n\nclass Vec2 {\n    public x: Integer = 0;\n    public y: Integer = 0;\n\n    Vec2(x: Integer, y: Integer) {\n        this.x = x;\n        this.y = y;\n    }\n\n    public plus(other: Vec2) -> Vec2 {\n        return Vec2(this.x + other.x, this.y + other.y);\n    }\n}\n\nfunction main() -> Integer {\n    var a: Vec2 = Vec2(1, 2);\n    var b: Vec2 = Vec2(3, 4);\n    var c: Vec2 = a + b;\n    return c.x;\n}\n";
    let c = compile_to_c("main.j", with_std(src), Some("std".to_string()), false, false, false, RUNTIME)
        .expect("in-memory compile of a user class with operators should succeed");
    assert!(c.contains("main"), "generated C should define main");
    assert!(c.contains("jim_m_Vec2_plus"), "a + b goes through Vec2.plus");
}

#[test]
fn panic_abort_mode_strips_setjmp() {
    let src = "function main() -> Integer {\n    try {\n        var x: Integer = 1;\n    } catch (e: Exception) {\n        var y: Integer = 2;\n    }\n    return 0;\n}\n";
    let normal = compile_to_c("main.j", with_std(src), Some("std".to_string()), false, false, false, RUNTIME)
        .expect("normal compile");
    assert!(normal.contains("setjmp(jim_h"), "normal build should emit a setjmp handler");
    assert!(normal.contains("jmp_buf") && normal.contains("rt_handler"), "normal build keeps the setjmp runtime");
    let abort = compile_to_c("main.j", with_std(src), Some("std".to_string()), false, false, true, RUNTIME)
        .expect("panic=abort compile");
    for bad in ["#include <setjmp.h>", "jmp_buf", "setjmp(", "longjmp(", "rt_handler"] {
        assert!(!abort.contains(bad), "panic=abort build must not contain `{bad}`");
    }
}

#[test]
fn dce_prunes_unused_stdlib() {
    let c = compile_to_c(
        "main.j",
        with_std("#import <io>\nfunction main() -> Integer { print(\"hi\"); return 0; }\n"),
        Some("std".to_string()),
        false,
        false,
        false,
        RUNTIME,
    )
    .expect("hello compiles");
    assert!(!c.contains("jim_m_Float_plus"), "unused Float.plus should be pruned");
    assert!(!c.contains("jim_m_Integer_times"), "unused Integer.times should be pruned");
    let c2 = compile_to_c(
        "main.j",
        with_std("function main() -> Integer { var x: Integer = 1 + 2; return x; }\n"),
        Some("std".to_string()),
        false,
        false,
        false,
        RUNTIME,
    )
    .expect("add compiles");
    assert!(c2.contains("jim_m_Integer_plus"), "used Integer.plus must be emitted");
}
