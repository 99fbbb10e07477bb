use jimc::ast::Program;
use jimc::generate::generate;
use jimc::parser::parse_source;
use jimc::reach::compute_reachable;

const RUNTIME: &str = "/* rt */\n#ifdef JIM_RT_INT\nint_helpers\n#endif\n#ifdef JIM_RT_PANIC\npanic_helpers\n#endif\n#ifndef JIM_PANIC_ABORT\n#include <setjmp.h>\n#endif\n";

fn program(src: &str) -> Program {
    let m = parse_source(src, 0, false).expect("parses");
    Program { functions: m.functions, classes: m.classes }
}

fn files() -> Vec<String> {
    vec!["dir\\main.j".to_string()]
}

#[test]
fn reachability_follows_calls_from_main() {
    let p = program(
        "function used() -> Integer { return leaf(); }\n\
         function leaf() -> Integer { return 1; }\n\
         function unused() -> Integer { return 2; }\n\
         function main() -> Integer { return used(); }",
    );
    let r = compute_reachable(&p, false);
    for n in ["main", "used", "leaf"] {
        assert!(r.fns.iter().any(|f| f == n), "{} should be reached", n);
    }
    assert!(!r.fns.iter().any(|f| f == "unused"));
    assert!(r.instantiated.is_empty());
    let r = compute_reachable(&p, true);
    assert!(r.instantiated.iter().any(|c| c == "Array<String>"));
    assert!(r.methods.iter().any(|(c, m)| c == "Array<String>" && m == "set"));
}

#[test]
fn dead_functions_are_not_emitted() {
    let p = program(
        "function used() -> Integer { return 1; }\n\
         function unused() -> Integer { return 2; }\n\
         function main() -> Integer { return used(); }",
    );
    let c = generate(&p, &files(), false, false, RUNTIME);
    assert!(c.starts_with("/* generated by jimc - do not edit */\n/* rt */\n"));
    assert!(c.contains("static int64_t jim_user_used(void);\n"));
    assert!(c.contains("static int64_t jim_user_main(void) {\n    return jim_user_used();\n}\n\n"));
    assert!(!c.contains("jim_user_unused"));
    assert!(!c.contains("int_helpers"));
    assert!(c.ends_with(
        "int main(void) {\n    int64_t jim_exit_code = jim_user_main();\n    return (int)jim_exit_code;\n}\n"
    ));
    assert!(!c.contains("rt_init"));
}

#[test]
fn reached_intrinsics_pull_in_runtime_blocks() {
    let p = program("function main() -> Integer { return @i64_add(1, 2); }");
    let c = generate(&p, &files(), false, false, RUNTIME);
    assert!(c.contains("int_helpers\n"));
    assert!(c.contains("panic_helpers\n"));
    assert!(c.ends_with(
        "int main(void) {\n    rt_init();\n    int64_t jim_exit_code = jim_user_main();\n    rt_shutdown();\n    return (int)jim_exit_code;\n}\n"
    ));
    assert!(c.contains("#include <setjmp.h>\n"));
    let c = generate(&p, &files(), false, true, RUNTIME);
    assert!(c.contains("int_helpers\n"));
    assert!(!c.contains("setjmp"));
}

#[test]
fn main_without_return_exits_zero() {
    let p = program("function main() -> Integer { }");
    let c = generate(&p, &files(), false, false, RUNTIME);
    assert!(c.contains("static int64_t jim_user_main(void) {\n    return INT64_C(0);\n}\n\n"));
}

#[test]
fn debug_builds_push_frames_with_slashed_paths() {
    let p = program("function main() -> Integer { return 0; }");
    let c = generate(&p, &files(), true, false, RUNTIME);
    assert!(c.contains("    rt_push_frame(\"dir/main.j\", \"main\");\n"));
    assert!(c.contains("{ int64_t jim_rv = INT64_C(0); rt_pop_frame(); return jim_rv; }\n"));
}

#[test]
fn user_class_layouts_are_emitted_but_unused_constructors_are_not() {
    let p = program(
        "class Point {\n  public x: Integer = 0;\n}\n\
         function main() -> Integer { return 0; }",
    );
    let c = generate(&p, &files(), false, false, RUNTIME);
    assert!(c.contains("typedef struct jim_c_Point jim_c_Point;\n"));
    assert!(c.contains("struct jim_c_Point {\n    int64_t f_x;\n};\n\n"));
    assert!(!c.contains("jim_new_Point"));
}

#[test]
fn argv_main_builds_the_argument_array() {
    let p = program("function main(args: Array<String>) -> Integer { return 0; }");
    let c = generate(&p, &files(), false, false, RUNTIME);
    assert!(c.contains("int main(int argc, char** argv) {\n"));
    assert!(c.contains("jim_m_Array_String__set(jim_args"));
}
