use jimc::driver::{check, check_loaded, default_output, load_program, sema_outcome, Options};
use jimc::ast::{Block, FunctionDecl, Program, Stmt, StmtKind, Type};
use jimc::sema::SemaError;
use jimc::errors::{render, JimError};
use jimc::loader::{normalize, Loader, MapLoader};

fn loader(files: &[(&str, &str)], std_root: Option<&str>) -> MapLoader {
    let v = files.iter().map(|(p, s)| (p.to_string(), s.to_string())).collect();
    MapLoader::new(v, std_root.map(|r| r.to_string()))
}

fn opts(input: &str) -> Options {
    Options {
        input: input.to_string(),
        output: None,
        emit_c: None,
        std_dir: None,
        cc: None,
        allow_intrinsics: false,
        debug: false,
    }
}

#[test]
fn render_points_at_the_column() {
    let e = JimError::new("bad thing".to_string(), 2, 5);
    let out = render("main.j", "line one\nline two\n", &e);
    assert_eq!(out, "main.j:2:5: error: bad thing\n    line two\n        ^\n");
}

#[test]
fn render_without_a_source_line() {
    let e = JimError::new("eof".to_string(), 9, 1);
    assert_eq!(render("a.j", "x", &e), "a.j:9:1: error: eof\n");
    let e = JimError::new("zero".to_string(), 0, 0);
    assert_eq!(render("a.j", "x", &e), "a.j:0:0: error: zero\n");
}

#[test]
fn normalize_collapses_dots_and_separators() {
    assert_eq!(normalize("std/./io.j"), "std/io.j");
    assert_eq!(normalize("a\\b//c/../d.j"), "a/b/d.j");
    assert_eq!(normalize("../x.j"), "x.j");
    assert_eq!(normalize(""), "");
    let once = normalize("a/./b/../c");
    assert_eq!(normalize(&once), once);
}

#[test]
fn map_loader_answers_by_normalized_key() {
    let l = loader(&[("std/./io.j", "x"), ("main.j", "y")], Some("std/"));
    assert_eq!(l.std_root(), Some("std".to_string()));
    assert!(l.has_file("std/io.j"));
    assert!(l.has_file("./std//io.j"));
    assert!(!l.has_file("std/fs.j"));
    assert_eq!(l.canonical("./main.j"), Ok("main.j".to_string()));
    assert_eq!(l.canonical("nope.j"), Err("jimc: cannot read 'nope.j': no such file".to_string()));
    assert_eq!(l.read("std/io.j"), Ok("x".to_string()));
    assert!(l.is_under_std("std/io.j"));
    assert!(!l.is_under_std("stdlib/io.j"));
    assert_eq!(l.parent("std/core/a.j"), "std/core");
    assert_eq!(l.parent("a.j"), "");
    assert_eq!(l.join("", "b.j"), "b.j");
    assert_eq!(l.join("std", "../b.j"), "b.j");
    assert_eq!(l.display_name("std/io.j"), "std/io.j");
}

#[test]
fn load_program_follows_imports_in_order() {
    let l = loader(
        &[
            ("main.j", "#import <io>\n#import \"util.j\"\nfunction main() -> Integer { return 0; }\n"),
            ("util.j", "function helper() -> None { }\n"),
            ("std/io.j", "function print(s: String) -> None { }\n"),
        ],
        Some("std"),
    );
    let (prog, names, _) = load_program(&l, "main.j").expect("loads");
    assert_eq!(names, vec!["main.j".to_string(), "util.j".to_string(), "std/io.j".to_string()]);
    let fnames: Vec<&str> = prog.functions.iter().map(|f| f.name.as_str()).collect();
    assert_eq!(fnames, vec!["main", "helper", "print"]);
    assert!(!prog.functions[0].from_std);
    assert!(prog.functions[2].from_std);
    assert_eq!(prog.functions[2].file_idx, 2);
}

#[test]
fn the_prelude_loads_first_and_imports_are_idempotent() {
    let l = loader(
        &[
            ("main.j", "#import \"a.j\"\n#import \"a.j\"\nfunction main() -> Integer { return 0; }\n"),
            ("a.j", "function a() -> None { }\n"),
            ("std/core.j", "function core_fn() -> None { }\n"),
        ],
        Some("std"),
    );
    let (prog, names, _) = load_program(&l, "main.j").expect("loads");
    assert_eq!(names, vec!["std/core.j".to_string(), "main.j".to_string(), "a.j".to_string()]);
    assert_eq!(prog.functions.len(), 3);
}

#[test]
fn std_imports_fall_back_to_core() {
    let l = loader(
        &[("main.j", "#import <list>\n"), ("std/core/list.j", "function l() -> None { }\n")],
        Some("std"),
    );
    let (_, names, _) = load_program(&l, "main.j").expect("loads");
    assert_eq!(names, vec!["main.j".to_string(), "std/core/list.j".to_string()]);
}

#[test]
fn load_errors_are_rendered() {
    let l = loader(&[("main.j", "#import \"nope.j\"\n")], None);
    let err = load_program(&l, "main.j").unwrap_err();
    assert_eq!(
        err,
        "main.j:1:1: error: imported file \"nope.j\" not found (looked for nope.j)\n    #import \"nope.j\"\n    ^\n"
    );
    let l = loader(&[("main.j", "#import <io>\n")], None);
    let err = load_program(&l, "main.j").unwrap_err();
    assert!(err.starts_with("main.j:1:1: error: cannot resolve '#import <io>': no std directory found"));
    let l = loader(&[("main.j", "#import <io>\n")], Some("std"));
    let err = load_program(&l, "main.j").unwrap_err();
    assert!(err.contains("standard library '<io>' not found (looked for std/io.j and std/core/io.j)"));
    let l = loader(&[], None);
    let err = load_program(&l, "main.j").unwrap_err();
    assert_eq!(err, "jimc: cannot read 'main.j': jimc: cannot read 'main.j': no such file");
}

#[test]
fn syntax_errors_name_the_virtual_file() {
    let l = loader(&[("main.j", "function main() -> Integer {\n    return $;\n}\n")], None);
    let err = check(&opts("main.j"), &l).unwrap_err();
    assert!(err.starts_with("main.j:2:13: error: unexpected character '$'"), "got: {}", err);
    let l = loader(&[("main.j", "function main() -> Integer { return 0; }\n")], None);
    assert_eq!(check(&opts("main.j"), &l), Ok(()));
}

#[test]
fn default_output_strips_or_sets_the_extension() {
    assert_eq!(default_output("prog.j", false), "prog");
    assert_eq!(default_output("dir/prog.j", true), "dir/prog.exe");
    assert_eq!(default_output("prog", true), "prog.exe");
    assert_eq!(default_output("a.b.c", false), "a.b");
    assert_eq!(default_output("dir/.hidden", false), "dir/.hidden");
    assert_eq!(default_output("d.x/y", true), "d.x/y.exe");
}

#[test]
fn declaration_errors_are_rendered_against_their_file() {
    let l = loader(
        &[("main.j", "function main() -> Integer { return 0; }\nfunction main() -> Integer { return 1; }\n")],
        None,
    );
    let err = check(&opts("main.j"), &l).unwrap_err();
    assert_eq!(
        err,
        "main.j:2:1: error: duplicate function 'main' (jim has no function overloading)\n    function main() -> Integer { return 1; }\n    ^\n"
    );
    let l = loader(&[("main.j", "function main() -> Float { return 0; }\n")], None);
    let err = check(&opts("main.j"), &l).unwrap_err();
    assert!(err.starts_with("main.j:1:1: error: main must return Integer (the process exit code)"), "got: {}", err);
    let l = loader(&[("lib.j", "function helper() -> None { }\n")], None);
    assert_eq!(check(&opts("lib.j"), &l), Ok(()));
}

#[test]
fn body_errors_are_rendered_against_their_file() {
    let l = loader(&[("main.j", "function main() -> Integer {\n    return true;\n}\n")], None);
    let err = check(&opts("main.j"), &l).unwrap_err();
    assert!(
        err.starts_with("main.j:2:12: error: return type mismatch: 'main' returns Integer but this returns Bool"),
        "got: {}",
        err
    );
    let l = loader(&[("main.j", "function main() -> Integer {\n    var x: Integer = 1;\n    var x: Integer = 2;\n    return x;\n}\n")], None);
    let err = check(&opts("main.j"), &l).unwrap_err();
    assert!(err.starts_with("main.j:3:5: error: 'x' is already declared in this scope"), "got: {}", err);
}

#[test]
fn type_errors_render_against_their_file() {
    let names = vec!["a.j".to_string(), "b.j".to_string()];
    let sources = vec!["x\n".to_string(), "first\nsecond\n".to_string()];
    let se = SemaError { file_idx: 1, err: JimError::new("bad".to_string(), 2, 1) };
    let r = sema_outcome(Err(se), &names, &sources);
    assert_eq!(r.unwrap_err(), "b.j:2:1: error: bad\n    second\n    ^\n");
    let se = SemaError { file_idx: 7, err: JimError::new("lost".to_string(), 1, 1) };
    let r = sema_outcome(Err(se), &names, &sources);
    assert_eq!(r.unwrap_err(), "?:1:1: error: lost\n");
}

#[test]
fn checking_a_loaded_program() {
    let main = |stmts: Vec<Stmt>| FunctionDecl {
        name: "main".to_string(),
        type_params: vec![],
        params: vec![],
        ret: Type::named("Integer"),
        body: Block { stmts },
        file_idx: 0,
        from_std: false,
        line: 1,
        col: 1,
    };
    let names = vec!["main.j".to_string()];
    let sources = vec!["function main() -> Integer { }\n".to_string()];
    let ok = check_loaded(Program { functions: vec![main(vec![])], classes: vec![] }, &names, &sources, false, true).unwrap();
    assert_eq!(ok.functions.len(), 1);
    assert_eq!(ok.functions[0].name, "main");
    assert!(ok.classes.is_empty());
    let empty = check_loaded(Program { functions: vec![], classes: vec![] }, &names, &sources, false, false).unwrap();
    assert!(empty.functions.is_empty() && empty.classes.is_empty());
    let err = check_loaded(Program { functions: vec![], classes: vec![] }, &names, &sources, false, true).unwrap_err();
    assert!(err.starts_with("main.j:1:1: error: program has no entry point: 'function main() -> Integer'\n"), "got: {err}");
    let scope = Stmt { kind: StmtKind::Scope(Block { stmts: vec![] }), line: 1, col: 1 };
    let err = check_loaded(Program { functions: vec![main(vec![scope])], classes: vec![] }, &names, &sources, false, true).unwrap_err();
    assert_eq!(err, "jimc: internal error: a loaded body is not in the parser's shape");
}
