//! Loading a program: the entry file plus everything it imports, read
//! through a [`Loader`], lexed, parsed and merged.

use vstd::prelude::*;
use crate::ast::{ClassDecl, ClassDeclV, FunctionDecl, FunctionDeclV, Import, ImportKind, Module, Program, ProgramV, classes_v, functions_v, names_v};
use crate::declare_spec::{declaration_error, entry_error};
use crate::errors::{JimError, JimErrorV, render, render_spec};
use crate::generate::emitted;
use crate::generate_spec::program_ok;
use crate::sema::SemaError;
use crate::loader::Loader;
use crate::text::{framed, lit_string, push_str, str_eq};

verus! {

/// What a compiler run is asked to do.
#[derive(Debug, Clone)]
pub struct Options {
    pub input: String,
    pub output: Option<String>,
    pub emit_c: Option<String>,
    pub std_dir: Option<String>,
    pub cc: Option<String>,
    pub allow_intrinsics: bool,
    /// Emit shadow-stack maintenance so panics print full jim stack traces.
    pub debug: bool,
}

pub open spec fn opt_v(o: Option<String>) -> Option<Seq<char>> {
    match o {
        Some(s) => Some(s@),
        None => None,
    }
}

fn clone_opt(o: &Option<String>) -> (r: Option<String>)
    ensures
        opt_v(r) == opt_v(*o),
{
    match o {
        Some(s) => Some(s.clone()),
        None => None,
    }
}

/// A copy of the options.
pub fn clone_opts(o: &Options) -> (r: Options)
    ensures
        r.input@ == o.input@,
        opt_v(r.output) == opt_v(o.output),
        opt_v(r.emit_c) == opt_v(o.emit_c),
        opt_v(r.std_dir) == opt_v(o.std_dir),
        opt_v(r.cc) == opt_v(o.cc),
        r.allow_intrinsics == o.allow_intrinsics,
        r.debug == o.debug,
{
    Options {
        input: o.input.clone(),
        output: clone_opt(&o.output),
        emit_c: clone_opt(&o.emit_c),
        std_dir: clone_opt(&o.std_dir),
        cc: clone_opt(&o.cc),
        allow_intrinsics: o.allow_intrinsics,
        debug: o.debug,
    }
}

/// Where the last component of a path begins: just past its last `/`.
pub open spec fn name_start(p: Seq<char>) -> int
    decreases p.len(),
{
    if p.len() == 0 {
        0
    } else if p.last() == '/' {
        p.len() as int
    } else {
        name_start(p.drop_last())
    }
}

/// The index of the last `.` of a name, or -1.
pub open spec fn last_dot(s: Seq<char>) -> int
    decreases s.len(),
{
    if s.len() == 0 {
        -1
    } else if s.last() == '.' {
        s.len() - 1
    } else {
        last_dot(s.drop_last())
    }
}

/// A file name's stem: up to its last `.`, unless that dot begins the name.
pub open spec fn stem_len(name: Seq<char>) -> int {
    if last_dot(name) > 0 { last_dot(name) } else { name.len() as int }
}

/// A path whose last component every platform reads the same way: no `\`
/// or `:` in it, no leading `//` (a network share on some platforms), and
/// a last component that is a plain, non-empty name.
pub open spec fn plain_path(p: Seq<char>) -> bool {
    let name = p.skip(name_start(p));
    &&& !p.contains('\\')
    &&& !p.contains(':')
    &&& !(p.len() >= 2 && p[0] == '/' && p[1] == '/')
    &&& name.len() > 0
    &&& name != seq!['.']
    &&& name != seq!['.', '.']
}

/// The path with its file name's extension replaced by `ext` (removed for
/// an empty `ext`).
pub open spec fn replace_extension(p: Seq<char>, ext: Seq<char>) -> Seq<char> {
    let n = name_start(p);
    let name = p.skip(n);
    p.take(n) + name.take(stem_len(name)) + if ext.len() > 0 { seq!['.'] + ext } else { Seq::empty() }
}

/// `std::path::Path::with_extension`, read back as text. Claimed: for a
/// plain path, the extension of the last component is replaced as
/// [`replace_extension`] says. For other paths (with `\`, a drive
/// prefix, a leading `//`, or a trailing separator, `.` or `..`) the answer depends on the
/// platform's path rules and is left unsaid.
#[verifier::external_body]
fn with_extension(path: &str, ext: &str) -> (r: String)
    requires
        !ext@.contains('/'),
        !ext@.contains('\\'),
    ensures
        plain_path(path@) ==> r@ == replace_extension(path@, ext@),
{
    std::path::Path::new(path).with_extension(ext).to_string_lossy().into_owned()
}

/// Where `jimc build` writes the executable when no `-o` is given: the input
/// with `.exe` on Windows, without its extension elsewhere.
pub fn default_output(input: &str, windows: bool) -> (r: String)
    ensures
        plain_path(input@) ==> r@ == replace_extension(input@, if windows { seq!['e', 'x', 'e'] } else { Seq::empty() }),
{
    if windows {
        let e = "exe";
        proof {
            reveal_strlit("exe");
            assert(e@ =~= seq!['e', 'x', 'e']);
            assert(!e@.contains('/')) by {
                if e@.contains('/') {
                    let i = choose|i: int| 0 <= i < e@.len() && e@[i] == '/';
                }
            }
            assert(!e@.contains('\\')) by {
                if e@.contains('\\') {
                    let i = choose|i: int| 0 <= i < e@.len() && e@[i] == '\\';
                }
            }
        }
        with_extension(input, e)
    } else {
        let e = "";
        proof {
            reveal_strlit("");
            assert(e@ =~= Seq::<char>::empty());
        }
        with_extension(input, e)
    }
}

/// `jimc: cannot read '<path>': <why>`.
pub open spec fn cannot_read(path: Seq<char>, why: Seq<char>) -> Seq<char> {
    "jimc: cannot read '"@ + path + "': "@ + why
}

fn cannot_read_msg(path: &str, why: &str) -> (s: String)
    ensures
        s@ == cannot_read(path@, why@),
{
    let mut s = framed("jimc: cannot read '", path, "': ");
    push_str(&mut s, why);
    s
}

/// `#import <name>` resolves to `<std>/name.j`, falling back to
/// `<std>/core/name.j`; neither existing is an error naming both.
pub open spec fn std_target(name: Seq<char>, direct: Seq<char>, core_sub: Seq<char>, direct_exists: bool, core_exists: bool) -> Result<Seq<char>, Seq<char>> {
    if direct_exists {
        Ok(direct)
    } else if core_exists {
        Ok(core_sub)
    } else {
        Err("standard library '<"@ + name + ">' not found (looked for "@ + direct + " and "@ + core_sub + ")"@)
    }
}

pub fn std_import_target(name: &str, direct: String, core_sub: String, direct_exists: bool, core_exists: bool) -> (r: Result<String, String>)
    ensures
        match std_target(name@, direct@, core_sub@, direct_exists, core_exists) {
            Ok(t) => r matches Ok(x) && x@ == t,
            Err(m) => r matches Err(x) && x@ == m,
        },
{
    if direct_exists {
        Ok(direct)
    } else if core_exists {
        Ok(core_sub)
    } else {
        let mut m = framed("standard library '<", name, ">' not found (looked for ");
        push_str(&mut m, direct.as_str());
        push_str(&mut m, " and ");
        push_str(&mut m, core_sub.as_str());
        push_str(&mut m, ")");
        Err(m)
    }
}

/// `#import <name>` with no std root.
pub open spec fn no_std_root(name: Seq<char>) -> Seq<char> {
    "cannot resolve '#import <"@ + name + ">': no std directory found (use --std <dir> or set JIM_STD)"@
}

/// `#import "rel"` whose target is missing.
pub open spec fn local_missing(rel: Seq<char>, target: Seq<char>) -> Seq<char> {
    "imported file \""@ + rel + "\" not found (looked for "@ + target + ")"@
}

/// The std root that `#import <name>` resolves against; none is an error.
pub fn std_root_for(name: &str, std_root: &Option<String>) -> (r: Result<String, String>)
    ensures
        match std_root {
            Some(root) => r matches Ok(x) && x@ == root@,
            None => r matches Err(m) && m@ == no_std_root(name@),
        },
{
    match std_root {
        Some(root) => Ok(root.clone()),
        None => Err(framed("cannot resolve '#import <", name, ">': no std directory found (use --std <dir> or set JIM_STD)")),
    }
}

/// `#import "rel"` resolves to `target` when that file exists.
pub fn local_import_target(rel: &str, target: String, exists: bool) -> (r: Result<String, String>)
    ensures
        exists ==> (r matches Ok(x) && x@ == target@),
        !exists ==> (r matches Err(m) && m@ == local_missing(rel@, target@)),
{
    if exists {
        Ok(target)
    } else {
        let mut m = framed("imported file \"", rel, "\" not found (looked for ");
        push_str(&mut m, target.as_str());
        push_str(&mut m, ")");
        Err(m)
    }
}

/// Resolve the imports of one file to the paths to load next, in order;
/// the first unresolvable import is an error, rendered against the file.
fn import_targets<L: Loader>(loader: &L, imports: &Vec<Import>, std_root: &Option<String>, canon: &str, path: &str, src: &str) -> (r: Result<Vec<String>, String>)
    requires
        src@.len() < u32::MAX,
    ensures
        r matches Ok(t) ==> t@.len() == imports@.len(),
{
    let mut out: Vec<String> = Vec::new();
    let mut i: usize = 0;
    while i < imports.len()
        invariant
            i <= imports@.len(),
            out@.len() == i,
        decreases imports@.len() - i,
    {
        let imp = &imports[i];
        match &imp.kind {
            ImportKind::Std(name) => {
                let root = match std_root_for(name.as_str(), std_root) {
                    Ok(r) => r,
                    Err(m) => {
                        let e = JimError::new(m, imp.line, imp.col);
                        return Err(render(path, src, &e));
                    },
                };
                let file = crate::text::framed("", name.as_str(), ".j");
                let direct = loader.join(root.as_str(), file.as_str());
                let core_dir = loader.join(root.as_str(), "core");
                let core_sub = loader.join(core_dir.as_str(), file.as_str());
                let direct_exists = loader.has_file(direct.as_str());
                let core_exists = if direct_exists { false } else { loader.has_file(core_sub.as_str()) };
                match std_import_target(name.as_str(), direct, core_sub, direct_exists, core_exists) {
                    Ok(t) => out.push(t),
                    Err(m) => {
                        let e = JimError::new(m, imp.line, imp.col);
                        return Err(render(path, src, &e));
                    },
                }
            },
            ImportKind::Local(rel) => {
                let base = loader.parent(canon);
                let target = loader.join(base.as_str(), rel.as_str());
                let exists = loader.has_file(target.as_str());
                match local_import_target(rel.as_str(), target, exists) {
                    Ok(t) => out.push(t),
                    Err(m) => {
                        let e = JimError::new(m, imp.line, imp.col);
                        return Err(render(path, src, &e));
                    },
                }
            },
        }
        i += 1;
    }
    Ok(out)
}

/// Is `s` among `v`?
fn contains_str(v: &Vec<String>, s: &str) -> (b: bool)
    ensures
        b == exists|i: int| 0 <= i < v@.len() && v@[i]@ == s@,
{
    let mut i: usize = 0;
    while i < v.len()
        invariant
            i <= v@.len(),
            forall|j: int| 0 <= j < i ==> v@[j]@ != s@,
        decreases v@.len() - i,
    {
        if str_eq(v[i].as_str(), s) {
            return true;
        }
        i += 1;
    }
    false
}

/// The module the parser makes of a file's source, or nothing.
pub open spec fn parsed_module(src: Seq<char>, file_idx: int, from_std: bool) -> crate::ast::ModuleV {
    match crate::parser::parse_source_spec(src, file_idx as usize, from_std) {
        crate::parser_spec::PR::Done(m, _) => m,
        crate::parser_spec::PR::Fail(_) => crate::ast::ModuleV { imports: Seq::empty(), functions: Seq::empty(), classes: Seq::empty() },
    }
}

/// Every loaded source parses (file `i` as file index `i`, read from the
/// standard library when `stds[i]`).
pub open spec fn all_parse(srcs: Seq<Seq<char>>, stds: Seq<bool>) -> bool {
    &&& srcs.len() == stds.len()
    &&& forall|i: int| 0 <= i < srcs.len() ==> #[trigger] crate::parser::parse_source_spec(srcs[i], i as usize, stds[i]) is Done
}

/// The functions of the loaded files' modules, in load order.
pub open spec fn loaded_functions(srcs: Seq<Seq<char>>, stds: Seq<bool>) -> Seq<FunctionDeclV>
    decreases srcs.len(),
{
    if srcs.len() == 0 {
        Seq::empty()
    } else {
        loaded_functions(srcs.drop_last(), stds.drop_last()) + parsed_module(srcs.last(), srcs.len() - 1, stds.last()).functions
    }
}

/// The classes of the loaded files' modules, in load order.
pub open spec fn loaded_classes(srcs: Seq<Seq<char>>, stds: Seq<bool>) -> Seq<ClassDeclV>
    decreases srcs.len(),
{
    if srcs.len() == 0 {
        Seq::empty()
    } else {
        loaded_classes(srcs.drop_last(), stds.drop_last()) + parsed_module(srcs.last(), srcs.len() - 1, stds.last()).classes
    }
}

/// `prog` is the merge, in load order, of the modules the parser makes of
/// `srcs` (file `i` with index `i`, from the standard library as `stds`
/// says).
pub open spec fn merged_from(prog: ProgramV, srcs: Seq<Seq<char>>, stds: Seq<bool>) -> bool {
    &&& all_parse(srcs, stds)
    &&& prog.functions == loaded_functions(srcs, stds)
    &&& prog.classes == loaded_classes(srcs, stds)
}

/// `prog` is the merge of the parsed `srcs`, for some reading of which of
/// them come from the standard library.
pub open spec fn loaded_from(prog: ProgramV, srcs: Seq<Seq<char>>) -> bool {
    exists|stds: Seq<bool>| #[trigger] merged_from(prog, srcs, stds)
}

/// Move every element of `src` onto the end of `dst`.
fn append_all<T>(dst: &mut Vec<T>, src: Vec<T>)
    ensures
        final(dst)@ == old(dst)@ + src@,
{
    let mut src = src;
    dst.append(&mut src);
}

/// Load the entry file and everything it transitively imports (the std
/// prelude `core.j` first when the std root has one), each file once by
/// canonical key, merged into one program in load order, with each file's
/// display name. Errors come back rendered against their file.
pub fn load_program<L: Loader>(loader: &L, input: &str) -> (r: Result<(Program, Vec<String>, Vec<String>), String>)
    ensures
        r matches Ok((prog, names, sources)) ==> names@.len() > 0 && sources@.len() == names@.len()
            && loaded_from(prog@, names_v(sources@)),
{
    let ghost mut stds: Seq<bool> = Seq::empty();
    let std_root = loader.std_root();
    let mut names: Vec<String> = Vec::new();
    let mut sources: Vec<String> = Vec::new();
    let mut visited: Vec<String> = Vec::new();
    let mut functions: Vec<FunctionDecl> = Vec::new();
    let mut classes: Vec<ClassDecl> = Vec::new();
    let mut queue: Vec<String> = Vec::new();
    queue.push(lit_string(input));
    match &std_root {
        Some(root) => {
            let core = loader.join(root.as_str(), "core.j");
            if loader.has_file(core.as_str()) {
                queue.push(core);
            }
        },
        None => {},
    }
    let mut budget: usize = usize::MAX;
    while queue.len() > 0
        invariant
            names@.len() > 0 || queue@.len() > 0,
            visited@.len() == names@.len(),
            sources@.len() == names@.len(),
            stds.len() == sources@.len(),
            all_parse(names_v(sources@), stds),
            functions_v(functions@) == loaded_functions(names_v(sources@), stds),
            classes_v(classes@) == loaded_classes(names_v(sources@), stds),
        decreases budget,
    {
        if budget == 0 {
            return Err(lit_string("jimc: too many files to load"));
        }
        budget -= 1;
        let path = match queue.pop() {
            Some(p) => p,
            None => break,
        };
        let canon = match loader.canonical(path.as_str()) {
            Ok(c) => c,
            Err(e) => return Err(cannot_read_msg(path.as_str(), e.as_str())),
        };
        if contains_str(&visited, canon.as_str()) {
            continue;
        }
        let src = match loader.read(canon.as_str()) {
            Ok(s) => s,
            Err(e) => return Err(cannot_read_msg(path.as_str(), e.as_str())),
        };
        if src.unicode_len() >= 0xffff_ffff {
            return Err(cannot_read_msg(path.as_str(), "the file is too large"));
        }
        let file_idx = names.len();
        let from_std = loader.is_under_std(canon.as_str());
        let module: Module = match crate::parser::parse_source(src.as_str(), file_idx, from_std) {
            Ok(m) => m,
            Err(e) => return Err(render(path.as_str(), src.as_str(), &e)),
        };
        let targets = match import_targets(loader, &module.imports, &std_root, canon.as_str(), path.as_str(), src.as_str()) {
            Ok(t) => t,
            Err(e) => return Err(e),
        };
        append_all(&mut queue, targets);
        let ghost s0 = names_v(sources@);
        let ghost st0 = stds;
        let ghost f0 = functions@;
        let ghost c0 = classes@;
        let ghost mv = module@;
        visited.push(canon);
        names.push(path);
        sources.push(src);
        proof {
            stds = stds.push(from_std);
            assert(names_v(sources@) =~= s0.push(src@));
            assert(names_v(sources@).drop_last() =~= s0);
            assert(stds.drop_last() =~= st0);
            assert(parsed_module(src@, file_idx as int, from_std) == mv);
        }
        append_all(&mut functions, module.functions);
        append_all(&mut classes, module.classes);
        proof {
            assert(functions_v(functions@) =~= functions_v(f0) + mv.functions);
            assert(classes_v(classes@) =~= classes_v(c0) + mv.classes);
            assert forall|i: int| 0 <= i < names_v(sources@).len() implies #[trigger] crate::parser::parse_source_spec(names_v(sources@)[i], i as usize, stds[i]) is Done by {
                if i < s0.len() {
                    assert(names_v(sources@)[i] == s0[i]);
                    assert(stds[i] == st0[i]);
                }
            }
        }
    }
    if names.len() == 0 {
        return Err(lit_string("jimc: nothing to load"));
    }
    let prog = Program { functions, classes };
    assert(merged_from(prog@, names_v(sources@), stds));
    assert(loaded_from(prog@, names_v(sources@)));
    Ok((prog, names, sources))
}

/// A type error rendered against the file it names (`?` with no source
/// line, for an index past the loaded files).
pub open spec fn report_spec(names: Seq<Seq<char>>, sources: Seq<Seq<char>>, file_idx: usize, e: JimErrorV) -> Seq<char> {
    if file_idx < names.len() && file_idx < sources.len() {
        render_spec(names[file_idx as int], sources[file_idx as int], e)
    } else {
        render_spec(seq!['?'], Seq::empty(), e)
    }
}

/// Render a type error against the file it names.
pub fn report(names: &Vec<String>, sources: &Vec<String>, se: &SemaError) -> (s: String)
    ensures
        s@ == report_spec(names_v(names@), names_v(sources@), se.file_idx, se.err@),
{
    if se.file_idx < names.len() && se.file_idx < sources.len() {
        assert(names_v(names@)[se.file_idx as int] == names@[se.file_idx as int]@);
        assert(names_v(sources@)[se.file_idx as int] == sources@[se.file_idx as int]@);
        render(names[se.file_idx].as_str(), sources[se.file_idx].as_str(), &se.err)
    } else {
        let q = "?";
        let z = "";
        proof {
            reveal_strlit("?");
            reveal_strlit("");
            assert(q@ =~= seq!['?']);
            assert(z@ =~= Seq::<char>::empty());
        }
        render(q, z, &se.err)
    }
}

/// The outcome of type checking a loaded program, as the driver reports
/// it: the checked program, or the error rendered against its file.
pub fn sema_outcome(result: Result<Program, SemaError>, names: &Vec<String>, sources: &Vec<String>) -> (r: Result<Program, String>)
    ensures
        match result {
            Ok(p) => r matches Ok(q) && q == p,
            Err(se) => r matches Err(s) && s@ == report_spec(names_v(names@), names_v(sources@), se.file_idx, se.err@),
        },
{
    match result {
        Ok(p) => Ok(p),
        Err(se) => Err(report(names, sources, &se)),
    }
}

/// `jimc check`: load and type-check a program (a library file without
/// `main` is accepted), writing nothing. Errors come back rendered against
/// the file they are in.
pub fn check<L: Loader>(opts: &Options, loader: &L) -> (r: Result<(), String>) {
    let (program, names, sources) = match load_program(loader, opts.input.as_str()) {
        Ok(x) => x,
        Err(e) => return Err(e),
    };
    match check_loaded(program, &names, &sources, opts.allow_intrinsics, false) {
        Ok(_) => Ok(()),
        Err(s) => Err(s),
    }
}

/// The message when a loaded program is not in the parser's shape (the
/// type checker is only for parsed programs).
pub open spec fn unshaped_msg() -> Seq<char> {
    "jimc: internal error: a loaded body is not in the parser's shape"@
}

/// Type-check a loaded program (files named by `names`, read as
/// `sources`): the checked program, or the type error rendered against its
/// file. The error is one [`crate::check::failure_explained`] accounts
/// for: the first declaration rule broken, exactly; a later rule of the
/// declaration phase; the typing of a non-generic function or class; or
/// something made from a generic function or a class template.
pub fn check_loaded(program: Program, names: &Vec<String>, sources: &Vec<String>, allow_intrinsics: bool, require_main: bool) -> (r: Result<Program, String>)
    ensures
        !crate::check::shaped(functions_v(program.functions@), classes_v(program.classes@)) ==> (r matches Err(s) && s@ == unshaped_msg()),
        r matches Err(s) ==> !crate::check::shaped(functions_v(program.functions@), classes_v(program.classes@)) || exists|x: SemaError|
            #[trigger] crate::check::failure_explained(functions_v(program.functions@), classes_v(program.classes@), allow_intrinsics, require_main, x)
            && s@ == report_spec(names_v(names@), names_v(sources@), x.file_idx, x.err@),
        crate::check::shaped(functions_v(program.functions@), classes_v(program.classes@)) ==>
            (declaration_error(functions_v(program.functions@), classes_v(program.classes@), allow_intrinsics) matches Some(e)
                ==> r matches Err(s) && s@ == report_spec(names_v(names@), names_v(sources@), e.file_idx, JimErrorV { msg: e.msg, line: e.line, col: e.col })),
        r matches Ok(p) ==> crate::check::starts_with_plain(functions_v(program.functions@), classes_v(program.classes@), p, allow_intrinsics)
            && crate::check::none_generic(functions_v(p.functions@)),
{
    if !crate::check::shape_check(&program) {
        let m = "jimc: internal error: a loaded body is not in the parser's shape";
        proof { reveal_strlit("jimc: internal error: a loaded body is not in the parser's shape"); }
        return Err(lit_string(m));
    }
    let ghost fs = functions_v(program.functions@);
    let ghost cs = classes_v(program.classes@);
    let result = crate::check::check(program, allow_intrinsics, require_main);
    match result {
        Ok(p) => Ok(p),
        Err(se) => {
            let s = report(names, sources, &se);
            assert(crate::check::failure_explained(fs, cs, allow_intrinsics, require_main, se));
            Err(s)
        },
    }
}

/// `c` is what the code generator emits for a type-checked program `q`
/// that it can print, where `q` was checked from a loaded program (the
/// merge of the parsed `srcs`) and begins with that program's non-generic
/// functions and classes, typed.
pub open spec fn compiled_from(c: Seq<char>, debug: bool, panic_abort: bool, runtime: Seq<char>, allow_intrinsics: bool) -> bool {
    exists|q: Program, names: Seq<Seq<char>>, loaded: ProgramV, srcs: Seq<Seq<char>>|
        #![trigger emitted(c, q@, names, debug, panic_abort, runtime), loaded_from(loaded, srcs)]
        loaded_from(loaded, srcs)
        && crate::check::starts_with_plain(loaded.functions, loaded.classes, q, allow_intrinsics)
        && program_ok(q@)
        && emitted(c, q@, names, debug, panic_abort, runtime)
}

/// Compile a program held in memory to one C translation unit: `files`
/// maps paths to sources (the entry file is `input`; the standard library
/// lives under `std_root`), `runtime` is the C runtime the output embeds.
/// Errors come back rendered against the file they are in.
#[verifier::rlimit(50)]
#[verifier::spinoff_prover]
pub fn compile_to_c(input: &str, files: Vec<(String, String)>, std_root: Option<String>, allow_intrinsics: bool, debug: bool, panic_abort: bool, runtime: &str) -> (r: Result<String, String>)
    ensures
        r matches Ok(c) ==> compiled_from(c@, debug, panic_abort, runtime@, allow_intrinsics),
{
    let loader = crate::loader::MapLoader::new(files, std_root);
    let (program, names, sources) = match load_program(&loader, input) {
        Ok(x) => x,
        Err(e) => return Err(e),
    };
    let ghost loaded = program@;
    let checked = match check_loaded(program, &names, &sources, allow_intrinsics, true) {
        Ok(p) => p,
        Err(s) => return Err(s),
    };
    if !crate::fits::program_fits(&checked) {
        return Err(lit_string("jimc: internal error: the checked program does not fit the code generator"));
    }
    let c = crate::generate::generate(&checked, &names, debug, panic_abort, runtime);
    assert(program_ok(checked@) && emitted(c@, checked@, names_v(names@), debug, panic_abort, runtime@));
    assert(loaded_from(loaded, names_v(sources@)));
    assert(crate::check::starts_with_plain(loaded.functions, loaded.classes, checked, allow_intrinsics));
    assert(compiled_from(c@, debug, panic_abort, runtime@, allow_intrinsics));
    Ok(c)
}

/// A Windows verbatim path prefix, `\\?\`.
pub open spec fn verbatim_prefix() -> Seq<char> {
    seq!['\\', '\\', '?', '\\']
}

/// A path without the Windows verbatim prefix (`\\?\C:\...`) that
/// canonicalization adds: it is noise in diagnostics.
pub fn nice_path(p: &str) -> (r: String)
    ensures
        r@ == if verbatim_prefix().is_prefix_of(p@) { p@.skip(4) } else { p@ },
{
    let cs = crate::text::chars_of(p);
    if cs.len() >= 4 && cs[0] == '\\' && cs[1] == '\\' && cs[2] == '?' && cs[3] == '\\' {
        assert(verbatim_prefix() =~= p@.take(4));
        let mut r = String::new();
        let mut i: usize = 4;
        while i < cs.len()
            invariant
                4 <= i <= cs@.len(),
                cs@ == p@,
                r@ == p@.subrange(4, i as int),
            decreases cs@.len() - i,
        {
            crate::text::push_char(&mut r, cs[i]);
            assert(p@.subrange(4, i + 1) =~= p@.subrange(4, i as int).push(cs@[i as int]));
            i += 1;
        }
        assert(r@ =~= p@.skip(4));
        r
    } else {
        proof {
            if verbatim_prefix().is_prefix_of(p@) {
                assert(p@[0] == verbatim_prefix()[0]);
                assert(p@[1] == verbatim_prefix()[1]);
                assert(p@[2] == verbatim_prefix()[2]);
                assert(p@[3] == verbatim_prefix()[3]);
            }
        }
        crate::text::lit_string(p)
    }
}

} // verus!
