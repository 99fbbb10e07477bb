//! The C translation unit that code generation emits for a program, stated
//! over the program's view and the result of reachability.

use vstd::prelude::*;
use crate::ast::{BlockV, ClassDeclV, FieldDeclV, FunctionDeclV, MethodDeclV, ParamV, ProgramV, StmtKindV, TypeV};
use crate::codegen_names::{
    block_always_returns_spec, c_name_spec, core_opt_sfx_spec, escape_c_spec, intrinsic_block_spec, local_spec,
    mangle_method_spec, mangle_spec, opt_is_struct_spec,
};
use crate::codegen_spec::{CgV, cg_expr_spec, ctype_ok, ctype_spec, emit_block_spec, join};
use crate::ast::display_spec;
use crate::opt::chars_lt;
use crate::reach_spec::ReachV;
use crate::runtime_filter::filter_runtime_spec;
use vstd::utf8::encode_utf8;

verus! {

/// The texts, one after another.
pub open spec fn concat(parts: Seq<Seq<char>>) -> Seq<char>
    decreases parts.len(),
{
    if parts.len() == 0 {
        Seq::empty()
    } else {
        concat(parts.drop_last()) + parts.last()
    }
}

// ---------------------------------------------------------------- buffers

/// Every `RawBuffer<T>` inside a type, outermost first: (sanitized key, C type of T).
pub open spec fn buf_pairs(t: TypeV) -> Seq<(Seq<char>, Seq<char>)>
    decreases t,
{
    match t {
        TypeV::Generic(n, p) => (if n == "RawBuffer"@ {
            seq![(c_name_spec(display_spec(*p)), ctype_spec(*p))]
        } else {
            Seq::empty()
        }) + buf_pairs(*p),
        TypeV::Optional(p) => buf_pairs(*p),
        TypeV::Pointer(p) => buf_pairs(*p),
        TypeV::Named(_) => Seq::empty(),
    }
}

/// Every `RawBuffer<T>` payload in a type has a C type.
pub open spec fn buf_ok(t: TypeV) -> bool
    decreases t,
{
    match t {
        TypeV::Generic(n, p) => (n == "RawBuffer"@ ==> ctype_ok(*p)) && buf_ok(*p),
        TypeV::Optional(p) => buf_ok(*p),
        TypeV::Pointer(p) => buf_ok(*p),
        TypeV::Named(_) => true,
    }
}

/// The types written in a block's declarations (not inside `try`).
pub open spec fn block_types(b: BlockV) -> Seq<TypeV>
    decreases b, 1nat,
{
    stmts_types(b.stmts, b.stmts.len())
}

/// The types a statement's declarations write.
pub open spec fn stmt_types(st: crate::ast::StmtV) -> Seq<TypeV>
    decreases st, 1nat,
{
    match st.kind {
        StmtKindV::VarDecl { ty, .. } => seq![ty],
        StmtKindV::If { arms, else_block } => arm_types(arms, arms.len()) + match else_block {
            Some(b) => stmts_types(b.stmts, b.stmts.len()),
            None => Seq::empty(),
        },
        StmtKindV::While { body, .. } => stmts_types(body.stmts, body.stmts.len()),
        StmtKindV::ForC { var_ty, body, .. } => seq![var_ty] + stmts_types(body.stmts, body.stmts.len()),
        StmtKindV::Scope(b) => stmts_types(b.stmts, b.stmts.len()),
        _ => Seq::empty(),
    }
}

pub open spec fn stmts_types(s: Seq<crate::ast::StmtV>, n: nat) -> Seq<TypeV>
    decreases s, n,
{
    if n == 0 || n > s.len() {
        Seq::empty()
    } else {
        stmts_types(s, (n - 1) as nat) + stmt_types(s[n - 1])
    }
}

pub open spec fn arm_types(a: Seq<(crate::ast::ExprV, BlockV)>, n: nat) -> Seq<TypeV>
    decreases a, n,
{
    if n == 0 || n > a.len() {
        Seq::empty()
    } else {
        arm_types(a, (n - 1) as nat) + stmts_types(a[n - 1].1.stmts, a[n - 1].1.stmts.len())
    }
}

pub open spec fn param_types(ps: Seq<ParamV>) -> Seq<TypeV> {
    Seq::new(ps.len(), |i: int| ps[i].ty)
}

pub open spec fn function_types(f: FunctionDeclV) -> Seq<TypeV> {
    param_types(f.params) + seq![f.ret] + block_types(f.body)
}

pub open spec fn method_types(m: MethodDeclV) -> Seq<TypeV> {
    param_types(m.params) + seq![m.ret] + block_types(m.body)
}

pub open spec fn field_types(fs: Seq<FieldDeclV>) -> Seq<TypeV> {
    Seq::new(fs.len(), |i: int| fs[i].ty)
}

pub open spec fn seq_concat_types(parts: Seq<Seq<TypeV>>) -> Seq<TypeV>
    decreases parts.len(),
{
    if parts.len() == 0 {
        Seq::empty()
    } else {
        seq_concat_types(parts.drop_last()) + parts.last()
    }
}

pub open spec fn class_types(c: ClassDeclV) -> Seq<TypeV> {
    field_types(c.fields) + (match c.ctor {
        Some(ct) => param_types(ct.params) + block_types(ct.body),
        None => Seq::empty(),
    }) + seq_concat_types(c.methods.map_values(|m: MethodDeclV| method_types(m)))
}

/// Every type the program writes, in order: function signatures and
/// declarations, then each class's fields, constructor and methods.
pub open spec fn program_types(p: ProgramV) -> Seq<TypeV> {
    seq_concat_types(p.functions.map_values(|f: FunctionDeclV| function_types(f)))
        + seq_concat_types(p.classes.map_values(|c: ClassDeclV| class_types(c)))
}

pub open spec fn all_buf_pairs(ts: Seq<TypeV>) -> Seq<(Seq<char>, Seq<char>)>
    decreases ts.len(),
{
    if ts.len() == 0 {
        Seq::empty()
    } else {
        all_buf_pairs(ts.drop_last()) + buf_pairs(ts.last())
    }
}

/// A key-sorted table with `(k, v)` put in: a present key gets the new value.
pub open spec fn table_put(t: Seq<(Seq<char>, Seq<char>)>, k: Seq<char>, v: Seq<char>) -> Seq<(Seq<char>, Seq<char>)>
    decreases t.len(),
{
    if t.len() == 0 {
        seq![(k, v)]
    } else if t[0].0 == k {
        seq![(k, v)] + t.skip(1)
    } else if chars_lt(k, t[0].0) {
        seq![(k, v)] + t
    } else {
        seq![t[0]] + table_put(t.skip(1), k, v)
    }
}

/// The pairs put into table `t`, in order.
pub open spec fn table_from(t: Seq<(Seq<char>, Seq<char>)>, ps: Seq<(Seq<char>, Seq<char>)>) -> Seq<(Seq<char>, Seq<char>)>
    decreases ps.len(),
{
    if ps.len() == 0 {
        t
    } else {
        table_put(table_from(t, ps.drop_last()), ps.last().0, ps.last().1)
    }
}

/// The buffer instantiations a program needs, ordered by key; a key met
/// again takes the later element type.
pub open spec fn buffers_spec(p: ProgramV) -> Seq<(Seq<char>, Seq<char>)> {
    table_from(Seq::empty(), all_buf_pairs(program_types(p)))
}

pub proof fn lemma_table_from_append(t: Seq<(Seq<char>, Seq<char>)>, a: Seq<(Seq<char>, Seq<char>)>, b: Seq<(Seq<char>, Seq<char>)>)
    ensures
        table_from(t, a + b) == table_from(table_from(t, a), b),
    decreases b.len(),
{
    if b.len() == 0 {
        assert(a + b =~= a);
    } else {
        assert((a + b).drop_last() =~= a + b.drop_last());
        lemma_table_from_append(t, a, b.drop_last());
    }
}

/// Putting a key walks past the entries before its place.
pub proof fn lemma_table_put_prefix(t: Seq<(Seq<char>, Seq<char>)>, k: Seq<char>, v: Seq<char>, i: int)
    requires
        0 <= i <= t.len(),
        forall|j: int| 0 <= j < i ==> t[j].0 != k && !chars_lt(k, #[trigger] t[j].0),
    ensures
        table_put(t, k, v) == t.take(i) + table_put(t.skip(i), k, v),
    decreases i,
{
    if i == 0 {
        assert(t.skip(0) =~= t);
        assert(t.take(0) + table_put(t, k, v) =~= table_put(t, k, v));
    } else {
        let u = t.skip(1);
        assert forall|j: int| 0 <= j < i - 1 implies u[j].0 != k && !chars_lt(k, #[trigger] u[j].0) by {
            assert(u[j] == t[j + 1]);
        }
        lemma_table_put_prefix(u, k, v, i - 1);
        assert(u.skip(i - 1) =~= t.skip(i));
        assert(seq![t[0]] + u.take(i - 1) =~= t.take(i));
    }
}

// ---------------------------------------------------------------- signatures

pub open spec fn param_parts(ps: Seq<ParamV>) -> Seq<Seq<char>> {
    Seq::new(ps.len(), |i: int| ctype_spec(ps[i].ty) + " "@ + local_spec(ps[i].name))
}

/// A C parameter list: `void`, or the parameters.
pub open spec fn params_text(ps: Seq<ParamV>) -> Seq<char> {
    if ps.len() == 0 { "void"@ } else { join(param_parts(ps), ", "@) }
}

pub open spec fn signature_spec(f: FunctionDeclV) -> Seq<char> {
    "static "@ + ctype_spec(f.ret) + " "@ + mangle_spec(f.name) + "("@ + params_text(f.params) + ")"@
}

/// Methods take the receiver as an explicit first parameter.
pub open spec fn method_signature_spec(c: ClassDeclV, m: MethodDeclV) -> Seq<char> {
    "static "@ + ctype_spec(m.ret) + " "@ + mangle_method_spec(c.name, m.name) + "("@
        + join(seq![ctype_spec(TypeV::Named(c.name)) + " jl_this"@] + param_parts(m.params), ", "@) + ")"@
}

pub open spec fn ctor_signature_spec(c: ClassDeclV) -> Seq<char> {
    "static jim_c_"@ + c_name_spec(c.name) + "* jim_new_"@ + c_name_spec(c.name) + "("@ + (match c.ctor {
        Some(ct) => params_text(ct.params),
        None => "void"@,
    }) + ")"@
}

// ---------------------------------------------------------------- runtime blocks

/// The runtime block of each intrinsic that has one, in order.
pub open spec fn intrinsic_blocks(ns: Seq<Seq<char>>) -> Seq<Seq<char>>
    decreases ns.len(),
{
    if ns.len() == 0 {
        Seq::empty()
    } else {
        intrinsic_blocks(ns.drop_last()) + match intrinsic_block_spec(ns.last()) {
            Some(b) => seq![b],
            None => Seq::empty(),
        }
    }
}

pub open spec fn needs_opt(r: ReachV) -> bool {
    let base = intrinsic_blocks(r.intrinsics);
    r.opt || base.contains("STRPARSE"@) || base.contains("IOFILE"@)
}

/// Anything that can raise (checked arithmetic, optionals, `@panic`) or
/// catch needs the panic machinery.
pub open spec fn needs_panic(r: ReachV) -> bool {
    let base = intrinsic_blocks(r.intrinsics);
    needs_opt(r) || r.trycatch || r.intrinsics.contains("panic"@) || base.contains("INT"@) || base.contains("FLOAT"@)
        || base.contains("BOOLCHAR"@) || base.contains("BITOPS"@)
}

/// The runtime blocks the program needs.
pub open spec fn blocks_spec(r: ReachV, has_bufs: bool, debug: bool) -> Seq<Seq<char>> {
    intrinsic_blocks(r.intrinsics)
        + (if needs_opt(r) { seq!["OPT"@] } else { Seq::empty() })
        + (if needs_panic(r) { seq!["PANIC"@] } else { Seq::empty() })
        + (if has_bufs { seq!["BUF"@] } else { Seq::empty() })
        + (if debug { seq!["DEBUG"@] } else { Seq::empty() })
}

// ---------------------------------------------------------------- sections

pub open spec fn is_user(cg: CgV, c: ClassDeclV) -> bool {
    cg.user_classes.contains(c.name)
}

pub open spec fn typedef_text(cg: CgV, c: ClassDeclV) -> Seq<char> {
    if is_user(cg, c) {
        "typedef struct jim_c_"@ + c_name_spec(c.name) + " jim_c_"@ + c_name_spec(c.name) + ";\n"@
    } else {
        Seq::empty()
    }
}

pub open spec fn buf_text(b: (Seq<char>, Seq<char>)) -> Seq<char> {
    "JIM_DEFINE_BUF("@ + b.0 + ", "@ + b.1 + ")\n"@
}

pub open spec fn field_line(f: FieldDeclV) -> Seq<char> {
    "    "@ + ctype_spec(f.ty) + " f_"@ + f.name + ";\n"@
}

pub open spec fn struct_text(cg: CgV, c: ClassDeclV) -> Seq<char> {
    if is_user(cg, c) {
        "struct jim_c_"@ + c_name_spec(c.name) + " {\n"@
            + (if c.fields.len() == 0 { "    char jim_empty_; /* C requires at least one member */\n"@ } else { Seq::empty() })
            + concat(c.fields.map_values(|f: FieldDeclV| field_line(f))) + "};\n\n"@
    } else {
        Seq::empty()
    }
}

pub open spec fn method_reached(r: ReachV, c: ClassDeclV, m: MethodDeclV) -> bool {
    r.methods.contains((c.name, m.name))
}

pub open spec fn class_protos(cg: CgV, r: ReachV, c: ClassDeclV) -> Seq<char> {
    (if is_user(cg, c) && r.classes.contains(c.name) { ctor_signature_spec(c) + ";\n"@ } else { Seq::empty() })
        + concat(c.methods.map_values(|m: MethodDeclV| if method_reached(r, c, m) {
            method_signature_spec(c, m) + ";\n"@
        } else {
            Seq::empty()
        }))
}

pub open spec fn fn_proto(r: ReachV, f: FunctionDeclV) -> Seq<char> {
    if r.fns.contains(f.name) { signature_spec(f) + ";\n"@ } else { Seq::empty() }
}

/// The display path of a source file, `?` when unknown.
pub open spec fn file_of(cg: CgV, idx: usize) -> Seq<char> {
    if idx < cg.files.len() { cg.files[idx as int] } else { "?"@ }
}

/// The generator's state while it emits one body.
pub open spec fn body_cg(cg: CgV, file_idx: usize, func: Seq<char>, ret_ctype: Seq<char>) -> CgV {
    CgV { panic_file: file_of(cg, file_idx), panic_func: func, ret_ctype, ..cg }
}

pub open spec fn frame_push_spec(cg: CgV) -> Seq<char> {
    if cg.debug {
        "    rt_push_frame(\""@ + escape_c_spec(encode_utf8(cg.panic_file)) + "\", \""@
            + escape_c_spec(encode_utf8(cg.panic_func)) + "\");\n"@
    } else {
        Seq::empty()
    }
}

pub open spec fn frame_pop_spec(cg: CgV) -> Seq<char> {
    if cg.debug { "    rt_pop_frame();\n"@ } else { Seq::empty() }
}

/// What ends a body that can fall off its end: `main` exits 0, a `T?`
/// body returns None, a `-> None` body leaves its frame.
pub open spec fn tail_spec(cg: CgV, body: BlockV, ret: TypeV, is_main: bool) -> Seq<char> {
    if block_always_returns_spec(body) {
        Seq::empty()
    } else if is_main {
        frame_pop_spec(cg) + "    return INT64_C(0);\n"@
    } else {
        match ret {
            TypeV::Optional(inner) => frame_pop_spec(cg) + if opt_is_struct_spec(*inner) {
                "    return rt_opt_"@ + core_opt_sfx_spec(*inner) + "_none();\n"@
            } else {
                "    return ("@ + ctype_spec(*inner) + ")NULL;\n"@
            },
            TypeV::Named(n) => if n == "None"@ { frame_pop_spec(cg) } else { Seq::empty() },
            _ => Seq::empty(),
        }
    }
}

pub open spec fn field_init(cg: CgV, f: FieldDeclV) -> Seq<char> {
    "    jl_this->f_"@ + f.name + " = "@ + cg_expr_spec(cg, f.default) + ";\n"@
}

pub open spec fn ctor_def(cg: CgV, c: ClassDeclV) -> Seq<char> {
    let k = c_name_spec(c.name);
    let b = body_cg(cg, c.file_idx, c.name + " constructor"@, "void"@);
    ctor_signature_spec(c) + " {\n"@ + frame_push_spec(b)
        + "    jim_c_"@ + k + "* jl_this = (jim_c_"@ + k + "*)rt_arena_alloc(sizeof(jim_c_"@ + k + "));\n"@
        + concat(c.fields.map_values(|f: FieldDeclV| field_init(b, f)))
        + (match c.ctor {
            Some(ct) => emit_block_spec(b, ct.body, 1),
            None => Seq::empty(),
        })
        + frame_pop_spec(b) + "    return jl_this;\n}\n\n"@
}

pub open spec fn method_def(cg: CgV, c: ClassDeclV, m: MethodDeclV) -> Seq<char> {
    let b = body_cg(cg, c.file_idx, c.name + "."@ + m.name, ctype_spec(m.ret));
    method_signature_spec(c, m) + " {\n"@ + frame_push_spec(b) + emit_block_spec(b, m.body, 1)
        + tail_spec(b, m.body, m.ret, false) + "}\n\n"@
}

pub open spec fn class_defs(cg: CgV, r: ReachV, c: ClassDeclV) -> Seq<char> {
    (if is_user(cg, c) && r.classes.contains(c.name) { ctor_def(cg, c) } else { Seq::empty() })
        + concat(c.methods.map_values(|m: MethodDeclV| if method_reached(r, c, m) {
            method_def(cg, c, m)
        } else {
            Seq::empty()
        }))
}

pub open spec fn fn_def(cg: CgV, r: ReachV, f: FunctionDeclV) -> Seq<char> {
    if r.fns.contains(f.name) {
        let b = body_cg(cg, f.file_idx, f.name, ctype_spec(f.ret));
        signature_spec(f) + " {\n"@ + frame_push_spec(b) + emit_block_spec(b, f.body, 1)
            + tail_spec(b, f.body, f.ret, f.name == "main"@) + "}\n\n"@
    } else {
        Seq::empty()
    }
}

/// Does the first function named `main` take the command line?
pub open spec fn main_takes_argv(fs: Seq<FunctionDeclV>) -> bool
    decreases fs.len(),
{
    if fs.len() == 0 {
        false
    } else if fs[0].name == "main"@ {
        fs[0].params.len() > 0
    } else {
        main_takes_argv(fs.skip(1))
    }
}

/// Does the entry point have to start and stop the runtime? Only when some
/// runtime block is emitted or some class is constructed.
pub open spec fn needs_init(r: ReachV, has_bufs: bool, debug: bool) -> bool {
    blocks_spec(r, has_bufs, debug).len() > 0 || r.classes.len() > 0
}

/// The C entry point; the `argv` form builds an `Array<String>` first.
/// `rt_init` / `rt_shutdown` bracket the user's `main` when `init` asks for
/// them (the `argv` form always does: it allocates).
pub open spec fn entry_text(argv: bool, init: bool) -> Seq<char> {
    if argv {
        "int main(int argc, char** argv) {\n    rt_init();\n    jim_c_Array_String_* jim_args = jim_new_Array_String_((int64_t)argc);\n    for (int jim_i = 0; jim_i < argc; jim_i++) {\n        jim_m_Array_String__set(jim_args, (int64_t)jim_i, rt_str_lit(argv[jim_i], (int64_t)strlen(argv[jim_i])));\n    }\n    int64_t jim_exit_code = jim_user_main(jim_args);\n    rt_shutdown();\n    return (int)jim_exit_code;\n}\n"@
    } else if init {
        "int main(void) {\n    rt_init();\n    int64_t jim_exit_code = jim_user_main();\n    rt_shutdown();\n    return (int)jim_exit_code;\n}\n"@
    } else {
        "int main(void) {\n    int64_t jim_exit_code = jim_user_main();\n    return (int)jim_exit_code;\n}\n"@
    }
}

/// The whole translation unit for a program, given what is reachable and
/// which buffers it instantiates.
pub open spec fn gen_text(cg: CgV, p: ProgramV, r: ReachV, bufs: Seq<(Seq<char>, Seq<char>)>, runtime: Seq<char>) -> Seq<char> {
    "/* generated by jimc - do not edit */\n"@
        + filter_runtime_spec(runtime, cg.panic_abort, blocks_spec(r, bufs.len() > 0, cg.debug))
        + "\n/* ==== jim classes ==== */\n\n"@
        + concat(p.classes.map_values(|c: ClassDeclV| typedef_text(cg, c))) + "\n"@
        + concat(bufs.map_values(|b: (Seq<char>, Seq<char>)| buf_text(b))) + "\n"@
        + concat(p.classes.map_values(|c: ClassDeclV| struct_text(cg, c)))
        + "/* ==== jim program ==== */\n\n"@
        + concat(p.classes.map_values(|c: ClassDeclV| class_protos(cg, r, c)))
        + concat(p.functions.map_values(|f: FunctionDeclV| fn_proto(r, f))) + "\n"@
        + concat(p.classes.map_values(|c: ClassDeclV| class_defs(cg, r, c)))
        + concat(p.functions.map_values(|f: FunctionDeclV| fn_def(cg, r, f)))
        + entry_text(main_takes_argv(p.functions), needs_init(r, bufs.len() > 0, cg.debug))
}

pub proof fn lemma_concat_step(parts: Seq<Seq<char>>, i: int)
    requires
        0 <= i < parts.len(),
    ensures
        concat(parts.take(i + 1)) == concat(parts.take(i)) + parts[i],
{
    assert(parts.take(i + 1).drop_last() =~= parts.take(i));
}

pub proof fn lemma_concat_all(parts: Seq<Seq<char>>)
    ensures
        concat(parts.take(parts.len() as int)) == concat(parts),
{
    assert(parts.take(parts.len() as int) =~= parts);
}

pub open spec fn fields_typed(fs: Seq<FieldDeclV>) -> bool {
    forall|i: int| 0 <= i < fs.len() ==> ctype_ok(#[trigger] fs[i].ty) && crate::codegen_spec::lowered_expr(fs[i].default)
}

pub open spec fn params_ok(ps: Seq<ParamV>) -> bool {
    forall|i: int| 0 <= i < ps.len() ==> ctype_ok(#[trigger] ps[i].ty)
}

/// A body the emitter can print at one level of indentation.
pub open spec fn body_ok(b: BlockV) -> bool {
    crate::codegen_spec::lowered_block(b) && 1 + crate::codegen_spec::nest_block(b) <= usize::MAX
}

pub open spec fn method_ok(m: MethodDeclV) -> bool {
    params_ok(m.params) && ctype_ok(m.ret) && body_ok(m.body)
}

pub open spec fn class_ok(c: ClassDeclV) -> bool {
    &&& fields_typed(c.fields)
    &&& (c.ctor matches Some(ct) ==> params_ok(ct.params) && body_ok(ct.body))
    &&& forall|j: int| 0 <= j < c.methods.len() ==> method_ok(#[trigger] c.methods[j])
}

pub open spec fn function_ok(f: FunctionDeclV) -> bool {
    params_ok(f.params) && ctype_ok(f.ret) && body_ok(f.body)
}

/// A type-checked program the emitter can print: every written type has a
/// C type and every body is in lowered form.
pub open spec fn program_ok(p: ProgramV) -> bool {
    &&& forall|i: int| 0 <= i < p.functions.len() ==> function_ok(#[trigger] p.functions[i])
    &&& forall|i: int| 0 <= i < p.classes.len() ==> class_ok(#[trigger] p.classes[i])
    &&& forall|i: int| 0 <= i < program_types(p).len() ==> buf_ok(#[trigger] program_types(p)[i])
}

/// The names of the user classes (every class but the core value classes), in order.
pub open spec fn user_class_names(cs: Seq<ClassDeclV>) -> Seq<Seq<char>>
    decreases cs.len(),
{
    if cs.len() == 0 {
        Seq::empty()
    } else {
        user_class_names(cs.drop_last()) + if crate::codegen_names::is_core_class_spec(cs.last().name) {
            Seq::<Seq<char>>::empty()
        } else {
            seq![cs.last().name]
        }
    }
}

/// A path with `\` separators written as `/`.
pub open spec fn slashed(s: Seq<char>) -> Seq<char> {
    s.map_values(|c: char| if c == '\\' { '/' } else { c })
}

/// The generator's state before the first body.
pub open spec fn initial_cg(p: ProgramV, files: Seq<Seq<char>>, debug: bool, panic_abort: bool) -> CgV {
    CgV {
        user_classes: user_class_names(p.classes),
        files: files.map_values(|f: Seq<char>| slashed(f)),
        panic_file: "?"@,
        panic_func: "?"@,
        debug,
        panic_abort,
        ret_ctype: "void"@,
    }
}

} // verus!
