//! The C text the code generator emits for types, expressions and
//! statements of a type-checked program.

use vstd::prelude::*;
use vstd::utf8::encode_utf8;
use crate::ast::{BinOp, BlockV, ExprKindV, ExprV, StmtKindV, StmtV, TypeV, UnOp, display_spec};
use crate::codegen_names::{c_name_spec, class_key_of_spec, core_opt_sfx_spec, escape_c_spec, has_opt_sfx, indent_spec, local_spec, mangle_method_spec, mangle_spec, opt_is_struct_spec};
use crate::text::{decimal, signed_decimal};

verus! {

/// What the code generator knows while emitting a body.
pub struct CgV {
    pub user_classes: Seq<Seq<char>>,
    pub files: Seq<Seq<char>>,
    pub panic_file: Seq<char>,
    pub panic_func: Seq<char>,
    pub debug: bool,
    pub panic_abort: bool,
    pub ret_ctype: Seq<char>,
}

/// Types the code generator can spell: every core optional payload has a
/// runtime helper (there is no `Exception?`).
pub open spec fn ctype_ok(t: TypeV) -> bool
    decreases t,
{
    match t {
        TypeV::Optional(i) => if opt_is_struct_spec(*i) { has_opt_sfx(*i) } else { ctype_ok(*i) },
        TypeV::Pointer(i) => ctype_ok(*i),
        _ => true,
    }
}

/// The C type of a jim type.
pub open spec fn ctype_spec(t: TypeV) -> Seq<char>
    decreases t,
{
    match t {
        TypeV::Named(n) => if n == "Integer"@ {
            "int64_t"@
        } else if n == "Float"@ {
            "double"@
        } else if n == "Bool"@ {
            "bool"@
        } else if n == "Char"@ {
            "uint8_t"@
        } else if n == "String"@ || n == "Exception"@ {
            "jim_str"@
        } else if n == "None"@ {
            "void"@
        } else {
            "jim_c_"@ + c_name_spec(n) + "*"@
        },
        TypeV::Generic(n, p) => if n == "RawBuffer"@ {
            "jim_buf_"@ + c_name_spec(display_spec(*p))
        } else {
            "jim_c_"@ + c_name_spec(class_key_of_spec(t)) + "*"@
        },
        TypeV::Optional(i) => if opt_is_struct_spec(*i) {
            "jim_opt_"@ + core_opt_sfx_spec(*i)
        } else {
            ctype_spec(*i)
        },
        TypeV::Pointer(i) => ctype_spec(*i) + "*"@,
    }
}

/// An optional payload the code generator can wrap, test or unwrap.
pub open spec fn payload_sfx_ok(p: TypeV) -> bool {
    opt_is_struct_spec(p) ==> has_opt_sfx(p)
}

/// An optional payload whose C type is also spelled.
pub open spec fn payload_ok(p: TypeV) -> bool {
    if opt_is_struct_spec(p) { has_opt_sfx(p) } else { ctype_ok(p) }
}

/// The forms an expression has after type checking, which is all the code
/// generator handles: operators are method calls (only `and`/`or`/`not`,
/// `&` and `*` stay), and `@panic`/`@str_from_buf` carry their arguments.
pub open spec fn lowered_expr(e: ExprV) -> bool
    decreases e,
{
    match e.kind {
        ExprKindV::Int(_) | ExprKindV::Float(_) | ExprKindV::Str(_) | ExprKindV::CharLit(_) | ExprKindV::Bool(_)
        | ExprKindV::Ident(_) | ExprKindV::This => true,
        ExprKindV::Call { args, .. } => lowered_exprs(args),
        ExprKindV::New { args, .. } => lowered_exprs(args),
        ExprKindV::CoreMethodCall { recv, args, .. } => lowered_expr(*recv) && lowered_exprs(args),
        ExprKindV::ContainerLit { elems, .. } => lowered_exprs(elems),
        ExprKindV::BufAlloc { size, .. } => lowered_expr(*size),
        ExprKindV::FieldAccess { recv, .. } => lowered_expr(*recv),
        ExprKindV::IntrinsicCall { name, args } => lowered_exprs(args)
            && (name == "panic"@ ==> args.len() >= 1) && (name == "str_from_buf"@ ==> args.len() >= 2),
        ExprKindV::OptWrap { payload, expr } => payload_sfx_ok(payload) && lowered_expr(*expr),
        ExprKindV::OptUnwrap { payload, expr } => payload_ok(payload) && lowered_expr(*expr),
        ExprKindV::OptNone { payload } => payload_ok(payload),
        ExprKindV::OptHas { payload, expr } => payload_sfx_ok(payload) && lowered_expr(*expr),
        ExprKindV::Binary { op, lhs, rhs } => (op == BinOp::And || op == BinOp::Or) && lowered_expr(*lhs) && lowered_expr(*rhs),
        ExprKindV::Unary { op, operand } => op != UnOp::Neg && lowered_expr(*operand),
        _ => false,
    }
}

/// Every expression of the list is in type-checked form.
pub open spec fn lowered_exprs(s: Seq<ExprV>) -> bool
    decreases s,
{
    forall|i: int| 0 <= i < s.len() ==> lowered_expr(#[trigger] s[i])
}

/// Parts joined by a separator.
pub open spec fn join(parts: Seq<Seq<char>>, sep: Seq<char>) -> Seq<char>
    decreases parts.len(),
{
    if parts.len() == 0 {
        Seq::empty()
    } else if parts.len() == 1 {
        parts[0]
    } else {
        join(parts.drop_last(), sep) + sep + parts.last()
    }
}

/// A float literal's spelling as C needs it: with a `.0` when it has
/// neither a point nor an exponent.
pub open spec fn float_text(t: Seq<char>) -> Seq<char> {
    if t.contains('.') || t.contains('e') || t.contains('E') { t } else { t + ".0"@ }
}

/// Debug builds record the line in the active frame before a call.
pub open spec fn line_mark_spec(cg: CgV, line: u32, call: Seq<char>) -> Seq<char> {
    if cg.debug { "(rt_frame_line("@ + decimal(line as nat) + "), "@ + call + ")"@ } else { call }
}

/// A class key naming a buffer instantiation: `RawBuffer<...>`.
pub open spec fn is_rawbuf_key(k: Seq<char>) -> bool {
    k.len() >= 11 && k.take(10) == "RawBuffer<"@ && k.last() == '>'
}

pub open spec fn rawbuf_payload(k: Seq<char>) -> Seq<char> {
    k.subrange(10, k.len() - 1)
}

/// The C text of each expression of a list.
pub open spec fn cg_list(cg: CgV, args: Seq<ExprV>) -> Seq<Seq<char>>
    decreases args, 0nat,
{
    Seq::new(args.len(), |i: int| if 0 <= i < args.len() { cg_expr_spec(cg, args[i]) } else { Seq::empty() })
}

/// The statements that fill a container literal `jim_lit`, for its first `n` elements.
pub open spec fn container_items(cg: CgV, k: Seq<char>, is_array: bool, elems: Seq<ExprV>, n: nat) -> Seq<char>
    decreases elems, n,
{
    if n == 0 || n > elems.len() {
        Seq::empty()
    } else {
        let i = (n - 1) as nat;
        container_items(cg, k, is_array, elems, i) + if is_array {
            "jim_m_"@ + k + "_set(jim_lit, INT64_C("@ + decimal(i) + "), "@ + cg_expr_spec(cg, elems[i as int]) + "); "@
        } else {
            "jim_m_"@ + k + "_push(jim_lit, "@ + cg_expr_spec(cg, elems[i as int]) + "); "@
        }
    }
}

/// The C expression for a type-checked jim expression.
pub open spec fn cg_expr_spec(cg: CgV, e: ExprV) -> Seq<char>
    decreases e, 0nat,
{
    match e.kind {
        ExprKindV::Int(v) => "INT64_C("@ + signed_decimal(v as int) + ")"@,
        ExprKindV::Float(t) => float_text(t),
        ExprKindV::Str(s) => "rt_str_lit(\""@ + escape_c_spec(encode_utf8(s)) + "\", "@ + decimal(encode_utf8(s).len()) + ")"@,
        ExprKindV::CharLit(c) => decimal(c as nat) + "u"@,
        ExprKindV::Bool(b) => if b { "true"@ } else { "false"@ },
        ExprKindV::Ident(n) => local_spec(n),
        ExprKindV::This => "jl_this"@,
        ExprKindV::Call { name, args } => line_mark_spec(cg, e.line, mangle_spec(name) + "("@ + join(cg_list(cg, args), ", "@) + ")"@),
        ExprKindV::New { class, args } => line_mark_spec(
            cg,
            e.line,
            "jim_new_"@ + c_name_spec(class) + "("@ + join(cg_list(cg, args), ", "@) + ")"@,
        ),
        ExprKindV::CoreMethodCall { class, name, recv, args } => {
            let all = seq![cg_expr_spec(cg, *recv)] + cg_list(cg, args);
            if is_rawbuf_key(class) {
                "jim_buf_"@ + c_name_spec(rawbuf_payload(class)) + "_"@ + name + "("@ + join(all, ", "@) + ")"@
            } else {
                line_mark_spec(cg, e.line, mangle_method_spec(class, name) + "("@ + join(all, ", "@) + ")"@)
            }
        },
        ExprKindV::ContainerLit { class, is_array, elems } => {
            let k = c_name_spec(class);
            "({ jim_c_"@ + k + "* jim_lit = jim_new_"@ + k + "("@
                + (if is_array { "INT64_C("@ + decimal(elems.len()) + ")"@ } else { Seq::empty() })
                + "); "@ + container_items(cg, k, is_array, elems, elems.len()) + "jim_lit; })"@
        },
        ExprKindV::BufAlloc { elem, size } => "jim_buf_"@ + c_name_spec(display_spec(elem)) + "_alloc("@
            + cg_expr_spec(cg, *size) + ")"@,
        ExprKindV::FieldAccess { recv, name } => "("@ + cg_expr_spec(cg, *recv) + ")->f_"@ + name,
        ExprKindV::IntrinsicCall { name, args } => {
            let a = cg_list(cg, args);
            if name == "panic"@ {
                line_mark_spec(
                    cg,
                    e.line,
                    "rt_panic_at("@ + a[0] + ", \""@ + escape_c_spec(encode_utf8(cg.panic_file)) + "\", "@
                        + decimal(e.line as nat) + ", \""@ + escape_c_spec(encode_utf8(cg.panic_func)) + "\")"@,
                )
            } else if name == "str_from_buf"@ {
                "rt_str_from_bytes(("@ + a[0] + ").data, "@ + a[1] + ")"@
            } else {
                line_mark_spec(cg, e.line, "rt_"@ + name + "("@ + join(a, ", "@) + ")"@)
            }
        },
        ExprKindV::OptWrap { payload, expr } => if opt_is_struct_spec(payload) {
            "rt_opt_"@ + core_opt_sfx_spec(payload) + "_some("@ + cg_expr_spec(cg, *expr) + ")"@
        } else {
            "("@ + cg_expr_spec(cg, *expr) + ")"@
        },
        ExprKindV::OptUnwrap { payload, expr } => if opt_is_struct_spec(payload) {
            "rt_opt_"@ + core_opt_sfx_spec(payload) + "_get("@ + cg_expr_spec(cg, *expr) + ")"@
        } else {
            "(("@ + ctype_spec(payload) + ")rt_nonnull("@ + cg_expr_spec(cg, *expr) + ", \""@ + display_spec(payload) + "\"))"@
        },
        ExprKindV::OptNone { payload } => if opt_is_struct_spec(payload) {
            "rt_opt_"@ + core_opt_sfx_spec(payload) + "_none()"@
        } else {
            "(("@ + ctype_spec(payload) + ")NULL)"@
        },
        ExprKindV::OptHas { payload, expr } => if opt_is_struct_spec(payload) {
            "rt_opt_"@ + core_opt_sfx_spec(payload) + "_has("@ + cg_expr_spec(cg, *expr) + ")"@
        } else {
            "(("@ + cg_expr_spec(cg, *expr) + ") != NULL)"@
        },
        ExprKindV::Binary { op, lhs, rhs } => "("@ + cg_expr_spec(cg, *lhs) + (if op == BinOp::And { " && "@ } else { " || "@ })
            + cg_expr_spec(cg, *rhs) + ")"@,
        ExprKindV::Unary { op, operand } => if op == UnOp::Not {
            "!("@ + cg_expr_spec(cg, *operand) + ")"@
        } else if op == UnOp::AddrOf {
            "(&"@ + cg_expr_spec(cg, *operand) + ")"@
        } else {
            "(*"@ + cg_expr_spec(cg, *operand) + ")"@
        },
        _ => Seq::empty(),
    }
}

// ---------------- statements ----------------

/// Assignment targets after type checking: a variable, a field, `*pointer`.
pub open spec fn lowered_target(e: ExprV) -> bool {
    match e.kind {
        ExprKindV::Ident(_) => true,
        ExprKindV::FieldAccess { recv, .. } => lowered_expr(*recv),
        ExprKindV::Unary { op, operand } => op == UnOp::Deref && lowered_expr(*operand),
        _ => false,
    }
}

pub open spec fn cg_target_spec(cg: CgV, e: ExprV) -> Seq<char> {
    match e.kind {
        ExprKindV::Ident(n) => local_spec(n),
        ExprKindV::FieldAccess { recv, name } => "("@ + cg_expr_spec(cg, *recv) + ")->f_"@ + name,
        ExprKindV::Unary { operand, .. } => "(*"@ + cg_expr_spec(cg, *operand) + ")"@,
        _ => Seq::empty(),
    }
}

/// The step of a C-style `for` after type checking: an assignment or an expression.
pub open spec fn lowered_step(s: StmtV) -> bool {
    match s.kind {
        StmtKindV::Assign { target, value, .. } => lowered_target(target) && lowered_expr(value),
        StmtKindV::ExprStmt(e) => lowered_expr(e),
        _ => false,
    }
}

pub open spec fn cg_step_spec(cg: CgV, s: StmtV) -> Seq<char> {
    match s.kind {
        StmtKindV::Assign { target, value, .. } => cg_target_spec(cg, target) + " = "@ + cg_expr_spec(cg, value),
        StmtKindV::ExprStmt(e) => cg_expr_spec(cg, e),
        _ => Seq::empty(),
    }
}

/// The statements the code generator handles: everything type checking
/// produces (`++`/`--` and for-in are rewritten before).
pub open spec fn lowered_stmt(s: StmtV) -> bool
    decreases s, 0nat,
{
    match s.kind {
        StmtKindV::VarDecl { ty, init, .. } => ctype_ok(ty) && lowered_expr(init),
        StmtKindV::Assign { target, value, .. } => lowered_target(target) && lowered_expr(value),
        StmtKindV::ExprStmt(e) => lowered_expr(e),
        StmtKindV::Return(v) => match v {
            Some(e) => lowered_expr(e),
            None => true,
        },
        StmtKindV::If { arms, else_block } => lowered_arms(arms) && match else_block {
            Some(b) => lowered_block(b),
            None => true,
        },
        StmtKindV::While { cond, body } => lowered_expr(cond) && lowered_block(body),
        StmtKindV::ForC { var_ty, init, cond, step, body, .. } => ctype_ok(var_ty) && lowered_expr(init) && lowered_expr(cond)
            && lowered_step(*step) && lowered_block(body),
        StmtKindV::Break | StmtKindV::Continue => true,
        StmtKindV::Scope(b) => lowered_block(b),
        StmtKindV::TryCatch { body, catch_body, .. } => lowered_block(body) && lowered_block(catch_body),
        _ => false,
    }
}

pub open spec fn lowered_block(b: BlockV) -> bool
    decreases b, 1nat,
{
    forall|i: int| 0 <= i < b.stmts.len() ==> lowered_stmt(#[trigger] b.stmts[i])
}

pub open spec fn lowered_arms(arms: Seq<(ExprV, BlockV)>) -> bool
    decreases arms, 1nat,
{
    forall|i: int| 0 <= i < arms.len() ==> lowered_expr(#[trigger] arms[i].0) && lowered_block(arms[i].1)
}

pub open spec fn max(a: nat, b: nat) -> nat {
    if a >= b { a } else { b }
}

/// How many levels of indentation a statement adds below its own.
pub open spec fn nest_stmt(s: StmtV) -> nat
    decreases s, 0nat,
{
    match s.kind {
        StmtKindV::If { arms, else_block } => 1 + max(nest_arms(arms, arms.len()), match else_block {
            Some(b) => nest_block(b),
            None => 0,
        }),
        StmtKindV::While { body, .. } => 1 + nest_block(body),
        StmtKindV::ForC { body, .. } => 1 + nest_block(body),
        StmtKindV::ForIn { body, .. } => 1 + nest_block(body),
        StmtKindV::Scope(b) => 1 + nest_block(b),
        StmtKindV::TryCatch { body, catch_body, .. } => 2 + max(nest_block(body), nest_block(catch_body)),
        _ => 0,
    }
}

pub open spec fn nest_block(b: BlockV) -> nat
    decreases b, 1nat,
{
    nest_stmts(b.stmts, b.stmts.len())
}

pub open spec fn nest_stmts(s: Seq<StmtV>, n: nat) -> nat
    decreases s, n,
{
    if n == 0 || n > s.len() { 0 } else { max(nest_stmts(s, (n - 1) as nat), nest_stmt(s[n - 1])) }
}

pub open spec fn nest_arms(arms: Seq<(ExprV, BlockV)>, n: nat) -> nat
    decreases arms, n,
{
    if n == 0 || n > arms.len() { 0 } else { max(nest_arms(arms, (n - 1) as nat), nest_block(arms[n - 1].1)) }
}

/// The C text of a statement at indentation `depth`.
pub open spec fn emit_stmt_spec(cg: CgV, s: StmtV, depth: nat) -> Seq<char>
    decreases s, 0nat,
{
    let ind = indent_spec(depth);
    let ind1 = indent_spec(depth + 1);
    let ind2 = indent_spec(depth + 2);
    match s.kind {
        StmtKindV::VarDecl { name, ty, init, .. } => ind + ctype_spec(ty) + " "@ + local_spec(name) + " = "@
            + cg_expr_spec(cg, init) + ";\n"@,
        StmtKindV::Assign { target, value, .. } => ind + cg_target_spec(cg, target) + " = "@ + cg_expr_spec(cg, value) + ";\n"@,
        StmtKindV::ExprStmt(e) => ind + cg_expr_spec(cg, e) + ";\n"@,
        StmtKindV::Return(v) => ind + match v {
            Some(e) => if cg.debug {
                "{ "@ + cg.ret_ctype + " jim_rv = "@ + cg_expr_spec(cg, e) + "; rt_pop_frame(); return jim_rv; }\n"@
            } else {
                "return "@ + cg_expr_spec(cg, e) + ";\n"@
            },
            None => if cg.debug { "{ rt_pop_frame(); return; }\n"@ } else { "return;\n"@ },
        },
        StmtKindV::If { arms, else_block } => ind + emit_arms_spec(cg, arms, depth, arms.len()) + match else_block {
            Some(b) => " else {\n"@ + emit_block_spec(cg, b, depth + 1) + ind + "}"@,
            None => Seq::empty(),
        } + "\n"@,
        StmtKindV::While { cond, body } => ind + "while ("@ + cg_expr_spec(cg, cond) + ") {\n"@ + emit_block_spec(cg, body, depth + 1)
            + ind + "}\n"@,
        StmtKindV::ForC { var_name, var_ty, init, cond, step, body } => ind + "for ("@ + ctype_spec(var_ty) + " "@
            + local_spec(var_name) + " = "@ + cg_expr_spec(cg, init) + "; "@ + cg_expr_spec(cg, cond) + "; "@
            + cg_step_spec(cg, *step) + ") {\n"@ + emit_block_spec(cg, body, depth + 1) + ind + "}\n"@,
        StmtKindV::Break => ind + "break;\n"@,
        StmtKindV::Continue => ind + "continue;\n"@,
        StmtKindV::Scope(b) => ind + "{\n"@ + emit_block_spec(cg, b, depth + 1) + ind + "}\n"@,
        StmtKindV::TryCatch { body, var_name, catch_body, .. } => if cg.panic_abort {
            ind + "{ /* try (panic=abort: catch omitted) */\n"@ + emit_block_spec(cg, body, depth + 1) + ind + "}\n"@
        } else {
            try_handler_text(emit_block_spec(cg, body, depth + 2), var_name, emit_block_spec(cg, catch_body, depth + 2), depth)
        },
        _ => Seq::empty(),
    }
}

/// A `try`/`catch` as a setjmp handler around the emitted body and catch
/// body: the body runs with the handler installed; a panic lands in the
/// catch body with the exception bound.
pub open spec fn try_handler_text(body: Seq<char>, var_name: Seq<char>, catch_body: Seq<char>, depth: nat) -> Seq<char> {
    let ind = indent_spec(depth);
    let ind1 = indent_spec(depth + 1);
    let ind2 = indent_spec(depth + 2);
    ind + "{\n"@ + ind1 + "rt_handler jim_h;\n"@ + ind1 + "jim_h.prev = rt_handlers;\n"@ + ind1
        + "jim_h.frame_top = rt_frame_top;\n"@ + ind1 + "rt_handlers = &jim_h;\n"@ + ind1
        + "if (setjmp(jim_h.buf) == 0) {\n"@ + body + ind2
        + "rt_handlers = jim_h.prev; /* normal exit */\n"@ + ind1 + "} else {\n"@ + ind2 + "jim_str "@
        + local_spec(var_name) + " = rt_current_exc;\n"@ + catch_body + ind1
        + "}\n"@ + ind + "}\n"@
}

/// The `if (...) { ... }` arms of a chain, joined by ` else `, for its first `n` arms.
pub open spec fn emit_arms_spec(cg: CgV, arms: Seq<(ExprV, BlockV)>, depth: nat, n: nat) -> Seq<char>
    decreases arms, n,
{
    if n == 0 || n > arms.len() {
        Seq::empty()
    } else {
        emit_arms_spec(cg, arms, depth, (n - 1) as nat) + (if n > 1 { " else "@ } else { Seq::empty() }) + "if ("@
            + cg_expr_spec(cg, arms[n - 1].0) + ") {\n"@ + emit_block_spec(cg, arms[n - 1].1, depth + 1)
            + indent_spec(depth) + "}"@
    }
}

/// The C text of a block's statements at indentation `depth`.
pub open spec fn emit_block_spec(cg: CgV, b: BlockV, depth: nat) -> Seq<char>
    decreases b, 1nat,
{
    emit_stmts_spec(cg, b.stmts, depth, b.stmts.len())
}

pub open spec fn emit_stmts_spec(cg: CgV, s: Seq<StmtV>, depth: nat, n: nat) -> Seq<char>
    decreases s, n,
{
    if n == 0 || n > s.len() { Seq::empty() } else { emit_stmts_spec(cg, s, depth, (n - 1) as nat) + emit_stmt_spec(cg, s[n - 1], depth) }
}

pub proof fn lemma_nest_stmts(s: Seq<StmtV>, n: nat, i: int)
    requires
        0 <= i < n <= s.len(),
    ensures
        nest_stmts(s, n) >= nest_stmt(s[i]),
    decreases n,
{
    if i < n - 1 {
        lemma_nest_stmts(s, (n - 1) as nat, i);
    }
}

pub proof fn lemma_nest_arms(arms: Seq<(ExprV, BlockV)>, n: nat, i: int)
    requires
        0 <= i < n <= arms.len(),
    ensures
        nest_arms(arms, n) >= nest_block(arms[i].1),
    decreases n,
{
    if i < n - 1 {
        lemma_nest_arms(arms, (n - 1) as nat, i);
    }
}

/// jim's `and`, `or` and `not` become C's `&&`, `||` and `!` over the C
/// text of their operands, parenthesized: `a and b` is `(a && b)`, `a or b`
/// is `(a || b)`, `not a` is `!(a)`.
pub proof fn lemma_logic_in_c(cg: CgV, a: ExprV, b: ExprV, line: u32, col: u32)
    ensures
        cg_expr_spec(cg, ExprV { kind: ExprKindV::Binary { op: BinOp::And, lhs: Box::new(a), rhs: Box::new(b) }, line, col })
            == "("@ + cg_expr_spec(cg, a) + " && "@ + cg_expr_spec(cg, b) + ")"@,
        cg_expr_spec(cg, ExprV { kind: ExprKindV::Binary { op: BinOp::Or, lhs: Box::new(a), rhs: Box::new(b) }, line, col })
            == "("@ + cg_expr_spec(cg, a) + " || "@ + cg_expr_spec(cg, b) + ")"@,
        cg_expr_spec(cg, ExprV { kind: ExprKindV::Unary { op: UnOp::Not, operand: Box::new(a) }, line, col })
            == "!("@ + cg_expr_spec(cg, a) + ")"@,
{
}

proof fn lemma_join_first(parts: Seq<Seq<char>>, sep: Seq<char>)
    requires
        parts.len() > 0,
    ensures
        parts[0].is_prefix_of(join(parts, sep)),
    decreases parts.len(),
{
    if parts.len() > 1 {
        lemma_join_first(parts.drop_last(), sep);
        let j = join(parts.drop_last(), sep);
        assert(join(parts, sep) == j + sep + parts.last());
        assert(parts.drop_last()[0] == parts[0]);
        assert(parts[0].is_prefix_of(j));
        assert forall|i: int| 0 <= i < parts[0].len() implies parts[0][i] == join(parts, sep)[i] by {
            assert((j + sep + parts.last())[i] == j[i]);
        }
    }
}

/// A method call in C passes the receiver first: the call of `m` on a value
/// of class `c` reads `jim_m_<c>_<m>(` followed by the receiver's C text
/// (before any argument), and Bool literals are C's `true` and `false`.
pub proof fn lemma_receiver_first(cg: CgV, class: Seq<char>, name: Seq<char>, recv: ExprV, args: Seq<ExprV>, line: u32, col: u32)
    requires
        !cg.debug,
        !is_rawbuf_key(class),
    ensures
        (mangle_method_spec(class, name) + "("@ + cg_expr_spec(cg, recv)).is_prefix_of(cg_expr_spec(cg,
            ExprV { kind: ExprKindV::CoreMethodCall { class, name, recv: Box::new(recv), args }, line, col })),
        cg_expr_spec(cg, ExprV { kind: ExprKindV::Bool(true), line, col }) == "true"@,
        cg_expr_spec(cg, ExprV { kind: ExprKindV::Bool(false), line, col }) == "false"@,
{
    let all = seq![cg_expr_spec(cg, recv)] + cg_list(cg, args);
    lemma_join_first(all, ", "@);
    assert(all[0] == cg_expr_spec(cg, recv));
    let pre = mangle_method_spec(class, name) + "("@;
    let whole = pre + join(all, ", "@) + ")"@;
    let want = pre + cg_expr_spec(cg, recv);
    assert forall|i: int| 0 <= i < want.len() implies want[i] == whole[i] by {
        if i < pre.len() {
        } else {
            assert(join(all, ", "@)[i - pre.len()] == cg_expr_spec(cg, recv)[i - pre.len()]);
        }
    }
}

} // verus!
