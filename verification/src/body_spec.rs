//! What typing a body's statements means: declarations extend the
//! innermost scope, blocks open and close scopes, loops and `try` blocks
//! govern where `break`, `continue` and `return` may stand, `x++` is
//! `x += 1`, and `for (x: T in it)` is an index loop over a hidden copy of
//! `it`.

use vstd::prelude::*;
use crate::ast::{AssignOp, BlockV, ExprKindV, ExprV, StmtKindV, StmtV, TypeV, UnOp, display_spec, names_v};
use crate::calls::{OriginV, augmented_spec, compound_of, compound_target_error, condition_spec, core_call_spec, declared_type_spec, err_v, method_params_spec, op_label, resolve_field_spec, widen_spec};
use crate::errors::JimErrorV;
use crate::lowering_spec::{InstV, MismatchV, PlaceV, Tables, expect_spec, lower_spec, surface};
use crate::sema::{ScopeV, scope_get};
use crate::stmt_rules::{catch_error, for_in_loop_spec, for_in_names, jump_error, return_error};
use crate::typing::{coerce_spec, deopt_spec};

verus! {

/// What stays fixed while a body is typed: its name (for messages), its
/// result type, its class and `this` type, and whether it is std code.
pub struct BodyV {
    pub fn_name: Seq<char>,
    pub ret: TypeV,
    pub current: Option<Seq<char>>,
    pub this_ty: Option<TypeV>,
    pub from_std: bool,
}

pub open spec fn place_v(b: BodyV, scopes: Seq<ScopeV>) -> PlaceV {
    PlaceV { scopes, current: b.current, this_ty: b.this_ty, from_std: b.from_std }
}

/// `name` declared in the innermost scope (unless that scope holds it).
pub open spec fn declare_in(scopes: Seq<ScopeV>, name: Seq<char>, ty: TypeV, is_const: bool) -> Seq<ScopeV> {
    if scopes.len() > 0 && scope_get(scopes.last(), name) is None {
        scopes.update(scopes.len() - 1, scopes.last().push((name, ty, is_const)))
    } else {
        scopes
    }
}

pub open spec fn int_t() -> TypeV {
    TypeV::Named("Integer"@)
}

/// A weight of statements that their typing strictly decreases (a for-in
/// loop weighs more than the loop it stands for).
pub open spec fn stmt_size(s: StmtV) -> nat
    decreases s, 1nat,
{
    match s.kind {
        StmtKindV::If { arms, else_block } => 1 + arms_size(arms, arms.len()) + match else_block {
            Some(b) => block_size(b),
            None => 0,
        },
        StmtKindV::While { body, .. } => 1 + block_size(body),
        StmtKindV::ForC { step, body, .. } => 1 + stmt_size(*step) + block_size(body),
        StmtKindV::ForIn { body, .. } => 6 + block_size(body),
        StmtKindV::Scope(b) => 1 + block_size(b),
        StmtKindV::TryCatch { body, catch_body, .. } => 1 + block_size(body) + block_size(catch_body),
        _ => 1,
    }
}

pub open spec fn block_size(b: BlockV) -> nat
    decreases b, 0nat,
{
    1 + stmts_size(b.stmts, b.stmts.len())
}

pub open spec fn stmts_size(ss: Seq<StmtV>, n: nat) -> nat
    decreases ss, n,
{
    if n == 0 || n > ss.len() {
        0
    } else {
        stmts_size(ss, (n - 1) as nat) + stmt_size(ss[n - 1]) + 1
    }
}

pub open spec fn arms_size(arms: Seq<(ExprV, BlockV)>, n: nat) -> nat
    decreases arms, n,
{
    if n == 0 || n > arms.len() {
        0
    } else {
        arms_size(arms, (n - 1) as nat) + block_size(arms[n - 1].1) + 1
    }
}

/// A target the parser accepts on the left of `=`.
pub open spec fn assignable(t: ExprV) -> bool {
    surface(t) && (t.kind is Ident || t.kind is Index || t.kind is FieldAccess
        || (t.kind is Unary && t.kind->Unary_op == UnOp::Deref))
}

/// Statements as the parser makes them: surface expressions, assignable
/// targets, and no bare scopes.
pub open spec fn stmt_ok(s: StmtV) -> bool
    decreases s, 1nat,
{
    match s.kind {
        StmtKindV::VarDecl { init, .. } => surface(init),
        StmtKindV::Assign { target, value, .. } => assignable(target) && surface(value),
        StmtKindV::IncDec { target, .. } => assignable(target),
        StmtKindV::ExprStmt(e) => surface(e),
        StmtKindV::Return(v) => match v {
            Some(e) => surface(e),
            None => true,
        },
        StmtKindV::If { arms, else_block } => arms_ok(arms, arms.len()) && match else_block {
            Some(b) => block_ok(b),
            None => true,
        },
        StmtKindV::While { cond, body } => surface(cond) && block_ok(body),
        StmtKindV::ForC { init, cond, step, body, .. } => surface(init) && surface(cond) && stmt_ok(*step) && block_ok(body),
        StmtKindV::ForIn { iterable, body, .. } => surface(iterable) && block_ok(body),
        StmtKindV::Scope(_) => false,
        StmtKindV::TryCatch { body, catch_body, .. } => block_ok(body) && block_ok(catch_body),
        StmtKindV::Break => true,
        StmtKindV::Continue => true,
    }
}

pub open spec fn block_ok(b: BlockV) -> bool
    decreases b, 0nat,
{
    stmts_ok(b.stmts, b.stmts.len())
}

pub open spec fn stmts_ok(ss: Seq<StmtV>, n: nat) -> bool
    decreases ss, n,
{
    if n == 0 || n > ss.len() {
        true
    } else {
        stmts_ok(ss, (n - 1) as nat) && stmt_ok(ss[n - 1])
    }
}

pub open spec fn arms_ok(arms: Seq<(ExprV, BlockV)>, n: nat) -> bool
    decreases arms, n,
{
    if n == 0 || n > arms.len() {
        true
    } else {
        arms_ok(arms, (n - 1) as nat) && surface(arms[n - 1].0) && block_ok(arms[n - 1].1)
    }
}

/// `recv[i] = value` once the receiver (`re`: `rt`) and index (`ie`) are
/// typed: through `set(i, value)`, with the value expected as `set`'s
/// element type when `set` has the usual two parameters.
#[verifier::opaque]
pub open spec fn index_set_spec(t: Tables, b: BodyV, scopes: Seq<ScopeV>, re: ExprV, rt: TypeV, ie: ExprV, value: ExprV, line: u32, col: u32) -> Result<(StmtKindV, Seq<InstV>), JimErrorV> {
    let pl = place_v(b, scopes);
    let set_origin = OriginV::Operator("index assignment '[...] ='"@);
    match method_params_spec(t.classes@, rt, "set"@) {
        Some(ps) if ps.len() == 2 => match expect_spec(t, pl, value, ps[1], MismatchV::ElemAssign) {
            Err(x) => Err(x),
            Ok((ve, vr)) => match core_call_spec(t.classes@, b.current, rt, "set"@, re, seq![(ie, int_t()), (ve, ps[1])], line, col, set_origin) {
                Err(x) => Err(x),
                Ok((call, _)) => Ok((StmtKindV::ExprStmt(call), vr)),
            },
        },
        _ => match lower_spec(t, pl, value) {
            Err(x) => Err(x),
            Ok((ve, vt, vr)) => match core_call_spec(t.classes@, b.current, rt, "set"@, re, seq![(ie, int_t()), (ve, vt)], line, col, set_origin) {
                Err(x) => Err(x),
                Ok((call, _)) => Ok((StmtKindV::ExprStmt(call), vr)),
            },
        },
    }
}

/// `recv[i] op= value` once the receiver and index are typed:
/// `recv.set(i, recv.get(i).method(value))`, the combined value storing back
/// into the element type.
#[verifier::opaque]
pub open spec fn index_compound_spec(t: Tables, b: BodyV, scopes: Seq<ScopeV>, re: ExprV, rt: TypeV, ie: ExprV, sym: Seq<char>, method: Seq<char>, value: ExprV, line: u32, col: u32) -> Result<(StmtKindV, Seq<InstV>), JimErrorV> {
    let pl = place_v(b, scopes);
    let origin = OriginV::Operator(op_label(sym));
    let set_params = method_params_spec(t.classes@, rt, "set"@);
    match lower_spec(t, pl, value) {
        Err(x) => Err(x),
        Ok((ve, vt, vr)) => match core_call_spec(t.classes@, b.current, rt, "get"@, re, seq![(ie, int_t())], line, col, origin) {
            Err(x) => Err(x),
            Ok((gc, gt)) => match widen_spec(t.classes@, b.current, deopt_spec(gc, gt), deopt_spec(ve, vt)) {
                Err(x) => Err(x),
                Ok((r3, v3)) => match core_call_spec(t.classes@, b.current, r3.1, method, r3.0, seq![v3], line, col, origin) {
                    Err(x) => Err(x),
                    Ok((combined, rty)) => {
                        let elem_want = match set_params {
                            Some(ps) if ps.len() == 2 => ps[1],
                            _ => rty,
                        };
                        match coerce_spec(combined, rty, elem_want) {
                            None => Err(err_v("operator '"@ + sym + "': result is "@ + display_spec(rty) + " but the element type is "@ + display_spec(elem_want), line, col)),
                            Some(c) => match core_call_spec(t.classes@, b.current, rt, "set"@, re, seq![(ie, int_t()), (c, elem_want)], line, col, origin) {
                                Err(x) => Err(x),
                                Ok((sc, _)) => Ok((StmtKindV::ExprStmt(sc), vr)),
                            },
                        }
                    },
                },
            },
        },
    }
}

/// An assignment `target op value` (with `op` `=` or compound): a variable
/// (declared, not constant, not storing a pointer that would outlive its
/// target), an element `recv[i]` through the class's `get`/`set`, a field
/// (visible), or `*p`. Compound forms combine through the operator's method
/// and must store back into the target's type.
#[verifier::opaque]
pub open spec fn assign_spec(
    t: Tables,
    b: BodyV,
    scopes: Seq<ScopeV>,
    target: ExprV,
    op: AssignOp,
    value: ExprV,
    line: u32,
    col: u32,
) -> Result<(StmtKindV, Seq<InstV>), JimErrorV> {
    let pl = place_v(b, scopes);
    match target.kind {
        ExprKindV::Ident(name) => match crate::calls::var_assign_spec(scopes, name, value, line, col, target.line, target.col) {
            Err(x) => Err(x),
            Ok(vt) => match compound_of(op) {
                None => match expect_spec(t, pl, value, vt, MismatchV::VarAssign(name)) {
                    Err(x) => Err(x),
                    Ok((ve, rs)) => Ok((StmtKindV::Assign { target, op: AssignOp::Plain, value: ve }, rs)),
                },
                Some((sym, method)) => match lower_spec(t, pl, value) {
                    Err(x) => Err(x),
                    Ok((ve, vty, rs)) => match augmented_spec(t.classes@, b.current, "'"@ + name + "'"@, target, vt, method, sym, (ve, vty), line, col) {
                        Err(x) => Err(x),
                        Ok(c) => Ok((StmtKindV::Assign { target, op: AssignOp::Plain, value: c }, rs)),
                    },
                },
            },
        },
        ExprKindV::Index { recv, index } => match compound_target_error(op, target) {
            Some(m) => Err(err_v(m, line, col)),
            None => match lower_spec(t, pl, *recv) {
                Err(x) => Err(x),
                Ok((re0, rt0, rr)) => {
                    let (re, rt) = deopt_spec(re0, rt0);
                    match expect_spec(t, pl, *index, int_t(), MismatchV::Index) {
                        Err(x) => Err(x),
                        Ok((ie, ir)) => match compound_of(op) {
                            None => match index_set_spec(t, b, scopes, re, rt, ie, value, line, col) {
                                Err(x) => Err(x),
                                Ok((k, vr)) => Ok((k, rr + ir + vr)),
                            },
                            Some((sym, method)) => match index_compound_spec(t, b, scopes, re, rt, ie, sym, method, value, line, col) {
                                Err(x) => Err(x),
                                Ok((k, vr)) => Ok((k, rr + ir + vr)),
                            },
                        },
                    }
                },
            },
        },
        ExprKindV::FieldAccess { recv, name: fname } => match compound_target_error(op, target) {
            Some(m) => Err(err_v(m, line, col)),
            None => match lower_spec(t, pl, *recv) {
                Err(x) => Err(x),
                Ok((re0, rt0, rr)) => {
                    let (re, rt) = deopt_spec(re0, rt0);
                    match resolve_field_spec(t.classes@, b.current, rt, fname, target.line, target.col) {
                        Err(x) => Err(x),
                        Ok((_, fty)) => {
                            let lt = ExprV { kind: ExprKindV::FieldAccess { recv: Box::new(re), name: fname }, line: target.line, col: target.col };
                            match compound_of(op) {
                                None => match expect_spec(t, pl, value, fty, MismatchV::FieldAssign(fname)) {
                                    Err(x) => Err(x),
                                    Ok((ve, vr)) => Ok((StmtKindV::Assign { target: lt, op: AssignOp::Plain, value: ve }, rr + vr)),
                                },
                                Some((sym, method)) => match lower_spec(t, pl, value) {
                                    Err(x) => Err(x),
                                    Ok((ve, vt, vr)) => match augmented_spec(t.classes@, b.current, "field '"@ + fname + "'"@, lt, fty, method, sym, (ve, vt), line, col) {
                                        Err(x) => Err(x),
                                        Ok(c) => Ok((StmtKindV::Assign { target: lt, op: AssignOp::Plain, value: c }, rr + vr)),
                                    },
                                },
                            }
                        },
                    }
                },
            },
        },
        ExprKindV::Unary { op: uop, operand } => match compound_target_error(op, target) {
            Some(m) => Err(err_v(m, line, col)),
            None => match lower_spec(t, pl, *operand) {
                Err(x) => Err(x),
                Ok((pe0, pt0, pr)) => {
                    let (ptr, pty) = deopt_spec(pe0, pt0);
                    match pty {
                        TypeV::Pointer(inner) => {
                            let lt = ExprV { kind: ExprKindV::Unary { op: UnOp::Deref, operand: Box::new(ptr) }, line: target.line, col: target.col };
                            match compound_of(op) {
                                None => match expect_spec(t, pl, value, *inner, MismatchV::PointerAssign) {
                                    Err(x) => Err(x),
                                    Ok((ve, vr)) => Ok((StmtKindV::Assign { target: lt, op: AssignOp::Plain, value: ve }, pr + vr)),
                                },
                                Some((sym, method)) => match lower_spec(t, pl, value) {
                                    Err(x) => Err(x),
                                    Ok((ve, vt, vr)) => match augmented_spec(t.classes@, b.current, "the pointed-to value"@, lt, *inner, method, sym, (ve, vt), line, col) {
                                        Err(x) => Err(x),
                                        Ok(c) => Ok((StmtKindV::Assign { target: lt, op: AssignOp::Plain, value: c }, pr + vr)),
                                    },
                                },
                            }
                        },
                        _ => Err(err_v("'*' needs a pointer, found "@ + display_spec(pty), ptr.line, ptr.col)),
                    }
                },
            },
        },
        _ => Err(err_v(Seq::empty(), line, col)),
    }
}

/// Typing one statement at loop depth `depth`, with `marks` the loop depths
/// at which the enclosing `try` blocks began, in the scopes `scopes`: the
/// lowered statement, the scopes after it, and the instances it asks for.
#[verifier::opaque]
pub open spec fn stmt_spec(t: Tables, b: BodyV, depth: u32, marks: Seq<u32>, scopes: Seq<ScopeV>, s: StmtV) -> Result<(StmtV, Seq<ScopeV>, Seq<InstV>), JimErrorV>
    decreases stmt_size(s), 1nat,
{
    let (line, col) = (s.line, s.col);
    let pl = place_v(b, scopes);
    match s.kind {
        StmtKindV::VarDecl { is_const, name, ty, init } => match declared_type_spec(names_v(t.known@), name, ty, line, col) {
            Some(x) => Err(x),
            None => match expect_spec(t, pl, init, ty, MismatchV::VarInit(name)) {
                Err(x) => Err(x),
                Ok((ie, rs)) => if scope_get(scopes.last(), name) is Some {
                    Err(err_v("'"@ + name + "' is already declared in this scope"@, line, col))
                } else {
                    Ok((StmtV { kind: StmtKindV::VarDecl { is_const, name, ty, init: ie }, line, col }, declare_in(scopes, name, ty, is_const), rs))
                },
            },
        },
        StmtKindV::Assign { target, op, value } => match assign_spec(t, b, scopes, target, op, value, line, col) {
            Err(x) => Err(x),
            Ok((k, rs)) => Ok((StmtV { kind: k, line, col }, scopes, rs)),
        },
        StmtKindV::IncDec { target, inc } => match assign_spec(t, b, scopes, target, if inc { AssignOp::Add } else { AssignOp::Sub }, ExprV { kind: ExprKindV::Int(1), line, col }, line, col) {
            Err(x) => Err(x),
            Ok((k, rs)) => Ok((StmtV { kind: k, line, col }, scopes, rs)),
        },
        StmtKindV::ExprStmt(e) => match lower_spec(t, pl, e) {
            Err(x) => Err(x),
            Ok((x, _, rs)) => Ok((StmtV { kind: StmtKindV::ExprStmt(x), line, col }, scopes, rs)),
        },
        StmtKindV::Return(v) => match return_error(marks.len() > 0, b.fn_name, b.ret, v is Some) {
            Some(m) => Err(err_v(m, line, col)),
            None => match v {
                Some(e) => match expect_spec(t, pl, e, b.ret, MismatchV::Return(b.fn_name)) {
                    Err(x) => Err(x),
                    Ok((x, rs)) => Ok((StmtV { kind: StmtKindV::Return(Some(x)), line, col }, scopes, rs)),
                },
                None => Ok((StmtV { kind: StmtKindV::Return(None), line, col }, scopes, Seq::empty())),
            },
        },
        StmtKindV::If { arms, else_block } => match arms_spec(t, b, depth, marks, scopes, arms, arms.len()) {
            Err(x) => Err(x),
            Ok((las, r1)) => match else_block {
                None => Ok((StmtV { kind: StmtKindV::If { arms: las, else_block: None }, line, col }, scopes, r1)),
                Some(eb) => match block_spec(t, b, depth, marks, scopes, eb) {
                    Err(x) => Err(x),
                    Ok((lb, r2)) => Ok((StmtV { kind: StmtKindV::If { arms: las, else_block: Some(lb) }, line, col }, scopes, r1 + r2)),
                },
            },
        },
        StmtKindV::While { cond, body } => match lower_spec(t, pl, cond) {
            Err(x) => Err(x),
            Ok((ce0, ct0, r1)) => match condition_spec("while"@, (ce0, ct0)) {
                Err(x) => Err(x),
                Ok(ce) => match block_spec(t, b, (depth + 1) as u32, marks, scopes, body) {
                    Err(x) => Err(x),
                    Ok((lb, r2)) => Ok((StmtV { kind: StmtKindV::While { cond: ce, body: lb }, line, col }, scopes, r1 + r2)),
                },
            },
        },
        StmtKindV::ForC { var_name, var_ty, init, cond, step, body } => match declared_type_spec(names_v(t.known@), var_name, var_ty, line, col) {
            Some(x) => Err(x),
            None => match expect_spec(t, pl, init, var_ty, MismatchV::VarInit(var_name)) {
                Err(x) => Err(x),
                Ok((ie, r1)) => {
                    let sc1 = declare_in(scopes.push(Seq::empty()), var_name, var_ty, false);
                    match lower_spec(t, place_v(b, sc1), cond) {
                        Err(x) => Err(x),
                        Ok((ce0, ct0, r2)) => match condition_spec("for"@, (ce0, ct0)) {
                            Err(x) => Err(x),
                            Ok(ce) => match block_spec(t, b, (depth + 1) as u32, marks, sc1, body) {
                                Err(x) => Err(x),
                                Ok((lb, r3)) => match stmt_spec(t, b, (depth + 1) as u32, marks, sc1, *step) {
                                    Err(x) => Err(x),
                                    Ok((ls, _, r4)) => Ok((
                                        StmtV { kind: StmtKindV::ForC { var_name, var_ty, init: ie, cond: ce, step: Box::new(ls), body: lb }, line, col },
                                        scopes,
                                        r1 + r2 + r3 + r4,
                                    )),
                                },
                            },
                        },
                    }
                },
            },
        },
        StmtKindV::ForIn { var_name, var_ty, iterable, body } => match lower_spec(t, pl, iterable) {
            Err(x) => Err(x),
            Ok((ie0, it0, r1)) => {
                let (ie, ity) = deopt_spec(ie0, it0);
                let (it_name, idx_name) = for_in_names(line, col);
                let sc1 = declare_in(scopes.push(Seq::empty()), it_name, ity, false);
                let it_decl = StmtV { kind: StmtKindV::VarDecl { is_const: false, name: it_name, ty: ity, init: ie }, line, col };
                let raw = for_in_loop_spec(var_name, var_ty, body, it_name, idx_name, line, col);
                proof {
                    lemma_for_in_smaller(var_name, var_ty, body, it_name, idx_name, line, col);
                }
                match stmt_spec(t, b, depth, marks, sc1, raw) {
                    Err(x) => Err(x),
                    Ok((lf, _, r2)) => Ok((StmtV { kind: StmtKindV::Scope(BlockV { stmts: seq![it_decl, lf] }), line, col }, scopes, r1 + r2)),
                }
            },
        },
        StmtKindV::TryCatch { body, var_name, var_ty, catch_body } => match catch_error(var_ty) {
            Some(m) => Err(err_v(m, line, col)),
            None => match block_spec(t, b, depth, marks.push(depth), scopes, body) {
                Err(x) => Err(x),
                Ok((lb, r1)) => {
                    let sc1 = declare_in(scopes.push(Seq::empty()), var_name, TypeV::Named("Exception"@), false);
                    match block_spec(t, b, depth, marks, sc1, catch_body) {
                        Err(x) => Err(x),
                        Ok((lc, r2)) => Ok((StmtV { kind: StmtKindV::TryCatch { body: lb, var_name, var_ty, catch_body: lc }, line, col }, scopes, r1 + r2)),
                    }
                },
            },
        },
        StmtKindV::Break => match jump_error(true, depth, marks) {
            Some(m) => Err(err_v(m, line, col)),
            None => Ok((s, scopes, Seq::empty())),
        },
        StmtKindV::Continue => match jump_error(false, depth, marks) {
            Some(m) => Err(err_v(m, line, col)),
            None => Ok((s, scopes, Seq::empty())),
        },
        StmtKindV::Scope(_) => Err(err_v(Seq::empty(), line, col)),
    }
}

/// A block in a fresh innermost scope, its statements in order; the scopes
/// are as before afterwards.
pub open spec fn block_spec(t: Tables, b: BodyV, depth: u32, marks: Seq<u32>, scopes: Seq<ScopeV>, blk: BlockV) -> Result<(BlockV, Seq<InstV>), JimErrorV>
    decreases block_size(blk), 1nat,
{
    match stmts_spec(t, b, depth, marks, scopes.push(Seq::empty()), blk.stmts, blk.stmts.len()) {
        Err(x) => Err(x),
        Ok((ss, _, rs)) => Ok((BlockV { stmts: ss }, rs)),
    }
}

/// The first `n` statements in order, each in the scopes the previous
/// left.
pub open spec fn stmts_spec(t: Tables, b: BodyV, depth: u32, marks: Seq<u32>, scopes: Seq<ScopeV>, ss: Seq<StmtV>, n: nat) -> Result<(Seq<StmtV>, Seq<ScopeV>, Seq<InstV>), JimErrorV>
    decreases stmts_size(ss, n), 0nat,
{
    if n == 0 || n > ss.len() {
        Ok((Seq::empty(), scopes, Seq::empty()))
    } else {
        match stmts_spec(t, b, depth, marks, scopes, ss, (n - 1) as nat) {
            Err(x) => Err(x),
            Ok((xs, sc, rs)) => match stmt_spec(t, b, depth, marks, sc, ss[n - 1]) {
                Err(x) => Err(x),
                Ok((x, sc2, r)) => Ok((xs.push(x), sc2, rs + r)),
            },
        }
    }
}

/// The first `n` arms of an `if`: each condition a Bool, each body a block.
pub open spec fn arms_spec(t: Tables, b: BodyV, depth: u32, marks: Seq<u32>, scopes: Seq<ScopeV>, arms: Seq<(ExprV, BlockV)>, n: nat) -> Result<(Seq<(ExprV, BlockV)>, Seq<InstV>), JimErrorV>
    decreases arms_size(arms, n), 0nat,
{
    if n == 0 || n > arms.len() {
        Ok((Seq::empty(), Seq::empty()))
    } else {
        match arms_spec(t, b, depth, marks, scopes, arms, (n - 1) as nat) {
            Err(x) => Err(x),
            Ok((xs, rs)) => match lower_spec(t, place_v(b, scopes), arms[n - 1].0) {
                Err(x) => Err(x),
                Ok((ce0, ct0, r1)) => match condition_spec("if"@, (ce0, ct0)) {
                    Err(x) => Err(x),
                    Ok(ce) => match block_spec(t, b, depth, marks, scopes, arms[n - 1].1) {
                        Err(x) => Err(x),
                        Ok((lb, r2)) => Ok((xs.push((ce, lb)), rs + r1 + r2)),
                    },
                },
            },
        }
    }
}

/// Putting one statement before others weighs it and one more.
pub proof fn lemma_stmts_size_prepend(a: StmtV, ss: Seq<StmtV>, n: nat)
    requires
        n <= ss.len(),
    ensures
        stmts_size(seq![a] + ss, n + 1) == stmt_size(a) + 1 + stmts_size(ss, n),
    decreases n,
{
    let all = seq![a] + ss;
    if n == 0 {
        assert(stmts_size(all, 0) == 0);
    } else {
        lemma_stmts_size_prepend(a, ss, (n - 1) as nat);
        assert(all[n as int] == ss[n - 1]);
    }
}

/// The loop a for-in loop stands for weighs less than the for-in loop.
pub proof fn lemma_for_in_smaller(var_name: Seq<char>, var_ty: TypeV, body: BlockV, it_name: Seq<char>, idx_name: Seq<char>, line: u32, col: u32)
    ensures
        stmt_size(for_in_loop_spec(var_name, var_ty, body, it_name, idx_name, line, col)) < 6 + block_size(body),
{
    let raw = for_in_loop_spec(var_name, var_ty, body, it_name, idx_name, line, col);
    let first = StmtV {
        kind: StmtKindV::VarDecl {
            is_const: false,
            name: var_name,
            ty: var_ty,
            init: ExprV {
                kind: ExprKindV::MethodCall { recv: Box::new(crate::stmt_rules::ident_at(it_name, line, col)), name: "get"@, args: seq![crate::stmt_rules::ident_at(idx_name, line, col)] },
                line,
                col,
            },
        },
        line,
        col,
    };
    lemma_stmts_size_prepend(first, body.stmts, body.stmts.len());
    match raw.kind {
        StmtKindV::ForC { step, body: inner, .. } => {
            assert(inner.stmts == seq![first] + body.stmts);
            assert(stmt_size(*step) == 1);
            assert(stmt_size(first) == 1);
            assert(inner.stmts.len() == body.stmts.len() + 1);
            assert(block_size(inner) == 1 + stmts_size(inner.stmts, inner.stmts.len()));
            assert(stmt_size(raw) == 1 + stmt_size(*step) + block_size(inner));
            assert(block_size(body) == 1 + stmts_size(body.stmts, body.stmts.len()));
        },
        _ => {},
    }
}

/// Typing a function: its result type and parameters first (see
/// [`crate::headers`]), then its body in a scope of its parameters; a body
/// with a result must return on every path.
pub open spec fn function_spec(t: Tables, f: crate::ast::FunctionDeclV) -> Result<(crate::ast::FunctionDeclV, Seq<InstV>), JimErrorV> {
    let known = names_v(t.known@);
    match crate::headers::fn_result_error(known, f.name, f.ret, f.line, f.col) {
        Some(e) => Err(e),
        None => match crate::headers::params_error(known, f.params, f.params.len()) {
            Some(e) => Err(e),
            None => {
                let b = BodyV { fn_name: f.name, ret: f.ret, current: None, this_ty: None, from_std: f.from_std };
                match block_spec(t, b, 0, Seq::empty(), seq![crate::headers::param_scope(f.params, f.params.len())], f.body) {
                    Err(e) => Err(e),
                    Ok((body, rs)) => match crate::headers::falls_off(crate::headers::function_who(f.name), f.ret, f.name == "main"@, crate::flow::block_returns_spec(body), f.line, f.col) {
                        Some(e) => Err(e),
                        None => Ok((crate::ast::FunctionDeclV {
                            name: f.name,
                            type_params: f.type_params,
                            params: f.params,
                            ret: f.ret,
                            body,
                            file_idx: f.file_idx,
                            from_std: f.from_std,
                            line: f.line,
                            col: f.col,
                        }, rs)),
                    },
                }
            },
        },
    }
}

/// The first `n` fields of a class: each type usable and pointer-free,
/// each default typed where the field's type is expected, outside any
/// class (`this` does not exist yet while defaults run).
pub open spec fn fields_spec(t: Tables, c: crate::ast::ClassDeclV, n: nat) -> Result<(Seq<crate::ast::FieldDeclV>, Seq<InstV>), JimErrorV>
    decreases n,
{
    if n == 0 || n > c.fields.len() {
        Ok((Seq::empty(), Seq::empty()))
    } else {
        match fields_spec(t, c, (n - 1) as nat) {
            Err(e) => Err(e),
            Ok((fs, rs)) => {
                let fd = c.fields[n - 1];
                match crate::headers::field_error(names_v(t.known@), fd.name, fd.ty, fd.line, fd.col) {
                    Some(e) => Err(e),
                    None => {
                        let pl = PlaceV { scopes: seq![Seq::empty()], current: None, this_ty: None, from_std: c.from_std };
                        match expect_spec(t, pl, fd.default, fd.ty, MismatchV::FieldDefault(fd.name)) {
                            Err(e) => Err(e),
                            Ok((d, r)) => Ok((fs.push(crate::ast::FieldDeclV { is_public: fd.is_public, name: fd.name, ty: fd.ty, default: d, line: fd.line, col: fd.col }), rs + r)),
                        }
                    },
                }
            },
        }
    }
}

/// A class's constructor body, typed like a None-returning method.
pub open spec fn ctor_spec(t: Tables, c: crate::ast::ClassDeclV, self_ty: TypeV) -> Result<(Option<crate::ast::CtorDeclV>, Seq<InstV>), JimErrorV> {
    match c.ctor {
        None => Ok((None, Seq::empty())),
        Some(ct) => match crate::headers::params_error(names_v(t.known@), ct.params, ct.params.len()) {
            Some(e) => Err(e),
            None => {
                let b = BodyV { fn_name: c.name + " constructor"@, ret: TypeV::Named("None"@), current: Some(c.name), this_ty: Some(self_ty), from_std: c.from_std };
                match block_spec(t, b, 0, Seq::empty(), seq![crate::headers::param_scope(ct.params, ct.params.len())], ct.body) {
                    Err(e) => Err(e),
                    Ok((body, rs)) => Ok((Some(crate::ast::CtorDeclV { params: ct.params, body, line: ct.line, col: ct.col }), rs)),
                }
            },
        },
    }
}

/// The first `n` methods of a class, each like a function of the class
/// (with `this`), named `Class.method` in messages.
pub open spec fn methods_spec(t: Tables, c: crate::ast::ClassDeclV, self_ty: TypeV, n: nat) -> Result<(Seq<crate::ast::MethodDeclV>, Seq<InstV>), JimErrorV>
    decreases n,
{
    if n == 0 || n > c.methods.len() {
        Ok((Seq::empty(), Seq::empty()))
    } else {
        match methods_spec(t, c, self_ty, (n - 1) as nat) {
            Err(e) => Err(e),
            Ok((ms, rs)) => {
                let m = c.methods[n - 1];
                let known = names_v(t.known@);
                match crate::headers::method_result_error(known, c.name, m.name, m.ret, m.line, m.col) {
                    Some(e) => Err(e),
                    None => match crate::headers::params_error(known, m.params, m.params.len()) {
                        Some(e) => Err(e),
                        None => {
                            let b = BodyV { fn_name: c.name + "."@ + m.name, ret: m.ret, current: Some(c.name), this_ty: Some(self_ty), from_std: c.from_std };
                            match block_spec(t, b, 0, Seq::empty(), seq![crate::headers::param_scope(m.params, m.params.len())], m.body) {
                                Err(e) => Err(e),
                                Ok((body, r)) => match crate::headers::falls_off(crate::headers::method_who(c.name, m.name), m.ret, false, crate::flow::block_returns_spec(body), m.line, m.col) {
                                    Some(e) => Err(e),
                                    None => Ok((ms.push(crate::ast::MethodDeclV { is_public: m.is_public, name: m.name, params: m.params, ret: m.ret, body, line: m.line, col: m.col }), rs + r)),
                                },
                            }
                        },
                    },
                }
            },
        }
    }
}

/// Typing a (non-template) class: its fields, then its constructor, then
/// its methods.
pub open spec fn class_spec(t: Tables, c: crate::ast::ClassDeclV, self_ty: TypeV) -> Result<(crate::ast::ClassDeclV, Seq<InstV>), JimErrorV> {
    match fields_spec(t, c, c.fields.len()) {
        Err(e) => Err(e),
        Ok((fs, r1)) => match ctor_spec(t, c, self_ty) {
            Err(e) => Err(e),
            Ok((ct, r2)) => match methods_spec(t, c, self_ty, c.methods.len()) {
                Err(e) => Err(e),
                Ok((ms, r3)) => Ok((crate::ast::ClassDeclV {
                    name: c.name,
                    type_param: None,
                    fields: fs,
                    ctor: ct,
                    methods: ms,
                    file_idx: c.file_idx,
                    from_std: c.from_std,
                    line: c.line,
                    col: c.col,
                }, r1 + r2 + r3)),
            },
        },
    }
}

/// `x++` is exactly `x += 1` and `x--` exactly `x -= 1`, written where the
/// statement stands: both type to the same statement, or fail alike.
pub proof fn lemma_inc_dec_is_compound(t: Tables, b: BodyV, depth: u32, marks: Seq<u32>, scopes: Seq<ScopeV>, target: ExprV, inc: bool, line: u32, col: u32)
    ensures
        stmt_spec(t, b, depth, marks, scopes, StmtV { kind: StmtKindV::IncDec { target, inc }, line, col })
            == stmt_spec(t, b, depth, marks, scopes, StmtV {
                kind: StmtKindV::Assign { target, op: if inc { AssignOp::Add } else { AssignOp::Sub }, value: ExprV { kind: ExprKindV::Int(1), line, col } },
                line,
                col,
            }),
{
    reveal(stmt_spec);
}

/// A `break` or `continue` types only inside a loop, and not across a
/// `try` block started inside that loop.
pub proof fn lemma_jumps_need_a_loop(t: Tables, b: BodyV, depth: u32, marks: Seq<u32>, scopes: Seq<ScopeV>, s: StmtV)
    requires
        s.kind is Break || s.kind is Continue,
    ensures
        stmt_spec(t, b, depth, marks, scopes, s) is Ok ==> depth > 0 && (marks.len() == 0 || depth > marks.last()),
{
    reveal(stmt_spec);
}

} // verus!
