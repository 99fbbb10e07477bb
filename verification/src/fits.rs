//! Does a type-checked program fit the code generator? A check of
//! [`program_ok`]: every written type has a C spelling, every body is in
//! the form type checking produces, and bodies nest within the counter.

use vstd::prelude::*;
use crate::ast::{Block, Expr, ExprKind, Program, Stmt, StmtKind, Type, UnOp, BinOp, arms_v, exprs_v, stmts_v, params_v, functions_v, classes_v, fields_v, methods_v};
use crate::codegen_names::{opt_is_struct, has_opt_sfx};
use crate::codegen_spec::{ctype_ok, lowered_expr, lowered_exprs, lowered_stmt, lowered_block, lowered_arms, lowered_target, lowered_step, payload_ok, payload_sfx_ok, nest_stmt, nest_block, nest_stmts, nest_arms};
use crate::generate_spec::{buf_ok, program_ok, program_types, function_ok, class_ok, method_ok, body_ok, params_ok, fields_typed};
use crate::text::str_eq;

verus! {

/// The largest nesting depth the check accepts.
pub const NEST_CAP: u64 = 0xffff_0000;

fn has_sfx(t: &Type) -> (b: bool)
    ensures
        b == has_opt_sfx(t@),
{
    match t {
        Type::Named(n) => str_eq(n.as_str(), "Integer") || str_eq(n.as_str(), "Float") || str_eq(n.as_str(), "Bool")
            || str_eq(n.as_str(), "Char") || str_eq(n.as_str(), "String"),
        _ => false,
    }
}

/// Does the type have a C spelling?
pub fn ctype_fits(t: &Type) -> (b: bool)
    ensures
        b == ctype_ok(t@),
    decreases t,
{
    match t {
        Type::Optional(i) => if opt_is_struct(i) { has_sfx(i) } else { ctype_fits(i) },
        Type::Pointer(i) => ctype_fits(i),
        _ => true,
    }
}

/// Does every buffer payload in the type have a C spelling?
pub fn buf_fits(t: &Type) -> (b: bool)
    ensures
        b == buf_ok(t@),
    decreases t,
{
    match t {
        Type::Generic(n, p) => (!str_eq(n.as_str(), "RawBuffer") || ctype_fits(p)) && buf_fits(p),
        Type::Optional(p) => buf_fits(p),
        Type::Pointer(p) => buf_fits(p),
        Type::Named(_) => true,
    }
}

fn payload_fits(p: &Type) -> (b: bool)
    ensures
        b == payload_ok(p@),
{
    if opt_is_struct(p) { has_sfx(p) } else { ctype_fits(p) }
}

fn payload_sfx_fits(p: &Type) -> (b: bool)
    ensures
        b == payload_sfx_ok(p@),
{
    !opt_is_struct(p) || has_sfx(p)
}

/// Is the expression in the form type checking produces? (Only `true` is
/// promised to mean it.)
pub fn expr_fits(e: &Expr) -> (b: bool)
    ensures
        b ==> lowered_expr(e@),
    decreases e, 1nat,
{
    match &e.kind {
        ExprKind::Int(_) | ExprKind::Float(_) | ExprKind::Str(_) | ExprKind::CharLit(_) | ExprKind::Bool(_)
        | ExprKind::Ident(_) | ExprKind::This => true,
        ExprKind::Call { args, .. } => exprs_fit(args),
        ExprKind::New { args, .. } => exprs_fit(args),
        ExprKind::CoreMethodCall { recv, args, .. } => expr_fits(recv) && exprs_fit(args),
        ExprKind::ContainerLit { elems, .. } => exprs_fit(elems),
        ExprKind::BufAlloc { size, .. } => expr_fits(size),
        ExprKind::FieldAccess { recv, .. } => expr_fits(recv),
        ExprKind::IntrinsicCall { name, args } => exprs_fit(args)
            && (!str_eq(name.as_str(), "panic") || args.len() >= 1)
            && (!str_eq(name.as_str(), "str_from_buf") || args.len() >= 2),
        ExprKind::OptWrap { payload, expr } => payload_sfx_fits(payload) && expr_fits(expr),
        ExprKind::OptUnwrap { payload, expr } => payload_fits(payload) && expr_fits(expr),
        ExprKind::OptNone { payload } => payload_fits(payload),
        ExprKind::OptHas { payload, expr } => payload_sfx_fits(payload) && expr_fits(expr),
        ExprKind::Binary { op, lhs, rhs } => (*op == BinOp::And || *op == BinOp::Or) && expr_fits(lhs) && expr_fits(rhs),
        ExprKind::Unary { op, operand } => *op != UnOp::Neg && expr_fits(operand),
        _ => false,
    }
}

pub fn exprs_fit(es: &Vec<Expr>) -> (b: bool)
    ensures
        b ==> lowered_exprs(exprs_v(es@)),
    decreases es, 0nat,
{
    let ghost ev = exprs_v(es@);
    let mut i: usize = 0;
    while i < es.len()
        invariant
            i <= es@.len(),
            ev == exprs_v(es@),
            forall|j: int| 0 <= j < i ==> lowered_expr(#[trigger] ev[j]),
        decreases es@.len() - i,
    {
        assert(decreases_to!(es => es@[i as int]));
        if !expr_fits(&es[i]) {
            return false;
        }
        assert(ev[i as int] == es@[i as int]@);
        i += 1;
    }
    true
}

fn target_fits(t: &Expr) -> (b: bool)
    ensures
        b ==> lowered_target(t@),
{
    match &t.kind {
        ExprKind::Ident(_) => true,
        ExprKind::FieldAccess { recv, .. } => expr_fits(recv),
        ExprKind::Unary { op, operand } => *op == UnOp::Deref && expr_fits(operand),
        _ => false,
    }
}

fn step_fits(s: &Stmt) -> (b: bool)
    ensures
        b ==> lowered_step(s@),
{
    match &s.kind {
        StmtKind::Assign { target, value, .. } => target_fits(target) && expr_fits(value),
        StmtKind::ExprStmt(e) => expr_fits(e),
        _ => false,
    }
}

/// Is the statement in the form type checking produces? (Only `true` is
/// promised to mean it.)
pub fn stmt_fits(s: &Stmt) -> (b: bool)
    ensures
        b ==> lowered_stmt(s@),
    decreases s, 1nat,
{
    match &s.kind {
        StmtKind::VarDecl { ty, init, .. } => ctype_fits(ty) && expr_fits(init),
        StmtKind::Assign { target, value, .. } => target_fits(target) && expr_fits(value),
        StmtKind::ExprStmt(e) => expr_fits(e),
        StmtKind::Return(v) => match v {
            Some(e) => expr_fits(e),
            None => true,
        },
        StmtKind::If { arms, else_block } => {
            let ok_else = match else_block {
                Some(b) => block_fits(b),
                None => true,
            };
            arms_fit(arms) && ok_else
        },
        StmtKind::While { cond, body } => expr_fits(cond) && block_fits(body),
        StmtKind::ForC { var_ty, init, cond, step, body, .. } => ctype_fits(var_ty) && expr_fits(init) && expr_fits(cond)
            && step_fits(step) && block_fits(body),
        StmtKind::Break => true,
        StmtKind::Continue => true,
        StmtKind::Scope(b) => block_fits(b),
        StmtKind::TryCatch { body, catch_body, .. } => block_fits(body) && block_fits(catch_body),
        _ => false,
    }
}

pub fn block_fits(b: &Block) -> (r: bool)
    ensures
        r ==> lowered_block(b@),
    decreases b, 0nat,
{
    let ghost sv = stmts_v(b.stmts@);
    let mut i: usize = 0;
    while i < b.stmts.len()
        invariant
            i <= b.stmts@.len(),
            sv == stmts_v(b.stmts@),
            forall|j: int| 0 <= j < i ==> lowered_stmt(#[trigger] sv[j]),
        decreases b.stmts@.len() - i,
    {
        assert(decreases_to!(b => b.stmts));
        assert(decreases_to!(b.stmts => b.stmts@[i as int]));
        if !stmt_fits(&b.stmts[i]) {
            return false;
        }
        assert(sv[i as int] == b.stmts@[i as int]@);
        i += 1;
    }
    true
}

fn arms_fit(arms: &Vec<(Expr, Block)>) -> (r: bool)
    ensures
        r ==> lowered_arms(arms_v(arms@)),
    decreases arms, 0nat,
{
    let ghost av = arms_v(arms@);
    let mut i: usize = 0;
    while i < arms.len()
        invariant
            i <= arms@.len(),
            av == arms_v(arms@),
            forall|j: int| 0 <= j < i ==> lowered_expr(#[trigger] av[j].0) && lowered_block(av[j].1),
        decreases arms@.len() - i,
    {
        assert(decreases_to!(arms => arms@[i as int]));
        let e_ok = expr_fits(&arms[i].0);
        let b_ok = block_fits(&arms[i].1);
        if !e_ok || !b_ok {
            return false;
        }
        assert(av[i as int] == (arms@[i as int].0@, arms@[i as int].1@));
        assert(av[i as int].0 == arms@[i as int].0@);
        assert(av[i as int].1 == arms@[i as int].1@);
        assert(lowered_expr(av[i as int].0) && lowered_block(av[i as int].1));
        i += 1;
    }
    true
}

/// How deeply a statement nests, when it is under the cap.
pub fn stmt_nest(s: &Stmt) -> (r: Option<u64>)
    ensures
        r matches Some(n) ==> n == nest_stmt(s@) && n < NEST_CAP,
    decreases s, 1nat,
{
    let n: u64 = match &s.kind {
        StmtKind::If { arms, else_block } => {
            let a = match arms_nest(arms) {
                Some(x) => x,
                None => return None,
            };
            let e: u64 = match else_block {
                Some(b) => match block_nest(b) {
                    Some(x) => x,
                    None => return None,
                },
                None => 0,
            };
            1 + if a >= e { a } else { e }
        },
        StmtKind::While { body, .. } => match block_nest(body) {
            Some(x) => 1 + x,
            None => return None,
        },
        StmtKind::ForC { body, .. } => match block_nest(body) {
            Some(x) => 1 + x,
            None => return None,
        },
        StmtKind::ForIn { body, .. } => match block_nest(body) {
            Some(x) => 1 + x,
            None => return None,
        },
        StmtKind::Scope(b) => match block_nest(b) {
            Some(x) => 1 + x,
            None => return None,
        },
        StmtKind::TryCatch { body, catch_body, .. } => {
            let a = match block_nest(body) {
                Some(x) => x,
                None => return None,
            };
            let c = match block_nest(catch_body) {
                Some(x) => x,
                None => return None,
            };
            2 + if a >= c { a } else { c }
        },
        _ => 0,
    };
    if n < NEST_CAP { Some(n) } else { None }
}

pub fn block_nest(b: &Block) -> (r: Option<u64>)
    ensures
        r matches Some(n) ==> n == nest_block(b@) && n < NEST_CAP,
    decreases b, 0nat,
{
    let ghost sv = stmts_v(b.stmts@);
    let mut m: u64 = 0;
    let mut i: usize = 0;
    while i < b.stmts.len()
        invariant
            i <= b.stmts@.len(),
            sv == stmts_v(b.stmts@),
            m == nest_stmts(sv, i as nat),
            m < NEST_CAP,
        decreases b.stmts@.len() - i,
    {
        assert(decreases_to!(b => b.stmts));
        assert(decreases_to!(b.stmts => b.stmts@[i as int]));
        let k = match stmt_nest(&b.stmts[i]) {
            Some(x) => x,
            None => return None,
        };
        assert(sv[i as int] == b.stmts@[i as int]@);
        if k > m {
            m = k;
        }
        i += 1;
    }
    Some(m)
}

fn arms_nest(arms: &Vec<(Expr, Block)>) -> (r: Option<u64>)
    ensures
        r matches Some(n) ==> n == nest_arms(arms_v(arms@), arms@.len()) && n < NEST_CAP,
    decreases arms, 0nat,
{
    let ghost av = arms_v(arms@);
    let mut m: u64 = 0;
    let mut i: usize = 0;
    while i < arms.len()
        invariant
            i <= arms@.len(),
            av == arms_v(arms@),
            m == nest_arms(av, i as nat),
            m < NEST_CAP,
        decreases arms@.len() - i,
    {
        assert(decreases_to!(arms => arms@[i as int]));
        let k = match block_nest(&arms[i].1) {
            Some(x) => x,
            None => return None,
        };
        assert(av[i as int].1 == arms@[i as int].1@);
        if k > m {
            m = k;
        }
        i += 1;
    }
    Some(m)
}

/// Can the emitter print this body? (Only `true` is promised to mean it.)
pub fn body_fits(b: &Block) -> (r: bool)
    ensures
        r ==> body_ok(b@),
{
    block_fits(b) && block_nest(b).is_some()
}

fn params_fit(ps: &Vec<crate::ast::Param>) -> (r: bool)
    ensures
        r ==> params_ok(params_v(ps@)),
{
    let mut i: usize = 0;
    while i < ps.len()
        invariant
            i <= ps@.len(),
            forall|j: int| 0 <= j < i ==> ctype_ok(#[trigger] params_v(ps@)[j].ty),
        decreases ps@.len() - i,
    {
        if !ctype_fits(&ps[i].ty) {
            return false;
        }
        assert(params_v(ps@)[i as int] == ps@[i as int]@);
        i += 1;
    }
    true
}

/// Can the code generator print this program? (Only `true` is promised to
/// mean [`program_ok`].)
pub fn program_fits(p: &Program) -> (r: bool)
    ensures
        r ==> program_ok(p@),
{
    let mut i: usize = 0;
    while i < p.functions.len()
        invariant
            i <= p.functions@.len(),
            forall|j: int| 0 <= j < i ==> function_ok(#[trigger] functions_v(p.functions@)[j]),
        decreases p.functions@.len() - i,
    {
        let f = &p.functions[i];
        if !(params_fit(&f.params) && ctype_fits(&f.ret) && body_fits(&f.body)) {
            return false;
        }
        assert(functions_v(p.functions@)[i as int] == f@);
        i += 1;
    }
    let mut k: usize = 0;
    while k < p.classes.len()
        invariant
            k <= p.classes@.len(),
            forall|j: int| 0 <= j < k ==> class_ok(#[trigger] classes_v(p.classes@)[j]),
        decreases p.classes@.len() - k,
    {
        let c = &p.classes[k];
        let mut fi: usize = 0;
        while fi < c.fields.len()
            invariant
                fi <= c.fields@.len(),
                forall|j: int| 0 <= j < fi ==> ctype_ok(#[trigger] fields_v(c.fields@)[j].ty) && lowered_expr(fields_v(c.fields@)[j].default),
            decreases c.fields@.len() - fi,
        {
            if !(ctype_fits(&c.fields[fi].ty) && expr_fits(&c.fields[fi].default)) {
                return false;
            }
            assert(fields_v(c.fields@)[fi as int] == c.fields@[fi as int]@);
            fi += 1;
        }
        let ctor_fits = match &c.ctor {
            Some(ct) => params_fit(&ct.params) && body_fits(&ct.body),
            None => true,
        };
        if !ctor_fits {
            return false;
        }
        let mut mi: usize = 0;
        while mi < c.methods.len()
            invariant
                mi <= c.methods@.len(),
                forall|j: int| 0 <= j < mi ==> method_ok(#[trigger] methods_v(c.methods@)[j]),
            decreases c.methods@.len() - mi,
        {
            let m = &c.methods[mi];
            if !(params_fit(&m.params) && ctype_fits(&m.ret) && body_fits(&m.body)) {
                return false;
            }
            assert(methods_v(c.methods@)[mi as int] == m@);
            mi += 1;
        }
        assert(fields_typed(c@.fields));
        assert(class_ok(c@));
        assert(classes_v(p.classes@)[k as int] == c@);
        k += 1;
    }
    let tys = crate::generate::collect_program_types(p);
    let mut t: usize = 0;
    while t < tys.len()
        invariant
            t <= tys@.len(),
            crate::ast::types_v(tys@) == program_types(p@),
            forall|j: int| 0 <= j < t ==> buf_ok(#[trigger] program_types(p@)[j]),
        decreases tys@.len() - t,
    {
        if !buf_fits(&tys[t]) {
            return false;
        }
        assert(crate::ast::types_v(tys@)[t as int] == tys@[t as int]@);
        t += 1;
    }
    true
}

} // verus!
