//! Typing a body's statements (see [`crate::body_spec`]).

use vstd::prelude::*;
use crate::ast::{AssignOp, Block, BlockV, Expr, ExprKind, ExprKindV, ExprV, Stmt, StmtKind, StmtKindV, StmtV, Type, TypeV, UnOp, arms_v, stmt_v, stmts_v};
use crate::body_spec::{BodyV, arms_ok, arms_size, arms_spec, assign_spec, assignable, block_ok, block_size, block_spec, declare_in, place_v, stmt_ok, stmt_size, stmt_spec, stmts_ok, stmts_size, stmts_spec};
use crate::calls::{Origin, check_compound_target, check_condition, check_declared_type, compound_text, core_call, desugar_augmented, method_params, resolve_field, var_assign, widen};
use crate::errors::{JimError, JimErrorV};
use crate::lowering::{Inst, Mismatch, append_insts, expect, insts_v, no_insts, lower_expr};
use crate::lowering_spec::{InstV, Place, Tables, opt_string_v, opt_type_v, surface};
use crate::sema::{ScopeV};
use crate::text::{framed, lit_string};

verus! {

/// A body being typed: where it stands (variables, class, std or not), its
/// name and result type, how deep in loops the current statement is, and
/// the loop depths at which the enclosing `try` blocks began.
pub struct Body {
    pub place: Place,
    pub fn_name: String,
    pub ret: Type,
    pub depth: u32,
    pub marks: Vec<u32>,
}

pub open spec fn fixed_v(b: Body) -> BodyV {
    BodyV {
        fn_name: b.fn_name@,
        ret: b.ret@,
        current: opt_string_v(b.place.current),
        this_ty: opt_type_v(b.place.this_ty),
        from_std: b.place.from_std,
    }
}

pub open spec fn kind_v(k: StmtKind) -> StmtKindV {
    stmt_v(Stmt { kind: k, line: 0, col: 0 }).kind
}

pub open spec fn assigned_v(r: Result<(StmtKind, Vec<Inst>), JimError>) -> Result<(StmtKindV, Seq<InstV>), JimErrorV> {
    match r {
        Ok((k, rs)) => Ok((kind_v(k), insts_v(rs@))),
        Err(x) => Err(x@),
    }
}

proof fn lemma_opt_views(o: Option<String>)
    ensures
        crate::loader::opt_view(o) == opt_string_v(o),
{
}

/// `name = value` / `name op= value`.
fn assign_var(t: &Tables, bd: &Body, target: &Expr, name: &String, op: AssignOp, value: &Expr, line: u32, col: u32) -> (r: Result<(StmtKind, Vec<Inst>), JimError>)
    requires
        target@.kind == ExprKindV::Ident(name@),
        surface(value@),
    ensures
        assigned_v(r) == assign_spec(*t, fixed_v(*bd), bd.place.env.view_scopes(), target@, op, value@, line, col),
{
    proof {
        reveal(assign_spec);
    }
    proof {
        lemma_opt_views(bd.place.current);
    }
    let vt = match var_assign(&bd.place.env, name.as_str(), value, line, col, target.line, target.col) {
        Ok(v) => v,
        Err(x) => return Err(x),
    };
    match compound_text(op) {
        None => match expect(t, &bd.place, value, &vt, &Mismatch::VarAssign(name.clone())) {
            Err(x) => Err(x),
            Ok((ve, rs)) => Ok((StmtKind::Assign { target: crate::copy::copy_expr(target), op: AssignOp::Plain, value: ve }, rs)),
        },
        Some((sym, method)) => {
            let (ve, vty, rs) = match lower_expr(t, &bd.place, value) {
                Ok(v) => v,
                Err(x) => return Err(x),
            };
            let desc = framed("'", name.as_str(), "'");
            match desugar_augmented(&t.classes, &bd.place.current, desc.as_str(), crate::copy::copy_expr(target), &vt, method, sym, (ve, vty), line, col) {
                Ok(k) => Ok((k, rs)),
                Err(x) => Err(x),
            }
        },
    }
}

/// `recv.f = value` / `recv.f op= value`.
fn assign_field(t: &Tables, bd: &Body, target: &Expr, op: AssignOp, value: &Expr, line: u32, col: u32) -> (r: Result<(StmtKind, Vec<Inst>), JimError>)
    requires
        assignable(target@),
        target@.kind is FieldAccess,
        surface(value@),
    ensures
        assigned_v(r) == assign_spec(*t, fixed_v(*bd), bd.place.env.view_scopes(), target@, op, value@, line, col),
{
    proof {
        reveal(assign_spec);
    }
    proof {
        lemma_opt_views(bd.place.current);
    }
    match &target.kind {
        ExprKind::FieldAccess { recv, name } => {
            assert(target@.kind == ExprKindV::FieldAccess { recv: Box::new((**recv)@), name: name@ });
            match check_compound_target(op, target, line, col) {
                Ok(()) => {},
                Err(x) => return Err(x),
            }
            let (re0, rt0, mut rr) = match lower_expr(t, &bd.place, recv) {
                Ok(v) => v,
                Err(x) => return Err(x),
            };
            let (re, rt) = crate::typing::deopt((re0, rt0));
            let (_, fty) = match resolve_field(&t.classes, &bd.place.current, &rt, name.as_str(), target.line, target.col) {
                Ok(v) => v,
                Err(x) => return Err(x),
            };
            let lt = Expr { kind: ExprKind::FieldAccess { recv: Box::new(re), name: name.clone() }, line: target.line, col: target.col };
            match compound_text(op) {
                None => match expect(t, &bd.place, value, &fty, &Mismatch::FieldAssign(name.clone())) {
                    Err(x) => Err(x),
                    Ok((ve, vr)) => {
                        append_insts(&mut rr, vr);
                        Ok((StmtKind::Assign { target: lt, op: AssignOp::Plain, value: ve }, rr))
                    },
                },
                Some((sym, method)) => {
                    let (ve, vt, vr) = match lower_expr(t, &bd.place, value) {
                        Ok(v) => v,
                        Err(x) => return Err(x),
                    };
                    let desc = framed("field '", name.as_str(), "'");
                    match desugar_augmented(&t.classes, &bd.place.current, desc.as_str(), lt, &fty, method, sym, (ve, vt), line, col) {
                        Ok(k) => {
                            append_insts(&mut rr, vr);
                            Ok((k, rr))
                        },
                        Err(x) => Err(x),
                    }
                },
            }
        },
        _ => Err(JimError::new(String::new(), line, col)),
    }
}

/// `*p = value` / `*p op= value`.
fn assign_deref(t: &Tables, bd: &Body, target: &Expr, op: AssignOp, value: &Expr, line: u32, col: u32) -> (r: Result<(StmtKind, Vec<Inst>), JimError>)
    requires
        assignable(target@),
        target@.kind is Unary,
        surface(value@),
    ensures
        assigned_v(r) == assign_spec(*t, fixed_v(*bd), bd.place.env.view_scopes(), target@, op, value@, line, col),
{
    proof {
        reveal(assign_spec);
    }
    proof {
        lemma_opt_views(bd.place.current);
    }
    match &target.kind {
        ExprKind::Unary { op: uop, operand } => {
            assert(target@.kind == ExprKindV::Unary { op: *uop, operand: Box::new((**operand)@) });
            match check_compound_target(op, target, line, col) {
                Ok(()) => {},
                Err(x) => return Err(x),
            }
            let (pe0, pt0, mut pr) = match lower_expr(t, &bd.place, operand) {
                Ok(v) => v,
                Err(x) => return Err(x),
            };
            let (ptr, pty) = crate::typing::deopt((pe0, pt0));
            match pty {
                Type::Pointer(inner) => {
                    let lt = Expr { kind: ExprKind::Unary { op: UnOp::Deref, operand: Box::new(ptr) }, line: target.line, col: target.col };
                    match compound_text(op) {
                        None => match expect(t, &bd.place, value, &inner, &Mismatch::PointerAssign) {
                            Err(x) => Err(x),
                            Ok((ve, vr)) => {
                                append_insts(&mut pr, vr);
                                Ok((StmtKind::Assign { target: lt, op: AssignOp::Plain, value: ve }, pr))
                            },
                        },
                        Some((sym, method)) => {
                            let (ve, vt, vr) = match lower_expr(t, &bd.place, value) {
                                Ok(v) => v,
                                Err(x) => return Err(x),
                            };
                            match desugar_augmented(&t.classes, &bd.place.current, "the pointed-to value", lt, &inner, method, sym, (ve, vt), line, col) {
                                Ok(k) => {
                                    append_insts(&mut pr, vr);
                                    Ok((k, pr))
                                },
                                Err(x) => Err(x),
                            }
                        },
                    }
                },
                other => {
                    let mut m = lit_string("'*' needs a pointer, found ");
                    let d = other.display();
                    crate::text::push_str(&mut m, d.as_str());
                    let pl = ptr.line;
                    let pc = ptr.col;
                    Err(JimError::new(m, pl, pc))
                },
            }
        },
        _ => Err(JimError::new(String::new(), line, col)),
    }
}

fn one_pair(a: (Expr, Type)) -> (v: Vec<(Expr, Type)>)
    ensures
        crate::calls::pairs_v(v@) == seq![(a.0@, a.1@)],
{
    let ghost av = (a.0@, a.1@);
    let mut v: Vec<(Expr, Type)> = Vec::new();
    v.push(a);
    assert(crate::calls::pairs_v(v@) =~= seq![av]);
    v
}

fn two_pairs(a: (Expr, Type), b: (Expr, Type)) -> (v: Vec<(Expr, Type)>)
    ensures
        crate::calls::pairs_v(v@) == seq![(a.0@, a.1@), (b.0@, b.1@)],
{
    let ghost av = (a.0@, a.1@);
    let ghost bv = (b.0@, b.1@);
    let mut v: Vec<(Expr, Type)> = Vec::new();
    v.push(a);
    v.push(b);
    assert(crate::calls::pairs_v(v@) =~= seq![av, bv]);
    v
}

/// `recv[i] = value` after the receiver and index (see [`crate::body_spec::index_set_spec`]).
fn index_set(t: &Tables, bd: &Body, re: Expr, rt: &Type, ie: Expr, value: &Expr, line: u32, col: u32) -> (r: Result<(StmtKind, Vec<Inst>), JimError>)
    requires
        surface(value@),
    ensures
        assigned_v(r) == crate::body_spec::index_set_spec(*t, fixed_v(*bd), bd.place.env.view_scopes(), re@, rt@, ie@, value@, line, col),
{
    proof {
        reveal(crate::body_spec::index_set_spec);
    }
    proof {
        lemma_opt_views(bd.place.current);
    }
    let set_params = method_params(&t.classes, rt, "set");
    let set_origin = Origin::Operator(lit_string("index assignment '[...] ='"));
    let two = match &set_params {
        Some(ps) => ps.len() == 2,
        None => false,
    };
    if two {
        let elem = match &set_params {
            Some(ps) => ps[1].copy(),
            None => Type::named("None"),
        };
        let (ve, vr) = match expect(t, &bd.place, value, &elem, &Mismatch::ElemAssign) {
            Ok(v) => v,
            Err(x) => return Err(x),
        };
        let args = two_pairs((ie, Type::named("Integer")), (ve, elem));
        match core_call(&t.classes, &bd.place.current, rt, "set", re, args, line, col, &set_origin) {
            Ok((call, _)) => Ok((StmtKind::ExprStmt(call), vr)),
            Err(x) => Err(x),
        }
    } else {
        let (ve, vt, vr) = match lower_expr(t, &bd.place, value) {
            Ok(v) => v,
            Err(x) => return Err(x),
        };
        let args = two_pairs((ie, Type::named("Integer")), (ve, vt));
        match core_call(&t.classes, &bd.place.current, rt, "set", re, args, line, col, &set_origin) {
            Ok((call, _)) => Ok((StmtKind::ExprStmt(call), vr)),
            Err(x) => Err(x),
        }
    }
}

/// `recv[i] op= value` after the receiver and index (see
/// [`crate::body_spec::index_compound_spec`]).
#[verifier::rlimit(40)]
fn index_compound(t: &Tables, bd: &Body, re: Expr, rt: &Type, ie: Expr, sym: &str, method: &str, value: &Expr, line: u32, col: u32) -> (r: Result<(StmtKind, Vec<Inst>), JimError>)
    requires
        surface(value@),
    ensures
        assigned_v(r) == crate::body_spec::index_compound_spec(*t, fixed_v(*bd), bd.place.env.view_scopes(), re@, rt@, ie@, sym@, method@, value@, line, col),
{
    proof {
        reveal(crate::body_spec::index_compound_spec);
    }
    proof {
        lemma_opt_views(bd.place.current);
    }
    let set_params = method_params(&t.classes, rt, "set");
    let origin = Origin::Operator(framed("operator '", sym, "'"));
    let (ve, vt, vr) = match lower_expr(t, &bd.place, value) {
        Ok(v) => v,
        Err(x) => return Err(x),
    };
    let get_args = one_pair((crate::copy::copy_expr(&ie), Type::named("Integer")));
    let (gc, gt) = match core_call(&t.classes, &bd.place.current, rt, "get", crate::copy::copy_expr(&re), get_args, line, col, &origin) {
        Ok(v) => v,
        Err(x) => return Err(x),
    };
    let r2 = crate::typing::deopt((gc, gt));
    let v2 = crate::typing::deopt((ve, vt));
    let (r3, v3) = match widen(&t.classes, &bd.place.current, r2, v2) {
        Ok(v) => v,
        Err(x) => return Err(x),
    };
    let (r3e, r3t) = r3;
    let comb_args = one_pair(v3);
    let (combined, rty) = match core_call(&t.classes, &bd.place.current, &r3t, method, r3e, comb_args, line, col, &origin) {
        Ok(v) => v,
        Err(x) => return Err(x),
    };
    let two = match &set_params {
        Some(ps) => ps.len() == 2,
        None => false,
    };
    let elem_want = if two {
        match &set_params {
            Some(ps) => ps[1].copy(),
            None => Type::named("None"),
        }
    } else {
        rty.copy()
    };
    let shown = rty.display();
    let c = match crate::typing::try_coerce((combined, rty), &elem_want) {
        Ok(c) => c,
        Err(_) => {
            let mut m = framed("operator '", sym, "': result is ");
            crate::text::push_str(&mut m, shown.as_str());
            crate::text::push_str(&mut m, " but the element type is ");
            let d = elem_want.display();
            crate::text::push_str(&mut m, d.as_str());
            return Err(JimError::new(m, line, col));
        },
    };
    let set_args = two_pairs((ie, Type::named("Integer")), (c, elem_want));
    match core_call(&t.classes, &bd.place.current, rt, "set", re, set_args, line, col, &origin) {
        Ok((sc, _)) => Ok((StmtKind::ExprStmt(sc), vr)),
        Err(x) => Err(x),
    }
}

/// `recv[i] = value` / `recv[i] op= value`, through the class's `get`/`set`.
fn assign_index(t: &Tables, bd: &Body, target: &Expr, op: AssignOp, value: &Expr, line: u32, col: u32) -> (r: Result<(StmtKind, Vec<Inst>), JimError>)
    requires
        assignable(target@),
        target@.kind is Index,
        surface(value@),
    ensures
        assigned_v(r) == assign_spec(*t, fixed_v(*bd), bd.place.env.view_scopes(), target@, op, value@, line, col),
{
    proof {
        reveal(assign_spec);
    }
    proof {
        lemma_opt_views(bd.place.current);
    }
    match &target.kind {
        ExprKind::Index { recv, index } => {
            assert(target@.kind == ExprKindV::Index { recv: Box::new((**recv)@), index: Box::new((**index)@) });
            match check_compound_target(op, target, line, col) {
                Ok(()) => {},
                Err(x) => return Err(x),
            }
            let (re0, rt0, mut rr) = match lower_expr(t, &bd.place, recv) {
                Ok(v) => v,
                Err(x) => return Err(x),
            };
            let (re, rt) = crate::typing::deopt((re0, rt0));
            let (ie, ir) = match expect(t, &bd.place, index, &Type::named("Integer"), &Mismatch::Index) {
                Ok(v) => v,
                Err(x) => return Err(x),
            };
            let ghost rt_v = rt@;
            let ghost re_v = re@;
            let ghost ie_v = ie@;
            let tail = match compound_text(op) {
                None => index_set(t, bd, re, &rt, ie, value, line, col),
                Some((sym, method)) => index_compound(t, bd, re, &rt, ie, sym, method, value, line, col),
            };
            match tail {
                Ok((k, vr)) => {
                    append_insts(&mut rr, ir);
                    append_insts(&mut rr, vr);
                    Ok((k, rr))
                },
                Err(x) => Err(x),
            }
        },
        _ => Err(JimError::new(String::new(), line, col)),
    }
}

/// An assignment (see [`assign_spec`]).
fn assign(t: &Tables, bd: &Body, target: &Expr, op: AssignOp, value: &Expr, line: u32, col: u32) -> (r: Result<(StmtKind, Vec<Inst>), JimError>)
    requires
        assignable(target@),
        surface(value@),
    ensures
        assigned_v(r) == assign_spec(*t, fixed_v(*bd), bd.place.env.view_scopes(), target@, op, value@, line, col),
{
    match &target.kind {
        ExprKind::Ident(name) => assign_var(t, bd, target, name, op, value, line, col),
        ExprKind::Index { .. } => assign_index(t, bd, target, op, value, line, col),
        ExprKind::FieldAccess { .. } => assign_field(t, bd, target, op, value, line, col),
        _ => assign_deref(t, bd, target, op, value, line, col),
    }
}

pub open spec fn same_frame(a: Body, b: Body) -> bool {
    fixed_v(a) == fixed_v(b) && a.depth == b.depth && a.marks@ == b.marks@
}

/// A statement with no block of its own (a declaration, an assignment,
/// `++`/`--`, an expression, `return`, `break`, `continue`): when typing
/// it fails, the scopes are as they were.
pub open spec fn flat_stmt(s: StmtV) -> bool {
    s.kind is VarDecl || s.kind is Assign || s.kind is IncDec || s.kind is ExprStmt
        || s.kind is Return || s.kind is Break || s.kind is Continue
}

pub open spec fn stmt_result(t: Tables, old_bd: Body, new_bd: Body, s: StmtV, r: Result<(Stmt, Vec<Inst>), JimError>) -> bool {
    match stmt_spec(t, fixed_v(old_bd), old_bd.depth, old_bd.marks@, old_bd.place.env.view_scopes(), s) {
        Ok((sv, sc, rs)) => r matches Ok((x, reqs)) && x@ == sv && insts_v(reqs@) == rs
            && new_bd.place.env.view_scopes() == sc && same_frame(new_bd, old_bd),
        Err(e) => r matches Err(y) && y@ == e,
    }
}

/// A statement leaves as many scopes as it found, all but the innermost
/// untouched.
pub proof fn lemma_stmt_scopes(t: Tables, b: BodyV, d: u32, m: Seq<u32>, sc: Seq<ScopeV>, s: StmtV)
    requires
        sc.len() > 0,
    ensures
        stmt_spec(t, b, d, m, sc, s) matches Ok((_, sc2, _)) ==> sc2.len() == sc.len() && sc2.drop_last() == sc.drop_last(),
{
    reveal(stmt_spec);
    match s.kind {
        StmtKindV::VarDecl { is_const, name, ty, .. } => {
            let sc2 = declare_in(sc, name, ty, is_const);
            assert(sc2.drop_last() =~= sc.drop_last());
        },
        _ => {},
    }
}

proof fn lemma_stmts_size_each(ss: Seq<StmtV>, n: nat, i: int)
    requires
        n <= ss.len(),
        0 <= i < n,
    ensures
        stmt_size(ss[i]) < stmts_size(ss, n),
    decreases n,
{
    if i < n - 1 {
        lemma_stmts_size_each(ss, (n - 1) as nat, i);
    }
}

proof fn lemma_stmts_ok_each(ss: Seq<StmtV>, n: nat, i: int)
    requires
        n <= ss.len(),
        0 <= i < n,
        stmts_ok(ss, n),
    ensures
        stmt_ok(ss[i]),
    decreases n,
{
    if i < n - 1 {
        lemma_stmts_ok_each(ss, (n - 1) as nat, i);
    }
}

proof fn lemma_arms_each(arms: Seq<(ExprV, BlockV)>, n: nat, i: int)
    requires
        n <= arms.len(),
        0 <= i < n,
        arms_ok(arms, n),
    ensures
        block_size(arms[i].1) < arms_size(arms, n),
        surface(arms[i].0),
        block_ok(arms[i].1),
    decreases n,
{
    if i < n - 1 {
        lemma_arms_each(arms, (n - 1) as nat, i);
    }
}

proof fn lemma_stmts_err(t: Tables, b: BodyV, d: u32, m: Seq<u32>, sc: Seq<ScopeV>, ss: Seq<StmtV>, k: nat, n: nat)
    requires
        k <= n <= ss.len(),
        stmts_spec(t, b, d, m, sc, ss, k) is Err,
    ensures
        stmts_spec(t, b, d, m, sc, ss, n) == stmts_spec(t, b, d, m, sc, ss, k),
    decreases n - k,
{
    if k < n {
        lemma_stmts_err(t, b, d, m, sc, ss, k, (n - 1) as nat);
    }
}

proof fn lemma_arms_err(t: Tables, b: BodyV, d: u32, m: Seq<u32>, sc: Seq<ScopeV>, arms: Seq<(ExprV, BlockV)>, k: nat, n: nat)
    requires
        k <= n <= arms.len(),
        arms_spec(t, b, d, m, sc, arms, k) is Err,
    ensures
        arms_spec(t, b, d, m, sc, arms, n) == arms_spec(t, b, d, m, sc, arms, k),
    decreases n - k,
{
    if k < n {
        lemma_arms_err(t, b, d, m, sc, arms, k, (n - 1) as nat);
    }
}

/// Type a block in a fresh innermost scope (see [`block_spec`]); the
/// scopes are as before afterwards.
#[verifier::rlimit(100)]
#[verifier::spinoff_prover]
pub fn lower_block(t: &Tables, bd: &mut Body, blk: &Block) -> (r: Result<(Block, Vec<Inst>), JimError>)
    requires
        block_ok(blk@),
        old(bd).depth + block_size(blk@) < 0xffff_ffff,
    ensures
        match block_spec(*t, fixed_v(*old(bd)), old(bd).depth, old(bd).marks@, old(bd).place.env.view_scopes(), blk@) {
            Ok((bv, rs)) => r matches Ok((x, reqs)) && x@ == bv && insts_v(reqs@) == rs
                && final(bd).place.env.view_scopes() == old(bd).place.env.view_scopes() && same_frame(*final(bd), *old(bd)),
            Err(e) => r matches Err(y) && y@ == e,
        },
    decreases block_size(blk@), 1nat,
{
    let ghost b0 = fixed_v(*bd);
    let ghost d0 = bd.depth;
    let ghost m0 = bd.marks@;
    let ghost sc0 = bd.place.env.view_scopes();
    let ghost ss = blk@.stmts;
    let ghost old_bd = *bd;
    bd.place.env.push();
    let ghost sc1 = bd.place.env.view_scopes();
    assert(sc1 == sc0.push(Seq::empty()));
    let mut out: Vec<Stmt> = Vec::new();
    let mut reqs: Vec<Inst> = no_insts();
    let mut i: usize = 0;
    assert(stmts_v(out@) =~= Seq::<StmtV>::empty());
    assert(sc1.drop_last() =~= sc0);
    while i < blk.stmts.len()
        invariant
            i <= blk.stmts@.len(),
            ss == blk@.stmts,
            ss.len() == blk.stmts@.len(),
            block_ok(blk@),
            d0 + block_size(blk@) < 0xffff_ffff,
            fixed_v(*bd) == b0,
            bd.depth == d0,
            bd.marks@ == m0,
            bd.place.env.view_scopes().len() == sc0.len() + 1,
            bd.place.env.view_scopes().drop_last() == sc0,
            sc1 == sc0.push(Seq::empty()),
            b0 == fixed_v(*old(bd)),
            d0 == old(bd).depth,
            m0 == old(bd).marks@,
            sc0 == old(bd).place.env.view_scopes(),
            stmts_spec(*t, b0, d0, m0, sc1, ss, i as nat) == Ok::<(Seq<StmtV>, Seq<ScopeV>, Seq<InstV>), JimErrorV>((stmts_v(out@), bd.place.env.view_scopes(), insts_v(reqs@))),
        decreases blk.stmts@.len() - i,
    {
        proof {
            lemma_stmts_size_each(ss, ss.len(), i as int);
            lemma_stmts_ok_each(ss, ss.len(), i as int);
            lemma_stmt_scopes(*t, b0, d0, m0, bd.place.env.view_scopes(), ss[i as int]);
        }
        assert(ss[i as int] == blk.stmts@[i as int]@);
        match lower_stmt(t, bd, &blk.stmts[i]) {
            Ok((x, r)) => {
                let ghost o0 = stmts_v(out@);
                let ghost xv = x@;
                out.push(x);
                assert(stmts_v(out@) =~= o0.push(xv));
                append_insts(&mut reqs, r);
            },
            Err(y) => {
                proof {
                    assert(stmts_spec(*t, b0, d0, m0, sc1, ss, (i + 1) as nat) is Err);
                    lemma_stmts_err(*t, b0, d0, m0, sc1, ss, (i + 1) as nat, ss.len());
                    assert(blk@.stmts.len() == ss.len());
                }
                return Err(y);
            },
        }
        i += 1;
    }
    bd.place.env.pop();
    Ok((Block { stmts: out }, reqs))
}

/// The arms of an `if` (see [`arms_spec`]).
#[verifier::rlimit(100)]
#[verifier::spinoff_prover]
fn lower_arms(t: &Tables, bd: &mut Body, arms: &Vec<(Expr, Block)>) -> (r: Result<(Vec<(Expr, Block)>, Vec<Inst>), JimError>)
    requires
        arms_ok(arms_v(arms@), arms@.len()),
        old(bd).depth + arms_size(arms_v(arms@), arms@.len()) < 0xffff_ffff,
    ensures
        match arms_spec(*t, fixed_v(*old(bd)), old(bd).depth, old(bd).marks@, old(bd).place.env.view_scopes(), arms_v(arms@), arms@.len()) {
            Ok((xs, rs)) => r matches Ok((v, reqs)) && arms_v(v@) == xs && insts_v(reqs@) == rs
                && final(bd).place.env.view_scopes() == old(bd).place.env.view_scopes() && same_frame(*final(bd), *old(bd)),
            Err(e) => r matches Err(y) && y@ == e,
        },
    decreases arms_size(arms_v(arms@), arms@.len()), 0nat,
{
    let ghost b0 = fixed_v(*bd);
    let ghost d0 = bd.depth;
    let ghost m0 = bd.marks@;
    let ghost sc0 = bd.place.env.view_scopes();
    let ghost av = arms_v(arms@);
    let mut out: Vec<(Expr, Block)> = Vec::new();
    let mut reqs: Vec<Inst> = no_insts();
    let mut i: usize = 0;
    assert(arms_v(out@) =~= Seq::<(ExprV, BlockV)>::empty());
    while i < arms.len()
        invariant
            i <= arms@.len(),
            av == arms_v(arms@),
            av.len() == arms@.len(),
            arms_ok(av, av.len()),
            d0 + arms_size(av, av.len()) < 0xffff_ffff,
            fixed_v(*bd) == b0,
            bd.depth == d0,
            bd.marks@ == m0,
            bd.place.env.view_scopes() == sc0,
            b0 == fixed_v(*old(bd)),
            d0 == old(bd).depth,
            m0 == old(bd).marks@,
            sc0 == old(bd).place.env.view_scopes(),
            arms_spec(*t, b0, d0, m0, sc0, av, i as nat) == Ok::<(Seq<(ExprV, BlockV)>, Seq<InstV>), JimErrorV>((arms_v(out@), insts_v(reqs@))),
        decreases arms@.len() - i,
    {
        proof {
            lemma_arms_each(av, av.len(), i as int);
        }
        assert(av[i as int] == (arms@[i as int].0@, arms@[i as int].1@));
        assert(bd.place@ == place_v(b0, sc0));
        let (ce0, ct0, r1) = match lower_expr(t, &bd.place, &arms[i].0) {
            Ok(v) => v,
            Err(y) => {
                proof {
                    lemma_arms_err(*t, b0, d0, m0, sc0, av, (i + 1) as nat, av.len());
                }
                return Err(y);
            },
        };
        let ce = match check_condition("if", (ce0, ct0)) {
            Ok(v) => v,
            Err(y) => {
                proof {
                    lemma_arms_err(*t, b0, d0, m0, sc0, av, (i + 1) as nat, av.len());
                }
                return Err(y);
            },
        };
        match lower_block(t, bd, &arms[i].1) {
            Ok((lb, r2)) => {
                let ghost o0 = arms_v(out@);
                let ghost pv = (ce@, lb@);
                out.push((ce, lb));
                assert(arms_v(out@) =~= o0.push(pv));
                append_insts(&mut reqs, r1);
                append_insts(&mut reqs, r2);
            },
            Err(y) => {
                proof {
                    lemma_arms_err(*t, b0, d0, m0, sc0, av, (i + 1) as nat, av.len());
                }
                return Err(y);
            },
        }
        i += 1;
    }
    Ok((out, reqs))
}

/// Statements that open no scope: declarations, assignments, `++`/`--`,
/// expression statements, `return`, `break`, `continue`.
#[verifier::rlimit(100)]
#[verifier::spinoff_prover]
fn stmt_flat(t: &Tables, bd: &mut Body, s: &Stmt) -> (r: Result<(Stmt, Vec<Inst>), JimError>)
    requires
        stmt_ok(s@),
        old(bd).place.env.view_scopes().len() > 0,
        s@.kind is VarDecl || s@.kind is Assign || s@.kind is IncDec || s@.kind is ExprStmt
            || s@.kind is Return || s@.kind is Break || s@.kind is Continue,
    ensures
        stmt_result(*t, *old(bd), *final(bd), s@, r),
        r is Err ==> final(bd).place.env.view_scopes() == old(bd).place.env.view_scopes(),
{
    proof {
        reveal(stmt_spec);
    }
    let line = s.line;
    let col = s.col;
    proof {
        lemma_opt_views(bd.place.current);
    }
    match &s.kind {
        StmtKind::VarDecl { is_const, name, ty, init } => {
            assert(s@.kind == StmtKindV::VarDecl { is_const: *is_const, name: name@, ty: ty@, init: init@ });
            match check_declared_type(&t.known, name.as_str(), ty, line, col) {
                Ok(()) => {},
                Err(x) => return Err(x),
            }
            let (ie, rs) = match expect(t, &bd.place, init, ty, &Mismatch::VarInit(name.clone())) {
                Ok(v) => v,
                Err(x) => return Err(x),
            };
            match crate::calls::declare_var(&mut bd.place.env, name.as_str(), ty.copy(), *is_const, line, col) {
                Ok(()) => {},
                Err(x) => return Err(x),
            }
            Ok((Stmt { kind: StmtKind::VarDecl { is_const: *is_const, name: name.clone(), ty: ty.copy(), init: ie }, line, col }, rs))
        },
        StmtKind::Assign { target, op, value } => {
            assert(s@.kind == StmtKindV::Assign { target: target@, op: *op, value: value@ });
            match assign(t, bd, target, *op, value, line, col) {
                Ok((k, rs)) => Ok((Stmt { kind: k, line, col }, rs)),
                Err(x) => Err(x),
            }
        },
        StmtKind::IncDec { target, inc } => {
            assert(s@.kind == StmtKindV::IncDec { target: target@, inc: *inc });
            let one = Expr { kind: ExprKind::Int(1), line, col };
            let op = if *inc { AssignOp::Add } else { AssignOp::Sub };
            match assign(t, bd, target, op, &one, line, col) {
                Ok((k, rs)) => Ok((Stmt { kind: k, line, col }, rs)),
                Err(x) => Err(x),
            }
        },
        StmtKind::ExprStmt(e) => {
            assert(s@.kind == StmtKindV::ExprStmt(e@));
            match lower_expr(t, &bd.place, e) {
                Ok((x, _, rs)) => Ok((Stmt { kind: StmtKind::ExprStmt(x), line, col }, rs)),
                Err(x) => Err(x),
            }
        },
        StmtKind::Return(v) => {
            let has_value = v.is_some();
            match crate::stmt_rules::check_return(bd.marks.len() > 0, bd.fn_name.as_str(), &bd.ret, has_value, line, col) {
                Ok(()) => {},
                Err(x) => return Err(x),
            }
            match v {
                Some(e) => {
                    assert(s@.kind == StmtKindV::Return(Some(e@)));
                    match expect(t, &bd.place, e, &bd.ret, &Mismatch::Return(bd.fn_name.clone())) {
                        Ok((x, rs)) => Ok((Stmt { kind: StmtKind::Return(Some(x)), line, col }, rs)),
                        Err(x) => Err(x),
                    }
                },
                None => {
                    assert(s@.kind == StmtKindV::Return(None));
                    Ok((Stmt { kind: StmtKind::Return(None), line, col }, no_insts()))
                },
            }
        },
        StmtKind::Break => {
            match crate::stmt_rules::check_jump(true, bd.depth, &bd.marks, line, col) {
                Ok(()) => Ok((Stmt { kind: StmtKind::Break, line, col }, no_insts())),
                Err(x) => Err(x),
            }
        },
        _ => {
            match crate::stmt_rules::check_jump(false, bd.depth, &bd.marks, line, col) {
                Ok(()) => Ok((Stmt { kind: StmtKind::Continue, line, col }, no_insts())),
                Err(x) => Err(x),
            }
        },
    }
}

/// `if` / `while` (see [`stmt_spec`]).
#[verifier::rlimit(100)]
#[verifier::spinoff_prover]
fn stmt_branch(t: &Tables, bd: &mut Body, s: &Stmt) -> (r: Result<(Stmt, Vec<Inst>), JimError>)
    requires
        stmt_ok(s@),
        old(bd).place.env.view_scopes().len() > 0,
        old(bd).depth + stmt_size(s@) < 0xffff_ffff,
        s@.kind is If || s@.kind is While,
    ensures
        stmt_result(*t, *old(bd), *final(bd), s@, r),
    decreases stmt_size(s@), 0nat,
{
    proof {
        reveal(stmt_spec);
    }
    let line = s.line;
    let col = s.col;
    match &s.kind {
        StmtKind::If { arms, else_block } => {
            let ghost ebv = match else_block { Some(b) => Some(b@), None => None::<BlockV> };
            assert(s@.kind == StmtKindV::If { arms: arms_v(arms@), else_block: ebv });
            let (las, mut r1) = match lower_arms(t, bd, arms) {
                Ok(v) => v,
                Err(x) => return Err(x),
            };
            match else_block {
                None => Ok((Stmt { kind: StmtKind::If { arms: las, else_block: None }, line, col }, r1)),
                Some(eb) => {
                    match lower_block(t, bd, eb) {
                        Ok((lb, r2)) => {
                            append_insts(&mut r1, r2);
                            Ok((Stmt { kind: StmtKind::If { arms: las, else_block: Some(lb) }, line, col }, r1))
                        },
                        Err(x) => Err(x),
                    }
                },
            }
        },
        StmtKind::While { cond, body } => {
            assert(s@.kind == StmtKindV::While { cond: cond@, body: body@ });
            let (ce0, ct0, mut r1) = match lower_expr(t, &bd.place, cond) {
                Ok(v) => v,
                Err(x) => return Err(x),
            };
            let ce = match check_condition("while", (ce0, ct0)) {
                Ok(v) => v,
                Err(x) => return Err(x),
            };
            let d = bd.depth;
            bd.depth = d + 1;
            let res = lower_block(t, bd, body);
            bd.depth = d;
            match res {
                Ok((lb, r2)) => {
                    append_insts(&mut r1, r2);
                    Ok((Stmt { kind: StmtKind::While { cond: ce, body: lb }, line, col }, r1))
                },
                Err(x) => Err(x),
            }
        },
        _ => Err(JimError::new(String::new(), line, col)),
    }
}

/// `for (x: T = init; cond; step) body` (see [`stmt_spec`]).
#[verifier::rlimit(100)]
#[verifier::spinoff_prover]
fn stmt_for(t: &Tables, bd: &mut Body, s: &Stmt) -> (r: Result<(Stmt, Vec<Inst>), JimError>)
    requires
        stmt_ok(s@),
        old(bd).place.env.view_scopes().len() > 0,
        old(bd).depth + stmt_size(s@) < 0xffff_ffff,
        s@.kind is ForC,
    ensures
        stmt_result(*t, *old(bd), *final(bd), s@, r),
    decreases stmt_size(s@), 0nat,
{
    proof {
        reveal(stmt_spec);
    }
    let line = s.line;
    let col = s.col;
    match &s.kind {
        StmtKind::ForC { var_name, var_ty, init, cond, step, body } => {
            assert(s@.kind == StmtKindV::ForC { var_name: var_name@, var_ty: var_ty@, init: init@, cond: cond@, step: Box::new((**step)@), body: body@ });
            let ghost sc0 = bd.place.env.view_scopes();
            match check_declared_type(&t.known, var_name.as_str(), var_ty, line, col) {
                Ok(()) => {},
                Err(x) => return Err(x),
            }
            let (ie, mut r1) = match expect(t, &bd.place, init, var_ty, &Mismatch::VarInit(var_name.clone())) {
                Ok(v) => v,
                Err(x) => return Err(x),
            };
            bd.place.env.push();
            let _ = bd.place.env.declare(var_name.as_str(), var_ty.copy(), false);
            let ghost sc1 = bd.place.env.view_scopes();
            assert(sc1 == declare_in(sc0.push(Seq::empty()), var_name@, var_ty@, false));
            assert(sc1.drop_last() =~= sc0);
            assert(bd.place@ == place_v(fixed_v(*bd), sc1));
            let (ce0, ct0, r2) = match lower_expr(t, &bd.place, cond) {
                Ok(v) => v,
                Err(x) => return Err(x),
            };
            let ce = match check_condition("for", (ce0, ct0)) {
                Ok(v) => v,
                Err(x) => return Err(x),
            };
            let d = bd.depth;
            bd.depth = d + 1;
            let (lb, r3) = match lower_block(t, bd, body) {
                Ok(v) => v,
                Err(x) => return Err(x),
            };
            proof {
                lemma_stmt_scopes(*t, fixed_v(*bd), bd.depth, bd.marks@, sc1, (**step)@);
            }
            let (ls, r4) = match lower_stmt(t, bd, step) {
                Ok(v) => v,
                Err(x) => return Err(x),
            };
            bd.depth = d;
            bd.place.env.pop();
            append_insts(&mut r1, r2);
            append_insts(&mut r1, r3);
            append_insts(&mut r1, r4);
            Ok((Stmt { kind: StmtKind::ForC { var_name: var_name.clone(), var_ty: var_ty.copy(), init: ie, cond: ce, step: Box::new(ls), body: lb }, line, col }, r1))
        },
        _ => Err(JimError::new(String::new(), line, col)),
    }
}

/// `try { .. } catch (e: Exception) { .. }` (see [`stmt_spec`]).
#[verifier::rlimit(100)]
#[verifier::spinoff_prover]
fn stmt_try(t: &Tables, bd: &mut Body, s: &Stmt) -> (r: Result<(Stmt, Vec<Inst>), JimError>)
    requires
        stmt_ok(s@),
        old(bd).place.env.view_scopes().len() > 0,
        old(bd).depth + stmt_size(s@) < 0xffff_ffff,
        s@.kind is TryCatch,
    ensures
        stmt_result(*t, *old(bd), *final(bd), s@, r),
    decreases stmt_size(s@), 0nat,
{
    proof {
        reveal(stmt_spec);
    }
    let line = s.line;
    let col = s.col;
    match &s.kind {
        StmtKind::TryCatch { body, var_name, var_ty, catch_body } => {
            assert(s@.kind == StmtKindV::TryCatch { body: body@, var_name: var_name@, var_ty: var_ty@, catch_body: catch_body@ });
            let ghost sc0 = bd.place.env.view_scopes();
            let ghost m0 = bd.marks@;
            match crate::stmt_rules::check_catch_type(var_ty, line, col) {
                Ok(()) => {},
                Err(x) => return Err(x),
            }
            let d = bd.depth;
            bd.marks.push(d);
            let (lb, mut r1) = match lower_block(t, bd, body) {
                Ok(v) => v,
                Err(x) => return Err(x),
            };
            let _ = bd.marks.pop();
            assert(bd.marks@ =~= m0);
            bd.place.env.push();
            let _ = bd.place.env.declare(var_name.as_str(), Type::named("Exception"), false);
            let ghost sc1 = bd.place.env.view_scopes();
            assert(sc1 == declare_in(sc0.push(Seq::empty()), var_name@, TypeV::Named("Exception"@), false));
            assert(sc1.drop_last() =~= sc0);
            let (lc, r2) = match lower_block(t, bd, catch_body) {
                Ok(v) => v,
                Err(x) => return Err(x),
            };
            bd.place.env.pop();
            append_insts(&mut r1, r2);
            Ok((Stmt { kind: StmtKind::TryCatch { body: lb, var_name: var_name.clone(), var_ty: var_ty.copy(), catch_body: lc }, line, col }, r1))
        },
        _ => Err(JimError::new(String::new(), line, col)),
    }
}

/// `for (x: T in it) body` as its index loop over a hidden copy of `it`
/// (see [`stmt_spec`]).
#[verifier::rlimit(100)]
#[verifier::spinoff_prover]
fn stmt_for_in(t: &Tables, bd: &mut Body, s: &Stmt) -> (r: Result<(Stmt, Vec<Inst>), JimError>)
    requires
        stmt_ok(s@),
        old(bd).place.env.view_scopes().len() > 0,
        old(bd).depth + stmt_size(s@) < 0xffff_ffff,
        s@.kind is ForIn,
    ensures
        stmt_result(*t, *old(bd), *final(bd), s@, r),
    decreases stmt_size(s@), 0nat,
{
    proof {
        reveal(stmt_spec);
    }
    let line = s.line;
    let col = s.col;
    match &s.kind {
        StmtKind::ForIn { var_name, var_ty, iterable, body } => {
            assert(s@.kind == StmtKindV::ForIn { var_name: var_name@, var_ty: var_ty@, iterable: iterable@, body: body@ });
            let ghost sc0 = bd.place.env.view_scopes();
            let ghost b0 = fixed_v(*bd);
            let ghost d0 = bd.depth;
            let ghost m0 = bd.marks@;
            assert(bd.place@ == place_v(fixed_v(*bd), sc0));
            let (ie0, it0, mut r1) = match lower_expr(t, &bd.place, iterable) {
                Ok(v) => v,
                Err(x) => return Err(x),
            };
            let (ie, ity) = crate::typing::deopt((ie0, it0));
            let (it_name, idx_name) = crate::stmt_rules::for_in_hidden_names(line, col);
            bd.place.env.push();
            let _ = bd.place.env.declare(it_name.as_str(), ity.copy(), false);
            let ghost sc1 = bd.place.env.view_scopes();
            assert(sc1 == declare_in(sc0.push(Seq::empty()), it_name@, ity@, false));
            assert(sc1.drop_last() =~= sc0);
            let it_decl = Stmt { kind: StmtKind::VarDecl { is_const: false, name: it_name.clone(), ty: ity, init: ie }, line, col };
            let raw = crate::stmt_rules::for_in_loop(var_name.as_str(), var_ty, body, it_name.as_str(), idx_name.as_str(), line, col);
            proof {
                crate::body_spec::lemma_for_in_smaller(var_name@, var_ty@, body@, it_name@, idx_name@, line, col);
                lemma_for_in_ok(var_name@, var_ty@, body@, it_name@, idx_name@, line, col);
                lemma_stmt_scopes(*t, fixed_v(*bd), bd.depth, bd.marks@, sc1, raw@);
            }
            assert(fixed_v(*bd) == b0 && bd.depth == d0 && bd.marks@ == m0);
            let ghost names = crate::stmt_rules::for_in_names(line, col);
            assert(names.0 == it_name@ && names.1 == idx_name@);
            let (lf, r2) = match lower_stmt(t, bd, &raw) {
                Ok(v) => v,
                Err(x) => return Err(x),
            };
            assert(stmt_spec(*t, b0, d0, m0, sc1, raw@) matches Ok((x, _, y)) && x == lf@ && y == insts_v(r2@));
            bd.place.env.pop();
            assert(bd.place.env.view_scopes() == sc0);
            append_insts(&mut r1, r2);
            let ghost dv = it_decl@;
            let ghost fv = lf@;
            let mut stmts: Vec<Stmt> = Vec::new();
            stmts.push(it_decl);
            stmts.push(lf);
            assert(stmts_v(stmts@) =~= seq![dv, fv]);
            let blk = Block { stmts };
            assert(blk@ == BlockV { stmts: seq![dv, fv] });
            let ghost bv = blk@;
            let res = Stmt { kind: StmtKind::Scope(blk), line, col };
            assert(res@ == StmtV { kind: StmtKindV::Scope(bv), line, col });
            assert(stmt_spec(*t, b0, d0, m0, sc0, s@) == Ok::<(StmtV, Seq<ScopeV>, Seq<InstV>), JimErrorV>((res@, sc0, insts_v(r1@))));
            Ok((res, r1))
        },
        _ => Err(JimError::new(String::new(), line, col)),
    }
}

/// The loop a for-in loop stands for is as the parser would make it.
proof fn lemma_for_in_ok(var_name: Seq<char>, var_ty: TypeV, body: BlockV, it_name: Seq<char>, idx_name: Seq<char>, line: u32, col: u32)
    requires
        block_ok(body),
    ensures
        stmt_ok(crate::stmt_rules::for_in_loop_spec(var_name, var_ty, body, it_name, idx_name, line, col)),
{
    let raw = crate::stmt_rules::for_in_loop_spec(var_name, var_ty, body, it_name, idx_name, line, col);
    match raw.kind {
        StmtKindV::ForC { init, cond, step, body: inner, .. } => {
            let first = inner.stmts[0];
            assert(inner.stmts == seq![first] + body.stmts);
            match first.kind {
                StmtKindV::VarDecl { init: gi, .. } => {
                    match gi.kind {
                        ExprKindV::MethodCall { recv, args, .. } => {
                            assert(surface(*recv));
                            assert(surface(args[0]));
                            assert(crate::lowering_spec::surface_all(args, 0));
                            assert(crate::lowering_spec::surface_all(args, 1));
                            assert(surface(gi));
                        },
                        _ => {},
                    }
                },
                _ => {},
            }
            assert(stmt_ok(first));
            lemma_stmts_ok_prepend(first, body.stmts, body.stmts.len());
            match cond.kind {
                ExprKindV::Binary { lhs, rhs, .. } => {
                    assert(surface(*lhs));
                    match rhs.kind {
                        ExprKindV::MethodCall { recv, args, .. } => {
                            assert(surface(*recv));
                            assert(crate::lowering_spec::surface_all(args, 0));
                        },
                        _ => {},
                    }
                    assert(surface(*rhs));
                },
                _ => {},
            }
            assert(stmt_ok(*step));
            assert(surface(cond));
            assert(surface(init));
            assert(block_ok(inner));
        },
        _ => {},
    }
}

proof fn lemma_stmts_ok_prepend(a: StmtV, ss: Seq<StmtV>, n: nat)
    requires
        n <= ss.len(),
        stmt_ok(a),
        stmts_ok(ss, n),
    ensures
        stmts_ok(seq![a] + ss, n + 1),
    decreases n,
{
    let all = seq![a] + ss;
    if n == 0 {
        assert(stmts_ok(all, 0));
    } else {
        lemma_stmts_ok_prepend(a, ss, (n - 1) as nat);
        assert(all[n as int] == ss[n - 1]);
    }
}

/// Type one statement (see [`stmt_spec`]): the lowered statement, the
/// instances it asks for; the scopes afterwards are the spec's.
#[verifier::rlimit(100)]
#[verifier::spinoff_prover]
pub fn lower_stmt(t: &Tables, bd: &mut Body, s: &Stmt) -> (r: Result<(Stmt, Vec<Inst>), JimError>)
    requires
        stmt_ok(s@),
        old(bd).place.env.view_scopes().len() > 0,
        old(bd).depth + stmt_size(s@) < 0xffff_ffff,
    ensures
        stmt_result(*t, *old(bd), *final(bd), s@, r),
        r is Err && flat_stmt(s@) ==> final(bd).place.env.view_scopes() == old(bd).place.env.view_scopes(),
    decreases stmt_size(s@), 1nat,
{
    match &s.kind {
        StmtKind::If { .. } => stmt_branch(t, bd, s),
        StmtKind::While { .. } => stmt_branch(t, bd, s),
        StmtKind::ForC { .. } => stmt_for(t, bd, s),
        StmtKind::ForIn { .. } => stmt_for_in(t, bd, s),
        StmtKind::TryCatch { .. } => stmt_try(t, bd, s),
        StmtKind::Scope(_) => Err(JimError::new(String::new(), s.line, s.col)),
        _ => stmt_flat(t, bd, s),
    }
}

} // verus!
