//! Checks that a body has the shape the parser gives (surface expressions,
//! assignable targets, no bare scopes) and is small enough to count loop
//! depths in, so that typing it can proceed.

use vstd::prelude::*;
use crate::ast::{Block, Expr, ExprKind, Stmt, StmtKind, UnOp, arms_v, exprs_v, stmts_v};
use crate::body_spec::{arms_ok, arms_size, assignable, block_ok, block_size, stmt_ok, stmt_size, stmts_ok, stmts_size};
use crate::lowering_spec::{surface, surface_all};

verus! {

proof fn lemma_surface_all_elem(es: Seq<crate::ast::ExprV>, n: nat, i: int)
    requires
        surface_all(es, n),
        n <= es.len(),
        0 <= i < n,
    ensures
        surface(es[i]),
    decreases n,
{
    if i < n - 1 {
        lemma_surface_all_elem(es, (n - 1) as nat, i);
    }
}

proof fn lemma_stmts_ok_elem(ss: Seq<crate::ast::StmtV>, n: nat, i: int)
    requires
        stmts_ok(ss, n),
        n <= ss.len(),
        0 <= i < n,
    ensures
        stmt_ok(ss[i]),
    decreases n,
{
    if i < n - 1 {
        lemma_stmts_ok_elem(ss, (n - 1) as nat, i);
    }
}

proof fn lemma_arms_ok_elem(a: Seq<(crate::ast::ExprV, crate::ast::BlockV)>, n: nat, i: int)
    requires
        arms_ok(a, n),
        n <= a.len(),
        0 <= i < n,
    ensures
        surface(a[i].0) && block_ok(a[i].1),
    decreases n,
{
    if i < n - 1 {
        lemma_arms_ok_elem(a, (n - 1) as nat, i);
    }
}

proof fn lemma_stmts_size_mono(ss: Seq<crate::ast::StmtV>, i: nat, n: nat)
    requires
        i <= n <= ss.len(),
    ensures
        stmts_size(ss, i) <= stmts_size(ss, n),
    decreases n,
{
    if i < n {
        lemma_stmts_size_mono(ss, i, (n - 1) as nat);
    }
}

proof fn lemma_arms_size_mono(a: Seq<(crate::ast::ExprV, crate::ast::BlockV)>, i: nat, n: nat)
    requires
        i <= n <= a.len(),
    ensures
        arms_size(a, i) <= arms_size(a, n),
    decreases n,
{
    if i < n {
        lemma_arms_size_mono(a, i, (n - 1) as nat);
    }
}

/// Is `e` a surface expression?
pub fn surface_check(e: &Expr) -> (b: bool)
    ensures
        b == surface(e@),
    decreases e, 1nat,
{
    match &e.kind {
        ExprKind::ArrayLit(es) => surface_list_check(es),
        ExprKind::Call { args, .. } => surface_list_check(args),
        ExprKind::GenericCall { args, .. } => surface_list_check(args),
        ExprKind::MethodCall { recv, args, .. } => surface_check(recv) && surface_list_check(args),
        ExprKind::IntrinsicCall { args, .. } => surface_list_check(args),
        ExprKind::FieldAccess { recv, .. } => surface_check(recv),
        ExprKind::Index { recv, index } => surface_check(recv) && surface_check(index),
        ExprKind::Binary { lhs, rhs, .. } => surface_check(lhs) && surface_check(rhs),
        ExprKind::Unary { operand, .. } => surface_check(operand),
        ExprKind::CoreMethodCall { .. } => false,
        ExprKind::OptWrap { .. } => false,
        ExprKind::OptUnwrap { .. } => false,
        ExprKind::OptNone { .. } => false,
        ExprKind::OptHas { .. } => false,
        ExprKind::New { .. } => false,
        ExprKind::ContainerLit { .. } => false,
        ExprKind::BufAlloc { .. } => false,
        _ => true,
    }
}

pub fn surface_list_check(es: &Vec<Expr>) -> (b: bool)
    ensures
        b == surface_all(exprs_v(es@), es@.len()),
    decreases es, 0nat,
{
    let ghost ev = exprs_v(es@);
    let mut i: usize = 0;
    while i < es.len()
        invariant
            i <= es@.len(),
            ev == exprs_v(es@),
            surface_all(ev, i as nat),
        decreases es@.len() - i,
    {
        assert(decreases_to!(es => es@[i as int]));
        if !surface_check(&es[i]) {
            proof {
                assert(ev[i as int] == es@[i as int]@);
                if surface_all(ev, es@.len()) {
                    lemma_surface_all_elem(ev, es@.len(), i as int);
                }
            }
            return false;
        }
        assert(ev[i as int] == es@[i as int]@);
        i += 1;
    }
    true
}

fn assignable_check(t: &Expr) -> (b: bool)
    ensures
        b == assignable(t@),
{
    let kind_ok = match &t.kind {
        ExprKind::Ident(_) => true,
        ExprKind::Index { .. } => true,
        ExprKind::FieldAccess { .. } => true,
        ExprKind::Unary { op, .. } => *op == UnOp::Deref,
        _ => false,
    };
    kind_ok && surface_check(t)
}

/// Does `s` have the parser's shape?
pub fn stmt_check(s: &Stmt) -> (b: bool)
    ensures
        b == stmt_ok(s@),
    decreases s, 1nat,
{
    match &s.kind {
        StmtKind::VarDecl { init, .. } => surface_check(init),
        StmtKind::Assign { target, value, .. } => assignable_check(target) && surface_check(value),
        StmtKind::IncDec { target, .. } => assignable_check(target),
        StmtKind::ExprStmt(e) => surface_check(e),
        StmtKind::Return(v) => match v {
            Some(e) => surface_check(e),
            None => true,
        },
        StmtKind::If { arms, else_block } => {
            let ok_else = match else_block {
                Some(b) => block_check(b),
                None => true,
            };
            arms_check(arms) && ok_else
        },
        StmtKind::While { cond, body } => surface_check(cond) && block_check(body),
        StmtKind::ForC { init, cond, step, body, .. } => surface_check(init) && surface_check(cond) && stmt_check(step) && block_check(body),
        StmtKind::ForIn { iterable, body, .. } => surface_check(iterable) && block_check(body),
        StmtKind::Scope(_) => false,
        StmtKind::TryCatch { body, catch_body, .. } => block_check(body) && block_check(catch_body),
        StmtKind::Break => true,
        StmtKind::Continue => true,
    }
}

pub fn block_check(b: &Block) -> (r: bool)
    ensures
        r == block_ok(b@),
    decreases b, 0nat,
{
    let ghost sv = stmts_v(b.stmts@);
    let mut i: usize = 0;
    while i < b.stmts.len()
        invariant
            i <= b.stmts@.len(),
            sv == stmts_v(b.stmts@),
            stmts_ok(sv, i as nat),
        decreases b.stmts@.len() - i,
    {
        assert(decreases_to!(b => b.stmts));
        assert(decreases_to!(b.stmts => b.stmts@[i as int]));
        if !stmt_check(&b.stmts[i]) {
            proof {
                assert(sv[i as int] == b.stmts@[i as int]@);
                if stmts_ok(sv, b.stmts@.len()) {
                    lemma_stmts_ok_elem(sv, b.stmts@.len(), i as int);
                }
            }
            return false;
        }
        assert(sv[i as int] == b.stmts@[i as int]@);
        i += 1;
    }
    true
}

fn arms_check(arms: &Vec<(Expr, Block)>) -> (r: bool)
    ensures
        r == arms_ok(arms_v(arms@), arms@.len()),
    decreases arms, 0nat,
{
    let ghost av = arms_v(arms@);
    let mut i: usize = 0;
    while i < arms.len()
        invariant
            i <= arms@.len(),
            av == arms_v(arms@),
            arms_ok(av, i as nat),
        decreases arms@.len() - i,
    {
        assert(decreases_to!(arms => arms@[i as int]));
        if !surface_check(&arms[i].0) || !block_check(&arms[i].1) {
            proof {
                assert(av[i as int] == (arms@[i as int].0@, arms@[i as int].1@));
                if arms_ok(av, arms@.len()) {
                    lemma_arms_ok_elem(av, arms@.len(), i as int);
                }
            }
            return false;
        }
        assert(av[i as int] == (arms@[i as int].0@, arms@[i as int].1@));
        i += 1;
    }
    true
}

/// What is left of `budget` after the weight of `s`, when it fits.
pub fn stmt_weigh(s: &Stmt, budget: u64) -> (r: Option<u64>)
    ensures
        r matches Some(rem) ==> stmt_size(s@) + rem == budget,
        r is None ==> stmt_size(s@) > budget,
    decreases s, 1nat,
{
    match &s.kind {
        StmtKind::If { arms, else_block } => {
            if budget < 1 {
                return None;
            }
            let b1 = match arms_weigh(arms, budget - 1) {
                Some(x) => x,
                None => return None,
            };
            match else_block {
                Some(b) => block_weigh(b, b1),
                None => Some(b1),
            }
        },
        StmtKind::While { body, .. } => {
            if budget < 1 {
                return None;
            }
            block_weigh(body, budget - 1)
        },
        StmtKind::ForC { step, body, .. } => {
            if budget < 1 {
                return None;
            }
            let b1 = match stmt_weigh(step, budget - 1) {
                Some(x) => x,
                None => return None,
            };
            block_weigh(body, b1)
        },
        StmtKind::ForIn { body, .. } => {
            if budget < 6 {
                return None;
            }
            block_weigh(body, budget - 6)
        },
        StmtKind::Scope(b) => {
            if budget < 1 {
                return None;
            }
            block_weigh(b, budget - 1)
        },
        StmtKind::TryCatch { body, catch_body, .. } => {
            if budget < 1 {
                return None;
            }
            let b1 = match block_weigh(body, budget - 1) {
                Some(x) => x,
                None => return None,
            };
            block_weigh(catch_body, b1)
        },
        _ => if budget < 1 { None } else { Some(budget - 1) },
    }
}

pub fn block_weigh(b: &Block, budget: u64) -> (r: Option<u64>)
    ensures
        r matches Some(rem) ==> block_size(b@) + rem == budget,
        r is None ==> block_size(b@) > budget,
    decreases b, 0nat,
{
    if budget < 1 {
        return None;
    }
    let ghost sv = stmts_v(b.stmts@);
    let mut left: u64 = budget - 1;
    let mut i: usize = 0;
    while i < b.stmts.len()
        invariant
            i <= b.stmts@.len(),
            sv == stmts_v(b.stmts@),
            1 + stmts_size(sv, i as nat) + left == budget,
        decreases b.stmts@.len() - i,
    {
        assert(decreases_to!(b => b.stmts));
        assert(decreases_to!(b.stmts => b.stmts@[i as int]));
        assert(sv[i as int] == b.stmts@[i as int]@);
        proof { lemma_stmts_size_mono(sv, (i + 1) as nat, sv.len()); }
        let l1 = match stmt_weigh(&b.stmts[i], left) {
            Some(x) => x,
            None => return None,
        };
        if l1 < 1 {
            return None;
        }
        left = l1 - 1;
        i += 1;
    }
    assert(sv.len() == b.stmts@.len());
    Some(left)
}

fn arms_weigh(arms: &Vec<(Expr, Block)>, budget: u64) -> (r: Option<u64>)
    ensures
        r matches Some(rem) ==> arms_size(arms_v(arms@), arms@.len()) + rem == budget,
        r is None ==> arms_size(arms_v(arms@), arms@.len()) > budget,
    decreases arms, 0nat,
{
    let ghost av = arms_v(arms@);
    let mut left: u64 = budget;
    let mut i: usize = 0;
    while i < arms.len()
        invariant
            i <= arms@.len(),
            av == arms_v(arms@),
            arms_size(av, i as nat) + left == budget,
        decreases arms@.len() - i,
    {
        assert(decreases_to!(arms => arms@[i as int]));
        assert(av[i as int].1 == arms@[i as int].1@);
        proof { lemma_arms_size_mono(av, (i + 1) as nat, av.len()); }
        let l1 = match block_weigh(&arms[i].1, left) {
            Some(x) => x,
            None => return None,
        };
        if l1 < 1 {
            return None;
        }
        left = l1 - 1;
        i += 1;
    }
    Some(left)
}

/// Does a body have the parser's shape and fit the loop-depth counter?
pub fn body_check(b: &Block) -> (r: bool)
    ensures
        r == crate::members::body_ok(b@),
{
    block_check(b) && block_weigh(b, 0xffff_fffe).is_some()
}

/// Does a class have the parser's shape (surface defaults, bodies as
/// [`body_check`] asks)?
pub fn class_check(c: &crate::ast::ClassDecl) -> (r: bool)
    ensures
        r == crate::members::class_ok(c@),
{
    let mut i: usize = 0;
    while i < c.fields.len()
        invariant
            i <= c.fields@.len(),
            forall|j: int| 0 <= j < i ==> surface(#[trigger] c@.fields[j].default),
        decreases c.fields@.len() - i,
    {
        if !surface_check(&c.fields[i].default) {
            assert(c@.fields[i as int] == c.fields@[i as int]@);
            assert(!surface(c@.fields[i as int].default));
            return false;
        }
        assert(c@.fields[i as int] == c.fields@[i as int]@);
        i += 1;
    }
    let ctor_ok = match &c.ctor {
        Some(ct) => body_check(&ct.body),
        None => true,
    };
    if !ctor_ok {
        return false;
    }
    let mut k: usize = 0;
    while k < c.methods.len()
        invariant
            k <= c.methods@.len(),
            forall|j: int| 0 <= j < k ==> crate::members::body_ok(#[trigger] c@.methods[j].body),
        decreases c.methods@.len() - k,
    {
        let ok = body_check(&c.methods[k].body);
        assert(c@.methods[k as int] == c.methods@[k as int]@);
        if !ok {
            assert(!crate::members::body_ok(c@.methods[k as int].body));
            return false;
        }
        assert(c@.methods[k as int] == c.methods@[k as int]@);
        k += 1;
    }
    true
}

} // verus!
