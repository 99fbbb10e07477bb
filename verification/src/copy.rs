//! Deep copies of expressions and statements.

use vstd::prelude::*;
use crate::ast::{Block, Expr, ExprKind, Stmt, StmtKind, Type, arms_v, block_v, exprs_v, stmts_v, types_v};
use crate::rewrite::sk_view;

verus! {

/// A copy of a list of types.
pub fn copy_types(v: &Vec<Type>) -> (r: Vec<Type>)
    ensures
        types_v(r@) == types_v(v@),
{
    let mut out: Vec<Type> = Vec::new();
    let mut i: usize = 0;
    while i < v.len()
        invariant
            i <= v@.len(),
            out@.len() == i,
            forall|j: int| 0 <= j < i ==> out@[j]@ == v@[j]@,
        decreases v@.len() - i,
    {
        out.push(v[i].copy());
        i += 1;
    }
    assert(types_v(out@) =~= types_v(v@));
    out
}

/// A copy of an expression.
#[verifier::rlimit(40)]
#[verifier::spinoff_prover]
pub fn copy_expr(e: &Expr) -> (r: Expr)
    ensures
        r@ == e@,
    decreases e, 1nat,
{
    let k = match &e.kind {
        ExprKind::Int(v) => ExprKind::Int(*v),
        ExprKind::Float(t) => ExprKind::Float(t.clone()),
        ExprKind::Str(t) => ExprKind::Str(t.clone()),
        ExprKind::CharLit(c) => ExprKind::CharLit(*c),
        ExprKind::Bool(b) => ExprKind::Bool(*b),
        ExprKind::NoneLit => ExprKind::NoneLit,
        ExprKind::Ident(n) => ExprKind::Ident(n.clone()),
        ExprKind::This => ExprKind::This,
        ExprKind::ArrayLit(v) => ExprKind::ArrayLit(copy_list(v)),
        ExprKind::Call { name, args } => ExprKind::Call { name: name.clone(), args: copy_list(args) },
        ExprKind::GenericCall { name, type_args, args } => ExprKind::GenericCall {
            name: name.clone(),
            type_args: copy_types(type_args),
            args: copy_list(args),
        },
        ExprKind::MethodCall { recv, name, args } => ExprKind::MethodCall {
            recv: Box::new(copy_expr(recv)),
            name: name.clone(),
            args: copy_list(args),
        },
        ExprKind::CoreMethodCall { class, name, recv, args } => ExprKind::CoreMethodCall {
            class: class.clone(),
            name: name.clone(),
            recv: Box::new(copy_expr(recv)),
            args: copy_list(args),
        },
        ExprKind::OptWrap { payload, expr } => ExprKind::OptWrap {
            payload: payload.copy(),
            expr: Box::new(copy_expr(expr)),
        },
        ExprKind::OptUnwrap { payload, expr } => ExprKind::OptUnwrap {
            payload: payload.copy(),
            expr: Box::new(copy_expr(expr)),
        },
        ExprKind::OptNone { payload } => ExprKind::OptNone { payload: payload.copy() },
        ExprKind::OptHas { payload, expr } => ExprKind::OptHas {
            payload: payload.copy(),
            expr: Box::new(copy_expr(expr)),
        },
        ExprKind::New { class, args } => ExprKind::New { class: class.clone(), args: copy_list(args) },
        ExprKind::ContainerLit { class, is_array, elems } => ExprKind::ContainerLit {
            class: class.clone(),
            is_array: *is_array,
            elems: copy_list(elems),
        },
        ExprKind::BufAlloc { elem, size } => ExprKind::BufAlloc {
            elem: elem.copy(),
            size: Box::new(copy_expr(size)),
        },
        ExprKind::FieldAccess { recv, name } => ExprKind::FieldAccess {
            recv: Box::new(copy_expr(recv)),
            name: name.clone(),
        },
        ExprKind::Index { recv, index } => ExprKind::Index {
            recv: Box::new(copy_expr(recv)),
            index: Box::new(copy_expr(index)),
        },
        ExprKind::IntrinsicCall { name, args } => ExprKind::IntrinsicCall {
            name: name.clone(),
            args: copy_list(args),
        },
        ExprKind::Binary { op, lhs, rhs } => ExprKind::Binary {
            op: *op,
            lhs: Box::new(copy_expr(lhs)),
            rhs: Box::new(copy_expr(rhs)),
        },
        ExprKind::Unary { op, operand } => ExprKind::Unary {
            op: *op,
            operand: Box::new(copy_expr(operand)),
        },
    };
    Expr { kind: k, line: e.line, col: e.col }
}

/// A copy of a list of expressions.
pub fn copy_list(v: &Vec<Expr>) -> (r: Vec<Expr>)
    ensures
        exprs_v(r@) == exprs_v(v@),
    decreases v, 0nat,
{
    let mut out: Vec<Expr> = Vec::new();
    let mut i: usize = 0;
    while i < v.len()
        invariant
            i <= v@.len(),
            out@.len() == i,
            forall|j: int| 0 <= j < i ==> out@[j]@ == v@[j]@,
        decreases v@.len() - i,
    {
        assert(decreases_to!(v => v@[i as int]));
        let x = copy_expr(&v[i]);
        out.push(x);
        i += 1;
    }
    assert(exprs_v(out@) =~= exprs_v(v@));
    out
}

/// A copy of an `if` chain.
fn copy_if(st: &Stmt) -> (k: StmtKind)
    requires
        st.kind is If,
    ensures
        sk_view(k) == st@.kind,
    decreases st, 0nat,
{
    match &st.kind {
        StmtKind::If { arms, else_block } => {
            let a = copy_arms(arms);
            let eb = match else_block {
                Some(b) => {
                    let nb = copy_stmts(&b.stmts);
                    assert(block_v(Block { stmts: nb }) == block_v(*b));
                    Some(Block { stmts: nb })
                },
                None => None,
            };
            let ghost ebv = match eb { Some(ref b) => Some(block_v(*b)), None => None };
            assert(st@.kind == crate::ast::StmtKindV::If {
                arms: arms_v(arms@),
                else_block: match else_block { Some(b) => Some(block_v(*b)), None => None },
            });
            let k = StmtKind::If { arms: a, else_block: eb };
            assert(sk_view(k) == crate::ast::StmtKindV::If { arms: arms_v(a@), else_block: ebv });
            k
        },
        _ => StmtKind::Break,
    }
}

/// A copy of a block.
pub fn copy_body(b: &Block) -> (r: Block)
    ensures
        block_v(r) == block_v(*b),
    decreases b, 1nat,
{
    Block { stmts: copy_stmts(&b.stmts) }
}

/// A copy of a statement.
#[verifier::rlimit(80)]
#[verifier::spinoff_prover]
pub fn copy_stmt(st: &Stmt) -> (r: Stmt)
    ensures
        r@ == st@,
    decreases st, 1nat,
{
    let ghost want = st@.kind;
    let k = match &st.kind {
        StmtKind::VarDecl { is_const, name, ty, init } => {
            let k = StmtKind::VarDecl { is_const: *is_const, name: name.clone(), ty: ty.copy(), init: copy_expr(init) };
            assert(sk_view(k) == want);
            k
        },
        StmtKind::Assign { target, op, value } => {
            let k = StmtKind::Assign { target: copy_expr(target), op: *op, value: copy_expr(value) };
            assert(sk_view(k) == want);
            k
        },
        StmtKind::IncDec { target, inc } => {
            let k = StmtKind::IncDec { target: copy_expr(target), inc: *inc };
            assert(sk_view(k) == want);
            k
        },
        StmtKind::ExprStmt(x) => {
            let k = StmtKind::ExprStmt(copy_expr(x));
            assert(sk_view(k) == want);
            k
        },
        StmtKind::Return(v) => {
            let k = match v {
                Some(x) => StmtKind::Return(Some(copy_expr(x))),
                None => StmtKind::Return(None),
            };
            assert(sk_view(k) == want);
            k
        },
        StmtKind::If { .. } => copy_if(st),
        StmtKind::While { cond, body } => {
            let k = StmtKind::While { cond: copy_expr(cond), body: copy_body(body) };
            assert(sk_view(k) == want);
            k
        },
        StmtKind::ForC { var_name, var_ty, init, cond, step, body } => {
            let k = StmtKind::ForC {
                var_name: var_name.clone(),
                var_ty: var_ty.copy(),
                init: copy_expr(init),
                cond: copy_expr(cond),
                step: Box::new(copy_stmt(step)),
                body: copy_body(body),
            };
            assert(sk_view(k) == want);
            k
        },
        StmtKind::ForIn { var_name, var_ty, iterable, body } => {
            let k = StmtKind::ForIn {
                var_name: var_name.clone(),
                var_ty: var_ty.copy(),
                iterable: copy_expr(iterable),
                body: copy_body(body),
            };
            assert(sk_view(k) == want);
            k
        },
        StmtKind::Break => StmtKind::Break,
        StmtKind::Continue => StmtKind::Continue,
        StmtKind::Scope(b) => {
            let k = StmtKind::Scope(copy_body(b));
            assert(sk_view(k) == want);
            k
        },
        StmtKind::TryCatch { body, var_name, var_ty, catch_body } => {
            let k = StmtKind::TryCatch {
                body: copy_body(body),
                var_name: var_name.clone(),
                var_ty: var_ty.copy(),
                catch_body: copy_body(catch_body),
            };
            assert(sk_view(k) == want);
            k
        },
    };
    Stmt { kind: k, line: st.line, col: st.col }
}

/// A copy of a list of statements.
pub fn copy_stmts(v: &Vec<Stmt>) -> (r: Vec<Stmt>)
    ensures
        stmts_v(r@) == stmts_v(v@),
    decreases v, 0nat,
{
    let mut out: Vec<Stmt> = Vec::new();
    let mut i: usize = 0;
    while i < v.len()
        invariant
            i <= v@.len(),
            out@.len() == i,
            forall|j: int| 0 <= j < i ==> out@[j]@ == v@[j]@,
        decreases v@.len() - i,
    {
        assert(decreases_to!(v => v@[i as int]));
        let x = copy_stmt(&v[i]);
        out.push(x);
        i += 1;
    }
    assert(stmts_v(out@) =~= stmts_v(v@));
    out
}

/// A copy of the arms of an `if` chain.
pub fn copy_arms(v: &Vec<(Expr, Block)>) -> (r: Vec<(Expr, Block)>)
    ensures
        arms_v(r@) == arms_v(v@),
    decreases v, 0nat,
{
    let mut out: Vec<(Expr, Block)> = Vec::new();
    let mut i: usize = 0;
    while i < v.len()
        invariant
            i <= v@.len(),
            out@.len() == i,
            forall|j: int| 0 <= j < i ==> (#[trigger] out@[j]).0@ == v@[j].0@ && block_v(out@[j].1) == block_v(v@[j].1),
        decreases v@.len() - i,
    {
        assert(decreases_to!(v => v@[i as int]));
        let c = copy_expr(&v[i].0);
        let b = copy_stmts(&v[i].1.stmts);
        out.push((c, Block { stmts: b }));
        i += 1;
    }
    assert(arms_v(out@) =~= arms_v(v@));
    out
}

} // verus!
