//! The types a program mentions, for finding the generic containers it
//! instantiates.

use vstd::prelude::*;
use crate::ast::{
    Block, BlockV, ClassDecl, ClassDeclV, Expr, ExprKind, ExprKindV, ExprV, FieldDeclV, MethodDeclV, Stmt, StmtKind,
    StmtKindV, StmtV, Type, TypeV, arms_v, block_v, exprs_v, fields_v, methods_v, params_v, stmts_v, types_v,
};
use crate::generate_spec::param_types;

verus! {

/// The types an expression writes: explicit type arguments, in order.
pub open spec fn scan_e(e: ExprV) -> Seq<TypeV>
    decreases e, 1nat,
{
    match e.kind {
        ExprKindV::GenericCall { type_args, args, .. } => type_args + scan_list(args, args.len()),
        ExprKindV::Call { args, .. } => scan_list(args, args.len()),
        ExprKindV::IntrinsicCall { args, .. } => scan_list(args, args.len()),
        ExprKindV::MethodCall { recv, args, .. } => scan_e(*recv) + scan_list(args, args.len()),
        ExprKindV::ArrayLit(items) => scan_list(items, items.len()),
        ExprKindV::FieldAccess { recv, .. } => scan_e(*recv),
        ExprKindV::Index { recv, index } => scan_e(*recv) + scan_e(*index),
        ExprKindV::Binary { lhs, rhs, .. } => scan_e(*lhs) + scan_e(*rhs),
        ExprKindV::Unary { operand, .. } => scan_e(*operand),
        _ => Seq::empty(),
    }
}

pub open spec fn scan_list(s: Seq<ExprV>, n: nat) -> Seq<TypeV>
    decreases s, n,
{
    if n == 0 || n > s.len() {
        Seq::empty()
    } else {
        scan_list(s, (n - 1) as nat) + scan_e(s[n - 1])
    }
}

/// The types a statement writes: declared types and those of its expressions.
pub open spec fn scan_s(st: StmtV) -> Seq<TypeV>
    decreases st, 1nat,
{
    match st.kind {
        StmtKindV::VarDecl { ty, init, .. } => seq![ty] + scan_e(init),
        StmtKindV::Assign { target, value, .. } => scan_e(target) + scan_e(value),
        StmtKindV::IncDec { target, .. } => scan_e(target),
        StmtKindV::ExprStmt(e) => scan_e(e),
        StmtKindV::Return(Some(e)) => scan_e(e),
        StmtKindV::If { arms, else_block } => scan_arms(arms, arms.len()) + match else_block {
            Some(b) => scan_ss(b.stmts, b.stmts.len()),
            None => Seq::empty(),
        },
        StmtKindV::While { cond, body } => scan_e(cond) + scan_ss(body.stmts, body.stmts.len()),
        StmtKindV::ForC { var_ty, init, cond, step, body, .. } => seq![var_ty] + scan_e(init) + scan_e(cond) + scan_s(*step)
            + scan_ss(body.stmts, body.stmts.len()),
        StmtKindV::ForIn { var_ty, iterable, body, .. } => seq![var_ty] + scan_e(iterable) + scan_ss(body.stmts, body.stmts.len()),
        StmtKindV::TryCatch { body, catch_body, .. } => scan_ss(body.stmts, body.stmts.len())
            + scan_ss(catch_body.stmts, catch_body.stmts.len()),
        _ => Seq::empty(),
    }
}

pub open spec fn scan_ss(s: Seq<StmtV>, n: nat) -> Seq<TypeV>
    decreases s, n,
{
    if n == 0 || n > s.len() {
        Seq::empty()
    } else {
        scan_ss(s, (n - 1) as nat) + scan_s(s[n - 1])
    }
}

pub open spec fn scan_arms(a: Seq<(ExprV, BlockV)>, n: nat) -> Seq<TypeV>
    decreases a, n,
{
    if n == 0 || n > a.len() {
        Seq::empty()
    } else {
        scan_arms(a, (n - 1) as nat) + scan_e(a[n - 1].0) + scan_ss(a[n - 1].1.stmts, a[n - 1].1.stmts.len())
    }
}

pub open spec fn scan_b(b: BlockV) -> Seq<TypeV> {
    scan_ss(b.stmts, b.stmts.len())
}

pub open spec fn scan_fields(fs: Seq<FieldDeclV>, n: nat) -> Seq<TypeV>
    decreases n,
{
    if n == 0 || n > fs.len() {
        Seq::empty()
    } else {
        scan_fields(fs, (n - 1) as nat) + seq![fs[n - 1].ty] + scan_e(fs[n - 1].default)
    }
}

pub open spec fn scan_methods(ms: Seq<MethodDeclV>, n: nat) -> Seq<TypeV>
    decreases n,
{
    if n == 0 || n > ms.len() {
        Seq::empty()
    } else {
        scan_methods(ms, (n - 1) as nat) + param_types(ms[n - 1].params) + seq![ms[n - 1].ret] + scan_b(ms[n - 1].body)
    }
}

/// The types a class writes: each field's type and default, the
/// constructor's parameters and body, each method's parameters, return
/// type and body.
pub open spec fn scan_c(c: ClassDeclV) -> Seq<TypeV> {
    scan_fields(c.fields, c.fields.len()) + (match c.ctor {
        Some(ct) => param_types(ct.params) + scan_b(ct.body),
        None => Seq::empty(),
    }) + scan_methods(c.methods, c.methods.len())
}

/// Append the types an expression writes.
#[verifier::rlimit(40)]
#[verifier::spinoff_prover]
pub fn scan_expr(e: &Expr, out: &mut Vec<Type>)
    ensures
        types_v(final(out)@) == types_v(old(out)@) + scan_e(e@),
    decreases e, 1nat,
{
    let ghost start = types_v(out@);
    match &e.kind {
        ExprKind::GenericCall { type_args, args, .. } => {
            let mut i: usize = 0;
            while i < type_args.len()
                invariant
                    i <= type_args@.len(),
                    types_v(out@) == start + types_v(type_args@).take(i as int),
                decreases type_args@.len() - i,
            {
                let ghost before = types_v(out@);
                out.push(type_args[i].copy());
                assert(types_v(out@) =~= before.push(type_args@[i as int]@));
                assert(types_v(type_args@).take(i + 1) =~= types_v(type_args@).take(i as int).push(type_args@[i as int]@));
                i += 1;
            }
            assert(types_v(type_args@).take(type_args@.len() as int) =~= types_v(type_args@));
            scan_exprs(args, out);
            assert(types_v(out@) =~= start + scan_e(e@));
        },
        ExprKind::Call { args, .. } => scan_exprs(args, out),
        ExprKind::IntrinsicCall { args, .. } => scan_exprs(args, out),
        ExprKind::MethodCall { recv, args, .. } => {
            scan_expr(recv, out);
            scan_exprs(args, out);
            assert(types_v(out@) =~= start + scan_e(e@));
        },
        ExprKind::ArrayLit(items) => scan_exprs(items, out),
        ExprKind::FieldAccess { recv, .. } => scan_expr(recv, out),
        ExprKind::Index { recv, index } => {
            scan_expr(recv, out);
            scan_expr(index, out);
            assert(types_v(out@) =~= start + scan_e(e@));
        },
        ExprKind::Binary { lhs, rhs, .. } => {
            scan_expr(lhs, out);
            scan_expr(rhs, out);
            assert(types_v(out@) =~= start + scan_e(e@));
        },
        ExprKind::Unary { operand, .. } => scan_expr(operand, out),
        _ => {
            assert(types_v(out@) =~= start + scan_e(e@));
        },
    }
}

/// Append the types each expression of a list writes, in order.
pub fn scan_exprs(v: &Vec<Expr>, out: &mut Vec<Type>)
    ensures
        types_v(final(out)@) == types_v(old(out)@) + scan_list(exprs_v(v@), v@.len()),
    decreases v, 0nat,
{
    let ghost start = types_v(out@);
    let ghost sv = exprs_v(v@);
    let mut i: usize = 0;
    assert(types_v(out@) =~= start + scan_list(sv, 0));
    while i < v.len()
        invariant
            i <= v@.len(),
            sv == exprs_v(v@),
            types_v(out@) == start + scan_list(sv, i as nat),
        decreases v@.len() - i,
    {
        assert(sv[i as int] == v@[i as int]@);
        assert(decreases_to!(v => v@[i as int]));
        scan_expr(&v[i], out);
        assert(types_v(out@) =~= start + scan_list(sv, (i + 1) as nat));
        i += 1;
    }
}

/// Append the types a statement writes.
#[verifier::rlimit(60)]
#[verifier::spinoff_prover]
pub fn scan_stmt(st: &Stmt, out: &mut Vec<Type>)
    ensures
        types_v(final(out)@) == types_v(old(out)@) + scan_s(st@),
    decreases st, 1nat,
{
    let ghost start = types_v(out@);
    match &st.kind {
        StmtKind::VarDecl { ty, init, .. } => {
            out.push(ty.copy());
            let ghost a = types_v(out@);
            assert(a =~= start + seq![ty@]);
            scan_expr(init, out);
            assert(types_v(out@) =~= start + scan_s(st@));
        },
        StmtKind::Assign { target, value, .. } => {
            scan_expr(target, out);
            scan_expr(value, out);
            assert(types_v(out@) =~= start + scan_s(st@));
        },
        StmtKind::IncDec { target, .. } => scan_expr(target, out),
        StmtKind::ExprStmt(x) => scan_expr(x, out),
        StmtKind::Return(v) => match v {
            Some(x) => scan_expr(x, out),
            None => {
                assert(types_v(out@) =~= start + scan_s(st@));
            },
        },
        StmtKind::If { arms, else_block } => {
            scan_arm_list(arms, out);
            let ghost a = scan_arms(arms_v(arms@), arms@.len());
            match else_block {
                Some(b) => {
                    scan_stmts(&b.stmts, out);
                    assert(st@.kind == StmtKindV::If { arms: arms_v(arms@), else_block: Some(block_v(*b)) });
                    assert(block_v(*b).stmts == stmts_v(b.stmts@));
                    assert(types_v(out@) =~= start + scan_s(st@));
                },
                None => {
                    assert(st@.kind == StmtKindV::If { arms: arms_v(arms@), else_block: None });
                    assert(types_v(out@) =~= start + scan_s(st@));
                },
            }
        },
        StmtKind::While { cond, body } => {
            scan_expr(cond, out);
            scan_stmts(&body.stmts, out);
            assert(st@.kind matches StmtKindV::While { body: bd, .. } && bd == block_v(*body));
            assert(block_v(*body).stmts == stmts_v(body.stmts@));
            assert(types_v(out@) =~= start + scan_s(st@));
        },
        StmtKind::ForC { var_ty, init, cond, step, body, .. } => {
            out.push(var_ty.copy());
            let ghost a = types_v(out@);
            assert(a =~= start + seq![var_ty@]);
            scan_expr(init, out);
            scan_expr(cond, out);
            scan_stmt(step, out);
            scan_stmts(&body.stmts, out);
            assert(st@.kind matches StmtKindV::ForC { body: bd, .. } && bd == block_v(*body));
            assert(block_v(*body).stmts == stmts_v(body.stmts@));
            assert(types_v(out@) =~= start + scan_s(st@));
        },
        StmtKind::ForIn { var_ty, iterable, body, .. } => {
            out.push(var_ty.copy());
            let ghost a = types_v(out@);
            assert(a =~= start + seq![var_ty@]);
            scan_expr(iterable, out);
            scan_stmts(&body.stmts, out);
            assert(st@.kind matches StmtKindV::ForIn { body: bd, .. } && bd == block_v(*body));
            assert(block_v(*body).stmts == stmts_v(body.stmts@));
            assert(types_v(out@) =~= start + scan_s(st@));
        },
        StmtKind::TryCatch { body, catch_body, .. } => {
            scan_stmts(&body.stmts, out);
            scan_stmts(&catch_body.stmts, out);
            assert(st@.kind matches StmtKindV::TryCatch { body: bd, catch_body: cb, .. } && bd == block_v(*body) && cb == block_v(*catch_body));
            assert(block_v(*body).stmts == stmts_v(body.stmts@));
            assert(block_v(*catch_body).stmts == stmts_v(catch_body.stmts@));
            assert(types_v(out@) =~= start + scan_s(st@));
        },
        _ => {
            assert(types_v(out@) =~= start + scan_s(st@));
        },
    }
}

/// Append the types each statement of a list writes, in order.
pub fn scan_stmts(v: &Vec<Stmt>, out: &mut Vec<Type>)
    ensures
        types_v(final(out)@) == types_v(old(out)@) + scan_ss(stmts_v(v@), v@.len()),
    decreases v, 0nat,
{
    let ghost start = types_v(out@);
    let ghost sv = stmts_v(v@);
    let mut i: usize = 0;
    assert(types_v(out@) =~= start + scan_ss(sv, 0));
    while i < v.len()
        invariant
            i <= v@.len(),
            sv == stmts_v(v@),
            types_v(out@) == start + scan_ss(sv, i as nat),
        decreases v@.len() - i,
    {
        assert(sv[i as int] == v@[i as int]@);
        assert(decreases_to!(v => v@[i as int]));
        scan_stmt(&v[i], out);
        assert(types_v(out@) =~= start + scan_ss(sv, (i + 1) as nat));
        i += 1;
    }
}

/// Append the types the arms of an `if` chain write, in order.
fn scan_arm_list(v: &Vec<(Expr, Block)>, out: &mut Vec<Type>)
    ensures
        types_v(final(out)@) == types_v(old(out)@) + scan_arms(arms_v(v@), v@.len()),
    decreases v, 0nat,
{
    let ghost start = types_v(out@);
    let ghost av = arms_v(v@);
    let mut i: usize = 0;
    assert(types_v(out@) =~= start + scan_arms(av, 0));
    while i < v.len()
        invariant
            i <= v@.len(),
            av == arms_v(v@),
            types_v(out@) == start + scan_arms(av, i as nat),
        decreases v@.len() - i,
    {
        assert(av[i as int] == (v@[i as int].0@, block_v(v@[i as int].1)));
        assert(decreases_to!(v => v@[i as int]));
        scan_expr(&v[i].0, out);
        scan_stmts(&v[i].1.stmts, out);
        assert(types_v(out@) =~= start + scan_arms(av, (i + 1) as nat));
        i += 1;
    }
}

/// Append the types a block writes.
pub fn scan_block(b: &Block, out: &mut Vec<Type>)
    ensures
        types_v(final(out)@) == types_v(old(out)@) + scan_b(block_v(*b)),
{
    scan_stmts(&b.stmts, out);
}

/// Append the parameters' types.
fn push_params(ps: &Vec<crate::ast::Param>, out: &mut Vec<Type>)
    ensures
        types_v(final(out)@) == types_v(old(out)@) + param_types(params_v(ps@)),
{
    let ghost start = types_v(out@);
    let ghost pt = param_types(params_v(ps@));
    let mut i: usize = 0;
    while i < ps.len()
        invariant
            i <= ps@.len(),
            pt == param_types(params_v(ps@)),
            types_v(out@) == start + pt.take(i as int),
        decreases ps@.len() - i,
    {
        let ghost before = types_v(out@);
        out.push(ps[i].ty.copy());
        assert(types_v(out@) =~= before.push(ps@[i as int].ty@));
        assert(pt.take(i + 1) =~= pt.take(i as int).push(ps@[i as int].ty@));
        i += 1;
    }
    assert(pt.take(ps@.len() as int) =~= pt);
}

/// Append the types a class writes (see [`scan_c`]).
pub fn scan_class(c: &ClassDecl, out: &mut Vec<Type>)
    ensures
        types_v(final(out)@) == types_v(old(out)@) + scan_c(c@),
{
    let ghost start = types_v(out@);
    let ghost fv = fields_v(c.fields@);
    let mut i: usize = 0;
    assert(types_v(out@) =~= start + scan_fields(fv, 0));
    while i < c.fields.len()
        invariant
            i <= c.fields@.len(),
            fv == fields_v(c.fields@),
            types_v(out@) == start + scan_fields(fv, i as nat),
        decreases c.fields@.len() - i,
    {
        assert(fv[i as int] == c.fields@[i as int]@);
        let ghost before = types_v(out@);
        out.push(c.fields[i].ty.copy());
        let ghost a = types_v(out@);
        assert(a =~= before.push(c.fields@[i as int].ty@));
        scan_expr(&c.fields[i].default, out);
        assert(types_v(out@) =~= before + seq![fv[i as int].ty] + scan_e(fv[i as int].default));
        assert(types_v(out@) =~= start + scan_fields(fv, (i + 1) as nat));
        i += 1;
    }
    let ghost a = types_v(out@);
    match &c.ctor {
        Some(ct) => {
            push_params(&ct.params, out);
            scan_block(&ct.body, out);
            assert(types_v(out@) =~= a + (param_types(params_v(ct.params@)) + scan_b(block_v(ct.body))));
        },
        None => {
            assert(types_v(out@) =~= a + Seq::<TypeV>::empty());
        },
    }
    let ghost b = types_v(out@);
    let ghost mv = methods_v(c.methods@);
    let mut j: usize = 0;
    assert(types_v(out@) =~= b + scan_methods(mv, 0));
    while j < c.methods.len()
        invariant
            j <= c.methods@.len(),
            mv == methods_v(c.methods@),
            types_v(out@) == b + scan_methods(mv, j as nat),
        decreases c.methods@.len() - j,
    {
        assert(mv[j as int] == c.methods@[j as int]@);
        let m = &c.methods[j];
        push_params(&m.params, out);
        let ghost before = types_v(out@);
        out.push(m.ret.copy());
        assert(types_v(out@) =~= before.push(m.ret@));
        scan_block(&m.body, out);
        assert(types_v(out@) =~= b + scan_methods(mv, (j + 1) as nat));
        j += 1;
    }
    assert(types_v(out@) =~= start + scan_c(c@));
}

} // verus!
