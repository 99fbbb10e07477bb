//! Stamping generic templates: type parameters in every type a body,
//! class or function writes are replaced by their bound types.

use vstd::prelude::*;
use crate::ast::{Block, BlockV, ClassDecl, ClassDeclV, CtorDecl, CtorDeclV, Expr, ExprKind, ExprKindV, ExprV, FieldDecl, FieldDeclV, FunctionDecl, FunctionDeclV, MethodDecl, MethodDeclV, Param, ParamV, Stmt, StmtKind, StmtKindV, StmtV, Type, TypeV, arms_v, block_v, names_v, exprs_v, fields_v, methods_v, params_v, stmts_v, types_v};
use crate::copy::{copy_expr};
use crate::rewrite::sk_view;
use crate::sema::{BindingsV, bindings_view, subst_spec, subst_type};

verus! {

/// An expression with type parameters substituted in explicit type
/// arguments, through calls, method calls, intrinsic calls, array literals,
/// field accesses, indexing and operators; other forms are kept as written.
pub open spec fn sub_expr(e: ExprV, b: BindingsV) -> ExprV
    decreases e, 1nat,
{
    let k = match e.kind {
        ExprKindV::GenericCall { name, type_args, args } => ExprKindV::GenericCall {
            name,
            type_args: Seq::new(type_args.len(), |i: int| subst_spec(type_args[i], b)),
            args: sub_list(args, b),
        },
        ExprKindV::Call { name, args } => ExprKindV::Call { name, args: sub_list(args, b) },
        ExprKindV::MethodCall { recv, name, args } => ExprKindV::MethodCall {
            recv: Box::new(sub_expr(*recv, b)),
            name,
            args: sub_list(args, b),
        },
        ExprKindV::IntrinsicCall { name, args } => ExprKindV::IntrinsicCall { name, args: sub_list(args, b) },
        ExprKindV::ArrayLit(items) => ExprKindV::ArrayLit(sub_list(items, b)),
        ExprKindV::FieldAccess { recv, name } => ExprKindV::FieldAccess { recv: Box::new(sub_expr(*recv, b)), name },
        ExprKindV::Index { recv, index } => ExprKindV::Index {
            recv: Box::new(sub_expr(*recv, b)),
            index: Box::new(sub_expr(*index, b)),
        },
        ExprKindV::Binary { op, lhs, rhs } => ExprKindV::Binary {
            op,
            lhs: Box::new(sub_expr(*lhs, b)),
            rhs: Box::new(sub_expr(*rhs, b)),
        },
        ExprKindV::Unary { op, operand } => ExprKindV::Unary { op, operand: Box::new(sub_expr(*operand, b)) },
        other => other,
    };
    ExprV { kind: k, line: e.line, col: e.col }
}

pub open spec fn sub_list(s: Seq<ExprV>, b: BindingsV) -> Seq<ExprV>
    decreases s, 0nat,
{
    Seq::new(s.len(), |i: int| if 0 <= i < s.len() { sub_expr(s[i], b) } else { s[i] })
}

pub open spec fn sub_stmt(st: StmtV, b: BindingsV) -> StmtV
    decreases st, 1nat,
{
    let k = match st.kind {
        StmtKindV::VarDecl { is_const, name, ty, init } => StmtKindV::VarDecl {
            is_const,
            name,
            ty: subst_spec(ty, b),
            init: sub_expr(init, b),
        },
        StmtKindV::Assign { target, op, value } => StmtKindV::Assign { target: sub_expr(target, b), op, value: sub_expr(value, b) },
        StmtKindV::IncDec { target, inc } => StmtKindV::IncDec { target: sub_expr(target, b), inc },
        StmtKindV::ExprStmt(e) => StmtKindV::ExprStmt(sub_expr(e, b)),
        StmtKindV::Return(Some(e)) => StmtKindV::Return(Some(sub_expr(e, b))),
        StmtKindV::If { arms, else_block } => StmtKindV::If {
            arms: sub_arms(arms, b),
            else_block: match else_block {
                Some(eb) => Some(BlockV { stmts: sub_stmts(eb.stmts, b) }),
                None => None,
            },
        },
        StmtKindV::While { cond, body } => StmtKindV::While { cond: sub_expr(cond, b), body: BlockV { stmts: sub_stmts(body.stmts, b) } },
        StmtKindV::ForC { var_name, var_ty, init, cond, step, body } => StmtKindV::ForC {
            var_name,
            var_ty: subst_spec(var_ty, b),
            init: sub_expr(init, b),
            cond: sub_expr(cond, b),
            step: Box::new(sub_stmt(*step, b)),
            body: BlockV { stmts: sub_stmts(body.stmts, b) },
        },
        StmtKindV::ForIn { var_name, var_ty, iterable, body } => StmtKindV::ForIn {
            var_name,
            var_ty: subst_spec(var_ty, b),
            iterable: sub_expr(iterable, b),
            body: BlockV { stmts: sub_stmts(body.stmts, b) },
        },
        StmtKindV::TryCatch { body, var_name, var_ty, catch_body } => StmtKindV::TryCatch {
            body: BlockV { stmts: sub_stmts(body.stmts, b) },
            var_name,
            var_ty: subst_spec(var_ty, b),
            catch_body: BlockV { stmts: sub_stmts(catch_body.stmts, b) },
        },
        other => other,
    };
    StmtV { kind: k, line: st.line, col: st.col }
}

pub open spec fn sub_stmts(s: Seq<StmtV>, b: BindingsV) -> Seq<StmtV>
    decreases s, 0nat,
{
    Seq::new(s.len(), |i: int| if 0 <= i < s.len() { sub_stmt(s[i], b) } else { s[i] })
}

pub open spec fn sub_arms(a: Seq<(ExprV, BlockV)>, b: BindingsV) -> Seq<(ExprV, BlockV)>
    decreases a, 0nat,
{
    Seq::new(a.len(), |i: int| if 0 <= i < a.len() {
        (sub_expr(a[i].0, b), BlockV { stmts: sub_stmts(a[i].1.stmts, b) })
    } else {
        a[i]
    })
}

pub open spec fn sub_block(bl: BlockV, b: BindingsV) -> BlockV {
    BlockV { stmts: sub_stmts(bl.stmts, b) }
}

pub open spec fn sub_params(ps: Seq<ParamV>, b: BindingsV) -> Seq<ParamV> {
    Seq::new(ps.len(), |i: int| ParamV { ty: subst_spec(ps[i].ty, b), ..ps[i] })
}

/// The types with type parameters substituted.
pub fn subst_types(v: &Vec<Type>, bindings: &[(String, Type)]) -> (r: Vec<Type>)
    ensures
        types_v(r@) == Seq::new(v@.len(), |i: int| subst_spec(types_v(v@)[i], bindings_view(bindings@))),
{
    let mut out: Vec<Type> = Vec::new();
    let mut i: usize = 0;
    while i < v.len()
        invariant
            i <= v@.len(),
            out@.len() == i,
            forall|j: int| 0 <= j < i ==> out@[j]@ == subst_spec(v@[j]@, bindings_view(bindings@)),
        decreases v@.len() - i,
    {
        out.push(subst_type(&v[i], bindings));
        i += 1;
    }
    assert(types_v(out@) =~= Seq::new(v@.len(), |i: int| subst_spec(types_v(v@)[i], bindings_view(bindings@))));
    out
}

/// An expression with type parameters substituted (see [`sub_expr`]).
#[verifier::rlimit(40)]
#[verifier::spinoff_prover]
pub fn subst_expr(e: &Expr, bindings: &[(String, Type)]) -> (r: Expr)
    ensures
        r@ == sub_expr(e@, bindings_view(bindings@)),
    decreases e, 1nat,
{
    let k = match &e.kind {
        ExprKind::GenericCall { name, type_args, args } => ExprKind::GenericCall {
            name: name.clone(),
            type_args: subst_types(type_args, bindings),
            args: subst_list(args, bindings),
        },
        ExprKind::Call { name, args } => ExprKind::Call { name: name.clone(), args: subst_list(args, bindings) },
        ExprKind::MethodCall { recv, name, args } => ExprKind::MethodCall {
            recv: Box::new(subst_expr(recv, bindings)),
            name: name.clone(),
            args: subst_list(args, bindings),
        },
        ExprKind::IntrinsicCall { name, args } => ExprKind::IntrinsicCall { name: name.clone(), args: subst_list(args, bindings) },
        ExprKind::ArrayLit(items) => ExprKind::ArrayLit(subst_list(items, bindings)),
        ExprKind::FieldAccess { recv, name } => ExprKind::FieldAccess {
            recv: Box::new(subst_expr(recv, bindings)),
            name: name.clone(),
        },
        ExprKind::Index { recv, index } => ExprKind::Index {
            recv: Box::new(subst_expr(recv, bindings)),
            index: Box::new(subst_expr(index, bindings)),
        },
        ExprKind::Binary { op, lhs, rhs } => ExprKind::Binary {
            op: *op,
            lhs: Box::new(subst_expr(lhs, bindings)),
            rhs: Box::new(subst_expr(rhs, bindings)),
        },
        ExprKind::Unary { op, operand } => ExprKind::Unary { op: *op, operand: Box::new(subst_expr(operand, bindings)) },
        _ => return copy_expr(e),
    };
    Expr { kind: k, line: e.line, col: e.col }
}

/// Each expression of a list with type parameters substituted.
pub fn subst_list(v: &Vec<Expr>, bindings: &[(String, Type)]) -> (r: Vec<Expr>)
    ensures
        exprs_v(r@) == sub_list(exprs_v(v@), bindings_view(bindings@)),
    decreases v, 0nat,
{
    let ghost target = sub_list(exprs_v(v@), bindings_view(bindings@));
    let mut out: Vec<Expr> = Vec::new();
    let mut i: usize = 0;
    while i < v.len()
        invariant
            i <= v@.len(),
            target == sub_list(exprs_v(v@), bindings_view(bindings@)),
            out@.len() == i,
            forall|j: int| 0 <= j < i ==> out@[j]@ == target[j],
        decreases v@.len() - i,
    {
        assert(exprs_v(v@)[i as int] == v@[i as int]@);
        assert(decreases_to!(v => v@[i as int]));
        let x = subst_expr(&v[i], bindings);
        out.push(x);
        i += 1;
    }
    assert(exprs_v(out@) =~= target);
    out
}

/// An `if` chain with type parameters substituted.
fn subst_if(st: &Stmt, bindings: &[(String, Type)]) -> (k: StmtKind)
    requires
        st.kind is If,
    ensures
        sk_view(k) == sub_stmt(st@, bindings_view(bindings@)).kind,
    decreases st, 0nat,
{
    match &st.kind {
        StmtKind::If { arms, else_block } => {
            let a = subst_arms(arms, bindings);
            let eb = match else_block {
                Some(b) => {
                    let nb = subst_stmts(&b.stmts, bindings);
                    assert(block_v(Block { stmts: nb }) == BlockV { stmts: sub_stmts(block_v(*b).stmts, bindings_view(bindings@)) });
                    Some(Block { stmts: nb })
                },
                None => None,
            };
            let ghost ebv = match eb { Some(ref b) => Some(block_v(*b)), None => None };
            assert(st@.kind == StmtKindV::If {
                arms: arms_v(arms@),
                else_block: match else_block { Some(b) => Some(block_v(*b)), None => None },
            });
            let k = StmtKind::If { arms: a, else_block: eb };
            assert(sk_view(k) == StmtKindV::If { arms: arms_v(a@), else_block: ebv });
            k
        },
        _ => StmtKind::Break,
    }
}

/// A block with type parameters substituted.
pub fn subst_block(b: &Block, bindings: &[(String, Type)]) -> (r: Block)
    ensures
        block_v(r) == sub_block(block_v(*b), bindings_view(bindings@)),
    decreases b, 1nat,
{
    Block { stmts: subst_stmts(&b.stmts, bindings) }
}

/// A statement with type parameters substituted in the types it declares
/// and the expressions it holds.
#[verifier::rlimit(80)]
#[verifier::spinoff_prover]
pub fn subst_stmt(st: &Stmt, bindings: &[(String, Type)]) -> (r: Stmt)
    ensures
        r@ == sub_stmt(st@, bindings_view(bindings@)),
    decreases st, 1nat,
{
    let ghost bv = bindings_view(bindings@);
    let ghost want = sub_stmt(st@, bv).kind;
    let k = match &st.kind {
        StmtKind::VarDecl { is_const, name, ty, init } => {
            let k = StmtKind::VarDecl { is_const: *is_const, name: name.clone(), ty: subst_type(ty, bindings), init: subst_expr(init, bindings) };
            assert(sk_view(k) == want);
            k
        },
        StmtKind::Assign { target, op, value } => {
            let k = StmtKind::Assign { target: subst_expr(target, bindings), op: *op, value: subst_expr(value, bindings) };
            assert(sk_view(k) == want);
            k
        },
        StmtKind::IncDec { target, inc } => {
            let k = StmtKind::IncDec { target: subst_expr(target, bindings), inc: *inc };
            assert(sk_view(k) == want);
            k
        },
        StmtKind::ExprStmt(x) => {
            let k = StmtKind::ExprStmt(subst_expr(x, bindings));
            assert(sk_view(k) == want);
            k
        },
        StmtKind::Return(v) => {
            let k = match v {
                Some(x) => StmtKind::Return(Some(subst_expr(x, bindings))),
                None => StmtKind::Return(None),
            };
            assert(sk_view(k) == want);
            k
        },
        StmtKind::If { .. } => subst_if(st, bindings),
        StmtKind::While { cond, body } => {
            let k = StmtKind::While { cond: subst_expr(cond, bindings), body: subst_block(body, bindings) };
            assert(sk_view(k) == want);
            k
        },
        StmtKind::ForC { var_name, var_ty, init, cond, step, body } => {
            let k = StmtKind::ForC {
                var_name: var_name.clone(),
                var_ty: subst_type(var_ty, bindings),
                init: subst_expr(init, bindings),
                cond: subst_expr(cond, bindings),
                step: Box::new(subst_stmt(step, bindings)),
                body: subst_block(body, bindings),
            };
            assert(sk_view(k) == want);
            k
        },
        StmtKind::ForIn { var_name, var_ty, iterable, body } => {
            let k = StmtKind::ForIn {
                var_name: var_name.clone(),
                var_ty: subst_type(var_ty, bindings),
                iterable: subst_expr(iterable, bindings),
                body: subst_block(body, bindings),
            };
            assert(sk_view(k) == want);
            k
        },
        StmtKind::TryCatch { body, var_name, var_ty, catch_body } => {
            let k = StmtKind::TryCatch {
                body: subst_block(body, bindings),
                var_name: var_name.clone(),
                var_ty: subst_type(var_ty, bindings),
                catch_body: subst_block(catch_body, bindings),
            };
            assert(sk_view(k) == want);
            k
        },
        _ => return crate::copy::copy_stmt(st),
    };
    Stmt { kind: k, line: st.line, col: st.col }
}

/// Each statement of a list with type parameters substituted.
pub fn subst_stmts(v: &Vec<Stmt>, bindings: &[(String, Type)]) -> (r: Vec<Stmt>)
    ensures
        stmts_v(r@) == sub_stmts(stmts_v(v@), bindings_view(bindings@)),
    decreases v, 0nat,
{
    let ghost target = sub_stmts(stmts_v(v@), bindings_view(bindings@));
    let mut out: Vec<Stmt> = Vec::new();
    let mut i: usize = 0;
    while i < v.len()
        invariant
            i <= v@.len(),
            target == sub_stmts(stmts_v(v@), bindings_view(bindings@)),
            out@.len() == i,
            forall|j: int| 0 <= j < i ==> out@[j]@ == target[j],
        decreases v@.len() - i,
    {
        assert(stmts_v(v@)[i as int] == v@[i as int]@);
        assert(decreases_to!(v => v@[i as int]));
        let x = subst_stmt(&v[i], bindings);
        out.push(x);
        i += 1;
    }
    assert(stmts_v(out@) =~= target);
    out
}

/// Each arm of an `if` chain with type parameters substituted.
fn subst_arms(v: &Vec<(Expr, Block)>, bindings: &[(String, Type)]) -> (r: Vec<(Expr, Block)>)
    ensures
        arms_v(r@) == sub_arms(arms_v(v@), bindings_view(bindings@)),
    decreases v, 0nat,
{
    let ghost target = sub_arms(arms_v(v@), bindings_view(bindings@));
    let mut out: Vec<(Expr, Block)> = Vec::new();
    let mut i: usize = 0;
    while i < v.len()
        invariant
            i <= v@.len(),
            target == sub_arms(arms_v(v@), bindings_view(bindings@)),
            out@.len() == i,
            forall|j: int| 0 <= j < i ==> (#[trigger] out@[j]).0@ == target[j].0 && block_v(out@[j].1) == target[j].1,
        decreases v@.len() - i,
    {
        assert(arms_v(v@)[i as int] == (v@[i as int].0@, block_v(v@[i as int].1)));
        assert(decreases_to!(v => v@[i as int]));
        let c = subst_expr(&v[i].0, bindings);
        let b = subst_stmts(&v[i].1.stmts, bindings);
        out.push((c, Block { stmts: b }));
        i += 1;
    }
    assert(arms_v(out@) =~= target);
    out
}

pub open spec fn sub_field(f: FieldDeclV, b: BindingsV) -> FieldDeclV {
    FieldDeclV { ty: subst_spec(f.ty, b), default: sub_expr(f.default, b), ..f }
}

pub open spec fn sub_method(m: MethodDeclV, b: BindingsV) -> MethodDeclV {
    MethodDeclV { params: sub_params(m.params, b), ret: subst_spec(m.ret, b), body: sub_block(m.body, b), ..m }
}

/// The instance of class template `t` for `param := arg`, named `key`.
pub open spec fn subst_class_spec(t: ClassDeclV, param: Seq<char>, arg: TypeV, key: Seq<char>) -> ClassDeclV {
    let b = seq![(param, arg)];
    ClassDeclV {
        name: key,
        type_param: None,
        fields: t.fields.map_values(|f: FieldDeclV| sub_field(f, b)),
        ctor: match t.ctor {
            Some(ct) => Some(CtorDeclV { params: sub_params(ct.params, b), body: sub_block(ct.body, b), line: ct.line, col: ct.col }),
            None => None,
        },
        methods: t.methods.map_values(|m: MethodDeclV| sub_method(m, b)),
        ..t
    }
}

/// The instance of function template `t` for `bindings`, named `key`.
pub open spec fn subst_function_spec(t: FunctionDeclV, b: BindingsV, key: Seq<char>) -> FunctionDeclV {
    FunctionDeclV {
        name: key,
        type_params: Seq::empty(),
        params: sub_params(t.params, b),
        ret: subst_spec(t.ret, b),
        body: sub_block(t.body, b),
        ..t
    }
}

/// Parameters with type parameters substituted in their types.
pub fn subst_params(ps: &Vec<Param>, bindings: &[(String, Type)]) -> (r: Vec<Param>)
    ensures
        params_v(r@) == sub_params(params_v(ps@), bindings_view(bindings@)),
{
    let mut out: Vec<Param> = Vec::new();
    let mut i: usize = 0;
    while i < ps.len()
        invariant
            i <= ps@.len(),
            out@.len() == i,
            forall|j: int| 0 <= j < i ==> out@[j]@ == (ParamV { ty: subst_spec(ps@[j].ty@, bindings_view(bindings@)), ..ps@[j]@ }),
        decreases ps@.len() - i,
    {
        let p = &ps[i];
        out.push(Param { name: p.name.clone(), ty: subst_type(&p.ty, bindings), line: p.line, col: p.col });
        i += 1;
    }
    assert(params_v(out@) =~= sub_params(params_v(ps@), bindings_view(bindings@)));
    out
}

/// Stamp the instance of a generic class for `param := arg`, named `key`.
pub fn subst_class(tmpl: &ClassDecl, param: &str, arg: &Type, key: String) -> (r: ClassDecl)
    ensures
        r@ == subst_class_spec(tmpl@, param@, arg@, key@),
{
    let mut bindings: Vec<(String, Type)> = Vec::new();
    bindings.push((crate::text::lit_string(param), arg.copy()));
    let ghost b = seq![(param@, arg@)];
    assert(bindings_view(bindings@) =~= b);
    let bs = bindings.as_slice();
    let ghost fv = fields_v(tmpl.fields@);
    let mut fields: Vec<FieldDecl> = Vec::new();
    let mut i: usize = 0;
    while i < tmpl.fields.len()
        invariant
            i <= tmpl.fields@.len(),
            bindings_view(bs@) == b,
            fv == fields_v(tmpl.fields@),
            fields@.len() == i,
            forall|j: int| 0 <= j < i ==> fields@[j]@ == sub_field(fv[j], b),
        decreases tmpl.fields@.len() - i,
    {
        let f = &tmpl.fields[i];
        assert(fv[i as int] == f@);
        fields.push(FieldDecl {
            is_public: f.is_public,
            name: f.name.clone(),
            ty: subst_type(&f.ty, bs),
            default: subst_expr(&f.default, bs),
            line: f.line,
            col: f.col,
        });
        i += 1;
    }
    assert(fields_v(fields@) =~= fv.map_values(|f: FieldDeclV| sub_field(f, b)));
    let ctor = match &tmpl.ctor {
        Some(ct) => Some(CtorDecl { params: subst_params(&ct.params, bs), body: subst_block(&ct.body, bs), line: ct.line, col: ct.col }),
        None => None,
    };
    let ghost mv = methods_v(tmpl.methods@);
    let mut methods: Vec<MethodDecl> = Vec::new();
    let mut j: usize = 0;
    while j < tmpl.methods.len()
        invariant
            j <= tmpl.methods@.len(),
            bindings_view(bs@) == b,
            mv == methods_v(tmpl.methods@),
            methods@.len() == j,
            forall|k: int| 0 <= k < j ==> methods@[k]@ == sub_method(mv[k], b),
        decreases tmpl.methods@.len() - j,
    {
        let m = &tmpl.methods[j];
        assert(mv[j as int] == m@);
        methods.push(MethodDecl {
            is_public: m.is_public,
            name: m.name.clone(),
            params: subst_params(&m.params, bs),
            ret: subst_type(&m.ret, bs),
            body: subst_block(&m.body, bs),
            line: m.line,
            col: m.col,
        });
        j += 1;
    }
    assert(methods_v(methods@) =~= mv.map_values(|m: MethodDeclV| sub_method(m, b)));
    ClassDecl {
        name: key,
        type_param: None,
        fields,
        ctor,
        methods,
        file_idx: tmpl.file_idx,
        from_std: tmpl.from_std,
        line: tmpl.line,
        col: tmpl.col,
    }
}

/// Stamp a concrete instance of a generic function template.
pub fn subst_function(tmpl: FunctionDecl, bindings: &[(String, Type)], key: &str) -> (r: FunctionDecl)
    ensures
        r@ == subst_function_spec(tmpl@, bindings_view(bindings@), key@),
{
    let params = subst_params(&tmpl.params, bindings);
    let ret = subst_type(&tmpl.ret, bindings);
    let body = subst_block(&tmpl.body, bindings);
    let type_params: Vec<String> = Vec::new();
    assert(names_v(type_params@) =~= Seq::<Seq<char>>::empty());
    FunctionDecl {
        name: crate::text::lit_string(key),
        type_params,
        params,
        ret,
        body,
        file_idx: tmpl.file_idx,
        from_std: tmpl.from_std,
        line: tmpl.line,
        col: tmpl.col,
    }
}

} // verus!
