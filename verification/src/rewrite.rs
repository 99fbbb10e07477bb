//! The optimizer pass over a lowered program (see [`crate::rewrite_spec`]):
//! calls of trivial forwarders become their intrinsic, and intrinsic calls
//! over literals are folded.

use vstd::prelude::*;
use crate::ast::{Block, BlockV, ClassDecl, CtorDecl, Expr, ExprKind, ExprKindV, FieldDecl, FunctionDecl, MethodDecl, Param, Program, Stmt, StmtKind, Type, arms_v, exprs_v, params_v, stmts_v, block_v, functions_v, classes_v, fields_v, methods_v};
use crate::codegen_names::{method_key, method_key_spec};
use crate::opt::{fold_arity, try_fold, x_view};
use crate::rewrite_spec::{FwV, fw_get, forwarder_spec, rw_children, fold_kind, inline_kind, rw_expr, rw_list, rw_stmt, rw_stmts, rw_arms, fw_fns, fw_methods, fw_class_methods, forwarders_of, rw_function, rw_class, rw_field, rw_method, optimize_spec, forwarded_call, forwards_params, passes_param};
use crate::text::{chars_of, str_eq};
use crate::copy::copy_types;

verus! {

pub open spec fn pairs_v(s: Seq<(String, String)>) -> Seq<(Seq<char>, Seq<char>)> {
    Seq::new(s.len(), |i: int| (s[i].0@, s[i].1@))
}

pub open spec fn opt_str_v(o: Option<String>) -> Option<Seq<char>> {
    match o {
        Some(s) => Some(s@),
        None => None,
    }
}

/// A program's forwarders (function name / `Class#method` to intrinsic).
pub struct Forwarders {
    pub fns: Vec<(String, String)>,
    pub methods: Vec<(String, String)>,
}

impl View for Forwarders {
    type V = FwV;

    open spec fn view(&self) -> FwV {
        FwV { fns: pairs_v(self.fns@), methods: pairs_v(self.methods@) }
    }
}

/// The intrinsic a key forwards to; the last entry for the key wins.
fn fw_find(m: &Vec<(String, String)>, k: &str) -> (r: Option<String>)
    ensures
        opt_str_v(r) == fw_get(pairs_v(m@), k@),
{
    let mut i: usize = m.len();
    assert(pairs_v(m@).take(i as int) =~= pairs_v(m@));
    while i > 0
        invariant
            i <= m@.len(),
            fw_get(pairs_v(m@), k@) == fw_get(pairs_v(m@).take(i as int), k@),
        decreases i,
    {
        let ghost p = pairs_v(m@).take(i as int);
        assert(p.drop_last() =~= pairs_v(m@).take(i - 1));
        assert(p.last() == (m@[i - 1].0@, m@[i - 1].1@));
        if str_eq(m[i - 1].0.as_str(), k) {
            return Some(m[i - 1].1.clone());
        }
        i -= 1;
    }
    None
}

/// Does `s` begin with `p`?
fn has_prefix(s: &str, p: &str) -> (b: bool)
    ensures
        b == p@.is_prefix_of(s@),
{
    let a = chars_of(s);
    let b = chars_of(p);
    if b.len() > a.len() {
        return false;
    }
    let mut i: usize = 0;
    while i < b.len()
        invariant
            i <= b@.len() <= a@.len(),
            a@ == s@,
            b@ == p@,
            forall|j: int| 0 <= j < i ==> a@[j] == b@[j],
        decreases b@.len() - i,
    {
        if a[i] != b[i] {
            return false;
        }
        i += 1;
    }
    assert(p@ =~= s@.take(p@.len() as int));
    true
}

/// How many arguments folding `name` reads.
fn arity(name: &str) -> (n: usize)
    ensures
        n == fold_arity(name@),
{
    if str_eq(name, "i64_add") || str_eq(name, "i64_sub") || str_eq(name, "i64_mul") || str_eq(name, "i64_divtrunc")
        || str_eq(name, "i64_mod") || str_eq(name, "i64_eq") || str_eq(name, "i64_lt") || str_eq(name, "bool_eq")
        || str_eq(name, "char_eq") || str_eq(name, "char_lt") || str_eq(name, "str_concat") || str_eq(name, "str_eq")
        || str_eq(name, "str_lt") || str_eq(name, "i64_and") || str_eq(name, "i64_or") || str_eq(name, "i64_xor")
        || str_eq(name, "i64_shl") || str_eq(name, "i64_shr") {
        2
    } else if str_eq(name, "i64_neg") || str_eq(name, "i64_to_string") || str_eq(name, "char_to_i64")
        || str_eq(name, "i64_to_char") || str_eq(name, "char_to_string") || str_eq(name, "str_len")
        || str_eq(name, "i64_not") {
        1
    } else {
        0
    }
}

/// If `body` only hands its parameters (after `this`, for a method) to one
/// intrinsic other than `@panic`, that intrinsic's name.
#[verifier::loop_isolation(false)]
fn forwarder(params: &Vec<Param>, ret: &Type, body: &Block, is_method: bool) -> (r: Option<String>)
    ensures
        opt_str_v(r) == forwarder_spec(params_v(params@), ret@, body@, is_method),
{
    if body.stmts.len() != 1 {
        return None;
    }
    assert(body@.stmts[0] == body.stmts@[0]@);
    let call = match &body.stmts[0].kind {
        StmtKind::Return(Some(e)) => e,
        StmtKind::ExprStmt(e) => {
            if ret.is_named("None") {
                e
            } else {
                return None;
            }
        },
        _ => return None,
    };
    assert(forwarded_call(ret@, body@) == Some(call@));
    let (name, args) = match &call.kind {
        ExprKind::IntrinsicCall { name, args } => (name, args),
        _ => return None,
    };
    if str_eq(name.as_str(), "panic") {
        return None;
    }
    let shift: usize = if is_method { 1 } else { 0 };
    let ghost av = exprs_v(args@);
    let ghost pv = params_v(params@);
    assert(call@.kind == ExprKindV::IntrinsicCall { name: name@, args: av });
    if args.len() < shift || args.len() - shift != params.len() {
        return None;
    }
    if is_method {
        assert(av[0] == args@[0]@);
        match &args[0].kind {
            ExprKind::This => {},
            _ => return None,
        }
    }
    let mut i: usize = 0;
    while i < params.len()
        invariant
            i <= params@.len(),
            args@.len() == params@.len() + shift,
            shift == (if is_method { 1usize } else { 0usize }),
            av == exprs_v(args@),
            pv == params_v(params@),
            forall|j: int| 0 <= j < i ==> #[trigger] passes_param(pv, av, is_method, j),
        decreases params@.len() - i,
    {
        assert(av[i + shift] == args@[i + shift]@);
        assert(pv[i as int] == params@[i as int]@);
        match &args[i + shift].kind {
            ExprKind::Ident(n) => {
                if !str_eq(n.as_str(), params[i].name.as_str()) {
                    assert(av[i + shift].kind == ExprKindV::Ident(n@));
                    assert(!forwards_params(pv, av, is_method)) by {
                        assert(!passes_param(pv, av, is_method, i as int));
                    }
                    return None;
                }
            },
            _ => {
                assert(!forwards_params(pv, av, is_method)) by {
                    assert(!passes_param(pv, av, is_method, i as int));
                }
                return None;
            },
        }
        i += 1;
    }
    Some(name.clone())
}

/// Inline a call of a forwarder, then fold an intrinsic call over literals.
fn finish(k: ExprKind, fw: &Forwarders) -> (r: ExprKind)
    ensures
        x_view(r) == fold_kind(inline_kind(x_view(k), fw@)),
{
    let ghost kv = x_view(k);
    let k2 = match k {
        ExprKind::Call { name, args } => match fw_find(&fw.fns, name.as_str()) {
            Some(i) => ExprKind::IntrinsicCall { name: i, args },
            None => ExprKind::Call { name, args },
        },
        ExprKind::CoreMethodCall { class, name, recv, args } => {
            let key = method_key(class.as_str(), name.as_str());
            match fw_find(&fw.methods, key.as_str()) {
                Some(i) => {
                    let ghost rv = (*recv)@;
                    let ghost av = exprs_v(args@);
                    let mut all: Vec<Expr> = Vec::new();
                    all.push(*recv);
                    let mut rest = args;
                    all.append(&mut rest);
                    assert(exprs_v(all@) =~= seq![rv] + av);
                    ExprKind::IntrinsicCall { name: i, args: all }
                },
                None => ExprKind::CoreMethodCall { class, name, recv, args },
            }
        },
        other => other,
    };
    assert(x_view(k2) == inline_kind(kv, fw@));
    let ghost k2v = x_view(k2);
    match k2 {
        ExprKind::IntrinsicCall { name, args } => {
            assert(k2v == ExprKindV::IntrinsicCall { name: name@, args: exprs_v(args@) });
            if args.len() >= arity(name.as_str()) {
                let sl = args.as_slice();
                assert(sl@ == args@);
                match try_fold(name.as_str(), sl) {
                    Some(f) => f,
                    None => ExprKind::IntrinsicCall { name, args },
                }
            } else {
                ExprKind::IntrinsicCall { name, args }
            }
        },
        other => other,
    }
}

/// The expression's kind with its children rewritten.
#[verifier::rlimit(40)]
#[verifier::spinoff_prover]
fn rewrite_children(e: &Expr, fw: &Forwarders) -> (k: ExprKind)
    ensures
        x_view(k) == rw_children(fw@, e@),
    decreases e, 1nat,
{
    match &e.kind {
        ExprKind::Int(v) => ExprKind::Int(*v),
        ExprKind::Float(t) => ExprKind::Float(t.clone()),
        ExprKind::Str(t) => ExprKind::Str(t.clone()),
        ExprKind::CharLit(c) => ExprKind::CharLit(*c),
        ExprKind::Bool(b) => ExprKind::Bool(*b),
        ExprKind::NoneLit => ExprKind::NoneLit,
        ExprKind::Ident(n) => ExprKind::Ident(n.clone()),
        ExprKind::This => ExprKind::This,
        ExprKind::ArrayLit(v) => ExprKind::ArrayLit(rewrite_list(v, fw)),
        ExprKind::Call { name, args } => ExprKind::Call { name: name.clone(), args: rewrite_list(args, fw) },
        ExprKind::GenericCall { name, type_args, args } => ExprKind::GenericCall {
            name: name.clone(),
            type_args: copy_types(type_args),
            args: rewrite_list(args, fw),
        },
        ExprKind::MethodCall { recv, name, args } => ExprKind::MethodCall {
            recv: Box::new(rewrite_expr(recv, fw)),
            name: name.clone(),
            args: rewrite_list(args, fw),
        },
        ExprKind::CoreMethodCall { class, name, recv, args } => ExprKind::CoreMethodCall {
            class: class.clone(),
            name: name.clone(),
            recv: Box::new(rewrite_expr(recv, fw)),
            args: rewrite_list(args, fw),
        },
        ExprKind::OptWrap { payload, expr } => ExprKind::OptWrap {
            payload: payload.copy(),
            expr: Box::new(rewrite_expr(expr, fw)),
        },
        ExprKind::OptUnwrap { payload, expr } => ExprKind::OptUnwrap {
            payload: payload.copy(),
            expr: Box::new(rewrite_expr(expr, fw)),
        },
        ExprKind::OptNone { payload } => ExprKind::OptNone { payload: payload.copy() },
        ExprKind::OptHas { payload, expr } => ExprKind::OptHas {
            payload: payload.copy(),
            expr: Box::new(rewrite_expr(expr, fw)),
        },
        ExprKind::New { class, args } => ExprKind::New { class: class.clone(), args: rewrite_list(args, fw) },
        ExprKind::ContainerLit { class, is_array, elems } => ExprKind::ContainerLit {
            class: class.clone(),
            is_array: *is_array,
            elems: rewrite_list(elems, fw),
        },
        ExprKind::BufAlloc { elem, size } => ExprKind::BufAlloc {
            elem: elem.copy(),
            size: Box::new(rewrite_expr(size, fw)),
        },
        ExprKind::FieldAccess { recv, name } => ExprKind::FieldAccess {
            recv: Box::new(rewrite_expr(recv, fw)),
            name: name.clone(),
        },
        ExprKind::Index { recv, index } => ExprKind::Index {
            recv: Box::new(rewrite_expr(recv, fw)),
            index: Box::new(rewrite_expr(index, fw)),
        },
        ExprKind::IntrinsicCall { name, args } => ExprKind::IntrinsicCall {
            name: name.clone(),
            args: rewrite_list(args, fw),
        },
        ExprKind::Binary { op, lhs, rhs } => ExprKind::Binary {
            op: *op,
            lhs: Box::new(rewrite_expr(lhs, fw)),
            rhs: Box::new(rewrite_expr(rhs, fw)),
        },
        ExprKind::Unary { op, operand } => ExprKind::Unary {
            op: *op,
            operand: Box::new(rewrite_expr(operand, fw)),
        },
    }
}

/// The expression with its children rewritten, then inlined and folded.
fn rewrite_expr(e: &Expr, fw: &Forwarders) -> (r: Expr)
    ensures
        r@ == rw_expr(fw@, e@),
    decreases e, 2nat,
{
    let k = rewrite_children(e, fw);
    let k2 = finish(k, fw);
    Expr { kind: k2, line: e.line, col: e.col }
}

/// Each expression of a list rewritten.
fn rewrite_list(v: &Vec<Expr>, fw: &Forwarders) -> (r: Vec<Expr>)
    ensures
        exprs_v(r@) == rw_list(fw@, exprs_v(v@)),
    decreases v, 0nat,
{
    let ghost target = rw_list(fw@, exprs_v(v@));
    let mut out: Vec<Expr> = Vec::new();
    let mut i: usize = 0;
    while i < v.len()
        invariant
            i <= v@.len(),
            target == rw_list(fw@, exprs_v(v@)),
            out@.len() == i,
            forall|j: int| 0 <= j < i ==> out@[j]@ == target[j],
        decreases v@.len() - i,
    {
        assert(exprs_v(v@)[i as int] == v@[i as int]@);
        assert(decreases_to!(v => v@[i as int]));
        let x = rewrite_expr(&v[i], fw);
        out.push(x);
        i += 1;
    }
    assert(exprs_v(out@) =~= target);
    out
}

/// A statement kind's view.
pub open spec fn sk_view(k: StmtKind) -> crate::ast::StmtKindV {
    (Stmt { kind: k, line: 0, col: 0 })@.kind
}

/// An `if` chain with its conditions and blocks rewritten.
fn rewrite_if(st: &Stmt, fw: &Forwarders) -> (k: StmtKind)
    requires
        st.kind is If,
    ensures
        sk_view(k) == rw_stmt(fw@, st@).kind,
    decreases st, 0nat,
{
    match &st.kind {
        StmtKind::If { arms, else_block } => {
            let a = rewrite_arms(arms, fw);
            let eb = match else_block {
                Some(b) => {
                    let nb = rewrite_stmts(&b.stmts, fw);
                    assert(block_v(Block { stmts: nb }) == BlockV { stmts: rw_stmts(fw@, block_v(*b).stmts) });
                    Some(Block { stmts: nb })
                },
                None => None,
            };
            let ghost ebv = match eb { Some(ref b) => Some(block_v(*b)), None => None };
            assert(st@.kind == crate::ast::StmtKindV::If {
                arms: arms_v(arms@),
                else_block: match else_block { Some(b) => Some(block_v(*b)), None => None },
            });
            let k = StmtKind::If { arms: a, else_block: eb };
            assert(sk_view(k) == crate::ast::StmtKindV::If { arms: arms_v(a@), else_block: ebv });
            k
        },
        _ => StmtKind::Break,
    }
}

/// A block with each of its statements rewritten.
fn rewrite_body(b: &Block, fw: &Forwarders) -> (r: Block)
    ensures
        block_v(r) == (BlockV { stmts: rw_stmts(fw@, block_v(*b).stmts) }),
    decreases b, 1nat,
{
    Block { stmts: rewrite_stmts(&b.stmts, fw) }
}

/// The statement with every expression in it rewritten.
#[verifier::rlimit(80)]
#[verifier::spinoff_prover]
fn rewrite_stmt(st: &Stmt, fw: &Forwarders) -> (r: Stmt)
    ensures
        r@ == rw_stmt(fw@, st@),
    decreases st, 1nat,
{
    let ghost want = rw_stmt(fw@, st@).kind;
    let k = match &st.kind {
        StmtKind::VarDecl { is_const, name, ty, init } => {
            let k = StmtKind::VarDecl { is_const: *is_const, name: name.clone(), ty: ty.copy(), init: rewrite_expr(init, fw) };
            assert(sk_view(k) == want);
            k
        },
        StmtKind::Assign { target, op, value } => {
            let k = StmtKind::Assign { target: rewrite_expr(target, fw), op: *op, value: rewrite_expr(value, fw) };
            assert(sk_view(k) == want);
            k
        },
        StmtKind::IncDec { target, inc } => {
            let k = StmtKind::IncDec { target: rewrite_expr(target, fw), inc: *inc };
            assert(sk_view(k) == want);
            k
        },
        StmtKind::ExprStmt(x) => {
            let k = StmtKind::ExprStmt(rewrite_expr(x, fw));
            assert(sk_view(k) == want);
            k
        },
        StmtKind::Return(v) => {
            let k = match v {
                Some(x) => StmtKind::Return(Some(rewrite_expr(x, fw))),
                None => StmtKind::Return(None),
            };
            assert(sk_view(k) == want);
            k
        },
        StmtKind::If { .. } => rewrite_if(st, fw),
        StmtKind::While { cond, body } => {
            let k = StmtKind::While { cond: rewrite_expr(cond, fw), body: rewrite_body(body, fw) };
            assert(sk_view(k) == want);
            k
        },
        StmtKind::ForC { var_name, var_ty, init, cond, step, body } => {
            let k = StmtKind::ForC {
                var_name: var_name.clone(),
                var_ty: var_ty.copy(),
                init: rewrite_expr(init, fw),
                cond: rewrite_expr(cond, fw),
                step: Box::new(rewrite_stmt(step, fw)),
                body: rewrite_body(body, fw),
            };
            assert(sk_view(k) == want);
            k
        },
        StmtKind::ForIn { var_name, var_ty, iterable, body } => {
            let k = StmtKind::ForIn {
                var_name: var_name.clone(),
                var_ty: var_ty.copy(),
                iterable: rewrite_expr(iterable, fw),
                body: rewrite_body(body, fw),
            };
            assert(sk_view(k) == want);
            k
        },
        StmtKind::Break => StmtKind::Break,
        StmtKind::Continue => StmtKind::Continue,
        StmtKind::Scope(b) => {
            let k = StmtKind::Scope(rewrite_body(b, fw));
            assert(sk_view(k) == want);
            k
        },
        StmtKind::TryCatch { body, var_name, var_ty, catch_body } => {
            let k = StmtKind::TryCatch {
                body: rewrite_body(body, fw),
                var_name: var_name.clone(),
                var_ty: var_ty.copy(),
                catch_body: rewrite_body(catch_body, fw),
            };
            assert(sk_view(k) == want);
            k
        },
    };
    Stmt { kind: k, line: st.line, col: st.col }
}

/// Each statement of a list rewritten.
fn rewrite_stmts(v: &Vec<Stmt>, fw: &Forwarders) -> (r: Vec<Stmt>)
    ensures
        stmts_v(r@) == rw_stmts(fw@, stmts_v(v@)),
    decreases v, 0nat,
{
    let ghost target = rw_stmts(fw@, stmts_v(v@));
    let mut out: Vec<Stmt> = Vec::new();
    let mut i: usize = 0;
    while i < v.len()
        invariant
            i <= v@.len(),
            target == rw_stmts(fw@, stmts_v(v@)),
            out@.len() == i,
            forall|j: int| 0 <= j < i ==> out@[j]@ == target[j],
        decreases v@.len() - i,
    {
        assert(stmts_v(v@)[i as int] == v@[i as int]@);
        assert(decreases_to!(v => v@[i as int]));
        let x = rewrite_stmt(&v[i], fw);
        out.push(x);
        i += 1;
    }
    assert(stmts_v(out@) =~= target);
    out
}

/// Each arm of an `if` chain rewritten.
fn rewrite_arms(v: &Vec<(Expr, Block)>, fw: &Forwarders) -> (r: Vec<(Expr, Block)>)
    ensures
        arms_v(r@) == rw_arms(fw@, arms_v(v@)),
    decreases v, 0nat,
{
    let ghost target = rw_arms(fw@, arms_v(v@));
    let mut out: Vec<(Expr, Block)> = Vec::new();
    let mut i: usize = 0;
    while i < v.len()
        invariant
            i <= v@.len(),
            target == rw_arms(fw@, arms_v(v@)),
            out@.len() == i,
            forall|j: int| 0 <= j < i ==> (#[trigger] out@[j]).0@ == target[j].0 && block_v(out@[j].1) == target[j].1,
        decreases v@.len() - i,
    {
        assert(arms_v(v@)[i as int] == (v@[i as int].0@, block_v(v@[i as int].1)));
        assert(decreases_to!(v => v@[i as int]));
        let c = rewrite_expr(&v[i].0, fw);
        let b = rewrite_stmts(&v[i].1.stmts, fw);
        out.push((c, Block { stmts: b }));
        i += 1;
    }
    assert(arms_v(out@) =~= target);
    out
}

/// The forwarding functions of a program (never `main`), in order.
fn fn_forwarders(fs: &Vec<FunctionDecl>) -> (r: Vec<(String, String)>)
    ensures
        pairs_v(r@) == fw_fns(functions_v(fs@)),
{
    let mut out: Vec<(String, String)> = Vec::new();
    let mut i: usize = 0;
    assert(functions_v(fs@).take(0) =~= Seq::<crate::ast::FunctionDeclV>::empty());
    assert(pairs_v(out@) =~= Seq::<(Seq<char>, Seq<char>)>::empty());
    while i < fs.len()
        invariant
            i <= fs@.len(),
            pairs_v(out@) == fw_fns(functions_v(fs@).take(i as int)),
        decreases fs@.len() - i,
    {
        let ghost pre = functions_v(fs@).take(i + 1);
        assert(pre.drop_last() =~= functions_v(fs@).take(i as int));
        assert(pre.last() == fs@[i as int]@);
        let f = &fs[i];
        let fwd = forwarder(&f.params, &f.ret, &f.body, false);
        match fwd {
            Some(intr) => {
                if !str_eq(f.name.as_str(), "main") {
                    let ghost before = pairs_v(out@);
                    out.push((f.name.clone(), intr));
                    assert(pairs_v(out@) =~= before.push((fs@[i as int].name@, intr@)));
                }
            },
            None => {},
        }
        i += 1;
    }
    assert(functions_v(fs@).take(fs@.len() as int) =~= functions_v(fs@));
    out
}

/// The forwarding methods of one class, keyed `Class#method`, in order.
fn class_method_forwarders(class: &str, ms: &Vec<MethodDecl>) -> (r: Vec<(String, String)>)
    ensures
        pairs_v(r@) == fw_class_methods(class@, methods_v(ms@)),
{
    let mut out: Vec<(String, String)> = Vec::new();
    let mut i: usize = 0;
    assert(methods_v(ms@).take(0) =~= Seq::<crate::ast::MethodDeclV>::empty());
    assert(pairs_v(out@) =~= Seq::<(Seq<char>, Seq<char>)>::empty());
    while i < ms.len()
        invariant
            i <= ms@.len(),
            pairs_v(out@) == fw_class_methods(class@, methods_v(ms@).take(i as int)),
        decreases ms@.len() - i,
    {
        let ghost pre = methods_v(ms@).take(i + 1);
        assert(pre.drop_last() =~= methods_v(ms@).take(i as int));
        assert(pre.last() == ms@[i as int]@);
        let m = &ms[i];
        match forwarder(&m.params, &m.ret, &m.body, true) {
            Some(intr) => {
                let ghost before = pairs_v(out@);
                out.push((method_key(class, m.name.as_str()), intr));
                assert(pairs_v(out@) =~= before.push((method_key_spec(class@, ms@[i as int].name@), intr@)));
            },
            None => {},
        }
        i += 1;
    }
    assert(methods_v(ms@).take(ms@.len() as int) =~= methods_v(ms@));
    out
}

/// The forwarding methods of every class but the built-in `RawBuffer` ones.
fn method_forwarders(cs: &Vec<ClassDecl>) -> (r: Vec<(String, String)>)
    ensures
        pairs_v(r@) == fw_methods(classes_v(cs@)),
{
    let mut out: Vec<(String, String)> = Vec::new();
    let mut i: usize = 0;
    assert(classes_v(cs@).take(0) =~= Seq::<crate::ast::ClassDeclV>::empty());
    assert(pairs_v(out@) =~= Seq::<(Seq<char>, Seq<char>)>::empty());
    while i < cs.len()
        invariant
            i <= cs@.len(),
            pairs_v(out@) == fw_methods(classes_v(cs@).take(i as int)),
        decreases cs@.len() - i,
    {
        let ghost pre = classes_v(cs@).take(i + 1);
        assert(pre.drop_last() =~= classes_v(cs@).take(i as int));
        assert(pre.last() == cs@[i as int]@);
        let c = &cs[i];
        if !has_prefix(c.name.as_str(), "RawBuffer") {
            let mut more = class_method_forwarders(c.name.as_str(), &c.methods);
            let ghost before = pairs_v(out@);
            let ghost extra = pairs_v(more@);
            out.append(&mut more);
            assert(pairs_v(out@) =~= before + extra);
        }
        i += 1;
    }
    assert(classes_v(cs@).take(cs@.len() as int) =~= classes_v(cs@));
    out
}

/// A class with its field defaults, constructor and method bodies rewritten.
fn rewrite_class(c: ClassDecl, fw: &Forwarders) -> (r: ClassDecl)
    ensures
        r@ == rw_class(fw@, c@),
{
    let ghost cv = c@;
    let ClassDecl { name, type_param, fields, ctor, methods, file_idx, from_std, line, col } = c;
    let mut fs = fields;
    let ghost forig = fs@;
    let mut new_fields: Vec<FieldDecl> = Vec::new();
    while fs.len() > 0
        invariant
            new_fields@.len() + fs@.len() == forig.len(),
            fs@ == forig.skip(new_fields@.len() as int),
            forall|j: int| 0 <= j < new_fields@.len() ==> new_fields@[j]@ == rw_field(fw@, forig[j]@),
        decreases fs@.len(),
    {
        let ghost k = new_fields@.len() as int;
        assert(fs@[0] == forig[k]);
        let fd = fs.remove(0);
        assert(fs@ =~= forig.skip(k + 1));
        let FieldDecl { is_public, name, ty, default, line, col } = fd;
        let d = rewrite_expr(&default, fw);
        new_fields.push(FieldDecl { is_public, name, ty, default: d, line, col });
    }
    assert(fields_v(new_fields@) =~= fields_v(forig).map_values(|f: crate::ast::FieldDeclV| rw_field(fw@, f)));
    let new_ctor = match ctor {
        Some(ct) => {
            let CtorDecl { params, body, line, col } = ct;
            let nb = rewrite_body(&body, fw);
            Some(CtorDecl { params, body: nb, line, col })
        },
        None => None,
    };
    let mut ms = methods;
    let ghost morig = ms@;
    let mut new_methods: Vec<MethodDecl> = Vec::new();
    while ms.len() > 0
        invariant
            new_methods@.len() + ms@.len() == morig.len(),
            ms@ == morig.skip(new_methods@.len() as int),
            forall|j: int| 0 <= j < new_methods@.len() ==> new_methods@[j]@ == rw_method(fw@, morig[j]@),
        decreases ms@.len(),
    {
        let ghost k = new_methods@.len() as int;
        assert(ms@[0] == morig[k]);
        let md = ms.remove(0);
        assert(ms@ =~= morig.skip(k + 1));
        let MethodDecl { is_public, name, params, ret, body, line, col } = md;
        let nb = rewrite_body(&body, fw);
        new_methods.push(MethodDecl { is_public, name, params, ret, body: nb, line, col });
    }
    assert(methods_v(new_methods@) =~= methods_v(morig).map_values(|m: crate::ast::MethodDeclV| rw_method(fw@, m)));
    ClassDecl { name, type_param, fields: new_fields, ctor: new_ctor, methods: new_methods, file_idx, from_std, line, col }
}

/// Inline calls of the program's trivial forwarders and fold intrinsic
/// calls over literals, in every function body, field default, constructor
/// and method (see [`optimize_spec`]).
pub fn optimize(program: &mut Program)
    ensures
        final(program)@ == optimize_spec(old(program)@),
{
    let fw = Forwarders { fns: fn_forwarders(&program.functions), methods: method_forwarders(&program.classes) };
    assert(fw@ == forwarders_of(old(program)@));
    let mut fs: Vec<FunctionDecl> = Vec::new();
    std::mem::swap(&mut fs, &mut program.functions);
    let ghost forig = fs@;
    let mut out: Vec<FunctionDecl> = Vec::new();
    while fs.len() > 0
        invariant
            out@.len() + fs@.len() == forig.len(),
            fs@ == forig.skip(out@.len() as int),
            forall|j: int| 0 <= j < out@.len() ==> out@[j]@ == rw_function(fw@, forig[j]@),
        decreases fs@.len(),
    {
        let ghost k = out@.len() as int;
        assert(fs@[0] == forig[k]);
        let f = fs.remove(0);
        assert(fs@ =~= forig.skip(k + 1));
        let FunctionDecl { name, type_params, params, ret, body, file_idx, from_std, line, col } = f;
        let nb = rewrite_body(&body, &fw);
        out.push(FunctionDecl { name, type_params, params, ret, body: nb, file_idx, from_std, line, col });
    }
    assert(functions_v(out@) =~= functions_v(forig).map_values(|f: crate::ast::FunctionDeclV| rw_function(fw@, f)));
    program.functions = out;
    let mut cs: Vec<ClassDecl> = Vec::new();
    std::mem::swap(&mut cs, &mut program.classes);
    let ghost corig = cs@;
    let mut cout: Vec<ClassDecl> = Vec::new();
    while cs.len() > 0
        invariant
            cout@.len() + cs@.len() == corig.len(),
            cs@ == corig.skip(cout@.len() as int),
            forall|j: int| 0 <= j < cout@.len() ==> cout@[j]@ == rw_class(fw@, corig[j]@),
        decreases cs@.len(),
    {
        let ghost k = cout@.len() as int;
        assert(cs@[0] == corig[k]);
        let c = cs.remove(0);
        assert(cs@ =~= corig.skip(k + 1));
        cout.push(rewrite_class(c, &fw));
    }
    assert(classes_v(cout@) =~= classes_v(corig).map_values(|c: crate::ast::ClassDeclV| rw_class(fw@, c)));
    program.classes = cout;
}

} // verus!
