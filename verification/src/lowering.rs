//! Typing a body's expressions (see [`crate::lowering_spec`]): each
//! expression gets its type and its lowered form, and the generic
//! instances it needs are collected in order.

use vstd::prelude::*;
use crate::ast::{Expr, ExprKind, ExprKindV, ExprV, FunctionDecl, Param, Type, TypeV, UnOp, BinOp, exprs_v, params_v, types_v, names_v};
use crate::calls::{Origin, buf_alloc_elem, container_protocol, context_ctor, core_call, deref_operand, logic_operand, method_params, none_for, none_side, none_test, not_operand, operands_binary, resolve_field};
use crate::errors::{JimError, JimErrorV};
use crate::generate_spec::param_types;
use crate::generic_calls::{cannot_infer_message, check_generic_arity, explicit_bindings, final_arg, infer_mismatch, instance_key, ordered_bindings, unbound_params};
use crate::leaves::{CallTarget, call_target, intrinsic_arg, intrinsic_target, lower_leaf, type_args_message};
use crate::lowering_spec::{InstV, MismatchV, Place, PlaceV, Tables, binary_spec, expect_list_spec, expect_spec, final_args_spec, find_template, generic_spec, infer_args_spec, intrinsic_args_spec, lower_list_spec, lower_spec, mismatch_msg, neg_float_text, neg_int, surface, surface_all, template_names};
use crate::sema::{BindingsV, bindings_view, mentions_unbound, names_view, subst_type, types_view, unify, unify_soft};
use crate::text::{chars_of, framed, lit_string, push_char, push_str, str_eq};
use crate::typing::try_coerce;

verus! {

/// A request for an instance of a generic function.
#[derive(Debug)]
pub struct Inst {
    pub template: String,
    pub bindings: Vec<(String, Type)>,
    pub key: String,
}

impl View for Inst {
    type V = InstV;

    open spec fn view(&self) -> InstV {
        InstV { template: self.template@, bindings: bindings_view(self.bindings@), key: self.key@ }
    }
}

pub open spec fn insts_v(s: Seq<Inst>) -> Seq<InstV> {
    Seq::new(s.len(), |i: int| s[i]@)
}

/// How a value that does not fit its expected type is reported.
pub enum Mismatch {
    CallArg(String),
    CtorArg(String),
    MethodArg(String),
    Index,
    Element,
    Capacity,
    VarInit(String),
    VarAssign(String),
    ElemAssign,
    FieldAssign(String),
    PointerAssign,
    Return(String),
    FieldDefault(String),
}

impl View for Mismatch {
    type V = MismatchV;

    open spec fn view(&self) -> MismatchV {
        match self {
            Mismatch::CallArg(n) => MismatchV::CallArg(n@),
            Mismatch::CtorArg(n) => MismatchV::CtorArg(n@),
            Mismatch::MethodArg(n) => MismatchV::MethodArg(n@),
            Mismatch::Index => MismatchV::Index,
            Mismatch::Element => MismatchV::Element,
            Mismatch::Capacity => MismatchV::Capacity,
            Mismatch::VarInit(n) => MismatchV::VarInit(n@),
            Mismatch::VarAssign(n) => MismatchV::VarAssign(n@),
            Mismatch::ElemAssign => MismatchV::ElemAssign,
            Mismatch::FieldAssign(n) => MismatchV::FieldAssign(n@),
            Mismatch::PointerAssign => MismatchV::PointerAssign,
            Mismatch::Return(n) => MismatchV::Return(n@),
            Mismatch::FieldDefault(n) => MismatchV::FieldDefault(n@),
        }
    }
}

fn mismatch_text(m: &Mismatch, want: &str, got: &str) -> (s: String)
    ensures
        s@ == mismatch_msg(m@, want@, got@),
{
    let (mut s, mid) = match m {
        Mismatch::CallArg(n) => (framed("argument type mismatch in call to '", n.as_str(), "': expected "), ", found "),
        Mismatch::CtorArg(n) => (framed("argument type mismatch in constructor '", n.as_str(), "': expected "), ", found "),
        Mismatch::MethodArg(n) => (framed("argument type mismatch in '", n.as_str(), "': expected "), ", found "),
        Mismatch::Index => (lit_string("index must be "), ", found "),
        Mismatch::Element => (lit_string("literal element: expected "), ", found "),
        Mismatch::Capacity => (lit_string("'@buf_alloc' capacity: expected "), ", found "),
        Mismatch::VarInit(n) => (framed("type mismatch: '", n.as_str(), "' is declared "), " but initialized with "),
        Mismatch::VarAssign(n) => (framed("type mismatch: '", n.as_str(), "' is "), " but the assigned value is "),
        Mismatch::ElemAssign => (lit_string("type mismatch: the element type is "), " but the assigned value is "),
        Mismatch::FieldAssign(n) => (framed("type mismatch: field '", n.as_str(), "' is "), " but the assigned value is "),
        Mismatch::PointerAssign => (lit_string("type mismatch: the pointer targets "), " but the assigned value is "),
        Mismatch::Return(n) => (framed("return type mismatch: '", n.as_str(), "' returns "), " but this returns "),
        Mismatch::FieldDefault(n) => (framed("field '", n.as_str(), "' is declared "), " but its default value is "),
    };
    push_str(&mut s, want);
    push_str(&mut s, mid);
    push_str(&mut s, got);
    s
}

pub open spec fn lowered_v(r: Result<(Expr, Type, Vec<Inst>), JimError>) -> Result<(ExprV, TypeV, Seq<InstV>), JimErrorV> {
    match r {
        Ok((e, t, rs)) => Ok((e@, t@, insts_v(rs@))),
        Err(x) => Err(x@),
    }
}

pub open spec fn expected_v(r: Result<(Expr, Vec<Inst>), JimError>) -> Result<(ExprV, Seq<InstV>), JimErrorV> {
    match r {
        Ok((e, rs)) => Ok((e@, insts_v(rs@))),
        Err(x) => Err(x@),
    }
}

pub open spec fn typed_list_v(r: Result<(Vec<(Expr, Type)>, Vec<Inst>), JimError>) -> Result<(Seq<(ExprV, TypeV)>, Seq<InstV>), JimErrorV> {
    match r {
        Ok((v, rs)) => Ok((crate::calls::pairs_v(v@), insts_v(rs@))),
        Err(x) => Err(x@),
    }
}

pub open spec fn list_v(r: Result<(Vec<Expr>, Vec<Inst>), JimError>) -> Result<(Seq<ExprV>, Seq<InstV>), JimErrorV> {
    match r {
        Ok((v, rs)) => Ok((exprs_v(v@), insts_v(rs@))),
        Err(x) => Err(x@),
    }
}

/// Append `b` to `a`.
pub fn append_insts(a: &mut Vec<Inst>, b: Vec<Inst>)
    ensures
        insts_v(final(a)@) == insts_v(old(a)@) + insts_v(b@),
{
    let mut b = b;
    let ghost a0 = a@;
    let ghost b0 = b@;
    a.append(&mut b);
    assert(insts_v(a@) =~= insts_v(a0) + insts_v(b0));
}

/// No instances.
pub fn no_insts() -> (r: Vec<Inst>)
    ensures
        insts_v(r@) == Seq::<InstV>::empty(),
{
    let r: Vec<Inst> = Vec::new();
    assert(insts_v(r@) =~= Seq::<InstV>::empty());
    r
}

proof fn lemma_names_view(v: Seq<String>)
    ensures
        names_view(v) == names_v(v),
{
    assert(names_view(v) =~= names_v(v));
}

/// The names of the generic functions.
fn template_name_list(fts: &Vec<FunctionDecl>) -> (r: Vec<String>)
    ensures
        names_v(r@) == template_names(fts@),
{
    let mut out: Vec<String> = Vec::new();
    let mut i: usize = 0;
    while i < fts.len()
        invariant
            i <= fts@.len(),
            out@.len() == i,
            forall|j: int| 0 <= j < i ==> #[trigger] out@[j]@ == fts@[j].name@,
        decreases fts@.len() - i,
    {
        out.push(fts[i].name.clone());
        i += 1;
    }
    assert(names_v(out@) =~= template_names(fts@));
    out
}

/// Where the first generic function named `name` is.
pub fn find_template_idx(fts: &Vec<FunctionDecl>, name: &str) -> (r: Option<usize>)
    ensures
        match find_template(fts@, name@) {
            Some(f) => r matches Some(i) && i < fts@.len() && fts@[i as int] == f,
            None => r is None,
        },
{
    let mut i: usize = 0;
    assert(fts@.skip(0) =~= fts@);
    while i < fts.len()
        invariant
            i <= fts@.len(),
            find_template(fts@, name@) == find_template(fts@.skip(i as int), name@),
        decreases fts@.len() - i,
    {
        assert(fts@.skip(i as int)[0] == fts@[i as int]);
        if str_eq(fts[i].name.as_str(), name) {
            return Some(i);
        }
        assert(fts@.skip(i as int).drop_first() =~= fts@.skip(i + 1));
        i += 1;
    }
    None
}

/// The parameter types of a parameter list.
fn param_type_list(ps: &Vec<Param>) -> (r: Vec<Type>)
    ensures
        types_v(r@) == param_types(params_v(ps@)),
{
    let mut out: Vec<Type> = Vec::new();
    let mut i: usize = 0;
    while i < ps.len()
        invariant
            i <= ps@.len(),
            out@.len() == i,
            forall|j: int| 0 <= j < i ==> #[trigger] out@[j]@ == ps@[j].ty@,
        decreases ps@.len() - i,
    {
        out.push(ps[i].ty.copy());
        i += 1;
    }
    assert(types_v(out@) =~= param_types(params_v(ps@)));
    out
}

fn copy_bindings(b: &Vec<(String, Type)>) -> (r: Vec<(String, Type)>)
    ensures
        bindings_view(r@) == bindings_view(b@),
{
    let mut out: Vec<(String, Type)> = Vec::new();
    let mut i: usize = 0;
    while i < b.len()
        invariant
            i <= b@.len(),
            out@.len() == i,
            forall|j: int| 0 <= j < i ==> #[trigger] out@[j].0@ == b@[j].0@ && out@[j].1@ == b@[j].1@,
        decreases b@.len() - i,
    {
        out.push((b[i].0.clone(), b[i].1.copy()));
        i += 1;
    }
    assert(bindings_view(out@) =~= bindings_view(b@));
    out
}

fn neg_int_exec(v: i64) -> (r: i64)
    ensures
        r == neg_int(v),
{
    if v == i64::MIN { v } else { -v }
}

fn neg_float_exec(s: &str) -> (r: String)
    ensures
        r@ == neg_float_text(s@),
{
    let cs = chars_of(s);
    if cs.len() > 0 && cs[0] == '-' {
        let mut r = String::new();
        let mut i: usize = 1;
        while i < cs.len()
            invariant
                1 <= i <= cs@.len(),
                cs@ == s@,
                r@ == s@.subrange(1, i as int),
            decreases cs@.len() - i,
        {
            push_char(&mut r, cs[i]);
            assert(s@.subrange(1, i + 1) =~= s@.subrange(1, i as int).push(cs@[i as int]));
            i += 1;
        }
        assert(r@ =~= s@.skip(1));
        r
    } else {
        let mut r = String::new();
        push_char(&mut r, '-');
        push_str(&mut r, s);
        assert(r@ =~= seq!['-'] + s@);
        r
    }
}

proof fn lemma_expect_list_len(t: Tables, p: PlaceV, es: Seq<ExprV>, w: Seq<TypeV>, mm: MismatchV, n: nat)
    requires
        n <= es.len(),
    ensures
        expect_list_spec(t, p, es, w, mm, n) matches Ok((xs, _)) ==> xs.len() == n,
    decreases n,
{
    if n > 0 {
        lemma_expect_list_len(t, p, es, w, mm, (n - 1) as nat);
    }
}

proof fn lemma_infer_len(t: Tables, p: PlaceV, name: Seq<char>, tps: Seq<Seq<char>>, ptys: Seq<TypeV>, args: Seq<ExprV>, b0: BindingsV, n: nat)
    requires
        n <= args.len(),
    ensures
        infer_args_spec(t, p, name, tps, ptys, args, b0, n) matches Ok((pre, _, _)) ==> pre.len() == n,
    decreases n,
{
    if n > 0 {
        lemma_infer_len(t, p, name, tps, ptys, args, b0, (n - 1) as nat);
    }
}

proof fn lemma_surface_all_each(es: Seq<ExprV>, n: nat, i: int)
    requires
        surface_all(es, n),
        n <= es.len(),
        0 <= i < n,
    ensures
        surface(es[i]),
    decreases n,
{
    if i < n - 1 {
        lemma_surface_all_each(es, (n - 1) as nat, i);
    }
}

proof fn lemma_lower_list_err(t: Tables, p: PlaceV, es: Seq<ExprV>, m: nat, k: nat)
    requires
        m <= k <= es.len(),
        lower_list_spec(t, p, es, m) is Err,
    ensures
        lower_list_spec(t, p, es, k) == lower_list_spec(t, p, es, m),
    decreases k - m,
{
    if m < k {
        lemma_lower_list_err(t, p, es, m, (k - 1) as nat);
    }
}

proof fn lemma_expect_list_err(t: Tables, p: PlaceV, es: Seq<ExprV>, w: Seq<TypeV>, mm: MismatchV, m: nat, k: nat)
    requires
        m <= k <= es.len(),
        expect_list_spec(t, p, es, w, mm, m) is Err,
    ensures
        expect_list_spec(t, p, es, w, mm, k) == expect_list_spec(t, p, es, w, mm, m),
    decreases k - m,
{
    if m < k {
        lemma_expect_list_err(t, p, es, w, mm, m, (k - 1) as nat);
    }
}

proof fn lemma_intrinsic_args_err(t: Tables, p: PlaceV, name: Seq<char>, es: Seq<ExprV>, ps: Seq<TypeV>, m: nat, k: nat)
    requires
        m <= k <= es.len(),
        intrinsic_args_spec(t, p, name, es, ps, m) is Err,
    ensures
        intrinsic_args_spec(t, p, name, es, ps, k) == intrinsic_args_spec(t, p, name, es, ps, m),
    decreases k - m,
{
    if m < k {
        lemma_intrinsic_args_err(t, p, name, es, ps, m, (k - 1) as nat);
    }
}

proof fn lemma_infer_args_err(t: Tables, p: PlaceV, name: Seq<char>, tps: Seq<Seq<char>>, ptys: Seq<TypeV>, args: Seq<ExprV>, b0: BindingsV, m: nat, k: nat)
    requires
        m <= k <= args.len(),
        infer_args_spec(t, p, name, tps, ptys, args, b0, m) is Err,
    ensures
        infer_args_spec(t, p, name, tps, ptys, args, b0, k) == infer_args_spec(t, p, name, tps, ptys, args, b0, m),
    decreases k - m,
{
    if m < k {
        lemma_infer_args_err(t, p, name, tps, ptys, args, b0, m, (k - 1) as nat);
    }
}

proof fn lemma_final_args_err(t: Tables, p: PlaceV, name: Seq<char>, ptys: Seq<TypeV>, ordered: BindingsV, args: Seq<ExprV>, pre: Seq<Option<(ExprV, TypeV)>>, m: nat, k: nat)
    requires
        m <= k <= args.len(),
        final_args_spec(t, p, name, ptys, ordered, args, pre, m) is Err,
    ensures
        final_args_spec(t, p, name, ptys, ordered, args, pre, k) == final_args_spec(t, p, name, ptys, ordered, args, pre, m),
    decreases k - m,
{
    if m < k {
        lemma_final_args_err(t, p, name, ptys, ordered, args, pre, m, (k - 1) as nat);
    }
}

pub open spec fn pre_v(s: Seq<Option<(Expr, Type)>>) -> Seq<Option<(ExprV, TypeV)>> {
    Seq::new(s.len(), |i: int| match s[i] {
        Some((e, t)) => Some((e@, t@)),
        None => None,
    })
}

/// Type each expression in order.
pub fn lower_list(t: &Tables, p: &Place, es: &Vec<Expr>) -> (r: Result<(Vec<(Expr, Type)>, Vec<Inst>), JimError>)
    requires
        surface_all(exprs_v(es@), es@.len()),
    ensures
        typed_list_v(r) == lower_list_spec(*t, p@, exprs_v(es@), es@.len()),
    decreases es, 0nat,
{
    let ghost ev = exprs_v(es@);
    let mut out: Vec<(Expr, Type)> = Vec::new();
    let mut reqs: Vec<Inst> = Vec::new();
    let mut i: usize = 0;
    assert(crate::calls::pairs_v(out@) =~= Seq::<(ExprV, TypeV)>::empty());
    assert(insts_v(reqs@) =~= Seq::<InstV>::empty());
    while i < es.len()
        invariant
            i <= es@.len(),
            ev == exprs_v(es@),
            surface_all(ev, es@.len()),
            lower_list_spec(*t, p@, ev, i as nat) == Ok::<(Seq<(ExprV, TypeV)>, Seq<InstV>), JimErrorV>((crate::calls::pairs_v(out@), insts_v(reqs@))),
        decreases es@.len() - i,
    {
        proof {
            lemma_surface_all_each(ev, es@.len(), i as int);
        }
        assert(ev[i as int] == es@[i as int]@);
        assert(decreases_to!(es => es@[i as int]));
        match lower_expr(t, p, &es[i]) {
            Ok((x, xt, r)) => {
                let ghost p0 = crate::calls::pairs_v(out@);
                let ghost xv = (x@, xt@);
                out.push((x, xt));
                assert(crate::calls::pairs_v(out@) =~= p0.push(xv));
                append_insts(&mut reqs, r);
            },
            Err(x) => {
                proof {
                    lemma_lower_list_err(*t, p@, ev, (i + 1) as nat, es@.len());
                }
                return Err(x);
            },
        }
        i += 1;
    }
    Ok((out, reqs))
}

/// Type each expression where its type in `wants` is expected.
pub fn expect_list(t: &Tables, p: &Place, es: &Vec<Expr>, wants: &Vec<Type>, m: &Mismatch) -> (r: Result<(Vec<Expr>, Vec<Inst>), JimError>)
    requires
        surface_all(exprs_v(es@), es@.len()),
        wants@.len() == es@.len(),
    ensures
        list_v(r) == expect_list_spec(*t, p@, exprs_v(es@), types_v(wants@), m@, es@.len()),
    decreases es, 0nat,
{
    let ghost ev = exprs_v(es@);
    let ghost wv = types_v(wants@);
    let mut out: Vec<Expr> = Vec::new();
    let mut reqs: Vec<Inst> = Vec::new();
    let mut i: usize = 0;
    assert(exprs_v(out@) =~= Seq::<ExprV>::empty());
    assert(insts_v(reqs@) =~= Seq::<InstV>::empty());
    while i < es.len()
        invariant
            i <= es@.len(),
            wants@.len() == es@.len(),
            ev == exprs_v(es@),
            wv == types_v(wants@),
            surface_all(ev, es@.len()),
            expect_list_spec(*t, p@, ev, wv, m@, i as nat) == Ok::<(Seq<ExprV>, Seq<InstV>), JimErrorV>((exprs_v(out@), insts_v(reqs@))),
        decreases es@.len() - i,
    {
        proof {
            lemma_surface_all_each(ev, es@.len(), i as int);
        }
        assert(ev[i as int] == es@[i as int]@);
        assert(wv[i as int] == wants@[i as int]@);
        assert(decreases_to!(es => es@[i as int]));
        match expect(t, p, &es[i], &wants[i], m) {
            Ok((x, r)) => {
                let ghost e0 = exprs_v(out@);
                let ghost xv = x@;
                out.push(x);
                assert(exprs_v(out@) =~= e0.push(xv));
                append_insts(&mut reqs, r);
            },
            Err(x) => {
                proof {
                    lemma_expect_list_err(*t, p@, ev, wv, m@, (i + 1) as nat, es@.len());
                }
                return Err(x);
            },
        }
        i += 1;
    }
    Ok((out, reqs))
}

/// Type the arguments of `@name`, each of exactly its parameter type.
pub fn intrinsic_args(t: &Tables, p: &Place, name: &str, es: &Vec<Expr>, ps: &Vec<Type>) -> (r: Result<(Vec<Expr>, Vec<Inst>), JimError>)
    requires
        surface_all(exprs_v(es@), es@.len()),
        ps@.len() == es@.len(),
    ensures
        list_v(r) == intrinsic_args_spec(*t, p@, name@, exprs_v(es@), types_view(ps@), es@.len()),
    decreases es, 0nat,
{
    let ghost ev = exprs_v(es@);
    let ghost pv = types_view(ps@);
    let mut out: Vec<Expr> = Vec::new();
    let mut reqs: Vec<Inst> = Vec::new();
    let mut i: usize = 0;
    assert(exprs_v(out@) =~= Seq::<ExprV>::empty());
    assert(insts_v(reqs@) =~= Seq::<InstV>::empty());
    while i < es.len()
        invariant
            i <= es@.len(),
            ps@.len() == es@.len(),
            ev == exprs_v(es@),
            pv == types_view(ps@),
            surface_all(ev, es@.len()),
            intrinsic_args_spec(*t, p@, name@, ev, pv, i as nat) == Ok::<(Seq<ExprV>, Seq<InstV>), JimErrorV>((exprs_v(out@), insts_v(reqs@))),
        decreases es@.len() - i,
    {
        proof {
            lemma_surface_all_each(ev, es@.len(), i as int);
        }
        assert(ev[i as int] == es@[i as int]@);
        assert(pv[i as int] == ps@[i as int]@);
        assert(decreases_to!(es => es@[i as int]));
        let (x, xt, r) = match lower_expr(t, p, &es[i]) {
            Ok(v) => v,
            Err(x) => {
                proof {
                    lemma_intrinsic_args_err(*t, p@, name@, ev, pv, (i + 1) as nat, es@.len());
                }
                return Err(x);
            },
        };
        match intrinsic_arg(name, &ps[i], (x, xt)) {
            Ok(y) => {
                let ghost e0 = exprs_v(out@);
                let ghost yv = y@;
                out.push(y);
                assert(exprs_v(out@) =~= e0.push(yv));
                append_insts(&mut reqs, r);
            },
            Err(y) => {
                proof {
                    lemma_intrinsic_args_err(*t, p@, name@, ev, pv, (i + 1) as nat, es@.len());
                }
                return Err(y);
            },
        }
        i += 1;
    }
    Ok((out, reqs))
}

/// Type a binary operator (see [`binary_spec`]).
fn lower_binary(t: &Tables, p: &Place, e: &Expr) -> (r: Result<(Expr, Type, Vec<Inst>), JimError>)
    requires
        surface(e@),
        e@.kind is Binary,
    ensures
        lowered_v(r) == binary_spec(*t, p@, e@),
    decreases e, 0nat,
{
    let line = e.line;
    let col = e.col;
    match &e.kind {
        ExprKind::Binary { op, lhs, rhs } => {
            assert(e@.kind == ExprKindV::Binary { op: *op, lhs: Box::new((**lhs)@), rhs: Box::new((**rhs)@) });
            let op = *op;
            if op == BinOp::And || op == BinOp::Or {
                let word = if op == BinOp::And { "and" } else { "or" };
                let (le, lt, mut lr) = match lower_expr(t, p, lhs) {
                    Ok(v) => v,
                    Err(x) => return Err(x),
                };
                let l = match logic_operand(word, (le, lt)) {
                    Ok(v) => v,
                    Err(x) => return Err(x),
                };
                let (re, rt, rr) = match lower_expr(t, p, rhs) {
                    Ok(v) => v,
                    Err(x) => return Err(x),
                };
                let r = match logic_operand(word, (re, rt)) {
                    Ok(v) => v,
                    Err(x) => return Err(x),
                };
                append_insts(&mut lr, rr);
                Ok((Expr { kind: ExprKind::Binary { op, lhs: Box::new(l), rhs: Box::new(r) }, line, col }, Type::named("Bool"), lr))
            } else {
                match none_side(op, lhs, rhs, line, col) {
                    Err(x) => Err(x),
                    Ok(Some(left_none)) => {
                        let value: &Expr = if left_none { rhs } else { lhs };
                        let (ve, vt, vr) = match lower_expr(t, p, value) {
                            Ok(v) => v,
                            Err(x) => return Err(x),
                        };
                        match none_test(op, (ve, vt), line, col) {
                            Ok((x, xt)) => Ok((x, xt, vr)),
                            Err(x) => Err(x),
                        }
                    },
                    Ok(None) => {
                        let (le, lt, mut lr) = match lower_expr(t, p, lhs) {
                            Ok(v) => v,
                            Err(x) => return Err(x),
                        };
                        let (re, rt, rr) = match lower_expr(t, p, rhs) {
                            Ok(v) => v,
                            Err(x) => return Err(x),
                        };
                        match operands_binary(&t.classes, &p.current, op, (le, lt), (re, rt), line, col) {
                            Ok((x, xt)) => {
                                append_insts(&mut lr, rr);
                                Ok((x, xt, lr))
                            },
                            Err(x) => Err(x),
                        }
                    },
                }
            }
        },
        _ => Err(JimError::new(String::new(), line, col)),
    }
}

/// Type a call `name(args)` (constructor, generic or plain function).
fn lower_call(t: &Tables, p: &Place, e: &Expr) -> (r: Result<(Expr, Type, Vec<Inst>), JimError>)
    requires
        surface(e@),
        e@.kind is Call,
    ensures
        lowered_v(r) == lower_spec(*t, p@, e@),
    decreases e, 0nat,
{
    let line = e.line;
    let col = e.col;
    match &e.kind {
        ExprKind::Call { name, args } => {
            assert(e@.kind == ExprKindV::Call { name: name@, args: exprs_v(args@) });
            let names = template_name_list(&t.fn_templates);
            match call_target(&t.classes, &t.funcs, &names, name.as_str(), args.len(), line, col) {
                Err(x) => Err(x),
                Ok(CallTarget::New { class, params }) => {
                    assert(types_v(params@).len() == params@.len());
                    match expect_list(t, p, args, &params, &Mismatch::CtorArg(name.clone())) {
                        Err(x) => Err(x),
                        Ok((es, rs)) => Ok((Expr { kind: ExprKind::New { class, args: es }, line, col }, Type::named(name.as_str()), rs)),
                    }
                },
                Ok(CallTarget::Generic) => lower_generic(t, p, name.as_str(), None, args, None, line, col),
                Ok(CallTarget::Plain { params, ret }) => {
                    assert(types_v(params@).len() == params@.len());
                    match expect_list(t, p, args, &params, &Mismatch::CallArg(name.clone())) {
                        Err(x) => Err(x),
                        Ok((es, rs)) => Ok((Expr { kind: ExprKind::Call { name: name.clone(), args: es }, line, col }, ret, rs)),
                    }
                },
            }
        },
        _ => Err(JimError::new(String::new(), line, col)),
    }
}

/// Type an intrinsic call `@name(args)`.
fn lower_intrinsic(t: &Tables, p: &Place, e: &Expr) -> (r: Result<(Expr, Type, Vec<Inst>), JimError>)
    requires
        surface(e@),
        e@.kind is IntrinsicCall,
    ensures
        lowered_v(r) == lower_spec(*t, p@, e@),
    decreases e, 0nat,
{
    let line = e.line;
    let col = e.col;
    match &e.kind {
        ExprKind::IntrinsicCall { name, args } => {
            assert(e@.kind == ExprKindV::IntrinsicCall { name: name@, args: exprs_v(args@) });
            let (ps, ret) = match intrinsic_target(p.from_std, t.allow_intrinsics, name.as_str(), args.len(), line, col) {
                Ok(v) => v,
                Err(x) => return Err(x),
            };
            match intrinsic_args(t, p, name.as_str(), args, &ps) {
                Err(x) => Err(x),
                Ok((es, rs)) => Ok((Expr { kind: ExprKind::IntrinsicCall { name: name.clone(), args: es }, line, col }, ret, rs)),
            }
        },
        _ => Err(JimError::new(String::new(), line, col)),
    }
}

/// Type a method call `recv.name(args)`.
fn lower_method(t: &Tables, p: &Place, e: &Expr) -> (r: Result<(Expr, Type, Vec<Inst>), JimError>)
    requires
        surface(e@),
        e@.kind is MethodCall,
    ensures
        lowered_v(r) == lower_spec(*t, p@, e@),
    decreases e, 0nat,
{
    let line = e.line;
    let col = e.col;
    match &e.kind {
        ExprKind::MethodCall { recv, name, args } => {
            assert(e@.kind == ExprKindV::MethodCall { recv: Box::new((**recv)@), name: name@, args: exprs_v(args@) });
            let (re0, rt0, mut rr) = match lower_expr(t, p, recv) {
                Ok(v) => v,
                Err(x) => return Err(x),
            };
            let (re, rt) = crate::typing::deopt((re0, rt0));
            let typed: Result<(Vec<(Expr, Type)>, Vec<Inst>), JimError> = match method_params(&t.classes, &rt, name.as_str()) {
                Some(ps) => {
                    if ps.len() == args.len() {
                        assert(types_v(ps@).len() == ps@.len());
                        match expect_list(t, p, args, &ps, &Mismatch::MethodArg(name.clone())) {
                            Err(x) => Err(x),
                            Ok((es, rs)) => {
                                proof {
                                    lemma_expect_list_len(*t, p@, exprs_v(args@), types_v(ps@), MismatchV::MethodArg(name@), args@.len());
                                }
                                let ghost esv = exprs_v(es@);
                                let ghost psv = types_v(ps@);
                                let mut pairs: Vec<(Expr, Type)> = Vec::new();
                                let mut es = es;
                                let mut k: usize = 0;
                                let n = es.len();
                                while k < n
                                    invariant
                                        n == esv.len(),
                                        n == psv.len(),
                                        psv == types_v(ps@),
                                        k <= n,
                                        es@.len() == n - k,
                                        forall|j: int| 0 <= j < n - k ==> #[trigger] es@[j]@ == esv[j + k],
                                        pairs@.len() == k,
                                        forall|j: int| 0 <= j < k ==> #[trigger] crate::calls::pairs_v(pairs@)[j] == (esv[j], psv[j]),
                                    decreases n - k,
                                {
                                    let ghost before = es@;
                                    let x = es.remove(0);
                                    assert(x@ == esv[k as int]);
                                    assert(es@ =~= before.remove(0));
                                    assert(forall|j: int| 0 <= j < n - k - 1 ==> #[trigger] es@[j] == before[j + 1]);
                                    let ghost pp = crate::calls::pairs_v(pairs@);
                                    let ghost old_pairs = pairs@;
                                    assert(psv[k as int] == ps@[k as int]@);
                                    pairs.push((x, ps[k].copy()));
                                    assert(crate::calls::pairs_v(pairs@)[k as int] == (esv[k as int], psv[k as int]));
                                    assert forall|j: int| 0 <= j < k + 1 implies #[trigger] crate::calls::pairs_v(pairs@)[j] == (esv[j], psv[j]) by {
                                        if j < k {
                                            assert(pairs@[j] == old_pairs[j]);
                                            assert(pp[j] == (esv[j], psv[j]));
                                        }
                                    }
                                    k += 1;
                                }
                                assert(crate::calls::pairs_v(pairs@) =~= Seq::new(esv.len(), |i: int| (esv[i], psv[i])));
                                Ok((pairs, rs))
                            },
                        }
                    } else {
                        lower_list(t, p, args)
                    }
                },
                None => lower_list(t, p, args),
            };
            let (pairs, ars) = match typed {
                Ok(v) => v,
                Err(x) => return Err(x),
            };
            match core_call(&t.classes, &p.current, &rt, name.as_str(), re, pairs, line, col, &Origin::Plain) {
                Ok((x, xt)) => {
                    append_insts(&mut rr, ars);
                    Ok((x, xt, rr))
                },
                Err(x) => Err(x),
            }
        },
        _ => Err(JimError::new(String::new(), line, col)),
    }
}

/// Type `name<type_args>(args)`.
fn lower_typed_call(t: &Tables, p: &Place, e: &Expr) -> (r: Result<(Expr, Type, Vec<Inst>), JimError>)
    requires
        surface(e@),
        e@.kind is GenericCall,
    ensures
        lowered_v(r) == lower_spec(*t, p@, e@),
    decreases e, 0nat,
{
    let line = e.line;
    let col = e.col;
    match &e.kind {
        ExprKind::GenericCall { name, type_args, args } => {
            assert(e@.kind == ExprKindV::GenericCall { name: name@, type_args: types_v(type_args@), args: exprs_v(args@) });
            let names = template_name_list(&t.fn_templates);
            if crate::reach::has_name(&names, name.as_str()) {
                lower_generic(t, p, name.as_str(), Some(type_args), args, None, line, col)
            } else {
                let m = type_args_message(&t.funcs, &t.classes, &t.class_templates, &p.env, name.as_str());
                Err(JimError::new(m, line, col))
            }
        },
        _ => Err(JimError::new(String::new(), line, col)),
    }
}

/// Type `recv.name` and `recv[index]`.
fn lower_access(t: &Tables, p: &Place, e: &Expr) -> (r: Result<(Expr, Type, Vec<Inst>), JimError>)
    requires
        surface(e@),
        e@.kind is FieldAccess || e@.kind is Index,
    ensures
        lowered_v(r) == lower_spec(*t, p@, e@),
    decreases e, 0nat,
{
    let line = e.line;
    let col = e.col;
    match &e.kind {
        ExprKind::FieldAccess { recv, name } => {
            assert(e@.kind == ExprKindV::FieldAccess { recv: Box::new((**recv)@), name: name@ });
            let (re0, rt0, rr) = match lower_expr(t, p, recv) {
                Ok(v) => v,
                Err(x) => return Err(x),
            };
            let (re, rt) = crate::typing::deopt((re0, rt0));
            match resolve_field(&t.classes, &p.current, &rt, name.as_str(), line, col) {
                Err(x) => Err(x),
                Ok((_, ft)) => Ok((Expr { kind: ExprKind::FieldAccess { recv: Box::new(re), name: name.clone() }, line, col }, ft, rr)),
            }
        },
        ExprKind::Index { recv, index } => {
            assert(e@.kind == ExprKindV::Index { recv: Box::new((**recv)@), index: Box::new((**index)@) });
            let (re0, rt0, mut rr) = match lower_expr(t, p, recv) {
                Ok(v) => v,
                Err(x) => return Err(x),
            };
            let (re, rt) = crate::typing::deopt((re0, rt0));
            let (ie, ir) = match expect(t, p, index, &Type::named("Integer"), &Mismatch::Index) {
                Ok(v) => v,
                Err(x) => return Err(x),
            };
            let ghost iev = ie@;
            let mut args: Vec<(Expr, Type)> = Vec::new();
            args.push((ie, Type::named("Integer")));
            assert(crate::calls::pairs_v(args@) =~= seq![(iev, crate::lowering_spec::int_t())]);
            let origin = Origin::Operator(lit_string("indexing '[...]'"));
            match core_call(&t.classes, &p.current, &rt, "get", re, args, line, col, &origin) {
                Ok((x, xt)) => {
                    append_insts(&mut rr, ir);
                    Ok((x, xt, rr))
                },
                Err(x) => Err(x),
            }
        },
        _ => Err(JimError::new(String::new(), line, col)),
    }
}

/// Type `not x`, `-x` and `*p` (`&x` is a leaf).
fn lower_unary(t: &Tables, p: &Place, e: &Expr) -> (r: Result<(Expr, Type, Vec<Inst>), JimError>)
    requires
        surface(e@),
        e@.kind is Unary,
        e@.kind->Unary_op != UnOp::AddrOf,
    ensures
        lowered_v(r) == lower_spec(*t, p@, e@),
    decreases e, 0nat,
{
    let line = e.line;
    let col = e.col;
    match &e.kind {
        ExprKind::Unary { op, operand } => {
            assert(e@.kind == ExprKindV::Unary { op: *op, operand: Box::new((**operand)@) });
            if *op == UnOp::Not {
                let (oe, ot, r) = match lower_expr(t, p, operand) {
                    Ok(v) => v,
                    Err(x) => return Err(x),
                };
                match not_operand((oe, ot), line, col) {
                    Ok((x, xt)) => Ok((x, xt, r)),
                    Err(x) => Err(x),
                }
            } else if *op == UnOp::Neg {
                match &operand.kind {
                    ExprKind::Int(v) => {
                        assert(operand@.kind == ExprKindV::Int(*v));
                        let none: Vec<Inst> = Vec::new();
                        assert(insts_v(none@) =~= Seq::<InstV>::empty());
                        Ok((Expr { kind: ExprKind::Int(neg_int_exec(*v)), line, col }, Type::named("Integer"), none))
                    },
                    ExprKind::Float(f) => {
                        assert(operand@.kind == ExprKindV::Float(f@));
                        let none: Vec<Inst> = Vec::new();
                        assert(insts_v(none@) =~= Seq::<InstV>::empty());
                        Ok((Expr { kind: ExprKind::Float(neg_float_exec(f.as_str())), line, col }, Type::named("Float"), none))
                    },
                    _ => {
                        assert(!(operand@.kind is Int) && !(operand@.kind is Float));
                        let (oe0, ot0, r) = match lower_expr(t, p, operand) {
                            Ok(v) => v,
                            Err(x) => return Err(x),
                        };
                        let (oe, ot) = crate::typing::deopt((oe0, ot0));
                        let args: Vec<(Expr, Type)> = Vec::new();
                        assert(crate::calls::pairs_v(args@) =~= Seq::<(ExprV, TypeV)>::empty());
                        let origin = Origin::Operator(lit_string("unary '-'"));
                        match core_call(&t.classes, &p.current, &ot, "negate", oe, args, line, col, &origin) {
                            Ok((x, xt)) => Ok((x, xt, r)),
                            Err(x) => Err(x),
                        }
                    },
                }
            } else {
                let (oe, ot, r) = match lower_expr(t, p, operand) {
                    Ok(v) => v,
                    Err(x) => return Err(x),
                };
                match deref_operand((oe, ot), line, col) {
                    Ok((x, xt)) => Ok((x, xt, r)),
                    Err(x) => Err(x),
                }
            }
        },
        _ => Err(JimError::new(String::new(), line, col)),
    }
}

/// Type an expression: its lowered form, its type, and the generic
/// instances it asks for (see [`lower_spec`]).
pub fn lower_expr(t: &Tables, p: &Place, e: &Expr) -> (r: Result<(Expr, Type, Vec<Inst>), JimError>)
    requires
        surface(e@),
    ensures
        lowered_v(r) == lower_spec(*t, p@, e@),
    decreases e, 1nat,
{
    match lower_leaf(&p.env, &t.classes, &p.current, &p.this_ty, e) {
        Some(Ok((x, xt))) => {
            let none: Vec<Inst> = Vec::new();
            assert(insts_v(none@) =~= Seq::<InstV>::empty());
            return Ok((x, xt, none));
        },
        Some(Err(x)) => return Err(x),
        None => {},
    }
    match &e.kind {
        ExprKind::Call { .. } => lower_call(t, p, e),
        ExprKind::IntrinsicCall { .. } => lower_intrinsic(t, p, e),
        ExprKind::MethodCall { .. } => lower_method(t, p, e),
        ExprKind::GenericCall { .. } => lower_typed_call(t, p, e),
        ExprKind::FieldAccess { .. } => lower_access(t, p, e),
        ExprKind::Index { .. } => lower_access(t, p, e),
        ExprKind::Binary { .. } => lower_binary(t, p, e),
        ExprKind::Unary { .. } => lower_unary(t, p, e),
        _ => Err(JimError::new(String::new(), e.line, e.col)),
    }
}

pub open spec fn opt_types_ref_v(o: Option<&Vec<Type>>) -> Option<Seq<TypeV>> {
    match o {
        Some(v) => Some(types_v(v@)),
        None => None,
    }
}

pub open spec fn opt_type_ref_v(o: Option<&Type>) -> Option<TypeV> {
    match o {
        Some(t) => Some(t@),
        None => None,
    }
}

/// Coerce a typed value to `want`, worded by `m` when it does not fit.
fn coerce_or(m: &Mismatch, want: &Type, x: Expr, xt: Type, rs: Vec<Inst>) -> (r: Result<(Expr, Vec<Inst>), JimError>)
    ensures
        expected_v(r) == match crate::typing::coerce_spec(x@, xt@, want@) {
            Some(c) => Ok::<(ExprV, Seq<InstV>), JimErrorV>((c, insts_v(rs@))),
            None => Err(crate::calls::err_v(mismatch_msg(m@, crate::ast::display_spec(want@), crate::ast::display_spec(xt@)), x@.line, x@.col)),
        },
{
    let line = x.line;
    let col = x.col;
    match try_coerce((x, xt), want) {
        Ok(c) => Ok((c, rs)),
        Err((_, got)) => {
            let w = want.display();
            let g = got.display();
            Err(JimError::new(mismatch_text(m, w.as_str(), g.as_str()), line, col))
        },
    }
}

/// Is `want` `Array<T>` or `Vector<T>`, and which?
fn container_want(want: &Type) -> (r: Option<(&String, &Type)>)
    ensures
        match r {
            Some((b, pl)) => want@ == TypeV::Generic(b@, Box::new(pl@)) && (b@ == "Array"@ || b@ == "Vector"@),
            None => !(want@ is Generic && (want@->Generic_0 == "Array"@ || want@->Generic_0 == "Vector"@)),
        },
{
    match want {
        Type::Generic(b, pl) => {
            if str_eq(b.as_str(), "Array") || str_eq(b.as_str(), "Vector") {
                Some((b, &**pl))
            } else {
                None
            }
        },
        _ => None,
    }
}

/// An expression where `want` is expected (see [`expect_spec`]).
pub fn expect(t: &Tables, p: &Place, e: &Expr, want: &Type, m: &Mismatch) -> (r: Result<(Expr, Vec<Inst>), JimError>)
    requires
        surface(e@),
    ensures
        expected_v(r) == expect_spec(*t, p@, e@, want@, m@),
    decreases e, 2nat,
{
    let line = e.line;
    let col = e.col;
    let none: Vec<Inst> = Vec::new();
    assert(insts_v(none@) =~= Seq::<InstV>::empty());
    match &e.kind {
        ExprKind::NoneLit => {
            return match none_for(want, line, col) {
                Ok(x) => Ok((x, none)),
                Err(x) => Err(x),
            };
        },
        ExprKind::ArrayLit(elems) => {
            assert(e@.kind == ExprKindV::ArrayLit(exprs_v(elems@)));
            match container_want(want) {
                Some((base, payload)) => {
                    let (key, is_array) = match container_protocol(&t.classes, base.as_str(), payload, line, col) {
                        Ok(v) => v,
                        Err(x) => return Err(x),
                    };
                    let mut wants: Vec<Type> = Vec::new();
                    let mut k: usize = 0;
                    while k < elems.len()
                        invariant
                            k <= elems@.len(),
                            wants@.len() == k,
                            forall|j: int| 0 <= j < k ==> #[trigger] wants@[j]@ == payload@,
                        decreases elems@.len() - k,
                    {
                        wants.push(payload.copy());
                        k += 1;
                    }
                    assert(types_v(wants@) =~= Seq::new(exprs_v(elems@).len(), |i: int| payload@));
                    return match expect_list(t, p, elems, &wants, &Mismatch::Element) {
                        Err(x) => Err(x),
                        Ok((es, rs)) => Ok((Expr { kind: ExprKind::ContainerLit { class: key, is_array, elems: es }, line, col }, rs)),
                    };
                },
                None => {},
            }
        },
        ExprKind::Call { name, args } => {
            assert(e@.kind == ExprKindV::Call { name: name@, args: exprs_v(args@) });
            let from_context = match container_want(want) {
                Some((base, _)) => str_eq(name.as_str(), base.as_str()),
                None => false,
            };
            if from_context {
                let (key, ps) = match context_ctor(&t.classes, name.as_str(), want, args.len(), line, col) {
                    Ok(v) => v,
                    Err(x) => return Err(x),
                };
                return match expect_list(t, p, args, &ps, &Mismatch::CtorArg(key.clone())) {
                    Err(x) => Err(x),
                    Ok((es, rs)) => Ok((Expr { kind: ExprKind::New { class: key, args: es }, line, col }, rs)),
                };
            }
            let names = template_name_list(&t.fn_templates);
            if crate::reach::has_name(&names, name.as_str()) {
                let (x, xt, rs) = match lower_generic(t, p, name.as_str(), None, args, Some(want), line, col) {
                    Ok(v) => v,
                    Err(x) => return Err(x),
                };
                return coerce_or(m, want, x, xt, rs);
            }
        },
        ExprKind::IntrinsicCall { name, args } => {
            assert(e@.kind == ExprKindV::IntrinsicCall { name: name@, args: exprs_v(args@) });
            if str_eq(name.as_str(), "buf_alloc") {
                let elem = match buf_alloc_elem(p.from_std, t.allow_intrinsics, want, args.len(), line, col) {
                    Ok(v) => v,
                    Err(x) => return Err(x),
                };
                proof {
                    lemma_surface_all_each(exprs_v(args@), args@.len(), 0);
                }
                assert(exprs_v(args@)[0] == args@[0]@);
                assert(decreases_to!(e => args@[0]));
                let (size, rs) = match expect(t, p, &args[0], &Type::named("Integer"), &Mismatch::Capacity) {
                    Ok(v) => v,
                    Err(x) => return Err(x),
                };
                return Ok((Expr { kind: ExprKind::BufAlloc { elem, size: Box::new(size) }, line, col }, rs));
            }
        },
        _ => {},
    }
    let (x, xt, rs) = match lower_expr(t, p, e) {
        Ok(v) => v,
        Err(x) => return Err(x),
    };
    coerce_or(m, want, x, xt, rs)
}

/// Inference over the arguments of a generic call (see [`infer_args_spec`]).
fn infer_args(
    t: &Tables,
    p: &Place,
    name: &str,
    tparams: &Vec<String>,
    ptys: &Vec<Type>,
    args: &Vec<Expr>,
    bindings: &mut Vec<(String, Type)>,
) -> (r: Result<(Vec<Option<(Expr, Type)>>, Vec<Inst>), JimError>)
    requires
        surface_all(exprs_v(args@), args@.len()),
        ptys@.len() == args@.len(),
    ensures
        match infer_args_spec(*t, p@, name@, names_v(tparams@), types_v(ptys@), exprs_v(args@), bindings_view(old(bindings)@), args@.len()) {
            Ok((pre, b, rs)) => r matches Ok((v, reqs)) && pre_v(v@) == pre && bindings_view(final(bindings)@) == b && insts_v(reqs@) == rs,
            Err(x) => r matches Err(y) && y@ == x,
        },
    decreases args, 0nat,
{
    let ghost ev = exprs_v(args@);
    let ghost tp = names_v(tparams@);
    let ghost pv = types_v(ptys@);
    let ghost b0 = bindings_view(bindings@);
    proof {
        lemma_names_view(tparams@);
    }
    let mut pre: Vec<Option<(Expr, Type)>> = Vec::new();
    let mut reqs: Vec<Inst> = Vec::new();
    let mut i: usize = 0;
    assert(pre_v(pre@) =~= Seq::<Option<(ExprV, TypeV)>>::empty());
    assert(insts_v(reqs@) =~= Seq::<InstV>::empty());
    while i < args.len()
        invariant
            i <= args@.len(),
            ptys@.len() == args@.len(),
            ev == exprs_v(args@),
            tp == names_v(tparams@),
            tp == names_view(tparams@),
            pv == types_v(ptys@),
            b0 == bindings_view(old(bindings)@),
            surface_all(ev, args@.len()),
            infer_args_spec(*t, p@, name@, tp, pv, ev, b0, i as nat)
                == Ok::<(Seq<Option<(ExprV, TypeV)>>, BindingsV, Seq<InstV>), JimErrorV>((pre_v(pre@), bindings_view(bindings@), insts_v(reqs@))),
        decreases args@.len() - i,
    {
        proof {
            lemma_surface_all_each(ev, args@.len(), i as int);
        }
        assert(ev[i as int] == args@[i as int]@);
        assert(pv[i as int] == ptys@[i as int]@);
        let ghost p0 = pre_v(pre@);
        if mentions_unbound(&ptys[i], tparams.as_slice(), bindings.as_slice()) {
            assert(decreases_to!(args => args@[i as int]));
            let (x, xt, r) = match lower_expr(t, p, &args[i]) {
                Ok(v) => v,
                Err(y) => {
                    proof {
                        lemma_infer_args_err(*t, p@, name@, tp, pv, ev, b0, (i + 1) as nat, args@.len());
                    }
                    return Err(y);
                },
            };
            if !unify(&ptys[i], &xt, tparams.as_slice(), bindings) {
                let pair = (x, xt);
                let err = infer_mismatch(name, &ptys[i], &pair);
                proof {
                    lemma_infer_args_err(*t, p@, name@, tp, pv, ev, b0, (i + 1) as nat, args@.len());
                }
                return Err(err);
            }
            let ghost xv = (x@, xt@);
            pre.push(Some((x, xt)));
            assert(pre_v(pre@) =~= p0.push(Some(xv)));
            append_insts(&mut reqs, r);
        } else {
            pre.push(None);
            assert(pre_v(pre@) =~= p0.push(None));
        }
        i += 1;
    }
    Ok((pre, reqs))
}

/// The arguments of a generic call against their substituted parameter
/// types (see [`final_args_spec`]).
fn final_args(
    t: &Tables,
    p: &Place,
    name: &str,
    ptys: &Vec<Type>,
    ordered: &Vec<(String, Type)>,
    args: &Vec<Expr>,
    pre: Vec<Option<(Expr, Type)>>,
) -> (r: Result<(Vec<Expr>, Vec<Inst>), JimError>)
    requires
        surface_all(exprs_v(args@), args@.len()),
        ptys@.len() == args@.len(),
        pre@.len() == args@.len(),
    ensures
        list_v(r) == final_args_spec(*t, p@, name@, types_v(ptys@), bindings_view(ordered@), exprs_v(args@), pre_v(pre@), args@.len()),
    decreases args, 0nat,
{
    let ghost ev = exprs_v(args@);
    let ghost pv = types_v(ptys@);
    let ghost ov = bindings_view(ordered@);
    let ghost prv = pre_v(pre@);
    let n = args.len();
    let mut rest = pre;
    let mut out: Vec<Expr> = Vec::new();
    let mut reqs: Vec<Inst> = Vec::new();
    let mut i: usize = 0;
    assert(exprs_v(out@) =~= Seq::<ExprV>::empty());
    assert(insts_v(reqs@) =~= Seq::<InstV>::empty());
    let mut nm = lit_string(name);
    while i < n
        invariant
            n == args@.len(),
            i <= n,
            ptys@.len() == n,
            ev == exprs_v(args@),
            pv == types_v(ptys@),
            ov == bindings_view(ordered@),
            prv.len() == n,
            prv == pre_v(pre@),
            nm@ == name@,
            rest@.len() == n - i,
            forall|j: int| 0 <= j < n - i ==> #[trigger] pre_v(rest@)[j] == prv[j + i],
            surface_all(ev, n as nat),
            final_args_spec(*t, p@, name@, pv, ov, ev, prv, i as nat) == Ok::<(Seq<ExprV>, Seq<InstV>), JimErrorV>((exprs_v(out@), insts_v(reqs@))),
        decreases n - i,
    {
        proof {
            lemma_surface_all_each(ev, n as nat, i as int);
        }
        assert(ev[i as int] == args@[i as int]@);
        assert(pv[i as int] == ptys@[i as int]@);
        let want = subst_type(&ptys[i], ordered.as_slice());
        let ghost before = rest@;
        assert(pre_v(before)[0] == prv[i as int]);
        let item = rest.remove(0);
        assert(rest@ =~= before.remove(0));
        assert forall|j: int| 0 <= j < n - i - 1 implies #[trigger] pre_v(rest@)[j] == prv[j + i + 1] by {
            assert(rest@[j] == before[j + 1]);
            assert(pre_v(before)[j + 1] == prv[j + 1 + i]);
        }
        let ghost o0 = exprs_v(out@);
        match item {
            Some(pair) => {
                match final_arg(name, &want, pair) {
                    Ok(x) => {
                        let ghost xv = x@;
                        out.push(x);
                        assert(exprs_v(out@) =~= o0.push(xv));
                    },
                    Err(y) => {
                        proof {
                            lemma_final_args_err(*t, p@, name@, pv, ov, ev, prv, (i + 1) as nat, n as nat);
                        }
                        return Err(y);
                    },
                }
            },
            None => {
                assert(decreases_to!(args => args@[i as int]));
                match expect(t, p, &args[i], &want, &Mismatch::CallArg(nm.clone())) {
                    Ok((x, r)) => {
                        let ghost xv = x@;
                        out.push(x);
                        assert(exprs_v(out@) =~= o0.push(xv));
                        append_insts(&mut reqs, r);
                    },
                    Err(y) => {
                        proof {
                            lemma_final_args_err(*t, p@, name@, pv, ov, ev, prv, (i + 1) as nat, n as nat);
                        }
                        return Err(y);
                    },
                }
            },
        }
        i += 1;
    }
    Ok((out, reqs))
}

/// A call of the generic function `name` (see [`generic_spec`]).
pub fn lower_generic(
    t: &Tables,
    p: &Place,
    name: &str,
    explicit: Option<&Vec<Type>>,
    args: &Vec<Expr>,
    want: Option<&Type>,
    line: u32,
    col: u32,
) -> (r: Result<(Expr, Type, Vec<Inst>), JimError>)
    requires
        surface_all(exprs_v(args@), args@.len()),
    ensures
        lowered_v(r) == generic_spec(*t, p@, name@, opt_types_ref_v(explicit), exprs_v(args@), opt_type_ref_v(want), line, col),
    decreases args, 1nat,
{
    let ti = match find_template_idx(&t.fn_templates, name) {
        Some(i) => i,
        None => return Err(JimError::new(String::new(), line, col)),
    };
    let tmpl = &t.fn_templates[ti];
    let ptys = param_type_list(&tmpl.params);
    match check_generic_arity(name, ptys.len(), args.len(), line, col) {
        Ok(()) => {},
        Err(x) => return Err(x),
    }
    let mut bindings: Vec<(String, Type)> = match explicit {
        Some(ta) => match explicit_bindings(&t.known, name, &tmpl.type_params, ta, line, col) {
            Ok(b) => b,
            Err(x) => return Err(x),
        },
        None => {
            let b: Vec<(String, Type)> = Vec::new();
            assert(bindings_view(b@) =~= Seq::<(Seq<char>, TypeV)>::empty());
            b
        },
    };
    assert(types_v(ptys@).len() == ptys@.len());
    let ghost bb = bindings_view(bindings@);
    let (pre, mut reqs) = match infer_args(t, p, name, &tmpl.type_params, &ptys, args, &mut bindings) {
        Ok(v) => v,
        Err(x) => return Err(x),
    };
    proof {
        lemma_infer_len(*t, p@, name@, names_v(tmpl.type_params@), types_v(ptys@), exprs_v(args@), bb, args@.len());
    }
    proof {
        lemma_names_view(tmpl.type_params@);
    }
    match want {
        Some(w) => unify_soft(&tmpl.ret, w, tmpl.type_params.as_slice(), &mut bindings),
        None => {},
    }
    let missing = unbound_params(&tmpl.type_params, &bindings);
    if missing.len() != 0 {
        return Err(JimError::new(cannot_infer_message(name, &missing), line, col));
    }
    let ordered = ordered_bindings(&tmpl.type_params, &bindings);
    let key = instance_key(name, &ordered);
    let (es, reqs2) = match final_args(t, p, name, &ptys, &ordered, args, pre) {
        Ok(v) => v,
        Err(x) => return Err(x),
    };
    let result_ty = subst_type(&tmpl.ret, ordered.as_slice());
    let inst = Inst { template: lit_string(name), bindings: copy_bindings(&ordered), key: key.clone() };
    let ghost r0 = insts_v(reqs@);
    let ghost iv = inst@;
    reqs.push(inst);
    assert(insts_v(reqs@) =~= r0.push(iv));
    append_insts(&mut reqs, reqs2);
    Ok((Expr { kind: ExprKind::Call { name: key, args: es }, line, col }, result_ty, reqs))
}

} // verus!
