//! What typing an expression means: the rules by which a body's
//! expressions get their types and their lowered form (operators as method
//! calls, optionals wrapped and unwrapped explicitly, generic calls under
//! their instance keys), and which instances of generic functions they ask
//! for, in order.

use vstd::prelude::*;
use crate::ast::{BinOp, ExprKindV, ExprV, FunctionDecl, Type, TypeV, UnOp, display_spec, params_v};
use crate::calls::{OriginV, core_call_spec, err_v, logic_operand_spec, method_params_spec, none_side_spec, none_test_spec, not_spec, deref_spec, operands_binary_spec, resolve_field_spec, none_for_spec, container_protocol_spec, context_ctor_spec, buf_alloc_spec};
use crate::errors::JimErrorV;
use crate::generate_spec::param_types;
use crate::generic_calls::{explicit_spec, final_arg_spec, infer_mismatch_msg, instance_key_spec, ordered_spec, unbound, cannot_infer_msg, generic_arity_error};
use crate::leaves::{CallTargetV, call_target_spec, intrinsic_target_spec, intrinsic_arg_spec, leaf_spec, type_args_error, FuncSig};
use crate::sema::{BindingsV, Env, mentions_unbound_spec, subst_spec, unify_spec, unify_soft_spec};
use crate::typing::{ClassInfo, coerce_spec, deopt_spec};

verus! {

/// A request for an instance of a generic function: the template, its
/// bindings in declaration order, and the instance key.
pub struct InstV {
    pub template: Seq<char>,
    pub bindings: BindingsV,
    pub key: Seq<char>,
}

/// The tables a body is typed against.
pub struct Tables {
    /// The names a written type may use (class-table keys).
    pub known: Vec<String>,
    /// The class table.
    pub classes: Vec<(String, ClassInfo)>,
    /// The non-generic functions.
    pub funcs: Vec<(String, FuncSig)>,
    /// The generic functions.
    pub fn_templates: Vec<FunctionDecl>,
    /// The names of the class templates (`Array`, `Vector`).
    pub class_templates: Vec<String>,
    pub allow_intrinsics: bool,
}

/// Where a body is typed: its variables, its class (and `this`'s type),
/// and whether it comes from the standard library.
pub struct Place {
    pub env: Env,
    pub current: Option<String>,
    pub this_ty: Option<Type>,
    pub from_std: bool,
}

/// A [`Place`] as values.
pub struct PlaceV {
    pub scopes: Seq<crate::sema::ScopeV>,
    pub current: Option<Seq<char>>,
    pub this_ty: Option<TypeV>,
    pub from_std: bool,
}

impl View for Place {
    type V = PlaceV;

    open spec fn view(&self) -> PlaceV {
        PlaceV {
            scopes: self.env.view_scopes(),
            current: opt_string_v(self.current),
            this_ty: opt_type_v(self.this_ty),
            from_std: self.from_std,
        }
    }
}

/// How a value that does not fit its expected type is reported.
pub enum MismatchV {
    CallArg(Seq<char>),
    CtorArg(Seq<char>),
    MethodArg(Seq<char>),
    Index,
    Element,
    Capacity,
    VarInit(Seq<char>),
    VarAssign(Seq<char>),
    ElemAssign,
    FieldAssign(Seq<char>),
    PointerAssign,
    Return(Seq<char>),
    FieldDefault(Seq<char>),
}

pub open spec fn mismatch_msg(m: MismatchV, want: Seq<char>, got: Seq<char>) -> Seq<char> {
    match m {
        MismatchV::CallArg(n) => "argument type mismatch in call to '"@ + n + "': expected "@ + want + ", found "@ + got,
        MismatchV::CtorArg(n) => "argument type mismatch in constructor '"@ + n + "': expected "@ + want + ", found "@ + got,
        MismatchV::MethodArg(n) => "argument type mismatch in '"@ + n + "': expected "@ + want + ", found "@ + got,
        MismatchV::Index => "index must be "@ + want + ", found "@ + got,
        MismatchV::Element => "literal element: expected "@ + want + ", found "@ + got,
        MismatchV::Capacity => "'@buf_alloc' capacity: expected "@ + want + ", found "@ + got,
        MismatchV::VarInit(n) => "type mismatch: '"@ + n + "' is declared "@ + want + " but initialized with "@ + got,
        MismatchV::VarAssign(n) => "type mismatch: '"@ + n + "' is "@ + want + " but the assigned value is "@ + got,
        MismatchV::ElemAssign => "type mismatch: the element type is "@ + want + " but the assigned value is "@ + got,
        MismatchV::FieldAssign(n) => "type mismatch: field '"@ + n + "' is "@ + want + " but the assigned value is "@ + got,
        MismatchV::PointerAssign => "type mismatch: the pointer targets "@ + want + " but the assigned value is "@ + got,
        MismatchV::Return(n) => "return type mismatch: '"@ + n + "' returns "@ + want + " but this returns "@ + got,
        MismatchV::FieldDefault(n) => "field '"@ + n + "' is declared "@ + want + " but its default value is "@ + got,
    }
}

pub open spec fn opt_string_v(o: Option<String>) -> Option<Seq<char>> {
    match o {
        Some(s) => Some(s@),
        None => None,
    }
}

pub open spec fn opt_type_v(o: Option<Type>) -> Option<TypeV> {
    match o {
        Some(t) => Some(t@),
        None => None,
    }
}

pub open spec fn template_names(fts: Seq<FunctionDecl>) -> Seq<Seq<char>> {
    Seq::new(fts.len(), |i: int| fts[i].name@)
}

/// The first generic function named `name`.
pub open spec fn find_template(fts: Seq<FunctionDecl>, name: Seq<char>) -> Option<FunctionDecl>
    decreases fts.len(),
{
    if fts.len() == 0 {
        None
    } else if fts[0].name@ == name {
        Some(fts[0])
    } else {
        find_template(fts.drop_first(), name)
    }
}

/// Forms the parser produces: none of the nodes that only typing makes.
pub open spec fn surface(e: ExprV) -> bool
    decreases e, 0nat,
{
    match e.kind {
        ExprKindV::ArrayLit(es) => surface_all(es, es.len()),
        ExprKindV::Call { args, .. } => surface_all(args, args.len()),
        ExprKindV::GenericCall { args, .. } => surface_all(args, args.len()),
        ExprKindV::MethodCall { recv, args, .. } => surface(*recv) && surface_all(args, args.len()),
        ExprKindV::IntrinsicCall { args, .. } => surface_all(args, args.len()),
        ExprKindV::FieldAccess { recv, .. } => surface(*recv),
        ExprKindV::Index { recv, index } => surface(*recv) && surface(*index),
        ExprKindV::Binary { lhs, rhs, .. } => surface(*lhs) && surface(*rhs),
        ExprKindV::Unary { operand, .. } => surface(*operand),
        ExprKindV::CoreMethodCall { .. } => false,
        ExprKindV::OptWrap { .. } => false,
        ExprKindV::OptUnwrap { .. } => false,
        ExprKindV::OptNone { .. } => false,
        ExprKindV::OptHas { .. } => false,
        ExprKindV::New { .. } => false,
        ExprKindV::ContainerLit { .. } => false,
        ExprKindV::BufAlloc { .. } => false,
        _ => true,
    }
}

pub open spec fn surface_all(es: Seq<ExprV>, n: nat) -> bool
    decreases es, n,
{
    if n == 0 || n > es.len() {
        true
    } else {
        surface_all(es, (n - 1) as nat) && surface(es[n - 1])
    }
}

pub open spec fn neg_int(v: i64) -> i64 {
    if v == i64::MIN { v } else { (-v) as i64 }
}

/// The decimal text of a negated float literal.
pub open spec fn neg_float_text(s: Seq<char>) -> Seq<char> {
    if s.len() > 0 && s[0] == '-' { s.skip(1) } else { seq!['-'] + s }
}

pub open spec fn bool_t() -> TypeV {
    TypeV::Named("Bool"@)
}

pub open spec fn int_t() -> TypeV {
    TypeV::Named("Integer"@)
}

/// A binary operator: `and`/`or` on Bools natively, `== None`/`!= None` as
/// presence tests, everything else as its method call (see
/// [`crate::calls::operands_binary_spec`]).
pub open spec fn binary_spec(t: Tables, p: PlaceV, e: ExprV) -> Result<(ExprV, TypeV, Seq<InstV>), JimErrorV>
    decreases e, 0nat,
{
    match e.kind {
        ExprKindV::Binary { op, lhs, rhs } => {
            let (line, col) = (e.line, e.col);
            if op == BinOp::And || op == BinOp::Or {
                let word = if op == BinOp::And { "and"@ } else { "or"@ };
                match lower_spec(t, p, *lhs) {
                    Err(x) => Err(x),
                    Ok((le, lt, lr)) => match logic_operand_spec(word, (le, lt)) {
                        Err(x) => Err(x),
                        Ok(l) => match lower_spec(t, p, *rhs) {
                            Err(x) => Err(x),
                            Ok((re, rt, rr)) => match logic_operand_spec(word, (re, rt)) {
                                Err(x) => Err(x),
                                Ok(r) => Ok((ExprV { kind: ExprKindV::Binary { op, lhs: Box::new(l), rhs: Box::new(r) }, line, col }, bool_t(), lr + rr)),
                            },
                        },
                    },
                }
            } else {
                match none_side_spec(op, *lhs, *rhs, line, col) {
                    Err(x) => Err(x),
                    Ok(Some(left_none)) => {
                        let value = if left_none { *rhs } else { *lhs };
                        match lower_spec(t, p, value) {
                            Err(x) => Err(x),
                            Ok((ve, vt, vr)) => match none_test_spec(op, (ve, vt), line, col) {
                                Err(x) => Err(x),
                                Ok((x, xt)) => Ok((x, xt, vr)),
                            },
                        }
                    },
                    Ok(None) => match lower_spec(t, p, *lhs) {
                        Err(x) => Err(x),
                        Ok((le, lt, lr)) => match lower_spec(t, p, *rhs) {
                            Err(x) => Err(x),
                            Ok((re, rt, rr)) => match operands_binary_spec(t.classes@, p.current, op, (le, lt), (re, rt), line, col) {
                                Err(x) => Err(x),
                                Ok((x, xt)) => Ok((x, xt, lr + rr)),
                            },
                        },
                    },
                }
            }
        },
        _ => Err(err_v(Seq::empty(), e.line, e.col)),
    }
}

/// The type and lowered form of an expression, with the generic instances
/// it asks for.
pub open spec fn lower_spec(t: Tables, p: PlaceV, e: ExprV) -> Result<(ExprV, TypeV, Seq<InstV>), JimErrorV>
    decreases e, 1nat,
{
    let (line, col) = (e.line, e.col);
    match leaf_spec(p.scopes, t.classes@, p.current, p.this_ty, e) {
        Some(r) => match r {
            Ok((x, xt)) => Ok((x, xt, Seq::empty())),
            Err(x) => Err(x),
        },
        None => match e.kind {
            ExprKindV::Call { name, args } => match call_target_spec(t.classes@, t.funcs@, template_names(t.fn_templates@), name, args.len(), line, col) {
                Err(x) => Err(x),
                Ok(CallTargetV::New { class, params }) => match expect_list_spec(t, p, args, params, MismatchV::CtorArg(name), args.len()) {
                    Err(x) => Err(x),
                    Ok((es, rs)) => Ok((ExprV { kind: ExprKindV::New { class, args: es }, line, col }, TypeV::Named(name), rs)),
                },
                Ok(CallTargetV::Generic) => generic_spec(t, p, name, None, args, None, line, col),
                Ok(CallTargetV::Plain { params, ret }) => match expect_list_spec(t, p, args, params, MismatchV::CallArg(name), args.len()) {
                    Err(x) => Err(x),
                    Ok((es, rs)) => Ok((ExprV { kind: ExprKindV::Call { name, args: es }, line, col }, ret, rs)),
                },
            },
            ExprKindV::IntrinsicCall { name, args } => match intrinsic_target_spec(p.from_std, t.allow_intrinsics, name, args.len(), line, col) {
                Err(x) => Err(x),
                Ok((ps, ret)) => match intrinsic_args_spec(t, p, name, args, ps, args.len()) {
                    Err(x) => Err(x),
                    Ok((es, rs)) => Ok((ExprV { kind: ExprKindV::IntrinsicCall { name, args: es }, line, col }, ret, rs)),
                },
            },
            ExprKindV::MethodCall { recv, name, args } => match lower_spec(t, p, *recv) {
                Err(x) => Err(x),
                Ok((re0, rt0, rr)) => {
                    let (re, rt) = deopt_spec(re0, rt0);
                    let typed_args = match method_params_spec(t.classes@, rt, name) {
                        Some(ps) if ps.len() == args.len() => match expect_list_spec(t, p, args, ps, MismatchV::MethodArg(name), args.len()) {
                            Err(x) => Err(x),
                            Ok((es, rs)) => Ok((Seq::new(es.len(), |i: int| (es[i], ps[i])), rs)),
                        },
                        _ => lower_list_spec(t, p, args, args.len()),
                    };
                    match typed_args {
                        Err(x) => Err(x),
                        Ok((pairs, ars)) => match core_call_spec(t.classes@, p.current, rt, name, re, pairs, line, col, OriginV::Plain) {
                            Err(x) => Err(x),
                            Ok((x, xt)) => Ok((x, xt, rr + ars)),
                        },
                    }
                },
            },
            ExprKindV::GenericCall { name, type_args, args } => if template_names(t.fn_templates@).contains(name) {
                generic_spec(t, p, name, Some(type_args), args, None, line, col)
            } else {
                Err(err_v(type_args_error(t.funcs@, t.classes@, crate::ast::names_v(t.class_templates@), p.scopes, name), line, col))
            },
            ExprKindV::FieldAccess { recv, name } => match lower_spec(t, p, *recv) {
                Err(x) => Err(x),
                Ok((re0, rt0, rr)) => {
                    let (re, rt) = deopt_spec(re0, rt0);
                    match resolve_field_spec(t.classes@, p.current, rt, name, line, col) {
                        Err(x) => Err(x),
                        Ok((_, ft)) => Ok((ExprV { kind: ExprKindV::FieldAccess { recv: Box::new(re), name }, line, col }, ft, rr)),
                    }
                },
            },
            ExprKindV::Index { recv, index } => match lower_spec(t, p, *recv) {
                Err(x) => Err(x),
                Ok((re0, rt0, rr)) => {
                    let (re, rt) = deopt_spec(re0, rt0);
                    match expect_spec(t, p, *index, int_t(), MismatchV::Index) {
                        Err(x) => Err(x),
                        Ok((ie, ir)) => match core_call_spec(t.classes@, p.current, rt, "get"@, re, seq![(ie, int_t())], line, col, OriginV::Operator("indexing '[...]'"@)) {
                            Err(x) => Err(x),
                            Ok((x, xt)) => Ok((x, xt, rr + ir)),
                        },
                    }
                },
            },
            ExprKindV::Binary { .. } => binary_spec(t, p, e),
            ExprKindV::Unary { op, operand } => if op == UnOp::Not {
                match lower_spec(t, p, *operand) {
                    Err(x) => Err(x),
                    Ok((oe, ot, r)) => match not_spec((oe, ot), line, col) {
                        Err(x) => Err(x),
                        Ok((x, xt)) => Ok((x, xt, r)),
                    },
                }
            } else if op == UnOp::Neg {
                match operand.kind {
                    ExprKindV::Int(v) => Ok((ExprV { kind: ExprKindV::Int(neg_int(v)), line, col }, int_t(), Seq::empty())),
                    ExprKindV::Float(s) => Ok((ExprV { kind: ExprKindV::Float(neg_float_text(s)), line, col }, TypeV::Named("Float"@), Seq::empty())),
                    _ => match lower_spec(t, p, *operand) {
                        Err(x) => Err(x),
                        Ok((oe0, ot0, r)) => {
                            let (oe, ot) = deopt_spec(oe0, ot0);
                            match core_call_spec(t.classes@, p.current, ot, "negate"@, oe, Seq::empty(), line, col, OriginV::Operator("unary '-'"@)) {
                                Err(x) => Err(x),
                                Ok((x, xt)) => Ok((x, xt, r)),
                            }
                        },
                    },
                }
            } else {
                match lower_spec(t, p, *operand) {
                    Err(x) => Err(x),
                    Ok((oe, ot, r)) => match deref_spec((oe, ot), line, col) {
                        Err(x) => Err(x),
                        Ok((x, xt)) => Ok((x, xt, r)),
                    },
                }
            },
            _ => Err(err_v(Seq::empty(), line, col)),
        },
    }
}

/// An expression where a value of type `want` is expected: `None`,
/// container literals, `Array(n)`/`Vector()`, `@buf_alloc(n)` and generic
/// calls take their type from it; anything else must coerce to it.
pub open spec fn expect_spec(t: Tables, p: PlaceV, e: ExprV, want: TypeV, m: MismatchV) -> Result<(ExprV, Seq<InstV>), JimErrorV>
    decreases e, 2nat,
{
    let (line, col) = (e.line, e.col);
    match e.kind {
        ExprKindV::NoneLit => match none_for_spec(want, line, col) {
            Err(x) => Err(x),
            Ok(x) => Ok((x, Seq::empty())),
        },
        ExprKindV::ArrayLit(elems) if want is Generic && (want->Generic_0 == "Array"@ || want->Generic_0 == "Vector"@) => {
            let payload = *want->Generic_1;
            match container_protocol_spec(t.classes@, want->Generic_0, payload, line, col) {
                Err(x) => Err(x),
                Ok((key, is_array)) => match expect_list_spec(t, p, elems, Seq::new(elems.len(), |i: int| payload), MismatchV::Element, elems.len()) {
                    Err(x) => Err(x),
                    Ok((es, rs)) => Ok((ExprV { kind: ExprKindV::ContainerLit { class: key, is_array, elems: es }, line, col }, rs)),
                },
            }
        },
        ExprKindV::Call { name, args } if want is Generic && name == want->Generic_0 && (name == "Array"@ || name == "Vector"@) =>
            match context_ctor_spec(t.classes@, name, want, args.len(), line, col) {
                Err(x) => Err(x),
                Ok((key, ps)) => match expect_list_spec(t, p, args, ps, MismatchV::CtorArg(key), args.len()) {
                    Err(x) => Err(x),
                    Ok((es, rs)) => Ok((ExprV { kind: ExprKindV::New { class: key, args: es }, line, col }, rs)),
                },
            },
        ExprKindV::IntrinsicCall { name, args } if name == "buf_alloc"@ =>
            match buf_alloc_spec(p.from_std, t.allow_intrinsics, want, args.len(), line, col) {
                Err(x) => Err(x),
                Ok(elem) => match expect_spec(t, p, args[0], int_t(), MismatchV::Capacity) {
                    Err(x) => Err(x),
                    Ok((size, rs)) => Ok((ExprV { kind: ExprKindV::BufAlloc { elem, size: Box::new(size) }, line, col }, rs)),
                },
            },
        ExprKindV::Call { name, args } if template_names(t.fn_templates@).contains(name) =>
            match generic_spec(t, p, name, None, args, Some(want), line, col) {
                Err(x) => Err(x),
                Ok((x, xt, rs)) => match coerce_spec(x, xt, want) {
                    Some(c) => Ok((c, rs)),
                    None => Err(err_v(mismatch_msg(m, display_spec(want), display_spec(xt)), x.line, x.col)),
                },
            },
        _ => match lower_spec(t, p, e) {
            Err(x) => Err(x),
            Ok((x, xt, rs)) => match coerce_spec(x, xt, want) {
                Some(c) => Ok((c, rs)),
                None => Err(err_v(mismatch_msg(m, display_spec(want), display_spec(xt)), x.line, x.col)),
            },
        },
    }
}

/// The first `n` expressions typed in order.
pub open spec fn lower_list_spec(t: Tables, p: PlaceV, es: Seq<ExprV>, n: nat) -> Result<(Seq<(ExprV, TypeV)>, Seq<InstV>), JimErrorV>
    decreases es, n,
{
    if n == 0 || n > es.len() {
        Ok((Seq::empty(), Seq::empty()))
    } else {
        match lower_list_spec(t, p, es, (n - 1) as nat) {
            Err(x) => Err(x),
            Ok((xs, rs)) => match lower_spec(t, p, es[n - 1]) {
                Err(x) => Err(x),
                Ok((x, xt, r)) => Ok((xs.push((x, xt)), rs + r)),
            },
        }
    }
}

/// The first `n` expressions, each where its `wants` type is expected.
pub open spec fn expect_list_spec(t: Tables, p: PlaceV, es: Seq<ExprV>, wants: Seq<TypeV>, m: MismatchV, n: nat) -> Result<(Seq<ExprV>, Seq<InstV>), JimErrorV>
    decreases es, n,
{
    if n == 0 || n > es.len() {
        Ok((Seq::empty(), Seq::empty()))
    } else {
        match expect_list_spec(t, p, es, wants, m, (n - 1) as nat) {
            Err(x) => Err(x),
            Ok((xs, rs)) => match expect_spec(t, p, es[n - 1], wants[n - 1], m) {
                Err(x) => Err(x),
                Ok((x, r)) => Ok((xs.push(x), rs + r)),
            },
        }
    }
}

/// The first `n` arguments of `@name`, each typed and of exactly its
/// parameter's type.
pub open spec fn intrinsic_args_spec(t: Tables, p: PlaceV, name: Seq<char>, es: Seq<ExprV>, ps: Seq<TypeV>, n: nat) -> Result<(Seq<ExprV>, Seq<InstV>), JimErrorV>
    decreases es, n,
{
    if n == 0 || n > es.len() {
        Ok((Seq::empty(), Seq::empty()))
    } else {
        match intrinsic_args_spec(t, p, name, es, ps, (n - 1) as nat) {
            Err(x) => Err(x),
            Ok((xs, rs)) => match lower_spec(t, p, es[n - 1]) {
                Err(x) => Err(x),
                Ok((x, xt, r)) => match intrinsic_arg_spec(name, ps[n - 1], (x, xt)) {
                    Err(y) => Err(y),
                    Ok(y) => Ok((xs.push(y), rs + r)),
                },
            },
        }
    }
}

/// Inference over the first `n` arguments of a generic call: an argument
/// whose parameter type still mentions an unbound type parameter is typed
/// on its own and unified with it (binding what it can); the others wait.
pub open spec fn infer_args_spec(
    t: Tables,
    p: PlaceV,
    name: Seq<char>,
    tps: Seq<Seq<char>>,
    ptys: Seq<TypeV>,
    args: Seq<ExprV>,
    b0: BindingsV,
    n: nat,
) -> Result<(Seq<Option<(ExprV, TypeV)>>, BindingsV, Seq<InstV>), JimErrorV>
    decreases args, n,
{
    if n == 0 || n > args.len() {
        Ok((Seq::empty(), b0, Seq::empty()))
    } else {
        match infer_args_spec(t, p, name, tps, ptys, args, b0, (n - 1) as nat) {
            Err(x) => Err(x),
            Ok((pre, b, rs)) => if mentions_unbound_spec(ptys[n - 1], tps, b) {
                match lower_spec(t, p, args[n - 1]) {
                    Err(x) => Err(x),
                    Ok((x, xt, r)) => {
                        let (ok, b2) = unify_spec(ptys[n - 1], xt, tps, b);
                        if !ok {
                            Err(err_v(infer_mismatch_msg(name, ptys[n - 1], xt), x.line, x.col))
                        } else {
                            Ok((pre.push(Some((x, xt))), b2, rs + r))
                        }
                    },
                }
            } else {
                Ok((pre.push(None), b, rs))
            },
        }
    }
}

/// The first `n` arguments of a generic call against their substituted
/// parameter types: an argument typed during inference must coerce, the
/// others are typed where that type is expected.
pub open spec fn final_args_spec(
    t: Tables,
    p: PlaceV,
    name: Seq<char>,
    ptys: Seq<TypeV>,
    ordered: BindingsV,
    args: Seq<ExprV>,
    pre: Seq<Option<(ExprV, TypeV)>>,
    n: nat,
) -> Result<(Seq<ExprV>, Seq<InstV>), JimErrorV>
    decreases args, n,
{
    if n == 0 || n > args.len() {
        Ok((Seq::empty(), Seq::empty()))
    } else {
        match final_args_spec(t, p, name, ptys, ordered, args, pre, (n - 1) as nat) {
            Err(x) => Err(x),
            Ok((xs, rs)) => {
                let want = subst_spec(ptys[n - 1], ordered);
                match pre[n - 1] {
                    Some(pair) => match final_arg_spec(name, want, pair) {
                        Err(x) => Err(x),
                        Ok(x) => Ok((xs.push(x), rs)),
                    },
                    None => match expect_spec(t, p, args[n - 1], want, MismatchV::CallArg(name)) {
                        Err(x) => Err(x),
                        Ok((x, r)) => Ok((xs.push(x), rs + r)),
                    },
                }
            },
        }
    }
}

/// A call of the generic function `name`: type parameters bind from the
/// explicit type arguments, then from the arguments, then from the expected
/// type; all must end up bound. The call is emitted under the instance key,
/// whose instance is requested after those the inferring arguments ask for.
pub open spec fn generic_spec(
    t: Tables,
    p: PlaceV,
    name: Seq<char>,
    explicit: Option<Seq<TypeV>>,
    args: Seq<ExprV>,
    want: Option<TypeV>,
    line: u32,
    col: u32,
) -> Result<(ExprV, TypeV, Seq<InstV>), JimErrorV>
    decreases args, args.len() + 1,
{
    match find_template(t.fn_templates@, name) {
        None => Err(err_v(Seq::empty(), line, col)),
        Some(tmpl) => {
            let tps = crate::ast::names_v(tmpl.type_params@);
            let ptys = param_types(params_v(tmpl.params@));
            let ret = tmpl.ret@;
            match generic_arity_error(name, ptys.len(), args.len()) {
                Some(msg) => Err(err_v(msg, line, col)),
                None => {
                    let b0 = match explicit {
                        Some(ta) => explicit_spec(crate::ast::names_v(t.known@), name, tps, ta, line, col),
                        None => Ok(Seq::empty()),
                    };
                    match b0 {
                        Err(x) => Err(x),
                        Ok(b0) => match infer_args_spec(t, p, name, tps, ptys, args, b0, args.len()) {
                            Err(x) => Err(x),
                            Ok((pre, b1, rs1)) => {
                                let b2 = match want {
                                    Some(w) => unify_soft_spec(ret, w, tps, b1),
                                    None => b1,
                                };
                                let missing = unbound(tps, b2);
                                if missing.len() != 0 {
                                    Err(err_v(cannot_infer_msg(name, missing), line, col))
                                } else {
                                    let ordered = ordered_spec(tps, b2);
                                    let key = instance_key_spec(name, ordered);
                                    match final_args_spec(t, p, name, ptys, ordered, args, pre, args.len()) {
                                        Err(x) => Err(x),
                                        Ok((es, rs2)) => Ok((
                                            ExprV { kind: ExprKindV::Call { name: key, args: es }, line, col },
                                            subst_spec(ret, ordered),
                                            rs1.push(InstV { template: name, bindings: ordered, key }) + rs2,
                                        )),
                                    }
                                }
                            },
                        },
                    }
                },
            }
        },
    }
}

/// `x` is a binary expression with operator `op`.
pub open spec fn binary_op_is(x: ExprV, op: BinOp) -> bool {
    x.kind matches ExprKindV::Binary { op: o, .. } && o == op
}

/// `and` and `or` stay the same native operator once typed, with type Bool.
pub proof fn lemma_logic_stays(t: Tables, p: PlaceV, op: BinOp, a: ExprV, b: ExprV, line: u32, col: u32)
    requires
        op == BinOp::And || op == BinOp::Or,
    ensures
        binary_spec(t, p, ExprV { kind: ExprKindV::Binary { op, lhs: Box::new(a), rhs: Box::new(b) }, line, col })
            matches Ok((x, ty, _)) ==> (ty == bool_t() && binary_op_is(x, op)),
{
}

} // verus!
