//! What the optimizer does to a lowered program, stated over the AST's views:
//! forwarder inlining followed by constant folding, bottom-up.

use vstd::prelude::*;
use crate::ast::{
    BlockV, ClassDeclV, CtorDeclV, ExprKindV, ExprV, FieldDeclV, FunctionDeclV, MethodDeclV, ParamV,
    ProgramV, StmtKindV, StmtV, TypeV,
};
use crate::codegen_names::method_key_spec;
use crate::opt::{fold_arity, fold_spec};

verus! {

/// The forwarders of a program: function name, and `Class#method` key, to intrinsic.
pub struct FwV {
    pub fns: Seq<(Seq<char>, Seq<char>)>,
    pub methods: Seq<(Seq<char>, Seq<char>)>,
}

/// Look a key up; a later entry for the same key replaces an earlier one.
pub open spec fn fw_get(m: Seq<(Seq<char>, Seq<char>)>, k: Seq<char>) -> Option<Seq<char>>
    decreases m.len(),
{
    if m.len() == 0 {
        None
    } else if m.last().0 == k {
        Some(m.last().1)
    } else {
        fw_get(m.drop_last(), k)
    }
}

/// The call that a single-statement body makes, if it is a returned
/// expression (or, for a `-> None` body, a bare expression statement).
pub open spec fn forwarded_call(ret: TypeV, body: BlockV) -> Option<ExprV> {
    if body.stmts.len() != 1 {
        None
    } else {
        match body.stmts[0].kind {
            StmtKindV::Return(Some(e)) => Some(e),
            StmtKindV::ExprStmt(e) => if ret == TypeV::Named("None"@) { Some(e) } else { None },
            _ => None,
        }
    }
}

/// Do the arguments hand over `this` (for a method) and then the
/// parameters, in declaration order?
pub open spec fn forwards_params(params: Seq<ParamV>, args: Seq<ExprV>, is_method: bool) -> bool {
    let shift: int = if is_method { 1 } else { 0 };
    &&& args.len() == params.len() + shift
    &&& (is_method ==> args[0].kind == ExprKindV::This)
    &&& forall|i: int| 0 <= i < params.len() ==> #[trigger] passes_param(params, args, is_method, i)
}

/// The argument that stands for parameter `i` (after `this`, for a method) names it.
pub open spec fn passes_param(params: Seq<ParamV>, args: Seq<ExprV>, is_method: bool, i: int) -> bool {
    let shift: int = if is_method { 1 } else { 0 };
    args[i + shift].kind == ExprKindV::Ident(params[i].name)
}

/// A body that is nothing but a call of one intrinsic (other than `@panic`)
/// on exactly its parameters: the intrinsic's name.
pub open spec fn forwarder_spec(params: Seq<ParamV>, ret: TypeV, body: BlockV, is_method: bool) -> Option<Seq<char>> {
    match forwarded_call(ret, body) {
        Some(c) => match c.kind {
            ExprKindV::IntrinsicCall { name, args } => {
                if name != "panic"@ && forwards_params(params, args, is_method) {
                    Some(name)
                } else {
                    None
                }
            },
            _ => None,
        },
        None => None,
    }
}

/// Forwarding functions (never `main`), in program order.
pub open spec fn fw_fns(fs: Seq<FunctionDeclV>) -> Seq<(Seq<char>, Seq<char>)>
    decreases fs.len(),
{
    if fs.len() == 0 {
        Seq::empty()
    } else {
        let rest = fw_fns(fs.drop_last());
        let f = fs.last();
        match forwarder_spec(f.params, f.ret, f.body, false) {
            Some(i) => if f.name != "main"@ { rest.push((f.name, i)) } else { rest },
            None => rest,
        }
    }
}

/// Forwarding methods of one class, in declaration order.
pub open spec fn fw_class_methods(class: Seq<char>, ms: Seq<MethodDeclV>) -> Seq<(Seq<char>, Seq<char>)>
    decreases ms.len(),
{
    if ms.len() == 0 {
        Seq::empty()
    } else {
        let rest = fw_class_methods(class, ms.drop_last());
        let m = ms.last();
        match forwarder_spec(m.params, m.ret, m.body, true) {
            Some(i) => rest.push((method_key_spec(class, m.name), i)),
            None => rest,
        }
    }
}

/// Forwarding methods of every class but the built-in `RawBuffer` ones.
pub open spec fn fw_methods(cs: Seq<ClassDeclV>) -> Seq<(Seq<char>, Seq<char>)>
    decreases cs.len(),
{
    if cs.len() == 0 {
        Seq::empty()
    } else {
        let rest = fw_methods(cs.drop_last());
        let c = cs.last();
        if "RawBuffer"@.is_prefix_of(c.name) {
            rest
        } else {
            rest + fw_class_methods(c.name, c.methods)
        }
    }
}

pub open spec fn forwarders_of(p: ProgramV) -> FwV {
    FwV { fns: fw_fns(p.functions), methods: fw_methods(p.classes) }
}

/// Folding, where the intrinsic has the arguments it reads.
pub open spec fn fold_guarded(name: Seq<char>, args: Seq<ExprV>) -> Option<ExprKindV> {
    if args.len() >= fold_arity(name) { fold_spec(name, args) } else { None }
}

/// A call of a forwarder becomes a call of its intrinsic.
pub open spec fn inline_kind(k: ExprKindV, fw: FwV) -> ExprKindV {
    match k {
        ExprKindV::Call { name, args } => match fw_get(fw.fns, name) {
            Some(i) => ExprKindV::IntrinsicCall { name: i, args },
            None => k,
        },
        ExprKindV::CoreMethodCall { class, name, recv, args } => match fw_get(fw.methods, method_key_spec(class, name)) {
            Some(i) => ExprKindV::IntrinsicCall { name: i, args: seq![*recv] + args },
            None => k,
        },
        _ => k,
    }
}

/// An intrinsic call over literals becomes the literal it computes.
pub open spec fn fold_kind(k: ExprKindV) -> ExprKindV {
    match k {
        ExprKindV::IntrinsicCall { name, args } => match fold_guarded(name, args) {
            Some(f) => f,
            None => k,
        },
        _ => k,
    }
}

/// The expression's kind with each child expression rewritten.
pub open spec fn rw_children(fw: FwV, e: ExprV) -> ExprKindV
    decreases e, 1nat,
{
    match e.kind {
        ExprKindV::ArrayLit(v) => ExprKindV::ArrayLit(rw_list(fw, v)),
        ExprKindV::Call { name, args } => ExprKindV::Call { name, args: rw_list(fw, args) },
        ExprKindV::GenericCall { name, type_args, args } => ExprKindV::GenericCall { name, type_args, args: rw_list(fw, args) },
        ExprKindV::MethodCall { recv, name, args } => ExprKindV::MethodCall {
            recv: Box::new(rw_expr(fw, *recv)),
            name,
            args: rw_list(fw, args),
        },
        ExprKindV::CoreMethodCall { class, name, recv, args } => ExprKindV::CoreMethodCall {
            class,
            name,
            recv: Box::new(rw_expr(fw, *recv)),
            args: rw_list(fw, args),
        },
        ExprKindV::OptWrap { payload, expr } => ExprKindV::OptWrap { payload, expr: Box::new(rw_expr(fw, *expr)) },
        ExprKindV::OptUnwrap { payload, expr } => ExprKindV::OptUnwrap { payload, expr: Box::new(rw_expr(fw, *expr)) },
        ExprKindV::OptHas { payload, expr } => ExprKindV::OptHas { payload, expr: Box::new(rw_expr(fw, *expr)) },
        ExprKindV::New { class, args } => ExprKindV::New { class, args: rw_list(fw, args) },
        ExprKindV::ContainerLit { class, is_array, elems } => ExprKindV::ContainerLit { class, is_array, elems: rw_list(fw, elems) },
        ExprKindV::BufAlloc { elem, size } => ExprKindV::BufAlloc { elem, size: Box::new(rw_expr(fw, *size)) },
        ExprKindV::FieldAccess { recv, name } => ExprKindV::FieldAccess { recv: Box::new(rw_expr(fw, *recv)), name },
        ExprKindV::Index { recv, index } => ExprKindV::Index {
            recv: Box::new(rw_expr(fw, *recv)),
            index: Box::new(rw_expr(fw, *index)),
        },
        ExprKindV::IntrinsicCall { name, args } => ExprKindV::IntrinsicCall { name, args: rw_list(fw, args) },
        ExprKindV::Binary { op, lhs, rhs } => ExprKindV::Binary {
            op,
            lhs: Box::new(rw_expr(fw, *lhs)),
            rhs: Box::new(rw_expr(fw, *rhs)),
        },
        ExprKindV::Unary { op, operand } => ExprKindV::Unary { op, operand: Box::new(rw_expr(fw, *operand)) },
        other => other,
    }
}

/// The expression after rewriting: children first, then inlining, then folding.
pub open spec fn rw_expr(fw: FwV, e: ExprV) -> ExprV
    decreases e, 2nat,
{
    ExprV { kind: fold_kind(inline_kind(rw_children(fw, e), fw)), line: e.line, col: e.col }
}

pub open spec fn rw_list(fw: FwV, s: Seq<ExprV>) -> Seq<ExprV>
    decreases s, 0nat,
{
    Seq::new(s.len(), |i: int| if 0 <= i < s.len() { rw_expr(fw, s[i]) } else { s[i] })
}

pub open spec fn rw_stmt(fw: FwV, s: StmtV) -> StmtV
    decreases s, 1nat,
{
    let k = match s.kind {
        StmtKindV::VarDecl { is_const, name, ty, init } => StmtKindV::VarDecl { is_const, name, ty, init: rw_expr(fw, init) },
        StmtKindV::Assign { target, op, value } => StmtKindV::Assign { target: rw_expr(fw, target), op, value: rw_expr(fw, value) },
        StmtKindV::IncDec { target, inc } => StmtKindV::IncDec { target: rw_expr(fw, target), inc },
        StmtKindV::ExprStmt(e) => StmtKindV::ExprStmt(rw_expr(fw, e)),
        StmtKindV::Return(Some(e)) => StmtKindV::Return(Some(rw_expr(fw, e))),
        StmtKindV::If { arms, else_block } => StmtKindV::If {
            arms: rw_arms(fw, arms),
            else_block: match else_block {
                Some(b) => Some(BlockV { stmts: rw_stmts(fw, b.stmts) }),
                None => None,
            },
        },
        StmtKindV::While { cond, body } => StmtKindV::While {
            cond: rw_expr(fw, cond),
            body: BlockV { stmts: rw_stmts(fw, body.stmts) },
        },
        StmtKindV::ForC { var_name, var_ty, init, cond, step, body } => StmtKindV::ForC {
            var_name,
            var_ty,
            init: rw_expr(fw, init),
            cond: rw_expr(fw, cond),
            step: Box::new(rw_stmt(fw, *step)),
            body: BlockV { stmts: rw_stmts(fw, body.stmts) },
        },
        StmtKindV::ForIn { var_name, var_ty, iterable, body } => StmtKindV::ForIn {
            var_name,
            var_ty,
            iterable: rw_expr(fw, iterable),
            body: BlockV { stmts: rw_stmts(fw, body.stmts) },
        },
        StmtKindV::Scope(b) => StmtKindV::Scope(BlockV { stmts: rw_stmts(fw, b.stmts) }),
        StmtKindV::TryCatch { body, var_name, var_ty, catch_body } => StmtKindV::TryCatch {
            body: BlockV { stmts: rw_stmts(fw, body.stmts) },
            var_name,
            var_ty,
            catch_body: BlockV { stmts: rw_stmts(fw, catch_body.stmts) },
        },
        other => other,
    };
    StmtV { kind: k, line: s.line, col: s.col }
}

pub open spec fn rw_stmts(fw: FwV, s: Seq<StmtV>) -> Seq<StmtV>
    decreases s, 0nat,
{
    Seq::new(s.len(), |i: int| if 0 <= i < s.len() { rw_stmt(fw, s[i]) } else { s[i] })
}

pub open spec fn rw_arms(fw: FwV, s: Seq<(ExprV, BlockV)>) -> Seq<(ExprV, BlockV)>
    decreases s, 0nat,
{
    Seq::new(s.len(), |i: int| if 0 <= i < s.len() {
        (rw_expr(fw, s[i].0), BlockV { stmts: rw_stmts(fw, s[i].1.stmts) })
    } else {
        s[i]
    })
}

pub open spec fn rw_block(fw: FwV, b: BlockV) -> BlockV {
    BlockV { stmts: rw_stmts(fw, b.stmts) }
}

pub open spec fn rw_function(fw: FwV, f: FunctionDeclV) -> FunctionDeclV {
    FunctionDeclV { body: rw_block(fw, f.body), ..f }
}

pub open spec fn rw_field(fw: FwV, f: FieldDeclV) -> FieldDeclV {
    FieldDeclV { default: rw_expr(fw, f.default), ..f }
}

pub open spec fn rw_method(fw: FwV, m: MethodDeclV) -> MethodDeclV {
    MethodDeclV { body: rw_block(fw, m.body), ..m }
}

pub open spec fn rw_ctor(fw: FwV, c: CtorDeclV) -> CtorDeclV {
    CtorDeclV { body: rw_block(fw, c.body), ..c }
}

pub open spec fn rw_class(fw: FwV, c: ClassDeclV) -> ClassDeclV {
    ClassDeclV {
        fields: c.fields.map_values(|f: FieldDeclV| rw_field(fw, f)),
        ctor: match c.ctor {
            Some(k) => Some(rw_ctor(fw, k)),
            None => None,
        },
        methods: c.methods.map_values(|m: MethodDeclV| rw_method(fw, m)),
        ..c
    }
}

/// The optimized program: every body and field default rewritten with the
/// program's own forwarders.
pub open spec fn optimize_spec(p: ProgramV) -> ProgramV {
    let fw = forwarders_of(p);
    ProgramV {
        functions: p.functions.map_values(|f: FunctionDeclV| rw_function(fw, f)),
        classes: p.classes.map_values(|c: ClassDeclV| rw_class(fw, c)),
    }
}

} // verus!
