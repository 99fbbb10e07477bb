//! Statement rules of the type checker that need no types: where `break`,
//! `continue` and `return` may stand, what a catch variable is, and the
//! desugarings of `x++`/`x--` and of `for (x: T in it)`.

use vstd::prelude::*;
use crate::ast::{AssignOp, BinOp, Block, BlockV, Expr, ExprKind, ExprKindV, ExprV, Stmt, StmtKind, StmtKindV, StmtV, Type, TypeV, display_spec, exprs_v, stmts_v};
use crate::calls::err_v;
use crate::errors::{JimError};
use crate::text::{decimal, framed, lit_string, push_decimal, push_str};

verus! {

/// `break`/`continue` (`is_break` tells which) at loop depth `depth`, with
/// `marks` the loop depths at which the enclosing `try` blocks began: it
/// needs a loop, and may not leave the innermost `try`.
pub open spec fn jump_error(is_break: bool, depth: u32, marks: Seq<u32>) -> Option<Seq<char>> {
    if depth == 0 {
        Some(if is_break { "'break' outside a loop"@ } else { "'continue' outside a loop"@ })
    } else if marks.len() > 0 && depth <= marks.last() {
        Some(if is_break { "'break' cannot leave a try block (milestone 9)"@ } else { "'continue' cannot leave a try block (milestone 9)"@ })
    } else {
        None
    }
}

pub fn check_jump(is_break: bool, depth: u32, marks: &Vec<u32>, line: u32, col: u32) -> (r: Result<(), JimError>)
    ensures
        match jump_error(is_break, depth, marks@) {
            Some(m) => r matches Err(x) && x@ == err_v(m, line, col),
            None => r is Ok,
        },
{
    if depth == 0 {
        let m = if is_break { lit_string("'break' outside a loop") } else { lit_string("'continue' outside a loop") };
        return Err(JimError::new(m, line, col));
    }
    if marks.len() > 0 && depth <= marks[marks.len() - 1] {
        let m = if is_break {
            lit_string("'break' cannot leave a try block (milestone 9)")
        } else {
            lit_string("'continue' cannot leave a try block (milestone 9)")
        };
        return Err(JimError::new(m, line, col));
    }
    Ok(())
}

/// A `return` (with a value or without) in the body named `fn_name` whose
/// result type is `ret`: not inside a `try`, a value only where the result
/// is not None, and none only where it is (optional results are told to
/// write `return None;`).
pub open spec fn return_error(in_try: bool, fn_name: Seq<char>, ret: TypeV, has_value: bool) -> Option<Seq<char>> {
    if in_try {
        Some("'return' inside a try block is not supported yet (the handler must unwind first \u{2014} milestone 9)"@)
    } else if has_value {
        if ret == TypeV::Named("None"@) {
            Some("'"@ + fn_name + "' returns None and cannot return a value"@)
        } else {
            None
        }
    } else if ret != TypeV::Named("None"@) {
        Some("'return;' without a value in '"@ + fn_name + "' which returns "@ + display_spec(ret)
            + if ret is Optional { " (use 'return None;' to return no value)"@ } else { Seq::empty() })
    } else {
        None
    }
}

pub fn check_return(in_try: bool, fn_name: &str, ret: &Type, has_value: bool, line: u32, col: u32) -> (r: Result<(), JimError>)
    ensures
        match return_error(in_try, fn_name@, ret@, has_value) {
            Some(m) => r matches Err(x) && x@ == err_v(m, line, col),
            None => r is Ok,
        },
{
    if in_try {
        return Err(JimError::new(lit_string("'return' inside a try block is not supported yet (the handler must unwind first \u{2014} milestone 9)"), line, col));
    }
    if has_value {
        if ret.is_named("None") {
            return Err(JimError::new(framed("'", fn_name, "' returns None and cannot return a value"), line, col));
        }
        return Ok(());
    }
    if !ret.is_named("None") {
        let mut m = framed("'return;' without a value in '", fn_name, "' which returns ");
        let d = ret.display();
        push_str(&mut m, d.as_str());
        let is_opt = match ret {
            Type::Optional(_) => true,
            _ => false,
        };
        if is_opt {
            push_str(&mut m, " (use 'return None;' to return no value)");
        } else {
            assert(m@ =~= m@ + Seq::<char>::empty());
        }
        return Err(JimError::new(m, line, col));
    }
    Ok(())
}

/// A catch variable must be typed `Exception`.
pub open spec fn catch_error(ty: TypeV) -> Option<Seq<char>> {
    if ty != TypeV::Named("Exception"@) {
        Some("catch variables must be typed Exception, found "@ + display_spec(ty))
    } else {
        None
    }
}

pub fn check_catch_type(ty: &Type, line: u32, col: u32) -> (r: Result<(), JimError>)
    ensures
        match catch_error(ty@) {
            Some(m) => r matches Err(x) && x@ == err_v(m, line, col),
            None => r is Ok,
        },
{
    if !ty.is_named("Exception") {
        let d = ty.display();
        let mut m = lit_string("catch variables must be typed Exception, found ");
        push_str(&mut m, d.as_str());
        return Err(JimError::new(m, line, col));
    }
    Ok(())
}

/// `x++` is `x += 1` and `x--` is `x -= 1`, written where the statement is.
pub open spec fn inc_dec_spec(target: ExprV, inc: bool, line: u32, col: u32) -> StmtV {
    StmtV {
        kind: StmtKindV::Assign {
            target,
            op: if inc { AssignOp::Add } else { AssignOp::Sub },
            value: ExprV { kind: ExprKindV::Int(1), line, col },
        },
        line,
        col,
    }
}

pub fn inc_dec_assign(target: &Expr, inc: bool, line: u32, col: u32) -> (s: Stmt)
    ensures
        s@ == inc_dec_spec(target@, inc, line, col),
{
    let one = Expr { kind: ExprKind::Int(1), line, col };
    let op = if inc { AssignOp::Add } else { AssignOp::Sub };
    Stmt { kind: StmtKind::Assign { target: crate::copy::copy_expr(target), op, value: one }, line, col }
}

/// The hidden names of a for-in loop at `line:col`: the iterated value and
/// the index.
pub open spec fn for_in_names(line: u32, col: u32) -> (Seq<char>, Seq<char>) {
    (
        "__jim_it_"@ + decimal(line as nat) + "_"@ + decimal(col as nat),
        "__jim_i_"@ + decimal(line as nat) + "_"@ + decimal(col as nat),
    )
}

fn hidden_name(prefix: &str, line: u32, col: u32) -> (s: String)
    ensures
        s@ == prefix@ + decimal(line as nat) + "_"@ + decimal(col as nat),
{
    let mut s = lit_string(prefix);
    push_decimal(&mut s, line as u64);
    push_str(&mut s, "_");
    push_decimal(&mut s, col as u64);
    s
}

pub fn for_in_hidden_names(line: u32, col: u32) -> (r: (String, String))
    ensures
        (r.0@, r.1@) == for_in_names(line, col),
{
    (hidden_name("__jim_it_", line, col), hidden_name("__jim_i_", line, col))
}

pub open spec fn ident_at(n: Seq<char>, line: u32, col: u32) -> ExprV {
    ExprV { kind: ExprKindV::Ident(n), line, col }
}

/// `for (x: T in it) body` as an index loop over the hidden value `it_name`:
/// `for (idx: Integer = 0; idx < it.length(); idx++) { var x: T = it.get(idx); body }`.
/// It works for any class with `length()` and `get(Integer)`.
pub open spec fn for_in_loop_spec(var_name: Seq<char>, var_ty: TypeV, body: BlockV, it_name: Seq<char>, idx_name: Seq<char>, line: u32, col: u32) -> StmtV {
    let cond = ExprV {
        kind: ExprKindV::Binary {
            op: BinOp::Lt,
            lhs: Box::new(ident_at(idx_name, line, col)),
            rhs: Box::new(ExprV {
                kind: ExprKindV::MethodCall { recv: Box::new(ident_at(it_name, line, col)), name: "length"@, args: Seq::empty() },
                line,
                col,
            }),
        },
        line,
        col,
    };
    let step = StmtV { kind: StmtKindV::IncDec { target: ident_at(idx_name, line, col), inc: true }, line, col };
    let first = StmtV {
        kind: StmtKindV::VarDecl {
            is_const: false,
            name: var_name,
            ty: var_ty,
            init: ExprV {
                kind: ExprKindV::MethodCall { recv: Box::new(ident_at(it_name, line, col)), name: "get"@, args: seq![ident_at(idx_name, line, col)] },
                line,
                col,
            },
        },
        line,
        col,
    };
    StmtV {
        kind: StmtKindV::ForC {
            var_name: idx_name,
            var_ty: TypeV::Named("Integer"@),
            init: ExprV { kind: ExprKindV::Int(0), line, col },
            cond,
            step: Box::new(step),
            body: BlockV { stmts: seq![first] + body.stmts },
        },
        line,
        col,
    }
}

fn ident_expr(n: &str, line: u32, col: u32) -> (e: Expr)
    ensures
        e@ == ident_at(n@, line, col),
{
    Expr { kind: ExprKind::Ident(lit_string(n)), line, col }
}

fn method_call0(recv: Expr, name: &str, args: Vec<Expr>, line: u32, col: u32) -> (e: Expr)
    ensures
        e@ == (ExprV { kind: ExprKindV::MethodCall { recv: Box::new(recv@), name: name@, args: exprs_v(args@) }, line, col }),
{
    Expr { kind: ExprKind::MethodCall { recv: Box::new(recv), name: lit_string(name), args }, line, col }
}

pub fn for_in_loop(var_name: &str, var_ty: &Type, body: &Block, it_name: &str, idx_name: &str, line: u32, col: u32) -> (s: Stmt)
    ensures
        s@ == for_in_loop_spec(var_name@, var_ty@, body@, it_name@, idx_name@, line, col),
{
    let no_args: Vec<Expr> = Vec::new();
    assert(exprs_v(no_args@) =~= Seq::<ExprV>::empty());
    let length = method_call0(ident_expr(it_name, line, col), "length", no_args, line, col);
    let ghost lv = length@;
    let lhs = ident_expr(idx_name, line, col);
    let ghost cv = ExprV { kind: ExprKindV::Binary { op: BinOp::Lt, lhs: Box::new(lhs@), rhs: Box::new(lv) }, line, col };
    let cond = Expr { kind: ExprKind::Binary { op: BinOp::Lt, lhs: Box::new(lhs), rhs: Box::new(length) }, line, col };
    assert(cond@ == cv);
    let step_target = ident_expr(idx_name, line, col);
    let ghost sv = StmtV { kind: StmtKindV::IncDec { target: step_target@, inc: true }, line, col };
    let step = Stmt { kind: StmtKind::IncDec { target: step_target, inc: true }, line, col };
    assert(step@ == sv);
    let mut get_args: Vec<Expr> = Vec::new();
    get_args.push(ident_expr(idx_name, line, col));
    assert(exprs_v(get_args@) =~= seq![ident_at(idx_name@, line, col)]);
    let get = method_call0(ident_expr(it_name, line, col), "get", get_args, line, col);
    let ghost gv = get@;
    let first = Stmt {
        kind: StmtKind::VarDecl { is_const: false, name: lit_string(var_name), ty: var_ty.copy(), init: get },
        line,
        col,
    };
    let ghost fv = first@;
    assert(fv == StmtV { kind: StmtKindV::VarDecl { is_const: false, name: var_name@, ty: var_ty@, init: gv }, line, col });
    let mut inner: Vec<Stmt> = Vec::new();
    inner.push(first);
    let mut rest = crate::copy::copy_stmts(&body.stmts);
    inner.append(&mut rest);
    assert(stmts_v(inner@) =~= seq![fv] + body@.stmts);
    let ghost bv = BlockV { stmts: stmts_v(inner@) };
    let inner_block = Block { stmts: inner };
    assert(inner_block@ == bv);
    let zero = Expr { kind: ExprKind::Int(0), line, col };
    let s = Stmt {
        kind: StmtKind::ForC {
            var_name: lit_string(idx_name),
            var_ty: Type::named("Integer"),
            init: zero,
            cond,
            step: Box::new(step),
            body: inner_block,
        },
        line,
        col,
    };
    s
}

} // verus!
