//! The jim grammar: what parsing a token stream from a given position yields.

use vstd::prelude::*;
use crate::ast::{AssignOp, BinOp, BlockV, ClassDeclV, CtorDeclV, ExprKindV, ExprV, FieldDeclV, FunctionDeclV, ImportKindV, ImportV, MethodDeclV, ModuleV, ParamV, StmtKindV, StmtV, TypeV, UnOp};
use crate::errors::JimErrorV;
use crate::token::{Keyword, Symbol, TokenKindV, TokenV, describe_spec};

verus! {

/// What a grammar rule yields from a position: a value and the position
/// after it, or an error.
pub enum PR<T> {
    Done(T, int),
    Fail(JimErrorV),
}

pub open spec fn is_sym(ts: Seq<TokenV>, p: int, s: Symbol) -> bool {
    ts[p].kind == TokenKindV::Sym(s)
}

pub open spec fn is_kw(ts: Seq<TokenV>, p: int, k: Keyword) -> bool {
    ts[p].kind == TokenKindV::Kw(k)
}

/// An error with the given message at the token at `p`.
pub open spec fn err_at(ts: Seq<TokenV>, p: int, msg: Seq<char>) -> JimErrorV {
    JimErrorV { msg, line: ts[p].line, col: ts[p].col }
}

/// `expected <what> but found <token>` at the token at `p`.
pub open spec fn expected(ts: Seq<TokenV>, p: int, what: Seq<char>) -> JimErrorV {
    err_at(ts, p, "expected "@ + what + " but found "@ + describe_spec(ts[p].kind))
}

/// The outcome of a position outside the stream or of a rule that consumed
/// nothing; neither happens on a stream that ends with its only `Eof`.
pub open spec fn stuck() -> JimErrorV {
    JimErrorV { msg: Seq::empty(), line: 0, col: 0 }
}

/// How many tokens remain from `p` on; the measure every rule decreases.
pub open spec fn left(ts: Seq<TokenV>, p: int) -> nat {
    if 0 <= p < ts.len() { (ts.len() - p) as nat } else { 0 }
}

/// An identifier at `p`.
pub open spec fn p_ident(ts: Seq<TokenV>, p: int, what: Seq<char>) -> PR<Seq<char>> {
    match ts[p].kind {
        TokenKindV::Ident(n) => PR::Done(n, p + 1),
        _ => PR::Fail(expected(ts, p, what)),
    }
}

pub open spec fn mk(kind: ExprKindV, t: TokenV) -> ExprV {
    ExprV { kind, line: t.line, col: t.col }
}

// ---------------- types ----------------

/// `*T` (where `*T?` reads as `(*T)?`), `None`, `Name`, `Name<T>`, each
/// optionally followed by `?`.
pub open spec fn p_type(ts: Seq<TokenV>, p: int) -> PR<TypeV>
    decreases left(ts, p),
{
    if !(0 <= p < ts.len()) {
        PR::Fail(stuck())
    } else if is_sym(ts, p, Symbol::Star) {
        match p_type(ts, p + 1) {
            PR::Done(t, q) => PR::Done(
                match t {
                    TypeV::Optional(x) => TypeV::Optional(Box::new(TypeV::Pointer(x))),
                    _ => TypeV::Pointer(Box::new(t)),
                },
                q,
            ),
            PR::Fail(e) => PR::Fail(e),
        }
    } else {
        let name: PR<Seq<char>> = if is_kw(ts, p, Keyword::NoneKw) {
            PR::Done("None"@, p + 1)
        } else {
            p_ident(ts, p, "a type name"@)
        };
        match name {
            PR::Fail(e) => PR::Fail(e),
            PR::Done(n, _) => {
                let base: PR<TypeV> = if is_sym(ts, p + 1, Symbol::Lt) {
                    match p_type(ts, p + 2) {
                        PR::Fail(e) => PR::Fail(e),
                        PR::Done(inner, r) => if is_sym(ts, r, Symbol::Gt) {
                            PR::Done(TypeV::Generic(n, Box::new(inner)), r + 1)
                        } else {
                            PR::Fail(expected(ts, r, "'>' to close the generic type"@))
                        },
                    }
                } else {
                    PR::Done(TypeV::Named(n), p + 1)
                };
                match base {
                    PR::Fail(e) => PR::Fail(e),
                    PR::Done(t, r) => if is_sym(ts, r, Symbol::Question) {
                        PR::Done(TypeV::Optional(Box::new(t)), r + 1)
                    } else {
                        PR::Done(t, r)
                    },
                }
            },
        }
    }
}

/// Types separated by commas, from `p` on; `None` when one fails to parse.
pub open spec fn p_type_list(ts: Seq<TokenV>, p: int, acc: Seq<TypeV>) -> Option<(Seq<TypeV>, int)>
    decreases left(ts, p),
{
    if !(0 <= p < ts.len()) {
        None
    } else {
        match p_type(ts, p) {
            PR::Fail(_) => None,
            PR::Done(t, q) => if q > p && is_sym(ts, q, Symbol::Comma) {
                p_type_list(ts, q + 1, acc.push(t))
            } else if q > p {
                Some((acc.push(t), q))
            } else {
                None
            },
        }
    }
}

/// A tentative `<T, U, ...>` at `p` that must be followed by `(`: the types
/// and the position of the `(`, or `None` (the `<` is then a comparison).
pub open spec fn p_try_type_args(ts: Seq<TokenV>, p: int) -> Option<(Seq<TypeV>, int)> {
    if !is_sym(ts, p, Symbol::Lt) {
        None
    } else {
        match p_type_list(ts, p + 1, Seq::empty()) {
            None => None,
            Some((tys, q)) => if is_sym(ts, q, Symbol::Gt) && is_sym(ts, q + 1, Symbol::LParen) {
                Some((tys, q + 1))
            } else {
                None
            },
        }
    }
}

// ---------------- expressions ----------------

/// The operator a token stands for at a binary precedence level:
/// 0 `or`, 1 `and`, 3 comparisons, 4 `+ -`, 5 `* / % div`.
pub open spec fn binop_of(level: int, k: TokenKindV) -> Option<BinOp> {
    if level == 0 {
        if k == TokenKindV::Kw(Keyword::Or) { Some(BinOp::Or) } else { None }
    } else if level == 1 {
        if k == TokenKindV::Kw(Keyword::And) { Some(BinOp::And) } else { None }
    } else if level == 3 {
        match k {
            TokenKindV::Sym(Symbol::EqEq) => Some(BinOp::Eq),
            TokenKindV::Sym(Symbol::NotEq) => Some(BinOp::NotEq),
            TokenKindV::Sym(Symbol::Lt) => Some(BinOp::Lt),
            TokenKindV::Sym(Symbol::LtEq) => Some(BinOp::LtEq),
            TokenKindV::Sym(Symbol::Gt) => Some(BinOp::Gt),
            TokenKindV::Sym(Symbol::GtEq) => Some(BinOp::GtEq),
            _ => None,
        }
    } else if level == 4 {
        match k {
            TokenKindV::Sym(Symbol::Plus) => Some(BinOp::Add),
            TokenKindV::Sym(Symbol::Minus) => Some(BinOp::Sub),
            _ => None,
        }
    } else if level == 5 {
        match k {
            TokenKindV::Sym(Symbol::Star) => Some(BinOp::Mul),
            TokenKindV::Sym(Symbol::Slash) => Some(BinOp::Div),
            TokenKindV::Sym(Symbol::Percent) => Some(BinOp::Mod),
            TokenKindV::Kw(Keyword::Div) => Some(BinOp::IntDiv),
            _ => None,
        }
    } else {
        None
    }
}

/// The unary operator a token stands for (`-`, `&`, `*`).
pub open spec fn unop_of(k: TokenKindV) -> Option<UnOp> {
    match k {
        TokenKindV::Sym(Symbol::Minus) => Some(UnOp::Neg),
        TokenKindV::Sym(Symbol::Ampersand) => Some(UnOp::AddrOf),
        TokenKindV::Sym(Symbol::Star) => Some(UnOp::Deref),
        _ => None,
    }
}

/// An expression: `or` binds loosest, then `and`, `not`, comparisons,
/// `+ -`, `* / % div`, unary `- & *`, and postfix `.name`, `.m(..)`, `[i]`.
pub open spec fn p_expr(ts: Seq<TokenV>, p: int) -> PR<ExprV>
    decreases left(ts, p), 22int,
{
    if !(0 <= p < ts.len()) { PR::Fail(stuck()) } else { p_binary(ts, 0, p) }
}

/// One operand of a binary level.
pub open spec fn p_operand(ts: Seq<TokenV>, level: int, p: int) -> PR<ExprV>
    decreases left(ts, p), 21int,
{
    if !(0 <= p < ts.len()) {
        PR::Fail(stuck())
    } else if level == 0 {
        p_binary(ts, 1, p)
    } else if level == 1 {
        p_not(ts, p)
    } else if level == 3 {
        p_binary(ts, 4, p)
    } else if level == 4 {
        p_binary(ts, 5, p)
    } else {
        p_unary(ts, p)
    }
}

/// A left-associative chain of operands joined by the level's operators.
pub open spec fn p_binary(ts: Seq<TokenV>, level: int, p: int) -> PR<ExprV>
    decreases left(ts, p), 20 - 2 * level,
{
    if !(0 <= p < ts.len()) || !(level == 0 || level == 1 || level == 3 || level == 4 || level == 5) {
        PR::Fail(stuck())
    } else {
        let first = if level == 0 {
            p_binary(ts, 1, p)
        } else if level == 1 {
            p_not(ts, p)
        } else if level == 3 {
            p_binary(ts, 4, p)
        } else if level == 4 {
            p_binary(ts, 5, p)
        } else {
            p_unary(ts, p)
        };
        match first {
            PR::Fail(e) => PR::Fail(e),
            PR::Done(lhs, q) => if q > p { p_bin_tail(ts, level, lhs, q) } else { PR::Fail(stuck()) },
        }
    }
}

/// The rest of a binary chain after `lhs`, from `p` on.
pub open spec fn p_bin_tail(ts: Seq<TokenV>, level: int, lhs: ExprV, p: int) -> PR<ExprV>
    decreases left(ts, p), 5int,
{
    if !(0 <= p < ts.len()) {
        PR::Fail(stuck())
    } else {
        match binop_of(level, ts[p].kind) {
            None => PR::Done(lhs, p),
            Some(op) => match p_operand(ts, level, p + 1) {
                PR::Fail(e) => PR::Fail(e),
                PR::Done(rhs, q) => if q > p {
                    p_bin_tail(
                        ts,
                        level,
                        mk(ExprKindV::Binary { op, lhs: Box::new(lhs), rhs: Box::new(rhs) }, ts[p]),
                        q,
                    )
                } else {
                    PR::Fail(stuck())
                },
            },
        }
    }
}

/// `not` chains, or a comparison.
pub open spec fn p_not(ts: Seq<TokenV>, p: int) -> PR<ExprV>
    decreases left(ts, p), 16int,
{
    if !(0 <= p < ts.len()) {
        PR::Fail(stuck())
    } else if is_kw(ts, p, Keyword::Not) {
        match p_not(ts, p + 1) {
            PR::Fail(e) => PR::Fail(e),
            PR::Done(operand, q) => PR::Done(
                mk(ExprKindV::Unary { op: UnOp::Not, operand: Box::new(operand) }, ts[p]),
                q,
            ),
        }
    } else {
        p_binary(ts, 3, p)
    }
}

/// Prefix `-`, `&`, `*`, or a postfix expression.
pub open spec fn p_unary(ts: Seq<TokenV>, p: int) -> PR<ExprV>
    decreases left(ts, p), 8int,
{
    if !(0 <= p < ts.len()) {
        PR::Fail(stuck())
    } else {
        match unop_of(ts[p].kind) {
            Some(op) => match p_unary(ts, p + 1) {
                PR::Fail(e) => PR::Fail(e),
                PR::Done(operand, q) => PR::Done(
                    mk(ExprKindV::Unary { op, operand: Box::new(operand) }, ts[p]),
                    q,
                ),
            },
            None => p_postfix(ts, p),
        }
    }
}

/// A primary expression followed by member accesses, method calls and indexing.
pub open spec fn p_postfix(ts: Seq<TokenV>, p: int) -> PR<ExprV>
    decreases left(ts, p), 7int,
{
    if !(0 <= p < ts.len()) {
        PR::Fail(stuck())
    } else {
        match p_primary(ts, p) {
            PR::Fail(e) => PR::Fail(e),
            PR::Done(e, q) => if q > p { p_postfix_tail(ts, e, q) } else { PR::Fail(stuck()) },
        }
    }
}

/// The postfix operations after `e`, from `p` on.
pub open spec fn p_postfix_tail(ts: Seq<TokenV>, e: ExprV, p: int) -> PR<ExprV>
    decreases left(ts, p), 5int,
{
    if !(0 <= p < ts.len()) {
        PR::Fail(stuck())
    } else if is_sym(ts, p, Symbol::Dot) {
        match p_ident(ts, p + 1, "a member name after '.'"@) {
            PR::Fail(x) => PR::Fail(x),
            PR::Done(name, _) => if is_sym(ts, p + 2, Symbol::LParen) {
                match p_call_args(ts, p + 2) {
                    PR::Fail(x) => PR::Fail(x),
                    PR::Done(args, r) => if r > p {
                        p_postfix_tail(
                            ts,
                            mk(ExprKindV::MethodCall { recv: Box::new(e), name, args }, ts[p]),
                            r,
                        )
                    } else {
                        PR::Fail(stuck())
                    },
                }
            } else {
                p_postfix_tail(ts, mk(ExprKindV::FieldAccess { recv: Box::new(e), name }, ts[p]), p + 2)
            },
        }
    } else if is_sym(ts, p, Symbol::LBracket) {
        match p_expr(ts, p + 1) {
            PR::Fail(x) => PR::Fail(x),
            PR::Done(index, r) => if r > p && is_sym(ts, r, Symbol::RBracket) {
                p_postfix_tail(
                    ts,
                    mk(ExprKindV::Index { recv: Box::new(e), index: Box::new(index) }, ts[p]),
                    r + 1,
                )
            } else if r > p {
                PR::Fail(expected(ts, r, "']'"@))
            } else {
                PR::Fail(stuck())
            },
        }
    } else {
        PR::Done(e, p)
    }
}

/// Comma-separated expressions from `p` on (at least one).
pub open spec fn p_expr_list(ts: Seq<TokenV>, p: int, acc: Seq<ExprV>) -> PR<Seq<ExprV>>
    decreases left(ts, p), 23int,
{
    if !(0 <= p < ts.len()) {
        PR::Fail(stuck())
    } else {
        match p_expr(ts, p) {
            PR::Fail(e) => PR::Fail(e),
            PR::Done(e, q) => if q > p && is_sym(ts, q, Symbol::Comma) {
                p_expr_list(ts, q + 1, acc.push(e))
            } else if q > p {
                PR::Done(acc.push(e), q)
            } else {
                PR::Fail(stuck())
            },
        }
    }
}

/// A bracketed, comma-separated, possibly empty expression list: `open`
/// must stand at `p`; `close` ends it.
pub open spec fn p_delimited(ts: Seq<TokenV>, p: int, open: Symbol, open_what: Seq<char>, close: Symbol, close_what: Seq<char>) -> PR<Seq<ExprV>>
    decreases left(ts, p), 4int,
{
    if !(0 <= p < ts.len()) {
        PR::Fail(stuck())
    } else if !is_sym(ts, p, open) {
        PR::Fail(expected(ts, p, open_what))
    } else if is_sym(ts, p + 1, close) {
        PR::Done(Seq::empty(), p + 2)
    } else {
        match p_expr_list(ts, p + 1, Seq::empty()) {
            PR::Fail(e) => PR::Fail(e),
            PR::Done(items, r) => if is_sym(ts, r, close) {
                PR::Done(items, r + 1)
            } else {
                PR::Fail(expected(ts, r, close_what))
            },
        }
    }
}

/// `( args )`.
pub open spec fn p_call_args(ts: Seq<TokenV>, p: int) -> PR<Seq<ExprV>>
    decreases left(ts, p), 5int,
{
    p_delimited(ts, p, Symbol::LParen, "'('"@, Symbol::RParen, "')'"@)
}

/// Literals, `this`, names, calls (with optional explicit type arguments),
/// intrinsic calls, parenthesized expressions and array literals.
pub open spec fn p_primary(ts: Seq<TokenV>, p: int) -> PR<ExprV>
    decreases left(ts, p), 6int,
{
    if !(0 <= p < ts.len()) {
        PR::Fail(stuck())
    } else {
        let t = ts[p];
        match t.kind {
            TokenKindV::Int(v) => PR::Done(mk(ExprKindV::Int(v), t), p + 1),
            TokenKindV::Float(x) => PR::Done(mk(ExprKindV::Float(x), t), p + 1),
            TokenKindV::Str(s) => PR::Done(mk(ExprKindV::Str(s), t), p + 1),
            TokenKindV::CharLit(c) => PR::Done(mk(ExprKindV::CharLit(c), t), p + 1),
            TokenKindV::Kw(Keyword::True) => PR::Done(mk(ExprKindV::Bool(true), t), p + 1),
            TokenKindV::Kw(Keyword::False) => PR::Done(mk(ExprKindV::Bool(false), t), p + 1),
            TokenKindV::Kw(Keyword::NoneKw) => PR::Done(mk(ExprKindV::NoneLit, t), p + 1),
            TokenKindV::Kw(Keyword::This) => PR::Done(mk(ExprKindV::This, t), p + 1),
            TokenKindV::Ident(name) => {
                let targs = if is_sym(ts, p + 1, Symbol::Lt) { p_try_type_args(ts, p + 1) } else { None };
                match targs {
                    Some((type_args, q)) => if q > p {
                        match p_call_args(ts, q) {
                            PR::Fail(e) => PR::Fail(e),
                            PR::Done(args, r) => PR::Done(mk(ExprKindV::GenericCall { name, type_args, args }, t), r),
                        }
                    } else {
                        PR::Fail(stuck())
                    },
                    None => if is_sym(ts, p + 1, Symbol::LParen) {
                        match p_call_args(ts, p + 1) {
                            PR::Fail(e) => PR::Fail(e),
                            PR::Done(args, r) => PR::Done(mk(ExprKindV::Call { name, args }, t), r),
                        }
                    } else {
                        PR::Done(mk(ExprKindV::Ident(name), t), p + 1)
                    },
                }
            },
            TokenKindV::Intrinsic(name) => if !is_sym(ts, p + 1, Symbol::LParen) {
                PR::Fail(err_at(ts, p + 1, "intrinsic '@"@ + name + "' must be called: @"@ + name + "(...)"@))
            } else {
                match p_call_args(ts, p + 1) {
                    PR::Fail(e) => PR::Fail(e),
                    PR::Done(args, r) => PR::Done(mk(ExprKindV::IntrinsicCall { name, args }, t), r),
                }
            },
            TokenKindV::Sym(Symbol::LParen) => match p_expr(ts, p + 1) {
                PR::Fail(e) => PR::Fail(e),
                PR::Done(inner, r) => if is_sym(ts, r, Symbol::RParen) {
                    PR::Done(inner, r + 1)
                } else {
                    PR::Fail(expected(ts, r, "')'"@))
                },
            },
            TokenKindV::Sym(Symbol::LBracket) => match p_delimited(ts, p, Symbol::LBracket, "'['"@, Symbol::RBracket, "']'"@) {
                PR::Fail(e) => PR::Fail(e),
                PR::Done(items, r) => PR::Done(mk(ExprKindV::ArrayLit(items), t), r),
            },
            _ => PR::Fail(err_at(ts, p, "expected an expression, found "@ + describe_spec(t.kind))),
        }
    }
}

// ---------------- statements ----------------

pub open spec fn sk(kind: StmtKindV, line: u32, col: u32) -> StmtV {
    StmtV { kind, line, col }
}

/// The assignment operator a token stands for.
pub open spec fn assign_op_of(k: TokenKindV) -> Option<AssignOp> {
    match k {
        TokenKindV::Sym(Symbol::Assign) => Some(AssignOp::Plain),
        TokenKindV::Sym(Symbol::PlusEq) => Some(AssignOp::Add),
        TokenKindV::Sym(Symbol::MinusEq) => Some(AssignOp::Sub),
        TokenKindV::Sym(Symbol::StarEq) => Some(AssignOp::Mul),
        TokenKindV::Sym(Symbol::SlashEq) => Some(AssignOp::Div),
        _ => None,
    }
}

/// What can be assigned to: a variable, an index, a field, or `*pointer`.
pub open spec fn is_assign_target(e: ExprV) -> bool {
    match e.kind {
        ExprKindV::Ident(_) => true,
        ExprKindV::Index { .. } => true,
        ExprKindV::FieldAccess { .. } => true,
        ExprKindV::Unary { op, .. } => op == UnOp::Deref,
        _ => false,
    }
}

pub open spec fn bad_target(e: ExprV) -> JimErrorV {
    JimErrorV {
        msg: "invalid assignment target (expected a variable, index, field, or '*pointer')"@,
        line: e.line,
        col: e.col,
    }
}

/// An assignment, `++`/`--`, or a bare expression, without the `;`.
pub open spec fn p_simple(ts: Seq<TokenV>, p: int) -> PR<StmtV> {
    let t = ts[p];
    match p_expr(ts, p) {
        PR::Fail(e) => PR::Fail(e),
        PR::Done(e, q) => match assign_op_of(ts[q].kind) {
            Some(op) => if !is_assign_target(e) {
                PR::Fail(bad_target(e))
            } else {
                match p_expr(ts, q + 1) {
                    PR::Fail(x) => PR::Fail(x),
                    PR::Done(value, r) => PR::Done(sk(StmtKindV::Assign { target: e, op, value }, t.line, t.col), r),
                }
            },
            None => if is_sym(ts, q, Symbol::PlusPlus) || is_sym(ts, q, Symbol::MinusMinus) {
                if !is_assign_target(e) {
                    PR::Fail(bad_target(e))
                } else {
                    PR::Done(sk(StmtKindV::IncDec { target: e, inc: is_sym(ts, q, Symbol::PlusPlus) }, t.line, t.col), q + 1)
                }
            } else {
                PR::Done(sk(StmtKindV::ExprStmt(e), t.line, t.col), q)
            },
        },
    }
}

/// `var name: Type = init;` (or `const`), from the keyword at `p`.
pub open spec fn p_var_decl(ts: Seq<TokenV>, p: int, is_const: bool) -> PR<StmtV> {
    let t = ts[p];
    match p_ident(ts, p + 1, "a variable name"@) {
        PR::Fail(e) => PR::Fail(e),
        PR::Done(name, _) => if !is_sym(ts, p + 2, Symbol::Colon) {
            PR::Fail(expected(ts, p + 2, "':' (jim declarations are 'var name: Type = ...')"@))
        } else {
            match p_type(ts, p + 3) {
                PR::Fail(e) => PR::Fail(e),
                PR::Done(ty, q) => if !is_sym(ts, q, Symbol::Assign) {
                    PR::Fail(expected(ts, q, "'=' (jim variables must be initialized)"@))
                } else {
                    match p_expr(ts, q + 1) {
                        PR::Fail(e) => PR::Fail(e),
                        PR::Done(init, r) => if !is_sym(ts, r, Symbol::Semicolon) {
                            PR::Fail(expected(ts, r, "';'"@))
                        } else {
                            PR::Done(sk(StmtKindV::VarDecl { is_const, name, ty, init }, t.line, t.col), r + 1)
                        },
                    }
                },
            }
        },
    }
}

/// A `{ ... }` block, or a single statement standing for one.
pub open spec fn p_block_or_single(ts: Seq<TokenV>, p: int) -> PR<BlockV>
    decreases left(ts, p), 6int,
{
    if !(0 <= p < ts.len()) {
        PR::Fail(stuck())
    } else if is_sym(ts, p, Symbol::LBrace) {
        p_block(ts, p)
    } else {
        match p_stmt(ts, p) {
            PR::Fail(e) => PR::Fail(e),
            PR::Done(s, q) => PR::Done(BlockV { stmts: seq![s] }, q),
        }
    }
}

/// `{ statements }`.
pub open spec fn p_block(ts: Seq<TokenV>, p: int) -> PR<BlockV>
    decreases left(ts, p), 5int,
{
    if !(0 <= p < ts.len()) {
        PR::Fail(stuck())
    } else if !is_sym(ts, p, Symbol::LBrace) {
        PR::Fail(expected(ts, p, "'{'"@))
    } else {
        p_stmts(ts, p + 1, Seq::empty())
    }
}

/// Statements up to and including the closing `}`.
pub open spec fn p_stmts(ts: Seq<TokenV>, p: int, acc: Seq<StmtV>) -> PR<BlockV>
    decreases left(ts, p), 5int,
{
    if !(0 <= p < ts.len()) {
        PR::Fail(stuck())
    } else if is_sym(ts, p, Symbol::RBrace) {
        PR::Done(BlockV { stmts: acc }, p + 1)
    } else if ts[p].kind == TokenKindV::Eof {
        PR::Fail(err_at(ts, p, "unexpected end of file inside a block (missing '}')"@))
    } else {
        match p_stmt(ts, p) {
            PR::Fail(e) => PR::Fail(e),
            PR::Done(s, q) => if q > p { p_stmts(ts, q, acc.push(s)) } else { PR::Fail(stuck()) },
        }
    }
}

/// One statement.
pub open spec fn p_stmt(ts: Seq<TokenV>, p: int) -> PR<StmtV>
    decreases left(ts, p), 4int,
{
    if !(0 <= p < ts.len()) {
        PR::Fail(stuck())
    } else {
        let t = ts[p];
        match t.kind {
            TokenKindV::Kw(Keyword::Var) => p_var_decl(ts, p, false),
            TokenKindV::Kw(Keyword::Const) => p_var_decl(ts, p, true),
            TokenKindV::Kw(Keyword::Return) => if is_sym(ts, p + 1, Symbol::Semicolon) {
                PR::Done(sk(StmtKindV::Return(None), t.line, t.col), p + 2)
            } else {
                match p_expr(ts, p + 1) {
                    PR::Fail(e) => PR::Fail(e),
                    PR::Done(v, q) => if is_sym(ts, q, Symbol::Semicolon) {
                        PR::Done(sk(StmtKindV::Return(Some(v)), t.line, t.col), q + 1)
                    } else {
                        PR::Fail(expected(ts, q, "';'"@))
                    },
                }
            },
            TokenKindV::Kw(Keyword::Break) => if is_sym(ts, p + 1, Symbol::Semicolon) {
                PR::Done(sk(StmtKindV::Break, t.line, t.col), p + 2)
            } else {
                PR::Fail(expected(ts, p + 1, "';'"@))
            },
            TokenKindV::Kw(Keyword::Continue) => if is_sym(ts, p + 1, Symbol::Semicolon) {
                PR::Done(sk(StmtKindV::Continue, t.line, t.col), p + 2)
            } else {
                PR::Fail(expected(ts, p + 1, "';'"@))
            },
            TokenKindV::Kw(Keyword::If) => p_if(ts, p, Seq::empty(), t.line, t.col),
            TokenKindV::Kw(Keyword::While) => if !is_sym(ts, p + 1, Symbol::LParen) {
                PR::Fail(expected(ts, p + 1, "'('"@))
            } else {
                match p_expr(ts, p + 2) {
                    PR::Fail(e) => PR::Fail(e),
                    PR::Done(cond, r) => if !is_sym(ts, r, Symbol::RParen) {
                        PR::Fail(expected(ts, r, "')'"@))
                    } else if r > p {
                        match p_block_or_single(ts, r + 1) {
                            PR::Fail(e) => PR::Fail(e),
                            PR::Done(body, q) => PR::Done(sk(StmtKindV::While { cond, body }, t.line, t.col), q),
                        }
                    } else {
                        PR::Fail(stuck())
                    },
                }
            },
            TokenKindV::Kw(Keyword::For) => p_for(ts, p),
            TokenKindV::Kw(Keyword::Try) => p_try(ts, p),
            _ => match p_simple(ts, p) {
                PR::Fail(e) => PR::Fail(e),
                PR::Done(st, q) => if is_sym(ts, q, Symbol::Semicolon) {
                    PR::Done(st, q + 1)
                } else {
                    PR::Fail(expected(ts, q, "';'"@))
                },
            },
        }
    }
}

/// `try { ... } catch (name: Type) { ... }`, from the `try` at `p`.
pub open spec fn p_try(ts: Seq<TokenV>, p: int) -> PR<StmtV>
    decreases left(ts, p), 3int,
{
    if !(0 <= p < ts.len()) {
        PR::Fail(stuck())
    } else {
        match p_block(ts, p + 1) {
            PR::Fail(e) => PR::Fail(e),
            PR::Done(body, r) => if r > p { p_catch(ts, r, body, ts[p].line, ts[p].col) } else { PR::Fail(stuck()) },
        }
    }
}

/// `catch (name: Type) { ... }` at `p`, after the try block `body`.
pub open spec fn p_catch(ts: Seq<TokenV>, p: int, body: BlockV, line: u32, col: u32) -> PR<StmtV>
    decreases left(ts, p), 3int,
{
    if !(0 <= p < ts.len()) {
        PR::Fail(stuck())
    } else if !is_kw(ts, p, Keyword::Catch) {
        PR::Fail(expected(ts, p, "'catch' after the try block"@))
    } else if !is_sym(ts, p + 1, Symbol::LParen) {
        PR::Fail(expected(ts, p + 1, "'('"@))
    } else {
        match p_ident(ts, p + 2, "the exception variable name"@) {
            PR::Fail(e) => PR::Fail(e),
            PR::Done(var_name, _) => if !is_sym(ts, p + 3, Symbol::Colon) {
                PR::Fail(expected(ts, p + 3, "':' (catch clauses are 'catch (e: Exception)')"@))
            } else {
                match p_type(ts, p + 4) {
                    PR::Fail(e) => PR::Fail(e),
                    PR::Done(var_ty, q) => if !is_sym(ts, q, Symbol::RParen) {
                        PR::Fail(expected(ts, q, "')'"@))
                    } else if q > p {
                        match p_block(ts, q + 1) {
                            PR::Fail(e) => PR::Fail(e),
                            PR::Done(catch_body, q2) => PR::Done(
                                sk(StmtKindV::TryCatch { body, var_name, var_ty, catch_body }, line, col),
                                q2,
                            ),
                        }
                    } else {
                        PR::Fail(stuck())
                    },
                }
            },
        }
    }
}

/// An `if` / `else if` / `else` chain from the `if` at `p`; `arms` are the
/// arms read so far.
pub open spec fn p_if(ts: Seq<TokenV>, p: int, arms: Seq<(ExprV, BlockV)>, line: u32, col: u32) -> PR<StmtV>
    decreases left(ts, p), 3int,
{
    if !(0 <= p < ts.len()) {
        PR::Fail(stuck())
    } else if !is_kw(ts, p, Keyword::If) {
        PR::Fail(expected(ts, p, "'if'"@))
    } else if !is_sym(ts, p + 1, Symbol::LParen) {
        PR::Fail(expected(ts, p + 1, "'('"@))
    } else {
        match p_expr(ts, p + 2) {
            PR::Fail(e) => PR::Fail(e),
            PR::Done(cond, r) => if !is_sym(ts, r, Symbol::RParen) {
                PR::Fail(expected(ts, r, "')'"@))
            } else if r > p {
                match p_block_or_single(ts, r + 1) {
                    PR::Fail(e) => PR::Fail(e),
                    PR::Done(body, q) => {
                        let arms2 = arms.push((cond, body));
                        if !is_kw(ts, q, Keyword::Else) {
                            PR::Done(sk(StmtKindV::If { arms: arms2, else_block: None }, line, col), q)
                        } else if q > p && is_kw(ts, q + 1, Keyword::If) {
                            p_if(ts, q + 1, arms2, line, col)
                        } else if q > p {
                            match p_block_or_single(ts, q + 1) {
                                PR::Fail(e) => PR::Fail(e),
                                PR::Done(eb, q2) => PR::Done(
                                    sk(StmtKindV::If { arms: arms2, else_block: Some(eb) }, line, col),
                                    q2,
                                ),
                            }
                        } else {
                            PR::Fail(stuck())
                        }
                    },
                }
            } else {
                PR::Fail(stuck())
            },
        }
    }
}

/// `for (name: Type = init; cond; step) body` or `for (name: Type in iterable) body`.
pub open spec fn p_for(ts: Seq<TokenV>, p: int) -> PR<StmtV>
    decreases left(ts, p), 3int,
{
    if !(0 <= p < ts.len()) {
        PR::Fail(stuck())
    } else if !is_kw(ts, p, Keyword::For) {
        PR::Fail(expected(ts, p, "'for'"@))
    } else if !is_sym(ts, p + 1, Symbol::LParen) {
        PR::Fail(expected(ts, p + 1, "'('"@))
    } else {
        match p_ident(ts, p + 2, "a loop variable name"@) {
            PR::Fail(e) => PR::Fail(e),
            PR::Done(var_name, _) => if !is_sym(ts, p + 3, Symbol::Colon) {
                PR::Fail(expected(ts, p + 3, "':' (loop variables are 'name: Type')"@))
            } else {
                match p_type(ts, p + 4) {
                    PR::Fail(e) => PR::Fail(e),
                    PR::Done(var_ty, q) => if q > p {
                        p_for_rest(ts, q, var_name, var_ty, ts[p].line, ts[p].col)
                    } else {
                        PR::Fail(stuck())
                    },
                }
            },
        }
    }
}

/// After `for (name: Type`: the C-style or the for-in form.
pub open spec fn p_for_rest(ts: Seq<TokenV>, p: int, var_name: Seq<char>, var_ty: TypeV, line: u32, col: u32) -> PR<StmtV>
    decreases left(ts, p), 3int,
{
    if !(0 <= p < ts.len()) {
        PR::Fail(stuck())
    } else if is_sym(ts, p, Symbol::Assign) {
        p_for_c(ts, p + 1, var_name, var_ty, line, col)
    } else if is_kw(ts, p, Keyword::In) {
        match p_expr(ts, p + 1) {
            PR::Fail(e) => PR::Fail(e),
            PR::Done(iterable, r) => if !is_sym(ts, r, Symbol::RParen) {
                PR::Fail(expected(ts, r, "')'"@))
            } else if r > p {
                match p_block_or_single(ts, r + 1) {
                    PR::Fail(e) => PR::Fail(e),
                    PR::Done(body, r2) => PR::Done(
                        sk(StmtKindV::ForIn { var_name, var_ty, iterable, body }, line, col),
                        r2,
                    ),
                }
            } else {
                PR::Fail(stuck())
            },
        }
    } else {
        PR::Fail(err_at(ts, p, "expected '=' (C-style for) or 'in' (for-in) after the loop variable, found "@ + describe_spec(ts[p].kind)))
    }
}

/// `init; cond; step) body` of a C-style `for`, from `init` at `p`.
pub open spec fn p_for_c(ts: Seq<TokenV>, p: int, var_name: Seq<char>, var_ty: TypeV, line: u32, col: u32) -> PR<StmtV>
    decreases left(ts, p), 3int,
{
    if !(0 <= p < ts.len()) {
        PR::Fail(stuck())
    } else {
        match p_expr(ts, p) {
            PR::Fail(e) => PR::Fail(e),
            PR::Done(init, r) => if !is_sym(ts, r, Symbol::Semicolon) {
                PR::Fail(expected(ts, r, "';'"@))
            } else {
                match p_expr(ts, r + 1) {
                    PR::Fail(e) => PR::Fail(e),
                    PR::Done(cond, r2) => if !is_sym(ts, r2, Symbol::Semicolon) {
                        PR::Fail(expected(ts, r2, "';'"@))
                    } else {
                        match p_simple(ts, r2 + 1) {
                            PR::Fail(e) => PR::Fail(e),
                            PR::Done(step, r3) => if !is_sym(ts, r3, Symbol::RParen) {
                                PR::Fail(expected(ts, r3, "')'"@))
                            } else if r3 >= p {
                                match p_block_or_single(ts, r3 + 1) {
                                    PR::Fail(e) => PR::Fail(e),
                                    PR::Done(body, r4) => PR::Done(
                                        sk(StmtKindV::ForC { var_name, var_ty, init, cond, step: Box::new(step), body }, line, col),
                                        r4,
                                    ),
                                }
                            } else {
                                PR::Fail(stuck())
                            },
                        }
                    },
                }
            },
        }
    }
}

// ---------------- declarations ----------------

/// `name: Type` parameters separated by commas, from `p` on.
pub open spec fn p_param_items(ts: Seq<TokenV>, p: int, acc: Seq<ParamV>) -> PR<Seq<ParamV>>
    decreases left(ts, p),
{
    if !(0 <= p < ts.len()) {
        PR::Fail(stuck())
    } else {
        match p_ident(ts, p, "a parameter name"@) {
            PR::Fail(e) => PR::Fail(e),
            PR::Done(name, _) => if !is_sym(ts, p + 1, Symbol::Colon) {
                PR::Fail(expected(ts, p + 1, "':' (jim parameters are 'name: Type')"@))
            } else {
                match p_type(ts, p + 2) {
                    PR::Fail(e) => PR::Fail(e),
                    PR::Done(ty, q) => {
                        let acc2 = acc.push(ParamV { name, ty, line: ts[p].line, col: ts[p].col });
                        if q > p && is_sym(ts, q, Symbol::Comma) {
                            p_param_items(ts, q + 1, acc2)
                        } else if q > p {
                            PR::Done(acc2, q)
                        } else {
                            PR::Fail(stuck())
                        }
                    },
                }
            },
        }
    }
}

/// `( name: Type, ... )`.
pub open spec fn p_params(ts: Seq<TokenV>, p: int) -> PR<Seq<ParamV>> {
    if !is_sym(ts, p, Symbol::LParen) {
        PR::Fail(expected(ts, p, "'('"@))
    } else if is_sym(ts, p + 1, Symbol::RParen) {
        PR::Done(Seq::empty(), p + 2)
    } else {
        match p_param_items(ts, p + 1, Seq::empty()) {
            PR::Fail(e) => PR::Fail(e),
            PR::Done(ps, r) => if is_sym(ts, r, Symbol::RParen) {
                PR::Done(ps, r + 1)
            } else {
                PR::Fail(expected(ts, r, "')'"@))
            },
        }
    }
}

/// Distinct type parameter names separated by commas, from `p` on.
pub open spec fn p_type_params(ts: Seq<TokenV>, p: int, acc: Seq<Seq<char>>) -> PR<Seq<Seq<char>>>
    decreases left(ts, p),
{
    if !(0 <= p < ts.len()) {
        PR::Fail(stuck())
    } else {
        match p_ident(ts, p, "a type parameter name"@) {
            PR::Fail(e) => PR::Fail(e),
            PR::Done(n, _) => if acc.contains(n) {
                PR::Fail(err_at(ts, p, "duplicate type parameter '"@ + n + "'"@))
            } else if is_sym(ts, p + 1, Symbol::Comma) {
                p_type_params(ts, p + 2, acc.push(n))
            } else {
                PR::Done(acc.push(n), p + 1)
            },
        }
    }
}

/// `function name<T, ...>(params) -> Type { body }` at `p`.
pub open spec fn p_function(ts: Seq<TokenV>, p: int, file_idx: usize, from_std: bool) -> PR<FunctionDeclV> {
    if !is_kw(ts, p, Keyword::Function) {
        PR::Fail(expected(ts, p, "'function'"@))
    } else {
        match p_ident(ts, p + 1, "a function name"@) {
            PR::Fail(e) => PR::Fail(e),
            PR::Done(name, _) => {
                let tps: PR<Seq<Seq<char>>> = if is_sym(ts, p + 2, Symbol::Lt) {
                    match p_type_params(ts, p + 3, Seq::empty()) {
                        PR::Fail(e) => PR::Fail(e),
                        PR::Done(tp, q) => if is_sym(ts, q, Symbol::Gt) {
                            PR::Done(tp, q + 1)
                        } else {
                            PR::Fail(expected(ts, q, "'>' to close the type parameter list"@))
                        },
                    }
                } else {
                    PR::Done(Seq::empty(), p + 2)
                };
                match tps {
                    PR::Fail(e) => PR::Fail(e),
                    PR::Done(type_params, q) => match p_params(ts, q) {
                        PR::Fail(e) => PR::Fail(e),
                        PR::Done(params, r) => if !is_sym(ts, r, Symbol::Arrow) {
                            PR::Fail(err_at(ts, r, "function '"@ + name
                                + "' is missing its return type: jim requires '-> Type' (use '-> None' for no value)"@))
                        } else {
                            match p_type(ts, r + 1) {
                                PR::Fail(e) => PR::Fail(e),
                                PR::Done(ret, r2) => match p_block(ts, r2) {
                                    PR::Fail(e) => PR::Fail(e),
                                    PR::Done(body, r3) => PR::Done(
                                        FunctionDeclV {
                                            name,
                                            type_params,
                                            params,
                                            ret,
                                            body,
                                            file_idx,
                                            from_std,
                                            line: ts[p].line,
                                            col: ts[p].col,
                                        },
                                        r3,
                                    ),
                                },
                            }
                        },
                    },
                }
            },
        }
    }
}

/// `(params) -> Type { body }` of a method whose name was read.
pub open spec fn p_method_rest(ts: Seq<TokenV>, p: int, is_public: bool, name: Seq<char>, line: u32, col: u32) -> PR<MethodDeclV> {
    match p_params(ts, p) {
        PR::Fail(e) => PR::Fail(e),
        PR::Done(params, r) => if !is_sym(ts, r, Symbol::Arrow) {
            PR::Fail(err_at(ts, r, "method '"@ + name
                + "' is missing its return type: jim requires '-> Type' (use '-> None' for no value)"@))
        } else {
            match p_type(ts, r + 1) {
                PR::Fail(e) => PR::Fail(e),
                PR::Done(ret, r2) => match p_block(ts, r2) {
                    PR::Fail(e) => PR::Fail(e),
                    PR::Done(body, r3) => PR::Done(MethodDeclV { is_public, name, params, ret, body, line, col }, r3),
                },
            }
        },
    }
}

/// A class member: a field or a method.
pub enum MemberV {
    Field(FieldDeclV),
    Method(MethodDeclV),
}

/// `public|private name: Type = default;` or `public|private name(params) -> Type { body }`.
pub open spec fn p_member(ts: Seq<TokenV>, p: int) -> PR<MemberV> {
    let vis = ts[p];
    let is_public = vis.kind == TokenKindV::Kw(Keyword::Public);
    match p_ident(ts, p + 1, "a member name"@) {
        PR::Fail(e) => PR::Fail(e),
        PR::Done(name, _) => if is_sym(ts, p + 2, Symbol::Colon) {
            match p_type(ts, p + 3) {
                PR::Fail(e) => PR::Fail(e),
                PR::Done(ty, q) => if !is_sym(ts, q, Symbol::Assign) {
                    PR::Fail(expected(ts, q, "'=' (fields need a default value: 'name: Type = value;')"@))
                } else {
                    match p_expr(ts, q + 1) {
                        PR::Fail(e) => PR::Fail(e),
                        PR::Done(default, r) => if !is_sym(ts, r, Symbol::Semicolon) {
                            PR::Fail(expected(ts, r, "';'"@))
                        } else {
                            PR::Done(
                                MemberV::Field(FieldDeclV { is_public, name, ty, default, line: vis.line, col: vis.col }),
                                r + 1,
                            )
                        },
                    }
                },
            }
        } else {
            match p_method_rest(ts, p + 2, is_public, name, vis.line, vis.col) {
                PR::Fail(e) => PR::Fail(e),
                PR::Done(m, r) => PR::Done(MemberV::Method(m), r),
            }
        },
    }
}

/// `Name(params) { body }`: the constructor, from the class name at `p`.
pub open spec fn p_ctor(ts: Seq<TokenV>, p: int) -> PR<CtorDeclV> {
    let t = ts[p];
    match p_params(ts, p + 1) {
        PR::Fail(e) => PR::Fail(e),
        PR::Done(params, r) => if is_sym(ts, r, Symbol::Arrow) {
            PR::Fail(err_at(ts, r, "constructors have no return type"@))
        } else {
            match p_block(ts, r) {
                PR::Fail(e) => PR::Fail(e),
                PR::Done(body, r2) => PR::Done(CtorDeclV { params, body, line: t.line, col: t.col }, r2),
            }
        },
    }
}

/// What a class body holds: fields, the constructor if any, methods.
pub struct ClassBodyV {
    pub fields: Seq<FieldDeclV>,
    pub ctor: Option<CtorDeclV>,
    pub methods: Seq<MethodDeclV>,
}

/// Class members up to and including the closing `}`; `acc` holds those read so far.
pub open spec fn p_members(ts: Seq<TokenV>, p: int, cname: Seq<char>, acc: ClassBodyV) -> PR<ClassBodyV>
    decreases left(ts, p),
{
    if !(0 <= p < ts.len()) {
        PR::Fail(stuck())
    } else {
        match ts[p].kind {
            TokenKindV::Sym(Symbol::RBrace) => PR::Done(acc, p + 1),
            TokenKindV::Eof => PR::Fail(err_at(ts, p, "unexpected end of file inside a class (missing '}')"@)),
            TokenKindV::Kw(Keyword::Public) => p_members_member(ts, p, cname, acc),
            TokenKindV::Kw(Keyword::Private) => p_members_member(ts, p, cname, acc),
            TokenKindV::Ident(n) => if n == cname {
                if acc.ctor is Some {
                    PR::Fail(err_at(ts, p, "class '"@ + cname + "' already has a constructor (jim has no overloading)"@))
                } else {
                    match p_ctor(ts, p) {
                        PR::Fail(e) => PR::Fail(e),
                        PR::Done(c, q) => if q > p {
                            p_members(ts, q, cname, ClassBodyV { ctor: Some(c), ..acc })
                        } else {
                            PR::Fail(stuck())
                        },
                    }
                }
            } else {
                PR::Fail(err_at(ts, p, "class members start with 'public' or 'private' (or a '"@ + cname
                    + "(...)' constructor), found '"@ + n + "'"@))
            },
            other => PR::Fail(err_at(ts, p, "expected a class member or '}', found "@ + describe_spec(other))),
        }
    }
}

/// A field or method at `p`, then the rest of the class body.
pub open spec fn p_members_member(ts: Seq<TokenV>, p: int, cname: Seq<char>, acc: ClassBodyV) -> PR<ClassBodyV>
    decreases left(ts, p), 0int,
{
    if !(0 <= p < ts.len()) {
        PR::Fail(stuck())
    } else {
        match p_member(ts, p) {
            PR::Fail(e) => PR::Fail(e),
            PR::Done(m, q) => if q > p {
                match m {
                    MemberV::Field(f) => p_members(ts, q, cname, ClassBodyV { fields: acc.fields.push(f), ..acc }),
                    MemberV::Method(md) => p_members(ts, q, cname, ClassBodyV { methods: acc.methods.push(md), ..acc }),
                }
            } else {
                PR::Fail(stuck())
            },
        }
    }
}

/// `class Name<T> { members }` at `p`.
pub open spec fn p_class(ts: Seq<TokenV>, p: int, file_idx: usize, from_std: bool) -> PR<ClassDeclV> {
    if !is_kw(ts, p, Keyword::Class) {
        PR::Fail(expected(ts, p, "'class'"@))
    } else {
        match p_ident(ts, p + 1, "a class name"@) {
            PR::Fail(e) => PR::Fail(e),
            PR::Done(name, _) => {
                let tp: PR<Option<Seq<char>>> = if is_sym(ts, p + 2, Symbol::Lt) {
                    match p_ident(ts, p + 3, "a type parameter name"@) {
                        PR::Fail(e) => PR::Fail(e),
                        PR::Done(x, _) => if is_sym(ts, p + 4, Symbol::Gt) {
                            PR::Done(Some(x), p + 5)
                        } else {
                            PR::Fail(expected(ts, p + 4, "'>' to close the type parameter"@))
                        },
                    }
                } else {
                    PR::Done(None, p + 2)
                };
                match tp {
                    PR::Fail(e) => PR::Fail(e),
                    PR::Done(type_param, q) => if !is_sym(ts, q, Symbol::LBrace) {
                        PR::Fail(expected(ts, q, "'{'"@))
                    } else {
                        match p_members(ts, q + 1, name, ClassBodyV { fields: Seq::empty(), ctor: None, methods: Seq::empty() }) {
                            PR::Fail(e) => PR::Fail(e),
                            PR::Done(b, r) => PR::Done(
                                ClassDeclV {
                                    name,
                                    type_param,
                                    fields: b.fields,
                                    ctor: b.ctor,
                                    methods: b.methods,
                                    file_idx,
                                    from_std,
                                    line: ts[p].line,
                                    col: ts[p].col,
                                },
                                r,
                            ),
                        }
                    },
                }
            },
        }
    }
}

/// `#import <name>` or `#import "path.j"` at `p`.
pub open spec fn p_import(ts: Seq<TokenV>, p: int) -> PR<ImportV> {
    let t = ts[p];
    if !is_kw(ts, p, Keyword::Import) {
        PR::Fail(expected(ts, p, "'#import'"@))
    } else {
        match ts[p + 1].kind {
            TokenKindV::Sym(Symbol::Lt) => match p_ident(ts, p + 2, "a library name"@) {
                PR::Fail(e) => PR::Fail(e),
                PR::Done(n, _) => if is_sym(ts, p + 3, Symbol::Gt) {
                    PR::Done(ImportV { kind: ImportKindV::Std(n), line: t.line, col: t.col }, p + 4)
                } else {
                    PR::Fail(expected(ts, p + 3, "'>'"@))
                },
            },
            TokenKindV::Str(x) => PR::Done(ImportV { kind: ImportKindV::Local(x), line: t.line, col: t.col }, p + 2),
            other => PR::Fail(JimErrorV {
                msg: "expected '<library>' or \"file.j\" after '#import', found "@ + describe_spec(other),
                line: t.line,
                col: t.col,
            }),
        }
    }
}

/// The top-level items from `p` to the end; `acc` holds those read so far.
pub open spec fn p_module(ts: Seq<TokenV>, p: int, file_idx: usize, from_std: bool, acc: ModuleV) -> PR<ModuleV>
    decreases left(ts, p),
{
    if !(0 <= p < ts.len()) {
        PR::Fail(stuck())
    } else {
        match ts[p].kind {
            TokenKindV::Eof => PR::Done(acc, p),
            TokenKindV::Kw(Keyword::Import) => match p_import(ts, p) {
                PR::Fail(e) => PR::Fail(e),
                PR::Done(i, q) => if q > p {
                    p_module(ts, q, file_idx, from_std, ModuleV { imports: acc.imports.push(i), ..acc })
                } else {
                    PR::Fail(stuck())
                },
            },
            TokenKindV::Kw(Keyword::Function) => match p_function(ts, p, file_idx, from_std) {
                PR::Fail(e) => PR::Fail(e),
                PR::Done(f, q) => if q > p {
                    p_module(ts, q, file_idx, from_std, ModuleV { functions: acc.functions.push(f), ..acc })
                } else {
                    PR::Fail(stuck())
                },
            },
            TokenKindV::Kw(Keyword::Class) => match p_class(ts, p, file_idx, from_std) {
                PR::Fail(e) => PR::Fail(e),
                PR::Done(c, q) => if q > p {
                    p_module(ts, q, file_idx, from_std, ModuleV { classes: acc.classes.push(c), ..acc })
                } else {
                    PR::Fail(stuck())
                },
            },
            TokenKindV::Kw(Keyword::Try) => PR::Fail(err_at(ts, p, "try/catch is a statement — put it inside a function"@)),
            other => PR::Fail(err_at(ts, p, "expected 'function', 'class' or '#import' at top level, found "@ + describe_spec(other))),
        }
    }
}

/// A whole source file's module: everything from the first token on.
pub open spec fn parse_module_spec(ts: Seq<TokenV>, file_idx: usize, from_std: bool) -> PR<ModuleV> {
    p_module(ts, 0, file_idx, from_std, ModuleV { imports: Seq::empty(), functions: Seq::empty(), classes: Seq::empty() })
}

/// The binary operator spelled by symbol `s2` (at some precedence level)
/// is backed by method `m`.
pub open spec fn binary_backed_by(s2: Symbol, m: Seq<char>) -> bool {
    exists|lvl: int| #[trigger] binop_of(lvl, TokenKindV::Sym(s2)) matches Some(b)
        && crate::calls::arith_of(b) == Some((crate::token::symbol_text(s2), m))
}

/// The compound assignment `op` is spelled as symbol `s`, and its method
/// is the one behind the binary operator spelled `s` without its `=`.
pub open spec fn compound_spelled(s: Symbol, op: AssignOp) -> bool {
    crate::calls::compound_of(op) matches Some((sym, m)) && sym == crate::token::symbol_text(s)
        && exists|s2: Symbol| crate::token::symbol_text(s2) + "="@ == crate::token::symbol_text(s) && #[trigger] binary_backed_by(s2, m)
}

/// A compound assignment does what its spelling says: the token `op=`
/// parses to the assignment whose desugaring uses the same method as the
/// binary operator `op` (`*=` multiplies as `*` does, `+=` adds as `+`
/// does), and `=` alone is the plain assignment.
pub proof fn lemma_compound_assign_spelling(s: Symbol)
    ensures
        assign_op_of(TokenKindV::Sym(s)) == Some(AssignOp::Plain) <==> s == Symbol::Assign,
        assign_op_of(TokenKindV::Sym(s)) matches Some(op) ==> (op == AssignOp::Plain || compound_spelled(s, op)),
{
    reveal_strlit("=");
    reveal_strlit("+");
    reveal_strlit("-");
    reveal_strlit("*");
    reveal_strlit("/");
    reveal_strlit("+=");
    reveal_strlit("-=");
    reveal_strlit("*=");
    reveal_strlit("/=");
    match s {
        Symbol::PlusEq => {
            assert(binop_of(4, TokenKindV::Sym(Symbol::Plus)) == Some(BinOp::Add));
            assert(binary_backed_by(Symbol::Plus, "plus"@));
            assert(crate::token::symbol_text(Symbol::Plus) + "="@ =~= crate::token::symbol_text(s));
            assert(crate::token::symbol_text(s) == "+="@);
            assert(crate::calls::compound_of(AssignOp::Add) matches Some((sym, m)) && sym == "+="@ && m == "plus"@);
            assert(crate::token::symbol_text(Symbol::Plus) + "="@ == crate::token::symbol_text(s));
            assert(compound_spelled(s, AssignOp::Add));
        },
        Symbol::MinusEq => {
            assert(binop_of(4, TokenKindV::Sym(Symbol::Minus)) == Some(BinOp::Sub));
            assert(binary_backed_by(Symbol::Minus, "minus"@));
            assert(crate::token::symbol_text(Symbol::Minus) + "="@ =~= crate::token::symbol_text(s));
            assert(crate::token::symbol_text(s) == "-="@);
            assert(crate::calls::compound_of(AssignOp::Sub) matches Some((sym, m)) && sym == "-="@ && m == "minus"@);
            assert(crate::token::symbol_text(Symbol::Minus) + "="@ == crate::token::symbol_text(s));
            assert(compound_spelled(s, AssignOp::Sub));
        },
        Symbol::StarEq => {
            assert(binop_of(5, TokenKindV::Sym(Symbol::Star)) == Some(BinOp::Mul));
            assert(binary_backed_by(Symbol::Star, "times"@));
            assert(crate::token::symbol_text(Symbol::Star) + "="@ =~= crate::token::symbol_text(s));
            assert(crate::token::symbol_text(s) == "*="@);
            assert(crate::calls::compound_of(AssignOp::Mul) matches Some((sym, m)) && sym == "*="@ && m == "times"@);
            assert(crate::token::symbol_text(Symbol::Star) + "="@ == crate::token::symbol_text(s));
            assert(compound_spelled(s, AssignOp::Mul));
        },
        Symbol::SlashEq => {
            assert(binop_of(5, TokenKindV::Sym(Symbol::Slash)) == Some(BinOp::Div));
            assert(binary_backed_by(Symbol::Slash, "divide"@));
            assert(crate::token::symbol_text(Symbol::Slash) + "="@ =~= crate::token::symbol_text(s));
            assert(crate::token::symbol_text(s) == "/="@);
            assert(crate::calls::compound_of(AssignOp::Div) matches Some((sym, m)) && sym == "/="@ && m == "divide"@);
            assert(crate::token::symbol_text(Symbol::Slash) + "="@ == crate::token::symbol_text(s));
            assert(compound_spelled(s, AssignOp::Div));
        },
        _ => {},
    }
}

/// Where `b` is arithmetic, it is labelled with the spelling of `s`.
pub open spec fn arith_spelled(b: BinOp, s: Symbol) -> bool {
    match crate::calls::arith_of(b) {
        Some((t, _)) => t == crate::token::symbol_text(s),
        None => true,
    }
}

/// A binary arithmetic token parses to the operator whose method backs the
/// symbol it spells: `+` adds, `-` subtracts, `*` multiplies, `/` divides,
/// `%` takes the remainder, at the level of `+ -` or of `* / %`.
pub proof fn lemma_arith_tokens_spelled(level: int, s: Symbol)
    ensures
        binop_of(level, TokenKindV::Sym(s)) matches Some(b) ==> arith_spelled(b, s),
        binop_of(level, TokenKindV::Sym(s)) matches Some(b) ==> (crate::calls::arith_of(b) is Some <==>
            (s == Symbol::Plus || s == Symbol::Minus || s == Symbol::Star || s == Symbol::Slash || s == Symbol::Percent)),
{
}

} // verus!
