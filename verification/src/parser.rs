//! Recursive-descent parsing of a token stream, proved to follow the grammar
//! in `parser_spec`.

use vstd::prelude::*;
use crate::ast::{AssignOp, BinOp, Block, BlockV, ClassDecl, ClassDeclV, CtorDecl, Expr, ExprKind, ExprKindV, ExprV, FieldDecl, FieldDeclV, FunctionDecl, FunctionDeclV, Import, ImportKind, ImportV, MethodDecl, MethodDeclV, Module, ModuleV, Param, ParamV, Stmt, StmtKind, StmtKindV, StmtV, Type, TypeV, UnOp, arms_v, classes_v, exprs_v, fields_v, functions_v, imports_v, methods_v, names_v, params_v, stmts_v, types_v};
use crate::errors::JimError;
use crate::lexer_spec::ends_with_eof;
use crate::parser_spec::{PR, mk, sk, ClassBodyV, MemberV, p_class, p_ctor, p_function, p_import, p_member, p_members, p_members_member, p_method_rest, p_module, p_param_items, p_params, p_type_params, assign_op_of, bad_target, is_assign_target, p_block, p_block_or_single, p_for, p_if, p_simple, p_stmt, p_stmts, p_try, p_catch, p_for_rest, p_for_c, p_var_decl, binop_of, expected, err_at, is_sym, p_binary, p_bin_tail, p_call_args, p_delimited, p_expr, p_expr_list, p_not, p_operand, p_postfix, p_postfix_tail, p_primary, p_try_type_args, p_type, p_type_list, p_unary, unop_of};
use crate::text::{framed, lit_string, push_str};
use crate::token::{Keyword, Symbol, Token, TokenKind, TokenKindV, TokenV, describe_spec, same_kind, tokens_view};

verus! {

/// A parsing step's result agrees with the grammar's outcome `s`: the same
/// value (seen through `f`) ending at `end`, or the same error.
pub open spec fn agrees<X, T>(s: PR<T>, r: Result<X, JimError>, end: int, f: spec_fn(X) -> T) -> bool {
    match s {
        PR::Done(v, q) => r matches Ok(x) && f(x) == v && end == q,
        PR::Fail(e) => r matches Err(x) && x@ == e,
    }
}

/// A class member as parsed: a field or a method.
enum Member {
    Field(FieldDecl),
    Method(MethodDecl),
}

impl View for Member {
    type V = MemberV;

    closed spec fn view(&self) -> MemberV {
        match self {
            Member::Field(f) => MemberV::Field(f@),
            Member::Method(m) => MemberV::Method(m@),
        }
    }
}

/// The class body read so far.
spec fn body_v(fields: &Vec<FieldDecl>, ctor: &Option<CtorDecl>, methods: &Vec<MethodDecl>) -> ClassBodyV {
    ClassBodyV {
        fields: fields_v(fields@),
        ctor: match ctor { Some(c) => Some(c@), None => None },
        methods: methods_v(methods@),
    }
}

pub struct Parser {
    toks: Vec<Token>,
    pos: usize,
}

impl Parser {
    /// The tokens being parsed.
    pub closed spec fn tokens(&self) -> Seq<TokenV> {
        tokens_view(self.toks@)
    }

    /// The position of the next token.
    pub closed spec fn at(&self) -> int {
        self.pos as int
    }

    /// How many tokens remain from the position on.
    pub closed spec fn left(&self) -> int {
        self.toks@.len() - self.pos
    }

    /// The stream ends with its only `Eof`, and the position is inside it.
    pub closed spec fn wf(&self) -> bool {
        &&& ends_with_eof(self.tokens())
        &&& self.pos < self.toks@.len()
    }

    pub fn new(toks: Vec<Token>) -> (p: Parser)
        ensures
            p.tokens() == tokens_view(toks@),
            p.at() == 0,
            ends_with_eof(tokens_view(toks@)) ==> p.wf(),
    {
        Parser { toks, pos: 0 }
    }

    fn peek(&self) -> (t: &Token)
        requires
            self.wf(),
        ensures
            t@ == self.tokens()[self.at()],
    {
        &self.toks[self.pos]
    }

    fn bump(&mut self) -> (t: Token)
        requires
            old(self).wf(),
            old(self).tokens()[old(self).at()].kind != TokenKindV::Eof,
        ensures
            final(self).wf(),
            final(self).tokens() == old(self).tokens(),
            final(self).at() == old(self).at() + 1,
            t@ == old(self).tokens()[old(self).at()],
    {
        let t = self.toks[self.pos].copy();
        if self.pos < self.toks.len() - 1 {
            self.pos += 1;
        }
        t
    }

    fn check(&self, kind: &TokenKind) -> (b: bool)
        requires
            self.wf(),
        ensures
            b == same_kind(self.tokens()[self.at()].kind, kind@),
    {
        self.peek().kind.same_kind(kind)
    }

    fn eat(&mut self, kind: &TokenKind) -> (b: bool)
        requires
            old(self).wf(),
            kind@ != TokenKindV::Eof,
        ensures
            final(self).wf(),
            final(self).tokens() == old(self).tokens(),
            b == same_kind(old(self).tokens()[old(self).at()].kind, kind@),
            final(self).at() == old(self).at() + if b { 1int } else { 0int },
    {
        if self.check(kind) {
            self.bump();
            true
        } else {
            false
        }
    }

    /// `expected <what> but found <token>` at the current token.
    fn expected_err(&self, what: &str) -> (e: JimError)
        requires
            self.wf(),
        ensures
            e@ == expected(self.tokens(), self.at(), what@),
    {
        let t = self.peek();
        let mut msg = framed("expected ", what, " but found ");
        let d = t.kind.describe();
        push_str(&mut msg, d.as_str());
        JimError::new(msg, t.line, t.col)
    }

    fn expect(&mut self, kind: &TokenKind, what: &str) -> (r: Result<Token, JimError>)
        requires
            old(self).wf(),
            kind@ != TokenKindV::Eof,
        ensures
            final(self).wf(),
            final(self).tokens() == old(self).tokens(),
            same_kind(old(self).tokens()[old(self).at()].kind, kind@) ==> (r matches Ok(t)
                && t@ == old(self).tokens()[old(self).at()] && final(self).at() == old(self).at() + 1),
            !same_kind(old(self).tokens()[old(self).at()].kind, kind@) ==> (r matches Err(e)
                && e@ == expected(old(self).tokens(), old(self).at(), what@)),
    {
        if self.check(kind) {
            Ok(self.bump())
        } else {
            Err(self.expected_err(what))
        }
    }

    fn expect_ident(&mut self, what: &str) -> (r: Result<(String, u32, u32), JimError>)
        requires
            old(self).wf(),
        ensures
            final(self).wf(),
            final(self).tokens() == old(self).tokens(),
            match old(self).tokens()[old(self).at()].kind {
                TokenKindV::Ident(n) => r matches Ok((name, line, col)) && name@ == n
                    && line == old(self).tokens()[old(self).at()].line
                    && col == old(self).tokens()[old(self).at()].col
                    && final(self).at() == old(self).at() + 1,
                _ => r matches Err(e) && e@ == expected(old(self).tokens(), old(self).at(), what@),
            },
    {
        let t = self.peek();
        match &t.kind {
            TokenKind::Ident(name) => {
                let r = (name.clone(), t.line, t.col);
                self.bump();
                Ok(r)
            },
            _ => Err(self.expected_err(what)),
        }
    }

    fn err_here(&self, msg: String) -> (e: JimError)
        requires
            self.wf(),
        ensures
            e@ == err_at(self.tokens(), self.at(), msg@),
    {
        let t = self.peek();
        JimError::new(msg, t.line, t.col)
    }

    // ---------------- types ----------------

    fn parse_type(&mut self) -> (r: Result<Type, JimError>)
        requires
            old(self).wf(),
        ensures
            final(self).wf(),
            final(self).tokens() == old(self).tokens(),
            agrees(p_type(old(self).tokens(), old(self).at()), r, final(self).at(), |t: Type| t@),
            r is Ok ==> final(self).at() > old(self).at(),
        decreases old(self).left(),
    {
        let ghost ts = self.tokens();
        let ghost p = self.at();
        assert(0 <= p < ts.len());
        if self.eat(&TokenKind::Sym(Symbol::Star)) {
            assert(is_sym(ts, p, Symbol::Star));
            let inner = match self.parse_type() {
                Ok(v) => v,
                Err(e) => {
                    assert(p_type(ts, p + 1) is Fail);
                    return Err(e);
                }
            };
            let ghost iv = inner@;
            let res = match inner {
                Type::Optional(t) => {
                    let ptr = Type::Pointer(t);
                    assert(ptr@ == TypeV::Pointer(iv->Optional_0));
                    Type::Optional(Box::new(ptr))
                },
                t => Type::Pointer(Box::new(t)),
            };
            return Ok(res);
        }
        let name = if self.check(&TokenKind::Kw(Keyword::NoneKw)) {
            self.bump();
            lit_string("None")
        } else {
            let (n, _, _) = match self.expect_ident("a type name") {
                Ok(v) => v,
                Err(e) => return Err(e),
            };
            n
        };
        assert(self.at() == p + 1);
        let ghost base: PR<TypeV>;
        let mut ty = if self.eat(&TokenKind::Sym(Symbol::Lt)) {
            let inner = match self.parse_type() {
                Ok(v) => v,
                Err(e) => return Err(e),
            };
            if let Err(e) = self.expect(&TokenKind::Sym(Symbol::Gt), "'>' to close the generic type") {
                return Err(e);
            }
            let g = Type::Generic(name, Box::new(inner));
            proof { base = PR::Done(g@, self.at()); }
            g
        } else {
            let n = Type::Named(name);
            proof { base = PR::Done(n@, self.at()); }
            n
        };
        if self.eat(&TokenKind::Sym(Symbol::Question)) {
            ty = Type::Optional(Box::new(ty));
        }
        Ok(ty)
    }

    /// A tentative `<T, ...>` that must be followed by `(`; on any mismatch
    /// the position is restored and `None` returned.
    fn try_parse_type_args(&mut self) -> (r: Option<Vec<Type>>)
        requires
            old(self).wf(),
        ensures
            final(self).wf(),
            final(self).tokens() == old(self).tokens(),
            match p_try_type_args(old(self).tokens(), old(self).at()) {
                Some((tys, q)) => r matches Some(v) && types_v(v@) == tys && final(self).at() == q,
                None => r is None && final(self).at() == old(self).at(),
            },
            r is Some ==> final(self).at() > old(self).at(),
    {
        let ghost ts = self.tokens();
        let ghost p = self.at();
        let saved = self.pos;
        if !self.eat(&TokenKind::Sym(Symbol::Lt)) {
            return None;
        }
        let ghost goal = p_type_list(ts, p + 1, Seq::empty());
        let mut type_args: Vec<Type> = Vec::new();
        assert(types_v(type_args@) =~= Seq::<TypeV>::empty());
        loop
            invariant_except_break
                goal == p_type_list(ts, self.at(), types_v(type_args@)),
            invariant
                self.wf(),
                self.tokens() == ts,
                ts == old(self).tokens(),
                p == old(self).at(),
                saved == p,
                self.at() > p,
                goal == p_type_list(ts, p + 1, Seq::empty()),
            ensures
                self.wf(),
                self.tokens() == ts,
                self.at() > p,
                goal == Some((types_v(type_args@), self.at())),
            decreases self.toks@.len() - self.pos,
        {
            let ghost q = self.at();
            match self.parse_type() {
                Ok(t) => {
                    let ghost before = types_v(type_args@);
                    type_args.push(t);
                    assert(types_v(type_args@) =~= before.push(t@));
                },
                Err(_) => {
                    self.pos = saved;
                    return None;
                },
            }
            if !self.eat(&TokenKind::Sym(Symbol::Comma)) {
                break;
            }
        }
        if self.eat(&TokenKind::Sym(Symbol::Gt)) && self.check(&TokenKind::Sym(Symbol::LParen)) {
            Some(type_args)
        } else {
            self.pos = saved;
            None
        }
    }

    // ---------------- expressions ----------------

    fn binop_here(&self, level: u8) -> (r: Option<BinOp>)
        requires
            self.wf(),
        ensures
            r == binop_of(level as int, self.tokens()[self.at()].kind),
    {
        let k = &self.peek().kind;
        if level == 0 {
            match k {
                TokenKind::Kw(Keyword::Or) => Some(BinOp::Or),
                _ => None,
            }
        } else if level == 1 {
            match k {
                TokenKind::Kw(Keyword::And) => Some(BinOp::And),
                _ => None,
            }
        } else if level == 3 {
            match k {
                TokenKind::Sym(Symbol::EqEq) => Some(BinOp::Eq),
                TokenKind::Sym(Symbol::NotEq) => Some(BinOp::NotEq),
                TokenKind::Sym(Symbol::Lt) => Some(BinOp::Lt),
                TokenKind::Sym(Symbol::LtEq) => Some(BinOp::LtEq),
                TokenKind::Sym(Symbol::Gt) => Some(BinOp::Gt),
                TokenKind::Sym(Symbol::GtEq) => Some(BinOp::GtEq),
                _ => None,
            }
        } else if level == 4 {
            match k {
                TokenKind::Sym(Symbol::Plus) => Some(BinOp::Add),
                TokenKind::Sym(Symbol::Minus) => Some(BinOp::Sub),
                _ => None,
            }
        } else if level == 5 {
            match k {
                TokenKind::Sym(Symbol::Star) => Some(BinOp::Mul),
                TokenKind::Sym(Symbol::Slash) => Some(BinOp::Div),
                TokenKind::Sym(Symbol::Percent) => Some(BinOp::Mod),
                TokenKind::Kw(Keyword::Div) => Some(BinOp::IntDiv),
                _ => None,
            }
        } else {
            None
        }
    }

    fn unop_here(&self) -> (r: Option<UnOp>)
        requires
            self.wf(),
        ensures
            r == unop_of(self.tokens()[self.at()].kind),
    {
        match &self.peek().kind {
            TokenKind::Sym(Symbol::Minus) => Some(UnOp::Neg),
            TokenKind::Sym(Symbol::Ampersand) => Some(UnOp::AddrOf),
            TokenKind::Sym(Symbol::Star) => Some(UnOp::Deref),
            _ => None,
        }
    }

    pub fn parse_expr(&mut self) -> (r: Result<Expr, JimError>)
        requires
            old(self).wf(),
        ensures
            final(self).wf(),
            final(self).tokens() == old(self).tokens(),
            agrees(p_expr(old(self).tokens(), old(self).at()), r, final(self).at(), |e: Expr| e@),
            r is Ok ==> final(self).at() > old(self).at(),
        decreases old(self).left(), 22int,
    {
        self.parse_or()
    }

    /// One operand of a binary level (the next-tighter level).
    fn parse_operand(&mut self, level: u8) -> (r: Result<Expr, JimError>)
        requires
            old(self).wf(),
            level == 0 || level == 1 || level == 3 || level == 4 || level == 5,
        ensures
            final(self).wf(),
            final(self).tokens() == old(self).tokens(),
            agrees(p_operand(old(self).tokens(), level as int, old(self).at()), r, final(self).at(), |e: Expr| e@),
            r is Ok ==> final(self).at() > old(self).at(),
        decreases old(self).left(), 21int,
    {
        if level == 0 {
            self.parse_and()
        } else if level == 1 {
            self.parse_not()
        } else if level == 3 {
            self.parse_additive()
        } else if level == 4 {
            self.parse_multiplicative()
        } else {
            self.parse_unary()
        }
    }

    /// Binary operators of `level` applied left to right after `first`.
    fn binary_tail(&mut self, level: u8, first: Expr) -> (r: Result<Expr, JimError>)
        requires
            old(self).wf(),
            level == 0 || level == 1 || level == 3 || level == 4 || level == 5,
        ensures
            final(self).wf(),
            final(self).tokens() == old(self).tokens(),
            agrees(p_bin_tail(old(self).tokens(), level as int, first@, old(self).at()), r, final(self).at(), |e: Expr| e@),
            r is Ok ==> final(self).at() >= old(self).at(),
        decreases old(self).left(), 5int,
    {
        let ghost ts = self.tokens();
        let ghost p0 = self.at();
        let ghost goal = p_bin_tail(ts, level as int, first@, p0);
        let mut lhs = first;
        loop
            invariant
                self.wf(),
                self.tokens() == ts,
                ts == old(self).tokens(),
                p0 == old(self).at(),
                goal == p_bin_tail(old(self).tokens(), level as int, first@, old(self).at()),
                self.at() >= p0,
                level == 0 || level == 1 || level == 3 || level == 4 || level == 5,
                goal == p_bin_tail(ts, level as int, lhs@, self.at()),
            decreases self.toks@.len() - self.pos,
        {
            let ghost q = self.at();
            let op = match self.binop_here(level) {
                Some(op) => op,
                None => return Ok(lhs),
            };
            let t = self.bump();
            let rhs = match self.parse_operand(level) {
                Ok(v) => v,
                Err(e) => return Err(e),
            };
            let ghost lv = lhs@;
            let ne = Expr { kind: ExprKind::Binary { op, lhs: Box::new(lhs), rhs: Box::new(rhs) }, line: t.line, col: t.col };
            assert(ne@ == mk(ExprKindV::Binary { op, lhs: Box::new(lv), rhs: Box::new(rhs@) }, ts[q]));
            lhs = ne;
        }
    }

    fn parse_or(&mut self) -> (r: Result<Expr, JimError>)
        requires
            old(self).wf(),
        ensures
            final(self).wf(),
            final(self).tokens() == old(self).tokens(),
            agrees(p_binary(old(self).tokens(), 0, old(self).at()), r, final(self).at(), |e: Expr| e@),
            r is Ok ==> final(self).at() > old(self).at(),
        decreases old(self).left(), 20int,
    {
        let lhs = match self.parse_and() {
            Ok(v) => v,
            Err(e) => return Err(e),
        };
        self.binary_tail(0, lhs)
    }

    fn parse_and(&mut self) -> (r: Result<Expr, JimError>)
        requires
            old(self).wf(),
        ensures
            final(self).wf(),
            final(self).tokens() == old(self).tokens(),
            agrees(p_binary(old(self).tokens(), 1, old(self).at()), r, final(self).at(), |e: Expr| e@),
            r is Ok ==> final(self).at() > old(self).at(),
        decreases old(self).left(), 18int,
    {
        let lhs = match self.parse_not() {
            Ok(v) => v,
            Err(e) => return Err(e),
        };
        self.binary_tail(1, lhs)
    }

    fn parse_not(&mut self) -> (r: Result<Expr, JimError>)
        requires
            old(self).wf(),
        ensures
            final(self).wf(),
            final(self).tokens() == old(self).tokens(),
            agrees(p_not(old(self).tokens(), old(self).at()), r, final(self).at(), |e: Expr| e@),
            r is Ok ==> final(self).at() > old(self).at(),
        decreases old(self).left(), 16int,
    {
        let ghost ts = self.tokens();
        let ghost p = self.at();
        if self.check(&TokenKind::Kw(Keyword::Not)) {
            let t = self.bump();
            let operand = match self.parse_not() {
                Ok(v) => v,
                Err(e) => return Err(e),
            };
            let ghost ov = operand@;
            let e = Expr { kind: ExprKind::Unary { op: UnOp::Not, operand: Box::new(operand) }, line: t.line, col: t.col };
            assert(e@ == mk(ExprKindV::Unary { op: UnOp::Not, operand: Box::new(ov) }, ts[p]));
            return Ok(e);
        }
        self.parse_comparison()
    }

    fn parse_comparison(&mut self) -> (r: Result<Expr, JimError>)
        requires
            old(self).wf(),
        ensures
            final(self).wf(),
            final(self).tokens() == old(self).tokens(),
            agrees(p_binary(old(self).tokens(), 3, old(self).at()), r, final(self).at(), |e: Expr| e@),
            r is Ok ==> final(self).at() > old(self).at(),
        decreases old(self).left(), 14int,
    {
        let lhs = match self.parse_additive() {
            Ok(v) => v,
            Err(e) => return Err(e),
        };
        self.binary_tail(3, lhs)
    }

    fn parse_additive(&mut self) -> (r: Result<Expr, JimError>)
        requires
            old(self).wf(),
        ensures
            final(self).wf(),
            final(self).tokens() == old(self).tokens(),
            agrees(p_binary(old(self).tokens(), 4, old(self).at()), r, final(self).at(), |e: Expr| e@),
            r is Ok ==> final(self).at() > old(self).at(),
        decreases old(self).left(), 12int,
    {
        let lhs = match self.parse_multiplicative() {
            Ok(v) => v,
            Err(e) => return Err(e),
        };
        self.binary_tail(4, lhs)
    }

    fn parse_multiplicative(&mut self) -> (r: Result<Expr, JimError>)
        requires
            old(self).wf(),
        ensures
            final(self).wf(),
            final(self).tokens() == old(self).tokens(),
            agrees(p_binary(old(self).tokens(), 5, old(self).at()), r, final(self).at(), |e: Expr| e@),
            r is Ok ==> final(self).at() > old(self).at(),
        decreases old(self).left(), 10int,
    {
        let lhs = match self.parse_unary() {
            Ok(v) => v,
            Err(e) => return Err(e),
        };
        self.binary_tail(5, lhs)
    }

    fn parse_unary(&mut self) -> (r: Result<Expr, JimError>)
        requires
            old(self).wf(),
        ensures
            final(self).wf(),
            final(self).tokens() == old(self).tokens(),
            agrees(p_unary(old(self).tokens(), old(self).at()), r, final(self).at(), |e: Expr| e@),
            r is Ok ==> final(self).at() > old(self).at(),
        decreases old(self).left(), 8int,
    {
        let ghost ts = self.tokens();
        let ghost p = self.at();
        if let Some(op) = self.unop_here() {
            let t = self.bump();
            let operand = match self.parse_unary() {
                Ok(v) => v,
                Err(e) => return Err(e),
            };
            let ghost ov = operand@;
            let e = Expr { kind: ExprKind::Unary { op, operand: Box::new(operand) }, line: t.line, col: t.col };
            assert(e@ == mk(ExprKindV::Unary { op, operand: Box::new(ov) }, ts[p]));
            return Ok(e);
        }
        self.parse_postfix()
    }

    fn parse_postfix(&mut self) -> (r: Result<Expr, JimError>)
        requires
            old(self).wf(),
        ensures
            final(self).wf(),
            final(self).tokens() == old(self).tokens(),
            agrees(p_postfix(old(self).tokens(), old(self).at()), r, final(self).at(), |e: Expr| e@),
            r is Ok ==> final(self).at() > old(self).at(),
        decreases old(self).left(), 7int,
    {
        let e = match self.parse_primary() {
            Ok(v) => v,
            Err(e) => return Err(e),
        };
        self.postfix_tail(e)
    }

    /// `.name`, `.name(args)` and `[index]` applied left to right after `first`.
    fn postfix_tail(&mut self, first: Expr) -> (r: Result<Expr, JimError>)
        requires
            old(self).wf(),
        ensures
            final(self).wf(),
            final(self).tokens() == old(self).tokens(),
            agrees(p_postfix_tail(old(self).tokens(), first@, old(self).at()), r, final(self).at(), |e: Expr| e@),
            r is Ok ==> final(self).at() >= old(self).at(),
        decreases old(self).left(), 5int,
    {
        let ghost ts = self.tokens();
        let ghost p0 = self.at();
        let ghost goal = p_postfix_tail(ts, first@, p0);
        let mut expr = first;
        loop
            invariant
                self.wf(),
                self.tokens() == ts,
                ts == old(self).tokens(),
                p0 == old(self).at(),
                goal == p_postfix_tail(old(self).tokens(), first@, old(self).at()),
                self.at() >= p0,
                goal == p_postfix_tail(ts, expr@, self.at()),
            decreases self.toks@.len() - self.pos,
        {
            let ghost q = self.at();
            let ghost ev = expr@;
            if self.check(&TokenKind::Sym(Symbol::Dot)) {
                let t = self.bump();
                let (name, _, _) = match self.expect_ident("a member name after '.'") {
                    Ok(v) => v,
                    Err(e) => return Err(e),
                };
                if self.check(&TokenKind::Sym(Symbol::LParen)) {
                    let args = match self.parse_call_args() {
                        Ok(v) => v,
                        Err(e) => return Err(e),
                    };
                    let ghost nv = name@;
                    let ghost av = exprs_v(args@);
                    let ne = Expr { kind: ExprKind::MethodCall { recv: Box::new(expr), name, args }, line: t.line, col: t.col };
                    assert(ne@ == mk(ExprKindV::MethodCall { recv: Box::new(ev), name: nv, args: av }, ts[q]));
                    expr = ne;
                } else {
                    let ghost nv = name@;
                    let ne = Expr { kind: ExprKind::FieldAccess { recv: Box::new(expr), name }, line: t.line, col: t.col };
                    assert(ne@ == mk(ExprKindV::FieldAccess { recv: Box::new(ev), name: nv }, ts[q]));
                    expr = ne;
                }
            } else if self.check(&TokenKind::Sym(Symbol::LBracket)) {
                let t = self.bump();
                let index = match self.parse_expr() {
                    Ok(v) => v,
                    Err(e) => return Err(e),
                };
                if let Err(e) = self.expect(&TokenKind::Sym(Symbol::RBracket), "']'") {
                    return Err(e);
                }
                let ghost iv = index@;
                let ne = Expr { kind: ExprKind::Index { recv: Box::new(expr), index: Box::new(index) }, line: t.line, col: t.col };
                assert(ne@ == mk(ExprKindV::Index { recv: Box::new(ev), index: Box::new(iv) }, ts[q]));
                expr = ne;
            } else {
                return Ok(expr);
            }
        }
    }

    /// `open`, then comma-separated expressions, then `close`.
    fn parse_delimited(&mut self, open: Symbol, open_what: &str, close: Symbol, close_what: &str) -> (r: Result<Vec<Expr>, JimError>)
        requires
            old(self).wf(),
        ensures
            final(self).wf(),
            final(self).tokens() == old(self).tokens(),
            agrees(p_delimited(old(self).tokens(), old(self).at(), open, open_what@, close, close_what@), r, final(self).at(), |v: Vec<Expr>| exprs_v(v@)),
            r is Ok ==> final(self).at() > old(self).at(),
        decreases old(self).left(), 4int,
    {
        let ghost ts = self.tokens();
        let ghost p = self.at();
        if let Err(e) = self.expect(&TokenKind::Sym(open), open_what) {
            return Err(e);
        }
        let mut items: Vec<Expr> = Vec::new();
        assert(exprs_v(items@) =~= Seq::<ExprV>::empty());
        if self.eat(&TokenKind::Sym(close)) {
            return Ok(items);
        }
        let ghost goal = p_expr_list(ts, p + 1, Seq::empty());
        assert(is_sym(ts, p, open) && !is_sym(ts, p + 1, close));
        loop
            invariant_except_break
                goal == p_expr_list(ts, self.at(), exprs_v(items@)),
            invariant
                self.wf(),
                self.tokens() == ts,
                ts == old(self).tokens(),
                p == old(self).at(),
                self.at() > p,
                goal == p_expr_list(ts, p + 1, Seq::empty()),
                is_sym(ts, p, open) && !is_sym(ts, p + 1, close),
            ensures
                self.wf(),
                self.tokens() == ts,
                self.at() > p,
                goal == PR::Done(exprs_v(items@), self.at()),
            decreases self.toks@.len() - self.pos,
        {
            let ghost q = self.at();
            let e = match self.parse_expr() {
                Ok(v) => v,
                Err(e) => {
                    assert(p_expr_list(ts, q, exprs_v(items@)) == PR::<Seq<ExprV>>::Fail(e@));
                    return Err(e);
                },
            };
            let ghost before = exprs_v(items@);
            items.push(e);
            assert(exprs_v(items@) =~= before.push(e@));
            if !self.eat(&TokenKind::Sym(Symbol::Comma)) {
                break;
            }
        }
        if let Err(e) = self.expect(&TokenKind::Sym(close), close_what) {
            return Err(e);
        }
        Ok(items)
    }

    fn parse_call_args(&mut self) -> (r: Result<Vec<Expr>, JimError>)
        requires
            old(self).wf(),
        ensures
            final(self).wf(),
            final(self).tokens() == old(self).tokens(),
            agrees(p_call_args(old(self).tokens(), old(self).at()), r, final(self).at(), |v: Vec<Expr>| exprs_v(v@)),
            r is Ok ==> final(self).at() > old(self).at(),
        decreases old(self).left(), 5int,
    {
        self.parse_delimited(Symbol::LParen, "'('", Symbol::RParen, "')'")
    }

    fn parse_primary(&mut self) -> (r: Result<Expr, JimError>)
        requires
            old(self).wf(),
        ensures
            final(self).wf(),
            final(self).tokens() == old(self).tokens(),
            agrees(p_primary(old(self).tokens(), old(self).at()), r, final(self).at(), |e: Expr| e@),
            r is Ok ==> final(self).at() > old(self).at(),
        decreases old(self).left(), 6int,
    {
        let ghost ts = self.tokens();
        let ghost p = self.at();
        let t = self.peek().copy();
        let line = t.line;
        let col = t.col;
        match t.kind {
            TokenKind::Int(v) => {
                self.bump();
                Ok(Expr { kind: ExprKind::Int(v), line, col })
            },
            TokenKind::Float(x) => {
                self.bump();
                Ok(Expr { kind: ExprKind::Float(x), line, col })
            },
            TokenKind::Str(x) => {
                self.bump();
                Ok(Expr { kind: ExprKind::Str(x), line, col })
            },
            TokenKind::CharLit(c) => {
                self.bump();
                Ok(Expr { kind: ExprKind::CharLit(c), line, col })
            },
            TokenKind::Kw(Keyword::True) => {
                self.bump();
                Ok(Expr { kind: ExprKind::Bool(true), line, col })
            },
            TokenKind::Kw(Keyword::False) => {
                self.bump();
                Ok(Expr { kind: ExprKind::Bool(false), line, col })
            },
            TokenKind::Kw(Keyword::NoneKw) => {
                self.bump();
                Ok(Expr { kind: ExprKind::NoneLit, line, col })
            },
            TokenKind::Kw(Keyword::This) => {
                self.bump();
                Ok(Expr { kind: ExprKind::This, line, col })
            },
            TokenKind::Ident(name) => {
                self.bump();
                if self.check(&TokenKind::Sym(Symbol::Lt)) {
                    if let Some(type_args) = self.try_parse_type_args() {
                        let args = match self.parse_call_args() {
                            Ok(v) => v,
                            Err(e) => return Err(e),
                        };
                        let ghost nv = name@;
                        let ghost tv = types_v(type_args@);
                        let ghost av = exprs_v(args@);
                        let e = Expr { kind: ExprKind::GenericCall { name, type_args, args }, line, col };
                        assert(e@ == mk(ExprKindV::GenericCall { name: nv, type_args: tv, args: av }, ts[p]));
                        return Ok(e);
                    }
                }
                if self.check(&TokenKind::Sym(Symbol::LParen)) {
                    let args = match self.parse_call_args() {
                        Ok(v) => v,
                        Err(e) => return Err(e),
                    };
                    let ghost nv = name@;
                    let ghost av = exprs_v(args@);
                    let e = Expr { kind: ExprKind::Call { name, args }, line, col };
                    assert(e@ == mk(ExprKindV::Call { name: nv, args: av }, ts[p]));
                    Ok(e)
                } else {
                    Ok(Expr { kind: ExprKind::Ident(name), line, col })
                }
            },
            TokenKind::Intrinsic(name) => {
                self.bump();
                if !self.check(&TokenKind::Sym(Symbol::LParen)) {
                    let mut msg = framed("intrinsic '@", name.as_str(), "' must be called: @");
                    push_str(&mut msg, name.as_str());
                    push_str(&mut msg, "(...)");
                    return Err(self.err_here(msg));
                }
                let args = match self.parse_call_args() {
                    Ok(v) => v,
                    Err(e) => return Err(e),
                };
                let ghost nv = name@;
                let ghost av = exprs_v(args@);
                let e = Expr { kind: ExprKind::IntrinsicCall { name, args }, line, col };
                assert(e@ == mk(ExprKindV::IntrinsicCall { name: nv, args: av }, ts[p]));
                Ok(e)
            },
            TokenKind::Sym(Symbol::LParen) => {
                self.bump();
                let inner = match self.parse_expr() {
                    Ok(v) => v,
                    Err(e) => return Err(e),
                };
                if let Err(e) = self.expect(&TokenKind::Sym(Symbol::RParen), "')'") {
                    return Err(e);
                }
                Ok(inner)
            },
            TokenKind::Sym(Symbol::LBracket) => {
                let items = match self.parse_delimited(Symbol::LBracket, "'['", Symbol::RBracket, "']'") {
                    Ok(v) => v,
                    Err(e) => return Err(e),
                };
                let ghost iv = exprs_v(items@);
                let e = Expr { kind: ExprKind::ArrayLit(items), line, col };
                assert(e@ == mk(ExprKindV::ArrayLit(iv), ts[p]));
                Ok(e)
            },
            other => {
                let mut msg = lit_string("expected an expression, found ");
                let d = other.describe();
                push_str(&mut msg, d.as_str());
                Err(JimError::new(msg, line, col))
            },
        }
    }

    // ---------------- statements ----------------

    fn check_assign_target(e: &Expr) -> (r: Result<(), JimError>)
        ensures
            is_assign_target(e@) ==> r is Ok,
            !is_assign_target(e@) ==> (r matches Err(x) && x@ == bad_target(e@)),
    {
        match &e.kind {
            ExprKind::Ident(_) | ExprKind::Index { .. } | ExprKind::FieldAccess { .. } => Ok(()),
            ExprKind::Unary { op: UnOp::Deref, .. } => Ok(()),
            _ => Err(JimError::new(
                lit_string("invalid assignment target (expected a variable, index, field, or '*pointer')"),
                e.line,
                e.col,
            )),
        }
    }

    fn assign_op_here(&self) -> (r: Option<AssignOp>)
        requires
            self.wf(),
        ensures
            r == assign_op_of(self.tokens()[self.at()].kind),
    {
        match &self.peek().kind {
            TokenKind::Sym(Symbol::Assign) => Some(AssignOp::Plain),
            TokenKind::Sym(Symbol::PlusEq) => Some(AssignOp::Add),
            TokenKind::Sym(Symbol::MinusEq) => Some(AssignOp::Sub),
            TokenKind::Sym(Symbol::StarEq) => Some(AssignOp::Mul),
            TokenKind::Sym(Symbol::SlashEq) => Some(AssignOp::Div),
            _ => None,
        }
    }

    /// An assignment, `++`/`--`, or a bare expression, without the `;`.
    fn parse_simple_stmt(&mut self) -> (r: Result<Stmt, JimError>)
        requires
            old(self).wf(),
        ensures
            final(self).wf(),
            final(self).tokens() == old(self).tokens(),
            agrees(p_simple(old(self).tokens(), old(self).at()), r, final(self).at(), |s: Stmt| s@),
            r is Ok ==> final(self).at() > old(self).at(),
    {
        let ghost ts = self.tokens();
        let ghost p = self.at();
        let line = self.peek().line;
        let col = self.peek().col;
        let expr = match self.parse_expr() {
            Ok(v) => v,
            Err(e) => return Err(e),
        };
        let ghost ev = expr@;
        if let Some(op) = self.assign_op_here() {
            self.bump();
            if let Err(e) = Self::check_assign_target(&expr) {
                return Err(e);
            }
            let value = match self.parse_expr() {
                Ok(v) => v,
                Err(e) => return Err(e),
            };
            let ghost vv = value@;
            let st = Stmt { kind: StmtKind::Assign { target: expr, op, value }, line, col };
            assert(st@ == sk(StmtKindV::Assign { target: ev, op, value: vv }, line, col));
            return Ok(st);
        }
        if self.check(&TokenKind::Sym(Symbol::PlusPlus)) || self.check(&TokenKind::Sym(Symbol::MinusMinus)) {
            let inc = self.check(&TokenKind::Sym(Symbol::PlusPlus));
            self.bump();
            if let Err(e) = Self::check_assign_target(&expr) {
                return Err(e);
            }
            let st = Stmt { kind: StmtKind::IncDec { target: expr, inc }, line, col };
            assert(st@ == sk(StmtKindV::IncDec { target: ev, inc }, line, col));
            return Ok(st);
        }
        let st = Stmt { kind: StmtKind::ExprStmt(expr), line, col };
        assert(st@ == sk(StmtKindV::ExprStmt(ev), line, col));
        Ok(st)
    }

    /// `var name: Type = init;` or `const ...`, from the keyword.
    fn parse_var_decl(&mut self, is_const: bool) -> (r: Result<Stmt, JimError>)
        requires
            old(self).wf(),
            old(self).tokens()[old(self).at()].kind == TokenKindV::Kw(if is_const { Keyword::Const } else { Keyword::Var }),
        ensures
            final(self).wf(),
            final(self).tokens() == old(self).tokens(),
            agrees(p_var_decl(old(self).tokens(), old(self).at(), is_const), r, final(self).at(), |s: Stmt| s@),
            r is Ok ==> final(self).at() > old(self).at(),
    {
        let t = self.bump();
        let (name, _, _) = match self.expect_ident("a variable name") {
            Ok(v) => v,
            Err(e) => return Err(e),
        };
        if let Err(e) = self.expect(&TokenKind::Sym(Symbol::Colon), "':' (jim declarations are 'var name: Type = ...')") {
            return Err(e);
        }
        let ty = match self.parse_type() {
            Ok(v) => v,
            Err(e) => return Err(e),
        };
        if let Err(e) = self.expect(&TokenKind::Sym(Symbol::Assign), "'=' (jim variables must be initialized)") {
            return Err(e);
        }
        let init = match self.parse_expr() {
            Ok(v) => v,
            Err(e) => return Err(e),
        };
        if let Err(e) = self.expect(&TokenKind::Sym(Symbol::Semicolon), "';'") {
            return Err(e);
        }
        let ghost nv = name@;
        let ghost tv = ty@;
        let ghost iv = init@;
        let st = Stmt { kind: StmtKind::VarDecl { is_const, name, ty, init }, line: t.line, col: t.col };
        assert(st@ == sk(StmtKindV::VarDecl { is_const, name: nv, ty: tv, init: iv }, t.line, t.col));
        Ok(st)
    }

    /// A `{ ... }` block, or a single statement standing for one.
    fn parse_block_or_single(&mut self) -> (r: Result<Block, JimError>)
        requires
            old(self).wf(),
        ensures
            final(self).wf(),
            final(self).tokens() == old(self).tokens(),
            agrees(p_block_or_single(old(self).tokens(), old(self).at()), r, final(self).at(), |b: Block| b@),
            r is Ok ==> final(self).at() > old(self).at(),
        decreases old(self).left(), 6int,
    {
        if self.check(&TokenKind::Sym(Symbol::LBrace)) {
            self.parse_block()
        } else {
            let st = match self.parse_stmt() {
                Ok(v) => v,
                Err(e) => return Err(e),
            };
            let ghost sv = st@;
            let b = Block { stmts: vec![st] };
            assert(b@.stmts =~= seq![sv]);
            Ok(b)
        }
    }

    fn parse_block(&mut self) -> (r: Result<Block, JimError>)
        requires
            old(self).wf(),
        ensures
            final(self).wf(),
            final(self).tokens() == old(self).tokens(),
            agrees(p_block(old(self).tokens(), old(self).at()), r, final(self).at(), |b: Block| b@),
            r is Ok ==> final(self).at() > old(self).at(),
        decreases old(self).left(), 5int,
    {
        let ghost ts = self.tokens();
        let ghost p = self.at();
        if let Err(e) = self.expect(&TokenKind::Sym(Symbol::LBrace), "'{'") {
            return Err(e);
        }
        let ghost goal = p_stmts(ts, p + 1, Seq::empty());
        let mut stmts: Vec<Stmt> = Vec::new();
        assert(stmts_v(stmts@) =~= Seq::<StmtV>::empty());
        while !self.check(&TokenKind::Sym(Symbol::RBrace))
            invariant
                self.wf(),
                self.tokens() == ts,
                ts == old(self).tokens(),
                p == old(self).at(),
                self.at() > p,
                goal == p_block(ts, p),
                goal == p_stmts(ts, self.at(), stmts_v(stmts@)),
            decreases self.toks@.len() - self.pos,
        {
            if self.check(&TokenKind::Eof) {
                return Err(self.err_here(lit_string("unexpected end of file inside a block (missing '}')")));
            }
            let ghost q = self.at();
            let st = match self.parse_stmt() {
                Ok(v) => v,
                Err(e) => return Err(e),
            };
            let ghost before = stmts_v(stmts@);
            stmts.push(st);
            assert(stmts_v(stmts@) =~= before.push(st@));
        }
        self.bump();
        let b = Block { stmts };
        assert(b@ == BlockV { stmts: stmts_v(b.stmts@) });
        Ok(b)
    }

    fn parse_stmt(&mut self) -> (r: Result<Stmt, JimError>)
        requires
            old(self).wf(),
        ensures
            final(self).wf(),
            final(self).tokens() == old(self).tokens(),
            agrees(p_stmt(old(self).tokens(), old(self).at()), r, final(self).at(), |s: Stmt| s@),
            r is Ok ==> final(self).at() > old(self).at(),
        decreases old(self).left(), 4int,
    {
        let ghost ts = self.tokens();
        let ghost p = self.at();
        let line = self.peek().line;
        let col = self.peek().col;
        if self.check(&TokenKind::Kw(Keyword::Var)) {
            return self.parse_var_decl(false);
        }
        if self.check(&TokenKind::Kw(Keyword::Const)) {
            return self.parse_var_decl(true);
        }
        if self.check(&TokenKind::Kw(Keyword::Return)) {
            self.bump();
            let value = if self.check(&TokenKind::Sym(Symbol::Semicolon)) {
                None
            } else {
                match self.parse_expr() {
                    Ok(v) => Some(v),
                    Err(e) => return Err(e),
                }
            };
            if let Err(e) = self.expect(&TokenKind::Sym(Symbol::Semicolon), "';'") {
                return Err(e);
            }
            let ghost vv = match &value { Some(v) => Some(v@), None => None };
            let st = Stmt { kind: StmtKind::Return(value), line, col };
            assert(st@ == sk(StmtKindV::Return(vv), line, col));
            return Ok(st);
        }
        if self.check(&TokenKind::Kw(Keyword::Break)) {
            self.bump();
            if let Err(e) = self.expect(&TokenKind::Sym(Symbol::Semicolon), "';'") {
                return Err(e);
            }
            return Ok(Stmt { kind: StmtKind::Break, line, col });
        }
        if self.check(&TokenKind::Kw(Keyword::Continue)) {
            self.bump();
            if let Err(e) = self.expect(&TokenKind::Sym(Symbol::Semicolon), "';'") {
                return Err(e);
            }
            return Ok(Stmt { kind: StmtKind::Continue, line, col });
        }
        if self.check(&TokenKind::Kw(Keyword::If)) {
            return self.parse_if(line, col);
        }
        if self.check(&TokenKind::Kw(Keyword::While)) {
            self.bump();
            if let Err(e) = self.expect(&TokenKind::Sym(Symbol::LParen), "'('") {
                return Err(e);
            }
            let cond = match self.parse_expr() {
                Ok(v) => v,
                Err(e) => return Err(e),
            };
            if let Err(e) = self.expect(&TokenKind::Sym(Symbol::RParen), "')'") {
                return Err(e);
            }
            let body = match self.parse_block_or_single() {
                Ok(v) => v,
                Err(e) => return Err(e),
            };
            let ghost cv = cond@;
            let ghost bv = body@;
            let st = Stmt { kind: StmtKind::While { cond, body }, line, col };
            assert(st@ == sk(StmtKindV::While { cond: cv, body: bv }, line, col));
            return Ok(st);
        }
        if self.check(&TokenKind::Kw(Keyword::For)) {
            return self.parse_for();
        }
        if self.check(&TokenKind::Kw(Keyword::Try)) {
            return self.parse_try();
        }
        let st = match self.parse_simple_stmt() {
            Ok(v) => v,
            Err(e) => return Err(e),
        };
        if let Err(e) = self.expect(&TokenKind::Sym(Symbol::Semicolon), "';'") {
            return Err(e);
        }
        Ok(st)
    }

    /// `try { ... } catch (name: Type) { ... }`, from the `try`.
    fn parse_try(&mut self) -> (r: Result<Stmt, JimError>)
        requires
            old(self).wf(),
            old(self).tokens()[old(self).at()].kind == TokenKindV::Kw(Keyword::Try),
        ensures
            final(self).wf(),
            final(self).tokens() == old(self).tokens(),
            agrees(p_try(old(self).tokens(), old(self).at()), r, final(self).at(), |s: Stmt| s@),
            r is Ok ==> final(self).at() > old(self).at(),
        decreases old(self).left(), 3int,
    {
        let t = self.bump();
        let body = match self.parse_block() {
            Ok(v) => v,
            Err(e) => return Err(e),
        };
        self.parse_catch(body, t.line, t.col)
    }

    /// `catch (name: Type) { ... }` after the try block `body`.
    fn parse_catch(&mut self, body: Block, line: u32, col: u32) -> (r: Result<Stmt, JimError>)
        requires
            old(self).wf(),
        ensures
            final(self).wf(),
            final(self).tokens() == old(self).tokens(),
            agrees(p_catch(old(self).tokens(), old(self).at(), body@, line, col), r, final(self).at(), |s: Stmt| s@),
            r is Ok ==> final(self).at() > old(self).at(),
        decreases old(self).left(), 3int,
    {
        if let Err(e) = self.expect(&TokenKind::Kw(Keyword::Catch), "'catch' after the try block") {
            return Err(e);
        }
        if let Err(e) = self.expect(&TokenKind::Sym(Symbol::LParen), "'('") {
            return Err(e);
        }
        let (var_name, _, _) = match self.expect_ident("the exception variable name") {
            Ok(v) => v,
            Err(e) => return Err(e),
        };
        if let Err(e) = self.expect(&TokenKind::Sym(Symbol::Colon), "':' (catch clauses are 'catch (e: Exception)')") {
            return Err(e);
        }
        let var_ty = match self.parse_type() {
            Ok(v) => v,
            Err(e) => return Err(e),
        };
        if let Err(e) = self.expect(&TokenKind::Sym(Symbol::RParen), "')'") {
            return Err(e);
        }
        let catch_body = match self.parse_block() {
            Ok(v) => v,
            Err(e) => return Err(e),
        };
        let ghost bv = body@;
        let ghost nv = var_name@;
        let ghost tv = var_ty@;
        let ghost cv = catch_body@;
        let st = Stmt { kind: StmtKind::TryCatch { body, var_name, var_ty, catch_body }, line, col };
        assert(st@ == sk(StmtKindV::TryCatch { body: bv, var_name: nv, var_ty: tv, catch_body: cv }, line, col));
        Ok(st)
    }

    #[verifier::spinoff_prover]
    #[verifier::rlimit(30)]
    fn parse_if(&mut self, line: u32, col: u32) -> (r: Result<Stmt, JimError>)
        requires
            old(self).wf(),
        ensures
            final(self).wf(),
            final(self).tokens() == old(self).tokens(),
            agrees(p_if(old(self).tokens(), old(self).at(), Seq::empty(), line, col), r, final(self).at(), |s: Stmt| s@),
            r is Ok ==> final(self).at() > old(self).at(),
        decreases old(self).left(), 3int,
    {
        let ghost ts = self.tokens();
        let ghost p = self.at();
        let ghost goal = p_if(ts, p, Seq::empty(), line, col);
        let mut arms: Vec<(Expr, Block)> = Vec::new();
        let mut else_block: Option<Block> = None;
        assert(arms_v(arms@) =~= Seq::<(ExprV, BlockV)>::empty());
        loop
            invariant_except_break
                goal == p_if(ts, self.at(), arms_v(arms@), line, col),
                else_block is None,
            invariant
                self.wf(),
                self.tokens() == ts,
                ts == old(self).tokens(),
                p == old(self).at(),
                self.at() >= p,
                goal == p_if(old(self).tokens(), old(self).at(), Seq::empty(), line, col),
            ensures
                self.at() > p,
                goal == PR::Done(
                    sk(StmtKindV::If {
                        arms: arms_v(arms@),
                        else_block: match &else_block { Some(b) => Some(b@), None => None },
                    }, line, col),
                    self.at(),
                ),
            decreases self.toks@.len() - self.pos,
        {
            if let Err(e) = self.expect(&TokenKind::Kw(Keyword::If), "'if'") {
                return Err(e);
            }
            if let Err(e) = self.expect(&TokenKind::Sym(Symbol::LParen), "'('") {
                return Err(e);
            }
            let cond = match self.parse_expr() {
                Ok(v) => v,
                Err(e) => return Err(e),
            };
            if let Err(e) = self.expect(&TokenKind::Sym(Symbol::RParen), "')'") {
                return Err(e);
            }
            let body = match self.parse_block_or_single() {
                Ok(v) => v,
                Err(e) => return Err(e),
            };
            let ghost before = arms_v(arms@);
            let ghost pair = (cond@, body@);
            arms.push((cond, body));
            assert(arms_v(arms@) =~= before.push(pair));
            if !self.check(&TokenKind::Kw(Keyword::Else)) {
                break;
            }
            self.bump();
            if self.check(&TokenKind::Kw(Keyword::If)) {
                continue;
            }
            match self.parse_block_or_single() {
                Ok(v) => {
                    else_block = Some(v);
                },
                Err(e) => return Err(e),
            }
            break;
        }
        let ghost av = arms_v(arms@);
        let ghost ev = match &else_block { Some(b) => Some(b@), None => None };
        let st = Stmt { kind: StmtKind::If { arms, else_block }, line, col };
        assert(st@ == sk(StmtKindV::If { arms: av, else_block: ev }, line, col));
        Ok(st)
    }

    fn parse_for(&mut self) -> (r: Result<Stmt, JimError>)
        requires
            old(self).wf(),
        ensures
            final(self).wf(),
            final(self).tokens() == old(self).tokens(),
            agrees(p_for(old(self).tokens(), old(self).at()), r, final(self).at(), |s: Stmt| s@),
            r is Ok ==> final(self).at() > old(self).at(),
        decreases old(self).left(), 3int,
    {
        let t = match self.expect(&TokenKind::Kw(Keyword::For), "'for'") {
            Ok(v) => v,
            Err(e) => return Err(e),
        };
        if let Err(e) = self.expect(&TokenKind::Sym(Symbol::LParen), "'('") {
            return Err(e);
        }
        let (var_name, _, _) = match self.expect_ident("a loop variable name") {
            Ok(v) => v,
            Err(e) => return Err(e),
        };
        if let Err(e) = self.expect(&TokenKind::Sym(Symbol::Colon), "':' (loop variables are 'name: Type')") {
            return Err(e);
        }
        let var_ty = match self.parse_type() {
            Ok(v) => v,
            Err(e) => return Err(e),
        };
        self.parse_for_rest(var_name, var_ty, t.line, t.col)
    }

    /// After `for (name: Type`: the C-style or the for-in form.
    fn parse_for_rest(&mut self, var_name: String, var_ty: Type, line: u32, col: u32) -> (r: Result<Stmt, JimError>)
        requires
            old(self).wf(),
        ensures
            final(self).wf(),
            final(self).tokens() == old(self).tokens(),
            agrees(p_for_rest(old(self).tokens(), old(self).at(), var_name@, var_ty@, line, col), r, final(self).at(), |s: Stmt| s@),
            r is Ok ==> final(self).at() > old(self).at(),
        decreases old(self).left(), 3int,
    {
        if self.check(&TokenKind::Sym(Symbol::Assign)) {
            self.bump();
            return self.parse_for_c(var_name, var_ty, line, col);
        }
        if self.check(&TokenKind::Kw(Keyword::In)) {
            self.bump();
            let iterable = match self.parse_expr() {
                Ok(v) => v,
                Err(e) => return Err(e),
            };
            if let Err(e) = self.expect(&TokenKind::Sym(Symbol::RParen), "')'") {
                return Err(e);
            }
            let body = match self.parse_block_or_single() {
                Ok(v) => v,
                Err(e) => return Err(e),
            };
            let ghost nv = var_name@;
            let ghost tv = var_ty@;
            let ghost iv = iterable@;
            let ghost bv = body@;
            let st = Stmt { kind: StmtKind::ForIn { var_name, var_ty, iterable, body }, line, col };
            assert(st@ == sk(StmtKindV::ForIn { var_name: nv, var_ty: tv, iterable: iv, body: bv }, line, col));
            return Ok(st);
        }
        let mut msg = lit_string("expected '=' (C-style for) or 'in' (for-in) after the loop variable, found ");
        let d = self.peek().kind.describe();
        push_str(&mut msg, d.as_str());
        Err(self.err_here(msg))
    }

    /// `init; cond; step) body` of a C-style `for`.
    fn parse_for_c(&mut self, var_name: String, var_ty: Type, line: u32, col: u32) -> (r: Result<Stmt, JimError>)
        requires
            old(self).wf(),
        ensures
            final(self).wf(),
            final(self).tokens() == old(self).tokens(),
            agrees(p_for_c(old(self).tokens(), old(self).at(), var_name@, var_ty@, line, col), r, final(self).at(), |s: Stmt| s@),
            r is Ok ==> final(self).at() > old(self).at(),
        decreases old(self).left(), 3int,
    {
        let init = match self.parse_expr() {
            Ok(v) => v,
            Err(e) => return Err(e),
        };
        if let Err(e) = self.expect(&TokenKind::Sym(Symbol::Semicolon), "';'") {
            return Err(e);
        }
        let cond = match self.parse_expr() {
            Ok(v) => v,
            Err(e) => return Err(e),
        };
        if let Err(e) = self.expect(&TokenKind::Sym(Symbol::Semicolon), "';'") {
            return Err(e);
        }
        let step = match self.parse_simple_stmt() {
            Ok(v) => v,
            Err(e) => return Err(e),
        };
        if let Err(e) = self.expect(&TokenKind::Sym(Symbol::RParen), "')'") {
            return Err(e);
        }
        let body = match self.parse_block_or_single() {
            Ok(v) => v,
            Err(e) => return Err(e),
        };
        let ghost nv = var_name@;
        let ghost tv = var_ty@;
        let ghost iv = init@;
        let ghost cv = cond@;
        let ghost sv = step@;
        let ghost bv = body@;
        let st = Stmt {
            kind: StmtKind::ForC { var_name, var_ty, init, cond, step: Box::new(step), body },
            line,
            col,
        };
        assert(st@ == sk(StmtKindV::ForC { var_name: nv, var_ty: tv, init: iv, cond: cv, step: Box::new(sv), body: bv }, line, col));
        Ok(st)
    }

    // ---------------- declarations ----------------

    /// `( name: Type, ... )`.
    fn parse_params(&mut self) -> (r: Result<Vec<Param>, JimError>)
        requires
            old(self).wf(),
        ensures
            final(self).wf(),
            final(self).tokens() == old(self).tokens(),
            agrees(p_params(old(self).tokens(), old(self).at()), r, final(self).at(), |v: Vec<Param>| params_v(v@)),
            r is Ok ==> final(self).at() > old(self).at(),
    {
        let ghost ts = self.tokens();
        let ghost p = self.at();
        if let Err(e) = self.expect(&TokenKind::Sym(Symbol::LParen), "'('") {
            return Err(e);
        }
        let mut params: Vec<Param> = Vec::new();
        assert(params_v(params@) =~= Seq::<ParamV>::empty());
        if self.eat(&TokenKind::Sym(Symbol::RParen)) {
            return Ok(params);
        }
        let ghost goal = p_param_items(ts, p + 1, Seq::empty());
        loop
            invariant_except_break
                goal == p_param_items(ts, self.at(), params_v(params@)),
            invariant
                self.wf(),
                self.tokens() == ts,
                ts == old(self).tokens(),
                p == old(self).at(),
                self.at() > p,
                goal == p_param_items(ts, p + 1, Seq::empty()),
                is_sym(ts, p, Symbol::LParen) && !is_sym(ts, p + 1, Symbol::RParen),
            ensures
                self.wf(),
                self.tokens() == ts,
                self.at() > p,
                goal == PR::Done(params_v(params@), self.at()),
            decreases self.toks@.len() - self.pos,
        {
            let ghost q = self.at();
            let (pname, pline, pcol) = match self.expect_ident("a parameter name") {
                Ok(v) => v,
                Err(e) => return Err(e),
            };
            if let Err(e) = self.expect(&TokenKind::Sym(Symbol::Colon), "':' (jim parameters are 'name: Type')") {
                return Err(e);
            }
            let ty = match self.parse_type() {
                Ok(v) => v,
                Err(e) => return Err(e),
            };
            let ghost before = params_v(params@);
            let prm = Param { name: pname, ty, line: pline, col: pcol };
            let ghost pv = prm@;
            params.push(prm);
            assert(params_v(params@) =~= before.push(pv));
            if !self.eat(&TokenKind::Sym(Symbol::Comma)) {
                break;
            }
        }
        if let Err(e) = self.expect(&TokenKind::Sym(Symbol::RParen), "')'") {
            return Err(e);
        }
        Ok(params)
    }

    /// Is `n` among `names`?
    fn contains_name(names: &Vec<String>, n: &str) -> (b: bool)
        ensures
            b == names_v(names@).contains(n@),
    {
        let mut i: usize = 0;
        while i < names.len()
            invariant
                i <= names@.len(),
                forall|j: int| 0 <= j < i ==> names@[j]@ != n@,
            decreases names@.len() - i,
        {
            if crate::text::str_eq(names[i].as_str(), n) {
                assert(names_v(names@)[i as int] == n@);
                return true;
            }
            i += 1;
        }
        assert(!names_v(names@).contains(n@)) by {
            if names_v(names@).contains(n@) {
                let j = choose|j: int| 0 <= j < names_v(names@).len() && names_v(names@)[j] == n@;
                assert(names@[j]@ == n@);
            }
        }
        false
    }

    /// Distinct type parameter names separated by commas.
    fn parse_type_params(&mut self) -> (r: Result<Vec<String>, JimError>)
        requires
            old(self).wf(),
        ensures
            final(self).wf(),
            final(self).tokens() == old(self).tokens(),
            agrees(p_type_params(old(self).tokens(), old(self).at(), Seq::empty()), r, final(self).at(), |v: Vec<String>| names_v(v@)),
            r is Ok ==> final(self).at() > old(self).at(),
    {
        let ghost ts = self.tokens();
        let ghost p = self.at();
        let ghost goal = p_type_params(ts, p, Seq::empty());
        let mut names: Vec<String> = Vec::new();
        assert(names_v(names@) =~= Seq::<Seq<char>>::empty());
        loop
            invariant_except_break
                goal == p_type_params(ts, self.at(), names_v(names@)),
            invariant
                self.wf(),
                self.tokens() == ts,
                ts == old(self).tokens(),
                p == old(self).at(),
                self.at() >= p,
                goal == p_type_params(ts, p, Seq::empty()),
            ensures
                self.wf(),
                self.tokens() == ts,
                self.at() > p,
                goal == PR::Done(names_v(names@), self.at()),
            decreases self.toks@.len() - self.pos,
        {
            let ghost q = self.at();
            let (n, nline, ncol) = match self.expect_ident("a type parameter name") {
                Ok(v) => v,
                Err(e) => return Err(e),
            };
            if Self::contains_name(&names, n.as_str()) {
                let msg = framed("duplicate type parameter '", n.as_str(), "'");
                return Err(JimError::new(msg, nline, ncol));
            }
            let ghost before = names_v(names@);
            let ghost nv = n@;
            names.push(n);
            assert(names_v(names@) =~= before.push(nv));
            if !self.eat(&TokenKind::Sym(Symbol::Comma)) {
                break;
            }
        }
        Ok(names)
    }

    fn parse_function(&mut self, file_idx: usize, from_std: bool) -> (r: Result<FunctionDecl, JimError>)
        requires
            old(self).wf(),
        ensures
            final(self).wf(),
            final(self).tokens() == old(self).tokens(),
            agrees(p_function(old(self).tokens(), old(self).at(), file_idx, from_std), r, final(self).at(), |f: FunctionDecl| f@),
            r is Ok ==> final(self).at() > old(self).at(),
    {
        let kw = match self.expect(&TokenKind::Kw(Keyword::Function), "'function'") {
            Ok(v) => v,
            Err(e) => return Err(e),
        };
        let (name, _, _) = match self.expect_ident("a function name") {
            Ok(v) => v,
            Err(e) => return Err(e),
        };
        let mut type_params: Vec<String> = Vec::new();
        assert(names_v(type_params@) =~= Seq::<Seq<char>>::empty());
        if self.eat(&TokenKind::Sym(Symbol::Lt)) {
            type_params = match self.parse_type_params() {
                Ok(v) => v,
                Err(e) => return Err(e),
            };
            if let Err(e) = self.expect(&TokenKind::Sym(Symbol::Gt), "'>' to close the type parameter list") {
                return Err(e);
            }
        }
        let params = match self.parse_params() {
            Ok(v) => v,
            Err(e) => return Err(e),
        };
        if !self.check(&TokenKind::Sym(Symbol::Arrow)) {
            let msg = framed("function '", name.as_str(), "' is missing its return type: jim requires '-> Type' (use '-> None' for no value)");
            return Err(self.err_here(msg));
        }
        self.bump();
        let ret = match self.parse_type() {
            Ok(v) => v,
            Err(e) => return Err(e),
        };
        let body = match self.parse_block() {
            Ok(v) => v,
            Err(e) => return Err(e),
        };
        Ok(FunctionDecl {
            name,
            type_params,
            params,
            ret,
            body,
            file_idx,
            from_std,
            line: kw.line,
            col: kw.col,
        })
    }

    fn parse_method_rest(&mut self, is_public: bool, name: String, line: u32, col: u32) -> (r: Result<MethodDecl, JimError>)
        requires
            old(self).wf(),
        ensures
            final(self).wf(),
            final(self).tokens() == old(self).tokens(),
            agrees(p_method_rest(old(self).tokens(), old(self).at(), is_public, name@, line, col), r, final(self).at(), |m: MethodDecl| m@),
            r is Ok ==> final(self).at() > old(self).at(),
    {
        let params = match self.parse_params() {
            Ok(v) => v,
            Err(e) => return Err(e),
        };
        if !self.check(&TokenKind::Sym(Symbol::Arrow)) {
            let msg = framed("method '", name.as_str(), "' is missing its return type: jim requires '-> Type' (use '-> None' for no value)");
            return Err(self.err_here(msg));
        }
        self.bump();
        let ret = match self.parse_type() {
            Ok(v) => v,
            Err(e) => return Err(e),
        };
        let body = match self.parse_block() {
            Ok(v) => v,
            Err(e) => return Err(e),
        };
        Ok(MethodDecl { is_public, name, params, ret, body, line, col })
    }

    /// A field or a method, from its `public`/`private`.
    fn parse_member(&mut self) -> (r: Result<Member, JimError>)
        requires
            old(self).wf(),
            old(self).tokens()[old(self).at()].kind == TokenKindV::Kw(Keyword::Public)
                || old(self).tokens()[old(self).at()].kind == TokenKindV::Kw(Keyword::Private),
        ensures
            final(self).wf(),
            final(self).tokens() == old(self).tokens(),
            agrees(p_member(old(self).tokens(), old(self).at()), r, final(self).at(), |m: Member| m@),
            r is Ok ==> final(self).at() > old(self).at(),
    {
        let vis = self.bump();
        let is_public = match vis.kind {
            TokenKind::Kw(Keyword::Public) => true,
            _ => false,
        };
        let (name, _, _) = match self.expect_ident("a member name") {
            Ok(v) => v,
            Err(e) => return Err(e),
        };
        if self.eat(&TokenKind::Sym(Symbol::Colon)) {
            let ty = match self.parse_type() {
                Ok(v) => v,
                Err(e) => return Err(e),
            };
            if let Err(e) = self.expect(&TokenKind::Sym(Symbol::Assign), "'=' (fields need a default value: 'name: Type = value;')") {
                return Err(e);
            }
            let default = match self.parse_expr() {
                Ok(v) => v,
                Err(e) => return Err(e),
            };
            if let Err(e) = self.expect(&TokenKind::Sym(Symbol::Semicolon), "';'") {
                return Err(e);
            }
            return Ok(Member::Field(FieldDecl { is_public, name, ty, default, line: vis.line, col: vis.col }));
        }
        match self.parse_method_rest(is_public, name, vis.line, vis.col) {
            Ok(m) => Ok(Member::Method(m)),
            Err(e) => Err(e),
        }
    }

    /// The constructor, from the class name.
    fn parse_ctor(&mut self) -> (r: Result<CtorDecl, JimError>)
        requires
            old(self).wf(),
            old(self).tokens()[old(self).at()].kind is Ident,
        ensures
            final(self).wf(),
            final(self).tokens() == old(self).tokens(),
            agrees(p_ctor(old(self).tokens(), old(self).at()), r, final(self).at(), |c: CtorDecl| c@),
            r is Ok ==> final(self).at() > old(self).at(),
    {
        let t = self.bump();
        let params = match self.parse_params() {
            Ok(v) => v,
            Err(e) => return Err(e),
        };
        if self.check(&TokenKind::Sym(Symbol::Arrow)) {
            return Err(self.err_here(lit_string("constructors have no return type")));
        }
        let body = match self.parse_block() {
            Ok(v) => v,
            Err(e) => return Err(e),
        };
        Ok(CtorDecl { params, body, line: t.line, col: t.col })
    }

    /// The error for a token that cannot start a member of class `cname`.
    fn member_error(&self, cname: &String) -> (e: JimError)
        requires
            self.wf(),
        ensures
            match self.tokens()[self.at()].kind {
                TokenKindV::Ident(n) => e@ == err_at(self.tokens(), self.at(), "class members start with 'public' or 'private' (or a '"@ + cname@
                    + "(...)' constructor), found '"@ + n + "'"@),
                other => e@ == err_at(self.tokens(), self.at(), "expected a class member or '}', found "@ + describe_spec(other)),
            },
    {
        let msg = match &self.peek().kind {
            TokenKind::Ident(n) => {
                let mut m = framed("class members start with 'public' or 'private' (or a '", cname.as_str(), "(...)' constructor), found '");
                push_str(&mut m, n.as_str());
                push_str(&mut m, "'");
                m
            },
            other => {
                let mut m = lit_string("expected a class member or '}', found ");
                let d = other.describe();
                push_str(&mut m, d.as_str());
                m
            },
        };
        self.err_here(msg)
    }

    /// One step through a class body: the closing `}` (true), or one member
    /// or the constructor added to what was read (false).
    fn class_step(&mut self, cname: &String, fields: &mut Vec<FieldDecl>, ctor: &mut Option<CtorDecl>, methods: &mut Vec<MethodDecl>) -> (r: Result<bool, JimError>)
        requires
            old(self).wf(),
        ensures
            final(self).wf(),
            final(self).tokens() == old(self).tokens(),
            match r {
                Ok(done) => final(self).at() > old(self).at() && p_members(old(self).tokens(), old(self).at(), cname@, body_v(old(fields), old(ctor), old(methods)))
                    == if done {
                        PR::Done(body_v(final(fields), final(ctor), final(methods)), final(self).at())
                    } else {
                        p_members(old(self).tokens(), final(self).at(), cname@, body_v(final(fields), final(ctor), final(methods)))
                    },
                Err(e) => p_members(old(self).tokens(), old(self).at(), cname@, body_v(old(fields), old(ctor), old(methods))) == PR::<ClassBodyV>::Fail(e@),
            },
    {
        let ghost ts = self.tokens();
        let ghost here = self.at();
        if self.check(&TokenKind::Sym(Symbol::RBrace)) {
            self.bump();
            return Ok(true);
        }
        if self.check(&TokenKind::Eof) {
            return Err(self.err_here(lit_string("unexpected end of file inside a class (missing '}')")));
        }
        if self.check(&TokenKind::Kw(Keyword::Public)) || self.check(&TokenKind::Kw(Keyword::Private)) {
            assert(p_members(ts, here, cname@, body_v(old(fields), old(ctor), old(methods)))
                == p_members_member(ts, here, cname@, body_v(old(fields), old(ctor), old(methods))));
            match self.parse_member() {
                Ok(Member::Field(f)) => {
                    let ghost before = fields_v(fields@);
                    let ghost fv = f@;
                    fields.push(f);
                    assert(fields_v(fields@) =~= before.push(fv));
                },
                Ok(Member::Method(m)) => {
                    let ghost before = methods_v(methods@);
                    let ghost mv = m@;
                    methods.push(m);
                    assert(methods_v(methods@) =~= before.push(mv));
                },
                Err(e) => return Err(e),
            }
            return Ok(false);
        }
        let is_ctor = match &self.peek().kind {
            TokenKind::Ident(n) => crate::text::str_eq(n.as_str(), cname.as_str()),
            _ => false,
        };
        if !is_ctor {
            return Err(self.member_error(cname));
        }
        if ctor.is_some() {
            let msg = framed("class '", cname.as_str(), "' already has a constructor (jim has no overloading)");
            return Err(self.err_here(msg));
        }
        match self.parse_ctor() {
            Ok(c) => {
                *ctor = Some(c);
            },
            Err(e) => return Err(e),
        }
        Ok(false)
    }

    /// Class members up to and including the closing `}`.
    fn parse_class_body(&mut self, cname: &String) -> (r: Result<(Vec<FieldDecl>, Option<CtorDecl>, Vec<MethodDecl>), JimError>)
        requires
            old(self).wf(),
        ensures
            final(self).wf(),
            final(self).tokens() == old(self).tokens(),
            agrees(
                p_members(old(self).tokens(), old(self).at(), cname@, ClassBodyV { fields: Seq::empty(), ctor: None, methods: Seq::empty() }),
                r,
                final(self).at(),
                |b: (Vec<FieldDecl>, Option<CtorDecl>, Vec<MethodDecl>)| body_v(&b.0, &b.1, &b.2),
            ),
            r is Ok ==> final(self).at() > old(self).at(),
    {
        let ghost ts = self.tokens();
        let ghost p = self.at();
        let ghost goal = p_members(ts, p, cname@, ClassBodyV { fields: Seq::empty(), ctor: None, methods: Seq::empty() });
        let mut fields: Vec<FieldDecl> = Vec::new();
        let mut ctor: Option<CtorDecl> = None;
        let mut methods: Vec<MethodDecl> = Vec::new();
        assert(body_v(&fields, &ctor, &methods) == ClassBodyV { fields: Seq::empty(), ctor: None, methods: Seq::empty() }) by {
            assert(fields_v(fields@) =~= Seq::<FieldDeclV>::empty());
            assert(methods_v(methods@) =~= Seq::<MethodDeclV>::empty());
        }
        loop
            invariant_except_break
                goal == p_members(ts, self.at(), cname@, body_v(&fields, &ctor, &methods)),
            invariant
                self.wf(),
                self.tokens() == ts,
                ts == old(self).tokens(),
                p == old(self).at(),
                self.at() >= p,
                goal == p_members(old(self).tokens(), old(self).at(), cname@, ClassBodyV { fields: Seq::empty(), ctor: None, methods: Seq::empty() }),
            ensures
                self.at() > p,
                goal == PR::Done(body_v(&fields, &ctor, &methods), self.at()),
            decreases self.toks@.len() - self.pos,
        {
            match self.class_step(cname, &mut fields, &mut ctor, &mut methods) {
                Ok(true) => break,
                Ok(false) => {},
                Err(e) => return Err(e),
            }
        }
        Ok((fields, ctor, methods))
    }

    #[verifier::spinoff_prover]
    #[verifier::rlimit(30)]
    fn parse_class(&mut self, file_idx: usize, from_std: bool) -> (r: Result<ClassDecl, JimError>)
        requires
            old(self).wf(),
        ensures
            final(self).wf(),
            final(self).tokens() == old(self).tokens(),
            agrees(p_class(old(self).tokens(), old(self).at(), file_idx, from_std), r, final(self).at(), |c: ClassDecl| c@),
            r is Ok ==> final(self).at() > old(self).at(),
    {
        let ghost ts = self.tokens();
        let ghost p = self.at();
        let kw = match self.expect(&TokenKind::Kw(Keyword::Class), "'class'") {
            Ok(v) => v,
            Err(e) => return Err(e),
        };
        let (name, _, _) = match self.expect_ident("a class name") {
            Ok(v) => v,
            Err(e) => return Err(e),
        };
        let type_param = if self.eat(&TokenKind::Sym(Symbol::Lt)) {
            let (tp, _, _) = match self.expect_ident("a type parameter name") {
                Ok(v) => v,
                Err(e) => return Err(e),
            };
            if let Err(e) = self.expect(&TokenKind::Sym(Symbol::Gt), "'>' to close the type parameter") {
                return Err(e);
            }
            Some(tp)
        } else {
            None
        };
        if let Err(e) = self.expect(&TokenKind::Sym(Symbol::LBrace), "'{'") {
            return Err(e);
        }
        let (fields, ctor, methods) = match self.parse_class_body(&name) {
            Ok(v) => v,
            Err(e) => return Err(e),
        };
        Ok(ClassDecl {
            name,
            type_param,
            fields,
            ctor,
            methods,
            file_idx,
            from_std,
            line: kw.line,
            col: kw.col,
        })
    }

    fn parse_import(&mut self) -> (r: Result<Import, JimError>)
        requires
            old(self).wf(),
        ensures
            final(self).wf(),
            final(self).tokens() == old(self).tokens(),
            agrees(p_import(old(self).tokens(), old(self).at()), r, final(self).at(), |i: Import| i@),
            r is Ok ==> final(self).at() > old(self).at(),
    {
        let t = match self.expect(&TokenKind::Kw(Keyword::Import), "'#import'") {
            Ok(v) => v,
            Err(e) => return Err(e),
        };
        let next = self.peek().kind.copy();
        match next {
            TokenKind::Sym(Symbol::Lt) => {
                self.bump();
                let (name, _, _) = match self.expect_ident("a library name") {
                    Ok(v) => v,
                    Err(e) => return Err(e),
                };
                if let Err(e) = self.expect(&TokenKind::Sym(Symbol::Gt), "'>'") {
                    return Err(e);
                }
                Ok(Import { kind: ImportKind::Std(name), line: t.line, col: t.col })
            },
            TokenKind::Str(x) => {
                self.bump();
                Ok(Import { kind: ImportKind::Local(x), line: t.line, col: t.col })
            },
            other => {
                let mut msg = lit_string("expected '<library>' or \"file.j\" after '#import', found ");
                let d = other.describe();
                push_str(&mut msg, d.as_str());
                Err(JimError::new(msg, t.line, t.col))
            },
        }
    }

    /// Every top-level item of the file: imports, functions and classes.
    pub fn parse_module(&mut self, file_idx: usize, from_std: bool) -> (r: Result<Module, JimError>)
        requires
            old(self).wf(),
        ensures
            final(self).wf(),
            final(self).tokens() == old(self).tokens(),
            agrees(
                p_module(old(self).tokens(), old(self).at(), file_idx, from_std, ModuleV { imports: Seq::empty(), functions: Seq::empty(), classes: Seq::empty() }),
                r,
                final(self).at(),
                |m: Module| m@,
            ),
    {
        let ghost ts = self.tokens();
        let ghost p = self.at();
        let ghost goal = p_module(ts, p, file_idx, from_std, ModuleV { imports: Seq::empty(), functions: Seq::empty(), classes: Seq::empty() });
        let mut imports: Vec<Import> = Vec::new();
        let mut functions: Vec<FunctionDecl> = Vec::new();
        let mut classes: Vec<ClassDecl> = Vec::new();
        assert(imports_v(imports@) =~= Seq::<ImportV>::empty());
        assert(functions_v(functions@) =~= Seq::<FunctionDeclV>::empty());
        assert(classes_v(classes@) =~= Seq::<ClassDeclV>::empty());
        loop
            invariant
                self.wf(),
                self.tokens() == ts,
                ts == old(self).tokens(),
                p == old(self).at(),
                goal == p_module(old(self).tokens(), old(self).at(), file_idx, from_std, ModuleV { imports: Seq::empty(), functions: Seq::empty(), classes: Seq::empty() }),
                goal == p_module(ts, self.at(), file_idx, from_std, ModuleV {
                    imports: imports_v(imports@),
                    functions: functions_v(functions@),
                    classes: classes_v(classes@),
                }),
            decreases self.toks@.len() - self.pos,
        {
            if self.check(&TokenKind::Eof) {
                let m = Module { imports, functions, classes };
                return Ok(m);
            }
            if self.check(&TokenKind::Kw(Keyword::Import)) {
                match self.parse_import() {
                    Ok(i) => {
                        let ghost before = imports_v(imports@);
                        let ghost iv = i@;
                        imports.push(i);
                        assert(imports_v(imports@) =~= before.push(iv));
                    },
                    Err(e) => return Err(e),
                }
            } else if self.check(&TokenKind::Kw(Keyword::Function)) {
                match self.parse_function(file_idx, from_std) {
                    Ok(f) => {
                        let ghost before = functions_v(functions@);
                        let ghost fv = f@;
                        functions.push(f);
                        assert(functions_v(functions@) =~= before.push(fv));
                    },
                    Err(e) => return Err(e),
                }
            } else if self.check(&TokenKind::Kw(Keyword::Class)) {
                match self.parse_class(file_idx, from_std) {
                    Ok(c) => {
                        let ghost before = classes_v(classes@);
                        let ghost cv = c@;
                        classes.push(c);
                        assert(classes_v(classes@) =~= before.push(cv));
                    },
                    Err(e) => return Err(e),
                }
            } else if self.check(&TokenKind::Kw(Keyword::Try)) {
                return Err(self.err_here(lit_string("try/catch is a statement — put it inside a function")));
            } else {
                let mut msg = lit_string("expected 'function', 'class' or '#import' at top level, found ");
                let d = self.peek().kind.describe();
                push_str(&mut msg, d.as_str());
                return Err(self.err_here(msg));
            }
        }
    }
}

} // verus!

verus! {

/// What parsing a whole source text yields: its lexical error, or the
/// grammar's outcome on its tokens.
pub open spec fn parse_source_spec(src: Seq<char>, file_idx: usize, from_std: bool) -> PR<ModuleV> {
    match crate::lexer_spec::tokenize_spec(src) {
        Err(e) => PR::Fail(e),
        Ok(ts) => crate::parser_spec::parse_module_spec(ts, file_idx, from_std),
    }
}

/// Lex and parse one source file into its module.
pub fn parse_source(src: &str, file_idx: usize, from_std: bool) -> (r: Result<Module, JimError>)
    requires
        src@.len() < u32::MAX,
    ensures
        match parse_source_spec(src@, file_idx, from_std) {
            PR::Done(m, _) => r matches Ok(x) && x@ == m,
            PR::Fail(e) => r matches Err(x) && x@ == e,
        },
{
    let lx = crate::lexer::Lexer::new(src);
    let toks = match lx.tokenize() {
        Ok(t) => t,
        Err(e) => return Err(e),
    };
    proof {
        crate::lexer_spec::lemma_tokenize_ends_with_eof(src@);
    }
    let mut p = Parser::new(toks);
    p.parse_module(file_idx, from_std)
}

} // verus!
