//! Core method calls while type checking a body: every operator of jim is a
//! call of a method of its left operand's class (`a + b` is
//! `a.plus(b)`), resolved here against the class table.

use vstd::prelude::*;
use crate::ast::{display_spec, BinOp, Expr, ExprKind, ExprKindV, ExprV, Type, TypeV, UnOp, exprs_v, types_v};
use crate::errors::{JimError, JimErrorV};
use crate::loader::opt_view;
use crate::sema::{class_key, class_key_spec};
use crate::text::{decimal, framed, push_decimal, push_str, str_eq};
use crate::typing::{ClassInfo, MethodSig, coerce_spec, try_coerce};

verus! {

/// Why a core method call is made; it words the errors.
pub enum Origin {
    /// An operator, with its label (`operator '+'`, `unary '-'`, ...).
    Operator(String),
    /// A method call written in the source.
    Plain,
}

pub enum OriginV {
    Operator(Seq<char>),
    Plain,
}

impl View for Origin {
    type V = OriginV;

    open spec fn view(&self) -> OriginV {
        match self {
            Origin::Operator(l) => OriginV::Operator(l@),
            Origin::Plain => OriginV::Plain,
        }
    }
}

/// A method signature as values.
pub struct SigV {
    pub params: Seq<TypeV>,
    pub ret: TypeV,
    pub is_public: bool,
}

pub open spec fn sig_v(s: MethodSig) -> SigV {
    SigV { params: types_v(s.params@), ret: s.ret@, is_public: s.is_public }
}

/// The value of the first row of a table under `key`.
pub open spec fn first_key<X>(t: Seq<(String, X)>, key: Seq<char>) -> Option<X>
    decreases t.len(),
{
    if t.len() == 0 {
        None
    } else if t[0].0@ == key {
        Some(t[0].1)
    } else {
        first_key(t.drop_first(), key)
    }
}

/// Typed values as values.
pub open spec fn pairs_v(s: Seq<(Expr, Type)>) -> Seq<(ExprV, TypeV)> {
    Seq::new(s.len(), |i: int| (s[i].0@, s[i].1@))
}

/// The first `n` arguments coerced to their parameter types, or the index
/// of the first one that does not coerce.
pub open spec fn coerce_args(args: Seq<(ExprV, TypeV)>, params: Seq<TypeV>, n: nat) -> Result<Seq<ExprV>, int>
    decreases n,
{
    if n == 0 {
        Ok(Seq::empty())
    } else {
        match coerce_args(args, params, (n - 1) as nat) {
            Err(i) => Err(i),
            Ok(s) => match coerce_spec(args[n - 1].0, args[n - 1].1, params[n - 1]) {
                Some(e) => Ok(s.push(e)),
                None => Err(n - 1),
            },
        }
    }
}

pub open spec fn err_v(msg: Seq<char>, line: u32, col: u32) -> JimErrorV {
    JimErrorV { msg, line, col }
}

pub open spec fn no_methods_msg(o: OriginV, t: TypeV) -> Seq<char> {
    match o {
        OriginV::Operator(l) => l + " cannot be applied to "@ + display_spec(t),
        OriginV::Plain => "type "@ + display_spec(t) + " has no methods"@,
    }
}

pub open spec fn class_missing_msg(o: OriginV, c: Seq<char>, m: Seq<char>) -> Seq<char> {
    match o {
        OriginV::Operator(l) => l + " needs "@ + c + "."@ + m + "(), but class '"@ + c + "' is not defined (is core.j loaded?)"@,
        OriginV::Plain => "type "@ + c + " has no method '"@ + m + "' (class '"@ + c + "' is not defined \u{e2}\u{20ac}\u{201d} is core.j loaded?)"@,
    }
}

pub open spec fn method_missing_msg(o: OriginV, c: Seq<char>, m: Seq<char>) -> Seq<char> {
    match o {
        OriginV::Operator(l) => l + " needs "@ + c + "."@ + m + "(), but class '"@ + c + "' has no method '"@ + m + "'"@,
        OriginV::Plain => "class '"@ + c + "' has no method '"@ + m + "'"@,
    }
}

pub open spec fn private_msg(c: Seq<char>, m: Seq<char>) -> Seq<char> {
    "method '"@ + m + "' of class '"@ + c + "' is private"@
}

pub open spec fn arity_msg(o: OriginV, c: Seq<char>, m: Seq<char>, got: nat, want: nat) -> Seq<char> {
    match o {
        OriginV::Operator(l) => l + " calls "@ + c + "."@ + m + " with "@ + decimal(got) + " argument(s), but it is declared with "@ + decimal(want) + " parameter(s)"@,
        OriginV::Plain => "method '"@ + c + "."@ + m + "' expects "@ + decimal(want) + " argument(s), got "@ + decimal(got),
    }
}

pub open spec fn arg_type_msg(o: OriginV, c: Seq<char>, m: Seq<char>, want: TypeV, got: TypeV) -> Seq<char> {
    match o {
        OriginV::Operator(l) => l + ": "@ + c + "."@ + m + " expects "@ + display_spec(want) + ", found "@ + display_spec(got),
        OriginV::Plain => "argument type mismatch in '"@ + c + "."@ + m + "': expected "@ + display_spec(want) + ", found "@ + display_spec(got),
    }
}

/// `recv.method(args)` on a receiver of type `recv_ty`, resolved against the
/// class table from inside class `current` (if any): the class must exist
/// and have the method, a private method is only callable from its own
/// class, the argument count must match, and each argument must coerce to
/// its parameter type. The result is the resolved call and its type.
pub open spec fn core_call_spec(
    classes: Seq<(String, ClassInfo)>,
    current: Option<Seq<char>>,
    recv_ty: TypeV,
    method: Seq<char>,
    recv: ExprV,
    args: Seq<(ExprV, TypeV)>,
    line: u32,
    col: u32,
    o: OriginV,
) -> Result<(ExprV, TypeV), JimErrorV> {
    match class_key_spec(recv_ty) {
        None => Err(err_v(no_methods_msg(o, recv_ty), line, col)),
        Some(c) => match first_key(classes, c) {
            None => Err(err_v(class_missing_msg(o, c, method), line, col)),
            Some(info) => match first_key(info.methods@, method) {
                None => Err(err_v(method_missing_msg(o, c, method), line, col)),
                Some(sig) => {
                    let s = sig_v(sig);
                    if !s.is_public && current != Some(c) {
                        Err(err_v(private_msg(c, method), line, col))
                    } else if args.len() != s.params.len() {
                        Err(err_v(arity_msg(o, c, method, args.len(), s.params.len()), line, col))
                    } else {
                        match coerce_args(args, s.params, args.len()) {
                            Err(i) => Err(err_v(arg_type_msg(o, c, method, s.params[i], args[i].1), args[i].0.line, args[i].0.col)),
                            Ok(lowered) => Ok((
                                ExprV { kind: ExprKindV::CoreMethodCall { class: c, name: method, recv: Box::new(recv), args: lowered }, line, col },
                                s.ret,
                            )),
                        }
                    }
                },
            },
        },
    }
}

/// Where the first row under `key` is.
pub fn find_row<X>(t: &Vec<(String, X)>, key: &str) -> (r: Option<usize>)
    ensures
        match first_key(t@, key@) {
            Some(x) => r matches Some(i) && i < t@.len() && t@[i as int].1 == x,
            None => r is None,
        },
{
    let mut i: usize = 0;
    assert(t@.skip(0) =~= t@);
    while i < t.len()
        invariant
            i <= t@.len(),
            first_key(t@, key@) == first_key(t@.skip(i as int), key@),
        decreases t@.len() - i,
    {
        assert(t@.skip(i as int)[0] == t@[i as int]);
        if str_eq(t[i].0.as_str(), key) {
            return Some(i);
        }
        assert(t@.skip(i as int).drop_first() =~= t@.skip(i + 1));
        i += 1;
    }
    None
}

fn label_then(l: &str, a: &str) -> (s: String)
    ensures
        s@ == l@ + a@,
{
    let mut s = crate::text::lit_string(l);
    push_str(&mut s, a);
    s
}

fn no_methods_text(o: &Origin, t: &Type) -> (s: String)
    ensures
        s@ == no_methods_msg(o@, t@),
{
    let d = t.display();
    match o {
        Origin::Operator(l) => {
            let mut s = label_then(l.as_str(), " cannot be applied to ");
            push_str(&mut s, d.as_str());
            s
        },
        Origin::Plain => framed("type ", d.as_str(), " has no methods"),
    }
}

fn class_missing_text(o: &Origin, c: &str, m: &str) -> (s: String)
    ensures
        s@ == class_missing_msg(o@, c@, m@),
{
    match o {
        Origin::Operator(l) => {
            let mut s = label_then(l.as_str(), " needs ");
            push_str(&mut s, c);
            push_str(&mut s, ".");
            push_str(&mut s, m);
            push_str(&mut s, "(), but class '");
            push_str(&mut s, c);
            push_str(&mut s, "' is not defined (is core.j loaded?)");
            s
        },
        Origin::Plain => {
            let mut s = framed("type ", c, " has no method '");
            push_str(&mut s, m);
            push_str(&mut s, "' (class '");
            push_str(&mut s, c);
            push_str(&mut s, "' is not defined \u{e2}\u{20ac}\u{201d} is core.j loaded?)");
            s
        },
    }
}

fn method_missing_text(o: &Origin, c: &str, m: &str) -> (s: String)
    ensures
        s@ == method_missing_msg(o@, c@, m@),
{
    match o {
        Origin::Operator(l) => {
            let mut s = label_then(l.as_str(), " needs ");
            push_str(&mut s, c);
            push_str(&mut s, ".");
            push_str(&mut s, m);
            push_str(&mut s, "(), but class '");
            push_str(&mut s, c);
            push_str(&mut s, "' has no method '");
            push_str(&mut s, m);
            push_str(&mut s, "'");
            s
        },
        Origin::Plain => {
            let mut s = framed("class '", c, "' has no method '");
            push_str(&mut s, m);
            push_str(&mut s, "'");
            s
        },
    }
}

fn private_text(c: &str, m: &str) -> (s: String)
    ensures
        s@ == private_msg(c@, m@),
{
    let mut s = framed("method '", m, "' of class '");
    push_str(&mut s, c);
    push_str(&mut s, "' is private");
    s
}

fn arity_text(o: &Origin, c: &str, m: &str, got: usize, want: usize) -> (s: String)
    ensures
        s@ == arity_msg(o@, c@, m@, got as nat, want as nat),
{
    match o {
        Origin::Operator(l) => {
            let mut s = label_then(l.as_str(), " calls ");
            push_str(&mut s, c);
            push_str(&mut s, ".");
            push_str(&mut s, m);
            push_str(&mut s, " with ");
            push_decimal(&mut s, got as u64);
            push_str(&mut s, " argument(s), but it is declared with ");
            push_decimal(&mut s, want as u64);
            push_str(&mut s, " parameter(s)");
            s
        },
        Origin::Plain => {
            let mut s = framed("method '", c, ".");
            push_str(&mut s, m);
            push_str(&mut s, "' expects ");
            push_decimal(&mut s, want as u64);
            push_str(&mut s, " argument(s), got ");
            push_decimal(&mut s, got as u64);
            s
        },
    }
}

fn arg_type_text(o: &Origin, c: &str, m: &str, want: &Type, got: &Type) -> (s: String)
    ensures
        s@ == arg_type_msg(o@, c@, m@, want@, got@),
{
    let w = want.display();
    let g = got.display();
    match o {
        Origin::Operator(l) => {
            let mut s = label_then(l.as_str(), ": ");
            push_str(&mut s, c);
            push_str(&mut s, ".");
            push_str(&mut s, m);
            push_str(&mut s, " expects ");
            push_str(&mut s, w.as_str());
            push_str(&mut s, ", found ");
            push_str(&mut s, g.as_str());
            s
        },
        Origin::Plain => {
            let mut s = framed("argument type mismatch in '", c, ".");
            push_str(&mut s, m);
            push_str(&mut s, "': expected ");
            push_str(&mut s, w.as_str());
            push_str(&mut s, ", found ");
            push_str(&mut s, g.as_str());
            s
        },
    }
}

/// Once the arguments fail to coerce at `j`, every longer prefix fails there.
proof fn lemma_coerce_err_stays(a: Seq<(ExprV, TypeV)>, ps: Seq<TypeV>, m: nat, k: nat, j: int)
    requires
        m <= k,
        coerce_args(a, ps, m) == Err::<Seq<ExprV>, int>(j),
    ensures
        coerce_args(a, ps, k) == Err::<Seq<ExprV>, int>(j),
    decreases k - m,
{
    if m < k {
        lemma_coerce_err_stays(a, ps, m, (k - 1) as nat, j);
    }
}

/// Coerce each argument to its parameter type, in order; the first that
/// does not coerce is the error.
fn coerce_all(o: &Origin, c: &str, m: &str, args: Vec<(Expr, Type)>, params: &Vec<Type>) -> (r: Result<Vec<Expr>, JimError>)
    requires
        args@.len() == params@.len(),
    ensures
        match coerce_args(pairs_v(args@), types_v(params@), args@.len()) {
            Ok(s) => r matches Ok(v) && exprs_v(v@) == s,
            Err(i) => r matches Err(x) && x@ == err_v(arg_type_msg(o@, c@, m@, types_v(params@)[i], pairs_v(args@)[i].1), pairs_v(args@)[i].0.line, pairs_v(args@)[i].0.col),
        },
{
    let ghost a = pairs_v(args@);
    let ghost ps = types_v(params@);
    let n = args.len();
    let mut rest = args;
    let mut out: Vec<Expr> = Vec::new();
    let mut i: usize = 0;
    assert(pairs_v(rest@) =~= a.skip(0));
    assert(exprs_v(out@) =~= Seq::<ExprV>::empty());
    while i < n
        invariant
            a == pairs_v(args@),
            n == a.len(),
            n == params@.len(),
            ps == types_v(params@),
            i <= n,
            rest@.len() == n - i,
            pairs_v(rest@) =~= a.skip(i as int),
            coerce_args(a, ps, i as nat) == Ok::<Seq<ExprV>, int>(exprs_v(out@)),
        decreases n - i,
    {
        let ghost before = rest@;
        let ghost prev = out@;
        let (arg, got) = rest.remove(0);
        assert(pairs_v(before)[0] == a[i as int]);
        assert(a[i as int] == (arg@, got@));
        assert(pairs_v(rest@) =~= a.skip(i + 1)) by {
            assert(rest@ =~= before.remove(0));
            assert forall|k: int| 0 <= k < rest@.len() implies #[trigger] pairs_v(rest@)[k] == a.skip(i + 1)[k] by {
                assert(pairs_v(before)[k + 1] == a.skip(i as int)[k + 1]);
            }
        }
        let line = arg.line;
        let col = arg.col;
        match try_coerce((arg, got), &params[i]) {
            Ok(e) => {
                out.push(e);
                assert(exprs_v(out@) =~= exprs_v(prev).push(e@));
            },
            Err((_, t)) => {
                proof {
                    assert(ps[i as int] == params@[i as int]@);
                    assert(coerce_args(a, ps, (i + 1) as nat) == Err::<Seq<ExprV>, int>(i as int));
                    lemma_coerce_err_stays(a, ps, (i + 1) as nat, n as nat, i as int);
                }
                let msg = arg_type_text(o, c, m, &params[i], &t);
                return Err(JimError::new(msg, line, col));
            },
        }
        i += 1;
    }
    Ok(out)
}

pub open spec fn result_v(r: Result<(Expr, Type), JimError>) -> Result<(ExprV, TypeV), JimErrorV> {
    match r {
        Ok((e, t)) => Ok((e@, t@)),
        Err(x) => Err(x@),
    }
}

/// Resolve and type-check `recv.method(args)` (see [`core_call_spec`]).
pub fn core_call(
    classes: &Vec<(String, ClassInfo)>,
    current: &Option<String>,
    recv_ty: &Type,
    method: &str,
    recv: Expr,
    args: Vec<(Expr, Type)>,
    line: u32,
    col: u32,
    origin: &Origin,
) -> (r: Result<(Expr, Type), JimError>)
    ensures
        result_v(r) == core_call_spec(classes@, opt_view(*current), recv_ty@, method@, recv@, pairs_v(args@), line, col, origin@),
{
    let class = match class_key(recv_ty) {
        Some(k) => k,
        None => return Err(JimError::new(no_methods_text(origin, recv_ty), line, col)),
    };
    let ci = match find_row(classes, class.as_str()) {
        Some(i) => i,
        None => return Err(JimError::new(class_missing_text(origin, class.as_str(), method), line, col)),
    };
    let info = &classes[ci].1;
    let mi = match find_row(&info.methods, method) {
        Some(i) => i,
        None => return Err(JimError::new(method_missing_text(origin, class.as_str(), method), line, col)),
    };
    let sig = &info.methods[mi].1;
    let inside = match current {
        Some(cur) => str_eq(cur.as_str(), class.as_str()),
        None => false,
    };
    if !sig.is_public && !inside {
        return Err(JimError::new(private_text(class.as_str(), method), line, col));
    }
    if args.len() != sig.params.len() {
        return Err(JimError::new(arity_text(origin, class.as_str(), method, args.len(), sig.params.len()), line, col));
    }
    proof {
        assert(types_v(sig.params@).len() == sig.params@.len());
        assert(pairs_v(args@).len() == args@.len());
    }
    let lowered = match coerce_all(origin, class.as_str(), method, args, &sig.params) {
        Ok(v) => v,
        Err(e) => return Err(e),
    };
    let ret = sig.ret.copy();
    let name = crate::text::lit_string(method);
    let call = Expr { kind: ExprKind::CoreMethodCall { class, name, recv: Box::new(recv), args: lowered }, line, col };
    Ok((call, ret))
}

pub open spec fn bool_t() -> TypeV {
    TypeV::Named("Bool"@)
}

pub open spec fn op_label(sym: Seq<char>) -> Seq<char> {
    "operator '"@ + sym + "'"@
}

fn op_label_text(sym: &str) -> (s: String)
    ensures
        s@ == op_label(sym@),
{
    framed("operator '", sym, "'")
}

/// A comparison operator as a call of `equals` or `less_than` on `recv`
/// with `arg`, which must return Bool; `negate` wraps it in a native `not`
/// (that is how `!=`, `<=` and `>=` derive from the two methods).
pub open spec fn comparison_spec(
    classes: Seq<(String, ClassInfo)>,
    current: Option<Seq<char>>,
    sym: Seq<char>,
    method: Seq<char>,
    recv: (ExprV, TypeV),
    arg: (ExprV, TypeV),
    negate: bool,
    line: u32,
    col: u32,
) -> Result<(ExprV, TypeV), JimErrorV> {
    match recv.1 {
        TypeV::Named(n) => match core_call_spec(classes, current, recv.1, method, recv.0, seq![arg], line, col, OriginV::Operator(op_label(sym))) {
            Err(e) => Err(e),
            Ok((call, ret)) => if ret != bool_t() {
                Err(err_v("'"@ + n + "."@ + method + "' must return Bool to back operator '"@ + sym + "' (it returns "@ + display_spec(ret) + ")"@, line, col))
            } else if negate {
                Ok((ExprV { kind: ExprKindV::Unary { op: UnOp::Not, operand: Box::new(call) }, line, col }, bool_t()))
            } else {
                Ok((call, bool_t()))
            },
        },
        _ => Err(err_v("operator '"@ + sym + "' cannot be applied to "@ + display_spec(recv.1), line, col)),
    }
}

/// `recv.method(arg)` backing a comparison operator (see [`comparison_spec`]).
pub fn comparison_call(
    classes: &Vec<(String, ClassInfo)>,
    current: &Option<String>,
    sym: &str,
    method: &str,
    recv: (Expr, Type),
    arg: (Expr, Type),
    negate: bool,
    line: u32,
    col: u32,
) -> (r: Result<(Expr, Type), JimError>)
    ensures
        result_v(r) == comparison_spec(classes@, opt_view(*current), sym@, method@, (recv.0@, recv.1@), (arg.0@, arg.1@), negate, line, col),
{
    let class = match &recv.1 {
        Type::Named(n) => n.clone(),
        _ => {
            let mut m = framed("operator '", sym, "' cannot be applied to ");
            let d = recv.1.display();
            push_str(&mut m, d.as_str());
            return Err(JimError::new(m, line, col));
        },
    };
    let origin = Origin::Operator(op_label_text(sym));
    let ghost arg_v = (arg.0@, arg.1@);
    let mut args: Vec<(Expr, Type)> = Vec::new();
    args.push(arg);
    assert(pairs_v(args@) =~= seq![arg_v]);
    let (recv_e, recv_t) = recv;
    let (call, ret) = match core_call(classes, current, &recv_t, method, recv_e, args, line, col, &origin) {
        Ok(x) => x,
        Err(e) => return Err(e),
    };
    if !ret.is_named("Bool") {
        let mut m = framed("'", class.as_str(), ".");
        push_str(&mut m, method);
        push_str(&mut m, "' must return Bool to back operator '");
        push_str(&mut m, sym);
        push_str(&mut m, "' (it returns ");
        let d = ret.display();
        push_str(&mut m, d.as_str());
        push_str(&mut m, ")");
        return Err(JimError::new(m, line, col));
    }
    if negate {
        Ok((Expr { kind: ExprKind::Unary { op: UnOp::Not, operand: Box::new(call) }, line, col }, Type::named("Bool")))
    } else {
        Ok((call, Type::named("Bool")))
    }
}

pub open spec fn mixed_label() -> Seq<char> {
    "mixed Integer/Float arithmetic"@
}

/// An Integer turned into a Float by its class's `to_float`.
pub open spec fn to_float_spec(classes: Seq<(String, ClassInfo)>, current: Option<Seq<char>>, e: (ExprV, TypeV)) -> Result<(ExprV, TypeV), JimErrorV> {
    core_call_spec(classes, current, e.1, "to_float"@, e.0, Seq::empty(), e.0.line, e.0.col, OriginV::Operator(mixed_label()))
}

pub fn to_float(classes: &Vec<(String, ClassInfo)>, current: &Option<String>, e: (Expr, Type)) -> (r: Result<(Expr, Type), JimError>)
    ensures
        result_v(r) == to_float_spec(classes@, opt_view(*current), (e.0@, e.1@)),
{
    let (x, t) = e;
    let line = x.line;
    let col = x.col;
    let args: Vec<(Expr, Type)> = Vec::new();
    assert(pairs_v(args@) =~= Seq::<(ExprV, TypeV)>::empty());
    let origin = Origin::Operator(crate::text::lit_string("mixed Integer/Float arithmetic"));
    core_call(classes, current, &t, "to_float", x, args, line, col, &origin)
}

pub open spec fn int_t() -> TypeV {
    TypeV::Named("Integer"@)
}

pub open spec fn float_t() -> TypeV {
    TypeV::Named("Float"@)
}

/// jim's one implicit conversion: in a mixed Integer/Float pair the Integer
/// side becomes a Float; any other pair is left alone.
pub open spec fn widen_spec(
    classes: Seq<(String, ClassInfo)>,
    current: Option<Seq<char>>,
    l: (ExprV, TypeV),
    r: (ExprV, TypeV),
) -> Result<((ExprV, TypeV), (ExprV, TypeV)), JimErrorV> {
    if l.1 == int_t() && r.1 == float_t() {
        match to_float_spec(classes, current, l) {
            Ok(l2) => Ok((l2, r)),
            Err(e) => Err(e),
        }
    } else if l.1 == float_t() && r.1 == int_t() {
        match to_float_spec(classes, current, r) {
            Ok(r2) => Ok((l, r2)),
            Err(e) => Err(e),
        }
    } else {
        Ok((l, r))
    }
}

pub open spec fn pair_result_v(r: Result<((Expr, Type), (Expr, Type)), JimError>) -> Result<((ExprV, TypeV), (ExprV, TypeV)), JimErrorV> {
    match r {
        Ok(((a, at), (b, bt))) => Ok(((a@, at@), (b@, bt@))),
        Err(x) => Err(x@),
    }
}

pub fn widen(classes: &Vec<(String, ClassInfo)>, current: &Option<String>, l: (Expr, Type), r: (Expr, Type)) -> (out: Result<((Expr, Type), (Expr, Type)), JimError>)
    ensures
        pair_result_v(out) == widen_spec(classes@, opt_view(*current), (l.0@, l.1@), (r.0@, r.1@)),
{
    if l.1.is_named("Integer") && r.1.is_named("Float") {
        match to_float(classes, current, l) {
            Ok(l2) => Ok((l2, r)),
            Err(e) => Err(e),
        }
    } else if l.1.is_named("Float") && r.1.is_named("Integer") {
        match to_float(classes, current, r) {
            Ok(r2) => Ok((l, r2)),
            Err(e) => Err(e),
        }
    } else {
        Ok((l, r))
    }
}

/// The symbol and the backing method of an arithmetic operator.
pub open spec fn arith_of(op: BinOp) -> Option<(Seq<char>, Seq<char>)> {
    match op {
        BinOp::Add => Some(("+"@, "plus"@)),
        BinOp::Sub => Some(("-"@, "minus"@)),
        BinOp::Mul => Some(("*"@, "times"@)),
        BinOp::Div => Some(("/"@, "divide"@)),
        BinOp::IntDiv => Some(("div"@, "int_divide"@)),
        BinOp::Mod => Some(("%"@, "mod"@)),
        _ => None,
    }
}

fn arith_text(op: BinOp) -> (r: Option<(&'static str, &'static str)>)
    ensures
        match arith_of(op) {
            Some((sym, m)) => r matches Some((a, b)) && a@ == sym && b@ == m,
            None => r is None,
        },
{
    match op {
        BinOp::Add => Some(("+", "plus")),
        BinOp::Sub => Some(("-", "minus")),
        BinOp::Mul => Some(("*", "times")),
        BinOp::Div => Some(("/", "divide")),
        BinOp::IntDiv => Some(("div", "int_divide")),
        BinOp::Mod => Some(("%", "mod")),
        _ => None,
    }
}

/// A binary operator other than `and`/`or` on two values (already unwrapped
/// and widened): arithmetic calls the left class's method with the right
/// value; `==`/`!=` go through `equals`, `<`/`>=` through `l.less_than(r)`
/// and `>`/`<=` through `r.less_than(l)`, negated where the operator asks.
pub open spec fn values_binary_spec(
    classes: Seq<(String, ClassInfo)>,
    current: Option<Seq<char>>,
    op: BinOp,
    l: (ExprV, TypeV),
    r: (ExprV, TypeV),
    line: u32,
    col: u32,
) -> Result<(ExprV, TypeV), JimErrorV> {
    match arith_of(op) {
        Some((sym, m)) => core_call_spec(classes, current, l.1, m, l.0, seq![r], line, col, OriginV::Operator(op_label(sym))),
        None => match op {
            BinOp::Eq => comparison_spec(classes, current, "=="@, "equals"@, l, r, false, line, col),
            BinOp::NotEq => comparison_spec(classes, current, "!="@, "equals"@, l, r, true, line, col),
            BinOp::Lt => comparison_spec(classes, current, "<"@, "less_than"@, l, r, false, line, col),
            BinOp::Gt => comparison_spec(classes, current, ">"@, "less_than"@, r, l, false, line, col),
            BinOp::LtEq => comparison_spec(classes, current, "<="@, "less_than"@, r, l, true, line, col),
            _ => comparison_spec(classes, current, ">="@, "less_than"@, l, r, true, line, col),
        },
    }
}

pub fn values_binary(
    classes: &Vec<(String, ClassInfo)>,
    current: &Option<String>,
    op: BinOp,
    l: (Expr, Type),
    r: (Expr, Type),
    line: u32,
    col: u32,
) -> (out: Result<(Expr, Type), JimError>)
    requires
        op != BinOp::And && op != BinOp::Or,
    ensures
        result_v(out) == values_binary_spec(classes@, opt_view(*current), op, (l.0@, l.1@), (r.0@, r.1@), line, col),
{
    match arith_text(op) {
        Some((sym, m)) => {
            let ghost rv = (r.0@, r.1@);
            let origin = Origin::Operator(op_label_text(sym));
            let (le, lt) = l;
            let mut args: Vec<(Expr, Type)> = Vec::new();
            args.push(r);
            assert(pairs_v(args@) =~= seq![rv]);
            core_call(classes, current, &lt, m, le, args, line, col, &origin)
        },
        None => match op {
            BinOp::Eq => comparison_call(classes, current, "==", "equals", l, r, false, line, col),
            BinOp::NotEq => comparison_call(classes, current, "!=", "equals", l, r, true, line, col),
            BinOp::Lt => comparison_call(classes, current, "<", "less_than", l, r, false, line, col),
            BinOp::Gt => comparison_call(classes, current, ">", "less_than", r, l, false, line, col),
            BinOp::LtEq => comparison_call(classes, current, "<=", "less_than", r, l, true, line, col),
            _ => comparison_call(classes, current, ">=", "less_than", l, r, true, line, col),
        },
    }
}

/// The tail of a binary operator other than `and`/`or`, `== None` and
/// `!= None`, given both operands as lowered: optionals are unwrapped
/// (checked at run time), a mixed Integer/Float pair is widened, and the
/// operator becomes its method call.
pub open spec fn operands_binary_spec(
    classes: Seq<(String, ClassInfo)>,
    current: Option<Seq<char>>,
    op: BinOp,
    l: (ExprV, TypeV),
    r: (ExprV, TypeV),
    line: u32,
    col: u32,
) -> Result<(ExprV, TypeV), JimErrorV> {
    let l1 = crate::typing::deopt_spec(l.0, l.1);
    let r1 = crate::typing::deopt_spec(r.0, r.1);
    match widen_spec(classes, current, l1, r1) {
        Err(e) => Err(e),
        Ok((l2, r2)) => values_binary_spec(classes, current, op, l2, r2, line, col),
    }
}

pub fn operands_binary(
    classes: &Vec<(String, ClassInfo)>,
    current: &Option<String>,
    op: BinOp,
    l: (Expr, Type),
    r: (Expr, Type),
    line: u32,
    col: u32,
) -> (out: Result<(Expr, Type), JimError>)
    requires
        op != BinOp::And && op != BinOp::Or,
    ensures
        result_v(out) == operands_binary_spec(classes@, opt_view(*current), op, (l.0@, l.1@), (r.0@, r.1@), line, col),
{
    let l1 = crate::typing::deopt(l);
    let r1 = crate::typing::deopt(r);
    match widen(classes, current, l1, r1) {
        Err(e) => Err(e),
        Ok((l2, r2)) => values_binary(classes, current, op, l2, r2, line, col),
    }
}

/// An operand of `and`/`or` (`word`), unwrapped if optional: it must be a Bool.
pub open spec fn logic_operand_spec(word: Seq<char>, v: (ExprV, TypeV)) -> Result<ExprV, JimErrorV> {
    let (e, t) = crate::typing::deopt_spec(v.0, v.1);
    if t != bool_t() {
        Err(err_v("'"@ + word + "' needs Bool operands, found "@ + display_spec(t), e.line, e.col))
    } else {
        Ok(e)
    }
}

pub fn logic_operand(word: &str, v: (Expr, Type)) -> (r: Result<Expr, JimError>)
    ensures
        match logic_operand_spec(word@, (v.0@, v.1@)) {
            Ok(e) => r matches Ok(x) && x@ == e,
            Err(e) => r matches Err(x) && x@ == e,
        },
{
    let (e, t) = crate::typing::deopt(v);
    if !t.is_named("Bool") {
        let mut m = framed("'", word, "' needs Bool operands, found ");
        let d = t.display();
        push_str(&mut m, d.as_str());
        let line = e.line;
        let col = e.col;
        return Err(JimError::new(m, line, col));
    }
    Ok(e)
}

/// Which side of `==`/`!=` is a `None` literal: `Some(true)` when the left
/// one is (the value is on the right), `Some(false)` when the right one is,
/// `None` when neither is (or the operator is another); both is an error.
pub open spec fn none_side_spec(op: BinOp, lhs: ExprV, rhs: ExprV, line: u32, col: u32) -> Result<Option<bool>, JimErrorV> {
    if op == BinOp::Eq || op == BinOp::NotEq {
        let l_none = lhs.kind is NoneLit;
        let r_none = rhs.kind is NoneLit;
        if l_none && r_none {
            Err(err_v("cannot compare None with None"@, line, col))
        } else if l_none {
            Ok(Some(true))
        } else if r_none {
            Ok(Some(false))
        } else {
            Ok(None)
        }
    } else {
        Ok(None)
    }
}

pub fn none_side(op: BinOp, lhs: &Expr, rhs: &Expr, line: u32, col: u32) -> (r: Result<Option<bool>, JimError>)
    ensures
        match none_side_spec(op, lhs@, rhs@, line, col) {
            Ok(s) => r == Ok::<Option<bool>, JimError>(s),
            Err(e) => r matches Err(x) && x@ == e,
        },
{
    if op == BinOp::Eq || op == BinOp::NotEq {
        let l_none = matches!(lhs.kind, ExprKind::NoneLit);
        let r_none = matches!(rhs.kind, ExprKind::NoneLit);
        if l_none && r_none {
            Err(JimError::new(crate::text::lit_string("cannot compare None with None"), line, col))
        } else if l_none {
            Ok(Some(true))
        } else if r_none {
            Ok(Some(false))
        } else {
            Ok(None)
        }
    } else {
        Ok(None)
    }
}

/// `v == None` / `v != None` as a native presence test of an optional
/// value (`!=` is the test itself, `==` its negation).
pub open spec fn none_test_spec(op: BinOp, v: (ExprV, TypeV), line: u32, col: u32) -> Result<(ExprV, TypeV), JimErrorV> {
    match crate::sema::opt_payload_spec(v.1) {
        None => Err(err_v("only optional values (T?) can be compared with None \u{e2}\u{20ac}\u{201d} this is "@ + display_spec(v.1), v.0.line, v.0.col)),
        Some(p) => {
            let has = ExprV { kind: ExprKindV::OptHas { payload: p, expr: Box::new(v.0) }, line, col };
            if op == BinOp::NotEq {
                Ok((has, bool_t()))
            } else {
                Ok((ExprV { kind: ExprKindV::Unary { op: UnOp::Not, operand: Box::new(has) }, line, col }, bool_t()))
            }
        },
    }
}

pub fn none_test(op: BinOp, v: (Expr, Type), line: u32, col: u32) -> (r: Result<(Expr, Type), JimError>)
    ensures
        result_v(r) == none_test_spec(op, (v.0@, v.1@), line, col),
{
    let (e, t) = v;
    match crate::sema::opt_payload(&t) {
        None => {
            let mut m = crate::text::lit_string("only optional values (T?) can be compared with None \u{e2}\u{20ac}\u{201d} this is ");
            let d = t.display();
            push_str(&mut m, d.as_str());
            let el = e.line;
            let ec = e.col;
            Err(JimError::new(m, el, ec))
        },
        Some(payload) => {
            let ghost pv = payload@;
            let ghost ev = e@;
            let has = Expr { kind: ExprKind::OptHas { payload, expr: Box::new(e) }, line, col };
            assert(has@ == ExprV { kind: ExprKindV::OptHas { payload: pv, expr: Box::new(ev) }, line, col });
            if op == BinOp::NotEq {
                Ok((has, Type::named("Bool")))
            } else {
                Ok((Expr { kind: ExprKind::Unary { op: UnOp::Not, operand: Box::new(has) }, line, col }, Type::named("Bool")))
            }
        },
    }
}

/// `recv.f` on a value of type `rty`: the class must exist and have the
/// field, and a private field is only visible from its own class. The
/// result is the class's key and the field's type.
pub open spec fn resolve_field_spec(
    classes: Seq<(String, ClassInfo)>,
    current: Option<Seq<char>>,
    rty: TypeV,
    f: Seq<char>,
    line: u32,
    col: u32,
) -> Result<(Seq<char>, TypeV), JimErrorV> {
    match class_key_spec(rty) {
        None => Err(err_v("type "@ + display_spec(rty) + " has no fields"@, line, col)),
        Some(c) => match first_key(classes, c) {
            None => Err(err_v("type "@ + c + " has no fields"@, line, col)),
            Some(info) => match first_key(info.fields@, f) {
                None => Err(err_v("class '"@ + c + "' has no field '"@ + f + "'"@, line, col)),
                Some(fi) => if !fi.is_public && current != Some(c) {
                    Err(err_v("field '"@ + f + "' of class '"@ + c + "' is private"@, line, col))
                } else {
                    Ok((c, fi.ty@))
                },
            },
        },
    }
}

pub fn resolve_field(
    classes: &Vec<(String, ClassInfo)>,
    current: &Option<String>,
    rty: &Type,
    f: &str,
    line: u32,
    col: u32,
) -> (r: Result<(String, Type), JimError>)
    ensures
        match resolve_field_spec(classes@, opt_view(*current), rty@, f@, line, col) {
            Ok((c, t)) => r matches Ok((a, b)) && a@ == c && b@ == t,
            Err(e) => r matches Err(x) && x@ == e,
        },
{
    let class = match class_key(rty) {
        Some(k) => k,
        None => {
            let d = rty.display();
            return Err(JimError::new(framed("type ", d.as_str(), " has no fields"), line, col));
        },
    };
    let ci = match find_row(classes, class.as_str()) {
        Some(i) => i,
        None => return Err(JimError::new(framed("type ", class.as_str(), " has no fields"), line, col)),
    };
    let info = &classes[ci].1;
    let fi = match find_row(&info.fields, f) {
        Some(i) => i,
        None => {
            let mut m = framed("class '", class.as_str(), "' has no field '");
            push_str(&mut m, f);
            push_str(&mut m, "'");
            return Err(JimError::new(m, line, col));
        },
    };
    let field = &info.fields[fi].1;
    let inside = match current {
        Some(cur) => str_eq(cur.as_str(), class.as_str()),
        None => false,
    };
    if !field.is_public && !inside {
        let mut m = framed("field '", f, "' of class '");
        push_str(&mut m, class.as_str());
        push_str(&mut m, "' is private");
        return Err(JimError::new(m, line, col));
    }
    let t = field.ty.copy();
    Ok((class, t))
}

/// `target op= value` as `target = target.method(value)`: both sides are
/// unwrapped and widened, the method is resolved on the target's class,
/// and its result must store back into the target's type (`store`).
/// The result is the value to assign.
pub open spec fn augmented_spec(
    classes: Seq<(String, ClassInfo)>,
    current: Option<Seq<char>>,
    target_desc: Seq<char>,
    target: ExprV,
    store: TypeV,
    method: Seq<char>,
    sym: Seq<char>,
    value: (ExprV, TypeV),
    line: u32,
    col: u32,
) -> Result<ExprV, JimErrorV> {
    let recv = crate::typing::deopt_spec(target, store);
    let v = crate::typing::deopt_spec(value.0, value.1);
    match widen_spec(classes, current, recv, v) {
        Err(e) => Err(e),
        Ok((recv2, v2)) => match core_call_spec(classes, current, recv2.1, method, recv2.0, seq![v2], line, col, OriginV::Operator(op_label(sym))) {
            Err(e) => Err(e),
            Ok((call, rt)) => match coerce_spec(call, rt, store) {
                None => Err(err_v("operator '"@ + sym + "': result is "@ + display_spec(rt) + " but "@ + target_desc + " is "@ + display_spec(store) + " (the target's type cannot change)"@, line, col)),
                Some(c) => Ok(c),
            },
        },
    }
}

/// The assignment that an augmented assignment stands for (see
/// [`augmented_spec`]).
pub fn desugar_augmented(
    classes: &Vec<(String, ClassInfo)>,
    current: &Option<String>,
    target_desc: &str,
    lowered_target: Expr,
    store_ty: &Type,
    method: &str,
    sym: &str,
    value: (Expr, Type),
    line: u32,
    col: u32,
) -> (r: Result<crate::ast::StmtKind, JimError>)
    ensures
        match augmented_spec(classes@, opt_view(*current), target_desc@, lowered_target@, store_ty@, method@, sym@, (value.0@, value.1@), line, col) {
            Ok(v) => r matches Ok(k) && k matches crate::ast::StmtKind::Assign { target, op, value }
                && target@ == lowered_target@ && op == crate::ast::AssignOp::Plain && value@ == v,
            Err(e) => r matches Err(x) && x@ == e,
        },
{
    let recv = crate::typing::deopt((crate::copy::copy_expr(&lowered_target), store_ty.copy()));
    let v = crate::typing::deopt(value);
    let (recv2, v2) = match widen(classes, current, recv, v) {
        Ok(x) => x,
        Err(e) => return Err(e),
    };
    let ghost v2v = (v2.0@, v2.1@);
    let origin = Origin::Operator(op_label_text(sym));
    let (re, rt) = recv2;
    let mut args: Vec<(Expr, Type)> = Vec::new();
    args.push(v2);
    assert(pairs_v(args@) =~= seq![v2v]);
    let (call, result_ty) = match core_call(classes, current, &rt, method, re, args, line, col, &origin) {
        Ok(x) => x,
        Err(e) => return Err(e),
    };
    let shown = result_ty.display();
    match try_coerce((call, result_ty), store_ty) {
        Ok(c) => Ok(crate::ast::StmtKind::Assign { target: lowered_target, op: crate::ast::AssignOp::Plain, value: c }),
        Err(_) => {
            let mut m = framed("operator '", sym, "': result is ");
            push_str(&mut m, shown.as_str());
            push_str(&mut m, " but ");
            push_str(&mut m, target_desc);
            push_str(&mut m, " is ");
            let d = store_ty.display();
            push_str(&mut m, d.as_str());
            push_str(&mut m, " (the target's type cannot change)");
            Err(JimError::new(m, line, col))
        },
    }
}

/// A condition (of `what`: `if`, `while`, ...), unwrapped if optional,
/// must be a Bool.
pub open spec fn condition_spec(what: Seq<char>, v: (ExprV, TypeV)) -> Result<ExprV, JimErrorV> {
    let (e, t) = crate::typing::deopt_spec(v.0, v.1);
    if t != bool_t() {
        Err(err_v(what + " condition must be Bool, found "@ + display_spec(t), e.line, e.col))
    } else {
        Ok(e)
    }
}

pub fn check_condition(what: &str, v: (Expr, Type)) -> (r: Result<Expr, JimError>)
    ensures
        match condition_spec(what@, (v.0@, v.1@)) {
            Ok(e) => r matches Ok(x) && x@ == e,
            Err(e) => r matches Err(x) && x@ == e,
        },
{
    let (e, t) = crate::typing::deopt(v);
    if !t.is_named("Bool") {
        let mut m = label_then(what, " condition must be Bool, found ");
        let d = t.display();
        push_str(&mut m, d.as_str());
        let line = e.line;
        let col = e.col;
        return Err(JimError::new(m, line, col));
    }
    Ok(e)
}

/// `None` where a `want` is expected: only an optional type gives it a type.
pub open spec fn none_for_spec(want: TypeV, line: u32, col: u32) -> Result<ExprV, JimErrorV> {
    match crate::sema::opt_payload_spec(want) {
        Some(p) => Ok(ExprV { kind: ExprKindV::OptNone { payload: p }, line, col }),
        None => Err(err_v("'None' only fits optional types (T?), but "@ + display_spec(want) + " is expected here"@, line, col)),
    }
}

pub fn none_for(want: &Type, line: u32, col: u32) -> (r: Result<Expr, JimError>)
    ensures
        match none_for_spec(want@, line, col) {
            Ok(e) => r matches Ok(x) && x@ == e,
            Err(e) => r matches Err(x) && x@ == e,
        },
{
    match crate::sema::opt_payload(want) {
        Some(payload) => Ok(Expr { kind: ExprKind::OptNone { payload }, line, col }),
        None => {
            let d = want.display();
            Err(JimError::new(framed("'None' only fits optional types (T?), but ", d.as_str(), " is expected here"), line, col))
        },
    }
}

/// Is `v` the one type `Integer`?
pub open spec fn just_integer(v: Seq<TypeV>) -> bool {
    v.len() == 1 && v[0] == int_t()
}

/// A container literal `[..]` expected as `base<payload>` (`Array` or
/// `Vector`) builds through its class's construction protocol: the
/// instance must exist, an Array must have `Array(len: Integer)` and
/// `set(i: Integer, value: T)`, a Vector `Vector()` and `push(value: T)`.
/// The result is the instance's key and whether it is an Array.
pub open spec fn container_protocol_spec(
    classes: Seq<(String, ClassInfo)>,
    base: Seq<char>,
    payload: TypeV,
    line: u32,
    col: u32,
) -> Result<(Seq<char>, bool), JimErrorV> {
    let is_array = base == "Array"@;
    let key = base + "<"@ + display_spec(payload) + ">"@;
    match first_key(classes, key) {
        None => Err(err_v(base + "<T> is not defined (is core.j loaded?)"@, line, col)),
        Some(info) => if is_array {
            if !just_integer(types_v(info.ctor_params@)) {
                Err(err_v("array literals need class Array<T> to declare a constructor 'Array(len: Integer)' in core.j"@, line, col))
            } else if !(match first_key(info.methods@, "set"@) {
                Some(sg) => sig_v(sg).params.len() == 2 && sig_v(sg).params[0] == int_t() && sig_v(sg).params[1] == payload,
                None => false,
            }) {
                Err(err_v("array literals need Array<T> to declare 'set(i: Integer, value: T)' in core.j"@, line, col))
            } else {
                Ok((key, true))
            }
        } else {
            if info.ctor_params@.len() != 0 {
                Err(err_v("vector literals need class Vector<T> to declare a no-argument constructor 'Vector()' in core.j"@, line, col))
            } else if !(match first_key(info.methods@, "push"@) {
                Some(sg) => sig_v(sg).params.len() == 1 && sig_v(sg).params[0] == payload,
                None => false,
            }) {
                Err(err_v("vector literals need Vector<T> to declare 'push(value: T)' in core.j"@, line, col))
            } else {
                Ok((key, false))
            }
        },
    }
}

pub fn container_protocol(
    classes: &Vec<(String, ClassInfo)>,
    base: &str,
    payload: &Type,
    line: u32,
    col: u32,
) -> (r: Result<(String, bool), JimError>)
    ensures
        match container_protocol_spec(classes@, base@, payload@, line, col) {
            Ok((k, a)) => r matches Ok((x, y)) && x@ == k && y == a,
            Err(e) => r matches Err(x) && x@ == e,
        },
{
    let is_array = str_eq(base, "Array");
    let d = payload.display();
    let key = framed(base, "<", d.as_str());
    let mut key = key;
    push_str(&mut key, ">");
    let ci = match find_row(classes, key.as_str()) {
        Some(i) => i,
        None => return Err(JimError::new(label_then(base, "<T> is not defined (is core.j loaded?)"), line, col)),
    };
    let info = &classes[ci].1;
    if is_array {
        if !(info.ctor_params.len() == 1 && info.ctor_params[0].is_named("Integer")) {
            return Err(JimError::new(crate::text::lit_string("array literals need class Array<T> to declare a constructor 'Array(len: Integer)' in core.j"), line, col));
        }
        let set_ok = match find_row(&info.methods, "set") {
            Some(i) => {
                let sg = &info.methods[i].1;
                sg.params.len() == 2 && sg.params[0].is_named("Integer") && sg.params[1].same(payload)
            },
            None => false,
        };
        if !set_ok {
            return Err(JimError::new(crate::text::lit_string("array literals need Array<T> to declare 'set(i: Integer, value: T)' in core.j"), line, col));
        }
        Ok((key, true))
    } else {
        if info.ctor_params.len() != 0 {
            return Err(JimError::new(crate::text::lit_string("vector literals need class Vector<T> to declare a no-argument constructor 'Vector()' in core.j"), line, col));
        }
        let push_ok = match find_row(&info.methods, "push") {
            Some(i) => {
                let sg = &info.methods[i].1;
                sg.params.len() == 1 && sg.params[0].same(payload)
            },
            None => false,
        };
        if !push_ok {
            return Err(JimError::new(crate::text::lit_string("vector literals need Vector<T> to declare 'push(value: T)' in core.j"), line, col));
        }
        Ok((key, false))
    }
}

/// `Array(n)` / `Vector()` where `want` (the container type) is expected:
/// the instance must exist and the argument count match its constructor.
/// The result is the instance's key and the constructor's parameter types.
pub open spec fn context_ctor_spec(
    classes: Seq<(String, ClassInfo)>,
    base: Seq<char>,
    want: TypeV,
    nargs: nat,
    line: u32,
    col: u32,
) -> Result<(Seq<char>, Seq<TypeV>), JimErrorV> {
    let key = display_spec(want);
    match first_key(classes, key) {
        None => Err(err_v(base + "<T> is not defined (is core.j loaded?)"@, line, col)),
        Some(info) => {
            let ps = types_v(info.ctor_params@);
            if nargs != ps.len() {
                Err(err_v("constructor '"@ + key + "' expects "@ + decimal(ps.len()) + " argument(s), got "@ + decimal(nargs), line, col))
            } else {
                Ok((key, ps))
            }
        },
    }
}

pub fn context_ctor(
    classes: &Vec<(String, ClassInfo)>,
    base: &str,
    want: &Type,
    nargs: usize,
    line: u32,
    col: u32,
) -> (r: Result<(String, Vec<Type>), JimError>)
    ensures
        match context_ctor_spec(classes@, base@, want@, nargs as nat, line, col) {
            Ok((k, ps)) => r matches Ok((x, v)) && x@ == k && types_v(v@) == ps,
            Err(e) => r matches Err(x) && x@ == e,
        },
{
    let key = want.display();
    let ci = match find_row(classes, key.as_str()) {
        Some(i) => i,
        None => return Err(JimError::new(label_then(base, "<T> is not defined (is core.j loaded?)"), line, col)),
    };
    let info = &classes[ci].1;
    let n = info.ctor_params.len();
    if nargs != n {
        let mut m = framed("constructor '", key.as_str(), "' expects ");
        push_decimal(&mut m, n as u64);
        push_str(&mut m, " argument(s), got ");
        push_decimal(&mut m, nargs as u64);
        return Err(JimError::new(m, line, col));
    }
    let ps = crate::copy::copy_types(&info.ctor_params);
    Ok((key, ps))
}

/// `@buf_alloc(..)` where `want` is expected: intrinsics are for the
/// standard library (or `--allow-intrinsics`), the expected type must be a
/// `RawBuffer<T>`, and there is exactly one argument. The result is `T`.
pub open spec fn buf_alloc_spec(from_std: bool, allow: bool, want: TypeV, nargs: nat, line: u32, col: u32) -> Result<TypeV, JimErrorV> {
    if !from_std && !allow {
        Err(err_v("'@buf_alloc' \u{e2}\u{20ac}\u{201d} intrinsics are only allowed in the standard library (or with --allow-intrinsics)"@, line, col))
    } else {
        match want {
            TypeV::Generic(n, p) if n == "RawBuffer"@ => if nargs != 1 {
                Err(err_v("'@buf_alloc' expects exactly 1 argument (the capacity)"@, line, col))
            } else {
                Ok(*p)
            },
            _ => Err(err_v("'@buf_alloc' creates a RawBuffer<T>, but "@ + display_spec(want) + " is expected here"@, line, col)),
        }
    }
}

pub fn buf_alloc_elem(from_std: bool, allow: bool, want: &Type, nargs: usize, line: u32, col: u32) -> (r: Result<Type, JimError>)
    ensures
        match buf_alloc_spec(from_std, allow, want@, nargs as nat, line, col) {
            Ok(t) => r matches Ok(x) && x@ == t,
            Err(e) => r matches Err(x) && x@ == e,
        },
{
    if !from_std && !allow {
        return Err(JimError::new(crate::text::lit_string("'@buf_alloc' \u{e2}\u{20ac}\u{201d} intrinsics are only allowed in the standard library (or with --allow-intrinsics)"), line, col));
    }
    let elem = match want {
        Type::Generic(n, p) => {
            if str_eq(n.as_str(), "RawBuffer") {
                (**p).copy()
            } else {
                let d = want.display();
                return Err(JimError::new(framed("'@buf_alloc' creates a RawBuffer<T>, but ", d.as_str(), " is expected here"), line, col));
            }
        },
        _ => {
            let d = want.display();
            return Err(JimError::new(framed("'@buf_alloc' creates a RawBuffer<T>, but ", d.as_str(), " is expected here"), line, col));
        },
    };
    if nargs != 1 {
        return Err(JimError::new(crate::text::lit_string("'@buf_alloc' expects exactly 1 argument (the capacity)"), line, col));
    }
    Ok(elem)
}

/// The name of a variable reference.
fn ident_name(e: &Expr) -> (r: Option<&String>)
    ensures
        match e@.kind {
            ExprKindV::Ident(n) => r matches Some(x) && x@ == n,
            _ => r is None,
        },
{
    match &e.kind {
        ExprKind::Ident(n) => Some(n),
        _ => None,
    }
}

fn is_this(e: &Expr) -> (b: bool)
    ensures
        b == (e@.kind is This),
{
    matches!(e.kind, ExprKind::This)
}

fn is_int_lit(e: &Expr) -> (b: bool)
    ensures
        b == (e@.kind is Int),
{
    matches!(e.kind, ExprKind::Int(_))
}

fn addr_of_var_exec(e: &Expr) -> (r: Option<&String>)
    ensures
        match addr_of_var(e@) {
            Some(s) => r matches Some(x) && x@ == s,
            None => r is None,
        },
{
    match &e.kind {
        ExprKind::Unary { op, operand } => {
            assert(e@.kind == ExprKindV::Unary { op: *op, operand: Box::new((**operand)@) });
            if *op == UnOp::AddrOf {
                ident_name(operand)
            } else {
                None
            }
        },
        _ => None,
    }
}

/// The variable whose address `e` takes (`&x`), if it is one.
pub open spec fn addr_of_var(e: ExprV) -> Option<Seq<char>> {
    match e.kind {
        ExprKindV::Unary { op, operand } => if op == UnOp::AddrOf {
            match operand.kind {
                ExprKindV::Ident(src) => Some(src),
                _ => None,
            }
        } else {
            None
        },
        _ => None,
    }
}

/// `p = &y` would let the pointer outlive `y` when `p` lives in an outer
/// scope than `y`.
pub open spec fn escapes(scopes: Seq<crate::sema::ScopeV>, name: Seq<char>, value: ExprV) -> bool {
    match addr_of_var(value) {
        Some(src) => match (crate::sema::env_depth(scopes, name), crate::sema::env_depth(scopes, src)) {
            (Some(d), Some(s)) => d < s,
            _ => false,
        },
        None => false,
    }
}

/// An assignment to the variable `name` (written at `tline:tcol`) of
/// `value`: the variable must be declared and not constant, and a pointer
/// may not be stored where it outlives its target. The result is the
/// variable's type.
pub open spec fn var_assign_spec(
    scopes: Seq<crate::sema::ScopeV>,
    name: Seq<char>,
    value: ExprV,
    line: u32,
    col: u32,
    tline: u32,
    tcol: u32,
) -> Result<TypeV, JimErrorV> {
    match crate::sema::env_get(scopes, name) {
        None => Err(err_v("unknown variable '"@ + name + "'"@, tline, tcol)),
        Some((t, c)) => if c {
            Err(err_v("cannot assign to constant '"@ + name + "'"@, tline, tcol))
        } else if escapes(scopes, name, value) {
            let src = addr_of_var(value)->0;
            Err(err_v("cannot store a pointer to '"@ + src + "' in '"@ + name + "': '"@ + src + "' lives in an inner scope and dies first"@, line, col))
        } else {
            Ok(t)
        },
    }
}

pub fn var_assign(
    env: &crate::sema::Env,
    name: &str,
    value: &Expr,
    line: u32,
    col: u32,
    tline: u32,
    tcol: u32,
) -> (r: Result<Type, JimError>)
    ensures
        match var_assign_spec(env.view_scopes(), name@, value@, line, col, tline, tcol) {
            Ok(t) => r matches Ok(x) && x@ == t,
            Err(e) => r matches Err(x) && x@ == e,
        },
{
    let (t, c) = match env.lookup(name) {
        Some(x) => x,
        None => {
            return Err(JimError::new(framed("unknown variable '", name, "'"), tline, tcol));
        },
    };
    if c {
        return Err(JimError::new(framed("cannot assign to constant '", name, "'"), tline, tcol));
    }
    match addr_of_var_exec(value) {
        Some(src) => {
            match (env.lookup_depth(name), env.lookup_depth(src.as_str())) {
                (Some(d), Some(sdep)) => {
                    if d < sdep {
                        let mut m = framed("cannot store a pointer to '", src.as_str(), "' in '");
                        push_str(&mut m, name);
                        push_str(&mut m, "': '");
                        push_str(&mut m, src.as_str());
                        push_str(&mut m, "' lives in an inner scope and dies first");
                        return Err(JimError::new(m, line, col));
                    }
                },
                _ => {},
            }
        },
        None => {},
    }
    Ok(t)
}

/// The symbol and backing method of a compound assignment operator.
pub open spec fn compound_of(op: crate::ast::AssignOp) -> Option<(Seq<char>, Seq<char>)> {
    match op {
        crate::ast::AssignOp::Add => Some(("+="@, "plus"@)),
        crate::ast::AssignOp::Sub => Some(("-="@, "minus"@)),
        crate::ast::AssignOp::Mul => Some(("*="@, "times"@)),
        crate::ast::AssignOp::Div => Some(("/="@, "divide"@)),
        crate::ast::AssignOp::Plain => None,
    }
}

pub fn compound_text(op: crate::ast::AssignOp) -> (r: Option<(&'static str, &'static str)>)
    ensures
        match compound_of(op) {
            Some((sym, m)) => r matches Some((a, b)) && a@ == sym && b@ == m,
            None => r is None,
        },
{
    match op {
        crate::ast::AssignOp::Add => Some(("+=", "plus")),
        crate::ast::AssignOp::Sub => Some(("-=", "minus")),
        crate::ast::AssignOp::Mul => Some(("*=", "times")),
        crate::ast::AssignOp::Div => Some(("/=", "divide")),
        crate::ast::AssignOp::Plain => None,
    }
}

/// A compound assignment evaluates its target twice, so the parts it
/// evaluates must be free of effects: `v[i] += x` needs a variable or
/// `this` indexed by a variable or a literal, `o.f += x` a variable or
/// `this`, and `*p += x` a pointer variable.
pub open spec fn compound_target_error(op: crate::ast::AssignOp, target: ExprV) -> Option<Seq<char>> {
    if op == crate::ast::AssignOp::Plain {
        None
    } else {
        match target.kind {
            ExprKindV::Index { recv, index } =>
                if !(recv.kind is Ident || recv.kind is This) || !(index.kind is Ident || index.kind is Int) {
                    Some("compound assignment to an index needs a simple receiver and index (e.g. 'v[i] += x')"@)
                } else {
                    None
                },
            ExprKindV::FieldAccess { recv, .. } =>
                if !(recv.kind is This || recv.kind is Ident) {
                    Some("compound assignment to a field needs a simple receiver ('this.x += v' or 'obj.x += v')"@)
                } else {
                    None
                },
            ExprKindV::Unary { op: uop, operand } =>
                if uop == UnOp::Deref && !(operand.kind is Ident) {
                    Some("compound assignment through a pointer needs a simple pointer variable ('*p += v')"@)
                } else {
                    None
                },
            _ => None,
        }
    }
}

pub fn check_compound_target(op: crate::ast::AssignOp, target: &Expr, line: u32, col: u32) -> (r: Result<(), JimError>)
    ensures
        match compound_target_error(op, target@) {
            None => r is Ok,
            Some(m) => r matches Err(x) && x@ == err_v(m, line, col),
        },
{
    if op == crate::ast::AssignOp::Plain {
        return Ok(());
    }
    match &target.kind {
        ExprKind::Index { recv, index } => {
            assert(target@.kind == ExprKindV::Index { recv: Box::new((**recv)@), index: Box::new((**index)@) });
            let simple_recv = ident_name(recv).is_some() || is_this(recv);
            let simple_idx = ident_name(index).is_some() || is_int_lit(index);
            if !simple_recv || !simple_idx {
                return Err(JimError::new(crate::text::lit_string("compound assignment to an index needs a simple receiver and index (e.g. 'v[i] += x')"), line, col));
            }
            Ok(())
        },
        ExprKind::FieldAccess { recv, name } => {
            assert(target@.kind == ExprKindV::FieldAccess { recv: Box::new((**recv)@), name: name@ });
            if !(is_this(recv) || ident_name(recv).is_some()) {
                return Err(JimError::new(crate::text::lit_string("compound assignment to a field needs a simple receiver ('this.x += v' or 'obj.x += v')"), line, col));
            }
            Ok(())
        },
        ExprKind::Unary { op: uop, operand } => {
            assert(target@.kind == ExprKindV::Unary { op: *uop, operand: Box::new((**operand)@) });
            if *uop == UnOp::Deref && ident_name(operand).is_none() {
                return Err(JimError::new(crate::text::lit_string("compound assignment through a pointer needs a simple pointer variable ('*p += v')"), line, col));
            }
            Ok(())
        },
        _ => Ok(()),
    }
}

/// A variable's declared type must be usable (prefixed with the variable).
pub open spec fn declared_type_spec(known: Seq<Seq<char>>, name: Seq<char>, ty: TypeV, line: u32, col: u32) -> Option<JimErrorV> {
    match crate::typing::unavailable(known, ty, false) {
        Some(m) => Some(err_v("in declaration of '"@ + name + "': "@ + m, line, col)),
        None => None,
    }
}

pub fn check_declared_type(classes: &Vec<String>, name: &str, ty: &Type, line: u32, col: u32) -> (r: Result<(), JimError>)
    ensures
        match declared_type_spec(crate::ast::names_v(classes@), name@, ty@, line, col) {
            None => r is Ok,
            Some(e) => r matches Err(x) && x@ == e,
        },
{
    match crate::typing::type_available(classes, ty, false) {
        Ok(()) => Ok(()),
        Err(m) => {
            let mut s = framed("in declaration of '", name, "': ");
            push_str(&mut s, m.as_str());
            Err(JimError::new(s, line, col))
        },
    }
}

/// Declare a variable in the innermost scope; a name that scope already
/// holds is an error and leaves the scopes unchanged.
pub fn declare_var(env: &mut crate::sema::Env, name: &str, ty: Type, is_const: bool, line: u32, col: u32) -> (r: Result<(), JimError>)
    requires
        old(env).view_scopes().len() > 0,
    ensures
        crate::sema::scope_get(old(env).view_scopes().last(), name@) is None ==> r is Ok
            && final(env).view_scopes() == old(env).view_scopes().update(
                old(env).view_scopes().len() - 1,
                old(env).view_scopes().last().push((name@, ty@, is_const)),
            ),
        crate::sema::scope_get(old(env).view_scopes().last(), name@) is Some ==> (r matches Err(x)
            && x@ == err_v("'"@ + name@ + "' is already declared in this scope"@, line, col))
            && final(env).view_scopes() == old(env).view_scopes(),
{
    if env.declare(name, ty, is_const) {
        Ok(())
    } else {
        Err(JimError::new(framed("'", name, "' is already declared in this scope"), line, col))
    }
}

/// The parameter types of `recv_ty`'s method `name`, when it has one.
pub open spec fn method_params_spec(classes: Seq<(String, ClassInfo)>, recv_ty: TypeV, name: Seq<char>) -> Option<Seq<TypeV>> {
    match class_key_spec(recv_ty) {
        Some(k) => match first_key(classes, k) {
            Some(info) => match first_key(info.methods@, name) {
                Some(sig) => Some(sig_v(sig).params),
                None => None,
            },
            None => None,
        },
        None => None,
    }
}

pub fn method_params(classes: &Vec<(String, ClassInfo)>, recv_ty: &Type, name: &str) -> (r: Option<Vec<Type>>)
    ensures
        match method_params_spec(classes@, recv_ty@, name@) {
            Some(ps) => r matches Some(v) && types_v(v@) == ps,
            None => r is None,
        },
{
    let k = match class_key(recv_ty) {
        Some(k) => k,
        None => return None,
    };
    let ci = match find_row(classes, k.as_str()) {
        Some(i) => i,
        None => return None,
    };
    match find_row(&classes[ci].1.methods, name) {
        Some(mi) => Some(crate::copy::copy_types(&classes[ci].1.methods[mi].1.params)),
        None => None,
    }
}

/// The operand of `not`, unwrapped if optional, must be a Bool.
pub open spec fn not_spec(v: (ExprV, TypeV), line: u32, col: u32) -> Result<(ExprV, TypeV), JimErrorV> {
    let (e, t) = crate::typing::deopt_spec(v.0, v.1);
    if t != bool_t() {
        Err(err_v("'not' needs a Bool operand, found "@ + display_spec(t), e.line, e.col))
    } else {
        Ok((ExprV { kind: ExprKindV::Unary { op: UnOp::Not, operand: Box::new(e) }, line, col }, bool_t()))
    }
}

pub fn not_operand(v: (Expr, Type), line: u32, col: u32) -> (r: Result<(Expr, Type), JimError>)
    ensures
        result_v(r) == not_spec((v.0@, v.1@), line, col),
{
    let (e, t) = crate::typing::deopt(v);
    if !t.is_named("Bool") {
        let mut m = crate::text::lit_string("'not' needs a Bool operand, found ");
        let d = t.display();
        push_str(&mut m, d.as_str());
        let el = e.line;
        let ec = e.col;
        return Err(JimError::new(m, el, ec));
    }
    Ok((Expr { kind: ExprKind::Unary { op: UnOp::Not, operand: Box::new(e) }, line, col }, Type::named("Bool")))
}

/// The operand of `*`, unwrapped if optional, must be a pointer; the
/// result has the pointed-to type.
pub open spec fn deref_spec(v: (ExprV, TypeV), line: u32, col: u32) -> Result<(ExprV, TypeV), JimErrorV> {
    let (e, t) = crate::typing::deopt_spec(v.0, v.1);
    match t {
        TypeV::Pointer(inner) => Ok((ExprV { kind: ExprKindV::Unary { op: UnOp::Deref, operand: Box::new(e) }, line, col }, *inner)),
        _ => Err(err_v("'*' needs a pointer, found "@ + display_spec(t), e.line, e.col)),
    }
}

pub fn deref_operand(v: (Expr, Type), line: u32, col: u32) -> (r: Result<(Expr, Type), JimError>)
    ensures
        result_v(r) == deref_spec((v.0@, v.1@), line, col),
{
    let (e, t) = crate::typing::deopt(v);
    match t {
        Type::Pointer(inner) => Ok((Expr { kind: ExprKind::Unary { op: UnOp::Deref, operand: Box::new(e) }, line, col }, *inner)),
        other => {
            let mut m = crate::text::lit_string("'*' needs a pointer, found ");
            let d = other.display();
            push_str(&mut m, d.as_str());
            let el = e.line;
            let ec = e.col;
            Err(JimError::new(m, el, ec))
        },
    }
}

/// The expression a typing result gives, if it succeeded.
pub open spec fn ok_expr(r: Result<(ExprV, TypeV), JimErrorV>) -> Option<ExprV> {
    match r {
        Ok((e, _)) => Some(e),
        Err(_) => None,
    }
}

/// `e` calls method `m` on `recv`.
pub open spec fn calls_method(e: ExprV, m: Seq<char>, recv: ExprV) -> bool {
    e.kind matches ExprKindV::CoreMethodCall { name, recv: r, .. } && name == m && *r == recv
}

/// `not` of an expression, at a position.
pub open spec fn negated(o: Option<ExprV>, line: u32, col: u32) -> Option<ExprV> {
    match o {
        Some(e) => Some(ExprV { kind: ExprKindV::Unary { op: UnOp::Not, operand: Box::new(e) }, line, col }),
        None => None,
    }
}

/// How the comparison operators are made of the two methods `equals` and
/// `less_than`: `a < b` calls `a.less_than(b)` and `a == b` calls
/// `a.equals(b)` (the left operand receives); `a > b` is `b < a`; `a <= b`
/// is `not (b < a)`; `a >= b` is `not (a < b)`; `a != b` is
/// `not (a == b)`. Each operator type checks exactly when the one it is
/// made of does.
pub proof fn lemma_comparison_laws(
    classes: Seq<(String, ClassInfo)>,
    current: Option<Seq<char>>,
    a: (ExprV, TypeV),
    b: (ExprV, TypeV),
    line: u32,
    col: u32,
)
    ensures
        values_binary_spec(classes, current, BinOp::Lt, a, b, line, col) matches Ok((e, t)) ==> (t == bool_t() && calls_method(e, "less_than"@, a.0)),
        values_binary_spec(classes, current, BinOp::Eq, a, b, line, col) matches Ok((e, t)) ==> (t == bool_t() && calls_method(e, "equals"@, a.0)),
        ok_expr(values_binary_spec(classes, current, BinOp::Gt, a, b, line, col))
            == ok_expr(values_binary_spec(classes, current, BinOp::Lt, b, a, line, col)),
        ok_expr(values_binary_spec(classes, current, BinOp::LtEq, a, b, line, col))
            == negated(ok_expr(values_binary_spec(classes, current, BinOp::Lt, b, a, line, col)), line, col),
        ok_expr(values_binary_spec(classes, current, BinOp::GtEq, a, b, line, col))
            == negated(ok_expr(values_binary_spec(classes, current, BinOp::Lt, a, b, line, col)), line, col),
        ok_expr(values_binary_spec(classes, current, BinOp::NotEq, a, b, line, col))
            == negated(ok_expr(values_binary_spec(classes, current, BinOp::Eq, a, b, line, col)), line, col),
{
}

/// An arithmetic operator calls its method on the left operand with the
/// right one: `a + b` is `a.plus(b)`, `a - b` is `a.minus(b)`, `a * b` is
/// `a.times(b)`, `a / b` is `a.divide(b)`, `a div b` is `a.int_divide(b)`,
/// `a % b` is `a.mod(b)`.
pub proof fn lemma_arithmetic_laws(
    classes: Seq<(String, ClassInfo)>,
    current: Option<Seq<char>>,
    op: BinOp,
    a: (ExprV, TypeV),
    b: (ExprV, TypeV),
    line: u32,
    col: u32,
)
    requires
        op == BinOp::Add || op == BinOp::Sub || op == BinOp::Mul || op == BinOp::Div || op == BinOp::IntDiv || op == BinOp::Mod,
    ensures
        values_binary_spec(classes, current, op, a, b, line, col) matches Ok((e, _)) ==> calls_method(e,
            if op == BinOp::Add { "plus"@ } else if op == BinOp::Sub { "minus"@ } else if op == BinOp::Mul { "times"@ }
            else if op == BinOp::Div { "divide"@ } else if op == BinOp::IntDiv { "int_divide"@ } else { "mod"@ }, a.0),
{
}

/// Every comparison operator (`==`, `!=`, `<`, `>`, `<=`, `>=`) that type
/// checks has type Bool, whatever classes back it.
pub proof fn lemma_comparisons_are_bool(
    classes: Seq<(String, ClassInfo)>,
    current: Option<Seq<char>>,
    op: BinOp,
    l: (ExprV, TypeV),
    r: (ExprV, TypeV),
    line: u32,
    col: u32,
)
    requires
        op == BinOp::Eq || op == BinOp::NotEq || op == BinOp::Lt || op == BinOp::Gt || op == BinOp::LtEq || op == BinOp::GtEq,
    ensures
        operands_binary_spec(classes, current, op, l, r, line, col) matches Ok((_, t)) ==> t == bool_t(),
{
}

} // verus!
