//! Typing the expressions whose type needs no sub-expression typed first
//! (literals, names, `this`, `&x`), and resolving what a call names
//! before its arguments are typed.

use vstd::prelude::*;
use crate::ast::{Expr, ExprKind, ExprKindV, ExprV, Type, TypeV, UnOp, types_v};
use crate::calls::{err_v, find_row, first_key, result_v};
use crate::copy::{copy_expr, copy_types};
use crate::errors::{JimError, JimErrorV};
use crate::sema::{Env, ScopeV, env_get, intrinsic_sig, intrinsic_sig_spec, types_view};
use crate::text::{decimal, framed, lit_string, push_decimal, push_str, str_eq};
use crate::typing::{ClassInfo, ClassKind};

verus! {

pub open spec fn named_t(n: Seq<char>) -> TypeV {
    TypeV::Named(n)
}

/// The message for a name that is not in scope; inside a class whose field
/// has that name, it adds that members are written `this.name`.
pub open spec fn unknown_var_msg(classes: Seq<(String, ClassInfo)>, current: Option<Seq<char>>, n: Seq<char>) -> Seq<char> {
    let is_field = match current {
        Some(c) => match first_key(classes, c) {
            Some(info) => first_key(info.fields@, n) is Some,
            None => false,
        },
        None => false,
    };
    if is_field {
        "unknown variable '"@ + n + "' \u{e2}\u{20ac}\u{201d} member access must be written 'this."@ + n + "'"@
    } else {
        "unknown variable '"@ + n + "'"@
    }
}

/// The type of an expression that needs no sub-expression typed: literals
/// have their class, a name its declared type, `this` the enclosing class,
/// `&x` a pointer to a (non-constant) variable; a bare `None` or container
/// literal lacks the context that would type it. `None` (the outer one) for
/// every other form.
pub open spec fn leaf_spec(
    scopes: Seq<ScopeV>,
    classes: Seq<(String, ClassInfo)>,
    current: Option<Seq<char>>,
    this_ty: Option<TypeV>,
    e: ExprV,
) -> Option<Result<(ExprV, TypeV), JimErrorV>> {
    match e.kind {
        ExprKindV::Int(_) => Some(Ok((e, named_t("Integer"@)))),
        ExprKindV::Float(_) => Some(Ok((e, named_t("Float"@)))),
        ExprKindV::Str(_) => Some(Ok((e, named_t("String"@)))),
        ExprKindV::CharLit(_) => Some(Ok((e, named_t("Char"@)))),
        ExprKindV::Bool(_) => Some(Ok((e, named_t("Bool"@)))),
        ExprKindV::NoneLit => Some(Err(err_v("'None' can only be used where an optional type (T?) is expected, or compared with == / !="@, e.line, e.col))),
        ExprKindV::Ident(n) => Some(match env_get(scopes, n) {
            Some((t, _)) => Ok((e, t)),
            None => Err(err_v(unknown_var_msg(classes, current, n), e.line, e.col)),
        }),
        ExprKindV::This => Some(match this_ty {
            Some(t) => Ok((e, t)),
            None => Err(err_v("'this' is only valid inside a class method"@, e.line, e.col)),
        }),
        ExprKindV::ArrayLit(_) => Some(Err(err_v("a container literal needs a declared type for context, e.g. 'var v: Vector<Integer> = [1, 2, 3];'"@, e.line, e.col))),
        ExprKindV::Unary { op, operand } => if op == UnOp::AddrOf {
            Some(match operand.kind {
                ExprKindV::Ident(n) => match env_get(scopes, n) {
                    None => Err(err_v("unknown variable '"@ + n + "'"@, operand.line, operand.col)),
                    Some((t, c)) => if c {
                        Err(err_v("cannot take the address of constant '"@ + n + "' (writing through the pointer would mutate it)"@, e.line, e.col))
                    } else {
                        Ok((e, TypeV::Pointer(Box::new(t))))
                    },
                },
                _ => Err(err_v("'&' needs a variable (only locals and parameters have addresses)"@, e.line, e.col)),
            })
        } else {
            None
        },
        _ => None,
    }
}

pub open spec fn leaf_result_v(r: Option<Result<(Expr, Type), JimError>>) -> Option<Result<(ExprV, TypeV), JimErrorV>> {
    match r {
        Some(x) => Some(result_v(x)),
        None => None,
    }
}

fn unknown_var_text(classes: &Vec<(String, ClassInfo)>, current: &Option<String>, n: &str) -> (s: String)
    ensures
        s@ == unknown_var_msg(classes@, crate::loader::opt_view(*current), n@),
{
    let is_field = match current {
        Some(c) => match find_row(classes, c.as_str()) {
            Some(i) => find_row(&classes[i].1.fields, n).is_some(),
            None => false,
        },
        None => false,
    };
    if is_field {
        let mut s = framed("unknown variable '", n, "' \u{e2}\u{20ac}\u{201d} member access must be written 'this.");
        push_str(&mut s, n);
        push_str(&mut s, "'");
        s
    } else {
        framed("unknown variable '", n, "'")
    }
}

fn opt_type_v(t: &Option<Type>) -> (r: Option<Type>)
    ensures
        match *t {
            Some(x) => r matches Some(y) && y@ == x@,
            None => r is None,
        },
{
    match t {
        Some(x) => Some(x.copy()),
        None => None,
    }
}

pub open spec fn opt_type_view(t: Option<Type>) -> Option<TypeV> {
    match t {
        Some(x) => Some(x@),
        None => None,
    }
}

/// Type an expression that needs no sub-expression typed (see [`leaf_spec`]).
pub fn lower_leaf(
    env: &Env,
    classes: &Vec<(String, ClassInfo)>,
    current: &Option<String>,
    this_ty: &Option<Type>,
    e: &Expr,
) -> (r: Option<Result<(Expr, Type), JimError>>)
    ensures
        leaf_result_v(r) == leaf_spec(env.view_scopes(), classes@, crate::loader::opt_view(*current), opt_type_view(*this_ty), e@),
{
    let line = e.line;
    let col = e.col;
    match &e.kind {
        ExprKind::Int(_) => Some(Ok((copy_expr(e), Type::named("Integer")))),
        ExprKind::Float(_) => Some(Ok((copy_expr(e), Type::named("Float")))),
        ExprKind::Str(_) => Some(Ok((copy_expr(e), Type::named("String")))),
        ExprKind::CharLit(_) => Some(Ok((copy_expr(e), Type::named("Char")))),
        ExprKind::Bool(_) => Some(Ok((copy_expr(e), Type::named("Bool")))),
        ExprKind::NoneLit => Some(Err(JimError::new(lit_string("'None' can only be used where an optional type (T?) is expected, or compared with == / !="), line, col))),
        ExprKind::Ident(n) => Some(match env.lookup(n.as_str()) {
            Some((t, _)) => Ok((copy_expr(e), t)),
            None => Err(JimError::new(unknown_var_text(classes, current, n.as_str()), line, col)),
        }),
        ExprKind::This => Some(match opt_type_v(this_ty) {
            Some(t) => Ok((copy_expr(e), t)),
            None => Err(JimError::new(lit_string("'this' is only valid inside a class method"), line, col)),
        }),
        ExprKind::ArrayLit(_) => Some(Err(JimError::new(lit_string("a container literal needs a declared type for context, e.g. 'var v: Vector<Integer> = [1, 2, 3];'"), line, col))),
        ExprKind::Unary { op, operand } => {
            assert(e@.kind == ExprKindV::Unary { op: *op, operand: Box::new((**operand)@) });
            if *op == UnOp::AddrOf {
                let ol = operand.line;
                let oc = operand.col;
                Some(match &operand.kind {
                    ExprKind::Ident(n) => match env.lookup(n.as_str()) {
                        None => Err(JimError::new(framed("unknown variable '", n.as_str(), "'"), ol, oc)),
                        Some((t, c)) => if c {
                            Err(JimError::new(framed("cannot take the address of constant '", n.as_str(), "' (writing through the pointer would mutate it)"), line, col))
                        } else {
                            Ok((copy_expr(e), Type::Pointer(Box::new(t))))
                        },
                    },
                    _ => Err(JimError::new(lit_string("'&' needs a variable (only locals and parameters have addresses)"), line, col)),
                })
            } else {
                None
            }
        },
        _ => None,
    }
}

/// A function's signature in the function table.
#[derive(Debug)]
pub struct FuncSig {
    pub params: Vec<Type>,
    pub ret: Type,
}

/// What a call `name(args)` names.
#[derive(Debug)]
pub enum CallTarget {
    /// An instantiation of class `class`, with its constructor's parameter types.
    New { class: String, params: Vec<Type> },
    /// A generic function, whose type parameters bind at the call.
    Generic,
    /// A plain function, with its parameter and result types.
    Plain { params: Vec<Type>, ret: Type },
}

pub enum CallTargetV {
    New { class: Seq<char>, params: Seq<TypeV> },
    Generic,
    Plain { params: Seq<TypeV>, ret: TypeV },
}

impl View for CallTarget {
    type V = CallTargetV;

    open spec fn view(&self) -> CallTargetV {
        match self {
            CallTarget::New { class, params } => CallTargetV::New { class: class@, params: types_v(params@) },
            CallTarget::Generic => CallTargetV::Generic,
            CallTarget::Plain { params, ret } => CallTargetV::Plain { params: types_v(params@), ret: ret@ },
        }
    }
}

/// What `name(..)` with `nargs` arguments calls: a class's constructor (not
/// of a value class, with matching arity), a generic function, or a plain
/// function (with matching arity). `Array`/`Vector` without a function of
/// that name take their type from context and cannot be called bare.
pub open spec fn call_target_spec(
    classes: Seq<(String, ClassInfo)>,
    funcs: Seq<(String, FuncSig)>,
    templates: Seq<Seq<char>>,
    name: Seq<char>,
    nargs: nat,
    line: u32,
    col: u32,
) -> Result<CallTargetV, JimErrorV> {
    match first_key(classes, name) {
        Some(info) => if info.kind == ClassKind::CoreValue {
            Err(err_v("class '"@ + name + "' has no constructor (it is a value class)"@, line, col))
        } else if nargs != info.ctor_params@.len() {
            Err(err_v("constructor '"@ + name + "' expects "@ + decimal(info.ctor_params@.len()) + " argument(s), got "@ + decimal(nargs), line, col))
        } else {
            Ok(CallTargetV::New { class: name, params: types_v(info.ctor_params@) })
        },
        None => if (name == "Array"@ || name == "Vector"@) && first_key(funcs, name) is None {
            Err(err_v(name + "(...) is generic \u{2014} construction takes its type from context, e.g. 'var a: "@ + name + "<Integer> = "@ + name + "(...);'"@, line, col))
        } else if templates.contains(name) {
            Ok(CallTargetV::Generic)
        } else {
            match first_key(funcs, name) {
                None => Err(err_v("unknown function '"@ + name + "'"@, line, col)),
                Some(sig) => if nargs != sig.params@.len() {
                    Err(err_v("function '"@ + name + "' expects "@ + decimal(sig.params@.len()) + " argument(s), got "@ + decimal(nargs), line, col))
                } else {
                    Ok(CallTargetV::Plain { params: types_v(sig.params@), ret: sig.ret@ })
                },
            }
        },
    }
}

fn count_text(a: &str, name: &str, b: &str, want: usize, got: usize) -> (s: String)
    ensures
        s@ == a@ + name@ + b@ + decimal(want as nat) + " argument(s), got "@ + decimal(got as nat),
{
    let mut s = framed(a, name, b);
    push_decimal(&mut s, want as u64);
    push_str(&mut s, " argument(s), got ");
    push_decimal(&mut s, got as u64);
    s
}

pub fn call_target(
    classes: &Vec<(String, ClassInfo)>,
    funcs: &Vec<(String, FuncSig)>,
    templates: &Vec<String>,
    name: &str,
    nargs: usize,
    line: u32,
    col: u32,
) -> (r: Result<CallTarget, JimError>)
    ensures
        match call_target_spec(classes@, funcs@, crate::ast::names_v(templates@), name@, nargs as nat, line, col) {
            Ok(t) => r matches Ok(x) && x@ == t,
            Err(e) => r matches Err(x) && x@ == e,
        },
{
    match find_row(classes, name) {
        Some(i) => {
            let info = &classes[i].1;
            if info.kind == ClassKind::CoreValue {
                return Err(JimError::new(framed("class '", name, "' has no constructor (it is a value class)"), line, col));
            }
            if nargs != info.ctor_params.len() {
                return Err(JimError::new(count_text("constructor '", name, "' expects ", info.ctor_params.len(), nargs), line, col));
            }
            return Ok(CallTarget::New { class: lit_string(name), params: copy_types(&info.ctor_params) });
        },
        None => {},
    }
    let fi = find_row(funcs, name);
    if (str_eq(name, "Array") || str_eq(name, "Vector")) && fi.is_none() {
        let mut m = lit_string(name);
        push_str(&mut m, "(...) is generic \u{2014} construction takes its type from context, e.g. 'var a: ");
        push_str(&mut m, name);
        push_str(&mut m, "<Integer> = ");
        push_str(&mut m, name);
        push_str(&mut m, "(...);'");
        return Err(JimError::new(m, line, col));
    }
    if crate::reach::has_name(templates, name) {
        return Ok(CallTarget::Generic);
    }
    match fi {
        None => Err(JimError::new(framed("unknown function '", name, "'"), line, col)),
        Some(i) => {
            let sig = &funcs[i].1;
            if nargs != sig.params.len() {
                return Err(JimError::new(count_text("function '", name, "' expects ", sig.params.len(), nargs), line, col));
            }
            Ok(CallTarget::Plain { params: copy_types(&sig.params), ret: sig.ret.copy() })
        },
    }
}

/// `@name(..)` with `nargs` arguments: `@buf_alloc` needs a RawBuffer
/// context, intrinsics are for the standard library (or
/// `--allow-intrinsics`), and the intrinsic must exist with that arity. The
/// result is its parameter and result types.
pub open spec fn intrinsic_target_spec(from_std: bool, allow: bool, name: Seq<char>, nargs: nat, line: u32, col: u32) -> Result<(Seq<TypeV>, TypeV), JimErrorV> {
    if name == "buf_alloc"@ {
        Err(err_v("'@buf_alloc' needs a RawBuffer<T> context, e.g. 'var b: RawBuffer<Integer> = @buf_alloc(8);'"@, line, col))
    } else if !from_std && !allow {
        Err(err_v("'@"@ + name + "' \u{e2}\u{20ac}\u{201d} intrinsics are only allowed in the standard library (or with --allow-intrinsics)"@, line, col))
    } else {
        match intrinsic_sig_spec(name) {
            None => Err(err_v("unknown intrinsic '@"@ + name + "'"@, line, col)),
            Some((ps, ret)) => if nargs != ps.len() {
                Err(err_v("'@"@ + name + "' expects "@ + decimal(ps.len()) + " argument(s), got "@ + decimal(nargs), line, col))
            } else {
                Ok((ps, ret))
            },
        }
    }
}

pub fn intrinsic_target(from_std: bool, allow: bool, name: &str, nargs: usize, line: u32, col: u32) -> (r: Result<(Vec<Type>, Type), JimError>)
    ensures
        match intrinsic_target_spec(from_std, allow, name@, nargs as nat, line, col) {
            Ok((ps, ret)) => r matches Ok((a, b)) && types_view(a@) == ps && b@ == ret,
            Err(e) => r matches Err(x) && x@ == e,
        },
{
    if str_eq(name, "buf_alloc") {
        return Err(JimError::new(lit_string("'@buf_alloc' needs a RawBuffer<T> context, e.g. 'var b: RawBuffer<Integer> = @buf_alloc(8);'"), line, col));
    }
    if !from_std && !allow {
        return Err(JimError::new(framed("'@", name, "' \u{e2}\u{20ac}\u{201d} intrinsics are only allowed in the standard library (or with --allow-intrinsics)"), line, col));
    }
    match intrinsic_sig(name) {
        None => Err(JimError::new(framed("unknown intrinsic '@", name, "'"), line, col)),
        Some((ps, ret)) => {
            if nargs != ps.len() {
                return Err(JimError::new(count_text("'@", name, "' expects ", ps.len(), nargs), line, col));
            }
            Ok((ps, ret))
        },
    }
}

/// An argument of `@name` must have exactly the parameter's type.
pub open spec fn intrinsic_arg_spec(name: Seq<char>, want: TypeV, arg: (ExprV, TypeV)) -> Result<ExprV, JimErrorV> {
    if arg.1 != want {
        Err(err_v("argument type mismatch in '@"@ + name + "': expected "@ + crate::ast::display_spec(want) + ", found "@ + crate::ast::display_spec(arg.1), arg.0.line, arg.0.col))
    } else {
        Ok(arg.0)
    }
}

pub fn intrinsic_arg(name: &str, want: &Type, arg: (Expr, Type)) -> (r: Result<Expr, JimError>)
    ensures
        match intrinsic_arg_spec(name@, want@, (arg.0@, arg.1@)) {
            Ok(e) => r matches Ok(x) && x@ == e,
            Err(e) => r matches Err(x) && x@ == e,
        },
{
    let (e, got) = arg;
    if !got.same(want) {
        let mut m = framed("argument type mismatch in '@", name, "': expected ");
        let w = want.display();
        push_str(&mut m, w.as_str());
        push_str(&mut m, ", found ");
        let g = got.display();
        push_str(&mut m, g.as_str());
        let line = e.line;
        let col = e.col;
        return Err(JimError::new(m, line, col));
    }
    Ok(e)
}

/// Why `name<..>(..)` is wrong when `name` is no generic function: a plain
/// function takes no type arguments, constructors take their type from
/// context, and a variable suggests an unparenthesized comparison.
pub open spec fn type_args_error(
    funcs: Seq<(String, FuncSig)>,
    classes: Seq<(String, ClassInfo)>,
    class_templates: Seq<Seq<char>>,
    scopes: Seq<ScopeV>,
    name: Seq<char>,
) -> Seq<char> {
    if first_key(funcs, name) is Some {
        "function '"@ + name + "' is not generic \u{2014} remove the explicit type arguments"@
    } else if first_key(classes, name) is Some || class_templates.contains(name) {
        "constructors take their type from context ('var v: "@ + name + "<Integer> = "@ + name + "(...);') \u{2014} explicit type arguments are for generic functions"@
    } else if env_get(scopes, name) is Some {
        "'"@ + name + "' is a variable, not a generic function \u{2014} if you meant comparisons, parenthesize them: '(a < b), (c > d)'"@
    } else {
        "unknown function '"@ + name + "'"@
    }
}

pub fn type_args_message(
    funcs: &Vec<(String, FuncSig)>,
    classes: &Vec<(String, ClassInfo)>,
    class_templates: &Vec<String>,
    env: &Env,
    name: &str,
) -> (s: String)
    ensures
        s@ == type_args_error(funcs@, classes@, crate::ast::names_v(class_templates@), env.view_scopes(), name@),
{
    if find_row(funcs, name).is_some() {
        framed("function '", name, "' is not generic \u{2014} remove the explicit type arguments")
    } else if find_row(classes, name).is_some() || crate::reach::has_name(class_templates, name) {
        let mut m = framed("constructors take their type from context ('var v: ", name, "<Integer> = ");
        push_str(&mut m, name);
        push_str(&mut m, "(...);') \u{2014} explicit type arguments are for generic functions");
        m
    } else if env.lookup(name).is_some() {
        framed("'", name, "' is a variable, not a generic function \u{2014} if you meant comparisons, parenthesize them: '(a < b), (c > d)'")
    } else {
        framed("unknown function '", name, "'")
    }
}

/// A function signature as values.
pub open spec fn func_sig_v(s: FuncSig) -> (Seq<TypeV>, TypeV) {
    (types_v(s.params@), s.ret@)
}

/// The function table of the first `n` functions: each non-generic
/// function's name with its parameter and result types, in order.
pub open spec fn fn_table(fs: Seq<crate::ast::FunctionDeclV>, n: nat) -> Seq<(Seq<char>, (Seq<TypeV>, TypeV))>
    decreases n,
{
    if n == 0 || n > fs.len() {
        Seq::empty()
    } else {
        let f = fs[n - 1];
        fn_table(fs, (n - 1) as nat) + if f.type_params.len() == 0 {
            seq![(f.name, (crate::generate_spec::param_types(f.params), f.ret))]
        } else {
            Seq::empty()
        }
    }
}

/// The names of the generic functions among the first `n`, in order.
pub open spec fn fn_template_names(fs: Seq<crate::ast::FunctionDeclV>, n: nat) -> Seq<Seq<char>>
    decreases n,
{
    if n == 0 || n > fs.len() {
        Seq::empty()
    } else {
        fn_template_names(fs, (n - 1) as nat) + if fs[n - 1].type_params.len() != 0 { seq![fs[n - 1].name] } else { Seq::empty() }
    }
}

pub open spec fn fn_rows_v(t: Seq<(String, FuncSig)>) -> Seq<(Seq<char>, (Seq<TypeV>, TypeV))> {
    Seq::new(t.len(), |i: int| (t[i].0@, func_sig_v(t[i].1)))
}

/// The function table (non-generic functions) and the names of the generic
/// ones, as a body's calls resolve against them.
pub fn function_table(fs: &Vec<crate::ast::FunctionDecl>) -> (r: (Vec<(String, FuncSig)>, Vec<String>))
    ensures
        fn_rows_v(r.0@) == fn_table(crate::ast::functions_v(fs@), fs@.len()),
        crate::ast::names_v(r.1@) == fn_template_names(crate::ast::functions_v(fs@), fs@.len()),
{
    let ghost fv = crate::ast::functions_v(fs@);
    let mut table: Vec<(String, FuncSig)> = Vec::new();
    let mut names: Vec<String> = Vec::new();
    let mut i: usize = 0;
    assert(fn_rows_v(table@) =~= Seq::<(Seq<char>, (Seq<TypeV>, TypeV))>::empty());
    assert(crate::ast::names_v(names@) =~= Seq::<Seq<char>>::empty());
    while i < fs.len()
        invariant
            i <= fs@.len(),
            fv == crate::ast::functions_v(fs@),
            fn_rows_v(table@) == fn_table(fv, i as nat),
            crate::ast::names_v(names@) == fn_template_names(fv, i as nat),
        decreases fs@.len() - i,
    {
        let f = &fs[i];
        assert(fv[i as int] == f@);
        if f.type_params.len() == 0 {
            let ghost before = fn_rows_v(table@);
            let mut ps: Vec<Type> = Vec::new();
            let mut k: usize = 0;
            while k < f.params.len()
                invariant
                    k <= f.params@.len(),
                    ps@.len() == k,
                    forall|j: int| 0 <= j < k ==> #[trigger] ps@[j]@ == f.params@[j].ty@,
                decreases f.params@.len() - k,
            {
                ps.push(f.params[k].ty.copy());
                k += 1;
            }
            assert(types_v(ps@) =~= crate::generate_spec::param_types(crate::ast::params_v(f.params@)));
            table.push((f.name.clone(), FuncSig { params: ps, ret: f.ret.copy() }));
            assert(fn_rows_v(table@) =~= before + seq![(f@.name, (crate::generate_spec::param_types(f@.params), f@.ret))]);
            assert(crate::ast::names_v(names@) =~= fn_template_names(fv, (i + 1) as nat));
        } else {
            let ghost before = crate::ast::names_v(names@);
            names.push(f.name.clone());
            assert(crate::ast::names_v(names@) =~= before + seq![f@.name]);
            assert(fn_rows_v(table@) =~= fn_table(fv, (i + 1) as nat));
        }
        i += 1;
    }
    (table, names)
}

} // verus!
