//! Checks on the headers of functions, constructors, methods and fields,
//! made before their bodies are typed: usable types, no pointer escaping
//! through a result or a field, parameters declared once, and the rule
//! that a body with a result returns on every path.

use vstd::prelude::*;
use crate::ast::{Block, FieldDecl, Param, ParamV, Type, TypeV, display_spec, names_v, params_v};
use crate::calls::err_v;
use crate::errors::{JimError, JimErrorV};
use crate::flow::{block_returns, block_returns_spec};
use crate::sema::{Env, ScopeV, contains_pointer, contains_pointer_spec, scope_get};
use crate::text::{framed, push_str, str_eq};
use crate::typing::{type_available, unavailable};

verus! {

/// The scope that the first `n` parameters open: each a mutable variable.
pub open spec fn param_scope(ps: Seq<ParamV>, n: nat) -> ScopeV {
    Seq::new(n, |i: int| (ps[i].name, ps[i].ty, false))
}

/// The first problem among the first `n` parameters: a type that is not
/// usable, or a name an earlier parameter has.
pub open spec fn params_error(known: Seq<Seq<char>>, ps: Seq<ParamV>, n: nat) -> Option<JimErrorV>
    decreases n,
{
    if n == 0 || n > ps.len() {
        None
    } else {
        match params_error(known, ps, (n - 1) as nat) {
            Some(e) => Some(e),
            None => {
                let p = ps[n - 1];
                match unavailable(known, p.ty, false) {
                    Some(m) => Some(err_v("in parameter '"@ + p.name + "': "@ + m, p.line, p.col)),
                    None => if scope_get(param_scope(ps, (n - 1) as nat), p.name) is Some {
                        Some(err_v("duplicate parameter '"@ + p.name + "'"@, p.line, p.col))
                    } else {
                        None
                    },
                }
            },
        }
    }
}

/// The environment a body starts in: one scope holding its parameters, or
/// the first parameter problem (see [`params_error`]).
pub fn params_env(classes: &Vec<String>, params: &Vec<Param>) -> (r: Result<Env, JimError>)
    ensures
        match params_error(names_v(classes@), params_v(params@), params@.len()) {
            Some(e) => r matches Err(x) && x@ == e,
            None => r matches Ok(env) && env.view_scopes() == seq![param_scope(params_v(params@), params@.len())],
        },
{
    let ghost known = names_v(classes@);
    let ghost ps = params_v(params@);
    let mut env = Env::new();
    assert(param_scope(ps, 0) =~= Seq::<(Seq<char>, TypeV, bool)>::empty());
    let mut i: usize = 0;
    while i < params.len()
        invariant
            i <= params@.len(),
            known == names_v(classes@),
            ps == params_v(params@),
            params_error(known, ps, i as nat) is None,
            env.view_scopes() == seq![param_scope(ps, i as nat)],
        decreases params@.len() - i,
    {
        let p = &params[i];
        assert(ps[i as int] == p@);
        match type_available(classes, &p.ty, false) {
            Ok(()) => {},
            Err(m) => {
                let mut s = framed("in parameter '", p.name.as_str(), "': ");
                push_str(&mut s, m.as_str());
                proof {
                    lemma_params_error_stays(known, ps, (i + 1) as nat, params@.len());
                }
                return Err(JimError::new(s, p.line, p.col));
            },
        }
        let ghost before = env.view_scopes();
        if !env.declare(p.name.as_str(), p.ty.copy(), false) {
            proof {
                lemma_params_error_stays(known, ps, (i + 1) as nat, params@.len());
            }
            return Err(JimError::new(framed("duplicate parameter '", p.name.as_str(), "'"), p.line, p.col));
        }
        assert(param_scope(ps, (i + 1) as nat) =~= param_scope(ps, i as nat).push((p.name@, p.ty@, false)));
        assert(env.view_scopes() =~= seq![param_scope(ps, (i + 1) as nat)]);
        i += 1;
    }
    Ok(env)
}

/// Once a parameter problem is found, longer prefixes report the same one.
proof fn lemma_params_error_stays(known: Seq<Seq<char>>, ps: Seq<ParamV>, m: nat, k: nat)
    requires
        m <= k <= ps.len(),
        params_error(known, ps, m) is Some,
    ensures
        params_error(known, ps, k) == params_error(known, ps, m),
    decreases k - m,
{
    if m < k {
        lemma_params_error_stays(known, ps, m, (k - 1) as nat);
    }
}

/// A function's result type must be usable and hold no pointer (a pointer
/// to a local would dangle after the call).
pub open spec fn fn_result_error(known: Seq<Seq<char>>, name: Seq<char>, ret: TypeV, line: u32, col: u32) -> Option<JimErrorV> {
    match unavailable(known, ret, true) {
        Some(m) => Some(err_v("in return type of '"@ + name + "': "@ + m, line, col)),
        None => if contains_pointer_spec(ret) {
            Some(err_v("function '"@ + name + "' cannot return a pointer (a pointer to a local would dangle after the call)"@, line, col))
        } else {
            None
        },
    }
}

pub fn check_fn_result(classes: &Vec<String>, name: &str, ret: &Type, line: u32, col: u32) -> (r: Result<(), JimError>)
    ensures
        match fn_result_error(names_v(classes@), name@, ret@, line, col) {
            Some(e) => r matches Err(x) && x@ == e,
            None => r is Ok,
        },
{
    match type_available(classes, ret, true) {
        Ok(()) => {},
        Err(m) => {
            let mut s = framed("in return type of '", name, "': ");
            push_str(&mut s, m.as_str());
            return Err(JimError::new(s, line, col));
        },
    }
    if contains_pointer(ret) {
        return Err(JimError::new(framed("function '", name, "' cannot return a pointer (a pointer to a local would dangle after the call)"), line, col));
    }
    Ok(())
}

/// The same rule for a method `class.name`.
pub open spec fn method_result_error(known: Seq<Seq<char>>, class: Seq<char>, name: Seq<char>, ret: TypeV, line: u32, col: u32) -> Option<JimErrorV> {
    match unavailable(known, ret, true) {
        Some(m) => Some(err_v("in return type of '"@ + class + "."@ + name + "': "@ + m, line, col)),
        None => if contains_pointer_spec(ret) {
            Some(err_v("method '"@ + class + "."@ + name + "' cannot return a pointer (a pointer to a local would dangle after the call)"@, line, col))
        } else {
            None
        },
    }
}

pub fn check_method_result(classes: &Vec<String>, class: &str, name: &str, ret: &Type, line: u32, col: u32) -> (r: Result<(), JimError>)
    ensures
        match method_result_error(names_v(classes@), class@, name@, ret@, line, col) {
            Some(e) => r matches Err(x) && x@ == e,
            None => r is Ok,
        },
{
    match type_available(classes, ret, true) {
        Ok(()) => {},
        Err(m) => {
            let mut s = framed("in return type of '", class, ".");
            push_str(&mut s, name);
            push_str(&mut s, "': ");
            push_str(&mut s, m.as_str());
            return Err(JimError::new(s, line, col));
        },
    }
    if contains_pointer(ret) {
        let mut s = framed("method '", class, ".");
        push_str(&mut s, name);
        push_str(&mut s, "' cannot return a pointer (a pointer to a local would dangle after the call)");
        return Err(JimError::new(s, line, col));
    }
    Ok(())
}

/// A field's type must be usable and hold no pointer (the pointed-to
/// variable may die before the object).
pub open spec fn field_error(known: Seq<Seq<char>>, name: Seq<char>, ty: TypeV, line: u32, col: u32) -> Option<JimErrorV> {
    match unavailable(known, ty, false) {
        Some(m) => Some(err_v("in field '"@ + name + "': "@ + m, line, col)),
        None => if contains_pointer_spec(ty) {
            Some(err_v("field '"@ + name + "' cannot hold a pointer (the pointed-to variable may die before the object)"@, line, col))
        } else {
            None
        },
    }
}

pub fn check_field(classes: &Vec<String>, f: &FieldDecl) -> (r: Result<(), JimError>)
    ensures
        match field_error(names_v(classes@), f.name@, f.ty@, f.line, f.col) {
            Some(e) => r matches Err(x) && x@ == e,
            None => r is Ok,
        },
{
    match type_available(classes, &f.ty, false) {
        Ok(()) => {},
        Err(m) => {
            let mut s = framed("in field '", f.name.as_str(), "': ");
            push_str(&mut s, m.as_str());
            return Err(JimError::new(s, f.line, f.col));
        },
    }
    if contains_pointer(&f.ty) {
        return Err(JimError::new(framed("field '", f.name.as_str(), "' cannot hold a pointer (the pointed-to variable may die before the object)"), f.line, f.col));
    }
    Ok(())
}

/// A body whose result is neither `None` nor optional must return on every
/// path (`main` is exempt: it exits with 0). `who` is how the body is
/// named: `function 'f'` or `method 'C.m'`.
pub open spec fn falls_off(who: Seq<char>, ret: TypeV, is_main: bool, returns: bool, line: u32, col: u32) -> Option<JimErrorV> {
    if ret != TypeV::Named("None"@) && !(ret is Optional) && !is_main && !returns {
        Some(err_v(who + " may reach the end without returning "@ + display_spec(ret) + " (every path must return)"@, line, col))
    } else {
        None
    }
}

/// `function 'f'` as a body's name in messages.
pub open spec fn function_who(name: Seq<char>) -> Seq<char> {
    "function '"@ + name + "'"@
}

/// `method 'C.m'` as a body's name in messages.
pub open spec fn method_who(class: Seq<char>, name: Seq<char>) -> Seq<char> {
    "method '"@ + class + "."@ + name + "'"@
}

pub fn check_fn_returns(name: &str, ret: &Type, body: &Block, line: u32, col: u32) -> (r: Result<(), JimError>)
    ensures
        match falls_off(function_who(name@), ret@, name@ == "main"@, block_returns_spec(body@), line, col) {
            Some(e) => r matches Err(x) && x@ == e,
            None => r is Ok,
        },
{
    let is_opt = match ret {
        Type::Optional(_) => true,
        _ => false,
    };
    if !ret.is_named("None") && !is_opt && !str_eq(name, "main") && !block_returns(body) {
        let mut s = framed("function '", name, "'");
        push_str(&mut s, " may reach the end without returning ");
        let d = ret.display();
        push_str(&mut s, d.as_str());
        push_str(&mut s, " (every path must return)");
        return Err(JimError::new(s, line, col));
    }
    Ok(())
}

pub fn check_method_returns(class: &str, name: &str, ret: &Type, body: &Block, line: u32, col: u32) -> (r: Result<(), JimError>)
    ensures
        match falls_off(method_who(class@, name@), ret@, false, block_returns_spec(body@), line, col) {
            Some(e) => r matches Err(x) && x@ == e,
            None => r is Ok,
        },
{
    let is_opt = match ret {
        Type::Optional(_) => true,
        _ => false,
    };
    if !ret.is_named("None") && !is_opt && !block_returns(body) {
        let mut s = framed("method '", class, ".");
        push_str(&mut s, name);
        push_str(&mut s, "'");
        push_str(&mut s, " may reach the end without returning ");
        let d = ret.display();
        push_str(&mut s, d.as_str());
        push_str(&mut s, " (every path must return)");
        return Err(JimError::new(s, line, col));
    }
    Ok(())
}

} // verus!
