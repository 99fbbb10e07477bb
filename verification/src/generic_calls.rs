//! The steps of a call of a generic function that need no argument typed:
//! binding explicit type arguments, naming the type parameters left
//! unbound, ordering the bindings, and the instance key the call is
//! emitted under (`max<Vector<Float>,Float>`).

use vstd::prelude::*;
use crate::ast::{Expr, ExprV, Type, TypeV, display_spec, names_v, types_v};
use crate::calls::err_v;
use crate::errors::{JimError, JimErrorV};
use crate::sema::{BindingsV, bind_get, bindings_view};
use crate::text::{decimal, framed, lit_string, push_decimal, push_str, str_eq};
use crate::typing::{coerce_spec, try_coerce, type_available, unavailable};

verus! {

/// The parts joined with `sep` between them.
pub open spec fn joined(parts: Seq<Seq<char>>, sep: Seq<char>) -> Seq<char>
    decreases parts.len(),
{
    if parts.len() == 0 {
        Seq::empty()
    } else if parts.len() == 1 {
        parts[0]
    } else {
        joined(parts.drop_last(), sep) + sep + parts.last()
    }
}

/// Append `parts` joined with `sep`.
fn push_joined(s: &mut String, parts: &Vec<String>, sep: &str)
    ensures
        final(s)@ == old(s)@ + joined(names_v(parts@), sep@),
{
    let ghost start = s@;
    let mut i: usize = 0;
    assert(names_v(parts@).take(0) =~= Seq::<Seq<char>>::empty());
    while i < parts.len()
        invariant
            i <= parts@.len(),
            s@ == start + joined(names_v(parts@).take(i as int), sep@),
        decreases parts@.len() - i,
    {
        let ghost before = s@;
        if i > 0 {
            push_str(s, sep);
        }
        push_str(s, parts[i].as_str());
        proof {
            let p = names_v(parts@);
            assert(p.take(i + 1).drop_last() =~= p.take(i as int));
            assert(p.take(i + 1).last() == parts@[i as int]@);
            if i == 0 {
                assert(joined(p.take(0), sep@) =~= Seq::<char>::empty());
                assert(s@ =~= start + joined(p.take(1), sep@));
            } else {
                assert(s@ =~= start + joined(p.take(i + 1), sep@));
            }
        }
        i += 1;
    }
    assert(names_v(parts@).take(parts@.len() as int) =~= names_v(parts@));
}

/// A generic call must pass as many arguments as the template declares.
pub open spec fn generic_arity_error(name: Seq<char>, nparams: nat, nargs: nat) -> Option<Seq<char>> {
    if nargs != nparams {
        Some("function '"@ + name + "' expects "@ + decimal(nparams) + " argument(s), got "@ + decimal(nargs))
    } else {
        None
    }
}

pub fn check_generic_arity(name: &str, nparams: usize, nargs: usize, line: u32, col: u32) -> (r: Result<(), JimError>)
    ensures
        match generic_arity_error(name@, nparams as nat, nargs as nat) {
            Some(m) => r matches Err(x) && x@ == err_v(m, line, col),
            None => r is Ok,
        },
{
    if nargs != nparams {
        let mut m = framed("function '", name, "' expects ");
        push_decimal(&mut m, nparams as u64);
        push_str(&mut m, " argument(s), got ");
        push_decimal(&mut m, nargs as u64);
        return Err(JimError::new(m, line, col));
    }
    Ok(())
}

/// Explicit type arguments `name<..>(..)` bind every type parameter in
/// order: there must be one per parameter, each usable as a type.
pub open spec fn explicit_spec(
    known: Seq<Seq<char>>,
    name: Seq<char>,
    tparams: Seq<Seq<char>>,
    args: Seq<TypeV>,
    line: u32,
    col: u32,
) -> Result<BindingsV, JimErrorV> {
    if args.len() != tparams.len() {
        Err(err_v("function '"@ + name + "' takes "@ + decimal(tparams.len()) + " type argument(s) (<"@ + joined(tparams, ", "@)
            + ">), got "@ + decimal(args.len()), line, col))
    } else {
        match first_unusable(known, args, args.len()) {
            Some((i, m)) => Err(err_v("in type argument for '"@ + tparams[i] + "': "@ + m, line, col)),
            None => Ok(Seq::new(args.len(), |i: int| (tparams[i], args[i]))),
        }
    }
}

/// The first of the first `n` types that is not usable, with why.
pub open spec fn first_unusable(known: Seq<Seq<char>>, ts: Seq<TypeV>, n: nat) -> Option<(int, Seq<char>)>
    decreases n,
{
    if n == 0 || n > ts.len() {
        None
    } else {
        match first_unusable(known, ts, (n - 1) as nat) {
            Some(x) => Some(x),
            None => match unavailable(known, ts[n - 1], false) {
                Some(m) => Some(((n - 1) as int, m)),
                None => None,
            },
        }
    }
}

proof fn lemma_unusable_stays(known: Seq<Seq<char>>, ts: Seq<TypeV>, m: nat, k: nat)
    requires
        m <= k <= ts.len(),
        first_unusable(known, ts, m) is Some,
    ensures
        first_unusable(known, ts, k) == first_unusable(known, ts, m),
    decreases k - m,
{
    if m < k {
        lemma_unusable_stays(known, ts, m, (k - 1) as nat);
    }
}

pub fn explicit_bindings(
    classes: &Vec<String>,
    name: &str,
    tparams: &Vec<String>,
    type_args: &Vec<Type>,
    line: u32,
    col: u32,
) -> (r: Result<Vec<(String, Type)>, JimError>)
    ensures
        match explicit_spec(names_v(classes@), name@, names_v(tparams@), types_v(type_args@), line, col) {
            Ok(b) => r matches Ok(v) && bindings_view(v@) == b,
            Err(e) => r matches Err(x) && x@ == e,
        },
{
    if type_args.len() != tparams.len() {
        let mut m = framed("function '", name, "' takes ");
        push_decimal(&mut m, tparams.len() as u64);
        push_str(&mut m, " type argument(s) (<");
        push_joined(&mut m, tparams, ", ");
        push_str(&mut m, ">), got ");
        push_decimal(&mut m, type_args.len() as u64);
        return Err(JimError::new(m, line, col));
    }
    let ghost known = names_v(classes@);
    let ghost ts = types_v(type_args@);
    let mut out: Vec<(String, Type)> = Vec::new();
    let mut i: usize = 0;
    while i < type_args.len()
        invariant
            i <= type_args@.len(),
            type_args@.len() == tparams@.len(),
            known == names_v(classes@),
            ts == types_v(type_args@),
            first_unusable(known, ts, i as nat) is None,
            out@.len() == i,
            forall|j: int| 0 <= j < i ==> #[trigger] out@[j].0@ == tparams@[j]@ && out@[j].1@ == type_args@[j]@,
        decreases type_args@.len() - i,
    {
        match type_available(classes, &type_args[i], false) {
            Ok(()) => {},
            Err(m) => {
                let mut s = framed("in type argument for '", tparams[i].as_str(), "': ");
                push_str(&mut s, m.as_str());
                proof {
                    lemma_unusable_stays(known, ts, (i + 1) as nat, ts.len());
                }
                return Err(JimError::new(s, line, col));
            },
        }
        out.push((tparams[i].clone(), type_args[i].copy()));
        i += 1;
    }
    assert(bindings_view(out@) =~= Seq::new(ts.len(), |j: int| (names_v(tparams@)[j], ts[j])));
    Ok(out)
}

/// The type parameters among `tps` that no binding covers, in order.
pub open spec fn unbound(tps: Seq<Seq<char>>, b: BindingsV) -> Seq<Seq<char>>
    decreases tps.len(),
{
    if tps.len() == 0 {
        Seq::empty()
    } else {
        let rest = unbound(tps.drop_last(), b);
        if bind_get(b, tps.last()) is Some { rest } else { rest.push(tps.last()) }
    }
}

fn bound_in(bindings: &Vec<(String, Type)>, n: &str) -> (b: bool)
    ensures
        b == (bind_get(bindings_view(bindings@), n@) is Some),
{
    let mut i: usize = 0;
    assert(bindings_view(bindings@).skip(0) =~= bindings_view(bindings@));
    while i < bindings.len()
        invariant
            i <= bindings@.len(),
            bind_get(bindings_view(bindings@), n@) == bind_get(bindings_view(bindings@).skip(i as int), n@),
        decreases bindings@.len() - i,
    {
        let ghost rest = bindings_view(bindings@).skip(i as int);
        assert(rest[0] == (bindings@[i as int].0@, bindings@[i as int].1@));
        assert(rest.drop_first() =~= bindings_view(bindings@).skip(i + 1));
        if str_eq(bindings[i].0.as_str(), n) {
            return true;
        }
        i += 1;
    }
    false
}

pub fn unbound_params(tparams: &Vec<String>, bindings: &Vec<(String, Type)>) -> (r: Vec<String>)
    ensures
        names_v(r@) == unbound(names_v(tparams@), bindings_view(bindings@)),
{
    let ghost tp = names_v(tparams@);
    let ghost b = bindings_view(bindings@);
    let mut out: Vec<String> = Vec::new();
    let mut i: usize = 0;
    assert(tp.take(0) =~= Seq::<Seq<char>>::empty());
    assert(names_v(out@) =~= Seq::<Seq<char>>::empty());
    while i < tparams.len()
        invariant
            i <= tparams@.len(),
            tp == names_v(tparams@),
            b == bindings_view(bindings@),
            names_v(out@) == unbound(tp.take(i as int), b),
        decreases tparams@.len() - i,
    {
        assert(tp.take(i + 1).drop_last() =~= tp.take(i as int));
        assert(tp.take(i + 1).last() == tparams@[i as int]@);
        if !bound_in(bindings, tparams[i].as_str()) {
            let ghost before = names_v(out@);
            out.push(tparams[i].clone());
            assert(names_v(out@) =~= before.push(tparams@[i as int]@));
        }
        i += 1;
    }
    assert(tp.take(tparams@.len() as int) =~= tp);
    out
}

/// Type parameters left unbound after the arguments and the expected type
/// are a reported error, naming them and how to bind them.
pub open spec fn cannot_infer_msg(name: Seq<char>, missing: Seq<Seq<char>>) -> Seq<char> {
    "cannot infer type parameter"@ + (if missing.len() == 1 { Seq::empty() } else { "s"@ }) + " "@ + joined(missing, ", "@)
        + " of '"@ + name + "' \u{2014} annotate the target ('var x: Type = "@ + name
        + "(...);') or pass explicit type arguments ('"@ + name + "<...>(...)') "@
}

pub fn cannot_infer_message(name: &str, missing: &Vec<String>) -> (s: String)
    ensures
        s@ == cannot_infer_msg(name@, names_v(missing@)),
{
    let mut s = lit_string("cannot infer type parameter");
    if missing.len() != 1 {
        push_str(&mut s, "s");
    } else {
        assert(s@ =~= s@ + Seq::<char>::empty());
    }
    push_str(&mut s, " ");
    push_joined(&mut s, missing, ", ");
    push_str(&mut s, " of '");
    push_str(&mut s, name);
    push_str(&mut s, "' \u{2014} annotate the target ('var x: Type = ");
    push_str(&mut s, name);
    push_str(&mut s, "(...);') or pass explicit type arguments ('");
    push_str(&mut s, name);
    push_str(&mut s, "<...>(...)') ");
    s
}

/// The bindings in the order the type parameters are declared.
pub open spec fn ordered_spec(tps: Seq<Seq<char>>, b: BindingsV) -> BindingsV {
    Seq::new(tps.len(), |i: int| (tps[i], bind_get(b, tps[i])->0))
}

pub fn ordered_bindings(tparams: &Vec<String>, bindings: &Vec<(String, Type)>) -> (r: Vec<(String, Type)>)
    requires
        unbound(names_v(tparams@), bindings_view(bindings@)).len() == 0,
    ensures
        bindings_view(r@) == ordered_spec(names_v(tparams@), bindings_view(bindings@)),
{
    let ghost tp = names_v(tparams@);
    let ghost b = bindings_view(bindings@);
    proof {
        lemma_unbound_empty(tp, b);
    }
    let mut out: Vec<(String, Type)> = Vec::new();
    let mut i: usize = 0;
    while i < tparams.len()
        invariant
            i <= tparams@.len(),
            tp == names_v(tparams@),
            b == bindings_view(bindings@),
            forall|j: int| 0 <= j < tp.len() ==> bind_get(b, #[trigger] tp[j]) is Some,
            out@.len() == i,
            forall|j: int| 0 <= j < i ==> #[trigger] bindings_view(out@)[j] == ordered_spec(tp, b)[j],
        decreases tparams@.len() - i,
    {
        assert(tp[i as int] == tparams@[i as int]@);
        assert(bind_get(b, tp[i as int]) is Some);
        let t = match crate::sema::find_binding(bindings.as_slice(), &tparams[i]) {
            Some(k) => bindings[k].1.copy(),
            None => Type::named("None"),
        };
        let ghost before = out@;
        assert(forall|j: int| 0 <= j < i ==> #[trigger] bindings_view(before)[j] == ordered_spec(tp, b)[j]);
        let ghost tv = t@;
        assert(tv == bind_get(b, tp[i as int])->0);
        out.push((tparams[i].clone(), t));
        assert(bindings_view(out@)[i as int] == (tp[i as int], tv));
        assert forall|j: int| 0 <= j < i + 1 implies #[trigger] bindings_view(out@)[j] == ordered_spec(tp, b)[j] by {
            if j < i {
                assert(out@[j] == before[j]);
                assert(bindings_view(out@)[j] == bindings_view(before)[j]);
            }
        }
        i += 1;
    }
    assert(bindings_view(out@) =~= ordered_spec(tp, b));
    out
}

/// With nothing unbound, every type parameter has a binding.
proof fn lemma_unbound_empty(tps: Seq<Seq<char>>, b: BindingsV)
    requires
        unbound(tps, b).len() == 0,
    ensures
        forall|j: int| 0 <= j < tps.len() ==> bind_get(b, #[trigger] tps[j]) is Some,
    decreases tps.len(),
{
    if tps.len() > 0 {
        let rest = unbound(tps.drop_last(), b);
        if bind_get(b, tps.last()) is None {
            assert(unbound(tps, b).len() == rest.len() + 1);
        }
        lemma_unbound_empty(tps.drop_last(), b);
        assert forall|j: int| 0 <= j < tps.len() implies bind_get(b, #[trigger] tps[j]) is Some by {
            if j < tps.len() - 1 {
                assert(tps[j] == tps.drop_last()[j]);
            }
        }
    }
}

/// The displays of the bound types.
pub open spec fn bound_displays(b: BindingsV) -> Seq<Seq<char>> {
    Seq::new(b.len(), |i: int| display_spec(b[i].1))
}

/// The key an instance of `name` is emitted under: `name<T1,T2>`.
pub open spec fn instance_key_spec(name: Seq<char>, b: BindingsV) -> Seq<char> {
    name + "<"@ + joined(bound_displays(b), ","@) + ">"@
}

pub fn instance_key(name: &str, ordered: &Vec<(String, Type)>) -> (s: String)
    ensures
        s@ == instance_key_spec(name@, bindings_view(ordered@)),
{
    let mut shown: Vec<String> = Vec::new();
    let mut i: usize = 0;
    while i < ordered.len()
        invariant
            i <= ordered@.len(),
            shown@.len() == i,
            forall|j: int| 0 <= j < i ==> #[trigger] shown@[j]@ == display_spec(ordered@[j].1@),
        decreases ordered@.len() - i,
    {
        shown.push(ordered[i].1.display());
        i += 1;
    }
    assert(names_v(shown@) =~= bound_displays(bindings_view(ordered@)));
    let mut s = lit_string(name);
    push_str(&mut s, "<");
    push_joined(&mut s, &shown, ",");
    push_str(&mut s, ">");
    s
}

/// An argument typed while inferring must unify with its declared
/// parameter type; this is the message when it does not.
pub open spec fn infer_mismatch_msg(name: Seq<char>, declared: TypeV, got: TypeV) -> Seq<char> {
    "cannot infer the type parameters of '"@ + name + "': the parameter is declared "@ + display_spec(declared)
        + " but the argument is "@ + display_spec(got)
}

pub fn infer_mismatch(name: &str, declared: &Type, arg: &(Expr, Type)) -> (e: JimError)
    ensures
        e@ == err_v(infer_mismatch_msg(name@, declared@, arg.1@), arg.0@.line, arg.0@.col),
{
    let mut m = framed("cannot infer the type parameters of '", name, "': the parameter is declared ");
    let d = declared.display();
    push_str(&mut m, d.as_str());
    push_str(&mut m, " but the argument is ");
    let g = arg.1.display();
    push_str(&mut m, g.as_str());
    JimError::new(m, arg.0.line, arg.0.col)
}

/// An argument typed early must still coerce to its substituted parameter
/// type.
pub open spec fn final_arg_spec(name: Seq<char>, want: TypeV, arg: (ExprV, TypeV)) -> Result<ExprV, JimErrorV> {
    match coerce_spec(arg.0, arg.1, want) {
        Some(e) => Ok(e),
        None => Err(err_v("argument type mismatch in call to '"@ + name + "': expected "@ + display_spec(want) + ", found "@ + display_spec(arg.1), arg.0.line, arg.0.col)),
    }
}

pub fn final_arg(name: &str, want: &Type, arg: (Expr, Type)) -> (r: Result<Expr, JimError>)
    ensures
        match final_arg_spec(name@, want@, (arg.0@, arg.1@)) {
            Ok(e) => r matches Ok(x) && x@ == e,
            Err(e) => r matches Err(x) && x@ == e,
        },
{
    let line = arg.0.line;
    let col = arg.0.col;
    match try_coerce(arg, want) {
        Ok(e) => Ok(e),
        Err((_, got)) => {
            let mut m = framed("argument type mismatch in call to '", name, "': expected ");
            let w = want.display();
            push_str(&mut m, w.as_str());
            push_str(&mut m, ", found ");
            let g = got.display();
            push_str(&mut m, g.as_str());
            Err(JimError::new(m, line, col))
        },
    }
}

} // verus!
