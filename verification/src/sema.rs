//! Type-level rules of jim's checker: class keys, optionals, pointer
//! escape, substitution and unification of generic type parameters, and
//! lexical scopes.
use vstd::prelude::*;
use crate::ast::{Type, TypeV, display_spec};
use crate::errors::JimError;
use crate::text::{lit_string, str_eq};
pub use crate::check::check;

verus! {

/// A semantic error plus which source file it belongs to (for rendering).
#[derive(Debug, Clone)]
pub struct SemaError {
    pub file_idx: usize,
    pub err: JimError,
}

/// The class-table key for a type that can have methods/fields:
/// `Shape` for a named type, `Vector<Integer>` for a generic one.
pub open spec fn class_key_spec(t: TypeV) -> Option<Seq<char>> {
    match t {
        TypeV::Named(n) => Some(n),
        TypeV::Generic(_, _) => Some(display_spec(t)),
        _ => None,
    }
}

pub fn class_key(ty: &Type) -> (r: Option<String>)
    ensures
        match class_key_spec(ty@) {
            Some(k) => r matches Some(s) && s@ == k,
            None => r is None,
        },
{
    match ty {
        Type::Named(n) => Some(n.clone()),
        Type::Generic(_, _) => Some(ty.display()),
        _ => None,
    }
}

/// A class key is how the type is spelled.
pub proof fn lemma_class_key_is_display(t: TypeV)
    ensures
        class_key_spec(t) matches Some(k) ==> k == display_spec(t),
{
}

/// For `T?`, the payload `T` when it has an optional representation
/// (core values, classes, containers, pointers).
pub open spec fn opt_payload_spec(t: TypeV) -> Option<TypeV> {
    match t {
        TypeV::Optional(inner) => match *inner {
            TypeV::Optional(_) => None,
            _ => Some(*inner),
        },
        _ => None,
    }
}

pub fn opt_payload(ty: &Type) -> (r: Option<Type>)
    ensures
        match opt_payload_spec(ty@) {
            Some(p) => r matches Some(t) && t@ == p,
            None => r is None,
        },
{
    match ty {
        Type::Optional(inner) => {
            let t: &Type = &**inner;
            match t {
                Type::Optional(_) => None,
                _ => {
                    let c = t.copy();
                    assert(ty@ == TypeV::Optional(Box::new(t@)));
                    Some(c)
                },
            }
        },
        _ => None,
    }
}

/// Does this type contain a pointer anywhere?
pub open spec fn contains_pointer_spec(t: TypeV) -> bool
    decreases t,
{
    match t {
        TypeV::Pointer(_) => true,
        TypeV::Optional(i) => contains_pointer_spec(*i),
        TypeV::Generic(_, i) => contains_pointer_spec(*i),
        TypeV::Named(_) => false,
    }
}

/// Does this type contain a pointer anywhere? (Pointers must not outlive the
/// variable they point at — so they cannot be returned, stored in fields, or
/// put in containers.)
pub fn contains_pointer(ty: &Type) -> (b: bool)
    ensures
        b == contains_pointer_spec(ty@),
    decreases ty,
{
    match ty {
        Type::Pointer(_) => true,
        Type::Optional(i) => contains_pointer(i),
        Type::Generic(_, i) => contains_pointer(i),
        Type::Named(_) => false,
    }
}

/// Bindings of type parameters, in the order they were made.
pub type BindingsV = Seq<(Seq<char>, TypeV)>;

pub open spec fn bindings_view(b: Seq<(String, Type)>) -> BindingsV {
    b.map_values(|e: (String, Type)| (e.0@, e.1@))
}

/// The first binding of `n`.
pub open spec fn bind_get(b: BindingsV, n: Seq<char>) -> Option<TypeV>
    decreases b.len(),
{
    if b.len() == 0 {
        None
    } else if b[0].0 == n {
        Some(b[0].1)
    } else {
        bind_get(b.drop_first(), n)
    }
}

/// Substitute bound type parameters with their types.
pub open spec fn subst_spec(t: TypeV, b: BindingsV) -> TypeV
    decreases t,
{
    match t {
        TypeV::Named(n) => match bind_get(b, n) {
            Some(a) => a,
            None => t,
        },
        TypeV::Generic(n, p) => TypeV::Generic(n, Box::new(subst_spec(*p, b))),
        TypeV::Pointer(p) => TypeV::Pointer(Box::new(subst_spec(*p, b))),
        TypeV::Optional(p) => TypeV::Optional(Box::new(subst_spec(*p, b))),
    }
}

pub fn find_binding(bindings: &[(String, Type)], n: &String) -> (r: Option<usize>)
    ensures
        match bind_get(bindings_view(bindings@), n@) {
            Some(t) => r matches Some(i) && i < bindings@.len() && bindings@[i as int].1@ == t,
            None => r is None,
        },
{
    let mut i: usize = 0;
    assert(bindings_view(bindings@).skip(0) == bindings_view(bindings@));
    while i < bindings.len()
        invariant
            i <= bindings@.len(),
            bind_get(bindings_view(bindings@), n@) == bind_get(bindings_view(bindings@).skip(i as int), n@),
        decreases bindings@.len() - i,
    {
        let ghost rest = bindings_view(bindings@).skip(i as int);
        assert(rest[0] == (bindings@[i as int].0@, bindings@[i as int].1@));
        assert(rest.drop_first() == bindings_view(bindings@).skip(i + 1));
        if str_eq(bindings[i].0.as_str(), n.as_str()) {
            return Some(i);
        }
        i += 1;
    }
    None
}

/// Substitute type parameters with concrete types.
pub fn subst_type(ty: &Type, bindings: &[(String, Type)]) -> (r: Type)
    ensures
        r@ == subst_spec(ty@, bindings_view(bindings@)),
    decreases ty,
{
    match ty {
        Type::Named(n) => match find_binding(bindings, n) {
            Some(i) => bindings[i].1.copy(),
            None => ty.copy(),
        },
        Type::Generic(n, p) => Type::Generic(n.clone(), Box::new(subst_type(p, bindings))),
        Type::Pointer(p) => Type::Pointer(Box::new(subst_type(p, bindings))),
        Type::Optional(p) => Type::Optional(Box::new(subst_type(p, bindings))),
    }
}

pub open spec fn names_view(v: Seq<String>) -> Seq<Seq<char>> {
    v.map_values(|s: String| s@)
}

fn contains_name(names: &[String], n: &String) -> (b: bool)
    ensures
        b == names_view(names@).contains(n@),
{
    let mut i: usize = 0;
    while i < names.len()
        invariant
            i <= names@.len(),
            forall|j: int| 0 <= j < i ==> names@[j]@ != n@,
        decreases names@.len() - i,
    {
        if str_eq(names[i].as_str(), n.as_str()) {
            assert(names_view(names@)[i as int] == n@);
            return true;
        }
        i += 1;
    }
    assert forall|j: int| 0 <= j < names_view(names@).len() implies names_view(names@)[j] != n@ by {
        assert(names_view(names@)[j] == names@[j]@);
    }
    false
}

/// Structural unification: type-parameter names in `pat` bind to the
/// corresponding part of `got` (the first binding of a name stands);
/// everything else must match exactly. The result says whether they
/// unify, and the bindings after the attempt.
pub open spec fn unify_spec(pat: TypeV, got: TypeV, tp: Seq<Seq<char>>, b: BindingsV) -> (bool, BindingsV)
    decreases pat,
{
    match pat {
        TypeV::Named(n) => {
            if tp.contains(n) {
                match bind_get(b, n) {
                    Some(bound) => (bound == got, b),
                    None => (true, b.push((n, got))),
                }
            } else {
                (got == pat, b)
            }
        },
        TypeV::Generic(a, p) => match got {
            TypeV::Generic(c, q) => if a == c { unify_spec(*p, *q, tp, b) } else { (false, b) },
            _ => (false, b),
        },
        TypeV::Optional(p) => match got {
            TypeV::Optional(q) => unify_spec(*p, *q, tp, b),
            _ => (false, b),
        },
        TypeV::Pointer(p) => match got {
            TypeV::Pointer(q) => unify_spec(*p, *q, tp, b),
            _ => (false, b),
        },
    }
}

pub fn unify(pat: &Type, got: &Type, tparams: &[String], bindings: &mut Vec<(String, Type)>) -> (r: bool)
    ensures
        (r, bindings_view(final(bindings)@)) == unify_spec(pat@, got@, names_view(tparams@), bindings_view(old(bindings)@)),
    decreases pat,
{
    if let Type::Named(n) = pat {
        if contains_name(tparams, n) {
            return match find_binding(bindings.as_slice(), n) {
                Some(i) => bindings[i].1.same(got),
                None => {
                    let ghost before = bindings_view(bindings@);
                    bindings.push((n.clone(), got.copy()));
                    assert(bindings_view(bindings@) =~= before.push((n@, got@)));
                    true
                },
            };
        }
    }
    match pat {
        Type::Named(_) => got.same(pat),
        Type::Generic(a, p) => match got {
            Type::Generic(c, q) => str_eq(a.as_str(), c.as_str()) && unify(p, q, tparams, bindings),
            _ => false,
        },
        Type::Optional(p) => match got {
            Type::Optional(q) => unify(p, q, tparams, bindings),
            _ => false,
        },
        Type::Pointer(p) => match got {
            Type::Pointer(q) => unify(p, q, tparams, bindings),
            _ => false,
        },
    }
}

} // verus!

verus! {

/// Every binding is for one of the type parameters.
pub open spec fn keys_in(b: BindingsV, tp: Seq<Seq<char>>) -> bool {
    forall|i: int| 0 <= i < b.len() ==> tp.contains(#[trigger] b[i].0)
}

proof fn lemma_bind_get_push(b: BindingsV, k: Seq<char>, v: TypeV, n: Seq<char>)
    ensures
        bind_get(b.push((k, v)), n) == (match bind_get(b, n) {
            Some(t) => Some(t),
            None => if k == n { Some(v) } else { None },
        }),
    decreases b.len(),
{
    if b.len() == 0 {
        assert(b.push((k, v)).drop_first() == Seq::<(Seq<char>, TypeV)>::empty());
    } else {
        assert(b.push((k, v)).drop_first() == b.drop_first().push((k, v)));
        lemma_bind_get_push(b.drop_first(), k, v, n);
    }
}

proof fn lemma_bind_get_absent(b: BindingsV, tp: Seq<Seq<char>>, n: Seq<char>)
    requires
        keys_in(b, tp),
        !tp.contains(n),
    ensures
        bind_get(b, n) is None,
    decreases b.len(),
{
    if b.len() > 0 {
        assert(tp.contains(b[0].0));
        assert(keys_in(b.drop_first(), tp)) by {
            assert forall|i: int| 0 <= i < b.drop_first().len() implies tp.contains(#[trigger] b.drop_first()[i].0) by {
                assert(b.drop_first()[i] == b[i + 1]);
            }
        }
        lemma_bind_get_absent(b.drop_first(), tp, n);
    }
}

/// Unification only adds bindings: it keeps every earlier binding, and every
/// new binding is for a type parameter.
pub proof fn lemma_unify_extends(pat: TypeV, got: TypeV, tp: Seq<Seq<char>>, b: BindingsV)
    requires
        keys_in(b, tp),
    ensures
        keys_in(unify_spec(pat, got, tp, b).1, tp),
        forall|n: Seq<char>| #[trigger] bind_get(b, n) is Some ==> bind_get(unify_spec(pat, got, tp, b).1, n)
            == bind_get(b, n),
    decreases pat,
{
    match pat {
        TypeV::Named(n) => {
            if tp.contains(n) && bind_get(b, n) is None {
                let b2 = b.push((n, got));
                assert(keys_in(b2, tp)) by {
                    assert forall|i: int| 0 <= i < b2.len() implies tp.contains(#[trigger] b2[i].0) by {
                        if i < b.len() {
                            assert(b2[i] == b[i]);
                        }
                    }
                }
                assert forall|m: Seq<char>| #[trigger] bind_get(b, m) is Some implies bind_get(b2, m) == bind_get(b, m) by {
                    lemma_bind_get_push(b, n, got, m);
                }
            }
        },
        TypeV::Generic(a, p) => match got {
            TypeV::Generic(c, q) => if a == c {
                lemma_unify_extends(*p, *q, tp, b);
            },
            _ => {},
        },
        TypeV::Optional(p) => match got {
            TypeV::Optional(q) => lemma_unify_extends(*p, *q, tp, b),
            _ => {},
        },
        TypeV::Pointer(p) => match got {
            TypeV::Pointer(q) => lemma_unify_extends(*p, *q, tp, b),
            _ => {},
        },
    }
}

/// Unification is sound: when `pat` unifies with `got`, substituting the
/// resulting bindings into `pat` gives back exactly `got`.
pub proof fn lemma_unify_sound(pat: TypeV, got: TypeV, tp: Seq<Seq<char>>, b: BindingsV)
    requires
        keys_in(b, tp),
        unify_spec(pat, got, tp, b).0,
    ensures
        subst_spec(pat, unify_spec(pat, got, tp, b).1) == got,
    decreases pat,
{
    match pat {
        TypeV::Named(n) => {
            if tp.contains(n) {
                match bind_get(b, n) {
                    Some(bound) => {},
                    None => {
                        lemma_bind_get_push(b, n, got, n);
                    },
                }
            } else {
                lemma_bind_get_absent(b, tp, n);
            }
        },
        TypeV::Generic(a, p) => match got {
            TypeV::Generic(c, q) => {
                lemma_unify_sound(*p, *q, tp, b);
            },
            _ => {},
        },
        TypeV::Optional(p) => match got {
            TypeV::Optional(q) => lemma_unify_sound(*p, *q, tp, b),
            _ => {},
        },
        TypeV::Pointer(p) => match got {
            TypeV::Pointer(q) => lemma_unify_sound(*p, *q, tp, b),
            _ => {},
        },
    }
}

} // verus!

verus! {

/// Best-effort unification against the expected type at a call site: fills
/// unbound parameters, never overwrites, never fails. `T` unifying with a
/// `T?` context looks through the optional.
pub open spec fn unify_soft_spec(pat: TypeV, got: TypeV, tp: Seq<Seq<char>>, b: BindingsV) -> BindingsV
    decreases pat, got,
{
    if pat is Named && tp.contains(pat->Named_0) {
        if bind_get(b, pat->Named_0) is None {
            b.push((pat->Named_0, got))
        } else {
            b
        }
    } else {
        match (pat, got) {
            (TypeV::Generic(a, p), TypeV::Generic(c, q)) => if a == c { unify_soft_spec(*p, *q, tp, b) } else { b },
            (TypeV::Optional(p), TypeV::Optional(q)) => unify_soft_spec(*p, *q, tp, b),
            (TypeV::Pointer(p), TypeV::Pointer(q)) => unify_soft_spec(*p, *q, tp, b),
            (_, TypeV::Optional(q)) => if !(pat is Optional) { unify_soft_spec(pat, *q, tp, b) } else { b },
            _ => b,
        }
    }
}

pub fn unify_soft(pat: &Type, got: &Type, tparams: &[String], bindings: &mut Vec<(String, Type)>)
    ensures
        bindings_view(final(bindings)@) == unify_soft_spec(pat@, got@, names_view(tparams@), bindings_view(old(bindings)@)),
    decreases pat, got,
{
    if let Type::Named(n) = pat {
        if contains_name(tparams, n) {
            if find_binding(bindings.as_slice(), n).is_none() {
                let ghost before = bindings_view(bindings@);
                bindings.push((n.clone(), got.copy()));
                assert(bindings_view(bindings@) =~= before.push((n@, got@)));
            }
            return;
        }
    }
    match (pat, got) {
        (Type::Generic(a, p), Type::Generic(c, q)) => {
            if str_eq(a.as_str(), c.as_str()) {
                unify_soft(p, q, tparams, bindings);
            }
        },
        (Type::Optional(p), Type::Optional(q)) => unify_soft(p, q, tparams, bindings),
        (Type::Pointer(p), Type::Pointer(q)) => unify_soft(p, q, tparams, bindings),
        (_, Type::Optional(q)) => {
            if !matches!(pat, Type::Optional(_)) {
                unify_soft(pat, q, tparams, bindings);
            }
        },
        _ => {},
    }
}

/// Soft unification never changes a binding already made.
pub proof fn lemma_unify_soft_keeps(pat: TypeV, got: TypeV, tp: Seq<Seq<char>>, b: BindingsV, n: Seq<char>)
    requires
        bind_get(b, n) is Some,
    ensures
        bind_get(unify_soft_spec(pat, got, tp, b), n) == bind_get(b, n),
    decreases pat, got,
{
    if pat is Named && tp.contains(pat->Named_0) {
        if bind_get(b, pat->Named_0) is None {
            lemma_bind_get_push(b, pat->Named_0, got, n);
        }
    } else {
        match (pat, got) {
            (TypeV::Generic(a, p), TypeV::Generic(c, q)) => if a == c {
                lemma_unify_soft_keeps(*p, *q, tp, b, n);
            },
            (TypeV::Optional(p), TypeV::Optional(q)) => lemma_unify_soft_keeps(*p, *q, tp, b, n),
            (TypeV::Pointer(p), TypeV::Pointer(q)) => lemma_unify_soft_keeps(*p, *q, tp, b, n),
            (_, TypeV::Optional(q)) => if !(pat is Optional) {
                lemma_unify_soft_keeps(pat, *q, tp, b, n);
            },
            _ => {},
        }
    }
}

/// Does this type mention a type parameter that has no binding yet?
pub open spec fn mentions_unbound_spec(t: TypeV, tp: Seq<Seq<char>>, b: BindingsV) -> bool
    decreases t,
{
    match t {
        TypeV::Named(n) => tp.contains(n) && bind_get(b, n) is None,
        TypeV::Generic(_, p) => mentions_unbound_spec(*p, tp, b),
        TypeV::Optional(p) => mentions_unbound_spec(*p, tp, b),
        TypeV::Pointer(p) => mentions_unbound_spec(*p, tp, b),
    }
}

pub fn mentions_unbound(ty: &Type, tparams: &[String], bindings: &[(String, Type)]) -> (r: bool)
    ensures
        r == mentions_unbound_spec(ty@, names_view(tparams@), bindings_view(bindings@)),
    decreases ty,
{
    match ty {
        Type::Named(n) => contains_name(tparams, n) && find_binding(bindings, n).is_none(),
        Type::Generic(_, p) | Type::Optional(p) | Type::Pointer(p) => mentions_unbound(p, tparams, bindings),
    }
}

/// Once no parameter of `t` is unbound, substitution leaves no type
/// parameter behind: every name in the result that is a parameter came from
/// a binding. (Stated as: substituting twice changes nothing when bound
/// types themselves mention no parameter.)
pub open spec fn mentions_param(t: TypeV, tp: Seq<Seq<char>>) -> bool
    decreases t,
{
    match t {
        TypeV::Named(n) => tp.contains(n),
        TypeV::Generic(_, p) => mentions_param(*p, tp),
        TypeV::Optional(p) => mentions_param(*p, tp),
        TypeV::Pointer(p) => mentions_param(*p, tp),
    }
}

proof fn lemma_bind_get_in(b: BindingsV, n: Seq<char>)
    ensures
        bind_get(b, n) matches Some(t) ==> exists|i: int| 0 <= i < b.len() && b[i].1 == t,
    decreases b.len(),
{
    if b.len() > 0 && b[0].0 != n {
        lemma_bind_get_in(b.drop_first(), n);
        if let Some(t) = bind_get(b, n) {
            let i = choose|i: int| 0 <= i < b.drop_first().len() && b.drop_first()[i].1 == t;
            assert(b[i + 1].1 == t);
        }
    }
}

/// When every parameter of `t` is bound to a parameter-free type, the
/// substituted type mentions no type parameter.
pub proof fn lemma_subst_closes(t: TypeV, tp: Seq<Seq<char>>, b: BindingsV)
    requires
        !mentions_unbound_spec(t, tp, b),
        forall|i: int| 0 <= i < b.len() ==> !mentions_param(#[trigger] b[i].1, tp),
    ensures
        !mentions_param(subst_spec(t, b), tp),
    decreases t,
{
    match t {
        TypeV::Named(n) => {
            lemma_bind_get_in(b, n);
        },
        TypeV::Generic(_, p) => lemma_subst_closes(*p, tp, b),
        TypeV::Optional(p) => lemma_subst_closes(*p, tp, b),
        TypeV::Pointer(p) => lemma_subst_closes(*p, tp, b),
    }
}

} // verus!

verus! {

pub type ScopeV = Seq<(Seq<char>, TypeV, bool)>;

pub open spec fn scope_view(s: Seq<(String, Type, bool)>) -> ScopeV {
    s.map_values(|e: (String, Type, bool)| (e.0@, e.1@, e.2))
}

/// The entry for `n` in one scope.
pub open spec fn scope_get(sc: ScopeV, n: Seq<char>) -> Option<(TypeV, bool)>
    decreases sc.len(),
{
    if sc.len() == 0 {
        None
    } else if sc[0].0 == n {
        Some((sc[0].1, sc[0].2))
    } else {
        scope_get(sc.drop_first(), n)
    }
}

/// The innermost declaration of `n`: its type and whether it is constant.
pub open spec fn env_get(scopes: Seq<ScopeV>, n: Seq<char>) -> Option<(TypeV, bool)>
    decreases scopes.len(),
{
    if scopes.len() == 0 {
        None
    } else {
        match scope_get(scopes.last(), n) {
            Some(x) => Some(x),
            None => env_get(scopes.drop_last(), n),
        }
    }
}

/// How deep the scope holding `n` is (0 = outermost).
pub open spec fn env_depth(scopes: Seq<ScopeV>, n: Seq<char>) -> Option<nat>
    decreases scopes.len(),
{
    if scopes.len() == 0 {
        None
    } else if scope_get(scopes.last(), n) is Some {
        Some((scopes.len() - 1) as nat)
    } else {
        env_depth(scopes.drop_last(), n)
    }
}

/// Lexical scopes: name -> (type, is_const).
#[derive(Debug)]
pub struct Env {
    scopes: Vec<Vec<(String, Type, bool)>>,
}

impl Env {
    pub closed spec fn view_scopes(&self) -> Seq<ScopeV> {
        self.scopes@.map_values(|s: Vec<(String, Type, bool)>| scope_view(s@))
    }

    pub fn new() -> (e: Env)
        ensures
            e.view_scopes() == seq![Seq::<(Seq<char>, TypeV, bool)>::empty()],
    {
        let mut scopes: Vec<Vec<(String, Type, bool)>> = Vec::new();
        let first: Vec<(String, Type, bool)> = Vec::new();
        assert(scope_view(first@) =~= Seq::empty());
        scopes.push(first);
        let e = Env { scopes };
        assert(e.view_scopes() =~= seq![Seq::<(Seq<char>, TypeV, bool)>::empty()]);
        e
    }

    pub fn push(&mut self)
        ensures
            final(self).view_scopes() == old(self).view_scopes().push(Seq::empty()),
    {
        let fresh: Vec<(String, Type, bool)> = Vec::new();
        assert(scope_view(fresh@) =~= Seq::empty());
        self.scopes.push(fresh);
        assert(self.view_scopes() =~= old(self).view_scopes().push(Seq::empty()));
    }

    pub fn pop(&mut self)
        ensures
            final(self).view_scopes() == (if old(self).view_scopes().len() > 0 {
                old(self).view_scopes().drop_last()
            } else {
                old(self).view_scopes()
            }),
    {
        let _ = self.scopes.pop();
        assert(self.view_scopes() =~= (if old(self).view_scopes().len() > 0 {
            old(self).view_scopes().drop_last()
        } else {
            old(self).view_scopes()
        }));
    }

    fn find_in(scope: &Vec<(String, Type, bool)>, name: &str) -> (r: Option<usize>)
        ensures
            match scope_get(scope_view(scope@), name@) {
                Some((t, c)) => r matches Some(i) && i < scope@.len() && scope@[i as int].1@ == t
                    && scope@[i as int].2 == c,
                None => r is None,
            },
    {
        let mut i: usize = 0;
        assert(scope_view(scope@).skip(0) == scope_view(scope@));
        while i < scope.len()
            invariant
                i <= scope@.len(),
                scope_get(scope_view(scope@), name@) == scope_get(scope_view(scope@).skip(i as int), name@),
            decreases scope@.len() - i,
        {
            let ghost rest = scope_view(scope@).skip(i as int);
            assert(rest.drop_first() == scope_view(scope@).skip(i + 1));
            if str_eq(scope[i].0.as_str(), name) {
                return Some(i);
            }
            i += 1;
        }
        None
    }

    /// Declare `name` in the innermost scope; false when that scope already
    /// holds it (nothing changes then).
    pub fn declare(&mut self, name: &str, ty: Type, is_const: bool) -> (ok: bool)
        requires
            old(self).view_scopes().len() > 0,
        ensures
            ok == (scope_get(old(self).view_scopes().last(), name@) is None),
            ok ==> final(self).view_scopes() == old(self).view_scopes().update(
                old(self).view_scopes().len() - 1,
                old(self).view_scopes().last().push((name@, ty@, is_const)),
            ),
            !ok ==> final(self).view_scopes() == old(self).view_scopes(),
    {
        let last = self.scopes.len() - 1;
        if Self::find_in(&self.scopes[last], name).is_some() {
            return false;
        }
        let ghost old_scopes = self.view_scopes();
        let mut top = match self.scopes.pop() {
            Some(t) => t,
            None => Vec::new(),
        };
        let ghost top_before = scope_view(top@);
        assert(top_before == old_scopes.last());
        let ghost tyv = ty@;
        top.push((lit_string(name), ty, is_const));
        assert(scope_view(top@) =~= top_before.push((name@, tyv, is_const)));
        self.scopes.push(top);
        assert(self.view_scopes() =~= old_scopes.update(
            old_scopes.len() - 1,
            old_scopes.last().push((name@, tyv, is_const)),
        ));
        true
    }

    /// The innermost declaration of `name`.
    pub fn lookup(&self, name: &str) -> (r: Option<(Type, bool)>)
        ensures
            match env_get(self.view_scopes(), name@) {
                Some((t, c)) => r matches Some(x) && x.0@ == t && x.1 == c,
                None => r is None,
            },
    {
        let mut i = self.scopes.len();
        assert(self.view_scopes().subrange(0, i as int) == self.view_scopes());
        while i > 0
            invariant
                i <= self.scopes@.len(),
                env_get(self.view_scopes(), name@) == env_get(self.view_scopes().subrange(0, i as int), name@),
            decreases i,
        {
            let ghost sub = self.view_scopes().subrange(0, i as int);
            assert(sub.drop_last() == self.view_scopes().subrange(0, i - 1));
            assert(sub.last() == scope_view(self.scopes@[i - 1]@));
            match Self::find_in(&self.scopes[i - 1], name) {
                Some(j) => {
                    return Some((self.scopes[i - 1][j].1.copy(), self.scopes[i - 1][j].2));
                },
                None => {},
            }
            i -= 1;
        }
        None
    }

    /// How deep the scope holding `name` is (0 = outermost).
    pub fn lookup_depth(&self, name: &str) -> (r: Option<usize>)
        ensures
            match env_depth(self.view_scopes(), name@) {
                Some(d) => r matches Some(x) && x as nat == d,
                None => r is None,
            },
    {
        let mut i = self.scopes.len();
        assert(self.view_scopes().subrange(0, i as int) == self.view_scopes());
        while i > 0
            invariant
                i <= self.scopes@.len(),
                env_depth(self.view_scopes(), name@) == env_depth(self.view_scopes().subrange(0, i as int), name@),
            decreases i,
        {
            let ghost sub = self.view_scopes().subrange(0, i as int);
            assert(sub.drop_last() == self.view_scopes().subrange(0, i - 1));
            assert(sub.last() == scope_view(self.scopes@[i - 1]@));
            if Self::find_in(&self.scopes[i - 1], name).is_some() {
                return Some(i - 1);
            }
            i -= 1;
        }
        None
    }
}

proof fn lemma_scope_get_push(sc: ScopeV, e: (Seq<char>, TypeV, bool), n: Seq<char>)
    ensures
        scope_get(sc.push(e), n) == (match scope_get(sc, n) {
            Some(x) => Some(x),
            None => if e.0 == n { Some((e.1, e.2)) } else { None },
        }),
    decreases sc.len(),
{
    if sc.len() == 0 {
        assert(sc.push(e).drop_first() == Seq::<(Seq<char>, TypeV, bool)>::empty());
    } else {
        assert(sc.push(e).drop_first() == sc.drop_first().push(e));
        lemma_scope_get_push(sc.drop_first(), e, n);
    }
}

/// A successful declaration is what a lookup of the name finds next, in
/// the innermost scope.
pub proof fn lemma_declare_then_lookup(scopes: Seq<ScopeV>, name: Seq<char>, ty: TypeV, is_const: bool)
    requires
        scopes.len() > 0,
        scope_get(scopes.last(), name) is None,
    ensures
        ({
            let after = scopes.update(scopes.len() - 1, scopes.last().push((name, ty, is_const)));
            &&& env_get(after, name) == Some((ty, is_const))
            &&& env_depth(after, name) == Some((scopes.len() - 1) as nat)
        }),
{
    let after = scopes.update(scopes.len() - 1, scopes.last().push((name, ty, is_const)));
    lemma_scope_get_push(scopes.last(), (name, ty, is_const), name);
    assert(after.last() == scopes.last().push((name, ty, is_const)));
}

/// Leaving a scope forgets exactly what was declared in it: after entering
/// a fresh scope and leaving it, every lookup is as before.
pub proof fn lemma_push_pop_restores(scopes: Seq<ScopeV>, name: Seq<char>)
    ensures
        scopes.push(Seq::empty()).drop_last() == scopes,
{
}

} // verus!

verus! {

/// The intrinsic table: parameter types and result type of each `@name`.
pub open spec fn intrinsic_sig_spec(name: Seq<char>) -> Option<(Seq<TypeV>, TypeV)> {
    if name == "i64_add"@ || name == "i64_sub"@ || name == "i64_mul"@ || name == "i64_divtrunc"@ || name == "i64_mod"@ {
        Some((seq![TypeV::Named("Integer"@), TypeV::Named("Integer"@)], TypeV::Named("Integer"@)))
    } else if name == "i64_neg"@ {
        Some((seq![TypeV::Named("Integer"@)], TypeV::Named("Integer"@)))
    } else if name == "i64_eq"@ || name == "i64_lt"@ {
        Some((seq![TypeV::Named("Integer"@), TypeV::Named("Integer"@)], TypeV::Named("Bool"@)))
    } else if name == "i64_to_f64"@ {
        Some((seq![TypeV::Named("Integer"@)], TypeV::Named("Float"@)))
    } else if name == "i64_to_string"@ {
        Some((seq![TypeV::Named("Integer"@)], TypeV::Named("String"@)))
    } else if name == "i64_to_char"@ {
        Some((seq![TypeV::Named("Integer"@)], TypeV::Named("Char"@)))
    } else if name == "f64_add"@ || name == "f64_sub"@ || name == "f64_mul"@ || name == "f64_div"@ {
        Some((seq![TypeV::Named("Float"@), TypeV::Named("Float"@)], TypeV::Named("Float"@)))
    } else if name == "f64_neg"@ {
        Some((seq![TypeV::Named("Float"@)], TypeV::Named("Float"@)))
    } else if name == "f64_eq"@ || name == "f64_lt"@ {
        Some((seq![TypeV::Named("Float"@), TypeV::Named("Float"@)], TypeV::Named("Bool"@)))
    } else if name == "f64_to_i64"@ {
        Some((seq![TypeV::Named("Float"@)], TypeV::Named("Integer"@)))
    } else if name == "f64_to_string"@ {
        Some((seq![TypeV::Named("Float"@)], TypeV::Named("String"@)))
    } else if name == "bool_eq"@ {
        Some((seq![TypeV::Named("Bool"@), TypeV::Named("Bool"@)], TypeV::Named("Bool"@)))
    } else if name == "char_eq"@ || name == "char_lt"@ {
        Some((seq![TypeV::Named("Char"@), TypeV::Named("Char"@)], TypeV::Named("Bool"@)))
    } else if name == "char_to_i64"@ {
        Some((seq![TypeV::Named("Char"@)], TypeV::Named("Integer"@)))
    } else if name == "char_to_string"@ {
        Some((seq![TypeV::Named("Char"@)], TypeV::Named("String"@)))
    } else if name == "exc_msg"@ {
        Some((seq![TypeV::Named("Exception"@)], TypeV::Named("String"@)))
    } else if name == "str_len"@ {
        Some((seq![TypeV::Named("String"@)], TypeV::Named("Integer"@)))
    } else if name == "str_byte"@ {
        Some((seq![TypeV::Named("String"@), TypeV::Named("Integer"@)], TypeV::Named("Char"@)))
    } else if name == "str_concat"@ {
        Some((seq![TypeV::Named("String"@), TypeV::Named("String"@)], TypeV::Named("String"@)))
    } else if name == "str_eq"@ || name == "str_lt"@ {
        Some((seq![TypeV::Named("String"@), TypeV::Named("String"@)], TypeV::Named("Bool"@)))
    } else if name == "str_slice"@ {
        Some((seq![TypeV::Named("String"@), TypeV::Named("Integer"@), TypeV::Named("Integer"@)], TypeV::Named("String"@)))
    } else if name == "str_from_buf"@ {
        Some((seq![TypeV::Generic("RawBuffer"@, Box::new(TypeV::Named("Char"@))), TypeV::Named("Integer"@)], TypeV::Named("String"@)))
    } else if name == "str_to_i64"@ {
        Some((seq![TypeV::Named("String"@)], TypeV::Optional(Box::new(TypeV::Named("Integer"@)))))
    } else if name == "str_to_f64"@ {
        Some((seq![TypeV::Named("String"@)], TypeV::Optional(Box::new(TypeV::Named("Float"@)))))
    } else if name == "f64_sqrt"@ || name == "f64_cbrt"@ || name == "f64_exp"@ || name == "f64_log"@ || name == "f64_log2"@ || name == "f64_log10"@ || name == "f64_sin"@ || name == "f64_cos"@ || name == "f64_tan"@ || name == "f64_asin"@ || name == "f64_acos"@ || name == "f64_atan"@ {
        Some((seq![TypeV::Named("Float"@)], TypeV::Named("Float"@)))
    } else if name == "f64_hypot"@ || name == "f64_atan2"@ || name == "f64_fmod"@ || name == "f64_pow"@ {
        Some((seq![TypeV::Named("Float"@), TypeV::Named("Float"@)], TypeV::Named("Float"@)))
    } else if name == "f64_is_nan"@ || name == "f64_is_inf"@ || name == "f64_is_finite"@ {
        Some((seq![TypeV::Named("Float"@)], TypeV::Named("Bool"@)))
    } else if name == "i64_and"@ || name == "i64_or"@ || name == "i64_xor"@ || name == "i64_shl"@ || name == "i64_shr"@ {
        Some((seq![TypeV::Named("Integer"@), TypeV::Named("Integer"@)], TypeV::Named("Integer"@)))
    } else if name == "i64_not"@ {
        Some((seq![TypeV::Named("Integer"@)], TypeV::Named("Integer"@)))
    } else if name == "print_string"@ {
        Some((seq![TypeV::Named("String"@)], TypeV::Named("None"@)))
    } else if name == "print_err"@ {
        Some((seq![TypeV::Named("String"@)], TypeV::Named("None"@)))
    } else if name == "read_line"@ {
        Some((seq![], TypeV::Optional(Box::new(TypeV::Named("String"@)))))
    } else if name == "read_file"@ {
        Some((seq![TypeV::Named("String"@)], TypeV::Optional(Box::new(TypeV::Named("String"@)))))
    } else if name == "write_file"@ || name == "append_file"@ {
        Some((seq![TypeV::Named("String"@), TypeV::Named("String"@)], TypeV::Optional(Box::new(TypeV::Named("Integer"@)))))
    } else if name == "file_exists"@ {
        Some((seq![TypeV::Named("String"@)], TypeV::Named("Bool"@)))
    } else if name == "panic"@ {
        Some((seq![TypeV::Named("String"@)], TypeV::Named("None"@)))
    } else {
        None
    }
}

pub open spec fn types_view(v: Seq<Type>) -> Seq<TypeV> {
    v.map_values(|t: Type| t@)
}

fn sig_of(params: Vec<Type>, ret: Type) -> (r: Option<(Vec<Type>, Type)>)
    ensures
        r matches Some(x) && types_view(x.0@) == types_view(params@) && x.1@ == ret@,
{
    Some((params, ret))
}

/// The intrinsic table — what each `@name` takes and returns.
pub fn intrinsic_sig(name: &str) -> (r: Option<(Vec<Type>, Type)>)
    ensures
        match intrinsic_sig_spec(name@) {
            Some((ps, ret)) => r matches Some(x) && types_view(x.0@) == ps && x.1@ == ret,
            None => r is None,
        },
{
    if str_eq(name, "i64_add") || str_eq(name, "i64_sub") || str_eq(name, "i64_mul") || str_eq(name, "i64_divtrunc") || str_eq(name, "i64_mod") {
        let mut ps: Vec<Type> = Vec::new();
        ps.push(Type::named("Integer"));
        ps.push(Type::named("Integer"));
        let ret = Type::named("Integer");
        let ghost want = seq![TypeV::Named("Integer"@), TypeV::Named("Integer"@)];
        assert(types_view(ps@) =~= want);
        sig_of(ps, ret)
    } else if str_eq(name, "i64_neg") {
        let mut ps: Vec<Type> = Vec::new();
        ps.push(Type::named("Integer"));
        let ret = Type::named("Integer");
        let ghost want = seq![TypeV::Named("Integer"@)];
        assert(types_view(ps@) =~= want);
        sig_of(ps, ret)
    } else if str_eq(name, "i64_eq") || str_eq(name, "i64_lt") {
        let mut ps: Vec<Type> = Vec::new();
        ps.push(Type::named("Integer"));
        ps.push(Type::named("Integer"));
        let ret = Type::named("Bool");
        let ghost want = seq![TypeV::Named("Integer"@), TypeV::Named("Integer"@)];
        assert(types_view(ps@) =~= want);
        sig_of(ps, ret)
    } else if str_eq(name, "i64_to_f64") {
        let mut ps: Vec<Type> = Vec::new();
        ps.push(Type::named("Integer"));
        let ret = Type::named("Float");
        let ghost want = seq![TypeV::Named("Integer"@)];
        assert(types_view(ps@) =~= want);
        sig_of(ps, ret)
    } else if str_eq(name, "i64_to_string") {
        let mut ps: Vec<Type> = Vec::new();
        ps.push(Type::named("Integer"));
        let ret = Type::named("String");
        let ghost want = seq![TypeV::Named("Integer"@)];
        assert(types_view(ps@) =~= want);
        sig_of(ps, ret)
    } else if str_eq(name, "i64_to_char") {
        let mut ps: Vec<Type> = Vec::new();
        ps.push(Type::named("Integer"));
        let ret = Type::named("Char");
        let ghost want = seq![TypeV::Named("Integer"@)];
        assert(types_view(ps@) =~= want);
        sig_of(ps, ret)
    } else if str_eq(name, "f64_add") || str_eq(name, "f64_sub") || str_eq(name, "f64_mul") || str_eq(name, "f64_div") {
        let mut ps: Vec<Type> = Vec::new();
        ps.push(Type::named("Float"));
        ps.push(Type::named("Float"));
        let ret = Type::named("Float");
        let ghost want = seq![TypeV::Named("Float"@), TypeV::Named("Float"@)];
        assert(types_view(ps@) =~= want);
        sig_of(ps, ret)
    } else if str_eq(name, "f64_neg") {
        let mut ps: Vec<Type> = Vec::new();
        ps.push(Type::named("Float"));
        let ret = Type::named("Float");
        let ghost want = seq![TypeV::Named("Float"@)];
        assert(types_view(ps@) =~= want);
        sig_of(ps, ret)
    } else if str_eq(name, "f64_eq") || str_eq(name, "f64_lt") {
        let mut ps: Vec<Type> = Vec::new();
        ps.push(Type::named("Float"));
        ps.push(Type::named("Float"));
        let ret = Type::named("Bool");
        let ghost want = seq![TypeV::Named("Float"@), TypeV::Named("Float"@)];
        assert(types_view(ps@) =~= want);
        sig_of(ps, ret)
    } else if str_eq(name, "f64_to_i64") {
        let mut ps: Vec<Type> = Vec::new();
        ps.push(Type::named("Float"));
        let ret = Type::named("Integer");
        let ghost want = seq![TypeV::Named("Float"@)];
        assert(types_view(ps@) =~= want);
        sig_of(ps, ret)
    } else if str_eq(name, "f64_to_string") {
        let mut ps: Vec<Type> = Vec::new();
        ps.push(Type::named("Float"));
        let ret = Type::named("String");
        let ghost want = seq![TypeV::Named("Float"@)];
        assert(types_view(ps@) =~= want);
        sig_of(ps, ret)
    } else if str_eq(name, "bool_eq") {
        let mut ps: Vec<Type> = Vec::new();
        ps.push(Type::named("Bool"));
        ps.push(Type::named("Bool"));
        let ret = Type::named("Bool");
        let ghost want = seq![TypeV::Named("Bool"@), TypeV::Named("Bool"@)];
        assert(types_view(ps@) =~= want);
        sig_of(ps, ret)
    } else if str_eq(name, "char_eq") || str_eq(name, "char_lt") {
        let mut ps: Vec<Type> = Vec::new();
        ps.push(Type::named("Char"));
        ps.push(Type::named("Char"));
        let ret = Type::named("Bool");
        let ghost want = seq![TypeV::Named("Char"@), TypeV::Named("Char"@)];
        assert(types_view(ps@) =~= want);
        sig_of(ps, ret)
    } else if str_eq(name, "char_to_i64") {
        let mut ps: Vec<Type> = Vec::new();
        ps.push(Type::named("Char"));
        let ret = Type::named("Integer");
        let ghost want = seq![TypeV::Named("Char"@)];
        assert(types_view(ps@) =~= want);
        sig_of(ps, ret)
    } else if str_eq(name, "char_to_string") {
        let mut ps: Vec<Type> = Vec::new();
        ps.push(Type::named("Char"));
        let ret = Type::named("String");
        let ghost want = seq![TypeV::Named("Char"@)];
        assert(types_view(ps@) =~= want);
        sig_of(ps, ret)
    } else if str_eq(name, "exc_msg") {
        let mut ps: Vec<Type> = Vec::new();
        ps.push(Type::named("Exception"));
        let ret = Type::named("String");
        let ghost want = seq![TypeV::Named("Exception"@)];
        assert(types_view(ps@) =~= want);
        sig_of(ps, ret)
    } else if str_eq(name, "str_len") {
        let mut ps: Vec<Type> = Vec::new();
        ps.push(Type::named("String"));
        let ret = Type::named("Integer");
        let ghost want = seq![TypeV::Named("String"@)];
        assert(types_view(ps@) =~= want);
        sig_of(ps, ret)
    } else if str_eq(name, "str_byte") {
        let mut ps: Vec<Type> = Vec::new();
        ps.push(Type::named("String"));
        ps.push(Type::named("Integer"));
        let ret = Type::named("Char");
        let ghost want = seq![TypeV::Named("String"@), TypeV::Named("Integer"@)];
        assert(types_view(ps@) =~= want);
        sig_of(ps, ret)
    } else if str_eq(name, "str_concat") {
        let mut ps: Vec<Type> = Vec::new();
        ps.push(Type::named("String"));
        ps.push(Type::named("String"));
        let ret = Type::named("String");
        let ghost want = seq![TypeV::Named("String"@), TypeV::Named("String"@)];
        assert(types_view(ps@) =~= want);
        sig_of(ps, ret)
    } else if str_eq(name, "str_eq") || str_eq(name, "str_lt") {
        let mut ps: Vec<Type> = Vec::new();
        ps.push(Type::named("String"));
        ps.push(Type::named("String"));
        let ret = Type::named("Bool");
        let ghost want = seq![TypeV::Named("String"@), TypeV::Named("String"@)];
        assert(types_view(ps@) =~= want);
        sig_of(ps, ret)
    } else if str_eq(name, "str_slice") {
        let mut ps: Vec<Type> = Vec::new();
        ps.push(Type::named("String"));
        ps.push(Type::named("Integer"));
        ps.push(Type::named("Integer"));
        let ret = Type::named("String");
        let ghost want = seq![TypeV::Named("String"@), TypeV::Named("Integer"@), TypeV::Named("Integer"@)];
        assert(types_view(ps@) =~= want);
        sig_of(ps, ret)
    } else if str_eq(name, "str_from_buf") {
        let mut ps: Vec<Type> = Vec::new();
        ps.push(Type::Generic(lit_string("RawBuffer"), Box::new(Type::named("Char"))));
        ps.push(Type::named("Integer"));
        let ret = Type::named("String");
        let ghost want = seq![TypeV::Generic("RawBuffer"@, Box::new(TypeV::Named("Char"@))), TypeV::Named("Integer"@)];
        assert(types_view(ps@) =~= want);
        sig_of(ps, ret)
    } else if str_eq(name, "str_to_i64") {
        let mut ps: Vec<Type> = Vec::new();
        ps.push(Type::named("String"));
        let ret = Type::Optional(Box::new(Type::named("Integer")));
        let ghost want = seq![TypeV::Named("String"@)];
        assert(types_view(ps@) =~= want);
        sig_of(ps, ret)
    } else if str_eq(name, "str_to_f64") {
        let mut ps: Vec<Type> = Vec::new();
        ps.push(Type::named("String"));
        let ret = Type::Optional(Box::new(Type::named("Float")));
        let ghost want = seq![TypeV::Named("String"@)];
        assert(types_view(ps@) =~= want);
        sig_of(ps, ret)
    } else if str_eq(name, "f64_sqrt") || str_eq(name, "f64_cbrt") || str_eq(name, "f64_exp") || str_eq(name, "f64_log") || str_eq(name, "f64_log2") || str_eq(name, "f64_log10") || str_eq(name, "f64_sin") || str_eq(name, "f64_cos") || str_eq(name, "f64_tan") || str_eq(name, "f64_asin") || str_eq(name, "f64_acos") || str_eq(name, "f64_atan") {
        let mut ps: Vec<Type> = Vec::new();
        ps.push(Type::named("Float"));
        let ret = Type::named("Float");
        let ghost want = seq![TypeV::Named("Float"@)];
        assert(types_view(ps@) =~= want);
        sig_of(ps, ret)
    } else if str_eq(name, "f64_hypot") || str_eq(name, "f64_atan2") || str_eq(name, "f64_fmod") || str_eq(name, "f64_pow") {
        let mut ps: Vec<Type> = Vec::new();
        ps.push(Type::named("Float"));
        ps.push(Type::named("Float"));
        let ret = Type::named("Float");
        let ghost want = seq![TypeV::Named("Float"@), TypeV::Named("Float"@)];
        assert(types_view(ps@) =~= want);
        sig_of(ps, ret)
    } else if str_eq(name, "f64_is_nan") || str_eq(name, "f64_is_inf") || str_eq(name, "f64_is_finite") {
        let mut ps: Vec<Type> = Vec::new();
        ps.push(Type::named("Float"));
        let ret = Type::named("Bool");
        let ghost want = seq![TypeV::Named("Float"@)];
        assert(types_view(ps@) =~= want);
        sig_of(ps, ret)
    } else if str_eq(name, "i64_and") || str_eq(name, "i64_or") || str_eq(name, "i64_xor") || str_eq(name, "i64_shl") || str_eq(name, "i64_shr") {
        let mut ps: Vec<Type> = Vec::new();
        ps.push(Type::named("Integer"));
        ps.push(Type::named("Integer"));
        let ret = Type::named("Integer");
        let ghost want = seq![TypeV::Named("Integer"@), TypeV::Named("Integer"@)];
        assert(types_view(ps@) =~= want);
        sig_of(ps, ret)
    } else if str_eq(name, "i64_not") {
        let mut ps: Vec<Type> = Vec::new();
        ps.push(Type::named("Integer"));
        let ret = Type::named("Integer");
        let ghost want = seq![TypeV::Named("Integer"@)];
        assert(types_view(ps@) =~= want);
        sig_of(ps, ret)
    } else if str_eq(name, "print_string") {
        let mut ps: Vec<Type> = Vec::new();
        ps.push(Type::named("String"));
        let ret = Type::named("None");
        let ghost want = seq![TypeV::Named("String"@)];
        assert(types_view(ps@) =~= want);
        sig_of(ps, ret)
    } else if str_eq(name, "print_err") {
        let mut ps: Vec<Type> = Vec::new();
        ps.push(Type::named("String"));
        let ret = Type::named("None");
        let ghost want = seq![TypeV::Named("String"@)];
        assert(types_view(ps@) =~= want);
        sig_of(ps, ret)
    } else if str_eq(name, "read_line") {
        let mut ps: Vec<Type> = Vec::new();
        let ret = Type::Optional(Box::new(Type::named("String")));
        let ghost want = seq![];
        assert(types_view(ps@) =~= want);
        sig_of(ps, ret)
    } else if str_eq(name, "read_file") {
        let mut ps: Vec<Type> = Vec::new();
        ps.push(Type::named("String"));
        let ret = Type::Optional(Box::new(Type::named("String")));
        let ghost want = seq![TypeV::Named("String"@)];
        assert(types_view(ps@) =~= want);
        sig_of(ps, ret)
    } else if str_eq(name, "write_file") || str_eq(name, "append_file") {
        let mut ps: Vec<Type> = Vec::new();
        ps.push(Type::named("String"));
        ps.push(Type::named("String"));
        let ret = Type::Optional(Box::new(Type::named("Integer")));
        let ghost want = seq![TypeV::Named("String"@), TypeV::Named("String"@)];
        assert(types_view(ps@) =~= want);
        sig_of(ps, ret)
    } else if str_eq(name, "file_exists") {
        let mut ps: Vec<Type> = Vec::new();
        ps.push(Type::named("String"));
        let ret = Type::named("Bool");
        let ghost want = seq![TypeV::Named("String"@)];
        assert(types_view(ps@) =~= want);
        sig_of(ps, ret)
    } else if str_eq(name, "panic") {
        let mut ps: Vec<Type> = Vec::new();
        ps.push(Type::named("String"));
        let ret = Type::named("None");
        let ghost want = seq![TypeV::Named("String"@)];
        assert(types_view(ps@) =~= want);
        sig_of(ps, ret)
    } else {
        None
    }
}

} // verus!
