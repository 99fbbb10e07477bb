//! Checks on written types and jim's optional coercions.

use vstd::prelude::*;
use crate::ast::{display_spec, ClassDecl, ClassDeclV, Expr, ExprKind, ExprKindV, ExprV, FieldDeclV, MethodDeclV, Type, TypeV, fields_v, methods_v, names_v, params_v, types_v};
use crate::reach::has_name;
use crate::sema::{class_key_spec, contains_pointer, contains_pointer_spec, opt_payload, opt_payload_spec};
use crate::text::{framed, lit_string, str_eq};

verus! {

/// `T?` as a value: insert the unwrap-or-panic so it becomes a `T`.
pub open spec fn deopt_spec(e: ExprV, t: TypeV) -> (ExprV, TypeV) {
    match opt_payload_spec(t) {
        Some(inner) => (ExprV { kind: ExprKindV::OptUnwrap { payload: inner, expr: Box::new(e) }, line: e.line, col: e.col }, inner),
        None => (e, t),
    }
}

/// If the value is a `T?`, unwrap it (panicking on None at run time).
pub fn deopt(pair: (Expr, Type)) -> (r: (Expr, Type))
    ensures
        (r.0@, r.1@) == deopt_spec(pair.0@, pair.1@),
{
    match opt_payload(&pair.1) {
        Some(inner) => {
            let (e, _) = pair;
            let line = e.line;
            let col = e.col;
            let payload = inner.copy();
            (Expr { kind: ExprKind::OptUnwrap { payload, expr: Box::new(e) }, line, col }, inner)
        },
        None => pair,
    }
}

/// jim's coercions of a value of type `t` to `want`: an exact match, `T`
/// to `T?` (a wrap, always safe), or `T?` to `T` (an unwrap, checked at run
/// time); `None` for anything else.
pub open spec fn coerce_spec(e: ExprV, t: TypeV, want: TypeV) -> Option<ExprV> {
    if t == want {
        Some(e)
    } else if opt_payload_spec(want) is Some && t == opt_payload_spec(want)->0 {
        Some(ExprV { kind: ExprKindV::OptWrap { payload: t, expr: Box::new(e) }, line: e.line, col: e.col })
    } else if opt_payload_spec(t) is Some && want == opt_payload_spec(t)->0 {
        Some(ExprV { kind: ExprKindV::OptUnwrap { payload: want, expr: Box::new(e) }, line: e.line, col: e.col })
    } else {
        None
    }
}

/// Coerce a typed value to `want`; a mismatch hands the value back so the
/// caller can word its own error.
pub fn try_coerce(pair: (Expr, Type), want: &Type) -> (r: Result<Expr, (Expr, Type)>)
    ensures
        match coerce_spec(pair.0@, pair.1@, want@) {
            Some(x) => r matches Ok(y) && y@ == x,
            None => r matches Err((e, t)) && e@ == pair.0@ && t@ == pair.1@,
        },
{
    if pair.1.same(want) {
        return Ok(pair.0);
    }
    match opt_payload(want) {
        Some(payload) => {
            if pair.1.same(&payload) {
                let (e, _) = pair;
                let line = e.line;
                let col = e.col;
                return Ok(Expr { kind: ExprKind::OptWrap { payload, expr: Box::new(e) }, line, col });
            }
        },
        None => {},
    }
    match opt_payload(&pair.1) {
        Some(payload) => {
            if want.same(&payload) {
                let (e, _) = pair;
                let line = e.line;
                let col = e.col;
                return Ok(Expr { kind: ExprKind::OptUnwrap { payload, expr: Box::new(e) }, line, col });
            }
        },
        None => {},
    }
    Err(pair)
}

/// `a` followed by `b`.
fn suffixed(a: &str, b: &str) -> (s: String)
    ensures
        s@ == a@ + b@,
{
    let mut s = lit_string(a);
    crate::text::push_str(&mut s, b);
    s
}

/// The value classes every program has.
pub open spec fn is_value_class(n: Seq<char>) -> bool {
    n == "Integer"@ || n == "Float"@ || n == "Bool"@ || n == "Char"@ || n == "String"@ || n == "Exception"@
}

fn value_class(n: &str) -> (b: bool)
    ensures
        b == is_value_class(n@),
{
    str_eq(n, "Integer") || str_eq(n, "Float") || str_eq(n, "Bool") || str_eq(n, "Char") || str_eq(n, "String")
        || str_eq(n, "Exception")
}

/// Why a written type is not usable (`None` when it is), given the class
/// keys that exist; `None` may only be a return type.
pub open spec fn unavailable(known: Seq<Seq<char>>, t: TypeV, is_return: bool) -> Option<Seq<char>>
    decreases t,
{
    match t {
        TypeV::Named(n) => if is_value_class(n) {
            None
        } else if n == "None"@ {
            if is_return { None } else { Some("None is only usable as a return type"@) }
        } else if n == "Array"@ || n == "Vector"@ {
            Some(n + "<T> requires a type argument"@)
        } else if n == "RawBuffer"@ {
            Some("RawBuffer is reserved for the standard library"@)
        } else if known.contains(n) {
            None
        } else {
            Some("unknown type '"@ + n + "'"@)
        },
        TypeV::Generic(n, p) => if n == "Array"@ || n == "Vector"@ {
            if contains_pointer_spec(*p) {
                Some("containers of pointers are not allowed (the pointed-to variable may die before the container)"@)
            } else if known.contains(class_key_spec(t)->0) {
                unavailable(known, *p, false)
            } else {
                Some(n + "<T> is not defined (is core.j loaded?)"@)
            }
        } else if n == "RawBuffer"@ {
            if contains_pointer_spec(*p) { Some("buffers of pointers are not allowed"@) } else { None }
        } else {
            Some("'"@ + n + "' is not a generic type â€” only Array<T> and Vector<T> exist"@)
        },
        TypeV::Pointer(inner) => match *inner {
            TypeV::Pointer(_) => Some("**T (pointer to pointer) is not supported"@),
            TypeV::Optional(_) => Some("pointers to optionals are not supported (did you mean '*T?', an optional pointer?)"@),
            _ => unavailable(known, *inner, false),
        },
        TypeV::Optional(inner) => match *inner {
            TypeV::Optional(_) => Some("nested optionals (T??) are not allowed"@),
            TypeV::Generic(g, _) => if g == "RawBuffer"@ {
                Some("RawBuffer? is not allowed"@)
            } else {
                unavailable(known, *inner, false)
            },
            TypeV::Named(x) => if x == "Exception"@ {
                Some("Exception? is not supported"@)
            } else {
                unavailable(known, *inner, false)
            },
            _ => unavailable(known, *inner, false),
        },
    }
}

/// Is a written type usable here? `classes` are the class keys that exist.
pub fn type_available(classes: &Vec<String>, ty: &Type, is_return: bool) -> (r: Result<(), String>)
    ensures
        match unavailable(names_v(classes@), ty@, is_return) {
            None => r is Ok,
            Some(m) => r matches Err(e) && e@ == m,
        },
    decreases ty,
{
    match ty {
        Type::Named(n) => {
            let n = n.as_str();
            if value_class(n) {
                Ok(())
            } else if str_eq(n, "None") {
                if is_return { Ok(()) } else { Err(lit_string("None is only usable as a return type")) }
            } else if str_eq(n, "Array") || str_eq(n, "Vector") {
                Err(suffixed(n, "<T> requires a type argument"))
            } else if str_eq(n, "RawBuffer") {
                Err(lit_string("RawBuffer is reserved for the standard library"))
            } else if has_name(classes, n) {
                Ok(())
            } else {
                Err(framed("unknown type '", n, "'"))
            }
        },
        Type::Generic(n, p) => {
            if str_eq(n.as_str(), "Array") || str_eq(n.as_str(), "Vector") {
                if contains_pointer(p) {
                    return Err(lit_string("containers of pointers are not allowed (the pointed-to variable may die before the container)"));
                }
                let key = ty.display();
                if has_name(classes, key.as_str()) {
                    type_available(classes, p, false)
                } else {
                    Err(suffixed(n.as_str(), "<T> is not defined (is core.j loaded?)"))
                }
            } else if str_eq(n.as_str(), "RawBuffer") {
                if contains_pointer(p) { Err(lit_string("buffers of pointers are not allowed")) } else { Ok(()) }
            } else {
                Err(framed("'", n.as_str(), "' is not a generic type â€” only Array<T> and Vector<T> exist"))
            }
        },
        Type::Pointer(inner) => match &**inner {
            Type::Pointer(_) => Err(lit_string("**T (pointer to pointer) is not supported")),
            Type::Optional(_) => Err(lit_string("pointers to optionals are not supported (did you mean '*T?', an optional pointer?)")),
            _ => type_available(classes, inner, false),
        },
        Type::Optional(inner) => match &**inner {
            Type::Optional(_) => Err(lit_string("nested optionals (T??) are not allowed")),
            Type::Generic(g, _) => {
                if str_eq(g.as_str(), "RawBuffer") {
                    Err(lit_string("RawBuffer? is not allowed"))
                } else {
                    type_available(classes, inner, false)
                }
            },
            Type::Named(x) => {
                if str_eq(x.as_str(), "Exception") {
                    Err(lit_string("Exception? is not supported"))
                } else {
                    type_available(classes, inner, false)
                }
            },
            _ => type_available(classes, inner, false),
        },
    }
}

/// Why a type written in a generic template is not well-formed (`None`
/// when it is): type parameters stand for anything.
pub open spec fn template_error(t: TypeV, tparams: Seq<Seq<char>>, classes: Seq<Seq<char>>) -> Option<Seq<char>>
    decreases t,
{
    match t {
        TypeV::Named(n) => if tparams.contains(n) || is_value_class(n) || n == "None"@ {
            None
        } else if n == "Array"@ || n == "Vector"@ {
            Some(n + "<T> requires a type argument"@)
        } else if n == "RawBuffer"@ {
            Some("RawBuffer is reserved for the standard library"@)
        } else if classes.contains(n) {
            None
        } else {
            Some("unknown type '"@ + n + "'"@)
        },
        TypeV::Generic(n, p) => if n == "Array"@ || n == "Vector"@ || n == "RawBuffer"@ {
            template_error(*p, tparams, classes)
        } else {
            Some("'"@ + n + "' is not a generic type — only Array<T> and Vector<T> exist"@)
        },
        TypeV::Optional(p) => template_error(*p, tparams, classes),
        TypeV::Pointer(p) => template_error(*p, tparams, classes),
    }
}

/// Is a type written in a template well-formed?
pub fn check_template_type(ty: &Type, tparams: &Vec<String>, classes: &Vec<String>) -> (r: Result<(), String>)
    ensures
        match template_error(ty@, names_v(tparams@), names_v(classes@)) {
            None => r is Ok,
            Some(m) => r matches Err(e) && e@ == m,
        },
    decreases ty,
{
    match ty {
        Type::Named(n) => {
            let n = n.as_str();
            if has_name(tparams, n) || value_class(n) || str_eq(n, "None") {
                Ok(())
            } else if str_eq(n, "Array") || str_eq(n, "Vector") {
                Err(suffixed(n, "<T> requires a type argument"))
            } else if str_eq(n, "RawBuffer") {
                Err(lit_string("RawBuffer is reserved for the standard library"))
            } else if has_name(classes, n) {
                Ok(())
            } else {
                Err(framed("unknown type '", n, "'"))
            }
        },
        Type::Generic(n, p) => {
            if str_eq(n.as_str(), "Array") || str_eq(n.as_str(), "Vector") || str_eq(n.as_str(), "RawBuffer") {
                check_template_type(p, tparams, classes)
            } else {
                Err(framed("'", n.as_str(), "' is not a generic type — only Array<T> and Vector<T> exist"))
            }
        },
        Type::Optional(p) => check_template_type(p, tparams, classes),
        Type::Pointer(p) => check_template_type(p, tparams, classes),
    }
}

/// Does a type name only things that exist (value classes, known classes,
/// instances of known templates or buffers)?
pub open spec fn concrete(t: TypeV, classes: Seq<Seq<char>>, templates: Seq<Seq<char>>) -> bool
    decreases t,
{
    match t {
        TypeV::Named(n) => is_value_class(n) || n == "None"@ || classes.contains(n),
        TypeV::Generic(n, p) => (templates.contains(n) || n == "RawBuffer"@) && concrete(*p, classes, templates),
        TypeV::Optional(p) => concrete(*p, classes, templates),
        TypeV::Pointer(p) => concrete(*p, classes, templates),
    }
}

pub fn type_is_concrete(ty: &Type, classes: &Vec<String>, templates: &Vec<String>) -> (b: bool)
    ensures
        b == concrete(ty@, names_v(classes@), names_v(templates@)),
    decreases ty,
{
    match ty {
        Type::Named(n) => value_class(n.as_str()) || str_eq(n.as_str(), "None") || has_name(classes, n.as_str()),
        Type::Generic(n, p) => (has_name(templates, n.as_str()) || str_eq(n.as_str(), "RawBuffer"))
            && type_is_concrete(p, classes, templates),
        Type::Optional(p) => type_is_concrete(p, classes, templates),
        Type::Pointer(p) => type_is_concrete(p, classes, templates),
    }
}

/// What kind of class a class-table entry is.
#[derive(Clone, Copy, Debug, PartialEq, Eq, Structural)]
pub enum ClassKind {
    /// Integer/Float/Bool/Char/String: value classes, methods only.
    CoreValue,
    /// A user reference class (arena-allocated).
    UserRef,
    /// A monomorphized Array<T>/Vector<T> instantiation.
    Container,
    /// A RawBuffer<T> instantiation (compiler-provided, std-only creation).
    RawBuf,
}

/// A method's signature in the class table.
#[derive(Debug)]
pub struct MethodSig {
    pub params: Vec<Type>,
    pub ret: Type,
    pub is_public: bool,
}

/// A field in the class table.
#[derive(Debug)]
pub struct FieldInfo {
    pub ty: Type,
    pub is_public: bool,
}

/// A class-table entry: methods and fields by name (each name once), the
/// constructor's parameter types, and the kind of class.
#[derive(Debug)]
pub struct ClassInfo {
    pub methods: Vec<(String, MethodSig)>,
    pub fields: Vec<(String, FieldInfo)>,
    pub ctor_params: Vec<Type>,
    pub kind: ClassKind,
}

pub open spec fn method_names(ms: Seq<MethodDeclV>) -> Seq<Seq<char>> {
    Seq::new(ms.len(), |i: int| ms[i].name)
}

pub open spec fn field_names(fs: Seq<FieldDeclV>) -> Seq<Seq<char>> {
    Seq::new(fs.len(), |i: int| fs[i].name)
}

/// The first method, among the first `n`, whose name was used before it.
pub open spec fn method_dup(ms: Seq<MethodDeclV>, n: nat) -> Option<Seq<char>>
    decreases n,
{
    if n == 0 || n > ms.len() {
        None
    } else {
        match method_dup(ms, (n - 1) as nat) {
            Some(d) => Some(d),
            None => if method_names(ms).take(n - 1).contains(ms[n - 1].name) { Some(ms[n - 1].name) } else { None },
        }
    }
}

/// The first problem among the first `n` fields: a field named like a
/// method, or a name used by an earlier field.
pub open spec fn field_problem(c: ClassDeclV, n: nat) -> Option<Seq<char>>
    decreases n,
{
    if n == 0 || n > c.fields.len() {
        None
    } else {
        match field_problem(c, (n - 1) as nat) {
            Some(e) => Some(e),
            None => {
                let f = c.fields[n - 1].name;
                if method_names(c.methods).contains(f) {
                    Some("field '"@ + f + "' collides with a method of the same name in class '"@ + c.name + "'"@)
                } else if field_names(c.fields).take(n - 1).contains(f) {
                    Some("duplicate field '"@ + f + "' in class '"@ + c.name + "'"@)
                } else {
                    None
                }
            },
        }
    }
}

/// Why a class cannot enter the class table (`None` when it can).
pub open spec fn class_info_error(c: ClassDeclV) -> Option<Seq<char>> {
    match method_dup(c.methods, c.methods.len()) {
        Some(m) => Some("duplicate method '"@ + m + "' in class '"@ + c.name + "'"@),
        None => field_problem(c, c.fields.len()),
    }
}

/// The class-table entry of a class, or why it has none.
pub fn class_info_of(c: &ClassDecl, kind: ClassKind) -> (r: Result<ClassInfo, String>)
    ensures
        match class_info_error(c@) {
            Some(m) => r matches Err(e) && e@ == m,
            None => r matches Ok(info) && info.kind == kind
                && info.methods@.len() == c.methods@.len() && info.fields@.len() == c.fields@.len()
                && (forall|i: int| #![auto] 0 <= i < c.methods@.len() ==> info.methods@[i].0@ == c.methods@[i].name@
                    && types_v(info.methods@[i].1.params@) == crate::generate_spec::param_types(params_v(c.methods@[i].params@))
                    && info.methods@[i].1.ret@ == c.methods@[i].ret@ && info.methods@[i].1.is_public == c.methods@[i].is_public)
                && (forall|i: int| #![auto] 0 <= i < c.fields@.len() ==> info.fields@[i].0@ == c.fields@[i].name@
                    && info.fields@[i].1.ty@ == c.fields@[i].ty@ && info.fields@[i].1.is_public == c.fields@[i].is_public)
                && types_v(info.ctor_params@) == match c@.ctor {
                    Some(ct) => crate::generate_spec::param_types(ct.params),
                    None => Seq::empty(),
                },
        },
{
    let ghost mv = methods_v(c.methods@);
    let mut methods: Vec<(String, MethodSig)> = Vec::new();
    let mut names: Vec<String> = Vec::new();
    let mut i: usize = 0;
    while i < c.methods.len()
        invariant
            i <= c.methods@.len(),
            mv == methods_v(c.methods@),
            method_dup(mv, i as nat) is None,
            names_v(names@) == method_names(mv).take(i as int),
            methods@.len() == i,
            forall|j: int| #![auto] 0 <= j < i ==> methods@[j].0@ == c.methods@[j].name@
                && types_v(methods@[j].1.params@) == crate::generate_spec::param_types(params_v(c.methods@[j].params@))
                && methods@[j].1.ret@ == c.methods@[j].ret@ && methods@[j].1.is_public == c.methods@[j].is_public,
        decreases c.methods@.len() - i,
    {
        let m = &c.methods[i];
        assert(mv[i as int] == m@);
        if has_name(&names, m.name.as_str()) {
            let mut e = framed("duplicate method '", m.name.as_str(), "' in class '");
            crate::text::push_str(&mut e, c.name.as_str());
            crate::text::push_str(&mut e, "'");
            proof {
                assert(method_dup(mv, (i + 1) as nat) == Some(m.name@));
                lemma_method_dup_stays(mv, (i + 1) as nat, mv.len());
            }
            return Err(e);
        }
        let ghost before = names_v(names@);
        names.push(m.name.clone());
        assert(method_names(mv).take(i + 1) =~= before.push(m.name@));
        let params = copy_param_types(&m.params);
        methods.push((m.name.clone(), MethodSig { params, ret: m.ret.copy(), is_public: m.is_public }));
        i += 1;
    }
    assert(method_names(mv).take(mv.len() as int) =~= method_names(mv));
    let ghost fv = fields_v(c.fields@);
    let mut fields: Vec<(String, FieldInfo)> = Vec::new();
    let mut fnames: Vec<String> = Vec::new();
    let mut k: usize = 0;
    while k < c.fields.len()
        invariant
            k <= c.fields@.len(),
            mv == methods_v(c.methods@),
            fv == fields_v(c.fields@),
            c@.fields == fv,
            c@.methods == mv,
            names_v(names@) == method_names(mv),
            method_dup(mv, mv.len()) is None,
            field_problem(c@, k as nat) is None,
            names_v(fnames@) == field_names(fv).take(k as int),
            fields@.len() == k,
            forall|j: int| #![auto] 0 <= j < k ==> fields@[j].0@ == c.fields@[j].name@
                && fields@[j].1.ty@ == c.fields@[j].ty@ && fields@[j].1.is_public == c.fields@[j].is_public,
        decreases c.fields@.len() - k,
    {
        let f = &c.fields[k];
        assert(fv[k as int] == f@);
        if has_name(&names, f.name.as_str()) {
            let mut e = framed("field '", f.name.as_str(), "' collides with a method of the same name in class '");
            crate::text::push_str(&mut e, c.name.as_str());
            crate::text::push_str(&mut e, "'");
            proof {
                assert(field_problem(c@, (k + 1) as nat) == Some(e@));
                lemma_field_problem_stays(c@, (k + 1) as nat, fv.len());
            }
            return Err(e);
        }
        if has_name(&fnames, f.name.as_str()) {
            let mut e = framed("duplicate field '", f.name.as_str(), "' in class '");
            crate::text::push_str(&mut e, c.name.as_str());
            crate::text::push_str(&mut e, "'");
            proof {
                assert(field_problem(c@, (k + 1) as nat) == Some(e@));
                lemma_field_problem_stays(c@, (k + 1) as nat, fv.len());
            }
            return Err(e);
        }
        let ghost before = names_v(fnames@);
        fnames.push(f.name.clone());
        assert(field_names(fv).take(k + 1) =~= before.push(f.name@));
        fields.push((f.name.clone(), FieldInfo { ty: f.ty.copy(), is_public: f.is_public }));
        k += 1;
    }
    let ctor_params = match &c.ctor {
        Some(ct) => copy_param_types(&ct.params),
        None => {
            let v: Vec<Type> = Vec::new();
            assert(types_v(v@) =~= Seq::<TypeV>::empty());
            v
        },
    };
    Ok(ClassInfo { methods, fields, ctor_params, kind })
}

proof fn lemma_method_dup_stays(ms: Seq<MethodDeclV>, n: nat, m: nat)
    requires
        n <= m <= ms.len(),
        method_dup(ms, n) is Some,
    ensures
        method_dup(ms, m) == method_dup(ms, n),
    decreases m - n,
{
    if m > n {
        lemma_method_dup_stays(ms, n, (m - 1) as nat);
    }
}

proof fn lemma_field_problem_stays(c: ClassDeclV, n: nat, m: nat)
    requires
        n <= m <= c.fields.len(),
        field_problem(c, n) is Some,
    ensures
        field_problem(c, m) == field_problem(c, n),
    decreases m - n,
{
    if m > n {
        lemma_field_problem_stays(c, n, (m - 1) as nat);
    }
}

/// The parameters' types.
fn copy_param_types(ps: &Vec<crate::ast::Param>) -> (r: Vec<Type>)
    ensures
        types_v(r@) == crate::generate_spec::param_types(params_v(ps@)),
{
    let mut out: Vec<Type> = Vec::new();
    let mut i: usize = 0;
    while i < ps.len()
        invariant
            i <= ps@.len(),
            out@.len() == i,
            forall|j: int| 0 <= j < i ==> out@[j]@ == ps@[j].ty@,
        decreases ps@.len() - i,
    {
        out.push(ps[i].ty.copy());
        i += 1;
    }
    assert(types_v(out@) =~= crate::generate_spec::param_types(params_v(ps@)));
    out
}

/// The class-table keys of a table.
pub open spec fn table_keys(t: Seq<(String, ClassInfo)>) -> Seq<Seq<char>> {
    Seq::new(t.len(), |i: int| t[i].0@)
}

/// Every generic type inside `t` (itself included) has a class-table entry.
pub open spec fn instantiated(t: TypeV, keys: Seq<Seq<char>>) -> bool
    decreases t,
{
    match t {
        TypeV::Named(_) => true,
        TypeV::Optional(p) => instantiated(*p, keys),
        TypeV::Pointer(p) => instantiated(*p, keys),
        TypeV::Generic(_, p) => instantiated(*p, keys) && keys.contains(display_spec(t)),
    }
}

/// Keys only get added.
pub open spec fn keys_grow(a: Seq<Seq<char>>, b: Seq<Seq<char>>) -> bool {
    forall|k: Seq<char>| #[trigger] a.contains(k) ==> b.contains(k)
}

proof fn lemma_instantiated_grows(t: TypeV, a: Seq<Seq<char>>, b: Seq<Seq<char>>)
    requires
        instantiated(t, a),
        keys_grow(a, b),
    ensures
        instantiated(t, b),
    decreases t,
{
    match t {
        TypeV::Named(_) => {},
        TypeV::Optional(p) => lemma_instantiated_grows(*p, a, b),
        TypeV::Pointer(p) => lemma_instantiated_grows(*p, a, b),
        TypeV::Generic(_, p) => lemma_instantiated_grows(*p, a, b),
    }
}

/// Is there an entry for `key`?
fn table_has(t: &Vec<(String, ClassInfo)>, key: &str) -> (b: bool)
    ensures
        b == table_keys(t@).contains(key@),
{
    let mut i: usize = 0;
    while i < t.len()
        invariant
            i <= t@.len(),
            forall|j: int| 0 <= j < i ==> t@[j].0@ != key@,
        decreases t@.len() - i,
    {
        if str_eq(t[i].0.as_str(), key) {
            assert(table_keys(t@)[i as int] == key@);
            return true;
        }
        i += 1;
    }
    assert(!table_keys(t@).contains(key@)) by {
        if table_keys(t@).contains(key@) {
            let j = choose|j: int| 0 <= j < table_keys(t@).len() && table_keys(t@)[j] == key@;
            assert(t@[j].0@ == key@);
        }
    }
    false
}

/// Where the template (a class with a type parameter) of that name is.
fn find_template(templates: &Vec<ClassDecl>, name: &str) -> (r: Option<usize>)
    ensures
        r matches Some(i) ==> i < templates@.len() && templates@[i as int].name@ == name@ && templates@[i as int].type_param is Some,
{
    let mut i: usize = 0;
    while i < templates.len()
        invariant
            i <= templates@.len(),
        decreases templates@.len() - i,
    {
        if templates[i].type_param.is_some() && str_eq(templates[i].name.as_str(), name) {
            return Some(i);
        }
        i += 1;
    }
    None
}

/// No class of the list is a template.
pub open spec fn no_templates(ts: Seq<ClassDecl>) -> bool {
    forall|i: int| 0 <= i < ts.len() ==> (#[trigger] ts[i]).type_param is None
}

/// Every generic type inside `t` is a `RawBuffer`.
pub open spec fn rawbuf_only(t: TypeV) -> bool
    decreases t,
{
    match t {
        TypeV::Named(_) => true,
        TypeV::Generic(n, p) => n == "RawBuffer"@ && rawbuf_only(*p),
        TypeV::Optional(p) => rawbuf_only(*p),
        TypeV::Pointer(p) => rawbuf_only(*p),
    }
}

/// How deeply a type nests (`Integer` is 0, `Integer?` is 1).
pub open spec fn type_depth(t: TypeV) -> nat
    decreases t,
{
    match t {
        TypeV::Named(_) => 0,
        TypeV::Generic(_, p) => 1 + type_depth(*p),
        TypeV::Optional(p) => 1 + type_depth(*p),
        TypeV::Pointer(p) => 1 + type_depth(*p),
    }
}

pub open spec fn too_deep_msg() -> Seq<char> {
    "generic instantiation is too deep (recursive container types?)"@
}

/// Give every generic type inside `ty` a class-table entry, stamping the
/// `Array`/`Vector` templates (and whatever the stamped classes mention) as
/// needed (`templates` holds them among other classes); stamped classes
/// are queued on `mono` with their type. Nesting
/// deeper than 32 levels is an error.
pub fn ensure_instantiated(
    ty: &Type,
    classes: &mut Vec<(String, ClassInfo)>,
    mono: &mut Vec<(ClassDecl, Type)>,
    templates: &Vec<ClassDecl>,
    depth: usize,
) -> (r: Result<(), String>)
    ensures
        keys_grow(table_keys(old(classes)@), table_keys(final(classes)@)),
        r is Ok ==> instantiated(ty@, table_keys(final(classes)@)),
        depth > 32 ==> (r matches Err(e) && e@ == "generic instantiation is too deep (recursive container types?)"@),
        no_templates(templates@) ==> final(mono)@ == old(mono)@,
        no_templates(templates@) && rawbuf_only(ty@) ==> (r is Ok || (r matches Err(e) && e@ == too_deep_msg())),
        no_templates(templates@) && rawbuf_only(ty@) && depth + type_depth(ty@) <= 32 ==> r is Ok,
    decreases 33 - depth, ty,
{
    if depth > 32 {
        return Err(lit_string("generic instantiation is too deep (recursive container types?)"));
    }
    match ty {
        Type::Named(_) => Ok(()),
        Type::Optional(inner) => ensure_instantiated(inner, classes, mono, templates, depth + 1),
        Type::Pointer(inner) => ensure_instantiated(inner, classes, mono, templates, depth + 1),
        Type::Generic(n, p) => {
            match ensure_instantiated(p, classes, mono, templates, depth + 1) {
                Ok(()) => {},
                Err(e) => return Err(e),
            }
            let ghost after_p = table_keys(classes@);
            let key = ty.display();
            if table_has(classes, key.as_str()) {
                return Ok(());
            }
            if str_eq(n.as_str(), "RawBuffer") {
                let mut methods: Vec<(String, MethodSig)> = Vec::new();
                let mut gp: Vec<Type> = Vec::new();
                gp.push(Type::named("Integer"));
                methods.push((lit_string("get"), MethodSig { params: gp, ret: p.copy(), is_public: true }));
                let mut sp: Vec<Type> = Vec::new();
                sp.push(Type::named("Integer"));
                sp.push(p.copy());
                methods.push((lit_string("set"), MethodSig { params: sp, ret: Type::named("None"), is_public: true }));
                methods.push((lit_string("capacity"), MethodSig { params: Vec::new(), ret: Type::named("Integer"), is_public: true }));
                let ghost before = classes@;
                classes.push((key, ClassInfo { methods, fields: Vec::new(), ctor_params: Vec::new(), kind: ClassKind::RawBuf }));
                proof { lemma_push_keys(before, classes@); lemma_instantiated_grows((**p)@, after_p, table_keys(classes@)); }
                Ok(())
            } else if str_eq(n.as_str(), "Array") || str_eq(n.as_str(), "Vector") {
                let ti = match find_template(templates, n.as_str()) {
                    Some(i) => i,
                    None => {
                        let mut e = lit_string(n.as_str());
                        crate::text::push_str(&mut e, "<T> is not defined (is core.j loaded?)");
                        return Err(e);
                    },
                };
                let tmpl = &templates[ti];
                assert(tmpl.type_param is Some);
                assert(!no_templates(templates@)) by {
                    assert(templates@[ti as int].type_param is Some);
                }
                let param = tmpl.type_param.as_ref().unwrap();
                let inst = crate::subst::subst_class(tmpl, param.as_str(), p, key.clone());
                let info = match class_info_of(&inst, ClassKind::Container) {
                    Ok(i) => i,
                    Err(e) => return Err(e),
                };
                let ghost before = classes@;
                classes.push((key, info));
                proof {
                    lemma_push_keys(before, classes@);
                    lemma_instantiated_grows((**p)@, after_p, table_keys(classes@));
                }
                let ghost with_key = table_keys(classes@);
                let mut more: Vec<Type> = Vec::new();
                crate::scan::scan_class(&inst, &mut more);
                let mut i: usize = 0;
                while i < more.len()
                    invariant
                        i <= more@.len(),
                        depth <= 32,
                        keys_grow(table_keys(old(classes)@), table_keys(classes@)),
                        keys_grow(with_key, table_keys(classes@)),
                        with_key.contains(display_spec(ty@)),
                        instantiated((**p)@, with_key),
                        !no_templates(templates@),
                    decreases more@.len() - i,
                {
                    match ensure_instantiated(&more[i], classes, mono, templates, depth + 1) {
                        Ok(()) => {},
                        Err(e) => return Err(e),
                    }
                    i += 1;
                }
                mono.push((inst, ty.copy()));
                proof { lemma_instantiated_grows((**p)@, with_key, table_keys(classes@)); }
                Ok(())
            } else {
                Err(framed("'", n.as_str(), "' is not a generic type â€” only Array<T> and Vector<T> exist"))
            }
        },
    }
}

proof fn lemma_push_keys(a: Seq<(String, ClassInfo)>, b: Seq<(String, ClassInfo)>)
    requires
        b.len() == a.len() + 1,
        forall|i: int| 0 <= i < a.len() ==> b[i] == a[i],
    ensures
        keys_grow(table_keys(a), table_keys(b)),
        table_keys(b).contains(b[a.len() as int].0@),
{
    assert forall|k: Seq<char>| #[trigger] table_keys(a).contains(k) implies table_keys(b).contains(k) by {
        let i = choose|i: int| 0 <= i < table_keys(a).len() && table_keys(a)[i] == k;
        assert(table_keys(b)[i] == k);
    }
    assert(table_keys(b)[a.len() as int] == b[a.len() as int].0@);
}

} // verus!
