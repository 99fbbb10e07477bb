//! The checker's declaration pass (see [`crate::declare_spec`]): function
//! and class declarations, generic templates, the container instances the
//! program needs, and the entry point.

use vstd::prelude::*;
use crate::ast::{ClassDecl, ClassDeclV, FunctionDecl, FunctionDeclV, MethodDeclV, Program, Type, classes_v, fields_v, functions_v, methods_v, names_v, params_v};
use crate::declare_spec::{SErr, class_error, class_phase, collision_phase, declaration_error, entry_error, field_clash_at, fn_names, fn_phase, generic_names, main_of, method_dup_at, param_error_at, plain_class_error, plain_names, shadow_at, shadows, template_fn_error, template_phase};
use crate::errors::JimError;
use crate::reach::has_name;
use crate::sema::{SemaError, contains_pointer};
use crate::text::{framed, lit_string, push_str, str_eq};
use crate::typing::{ClassInfo, ClassKind, FieldInfo, MethodSig, check_template_type, class_info_of, ensure_instantiated, field_names, method_names, table_keys, type_is_concrete, no_templates, rawbuf_only, too_deep_msg};
use crate::typing::concrete;

verus! {

pub open spec fn serr(x: SemaError) -> SErr {
    SErr { file_idx: x.file_idx, msg: x.err.msg@, line: x.err.line, col: x.err.col }
}

fn error_at(file_idx: usize, msg: String, line: u32, col: u32) -> (e: SemaError)
    ensures
        serr(e) == (SErr { file_idx, msg: msg@, line, col }),
{
    SemaError { file_idx, err: JimError::new(msg, line, col) }
}

/// No function is declared twice, and `main` is not generic.
fn check_functions(fs: &Vec<FunctionDecl>) -> (r: Result<(), SemaError>)
    ensures
        match fn_phase(functions_v(fs@), fs@.len()) {
            Some(e) => r matches Err(x) && serr(x) == e,
            None => r is Ok,
        },
{
    let ghost fv = functions_v(fs@);
    let mut names: Vec<String> = Vec::new();
    let mut i: usize = 0;
    while i < fs.len()
        invariant
            i <= fs@.len(),
            fv == functions_v(fs@),
            fn_phase(fv, i as nat) is None,
            names_v(names@) == fn_names(fv).take(i as int),
        decreases fs@.len() - i,
    {
        let f = &fs[i];
        assert(fv[i as int] == f@);
        if has_name(&names, f.name.as_str()) {
            let mut m = framed("duplicate function '", f.name.as_str(), "' (jim has no function overloading)");
            let e = error_at(f.file_idx, m, f.line, f.col);
            proof { lemma_fn_phase_stays(fv, (i + 1) as nat, fv.len()); }
            return Err(e);
        }
        if f.type_params.len() > 0 && str_eq(f.name.as_str(), "main") {
            let e = error_at(f.file_idx, lit_string("'main' cannot be generic"), f.line, f.col);
            proof { lemma_fn_phase_stays(fv, (i + 1) as nat, fv.len()); }
            return Err(e);
        }
        let ghost before = names_v(names@);
        names.push(f.name.clone());
        assert(fn_names(fv).take(i + 1) =~= before.push(f.name@));
        i += 1;
    }
    Ok(())
}

proof fn lemma_fn_phase_stays(fs: Seq<FunctionDeclV>, n: nat, m: nat)
    requires
        n <= m <= fs.len(),
        fn_phase(fs, n) is Some,
    ensures
        fn_phase(fs, m) == fn_phase(fs, n),
    decreases m - n,
{
    if m > n {
        lemma_fn_phase_stays(fs, n, (m - 1) as nat);
    }
}

proof fn lemma_method_dup_at_stays(ms: Seq<MethodDeclV>, n: nat, m: nat)
    requires
        n <= m <= ms.len(),
        method_dup_at(ms, n) is Some,
    ensures
        method_dup_at(ms, m) == method_dup_at(ms, n),
    decreases m - n,
{
    if m > n {
        lemma_method_dup_at_stays(ms, n, (m - 1) as nat);
    }
}

proof fn lemma_field_clash_at_stays(c: ClassDeclV, n: nat, m: nat)
    requires
        n <= m <= c.fields.len(),
        field_clash_at(c, n) is Some,
    ensures
        field_clash_at(c, m) == field_clash_at(c, n),
    decreases m - n,
{
    if m > n {
        lemma_field_clash_at_stays(c, n, (m - 1) as nat);
    }
}

/// The class-table entry of a plain class, or the first problem with it:
/// a name already declared, a method named twice, a field named twice or
/// named like a method.
fn plain_class_info(c: &ClassDecl, plain: &Vec<String>, kind: ClassKind) -> (r: Result<ClassInfo, SemaError>)
    ensures
        match plain_class_error(c@, names_v(plain@)) {
            Some(e) => r matches Err(x) && serr(x) == e,
            None => r matches Ok(info) && info.kind == kind,
        },
{
    if has_name(plain, c.name.as_str()) {
        let m = framed("duplicate class '", c.name.as_str(), "'");
        return Err(error_at(c.file_idx, m, c.line, c.col));
    }
    let ghost mv = methods_v(c.methods@);
    assert(c@.methods == mv);
    let mut methods: Vec<(String, MethodSig)> = Vec::new();
    let mut names: Vec<String> = Vec::new();
    let mut i: usize = 0;
    while i < c.methods.len()
        invariant
            i <= c.methods@.len(),
            mv == methods_v(c.methods@),
            c@.methods == mv,
            method_dup_at(mv, i as nat) is None,
            names_v(names@) == method_names(mv).take(i as int),
            !names_v(plain@).contains(c@.name),
        decreases c.methods@.len() - i,
    {
        let m = &c.methods[i];
        assert(mv[i as int] == m@);
        if has_name(&names, m.name.as_str()) {
            let mut msg = framed("duplicate method '", m.name.as_str(), "' in class '");
            push_str(&mut msg, c.name.as_str());
            push_str(&mut msg, "' (jim has no overloading)");
            proof { lemma_method_dup_at_stays(mv, (i + 1) as nat, mv.len()); }
            return Err(error_at(c.file_idx, msg, m.line, m.col));
        }
        let ghost before = names_v(names@);
        names.push(m.name.clone());
        assert(method_names(mv).take(i + 1) =~= before.push(m.name@));
        let mut params: Vec<Type> = Vec::new();
        let mut k: usize = 0;
        while k < m.params.len()
            invariant
                k <= m.params@.len(),
            decreases m.params@.len() - k,
        {
            params.push(m.params[k].ty.copy());
            k += 1;
        }
        methods.push((m.name.clone(), MethodSig { params, ret: m.ret.copy(), is_public: m.is_public }));
        i += 1;
    }
    assert(method_names(mv).take(mv.len() as int) =~= method_names(mv));
    let ghost fv = fields_v(c.fields@);
    assert(c@.fields == fv);
    let mut fields: Vec<(String, FieldInfo)> = Vec::new();
    let mut fnames: Vec<String> = Vec::new();
    let mut j: usize = 0;
    while j < c.fields.len()
        invariant
            j <= c.fields@.len(),
            mv == methods_v(c.methods@),
            fv == fields_v(c.fields@),
            c@.methods == mv,
            c@.fields == fv,
            method_dup_at(mv, mv.len()) is None,
            names_v(names@) == method_names(mv),
            field_clash_at(c@, j as nat) is None,
            names_v(fnames@) == field_names(fv).take(j as int),
            !names_v(plain@).contains(c@.name),
        decreases c.fields@.len() - j,
    {
        let f = &c.fields[j];
        assert(fv[j as int] == f@);
        let dup = has_name(&fnames, f.name.as_str());
        let clash = has_name(&names, f.name.as_str());
        if dup || clash {
            let msg = if dup {
                let mut m = framed("duplicate field '", f.name.as_str(), "' in class '");
                push_str(&mut m, c.name.as_str());
                push_str(&mut m, "'");
                m
            } else {
                let mut m = framed("field '", f.name.as_str(), "' collides with a method of the same name in class '");
                push_str(&mut m, c.name.as_str());
                push_str(&mut m, "'");
                m
            };
            proof { lemma_field_clash_at_stays(c@, (j + 1) as nat, fv.len()); }
            return Err(error_at(c.file_idx, msg, f.line, f.col));
        }
        let ghost before = names_v(fnames@);
        fnames.push(f.name.clone());
        assert(field_names(fv).take(j + 1) =~= before.push(f.name@));
        fields.push((f.name.clone(), FieldInfo { ty: f.ty.copy(), is_public: f.is_public }));
        j += 1;
    }
    let mut ctor_params: Vec<Type> = Vec::new();
    match &c.ctor {
        Some(ct) => {
            let mut k: usize = 0;
            while k < ct.params.len()
                invariant
                    k <= ct.params@.len(),
                decreases ct.params@.len() - k,
            {
                ctor_params.push(ct.params[k].ty.copy());
                k += 1;
            }
        },
        None => {},
    }
    Ok(ClassInfo { methods, fields, ctor_params, kind })
}

/// The declaration checks of one class, given the template and plain class
/// names declared before it; a plain class gets its class-table entry.
fn check_class(c: &ClassDecl, allow: bool, generic: &Vec<String>, plain: &Vec<String>) -> (r: Result<Option<ClassInfo>, SemaError>)
    ensures
        match class_error(c@, allow, names_v(generic@), names_v(plain@)) {
            Some(e) => r matches Err(x) && serr(x) == e,
            None => r matches Ok(o) && (o is Some <==> c.type_param is None),
        },
{
    let n = c.name.as_str();
    if c.type_param.is_some() {
        if !(str_eq(n, "Array") || str_eq(n, "Vector")) {
            return Err(error_at(c.file_idx, lit_string("user generic classes are not supported (only the std Array<T>/Vector<T>)"), c.line, c.col));
        }
        if !c.from_std && !allow {
            return Err(error_at(c.file_idx, framed("class '", n, "' can only be defined in the standard library"), c.line, c.col));
        }
        if has_name(generic, n) {
            return Err(error_at(c.file_idx, framed("duplicate class '", n, "'"), c.line, c.col));
        }
        return match class_info_of(c, ClassKind::Container) {
            Ok(_) => Ok(None),
            Err(m) => Err(error_at(c.file_idx, m, c.line, c.col)),
        };
    }
    if crate::codegen_names::is_core_class(n) {
        if !c.from_std && !allow {
            return Err(error_at(c.file_idx, framed("class '", n, "' is a core class and can only be defined in the standard library"), c.line, c.col));
        }
        if c.fields.len() > 0 {
            return Err(error_at(c.file_idx, framed("core class '", n, "' is a value class \u{e2}\u{20ac}\u{201d} methods only, no fields"), c.line, c.col));
        }
        if c.ctor.is_some() {
            return Err(error_at(c.file_idx, framed("core class '", n, "' cannot have a constructor"), c.line, c.col));
        }
        return match plain_class_info(c, plain, ClassKind::CoreValue) {
            Ok(info) => Ok(Some(info)),
            Err(e) => Err(e),
        };
    }
    if str_eq(n, "None") {
        return Err(error_at(c.file_idx, lit_string("'None' has no methods to implement"), c.line, c.col));
    }
    if str_eq(n, "Array") || str_eq(n, "Vector") {
        let mut m = framed("class ", n, " must take a type parameter: 'class ");
        push_str(&mut m, n);
        push_str(&mut m, "<T>'");
        return Err(error_at(c.file_idx, m, c.line, c.col));
    }
    if str_eq(n, "RawBuffer") {
        return Err(error_at(c.file_idx, lit_string("'RawBuffer' is provided by the compiler"), c.line, c.col));
    }
    match plain_class_info(c, plain, ClassKind::UserRef) {
        Ok(info) => Ok(Some(info)),
        Err(e) => Err(e),
    }
}

proof fn lemma_class_phase_stays(cs: Seq<ClassDeclV>, allow: bool, n: nat, m: nat)
    requires
        n <= m <= cs.len(),
        class_phase(cs, allow, n) is Some,
    ensures
        class_phase(cs, allow, m) == class_phase(cs, allow, n),
    decreases m - n,
{
    if m > n {
        lemma_class_phase_stays(cs, allow, n, (m - 1) as nat);
    }
}

/// The declaration checks of every class, in order: the class table of the
/// plain classes, and the names of the templates.
fn check_classes(cs: &Vec<ClassDecl>, allow: bool) -> (r: Result<(Vec<(String, ClassInfo)>, Vec<String>), SemaError>)
    ensures
        match class_phase(classes_v(cs@), allow, cs@.len()) {
            Some(e) => r matches Err(x) && serr(x) == e,
            None => r matches Ok((t, g)) && table_keys(t@) == plain_names(classes_v(cs@), cs@.len())
                && names_v(g@) == generic_names(classes_v(cs@), cs@.len()),
        },
{
    let ghost cv = classes_v(cs@);
    let mut table: Vec<(String, ClassInfo)> = Vec::new();
    let mut plain: Vec<String> = Vec::new();
    let mut generic: Vec<String> = Vec::new();
    let mut i: usize = 0;
    assert(table_keys(table@) =~= Seq::<Seq<char>>::empty());
    assert(names_v(plain@) =~= Seq::<Seq<char>>::empty());
    assert(names_v(generic@) =~= Seq::<Seq<char>>::empty());
    while i < cs.len()
        invariant
            i <= cs@.len(),
            cv == classes_v(cs@),
            class_phase(cv, allow, i as nat) is None,
            table_keys(table@) == plain_names(cv, i as nat),
            names_v(plain@) == plain_names(cv, i as nat),
            names_v(generic@) == generic_names(cv, i as nat),
        decreases cs@.len() - i,
    {
        let c = &cs[i];
        assert(cv[i as int] == c@);
        match check_class(c, allow, &generic, &plain) {
            Err(e) => {
                proof { lemma_class_phase_stays(cv, allow, (i + 1) as nat, cv.len()); }
                return Err(e);
            },
            Ok(Some(info)) => {
                let ghost tk = table_keys(table@);
                let ghost pk = names_v(plain@);
                table.push((c.name.clone(), info));
                plain.push(c.name.clone());
                assert(table_keys(table@) =~= tk.push(c.name@));
                assert(names_v(plain@) =~= pk.push(c.name@));
                assert(generic_names(cv, (i + 1) as nat) =~= generic_names(cv, i as nat));
            },
            Ok(None) => {
                let ghost gk = names_v(generic@);
                generic.push(c.name.clone());
                assert(names_v(generic@) =~= gk.push(c.name@));
                assert(plain_names(cv, (i + 1) as nat) =~= plain_names(cv, i as nat));
            },
        }
        i += 1;
    }
    Ok((table, generic))
}

proof fn lemma_collision_phase_stays(fs: Seq<FunctionDeclV>, cs: Seq<ClassDeclV>, n: nat, m: nat)
    requires
        n <= m <= fs.len(),
        collision_phase(fs, cs, n) is Some,
    ensures
        collision_phase(fs, cs, m) == collision_phase(fs, cs, n),
    decreases m - n,
{
    if m > n {
        lemma_collision_phase_stays(fs, cs, n, (m - 1) as nat);
    }
}

/// No function shares its name with a class (constructor calls use the class name).
fn check_collisions(fs: &Vec<FunctionDecl>, plain: &Vec<String>, generic: &Vec<String>, Ghost(cv): Ghost<Seq<ClassDeclV>>) -> (r: Result<(), SemaError>)
    requires
        names_v(plain@) == plain_names(cv, cv.len()),
        names_v(generic@) == generic_names(cv, cv.len()),
    ensures
        match collision_phase(functions_v(fs@), cv, fs@.len()) {
            Some(e) => r matches Err(x) && serr(x) == e,
            None => r is Ok,
        },
{
    let ghost fv = functions_v(fs@);
    let mut i: usize = 0;
    while i < fs.len()
        invariant
            i <= fs@.len(),
            fv == functions_v(fs@),
            names_v(plain@) == plain_names(cv, cv.len()),
            names_v(generic@) == generic_names(cv, cv.len()),
            collision_phase(fv, cv, i as nat) is None,
        decreases fs@.len() - i,
    {
        let f = &fs[i];
        assert(fv[i as int] == f@);
        if has_name(plain, f.name.as_str()) || has_name(generic, f.name.as_str()) {
            let mut m = framed("function '", f.name.as_str(), "' collides with class '");
            push_str(&mut m, f.name.as_str());
            push_str(&mut m, "' (constructor calls use the class name)");
            proof { lemma_collision_phase_stays(fv, cv, (i + 1) as nat, fv.len()); }
            return Err(error_at(f.file_idx, m, f.line, f.col));
        }
        i += 1;
    }
    Ok(())
}

proof fn lemma_shadow_at_stays(tps: Seq<Seq<char>>, pl: Seq<Seq<char>>, g: Seq<Seq<char>>, n: nat, m: nat)
    requires
        n <= m <= tps.len(),
        shadow_at(tps, pl, g, n) is Some,
    ensures
        shadow_at(tps, pl, g, m) == shadow_at(tps, pl, g, n),
    decreases m - n,
{
    if m > n {
        lemma_shadow_at_stays(tps, pl, g, n, (m - 1) as nat);
    }
}

proof fn lemma_param_error_at_stays(ps: Seq<crate::ast::ParamV>, tps: Seq<Seq<char>>, pl: Seq<Seq<char>>, n: nat, m: nat)
    requires
        n <= m <= ps.len(),
        param_error_at(ps, tps, pl, n) is Some,
    ensures
        param_error_at(ps, tps, pl, m) == param_error_at(ps, tps, pl, n),
    decreases m - n,
{
    if m > n {
        lemma_param_error_at_stays(ps, tps, pl, n, (m - 1) as nat);
    }
}

/// The signature checks of a generic function template.
fn check_template_fn(t: &FunctionDecl, plain: &Vec<String>, generic: &Vec<String>) -> (r: Result<(), SemaError>)
    ensures
        match template_fn_error(t@, names_v(plain@), names_v(generic@)) {
            Some(e) => r matches Err(x) && serr(x) == e,
            None => r is Ok,
        },
{
    let ghost pl = names_v(plain@);
    let ghost g = names_v(generic@);
    let ghost tps = names_v(t.type_params@);
    assert(t@.type_params == tps);
    let mut i: usize = 0;
    while i < t.type_params.len()
        invariant
            i <= t.type_params@.len(),
            tps == names_v(t.type_params@),
            t@.type_params == tps,
            pl == names_v(plain@),
            g == names_v(generic@),
            shadow_at(tps, pl, g, i as nat) is None,
        decreases t.type_params@.len() - i,
    {
        let p = t.type_params[i].as_str();
        let sh = crate::codegen_names::is_core_class(p) || str_eq(p, "None") || str_eq(p, "Array") || str_eq(p, "Vector")
            || str_eq(p, "RawBuffer") || has_name(plain, p) || has_name(generic, p);
        assert(sh == shadows(tps[i as int], pl, g));
        if sh {
            let mut m = framed("type parameter '", p, "' of '");
            push_str(&mut m, t.name.as_str());
            push_str(&mut m, "' shadows the type '");
            push_str(&mut m, p);
            push_str(&mut m, "'");
            proof { lemma_shadow_at_stays(tps, pl, g, (i + 1) as nat, tps.len()); }
            return Err(error_at(t.file_idx, m, t.line, t.col));
        }
        i += 1;
    }
    let ghost pv = params_v(t.params@);
    assert(t@.params == pv);
    let mut j: usize = 0;
    while j < t.params.len()
        invariant
            j <= t.params@.len(),
            pv == params_v(t.params@),
            t@.params == pv,
            t@.type_params == tps,
            tps == names_v(t.type_params@),
            pl == names_v(plain@),
            g == names_v(generic@),
            shadow_at(tps, pl, g, tps.len()) is None,
            param_error_at(pv, tps, pl, j as nat) is None,
        decreases t.params@.len() - j,
    {
        let prm = &t.params[j];
        assert(pv[j as int] == prm@);
        match check_template_type(&prm.ty, &t.type_params, plain) {
            Ok(()) => {},
            Err(msg) => {
                let mut m = framed("in parameter '", prm.name.as_str(), "': ");
                push_str(&mut m, msg.as_str());
                proof { lemma_param_error_at_stays(pv, tps, pl, (j + 1) as nat, pv.len()); }
                return Err(error_at(t.file_idx, m, prm.line, prm.col));
            },
        }
        j += 1;
    }
    match check_template_type(&t.ret, &t.type_params, plain) {
        Ok(()) => {},
        Err(msg) => {
            let mut m = framed("in return type of '", t.name.as_str(), "': ");
            push_str(&mut m, msg.as_str());
            return Err(error_at(t.file_idx, m, t.line, t.col));
        },
    }
    if contains_pointer(&t.ret) {
        let m = framed("function '", t.name.as_str(), "' cannot return a pointer (a pointer to a local would dangle after the call)");
        return Err(error_at(t.file_idx, m, t.line, t.col));
    }
    Ok(())
}

proof fn lemma_template_phase_stays(fs: Seq<FunctionDeclV>, pl: Seq<Seq<char>>, g: Seq<Seq<char>>, n: nat, m: nat)
    requires
        n <= m <= fs.len(),
        template_phase(fs, pl, g, n) is Some,
    ensures
        template_phase(fs, pl, g, m) == template_phase(fs, pl, g, n),
    decreases m - n,
{
    if m > n {
        lemma_template_phase_stays(fs, pl, g, n, (m - 1) as nat);
    }
}

/// The signature checks of every generic function template, in declaration order.
fn check_templates(fs: &Vec<FunctionDecl>, plain: &Vec<String>, generic: &Vec<String>) -> (r: Result<(), SemaError>)
    ensures
        match template_phase(functions_v(fs@), names_v(plain@), names_v(generic@), fs@.len()) {
            Some(e) => r matches Err(x) && serr(x) == e,
            None => r is Ok,
        },
{
    let ghost fv = functions_v(fs@);
    let mut i: usize = 0;
    while i < fs.len()
        invariant
            i <= fs@.len(),
            fv == functions_v(fs@),
            template_phase(fv, names_v(plain@), names_v(generic@), i as nat) is None,
        decreases fs@.len() - i,
    {
        let f = &fs[i];
        assert(fv[i as int] == f@);
        if f.type_params.len() > 0 {
            match check_template_fn(f, plain, generic) {
                Ok(()) => {},
                Err(e) => {
                    proof { lemma_template_phase_stays(fv, names_v(plain@), names_v(generic@), (i + 1) as nat, fv.len()); }
                    return Err(e);
                },
            }
        }
        i += 1;
    }
    Ok(())
}

/// Give every generic type the program writes (outside templates) a class
/// table entry, then probe-stamp every template at `Integer` so that its
/// body is checked even when nothing uses it; the stamped classes, with
/// their types. An instantiation error is reported at the top of file 0.
/// The types a non-generic function mentions: its parameters', its
/// result's, and those its body writes.
pub open spec fn fn_mentions(f: FunctionDeclV) -> Seq<crate::ast::TypeV> {
    if f.type_params.len() == 0 {
        f.params.map_values(|q: crate::ast::ParamV| q.ty) + seq![f.ret] + crate::scan::scan_b(f.body)
    } else {
        Seq::empty()
    }
}

pub open spec fn fns_mentions(fs: Seq<FunctionDeclV>, n: nat) -> Seq<crate::ast::TypeV>
    decreases n,
{
    if n == 0 || n > fs.len() { Seq::empty() } else { fns_mentions(fs, (n - 1) as nat) + fn_mentions(fs[n - 1]) }
}

pub open spec fn classes_mentions(cs: Seq<ClassDeclV>, n: nat) -> Seq<crate::ast::TypeV>
    decreases n,
{
    if n == 0 || n > cs.len() {
        Seq::empty()
    } else {
        classes_mentions(cs, (n - 1) as nat) + if cs[n - 1].type_param is None { crate::scan::scan_c(cs[n - 1]) } else { Seq::empty() }
    }
}

/// Every type the non-generic functions and classes of a program mention.
pub open spec fn program_mentions(fs: Seq<FunctionDeclV>, cs: Seq<ClassDeclV>) -> Seq<crate::ast::TypeV> {
    fns_mentions(fs, fs.len()) + classes_mentions(cs, cs.len())
}

/// Some mentioned type nests more than 32 levels deep.
pub open spec fn deep_mention(fs: Seq<FunctionDeclV>, cs: Seq<ClassDeclV>) -> bool {
    exists|i: int| 0 <= i < program_mentions(fs, cs).len() && crate::typing::type_depth(#[trigger] program_mentions(fs, cs)[i]) > 32
}

proof fn lemma_concrete_rawbuf(t: crate::ast::TypeV, cls: Seq<Seq<char>>, tmpl: Seq<Seq<char>>)
    requires
        tmpl.len() == 0,
        concrete(t, cls, tmpl),
    ensures
        rawbuf_only(t),
    decreases t,
{
    match t {
        crate::ast::TypeV::Generic(n, q) => lemma_concrete_rawbuf(*q, cls, tmpl),
        crate::ast::TypeV::Optional(q) => lemma_concrete_rawbuf(*q, cls, tmpl),
        crate::ast::TypeV::Pointer(q) => lemma_concrete_rawbuf(*q, cls, tmpl),
        _ => {},
    }
}

fn instantiate_mentioned(p: &Program, table: &mut Vec<(String, ClassInfo)>, plain: &Vec<String>, generic: &Vec<String>) -> (r: Result<Vec<(ClassDecl, Type)>, SemaError>)
    ensures
        r matches Err(x) ==> x.file_idx == 0 && x.err.line == 1 && x.err.col == 1,
        no_templates(p.classes@) && generic@.len() == 0 ==> (r matches Ok(m) ==> m@.len() == 0),
        crate::typing::keys_grow(table_keys(old(table)@), table_keys(final(table)@)),
        no_templates(p.classes@) && generic@.len() == 0 ==> (r matches Err(x) ==> x.err.msg@ == too_deep_msg()),
        no_templates(p.classes@) && generic@.len() == 0 && r is Err ==> deep_mention(functions_v(p.functions@), classes_v(p.classes@)),
{
    let ghost fv = functions_v(p.functions@);
    let ghost cv = classes_v(p.classes@);
    let mut mentioned: Vec<Type> = Vec::new();
    let mut i: usize = 0;
    assert(crate::ast::types_v(mentioned@) =~= fns_mentions(fv, 0));
    while i < p.functions.len()
        invariant
            i <= p.functions@.len(),
            fv == functions_v(p.functions@),
            crate::ast::types_v(mentioned@) == fns_mentions(fv, i as nat),
        decreases p.functions@.len() - i,
    {
        let f = &p.functions[i];
        assert(fv[i as int] == f@);
        let ghost before = crate::ast::types_v(mentioned@);
        if f.type_params.len() == 0 {
            let ghost pt = f@.params.map_values(|q: crate::ast::ParamV| q.ty);
            let mut k: usize = 0;
            while k < f.params.len()
                invariant
                    k <= f.params@.len(),
                    pt == f@.params.map_values(|q: crate::ast::ParamV| q.ty),
                    crate::ast::types_v(mentioned@) == before + pt.take(k as int),
                decreases f.params@.len() - k,
            {
                let ghost m0 = crate::ast::types_v(mentioned@);
                mentioned.push(f.params[k].ty.copy());
                proof {
                    assert(f@.params[k as int] == f.params@[k as int]@);
                    assert(crate::ast::types_v(mentioned@) =~= m0.push(f.params@[k as int].ty@));
                    assert(pt.take(k + 1) =~= pt.take(k as int).push(pt[k as int]));
                }
                k += 1;
            }
            assert(pt.take(f.params@.len() as int) =~= pt);
            let ghost m1 = crate::ast::types_v(mentioned@);
            mentioned.push(f.ret.copy());
            assert(crate::ast::types_v(mentioned@) =~= m1.push(f@.ret));
            crate::scan::scan_block(&f.body, &mut mentioned);
            assert(crate::ast::types_v(mentioned@) =~= before + fn_mentions(fv[i as int]));
        } else {
            assert(fn_mentions(fv[i as int]) =~= Seq::<crate::ast::TypeV>::empty());
            assert(crate::ast::types_v(mentioned@) =~= before + fn_mentions(fv[i as int]));
        }
        i += 1;
    }
    let ghost fm = crate::ast::types_v(mentioned@);
    let mut j: usize = 0;
    assert(fm =~= fm + classes_mentions(cv, 0));
    while j < p.classes.len()
        invariant
            j <= p.classes@.len(),
            cv == classes_v(p.classes@),
            crate::ast::types_v(mentioned@) == fm + classes_mentions(cv, j as nat),
        decreases p.classes@.len() - j,
    {
        let ghost before = crate::ast::types_v(mentioned@);
        assert(cv[j as int] == p.classes@[j as int]@);
        if p.classes[j].type_param.is_none() {
            crate::scan::scan_class(&p.classes[j], &mut mentioned);
        }
        assert(crate::ast::types_v(mentioned@) =~= fm + classes_mentions(cv, (j + 1) as nat));
        j += 1;
    }
    assert(crate::ast::types_v(mentioned@) == program_mentions(fv, cv));
    let mut mono: Vec<(ClassDecl, Type)> = Vec::new();
    let mut k: usize = 0;
    while k < mentioned.len()
        invariant
            k <= mentioned@.len(),
            no_templates(p.classes@) && generic@.len() == 0 ==> mono@.len() == 0,
            crate::ast::types_v(mentioned@) == program_mentions(fv, cv),
            fv == functions_v(p.functions@),
            cv == classes_v(p.classes@),
            crate::typing::keys_grow(table_keys(old(table)@), table_keys(table@)),
        decreases mentioned@.len() - k,
    {
        if type_is_concrete(&mentioned[k], plain, generic) {
            proof {
                if generic@.len() == 0 {
                    lemma_concrete_rawbuf(mentioned@[k as int]@, names_v(plain@), names_v(generic@));
                }
            }
            match ensure_instantiated(&mentioned[k], table, &mut mono, &p.classes, 0) {
                Ok(()) => {},
                Err(msg) => {
                    proof {
                        assert(crate::ast::types_v(mentioned@)[k as int] == mentioned@[k as int]@);
                        if no_templates(p.classes@) && generic@.len() == 0 {
                            assert(crate::typing::type_depth(program_mentions(fv, cv)[k as int]) > 32);
                            assert(deep_mention(fv, cv));
                        }
                    }
                    let ex = error_at(0, msg, 1, 1);
                    return Err(ex);
                },
            }
        }
        k += 1;
    }
    let mut t: usize = 0;
    while t < generic.len()
        invariant
            t <= generic@.len(),
            no_templates(p.classes@) && generic@.len() == 0 ==> mono@.len() == 0,
            crate::typing::keys_grow(table_keys(old(table)@), table_keys(table@)),
        decreases generic@.len() - t,
    {
        let probe = Type::Generic(generic[t].clone(), Box::new(Type::named("Integer")));
        match ensure_instantiated(&probe, table, &mut mono, &p.classes, 0) {
            Ok(()) => {},
            Err(msg) => return Err(error_at(0, msg, 1, 1)),
        }
        t += 1;
    }
    Ok(mono)
}

/// The first function named `main` takes one parameter.
pub open spec fn main_takes_one(fs: Seq<FunctionDeclV>) -> bool {
    main_of(fs) matches Some(m) && m.params.len() == 1
}

/// Some class of the list is a template.
pub open spec fn has_template(cs: Seq<ClassDeclV>) -> bool {
    exists|i: int| 0 <= i < cs.len() && (#[trigger] cs[i]).type_param is Some
}

/// An error of the declaration phase once the declaration rules pass: an
/// instance made for a mentioned container type failed (at file 0, 1:1;
/// when no class is a template, only a mentioned type nested more than 32
/// deep), the entry point broke its rules, or `main(argv)` lacks the
/// `Array` protocol.
pub open spec fn decl_phase_err(x: SemaError, fs: Seq<FunctionDeclV>, cs: Seq<ClassDeclV>, require_main: bool) -> bool {
    ||| (x.file_idx == 0 && x.err.line == 1 && x.err.col == 1
        && ((x.err.msg@ == too_deep_msg() && deep_mention(fs, cs)) || has_template(cs)))
    ||| Some(serr(x)) == entry_error(fs, require_main)
    ||| (x.err.msg@ == argv_protocol_msg() && main_takes_one(fs))
}

proof fn lemma_no_template_names(cs: Seq<ClassDeclV>, n: nat)
    requires
        !has_template(cs),
    ensures
        generic_names(cs, n).len() == 0,
    decreases n,
{
    if n > 0 && n <= cs.len() {
        lemma_no_template_names(cs, (n - 1) as nat);
        assert(cs[n - 1].type_param is None);
    }
}

/// The message for an `argv` entry point without the `Array` protocol.
pub open spec fn argv_protocol_msg() -> Seq<char> {
    "'main(argv)' needs class Array<T> in core.j with 'Array(len: Integer)' and 'set(i: Integer, value: T)'"@
}

/// Where the first function named `main` is.
fn find_main(fs: &Vec<FunctionDecl>) -> (r: Option<usize>)
    ensures
        match main_of(functions_v(fs@)) {
            Some(m) => r matches Some(i) && i < fs@.len() && fs@[i as int]@ == m,
            None => r is None,
        },
{
    let ghost fv = functions_v(fs@);
    let mut i: usize = 0;
    assert(fv.skip(0) =~= fv);
    while i < fs.len()
        invariant
            i <= fs@.len(),
            fv == functions_v(fs@),
            main_of(fv) == main_of(fv.skip(i as int)),
        decreases fs@.len() - i,
    {
        assert(fv.skip(i as int)[0] == fs@[i as int]@);
        if str_eq(fs[i].name.as_str(), "main") {
            return Some(i);
        }
        assert(fv.skip(i as int).skip(1) =~= fv.skip(i + 1));
        i += 1;
    }
    None
}

/// Does the `Array<String>` entry build through `Array(len: Integer)` and
/// `set(i: Integer, value: String)`?
fn argv_protocol_ok(table: &Vec<(String, ClassInfo)>) -> bool {
    let mut i: usize = 0;
    while i < table.len()
        invariant
            i <= table@.len(),
        decreases table@.len() - i,
    {
        if str_eq(table[i].0.as_str(), "Array<String>") {
            let info = &table[i].1;
            let int_ty = Type::named("Integer");
            let str_ty = Type::named("String");
            if !(info.ctor_params.len() == 1 && info.ctor_params[0].same(&int_ty)) {
                return false;
            }
            let mut j: usize = 0;
            while j < info.methods.len()
                invariant
                    j <= info.methods@.len(),
                decreases info.methods@.len() - j,
            {
                if str_eq(info.methods[j].0.as_str(), "set") {
                    let ps = &info.methods[j].1.params;
                    return ps.len() == 2 && ps[0].same(&int_ty) && ps[1].same(&str_ty);
                }
                j += 1;
            }
            return false;
        }
        i += 1;
    }
    false
}

/// The entry point's rules: `main` exists when required, returns Integer,
/// and takes nothing or one `Array<String>` that the class table can build.
fn check_entry(fs: &Vec<FunctionDecl>, require_main: bool, table: &Vec<(String, ClassInfo)>) -> (r: Result<(), SemaError>)
    ensures
        match entry_error(functions_v(fs@), require_main) {
            Some(e) => r matches Err(x) && serr(x) == e,
            None => r is Ok || (r matches Err(x) && x.err.msg@ == argv_protocol_msg()
                && main_takes_one(functions_v(fs@))),
        },
{
    match find_main(fs) {
        None => {
            if require_main {
                Err(error_at(0, lit_string("program has no entry point: 'function main() -> Integer'"), 1, 1))
            } else {
                Ok(())
            }
        },
        Some(i) => {
            let m = &fs[i];
            if !m.ret.is_named("Integer") {
                return Err(error_at(m.file_idx, lit_string("main must return Integer (the process exit code)"), m.line, m.col));
            }
            if m.params.len() > 0 {
                let argv_ty = Type::Generic(lit_string("Array"), Box::new(Type::named("String")));
                if m.params.len() != 1 || !m.params[0].ty.same(&argv_ty) {
                    assert(m.params.len() == 1 ==> params_v(m.params@)[0] == m.params@[0]@);
                    return Err(error_at(
                        m.file_idx,
                        lit_string("main must be 'function main() -> Integer' or 'function main(argv: Array<String>) -> Integer'"),
                        m.line,
                        m.col,
                    ));
                }
                assert(params_v(m.params@)[0] == m.params@[0]@);
                if !argv_protocol_ok(table) {
                    return Err(error_at(
                        m.file_idx,
                        lit_string("'main(argv)' needs class Array<T> in core.j with 'Array(len: Integer)' and 'set(i: Integer, value: T)'"),
                        m.line,
                        m.col,
                    ));
                }
            }
            Ok(())
        },
    }
}

/// What the checker knows once the declarations pass: the class table
/// (plain classes and container instances) and the stamped instances to
/// lower, with their types.
pub struct Declarations {
    pub classes: Vec<(String, ClassInfo)>,
    pub mono: Vec<(ClassDecl, Type)>,
}

/// Every declaration rule of a program, checked in order before any body:
/// functions, classes, name collisions, generic templates (in declaration
/// order), the container instances the program needs, and the entry point.
pub fn check_declarations(program: &Program, allow_intrinsics: bool, require_main: bool) -> (r: Result<Declarations, SemaError>)
    ensures
        match declaration_error(functions_v(program.functions@), classes_v(program.classes@), allow_intrinsics) {
            Some(e) => r matches Err(x) && serr(x) == e,
            None => (r is Ok ==> entry_error(functions_v(program.functions@), require_main) is None)
                && (r matches Err(x) ==> decl_phase_err(x, functions_v(program.functions@), classes_v(program.classes@), require_main))
                && (!has_template(classes_v(program.classes@)) ==> (r matches Ok(d) ==> d.mono@.len() == 0))
                && (r matches Ok(d) ==> crate::typing::keys_grow(plain_names(classes_v(program.classes@), program.classes@.len()), table_keys(d.classes@)))
                && (entry_error(functions_v(program.functions@), require_main) is Some ==> (r matches Err(x)
                    && ((x.file_idx == 0 && x.err.line == 1 && x.err.col == 1
                            && ((x.err.msg@ == crate::typing::too_deep_msg() && deep_mention(functions_v(program.functions@), classes_v(program.classes@)))
                                || has_template(classes_v(program.classes@))))
                        || Some(serr(x)) == entry_error(functions_v(program.functions@), require_main)))),
        },
{
    match check_functions(&program.functions) {
        Ok(()) => {},
        Err(e) => return Err(e),
    }
    let (mut table, generic) = match check_classes(&program.classes, allow_intrinsics) {
        Ok(x) => x,
        Err(e) => return Err(e),
    };
    let ghost cv = classes_v(program.classes@);
    let mut plain: Vec<String> = Vec::new();
    let mut i: usize = 0;
    while i < table.len()
        invariant
            i <= table@.len(),
            names_v(plain@) == table_keys(table@).take(i as int),
        decreases table@.len() - i,
    {
        let ghost before = names_v(plain@);
        plain.push(table[i].0.clone());
        assert(table_keys(table@).take(i + 1) =~= before.push(table@[i as int].0@));
        i += 1;
    }
    assert(table_keys(table@).take(table@.len() as int) =~= table_keys(table@));
    match check_collisions(&program.functions, &plain, &generic, Ghost(cv)) {
        Ok(()) => {},
        Err(e) => return Err(e),
    }
    match check_templates(&program.functions, &plain, &generic) {
        Ok(()) => {},
        Err(e) => return Err(e),
    }
    proof {
        if !has_template(classes_v(program.classes@)) {
            lemma_no_template_names(classes_v(program.classes@), program.classes@.len());
            assert(no_templates(program.classes@)) by {
                assert forall|i: int| 0 <= i < program.classes@.len() implies (#[trigger] program.classes@[i]).type_param is None by {
                    assert(classes_v(program.classes@)[i] == program.classes@[i]@);
                }
            }
        }
    }
    let mono = match instantiate_mentioned(program, &mut table, &plain, &generic) {
        Ok(m) => m,
        Err(e) => return Err(e),
    };
    match check_entry(&program.functions, require_main, &table) {
        Ok(()) => {},
        Err(e) => return Err(e),
    }
    Ok(Declarations { classes: table, mono })
}

} // verus!
