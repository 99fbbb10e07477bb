//! Typing whole functions and classes (see [`crate::body_spec::function_spec`]
//! and [`crate::body_spec::class_spec`]).

use vstd::prelude::*;
use crate::ast::{ClassDecl, ClassDeclV, CtorDecl, FieldDecl, FieldDeclV, FunctionDecl, MethodDecl, MethodDeclV, Param, Type, TypeV, fields_v, methods_v, params_v};
use crate::body::{Body, lower_block};
use crate::body_spec::{block_ok, block_size, class_spec, ctor_spec, fields_spec, function_spec, methods_spec};
use crate::errors::{JimError, JimErrorV};
use crate::lowering::{Inst, Mismatch, append_insts, expect, insts_v, no_insts};
use crate::lowering_spec::{InstV, Place, Tables, surface};
use crate::sema::Env;
use crate::text::{lit_string, push_str};

verus! {

/// A body the parser could have made, small enough to count loop depths in.
pub open spec fn body_ok(b: crate::ast::BlockV) -> bool {
    block_ok(b) && block_size(b) < 0xffff_ffff
}

/// Every default is a surface expression and every body is [`body_ok`].
pub open spec fn class_ok(c: ClassDeclV) -> bool {
    &&& forall|i: int| 0 <= i < c.fields.len() ==> surface(#[trigger] c.fields[i].default)
    &&& match c.ctor {
        Some(ct) => body_ok(ct.body),
        None => true,
    }
    &&& forall|i: int| 0 <= i < c.methods.len() ==> body_ok(#[trigger] c.methods[i].body)
}

/// A copy of a parameter list.
pub fn copy_params(ps: &Vec<Param>) -> (r: Vec<Param>)
    ensures
        params_v(r@) == params_v(ps@),
{
    let mut out: Vec<Param> = Vec::new();
    let mut i: usize = 0;
    while i < ps.len()
        invariant
            i <= ps@.len(),
            out@.len() == i,
            forall|j: int| 0 <= j < i ==> #[trigger] out@[j]@ == ps@[j]@,
        decreases ps@.len() - i,
    {
        let p = &ps[i];
        out.push(Param { name: p.name.clone(), ty: p.ty.copy(), line: p.line, col: p.col });
        i += 1;
    }
    assert(params_v(out@) =~= params_v(ps@));
    out
}

/// Type a function (see [`function_spec`]).
pub fn lower_function(t: &Tables, f: FunctionDecl) -> (r: Result<(FunctionDecl, Vec<Inst>), JimError>)
    requires
        body_ok(f.body@),
    ensures
        match function_spec(*t, f@) {
            Ok((fv, rs)) => r matches Ok((x, reqs)) && x@ == fv && insts_v(reqs@) == rs,
            Err(e) => r matches Err(y) && y@ == e,
        },
{
    match crate::headers::check_fn_result(&t.known, f.name.as_str(), &f.ret, f.line, f.col) {
        Ok(()) => {},
        Err(x) => return Err(x),
    }
    let env = match crate::headers::params_env(&t.known, &f.params) {
        Ok(e) => e,
        Err(x) => return Err(x),
    };
    let mut bd = Body {
        place: Place { env, current: None, this_ty: None, from_std: f.from_std },
        fn_name: f.name.clone(),
        ret: f.ret.copy(),
        depth: 0,
        marks: Vec::new(),
    };
    assert(bd.marks@ =~= Seq::<u32>::empty());
    let (body, rs) = match lower_block(t, &mut bd, &f.body) {
        Ok(v) => v,
        Err(x) => return Err(x),
    };
    match crate::headers::check_fn_returns(f.name.as_str(), &f.ret, &body, f.line, f.col) {
        Ok(()) => {},
        Err(x) => return Err(x),
    }
    let FunctionDecl { name, type_params, params, ret, body: _, file_idx, from_std, line, col } = f;
    Ok((FunctionDecl { name, type_params, params, ret, body, file_idx, from_std, line, col }, rs))
}

fn lower_fields(t: &Tables, c: &ClassDecl) -> (r: Result<(Vec<FieldDecl>, Vec<Inst>), JimError>)
    requires
        class_ok(c@),
    ensures
        match fields_spec(*t, c@, c.fields@.len()) {
            Ok((fs, rs)) => r matches Ok((v, reqs)) && fields_v(v@) == fs && insts_v(reqs@) == rs,
            Err(e) => r matches Err(y) && y@ == e,
        },
{
    let ghost cv = c@;
    let mut out: Vec<FieldDecl> = Vec::new();
    let mut reqs = no_insts();
    let mut i: usize = 0;
    assert(fields_v(out@) =~= Seq::<FieldDeclV>::empty());
    while i < c.fields.len()
        invariant
            i <= c.fields@.len(),
            cv == c@,
            class_ok(cv),
            fields_spec(*t, cv, i as nat) == Ok::<(Seq<FieldDeclV>, Seq<InstV>), JimErrorV>((fields_v(out@), insts_v(reqs@))),
        decreases c.fields@.len() - i,
    {
        let fd = &c.fields[i];
        assert(cv.fields[i as int] == fd@);
        assert(surface(cv.fields[i as int].default));
        match crate::headers::check_field(&t.known, fd) {
            Ok(()) => {},
            Err(x) => {
                proof {
                    lemma_fields_err(*t, cv, (i + 1) as nat, cv.fields.len());
                }
                return Err(x);
            },
        }
        let pl = Place { env: Env::new(), current: None, this_ty: None, from_std: c.from_std };
        match expect(t, &pl, &fd.default, &fd.ty, &Mismatch::FieldDefault(fd.name.clone())) {
            Ok((d, r)) => {
                let ghost f0 = fields_v(out@);
                let nf = FieldDecl { is_public: fd.is_public, name: fd.name.clone(), ty: fd.ty.copy(), default: d, line: fd.line, col: fd.col };
                let ghost nv = nf@;
                out.push(nf);
                assert(fields_v(out@) =~= f0.push(nv));
                append_insts(&mut reqs, r);
            },
            Err(x) => {
                proof {
                    lemma_fields_err(*t, cv, (i + 1) as nat, cv.fields.len());
                }
                return Err(x);
            },
        }
        i += 1;
    }
    Ok((out, reqs))
}

proof fn lemma_fields_err(t: Tables, c: ClassDeclV, m: nat, k: nat)
    requires
        m <= k <= c.fields.len(),
        fields_spec(t, c, m) is Err,
    ensures
        fields_spec(t, c, k) == fields_spec(t, c, m),
    decreases k - m,
{
    if m < k {
        lemma_fields_err(t, c, m, (k - 1) as nat);
    }
}

proof fn lemma_methods_err(t: Tables, c: ClassDeclV, st: TypeV, m: nat, k: nat)
    requires
        m <= k <= c.methods.len(),
        methods_spec(t, c, st, m) is Err,
    ensures
        methods_spec(t, c, st, k) == methods_spec(t, c, st, m),
    decreases k - m,
{
    if m < k {
        lemma_methods_err(t, c, st, m, (k - 1) as nat);
    }
}

fn lower_ctor(t: &Tables, c: &ClassDecl, self_ty: &Type) -> (r: Result<(Option<CtorDecl>, Vec<Inst>), JimError>)
    requires
        class_ok(c@),
    ensures
        match ctor_spec(*t, c@, self_ty@) {
            Ok((ct, rs)) => r matches Ok((v, reqs)) && (match v { Some(x) => Some(x@), None => None::<crate::ast::CtorDeclV> }) == ct && insts_v(reqs@) == rs,
            Err(e) => r matches Err(y) && y@ == e,
        },
{
    match &c.ctor {
        None => Ok((None, no_insts())),
        Some(ct) => {
            let env = match crate::headers::params_env(&t.known, &ct.params) {
                Ok(e) => e,
                Err(x) => return Err(x),
            };
            let mut nm = lit_string(c.name.as_str());
            push_str(&mut nm, " constructor");
            let mut bd = Body {
                place: Place { env, current: Some(c.name.clone()), this_ty: Some(self_ty.copy()), from_std: c.from_std },
                fn_name: nm,
                ret: Type::named("None"),
                depth: 0,
                marks: Vec::new(),
            };
            assert(bd.marks@ =~= Seq::<u32>::empty());
            let (body, rs) = match lower_block(t, &mut bd, &ct.body) {
                Ok(v) => v,
                Err(x) => return Err(x),
            };
            Ok((Some(CtorDecl { params: copy_params(&ct.params), body, line: ct.line, col: ct.col }), rs))
        },
    }
}

fn lower_methods(t: &Tables, c: &ClassDecl, self_ty: &Type) -> (r: Result<(Vec<MethodDecl>, Vec<Inst>), JimError>)
    requires
        class_ok(c@),
    ensures
        match methods_spec(*t, c@, self_ty@, c.methods@.len()) {
            Ok((ms, rs)) => r matches Ok((v, reqs)) && methods_v(v@) == ms && insts_v(reqs@) == rs,
            Err(e) => r matches Err(y) && y@ == e,
        },
{
    let ghost cv = c@;
    let mut out: Vec<MethodDecl> = Vec::new();
    let mut reqs = no_insts();
    let mut i: usize = 0;
    assert(methods_v(out@) =~= Seq::<MethodDeclV>::empty());
    while i < c.methods.len()
        invariant
            i <= c.methods@.len(),
            cv == c@,
            class_ok(cv),
            methods_spec(*t, cv, self_ty@, i as nat) == Ok::<(Seq<MethodDeclV>, Seq<InstV>), JimErrorV>((methods_v(out@), insts_v(reqs@))),
        decreases c.methods@.len() - i,
    {
        let m = &c.methods[i];
        assert(cv.methods[i as int] == m@);
        assert(crate::members::body_ok(cv.methods[i as int].body));
        match crate::headers::check_method_result(&t.known, c.name.as_str(), m.name.as_str(), &m.ret, m.line, m.col) {
            Ok(()) => {},
            Err(x) => {
                proof {
                    lemma_methods_err(*t, cv, self_ty@, (i + 1) as nat, cv.methods.len());
                }
                return Err(x);
            },
        }
        let env = match crate::headers::params_env(&t.known, &m.params) {
            Ok(e) => e,
            Err(x) => {
                proof {
                    lemma_methods_err(*t, cv, self_ty@, (i + 1) as nat, cv.methods.len());
                }
                return Err(x);
            },
        };
        let mut nm = lit_string(c.name.as_str());
        push_str(&mut nm, ".");
        push_str(&mut nm, m.name.as_str());
        let mut bd = Body {
            place: Place { env, current: Some(c.name.clone()), this_ty: Some(self_ty.copy()), from_std: c.from_std },
            fn_name: nm,
            ret: m.ret.copy(),
            depth: 0,
            marks: Vec::new(),
        };
        assert(bd.marks@ =~= Seq::<u32>::empty());
        let (body, r) = match lower_block(t, &mut bd, &m.body) {
            Ok(v) => v,
            Err(x) => {
                proof {
                    lemma_methods_err(*t, cv, self_ty@, (i + 1) as nat, cv.methods.len());
                }
                return Err(x);
            },
        };
        match crate::headers::check_method_returns(c.name.as_str(), m.name.as_str(), &m.ret, &body, m.line, m.col) {
            Ok(()) => {},
            Err(x) => {
                proof {
                    lemma_methods_err(*t, cv, self_ty@, (i + 1) as nat, cv.methods.len());
                }
                return Err(x);
            },
        }
        let ghost m0 = methods_v(out@);
        let nmd = MethodDecl { is_public: m.is_public, name: m.name.clone(), params: copy_params(&m.params), ret: m.ret.copy(), body, line: m.line, col: m.col };
        let ghost nv = nmd@;
        out.push(nmd);
        assert(methods_v(out@) =~= m0.push(nv));
        append_insts(&mut reqs, r);
        i += 1;
    }
    Ok((out, reqs))
}

/// Type a class (see [`class_spec`]).
pub fn lower_class(t: &Tables, c: &ClassDecl, self_ty: &Type) -> (r: Result<(ClassDecl, Vec<Inst>), JimError>)
    requires
        class_ok(c@),
    ensures
        match class_spec(*t, c@, self_ty@) {
            Ok((cv, rs)) => r matches Ok((x, reqs)) && x@ == cv && insts_v(reqs@) == rs,
            Err(e) => r matches Err(y) && y@ == e,
        },
{
    let (fields, mut r1) = match lower_fields(t, c) {
        Ok(v) => v,
        Err(x) => return Err(x),
    };
    let (ctor, r2) = match lower_ctor(t, c, self_ty) {
        Ok(v) => v,
        Err(x) => return Err(x),
    };
    let (methods, r3) = match lower_methods(t, c, self_ty) {
        Ok(v) => v,
        Err(x) => return Err(x),
    };
    append_insts(&mut r1, r2);
    append_insts(&mut r1, r3);
    Ok((ClassDecl {
        name: c.name.clone(),
        type_param: None,
        fields,
        ctor,
        methods,
        file_idx: c.file_idx,
        from_std: c.from_std,
        line: c.line,
        col: c.col,
    }, r1))
}

} // verus!
