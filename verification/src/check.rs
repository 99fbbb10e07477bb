//! The whole type check of a program: its declarations (see
//! [`crate::declare`]), then every non-generic function and class, every
//! container instance, and every instance of a generic function that the
//! bodies ask for, until no more are asked for.

use vstd::prelude::*;
use crate::ast::{ClassDecl, ClassDeclV, FunctionDecl, FunctionDeclV, Program, Type, TypeV, classes_v, functions_v, names_v};
use crate::body_spec::{class_spec, function_spec};
use crate::declare::{Declarations, check_declarations, serr};
use crate::declare_spec::{declaration_error, entry_error};
use crate::errors::JimError;
use crate::leaves::function_table;
use crate::lowering::Inst;
use crate::lowering_spec::Tables;
use crate::members::{lower_class, lower_function};
use crate::sema::SemaError;
use crate::shape::{body_check, class_check};
use crate::text::{lit_string, push_str};
use crate::typing::{ClassInfo, ensure_instantiated, type_is_concrete};

verus! {

/// The non-generic functions of a list, in their order.
pub open spec fn plain_functions(fs: Seq<FunctionDeclV>) -> Seq<FunctionDeclV>
    decreases fs.len(),
{
    if fs.len() == 0 {
        fs
    } else {
        let p = plain_functions(fs.drop_last());
        if fs.last().type_params.len() == 0 { p.push(fs.last()) } else { p }
    }
}

proof fn lemma_plain_functions_plain(fs: Seq<FunctionDeclV>)
    ensures
        forall|i: int| 0 <= i < plain_functions(fs).len() ==> (#[trigger] plain_functions(fs)[i]).type_params.len() == 0,
    decreases fs.len(),
{
    if fs.len() > 0 {
        lemma_plain_functions_plain(fs.drop_last());
    }
}

/// The bodies of a program as the parser gives them: every non-generic
/// function's body and every non-template class is in surface form and
/// small enough to count loop depths in. (The type checker is not meant
/// for anything else: it stops on other forms.)
pub open spec fn shaped(fs: Seq<FunctionDeclV>, cs: Seq<ClassDeclV>) -> bool {
    &&& forall|i: int| 0 <= i < fs.len() && (#[trigger] fs[i]).type_params.len() == 0 ==> crate::members::body_ok(fs[i].body)
    &&& forall|i: int| 0 <= i < cs.len() && (#[trigger] cs[i]).type_param is None ==> crate::members::class_ok(cs[i])
}

/// Does the program have the parser's shape?
pub fn shape_check(p: &Program) -> (b: bool)
    ensures
        b == shaped(functions_v(p.functions@), classes_v(p.classes@)),
{
    let mut i: usize = 0;
    while i < p.functions.len()
        invariant
            i <= p.functions@.len(),
            forall|j: int| 0 <= j < i && (#[trigger] functions_v(p.functions@)[j]).type_params.len() == 0
                ==> crate::members::body_ok(functions_v(p.functions@)[j].body),
        decreases p.functions@.len() - i,
    {
        assert(functions_v(p.functions@)[i as int] == p.functions@[i as int]@);
        if p.functions[i].type_params.len() == 0 && !body_check(&p.functions[i].body) {
            assert(!crate::members::body_ok(functions_v(p.functions@)[i as int].body));
            return false;
        }
        i += 1;
    }
    let mut k: usize = 0;
    while k < p.classes.len()
        invariant
            k <= p.classes@.len(),
            forall|j: int| 0 <= j < k && (#[trigger] classes_v(p.classes@)[j]).type_param is None
                ==> crate::members::class_ok(classes_v(p.classes@)[j]),
        decreases p.classes@.len() - k,
    {
        assert(classes_v(p.classes@)[k as int] == p.classes@[k as int]@);
        if p.classes[k].type_param.is_none() && !class_check(&p.classes[k]) {
            assert(!crate::members::class_ok(classes_v(p.classes@)[k as int]));
            return false;
        }
        k += 1;
    }
    true
}

proof fn lemma_plain_bodies(fs: Seq<FunctionDeclV>)
    requires
        forall|i: int| 0 <= i < fs.len() && (#[trigger] fs[i]).type_params.len() == 0 ==> crate::members::body_ok(fs[i].body),
    ensures
        forall|i: int| 0 <= i < plain_functions(fs).len() ==> crate::members::body_ok((#[trigger] plain_functions(fs)[i]).body),
    decreases fs.len(),
{
    if fs.len() > 0 {
        let d = fs.drop_last();
        assert forall|i: int| 0 <= i < d.len() && (#[trigger] d[i]).type_params.len() == 0 implies crate::members::body_ok(d[i].body) by {
            assert(d[i] == fs[i]);
        }
        lemma_plain_bodies(d);
        assert(fs.last() == fs[fs.len() - 1]);
    }
}

proof fn lemma_plain_classes_ok(cs: Seq<ClassDeclV>)
    requires
        forall|i: int| 0 <= i < cs.len() && (#[trigger] cs[i]).type_param is None ==> crate::members::class_ok(cs[i]),
    ensures
        forall|i: int| 0 <= i < plain_class_decls(cs).len() ==> crate::members::class_ok(#[trigger] plain_class_decls(cs)[i]),
    decreases cs.len(),
{
    if cs.len() > 0 {
        let d = cs.drop_last();
        assert forall|i: int| 0 <= i < d.len() && (#[trigger] d[i]).type_param is None implies crate::members::class_ok(d[i]) by {
            assert(d[i] == cs[i]);
        }
        lemma_plain_classes_ok(d);
        assert(cs.last() == cs[cs.len() - 1]);
        let pd = plain_class_decls(d);
        assert forall|i: int| 0 <= i < plain_class_decls(cs).len() implies crate::members::class_ok(#[trigger] plain_class_decls(cs)[i]) by {
            if i < pd.len() {
                assert(plain_class_decls(cs)[i] == pd[i]);
            }
        }
    }
}

/// Some function of the list is generic.
pub open spec fn has_generic_fn(fs: Seq<FunctionDeclV>) -> bool {
    exists|i: int| 0 <= i < fs.len() && (#[trigger] fs[i]).type_params.len() > 0
}

/// Typing `f` against `t` fails with `x`'s error, reported at `f`'s file.
pub open spec fn fn_fails_with(t: Tables, f: FunctionDeclV, x: SemaError) -> bool {
    function_spec(t, f) matches Err(e) && x.file_idx == f.file_idx && x.err@ == e
}

/// Typing the non-generic class `c` against `t` fails with `x`'s error.
pub open spec fn class_fails_with(t: Tables, c: ClassDeclV, x: SemaError) -> bool {
    class_spec(t, c, TypeV::Named(c.name)) matches Err(e) && x.file_idx == c.file_idx && x.err@ == e
}

/// `x` is the error of typing one of the non-generic functions or classes
/// against `t`.
pub open spec fn plain_failure(t: Tables, fs: Seq<FunctionDeclV>, cs: Seq<ClassDeclV>, x: SemaError) -> bool {
    ||| exists|i: int| 0 <= i < plain_functions(fs).len() && #[trigger] fn_fails_with(t, plain_functions(fs)[i], x)
    ||| exists|k: int| 0 <= k < plain_class_decls(cs).len() && #[trigger] class_fails_with(t, plain_class_decls(cs)[k], x)
}

/// Tables as a type check of classes `cs` builds them: with this
/// intrinsics switch, and every non-template class known by name.
pub open spec fn tables_for(t: Tables, cs: Seq<ClassDeclV>, allow_intrinsics: bool) -> bool {
    t.allow_intrinsics == allow_intrinsics
        && crate::typing::keys_grow(crate::declare_spec::plain_names(cs, cs.len()), names_v(t.known@))
}

/// Why a type check may fail: a declaration rule (exactly as
/// [`declaration_error`] says), a rule of the declaration phase after it
/// (see [`decl_phase_err`]), the typing of a non-generic function or class
/// (against tables made with this intrinsics switch), or something made
/// from a generic function or a class template.
pub open spec fn failure_explained(fs: Seq<FunctionDeclV>, cs: Seq<ClassDeclV>, allow_intrinsics: bool, require_main: bool, x: SemaError) -> bool {
    ||| declaration_error(fs, cs, allow_intrinsics) matches Some(e) && serr(x) == e
    ||| declaration_error(fs, cs, allow_intrinsics) is None && crate::declare::decl_phase_err(x, fs, cs, require_main)
    ||| exists|t: Tables| tables_for(t, cs, allow_intrinsics) && #[trigger] plain_failure(t, fs, cs, x)
    ||| crate::declare::has_template(cs)
    ||| has_generic_fn(fs)
}

/// No function of the list has type parameters.
pub open spec fn none_generic(fs: Seq<FunctionDeclV>) -> bool {
    forall|i: int| 0 <= i < fs.len() ==> (#[trigger] fs[i]).type_params.len() == 0
}

/// From position `n` on, no two functions of the list share a name.
pub open spec fn names_distinct_from(fs: Seq<FunctionDeclV>, n: int) -> bool {
    forall|a: int, b: int| n <= a < b < fs.len() ==> #[trigger] fs[a].name != #[trigger] fs[b].name
}

/// `g` is what typing `f` against the tables `t` gives.
pub open spec fn lowered_as(t: Tables, f: FunctionDeclV, g: FunctionDeclV) -> bool {
    function_spec(t, f) matches Ok((fv, _)) && g == fv
}

/// `out` begins with the non-generic functions of `fs`, each typed against `t`.
pub open spec fn lowers_plain(t: Tables, fs: Seq<FunctionDeclV>, out: Seq<FunctionDeclV>) -> bool {
    let p = plain_functions(fs);
    &&& p.len() <= out.len()
    &&& forall|k: int| 0 <= k < p.len() ==> #[trigger] lowered_as(t, p[k], out[k])
}

/// The non-generic classes of a list, in their order.
pub open spec fn plain_class_decls(cs: Seq<ClassDeclV>) -> Seq<ClassDeclV>
    decreases cs.len(),
{
    if cs.len() == 0 {
        cs
    } else {
        let p = plain_class_decls(cs.drop_last());
        if cs.last().type_param is None { p.push(cs.last()) } else { p }
    }
}

/// `g` is what typing the non-generic class `c` against the tables `t` gives.
pub open spec fn class_lowered_as(t: Tables, c: ClassDeclV, g: ClassDeclV) -> bool {
    class_spec(t, c, TypeV::Named(c.name)) matches Ok((cv, _)) && g == cv
}

/// `out` begins with the non-generic classes of `cs`, each typed against `t`.
pub open spec fn lowers_plain_classes(t: Tables, cs: Seq<ClassDeclV>, out: Seq<ClassDeclV>) -> bool {
    let p = plain_class_decls(cs);
    &&& p.len() <= out.len()
    &&& forall|k: int| 0 <= k < p.len() ==> #[trigger] class_lowered_as(t, p[k], out[k])
}

/// The lowered program begins with the non-generic functions and the
/// non-generic classes of the given one, each typed against one set of
/// tables as [`tables_for`] describes them.
pub open spec fn starts_with_plain(fs: Seq<FunctionDeclV>, cs: Seq<ClassDeclV>, out: Program, allow_intrinsics: bool) -> bool {
    exists|t: Tables| tables_for(t, cs, allow_intrinsics)
        && #[trigger] lowers_plain(t, fs, functions_v(out.functions@))
        && lowers_plain_classes(t, cs, classes_v(out.classes@))
}

/// The keys of a class table.
fn keys_of(t: &Vec<(String, ClassInfo)>) -> (r: Vec<String>)
    ensures
        names_v(r@) == crate::typing::table_keys(t@),
{
    let mut out: Vec<String> = Vec::new();
    let mut i: usize = 0;
    while i < t.len()
        invariant
            i <= t@.len(),
            names_v(out@) == crate::typing::table_keys(t@).take(i as int),
        decreases t@.len() - i,
    {
        let ghost before = names_v(out@);
        out.push(t[i].0.clone());
        assert(names_v(out@) =~= before.push(t@[i as int].0@));
        assert(crate::typing::table_keys(t@).take(i + 1) =~= crate::typing::table_keys(t@).take(i as int).push(t@[i as int].0@));
        i += 1;
    }
    assert(crate::typing::table_keys(t@).take(t@.len() as int) =~= crate::typing::table_keys(t@));
    out
}

/// The keys of queued instances, in order.
pub open spec fn inst_keys(q: Seq<Inst>) -> Seq<Seq<char>> {
    Seq::new(q.len(), |i: int| q[i].key@)
}

/// The queue holds one instance per asked-for key: its keys are the keys
/// seen so far, with no key twice.
pub open spec fn queue_ok(q: Seq<Inst>, seen: Seq<String>) -> bool {
    inst_keys(q) == names_v(seen) && names_v(seen).no_duplicates()
}

/// Queue the requested instances whose keys were not asked for before.
fn enqueue(queue: &mut Vec<Inst>, seen: &mut Vec<String>, reqs: Vec<Inst>)
    ensures
        queue_ok(old(queue)@, old(seen)@) ==> queue_ok(final(queue)@, final(seen)@),
        old(queue)@.len() <= final(queue)@.len(),
        forall|k: int| 0 <= k < old(queue)@.len() ==> #[trigger] final(queue)@[k] == old(queue)@[k],
{
    let ghost q0 = queue@;
    let ghost ok0 = queue_ok(queue@, seen@);
    let mut reqs = reqs;
    let n = reqs.len();
    let mut i: usize = 0;
    while i < n
        invariant
            i <= n,
            reqs@.len() == n - i,
            ok0 ==> queue_ok(queue@, seen@),
            q0.len() <= queue@.len(),
            forall|k: int| 0 <= k < q0.len() ==> #[trigger] queue@[k] == q0[k],
        decreases n - i,
    {
        let r = reqs.remove(0);
        if !crate::reach::has_name(seen, r.key.as_str()) {
            let ghost s0 = names_v(seen@);
            let ghost qb = queue@;
            let k = r.key.clone();
            seen.push(k);
            let ghost rk = r.key@;
            queue.push(r);
            proof {
                assert(names_v(seen@) =~= s0.push(rk));
                assert(inst_keys(queue@) =~= inst_keys(qb).push(rk));
                if ok0 {
                    assert(names_v(seen@).no_duplicates()) by {
                        assert forall|a: int, b: int| 0 <= a < b < names_v(seen@).len() implies names_v(seen@)[a] != names_v(seen@)[b] by {
                            if b == s0.len() {
                                assert(names_v(seen@)[a] == s0[a]);
                                assert(s0.contains(s0[a]));
                            }
                        }
                    }
                }
                assert forall|k: int| 0 <= k < q0.len() implies #[trigger] queue@[k] == q0[k] by {
                    assert(queue@[k] == qb[k]);
                }
            }
        }
        i += 1;
    }
}

fn copy_function(f: &FunctionDecl) -> (r: FunctionDecl) {
    FunctionDecl {
        name: f.name.clone(),
        type_params: f.type_params.clone(),
        params: crate::members::copy_params(&f.params),
        ret: f.ret.copy(),
        body: crate::copy::copy_body(&f.body),
        file_idx: f.file_idx,
        from_std: f.from_std,
        line: f.line,
        col: f.col,
    }
}

fn shape_error(file_idx: usize, line: u32, col: u32) -> (e: SemaError) {
    SemaError { file_idx, err: JimError::new(lit_string("a body the parser cannot produce reached type checking"), line, col) }
}

/// Type a class of the parser's shape, collecting what it asks for.
fn plain_class_into(t: &Tables, c: &ClassDecl, self_ty: &Type, out: &mut Vec<ClassDecl>, queue: &mut Vec<Inst>, seen: &mut Vec<String>) -> (r: Result<(), SemaError>)
    requires
        crate::members::class_ok(c@),
    ensures
        r is Err ==> final(out)@ == old(out)@,
        r is Ok ==> final(out)@.len() == old(out)@.len() + 1,
        r is Ok ==> forall|k: int| 0 <= k < old(out)@.len() ==> #[trigger] final(out)@[k] == old(out)@[k],
        r is Ok ==> (class_spec(*t, c@, self_ty@) matches Ok((cv, _)) && final(out)@.last()@ == cv),
        r matches Err(x) ==> (class_spec(*t, c@, self_ty@) matches Err(e) && x.file_idx == c.file_idx && x.err@ == e),
        queue_ok(old(queue)@, old(seen)@) ==> queue_ok(final(queue)@, final(seen)@),
        old(queue)@.len() <= final(queue)@.len(),
        forall|k: int| 0 <= k < old(queue)@.len() ==> #[trigger] final(queue)@[k] == old(queue)@[k],
{
    match lower_class(t, c, self_ty) {
        Ok((lc, reqs)) => {
            out.push(lc);
            enqueue(queue, seen, reqs);
            Ok(())
        },
        Err(e) => Err(SemaError { file_idx: c.file_idx, err: e }),
    }
}

/// Type a class (checked for shape first), collecting what it asks for.
fn class_into(t: &Tables, c: &ClassDecl, self_ty: &Type, out: &mut Vec<ClassDecl>, queue: &mut Vec<Inst>, seen: &mut Vec<String>) -> (r: Result<(), SemaError>)
    ensures
        r is Err ==> final(out)@ == old(out)@,
        r is Ok ==> final(out)@.len() == old(out)@.len() + 1,
        r is Ok ==> forall|k: int| 0 <= k < old(out)@.len() ==> #[trigger] final(out)@[k] == old(out)@[k],
        r is Ok ==> (class_spec(*t, c@, self_ty@) matches Ok((cv, _)) && final(out)@.last()@ == cv),
        queue_ok(old(queue)@, old(seen)@) ==> queue_ok(final(queue)@, final(seen)@),
        old(queue)@.len() <= final(queue)@.len(),
        forall|k: int| 0 <= k < old(queue)@.len() ==> #[trigger] final(queue)@[k] == old(queue)@[k],
{
    if !class_check(c) {
        return Err(shape_error(c.file_idx, c.line, c.col));
    }
    match lower_class(t, c, self_ty) {
        Ok((lc, reqs)) => {
            out.push(lc);
            enqueue(queue, seen, reqs);
            Ok(())
        },
        Err(e) => Err(SemaError { file_idx: c.file_idx, err: e }),
    }
}

/// Type a container instance made while instantiating a generic function.
fn class_instance_into(t: &Tables, c: &ClassDecl, self_ty: &Type, out: &mut Vec<ClassDecl>, queue: &mut Vec<Inst>, seen: &mut Vec<String>) -> (r: Result<(), SemaError>)
    ensures
        queue_ok(old(queue)@, old(seen)@) ==> queue_ok(final(queue)@, final(seen)@),
        old(queue)@.len() <= final(queue)@.len(),
        forall|k: int| 0 <= k < old(queue)@.len() ==> #[trigger] final(queue)@[k] == old(queue)@[k],
        old(out)@.len() <= final(out)@.len(),
        forall|k: int| 0 <= k < old(out)@.len() ==> #[trigger] final(out)@[k] == old(out)@[k],
{
    class_into(t, c, self_ty, out, queue, seen)
}

/// Type an instance's body; the lowered function keeps its name and type
/// parameters.
fn lower_instance(t: &Tables, f: FunctionDecl) -> (r: Result<(FunctionDecl, Vec<Inst>), JimError>)
    requires
        crate::members::body_ok(f.body@),
    ensures
        r matches Ok((lf, _)) ==> lf@.name == f@.name && lf@.type_params == f@.type_params,
{
    lower_function(t, f)
}

/// The instances of generic functions the bodies ask for, made in the
/// order they were asked for (at most 1000), with the container instances
/// their bodies mention: each queued instance is lowered and appended to
/// `out_fns` under its key.
#[verifier::loop_isolation(false)]
#[verifier::spinoff_prover]
#[verifier::rlimit(40)]
fn run_instances(tables: &mut Tables, templates: &Vec<ClassDecl>, queue: &mut Vec<Inst>, seen: &mut Vec<String>, out_fns: &mut Vec<FunctionDecl>, out_classes: &mut Vec<ClassDecl>) -> (r: Result<(), SemaError>)
    requires
        queue_ok(old(queue)@, old(seen)@),
        forall|k: int| 0 <= k < old(out_fns)@.len() ==> (#[trigger] old(out_fns)@[k])@.type_params.len() == 0,
    ensures
        r is Ok ==> final(out_fns)@.len() == old(out_fns)@.len() + final(queue)@.len(),
        r is Ok ==> forall|k: int| 0 <= k < final(queue)@.len() ==> (#[trigger] final(out_fns)@[old(out_fns)@.len() + k])@.name == final(queue)@[k].key@,
        r is Ok ==> forall|k: int| 0 <= k < final(out_fns)@.len() ==> (#[trigger] final(out_fns)@[k])@.type_params.len() == 0,
        r is Ok ==> queue_ok(final(queue)@, final(seen)@),
        old(out_fns)@.len() <= final(out_fns)@.len(),
        forall|k: int| 0 <= k < old(out_fns)@.len() ==> #[trigger] final(out_fns)@[k] == old(out_fns)@[k],
        old(out_classes)@.len() <= final(out_classes)@.len(),
        forall|k: int| 0 <= k < old(out_classes)@.len() ==> #[trigger] final(out_classes)@[k] == old(out_classes)@[k],
{
    let ghost first = out_fns@;
    let ghost first_classes = out_classes@;
    let mut count: usize = 0;
    let mut qi: usize = 0;
    while qi < queue.len()
        invariant
            count <= 1000,
            qi <= queue@.len(),
            queue_ok(queue@, seen@),
            out_fns@.len() == first.len() + qi,
            forall|k: int| 0 <= k < first.len() ==> #[trigger] out_fns@[k] == first[k],
            forall|k: int| 0 <= k < qi ==> (#[trigger] out_fns@[first.len() + k])@.name == queue@[k].key@,
            forall|k: int| 0 <= k < out_fns@.len() ==> (#[trigger] out_fns@[k])@.type_params.len() == 0,
            first_classes.len() <= out_classes@.len(),
            forall|k: int| 0 <= k < first_classes.len() ==> #[trigger] out_classes@[k] == first_classes[k],
        decreases 1001 - count,
    {
        count += 1;
        let ti = match crate::lowering::find_template_idx(&tables.fn_templates, queue[qi].template.as_str()) {
            Some(x) => x,
            None => return Err(shape_error(0, 1, 1)),
        };
        if count > 1000 {
            let tf = &tables.fn_templates[ti];
            return Err(SemaError {
                file_idx: tf.file_idx,
                err: JimError::new(lit_string("too many generic instantiations (is a generic function calling itself with ever-growing type arguments?)"), tf.line, tf.col),
            });
        }
        let tmpl = copy_function(&tables.fn_templates[ti]);
        let file_idx = tmpl.file_idx;
        let key = queue[qi].key.clone();
        let decl = crate::subst::subst_function(tmpl, queue[qi].bindings.as_slice(), key.as_str());
        let mut mentioned: Vec<Type> = Vec::new();
        let mut p: usize = 0;
        while p < decl.params.len()
            invariant
                p <= decl.params@.len(),
            decreases decl.params@.len() - p,
        {
            mentioned.push(decl.params[p].ty.copy());
            p += 1;
        }
        mentioned.push(decl.ret.copy());
        crate::scan::scan_block(&decl.body, &mut mentioned);
        let mut new_mono: Vec<(ClassDecl, Type)> = Vec::new();
        let mut m: usize = 0;
        while m < mentioned.len()
            invariant
                m <= mentioned@.len(),
            decreases mentioned@.len() - m,
        {
            let keys = keys_of(&tables.classes);
            if type_is_concrete(&mentioned[m], &keys, &tables.class_templates) {
                match ensure_instantiated(&mentioned[m], &mut tables.classes, &mut new_mono, templates, 0) {
                    Ok(()) => {},
                    Err(msg) => return Err(SemaError { file_idx, err: JimError::new(msg, decl.line, decl.col) }),
                }
            }
            m += 1;
        }
        tables.known = keys_of(&tables.classes);
        let ghost qs = queue@;
        let mut c: usize = 0;
        while c < new_mono.len()
            invariant
                c <= new_mono@.len(),
                first_classes.len() <= out_classes@.len(),
                forall|k: int| 0 <= k < first_classes.len() ==> #[trigger] out_classes@[k] == first_classes[k],
                queue_ok(queue@, seen@),
                qs.len() <= queue@.len(),
                forall|k: int| 0 <= k < qs.len() ==> #[trigger] queue@[k] == qs[k],
            decreases new_mono@.len() - c,
        {
            match class_instance_into(tables, &new_mono[c].0, &new_mono[c].1, out_classes, queue, seen) {
                Ok(()) => {},
                Err(e) => return Err(e),
            }
            c += 1;
        }
        if !body_check(&decl.body) {
            return Err(shape_error(file_idx, decl.line, decl.col));
        }
        let ghost fb = out_fns@;
        let ghost qb = queue@;
        let ghost dv = decl@;
        match lower_instance(tables, decl) {
            Ok((lf, reqs)) => {
                out_fns.push(lf);
                enqueue(queue, seen, reqs);
                proof {
                    assert forall|k: int| 0 <= k < qi + 1 implies (#[trigger] out_fns@[first.len() + k])@.name == queue@[k].key@ by {
                        if k < qi {
                            assert(out_fns@[first.len() + k] == fb[first.len() + k]);
                            assert(queue@[k] == qb[k]);
                            assert(qb[k] == qs[k]);
                        } else {
                            assert(queue@[k] == qb[k]);
                        }
                    }
                    assert forall|k: int| 0 <= k < out_fns@.len() implies (#[trigger] out_fns@[k])@.type_params.len() == 0 by {
                        if k < fb.len() {
                            assert(out_fns@[k] == fb[k]);
                        }
                    }
                }
            },
            Err(e) => {
                let mut msg = e.msg;
                push_str(&mut msg, " (in the instantiation '");
                push_str(&mut msg, key.as_str());
                push_str(&mut msg, "')");
                return Err(SemaError { file_idx, err: JimError::new(msg, e.line, e.col) });
            },
        }
        qi += 1;
    }
    Ok(())
}

/// Type-check a whole program: the declaration rules first (errors exactly
/// as [`check_declarations`] states them), then every body, every container
/// instance, and every generic instance the bodies ask for (at most 1000).
/// The result is the lowered program: the non-generic functions, then the
/// instances, one per key, in the order they were asked for; the plain
/// classes, then the container instances. A failure is always one that
/// [`failure_explained`] accounts for, so a program whose every step
/// passes is accepted. The program must have the parser's shape
/// ([`shaped`]; [`shape_check`] decides it).
#[verifier::loop_isolation(false)]
#[verifier::rlimit(100)]
#[verifier::spinoff_prover]
pub fn check(program: Program, allow_intrinsics: bool, require_main: bool) -> (r: Result<Program, SemaError>)
    requires
        shaped(functions_v(program.functions@), classes_v(program.classes@)),
    ensures
        match declaration_error(functions_v(program.functions@), classes_v(program.classes@), allow_intrinsics) {
            Some(e) => r matches Err(x) && serr(x) == e,
            None => (r is Ok ==> entry_error(functions_v(program.functions@), require_main) is None)
                && (entry_error(functions_v(program.functions@), require_main) is Some ==> (r matches Err(x)
                    && ((x.file_idx == 0 && x.err.line == 1 && x.err.col == 1
                            && ((x.err.msg@ == crate::typing::too_deep_msg() && crate::declare::deep_mention(functions_v(program.functions@), classes_v(program.classes@)))
                                || crate::declare::has_template(classes_v(program.classes@))))
                        || Some(serr(x)) == entry_error(functions_v(program.functions@), require_main)))),
        },
        r matches Ok(p) ==> starts_with_plain(functions_v(program.functions@), classes_v(program.classes@), p, allow_intrinsics),
        r matches Ok(p) ==> none_generic(functions_v(p.functions@)),
        r matches Err(x) ==> failure_explained(functions_v(program.functions@), classes_v(program.classes@), allow_intrinsics, require_main, x),
        r matches Ok(p) ==> names_distinct_from(functions_v(p.functions@), plain_functions(functions_v(program.functions@)).len() as int),
{
    let ghost fs0 = functions_v(program.functions@);
    let ghost cs0 = classes_v(program.classes@);
    let decls = match check_declarations(&program, allow_intrinsics, require_main) {
        Ok(d) => d,
        Err(e) => {
            assert(failure_explained(fs0, cs0, allow_intrinsics, require_main, e));
            return Err(e);
        },
    };
    assert(!crate::declare::has_template(cs0) ==> decls.mono@.len() == 0);
    let Declarations { classes, mono } = decls;
    let Program { functions, classes: class_decls } = program;
    let (funcs, _) = function_table(&functions);
    let mut plain_fns: Vec<FunctionDecl> = Vec::new();
    let mut fn_templates: Vec<FunctionDecl> = Vec::new();
    let mut functions = functions;
    let nf = functions.len();
    let mut i: usize = 0;
    while i < nf
        invariant
            i <= nf,
            nf == fs0.len(),
            functions@.len() == nf - i,
            forall|m: int| 0 <= m < functions@.len() ==> #[trigger] functions@[m]@ == fs0[i + m],
            functions_v(plain_fns@) == plain_functions(fs0.take(i as int)),
            fn_templates@.len() == 0 ==> forall|m: int| 0 <= m < i ==> (#[trigger] fs0[m]).type_params.len() == 0,
            fn_templates@.len() > 0 ==> has_generic_fn(fs0),
        decreases nf - i,
    {
        let ghost before = plain_fns@;
        let f = functions.remove(0);
        assert(f@ == fs0[i as int]);
        proof {
            assert(fs0.take(i + 1).drop_last() =~= fs0.take(i as int));
            assert(fs0.take(i + 1).last() == fs0[i as int]);
        }
        if f.type_params.len() == 0 {
            plain_fns.push(f);
            assert(functions_v(plain_fns@) =~= functions_v(before).push(fs0[i as int]));
        } else {
            fn_templates.push(f);
        }
        i += 1;
    }
    assert(fs0.take(nf as int) =~= fs0);
    let ghost pf = plain_functions(fs0);
    let mut plain_classes: Vec<ClassDecl> = Vec::new();
    let mut templates: Vec<ClassDecl> = Vec::new();
    let mut template_names: Vec<String> = Vec::new();
    let mut class_decls = class_decls;
    let nc = class_decls.len();
    let mut k: usize = 0;
    while k < nc
        invariant
            k <= nc,
            nc == cs0.len(),
            class_decls@.len() == nc - k,
            forall|m: int| 0 <= m < class_decls@.len() ==> #[trigger] class_decls@[m]@ == cs0[k + m],
            classes_v(plain_classes@) == plain_class_decls(cs0.take(k as int)),
        decreases nc - k,
    {
        let ghost before = plain_classes@;
        let c = class_decls.remove(0);
        assert(c@ == cs0[k as int]);
        proof {
            assert(cs0.take(k + 1).drop_last() =~= cs0.take(k as int));
            assert(cs0.take(k + 1).last() == cs0[k as int]);
        }
        if c.type_param.is_some() {
            template_names.push(c.name.clone());
            templates.push(c);
        } else {
            plain_classes.push(c);
            assert(classes_v(plain_classes@) =~= classes_v(before).push(cs0[k as int]));
        }
        k += 1;
    }
    assert(cs0.take(nc as int) =~= cs0);
    let ghost pc = plain_class_decls(cs0);
    assert(forall|m: int| 0 <= m < plain_classes@.len() ==> #[trigger] plain_classes@[m]@ == classes_v(plain_classes@)[m]);
    let known = keys_of(&classes);
    let mut tables = Tables { known, classes, funcs, fn_templates, class_templates: template_names, allow_intrinsics };
    let ghost t0 = tables;
    assert(tables_for(t0, cs0, allow_intrinsics));
    let mut queue: Vec<Inst> = Vec::new();
    let mut seen: Vec<String> = Vec::new();
    let mut out_fns: Vec<FunctionDecl> = Vec::new();
    let mut out_classes: Vec<ClassDecl> = Vec::new();

    assert(inst_keys(queue@) =~= names_v(seen@));
    let np = plain_fns.len();
    assert(forall|m: int| 0 <= m < plain_fns@.len() ==> #[trigger] plain_fns@[m]@ == functions_v(plain_fns@)[m]);
    let mut j: usize = 0;
    while j < np
        invariant
            j <= np,
            np == pf.len(),
            tables == t0,
            plain_fns@.len() == np - j,
            forall|m: int| 0 <= m < plain_fns@.len() ==> #[trigger] plain_fns@[m]@ == pf[j + m],
            out_fns@.len() == j,
            forall|k: int| 0 <= k < j ==> #[trigger] lowered_as(t0, pf[k], out_fns@[k]@),
            forall|k: int| 0 <= k < j ==> (#[trigger] out_fns@[k])@.type_params.len() == 0,
            queue_ok(queue@, seen@),
        decreases np - j,
    {
        let f = plain_fns.remove(0);
        assert(f@ == pf[j as int]);
        proof { lemma_plain_functions_plain(fs0); }
        assert(f@.type_params.len() == 0);
        let fi = f.file_idx;
        proof { lemma_plain_bodies(fs0); }
        assert(crate::members::body_ok(pf[j as int].body));
        match lower_function(&tables, f) {
            Ok((lf, reqs)) => {
                out_fns.push(lf);
                enqueue(&mut queue, &mut seen, reqs);
            },
            Err(e) => {
                let x = SemaError { file_idx: fi, err: e };
                proof {
                    assert(fn_fails_with(t0, pf[j as int], x));
                    assert(plain_failure(t0, fs0, cs0, x));
                    assert(failure_explained(fs0, cs0, allow_intrinsics, require_main, x));
                }
                return Err(x);
            },
        }
        j += 1;
    }
    let mut j: usize = 0;
    while j < plain_classes.len()
        invariant
            j <= plain_classes@.len(),
            plain_classes@.len() == pc.len(),
            queue_ok(queue@, seen@),
            out_classes@.len() == j,
            forall|k: int| 0 <= k < j ==> #[trigger] class_lowered_as(t0, pc[k], out_classes@[k]@),
        decreases plain_classes@.len() - j,
    {
        let self_ty = Type::named(plain_classes[j].name.as_str());
        proof { lemma_plain_classes_ok(cs0); }
        assert(plain_classes@[j as int]@ == pc[j as int]);
        match plain_class_into(&tables, &plain_classes[j], &self_ty, &mut out_classes, &mut queue, &mut seen) {
            Ok(()) => {},
            Err(e) => {
                proof {
                    assert(class_fails_with(t0, pc[j as int], e));
                    assert(plain_failure(t0, fs0, cs0, e));
                    assert(failure_explained(fs0, cs0, allow_intrinsics, require_main, e));
                }
                return Err(e);
            },
        }
        j += 1;
    }
    let mut j: usize = 0;
    let ghost first_classes = out_classes@;
    while j < mono.len()
        invariant
            j <= mono@.len(),
            pc.len() <= first_classes.len(),
            first_classes.len() <= out_classes@.len(),
            forall|k: int| 0 <= k < first_classes.len() ==> #[trigger] out_classes@[k] == first_classes[k],
            queue_ok(queue@, seen@),
        decreases mono@.len() - j,
    {
        match class_into(&tables, &mono[j].0, &mono[j].1, &mut out_classes, &mut queue, &mut seen) {
            Ok(()) => {},
            Err(e) => {
                assert(crate::declare::has_template(cs0));
                assert(failure_explained(fs0, cs0, allow_intrinsics, require_main, e));
                return Err(e);
            },
        }
        j += 1;
    }

    // Lowering asks for instances of generic functions; lowering an
    // instance can ask for more. At most 1000 are made.
    let ghost first = out_fns@;
    let ghost first_classes2 = out_classes@;
    assert(forall|k: int| 0 <= k < out_fns@.len() ==> (#[trigger] out_fns@[k])@.type_params.len() == 0);
    if tables.fn_templates.len() > 0 {
        match run_instances(&mut tables, &templates, &mut queue, &mut seen, &mut out_fns, &mut out_classes) {
            Ok(()) => {},
            Err(e) => {
                assert(has_generic_fn(fs0));
                assert(failure_explained(fs0, cs0, allow_intrinsics, require_main, e));
                return Err(e);
            },
        }
    }
    assert(forall|k: int| 0 <= k < first_classes2.len() ==> #[trigger] out_classes@[k] == first_classes2[k]);
    assert(names_distinct_from(functions_v(out_fns@), np as int)) by {
        assert forall|a: int, b: int| np <= a < b < functions_v(out_fns@).len() implies #[trigger] functions_v(out_fns@)[a].name != #[trigger] functions_v(out_fns@)[b].name by {
            assert(out_fns@[np + (a - np)]@.name == queue@[a - np].key@);
            assert(out_fns@[np + (b - np)]@.name == queue@[b - np].key@);
            assert(inst_keys(queue@)[a - np] == names_v(seen@)[a - np]);
            assert(inst_keys(queue@)[b - np] == names_v(seen@)[b - np]);
        }
    }
    assert(none_generic(functions_v(out_fns@))) by {
        assert forall|k: int| 0 <= k < functions_v(out_fns@).len() implies (#[trigger] functions_v(out_fns@)[k]).type_params.len() == 0 by {
            assert(functions_v(out_fns@)[k] == out_fns@[k]@);
        }
    }
    assert(lowers_plain(t0, fs0, functions_v(out_fns@))) by {
        assert forall|k: int| 0 <= k < pf.len() implies #[trigger] lowered_as(t0, pf[k], functions_v(out_fns@)[k]) by {
            assert(out_fns@[k] == first[k]);
        }
    }
    assert(t0.allow_intrinsics == allow_intrinsics);
    let r = Program { functions: out_fns, classes: out_classes };
    assert(functions_v(r.functions@) == functions_v(out_fns@));
    assert(lowers_plain(t0, fs0, functions_v(r.functions@)));
    assert(lowers_plain_classes(t0, cs0, classes_v(r.classes@))) by {
        assert forall|k: int| 0 <= k < pc.len() implies #[trigger] class_lowered_as(t0, pc[k], classes_v(r.classes@)[k]) by {
            assert(out_classes@[k] == first_classes[k]);
        }
    }
    assert(starts_with_plain(fs0, cs0, r, allow_intrinsics));
    Ok(r)
}

} // verus!
