//! Emitting the whole C translation unit for a type-checked program (see
//! [`crate::generate_spec`]).

use vstd::prelude::*;
use crate::ast::{Block, ClassDecl, ClassDeclV, FieldDecl, FieldDeclV, FunctionDecl, FunctionDeclV, MethodDecl, MethodDeclV, Param, Program, StmtKind, StmtKindV, Type, TypeV, block_v, classes_v, fields_v, functions_v, methods_v, names_v, params_v, stmts_v, arms_v, types_v};
use crate::codegen::{Cg, join_parts};
use crate::codegen_names::{block_always_returns, c_name, c_name_spec, intrinsic_block, local, mangle, mangle_method};
use crate::reach::{Reach, compute_reachable, has_name, has_pair};
use crate::runtime_filter::filter_runtime;
use crate::opt::{chars_lt, str_less};
use crate::rewrite::pairs_v;
use crate::ast::display_spec;
use crate::codegen_spec::{CgV, ctype_ok, ctype_spec};
use crate::generate_spec::{buf_ok, buf_pairs, param_types, function_types, method_types, field_types, class_types, program_types, params_ok, fields_typed, method_ok, class_ok, function_ok, program_ok, lemma_concat_step, lemma_concat_all, concat, typedef_text, buf_text, field_line, body_cg, tail_spec, field_init, ctor_def, method_def, class_defs, fn_def, gen_text, main_takes_argv, entry_text, user_class_names, slashed, initial_cg, struct_text, class_protos, fn_proto, method_reached, is_user, seq_concat_types, all_buf_pairs, buffers_spec, intrinsic_blocks, blocks_spec, stmt_types, stmts_types, arm_types, block_types, lemma_table_from_append, lemma_table_put_prefix, table_from, table_put, ctor_signature_spec, method_signature_spec, param_parts, params_text, signature_spec};
use crate::text::{lit_string, push_str, str_eq};

verus! {

impl Cg {
    /// `ctype name` for each parameter.
    fn param_parts(&self, ps: &Vec<Param>) -> (v: Vec<String>)
        requires
            params_ok(params_v(ps@)),
        ensures
            names_v(v@) == param_parts(params_v(ps@)),
    {
        let ghost pv = params_v(ps@);
        let mut out: Vec<String> = Vec::new();
        let mut i: usize = 0;
        while i < ps.len()
            invariant
                i <= ps@.len(),
                pv == params_v(ps@),
                params_ok(pv),
                out@.len() == i,
                forall|j: int| 0 <= j < i ==> out@[j]@ == param_parts(pv)[j],
            decreases ps@.len() - i,
        {
            assert(pv[i as int] == ps@[i as int]@);
            assert(ctype_ok(pv[i as int].ty));
            let mut s = self.ctype(&ps[i].ty);
            push_str(&mut s, " ");
            let l = local(ps[i].name.as_str());
            push_str(&mut s, l.as_str());
            out.push(s);
            i += 1;
        }
        assert(names_v(out@) =~= param_parts(pv));
        out
    }

    /// A C parameter list: `void`, or the parameters.
    fn params_text(&self, ps: &Vec<Param>) -> (s: String)
        requires
            params_ok(params_v(ps@)),
        ensures
            s@ == params_text(params_v(ps@)),
    {
        if ps.len() == 0 {
            lit_string("void")
        } else {
            let parts = self.param_parts(ps);
            join_parts(&parts, ", ")
        }
    }

    /// `static R jim_user_f(params)`.
    fn signature(&self, f: &FunctionDecl) -> (s: String)
        requires
            params_ok(params_v(f.params@)),
            ctype_ok(f.ret@),
        ensures
            s@ == signature_spec(f@),
    {
        let mut s = lit_string("static ");
        let r = self.ctype(&f.ret);
        push_str(&mut s, r.as_str());
        push_str(&mut s, " ");
        let m = mangle(f.name.as_str());
        push_str(&mut s, m.as_str());
        push_str(&mut s, "(");
        let ps = self.params_text(&f.params);
        push_str(&mut s, ps.as_str());
        push_str(&mut s, ")");
        s
    }

    /// `static R jim_m_C_m(C jl_this, params)`.
    fn method_signature(&self, c: &ClassDecl, m: &MethodDecl) -> (s: String)
        requires
            params_ok(params_v(m.params@)),
            ctype_ok(m.ret@),
        ensures
            s@ == method_signature_spec(c@, m@),
    {
        let this_ty = Type::named(c.name.as_str());
        let mut first = self.ctype(&this_ty);
        push_str(&mut first, " jl_this");
        let mut parts: Vec<String> = Vec::new();
        parts.push(first);
        assert(names_v(parts@) =~= seq![ctype_spec(TypeV::Named(c@.name)) + " jl_this"@]);
        let mut rest = self.param_parts(&m.params);
        let ghost a = names_v(parts@);
        let ghost b = names_v(rest@);
        parts.append(&mut rest);
        assert(names_v(parts@) =~= a + b);
        let mut s = lit_string("static ");
        let r = self.ctype(&m.ret);
        push_str(&mut s, r.as_str());
        push_str(&mut s, " ");
        let mm = mangle_method(c.name.as_str(), m.name.as_str());
        push_str(&mut s, mm.as_str());
        push_str(&mut s, "(");
        let j = join_parts(&parts, ", ");
        push_str(&mut s, j.as_str());
        push_str(&mut s, ")");
        s
    }

    /// `static jim_c_C* jim_new_C(params)`.
    fn ctor_signature(&self, c: &ClassDecl) -> (s: String)
        requires
            c.ctor matches Some(ct) ==> params_ok(params_v(ct.params@)),
        ensures
            s@ == ctor_signature_spec(c@),
    {
        let k = c_name(c.name.as_str());
        let mut s = lit_string("static jim_c_");
        push_str(&mut s, k.as_str());
        push_str(&mut s, "* jim_new_");
        push_str(&mut s, k.as_str());
        push_str(&mut s, "(");
        match &c.ctor {
            Some(ct) => {
                let ps = self.params_text(&ct.params);
                push_str(&mut s, ps.as_str());
            },
            None => push_str(&mut s, "void"),
        }
        push_str(&mut s, ")");
        s
    }
}

/// Put `(k, v)` into a key-sorted table: a present key gets the new value.
fn table_put_exec(t: &mut Vec<(String, String)>, k: String, v: String)
    ensures
        pairs_v(final(t)@) == table_put(pairs_v(old(t)@), k@, v@),
{
    let ghost t0 = pairs_v(t@);
    let mut i: usize = 0;
    while i < t.len()
        invariant
            i <= t@.len(),
            t0 == pairs_v(t@),
            forall|j: int| 0 <= j < i ==> t0[j].0 != k@ && !chars_lt(k@, #[trigger] t0[j].0),
        ensures
            i <= t@.len(),
            t0 == pairs_v(t@),
            forall|j: int| 0 <= j < i ==> t0[j].0 != k@ && !chars_lt(k@, #[trigger] t0[j].0),
            i < t@.len() ==> (t0[i as int].0 == k@ || chars_lt(k@, t0[i as int].0)),
        decreases t@.len() - i,
    {
        assert(t0[i as int] == (t@[i as int].0@, t@[i as int].1@));
        if str_eq(t[i].0.as_str(), k.as_str()) || str_less(k.as_str(), t[i].0.as_str()) {
            break;
        }
        i += 1;
    }
    proof {
        lemma_table_put_prefix(t0, k@, v@, i as int);
    }
    if i == t.len() {
        proof {
            assert(t0.skip(i as int) =~= Seq::<(Seq<char>, Seq<char>)>::empty());
        }
        t.push((k, v));
        assert(pairs_v(t@) =~= t0.take(i as int) + seq![(k@, v@)]);
    } else if str_eq(t[i].0.as_str(), k.as_str()) {
        proof {
            assert(t0.skip(i as int)[0] == t0[i as int]);
            assert(t0.skip(i as int).skip(1) =~= t0.skip(i + 1));
        }
        t.set(i, (k, v));
        assert(pairs_v(t@) =~= t0.take(i as int) + (seq![(k@, v@)] + t0.skip(i + 1)));
    } else {
        proof {
            assert(t0.skip(i as int)[0] == t0[i as int]);
        }
        t.insert(i, (k, v));
        assert(pairs_v(t@) =~= t0.take(i as int) + (seq![(k@, v@)] + t0.skip(i as int)));
    }
}

impl Cg {
    /// Put every `RawBuffer<T>` inside `ty` into the table: key the sanitized
    /// spelling of `T`, value its C type.
    fn collect_buf_elems(&self, ty: &Type, out: &mut Vec<(String, String)>)
        requires
            buf_ok(ty@),
        ensures
            pairs_v(final(out)@) == table_from(pairs_v(old(out)@), buf_pairs(ty@)),
        decreases ty,
    {
        match ty {
            Type::Generic(n, p) => {
                let ghost before = pairs_v(out@);
                if str_eq(n.as_str(), "RawBuffer") {
                    let d = p.display();
                    let key = c_name(d.as_str());
                    let val = self.ctype(p);
                    table_put_exec(out, key, val);
                    proof {
                        let pr = seq![(c_name_spec(display_spec((**p)@)), ctype_spec((**p)@))];
                        assert(table_from(before, pr) == table_put(table_from(before, pr.drop_last()), pr.last().0, pr.last().1));
                        assert(pr.drop_last() =~= Seq::<(Seq<char>, Seq<char>)>::empty());
                        lemma_table_from_append(before, pr, buf_pairs((**p)@));
                    }
                } else {
                    assert(Seq::<(Seq<char>, Seq<char>)>::empty() + buf_pairs((**p)@) =~= buf_pairs((**p)@));
                }
                self.collect_buf_elems(p, out);
            },
            Type::Optional(p) => self.collect_buf_elems(p, out),
            Type::Pointer(p) => self.collect_buf_elems(p, out),
            Type::Named(_) => {},
        }
    }
}

/// Append the types written by a statement's declarations.
fn collect_stmt_types(st: &crate::ast::Stmt, out: &mut Vec<Type>)
    ensures
        types_v(final(out)@) == types_v(old(out)@) + stmt_types(st@),
    decreases st, 1nat,
{
    let ghost start = types_v(out@);
    match &st.kind {
        StmtKind::VarDecl { ty, .. } => {
            out.push(ty.copy());
            assert(st@.kind matches StmtKindV::VarDecl { ty: t, .. } && t == ty@);
            assert(types_v(out@) =~= start + seq![ty@]);
        },
        StmtKind::If { arms, else_block } => {
            collect_arm_types(arms, out);
            let ghost mid = types_v(out@);
            let ghost a = arm_types(arms_v(arms@), arms@.len());
            match else_block {
                Some(b) => {
                    collect_stmts_types(&b.stmts, out);
                    let ghost e = stmts_types(stmts_v(b.stmts@), b.stmts@.len());
                    assert(st@.kind == StmtKindV::If { arms: arms_v(arms@), else_block: Some(block_v(*b)) });
                    assert(block_v(*b).stmts == stmts_v(b.stmts@));
                    assert(stmt_types(st@) == a + e);
                    assert(types_v(out@) =~= start + (a + e));
                },
                None => {
                    assert(st@.kind == StmtKindV::If { arms: arms_v(arms@), else_block: None });
                    assert(stmt_types(st@) == a + Seq::<TypeV>::empty());
                    assert(types_v(out@) =~= start + (a + Seq::<TypeV>::empty()));
                },
            }
        },
        StmtKind::While { body, .. } => {
            collect_stmts_types(&body.stmts, out);
            assert(st@.kind matches StmtKindV::While { body: bd, .. } && bd == block_v(*body));
            assert(block_v(*body).stmts == stmts_v(body.stmts@));
        },
        StmtKind::ForC { var_ty, body, .. } => {
            out.push(var_ty.copy());
            let ghost mid = types_v(out@);
            assert(mid =~= start + seq![var_ty@]);
            collect_stmts_types(&body.stmts, out);
            let ghost e = stmts_types(stmts_v(body.stmts@), body.stmts@.len());
            assert(st@.kind matches StmtKindV::ForC { var_ty: vt, body: bd, .. } && vt == var_ty@ && bd == block_v(*body));
            assert(block_v(*body).stmts == stmts_v(body.stmts@));
            assert(stmt_types(st@) == seq![var_ty@] + e);
            assert(types_v(out@) =~= start + (seq![var_ty@] + e));
        },
        StmtKind::Scope(b) => {
            collect_stmts_types(&b.stmts, out);
            assert(st@.kind == StmtKindV::Scope(block_v(*b)));
            assert(block_v(*b).stmts == stmts_v(b.stmts@));
        },
        _ => {
            assert(types_v(out@) =~= start + stmt_types(st@));
        },
    }
}

/// Append the types written by each statement's declarations, in order.
fn collect_stmts_types(v: &Vec<crate::ast::Stmt>, out: &mut Vec<Type>)
    ensures
        types_v(final(out)@) == types_v(old(out)@) + stmts_types(stmts_v(v@), v@.len()),
    decreases v, 0nat,
{
    let ghost start = types_v(out@);
    let ghost sv = stmts_v(v@);
    let mut i: usize = 0;
    assert(types_v(out@) =~= start + stmts_types(sv, 0));
    while i < v.len()
        invariant
            i <= v@.len(),
            sv == stmts_v(v@),
            types_v(out@) == start + stmts_types(sv, i as nat),
        decreases v@.len() - i,
    {
        assert(sv[i as int] == v@[i as int]@);
        assert(decreases_to!(v => v@[i as int]));
        collect_stmt_types(&v[i], out);
        assert(types_v(out@) =~= start + stmts_types(sv, (i + 1) as nat));
        i += 1;
    }
}

/// Append the types written in the blocks of an `if` chain, in order.
fn collect_arm_types(v: &Vec<(crate::ast::Expr, Block)>, out: &mut Vec<Type>)
    ensures
        types_v(final(out)@) == types_v(old(out)@) + arm_types(arms_v(v@), v@.len()),
    decreases v, 0nat,
{
    let ghost start = types_v(out@);
    let ghost av = arms_v(v@);
    let mut i: usize = 0;
    assert(types_v(out@) =~= start + arm_types(av, 0));
    while i < v.len()
        invariant
            i <= v@.len(),
            av == arms_v(v@),
            types_v(out@) == start + arm_types(av, i as nat),
        decreases v@.len() - i,
    {
        assert(av[i as int] == (v@[i as int].0@, block_v(v@[i as int].1)));
        assert(decreases_to!(v => v@[i as int]));
        collect_stmts_types(&v[i].1.stmts, out);
        assert(types_v(out@) =~= start + arm_types(av, (i + 1) as nat));
        i += 1;
    }
}

/// Append the types written in a lowered block's declarations.
fn collect_types_in_block(b: &Block, out: &mut Vec<Type>)
    ensures
        types_v(final(out)@) == types_v(old(out)@) + block_types(block_v(*b)),
{
    collect_stmts_types(&b.stmts, out);
}

/// Append the parameters' types.
fn push_param_types(ps: &Vec<Param>, out: &mut Vec<Type>)
    ensures
        types_v(final(out)@) == types_v(old(out)@) + param_types(params_v(ps@)),
{
    let ghost start = types_v(out@);
    let ghost pv = params_v(ps@);
    let mut i: usize = 0;
    while i < ps.len()
        invariant
            i <= ps@.len(),
            pv == params_v(ps@),
            types_v(out@) == start + param_types(pv).take(i as int),
        decreases ps@.len() - i,
    {
        assert(pv[i as int] == ps@[i as int]@);
        let ghost before = types_v(out@);
        out.push(ps[i].ty.copy());
        assert(types_v(out@) =~= before.push(ps@[i as int].ty@));
        assert(param_types(pv).take(i + 1) =~= param_types(pv).take(i as int).push(ps@[i as int].ty@));
        assert(types_v(out@) =~= start + param_types(pv).take(i + 1));
        i += 1;
    }
    assert(param_types(pv).take(ps@.len() as int) =~= param_types(pv));
}

/// Append a function's parameter, return and declared types.
fn push_function_types(f: &FunctionDecl, out: &mut Vec<Type>)
    ensures
        types_v(final(out)@) == types_v(old(out)@) + function_types(f@),
{
    let ghost start = types_v(out@);
    push_param_types(&f.params, out);
    let ghost a = types_v(out@);
    out.push(f.ret.copy());
    assert(types_v(out@) =~= a + seq![f.ret@]);
    collect_types_in_block(&f.body, out);
    assert(types_v(out@) =~= start + function_types(f@));
}

/// Append a method's parameter, return and declared types.
fn push_method_types(m: &MethodDecl, out: &mut Vec<Type>)
    ensures
        types_v(final(out)@) == types_v(old(out)@) + method_types(m@),
{
    let ghost start = types_v(out@);
    push_param_types(&m.params, out);
    let ghost a = types_v(out@);
    out.push(m.ret.copy());
    assert(types_v(out@) =~= a + seq![m.ret@]);
    collect_types_in_block(&m.body, out);
    assert(types_v(out@) =~= start + method_types(m@));
}

/// Append a class's field, constructor and method types.
fn push_class_types(c: &ClassDecl, out: &mut Vec<Type>)
    ensures
        types_v(final(out)@) == types_v(old(out)@) + class_types(c@),
{
    let ghost start = types_v(out@);
    let ghost fv = fields_v(c.fields@);
    let mut i: usize = 0;
    while i < c.fields.len()
        invariant
            i <= c.fields@.len(),
            fv == fields_v(c.fields@),
            types_v(out@) == start + field_types(fv).take(i as int),
        decreases c.fields@.len() - i,
    {
        assert(fv[i as int] == c.fields@[i as int]@);
        let ghost before = types_v(out@);
        out.push(c.fields[i].ty.copy());
        assert(types_v(out@) =~= before.push(c.fields@[i as int].ty@));
        assert(field_types(fv).take(i + 1) =~= field_types(fv).take(i as int).push(c.fields@[i as int].ty@));
        assert(types_v(out@) =~= start + field_types(fv).take(i + 1));
        i += 1;
    }
    assert(field_types(fv).take(c.fields@.len() as int) =~= field_types(fv));
    let ghost a = types_v(out@);
    match &c.ctor {
        Some(ct) => {
            push_param_types(&ct.params, out);
            collect_types_in_block(&ct.body, out);
            assert(types_v(out@) =~= a + (param_types(params_v(ct.params@)) + block_types(block_v(ct.body))));
        },
        None => {
            assert(types_v(out@) =~= a + Seq::<TypeV>::empty());
        },
    }
    let ghost b = types_v(out@);
    let ghost mv = methods_v(c.methods@);
    let ghost parts = mv.map_values(|m: MethodDeclV| method_types(m));
    let mut j: usize = 0;
    assert(parts.take(0) =~= Seq::<Seq<TypeV>>::empty());
    assert(types_v(out@) =~= b + seq_concat_types(parts.take(0)));
    while j < c.methods.len()
        invariant
            j <= c.methods@.len(),
            mv == methods_v(c.methods@),
            parts == mv.map_values(|m: MethodDeclV| method_types(m)),
            types_v(out@) == b + seq_concat_types(parts.take(j as int)),
        decreases c.methods@.len() - j,
    {
        assert(mv[j as int] == c.methods@[j as int]@);
        push_method_types(&c.methods[j], out);
        assert(parts.take(j + 1).drop_last() =~= parts.take(j as int));
        assert(types_v(out@) =~= b + seq_concat_types(parts.take(j + 1)));
        j += 1;
    }
    assert(parts.take(c.methods@.len() as int) =~= parts);
    assert(types_v(out@) =~= start + class_types(c@));
}

/// Every type the program writes, in order.
pub(crate) fn collect_program_types(p: &Program) -> (tys: Vec<Type>)
    ensures
        types_v(tys@) == program_types(p@),
{
    let mut out: Vec<Type> = Vec::new();
    let ghost fv = functions_v(p.functions@);
    let ghost fparts = fv.map_values(|f: FunctionDeclV| function_types(f));
    let mut i: usize = 0;
    assert(fparts.take(0) =~= Seq::<Seq<TypeV>>::empty());
    assert(types_v(out@) =~= seq_concat_types(fparts.take(0)));
    while i < p.functions.len()
        invariant
            i <= p.functions@.len(),
            fv == functions_v(p.functions@),
            fparts == fv.map_values(|f: FunctionDeclV| function_types(f)),
            types_v(out@) == seq_concat_types(fparts.take(i as int)),
        decreases p.functions@.len() - i,
    {
        assert(fv[i as int] == p.functions@[i as int]@);
        push_function_types(&p.functions[i], &mut out);
        assert(fparts.take(i + 1).drop_last() =~= fparts.take(i as int));
        i += 1;
    }
    assert(fparts.take(p.functions@.len() as int) =~= fparts);
    let ghost a = types_v(out@);
    let ghost cv = classes_v(p.classes@);
    let ghost cparts = cv.map_values(|c: ClassDeclV| class_types(c));
    let mut j: usize = 0;
    assert(cparts.take(0) =~= Seq::<Seq<TypeV>>::empty());
    assert(types_v(out@) =~= a + seq_concat_types(cparts.take(0)));
    while j < p.classes.len()
        invariant
            j <= p.classes@.len(),
            cv == classes_v(p.classes@),
            cparts == cv.map_values(|c: ClassDeclV| class_types(c)),
            types_v(out@) == a + seq_concat_types(cparts.take(j as int)),
        decreases p.classes@.len() - j,
    {
        assert(cv[j as int] == p.classes@[j as int]@);
        push_class_types(&p.classes[j], &mut out);
        assert(cparts.take(j + 1).drop_last() =~= cparts.take(j as int));
        assert(types_v(out@) =~= a + seq_concat_types(cparts.take(j + 1)));
        j += 1;
    }
    assert(cparts.take(p.classes@.len() as int) =~= cparts);
    out
}

impl Cg {
    /// Every `RawBuffer<T>` element type the program uses, keyed and ordered
    /// by the sanitized spelling of `T`, with its C type.
    fn collect_buffers(&self, p: &Program) -> (r: Vec<(String, String)>)
        requires
            forall|i: int| 0 <= i < program_types(p@).len() ==> buf_ok(#[trigger] program_types(p@)[i]),
        ensures
            pairs_v(r@) == buffers_spec(p@),
    {
        let tys = collect_program_types(p);
        let ghost tv = types_v(tys@);
        let mut out: Vec<(String, String)> = Vec::new();
        let mut i: usize = 0;
        assert(tv.take(0) =~= Seq::<TypeV>::empty());
        assert(pairs_v(out@) =~= Seq::<(Seq<char>, Seq<char>)>::empty());
        while i < tys.len()
            invariant
                i <= tys@.len(),
                tv == types_v(tys@),
                tv == program_types(p@),
                forall|k: int| 0 <= k < tv.len() ==> buf_ok(#[trigger] tv[k]),
                pairs_v(out@) == table_from(Seq::empty(), all_buf_pairs(tv.take(i as int))),
            decreases tys@.len() - i,
        {
            assert(tv[i as int] == tys@[i as int]@);
            assert(buf_ok(tv[i as int]));
            let ghost before = pairs_v(out@);
            self.collect_buf_elems(&tys[i], &mut out);
            proof {
                assert(tv.take(i + 1).drop_last() =~= tv.take(i as int));
                lemma_table_from_append(Seq::empty(), all_buf_pairs(tv.take(i as int)), buf_pairs(tv[i as int]));
            }
            i += 1;
        }
        assert(tv.take(tys@.len() as int) =~= tv);
        out
    }
}

/// The runtime blocks the reachable program needs.
fn compute_blocks(reach: &Reach, has_bufs: bool, debug: bool) -> (r: Vec<String>)
    ensures
        names_v(r@) == blocks_spec(reach@, has_bufs, debug),
{
    let ghost iv = names_v(reach.intrinsics@);
    let mut base: Vec<String> = Vec::new();
    let mut i: usize = 0;
    assert(iv.take(0) =~= Seq::<Seq<char>>::empty());
    assert(names_v(base@) =~= Seq::<Seq<char>>::empty());
    while i < reach.intrinsics.len()
        invariant
            i <= reach.intrinsics@.len(),
            iv == names_v(reach.intrinsics@),
            names_v(base@) == intrinsic_blocks(iv.take(i as int)),
        decreases reach.intrinsics@.len() - i,
    {
        assert(iv.take(i + 1).drop_last() =~= iv.take(i as int));
        assert(iv.take(i + 1).last() == reach.intrinsics@[i as int]@);
        let ghost before = names_v(base@);
        match intrinsic_block(reach.intrinsics[i].as_str()) {
            Some(b) => {
                base.push(lit_string(b));
                assert(names_v(base@) =~= before + seq![b@]);
            },
            None => {
                assert(names_v(base@) =~= before + Seq::<Seq<char>>::empty());
            },
        }
        i += 1;
    }
    assert(iv.take(reach.intrinsics@.len() as int) =~= iv);
    let opt = reach.uses_opt || has_name(&base, "STRPARSE") || has_name(&base, "IOFILE");
    let panic = opt || reach.uses_trycatch || has_name(&reach.intrinsics, "panic") || has_name(&base, "INT")
        || has_name(&base, "FLOAT") || has_name(&base, "BOOLCHAR") || has_name(&base, "BITOPS");
    let ghost b0 = names_v(base@);
    let mut out = base;
    if opt {
        out.push(lit_string("OPT"));
    }
    let ghost b1 = names_v(out@);
    assert(b1 =~= b0 + (if opt { seq!["OPT"@] } else { Seq::<Seq<char>>::empty() }));
    if panic {
        out.push(lit_string("PANIC"));
    }
    let ghost b2 = names_v(out@);
    assert(b2 =~= b1 + (if panic { seq!["PANIC"@] } else { Seq::<Seq<char>>::empty() }));
    if has_bufs {
        out.push(lit_string("BUF"));
    }
    let ghost b3 = names_v(out@);
    assert(b3 =~= b2 + (if has_bufs { seq!["BUF"@] } else { Seq::<Seq<char>>::empty() }));
    if debug {
        out.push(lit_string("DEBUG"));
    }
    assert(names_v(out@) =~= b3 + (if debug { seq!["DEBUG"@] } else { Seq::<Seq<char>>::empty() }));
    out
}

impl Cg {
    /// `typedef struct jim_c_K jim_c_K;` for each user class.
    fn emit_typedefs(&self, out: &mut String, cs: &Vec<ClassDecl>)
        ensures
            final(out)@ == old(out)@ + concat(classes_v(cs@).map_values(|c: ClassDeclV| typedef_text(self@, c))),
    {
        let ghost start = out@;
        let ghost parts = classes_v(cs@).map_values(|c: ClassDeclV| typedef_text(self@, c));
        let mut i: usize = 0;
        assert(parts.take(0) =~= Seq::<Seq<char>>::empty());
        assert(out@ =~= start + concat(parts.take(0)));
        while i < cs.len()
            invariant
                i <= cs@.len(),
                parts == classes_v(cs@).map_values(|c: ClassDeclV| typedef_text(self@, c)),
                out@ == start + concat(parts.take(i as int)),
            decreases cs@.len() - i,
        {
            proof { lemma_concat_step(parts, i as int); }
            assert(parts[i as int] == typedef_text(self@, cs@[i as int]@));
            let ghost before = out@;
            if has_name(&self.user_classes, cs[i].name.as_str()) {
                let k = c_name(cs[i].name.as_str());
                push_str(out, "typedef struct jim_c_");
                push_str(out, k.as_str());
                push_str(out, " jim_c_");
                push_str(out, k.as_str());
                push_str(out, ";\n");
            }
            assert(out@ =~= before + parts[i as int]);
            i += 1;
        }
        proof { lemma_concat_all(parts); }
    }

    /// `JIM_DEFINE_BUF(key, ctype)` for each buffer instantiation.
    fn emit_bufs(out: &mut String, bufs: &Vec<(String, String)>)
        ensures
            final(out)@ == old(out)@ + concat(pairs_v(bufs@).map_values(|b: (Seq<char>, Seq<char>)| buf_text(b))),
    {
        let ghost start = out@;
        let ghost parts = pairs_v(bufs@).map_values(|b: (Seq<char>, Seq<char>)| buf_text(b));
        let mut i: usize = 0;
        assert(parts.take(0) =~= Seq::<Seq<char>>::empty());
        assert(out@ =~= start + concat(parts.take(0)));
        while i < bufs.len()
            invariant
                i <= bufs@.len(),
                parts == pairs_v(bufs@).map_values(|b: (Seq<char>, Seq<char>)| buf_text(b)),
                out@ == start + concat(parts.take(i as int)),
            decreases bufs@.len() - i,
        {
            proof { lemma_concat_step(parts, i as int); }
            let ghost before = out@;
            push_str(out, "JIM_DEFINE_BUF(");
            push_str(out, bufs[i].0.as_str());
            push_str(out, ", ");
            push_str(out, bufs[i].1.as_str());
            push_str(out, ")\n");
            assert(out@ =~= before + parts[i as int]);
            i += 1;
        }
        proof { lemma_concat_all(parts); }
    }

    /// The struct layout of a user class.
    fn emit_struct(&self, out: &mut String, c: &ClassDecl)
        requires
            fields_typed(c@.fields),
        ensures
            final(out)@ == old(out)@ + struct_text(self@, c@),
    {
        let ghost start = out@;
        if !has_name(&self.user_classes, c.name.as_str()) {
            assert(out@ =~= start + struct_text(self@, c@));
            return;
        }
        let k = c_name(c.name.as_str());
        push_str(out, "struct jim_c_");
        push_str(out, k.as_str());
        push_str(out, " {\n");
        if c.fields.len() == 0 {
            push_str(out, "    char jim_empty_; /* C requires at least one member */\n");
        }
        let ghost mid = out@;
        let ghost fv = fields_v(c.fields@);
        let ghost parts = fv.map_values(|f: FieldDeclV| field_line(f));
        let mut i: usize = 0;
        assert(parts.take(0) =~= Seq::<Seq<char>>::empty());
        assert(out@ =~= mid + concat(parts.take(0)));
        while i < c.fields.len()
            invariant
                i <= c.fields@.len(),
                fv == fields_v(c.fields@),
                fields_typed(fv),
                parts == fv.map_values(|f: FieldDeclV| field_line(f)),
                out@ == mid + concat(parts.take(i as int)),
            decreases c.fields@.len() - i,
        {
            proof { lemma_concat_step(parts, i as int); }
            assert(fv[i as int] == c.fields@[i as int]@);
            assert(ctype_ok(fv[i as int].ty));
            let ghost before = out@;
            push_str(out, "    ");
            let t = self.ctype(&c.fields[i].ty);
            push_str(out, t.as_str());
            push_str(out, " f_");
            push_str(out, c.fields[i].name.as_str());
            push_str(out, ";\n");
            assert(out@ =~= before + parts[i as int]);
            i += 1;
        }
        proof { lemma_concat_all(parts); }
        push_str(out, "};\n\n");
        assert(out@ =~= start + struct_text(self@, c@));
    }

    /// The struct layouts of the user classes.
    fn emit_structs(&self, out: &mut String, cs: &Vec<ClassDecl>)
        requires
            forall|i: int| 0 <= i < cs@.len() ==> fields_typed(#[trigger] cs@[i]@.fields),
        ensures
            final(out)@ == old(out)@ + concat(classes_v(cs@).map_values(|c: ClassDeclV| struct_text(self@, c))),
    {
        let ghost start = out@;
        let ghost parts = classes_v(cs@).map_values(|c: ClassDeclV| struct_text(self@, c));
        let mut i: usize = 0;
        assert(parts.take(0) =~= Seq::<Seq<char>>::empty());
        assert(out@ =~= start + concat(parts.take(0)));
        while i < cs.len()
            invariant
                i <= cs@.len(),
                forall|k: int| 0 <= k < cs@.len() ==> fields_typed(#[trigger] cs@[k]@.fields),
                parts == classes_v(cs@).map_values(|c: ClassDeclV| struct_text(self@, c)),
                out@ == start + concat(parts.take(i as int)),
            decreases cs@.len() - i,
        {
            proof { lemma_concat_step(parts, i as int); }
            assert(fields_typed(cs@[i as int]@.fields));
            self.emit_struct(out, &cs[i]);
            i += 1;
        }
        proof { lemma_concat_all(parts); }
    }
}

impl Cg {
    /// The prototypes of a class's reached constructor and methods.
    fn emit_class_protos(&self, out: &mut String, c: &ClassDecl, reach: &Reach)
        requires
            class_ok(c@),
        ensures
            final(out)@ == old(out)@ + class_protos(self@, reach@, c@),
    {
        let ghost start = out@;
        if has_name(&self.user_classes, c.name.as_str()) && has_name(&reach.instantiated, c.name.as_str()) {
            let sig = self.ctor_signature(c);
            push_str(out, sig.as_str());
            push_str(out, ";\n");
        }
        let ghost mid = out@;
        assert(mid == start + (if is_user(self@, c@) && reach@.classes.contains(c@.name) { ctor_signature_spec(c@) + ";\n"@ } else { Seq::empty() }));
        let ghost mv = methods_v(c.methods@);
        let ghost parts = mv.map_values(|m: MethodDeclV| if method_reached(reach@, c@, m) {
            method_signature_spec(c@, m) + ";\n"@
        } else {
            Seq::empty()
        });
        let mut i: usize = 0;
        assert(parts.take(0) =~= Seq::<Seq<char>>::empty());
        assert(out@ =~= mid + concat(parts.take(0)));
        while i < c.methods.len()
            invariant
                i <= c.methods@.len(),
                class_ok(c@),
                mv == methods_v(c.methods@),
                parts == mv.map_values(|m: MethodDeclV| if method_reached(reach@, c@, m) {
                    method_signature_spec(c@, m) + ";\n"@
                } else {
                    Seq::empty()
                }),
                out@ == mid + concat(parts.take(i as int)),
            decreases c.methods@.len() - i,
        {
            proof { lemma_concat_step(parts, i as int); }
            assert(mv[i as int] == c.methods@[i as int]@);
            assert(c@.methods[i as int] == mv[i as int]);
            assert(method_ok(c@.methods[i as int]));
            let ghost before = out@;
            if has_pair(&reach.methods, c.name.as_str(), c.methods[i].name.as_str()) {
                let sig = self.method_signature(c, &c.methods[i]);
                push_str(out, sig.as_str());
                push_str(out, ";\n");
            }
            assert(out@ =~= before + parts[i as int]);
            i += 1;
        }
        proof { lemma_concat_all(parts); }
        assert(out@ =~= start + class_protos(self@, reach@, c@));
    }

    /// The prototypes of everything reached: classes first, then functions.
    fn emit_protos(&self, out: &mut String, p: &Program, reach: &Reach)
        requires
            program_ok(p@),
        ensures
            final(out)@ == old(out)@ + concat(p@.classes.map_values(|c: ClassDeclV| class_protos(self@, reach@, c)))
                + concat(p@.functions.map_values(|f: FunctionDeclV| fn_proto(reach@, f))),
    {
        let ghost start = out@;
        let ghost cv = classes_v(p.classes@);
        let ghost parts = cv.map_values(|c: ClassDeclV| class_protos(self@, reach@, c));
        let mut i: usize = 0;
        assert(parts.take(0) =~= Seq::<Seq<char>>::empty());
        assert(out@ =~= start + concat(parts.take(0)));
        while i < p.classes.len()
            invariant
                i <= p.classes@.len(),
                program_ok(p@),
                cv == classes_v(p.classes@),
                parts == cv.map_values(|c: ClassDeclV| class_protos(self@, reach@, c)),
                out@ == start + concat(parts.take(i as int)),
            decreases p.classes@.len() - i,
        {
            proof { lemma_concat_step(parts, i as int); }
            assert(cv[i as int] == p.classes@[i as int]@);
            assert(class_ok(p@.classes[i as int]));
            self.emit_class_protos(out, &p.classes[i], reach);
            i += 1;
        }
        proof { lemma_concat_all(parts); }
        let ghost mid = out@;
        let ghost fv = functions_v(p.functions@);
        let ghost fparts = fv.map_values(|f: FunctionDeclV| fn_proto(reach@, f));
        let mut j: usize = 0;
        assert(fparts.take(0) =~= Seq::<Seq<char>>::empty());
        assert(out@ =~= mid + concat(fparts.take(0)));
        while j < p.functions.len()
            invariant
                j <= p.functions@.len(),
                program_ok(p@),
                fv == functions_v(p.functions@),
                fparts == fv.map_values(|f: FunctionDeclV| fn_proto(reach@, f)),
                out@ == mid + concat(fparts.take(j as int)),
            decreases p.functions@.len() - j,
        {
            proof { lemma_concat_step(fparts, j as int); }
            assert(fv[j as int] == p.functions@[j as int]@);
            assert(function_ok(p@.functions[j as int]));
            let ghost before = out@;
            if has_name(&reach.fns, p.functions[j].name.as_str()) {
                let sig = self.signature(&p.functions[j]);
                push_str(out, sig.as_str());
                push_str(out, ";\n");
            }
            assert(out@ =~= before + fparts[j as int]);
            j += 1;
        }
        proof { lemma_concat_all(fparts); }
    }
}

/// Two generator states that differ at most in the body being emitted.
pub open spec fn same_frame(a: CgV, b: CgV) -> bool {
    a.user_classes == b.user_classes && a.files == b.files && a.debug == b.debug && a.panic_abort == b.panic_abort
}

impl Cg {
    /// Enter a body: its file and function for panics, and its C return type.
    fn enter_body(&mut self, file_idx: usize, func: String, ret_ctype: String)
        ensures
            final(self)@ == body_cg(old(self)@, file_idx, func@, ret_ctype@),
    {
        self.set_panic_ctx(file_idx, func);
        self.ret_ctype = ret_ctype;
    }

    /// What ends a body that can fall off its end (see [`tail_spec`]).
    fn emit_tail(&self, out: &mut String, body: &Block, ret: &Type, is_main: bool)
        requires
            ctype_ok(ret@),
        ensures
            final(out)@ == old(out)@ + tail_spec(self@, body@, ret@, is_main),
    {
        let ghost start = out@;
        if block_always_returns(body) {
            return;
        }
        if is_main {
            let fp = self.frame_pop();
            push_str(out, fp.as_str());
            push_str(out, "    return INT64_C(0);\n");
            return;
        }
        match self.implicit_none_return(ret) {
            Some(r) => {
                let fp = self.frame_pop();
                push_str(out, fp.as_str());
                push_str(out, r.as_str());
            },
            None => {
                if ret.is_named("None") {
                    let fp = self.frame_pop();
                    push_str(out, fp.as_str());
                }
            },
        }
    }

    /// A reached function's definition.
    #[verifier::rlimit(40)]
    #[verifier::spinoff_prover]
    fn emit_fn_def(&mut self, out: &mut String, f: &FunctionDecl, reach: &Reach)
        requires
            function_ok(f@),
        ensures
            same_frame(final(self)@, old(self)@),
            final(out)@ == old(out)@ + fn_def(old(self)@, reach@, f@),
    {
        let ghost start = out@;
        let ghost base = self@;
        if !has_name(&reach.fns, f.name.as_str()) {
            return;
        }
        let rc = self.ctype(&f.ret);
        self.enter_body(f.file_idx, f.name.clone(), rc);
        let sig = self.signature(f);
        push_str(out, sig.as_str());
        push_str(out, " {\n");
        let fp = self.frame_push();
        push_str(out, fp.as_str());
        self.emit_block(out, &f.body, 1);
        let is_main = str_eq(f.name.as_str(), "main");
        self.emit_tail(out, &f.body, &f.ret, is_main);
        push_str(out, "}\n\n");
        assert(out@ =~= start + fn_def(base, reach@, f@));
    }

    /// A reached method's definition.
    #[verifier::rlimit(40)]
    #[verifier::spinoff_prover]
    fn emit_method_def(&mut self, out: &mut String, c: &ClassDecl, m: &MethodDecl)
        requires
            method_ok(m@),
        ensures
            same_frame(final(self)@, old(self)@),
            final(out)@ == old(out)@ + method_def(old(self)@, c@, m@),
    {
        let ghost start = out@;
        let ghost base = self@;
        let rc = self.ctype(&m.ret);
        let func = crate::text::framed_char(c.name.as_str(), '.', m.name.as_str());
        assert(func@ == c@.name + "."@ + m@.name) by {
            reveal_strlit(".");
            assert(seq!['.'] =~= "."@);
        }
        self.enter_body(c.file_idx, func, rc);
        let sig = self.method_signature(c, m);
        push_str(out, sig.as_str());
        push_str(out, " {\n");
        let fp = self.frame_push();
        push_str(out, fp.as_str());
        self.emit_block(out, &m.body, 1);
        self.emit_tail(out, &m.body, &m.ret, false);
        push_str(out, "}\n\n");
        assert(out@ =~= start + method_def(base, c@, m@));
    }
}

impl Cg {
    /// `jl_this->f_name = default;` for each field.
    fn emit_field_inits(&self, out: &mut String, fields: &Vec<FieldDecl>)
        requires
            fields_typed(fields_v(fields@)),
        ensures
            final(out)@ == old(out)@ + concat(fields_v(fields@).map_values(|f: FieldDeclV| field_init(self@, f))),
    {
        let ghost mid = out@;
        let ghost fv = fields_v(fields@);
        let ghost parts = fv.map_values(|f: FieldDeclV| field_init(self@, f));
        let mut i: usize = 0;
        assert(parts.take(0) =~= Seq::<Seq<char>>::empty());
        assert(out@ =~= mid + concat(parts.take(0)));
        while i < fields.len()
            invariant
                i <= fields@.len(),
                fv == fields_v(fields@),
                fields_typed(fv),
                parts == fv.map_values(|f: FieldDeclV| field_init(self@, f)),
                out@ == mid + concat(parts.take(i as int)),
            decreases fields@.len() - i,
        {
            proof { lemma_concat_step(parts, i as int); }
            assert(fv[i as int] == fields@[i as int]@);
            assert(ctype_ok(fv[i as int].ty));
            assert(crate::codegen_spec::lowered_expr(fv[i as int].default));
            let ghost before = out@;
            push_str(out, "    jl_this->f_");
            push_str(out, fields[i].name.as_str());
            push_str(out, " = ");
            let e = self.cg_expr(&fields[i].default);
            push_str(out, e.as_str());
            push_str(out, ";\n");
            assert(out@ =~= before + parts[i as int]);
            i += 1;
        }
        proof { lemma_concat_all(parts); }
    }

    /// A constructor: allocate, run the field defaults, then the body.
    #[verifier::rlimit(60)]
    #[verifier::spinoff_prover]
    fn emit_ctor_def(&mut self, out: &mut String, c: &ClassDecl)
        requires
            class_ok(c@),
        ensures
            same_frame(final(self)@, old(self)@),
            final(out)@ == old(out)@ + ctor_def(old(self)@, c@),
    {
        let ghost start = out@;
        let ghost base = self@;
        let mut func = lit_string(c.name.as_str());
        push_str(&mut func, " constructor");
        self.enter_body(c.file_idx, func, lit_string("void"));
        let ghost b = self@;
        let sig = self.ctor_signature(c);
        push_str(out, sig.as_str());
        push_str(out, " {\n");
        let fp = self.frame_push();
        push_str(out, fp.as_str());
        let k = c_name(c.name.as_str());
        push_str(out, "    jim_c_");
        push_str(out, k.as_str());
        push_str(out, "* jl_this = (jim_c_");
        push_str(out, k.as_str());
        push_str(out, "*)rt_arena_alloc(sizeof(jim_c_");
        push_str(out, k.as_str());
        push_str(out, "));\n");
        self.emit_field_inits(out, &c.fields);
        match &c.ctor {
            Some(ct) => self.emit_block(out, &ct.body, 1),
            None => {},
        }
        let fpop = self.frame_pop();
        push_str(out, fpop.as_str());
        push_str(out, "    return jl_this;\n}\n\n");
        assert(out@ =~= start + ctor_def(base, c@));
    }

    /// A class's reached constructor and method definitions.
    fn emit_class_defs(&mut self, out: &mut String, c: &ClassDecl, reach: &Reach)
        requires
            class_ok(c@),
        ensures
            same_frame(final(self)@, old(self)@),
            final(out)@ == old(out)@ + class_defs(old(self)@, reach@, c@),
    {
        let ghost start = out@;
        let ghost base = self@;
        if has_name(&self.user_classes, c.name.as_str()) && has_name(&reach.instantiated, c.name.as_str()) {
            self.emit_ctor_def(out, c);
        }
        let ghost mid = out@;
        assert(mid == start + (if is_user(base, c@) && reach@.classes.contains(c@.name) { ctor_def(base, c@) } else { Seq::empty() }));
        let ghost mv = methods_v(c.methods@);
        let ghost parts = mv.map_values(|m: MethodDeclV| if method_reached(reach@, c@, m) {
            method_def(base, c@, m)
        } else {
            Seq::empty()
        });
        let mut i: usize = 0;
        assert(parts.take(0) =~= Seq::<Seq<char>>::empty());
        assert(out@ =~= mid + concat(parts.take(0)));
        while i < c.methods.len()
            invariant
                i <= c.methods@.len(),
                class_ok(c@),
                same_frame(self@, base),
                mv == methods_v(c.methods@),
                parts == mv.map_values(|m: MethodDeclV| if method_reached(reach@, c@, m) {
                    method_def(base, c@, m)
                } else {
                    Seq::empty()
                }),
                out@ == mid + concat(parts.take(i as int)),
            decreases c.methods@.len() - i,
        {
            proof { lemma_concat_step(parts, i as int); }
            assert(mv[i as int] == c.methods@[i as int]@);
            assert(c@.methods[i as int] == mv[i as int]);
            assert(method_ok(c@.methods[i as int]));
            let ghost before = out@;
            if has_pair(&reach.methods, c.name.as_str(), c.methods[i].name.as_str()) {
                let ghost cur = self@;
                self.emit_method_def(out, c, &c.methods[i]);
                assert(method_def(cur, c@, mv[i as int]) == method_def(base, c@, mv[i as int]));
            }
            assert(out@ =~= before + parts[i as int]);
            i += 1;
        }
        proof { lemma_concat_all(parts); }
        assert(out@ =~= start + class_defs(base, reach@, c@));
    }
}

impl Cg {
    /// Every class's reached constructor and methods.
    fn emit_all_class_defs(&mut self, out: &mut String, p: &Program, reach: &Reach)
        requires
            program_ok(p@),
        ensures
            same_frame(final(self)@, old(self)@),
            final(out)@ == old(out)@ + concat(p@.classes.map_values(|c: ClassDeclV| class_defs(old(self)@, reach@, c))),
    {
        let ghost start = out@;
        let ghost base = self@;
        let ghost cv = classes_v(p.classes@);
        let ghost parts = cv.map_values(|c: ClassDeclV| class_defs(base, reach@, c));
        let mut i: usize = 0;
        assert(parts.take(0) =~= Seq::<Seq<char>>::empty());
        assert(out@ =~= start + concat(parts.take(0)));
        while i < p.classes.len()
            invariant
                i <= p.classes@.len(),
                program_ok(p@),
                same_frame(self@, base),
                cv == classes_v(p.classes@),
                parts == cv.map_values(|c: ClassDeclV| class_defs(base, reach@, c)),
                out@ == start + concat(parts.take(i as int)),
            decreases p.classes@.len() - i,
        {
            proof { lemma_concat_step(parts, i as int); }
            assert(cv[i as int] == p.classes@[i as int]@);
            assert(class_ok(p@.classes[i as int]));
            let ghost cur = self@;
            self.emit_class_defs(out, &p.classes[i], reach);
            proof { lemma_class_defs_frame(cur, base, reach@, cv[i as int]); }
            i += 1;
        }
        proof { lemma_concat_all(parts); }
    }

    /// Every reached function's definition.
    fn emit_all_fn_defs(&mut self, out: &mut String, p: &Program, reach: &Reach)
        requires
            program_ok(p@),
        ensures
            same_frame(final(self)@, old(self)@),
            final(out)@ == old(out)@ + concat(p@.functions.map_values(|f: FunctionDeclV| fn_def(old(self)@, reach@, f))),
    {
        let ghost start = out@;
        let ghost base = self@;
        let ghost fv = functions_v(p.functions@);
        let ghost parts = fv.map_values(|f: FunctionDeclV| fn_def(base, reach@, f));
        let mut i: usize = 0;
        assert(parts.take(0) =~= Seq::<Seq<char>>::empty());
        assert(out@ =~= start + concat(parts.take(0)));
        while i < p.functions.len()
            invariant
                i <= p.functions@.len(),
                program_ok(p@),
                same_frame(self@, base),
                fv == functions_v(p.functions@),
                parts == fv.map_values(|f: FunctionDeclV| fn_def(base, reach@, f)),
                out@ == start + concat(parts.take(i as int)),
            decreases p.functions@.len() - i,
        {
            proof { lemma_concat_step(parts, i as int); }
            assert(fv[i as int] == p.functions@[i as int]@);
            assert(function_ok(p@.functions[i as int]));
            let ghost cur = self@;
            self.emit_fn_def(out, &p.functions[i], reach);
            assert(fn_def(cur, reach@, fv[i as int]) == fn_def(base, reach@, fv[i as int]));
            i += 1;
        }
        proof { lemma_concat_all(parts); }
    }
}

/// Does the first function named `main` take the command line?
fn main_argv(p: &Program) -> (b: bool)
    ensures
        b == main_takes_argv(p@.functions),
{
    let ghost fv = functions_v(p.functions@);
    let mut i: usize = 0;
    assert(fv.skip(0) =~= fv);
    while i < p.functions.len()
        invariant
            i <= p.functions@.len(),
            fv == functions_v(p.functions@),
            main_takes_argv(fv) == main_takes_argv(fv.skip(i as int)),
        decreases p.functions@.len() - i,
    {
        assert(fv.skip(i as int)[0] == p.functions@[i as int]@);
        if str_eq(p.functions[i].name.as_str(), "main") {
            return p.functions[i].params.len() > 0;
        }
        assert(fv.skip(i as int).skip(1) =~= fv.skip(i + 1));
        i += 1;
    }
    false
}

proof fn lemma_body_cg_frame(a: CgV, b: CgV, i: usize, f: Seq<char>, r: Seq<char>)
    requires
        same_frame(a, b),
    ensures
        body_cg(a, i, f, r) == body_cg(b, i, f, r),
{
}

proof fn lemma_class_defs_frame(a: CgV, b: CgV, r: crate::reach_spec::ReachV, c: ClassDeclV)
    requires
        same_frame(a, b),
    ensures
        class_defs(a, r, c) == class_defs(b, r, c),
{
    lemma_body_cg_frame(a, b, c.file_idx, c.name + " constructor"@, "void"@);
    assert(ctor_def(a, c) == ctor_def(b, c));
    assert forall|m: MethodDeclV| method_def(a, c, m) == method_def(b, c, m) by {
        lemma_body_cg_frame(a, b, c.file_idx, c.name + "."@ + m.name, ctype_spec(m.ret));
    }
    let pa = c.methods.map_values(|m: MethodDeclV| if method_reached(r, c, m) { method_def(a, c, m) } else { Seq::empty() });
    let pb = c.methods.map_values(|m: MethodDeclV| if method_reached(r, c, m) { method_def(b, c, m) } else { Seq::empty() });
    assert(pa =~= pb);
}

proof fn lemma_fn_defs_frame(a: CgV, b: CgV, r: crate::reach_spec::ReachV, fs: Seq<FunctionDeclV>)
    requires
        same_frame(a, b),
    ensures
        fs.map_values(|f: FunctionDeclV| fn_def(a, r, f)) == fs.map_values(|f: FunctionDeclV| fn_def(b, r, f)),
{
    assert forall|f: FunctionDeclV| fn_def(a, r, f) == fn_def(b, r, f) by {
        lemma_body_cg_frame(a, b, f.file_idx, f.name, ctype_spec(f.ret));
    }
    assert(fs.map_values(|f: FunctionDeclV| fn_def(a, r, f)) =~= fs.map_values(|f: FunctionDeclV| fn_def(b, r, f)));
}

/// The C entry point; the `argv` form builds an `Array<String>` first.
fn entry(argv: bool, init: bool) -> (s: String)
    ensures
        s@ == entry_text(argv, init),
{
    if argv {
        lit_string("int main(int argc, char** argv) {\n    rt_init();\n    jim_c_Array_String_* jim_args = jim_new_Array_String_((int64_t)argc);\n    for (int jim_i = 0; jim_i < argc; jim_i++) {\n        jim_m_Array_String__set(jim_args, (int64_t)jim_i, rt_str_lit(argv[jim_i], (int64_t)strlen(argv[jim_i])));\n    }\n    int64_t jim_exit_code = jim_user_main(jim_args);\n    rt_shutdown();\n    return (int)jim_exit_code;\n}\n")
    } else if init {
        lit_string("int main(void) {\n    rt_init();\n    int64_t jim_exit_code = jim_user_main();\n    rt_shutdown();\n    return (int)jim_exit_code;\n}\n")
    } else {
        lit_string("int main(void) {\n    int64_t jim_exit_code = jim_user_main();\n    return (int)jim_exit_code;\n}\n")
    }
}

impl Cg {
    /// The whole translation unit for a program, given what is reachable:
    /// the runtime blocks it needs, class layouts, buffer instantiations,
    /// prototypes and definitions of what is reached, and the C entry point.
    pub fn emit_program(&mut self, p: &Program, reach: &Reach, runtime: &str) -> (s: String)
        requires
            program_ok(p@),
        ensures
            s@ == gen_text(old(self)@, p@, reach@, buffers_spec(p@), runtime@),
    {
        let ghost base = self@;
        let bufs = self.collect_buffers(p);
        let mut out = lit_string("/* generated by jimc - do not edit */\n");
        let blocks = compute_blocks(reach, bufs.len() > 0, self.debug);
        let rt = filter_runtime(runtime, self.panic_abort, &blocks);
        push_str(&mut out, rt.as_str());
        push_str(&mut out, "\n/* ==== jim classes ==== */\n\n");
        self.emit_typedefs(&mut out, &p.classes);
        push_str(&mut out, "\n");
        Cg::emit_bufs(&mut out, &bufs);
        push_str(&mut out, "\n");
        assert forall|i: int| 0 <= i < p.classes@.len() implies fields_typed(#[trigger] p.classes@[i]@.fields) by {
            assert(classes_v(p.classes@)[i] == p.classes@[i]@);
            assert(class_ok(p@.classes[i]));
        }
        self.emit_structs(&mut out, &p.classes);
        push_str(&mut out, "/* ==== jim program ==== */\n\n");
        self.emit_protos(&mut out, p, reach);
        push_str(&mut out, "\n");
        self.emit_all_class_defs(&mut out, p, reach);
        let ghost cur = self@;
        self.emit_all_fn_defs(&mut out, p, reach);
        proof { lemma_fn_defs_frame(cur, base, reach@, p@.functions); }
        let argv = main_argv(p);
        let init = blocks.len() > 0 || reach.instantiated.len() > 0;
        let e = entry(argv, init);
        push_str(&mut out, e.as_str());
        out
    }
}

/// The names of the user classes, in order.
fn user_classes_of(cs: &Vec<ClassDecl>) -> (r: Vec<String>)
    ensures
        names_v(r@) == user_class_names(classes_v(cs@)),
{
    let ghost cv = classes_v(cs@);
    let mut out: Vec<String> = Vec::new();
    let mut i: usize = 0;
    assert(cv.take(0) =~= Seq::<ClassDeclV>::empty());
    assert(names_v(out@) =~= Seq::<Seq<char>>::empty());
    while i < cs.len()
        invariant
            i <= cs@.len(),
            cv == classes_v(cs@),
            names_v(out@) == user_class_names(cv.take(i as int)),
        decreases cs@.len() - i,
    {
        assert(cv.take(i + 1).drop_last() =~= cv.take(i as int));
        assert(cv.take(i + 1).last() == cs@[i as int]@);
        let ghost before = names_v(out@);
        if !crate::codegen_names::is_core_class(cs[i].name.as_str()) {
            out.push(cs[i].name.clone());
            assert(names_v(out@) =~= before + seq![cs@[i as int].name@]);
        } else {
            assert(names_v(out@) =~= before + Seq::<Seq<char>>::empty());
        }
        i += 1;
    }
    assert(cv.take(cs@.len() as int) =~= cv);
    out
}

/// A path with `\` separators written as `/`.
fn slash_path(s: &str) -> (r: String)
    ensures
        r@ == slashed(s@),
{
    let cs = crate::text::chars_of(s);
    let mut out = String::new();
    let mut i: usize = 0;
    while i < cs.len()
        invariant
            i <= cs@.len(),
            cs@ == s@,
            out@ == slashed(s@).take(i as int),
        decreases cs@.len() - i,
    {
        let c = if cs[i] == '\\' { '/' } else { cs[i] };
        crate::text::push_char(&mut out, c);
        assert(slashed(s@).take(i + 1) =~= slashed(s@).take(i as int).push(c));
        i += 1;
    }
    assert(slashed(s@).take(cs@.len() as int) =~= slashed(s@));
    out
}

/// `c` is the translation unit the code generator emits for `q`: over the
/// least set of what `main` reaches (closed under calls, method calls and
/// constructions), with `names` as the files' display paths.
pub open spec fn emitted(c: Seq<char>, q: crate::ast::ProgramV, names: Seq<Seq<char>>, debug: bool, panic_abort: bool, runtime: Seq<char>) -> bool {
    exists|rr: crate::reach_spec::ReachV| crate::reach_spec::reach_closed(q, main_takes_argv(q.functions), rr)
        && (forall|r2: crate::reach_spec::ReachV| #[trigger] crate::reach_spec::reach_closed(q, main_takes_argv(q.functions), r2) ==> crate::reach_spec::reach_within(rr, r2))
        && c == #[trigger] gen_text(initial_cg(q, names, debug, panic_abort), q, rr, buffers_spec(q), runtime)
}

/// Emit the whole program as one C11 translation unit: only what `main`
/// can reach, over the runtime source `runtime` reduced to the blocks the
/// reached code needs. `files` maps a declaration's `file_idx` to its
/// display path (for `@panic` locations); `debug` adds shadow-stack
/// maintenance; `panic_abort` drops the `setjmp` machinery.
pub fn generate(program: &Program, files: &[String], debug: bool, panic_abort: bool, runtime: &str) -> (s: String)
    requires
        program_ok(program@),
    ensures
        emitted(s@, program@, names_v(files@), debug, panic_abort, runtime@),
{
    let mut fs: Vec<String> = Vec::new();
    let mut i: usize = 0;
    while i < files.len()
        invariant
            i <= files@.len(),
            names_v(fs@) == names_v(files@).take(i as int).map_values(|f: Seq<char>| slashed(f)),
        decreases files@.len() - i,
    {
        let ghost before = names_v(fs@);
        let sp = slash_path(files[i].as_str());
        fs.push(sp);
        assert(names_v(fs@) =~= before.push(slashed(files@[i as int]@)));
        assert(names_v(files@).take(i + 1).map_values(|f: Seq<char>| slashed(f))
            =~= names_v(files@).take(i as int).map_values(|f: Seq<char>| slashed(f)).push(slashed(files@[i as int]@)));
        i += 1;
    }
    assert(names_v(files@).take(files@.len() as int) =~= names_v(files@));
    let mut cg = Cg {
        user_classes: user_classes_of(&program.classes),
        files: fs,
        panic_file: lit_string("?"),
        panic_func: lit_string("?"),
        debug,
        panic_abort,
        ret_ctype: lit_string("void"),
    };
    assert(cg@ == initial_cg(program@, names_v(files@), debug, panic_abort));
    let argv = main_argv(program);
    let reach = compute_reachable(program, argv);
    let s = cg.emit_program(program, &reach, runtime);
    assert(s@ == gen_text(initial_cg(program@, names_v(files@), debug, panic_abort), program@, reach@, buffers_spec(program@), runtime@));
    s
}

} // verus!
