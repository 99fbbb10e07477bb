//! Emitting C for a type-checked program: types, expressions, statements.

use vstd::prelude::*;
use vstd::utf8::encode_utf8;
use crate::ast::{BinOp, Block, Expr, ExprKind, ExprKindV, Stmt, StmtKind, StmtKindV, Type, TypeV, UnOp, exprs_v, names_v};
use crate::codegen_names::{c_name, c_name_spec, class_key_of, core_opt_sfx, core_opt_sfx_spec, escape_c, escape_c_spec, indent, indent_spec, local, mangle, mangle_method, opt_is_struct, opt_is_struct_spec};
use crate::codegen_spec::{CgV, try_handler_text, cg_step_spec, cg_target_spec, emit_arms_spec, emit_block_spec, emit_stmt_spec, emit_stmts_spec, lemma_nest_arms, lemma_nest_stmts, lowered_arms, lowered_block, lowered_step, lowered_stmt, lowered_target, nest_arms, nest_block, nest_stmt, cg_expr_spec, cg_list, container_items, ctype_ok, ctype_spec, is_rawbuf_key, join, line_mark_spec, lowered_expr, lowered_exprs, rawbuf_payload};
use crate::text::{chars_of, lit_string, push_char, push_decimal, push_signed, push_str, str_eq};

verus! {

/// The code generator's state while it emits a program.
#[derive(Debug, Clone)]
pub struct Cg {
    /// Reference classes (arena-allocated, represented as pointers).
    pub user_classes: Vec<String>,
    /// Display path of each source file, for `@panic` locations.
    pub files: Vec<String>,
    /// File and function of the body being emitted (baked into `@panic`).
    pub panic_file: String,
    pub panic_func: String,
    /// Emit shadow-stack maintenance so panics print a full jim stack trace.
    pub debug: bool,
    /// Panics print and exit instead of unwinding; catch blocks are dropped.
    pub panic_abort: bool,
    /// C return type of the body being emitted.
    pub ret_ctype: String,
}

impl View for Cg {
    type V = CgV;

    open spec fn view(&self) -> CgV {
        CgV {
            user_classes: names_v(self.user_classes@),
            files: names_v(self.files@),
            panic_file: self.panic_file@,
            panic_func: self.panic_func@,
            debug: self.debug,
            panic_abort: self.panic_abort,
            ret_ctype: self.ret_ctype@,
        }
    }
}

/// Parts joined by a separator.
pub fn join_parts(parts: &Vec<String>, sep: &str) -> (s: String)
    ensures
        s@ == join(names_v(parts@), sep@),
{
    let ghost ps = names_v(parts@);
    let mut out = String::new();
    let mut i: usize = 0;
    while i < parts.len()
        invariant
            i <= parts@.len(),
            ps == names_v(parts@),
            out@ == join(ps.take(i as int), sep@),
        decreases parts@.len() - i,
    {
        if i > 0 {
            push_str(&mut out, sep);
        }
        push_str(&mut out, parts[i].as_str());
        proof {
            let t = ps.take(i + 1);
            assert(t.drop_last() =~= ps.take(i as int));
            assert(t.last() == parts@[i as int]@);
            if i == 0 {
                assert(ps.take(0) =~= Seq::<Seq<char>>::empty());
            }
        }
        i += 1;
    }
    assert(ps.take(parts@.len() as int) =~= ps);
    out
}

/// Does a float spelling hold a point or an exponent?
fn has_point_or_exponent(t: &str) -> (b: bool)
    ensures
        b == (t@.contains('.') || t@.contains('e') || t@.contains('E')),
{
    let cs = chars_of(t);
    let mut i: usize = 0;
    while i < cs.len()
        invariant
            i <= cs@.len(),
            cs@ == t@,
            forall|j: int| 0 <= j < i ==> cs@[j] != '.' && cs@[j] != 'e' && cs@[j] != 'E',
        decreases cs@.len() - i,
    {
        if cs[i] == '.' || cs[i] == 'e' || cs[i] == 'E' {
            return true;
        }
        i += 1;
    }
    false
}

/// The characters `cs[from..to]` as a string.
fn sub_string(cs: &Vec<char>, from: usize, to: usize) -> (s: String)
    requires
        from <= to <= cs@.len(),
    ensures
        s@ == cs@.subrange(from as int, to as int),
{
    let mut out = String::new();
    let mut i = from;
    while i < to
        invariant
            from <= i <= to,
            to <= cs@.len(),
            out@ == cs@.subrange(from as int, i as int),
        decreases to - i,
    {
        push_char(&mut out, cs[i]);
        assert(cs@.subrange(from as int, i + 1) == cs@.subrange(from as int, i as int).push(cs@[i as int]));
        i += 1;
    }
    out
}

/// `RawBuffer<T>`'s payload `T` when the key names a buffer.
fn rawbuf_payload_of(class: &str) -> (r: Option<String>)
    ensures
        is_rawbuf_key(class@) ==> (r matches Some(p) && p@ == rawbuf_payload(class@)),
        !is_rawbuf_key(class@) ==> r is None,
{
    let cs = chars_of(class);
    let n = cs.len();
    if n >= 11 && crate::text::slice_is(cs.as_slice(), 0, 10, "RawBuffer<") && cs[n - 1] == '>' {
        assert(cs@.subrange(0, 10) == cs@.take(10));
        Some(sub_string(&cs, 10, n - 1))
    } else {
        assert(n >= 11 ==> cs@.subrange(0, 10) == cs@.take(10));
        None
    }
}

/// A `try`/`catch` handler around already emitted body and catch body.
#[verifier::rlimit(40)]
fn handler_text(body: &str, var_name: &str, catch_body: &str, depth: usize) -> (s: String)
    requires
        depth + 2 <= usize::MAX,
    ensures
        s@ == try_handler_text(body@, var_name@, catch_body@, depth as nat),
{
    let ghost ind = indent_spec(depth as nat);
    let ghost ind1 = indent_spec(depth as nat + 1);
    let ghost ind2 = indent_spec(depth as nat + 2);
    let mut h = String::new();
    indent(&mut h, depth);
    assert(h@ =~= ind);
    push_str(&mut h, "{\n");
    indent(&mut h, depth + 1);
    push_str(&mut h, "rt_handler jim_h;\n");
    indent(&mut h, depth + 1);
    push_str(&mut h, "jim_h.prev = rt_handlers;\n");
    indent(&mut h, depth + 1);
    push_str(&mut h, "jim_h.frame_top = rt_frame_top;\n");
    indent(&mut h, depth + 1);
    push_str(&mut h, "rt_handlers = &jim_h;\n");
    indent(&mut h, depth + 1);
    push_str(&mut h, "if (setjmp(jim_h.buf) == 0) {\n");
    push_str(&mut h, body);
    indent(&mut h, depth + 2);
    push_str(&mut h, "rt_handlers = jim_h.prev; /* normal exit */\n");
    indent(&mut h, depth + 1);
    push_str(&mut h, "} else {\n");
    indent(&mut h, depth + 2);
    push_str(&mut h, "jim_str ");
    let l = local(var_name);
    push_str(&mut h, l.as_str());
    push_str(&mut h, " = rt_current_exc;\n");
    push_str(&mut h, catch_body);
    indent(&mut h, depth + 1);
    push_str(&mut h, "}\n");
    indent(&mut h, depth);
    push_str(&mut h, "}\n");
    h
}

impl Cg {
    /// The C type of a jim type.
    pub fn ctype(&self, ty: &Type) -> (s: String)
        requires
            ctype_ok(ty@),
        ensures
            s@ == ctype_spec(ty@),
        decreases ty,
    {
        match ty {
            Type::Named(n) => {
                let n = n.as_str();
                if str_eq(n, "Integer") {
                    lit_string("int64_t")
                } else if str_eq(n, "Float") {
                    lit_string("double")
                } else if str_eq(n, "Bool") {
                    lit_string("bool")
                } else if str_eq(n, "Char") {
                    lit_string("uint8_t")
                } else if str_eq(n, "String") || str_eq(n, "Exception") {
                    lit_string("jim_str")
                } else if str_eq(n, "None") {
                    lit_string("void")
                } else {
                    let mut s = lit_string("jim_c_");
                    let c = c_name(n);
                    push_str(&mut s, c.as_str());
                    push_str(&mut s, "*");
                    s
                }
            },
            Type::Generic(n, p) => {
                if str_eq(n.as_str(), "RawBuffer") {
                    let mut s = lit_string("jim_buf_");
                    let d = p.display();
                    let c = c_name(d.as_str());
                    push_str(&mut s, c.as_str());
                    s
                } else {
                    let mut s = lit_string("jim_c_");
                    let k = class_key_of(ty);
                    let c = c_name(k.as_str());
                    push_str(&mut s, c.as_str());
                    push_str(&mut s, "*");
                    s
                }
            },
            Type::Optional(inner) => {
                if opt_is_struct(inner) {
                    let mut s = lit_string("jim_opt_");
                    push_str(&mut s, core_opt_sfx(inner));
                    s
                } else {
                    self.ctype(inner)
                }
            },
            Type::Pointer(inner) => {
                let mut s = self.ctype(inner);
                push_str(&mut s, "*");
                s
            },
        }
    }

    /// For a function returning `T?`: the implicit `return None;` at its end.
    pub fn implicit_none_return(&self, ret: &Type) -> (r: Option<String>)
        requires
            ctype_ok(ret@),
        ensures
            match ret@ {
                TypeV::Optional(inner) => r matches Some(s) && s@ == if opt_is_struct_spec(*inner) {
                    "    return rt_opt_"@ + core_opt_sfx_spec(*inner) + "_none();\n"@
                } else {
                    "    return ("@ + ctype_spec(*inner) + ")NULL;\n"@
                },
                _ => r is None,
            },
    {
        match ret {
            Type::Optional(inner) => {
                if opt_is_struct(inner) {
                    let mut s = lit_string("    return rt_opt_");
                    push_str(&mut s, core_opt_sfx(inner));
                    push_str(&mut s, "_none();\n");
                    Some(s)
                } else {
                    let mut s = lit_string("    return (");
                    let c = self.ctype(inner);
                    push_str(&mut s, c.as_str());
                    push_str(&mut s, ")NULL;\n");
                    Some(s)
                }
            },
            _ => None,
        }
    }

    /// Set the file and function that `@panic` call sites report.
    pub fn set_panic_ctx(&mut self, file_idx: usize, func: String)
        ensures
            final(self)@ == (CgV {
                panic_file: if file_idx < old(self)@.files.len() { old(self)@.files[file_idx as int] } else { "?"@ },
                panic_func: func@,
                ..old(self)@
            }),
    {
        let file = if file_idx < self.files.len() { self.files[file_idx].clone() } else { lit_string("?") };
        self.panic_file = file;
        self.panic_func = func;
    }

    /// Debug builds: enter the shadow-stack frame of the body being emitted.
    pub fn frame_push(&self) -> (s: String)
        ensures
            s@ == if self.debug {
                "    rt_push_frame(\""@ + escape_c_spec(encode_utf8(self.panic_file@)) + "\", \""@
                    + escape_c_spec(encode_utf8(self.panic_func@)) + "\");\n"@
            } else {
                Seq::empty()
            },
    {
        if !self.debug {
            return String::new();
        }
        let mut s = lit_string("    rt_push_frame(\"");
        let f = escape_c(self.panic_file.as_str().as_bytes());
        push_str(&mut s, f.as_str());
        push_str(&mut s, "\", \"");
        let g = escape_c(self.panic_func.as_str().as_bytes());
        push_str(&mut s, g.as_str());
        push_str(&mut s, "\");\n");
        s
    }

    /// Debug builds: leave the current shadow-stack frame.
    pub fn frame_pop(&self) -> (s: String)
        ensures
            s@ == if self.debug { "    rt_pop_frame();\n"@ } else { Seq::empty() },
    {
        if self.debug {
            lit_string("    rt_pop_frame();\n")
        } else {
            String::new()
        }
    }

    /// Debug builds: record `line` in the active frame before `call`.
    pub fn line_mark(&self, line: u32, call: String) -> (s: String)
        ensures
            s@ == line_mark_spec(self@, line, call@),
    {
        if self.debug {
            let mut s = lit_string("(rt_frame_line(");
            push_decimal(&mut s, line as u64);
            push_str(&mut s, "), ");
            push_str(&mut s, call.as_str());
            push_str(&mut s, ")");
            s
        } else {
            call
        }
    }

    /// The C text of each expression of a list.
    fn cg_args(&self, args: &Vec<Expr>) -> (v: Vec<String>)
        requires
            lowered_exprs(exprs_v(args@)),
        ensures
            names_v(v@) == cg_list(self@, exprs_v(args@)),
        decreases args, 0nat,
    {
        let ghost target = cg_list(self@, exprs_v(args@));
        let mut out: Vec<String> = Vec::new();
        let mut i: usize = 0;
        while i < args.len()
            invariant
                i <= args@.len(),
                target == cg_list(self@, exprs_v(args@)),
                lowered_exprs(exprs_v(args@)),
                names_v(out@) == target.take(i as int),
            decreases args@.len() - i,
        {
            assert(exprs_v(args@)[i as int] == args@[i as int]@);
            assert(decreases_to!(args => args@[i as int]));
            let c = self.cg_expr(&args[i]);
            let ghost before = names_v(out@);
            out.push(c);
            assert(names_v(out@) =~= before.push(target[i as int]));
            assert(target.take(i + 1) =~= target.take(i as int).push(target[i as int]));
            i += 1;
        }
        assert(target.take(args@.len() as int) =~= target);
        out
    }

    /// `name(args)`, line-marked.
    fn cg_call(&self, line: u32, callee: String, args: &Vec<Expr>) -> (s: String)
        requires
            lowered_exprs(exprs_v(args@)),
        ensures
            s@ == line_mark_spec(self@, line, callee@ + "("@ + join(cg_list(self@, exprs_v(args@)), ", "@) + ")"@),
        decreases args, 1nat,
    {
        let a = self.cg_args(args);
        let mut c = callee;
        push_str(&mut c, "(");
        let j = join_parts(&a, ", ");
        push_str(&mut c, j.as_str());
        push_str(&mut c, ")");
        self.line_mark(line, c)
    }

    /// A method call with its receiver first; buffer methods are runtime
    /// helpers (unmarked).
    fn cg_core_method_call(&self, line: u32, class: &String, name: &String, r: String, args: &Vec<Expr>) -> (s: String)
        requires
            lowered_exprs(exprs_v(args@)),
        ensures
            s@ == ({
                let all = seq![r@] + cg_list(self@, exprs_v(args@));
                if is_rawbuf_key(class@) {
                    "jim_buf_"@ + c_name_spec(rawbuf_payload(class@)) + "_"@ + name@ + "("@ + join(all, ", "@) + ")"@
                } else {
                    line_mark_spec(self@, line, crate::codegen_names::mangle_method_spec(class@, name@) + "("@ + join(all, ", "@) + ")"@)
                }
            }),
        decreases args, 1nat,
    {
        let ghost rv = r@;
        let mut rest = self.cg_args(args);
        let ghost rest_v = rest@;
        let mut all: Vec<String> = Vec::new();
        all.push(r);
        let ghost first = all@;
        all.append(&mut rest);
        assert(names_v(all@) =~= seq![rv] + cg_list(self@, exprs_v(args@))) by {
            assert(all@ == first + rest_v);
            assert forall|i: int| 0 <= i < names_v(all@).len() implies names_v(all@)[i]
                == (seq![rv] + cg_list(self@, exprs_v(args@)))[i] by {
                if i > 0 {
                    assert(names_v(rest_v)[i - 1] == rest_v[i - 1]@);
                }
            }
        }
        let j = join_parts(&all, ", ");
        match rawbuf_payload_of(class.as_str()) {
            Some(p) => {
                let mut s = lit_string("jim_buf_");
                let c = c_name(p.as_str());
                push_str(&mut s, c.as_str());
                push_str(&mut s, "_");
                push_str(&mut s, name.as_str());
                push_str(&mut s, "(");
                push_str(&mut s, j.as_str());
                push_str(&mut s, ")");
                s
            },
            None => {
                let mut c = mangle_method(class.as_str(), name.as_str());
                push_str(&mut c, "(");
                push_str(&mut c, j.as_str());
                push_str(&mut c, ")");
                self.line_mark(line, c)
            },
        }
    }

    /// A container literal built through its constructor and `set`/`push`.
    fn cg_container_lit(&self, class: &String, is_array: bool, elems: &Vec<Expr>) -> (s: String)
        requires
            lowered_exprs(exprs_v(elems@)),
        ensures
            s@ == ({
                let k = c_name_spec(class@);
                "({ jim_c_"@ + k + "* jim_lit = jim_new_"@ + k + "("@
                    + (if is_array { "INT64_C("@ + crate::text::decimal(exprs_v(elems@).len()) + ")"@ } else { Seq::empty() })
                    + "); "@ + container_items(self@, k, is_array, exprs_v(elems@), exprs_v(elems@).len()) + "jim_lit; })"@
            }),
        decreases elems, 1nat,
    {
        let k = c_name(class.as_str());
        let mut s = lit_string("({ jim_c_");
        push_str(&mut s, k.as_str());
        push_str(&mut s, "* jim_lit = jim_new_");
        push_str(&mut s, k.as_str());
        push_str(&mut s, "(");
        if is_array {
            push_str(&mut s, "INT64_C(");
            push_decimal(&mut s, elems.len() as u64);
            push_str(&mut s, ")");
        }
        push_str(&mut s, "); ");
        let ghost es = exprs_v(elems@);
        let ghost head = s@;
        let mut i: usize = 0;
        while i < elems.len()
            invariant
                i <= elems@.len(),
                es == exprs_v(elems@),
                lowered_exprs(exprs_v(elems@)),
                k@ == c_name_spec(class@),
                s@ == head + container_items(self@, k@, is_array, es, i as nat),
            decreases elems@.len() - i,
        {
            assert(es[i as int] == elems@[i as int]@);
            assert(decreases_to!(elems => elems@[i as int]));
            let c = self.cg_expr(&elems[i]);
            if is_array {
                push_str(&mut s, "jim_m_");
                push_str(&mut s, k.as_str());
                push_str(&mut s, "_set(jim_lit, INT64_C(");
                push_decimal(&mut s, i as u64);
                push_str(&mut s, "), ");
                push_str(&mut s, c.as_str());
                push_str(&mut s, "); ");
            } else {
                push_str(&mut s, "jim_m_");
                push_str(&mut s, k.as_str());
                push_str(&mut s, "_push(jim_lit, ");
                push_str(&mut s, c.as_str());
                push_str(&mut s, "); ");
            }
            i += 1;
        }
        push_str(&mut s, "jim_lit; })");
        s
    }

    /// An intrinsic call: `@panic` bakes in its location, `@str_from_buf`
    /// unwraps the buffer, the rest call their `rt_` helper.
    fn cg_intrinsic(&self, line: u32, name: &String, args: &Vec<Expr>) -> (s: String)
        requires
            lowered_exprs(exprs_v(args@)),
            name@ == "panic"@ ==> args@.len() >= 1,
            name@ == "str_from_buf"@ ==> args@.len() >= 2,
        ensures
            s@ == ({
                let a = cg_list(self@, exprs_v(args@));
                if name@ == "panic"@ {
                    line_mark_spec(self@, line,
                        "rt_panic_at("@ + a[0] + ", \""@ + escape_c_spec(encode_utf8(self@.panic_file)) + "\", "@
                            + crate::text::decimal(line as nat) + ", \""@ + escape_c_spec(encode_utf8(self@.panic_func)) + "\")"@)
                } else if name@ == "str_from_buf"@ {
                    "rt_str_from_bytes(("@ + a[0] + ").data, "@ + a[1] + ")"@
                } else {
                    line_mark_spec(self@, line, "rt_"@ + name@ + "("@ + join(a, ", "@) + ")"@)
                }
            }),
        decreases args, 1nat,
    {
        let a = self.cg_args(args);
        proof {
            assert(names_v(a@).len() == args@.len());
        }
        if str_eq(name.as_str(), "panic") {
            let mut c = lit_string("rt_panic_at(");
            assert(names_v(a@)[0] == a@[0]@);
            push_str(&mut c, a[0].as_str());
            push_str(&mut c, ", \"");
            let f = escape_c(self.panic_file.as_str().as_bytes());
            push_str(&mut c, f.as_str());
            push_str(&mut c, "\", ");
            push_decimal(&mut c, line as u64);
            push_str(&mut c, ", \"");
            let g = escape_c(self.panic_func.as_str().as_bytes());
            push_str(&mut c, g.as_str());
            push_str(&mut c, "\")");
            return self.line_mark(line, c);
        }
        if str_eq(name.as_str(), "str_from_buf") {
            assert(names_v(a@)[0] == a@[0]@);
            assert(names_v(a@)[1] == a@[1]@);
            let mut c = lit_string("rt_str_from_bytes((");
            push_str(&mut c, a[0].as_str());
            push_str(&mut c, ").data, ");
            push_str(&mut c, a[1].as_str());
            push_str(&mut c, ")");
            return c;
        }
        let mut c = lit_string("rt_");
        push_str(&mut c, name.as_str());
        push_str(&mut c, "(");
        let j = join_parts(&a, ", ");
        push_str(&mut c, j.as_str());
        push_str(&mut c, ")");
        self.line_mark(line, c)
    }

    /// The C expression for a type-checked jim expression.
    pub fn cg_expr(&self, e: &Expr) -> (s: String)
        requires
            lowered_expr(e@),
        ensures
            s@ == cg_expr_spec(self@, e@),
        decreases e, 2nat,
    {
        match &e.kind {
            ExprKind::Int(v) => {
                let mut s = lit_string("INT64_C(");
                push_signed(&mut s, *v);
                push_str(&mut s, ")");
                s
            },
            ExprKind::Float(t) => {
                let mut s = t.clone();
                if !has_point_or_exponent(t.as_str()) {
                    push_str(&mut s, ".0");
                }
                s
            },
            ExprKind::Str(x) => {
                let bytes = x.as_str().as_bytes();
                let mut s = lit_string("rt_str_lit(\"");
                let esc = escape_c(bytes);
                push_str(&mut s, esc.as_str());
                push_str(&mut s, "\", ");
                push_decimal(&mut s, bytes.len() as u64);
                push_str(&mut s, ")");
                s
            },
            ExprKind::CharLit(c) => {
                let mut s = String::new();
                push_decimal(&mut s, *c as u64);
                push_str(&mut s, "u");
                s
            },
            ExprKind::Bool(b) => {
                if *b {
                    lit_string("true")
                } else {
                    lit_string("false")
                }
            },
            ExprKind::Ident(n) => local(n.as_str()),
            ExprKind::This => lit_string("jl_this"),
            ExprKind::Call { name, args } => {
                assert(e@.kind == ExprKindV::Call { name: name@, args: exprs_v(args@) });
                self.cg_call(e.line, mangle(name.as_str()), args)
            },
            ExprKind::New { class, args } => {
                assert(e@.kind == ExprKindV::New { class: class@, args: exprs_v(args@) });
                let mut callee = lit_string("jim_new_");
                let c = c_name(class.as_str());
                push_str(&mut callee, c.as_str());
                self.cg_call(e.line, callee, args)
            },
            ExprKind::CoreMethodCall { class, name, recv, args } => {
                assert(e@.kind == ExprKindV::CoreMethodCall { class: class@, name: name@, recv: Box::new((**recv)@), args: exprs_v(args@) });
                let r = self.cg_expr(recv);
                self.cg_core_method_call(e.line, class, name, r, args)
            },
            ExprKind::ContainerLit { class, is_array, elems } => {
                assert(e@.kind == ExprKindV::ContainerLit { class: class@, is_array: *is_array, elems: exprs_v(elems@) });
                self.cg_container_lit(class, *is_array, elems)
            },
            ExprKind::BufAlloc { elem, size } => {
                let mut s = lit_string("jim_buf_");
                let d = elem.display();
                let c = c_name(d.as_str());
                push_str(&mut s, c.as_str());
                push_str(&mut s, "_alloc(");
                let z = self.cg_expr(size);
                push_str(&mut s, z.as_str());
                push_str(&mut s, ")");
                s
            },
            ExprKind::FieldAccess { recv, name } => {
                let mut s = lit_string("(");
                let r = self.cg_expr(recv);
                push_str(&mut s, r.as_str());
                push_str(&mut s, ")->f_");
                push_str(&mut s, name.as_str());
                s
            },
            ExprKind::IntrinsicCall { name, args } => {
                assert(e@.kind == ExprKindV::IntrinsicCall { name: name@, args: exprs_v(args@) });
                self.cg_intrinsic(e.line, name, args)
            },
            ExprKind::OptWrap { payload, expr } => {
                let inner = self.cg_expr(expr);
                if opt_is_struct(payload) {
                    let mut s = lit_string("rt_opt_");
                    push_str(&mut s, core_opt_sfx(payload));
                    push_str(&mut s, "_some(");
                    push_str(&mut s, inner.as_str());
                    push_str(&mut s, ")");
                    s
                } else {
                    let mut s = lit_string("(");
                    push_str(&mut s, inner.as_str());
                    push_str(&mut s, ")");
                    s
                }
            },
            ExprKind::OptUnwrap { payload, expr } => {
                let inner = self.cg_expr(expr);
                if opt_is_struct(payload) {
                    let mut s = lit_string("rt_opt_");
                    push_str(&mut s, core_opt_sfx(payload));
                    push_str(&mut s, "_get(");
                    push_str(&mut s, inner.as_str());
                    push_str(&mut s, ")");
                    s
                } else {
                    let mut s = lit_string("((");
                    let c = self.ctype(payload);
                    push_str(&mut s, c.as_str());
                    push_str(&mut s, ")rt_nonnull(");
                    push_str(&mut s, inner.as_str());
                    push_str(&mut s, ", \"");
                    let d = payload.display();
                    push_str(&mut s, d.as_str());
                    push_str(&mut s, "\"))");
                    s
                }
            },
            ExprKind::OptNone { payload } => {
                if opt_is_struct(payload) {
                    let mut s = lit_string("rt_opt_");
                    push_str(&mut s, core_opt_sfx(payload));
                    push_str(&mut s, "_none()");
                    s
                } else {
                    let mut s = lit_string("((");
                    let c = self.ctype(payload);
                    push_str(&mut s, c.as_str());
                    push_str(&mut s, ")NULL)");
                    s
                }
            },
            ExprKind::OptHas { payload, expr } => {
                let inner = self.cg_expr(expr);
                if opt_is_struct(payload) {
                    let mut s = lit_string("rt_opt_");
                    push_str(&mut s, core_opt_sfx(payload));
                    push_str(&mut s, "_has(");
                    push_str(&mut s, inner.as_str());
                    push_str(&mut s, ")");
                    s
                } else {
                    let mut s = lit_string("((");
                    push_str(&mut s, inner.as_str());
                    push_str(&mut s, ") != NULL)");
                    s
                }
            },
            ExprKind::Binary { op, lhs, rhs } => {
                let mut s = lit_string("(");
                let l = self.cg_expr(lhs);
                push_str(&mut s, l.as_str());
                match op {
                    BinOp::And => push_str(&mut s, " && "),
                    _ => push_str(&mut s, " || "),
                }
                let r = self.cg_expr(rhs);
                push_str(&mut s, r.as_str());
                push_str(&mut s, ")");
                s
            },
            ExprKind::Unary { op, operand } => {
                let inner = self.cg_expr(operand);
                match op {
                    UnOp::Not => {
                        let mut s = lit_string("!(");
                        push_str(&mut s, inner.as_str());
                        push_str(&mut s, ")");
                        s
                    },
                    UnOp::AddrOf => {
                        let mut s = lit_string("(&");
                        push_str(&mut s, inner.as_str());
                        push_str(&mut s, ")");
                        s
                    },
                    _ => {
                        let mut s = lit_string("(*");
                        push_str(&mut s, inner.as_str());
                        push_str(&mut s, ")");
                        s
                    },
                }
            },
            _ => String::new(),
        }
    }

    /// An assignment target as a C lvalue.
    fn cg_assign_target(&self, target: &Expr) -> (s: String)
        requires
            lowered_target(target@),
        ensures
            s@ == cg_target_spec(self@, target@),
    {
        match &target.kind {
            ExprKind::Ident(name) => local(name.as_str()),
            ExprKind::FieldAccess { recv, name } => {
                let mut s = lit_string("(");
                let r = self.cg_expr(recv);
                push_str(&mut s, r.as_str());
                push_str(&mut s, ")->f_");
                push_str(&mut s, name.as_str());
                s
            },
            ExprKind::Unary { operand, .. } => {
                let mut s = lit_string("(*");
                let r = self.cg_expr(operand);
                push_str(&mut s, r.as_str());
                push_str(&mut s, ")");
                s
            },
            _ => String::new(),
        }
    }

    /// The step slot of a C `for`: an assignment or an expression.
    fn cg_step_expr(&self, step: &Stmt) -> (s: String)
        requires
            lowered_step(step@),
        ensures
            s@ == cg_step_spec(self@, step@),
    {
        match &step.kind {
            StmtKind::Assign { target, value, .. } => {
                let mut s = self.cg_assign_target(target);
                push_str(&mut s, " = ");
                let v = self.cg_expr(value);
                push_str(&mut s, v.as_str());
                s
            },
            StmtKind::ExprStmt(e) => self.cg_expr(e),
            _ => String::new(),
        }
    }

    /// Append a block's statements at indentation `depth`.
    pub fn emit_block(&self, out: &mut String, block: &Block, depth: usize)
        requires
            lowered_block(block@),
            depth + nest_block(block@) <= usize::MAX,
        ensures
            final(out)@ == old(out)@ + emit_block_spec(self@, block@, depth as nat),
        decreases block, 0nat,
    {
        let ghost start = out@;
        let ghost ss = block@.stmts;
        let mut i: usize = 0;
        while i < block.stmts.len()
            invariant
                i <= block.stmts@.len(),
                ss == block@.stmts,
                ss == crate::ast::stmts_v(block.stmts@),
                lowered_block(block@),
                depth + nest_block(block@) <= usize::MAX,
                out@ == start + emit_stmts_spec(self@, ss, depth as nat, i as nat),
            decreases block.stmts@.len() - i,
        {
            assert(ss[i as int] == block.stmts@[i as int]@);
            assert(lowered_stmt(ss[i as int]));
            proof {
                lemma_nest_stmts(ss, ss.len(), i as int);
            }
            assert(decreases_to!(block => block.stmts@[i as int]));
            self.emit_stmt(out, &block.stmts[i], depth);
            assert(out@ =~= start + emit_stmts_spec(self@, ss, depth as nat, (i + 1) as nat));
            i += 1;
        }
    }

    /// Append one statement at indentation `depth`.
    #[verifier::rlimit(40)]
    pub fn emit_stmt(&self, out: &mut String, stmt: &Stmt, depth: usize)
        requires
            lowered_stmt(stmt@),
            depth + nest_stmt(stmt@) <= usize::MAX,
        ensures
            final(out)@ == old(out)@ + emit_stmt_spec(self@, stmt@, depth as nat),
        decreases stmt, 3nat,
    {
        match &stmt.kind {
            StmtKind::If { arms, else_block } => self.emit_if(out, stmt, arms, else_block, depth),
            StmtKind::While { cond, body } => {
                assert(stmt@.kind == StmtKindV::While { cond: cond@, body: body@ });
                self.emit_while(out, stmt, cond, body, depth)
            },
            StmtKind::ForC { .. } => self.emit_for(out, stmt, depth),
            StmtKind::Scope(block) => {
                assert(stmt@.kind == StmtKindV::Scope(block@));
                self.emit_scope(out, stmt, block, depth)
            },
            StmtKind::TryCatch { body, var_name, var_ty, catch_body } => {
                assert(stmt@.kind == StmtKindV::TryCatch { body: body@, var_name: var_name@, var_ty: var_ty@, catch_body: catch_body@ });
                assert(lowered_block(body@) && lowered_block(catch_body@));
                assert(nest_stmt(stmt@) == 2 + crate::codegen_spec::max(nest_block(body@), nest_block(catch_body@)));
                self.emit_try(out, stmt, body, var_name, catch_body, depth)
            },
            _ => self.emit_simple(out, stmt, depth),
        }
    }

    /// Append a statement without nested blocks.
    fn emit_simple(&self, out: &mut String, stmt: &Stmt, depth: usize)
        requires
            lowered_stmt(stmt@),
            !(stmt.kind is If || stmt.kind is While || stmt.kind is ForC || stmt.kind is Scope || stmt.kind is TryCatch),
        ensures
            final(out)@ == old(out)@ + emit_stmt_spec(self@, stmt@, depth as nat),
    {
        match &stmt.kind {
            StmtKind::VarDecl { name, ty, init, .. } => {
                indent(out, depth);
                let c = self.ctype(ty);
                push_str(out, c.as_str());
                push_str(out, " ");
                let l = local(name.as_str());
                push_str(out, l.as_str());
                push_str(out, " = ");
                let v = self.cg_expr(init);
                push_str(out, v.as_str());
                push_str(out, ";\n");
            },
            StmtKind::Assign { target, value, .. } => {
                indent(out, depth);
                let t = self.cg_assign_target(target);
                push_str(out, t.as_str());
                push_str(out, " = ");
                let v = self.cg_expr(value);
                push_str(out, v.as_str());
                push_str(out, ";\n");
            },
            StmtKind::ExprStmt(e) => {
                indent(out, depth);
                let v = self.cg_expr(e);
                push_str(out, v.as_str());
                push_str(out, ";\n");
            },
            StmtKind::Return(value) => {
                indent(out, depth);
                match value {
                    Some(e) => {
                        if self.debug {
                            push_str(out, "{ ");
                            push_str(out, self.ret_ctype.as_str());
                            push_str(out, " jim_rv = ");
                            let v = self.cg_expr(e);
                            push_str(out, v.as_str());
                            push_str(out, "; rt_pop_frame(); return jim_rv; }\n");
                        } else {
                            push_str(out, "return ");
                            let v = self.cg_expr(e);
                            push_str(out, v.as_str());
                            push_str(out, ";\n");
                        }
                    },
                    None => {
                        if self.debug {
                            push_str(out, "{ rt_pop_frame(); return; }\n");
                        } else {
                            push_str(out, "return;\n");
                        }
                    },
                }
            },
            StmtKind::Break => {
                indent(out, depth);
                push_str(out, "break;\n");
            },
            StmtKind::Continue => {
                indent(out, depth);
                push_str(out, "continue;\n");
            },
            _ => {},
        }
    }

    /// Append a `while`, a C-style `for`, or a bare scope.
    /// Append a `while` loop.
    fn emit_while(&self, out: &mut String, stmt: &Stmt, cond: &Expr, body: &Block, depth: usize)
        requires
            stmt.kind matches StmtKind::While { cond: c, body: b } && c == *cond && b == *body,
            lowered_expr(cond@),
            lowered_block(body@),
            depth + 1 + nest_block(body@) <= usize::MAX,
        ensures
            final(out)@ == old(out)@ + indent_spec(depth as nat) + "while ("@ + cg_expr_spec(self@, cond@) + ") {\n"@
                + emit_block_spec(self@, body@, depth as nat + 1) + indent_spec(depth as nat) + "}\n"@,
        decreases stmt, 2nat,
    {
        indent(out, depth);
        push_str(out, "while (");
        let c = self.cg_expr(cond);
        push_str(out, c.as_str());
        push_str(out, ") {\n");
        self.emit_block(out, body, depth + 1);
        indent(out, depth);
        push_str(out, "}\n");
    }

    /// Append a C-style `for` loop.
    fn emit_for(&self, out: &mut String, stmt: &Stmt, depth: usize)
        requires
            stmt.kind is ForC,
            lowered_stmt(stmt@),
            depth + nest_stmt(stmt@) <= usize::MAX,
        ensures
            final(out)@ == old(out)@ + emit_stmt_spec(self@, stmt@, depth as nat),
        decreases stmt, 2nat,
    {
        let ghost sv = stmt@;
        match &stmt.kind {
            StmtKind::ForC { var_name, var_ty, init, cond, step, body } => {
                assert(sv.kind == StmtKindV::ForC {
                    var_name: var_name@, var_ty: var_ty@, init: init@, cond: cond@, step: Box::new((**step)@), body: body@ });
                let ghost start = out@;
                let mut h = String::new();
                indent(&mut h, depth);
                push_str(&mut h, "for (");
                let t = self.ctype(var_ty);
                push_str(&mut h, t.as_str());
                push_str(&mut h, " ");
                let l = local(var_name.as_str());
                push_str(&mut h, l.as_str());
                push_str(&mut h, " = ");
                let i = self.cg_expr(init);
                push_str(&mut h, i.as_str());
                push_str(&mut h, "; ");
                let c = self.cg_expr(cond);
                push_str(&mut h, c.as_str());
                push_str(&mut h, "; ");
                let st = self.cg_step_expr(step);
                push_str(&mut h, st.as_str());
                push_str(&mut h, ") {\n");
                push_str(out, h.as_str());
                self.emit_block(out, body, depth + 1);
                indent(out, depth);
                push_str(out, "}\n");
            },
            _ => {},
        }
    }

    /// Append a bare `{ ... }` scope.
    fn emit_scope(&self, out: &mut String, stmt: &Stmt, block: &Block, depth: usize)
        requires
            stmt.kind matches StmtKind::Scope(b) && b == *block,
            lowered_block(block@),
            depth + 1 + nest_block(block@) <= usize::MAX,
        ensures
            final(out)@ == old(out)@ + indent_spec(depth as nat) + "{\n"@ + emit_block_spec(self@, block@, depth as nat + 1)
                + indent_spec(depth as nat) + "}\n"@,
        decreases stmt, 2nat,
    {
        indent(out, depth);
        push_str(out, "{\n");
        self.emit_block(out, block, depth + 1);
        indent(out, depth);
        push_str(out, "}\n");
    }

    /// Append a `try`/`catch`: a setjmp handler, or the bare body when
    /// panics abort.
    fn emit_try(&self, out: &mut String, stmt: &Stmt, body: &Block, var_name: &String, catch_body: &Block, depth: usize)
        requires
            stmt.kind matches StmtKind::TryCatch { body: b, var_name: n, catch_body: c, .. } && b == *body && n == *var_name && c == *catch_body,
            lowered_block(body@),
            lowered_block(catch_body@),
            depth + 2 + nest_block(body@) <= usize::MAX,
            depth + 2 + nest_block(catch_body@) <= usize::MAX,
        ensures
            final(out)@ == old(out)@ + if self.panic_abort {
                indent_spec(depth as nat) + "{ /* try (panic=abort: catch omitted) */\n"@ + emit_block_spec(self@, body@, depth as nat + 1)
                    + indent_spec(depth as nat) + "}\n"@
            } else {
                try_handler_text(emit_block_spec(self@, body@, depth as nat + 2), var_name@, emit_block_spec(self@, catch_body@, depth as nat + 2), depth as nat)
            },
        decreases stmt, 2nat,
    {
        if self.panic_abort {
            indent(out, depth);
            push_str(out, "{ /* try (panic=abort: catch omitted) */\n");
            self.emit_block(out, body, depth + 1);
            indent(out, depth);
            push_str(out, "}\n");
        } else {
            self.emit_handler(out, stmt, body, var_name, catch_body, depth);
        }
    }

    /// Append a `try`/`catch` as a setjmp handler.
    #[verifier::rlimit(60)]
    fn emit_handler(&self, out: &mut String, stmt: &Stmt, body: &Block, var_name: &String, catch_body: &Block, depth: usize)
        requires
            stmt.kind matches StmtKind::TryCatch { body: b, var_name: n, catch_body: c, .. } && b == *body && n == *var_name && c == *catch_body,
            lowered_block(body@),
            lowered_block(catch_body@),
            depth + 2 + nest_block(body@) <= usize::MAX,
            depth + 2 + nest_block(catch_body@) <= usize::MAX,
        ensures
            final(out)@ == old(out)@ + try_handler_text(emit_block_spec(self@, body@, depth as nat + 2), var_name@, emit_block_spec(self@, catch_body@, depth as nat + 2), depth as nat),
        decreases stmt, 1nat,
    {
        let mut b1 = String::new();
        self.emit_block(&mut b1, body, depth + 2);
        let mut b2 = String::new();
        self.emit_block(&mut b2, catch_body, depth + 2);
        assert(b1@ =~= emit_block_spec(self@, body@, depth as nat + 2));
        assert(b2@ =~= emit_block_spec(self@, catch_body@, depth as nat + 2));
        let h = handler_text(b1.as_str(), var_name.as_str(), b2.as_str(), depth);
        push_str(out, h.as_str());
    }

    /// Append an `if` / `else if` / `else` chain.
    #[verifier::rlimit(80)]
    fn emit_if(&self, out: &mut String, stmt: &Stmt, arms: &Vec<(Expr, Block)>, else_block: &Option<Block>, depth: usize)
        requires
            stmt.kind matches StmtKind::If { arms: a, else_block: e } && a == *arms && e == *else_block,
            lowered_stmt(stmt@),
            depth + nest_stmt(stmt@) <= usize::MAX,
        ensures
            final(out)@ == old(out)@ + emit_stmt_spec(self@, stmt@, depth as nat),
        decreases stmt, 2nat,
    {
        let ghost sv = stmt@;
        let ghost eb = match else_block { Some(b) => Some(b@), None => None };
        assert(sv.kind == StmtKindV::If { arms: crate::ast::arms_v(arms@), else_block: eb });
        indent(out, depth);
        self.emit_arms(out, arms, depth);
        match else_block {
            Some(b) => {
                push_str(out, " else {\n");
                self.emit_block(out, b, depth + 1);
                indent(out, depth);
                push_str(out, "}");
            },
            None => {},
        }
        push_str(out, "\n");
    }

    /// Append the arms of an `if` chain, joined by ` else `.
    fn emit_arms(&self, out: &mut String, arms: &Vec<(Expr, Block)>, depth: usize)
        requires
            lowered_arms(crate::ast::arms_v(arms@)),
            depth + 1 + nest_arms(crate::ast::arms_v(arms@), arms@.len()) <= usize::MAX,
        ensures
            final(out)@ == old(out)@ + emit_arms_spec(self@, crate::ast::arms_v(arms@), depth as nat, arms@.len()),
        decreases arms, 1nat,
    {
        let ghost head = out@;
        let ghost av = crate::ast::arms_v(arms@);
        let mut i: usize = 0;
        while i < arms.len()
            invariant
                i <= arms@.len(),
                av == crate::ast::arms_v(arms@),
                lowered_arms(av),
                depth + 1 + nest_arms(av, av.len()) <= usize::MAX,
                out@ == head + emit_arms_spec(self@, av, depth as nat, i as nat),
            decreases arms@.len() - i,
        {
            if i > 0 {
                push_str(out, " else ");
            }
            push_str(out, "if (");
            assert(av[i as int].0 == arms@[i as int].0@);
            assert(av[i as int].1 == arms@[i as int].1@);
            assert(lowered_expr(av[i as int].0) && lowered_block(av[i as int].1));
            let c = self.cg_expr(&arms[i].0);
            push_str(out, c.as_str());
            push_str(out, ") {\n");
            proof {
                lemma_nest_arms(av, av.len(), i as int);
            }
            assert(decreases_to!(arms => arms@[i as int].1));
            self.emit_block(out, &arms[i].1, depth + 1);
            indent(out, depth);
            push_str(out, "}");
            assert(out@ =~= head + emit_arms_spec(self@, av, depth as nat, (i + 1) as nat));
            i += 1;
        }
    }
}

} // verus!
