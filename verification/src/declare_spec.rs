//! The declaration rules the checker enforces before it looks into any
//! body: function and class declarations, generic templates, and the entry
//! point.

use vstd::prelude::*;
use crate::ast::{ClassDeclV, FunctionDeclV, MethodDeclV, ParamV, TypeV};
use crate::sema::contains_pointer_spec;
use crate::typing::{class_info_error, is_value_class, method_names, field_names, template_error};

verus! {

/// A checker error: the file it belongs to, its message and position.
pub struct SErr {
    pub file_idx: usize,
    pub msg: Seq<char>,
    pub line: u32,
    pub col: u32,
}

pub open spec fn fn_names(fs: Seq<FunctionDeclV>) -> Seq<Seq<char>> {
    Seq::new(fs.len(), |i: int| fs[i].name)
}

/// The first function-declaration error among the first `n` functions: a
/// name declared twice (jim has no overloading), or a generic `main`.
pub open spec fn fn_phase(fs: Seq<FunctionDeclV>, n: nat) -> Option<SErr>
    decreases n,
{
    if n == 0 || n > fs.len() {
        None
    } else {
        match fn_phase(fs, (n - 1) as nat) {
            Some(e) => Some(e),
            None => {
                let f = fs[n - 1];
                if fn_names(fs).take(n - 1).contains(f.name) {
                    Some(SErr { file_idx: f.file_idx, msg: "duplicate function '"@ + f.name + "' (jim has no function overloading)"@, line: f.line, col: f.col })
                } else if f.type_params.len() > 0 && f.name == "main"@ {
                    Some(SErr { file_idx: f.file_idx, msg: "'main' cannot be generic"@, line: f.line, col: f.col })
                } else {
                    None
                }
            },
        }
    }
}

/// The names of the generic (template) classes among the first `n`.
pub open spec fn generic_names(cs: Seq<ClassDeclV>, n: nat) -> Seq<Seq<char>>
    decreases n,
{
    if n == 0 || n > cs.len() {
        Seq::empty()
    } else {
        generic_names(cs, (n - 1) as nat) + if cs[n - 1].type_param is Some { seq![cs[n - 1].name] } else { Seq::<Seq<char>>::empty() }
    }
}

/// The names of the plain classes among the first `n`.
pub open spec fn plain_names(cs: Seq<ClassDeclV>, n: nat) -> Seq<Seq<char>>
    decreases n,
{
    if n == 0 || n > cs.len() {
        Seq::empty()
    } else {
        plain_names(cs, (n - 1) as nat) + if cs[n - 1].type_param is None { seq![cs[n - 1].name] } else { Seq::<Seq<char>>::empty() }
    }
}

/// The first method, among the first `n`, named like an earlier one.
pub open spec fn method_dup_at(ms: Seq<MethodDeclV>, n: nat) -> Option<int>
    decreases n,
{
    if n == 0 || n > ms.len() {
        None
    } else {
        match method_dup_at(ms, (n - 1) as nat) {
            Some(i) => Some(i),
            None => if method_names(ms).take(n - 1).contains(ms[n - 1].name) { Some(n - 1) } else { None },
        }
    }
}

/// The first field, among the first `n`, named like an earlier field
/// (`true`) or like a method (`false`).
pub open spec fn field_clash_at(c: ClassDeclV, n: nat) -> Option<(int, bool)>
    decreases n,
{
    if n == 0 || n > c.fields.len() {
        None
    } else {
        match field_clash_at(c, (n - 1) as nat) {
            Some(x) => Some(x),
            None => {
                let f = c.fields[n - 1].name;
                if field_names(c.fields).take(n - 1).contains(f) {
                    Some((n - 1, true))
                } else if method_names(c.methods).contains(f) {
                    Some((n - 1, false))
                } else {
                    None
                }
            },
        }
    }
}

pub open spec fn at_class(c: ClassDeclV, msg: Seq<char>) -> SErr {
    SErr { file_idx: c.file_idx, msg, line: c.line, col: c.col }
}

/// The table checks of a plain class: its name is new, and its methods
/// and fields are each named once (a field may not share a method's name).
pub open spec fn plain_class_error(c: ClassDeclV, plain: Seq<Seq<char>>) -> Option<SErr> {
    if plain.contains(c.name) {
        Some(at_class(c, "duplicate class '"@ + c.name + "'"@))
    } else {
        match method_dup_at(c.methods, c.methods.len()) {
            Some(i) => Some(SErr {
                file_idx: c.file_idx,
                msg: "duplicate method '"@ + c.methods[i].name + "' in class '"@ + c.name + "' (jim has no overloading)"@,
                line: c.methods[i].line,
                col: c.methods[i].col,
            }),
            None => match field_clash_at(c, c.fields.len()) {
                Some((i, dup)) => Some(SErr {
                    file_idx: c.file_idx,
                    msg: if dup {
                        "duplicate field '"@ + c.fields[i].name + "' in class '"@ + c.name + "'"@
                    } else {
                        "field '"@ + c.fields[i].name + "' collides with a method of the same name in class '"@ + c.name + "'"@
                    },
                    line: c.fields[i].line,
                    col: c.fields[i].col,
                }),
                None => None,
            },
        }
    }
}

/// The declaration error of one class, given the template and plain class
/// names declared before it.
pub open spec fn class_error(c: ClassDeclV, allow: bool, generic: Seq<Seq<char>>, plain: Seq<Seq<char>>) -> Option<SErr> {
    let n = c.name;
    if c.type_param is Some {
        if !(n == "Array"@ || n == "Vector"@) {
            Some(at_class(c, "user generic classes are not supported (only the std Array<T>/Vector<T>)"@))
        } else if !c.from_std && !allow {
            Some(at_class(c, "class '"@ + n + "' can only be defined in the standard library"@))
        } else if generic.contains(n) {
            Some(at_class(c, "duplicate class '"@ + n + "'"@))
        } else {
            match class_info_error(c) {
                Some(m) => Some(at_class(c, m)),
                None => None,
            }
        }
    } else if is_value_class(n) {
        if !c.from_std && !allow {
            Some(at_class(c, "class '"@ + n + "' is a core class and can only be defined in the standard library"@))
        } else if c.fields.len() > 0 {
            Some(at_class(c, "core class '"@ + n + "' is a value class \u{e2}\u{20ac}\u{201d} methods only, no fields"@))
        } else if c.ctor is Some {
            Some(at_class(c, "core class '"@ + n + "' cannot have a constructor"@))
        } else {
            plain_class_error(c, plain)
        }
    } else if n == "None"@ {
        Some(at_class(c, "'None' has no methods to implement"@))
    } else if n == "Array"@ || n == "Vector"@ {
        Some(at_class(c, "class "@ + n + " must take a type parameter: 'class "@ + n + "<T>'"@))
    } else if n == "RawBuffer"@ {
        Some(at_class(c, "'RawBuffer' is provided by the compiler"@))
    } else {
        plain_class_error(c, plain)
    }
}

/// The first class-declaration error among the first `n` classes.
pub open spec fn class_phase(cs: Seq<ClassDeclV>, allow: bool, n: nat) -> Option<SErr>
    decreases n,
{
    if n == 0 || n > cs.len() {
        None
    } else {
        match class_phase(cs, allow, (n - 1) as nat) {
            Some(e) => Some(e),
            None => class_error(cs[n - 1], allow, generic_names(cs, (n - 1) as nat), plain_names(cs, (n - 1) as nat)),
        }
    }
}

/// The first function, among the first `n`, named like a class.
pub open spec fn collision_phase(fs: Seq<FunctionDeclV>, cs: Seq<ClassDeclV>, n: nat) -> Option<SErr>
    decreases n,
{
    if n == 0 || n > fs.len() {
        None
    } else {
        match collision_phase(fs, cs, (n - 1) as nat) {
            Some(e) => Some(e),
            None => {
                let f = fs[n - 1];
                if plain_names(cs, cs.len()).contains(f.name) || generic_names(cs, cs.len()).contains(f.name) {
                    Some(SErr {
                        file_idx: f.file_idx,
                        msg: "function '"@ + f.name + "' collides with class '"@ + f.name + "' (constructor calls use the class name)"@,
                        line: f.line,
                        col: f.col,
                    })
                } else {
                    None
                }
            },
        }
    }
}

/// A type parameter named like a type that exists.
pub open spec fn shadows(p: Seq<char>, plain: Seq<Seq<char>>, generic: Seq<Seq<char>>) -> bool {
    is_value_class(p) || p == "None"@ || p == "Array"@ || p == "Vector"@ || p == "RawBuffer"@ || plain.contains(p)
        || generic.contains(p)
}

/// The first of the first `n` type parameters that shadows a type.
pub open spec fn shadow_at(tps: Seq<Seq<char>>, plain: Seq<Seq<char>>, generic: Seq<Seq<char>>, n: nat) -> Option<int>
    decreases n,
{
    if n == 0 || n > tps.len() {
        None
    } else {
        match shadow_at(tps, plain, generic, (n - 1) as nat) {
            Some(i) => Some(i),
            None => if shadows(tps[n - 1], plain, generic) { Some(n - 1) } else { None },
        }
    }
}

/// The first of the first `n` parameters whose type is not well-formed in the template.
pub open spec fn param_error_at(ps: Seq<ParamV>, tps: Seq<Seq<char>>, plain: Seq<Seq<char>>, n: nat) -> Option<(int, Seq<char>)>
    decreases n,
{
    if n == 0 || n > ps.len() {
        None
    } else {
        match param_error_at(ps, tps, plain, (n - 1) as nat) {
            Some(x) => Some(x),
            None => match template_error(ps[n - 1].ty, tps, plain) {
                Some(m) => Some((n - 1, m)),
                None => None,
            },
        }
    }
}

/// The signature checks of a generic function template.
pub open spec fn template_fn_error(t: FunctionDeclV, plain: Seq<Seq<char>>, generic: Seq<Seq<char>>) -> Option<SErr> {
    let at = |m: Seq<char>| SErr { file_idx: t.file_idx, msg: m, line: t.line, col: t.col };
    match shadow_at(t.type_params, plain, generic, t.type_params.len()) {
        Some(i) => Some(at("type parameter '"@ + t.type_params[i] + "' of '"@ + t.name + "' shadows the type '"@ + t.type_params[i] + "'"@)),
        None => match param_error_at(t.params, t.type_params, plain, t.params.len()) {
            Some((i, m)) => Some(SErr {
                file_idx: t.file_idx,
                msg: "in parameter '"@ + t.params[i].name + "': "@ + m,
                line: t.params[i].line,
                col: t.params[i].col,
            }),
            None => match template_error(t.ret, t.type_params, plain) {
                Some(m) => Some(at("in return type of '"@ + t.name + "': "@ + m)),
                None => if contains_pointer_spec(t.ret) {
                    Some(at("function '"@ + t.name + "' cannot return a pointer (a pointer to a local would dangle after the call)"@))
                } else {
                    None
                },
            },
        },
    }
}

/// The first template error among the first `n` functions (generic ones only).
pub open spec fn template_phase(fs: Seq<FunctionDeclV>, plain: Seq<Seq<char>>, generic: Seq<Seq<char>>, n: nat) -> Option<SErr>
    decreases n,
{
    if n == 0 || n > fs.len() {
        None
    } else {
        match template_phase(fs, plain, generic, (n - 1) as nat) {
            Some(e) => Some(e),
            None => if fs[n - 1].type_params.len() > 0 { template_fn_error(fs[n - 1], plain, generic) } else { None },
        }
    }
}

/// Every declaration rule checked before any body, in the order they are checked.
pub open spec fn declaration_error(fs: Seq<FunctionDeclV>, cs: Seq<ClassDeclV>, allow: bool) -> Option<SErr> {
    match fn_phase(fs, fs.len()) {
        Some(e) => Some(e),
        None => match class_phase(cs, allow, cs.len()) {
            Some(e) => Some(e),
            None => match collision_phase(fs, cs, fs.len()) {
                Some(e) => Some(e),
                None => template_phase(fs, plain_names(cs, cs.len()), generic_names(cs, cs.len()), fs.len()),
            },
        },
    }
}

/// The first function named `main`.
pub open spec fn main_of(fs: Seq<FunctionDeclV>) -> Option<FunctionDeclV>
    decreases fs.len(),
{
    if fs.len() == 0 {
        None
    } else if fs[0].name == "main"@ {
        Some(fs[0])
    } else {
        main_of(fs.skip(1))
    }
}

/// The signature rules of the entry point (before the `argv` protocol is
/// looked up): `main` exists when required, returns Integer, and takes
/// nothing or one `Array<String>`.
pub open spec fn entry_error(fs: Seq<FunctionDeclV>, require_main: bool) -> Option<SErr> {
    match main_of(fs) {
        None => if require_main {
            Some(SErr { file_idx: 0, msg: "program has no entry point: 'function main() -> Integer'"@, line: 1, col: 1 })
        } else {
            None
        },
        Some(m) => if m.ret != TypeV::Named("Integer"@) {
            Some(SErr { file_idx: m.file_idx, msg: "main must return Integer (the process exit code)"@, line: m.line, col: m.col })
        } else if m.params.len() > 0 && (m.params.len() != 1 || m.params[0].ty != TypeV::Generic("Array"@, Box::new(TypeV::Named("String"@)))) {
            Some(SErr {
                file_idx: m.file_idx,
                msg: "main must be 'function main() -> Integer' or 'function main(argv: Array<String>) -> Integer'"@,
                line: m.line,
                col: m.col,
            })
        } else {
            None
        },
    }
}

} // verus!
