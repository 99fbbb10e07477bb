//! Optimizations between type checking and code generation: forwarder
//! inlining and constant folding of intrinsic calls.

use vstd::prelude::*;
use vstd::utf8::encode_utf8;
use crate::ast::{Expr, ExprKind, ExprKindV, ExprV, exprs_v};
use crate::text::{lit_string, push_char, push_signed, push_str, signed_decimal, str_eq};
pub use crate::rewrite::optimize;

verus! {

pub open spec fn lit_int(e: ExprV) -> Option<i64> {
    match e.kind {
        ExprKindV::Int(v) => Some(v),
        _ => None,
    }
}

pub open spec fn lit_bool(e: ExprV) -> Option<bool> {
    match e.kind {
        ExprKindV::Bool(v) => Some(v),
        _ => None,
    }
}

pub open spec fn lit_char(e: ExprV) -> Option<u8> {
    match e.kind {
        ExprKindV::CharLit(v) => Some(v),
        _ => None,
    }
}

pub open spec fn lit_str(e: ExprV) -> Option<Seq<char>> {
    match e.kind {
        ExprKindV::Str(v) => Some(v),
        _ => None,
    }
}

/// An Integer result as a literal: `i64::MIN` has no C literal spelling
/// (`INT64_C(-9223372036854775808)` overflows), so it stays a call.
pub open spec fn int_result(v: i64) -> Option<ExprKindV> {
    if v == i64::MIN { None } else { Some(ExprKindV::Int(v)) }
}

/// Code-point-lexicographic order of strings (the byte order of their UTF-8).
pub open spec fn chars_lt(a: Seq<char>, b: Seq<char>) -> bool
    decreases a.len(),
{
    if b.len() == 0 {
        false
    } else if a.len() == 0 {
        true
    } else if a[0] != b[0] {
        (a[0] as u32) < (b[0] as u32)
    } else {
        chars_lt(a.drop_first(), b.drop_first())
    }
}

/// How many arguments folding an intrinsic reads.
pub open spec fn fold_arity(name: Seq<char>) -> nat {
    if name == "i64_add"@ || name == "i64_sub"@ || name == "i64_mul"@ || name == "i64_divtrunc"@ || name == "i64_mod"@
        || name == "i64_eq"@ || name == "i64_lt"@ || name == "bool_eq"@ || name == "char_eq"@ || name == "char_lt"@
        || name == "str_concat"@ || name == "str_eq"@ || name == "str_lt"@ || name == "i64_and"@ || name == "i64_or"@
        || name == "i64_xor"@ || name == "i64_shl"@ || name == "i64_shr"@ {
        2
    } else if name == "i64_neg"@ || name == "i64_to_string"@ || name == "char_to_i64"@ || name == "i64_to_char"@
        || name == "char_to_string"@ || name == "str_len"@ || name == "i64_not"@ {
        1
    } else {
        0
    }
}

/// A binary Integer intrinsic over two literal arguments.
pub open spec fn fold_int2_spec(name: Seq<char>, a: i64, b: i64) -> Option<ExprKindV> {
    if name == "i64_add"@ {
        match a.checked_add(b) { Some(v) => int_result(v), None => None }
    } else if name == "i64_sub"@ {
        match a.checked_sub(b) { Some(v) => int_result(v), None => None }
    } else if name == "i64_mul"@ {
        match a.checked_mul(b) { Some(v) => int_result(v), None => None }
    } else if name == "i64_divtrunc"@ {
        match a.checked_div(b) { Some(v) => int_result(v), None => None }
    } else if name == "i64_mod"@ {
        if b == 0 {
            None
        } else if a == i64::MIN && b == -1 {
            Some(ExprKindV::Int(0))
        } else {
            match a.checked_rem(b) { Some(v) => int_result(v), None => None }
        }
    } else if name == "i64_eq"@ {
        Some(ExprKindV::Bool(a == b))
    } else if name == "i64_lt"@ {
        Some(ExprKindV::Bool(a < b))
    } else if name == "i64_and"@ {
        int_result(a & b)
    } else if name == "i64_or"@ {
        int_result(a | b)
    } else if name == "i64_xor"@ {
        int_result(a ^ b)
    } else if name == "i64_shl"@ {
        if 0 <= b <= 63 { int_result(((a as u64) << (b as u64)) as i64) } else { None }
    } else if name == "i64_shr"@ {
        if 0 <= b <= 63 { int_result(a >> (b as u64)) } else { None }
    } else {
        None
    }
}

/// One intrinsic over literal arguments, exactly as the runtime computes it.
/// `None` leaves the call in place: an argument is not a literal, or the
/// runtime would panic (overflow, division by zero, a shift or a conversion
/// out of range), or the value has no literal (`i64::MIN`, a Char above
/// 0x7f as a String). Float intrinsics are not folded here.
pub open spec fn fold_spec(name: Seq<char>, args: Seq<ExprV>) -> Option<ExprKindV> {
    if fold_arity(name) == 2 && (name == "i64_add"@ || name == "i64_sub"@ || name == "i64_mul"@ || name == "i64_divtrunc"@
        || name == "i64_mod"@ || name == "i64_eq"@ || name == "i64_lt"@ || name == "i64_and"@ || name == "i64_or"@
        || name == "i64_xor"@ || name == "i64_shl"@ || name == "i64_shr"@) {
        match (lit_int(args[0]), lit_int(args[1])) {
            (Some(a), Some(b)) => fold_int2_spec(name, a, b),
            _ => None,
        }
    } else if name == "i64_neg"@ {
        match lit_int(args[0]) {
            Some(a) => if a == i64::MIN { None } else { int_result((-a) as i64) },
            None => None,
        }
    } else if name == "i64_not"@ {
        match lit_int(args[0]) {
            Some(a) => int_result(!a),
            None => None,
        }
    } else if name == "i64_to_string"@ {
        match lit_int(args[0]) {
            Some(a) => Some(ExprKindV::Str(signed_decimal(a as int))),
            None => None,
        }
    } else if name == "bool_eq"@ {
        match (lit_bool(args[0]), lit_bool(args[1])) {
            (Some(a), Some(b)) => Some(ExprKindV::Bool(a == b)),
            _ => None,
        }
    } else if name == "char_eq"@ || name == "char_lt"@ {
        match (lit_char(args[0]), lit_char(args[1])) {
            (Some(a), Some(b)) => Some(ExprKindV::Bool(if name == "char_eq"@ { a == b } else { a < b })),
            _ => None,
        }
    } else if name == "char_to_i64"@ {
        match lit_char(args[0]) {
            Some(c) => Some(ExprKindV::Int(c as i64)),
            None => None,
        }
    } else if name == "i64_to_char"@ {
        match lit_int(args[0]) {
            Some(v) => if 0 <= v <= 255 { Some(ExprKindV::CharLit(v as u8)) } else { None },
            None => None,
        }
    } else if name == "char_to_string"@ {
        match lit_char(args[0]) {
            Some(c) => if c > 0x7f { None } else { Some(ExprKindV::Str(seq![c as char])) },
            None => None,
        }
    } else if name == "str_len"@ {
        match lit_str(args[0]) {
            Some(s) => Some(ExprKindV::Int((encode_utf8(s).len() as usize) as i64)),
            None => None,
        }
    } else if name == "str_concat"@ || name == "str_eq"@ || name == "str_lt"@ {
        match (lit_str(args[0]), lit_str(args[1])) {
            (Some(a), Some(b)) => Some(if name == "str_concat"@ {
                ExprKindV::Str(a + b)
            } else if name == "str_eq"@ {
                ExprKindV::Bool(a == b)
            } else {
                ExprKindV::Bool(chars_lt(a, b))
            }),
            _ => None,
        }
    } else {
        None
    }
}

fn int_at(args: &[Expr], n: usize) -> (r: Option<i64>)
    requires
        n < args@.len(),
    ensures
        r == lit_int(args@[n as int]@),
{
    match &args[n].kind {
        ExprKind::Int(v) => Some(*v),
        _ => None,
    }
}

fn bool_at(args: &[Expr], n: usize) -> (r: Option<bool>)
    requires
        n < args@.len(),
    ensures
        r == lit_bool(args@[n as int]@),
{
    match &args[n].kind {
        ExprKind::Bool(v) => Some(*v),
        _ => None,
    }
}

fn char_at(args: &[Expr], n: usize) -> (r: Option<u8>)
    requires
        n < args@.len(),
    ensures
        r == lit_char(args@[n as int]@),
{
    match &args[n].kind {
        ExprKind::CharLit(v) => Some(*v),
        _ => None,
    }
}

fn str_at(args: &[Expr], n: usize) -> (r: Option<&str>)
    requires
        n < args@.len(),
    ensures
        match lit_str(args@[n as int]@) {
            Some(s) => r matches Some(x) && x@ == s,
            None => r is None,
        },
{
    match &args[n].kind {
        ExprKind::Str(v) => Some(v.as_str()),
        _ => None,
    }
}

fn int_lit(v: i64) -> (r: Option<ExprKind>)
    ensures
        match int_result(v) {
            Some(k) => r matches Some(x) && x_view(x) == k,
            None => r is None,
        },
{
    if v == i64::MIN { None } else { Some(ExprKind::Int(v)) }
}

/// The view of an expression kind (through a dummy position).
pub open spec fn x_view(k: ExprKind) -> ExprKindV {
    (Expr { kind: k, line: 0, col: 0 })@.kind
}

/// Is `a` before `b` in code-point order?
pub fn str_less(a: &str, b: &str) -> (r: bool)
    ensures
        r == chars_lt(a@, b@),
{
    let x = crate::text::chars_of(a);
    let y = crate::text::chars_of(b);
    let mut i: usize = 0;
    assert(a@.skip(0) =~= a@);
    assert(b@.skip(0) =~= b@);
    while i < x.len() && i < y.len()
        invariant
            i <= x@.len(),
            i <= y@.len(),
            x@ == a@,
            y@ == b@,
            x@.take(i as int) == y@.take(i as int),
            chars_lt(a@, b@) == chars_lt(a@.skip(i as int), b@.skip(i as int)),
        decreases x@.len() - i,
    {
        if x[i] != y[i] {
            assert(a@.skip(i as int)[0] == x@[i as int]);
            assert(b@.skip(i as int)[0] == y@[i as int]);
            return (x[i] as u32) < (y[i] as u32);
        }
        assert(a@.skip(i as int).drop_first() == a@.skip(i + 1));
        assert(b@.skip(i as int).drop_first() == b@.skip(i + 1));
        assert(x@.take(i + 1) == x@.take(i as int).push(x@[i as int]));
        assert(y@.take(i + 1) == y@.take(i as int).push(y@[i as int]));
        i += 1;
    }
    proof {
        if i == x@.len() {
            assert(a@.skip(i as int).len() == 0);
        } else {
            assert(b@.skip(i as int).len() == 0);
        }
    }
    i == x.len() && i < y.len()
}

/// Fold an intrinsic call over literal arguments (see [`fold_spec`]).
pub fn try_fold(name: &str, args: &[Expr]) -> (r: Option<ExprKind>)
    requires
        args@.len() >= fold_arity(name@),
    ensures
        match fold_spec(name@, exprs_v(args@)) {
            Some(k) => r matches Some(x) && x_view(x) == k,
            None => r is None,
        },
{
    let ghost av = exprs_v(args@);
    proof {
        if args@.len() > 0 {
            assert(av[0] == args@[0]@);
        }
        if args@.len() > 1 {
            assert(av[1] == args@[1]@);
        }
    }
    if str_eq(name, "i64_add") || str_eq(name, "i64_sub") || str_eq(name, "i64_mul") || str_eq(name, "i64_divtrunc")
        || str_eq(name, "i64_mod") || str_eq(name, "i64_eq") || str_eq(name, "i64_lt") || str_eq(name, "i64_and")
        || str_eq(name, "i64_or") || str_eq(name, "i64_xor") || str_eq(name, "i64_shl") || str_eq(name, "i64_shr") {
        let a = match int_at(args, 0) {
            Some(v) => v,
            None => return None,
        };
        let b = match int_at(args, 1) {
            Some(v) => v,
            None => return None,
        };
        return fold_int2(name, a, b);
    }
    if str_eq(name, "i64_neg") {
        let a = match int_at(args, 0) {
            Some(v) => v,
            None => return None,
        };
        if a == i64::MIN {
            return None;
        }
        return int_lit(-a);
    }
    if str_eq(name, "i64_not") {
        let a = match int_at(args, 0) {
            Some(v) => v,
            None => return None,
        };
        return int_lit(!a);
    }
    if str_eq(name, "i64_to_string") {
        let a = match int_at(args, 0) {
            Some(v) => v,
            None => return None,
        };
        let mut s = String::new();
        push_signed(&mut s, a);
        assert(s@ =~= signed_decimal(a as int));
        return Some(ExprKind::Str(s));
    }
    if str_eq(name, "bool_eq") {
        let a = match bool_at(args, 0) {
            Some(v) => v,
            None => return None,
        };
        let b = match bool_at(args, 1) {
            Some(v) => v,
            None => return None,
        };
        return Some(ExprKind::Bool(a == b));
    }
    if str_eq(name, "char_eq") || str_eq(name, "char_lt") {
        let a = match char_at(args, 0) {
            Some(v) => v,
            None => return None,
        };
        let b = match char_at(args, 1) {
            Some(v) => v,
            None => return None,
        };
        return Some(ExprKind::Bool(if str_eq(name, "char_eq") { a == b } else { a < b }));
    }
    if str_eq(name, "char_to_i64") {
        let c = match char_at(args, 0) {
            Some(v) => v,
            None => return None,
        };
        return Some(ExprKind::Int(c as i64));
    }
    if str_eq(name, "i64_to_char") {
        let v = match int_at(args, 0) {
            Some(v) => v,
            None => return None,
        };
        if !(0 <= v && v <= 255) {
            return None;
        }
        return Some(ExprKind::CharLit(v as u8));
    }
    if str_eq(name, "char_to_string") {
        let c = match char_at(args, 0) {
            Some(v) => v,
            None => return None,
        };
        if c > 0x7f {
            return None;
        }
        let mut s = String::new();
        push_char(&mut s, c as char);
        assert(s@ =~= seq![c as char]);
        return Some(ExprKind::Str(s));
    }
    if str_eq(name, "str_len") {
        let s = match str_at(args, 0) {
            Some(v) => v,
            None => return None,
        };
        let n = s.len();
        return Some(ExprKind::Int(n as i64));
    }
    if str_eq(name, "str_concat") || str_eq(name, "str_eq") || str_eq(name, "str_lt") {
        let a = match str_at(args, 0) {
            Some(v) => v,
            None => return None,
        };
        let b = match str_at(args, 1) {
            Some(v) => v,
            None => return None,
        };
        if str_eq(name, "str_concat") {
            let mut s = lit_string(a);
            push_str(&mut s, b);
            return Some(ExprKind::Str(s));
        } else if str_eq(name, "str_eq") {
            return Some(ExprKind::Bool(str_eq(a, b)));
        } else {
            return Some(ExprKind::Bool(str_less(a, b)));
        }
    }
    None
}

/// A binary Integer intrinsic over two literal arguments.
fn fold_int2(name: &str, a: i64, b: i64) -> (r: Option<ExprKind>)
    ensures
        match fold_int2_spec(name@, a, b) {
            Some(k) => r matches Some(x) && x_view(x) == k,
            None => r is None,
        },
{
    if str_eq(name, "i64_add") {
        match a.checked_add(b) { Some(v) => int_lit(v), None => None }
    } else if str_eq(name, "i64_sub") {
        match a.checked_sub(b) { Some(v) => int_lit(v), None => None }
    } else if str_eq(name, "i64_mul") {
        match a.checked_mul(b) { Some(v) => int_lit(v), None => None }
    } else if str_eq(name, "i64_divtrunc") {
        match a.checked_div(b) { Some(v) => int_lit(v), None => None }
    } else if str_eq(name, "i64_mod") {
        if b == 0 {
            None
        } else if a == i64::MIN && b == -1 {
            Some(ExprKind::Int(0))
        } else {
            match a.checked_rem(b) { Some(v) => int_lit(v), None => None }
        }
    } else if str_eq(name, "i64_eq") {
        Some(ExprKind::Bool(a == b))
    } else if str_eq(name, "i64_lt") {
        Some(ExprKind::Bool(a < b))
    } else if str_eq(name, "i64_and") {
        int_lit(a & b)
    } else if str_eq(name, "i64_or") {
        int_lit(a | b)
    } else if str_eq(name, "i64_xor") {
        int_lit(a ^ b)
    } else if str_eq(name, "i64_shl") {
        if 0 <= b && b <= 63 { int_lit(((a as u64) << (b as u64)) as i64) } else { None }
    } else if str_eq(name, "i64_shr") {
        if 0 <= b && b <= 63 { int_lit(a >> (b as u64)) } else { None }
    } else {
        None
    }
}

/// A literal expression.
pub open spec fn lit_expr(k: ExprKindV, line: u32, col: u32) -> ExprV {
    ExprV { kind: k, line, col }
}

/// Folding a comparison of two Char literals gives what the comparison
/// means on their byte values: `char_lt(a, b)` is `a < b` and `char_eq(a, b)`
/// is `a == b`; so `char_lt` holds one way round at most, and exactly one
/// of `char_lt(a, b)`, `char_eq(a, b)`, `char_lt(b, a)` holds.
pub proof fn lemma_fold_char_compare(a: u8, b: u8, l1: u32, c1: u32, l2: u32, c2: u32)
    ensures
        fold_spec("char_lt"@, seq![lit_expr(ExprKindV::CharLit(a), l1, c1), lit_expr(ExprKindV::CharLit(b), l2, c2)])
            == Some(ExprKindV::Bool(a < b)),
        fold_spec("char_eq"@, seq![lit_expr(ExprKindV::CharLit(a), l1, c1), lit_expr(ExprKindV::CharLit(b), l2, c2)])
            == Some(ExprKindV::Bool(a == b)),
{

    reveal_strlit("i64_add");
    reveal_strlit("i64_sub");
    reveal_strlit("i64_mul");
    reveal_strlit("i64_divtrunc");
    reveal_strlit("i64_mod");
    reveal_strlit("i64_eq");
    reveal_strlit("i64_lt");
    reveal_strlit("bool_eq");
    reveal_strlit("char_eq");
    reveal_strlit("char_lt");
    reveal_strlit("str_concat");
    reveal_strlit("str_eq");
    reveal_strlit("str_lt");
    reveal_strlit("i64_and");
    reveal_strlit("i64_or");
    reveal_strlit("i64_xor");
    reveal_strlit("i64_shl");
    reveal_strlit("i64_shr");
    reveal_strlit("i64_neg");
    reveal_strlit("i64_to_string");
    reveal_strlit("char_to_i64");
    reveal_strlit("i64_to_char");
    reveal_strlit("char_to_string");
    reveal_strlit("str_len");
    reveal_strlit("i64_not");
    assert("char_lt"@[0] != "i64_add"@[0]);
    assert("char_lt"@[0] != "i64_sub"@[0]);
    assert("char_lt"@[0] != "i64_mul"@[0]);
    assert("char_lt"@.len() != "i64_divtrunc"@.len());
    assert("char_lt"@[0] != "i64_mod"@[0]);
    assert("char_lt"@.len() != "i64_eq"@.len());
    assert("char_lt"@.len() != "i64_lt"@.len());
    assert("char_lt"@[0] != "bool_eq"@[0]);
    assert("char_lt"@[5] != "char_eq"@[5]);
    assert("char_lt"@.len() != "str_concat"@.len());
    assert("char_lt"@.len() != "str_eq"@.len());
    assert("char_lt"@.len() != "str_lt"@.len());
    assert("char_lt"@[0] != "i64_and"@[0]);
    assert("char_lt"@.len() != "i64_or"@.len());
    assert("char_lt"@[0] != "i64_xor"@[0]);
    assert("char_lt"@[0] != "i64_shl"@[0]);
    assert("char_lt"@[0] != "i64_shr"@[0]);
    assert("char_lt"@[0] != "i64_neg"@[0]);
    assert("char_lt"@.len() != "i64_to_string"@.len());
    assert("char_lt"@.len() != "char_to_i64"@.len());
    assert("char_lt"@.len() != "i64_to_char"@.len());
    assert("char_lt"@.len() != "char_to_string"@.len());
    assert("char_lt"@[0] != "str_len"@[0]);
    assert("char_lt"@[0] != "i64_not"@[0]);
    assert("char_eq"@[0] != "i64_add"@[0]);
    assert("char_eq"@[0] != "i64_sub"@[0]);
    assert("char_eq"@[0] != "i64_mul"@[0]);
    assert("char_eq"@.len() != "i64_divtrunc"@.len());
    assert("char_eq"@[0] != "i64_mod"@[0]);
    assert("char_eq"@.len() != "i64_eq"@.len());
    assert("char_eq"@.len() != "i64_lt"@.len());
    assert("char_eq"@[0] != "bool_eq"@[0]);
    assert("char_eq"@[5] != "char_lt"@[5]);
    assert("char_eq"@.len() != "str_concat"@.len());
    assert("char_eq"@.len() != "str_eq"@.len());
    assert("char_eq"@.len() != "str_lt"@.len());
    assert("char_eq"@[0] != "i64_and"@[0]);
    assert("char_eq"@.len() != "i64_or"@.len());
    assert("char_eq"@[0] != "i64_xor"@[0]);
    assert("char_eq"@[0] != "i64_shl"@[0]);
    assert("char_eq"@[0] != "i64_shr"@[0]);
    assert("char_eq"@[0] != "i64_neg"@[0]);
    assert("char_eq"@.len() != "i64_to_string"@.len());
    assert("char_eq"@.len() != "char_to_i64"@.len());
    assert("char_eq"@.len() != "i64_to_char"@.len());
    assert("char_eq"@.len() != "char_to_string"@.len());
    assert("char_eq"@[0] != "str_len"@[0]);
    assert("char_eq"@[0] != "i64_not"@[0]);
}


/// Folding Integer intrinsics over two literals computes what they mean on
/// whole numbers: `i64_lt` is `a < b`, `i64_eq` is `a == b`, and `i64_add`,
/// `i64_sub`, `i64_mul` give the exact sum, difference and product when it
/// is an Integer with a literal (above `i64::MIN`, within `i64::MAX`), and
/// stay unfolded otherwise (the runtime would panic on overflow).
pub proof fn lemma_fold_int_meaning(a: i64, b: i64, l1: u32, c1: u32, l2: u32, c2: u32)
    ensures
        ({
            let args = seq![lit_expr(ExprKindV::Int(a), l1, c1), lit_expr(ExprKindV::Int(b), l2, c2)];
            &&& fold_spec("i64_lt"@, args) == Some(ExprKindV::Bool(a < b))
            &&& fold_spec("i64_eq"@, args) == Some(ExprKindV::Bool(a == b))
            &&& fold_spec("i64_add"@, args) == (if i64::MIN < a + b <= i64::MAX { Some(ExprKindV::Int((a + b) as i64)) } else { None })
            &&& fold_spec("i64_sub"@, args) == (if i64::MIN < a - b <= i64::MAX { Some(ExprKindV::Int((a - b) as i64)) } else { None })
            &&& fold_spec("i64_mul"@, args) == (if i64::MIN < a * b <= i64::MAX { Some(ExprKindV::Int((a * b) as i64)) } else { None })
        }),
        fold_spec("i64_neg"@, seq![lit_expr(ExprKindV::Int(a), l1, c1)])
            == (if a == i64::MIN { None } else { Some(ExprKindV::Int((-a) as i64)) }),
{
    reveal_strlit("i64_add");
    reveal_strlit("i64_sub");
    reveal_strlit("i64_mul");
    reveal_strlit("i64_divtrunc");
    reveal_strlit("i64_mod");
    reveal_strlit("i64_eq");
    reveal_strlit("i64_lt");
    reveal_strlit("bool_eq");
    reveal_strlit("char_eq");
    reveal_strlit("char_lt");
    reveal_strlit("str_concat");
    reveal_strlit("str_eq");
    reveal_strlit("str_lt");
    reveal_strlit("i64_and");
    reveal_strlit("i64_or");
    reveal_strlit("i64_xor");
    reveal_strlit("i64_shl");
    reveal_strlit("i64_shr");
    reveal_strlit("i64_neg");
    reveal_strlit("i64_to_string");
    reveal_strlit("char_to_i64");
    reveal_strlit("i64_to_char");
    reveal_strlit("char_to_string");
    reveal_strlit("str_len");
    reveal_strlit("i64_not");
    assert("i64_lt"@.len() != "i64_add"@.len());
    assert("i64_lt"@.len() != "i64_sub"@.len());
    assert("i64_lt"@.len() != "i64_mul"@.len());
    assert("i64_lt"@.len() != "i64_divtrunc"@.len());
    assert("i64_lt"@.len() != "i64_mod"@.len());
    assert("i64_lt"@[4] != "i64_eq"@[4]);
    assert("i64_lt"@.len() != "bool_eq"@.len());
    assert("i64_lt"@.len() != "char_eq"@.len());
    assert("i64_lt"@.len() != "char_lt"@.len());
    assert("i64_lt"@.len() != "str_concat"@.len());
    assert("i64_lt"@[0] != "str_eq"@[0]);
    assert("i64_lt"@[0] != "str_lt"@[0]);
    assert("i64_lt"@.len() != "i64_and"@.len());
    assert("i64_lt"@[4] != "i64_or"@[4]);
    assert("i64_lt"@.len() != "i64_xor"@.len());
    assert("i64_lt"@.len() != "i64_shl"@.len());
    assert("i64_lt"@.len() != "i64_shr"@.len());
    assert("i64_lt"@.len() != "i64_neg"@.len());
    assert("i64_lt"@.len() != "i64_to_string"@.len());
    assert("i64_lt"@.len() != "char_to_i64"@.len());
    assert("i64_lt"@.len() != "i64_to_char"@.len());
    assert("i64_lt"@.len() != "char_to_string"@.len());
    assert("i64_lt"@.len() != "str_len"@.len());
    assert("i64_lt"@.len() != "i64_not"@.len());
    assert("i64_eq"@.len() != "i64_add"@.len());
    assert("i64_eq"@.len() != "i64_sub"@.len());
    assert("i64_eq"@.len() != "i64_mul"@.len());
    assert("i64_eq"@.len() != "i64_divtrunc"@.len());
    assert("i64_eq"@.len() != "i64_mod"@.len());
    assert("i64_eq"@[4] != "i64_lt"@[4]);
    assert("i64_eq"@.len() != "bool_eq"@.len());
    assert("i64_eq"@.len() != "char_eq"@.len());
    assert("i64_eq"@.len() != "char_lt"@.len());
    assert("i64_eq"@.len() != "str_concat"@.len());
    assert("i64_eq"@[0] != "str_eq"@[0]);
    assert("i64_eq"@[0] != "str_lt"@[0]);
    assert("i64_eq"@.len() != "i64_and"@.len());
    assert("i64_eq"@[4] != "i64_or"@[4]);
    assert("i64_eq"@.len() != "i64_xor"@.len());
    assert("i64_eq"@.len() != "i64_shl"@.len());
    assert("i64_eq"@.len() != "i64_shr"@.len());
    assert("i64_eq"@.len() != "i64_neg"@.len());
    assert("i64_eq"@.len() != "i64_to_string"@.len());
    assert("i64_eq"@.len() != "char_to_i64"@.len());
    assert("i64_eq"@.len() != "i64_to_char"@.len());
    assert("i64_eq"@.len() != "char_to_string"@.len());
    assert("i64_eq"@.len() != "str_len"@.len());
    assert("i64_eq"@.len() != "i64_not"@.len());
    assert("i64_add"@[4] != "i64_sub"@[4]);
    assert("i64_add"@[4] != "i64_mul"@[4]);
    assert("i64_add"@.len() != "i64_divtrunc"@.len());
    assert("i64_add"@[4] != "i64_mod"@[4]);
    assert("i64_add"@.len() != "i64_eq"@.len());
    assert("i64_add"@.len() != "i64_lt"@.len());
    assert("i64_add"@[0] != "bool_eq"@[0]);
    assert("i64_add"@[0] != "char_eq"@[0]);
    assert("i64_add"@[0] != "char_lt"@[0]);
    assert("i64_add"@.len() != "str_concat"@.len());
    assert("i64_add"@.len() != "str_eq"@.len());
    assert("i64_add"@.len() != "str_lt"@.len());
    assert("i64_add"@[5] != "i64_and"@[5]);
    assert("i64_add"@.len() != "i64_or"@.len());
    assert("i64_add"@[4] != "i64_xor"@[4]);
    assert("i64_add"@[4] != "i64_shl"@[4]);
    assert("i64_add"@[4] != "i64_shr"@[4]);
    assert("i64_add"@[4] != "i64_neg"@[4]);
    assert("i64_add"@.len() != "i64_to_string"@.len());
    assert("i64_add"@.len() != "char_to_i64"@.len());
    assert("i64_add"@.len() != "i64_to_char"@.len());
    assert("i64_add"@.len() != "char_to_string"@.len());
    assert("i64_add"@[0] != "str_len"@[0]);
    assert("i64_add"@[4] != "i64_not"@[4]);
    assert("i64_sub"@[4] != "i64_add"@[4]);
    assert("i64_sub"@[4] != "i64_mul"@[4]);
    assert("i64_sub"@.len() != "i64_divtrunc"@.len());
    assert("i64_sub"@[4] != "i64_mod"@[4]);
    assert("i64_sub"@.len() != "i64_eq"@.len());
    assert("i64_sub"@.len() != "i64_lt"@.len());
    assert("i64_sub"@[0] != "bool_eq"@[0]);
    assert("i64_sub"@[0] != "char_eq"@[0]);
    assert("i64_sub"@[0] != "char_lt"@[0]);
    assert("i64_sub"@.len() != "str_concat"@.len());
    assert("i64_sub"@.len() != "str_eq"@.len());
    assert("i64_sub"@.len() != "str_lt"@.len());
    assert("i64_sub"@[4] != "i64_and"@[4]);
    assert("i64_sub"@.len() != "i64_or"@.len());
    assert("i64_sub"@[4] != "i64_xor"@[4]);
    assert("i64_sub"@[5] != "i64_shl"@[5]);
    assert("i64_sub"@[5] != "i64_shr"@[5]);
    assert("i64_sub"@[4] != "i64_neg"@[4]);
    assert("i64_sub"@.len() != "i64_to_string"@.len());
    assert("i64_sub"@.len() != "char_to_i64"@.len());
    assert("i64_sub"@.len() != "i64_to_char"@.len());
    assert("i64_sub"@.len() != "char_to_string"@.len());
    assert("i64_sub"@[0] != "str_len"@[0]);
    assert("i64_sub"@[4] != "i64_not"@[4]);
    assert("i64_mul"@[4] != "i64_add"@[4]);
    assert("i64_mul"@[4] != "i64_sub"@[4]);
    assert("i64_mul"@.len() != "i64_divtrunc"@.len());
    assert("i64_mul"@[5] != "i64_mod"@[5]);
    assert("i64_mul"@.len() != "i64_eq"@.len());
    assert("i64_mul"@.len() != "i64_lt"@.len());
    assert("i64_mul"@[0] != "bool_eq"@[0]);
    assert("i64_mul"@[0] != "char_eq"@[0]);
    assert("i64_mul"@[0] != "char_lt"@[0]);
    assert("i64_mul"@.len() != "str_concat"@.len());
    assert("i64_mul"@.len() != "str_eq"@.len());
    assert("i64_mul"@.len() != "str_lt"@.len());
    assert("i64_mul"@[4] != "i64_and"@[4]);
    assert("i64_mul"@.len() != "i64_or"@.len());
    assert("i64_mul"@[4] != "i64_xor"@[4]);
    assert("i64_mul"@[4] != "i64_shl"@[4]);
    assert("i64_mul"@[4] != "i64_shr"@[4]);
    assert("i64_mul"@[4] != "i64_neg"@[4]);
    assert("i64_mul"@.len() != "i64_to_string"@.len());
    assert("i64_mul"@.len() != "char_to_i64"@.len());
    assert("i64_mul"@.len() != "i64_to_char"@.len());
    assert("i64_mul"@.len() != "char_to_string"@.len());
    assert("i64_mul"@[0] != "str_len"@[0]);
    assert("i64_mul"@[4] != "i64_not"@[4]);
    assert("i64_neg"@[4] != "i64_add"@[4]);
    assert("i64_neg"@[4] != "i64_sub"@[4]);
    assert("i64_neg"@[4] != "i64_mul"@[4]);
    assert("i64_neg"@.len() != "i64_divtrunc"@.len());
    assert("i64_neg"@[4] != "i64_mod"@[4]);
    assert("i64_neg"@.len() != "i64_eq"@.len());
    assert("i64_neg"@.len() != "i64_lt"@.len());
    assert("i64_neg"@[0] != "bool_eq"@[0]);
    assert("i64_neg"@[0] != "char_eq"@[0]);
    assert("i64_neg"@[0] != "char_lt"@[0]);
    assert("i64_neg"@.len() != "str_concat"@.len());
    assert("i64_neg"@.len() != "str_eq"@.len());
    assert("i64_neg"@.len() != "str_lt"@.len());
    assert("i64_neg"@[4] != "i64_and"@[4]);
    assert("i64_neg"@.len() != "i64_or"@.len());
    assert("i64_neg"@[4] != "i64_xor"@[4]);
    assert("i64_neg"@[4] != "i64_shl"@[4]);
    assert("i64_neg"@[4] != "i64_shr"@[4]);
    assert("i64_neg"@.len() != "i64_to_string"@.len());
    assert("i64_neg"@.len() != "char_to_i64"@.len());
    assert("i64_neg"@.len() != "i64_to_char"@.len());
    assert("i64_neg"@.len() != "char_to_string"@.len());
    assert("i64_neg"@[0] != "str_len"@[0]);
    assert("i64_neg"@[5] != "i64_not"@[5]);
}

/// Folding `bool_eq` over two Bool literals is their equality.
pub proof fn lemma_fold_bool_eq(a: bool, b: bool, l1: u32, c1: u32, l2: u32, c2: u32)
    ensures
        fold_spec("bool_eq"@, seq![lit_expr(ExprKindV::Bool(a), l1, c1), lit_expr(ExprKindV::Bool(b), l2, c2)])
            == Some(ExprKindV::Bool(a == b)),
{
    reveal_strlit("i64_add");
    reveal_strlit("i64_sub");
    reveal_strlit("i64_mul");
    reveal_strlit("i64_divtrunc");
    reveal_strlit("i64_mod");
    reveal_strlit("i64_eq");
    reveal_strlit("i64_lt");
    reveal_strlit("bool_eq");
    reveal_strlit("char_eq");
    reveal_strlit("char_lt");
    reveal_strlit("str_concat");
    reveal_strlit("str_eq");
    reveal_strlit("str_lt");
    reveal_strlit("i64_and");
    reveal_strlit("i64_or");
    reveal_strlit("i64_xor");
    reveal_strlit("i64_shl");
    reveal_strlit("i64_shr");
    reveal_strlit("i64_neg");
    reveal_strlit("i64_to_string");
    reveal_strlit("char_to_i64");
    reveal_strlit("i64_to_char");
    reveal_strlit("char_to_string");
    reveal_strlit("str_len");
    reveal_strlit("i64_not");
    assert("bool_eq"@[0] != "i64_add"@[0]);
    assert("bool_eq"@[0] != "i64_sub"@[0]);
    assert("bool_eq"@[0] != "i64_mul"@[0]);
    assert("bool_eq"@.len() != "i64_divtrunc"@.len());
    assert("bool_eq"@[0] != "i64_mod"@[0]);
    assert("bool_eq"@.len() != "i64_eq"@.len());
    assert("bool_eq"@.len() != "i64_lt"@.len());
    assert("bool_eq"@[0] != "char_eq"@[0]);
    assert("bool_eq"@[0] != "char_lt"@[0]);
    assert("bool_eq"@.len() != "str_concat"@.len());
    assert("bool_eq"@.len() != "str_eq"@.len());
    assert("bool_eq"@.len() != "str_lt"@.len());
    assert("bool_eq"@[0] != "i64_and"@[0]);
    assert("bool_eq"@.len() != "i64_or"@.len());
    assert("bool_eq"@[0] != "i64_xor"@[0]);
    assert("bool_eq"@[0] != "i64_shl"@[0]);
    assert("bool_eq"@[0] != "i64_shr"@[0]);
    assert("bool_eq"@[0] != "i64_neg"@[0]);
    assert("bool_eq"@.len() != "i64_to_string"@.len());
    assert("bool_eq"@.len() != "char_to_i64"@.len());
    assert("bool_eq"@.len() != "i64_to_char"@.len());
    assert("bool_eq"@.len() != "char_to_string"@.len());
    assert("bool_eq"@[0] != "str_len"@[0]);
    assert("bool_eq"@[0] != "i64_not"@[0]);
}

} // verus!
