//! Helpers of the C code generator: names, types and runtime blocks.

use vstd::prelude::*;
use crate::ast::{Block, BlockV, Stmt, StmtKind, StmtKindV, StmtV, Type, TypeV, display_spec};
use crate::text::{digit_char, lit_string, push_str, str_eq};

verus! {

/// The value classes: `Integer`, `Float`, `Bool`, `Char`, `String`, `Exception`.
pub open spec fn is_core_class_spec(n: Seq<char>) -> bool {
    n == "Integer"@ || n == "Float"@ || n == "Bool"@ || n == "Char"@ || n == "String"@ || n == "Exception"@
}

pub fn is_core_class(name: &str) -> (b: bool)
    ensures
        b == is_core_class_spec(name@),
{
    str_eq(name, "Integer") || str_eq(name, "Float") || str_eq(name, "Bool") || str_eq(name, "Char")
        || str_eq(name, "String") || str_eq(name, "Exception")
}

pub open spec fn is_ascii_alnum(c: char) -> bool {
    (c >= '0' && '9' >= c) || (c >= 'A' && 'Z' >= c) || (c >= 'a' && 'z' >= c)
}

/// A class key ("Vector<Integer>") as a C identifier fragment: every
/// character that is not an ASCII letter or digit becomes `_`.
pub open spec fn c_name_spec(key: Seq<char>) -> Seq<char> {
    Seq::new(key.len(), |i: int| if is_ascii_alnum(key[i]) { key[i] } else { '_' })
}

pub fn c_name(key: &str) -> (s: String)
    ensures
        s@ == c_name_spec(key@),
{
    let cs = crate::text::chars_of(key);
    let mut out = String::new();
    let mut i: usize = 0;
    while i < cs.len()
        invariant
            i <= cs@.len(),
            cs@ == key@,
            out@ == c_name_spec(key@).take(i as int),
        decreases cs@.len() - i,
    {
        let c = cs[i];
        let d = if (c >= '0' && '9' >= c) || (c >= 'A' && 'Z' >= c) || (c >= 'a' && 'z' >= c) { c } else { '_' };
        crate::text::push_char(&mut out, d);
        assert(c_name_spec(key@).take(i + 1) == c_name_spec(key@).take(i as int).push(d));
        i += 1;
    }
    assert(c_name_spec(key@).take(cs@.len() as int) == c_name_spec(key@));
    out
}

pub open spec fn method_key_spec(class: Seq<char>, method: Seq<char>) -> Seq<char> {
    class + seq!['#'] + method
}

/// `Class#method`: how a method is known to reachability and inlining.
pub fn method_key(class: &str, method: &str) -> (s: String)
    ensures
        s@ == method_key_spec(class@, method@),
{
    crate::text::framed_char(class, '#', method)
}

pub open spec fn mangle_spec(name: Seq<char>) -> Seq<char> {
    "jim_user_"@ + c_name_spec(name)
}

/// The C name of a jim function (generic instances sanitized).
pub fn mangle(name: &str) -> (s: String)
    ensures
        s@ == mangle_spec(name@),
{
    let mut s = lit_string("jim_user_");
    let c = c_name(name);
    push_str(&mut s, c.as_str());
    s
}

pub open spec fn mangle_method_spec(class: Seq<char>, name: Seq<char>) -> Seq<char> {
    "jim_m_"@ + c_name_spec(class) + "_"@ + name
}

/// The C name of a method of a class.
pub fn mangle_method(class: &str, name: &str) -> (s: String)
    ensures
        s@ == mangle_method_spec(class@, name@),
{
    let mut s = lit_string("jim_m_");
    let c = c_name(class);
    push_str(&mut s, c.as_str());
    push_str(&mut s, "_");
    push_str(&mut s, name);
    s
}

pub open spec fn local_spec(name: Seq<char>) -> Seq<char> {
    "jl_"@ + name
}

/// The C name of a jim local or parameter.
pub fn local(name: &str) -> (s: String)
    ensures
        s@ == local_spec(name@),
{
    let mut s = lit_string("jl_");
    push_str(&mut s, name);
    s
}

/// Does this optional payload use the tagged-struct representation (a core
/// value)? Everything else is a nullable pointer.
pub open spec fn opt_is_struct_spec(t: TypeV) -> bool {
    t matches TypeV::Named(n) && is_core_class_spec(n)
}

pub fn opt_is_struct(payload: &Type) -> (b: bool)
    ensures
        b == opt_is_struct_spec(payload@),
{
    match payload {
        Type::Named(n) => is_core_class(n.as_str()),
        _ => false,
    }
}

/// A payload with a runtime optional helper suffix.
pub open spec fn has_opt_sfx(t: TypeV) -> bool {
    t matches TypeV::Named(n) && (n == "Integer"@ || n == "Float"@ || n == "Bool"@ || n == "Char"@ || n == "String"@)
}

/// The runtime-helper suffix for a core optional's payload.
pub open spec fn core_opt_sfx_spec(t: TypeV) -> Seq<char> {
    match t {
        TypeV::Named(n) => if n == "Integer"@ { "i64"@ } else if n == "Float"@ { "f64"@ } else if n == "Bool"@ {
            "bool"@
        } else if n == "Char"@ { "char"@ } else { "str"@ },
        _ => Seq::empty(),
    }
}

pub fn core_opt_sfx(payload: &Type) -> (s: &'static str)
    requires
        has_opt_sfx(payload@),
    ensures
        s@ == core_opt_sfx_spec(payload@),
{
    match payload {
        Type::Named(n) => {
            if str_eq(n.as_str(), "Integer") {
                "i64"
            } else if str_eq(n.as_str(), "Float") {
                "f64"
            } else if str_eq(n.as_str(), "Bool") {
                "bool"
            } else if str_eq(n.as_str(), "Char") {
                "char"
            } else {
                "str"
            }
        },
        _ => "str",
    }
}

/// `depth` levels of four-space indentation.
pub open spec fn indent_spec(depth: nat) -> Seq<char>
    decreases depth,
{
    if depth == 0 { Seq::empty() } else { indent_spec((depth - 1) as nat) + "    "@ }
}

pub fn indent(out: &mut String, depth: usize)
    ensures
        final(out)@ == old(out)@ + indent_spec(depth as nat),
{
    let mut i: usize = 0;
    while i < depth
        invariant
            i <= depth,
            out@ == old(out)@ + indent_spec(i as nat),
        decreases depth - i,
    {
        push_str(out, "    ");
        i += 1;
    }
}

/// The class key of a named or generic type: `Name` or `Name<T>`.
pub open spec fn class_key_of_spec(t: TypeV) -> Seq<char> {
    match t {
        TypeV::Named(n) => n,
        TypeV::Generic(_, _) => display_spec(t),
        _ => Seq::empty(),
    }
}

pub fn class_key_of(ty: &Type) -> (s: String)
    requires
        ty@ is Named || ty@ is Generic,
    ensures
        s@ == class_key_of_spec(ty@),
{
    match ty {
        Type::Named(n) => n.clone(),
        _ => ty.display(),
    }
}

/// The runtime feature block that defines an intrinsic's helper; `None`
/// for helpers of the always-emitted core runtime.
pub open spec fn intrinsic_block_spec(n: Seq<char>) -> Option<Seq<char>> {
    if n == "i64_add"@ || n == "i64_sub"@ || n == "i64_mul"@ || n == "i64_divtrunc"@ || n == "i64_mod"@ || n == "i64_neg"@ || n == "i64_eq"@ || n == "i64_lt"@ || n == "i64_to_f64"@ || n == "i64_to_string"@ {
        Some("INT"@)
    } else if n == "f64_add"@ || n == "f64_sub"@ || n == "f64_mul"@ || n == "f64_div"@ || n == "f64_neg"@ || n == "f64_eq"@ || n == "f64_lt"@ || n == "f64_to_i64"@ || n == "f64_to_string"@ {
        Some("FLOAT"@)
    } else if n == "f64_sqrt"@ || n == "f64_cbrt"@ || n == "f64_hypot"@ || n == "f64_exp"@ || n == "f64_log"@ || n == "f64_log2"@ || n == "f64_log10"@ || n == "f64_sin"@ || n == "f64_cos"@ || n == "f64_tan"@ || n == "f64_asin"@ || n == "f64_acos"@ || n == "f64_atan"@ || n == "f64_atan2"@ || n == "f64_fmod"@ || n == "f64_pow"@ || n == "f64_is_nan"@ || n == "f64_is_inf"@ || n == "f64_is_finite"@ {
        Some("FLOATMATH"@)
    } else if n == "bool_eq"@ || n == "char_eq"@ || n == "char_lt"@ || n == "char_to_i64"@ || n == "i64_to_char"@ || n == "char_to_string"@ {
        Some("BOOLCHAR"@)
    } else if n == "str_len"@ || n == "str_byte"@ || n == "str_concat"@ || n == "str_eq"@ || n == "str_lt"@ || n == "str_slice"@ || n == "str_from_buf"@ {
        Some("STRING"@)
    } else if n == "str_to_i64"@ || n == "str_to_f64"@ {
        Some("STRPARSE"@)
    } else if n == "i64_and"@ || n == "i64_or"@ || n == "i64_xor"@ || n == "i64_not"@ || n == "i64_shl"@ || n == "i64_shr"@ {
        Some("BITOPS"@)
    } else if n == "print_string"@ || n == "print_err"@ {
        Some("IOPRINT"@)
    } else if n == "read_line"@ || n == "read_file"@ || n == "write_file"@ || n == "append_file"@ || n == "file_exists"@ {
        Some("IOFILE"@)
    } else {
        None
    }
}

pub fn intrinsic_block(name: &str) -> (r: Option<&'static str>)
    ensures
        match intrinsic_block_spec(name@) {
            Some(b) => r matches Some(x) && x@ == b,
            None => r is None,
        },
{
    if str_eq(name, "i64_add") || str_eq(name, "i64_sub") || str_eq(name, "i64_mul") || str_eq(name, "i64_divtrunc") || str_eq(name, "i64_mod") || str_eq(name, "i64_neg") || str_eq(name, "i64_eq") || str_eq(name, "i64_lt") || str_eq(name, "i64_to_f64") || str_eq(name, "i64_to_string") {
        Some("INT")
    } else if str_eq(name, "f64_add") || str_eq(name, "f64_sub") || str_eq(name, "f64_mul") || str_eq(name, "f64_div") || str_eq(name, "f64_neg") || str_eq(name, "f64_eq") || str_eq(name, "f64_lt") || str_eq(name, "f64_to_i64") || str_eq(name, "f64_to_string") {
        Some("FLOAT")
    } else if str_eq(name, "f64_sqrt") || str_eq(name, "f64_cbrt") || str_eq(name, "f64_hypot") || str_eq(name, "f64_exp") || str_eq(name, "f64_log") || str_eq(name, "f64_log2") || str_eq(name, "f64_log10") || str_eq(name, "f64_sin") || str_eq(name, "f64_cos") || str_eq(name, "f64_tan") || str_eq(name, "f64_asin") || str_eq(name, "f64_acos") || str_eq(name, "f64_atan") || str_eq(name, "f64_atan2") || str_eq(name, "f64_fmod") || str_eq(name, "f64_pow") || str_eq(name, "f64_is_nan") || str_eq(name, "f64_is_inf") || str_eq(name, "f64_is_finite") {
        Some("FLOATMATH")
    } else if str_eq(name, "bool_eq") || str_eq(name, "char_eq") || str_eq(name, "char_lt") || str_eq(name, "char_to_i64") || str_eq(name, "i64_to_char") || str_eq(name, "char_to_string") {
        Some("BOOLCHAR")
    } else if str_eq(name, "str_len") || str_eq(name, "str_byte") || str_eq(name, "str_concat") || str_eq(name, "str_eq") || str_eq(name, "str_lt") || str_eq(name, "str_slice") || str_eq(name, "str_from_buf") {
        Some("STRING")
    } else if str_eq(name, "str_to_i64") || str_eq(name, "str_to_f64") {
        Some("STRPARSE")
    } else if str_eq(name, "i64_and") || str_eq(name, "i64_or") || str_eq(name, "i64_xor") || str_eq(name, "i64_not") || str_eq(name, "i64_shl") || str_eq(name, "i64_shr") {
        Some("BITOPS")
    } else if str_eq(name, "print_string") || str_eq(name, "print_err") {
        Some("IOPRINT")
    } else if str_eq(name, "read_line") || str_eq(name, "read_file") || str_eq(name, "write_file") || str_eq(name, "append_file") || str_eq(name, "file_exists") {
        Some("IOFILE")
    } else {
        None
    }
}

/// Does this block certainly return on every path? (Its last statement
/// does.) Conservative: loops say no.
pub open spec fn block_always_returns_spec(b: BlockV) -> bool
    decreases b, 1nat,
{
    b.stmts.len() > 0 && stmt_always_returns_spec(b.stmts.last())
}

pub open spec fn stmt_always_returns_spec(s: StmtV) -> bool
    decreases s, 0nat,
{
    match s.kind {
        StmtKindV::Return(_) => true,
        StmtKindV::Scope(b) => block_always_returns_spec(b),
        StmtKindV::If { arms, else_block } => match else_block {
            Some(eb) => block_always_returns_spec(eb) && arms_always_return_spec(arms),
            None => false,
        },
        StmtKindV::TryCatch { body, catch_body, .. } => block_always_returns_spec(body) && block_always_returns_spec(catch_body),
        _ => false,
    }
}

pub open spec fn arms_always_return_spec(arms: Seq<(crate::ast::ExprV, BlockV)>) -> bool
    decreases arms, 0nat,
{
    if arms.len() == 0 {
        true
    } else {
        arms_always_return_spec(arms.drop_last()) && block_always_returns_spec(arms.last().1)
    }
}

pub fn block_always_returns(b: &Block) -> (r: bool)
    ensures
        r == block_always_returns_spec(b@),
    decreases b, 1nat,
{
    let n = b.stmts.len();
    if n == 0 {
        return false;
    }
    proof {
        assert(b@.stmts.last() == b.stmts@[n - 1]@);
    }
    stmt_always_returns(&b.stmts[n - 1])
}

#[verifier::loop_isolation(false)]
pub fn stmt_always_returns(s: &Stmt) -> (r: bool)
    ensures
        r == stmt_always_returns_spec(s@),
    decreases s, 0nat,
{
    match &s.kind {
        StmtKind::Return(_) => true,
        StmtKind::Scope(b) => block_always_returns(b),
        StmtKind::If { arms, else_block } => {
            match else_block {
                Some(eb) => {
                    if !block_always_returns(eb) {
                        return false;
                    }
                },
                None => return false,
            }
            proof {
                lemma_arms_all(crate::ast::arms_v(arms@));
            }
            let mut i: usize = 0;
            while i < arms.len()
                invariant
                    i <= arms@.len(),
                    forall|j: int| 0 <= j < i ==> block_always_returns_spec(#[trigger] crate::ast::arms_v(arms@)[j].1),
                decreases arms@.len() - i,
            {
                assert(crate::ast::arms_v(arms@)[i as int].1 == arms@[i as int].1@);
                if !block_always_returns(&arms[i].1) {
                    return false;
                }
                i += 1;
            }
            true
        },
        StmtKind::TryCatch { body, catch_body, .. } => block_always_returns(body) && block_always_returns(catch_body),
        _ => false,
    }
}

/// All arms always return exactly when each one does.
pub proof fn lemma_arms_all(arms: Seq<(crate::ast::ExprV, BlockV)>)
    ensures
        arms_always_return_spec(arms) <==> forall|j: int| 0 <= j < arms.len() ==> block_always_returns_spec(#[trigger] arms[j].1),
    decreases arms.len(),
{
    if arms.len() > 0 {
        lemma_arms_all(arms.drop_last());
        if arms_always_return_spec(arms) {
            assert forall|j: int| 0 <= j < arms.len() implies block_always_returns_spec(#[trigger] arms[j].1) by {
                if j < arms.len() - 1 {
                    assert(arms.drop_last()[j] == arms[j]);
                }
            }
        }
        if forall|j: int| 0 <= j < arms.len() ==> block_always_returns_spec(#[trigger] arms[j].1) {
            assert forall|j: int| 0 <= j < arms.drop_last().len() implies block_always_returns_spec(#[trigger] arms.drop_last()[j].1) by {
                assert(arms.drop_last()[j] == arms[j]);
            }
        }
    }
}

/// One byte inside a C string literal: `\"`, `\\`, printable ASCII as
/// itself, anything else as a three-digit octal escape (never hex, whose
/// escapes swallow following hex digits).
pub open spec fn escape_byte(b: u8) -> Seq<char> {
    if b == 34 {
        seq!['\\', '"']
    } else if b == 92 {
        seq!['\\', '\\']
    } else if 32 <= b <= 126 {
        seq![b as char]
    } else {
        seq!['\\', digit_char((b / 64) as nat), digit_char(((b / 8) % 8) as nat), digit_char((b % 8) as nat)]
    }
}

/// Bytes as the contents of a C string literal.
pub open spec fn escape_c_spec(bs: Seq<u8>) -> Seq<char>
    decreases bs.len(),
{
    if bs.len() == 0 { Seq::empty() } else { escape_byte(bs[0]) + escape_c_spec(bs.drop_first()) }
}

pub proof fn lemma_escape_append(a: Seq<u8>, b: u8)
    ensures
        escape_c_spec(a.push(b)) == escape_c_spec(a) + escape_byte(b),
    decreases a.len(),
{
    if a.len() == 0 {
        assert(a.push(b).drop_first() =~= Seq::<u8>::empty());
        assert(escape_c_spec(a.push(b).drop_first()) == Seq::<char>::empty());
        assert(escape_c_spec(a.push(b)) =~= escape_byte(b));
    } else {
        lemma_escape_append(a.drop_first(), b);
        assert(a.push(b).drop_first() =~= a.drop_first().push(b));
        assert(escape_c_spec(a.push(b)) =~= escape_c_spec(a) + escape_byte(b));
    }
}

pub fn escape_c(bytes: &[u8]) -> (s: String)
    ensures
        s@ == escape_c_spec(bytes@),
{
    let mut out = String::new();
    let mut i: usize = 0;
    while i < bytes.len()
        invariant
            i <= bytes@.len(),
            out@ == escape_c_spec(bytes@.take(i as int)),
        decreases bytes@.len() - i,
    {
        let b = bytes[i];
        let ghost before = out@;
        if b == 34 {
            crate::text::push_char(&mut out, '\\');
            crate::text::push_char(&mut out, '"');
        } else if b == 92 {
            crate::text::push_char(&mut out, '\\');
            crate::text::push_char(&mut out, '\\');
        } else if b >= 32 && b <= 126 {
            crate::text::push_char(&mut out, b as char);
        } else {
            crate::text::push_char(&mut out, '\\');
            crate::text::push_char(&mut out, crate::text::digit((b / 64) as u64));
            crate::text::push_char(&mut out, crate::text::digit(((b / 8) % 8) as u64));
            crate::text::push_char(&mut out, crate::text::digit((b % 8) as u64));
        }
        assert(out@ =~= before + escape_byte(b));
        proof {
            lemma_escape_append(bytes@.take(i as int), b);
            assert(bytes@.take(i + 1) =~= bytes@.take(i as int).push(b));
        }
        i += 1;
    }
    assert(bytes@.take(bytes@.len() as int) =~= bytes@);
    out
}

/// The value of an octal digit character.
pub open spec fn oct_value(c: char) -> int {
    c as int - '0' as int
}

/// Reading C string literal contents back into bytes.
pub open spec fn unescape_spec(cs: Seq<char>) -> Seq<u8>
    decreases cs.len(),
{
    if cs.len() == 0 {
        Seq::empty()
    } else if cs[0] == '\\' && cs.len() >= 2 && cs[1] == '"' {
        seq![34u8] + unescape_spec(cs.subrange(2, cs.len() as int))
    } else if cs[0] == '\\' && cs.len() >= 2 && cs[1] == '\\' {
        seq![92u8] + unescape_spec(cs.subrange(2, cs.len() as int))
    } else if cs[0] == '\\' && cs.len() >= 4 {
        seq![(oct_value(cs[1]) * 64 + oct_value(cs[2]) * 8 + oct_value(cs[3])) as u8]
            + unescape_spec(cs.subrange(4, cs.len() as int))
    } else {
        seq![cs[0] as u8] + unescape_spec(cs.drop_first())
    }
}

proof fn lemma_digit_value(d: nat)
    requires
        d < 10,
    ensures
        oct_value(digit_char(d)) == d,
{
}

proof fn lemma_unescape_byte(b: u8, rest: Seq<char>)
    ensures
        unescape_spec(escape_byte(b) + rest) == seq![b] + unescape_spec(rest),
{
    let cs = escape_byte(b) + rest;
    let k = escape_byte(b).len() as int;
    assert(cs.subrange(k, cs.len() as int) =~= rest);
    if b == 34 || b == 92 {
    } else if 32 <= b <= 126 {
        assert(cs.drop_first() =~= rest);
        assert((b as char) as u8 == b);
    } else {
        let d0 = (b / 64) as nat;
        let d1 = ((b / 8) % 8) as nat;
        let d2 = (b % 8) as nat;
        lemma_digit_value(d0);
        lemma_digit_value(d1);
        lemma_digit_value(d2);
        assert(d0 * 64 + d1 * 8 + d2 == b) by (nonlinear_arith)
            requires
                d0 == b / 64,
                d1 == (b / 8) % 8,
                d2 == b % 8,
                0 <= b < 256,
        ;
    }
}

/// Escaping loses nothing: reading the literal back gives the bytes.
pub proof fn lemma_unescape_escape(bs: Seq<u8>)
    ensures
        unescape_spec(escape_c_spec(bs)) == bs,
    decreases bs.len(),
{
    if bs.len() > 0 {
        lemma_unescape_escape(bs.drop_first());
        lemma_unescape_byte(bs[0], escape_c_spec(bs.drop_first()));
        assert(seq![bs[0]] + bs.drop_first() =~= bs);
    }
}

} // verus!
