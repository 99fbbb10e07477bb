//! Evaluating the C runtime's own conditionals, so the emitted source keeps
//! only the runtime blocks a program needs.

use vstd::prelude::*;
use crate::chars::{is_whitespace, unicode_whitespace};
use crate::lexer_spec::line_end;
use crate::text::{push_char, push_str, slice_is, str_eq};

verus! {

/// The lines of `s` from position `p`, as `str::lines` yields them: split
/// at `'\n'`, a `"\r\n"` ending counts as one, and a final line end adds no
/// empty line.
pub open spec fn lines_from(s: Seq<char>, p: int) -> Seq<Seq<char>>
    decreases s.len() - p,
{
    if !(0 <= p < s.len()) {
        Seq::empty()
    } else {
        let e = line_end(s, p);
        let text = s.subrange(p, e);
        let t = if e < s.len() && text.len() > 0 && text.last() == '\r' { text.drop_last() } else { text };
        if p <= e < s.len() { seq![t] + lines_from(s, e + 1) } else { seq![t] }
    }
}

/// How many leading characters of `t` from `i` on are whitespace.
pub open spec fn ws_end(t: Seq<char>, i: int) -> int
    decreases t.len() - i,
{
    if 0 <= i < t.len() && unicode_whitespace(t[i]) { ws_end(t, i + 1) } else { i }
}

/// Where the run of non-whitespace starting at `i` ends.
pub open spec fn word_end(t: Seq<char>, i: int) -> int
    decreases t.len() - i,
{
    if 0 <= i < t.len() && !unicode_whitespace(t[i]) { word_end(t, i + 1) } else { i }
}

/// `str::trim_start`: without its leading whitespace.
pub open spec fn trim_start(t: Seq<char>) -> Seq<char> {
    t.subrange(ws_end(t, 0), t.len() as int)
}

/// `split_whitespace().next()`, or empty.
pub open spec fn first_word(t: Seq<char>) -> Seq<char> {
    let b = ws_end(t, 0);
    t.subrange(b, word_end(t, b))
}

pub open spec fn starts_with(t: Seq<char>, pre: Seq<char>) -> bool {
    t.len() >= pre.len() && t.take(pre.len() as int) == pre
}

pub open spec fn all_true(st: Seq<bool>) -> bool {
    forall|i: int| 0 <= i < st.len() ==> st[i]
}

/// One runtime line: `#ifdef JIM_RT_<B>` keeps its content when block `B`
/// is wanted (other `#ifdef`s always), `#ifndef JIM_PANIC_ABORT` unless
/// panics abort (other `#ifndef`s always), `#endif` closes one, and any
/// other line is kept when every enclosing condition holds.
pub open spec fn filter_line(st: Seq<bool>, out: Seq<char>, line: Seq<char>, panic_abort: bool, blocks: Seq<Seq<char>>) -> (Seq<bool>, Seq<char>) {
    let t = trim_start(line);
    if starts_with(t, "#ifdef "@) {
        let name = first_word(t.skip(7));
        let active = if starts_with(name, "JIM_RT_"@) { blocks.contains(name.skip(7)) } else { true };
        (st.push(active), out)
    } else if starts_with(t, "#ifndef "@) {
        let name = first_word(t.skip(8));
        let active = if name == "JIM_PANIC_ABORT"@ { !panic_abort } else { true };
        (st.push(active), out)
    } else if starts_with(t, "#endif"@) {
        (if st.len() > 0 { st.drop_last() } else { st }, out)
    } else if all_true(st) {
        (st, out + line + "\n"@)
    } else {
        (st, out)
    }
}

/// The first `n` lines filtered.
pub open spec fn filter_lines(lines: Seq<Seq<char>>, n: nat, panic_abort: bool, blocks: Seq<Seq<char>>) -> (Seq<bool>, Seq<char>)
    decreases n,
{
    if n == 0 || n > lines.len() {
        (Seq::empty(), Seq::empty())
    } else {
        let prev = filter_lines(lines, (n - 1) as nat, panic_abort, blocks);
        filter_line(prev.0, prev.1, lines[n - 1], panic_abort, blocks)
    }
}

/// The runtime source with only the kept lines.
pub open spec fn filter_runtime_spec(src: Seq<char>, panic_abort: bool, blocks: Seq<Seq<char>>) -> Seq<char> {
    let lines = lines_from(src, 0);
    filter_lines(lines, lines.len(), panic_abort, blocks).1
}

/// A conditional line of the runtime: `#ifdef`, `#ifndef` or `#endif`.
pub open spec fn is_directive(line: Seq<char>) -> bool {
    let t = trim_start(line);
    starts_with(t, "#ifdef "@) || starts_with(t, "#ifndef "@) || starts_with(t, "#endif"@)
}

/// The lines the filter keeps among the first `n`, in order.
pub open spec fn kept_lines(lines: Seq<Seq<char>>, n: nat, panic_abort: bool, blocks: Seq<Seq<char>>) -> Seq<Seq<char>>
    decreases n,
{
    if n == 0 || n > lines.len() {
        Seq::empty()
    } else {
        let l = lines[n - 1];
        kept_lines(lines, (n - 1) as nat, panic_abort, blocks)
            + if !is_directive(l) && all_true(filter_lines(lines, (n - 1) as nat, panic_abort, blocks).0) { seq![l] } else { Seq::empty() }
    }
}

/// Lines written out, each ended by `'\n'`.
pub open spec fn join_lines(ls: Seq<Seq<char>>) -> Seq<char>
    decreases ls.len(),
{
    if ls.len() == 0 { Seq::empty() } else { join_lines(ls.drop_last()) + ls.last() + "\n"@ }
}

proof fn lemma_filter_lines_shape(lines: Seq<Seq<char>>, n: nat, panic_abort: bool, blocks: Seq<Seq<char>>)
    requires
        n <= lines.len(),
    ensures
        filter_lines(lines, n, panic_abort, blocks).1 == join_lines(kept_lines(lines, n, panic_abort, blocks)),
        forall|i: int| 0 <= i < kept_lines(lines, n, panic_abort, blocks).len() ==>
            !is_directive(#[trigger] kept_lines(lines, n, panic_abort, blocks)[i])
            && lines.contains(kept_lines(lines, n, panic_abort, blocks)[i]),
    decreases n,
{
    if n > 0 {
        let m = (n - 1) as nat;
        lemma_filter_lines_shape(lines, m, panic_abort, blocks);
        let k0 = kept_lines(lines, m, panic_abort, blocks);
        let k1 = kept_lines(lines, n, panic_abort, blocks);
        let l = lines[n - 1];
        if !is_directive(l) && all_true(filter_lines(lines, m, panic_abort, blocks).0) {
            assert(k1 == k0.push(l));
            assert(k1.drop_last() =~= k0);
            assert(lines.contains(l));
            assert forall|i: int| 0 <= i < k1.len() implies !is_directive(#[trigger] k1[i]) && lines.contains(k1[i]) by {
                if i < k0.len() {
                    assert(k1[i] == k0[i]);
                }
            }
        } else {
            assert(k1 =~= k0);
        }
    }
}

/// The filtered runtime is some of the source's lines, in their order,
/// each ended by a line break, and none of them a conditional
/// (`#ifdef`, `#ifndef`, `#endif`): the conditionals are all evaluated.
pub proof fn lemma_filtered_runtime(src: Seq<char>, panic_abort: bool, blocks: Seq<Seq<char>>)
    ensures
        filter_runtime_spec(src, panic_abort, blocks)
            == join_lines(kept_lines(lines_from(src, 0), lines_from(src, 0).len(), panic_abort, blocks)),
        forall|i: int| 0 <= i < kept_lines(lines_from(src, 0), lines_from(src, 0).len(), panic_abort, blocks).len() ==>
            !is_directive(#[trigger] kept_lines(lines_from(src, 0), lines_from(src, 0).len(), panic_abort, blocks)[i])
            && lines_from(src, 0).contains(kept_lines(lines_from(src, 0), lines_from(src, 0).len(), panic_abort, blocks)[i]),
{
    let lines = lines_from(src, 0);
    lemma_filter_lines_shape(lines, lines.len(), panic_abort, blocks);
}

proof fn lemma_ws_end(t: Seq<char>, i: int)
    requires
        0 <= i <= t.len(),
    ensures
        i <= ws_end(t, i) <= t.len(),
        forall|j: int| i <= j < ws_end(t, i) ==> unicode_whitespace(t[j]),
        ws_end(t, i) < t.len() ==> !unicode_whitespace(t[ws_end(t, i)]),
    decreases t.len() - i,
{
    if i < t.len() && unicode_whitespace(t[i]) {
        lemma_ws_end(t, i + 1);
    }
}

proof fn lemma_word_end(t: Seq<char>, i: int)
    requires
        0 <= i <= t.len(),
    ensures
        i <= word_end(t, i) <= t.len(),
        forall|j: int| i <= j < word_end(t, i) ==> !unicode_whitespace(t[j]),
        word_end(t, i) < t.len() ==> unicode_whitespace(t[word_end(t, i)]),
    decreases t.len() - i,
{
    if i < t.len() && !unicode_whitespace(t[i]) {
        lemma_word_end(t, i + 1);
    }
}

/// Where the whitespace from `i` on ends.
fn skip_ws(t: &Vec<char>, i: usize) -> (r: usize)
    requires
        i <= t@.len(),
    ensures
        r == ws_end(t@, i as int),
{
    let mut j = i;
    proof {
        lemma_ws_end(t@, i as int);
    }
    while j < t.len() && is_whitespace(t[j])
        invariant
            i <= j <= t@.len(),
            ws_end(t@, j as int) == ws_end(t@, i as int),
        decreases t@.len() - j,
    {
        j += 1;
    }
    j
}

/// Where the non-whitespace run from `i` on ends.
fn skip_word(t: &Vec<char>, i: usize) -> (r: usize)
    requires
        i <= t@.len(),
    ensures
        r == word_end(t@, i as int),
{
    let mut j = i;
    while j < t.len() && !is_whitespace(t[j])
        invariant
            i <= j <= t@.len(),
            word_end(t@, j as int) == word_end(t@, i as int),
        decreases t@.len() - j,
    {
        j += 1;
    }
    j
}

/// Does `t[from..]` start with `pre`?
fn starts_at(t: &Vec<char>, from: usize, pre: &str) -> (b: bool)
    requires
        from <= t@.len(),
    ensures
        b == starts_with(t@.skip(from as int), pre@),
{
    let n = pre.unicode_len();
    if t.len() - from < n {
        return false;
    }
    let r = slice_is(t.as_slice(), from, from + n, pre);
    assert(t@.skip(from as int).take(n as int) == t@.subrange(from as int, from + n));
    r
}

/// The characters `t[from..to]`.
fn chars_between(t: &Vec<char>, from: usize, to: usize) -> (s: String)
    requires
        from <= to <= t@.len(),
    ensures
        s@ == t@.subrange(from as int, to as int),
{
    let mut s = String::new();
    let mut i = from;
    while i < to
        invariant
            from <= i <= to <= t@.len(),
            s@ == t@.subrange(from as int, i as int),
        decreases to - i,
    {
        push_char(&mut s, t[i]);
        assert(t@.subrange(from as int, i + 1) == t@.subrange(from as int, i as int).push(t@[i as int]));
        i += 1;
    }
    s
}

fn is_member(blocks: &Vec<String>, b: &str) -> (r: bool)
    ensures
        r == crate::ast::names_v(blocks@).contains(b@),
{
    let mut i: usize = 0;
    while i < blocks.len()
        invariant
            i <= blocks@.len(),
            forall|j: int| 0 <= j < i ==> blocks@[j]@ != b@,
        decreases blocks@.len() - i,
    {
        if str_eq(blocks[i].as_str(), b) {
            assert(crate::ast::names_v(blocks@)[i as int] == b@);
            return true;
        }
        i += 1;
    }
    assert(!crate::ast::names_v(blocks@).contains(b@)) by {
        if crate::ast::names_v(blocks@).contains(b@) {
            let j = choose|j: int| 0 <= j < crate::ast::names_v(blocks@).len() && crate::ast::names_v(blocks@)[j] == b@;
            assert(blocks@[j]@ == b@);
        }
    }
    false
}

/// The directive's name: the first word after `skip` characters of `t`.
fn directive_name(t: &Vec<char>, skip: usize) -> (r: Vec<char>)
    requires
        skip <= t@.len(),
    ensures
        r@ == first_word(t@.skip(skip as int)),
{
    let ghost u = t@.skip(skip as int);
    let b = skip_ws(t, skip);
    proof {
        lemma_ws_end(t@, skip as int);
    }
    let e = skip_word(t, b);
    proof {
        lemma_word_end(t@, b as int);
        lemma_shift_ws(t@, skip as int, skip as int);
        lemma_shift_word(t@, skip as int, b as int);
    }
    let mut r: Vec<char> = Vec::new();
    let mut i = b;
    while i < e
        invariant
            b <= i <= e <= t@.len(),
            r@ == t@.subrange(b as int, i as int),
        decreases e - i,
    {
        r.push(t[i]);
        assert(t@.subrange(b as int, i + 1) == t@.subrange(b as int, i as int).push(t@[i as int]));
        i += 1;
    }
    assert(u.subrange(ws_end(u, 0), word_end(u, ws_end(u, 0))) =~= t@.subrange(b as int, e as int));
    r
}

proof fn lemma_shift_ws(t: Seq<char>, k: int, i: int)
    requires
        0 <= k <= i <= t.len(),
    ensures
        ws_end(t.skip(k), i - k) == ws_end(t, i) - k,
    decreases t.len() - i,
{
    if i < t.len() && unicode_whitespace(t[i]) {
        lemma_shift_ws(t, k, i + 1);
    }
}

proof fn lemma_shift_word(t: Seq<char>, k: int, i: int)
    requires
        0 <= k <= i <= t.len(),
    ensures
        word_end(t.skip(k), i - k) == word_end(t, i) - k,
    decreases t.len() - i,
{
    if i < t.len() && !unicode_whitespace(t[i]) {
        lemma_shift_word(t, k, i + 1);
    }
}

fn all_active(stack: &Vec<bool>) -> (r: bool)
    ensures
        r == all_true(stack@),
{
    let mut i: usize = 0;
    while i < stack.len()
        invariant
            i <= stack@.len(),
            forall|j: int| 0 <= j < i ==> stack@[j],
        decreases stack@.len() - i,
    {
        if !stack[i] {
            return false;
        }
        i += 1;
    }
    true
}

/// Apply one runtime line to the condition stack and the output.
fn filter_one(stack: &mut Vec<bool>, out: &mut String, line: &Vec<char>, panic_abort: bool, blocks: &Vec<String>)
    ensures
        (final(stack)@, final(out)@) == filter_line(old(stack)@, old(out)@, line@, panic_abort, crate::ast::names_v(blocks@)),
{
    let b = skip_ws(line, 0);
    proof {
        lemma_ws_end(line@, 0);
        reveal_strlit("#ifdef ");
        reveal_strlit("#ifndef ");
        reveal_strlit("JIM_RT_");
    }
    let ghost t = trim_start(line@);
    assert(t == line@.skip(b as int));
    assert(line@.skip(b as int).len() == line@.len() - b);
    if starts_at(line, b, "#ifdef ") {
        assert("#ifdef "@.len() == 7);
        assert(line@.len() >= b + 7);
        let n = line.len();
        assert(b + 7 <= n);
        assert(t.skip(7) == line@.skip(b + 7));
        let name = directive_name(line, b + 7);
        let active = if name.len() >= 7 && slice_is(name.as_slice(), 0, 7, "JIM_RT_") {
            assert(name@.take(7) == name@.subrange(0, 7));
            let rest = chars_between(&name, 7, name.len());
            assert(rest@ == name@.skip(7));
            is_member(blocks, rest.as_str())
        } else {
            assert(name@.len() >= 7 ==> name@.take(7) == name@.subrange(0, 7));
            true
        };
        stack.push(active);
    } else if starts_at(line, b, "#ifndef ") {
        assert("#ifndef "@.len() == 8);
        assert(line@.len() >= b + 8);
        let n = line.len();
        assert(b + 8 <= n);
        assert(t.skip(8) == line@.skip(b + 8));
        let name = directive_name(line, b + 8);
        let is_abort = slice_is(name.as_slice(), 0, name.len(), "JIM_PANIC_ABORT");
        assert(name@.subrange(0, name@.len() as int) == name@);
        let active = if is_abort { !panic_abort } else { true };
        stack.push(active);
    } else if starts_at(line, b, "#endif") {
        stack.pop();
    } else if all_active(stack) {
        let text = chars_between(line, 0, line.len());
        assert(line@.subrange(0, line@.len() as int) == line@);
        push_str(out, text.as_str());
        push_str(out, "\n");
    }
}

/// Keep only the runtime lines that the wanted blocks need, evaluating
/// `#ifdef JIM_RT_<B>` and `#ifndef JIM_PANIC_ABORT` (see [`filter_line`]).
pub fn filter_runtime(src: &str, panic_abort: bool, blocks: &Vec<String>) -> (r: String)
    ensures
        r@ == filter_runtime_spec(src@, panic_abort, crate::ast::names_v(blocks@)),
{
    let cs = crate::text::chars_of(src);
    let ghost bl = crate::ast::names_v(blocks@);
    let ghost lines = lines_from(cs@, 0);
    let mut stack: Vec<bool> = Vec::new();
    let mut out = String::new();
    let mut start: usize = 0;
    let ghost mut k: nat = 0;
    assert(lines.take(0) + lines_from(cs@, 0) =~= lines);
    while start < cs.len()
        invariant
            start <= cs@.len(),
            cs@ == src@,
            bl == crate::ast::names_v(blocks@),
            lines == lines_from(cs@, 0),
            k <= lines.len(),
            lines.take(k as int) + lines_from(cs@, start as int) == lines,
            (stack@, out@) == filter_lines(lines, k, panic_abort, bl),
        decreases cs@.len() - start,
    {
        let mut e = start;
        while e < cs.len() && cs[e] != '\n'
            invariant
                start <= e <= cs@.len(),
                line_end(cs@, e as int) == line_end(cs@, start as int),
            decreases cs@.len() - e,
        {
            e += 1;
        }
        proof {
            crate::lexer_spec::lemma_line_end(cs@, start as int);
            crate::lexer_spec::lemma_line_end(cs@, e as int);
        }
        assert(e == line_end(cs@, start as int));
        let mut to = e;
        if e < cs.len() && e > start && cs[e - 1] == '\r' {
            to = e - 1;
        }
        let mut line: Vec<char> = Vec::new();
        let mut i = start;
        while i < to
            invariant
                start <= i <= to <= cs@.len(),
                line@ == cs@.subrange(start as int, i as int),
            decreases to - i,
        {
            line.push(cs[i]);
            assert(cs@.subrange(start as int, i + 1) == cs@.subrange(start as int, i as int).push(cs@[i as int]));
            i += 1;
        }
        let ghost text = cs@.subrange(start as int, e as int);
        assert(line@ == (if e < cs@.len() && text.len() > 0 && text.last() == '\r' { text.drop_last() } else { text }));
        let ghost rest = lines_from(cs@, start as int);
        assert(rest[0] == line@);
        let ghost before = filter_lines(lines, k, panic_abort, bl);
        filter_one(&mut stack, &mut out, &line, panic_abort, blocks);
        proof {
            assert(lines[k as int] == line@) by {
                assert((lines.take(k as int) + rest)[k as int] == rest[0]);
            }
            assert(k < lines.len());
            assert(filter_lines(lines, (k + 1) as nat, panic_abort, bl) == filter_line(before.0, before.1, lines[k as int], panic_abort, bl));
            assert(lines.take(k as int + 1) =~= lines.take(k as int).push(line@));
            if e < cs@.len() {
                assert(rest == seq![line@] + lines_from(cs@, e + 1));
                assert(lines.take(k as int + 1) + lines_from(cs@, e + 1) =~= lines);
            } else {
                assert(rest == seq![line@]);
                assert(lines.take(k as int + 1) =~= lines);
            }
            k = k + 1;
        }
        if e < cs.len() {
            start = e + 1;
        } else {
            start = cs.len();
            assert(lines_from(cs@, start as int) == Seq::<Seq<char>>::empty());
            assert(lines.take(k as int) + lines_from(cs@, start as int) =~= lines);
        }
    }
    proof {
        assert(lines_from(cs@, start as int) == Seq::<Seq<char>>::empty());
        assert(lines.take(k as int) == lines);
        assert(k == lines.len());
    }
    out
}

} // verus!
