use vstd::prelude::*;

verus! {

/// A compile-time diagnostic anchored to a line/column in some source file.
/// Which file is known by whoever holds the error (the driver tracks sources).
#[derive(Debug, Clone)]
pub struct JimError {
    pub msg: String,
    pub line: u32,
    pub col: u32,
}

pub struct JimErrorV {
    pub msg: Seq<char>,
    pub line: u32,
    pub col: u32,
}

impl View for JimError {
    type V = JimErrorV;

    open spec fn view(&self) -> JimErrorV {
        JimErrorV { msg: self.msg@, line: self.line, col: self.col }
    }
}

impl JimError {
    pub fn new(msg: String, line: u32, col: u32) -> (e: JimError)
        ensures
            e@ == (JimErrorV { msg: msg@, line, col }),
    {
        JimError { msg, line, col }
    }
}

} // verus!

verus! {

/// The `n`-th line (0-based) of `s` from position `start` on, as `str::lines`
/// yields them: split at `'\n'`, a `"\r\n"` ending counts as one line end,
/// and a final line end adds no empty line.
pub open spec fn nth_line(s: Seq<char>, start: int, n: nat) -> Option<Seq<char>>
    decreases s.len() - start,
{
    if start < 0 || start >= s.len() {
        None
    } else {
        let e = crate::lexer_spec::line_end(s, start);
        if n == 0 {
            let text = s.subrange(start, e);
            if e < s.len() && text.len() > 0 && text.last() == '\r' {
                Some(text.drop_last())
            } else {
                Some(text)
            }
        } else if start <= e < s.len() {
            nth_line(s, e + 1, (n - 1) as nat)
        } else {
            None
        }
    }
}

pub open spec fn spaces(n: nat) -> Seq<char> {
    Seq::new(n, |i: int| ' ')
}

/// `path:line:col: error: msg`, then the offending source line and a caret
/// under the column (when that line exists).
pub open spec fn render_spec(path: Seq<char>, src: Seq<char>, e: JimErrorV) -> Seq<char> {
    let head = path + seq![':'] + crate::text::decimal(e.line as nat) + seq![':']
        + crate::text::decimal(e.col as nat) + ": error: "@ + e.msg + seq!['\n'];
    if e.line >= 1 {
        match nth_line(src, 0, (e.line - 1) as nat) {
            Some(text) => head + "    "@ + text + seq!['\n'] + "    "@
                + spaces(if e.col >= 1 { (e.col - 1) as nat } else { 0 }) + "^\n"@,
            None => head,
        }
    } else {
        head
    }
}

/// Render `path:line:col: error: msg` followed by the offending source line
/// and a caret pointing at the column.
pub fn render(path: &str, src: &str, err: &JimError) -> (out: String)
    ensures
        out@ == render_spec(path@, src@, err@),
{
    let mut out = crate::text::lit_string(path);
    crate::text::push_char(&mut out, ':');
    crate::text::push_decimal(&mut out, err.line as u64);
    crate::text::push_char(&mut out, ':');
    crate::text::push_decimal(&mut out, err.col as u64);
    crate::text::push_str(&mut out, ": error: ");
    crate::text::push_str(&mut out, err.msg.as_str());
    crate::text::push_char(&mut out, '\n');
    let ghost head = out@;
    assert(head == path@ + seq![':'] + crate::text::decimal(err.line as nat) + seq![':']
        + crate::text::decimal(err.col as nat) + ": error: "@ + err.msg@ + seq!['\n']);
    if err.line >= 1 {
        let chars = crate::text::chars_of(src);
        match line_text(&chars, (err.line - 1) as usize) {
            Some(text) => {
                crate::text::push_str(&mut out, "    ");
                crate::text::push_str(&mut out, text.as_str());
                crate::text::push_char(&mut out, '\n');
                crate::text::push_str(&mut out, "    ");
                let pad: u32 = if err.col >= 1 { err.col - 1 } else { 0 };
                let mut i: u32 = 0;
                let ghost before = out@;
                while i < pad
                    invariant
                        i <= pad,
                        out@ == before + spaces(i as nat),
                    decreases pad - i,
                {
                    crate::text::push_char(&mut out, ' ');
                    assert(spaces((i + 1) as nat) =~= spaces(i as nat).push(' '));
                    i += 1;
                }
                crate::text::push_str(&mut out, "^\n");
            },
            None => {},
        }
    }
    out
}

/// The `n`-th line of `s` (see [`nth_line`]).
fn line_text(s: &Vec<char>, n: usize) -> (r: Option<String>)
    ensures
        match nth_line(s@, 0, n as nat) {
            Some(t) => r matches Some(rs) && rs@ == t,
            None => r is None,
        },
{
    let mut start: usize = 0;
    let mut k: usize = n;
    while start < s.len()
        invariant
            start <= s@.len(),
            k <= n,
            nth_line(s@, 0, n as nat) == nth_line(s@, start as int, k as nat),
        decreases s@.len() - start,
    {
        let mut e: usize = start;
        while e < s.len() && s[e] != '\n'
            invariant
                start <= e <= s@.len(),
                crate::lexer_spec::line_end(s@, e as int) == crate::lexer_spec::line_end(s@, start as int),
            decreases s@.len() - e,
        {
            e += 1;
        }
        proof {
            crate::lexer_spec::lemma_line_end(s@, start as int);
            crate::lexer_spec::lemma_line_end(s@, e as int);
        }
        assert(e == crate::lexer_spec::line_end(s@, start as int));
        if k == 0 {
            let mut to = e;
            if e < s.len() && e > start && s[e - 1] == '\r' {
                to = e - 1;
            }
            let mut v: Vec<char> = Vec::new();
            let mut i = start;
            while i < to
                invariant
                    start <= i <= to <= s@.len(),
                    v@ == s@.subrange(start as int, i as int),
                decreases to - i,
            {
                v.push(s[i]);
                assert(s@.subrange(start as int, i + 1) == s@.subrange(start as int, i as int).push(s@[i as int]));
                i += 1;
            }
            proof {
                let text = s@.subrange(start as int, e as int);
                if e < s@.len() && text.len() > 0 && text.last() == '\r' {
                    assert(text.drop_last() =~= v@);
                } else {
                    assert(text =~= v@);
                }
            }
            return Some(crate::text::string_of(v.as_slice()));
        }
        if e >= s.len() {
            return None;
        }
        k = k - 1;
        start = e + 1;
    }
    None
}

} // verus!
