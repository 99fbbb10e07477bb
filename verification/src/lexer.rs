use vstd::prelude::*;
use crate::chars::{is_alphabetic, is_alphanumeric, is_whitespace};
use crate::errors::{JimError, JimErrorV};
use crate::lexer_spec::{LexErr, Step, digits_end, digits_value, is_digit, keyword_of, lex_err, lex_escape, lex_char, lex_char_inner, lex_from, lex_hash_directive, lex_ident_or_keyword, lex_intrinsic, lex_number, lex_string, lex_symbol, lemma_digits_end, lemma_line_col_bound, lemma_line_end, lemma_skip_trivia, lemma_word_end, line_col, ASCII_END, line_end, next_kind, skip_trivia, string_body, strip_bom, token_at, word_end};
use crate::text::{framed, framed_char, lit_string, string_of, slice_is};
use crate::token::{Keyword, Symbol, Token, TokenKind, TokenKindV, TokenV, tokens_view};

verus! {

/// The error a lexing failure becomes: its message at its line and column.
pub open spec fn err_view(s: Seq<char>, e: LexErr) -> JimErrorV {
    JimErrorV { msg: e.msg, line: line_col(s, e.at).0 as u32, col: line_col(s, e.at).1 as u32 }
}

/// An executable step agrees with the grammar's step, which ends at `end`.
pub open spec fn step_agrees(s: Seq<char>, r: Result<TokenKind, JimError>, step: Step, end: int) -> bool {
    match step {
        Ok((k, e)) => r matches Ok(rk) && rk@ == k && end == e,
        Err(x) => r matches Err(re) && re@ == err_view(s, x),
    }
}

pub struct Lexer {
    chars: Vec<char>,
    pos: usize,
    line: u32,
    col: u32,
}

impl Lexer {
    /// The lexer is consistent: its line and column are those of its position.
    pub closed spec fn wf(&self) -> bool {
        &&& self.chars@.len() < u32::MAX
        &&& self.pos <= self.chars@.len()
        &&& self.line as nat == line_col(self.chars@, self.pos as int).0
        &&& self.col as nat == line_col(self.chars@, self.pos as int).1
    }

    /// The characters being lexed.
    pub closed spec fn source(&self) -> Seq<char> {
        self.chars@
    }

    /// The position of the next character to lex.
    pub closed spec fn at(&self) -> int {
        self.pos as int
    }

    /// A lexer over `src`; a leading UTF-8 byte-order mark counts as nothing.
    pub fn new(src: &str) -> (l: Lexer)
        requires
            src@.len() < u32::MAX,
        ensures
            l.wf(),
            l.source() == strip_bom(src@),
            l.at() == 0,
    {
        let all = crate::text::chars_of(src);
        let mut chars: Vec<char> = Vec::new();
        let skip: usize = if all.len() > 0 && all[0] == '\u{FEFF}' { 1 } else { 0 };
        let mut i: usize = skip;
        while i < all.len()
            invariant
                skip <= i <= all@.len(),
                all@ == src@,
                chars@ == all@.subrange(skip as int, i as int),
            decreases all@.len() - i,
        {
            chars.push(all[i]);
            assert(all@.subrange(skip as int, i + 1) == all@.subrange(skip as int, i as int).push(all@[i as int]));
            i += 1;
        }
        assert(chars@ == strip_bom(src@));
        Lexer { chars, pos: 0, line: 1, col: 1 }
    }

    fn peek(&self) -> (r: Option<char>)
        requires
            self.wf(),
        ensures
            r == (if self.pos < self.chars@.len() { Some(self.chars@[self.pos as int]) } else { None }),
    {
        if self.pos < self.chars.len() {
            Some(self.chars[self.pos])
        } else {
            None
        }
    }

    fn peek2(&self) -> (r: Option<char>)
        requires
            self.wf(),
        ensures
            r == (if self.pos + 1 < self.chars@.len() { Some(self.chars@[self.pos + 1]) } else { None }),
    {
        if self.pos + 1 < self.chars.len() {
            Some(self.chars[self.pos + 1])
        } else {
            None
        }
    }

    fn bump(&mut self) -> (r: Option<char>)
        requires
            old(self).wf(),
        ensures
            final(self).wf(),
            final(self).chars@ == old(self).chars@,
            old(self).pos < old(self).chars@.len() ==> r == Some(old(self).chars@[old(self).pos as int])
                && final(self).pos == old(self).pos + 1,
            old(self).pos >= old(self).chars@.len() ==> r is None && final(self).pos == old(self).pos,
    {
        let c = match self.peek() {
            Some(c) => c,
            None => return None,
        };
        proof {
            lemma_line_col_bound(self.chars@, self.pos as int);
        }
        self.pos = self.pos + 1;
        if c == '\n' {
            self.line = self.line + 1;
            self.col = 1;
        } else {
            self.col = self.col + 1;
        }
        Some(c)
    }

    fn err(&self, msg: String) -> (e: JimError)
        requires
            self.wf(),
        ensures
            e@ == err_view(self.chars@, lex_err(msg@, self.pos as int)),
    {
        JimError::new(msg, self.line, self.col)
    }

    /// Bump `n` characters known to be there.
    fn bump_known(&mut self)
        requires
            old(self).wf(),
            old(self).pos < old(self).chars@.len(),
        ensures
            final(self).wf(),
            final(self).chars@ == old(self).chars@,
            final(self).pos == old(self).pos + 1,
    {
        let _ = self.bump();
    }

    /// All remaining tokens, ending with `Eof`, or the first lexical error.
    pub fn tokenize(self) -> (r: Result<Vec<Token>, JimError>)
        requires
            self.wf(),
        ensures
            match lex_from(self.source(), self.at()) {
                Ok(ts) => r matches Ok(v) && tokens_view(v@) == ts,
                Err(x) => r matches Err(e) && e@ == err_view(self.source(), x),
            },
    {
        let mut lx = self;
        let ghost s = lx.chars@;
        let ghost p0 = lx.pos as int;
        let mut out: Vec<Token> = Vec::new();
        loop
            invariant
                lx.wf(),
                lx.chars@ == s,
                s == self.chars@,
                p0 == self.pos,
                lex_from(s, p0) == (match lex_from(s, lx.pos as int) {
                    Ok(rest) => Ok(tokens_view(out@) + rest),
                    Err(x) => Err(x),
                }),
            decreases s.len() - lx.pos,
        {
            let ghost before = lx.pos as int;
            lx.skip_trivia();
            proof {
                lemma_skip_trivia(s, before);
            }
            let line = lx.line;
            let col = lx.col;
            let c = match lx.peek() {
                None => {
                    let ghost q = lx.pos as int;
                    let ghost old_out = out@;
                    out.push(Token { kind: TokenKind::Eof, line, col });
                    proof {
                        assert(out@.drop_last() == old_out);
                        assert(tokens_view(out@) =~= tokens_view(old_out).push(token_at(s, TokenKindV::Eof, q)));
                        assert(lex_from(s, before) == Ok::<Seq<TokenV>, LexErr>(seq![token_at(s, TokenKindV::Eof, q)]));
                        assert(tokens_view(old_out) + seq![token_at(s, TokenKindV::Eof, q)] =~= tokens_view(out@));
                    }
                    return Ok(out);
                },
                Some(c) => c,
            };
            let ghost q = lx.pos as int;
            let ghost old_out = out@;
            let kind = match lx.next_kind(c) {
                Ok(k) => k,
                Err(e) => {
                    assert(lex_from(s, before) == Err::<Seq<TokenV>, LexErr>(next_kind(s, q)->Err_0));
                    return Err(e);
                },
            };
            let ghost e = lx.pos as int;
            out.push(Token { kind, line, col });
            proof {
                assert(out@.drop_last() == old_out);
                assert(tokens_view(out@) =~= tokens_view(old_out).push(token_at(s, kind@, q)));
                assert(next_kind(s, q) == Ok::<(TokenKindV, int), LexErr>((kind@, e)));
                assert(lex_from(s, before) == (match lex_from(s, e) {
                    Ok(rest) => Ok(seq![token_at(s, kind@, q)] + rest),
                    Err(x) => Err(x),
                }));
                match lex_from(s, e) {
                    Ok(rest) => {
                        assert(tokens_view(out@) + rest =~= tokens_view(old_out) + (seq![token_at(s, kind@, q)] + rest));
                    },
                    Err(_) => {},
                }
            }
        }
    }

    /// Skip whitespace and `//` line comments.
    fn skip_trivia(&mut self)
        requires
            old(self).wf(),
        ensures
            final(self).wf(),
            final(self).chars@ == old(self).chars@,
            final(self).pos as int == skip_trivia(old(self).chars@, old(self).pos as int),
    {
        let ghost s = self.chars@;
        let ghost p0 = self.pos as int;
        loop
            invariant
                self.wf(),
                self.chars@ == s,
                s == old(self).chars@,
                skip_trivia(s, self.pos as int) == skip_trivia(s, p0),
                p0 == old(self).pos,
            decreases s.len() - self.pos,
        {
            match self.peek() {
                Some(c) => {
                    if is_whitespace(c) {
                        self.bump_known();
                    } else if c == '/' && self.peek2() == Some('/') {
                        let ghost p = self.pos as int;
                        proof {
                            lemma_line_end(s, p + 2);
                            assert(line_end(s, p) == line_end(s, p + 1));
                            assert(line_end(s, p + 1) == line_end(s, p + 2));
                        }
                        loop
                            invariant
                                self.wf(),
                                self.chars@ == s,
                                s == old(self).chars@,
                s == old(self).chars@,
                                p <= self.pos <= line_end(s, p),
                                line_end(s, self.pos as int) == line_end(s, p),
                            ensures
                                self.wf(),
                                self.chars@ == s,
                                self.pos == line_end(s, p),
                            decreases s.len() - self.pos,
                        {
                            proof {
                                lemma_line_end(s, self.pos as int);
                            }
                            match self.peek() {
                                Some(d) => {
                                    if d == '\n' {
                                        break;
                                    }
                                    self.bump_known();
                                },
                                None => break,
                            }
                        }
                        assert(self.pos == line_end(s, p));
                        assert(skip_trivia(s, p) == skip_trivia(s, line_end(s, p + 2)));
                    } else {
                        return;
                    }
                },
                None => return,
            }
        }
    }

    fn next_kind(&mut self, c: char) -> (r: Result<TokenKind, JimError>)
        requires
            old(self).wf(),
            old(self).pos < old(self).chars@.len(),
            c == old(self).chars@[old(self).pos as int],
        ensures
            final(self).wf(),
            final(self).chars@ == old(self).chars@,
            step_agrees(old(self).chars@, r, next_kind(old(self).chars@, old(self).pos as int), final(self).pos as int),
            r is Ok ==> old(self).pos < final(self).pos,
    {
        if c >= '0' && c <= '9' {
            return self.lex_number();
        }
        if is_alphabetic(c) || c == '_' {
            return Ok(self.lex_ident_or_keyword());
        }
        if c == '"' {
            self.lex_string()
        } else if c == '\'' {
            self.lex_char()
        } else if c == '#' {
            self.lex_hash_directive()
        } else if c == '@' {
            self.lex_intrinsic()
        } else {
            self.lex_symbol(c)
        }
    }

    /// Consume a run of digits, appending them to `text`.
    fn take_digits(&mut self, text: &mut Vec<char>)
        requires
            old(self).wf(),
        ensures
            final(self).wf(),
            final(self).chars@ == old(self).chars@,
            final(self).pos as int == digits_end(old(self).chars@, old(self).pos as int),
            final(text)@ == old(text)@ + old(self).chars@.subrange(old(self).pos as int, final(self).pos as int),
    {
        let ghost s = self.chars@;
        let ghost p0 = self.pos as int;
        let ghost t0 = text@;
        loop
            invariant
                self.wf(),
                self.chars@ == s,
                s == old(self).chars@,
                p0 <= self.pos,
                p0 == old(self).pos,
                digits_end(s, self.pos as int) == digits_end(s, p0),
                text@ == t0 + s.subrange(p0, self.pos as int),
                t0 == old(text)@,
            decreases s.len() - self.pos,
        {
            match self.peek() {
                Some(c) => {
                    if c >= '0' && c <= '9' {
                        text.push(c);
                        self.bump_known();
                        assert(s.subrange(p0, self.pos as int) == s.subrange(p0, self.pos - 1).push(c));
                    } else {
                        return;
                    }
                },
                None => return,
            }
        }
    }

    fn lex_number(&mut self) -> (r: Result<TokenKind, JimError>)
        requires
            old(self).wf(),
            old(self).pos < old(self).chars@.len(),
            is_digit(old(self).chars@[old(self).pos as int]),
        ensures
            final(self).wf(),
            final(self).chars@ == old(self).chars@,
            step_agrees(old(self).chars@, r, lex_number(old(self).chars@, old(self).pos as int), final(self).pos as int),
            r is Ok ==> old(self).pos < final(self).pos,
    {
        let ghost s = self.chars@;
        let ghost p = self.pos as int;
        let line = self.line;
        let col = self.col;
        let mut text: Vec<char> = Vec::new();
        self.take_digits(&mut text);
        proof {
            lemma_digits_end(s, p);
        }
        let is_float = match (self.peek(), self.peek2()) {
            (Some('.'), Some(d)) => d >= '0' && d <= '9',
            _ => false,
        };
        if is_float {
            text.push('.');
            self.bump_known();
            let ghost d = self.pos as int - 1;
            self.take_digits(&mut text);
            proof {
                lemma_digits_end(s, d + 1);
                assert(text@ =~= s.subrange(p, self.pos as int));
            }
            return Ok(TokenKind::Float(string_of(text.as_slice())));
        }
        let ghost d = self.pos as int;
        assert(text@ == s.subrange(p, d));
        match digits_to_i64(&text) {
            Some(v) => Ok(TokenKind::Int(v)),
            None => {
                let t = string_of(text.as_slice());
                let msg = framed("integer literal '", t.as_str(), "' does not fit in 64 bits");
                Err(JimError::new(msg, line, col))
            },
        }
    }

    fn lex_ident_or_keyword(&mut self) -> (k: TokenKind)
        requires
            old(self).wf(),
            old(self).pos < old(self).chars@.len(),
            crate::chars::unicode_alphabetic(old(self).chars@[old(self).pos as int])
                || old(self).chars@[old(self).pos as int] == '_',
        ensures
            final(self).wf(),
            final(self).chars@ == old(self).chars@,
            step_agrees(old(self).chars@, Ok(k), lex_ident_or_keyword(old(self).chars@, old(self).pos as int), final(self).pos as int),
            old(self).pos < final(self).pos,
    {
        let ghost s = self.chars@;
        let ghost p = self.pos as int;
        let first = self.chars[self.pos];
        let _ = is_alphanumeric(first);
        let name = self.take_word();
        proof {
            lemma_word_end(s, p);
        }
        match keyword_lookup(name.as_slice()) {
            Some(k) => TokenKind::Kw(k),
            None => TokenKind::Ident(string_of(name.as_slice())),
        }
    }

    /// Consume a run of word characters and return them.
    fn take_word(&mut self) -> (name: Vec<char>)
        requires
            old(self).wf(),
        ensures
            final(self).wf(),
            final(self).chars@ == old(self).chars@,
            final(self).pos as int == word_end(old(self).chars@, old(self).pos as int),
            name@ == old(self).chars@.subrange(old(self).pos as int, final(self).pos as int),
    {
        let ghost s = self.chars@;
        let ghost p0 = self.pos as int;
        let mut name: Vec<char> = Vec::new();
        loop
            invariant
                self.wf(),
                self.chars@ == s,
                s == old(self).chars@,
                p0 <= self.pos,
                p0 == old(self).pos,
                word_end(s, self.pos as int) == word_end(s, p0),
                name@ == s.subrange(p0, self.pos as int),
            decreases s.len() - self.pos,
        {
            match self.peek() {
                Some(c) => {
                    if is_alphanumeric(c) || c == '_' {
                        name.push(c);
                        self.bump_known();
                        assert(s.subrange(p0, self.pos as int) == s.subrange(p0, self.pos - 1).push(c));
                    } else {
                        return name;
                    }
                },
                None => return name,
            }
        }
    }

    fn lex_escape(&mut self) -> (r: Result<char, JimError>)
        requires
            old(self).wf(),
        ensures
            final(self).wf(),
            final(self).chars@ == old(self).chars@,
            match lex_escape(old(self).chars@, old(self).pos as int) {
                Ok((c, e)) => r == Ok::<char, JimError>(c) && final(self).pos == e,
                Err(x) => r matches Err(re) && re@ == err_view(old(self).chars@, x),
            },
    {
        let ghost s = self.chars@;
        match self.bump() {
            Some(c) => {
                if c == 'n' {
                    Ok('\n')
                } else if c == 't' {
                    Ok('\t')
                } else if c == 'r' {
                    Ok('\r')
                } else if c == '0' {
                    Ok('\0')
                } else if c == '\\' {
                    Ok('\\')
                } else if c == '"' {
                    Ok('"')
                } else if c == '\'' {
                    Ok('\'')
                } else {
                    let msg = framed_char("unknown escape sequence '\\", c, "'");
                    Err(self.err(msg))
                }
            },
            None => {
                let msg = lit_string("unterminated escape sequence");
                Err(self.err(msg))
            },
        }
    }

    fn lex_string(&mut self) -> (r: Result<TokenKind, JimError>)
        requires
            old(self).wf(),
            old(self).pos < old(self).chars@.len(),
        ensures
            final(self).wf(),
            final(self).chars@ == old(self).chars@,
            step_agrees(old(self).chars@, r, lex_string(old(self).chars@, old(self).pos as int), final(self).pos as int),
            r is Ok ==> old(self).pos < final(self).pos,
    {
        let ghost s = self.chars@;
        let ghost start = self.pos as int;
        let line = self.line;
        let col = self.col;
        self.bump_known();
        let mut acc: Vec<char> = Vec::new();
        loop
            invariant
                self.wf(),
                self.chars@ == s,
                s == old(self).chars@,
                start < self.pos,
                start == old(self).pos,
                line as nat == line_col(s, start).0,
                col as nat == line_col(s, start).1,
                string_body(s, start, start + 1) == (match string_body(s, start, self.pos as int) {
                    Ok((rest, e)) => Ok((acc@ + rest, e)),
                    Err(x) => Err(x),
                }),
            decreases s.len() - self.pos,
        {
            let ghost p = self.pos as int;
            match self.peek() {
                None => {
                    let msg = lit_string("unterminated string literal");
                    return Err(JimError::new(msg, line, col));
                },
                Some(c) => {
                    if c == '\n' {
                        let msg = lit_string("unterminated string literal (strings cannot span lines)");
                        return Err(JimError::new(msg, line, col));
                    } else if c == '"' {
                        self.bump_known();
                        assert(acc@ + Seq::<char>::empty() == acc@);
                        return Ok(TokenKind::Str(string_of(acc.as_slice())));
                    } else if c == '\\' {
                        self.bump_known();
                        let e = match self.lex_escape() {
                            Ok(e) => e,
                            Err(x) => return Err(x),
                        };
                        proof {
                            match string_body(s, start, p + 2) {
                                Ok((rest, e2)) => {
                                    assert(acc@ + (seq![e] + rest) =~= acc@.push(e) + rest);
                                },
                                Err(_) => {},
                            }
                        }
                        acc.push(e);
                    } else {
                        self.bump_known();
                        proof {
                            match string_body(s, start, p + 1) {
                                Ok((rest, e2)) => {
                                    assert(acc@ + (seq![c] + rest) =~= acc@.push(c) + rest);
                                },
                                Err(_) => {},
                            }
                        }
                        acc.push(c);
                    }
                },
            }
        }
    }

    fn lex_char(&mut self) -> (r: Result<TokenKind, JimError>)
        requires
            old(self).wf(),
            old(self).pos < old(self).chars@.len(),
        ensures
            final(self).wf(),
            final(self).chars@ == old(self).chars@,
            step_agrees(old(self).chars@, r, lex_char(old(self).chars@, old(self).pos as int), final(self).pos as int),
            r is Ok ==> old(self).pos < final(self).pos,
    {
        let ghost s = self.chars@;
        let ghost p = self.pos as int;
        let line = self.line;
        let col = self.col;
        self.bump_known();
        let c = match self.peek() {
            None => {
                let msg = lit_string("unterminated char literal");
                return Err(JimError::new(msg, line, col));
            },
            Some(c) => {
                if c == '\\' {
                    self.bump_known();
                    match self.lex_escape() {
                        Ok(e) => e,
                        Err(x) => return Err(x),
                    }
                } else if c == '\'' {
                    let msg = lit_string("empty char literal");
                    return Err(JimError::new(msg, line, col));
                } else {
                    self.bump_known();
                    c
                }
            },
        };
        let ghost r = self.pos as int;
        assert((match lex_char_inner(s, p) {
            Ok((ci, ri)) => ci == c && ri == r,
            Err(_) => false,
        }));
        match self.peek() {
            Some(q) => {
                if q == '\'' {
                    self.bump_known();
                    if c < ASCII_END {
                        return Ok(TokenKind::CharLit(c as u8));
                    }
                    let msg = framed_char("'", c, "' does not fit in a Char: Char is a single byte, so literals must be ASCII (use String for Unicode text)");
                    return Err(JimError::new(msg, line, col));
                }
            },
            None => {},
        }
        let msg = lit_string("char literal must contain exactly one character");
        Err(JimError::new(msg, line, col))
    }

    fn lex_hash_directive(&mut self) -> (r: Result<TokenKind, JimError>)
        requires
            old(self).wf(),
            old(self).pos < old(self).chars@.len(),
        ensures
            final(self).wf(),
            final(self).chars@ == old(self).chars@,
            step_agrees(old(self).chars@, r, lex_hash_directive(old(self).chars@, old(self).pos as int), final(self).pos as int),
            r is Ok ==> old(self).pos < final(self).pos,
    {
        let ghost s = self.chars@;
        let ghost p = self.pos as int;
        let line = self.line;
        let col = self.col;
        self.bump_known();
        let word = self.take_word();
        proof {
            lemma_word_end(s, p + 1);
        }
        if slice_is(word.as_slice(), 0, word.len(), "import") {
            assert(word@.subrange(0, word@.len() as int) == word@);
            Ok(TokenKind::Kw(Keyword::Import))
        } else {
            assert(word@.subrange(0, word@.len() as int) == word@);
            let w = string_of(word.as_slice());
            let msg = framed("unknown directive '#", w.as_str(), "' (did you mean '#import'?)");
            Err(JimError::new(msg, line, col))
        }
    }

    fn lex_intrinsic(&mut self) -> (r: Result<TokenKind, JimError>)
        requires
            old(self).wf(),
            old(self).pos < old(self).chars@.len(),
        ensures
            final(self).wf(),
            final(self).chars@ == old(self).chars@,
            step_agrees(old(self).chars@, r, lex_intrinsic(old(self).chars@, old(self).pos as int), final(self).pos as int),
            r is Ok ==> old(self).pos < final(self).pos,
    {
        let ghost s = self.chars@;
        let ghost p = self.pos as int;
        let line = self.line;
        let col = self.col;
        self.bump_known();
        let name = self.take_word();
        proof {
            lemma_word_end(s, p + 1);
        }
        if name.len() == 0 {
            let msg = lit_string("expected intrinsic name after '@'");
            return Err(JimError::new(msg, line, col));
        }
        Ok(TokenKind::Intrinsic(string_of(name.as_slice())))
    }

    /// A one- or two-character symbol: after the first character, `second`
    /// is taken when the next character is `want`.
    fn two(&mut self, second: Symbol) -> (k: TokenKind)
        requires
            old(self).wf(),
            old(self).pos < old(self).chars@.len(),
        ensures
            final(self).wf(),
            final(self).chars@ == old(self).chars@,
            final(self).pos == old(self).pos + 1,
            k@ == TokenKindV::Sym(second),
    {
        self.bump_known();
        TokenKind::Sym(second)
    }

    fn lex_symbol(&mut self, c: char) -> (r: Result<TokenKind, JimError>)
        requires
            old(self).wf(),
            old(self).pos < old(self).chars@.len(),
            c == old(self).chars@[old(self).pos as int],
        ensures
            final(self).wf(),
            final(self).chars@ == old(self).chars@,
            step_agrees(old(self).chars@, r, lex_symbol(old(self).chars@, old(self).pos as int), final(self).pos as int),
            r is Ok ==> old(self).pos < final(self).pos,
    {
        self.bump_known();
        let next = self.peek();
        let k = if c == '(' {
            Symbol::LParen
        } else if c == ')' {
            Symbol::RParen
        } else if c == '{' {
            Symbol::LBrace
        } else if c == '}' {
            Symbol::RBrace
        } else if c == '[' {
            Symbol::LBracket
        } else if c == ']' {
            Symbol::RBracket
        } else if c == ',' {
            Symbol::Comma
        } else if c == ';' {
            Symbol::Semicolon
        } else if c == ':' {
            Symbol::Colon
        } else if c == '.' {
            Symbol::Dot
        } else if c == '?' {
            Symbol::Question
        } else if c == '&' {
            Symbol::Ampersand
        } else if c == '+' {
            if next == Some('+') {
                return Ok(self.two(Symbol::PlusPlus));
            } else if next == Some('=') {
                return Ok(self.two(Symbol::PlusEq));
            } else {
                Symbol::Plus
            }
        } else if c == '-' {
            if next == Some('-') {
                return Ok(self.two(Symbol::MinusMinus));
            } else if next == Some('=') {
                return Ok(self.two(Symbol::MinusEq));
            } else if next == Some('>') {
                return Ok(self.two(Symbol::Arrow));
            } else {
                Symbol::Minus
            }
        } else if c == '*' {
            if next == Some('=') {
                return Ok(self.two(Symbol::StarEq));
            } else {
                Symbol::Star
            }
        } else if c == '/' {
            if next == Some('=') {
                return Ok(self.two(Symbol::SlashEq));
            } else {
                Symbol::Slash
            }
        } else if c == '%' {
            Symbol::Percent
        } else if c == '=' {
            if next == Some('=') {
                return Ok(self.two(Symbol::EqEq));
            } else {
                Symbol::Assign
            }
        } else if c == '!' {
            if next == Some('=') {
                return Ok(self.two(Symbol::NotEq));
            } else {
                let msg = lit_string("unexpected '!' (jim uses the 'not' keyword)");
                return Err(self.err(msg));
            }
        } else if c == '<' {
            if next == Some('=') {
                return Ok(self.two(Symbol::LtEq));
            } else {
                Symbol::Lt
            }
        } else if c == '>' {
            if next == Some('=') {
                return Ok(self.two(Symbol::GtEq));
            } else {
                Symbol::Gt
            }
        } else {
            let msg = framed_char("unexpected character '", c, "'");
            return Err(self.err(msg));
        };
        Ok(TokenKind::Sym(k))
    }
}

/// The keyword a word spells, if any.
fn keyword_lookup(w: &[char]) -> (r: Option<Keyword>)
    ensures
        r == keyword_of(w@),
{
    let n = w.len();
    assert(w@.subrange(0, n as int) == w@);
    if slice_is(w, 0, n, "function") { Some(Keyword::Function) }
    else if slice_is(w, 0, n, "var") { Some(Keyword::Var) }
    else if slice_is(w, 0, n, "const") { Some(Keyword::Const) }
    else if slice_is(w, 0, n, "if") { Some(Keyword::If) }
    else if slice_is(w, 0, n, "else") { Some(Keyword::Else) }
    else if slice_is(w, 0, n, "for") { Some(Keyword::For) }
    else if slice_is(w, 0, n, "while") { Some(Keyword::While) }
    else if slice_is(w, 0, n, "in") { Some(Keyword::In) }
    else if slice_is(w, 0, n, "break") { Some(Keyword::Break) }
    else if slice_is(w, 0, n, "continue") { Some(Keyword::Continue) }
    else if slice_is(w, 0, n, "return") { Some(Keyword::Return) }
    else if slice_is(w, 0, n, "class") { Some(Keyword::Class) }
    else if slice_is(w, 0, n, "public") { Some(Keyword::Public) }
    else if slice_is(w, 0, n, "private") { Some(Keyword::Private) }
    else if slice_is(w, 0, n, "this") { Some(Keyword::This) }
    else if slice_is(w, 0, n, "true") { Some(Keyword::True) }
    else if slice_is(w, 0, n, "false") { Some(Keyword::False) }
    else if slice_is(w, 0, n, "None") { Some(Keyword::NoneKw) }
    else if slice_is(w, 0, n, "and") { Some(Keyword::And) }
    else if slice_is(w, 0, n, "or") { Some(Keyword::Or) }
    else if slice_is(w, 0, n, "not") { Some(Keyword::Not) }
    else if slice_is(w, 0, n, "div") { Some(Keyword::Div) }
    else if slice_is(w, 0, n, "try") { Some(Keyword::Try) }
    else if slice_is(w, 0, n, "catch") { Some(Keyword::Catch) }
    else { None }
}

pub proof fn lemma_digits_value_prefix(t: Seq<char>, j: int)
    requires
        0 <= j <= t.len(),
    ensures
        digits_value(t.take(j)) <= digits_value(t),
    decreases t.len(),
{
    if j < t.len() {
        assert(t.take(j) == t.drop_last().take(j));
        lemma_digits_value_prefix(t.drop_last(), j);
    } else {
        assert(t.take(j) == t);
    }
}

/// The value of a run of ASCII digits, or `None` when it exceeds `i64::MAX`.
fn digits_to_i64(t: &Vec<char>) -> (r: Option<i64>)
    requires
        forall|i: int| 0 <= i < t@.len() ==> is_digit(#[trigger] t@[i]),
    ensures
        match r {
            Some(v) => digits_value(t@) <= i64::MAX && v == digits_value(t@),
            None => digits_value(t@) > i64::MAX,
        },
{
    let mut v: i64 = 0;
    let mut i: usize = 0;
    while i < t.len()
        invariant
            i <= t@.len(),
            forall|k: int| 0 <= k < t@.len() ==> is_digit(#[trigger] t@[k]),
            v as int == digits_value(t@.take(i as int)),
        decreases t@.len() - i,
    {
        let d: i64 = (t[i] as u32 - '0' as u32) as i64;
        assert(t@.take(i + 1).drop_last() == t@.take(i as int));
        let next = match v.checked_mul(10) {
            Some(m) => m.checked_add(d),
            None => None,
        };
        match next {
            Some(n) => {
                v = n;
            },
            None => {
                proof {
                    lemma_digits_value_prefix(t@, i + 1);
                }
                return None;
            },
        }
        i += 1;
    }
    assert(t@.take(t@.len() as int) == t@);
    Some(v)
}

} // verus!
