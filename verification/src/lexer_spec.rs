//! The lexical grammar of jim, as mathematics over character sequences.
use vstd::prelude::*;
use crate::chars::{unicode_alphabetic, unicode_alphanumeric, unicode_whitespace};
use crate::token::{Keyword, Symbol, TokenKindV, TokenV};

verus! {

/// 1-based line and column of position `p` in `s`: lines start after each
/// `'\n'`; every other character advances the column.
pub open spec fn line_col(s: Seq<char>, p: int) -> (nat, nat)
    decreases p,
{
    if p <= 0 {
        (1, 1)
    } else {
        let (l, c) = line_col(s, p - 1);
        if s[p - 1] == '\n' {
            (l + 1, 1)
        } else {
            (l, c + 1)
        }
    }
}

pub proof fn lemma_line_col_bound(s: Seq<char>, p: int)
    requires
        0 <= p,
    ensures
        1 <= line_col(s, p).0 <= p + 1,
        1 <= line_col(s, p).1 <= p + 1,
    decreases p,
{
    if p > 0 {
        lemma_line_col_bound(s, p - 1);
    }
}

/// The first character past ASCII.
pub const ASCII_END: char = '\u{80}';

pub open spec fn is_digit(c: char) -> bool {
    '0' <= c && c <= '9'
}

pub open spec fn is_word_char(c: char) -> bool {
    unicode_alphanumeric(c) || c == '_'
}

/// First position at or after `p` that is not an ASCII digit.
pub open spec fn digits_end(s: Seq<char>, p: int) -> int
    decreases s.len() - p,
{
    if 0 <= p < s.len() && is_digit(s[p]) {
        digits_end(s, p + 1)
    } else {
        p
    }
}

/// First position at or after `p` that is not a word character.
pub open spec fn word_end(s: Seq<char>, p: int) -> int
    decreases s.len() - p,
{
    if 0 <= p < s.len() && is_word_char(s[p]) {
        word_end(s, p + 1)
    } else {
        p
    }
}

/// First `'\n'` at or after `p` (or the end).
pub open spec fn line_end(s: Seq<char>, p: int) -> int
    decreases s.len() - p,
{
    if 0 <= p < s.len() && s[p] != '\n' {
        line_end(s, p + 1)
    } else {
        p
    }
}

pub proof fn lemma_digits_end(s: Seq<char>, p: int)
    requires
        0 <= p <= s.len(),
    ensures
        p <= digits_end(s, p) <= s.len(),
        forall|i: int| p <= i < digits_end(s, p) ==> is_digit(#[trigger] s[i]),
        digits_end(s, p) < s.len() ==> !is_digit(s[digits_end(s, p)]),
    decreases s.len() - p,
{
    if p < s.len() && is_digit(s[p]) {
        lemma_digits_end(s, p + 1);
    }
}

pub proof fn lemma_word_end(s: Seq<char>, p: int)
    requires
        0 <= p <= s.len(),
    ensures
        p <= word_end(s, p) <= s.len(),
        forall|i: int| p <= i < word_end(s, p) ==> is_word_char(#[trigger] s[i]),
        word_end(s, p) < s.len() ==> !is_word_char(s[word_end(s, p)]),
    decreases s.len() - p,
{
    if p < s.len() && is_word_char(s[p]) {
        lemma_word_end(s, p + 1);
    }
}

pub proof fn lemma_line_end(s: Seq<char>, p: int)
    requires
        0 <= p <= s.len(),
    ensures
        p <= line_end(s, p) <= s.len(),
        forall|i: int| p <= i < line_end(s, p) ==> #[trigger] s[i] != '\n',
        line_end(s, p) < s.len() ==> s[line_end(s, p)] == '\n',
    decreases s.len() - p,
{
    if p < s.len() && s[p] != '\n' {
        lemma_line_end(s, p + 1);
    }
}

/// Skip whitespace and `//` line comments.
pub open spec fn skip_trivia(s: Seq<char>, p: int) -> int
    decreases s.len() - p,
{
    if 0 <= p < s.len() && unicode_whitespace(s[p]) {
        skip_trivia(s, p + 1)
    } else if 0 <= p && p + 1 < s.len() && s[p] == '/' && s[p + 1] == '/' {
        let q = line_end(s, p + 2);
        if p < q <= s.len() { skip_trivia(s, q) } else { p }
    } else {
        p
    }
}

pub proof fn lemma_skip_trivia(s: Seq<char>, p: int)
    requires
        0 <= p <= s.len(),
    ensures
        p <= skip_trivia(s, p) <= s.len(),
    decreases s.len() - p,
{
    if p < s.len() && unicode_whitespace(s[p]) {
        lemma_skip_trivia(s, p + 1);
    } else if p + 1 < s.len() && s[p] == '/' && s[p + 1] == '/' {
        lemma_line_end(s, p + 2);
        lemma_skip_trivia(s, line_end(s, p + 2));
    }
}

/// Value of a run of decimal digits.
pub open spec fn digits_value(d: Seq<char>) -> nat
    decreases d.len(),
{
    if d.len() == 0 {
        0
    } else {
        digits_value(d.drop_last()) * 10 + (d.last() as int - '0' as int) as nat
    }
}

/// A lexing failure: a message and the position it is reported at.
pub struct LexErr {
    pub msg: Seq<char>,
    pub at: int,
}

pub open spec fn lex_err(msg: Seq<char>, at: int) -> LexErr {
    LexErr { msg, at }
}

/// One lexing step: the token kind and the position just after it.
pub type Step = Result<(TokenKindV, int), LexErr>;

pub open spec fn lex_number(s: Seq<char>, p: int) -> Step {
    let d = digits_end(s, p);
    if d + 1 < s.len() && s[d] == '.' && is_digit(s[d + 1]) {
        let e = digits_end(s, d + 1);
        Ok((TokenKindV::Float(s.subrange(p, e)), e))
    } else {
        let text = s.subrange(p, d);
        if digits_value(text) <= i64::MAX {
            Ok((TokenKindV::Int(digits_value(text) as i64), d))
        } else {
            Err(
                lex_err(
                    "integer literal '"@ + text + "' does not fit in 64 bits"@,
                    p,
                ),
            )
        }
    }
}

pub open spec fn keyword_of(w: Seq<char>) -> Option<Keyword> {
    if w == "function"@ { Some(Keyword::Function) }
    else if w == "var"@ { Some(Keyword::Var) }
    else if w == "const"@ { Some(Keyword::Const) }
    else if w == "if"@ { Some(Keyword::If) }
    else if w == "else"@ { Some(Keyword::Else) }
    else if w == "for"@ { Some(Keyword::For) }
    else if w == "while"@ { Some(Keyword::While) }
    else if w == "in"@ { Some(Keyword::In) }
    else if w == "break"@ { Some(Keyword::Break) }
    else if w == "continue"@ { Some(Keyword::Continue) }
    else if w == "return"@ { Some(Keyword::Return) }
    else if w == "class"@ { Some(Keyword::Class) }
    else if w == "public"@ { Some(Keyword::Public) }
    else if w == "private"@ { Some(Keyword::Private) }
    else if w == "this"@ { Some(Keyword::This) }
    else if w == "true"@ { Some(Keyword::True) }
    else if w == "false"@ { Some(Keyword::False) }
    else if w == "None"@ { Some(Keyword::NoneKw) }
    else if w == "and"@ { Some(Keyword::And) }
    else if w == "or"@ { Some(Keyword::Or) }
    else if w == "not"@ { Some(Keyword::Not) }
    else if w == "div"@ { Some(Keyword::Div) }
    else if w == "try"@ { Some(Keyword::Try) }
    else if w == "catch"@ { Some(Keyword::Catch) }
    else { None }
}

pub open spec fn lex_ident_or_keyword(s: Seq<char>, p: int) -> Step {
    let w = word_end(s, p);
    let name = s.subrange(p, w);
    match keyword_of(name) {
        Some(k) => Ok((TokenKindV::Kw(k), w)),
        None => Ok((TokenKindV::Ident(name), w)),
    }
}

/// The character a backslash escape stands for.
pub open spec fn escape_of(c: char) -> Option<char> {
    if c == 'n' { Some('\n') }
    else if c == 't' { Some('\t') }
    else if c == 'r' { Some('\r') }
    else if c == '0' { Some('\0') }
    else if c == '\\' { Some('\\') }
    else if c == '"' { Some('"') }
    else if c == '\'' { Some('\'') }
    else { None }
}

/// An escape whose backslash sits just before `p`: the character and the
/// position after it.
pub open spec fn lex_escape(s: Seq<char>, p: int) -> Result<(char, int), LexErr> {
    if p >= s.len() {
        Err(lex_err("unterminated escape sequence"@, p))
    } else {
        match escape_of(s[p]) {
            Some(e) => Ok((e, p + 1)),
            None => Err(
                lex_err("unknown escape sequence '\\"@ + seq![s[p]] + "'"@, p + 1),
            ),
        }
    }
}

/// The rest of a string literal from `p` (its opening quote is at `start`):
/// the characters and the position after the closing quote.
pub open spec fn string_body(s: Seq<char>, start: int, p: int) -> Result<(Seq<char>, int), LexErr>
    decreases s.len() - p,
{
    if p < 0 || p >= s.len() {
        Err(lex_err("unterminated string literal"@, start))
    } else if s[p] == '\n' {
        Err(lex_err("unterminated string literal (strings cannot span lines)"@, start))
    } else if s[p] == '"' {
        Ok((Seq::empty(), p + 1))
    } else if s[p] == '\\' {
        match lex_escape(s, p + 1) {
            Err(e) => Err(e),
            Ok((c, q)) => if q == p + 2 {
                match string_body(s, start, q) {
                    Ok((rest, e)) => Ok((seq![c] + rest, e)),
                    Err(e) => Err(e),
                }
            } else {
                Err(e_unreachable())
            },
        }
    } else {
        match string_body(s, start, p + 1) {
            Ok((rest, e)) => Ok((seq![s[p]] + rest, e)),
            Err(e) => Err(e),
        }
    }
}

pub open spec fn e_unreachable() -> LexErr {
    lex_err(Seq::empty(), 0)
}

pub open spec fn lex_string(s: Seq<char>, p: int) -> Step {
    match string_body(s, p, p + 1) {
        Ok((body, e)) => Ok((TokenKindV::Str(body), e)),
        Err(e) => Err(e),
    }
}

/// The character of a char literal whose quote is at `p`, and the position after it.
pub open spec fn lex_char_inner(s: Seq<char>, p: int) -> Result<(char, int), LexErr> {
    let q = p + 1;
    if q >= s.len() {
        Err(lex_err("unterminated char literal"@, p))
    } else if s[q] == '\\' {
        lex_escape(s, q + 1)
    } else if s[q] == '\'' {
        Err(lex_err("empty char literal"@, p))
    } else {
        Ok((s[q], q + 1))
    }
}

pub open spec fn lex_char(s: Seq<char>, p: int) -> Step {
    match lex_char_inner(s, p) {
        Err(e) => Err(e),
        Ok((c, r)) => if 0 <= r < s.len() && s[r] == '\'' {
            if c < ASCII_END {
                Ok((TokenKindV::CharLit(c as u8), r + 1))
            } else {
                Err(
                    lex_err(
                        "'"@ + seq![c]
                            + "' does not fit in a Char: Char is a single byte, so literals must be ASCII (use String for Unicode text)"@,
                        p,
                    ),
                )
            }
        } else {
            Err(lex_err("char literal must contain exactly one character"@, p))
        },
    }
}

pub open spec fn lex_hash_directive(s: Seq<char>, p: int) -> Step {
    let w = word_end(s, p + 1);
    let word = s.subrange(p + 1, w);
    if word == "import"@ {
        Ok((TokenKindV::Kw(Keyword::Import), w))
    } else {
        Err(lex_err("unknown directive '#"@ + word + "' (did you mean '#import'?)"@, p))
    }
}

pub open spec fn lex_intrinsic(s: Seq<char>, p: int) -> Step {
    let w = word_end(s, p + 1);
    if w == p + 1 {
        Err(lex_err("expected intrinsic name after '@'"@, p))
    } else {
        Ok((TokenKindV::Intrinsic(s.subrange(p + 1, w)), w))
    }
}

pub open spec fn sym(x: Symbol, e: int) -> Step {
    Ok((TokenKindV::Sym(x), e))
}

/// Punctuation and operators; two-character forms win over one-character ones.
pub open spec fn lex_symbol(s: Seq<char>, p: int) -> Step {
    let c = s[p];
    let has_next = p + 1 < s.len();
    let n = s[p + 1];
    if c == '(' { sym(Symbol::LParen, p + 1) }
    else if c == ')' { sym(Symbol::RParen, p + 1) }
    else if c == '{' { sym(Symbol::LBrace, p + 1) }
    else if c == '}' { sym(Symbol::RBrace, p + 1) }
    else if c == '[' { sym(Symbol::LBracket, p + 1) }
    else if c == ']' { sym(Symbol::RBracket, p + 1) }
    else if c == ',' { sym(Symbol::Comma, p + 1) }
    else if c == ';' { sym(Symbol::Semicolon, p + 1) }
    else if c == ':' { sym(Symbol::Colon, p + 1) }
    else if c == '.' { sym(Symbol::Dot, p + 1) }
    else if c == '?' { sym(Symbol::Question, p + 1) }
    else if c == '&' { sym(Symbol::Ampersand, p + 1) }
    else if c == '+' {
        if has_next && n == '+' { sym(Symbol::PlusPlus, p + 2) }
        else if has_next && n == '=' { sym(Symbol::PlusEq, p + 2) }
        else { sym(Symbol::Plus, p + 1) }
    } else if c == '-' {
        if has_next && n == '-' { sym(Symbol::MinusMinus, p + 2) }
        else if has_next && n == '=' { sym(Symbol::MinusEq, p + 2) }
        else if has_next && n == '>' { sym(Symbol::Arrow, p + 2) }
        else { sym(Symbol::Minus, p + 1) }
    } else if c == '*' {
        if has_next && n == '=' { sym(Symbol::StarEq, p + 2) } else { sym(Symbol::Star, p + 1) }
    } else if c == '/' {
        if has_next && n == '=' { sym(Symbol::SlashEq, p + 2) } else { sym(Symbol::Slash, p + 1) }
    } else if c == '%' {
        sym(Symbol::Percent, p + 1)
    } else if c == '=' {
        if has_next && n == '=' { sym(Symbol::EqEq, p + 2) } else { sym(Symbol::Assign, p + 1) }
    } else if c == '!' {
        if has_next && n == '=' {
            sym(Symbol::NotEq, p + 2)
        } else {
            Err(lex_err("unexpected '!' (jim uses the 'not' keyword)"@, p + 1))
        }
    } else if c == '<' {
        if has_next && n == '=' { sym(Symbol::LtEq, p + 2) } else { sym(Symbol::Lt, p + 1) }
    } else if c == '>' {
        if has_next && n == '=' { sym(Symbol::GtEq, p + 2) } else { sym(Symbol::Gt, p + 1) }
    } else {
        Err(lex_err("unexpected character '"@ + seq![c] + "'"@, p + 1))
    }
}

/// The token starting at `p` (which is not trivia and not the end).
pub open spec fn next_kind(s: Seq<char>, p: int) -> Step {
    let c = s[p];
    if is_digit(c) {
        lex_number(s, p)
    } else if unicode_alphabetic(c) || c == '_' {
        lex_ident_or_keyword(s, p)
    } else if c == '"' {
        lex_string(s, p)
    } else if c == '\'' {
        lex_char(s, p)
    } else if c == '#' {
        lex_hash_directive(s, p)
    } else if c == '@' {
        lex_intrinsic(s, p)
    } else {
        lex_symbol(s, p)
    }
}

pub open spec fn token_at(s: Seq<char>, k: TokenKindV, p: int) -> TokenV {
    TokenV { kind: k, line: line_col(s, p).0 as u32, col: line_col(s, p).1 as u32 }
}

/// All tokens from position `p` on, ending with `Eof`, or the first error.
pub open spec fn lex_from(s: Seq<char>, p: int) -> Result<Seq<TokenV>, LexErr>
    decreases s.len() - p,
{
    let q = skip_trivia(s, p);
    if q < p || q >= s.len() {
        Ok(seq![token_at(s, TokenKindV::Eof, q)])
    } else {
        match next_kind(s, q) {
            Err(e) => Err(e),
            Ok((k, e)) => if q < e <= s.len() {
                match lex_from(s, e) {
                    Ok(rest) => Ok(seq![token_at(s, k, q)] + rest),
                    Err(x) => Err(x),
                }
            } else {
                Err(e_unreachable())
            },
        }
    }
}

/// The characters the lexer works on: the source without a leading BOM.
pub open spec fn strip_bom(s: Seq<char>) -> Seq<char> {
    if s.len() > 0 && s[0] == '\u{FEFF}' { s.drop_first() } else { s }
}

/// The token stream of a source text, or the first lexical error with its
/// line and column.
pub open spec fn tokenize_spec(src: Seq<char>) -> Result<Seq<TokenV>, crate::errors::JimErrorV> {
    let s = strip_bom(src);
    match lex_from(s, 0) {
        Ok(ts) => Ok(ts),
        Err(e) => Err(crate::errors::JimErrorV {
            msg: e.msg,
            line: line_col(s, e.at).0 as u32,
            col: line_col(s, e.at).1 as u32,
        }),
    }
}

} // verus!

verus! {

/// A token stream that ends with an `Eof` token and holds no other.
pub open spec fn ends_with_eof(ts: Seq<TokenV>) -> bool {
    &&& ts.len() > 0
    &&& ts.last().kind == TokenKindV::Eof
    &&& forall|i: int| 0 <= i < ts.len() - 1 ==> ts[i].kind != TokenKindV::Eof
}

/// No lexing step yields an `Eof` token.
pub proof fn lemma_next_kind_not_eof(s: Seq<char>, p: int)
    ensures
        next_kind(s, p) matches Ok((k, _)) ==> k != TokenKindV::Eof,
{
}

/// Whatever the lexer produces ends with `Eof`, and only there.
pub proof fn lemma_lex_from_ends_with_eof(s: Seq<char>, p: int)
    ensures
        lex_from(s, p) matches Ok(ts) ==> ends_with_eof(ts),
    decreases s.len() - p,
{
    let q = skip_trivia(s, p);
    if q < p || q >= s.len() {
    } else {
        lemma_next_kind_not_eof(s, q);
        match next_kind(s, q) {
            Err(_) => {},
            Ok((k, e)) => {
                if q < e <= s.len() {
                    lemma_lex_from_ends_with_eof(s, e);
                    match lex_from(s, e) {
                        Ok(rest) => {
                            let ts = seq![token_at(s, k, q)] + rest;
                            assert(ts.last() == rest.last());
                            assert forall|i: int| 0 <= i < ts.len() - 1 implies ts[i].kind != TokenKindV::Eof by {
                                if i > 0 {
                                    assert(ts[i] == rest[i - 1]);
                                }
                            }
                        },
                        Err(_) => {},
                    }
                }
            },
        }
    }
}

/// The lexer's output for a whole source ends with its only `Eof` token.
pub proof fn lemma_tokenize_ends_with_eof(src: Seq<char>)
    ensures
        tokenize_spec(src) matches Ok(ts) ==> ends_with_eof(ts),
{
    lemma_lex_from_ends_with_eof(strip_bom(src), 0);
}

/// A symbol token spells exactly the source characters it was read from.
pub proof fn lemma_symbol_spelled(s: Seq<char>, p: int)
    requires
        0 <= p < s.len(),
    ensures
        lex_symbol(s, p) matches Ok((k, e)) ==> (k matches TokenKindV::Sym(x) && p < e <= s.len()
            && s.subrange(p, e) == crate::token::symbol_text(x)),
{
    match lex_symbol(s, p) {
        Ok((TokenKindV::Sym(x), e)) => {
        reveal_strlit("(");
        reveal_strlit(")");
        reveal_strlit("{");
        reveal_strlit("}");
        reveal_strlit("[");
        reveal_strlit("]");
        reveal_strlit(",");
        reveal_strlit(";");
        reveal_strlit(":");
        reveal_strlit(".");
        reveal_strlit("?");
        reveal_strlit("&");
        reveal_strlit("+");
        reveal_strlit("++");
        reveal_strlit("+=");
        reveal_strlit("-");
        reveal_strlit("--");
        reveal_strlit("-=");
        reveal_strlit("->");
        reveal_strlit("*");
        reveal_strlit("*=");
        reveal_strlit("/");
        reveal_strlit("/=");
        reveal_strlit("%");
        reveal_strlit("==");
        reveal_strlit("=");
        reveal_strlit("!=");
        reveal_strlit("<");
        reveal_strlit("<=");
        reveal_strlit(">");
        reveal_strlit(">=");
        assert(s.subrange(p, e) =~= crate::token::symbol_text(x));
        },
        _ => {},
    }
}

/// A word is read as keyword `k` only when it is spelled as `k` is.
pub proof fn lemma_keyword_spelled(w: Seq<char>)
    ensures
        keyword_of(w) matches Some(k) ==> w == crate::token::keyword_text(k),
{
    reveal_strlit("function");
    reveal_strlit("var");
    reveal_strlit("const");
    reveal_strlit("if");
    reveal_strlit("else");
    reveal_strlit("for");
    reveal_strlit("while");
    reveal_strlit("in");
    reveal_strlit("break");
    reveal_strlit("continue");
    reveal_strlit("return");
    reveal_strlit("class");
    reveal_strlit("public");
    reveal_strlit("private");
    reveal_strlit("this");
    reveal_strlit("true");
    reveal_strlit("false");
    reveal_strlit("None");
    reveal_strlit("and");
    reveal_strlit("or");
    reveal_strlit("not");
    reveal_strlit("div");
    reveal_strlit("try");
    reveal_strlit("catch");
}

} // verus!
