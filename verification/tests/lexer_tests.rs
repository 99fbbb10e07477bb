use jimc::lexer::Lexer;
use jimc::token::{Keyword, Symbol, Token, TokenKind};

fn kinds(src: &str) -> Vec<TokenKind> {
    let toks: Vec<Token> = Lexer::new(src).tokenize().expect("lexes");
    toks.into_iter().map(|t| t.kind).collect()
}

fn lex_error(src: &str) -> (String, u32, u32) {
    let e = Lexer::new(src).tokenize().expect_err("should fail");
    (e.msg, e.line, e.col)
}

#[test]
fn empty_source_is_just_eof() {
    let toks = Lexer::new("").tokenize().unwrap();
    assert_eq!(toks.len(), 1);
    assert!(matches!(toks[0].kind, TokenKind::Eof));
    assert_eq!((toks[0].line, toks[0].col), (1, 1));
}

#[test]
fn keywords_identifiers_and_symbols() {
    let k = kinds("function main() -> Integer { return 0; }");
    assert!(matches!(k[0], TokenKind::Kw(Keyword::Function)));
    assert!(matches!(&k[1], TokenKind::Ident(n) if n == "main"));
    assert!(matches!(k[2], TokenKind::Sym(Symbol::LParen)));
    assert!(matches!(k[3], TokenKind::Sym(Symbol::RParen)));
    assert!(matches!(k[4], TokenKind::Sym(Symbol::Arrow)));
    assert!(matches!(&k[5], TokenKind::Ident(n) if n == "Integer"));
    assert!(matches!(k[6], TokenKind::Sym(Symbol::LBrace)));
    assert!(matches!(k[7], TokenKind::Kw(Keyword::Return)));
    assert!(matches!(k[8], TokenKind::Int(0)));
    assert!(matches!(k[9], TokenKind::Sym(Symbol::Semicolon)));
    assert!(matches!(k[10], TokenKind::Sym(Symbol::RBrace)));
    assert!(matches!(k[11], TokenKind::Eof));
    assert_eq!(k.len(), 12);
}

#[test]
fn two_character_operators() {
    let k = kinds("++ += -- -= -> *= /= == != <= >= < > =");
    let want = [
        Symbol::PlusPlus, Symbol::PlusEq, Symbol::MinusMinus, Symbol::MinusEq, Symbol::Arrow,
        Symbol::StarEq, Symbol::SlashEq, Symbol::EqEq, Symbol::NotEq, Symbol::LtEq,
        Symbol::GtEq, Symbol::Lt, Symbol::Gt, Symbol::Assign,
    ];
    for (i, s) in want.iter().enumerate() {
        assert!(matches!(&k[i], TokenKind::Sym(x) if x == s), "token {}", i);
    }
}

#[test]
fn numbers_floats_and_method_calls_on_ints() {
    let k = kinds("42 3.25 1.to_string");
    assert!(matches!(k[0], TokenKind::Int(42)));
    assert!(matches!(&k[1], TokenKind::Float(t) if t == "3.25"));
    assert!(matches!(k[2], TokenKind::Int(1)));
    assert!(matches!(k[3], TokenKind::Sym(Symbol::Dot)));
    assert!(matches!(&k[4], TokenKind::Ident(n) if n == "to_string"));
}

#[test]
fn largest_integer_fits_and_one_more_does_not() {
    let k = kinds("9223372036854775807");
    assert!(matches!(k[0], TokenKind::Int(i64::MAX)));
    let (msg, line, col) = lex_error("  9223372036854775808");
    assert_eq!(msg, "integer literal '9223372036854775808' does not fit in 64 bits");
    assert_eq!((line, col), (1, 3));
}

#[test]
fn strings_with_escapes() {
    let k = kinds(r#""a\tb\n\"q\"\\""#);
    assert!(matches!(&k[0], TokenKind::Str(s) if s == "a\tb\n\"q\"\\"));
}

#[test]
fn unterminated_and_multiline_strings_fail() {
    assert_eq!(lex_error("\"abc").0, "unterminated string literal");
    assert_eq!(
        lex_error("x = \"ab\ncd\"").0,
        "unterminated string literal (strings cannot span lines)"
    );
    assert_eq!(lex_error("\"a\\q\"").0, "unknown escape sequence '\\q'");
}

#[test]
fn char_literals() {
    let k = kinds("'a' '\\n' '\\''");
    assert!(matches!(k[0], TokenKind::CharLit(b'a')));
    assert!(matches!(k[1], TokenKind::CharLit(b'\n')));
    assert!(matches!(k[2], TokenKind::CharLit(b'\'')));
    assert_eq!(lex_error("''").0, "empty char literal");
    assert_eq!(lex_error("'ab'").0, "char literal must contain exactly one character");
    assert_eq!(
        lex_error("'é'").0,
        "'é' does not fit in a Char: Char is a single byte, so literals must be ASCII (use String for Unicode text)"
    );
}

#[test]
fn directives_and_intrinsics() {
    let k = kinds("#import <io>\n@buf_alloc");
    assert!(matches!(k[0], TokenKind::Kw(Keyword::Import)));
    assert!(matches!(k[1], TokenKind::Sym(Symbol::Lt)));
    assert!(matches!(&k[2], TokenKind::Ident(n) if n == "io"));
    assert!(matches!(k[3], TokenKind::Sym(Symbol::Gt)));
    assert!(matches!(&k[4], TokenKind::Intrinsic(n) if n == "buf_alloc"));
    assert_eq!(lex_error("#include").0, "unknown directive '#include' (did you mean '#import'?)");
    assert_eq!(lex_error("@ x").0, "expected intrinsic name after '@'");
}

#[test]
fn bang_and_stray_characters_are_errors() {
    let (msg, line, col) = lex_error("x\n  !y");
    assert_eq!(msg, "unexpected '!' (jim uses the 'not' keyword)");
    assert_eq!((line, col), (2, 4));
    assert_eq!(lex_error("$").0, "unexpected character '$'");
}

#[test]
fn comments_and_positions() {
    let toks = Lexer::new("// hello\n  var x").tokenize().unwrap();
    assert!(matches!(toks[0].kind, TokenKind::Kw(Keyword::Var)));
    assert_eq!((toks[0].line, toks[0].col), (2, 3));
    assert_eq!((toks[1].line, toks[1].col), (2, 7));
    assert_eq!((toks[2].line, toks[2].col), (2, 8));
}

#[test]
fn byte_order_mark_is_skipped() {
    let toks = Lexer::new("\u{FEFF}var").tokenize().unwrap();
    assert!(matches!(toks[0].kind, TokenKind::Kw(Keyword::Var)));
    assert_eq!(toks[0].col, 1);
}

#[test]
fn output_ends_with_a_single_eof() {
    let toks = Lexer::new("a b c 1 2 3 ; ;").tokenize().unwrap();
    let n = toks.len();
    assert!(matches!(toks[n - 1].kind, TokenKind::Eof));
    assert_eq!(toks.iter().filter(|t| matches!(t.kind, TokenKind::Eof)).count(), 1);
}

#[test]
fn describe_names_tokens_for_diagnostics() {
    assert_eq!(TokenKind::Eof.describe(), "end of file");
    assert_eq!(TokenKind::Ident("x".to_string()).describe(), "identifier 'x'");
    assert_eq!(TokenKind::Kw(Keyword::Function).describe(), "'function'");
    assert_eq!(TokenKind::Sym(Symbol::Arrow).describe(), "'->'");
    assert_eq!(TokenKind::Intrinsic("panic".to_string()).describe(), "intrinsic '@panic'");
}
