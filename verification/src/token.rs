use vstd::prelude::*;

verus! {

/// Reserved words (plus the `#import` directive).
#[derive(Clone, Copy, Debug, PartialEq, Eq, Structural)]
pub enum Keyword {
    Function,
    Var,
    Const,
    If,
    Else,
    For,
    While,
    In,
    Break,
    Continue,
    Return,
    Class,
    Public,
    Private,
    This,
    True,
    False,
    NoneKw,
    And,
    Or,
    Not,
    Div,
    Try,
    Catch,
    Import,
}

/// Punctuation and operators.
#[derive(Clone, Copy, Debug, PartialEq, Eq, Structural)]
pub enum Symbol {
    LParen,
    RParen,
    LBrace,
    RBrace,
    LBracket,
    RBracket,
    Comma,
    Semicolon,
    Colon,
    Dot,
    Question,
    Ampersand,
    Plus,
    PlusPlus,
    PlusEq,
    Minus,
    MinusMinus,
    MinusEq,
    Arrow,
    Star,
    StarEq,
    Slash,
    SlashEq,
    Percent,
    EqEq,
    Assign,
    NotEq,
    Lt,
    LtEq,
    Gt,
    GtEq,
}

/// What a token is. A float literal keeps its source spelling (`digits.digits`).
#[derive(Debug, Clone)]
pub enum TokenKind {
    Eof,
    Int(i64),
    Float(String),
    Str(String),
    CharLit(u8),
    Ident(String),
    Intrinsic(String),
    Kw(Keyword),
    Sym(Symbol),
}

pub enum TokenKindV {
    Eof,
    Int(i64),
    Float(Seq<char>),
    Str(Seq<char>),
    CharLit(u8),
    Ident(Seq<char>),
    Intrinsic(Seq<char>),
    Kw(Keyword),
    Sym(Symbol),
}

impl View for TokenKind {
    type V = TokenKindV;

    open spec fn view(&self) -> TokenKindV {
        match self {
            TokenKind::Eof => TokenKindV::Eof,
            TokenKind::Int(v) => TokenKindV::Int(*v),
            TokenKind::Float(s) => TokenKindV::Float(s@),
            TokenKind::Str(s) => TokenKindV::Str(s@),
            TokenKind::CharLit(c) => TokenKindV::CharLit(*c),
            TokenKind::Ident(s) => TokenKindV::Ident(s@),
            TokenKind::Intrinsic(s) => TokenKindV::Intrinsic(s@),
            TokenKind::Kw(k) => TokenKindV::Kw(*k),
            TokenKind::Sym(s) => TokenKindV::Sym(*s),
        }
    }
}

/// A token and where it starts (1-based line and column).
#[derive(Debug, Clone)]
pub struct Token {
    pub kind: TokenKind,
    pub line: u32,
    pub col: u32,
}

pub struct TokenV {
    pub kind: TokenKindV,
    pub line: u32,
    pub col: u32,
}

impl View for Token {
    type V = TokenV;

    open spec fn view(&self) -> TokenV {
        TokenV { kind: self.kind@, line: self.line, col: self.col }
    }
}

pub open spec fn tokens_view(v: Seq<Token>) -> Seq<TokenV> {
    v.map_values(|t: Token| t@)
}

/// Two kinds are "the same kind of token" when they are the same variant;
/// keywords and symbols also compare the word or symbol itself.
pub open spec fn same_kind(a: TokenKindV, b: TokenKindV) -> bool {
    match (a, b) {
        (TokenKindV::Eof, TokenKindV::Eof) => true,
        (TokenKindV::Int(_), TokenKindV::Int(_)) => true,
        (TokenKindV::Float(_), TokenKindV::Float(_)) => true,
        (TokenKindV::Str(_), TokenKindV::Str(_)) => true,
        (TokenKindV::CharLit(_), TokenKindV::CharLit(_)) => true,
        (TokenKindV::Ident(_), TokenKindV::Ident(_)) => true,
        (TokenKindV::Intrinsic(_), TokenKindV::Intrinsic(_)) => true,
        (TokenKindV::Kw(x), TokenKindV::Kw(y)) => x == y,
        (TokenKindV::Sym(x), TokenKindV::Sym(y)) => x == y,
        _ => false,
    }
}

impl TokenKind {
    pub fn same_kind(&self, other: &TokenKind) -> (b: bool)
        ensures
            b == same_kind(self@, other@),
    {
        match (self, other) {
            (TokenKind::Eof, TokenKind::Eof) => true,
            (TokenKind::Int(_), TokenKind::Int(_)) => true,
            (TokenKind::Float(_), TokenKind::Float(_)) => true,
            (TokenKind::Str(_), TokenKind::Str(_)) => true,
            (TokenKind::CharLit(_), TokenKind::CharLit(_)) => true,
            (TokenKind::Ident(_), TokenKind::Ident(_)) => true,
            (TokenKind::Intrinsic(_), TokenKind::Intrinsic(_)) => true,
            (TokenKind::Kw(x), TokenKind::Kw(y)) => *x == *y,
            (TokenKind::Sym(x), TokenKind::Sym(y)) => *x == *y,
            _ => false,
        }
    }

    pub fn copy(&self) -> (k: TokenKind)
        ensures
            k@ == self@,
    {
        match self {
            TokenKind::Eof => TokenKind::Eof,
            TokenKind::Int(v) => TokenKind::Int(*v),
            TokenKind::Float(s) => TokenKind::Float(s.clone()),
            TokenKind::Str(s) => TokenKind::Str(s.clone()),
            TokenKind::CharLit(c) => TokenKind::CharLit(*c),
            TokenKind::Ident(s) => TokenKind::Ident(s.clone()),
            TokenKind::Intrinsic(s) => TokenKind::Intrinsic(s.clone()),
            TokenKind::Kw(k) => TokenKind::Kw(*k),
            TokenKind::Sym(s) => TokenKind::Sym(*s),
        }
    }
}

impl Token {
    pub fn copy(&self) -> (t: Token)
        ensures
            t@ == self@,
    {
        Token { kind: self.kind.copy(), line: self.line, col: self.col }
    }
}

} // verus!

verus! {
/// How a keyword is spelled in source.
pub open spec fn keyword_text(k: Keyword) -> Seq<char> {
    match k {
        Keyword::Function => "function"@,
        Keyword::Var => "var"@,
        Keyword::Const => "const"@,
        Keyword::If => "if"@,
        Keyword::Else => "else"@,
        Keyword::For => "for"@,
        Keyword::While => "while"@,
        Keyword::In => "in"@,
        Keyword::Break => "break"@,
        Keyword::Continue => "continue"@,
        Keyword::Return => "return"@,
        Keyword::Class => "class"@,
        Keyword::Public => "public"@,
        Keyword::Private => "private"@,
        Keyword::This => "this"@,
        Keyword::True => "true"@,
        Keyword::False => "false"@,
        Keyword::NoneKw => "None"@,
        Keyword::And => "and"@,
        Keyword::Or => "or"@,
        Keyword::Not => "not"@,
        Keyword::Div => "div"@,
        Keyword::Try => "try"@,
        Keyword::Catch => "catch"@,
        Keyword::Import => "#import"@,
    }
}

/// How a symbol is spelled in source.
pub open spec fn symbol_text(s: Symbol) -> Seq<char> {
    match s {
        Symbol::LParen => "("@,
        Symbol::RParen => ")"@,
        Symbol::LBrace => "{"@,
        Symbol::RBrace => "}"@,
        Symbol::LBracket => "["@,
        Symbol::RBracket => "]"@,
        Symbol::Comma => ","@,
        Symbol::Semicolon => ";"@,
        Symbol::Colon => ":"@,
        Symbol::Dot => "."@,
        Symbol::Question => "?"@,
        Symbol::Ampersand => "&"@,
        Symbol::Plus => "+"@,
        Symbol::PlusPlus => "++"@,
        Symbol::PlusEq => "+="@,
        Symbol::Minus => "-"@,
        Symbol::MinusMinus => "--"@,
        Symbol::MinusEq => "-="@,
        Symbol::Arrow => "->"@,
        Symbol::Star => "*"@,
        Symbol::StarEq => "*="@,
        Symbol::Slash => "/"@,
        Symbol::SlashEq => "/="@,
        Symbol::Percent => "%"@,
        Symbol::EqEq => "=="@,
        Symbol::Assign => "="@,
        Symbol::NotEq => "!="@,
        Symbol::Lt => "<"@,
        Symbol::LtEq => "<="@,
        Symbol::Gt => ">"@,
        Symbol::GtEq => ">="@,
    }
}

impl Keyword {
    /// The keyword as written.
    pub fn text(&self) -> (s: &'static str)
        ensures
            s@ == keyword_text(*self),
    {
        match self {
            Keyword::Function => "function",
            Keyword::Var => "var",
            Keyword::Const => "const",
            Keyword::If => "if",
            Keyword::Else => "else",
            Keyword::For => "for",
            Keyword::While => "while",
            Keyword::In => "in",
            Keyword::Break => "break",
            Keyword::Continue => "continue",
            Keyword::Return => "return",
            Keyword::Class => "class",
            Keyword::Public => "public",
            Keyword::Private => "private",
            Keyword::This => "this",
            Keyword::True => "true",
            Keyword::False => "false",
            Keyword::NoneKw => "None",
            Keyword::And => "and",
            Keyword::Or => "or",
            Keyword::Not => "not",
            Keyword::Div => "div",
            Keyword::Try => "try",
            Keyword::Catch => "catch",
            Keyword::Import => "#import",
        }
    }
}

impl Symbol {
    /// The symbol as written.
    pub fn text(&self) -> (s: &'static str)
        ensures
            s@ == symbol_text(*self),
    {
        match self {
            Symbol::LParen => "(",
            Symbol::RParen => ")",
            Symbol::LBrace => "{",
            Symbol::RBrace => "}",
            Symbol::LBracket => "[",
            Symbol::RBracket => "]",
            Symbol::Comma => ",",
            Symbol::Semicolon => ";",
            Symbol::Colon => ":",
            Symbol::Dot => ".",
            Symbol::Question => "?",
            Symbol::Ampersand => "&",
            Symbol::Plus => "+",
            Symbol::PlusPlus => "++",
            Symbol::PlusEq => "+=",
            Symbol::Minus => "-",
            Symbol::MinusMinus => "--",
            Symbol::MinusEq => "-=",
            Symbol::Arrow => "->",
            Symbol::Star => "*",
            Symbol::StarEq => "*=",
            Symbol::Slash => "/",
            Symbol::SlashEq => "/=",
            Symbol::Percent => "%",
            Symbol::EqEq => "==",
            Symbol::Assign => "=",
            Symbol::NotEq => "!=",
            Symbol::Lt => "<",
            Symbol::LtEq => "<=",
            Symbol::Gt => ">",
            Symbol::GtEq => ">=",
        }
    }
}

/// A token kind as named in diagnostics ("expected ... but found ...").
pub open spec fn describe_spec(k: TokenKindV) -> Seq<char> {
    match k {
        TokenKindV::Eof => "end of file"@,
        TokenKindV::Int(_) => "an integer literal"@,
        TokenKindV::Float(_) => "a float literal"@,
        TokenKindV::Str(_) => "a string literal"@,
        TokenKindV::CharLit(_) => "a character literal"@,
        TokenKindV::Ident(n) => "identifier '"@ + n + "'"@,
        TokenKindV::Intrinsic(n) => "intrinsic '@"@ + n + "'"@,
        TokenKindV::Kw(w) => "'"@ + keyword_text(w) + "'"@,
        TokenKindV::Sym(s) => "'"@ + symbol_text(s) + "'"@,
    }
}

impl TokenKind {
    /// This kind as named in diagnostics.
    pub fn describe(&self) -> (s: String)
        ensures
            s@ == describe_spec(self@),
    {
        match self {
            TokenKind::Eof => crate::text::lit_string("end of file"),
            TokenKind::Int(_) => crate::text::lit_string("an integer literal"),
            TokenKind::Float(_) => crate::text::lit_string("a float literal"),
            TokenKind::Str(_) => crate::text::lit_string("a string literal"),
            TokenKind::CharLit(_) => crate::text::lit_string("a character literal"),
            TokenKind::Ident(n) => crate::text::framed("identifier '", n.as_str(), "'"),
            TokenKind::Intrinsic(n) => crate::text::framed("intrinsic '@", n.as_str(), "'"),
            TokenKind::Kw(w) => crate::text::framed("'", w.text(), "'"),
            TokenKind::Sym(s) => crate::text::framed("'", s.text(), "'"),
        }
    }
}

} // verus!
