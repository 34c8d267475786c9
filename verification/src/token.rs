//! The token model: lexeme shapes produced by the lexer and their textual
//! rendering, one line per token.

use vstd::prelude::*;

use crate::text::{dec_chars, dec_str, string_from_chars};

verus! {

/// A reason why a stretch of source text failed to lex.
#[derive(Debug, Clone, Copy, PartialEq, Eq, Structural)]
pub enum LexicalError {
    UnknownToken(char),
    UnterminatedString,
    InvalidNumber,
}

/// The canonical rendering of a number literal's value: the integer part
/// without leading zeros, a dot, and the fraction without trailing zeros,
/// at least one digit on each side (`65` renders as `65.0`).
#[derive(Debug)]
pub struct Numeric(pub String);

/// The kind of a token, together with the payload the kind carries.
#[derive(Debug)]
pub enum TokenType {
    LeftParen,
    RightParen,
    LeftBrace,
    RightBrace,
    Star,
    Dot,
    Comma,
    Plus,
    Minus,
    Semicolon,
    Equal,
    EqualEqual,
    BangEqual,
    Bang,
    LessEqual,
    Less,
    GreaterEqual,
    Greater,
    Unknown(LexicalError),
    StringLiteral,
    Number(Numeric),
    Identifier,
    Slash,
    Eof,
    And,
    Class,
    Else,
    False,
    For,
    Fun,
    If,
    Nil,
    Or,
    Print,
    Return,
    Super,
    This,
    True,
    Var,
    While,
}

/// A lexed token: its kind, the 1-based line where it begins, and the
/// verbatim source slice that produced it (empty for end of input).
#[derive(Debug)]
pub struct Token {
    /// Kind of the token.
    pub typ: TokenType,
    /// Line number where the token was seen.
    pub ln: u64,
    /// The source fragment the token was read from.
    pub s: String,
}

/// The mathematical model of a token kind: payloads are character
/// sequences rather than heap strings.
pub ghost enum TokenTypeV {
    LeftParen,
    RightParen,
    LeftBrace,
    RightBrace,
    Star,
    Dot,
    Comma,
    Plus,
    Minus,
    Semicolon,
    Equal,
    EqualEqual,
    BangEqual,
    Bang,
    LessEqual,
    Less,
    GreaterEqual,
    Greater,
    Unknown(LexicalError),
    StringLiteral,
    Number(Seq<char>),
    Identifier,
    Slash,
    Eof,
    And,
    Class,
    Else,
    False,
    For,
    Fun,
    If,
    Nil,
    Or,
    Print,
    Return,
    Super,
    This,
    True,
    Var,
    While,
}

/// The mathematical model of a token.
pub ghost struct TokenV {
    pub typ: TokenTypeV,
    pub ln: u64,
    pub s: Seq<char>,
}

impl View for TokenType {
    type V = TokenTypeV;

    open spec fn view(&self) -> TokenTypeV {
        match self {
            TokenType::LeftParen => TokenTypeV::LeftParen,
            TokenType::RightParen => TokenTypeV::RightParen,
            TokenType::LeftBrace => TokenTypeV::LeftBrace,
            TokenType::RightBrace => TokenTypeV::RightBrace,
            TokenType::Star => TokenTypeV::Star,
            TokenType::Dot => TokenTypeV::Dot,
            TokenType::Comma => TokenTypeV::Comma,
            TokenType::Plus => TokenTypeV::Plus,
            TokenType::Minus => TokenTypeV::Minus,
            TokenType::Semicolon => TokenTypeV::Semicolon,
            TokenType::Equal => TokenTypeV::Equal,
            TokenType::EqualEqual => TokenTypeV::EqualEqual,
            TokenType::BangEqual => TokenTypeV::BangEqual,
            TokenType::Bang => TokenTypeV::Bang,
            TokenType::LessEqual => TokenTypeV::LessEqual,
            TokenType::Less => TokenTypeV::Less,
            TokenType::GreaterEqual => TokenTypeV::GreaterEqual,
            TokenType::Greater => TokenTypeV::Greater,
            TokenType::Unknown(e) => TokenTypeV::Unknown(*e),
            TokenType::StringLiteral => TokenTypeV::StringLiteral,
            TokenType::Number(v) => TokenTypeV::Number(v.0@),
            TokenType::Identifier => TokenTypeV::Identifier,
            TokenType::Slash => TokenTypeV::Slash,
            TokenType::Eof => TokenTypeV::Eof,
            TokenType::And => TokenTypeV::And,
            TokenType::Class => TokenTypeV::Class,
            TokenType::Else => TokenTypeV::Else,
            TokenType::False => TokenTypeV::False,
            TokenType::For => TokenTypeV::For,
            TokenType::Fun => TokenTypeV::Fun,
            TokenType::If => TokenTypeV::If,
            TokenType::Nil => TokenTypeV::Nil,
            TokenType::Or => TokenTypeV::Or,
            TokenType::Print => TokenTypeV::Print,
            TokenType::Return => TokenTypeV::Return,
            TokenType::Super => TokenTypeV::Super,
            TokenType::This => TokenTypeV::This,
            TokenType::True => TokenTypeV::True,
            TokenType::Var => TokenTypeV::Var,
            TokenType::While => TokenTypeV::While,
        }
    }
}

impl View for Token {
    type V = TokenV;

    open spec fn view(&self) -> TokenV {
        TokenV { typ: self.typ@, ln: self.ln, s: self.s@ }
    }
}

impl Clone for Numeric {
    /// A copy whose contents equal the original's.
    fn clone(&self) -> (r: Numeric)
        ensures
            r.0@ == self.0@,
    {
        Numeric(self.0.clone())
    }
}

impl Clone for TokenType {
    /// A copy whose model equals the original's.
    fn clone(&self) -> (r: TokenType)
        ensures
            r@ == self@,
    {
        match self {
            TokenType::LeftParen => TokenType::LeftParen,
            TokenType::RightParen => TokenType::RightParen,
            TokenType::LeftBrace => TokenType::LeftBrace,
            TokenType::RightBrace => TokenType::RightBrace,
            TokenType::Star => TokenType::Star,
            TokenType::Dot => TokenType::Dot,
            TokenType::Comma => TokenType::Comma,
            TokenType::Plus => TokenType::Plus,
            TokenType::Minus => TokenType::Minus,
            TokenType::Semicolon => TokenType::Semicolon,
            TokenType::Equal => TokenType::Equal,
            TokenType::EqualEqual => TokenType::EqualEqual,
            TokenType::BangEqual => TokenType::BangEqual,
            TokenType::Bang => TokenType::Bang,
            TokenType::LessEqual => TokenType::LessEqual,
            TokenType::Less => TokenType::Less,
            TokenType::GreaterEqual => TokenType::GreaterEqual,
            TokenType::Greater => TokenType::Greater,
            TokenType::Unknown(e) => TokenType::Unknown(*e),
            TokenType::StringLiteral => TokenType::StringLiteral,
            TokenType::Number(v) => TokenType::Number(v.clone()),
            TokenType::Identifier => TokenType::Identifier,
            TokenType::Slash => TokenType::Slash,
            TokenType::Eof => TokenType::Eof,
            TokenType::And => TokenType::And,
            TokenType::Class => TokenType::Class,
            TokenType::Else => TokenType::Else,
            TokenType::False => TokenType::False,
            TokenType::For => TokenType::For,
            TokenType::Fun => TokenType::Fun,
            TokenType::If => TokenType::If,
            TokenType::Nil => TokenType::Nil,
            TokenType::Or => TokenType::Or,
            TokenType::Print => TokenType::Print,
            TokenType::Return => TokenType::Return,
            TokenType::Super => TokenType::Super,
            TokenType::This => TokenType::This,
            TokenType::True => TokenType::True,
            TokenType::Var => TokenType::Var,
            TokenType::While => TokenType::While,
        }
    }
}

impl Clone for Token {
    /// A copy whose model equals the original's.
    fn clone(&self) -> (r: Token)
        ensures
            r@ == self@,
    {
        Token { typ: self.typ.clone(), ln: self.ln, s: self.s.clone() }
    }
}

/// Structural equality on token kinds, strings compared by contents.
pub open spec fn tt_eq(a: &TokenType, b: &TokenType) -> bool {
    match (a, b) {
        (TokenType::LeftParen, TokenType::LeftParen) => true,
        (TokenType::RightParen, TokenType::RightParen) => true,
        (TokenType::LeftBrace, TokenType::LeftBrace) => true,
        (TokenType::RightBrace, TokenType::RightBrace) => true,
        (TokenType::Star, TokenType::Star) => true,
        (TokenType::Dot, TokenType::Dot) => true,
        (TokenType::Comma, TokenType::Comma) => true,
        (TokenType::Plus, TokenType::Plus) => true,
        (TokenType::Minus, TokenType::Minus) => true,
        (TokenType::Semicolon, TokenType::Semicolon) => true,
        (TokenType::Equal, TokenType::Equal) => true,
        (TokenType::EqualEqual, TokenType::EqualEqual) => true,
        (TokenType::BangEqual, TokenType::BangEqual) => true,
        (TokenType::Bang, TokenType::Bang) => true,
        (TokenType::LessEqual, TokenType::LessEqual) => true,
        (TokenType::Less, TokenType::Less) => true,
        (TokenType::GreaterEqual, TokenType::GreaterEqual) => true,
        (TokenType::Greater, TokenType::Greater) => true,
        (TokenType::Unknown(x), TokenType::Unknown(y)) => x == y,
        (TokenType::StringLiteral, TokenType::StringLiteral) => true,
        (TokenType::Number(x), TokenType::Number(y)) => x.0@ == y.0@,
        (TokenType::Identifier, TokenType::Identifier) => true,
        (TokenType::Slash, TokenType::Slash) => true,
        (TokenType::Eof, TokenType::Eof) => true,
        (TokenType::And, TokenType::And) => true,
        (TokenType::Class, TokenType::Class) => true,
        (TokenType::Else, TokenType::Else) => true,
        (TokenType::False, TokenType::False) => true,
        (TokenType::For, TokenType::For) => true,
        (TokenType::Fun, TokenType::Fun) => true,
        (TokenType::If, TokenType::If) => true,
        (TokenType::Nil, TokenType::Nil) => true,
        (TokenType::Or, TokenType::Or) => true,
        (TokenType::Print, TokenType::Print) => true,
        (TokenType::Return, TokenType::Return) => true,
        (TokenType::Super, TokenType::Super) => true,
        (TokenType::This, TokenType::This) => true,
        (TokenType::True, TokenType::True) => true,
        (TokenType::Var, TokenType::Var) => true,
        (TokenType::While, TokenType::While) => true,
        _ => false,
    }
}

impl PartialEq for Numeric {
    fn eq(&self, other: &Numeric) -> (r: bool) {
        self.0 == other.0
    }
}

impl vstd::std_specs::cmp::PartialEqSpecImpl for Numeric {
    open spec fn obeys_eq_spec() -> bool {
        true
    }

    open spec fn eq_spec(&self, other: &Numeric) -> bool {
        self.0@ == other.0@
    }
}

impl PartialEq for TokenType {
    fn eq(&self, other: &TokenType) -> (r: bool) {
        match (self, other) {
            (TokenType::LeftParen, TokenType::LeftParen) => true,
            (TokenType::RightParen, TokenType::RightParen) => true,
            (TokenType::LeftBrace, TokenType::LeftBrace) => true,
            (TokenType::RightBrace, TokenType::RightBrace) => true,
            (TokenType::Star, TokenType::Star) => true,
            (TokenType::Dot, TokenType::Dot) => true,
            (TokenType::Comma, TokenType::Comma) => true,
            (TokenType::Plus, TokenType::Plus) => true,
            (TokenType::Minus, TokenType::Minus) => true,
            (TokenType::Semicolon, TokenType::Semicolon) => true,
            (TokenType::Equal, TokenType::Equal) => true,
            (TokenType::EqualEqual, TokenType::EqualEqual) => true,
            (TokenType::BangEqual, TokenType::BangEqual) => true,
            (TokenType::Bang, TokenType::Bang) => true,
            (TokenType::LessEqual, TokenType::LessEqual) => true,
            (TokenType::Less, TokenType::Less) => true,
            (TokenType::GreaterEqual, TokenType::GreaterEqual) => true,
            (TokenType::Greater, TokenType::Greater) => true,
            (TokenType::Unknown(x), TokenType::Unknown(y)) => x == y,
            (TokenType::StringLiteral, TokenType::StringLiteral) => true,
            (TokenType::Number(x), TokenType::Number(y)) => x == y,
            (TokenType::Identifier, TokenType::Identifier) => true,
            (TokenType::Slash, TokenType::Slash) => true,
            (TokenType::Eof, TokenType::Eof) => true,
            (TokenType::And, TokenType::And) => true,
            (TokenType::Class, TokenType::Class) => true,
            (TokenType::Else, TokenType::Else) => true,
            (TokenType::False, TokenType::False) => true,
            (TokenType::For, TokenType::For) => true,
            (TokenType::Fun, TokenType::Fun) => true,
            (TokenType::If, TokenType::If) => true,
            (TokenType::Nil, TokenType::Nil) => true,
            (TokenType::Or, TokenType::Or) => true,
            (TokenType::Print, TokenType::Print) => true,
            (TokenType::Return, TokenType::Return) => true,
            (TokenType::Super, TokenType::Super) => true,
            (TokenType::This, TokenType::This) => true,
            (TokenType::True, TokenType::True) => true,
            (TokenType::Var, TokenType::Var) => true,
            (TokenType::While, TokenType::While) => true,
            _ => false,
        }
    }
}

impl vstd::std_specs::cmp::PartialEqSpecImpl for TokenType {
    open spec fn obeys_eq_spec() -> bool {
        true
    }

    open spec fn eq_spec(&self, other: &TokenType) -> bool {
        tt_eq(self, other)
    }
}

/// The message for a lexical error, without the line prefix.
pub open spec fn lex_err_msg(e: LexicalError) -> Seq<char> {
    match e {
        LexicalError::UnknownToken(c) => "Unexpected character: "@.push(c),
        LexicalError::UnterminatedString => "Unterminated string."@,
        LexicalError::InvalidNumber => "Invalid number."@,
    }
}

/// The one-line rendering of a token kind, as the `tokenize` command
/// prints it for kinds whose line does not depend on the lexeme.
pub open spec fn tt_line(t: TokenType) -> Seq<char> {
    match t {
        TokenType::LeftParen => "LEFT_PAREN ( null"@,
        TokenType::RightParen => "RIGHT_PAREN ) null"@,
        TokenType::LeftBrace => "LEFT_BRACE { null"@,
        TokenType::RightBrace => "RIGHT_BRACE } null"@,
        TokenType::Star => "STAR * null"@,
        TokenType::Dot => "DOT . null"@,
        TokenType::Comma => "COMMA , null"@,
        TokenType::Plus => "PLUS + null"@,
        TokenType::Minus => "MINUS - null"@,
        TokenType::Semicolon => "SEMICOLON ; null"@,
        TokenType::Equal => "EQUAL = null"@,
        TokenType::EqualEqual => "EQUAL_EQUAL == null"@,
        TokenType::BangEqual => "BANG_EQUAL != null"@,
        TokenType::Bang => "BANG ! null"@,
        TokenType::LessEqual => "LESS_EQUAL <= null"@,
        TokenType::GreaterEqual => "GREATER_EQUAL >= null"@,
        TokenType::Less => "LESS < null"@,
        TokenType::Greater => "GREATER > null"@,
        TokenType::Slash => "SLASH / null"@,
        TokenType::StringLiteral => "STRING"@,
        TokenType::Identifier => "IDENTIFIER"@,
        TokenType::Number(v) => v.0@,
        TokenType::Unknown(e) => lex_err_msg(e),
        TokenType::Eof => "EOF  null"@,
        TokenType::And => "AND and null"@,
        TokenType::Class => "CLASS class null"@,
        TokenType::Else => "ELSE else null"@,
        TokenType::False => "FALSE false null"@,
        TokenType::For => "FOR for null"@,
        TokenType::Fun => "FUN fun null"@,
        TokenType::If => "IF if null"@,
        TokenType::Nil => "NIL nil null"@,
        TokenType::Or => "OR or null"@,
        TokenType::Print => "PRINT print null"@,
        TokenType::Return => "RETURN return null"@,
        TokenType::Super => "SUPER super null"@,
        TokenType::This => "THIS this null"@,
        TokenType::True => "TRUE true null"@,
        TokenType::Var => "VAR var null"@,
        TokenType::While => "WHILE while null"@,
    }
}

/// The full one-line rendering of a token, as the `tokenize` command
/// prints it.
pub open spec fn token_line(t: Token) -> Seq<char> {
    match t.typ {
        TokenType::StringLiteral => "STRING \""@ + t.s@ + "\" "@ + t.s@,
        TokenType::Number(v) => "NUMBER "@ + t.s@ + " "@ + v.0@,
        TokenType::Identifier => "IDENTIFIER "@ + t.s@ + " null"@,
        TokenType::Unknown(e) => "[line "@ + dec_str(t.ln as nat) + "] Error: "@ + lex_err_msg(e),
        _ => tt_line(t.typ),
    }
}

impl LexicalError {
    /// The message for this lexical error, without the line prefix.
    pub fn render(&self) -> (r: String)
        ensures
            r@ == lex_err_msg(*self),
    {
        match self {
            LexicalError::UnknownToken(c) => {
                let mut s = String::from_str("Unexpected character: ");
                crate::text::char_push(&mut s, *c);
                s
            },
            LexicalError::UnterminatedString => String::from_str("Unterminated string."),
            LexicalError::InvalidNumber => String::from_str("Invalid number."),
        }
    }
}

impl TokenType {
    /// The one-line rendering of this token kind.
    pub fn render(&self) -> (r: String)
        ensures
            r@ == tt_line(*self),
    {
        match self {
            TokenType::LeftParen => String::from_str("LEFT_PAREN ( null"),
            TokenType::RightParen => String::from_str("RIGHT_PAREN ) null"),
            TokenType::LeftBrace => String::from_str("LEFT_BRACE { null"),
            TokenType::RightBrace => String::from_str("RIGHT_BRACE } null"),
            TokenType::Star => String::from_str("STAR * null"),
            TokenType::Dot => String::from_str("DOT . null"),
            TokenType::Comma => String::from_str("COMMA , null"),
            TokenType::Plus => String::from_str("PLUS + null"),
            TokenType::Minus => String::from_str("MINUS - null"),
            TokenType::Semicolon => String::from_str("SEMICOLON ; null"),
            TokenType::Equal => String::from_str("EQUAL = null"),
            TokenType::EqualEqual => String::from_str("EQUAL_EQUAL == null"),
            TokenType::BangEqual => String::from_str("BANG_EQUAL != null"),
            TokenType::Bang => String::from_str("BANG ! null"),
            TokenType::LessEqual => String::from_str("LESS_EQUAL <= null"),
            TokenType::GreaterEqual => String::from_str("GREATER_EQUAL >= null"),
            TokenType::Less => String::from_str("LESS < null"),
            TokenType::Greater => String::from_str("GREATER > null"),
            TokenType::Slash => String::from_str("SLASH / null"),
            TokenType::StringLiteral => String::from_str("STRING"),
            TokenType::Identifier => String::from_str("IDENTIFIER"),
            TokenType::Number(v) => v.0.clone(),
            TokenType::Unknown(e) => e.render(),
            TokenType::Eof => String::from_str("EOF  null"),
            TokenType::And => String::from_str("AND and null"),
            TokenType::Class => String::from_str("CLASS class null"),
            TokenType::Else => String::from_str("ELSE else null"),
            TokenType::False => String::from_str("FALSE false null"),
            TokenType::For => String::from_str("FOR for null"),
            TokenType::Fun => String::from_str("FUN fun null"),
            TokenType::If => String::from_str("IF if null"),
            TokenType::Nil => String::from_str("NIL nil null"),
            TokenType::Or => String::from_str("OR or null"),
            TokenType::Print => String::from_str("PRINT print null"),
            TokenType::Return => String::from_str("RETURN return null"),
            TokenType::Super => String::from_str("SUPER super null"),
            TokenType::This => String::from_str("THIS this null"),
            TokenType::True => String::from_str("TRUE true null"),
            TokenType::Var => String::from_str("VAR var null"),
            TokenType::While => String::from_str("WHILE while null"),
        }
    }
}

impl Token {
    /// Builds a token from its parts.
    pub fn new(typ: TokenType, ln: u64, s: String) -> (r: Token)
        ensures
            r == (Token { typ, ln, s }),
    {
        Token { typ, ln, s }
    }

    /// The full one-line rendering of this token.
    pub fn render(&self) -> (r: String)
        ensures
            r@ == token_line(*self),
    {
        match &self.typ {
            TokenType::StringLiteral => {
                let mut r = String::from_str("STRING \"");
                r.append(self.s.as_str());
                r.append("\" ");
                r.append(self.s.as_str());
                r
            },
            TokenType::Number(v) => {
                let mut r = String::from_str("NUMBER ");
                r.append(self.s.as_str());
                r.append(" ");
                r.append(v.0.as_str());
                r
            },
            TokenType::Identifier => {
                let mut r = String::from_str("IDENTIFIER ");
                r.append(self.s.as_str());
                r.append(" null");
                r
            },
            TokenType::Unknown(e) => {
                let mut r = String::from_str("[line ");
                let digits = dec_chars(self.ln);
                let ds = string_from_chars(&digits);
                r.append(ds.as_str());
                r.append("] Error: ");
                let msg = e.render();
                r.append(msg.as_str());
                r
            },
            _ => self.typ.render(),
        }
    }
}

} // verus!
