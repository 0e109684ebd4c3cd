//! Tokens of the Monkey language: a kind tag plus the literal lexeme the
//! token was scanned from.

use vstd::prelude::*;

verus! {

/// The closed set of token kinds the lexer can produce.
#[allow(non_camel_case_types)]
#[derive(Debug, Hash, PartialEq, Eq, Clone, Copy, Structural)]
pub enum TokenType {
    ILLEGAL,
    EOF,
    IDENT,
    INT,
    STRING,
    ASSIGN,
    PLUS,
    MINUS,
    ASTERISK,
    SLASH,
    BANG,
    MODULO,
    LT,
    RT,
    EQ,
    NOT_EQ,
    COMMA,
    SEMICOLON,
    LPAREN,
    RPAREN,
    LBRACE,
    RBRACE,
    DOUBLE_QUOTE,
    FUNCTION,
    LET,
    TRUE,
    FALSE,
    RETURN,
    IF,
    ELSE,
}

/// Mathematical model of a token: its kind and the characters of its
/// literal.
pub struct TokenV {
    pub token_type: TokenType,
    pub literal: Seq<char>,
}

/// A token as produced by the lexer. The literal holds the surface lexeme
/// (`"=="`, `"+"`, the identifier's characters); the end-of-input token
/// carries a single NUL character.
#[derive(Debug)]
pub struct Token {
    pub token_type: TokenType,
    pub literal: String,
}

impl View for Token {
    type V = TokenV;

    open spec fn view(&self) -> TokenV {
        TokenV { token_type: self.token_type, literal: self.literal@ }
    }
}

impl Token {
    pub fn new(token_type: TokenType, literal: String) -> (t: Token)
        ensures
            t@ == (TokenV { token_type, literal: literal@ }),
    {
        Token { token_type, literal }
    }

    /// A copy of this token equal to it in the model.
    pub fn duplicate(&self) -> (t: Token)
        ensures
            t@ == self@,
    {
        Token { token_type: self.token_type, literal: self.literal.clone() }
    }
}

/// The keyword table: the token kind a whole alphabetic run denotes.
/// Runs that are not keywords are identifiers.
pub open spec fn spec_lookup_ident(s: Seq<char>) -> TokenType {
    if s == "fn"@ {
        TokenType::FUNCTION
    } else if s == "let"@ {
        TokenType::LET
    } else if s == "true"@ {
        TokenType::TRUE
    } else if s == "false"@ {
        TokenType::FALSE
    } else if s == "return"@ {
        TokenType::RETURN
    } else if s == "if"@ {
        TokenType::IF
    } else if s == "else"@ {
        TokenType::ELSE
    } else {
        TokenType::IDENT
    }
}

pub fn lookup_ident(ident: &str) -> (t: TokenType)
    ensures
        t == spec_lookup_ident(ident@),
{
    if crate::strutil::str_eq(ident, "fn") {
        TokenType::FUNCTION
    } else if crate::strutil::str_eq(ident, "let") {
        TokenType::LET
    } else if crate::strutil::str_eq(ident, "true") {
        TokenType::TRUE
    } else if crate::strutil::str_eq(ident, "false") {
        TokenType::FALSE
    } else if crate::strutil::str_eq(ident, "return") {
        TokenType::RETURN
    } else if crate::strutil::str_eq(ident, "if") {
        TokenType::IF
    } else if crate::strutil::str_eq(ident, "else") {
        TokenType::ELSE
    } else {
        TokenType::IDENT
    }
}

/// The printed name of a token kind, as it appears in parser error
/// messages.
pub open spec fn spec_token_type_name(t: TokenType) -> Seq<char> {
    match t {
        TokenType::ILLEGAL => "ILLEGAL"@,
        TokenType::EOF => "EOF"@,
        TokenType::IDENT => "IDENT"@,
        TokenType::INT => "INT"@,
        TokenType::STRING => "STRING"@,
        TokenType::ASSIGN => "ASSIGN"@,
        TokenType::PLUS => "PLUS"@,
        TokenType::MINUS => "MINUS"@,
        TokenType::ASTERISK => "ASTERISK"@,
        TokenType::SLASH => "SLASH"@,
        TokenType::BANG => "BANG"@,
        TokenType::MODULO => "MODULO"@,
        TokenType::LT => "LT"@,
        TokenType::RT => "RT"@,
        TokenType::EQ => "EQ"@,
        TokenType::NOT_EQ => "NOT_EQ"@,
        TokenType::COMMA => "COMMA"@,
        TokenType::SEMICOLON => "SEMICOLON"@,
        TokenType::LPAREN => "LPAREN"@,
        TokenType::RPAREN => "RPAREN"@,
        TokenType::LBRACE => "LBRACE"@,
        TokenType::RBRACE => "RBRACE"@,
        TokenType::DOUBLE_QUOTE => "DOUBLE_QUOTE"@,
        TokenType::FUNCTION => "FUNCTION"@,
        TokenType::LET => "LET"@,
        TokenType::TRUE => "TRUE"@,
        TokenType::FALSE => "FALSE"@,
        TokenType::RETURN => "RETURN"@,
        TokenType::IF => "IF"@,
        TokenType::ELSE => "ELSE"@,
    }
}

pub fn token_type_name(t: TokenType) -> (s: &'static str)
    ensures
        s@ == spec_token_type_name(t),
{
    match t {
        TokenType::ILLEGAL => "ILLEGAL",
        TokenType::EOF => "EOF",
        TokenType::IDENT => "IDENT",
        TokenType::INT => "INT",
        TokenType::STRING => "STRING",
        TokenType::ASSIGN => "ASSIGN",
        TokenType::PLUS => "PLUS",
        TokenType::MINUS => "MINUS",
        TokenType::ASTERISK => "ASTERISK",
        TokenType::SLASH => "SLASH",
        TokenType::BANG => "BANG",
        TokenType::MODULO => "MODULO",
        TokenType::LT => "LT",
        TokenType::RT => "RT",
        TokenType::EQ => "EQ",
        TokenType::NOT_EQ => "NOT_EQ",
        TokenType::COMMA => "COMMA",
        TokenType::SEMICOLON => "SEMICOLON",
        TokenType::LPAREN => "LPAREN",
        TokenType::RPAREN => "RPAREN",
        TokenType::LBRACE => "LBRACE",
        TokenType::RBRACE => "RBRACE",
        TokenType::DOUBLE_QUOTE => "DOUBLE_QUOTE",
        TokenType::FUNCTION => "FUNCTION",
        TokenType::LET => "LET",
        TokenType::TRUE => "TRUE",
        TokenType::FALSE => "FALSE",
        TokenType::RETURN => "RETURN",
        TokenType::IF => "IF",
        TokenType::ELSE => "ELSE",
    }
}

} // verus!
