//! Lexical tokens, as handed to the parser by an external lexer, together
//! with their mathematical model.

use vstd::prelude::*;

verus! {

/// One lexical unit of the source language.  The parser treats a `Vec<Token>`
/// as an immutable, finite, random-access sequence; it never mutates or
/// reorders it.  Literal payloads (identifier names, string bodies, number
/// texts) are carried as owned strings.
#[derive(Debug)]
pub enum Token {
    IDENTIFIER(String),
    STRING(String),
    NUMBER(String),
    U32,
    I32,
    BOOL,
    FN,
    TYPE,
    TRUE,
    FALSE,
    EQUAL,
    PLUS,
    MINUS,
    STAR,
    DIV,
    LPAREN,
    RPAREN,
    LCURLY,
    RCURLY,
}

/// The mathematical value of a token: the same discriminants, with every
/// literal payload abstracted to its character sequence.  Contracts speak of
/// tokens through this type, so two tokens are interchangeable exactly when
/// their kinds and payload texts agree.
pub enum SpecToken {
    IDENTIFIER(Seq<char>),
    STRING(Seq<char>),
    NUMBER(Seq<char>),
    U32,
    I32,
    BOOL,
    FN,
    TYPE,
    TRUE,
    FALSE,
    EQUAL,
    PLUS,
    MINUS,
    STAR,
    DIV,
    LPAREN,
    RPAREN,
    LCURLY,
    RCURLY,
}

impl View for Token {
    type V = SpecToken;

    open spec fn view(&self) -> SpecToken {
        match self {
            Token::IDENTIFIER(s) => SpecToken::IDENTIFIER(s@),
            Token::STRING(s) => SpecToken::STRING(s@),
            Token::NUMBER(s) => SpecToken::NUMBER(s@),
            Token::U32 => SpecToken::U32,
            Token::I32 => SpecToken::I32,
            Token::BOOL => SpecToken::BOOL,
            Token::FN => SpecToken::FN,
            Token::TYPE => SpecToken::TYPE,
            Token::TRUE => SpecToken::TRUE,
            Token::FALSE => SpecToken::FALSE,
            Token::EQUAL => SpecToken::EQUAL,
            Token::PLUS => SpecToken::PLUS,
            Token::MINUS => SpecToken::MINUS,
            Token::STAR => SpecToken::STAR,
            Token::DIV => SpecToken::DIV,
            Token::LPAREN => SpecToken::LPAREN,
            Token::RPAREN => SpecToken::RPAREN,
            Token::LCURLY => SpecToken::LCURLY,
            Token::RCURLY => SpecToken::RCURLY,
        }
    }
}

/// A token that opens a typed declaration when it follows an identifier:
/// one of the primitive-type keywords, the function-type keyword, or the
/// meta-type keyword.
pub open spec fn is_type_keyword(t: SpecToken) -> bool {
    match t {
        SpecToken::U32 => true,
        SpecToken::I32 => true,
        SpecToken::BOOL => true,
        SpecToken::TYPE => true,
        SpecToken::FN => true,
        _ => false,
    }
}

impl Token {
    /// Whether the two tokens have the same kind and, for literal-carrying
    /// kinds, the same payload text.
    pub fn same(&self, other: &Token) -> (r: bool)
        ensures
            r == (self@ == other@),
    {
        match (self, other) {
            (Token::IDENTIFIER(a), Token::IDENTIFIER(b)) => a.eq(b),
            (Token::STRING(a), Token::STRING(b)) => a.eq(b),
            (Token::NUMBER(a), Token::NUMBER(b)) => a.eq(b),
            (Token::U32, Token::U32) => true,
            (Token::I32, Token::I32) => true,
            (Token::BOOL, Token::BOOL) => true,
            (Token::FN, Token::FN) => true,
            (Token::TYPE, Token::TYPE) => true,
            (Token::TRUE, Token::TRUE) => true,
            (Token::FALSE, Token::FALSE) => true,
            (Token::EQUAL, Token::EQUAL) => true,
            (Token::PLUS, Token::PLUS) => true,
            (Token::MINUS, Token::MINUS) => true,
            (Token::STAR, Token::STAR) => true,
            (Token::DIV, Token::DIV) => true,
            (Token::LPAREN, Token::LPAREN) => true,
            (Token::RPAREN, Token::RPAREN) => true,
            (Token::LCURLY, Token::LCURLY) => true,
            (Token::RCURLY, Token::RCURLY) => true,
            _ => false,
        }
    }
}

} // verus!
