//! Tokens as the parser and evaluator consume them.
//!
//! Scanning (source text to tokens) is an external collaborator; the
//! library only consumes tokens, so a token here is a plain record: a kind,
//! the lexeme text, an optional literal payload, and a source line for
//! error reports.

use vstd::prelude::*;

verus! {

/// The kind of a token. `Equals` is the `==` operator; `Assign` is `=`.
#[derive(Debug, Clone, Copy, PartialEq, Eq, Structural)]
pub enum TokenType {
    LeftParen,
    RightParen,
    LeftBrace,
    RightBrace,
    Comma,
    Dot,
    Minus,
    Plus,
    Semicolon,
    Slash,
    Star,
    Bang,
    BangEqual,
    Assign,
    Equals,
    Greater,
    GreaterEqual,
    Less,
    LessEqual,
    Identifier,
    StringLit,
    Number,
    And,
    Or,
    True,
    False,
    Nil,
    Var,
    Fun,
    Return,
    If,
    Else,
    While,
    Print,
    Break,
    Eof,
}

/// A literal payload carried by a `Number`, `StringLit`, `True`, `False`
/// or `Nil` token. Numbers are IEEE-754 double bit patterns.
#[derive(Debug, PartialEq)]
pub enum Literal {
    Num(u64),
    Str(String),
    Bool(bool),
    Nil,
}

impl Clone for Literal {
    /// An exact copy of the literal.
    fn clone(&self) -> (r: Self)
        ensures
            r == *self,
    {
        match self {
            Literal::Num(n) => Literal::Num(*n),
            Literal::Str(s) => Literal::Str(s.clone()),
            Literal::Bool(b) => Literal::Bool(*b),
            Literal::Nil => Literal::Nil,
        }
    }
}

/// A single token.
#[derive(Debug, PartialEq)]
pub struct Token {
    pub ttype: TokenType,
    pub lexeme: String,
    pub literal: Option<Literal>,
    pub line: usize,
}

impl Token {
    /// Builds a token from its parts.
    pub fn new(ttype: TokenType, lexeme: String, literal: Option<Literal>, line: usize) -> (r:
        Token)
        ensures
            r == (Token { ttype, lexeme, literal, line }),
    {
        Token { ttype, lexeme, literal, line }
    }

    /// An exact copy of the token.
    pub fn dup(&self) -> (r: Token)
        ensures
            r == *self,
    {
        let literal = match &self.literal {
            Some(l) => Some(l.clone()),
            None => None,
        };
        Token { ttype: self.ttype, lexeme: self.lexeme.clone(), literal, line: self.line }
    }

    /// Whether the token has the given kind.
    pub fn is(&self, ttype: TokenType) -> (r: bool)
        ensures
            r == (self.ttype == ttype),
    {
        self.ttype == ttype
    }

    /// The token's kind.
    pub fn token_type(&self) -> (r: TokenType)
        ensures
            r == self.ttype,
    {
        self.ttype
    }

    /// The lexeme text of the token.
    pub fn as_string(&self) -> (r: &String)
        ensures
            r == self.lexeme,
    {
        &self.lexeme
    }
}

} // verus!
