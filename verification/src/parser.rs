//! The recursive-descent expression parser.
//!
//! Parsing sits at the edge of the semantic core: it consumes a token
//! stream that ends with an end-of-input token and produces expression
//! nodes for the resolver and interpreter to work on. The grammar
//! covered here is the binary/unary/literal/grouping expression ladder;
//! its functions promise that they never move backwards in the stream
//! and never touch the tokens themselves.

use crate::error::LoxResult;
use crate::expr::BinaryExpr;
use crate::expr::Expr;
use crate::expr::GroupingExpr;
use crate::expr::LiteralExpr;
use crate::expr::UnaryExpr;
use crate::token::Literal;
use crate::token::Token;
use crate::token::TokenType;
use vstd::prelude::*;

verus! {

pub struct Parser {
    pub tokens: Vec<Token>,
    pub current: usize,
}

/// The stream is well-formed: non-empty, ends with `Eof`, and the cursor
/// is on a token.
pub open spec fn parser_wf(p: Parser) -> bool {
    &&& p.tokens@.len() >= 1
    &&& p.tokens@.last().ttype == TokenType::Eof
    &&& (p.current as int) < p.tokens@.len()
}

/// How many tokens are left from the cursor on.
pub open spec fn remaining(p: Parser) -> int {
    p.tokens@.len() - p.current
}

impl Parser {
    /// A parser at the start of a token stream ending with `Eof`.
    pub fn new(tokens: Vec<Token>) -> (r: Parser)
        requires
            tokens@.len() >= 1,
            tokens@.last().ttype == TokenType::Eof,
        ensures
            parser_wf(r),
            r.tokens == tokens,
            r.current == 0,
    {
        Parser { tokens, current: 0 }
    }

    /// The token under the cursor.
    pub fn peek(&self) -> (r: &Token)
        requires
            parser_wf(*self),
        ensures
            r == self.tokens@[self.current as int],
    {
        &self.tokens[self.current]
    }

    /// The most recently consumed token.
    pub fn previous(&self) -> (r: &Token)
        requires
            parser_wf(*self),
            self.current > 0,
        ensures
            r == self.tokens@[self.current - 1],
    {
        &self.tokens[self.current - 1]
    }

    /// Whether the cursor is on the end-of-input token.
    pub fn is_at_end(&self) -> (r: bool)
        requires
            parser_wf(*self),
        ensures
            r == (self.tokens@[self.current as int].ttype == TokenType::Eof),
    {
        self.peek().is(TokenType::Eof)
    }

    /// Whether the cursor is on a token of the given kind; never true at
    /// the end of input.
    pub fn check(&self, ttype: TokenType) -> (r: bool)
        requires
            parser_wf(*self),
        ensures
            r == (self.tokens@[self.current as int].ttype != TokenType::Eof
                && self.tokens@[self.current as int].ttype == ttype),
    {
        if self.is_at_end() {
            false
        } else {
            self.peek().is(ttype)
        }
    }

    /// Consumes the token under the cursor, unless it is the end of
    /// input, and yields it.
    pub fn advance(&mut self) -> (r: Token)
        requires
            parser_wf(*old(self)),
        ensures
            parser_wf(*final(self)),
            final(self).tokens@ == old(self).tokens@,
            old(self).tokens@[old(self).current as int].ttype != TokenType::Eof ==> (final(self).current == old(self).current + 1 && r == old(self).tokens@[old(self).current as int]),
            old(self).tokens@[old(self).current as int].ttype == TokenType::Eof ==> (final(self).current == old(self).current && r == old(self).tokens@[old(self).current as int]),
    {
        if !self.is_at_end() {
            let n = self.tokens.len();
            proof {
                assert(self.tokens@.last() == self.tokens@[n - 1]);
                assert(self.current < n - 1);
            }
            self.current = self.current + 1;
            let r = self.previous().dup();
            r
        } else {
            self.peek().dup()
        }
    }

    /// If the cursor is on any of the given kinds, consumes it; leaves
    /// the parser untouched otherwise.
    pub fn is_match(&mut self, types: &Vec<TokenType>) -> (r: bool)
        requires
            parser_wf(*old(self)),
        ensures
            parser_wf(*final(self)),
            final(self).tokens@ == old(self).tokens@,
            !r ==> *final(self) == *old(self),
            r ==> ({
                &&& final(self).current == old(self).current + 1
                &&& old(self).tokens@[old(self).current as int].ttype != TokenType::Eof
                &&& types@.contains(old(self).tokens@[old(self).current as int].ttype)
            }),
    {
        let mut i: usize = 0;
        while i < types.len()
            invariant
                parser_wf(*self),
                *self == *old(self),
                i <= types@.len(),
            decreases types@.len() - i,
        {
            if self.check(types[i]) {
                let _ = self.advance();
                proof {
                    assert(types@.contains(old(self).tokens@[old(self).current as int].ttype));
                }
                return true;
            }
            i = i + 1;
        }
        false
    }

    /// Demands a token of the given kind: consumes and yields it, or
    /// reports the given message at the current line, consuming nothing.
    pub fn consume(&mut self, ttype: TokenType, message: &str) -> (r: Result<Token, LoxResult>)
        requires
            parser_wf(*old(self)),
        ensures
            parser_wf(*final(self)),
            final(self).tokens@ == old(self).tokens@,
            match r {
                Ok(t) => ({
                    &&& old(self).tokens@[old(self).current as int].ttype == ttype
                    &&& old(self).tokens@[old(self).current as int].ttype != TokenType::Eof
                    &&& t == old(self).tokens@[old(self).current as int]
                    &&& final(self).current == old(self).current + 1
                }),
                Err(e) => ({
                    &&& *final(self) == *old(self)
                    &&& e matches LoxResult::LoxError { line, message: m } && line == old(self).tokens@[old(self).current as int].line && m@ == message@
                }),
            },
    {
        if self.check(ttype) {
            Ok(self.advance())
        } else {
            let line = self.peek().line;
            Err(LoxResult::error(line, message))
        }
    }

    /// Parses one expression.
    pub fn expression(&mut self) -> (r: Result<Expr, LoxResult>)
        requires
            parser_wf(*old(self)),
        ensures
            parser_wf(*final(self)),
            final(self).tokens@ == old(self).tokens@,
            final(self).current >= old(self).current,
        decreases remaining(*old(self)), 6int,
    {
        self.equality()
    }

    /// Parses `comparison ( ("!=" | "==") comparison )*`.
    fn equality(&mut self) -> (r: Result<Expr, LoxResult>)
        requires
            parser_wf(*old(self)),
        ensures
            parser_wf(*final(self)),
            final(self).tokens@ == old(self).tokens@,
            final(self).current >= old(self).current,
        decreases remaining(*old(self)), 5int,
    {
        let mut expr = match self.comparison() {
            Ok(e) => e,
            Err(e) => {
                return Err(e);
            },
        };
        loop
            invariant
                parser_wf(*self),
                self.tokens@ == old(self).tokens@,
                self.current >= old(self).current,
            decreases remaining(*self),
        {
            if !self.is_match(&vec![TokenType::BangEqual, TokenType::Equals]) {
                break ;
            }
            let operator = self.previous().dup();
            let right = match self.comparison() {
                Ok(e) => e,
                Err(e) => {
                    return Err(e);
                },
            };
            expr = Expr::Binary(
                BinaryExpr { left: Box::new(expr), operator, right: Box::new(right) },
            );
        }
        Ok(expr)
    }

    /// Parses `term ( (">" | ">=" | "<" | "<=") term )*`.
    fn comparison(&mut self) -> (r: Result<Expr, LoxResult>)
        requires
            parser_wf(*old(self)),
        ensures
            parser_wf(*final(self)),
            final(self).tokens@ == old(self).tokens@,
            final(self).current >= old(self).current,
        decreases remaining(*old(self)), 4int,
    {
        let mut expr = match self.term() {
            Ok(e) => e,
            Err(e) => {
                return Err(e);
            },
        };
        loop
            invariant
                parser_wf(*self),
                self.tokens@ == old(self).tokens@,
                self.current >= old(self).current,
            decreases remaining(*self),
        {
            if !self.is_match(
                &vec![
                    TokenType::Greater,
                    TokenType::GreaterEqual,
                    TokenType::Less,
                    TokenType::LessEqual,
                ],
            ) {
                break ;
            }
            let operator = self.previous().dup();
            let right = match self.term() {
                Ok(e) => e,
                Err(e) => {
                    return Err(e);
                },
            };
            expr = Expr::Binary(
                BinaryExpr { left: Box::new(expr), operator, right: Box::new(right) },
            );
        }
        Ok(expr)
    }

    /// Parses `factor ( ("-" | "+") factor )*`.
    fn term(&mut self) -> (r: Result<Expr, LoxResult>)
        requires
            parser_wf(*old(self)),
        ensures
            parser_wf(*final(self)),
            final(self).tokens@ == old(self).tokens@,
            final(self).current >= old(self).current,
        decreases remaining(*old(self)), 3int,
    {
        let mut expr = match self.factor() {
            Ok(e) => e,
            Err(e) => {
                return Err(e);
            },
        };
        loop
            invariant
                parser_wf(*self),
                self.tokens@ == old(self).tokens@,
                self.current >= old(self).current,
            decreases remaining(*self),
        {
            if !self.is_match(&vec![TokenType::Minus, TokenType::Plus]) {
                break ;
            }
            let operator = self.previous().dup();
            let right = match self.factor() {
                Ok(e) => e,
                Err(e) => {
                    return Err(e);
                },
            };
            expr = Expr::Binary(
                BinaryExpr { left: Box::new(expr), operator, right: Box::new(right) },
            );
        }
        Ok(expr)
    }

    /// Parses `unary ( ("/" | "*") unary )*`.
    fn factor(&mut self) -> (r: Result<Expr, LoxResult>)
        requires
            parser_wf(*old(self)),
        ensures
            parser_wf(*final(self)),
            final(self).tokens@ == old(self).tokens@,
            final(self).current >= old(self).current,
        decreases remaining(*old(self)), 2int,
    {
        let mut expr = match self.unary() {
            Ok(e) => e,
            Err(e) => {
                return Err(e);
            },
        };
        loop
            invariant
                parser_wf(*self),
                self.tokens@ == old(self).tokens@,
                self.current >= old(self).current,
            decreases remaining(*self),
        {
            if !self.is_match(&vec![TokenType::Slash, TokenType::Star]) {
                break ;
            }
            let operator = self.previous().dup();
            let right = match self.unary() {
                Ok(e) => e,
                Err(e) => {
                    return Err(e);
                },
            };
            expr = Expr::Binary(
                BinaryExpr { left: Box::new(expr), operator, right: Box::new(right) },
            );
        }
        Ok(expr)
    }

    /// Parses `("!" | "-") unary | primary`.
    fn unary(&mut self) -> (r: Result<Expr, LoxResult>)
        requires
            parser_wf(*old(self)),
        ensures
            parser_wf(*final(self)),
            final(self).tokens@ == old(self).tokens@,
            final(self).current >= old(self).current,
        decreases remaining(*old(self)), 1int,
    {
        if self.is_match(&vec![TokenType::Bang, TokenType::Minus]) {
            let operator = self.previous().dup();
            let right = match self.unary() {
                Ok(e) => e,
                Err(e) => {
                    return Err(e);
                },
            };
            return Ok(Expr::Unary(UnaryExpr { operator, right: Box::new(right) }));
        }
        self.primary()
    }

    /// Parses a literal or a parenthesized expression.
    fn primary(&mut self) -> (r: Result<Expr, LoxResult>)
        requires
            parser_wf(*old(self)),
        ensures
            parser_wf(*final(self)),
            final(self).tokens@ == old(self).tokens@,
            final(self).current >= old(self).current,
        decreases remaining(*old(self)), 0int,
    {
        if self.is_match(&vec![TokenType::False]) {
            return Ok(Expr::Literal(LiteralExpr { value: Some(Literal::Bool(false)) }));
        }
        if self.is_match(&vec![TokenType::True]) {
            return Ok(Expr::Literal(LiteralExpr { value: Some(Literal::Bool(true)) }));
        }
        if self.is_match(&vec![TokenType::Nil]) {
            return Ok(Expr::Literal(LiteralExpr { value: Some(Literal::Nil) }));
        }
        if self.is_match(&vec![TokenType::Number, TokenType::StringLit]) {
            let value = match &self.previous().literal {
                Some(l) => Some(l.clone()),
                None => None,
            };
            return Ok(Expr::Literal(LiteralExpr { value }));
        }
        if self.is_match(&vec![TokenType::LeftParen]) {
            let expr = match self.expression() {
                Ok(e) => e,
                Err(e) => {
                    return Err(e);
                },
            };
            let closed = self.consume(TokenType::RightParen, "Expect ')' after expression");
            if let Err(e) = closed {
                return Err(e);
            }
            return Ok(Expr::Grouping(GroupingExpr { expression: Box::new(expr) }));
        }
        Err(LoxResult::error(0, "failed primary parser"))
    }
}

} // verus!
