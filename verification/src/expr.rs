//! Expression nodes.
//!
//! The node set is fixed and closed; evaluation and resolution match on it
//! exhaustively. Variable references and assignment targets carry a numeric
//! identity (`id`), assigned at construction, under which the resolver
//! records the node's lexical distance in a side table.

use crate::token::Literal;
use crate::token::Token;
use vstd::prelude::*;

verus! {

#[derive(Debug, PartialEq)]
pub enum Expr {
    Assign(AssignExpr),
    Binary(BinaryExpr),
    Call(CallExpr),
    Grouping(GroupingExpr),
    Literal(LiteralExpr),
    Logical(LogicalExpr),
    Unary(UnaryExpr),
    Variable(VariableExpr),
}

#[derive(Debug, PartialEq)]
pub struct AssignExpr {
    pub name: Token,
    pub value: Box<Expr>,
    /// Node identity keying this target's entry in the resolution table.
    pub id: usize,
}

#[derive(Debug, PartialEq)]
pub struct BinaryExpr {
    pub left: Box<Expr>,
    pub operator: Token,
    pub right: Box<Expr>,
}

#[derive(Debug, PartialEq)]
pub struct CallExpr {
    pub callee: Box<Expr>,
    pub paren: Token,
    pub arguments: Vec<Expr>,
}

#[derive(Debug, PartialEq)]
pub struct GroupingExpr {
    pub expression: Box<Expr>,
}

#[derive(Debug, PartialEq)]
pub struct LiteralExpr {
    pub value: Option<Literal>,
}

#[derive(Debug, PartialEq)]
pub struct LogicalExpr {
    pub left: Box<Expr>,
    pub operator: Token,
    pub right: Box<Expr>,
}

#[derive(Debug, PartialEq)]
pub struct UnaryExpr {
    pub operator: Token,
    pub right: Box<Expr>,
}

#[derive(Debug, PartialEq)]
pub struct VariableExpr {
    pub name: Token,
    /// Node identity keying this reference's entry in the resolution table.
    pub id: usize,
}

} // verus!
