//! Statement nodes.
//!
//! A function declaration shares its parameter list and body through `Rc`:
//! the function value created at run time keeps a reference to the same
//! nodes instead of copying them.

use crate::expr::Expr;
use crate::token::Token;
use std::rc::Rc;
use vstd::prelude::*;

verus! {

#[derive(Debug, PartialEq)]
pub enum Stmt {
    Block(BlockStmt),
    Break(BreakStmt),
    Expression(ExpressionStmt),
    Function(FunctionStmt),
    If(IfStmt),
    Print(PrintStmt),
    Return(ReturnStmt),
    Var(VarStmt),
    While(WhileStmt),
}

#[derive(Debug, PartialEq)]
pub struct BlockStmt {
    pub statements: Vec<Stmt>,
}

#[derive(Debug, PartialEq)]
pub struct BreakStmt {
    pub token: Token,
}

#[derive(Debug, PartialEq)]
pub struct ExpressionStmt {
    pub expression: Box<Expr>,
}

#[derive(Debug, PartialEq)]
pub struct FunctionStmt {
    pub name: Token,
    pub params: Rc<Vec<Token>>,
    pub body: Rc<Vec<Stmt>>,
}

#[derive(Debug, PartialEq)]
pub struct IfStmt {
    pub condition: Box<Expr>,
    pub then_branch: Box<Stmt>,
    pub else_branch: Option<Box<Stmt>>,
}

#[derive(Debug, PartialEq)]
pub struct PrintStmt {
    pub expression: Box<Expr>,
}

#[derive(Debug, PartialEq)]
pub struct ReturnStmt {
    pub keyword: Token,
    pub value: Option<Box<Expr>>,
}

#[derive(Debug, PartialEq)]
pub struct VarStmt {
    pub name: Token,
    pub initializer: Option<Box<Expr>>,
}

#[derive(Debug, PartialEq)]
pub struct WhileStmt {
    pub condition: Box<Expr>,
    pub body: Box<Stmt>,
}

} // verus!
