//! User-defined function values.
//!
//! A function value shares its declaration's parameter list and body and
//! records the environment frame that was current at its definition site —
//! its closure. Invocation lives in the interpreter, which owns the frame
//! store.

use crate::stmt::FunctionStmt;
use crate::stmt::Stmt;
use crate::token::Token;
use std::rc::Rc;
use vstd::prelude::*;

verus! {

#[derive(Debug, PartialEq)]
pub struct LoxFunction {
    pub name: Token,
    pub params: Rc<Vec<Token>>,
    pub body: Rc<Vec<Stmt>>,
    /// Index of the frame captured at the definition site.
    pub closure: usize,
}

impl LoxFunction {
    /// A function value for the given declaration, capturing the frame
    /// that is current at the definition site.
    pub fn new(declaration: &FunctionStmt, closure: usize) -> (r: Self)
        ensures
            r.name == declaration.name,
            r.params == declaration.params,
            r.body == declaration.body,
            r.closure == closure,
    {
        Self {
            name: declaration.name.dup(),
            params: crate::rc_clone(&declaration.params),
            body: crate::rc_clone(&declaration.body),
            closure,
        }
    }

    /// The number of arguments the function expects.
    pub fn arity(&self) -> (r: usize)
        ensures
            r == self.params@.len(),
    {
        self.params.len()
    }
}

} // verus!
