//! A verified tree-walking interpreter for a small dynamically typed
//! scripting language: variables, blocks, control flow, functions with
//! closures, and a minimal class mechanism.
//!
//! The semantic core — the lexical environment chain, the runtime value
//! model, the static resolver that computes variable addresses, and the
//! statement/expression evaluator with its `break` / `return` control-flow
//! signals — is verified against a reference semantics: `semantics` holds
//! a fuel-indexed big-step relation for evaluation and `resolver` one for
//! resolution, and every function of the walk proves that its result and
//! final state stand in its relation. Numbers are IEEE-754 doubles
//! carried as bit patterns; their rounding arithmetic and rendering are
//! delegated to the `rustc_apfloat` crate behind trusted wrappers (see
//! `number`).

pub mod environment;
pub mod error;
pub mod expr;
pub mod interpreter;
pub mod lox_class;
pub mod lox_function;
pub mod lox_instance;
pub mod native_functions;
pub mod number;
pub mod object;
pub mod parser;
pub mod resolver;
pub mod semantics;
pub mod stmt;
pub mod token;

use vstd::prelude::*;

verus! {

/// Relies on `Rc::clone`: returns a new handle to the same shared value.
#[verifier::external_body]
pub(crate) fn rc_clone<T>(rc: &std::rc::Rc<T>) -> (r: std::rc::Rc<T>)
    ensures
        r == *rc,
{
    std::rc::Rc::clone(rc)
}

} // verus!
