//! An instance of a class: it holds a shared reference to its class and
//! nothing else in this core.

use crate::lox_class::LoxClass;
use std::rc::Rc;
use vstd::prelude::*;

verus! {

#[derive(Debug, PartialEq)]
pub struct LoxInstance {
    pub klass: Rc<LoxClass>,
}

impl LoxInstance {
    /// An instance of the given class.
    pub fn new(klass: Rc<LoxClass>) -> (r: Self)
        ensures
            r.klass == klass,
    {
        Self { klass }
    }
}

} // verus!
