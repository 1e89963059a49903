//! The minimal class mechanism: a class owns a name and, when called,
//! produces an empty instance referring back to it. Fields and methods are
//! outside this core's contract.

use crate::error::LoxResult;
use crate::lox_instance::LoxInstance;
use crate::object::Object;
use std::rc::Rc;
use vstd::prelude::*;

verus! {

#[derive(Debug, PartialEq)]
pub struct LoxClass {
    pub name: String,
}

impl LoxClass {
    /// A class with the given name.
    pub fn new(name: &String) -> (r: Self)
        ensures
            r.name@ == name@,
    {
        Self { name: name.clone() }
    }

    /// Calling a class produces a fresh instance of it; the class takes no
    /// constructor arguments in this core.
    pub fn instantiate(&self, klass: &Rc<LoxClass>) -> (r: Result<Object, LoxResult>)
        ensures
            r matches Ok(o) && o matches Object::Instance(inst) && inst.klass == klass,
    {
        Ok(Object::Instance(Rc::new(LoxInstance::new(crate::rc_clone(klass)))))
    }

    /// The number of constructor arguments a class expects: always zero.
    pub fn arity(&self) -> (r: usize)
        ensures
            r == 0,
    {
        0
    }
}

} // verus!
