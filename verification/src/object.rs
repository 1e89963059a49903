//! The runtime value model: a tagged union over numbers (as IEEE-754 bit
//! patterns), strings, booleans, nil, and the callable family. Values are
//! immutable; rebinding a name in an environment is the only "mutation".
//!
//! `ArithmeticError` is an internal sentinel used by binary-operator
//! evaluation to signal "operands not compatible with this operator"; it
//! is mapped to a runtime error before it could escape the evaluator.

use crate::lox_class::LoxClass;
use crate::lox_function::LoxFunction;
use crate::lox_instance::LoxInstance;
use crate::native_functions::NativeClock;
use crate::number::bits_to_text;
use crate::number::text_of_bits;
use std::rc::Rc;
use vstd::prelude::*;

verus! {

#[derive(Debug, PartialEq)]
pub enum Object {
    Num(u64),
    Str(String),
    Bool(bool),
    Func(Rc<LoxFunction>),
    Class(Rc<LoxClass>),
    Instance(Rc<LoxInstance>),
    Native(NativeClock),
    Nil,
    ArithmeticError,
}

/// Truthiness: every value is truthy except `false` and `nil`.
pub open spec fn truthy(o: Object) -> bool {
    !(o == Object::Bool(false) || o == Object::Nil)
}

/// The text a value prints as.
pub open spec fn object_text(o: Object) -> Seq<char> {
    match o {
        Object::Num(n) => text_of_bits(n),
        Object::Str(s) => s@,
        Object::Bool(b) => if b {
            "true"@
        } else {
            "false"@
        },
        Object::Func(f) => f.name.lexeme@,
        Object::Class(c) => c.name@,
        Object::Instance(i) => i.klass.name@ + " instance"@,
        Object::Native(_) => "<NativeClock>"@,
        Object::Nil => "nil"@,
        Object::ArithmeticError => Seq::<char>::empty(),
    }
}

impl Object {
    /// Whether the value counts as true in a condition.
    pub fn is_truthy(&self) -> (r: bool)
        ensures
            r == truthy(*self),
    {
        match self {
            Object::Bool(b) => *b,
            Object::Nil => false,
            _ => true,
        }
    }

    /// Renders the value as the text it prints as. The internal sentinel
    /// never reaches printing.
    pub fn to_text(&self) -> (r: String)
        requires
            !(*self is ArithmeticError),
        ensures
            r@ == object_text(*self),
    {
        match self {
            Object::Num(n) => bits_to_text(*n),
            Object::Str(s) => s.clone(),
            Object::Bool(b) => if *b {
                String::from_str("true")
            } else {
                String::from_str("false")
            },
            Object::Func(f) => f.name.lexeme.clone(),
            Object::Class(c) => c.name.clone(),
            Object::Instance(i) => i.klass.name.clone().concat(" instance"),
            Object::Native(_) => String::from_str("<NativeClock>"),
            Object::Nil => String::from_str("nil"),
            Object::ArithmeticError => unreached(),
        }
    }
}

impl Clone for Object {
    /// An exact copy of the value; callables copy as new handles to the
    /// same shared function, class or instance.
    fn clone(&self) -> (r: Self)
        ensures
            r == *self,
    {
        match self {
            Object::Num(n) => Object::Num(*n),
            Object::Str(s) => Object::Str(s.clone()),
            Object::Bool(b) => Object::Bool(*b),
            Object::Func(f) => Object::Func(crate::rc_clone(f)),
            Object::Class(c) => Object::Class(crate::rc_clone(c)),
            Object::Instance(i) => Object::Instance(crate::rc_clone(i)),
            Object::Native(n) => Object::Native(*n),
            Object::Nil => Object::Nil,
            Object::ArithmeticError => Object::ArithmeticError,
        }
    }
}

} // verus!
