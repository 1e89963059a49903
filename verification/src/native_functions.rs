//! Native functions supplied by the host. The only one is the clock, which
//! returns the current time in milliseconds as a number.

use crate::error::LoxResult;
use crate::number::bits_of_u64;
use crate::number::double_of_int;
use crate::object::Object;
use vstd::prelude::*;

verus! {

#[derive(Debug, Clone, Copy, PartialEq, Eq, Structural)]
pub struct NativeClock;

impl NativeClock {
    /// The clock takes no arguments.
    pub fn arity(&self) -> (r: usize)
        ensures
            r == 0,
    {
        0
    }

    /// Reads the host clock. The reading depends on the moment of the
    /// call, so the result is pinned only up to the drawn value: the call
    /// always succeeds with the double nearest to some unsigned
    /// millisecond count — never NaN, never a negative encoding.
    pub fn call(&self) -> (r: Result<Object, LoxResult>)
        ensures
            r matches Ok(o) && o is Num,
            r matches Ok(o) && exists|m: u64| o == Object::Num(#[trigger] double_of_int(m)),
    {
        let millis = clock_millis();
        Ok(Object::Num(bits_of_u64(millis)))
    }
}

/// Relies on `std::time::SystemTime::now`, `SystemTime::duration_since`
/// and `Duration::as_millis`: the milliseconds elapsed since the Unix
/// epoch. A host clock reading earlier than the epoch — impossible on a
/// correctly set host — is deliberately totalized to zero rather than
/// surfaced as a system error, so the native clock's contract can
/// promise success on every outcome. The result depends on the moment of
/// the call, so no ensures is stated.
#[verifier::external_body]
fn clock_millis() -> u64 {
    match std::time::SystemTime::now().duration_since(std::time::SystemTime::UNIX_EPOCH) {
        Ok(d) => d.as_millis() as u64,
        Err(_) => 0,
    }
}

} // verus!
