//! Runtime numbers.
//!
//! The language's numbers are IEEE-754 double-precision values. The verified
//! code never touches a hardware float: a number is carried everywhere as its
//! 64-bit encoding. Sign tests, equality and ordering are implemented and
//! proved here directly on the encoding; the four rounding operations
//! (`+ - * /`) and the decimal rendering are delegated to `rustc_apfloat`,
//! a software implementation of the same arithmetic that works on bit
//! patterns, behind trusted wrappers.

use rustc_apfloat::ieee::Double;
use rustc_apfloat::Float;
use rustc_apfloat::Round;
use vstd::prelude::*;

verus! {

/// Mask of the sign bit of a double-precision encoding.
pub const SIGN_MASK: u64 = 0x8000_0000_0000_0000;

/// Mask of the exponent and significand bits (everything but the sign).
pub const MAGNITUDE_MASK: u64 = 0x7FFF_FFFF_FFFF_FFFF;

/// Encoding of positive infinity; every larger magnitude is a NaN.
pub const INFINITY_BITS: u64 = 0x7FF0_0000_0000_0000;

/// The exponent and significand bits of an encoding.
pub open spec fn magnitude_of(bits: u64) -> u64 {
    bits & MAGNITUDE_MASK
}

/// Whether the encoding has its sign bit set.
pub open spec fn is_negative_bits(bits: u64) -> bool {
    bits & SIGN_MASK != 0
}

/// Whether the encoding is a NaN (exponent all ones, significand non-zero).
pub open spec fn is_nan_bits(bits: u64) -> bool {
    magnitude_of(bits) > INFINITY_BITS
}

/// The value represented by a non-NaN encoding, reduced to an integer key
/// that orders encodings exactly as IEEE-754 orders the values they encode:
/// the magnitude, negated when the sign bit is set. Both zero encodings map
/// to the key 0, so `-0.0` and `0.0` compare equal.
pub open spec fn num_key(bits: u64) -> int {
    if is_negative_bits(bits) {
        -(magnitude_of(bits) as int)
    } else {
        magnitude_of(bits) as int
    }
}

/// IEEE-754 equality on encodings: false when either side is NaN,
/// otherwise equality of the represented values.
pub open spec fn num_eq(a: u64, b: u64) -> bool {
    &&& !is_nan_bits(a)
    &&& !is_nan_bits(b)
    &&& num_key(a) == num_key(b)
}

/// IEEE-754 `<` on encodings: false when either side is NaN.
pub open spec fn num_lt(a: u64, b: u64) -> bool {
    &&& !is_nan_bits(a)
    &&& !is_nan_bits(b)
    &&& num_key(a) < num_key(b)
}

/// IEEE-754 `<=` on encodings: false when either side is NaN.
pub open spec fn num_le(a: u64, b: u64) -> bool {
    &&& !is_nan_bits(a)
    &&& !is_nan_bits(b)
    &&& num_key(a) <= num_key(b)
}

/// The encoding of the negated value: the sign bit flipped.
pub open spec fn negated_bits(bits: u64) -> u64 {
    bits ^ SIGN_MASK
}

/// Unary minus on a number: flips the sign bit, exactly as IEEE-754
/// negation does (NaNs included).
pub fn bits_negate(bits: u64) -> (r: u64)
    ensures
        r == negated_bits(bits),
{
    bits ^ SIGN_MASK
}

/// Whether the encoding is a NaN.
pub fn bits_is_nan(bits: u64) -> (r: bool)
    ensures
        r == is_nan_bits(bits),
{
    (bits & MAGNITUDE_MASK) > INFINITY_BITS
}

/// IEEE-754 equality of two encodings.
pub fn bits_eq(a: u64, b: u64) -> (r: bool)
    ensures
        r == num_eq(a, b),
{
    if bits_is_nan(a) || bits_is_nan(b) {
        false
    } else {
        let ma = a & MAGNITUDE_MASK;
        let mb = b & MAGNITUDE_MASK;
        if (a & SIGN_MASK != 0) == (b & SIGN_MASK != 0) {
            ma == mb
        } else {
            ma == 0 && mb == 0
        }
    }
}

/// IEEE-754 `<` of two encodings.
pub fn bits_lt(a: u64, b: u64) -> (r: bool)
    ensures
        r == num_lt(a, b),
{
    if bits_is_nan(a) || bits_is_nan(b) {
        false
    } else {
        let ma = a & MAGNITUDE_MASK;
        let mb = b & MAGNITUDE_MASK;
        let na = a & SIGN_MASK != 0;
        let nb = b & SIGN_MASK != 0;
        if na && nb {
            mb < ma
        } else if na {
            ma != 0 || mb != 0
        } else if nb {
            false
        } else {
            ma < mb
        }
    }
}

/// IEEE-754 `<=` of two encodings.
pub fn bits_le(a: u64, b: u64) -> (r: bool)
    ensures
        r == num_le(a, b),
{
    if bits_is_nan(a) || bits_is_nan(b) {
        false
    } else {
        let ma = a & MAGNITUDE_MASK;
        let mb = b & MAGNITUDE_MASK;
        let na = a & SIGN_MASK != 0;
        let nb = b & SIGN_MASK != 0;
        if na && nb {
            mb <= ma
        } else if na {
            true
        } else if nb {
            ma == 0 && mb == 0
        } else {
            ma <= mb
        }
    }
}

/// The encoding of the IEEE-754 sum of the values encoded by `a` and `b`.
pub uninterp spec fn sum_bits(a: u64, b: u64) -> u64;

/// The encoding of the IEEE-754 difference of the encoded values.
pub uninterp spec fn diff_bits(a: u64, b: u64) -> u64;

/// The encoding of the IEEE-754 product of the encoded values.
pub uninterp spec fn prod_bits(a: u64, b: u64) -> u64;

/// The encoding of the IEEE-754 quotient of the encoded values.
pub uninterp spec fn quot_bits(a: u64, b: u64) -> u64;

/// The encoding of the double nearest to the unsigned integer `v`.
pub uninterp spec fn double_of_int(v: u64) -> u64;

/// The decimal rendering of the value encoded by `bits`.
pub uninterp spec fn text_of_bits(bits: u64) -> Seq<char>;

/// Relies on `rustc_apfloat::ieee::Double::add_r`: IEEE-754 binary64
/// addition of the two encoded values, rounded to nearest, ties to even.
#[verifier::external_body]
pub fn bits_add(a: u64, b: u64) -> (r: u64)
    ensures
        r == sum_bits(a, b),
{
    let x = Double::from_bits(a as u128);
    let y = Double::from_bits(b as u128);
    x.add_r(y, Round::NearestTiesToEven).value.to_bits() as u64
}

/// Relies on `rustc_apfloat::ieee::Double::sub_r`: IEEE-754 binary64
/// subtraction of the two encoded values, rounded to nearest, ties to even.
#[verifier::external_body]
pub fn bits_sub(a: u64, b: u64) -> (r: u64)
    ensures
        r == diff_bits(a, b),
{
    let x = Double::from_bits(a as u128);
    let y = Double::from_bits(b as u128);
    x.sub_r(y, Round::NearestTiesToEven).value.to_bits() as u64
}

/// Relies on `rustc_apfloat::ieee::Double::mul_r`: IEEE-754 binary64
/// multiplication of the two encoded values, rounded to nearest, ties to even.
#[verifier::external_body]
pub fn bits_mul(a: u64, b: u64) -> (r: u64)
    ensures
        r == prod_bits(a, b),
{
    let x = Double::from_bits(a as u128);
    let y = Double::from_bits(b as u128);
    x.mul_r(y, Round::NearestTiesToEven).value.to_bits() as u64
}

/// Relies on `rustc_apfloat::ieee::Double::div_r`: IEEE-754 binary64
/// division of the two encoded values, rounded to nearest, ties to even.
/// Its source returns, for a finite non-zero value divided by a zero, the
/// infinity whose sign is the exclusive-or of the operands' signs; the
/// second clause states that law.
#[verifier::external_body]
pub fn bits_div(a: u64, b: u64) -> (r: u64)
    ensures
        r == quot_bits(a, b),
        (magnitude_of(a) != 0 && magnitude_of(a) < INFINITY_BITS && magnitude_of(b) == 0) ==> r
            == (if is_negative_bits(a) == is_negative_bits(b) {
            INFINITY_BITS
        } else {
            INFINITY_BITS | SIGN_MASK
        }),
{
    let x = Double::from_bits(a as u128);
    let y = Double::from_bits(b as u128);
    x.div_r(y, Round::NearestTiesToEven).value.to_bits() as u64
}

/// Relies on `rustc_apfloat::ieee::Double::from_u128_r`: the double nearest
/// to the given unsigned integer, rounded to nearest, ties to even.
#[verifier::external_body]
pub fn bits_of_u64(v: u64) -> (r: u64)
    ensures
        r == double_of_int(v),
{
    Double::from_u128_r(v as u128, Round::NearestTiesToEven).value.to_bits() as u64
}

/// Relies on `rustc_apfloat::ieee::Double`'s `Display` implementation: a
/// decimal rendering of the encoded value, determined by the bits alone
/// (integral values print without a decimal point, NaN prints as `NaN`,
/// infinities as `+Inf` / `-Inf`). This is not the same rendering as the
/// host language's default double formatting: values with no short exact
/// decimal form print with 17 significant digits (`0.1` prints as
/// `0.10000000000000001`), and infinities print as `+Inf` / `-Inf` rather
/// than `inf` / `-inf`. Integral values and exact decimals agree.
#[verifier::external_body]
pub fn bits_to_text(bits: u64) -> (r: String)
    ensures
        r@ == text_of_bits(bits),
{
    format!("{}", Double::from_bits(bits as u128))
}

} // verus!
