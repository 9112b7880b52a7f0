//! The Q64.64 scale: a 128-bit integer that stands for a real number
//! multiplied by `2^64`.
//!
//! Turning the product of a Q64.64 number and a plain amount back into a
//! plain amount is a division by `2^64`. The divisor is fixed and not zero,
//! so the only way such a scaling can fail is by not fitting its result.

use vstd::prelude::*;

use crate::error::Overflow;
use crate::mul_div::{mul_div_ceil, mul_div_floor};
use crate::narrowing::narrow_u128_spec;

verus! {

/// The canonical fixed-point denominator, `2^64`.
pub const Q64: u128 = 0x1_0000_0000_0000_0000;

/// `a * b / 2^64`, rounded down. Fails exactly when the quotient needs more
/// than 128 bits.
pub fn scale_floor(a: u128, b: u128) -> (r: Result<u128, Overflow>)
    ensures
        r == narrow_u128_spec((a * b / 0x1_0000_0000_0000_0000) as nat),
{
    match mul_div_floor(a, b, Q64) {
        Ok(q) => Ok(q),
        Err(_) => Err(Overflow),
    }
}

/// `a * b / 2^64`, rounded up. Fails exactly when the rounded-up quotient
/// needs more than 128 bits.
pub fn scale_ceil(a: u128, b: u128) -> (r: Result<u128, Overflow>)
    ensures
        r == narrow_u128_spec(
            if (a * b) % 0x1_0000_0000_0000_0000 == 0 {
                (a * b / 0x1_0000_0000_0000_0000) as nat
            } else {
                (a * b / 0x1_0000_0000_0000_0000 + 1) as nat
            },
        ),
{
    match mul_div_ceil(a, b, Q64) {
        Ok(q) => Ok(q),
        Err(_) => Err(Overflow),
    }
}

} // verus!
