//! Conversions from a wide value down to a narrower one.
//!
//! A checked conversion succeeds exactly when the value is below `2^W` for
//! the target width `W`, and then returns the value itself; anything else is
//! an [`Overflow`]. The boundary is `2^W`: the largest `W`-bit value passes.

use std::cmp::Ordering;
use vstd::prelude::*;

use crate::error::Overflow;
use crate::limbs::{join_limbs, limb_base};
use crate::wide_int::{compare_u128_structs, u64_to_u128_struct, WideInt128, WideInt256};

verus! {

/// What narrowing `v` to 64 bits gives: `v` itself below `2^64`, an error
/// from `2^64` on.
pub open spec fn narrow_u64_spec(v: nat) -> Result<u64, Overflow> {
    if v < 0x1_0000_0000_0000_0000 {
        Ok(v as u64)
    } else {
        Err(Overflow)
    }
}

/// What narrowing `v` to 128 bits gives: `v` itself below `2^128`, an error
/// from `2^128` on.
pub open spec fn narrow_u128_spec(v: nat) -> Result<u128, Overflow> {
    if v < 0x1_0000_0000_0000_0000_0000_0000_0000_0000 {
        Ok(v as u128)
    } else {
        Err(Overflow)
    }
}

/// Narrows a 128-bit value to 64 bits, refusing what does not fit.
pub fn narrow_checked_u64(v: u128) -> (r: Result<u64, Overflow>)
    ensures
        r == narrow_u64_spec(v as nat),
{
    if v <= 0xffff_ffff_ffff_ffff {
        Ok(v as u64)
    } else {
        Err(Overflow)
    }
}

/// Narrows a 256-bit value to 128 bits, refusing what does not fit.
pub fn narrow_checked_u128(v: &WideInt256) -> (r: Result<u128, Overflow>)
    ensures
        r == narrow_u128_spec(v@),
{
    if v.0[2] == 0 && v.0[3] == 0 {
        Ok(join_limbs(v.0[0], v.0[1]))
    } else {
        proof {
            let b = limb_base();
            assert(v@ >= b * b);
        }
        Err(Overflow)
    }
}

/// Narrows a 128-bit value held in limbs to 64 bits, refusing what does not
/// fit. The value is compared with the largest 64-bit value: whatever is
/// not above it is its own low limb, whatever is above it is an
/// [`Overflow`]. The largest value itself passes, and an error is never
/// replaced by a number.
pub fn to_underflow_u64_poc(val_u128_struct: &WideInt128) -> (r: Result<u64, Overflow>)
    ensures
        r == narrow_u64_spec(val_u128_struct@),
{
    let u64_max_as_u128_struct = u64_to_u128_struct(u64::MAX);
    match compare_u128_structs(val_u128_struct, &u64_max_as_u128_struct) {
        Ordering::Greater => Err(Overflow),
        _ => Ok(val_u128_struct.0[0]),
    }
}

/// A successful narrowing loses nothing: the result, widened again, is the
/// value that went in, limb for limb. So a result of zero stands for zero
/// alone, and a value with a non-zero high limb never succeeds.
pub proof fn lemma_narrowing_loses_nothing(wide: WideInt128, narrow: u64)
    requires
        narrow_u64_spec(wide@) == Ok::<u64, Overflow>(narrow),
    ensures
        wide == WideInt128([narrow, 0]),
        wide@ == narrow,
        narrow == 0 ==> wide@ == 0,
        wide.0[1] == 0,
{
    assert(wide.0 =~= WideInt128([narrow, 0]).0);
}

} // verus!
