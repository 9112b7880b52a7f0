//! Moving between native integers and 64-bit limbs.

use vstd::prelude::*;

verus! {

/// The weight of one limb: `2^64`.
pub open spec fn limb_base() -> nat {
    0x1_0000_0000_0000_0000
}

/// The low 64 bits of `x`.
pub fn low_limb(x: u128) -> (r: u64)
    ensures
        r == x % 0x1_0000_0000_0000_0000,
{
    assert(x & 0xffff_ffff_ffff_ffff == x % 0x1_0000_0000_0000_0000) by (bit_vector);
    assert(x & 0xffff_ffff_ffff_ffff <= 0xffff_ffff_ffff_ffff) by (bit_vector);
    (x & 0xffff_ffff_ffff_ffff) as u64
}

/// The high 64 bits of `x`.
pub fn high_limb(x: u128) -> (r: u64)
    ensures
        r == x / 0x1_0000_0000_0000_0000,
{
    assert(x >> 64 == x / 0x1_0000_0000_0000_0000) by (bit_vector);
    assert(x >> 64 <= 0xffff_ffff_ffff_ffff) by (bit_vector);
    (x >> 64) as u64
}

/// The 128-bit value `low + high * 2^64`.
pub fn join_limbs(low: u64, high: u64) -> (r: u128)
    ensures
        r == low + high * limb_base(),
{
    let l: u128 = low as u128;
    let h: u128 = high as u128;
    assert((h << 64) == h * 0x1_0000_0000_0000_0000) by (bit_vector)
        requires
            h <= 0xffff_ffff_ffff_ffff,
    ;
    assert(l | (h << 64) == l + (h << 64)) by (bit_vector)
        requires
            l <= 0xffff_ffff_ffff_ffff,
            h <= 0xffff_ffff_ffff_ffff,
    ;
    l | (h << 64)
}

/// The full product of two limbs.
pub fn mul_limbs(x: u64, y: u64) -> (p: u128)
    ensures
        p == x * y,
{
    assert(x * y <= 0xffff_ffff_ffff_ffff * 0xffff_ffff_ffff_ffff) by (nonlinear_arith)
        requires
            x <= 0xffff_ffff_ffff_ffff,
            y <= 0xffff_ffff_ffff_ffff,
    ;
    (x as u128) * (y as u128)
}

} // verus!
