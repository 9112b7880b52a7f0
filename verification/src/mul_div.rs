//! Exact 128 x 128 -> 256 bit multiplication and division of the product.

use vstd::arithmetic::div_mod::lemma_fundamental_div_mod_converse;
use vstd::prelude::*;

use crate::divide::{ceil_quotient, div_ceil, div_floor};
use crate::error::CoreError;
use crate::limbs::{high_limb, limb_base, low_limb, mul_limbs};
use crate::narrowing::narrow_checked_u128;
use crate::wide_int::{u128_struct_to_u128, u128_to_u128_struct, WideInt128, WideInt256};

verus! {

/// `x` times a two-limb value, limb by limb.
proof fn lemma_mul_two_limbs(x: int, lo: int, hi: int)
    ensures
        x * (lo + hi * limb_base()) == x * lo + (x * hi) * limb_base(),
{
    let b = limb_base() as int;
    assert(x * (lo + hi * b) == x * lo + (x * hi) * b) by (nonlinear_arith);
}

/// The schoolbook identity behind the four partial products.
proof fn lemma_partial_products(a_lo: int, a_hi: int, b_lo: int, b_hi: int)
    ensures
        (a_lo + a_hi * limb_base()) * (b_lo + b_hi * limb_base()) == a_lo * b_lo + (a_lo * b_hi
            + a_hi * b_lo) * limb_base() + (a_hi * b_hi) * limb_base() * limb_base(),
{
    let a = a_lo + a_hi * limb_base();
    lemma_mul_two_limbs(a, b_lo, b_hi);
    lemma_mul_two_limbs(b_lo, a_lo, a_hi);
    lemma_mul_two_limbs(b_hi, a_lo, a_hi);
    assert(a * b_lo == b_lo * a) by (nonlinear_arith);
    assert(a * b_hi == b_hi * a) by (nonlinear_arith);
    assert(b_lo * a_lo == a_lo * b_lo) by (nonlinear_arith);
    assert(b_lo * a_hi == a_hi * b_lo) by (nonlinear_arith);
    assert(b_hi * a_lo == a_lo * b_hi) by (nonlinear_arith);
    assert(b_hi * a_hi == a_hi * b_hi) by (nonlinear_arith);
}

/// A product of two 128-bit values fits in 256 bits.
proof fn lemma_product_fits(a: u128, b: u128)
    ensures
        a * b < limb_base() * limb_base() * limb_base() * limb_base(),
{
    assert(a * b <= 0xffff_ffff_ffff_ffff_ffff_ffff_ffff_ffff
        * 0xffff_ffff_ffff_ffff_ffff_ffff_ffff_ffff) by (nonlinear_arith)
        requires
            a <= 0xffff_ffff_ffff_ffff_ffff_ffff_ffff_ffff,
            b <= 0xffff_ffff_ffff_ffff_ffff_ffff_ffff_ffff,
    ;
}

/// The exact product of two 128-bit values.
///
/// Each operand is split into two limbs; the four limb products are summed
/// column by column, each column handing its overflow to the next.
pub fn multiply_u128_values_to_u256(a_val: u128, b_val: u128) -> (r: WideInt256)
    ensures
        r@ == a_val * b_val,
{
    let a_lo = low_limb(a_val);
    let a_hi = high_limb(a_val);
    let b_lo = low_limb(b_val);
    let b_hi = high_limb(b_val);

    let low_low = mul_limbs(a_lo, b_lo);
    let low_high = mul_limbs(a_lo, b_hi);
    let high_low = mul_limbs(a_hi, b_lo);
    let high_high = mul_limbs(a_hi, b_hi);

    let r0 = low_limb(low_low);
    let carry1: u128 = high_limb(low_low) as u128;

    let r1_temp: u128 = carry1 + (low_limb(low_high) as u128) + (low_limb(high_low) as u128);
    let r1 = low_limb(r1_temp);
    let carry2: u128 = high_limb(r1_temp) as u128;

    let r2_temp: u128 = carry2 + (high_limb(low_high) as u128) + (high_limb(high_low) as u128)
        + (low_limb(high_high) as u128);
    let r2 = low_limb(r2_temp);
    let carry3: u128 = high_limb(r2_temp) as u128;

    let r3_val: u128 = (high_limb(high_high) as u128) + carry3;

    proof {
        lemma_partial_products(a_lo as int, a_hi as int, b_lo as int, b_hi as int);
        lemma_product_fits(a_val, b_val);
        let b = limb_base() as int;
        assert(a_val * b_val == low_low + (low_high + high_low) * b + high_high * b * b);
        assert(r0 + r1 * b + r2 * b * b + r3_val * b * b * b == a_val * b_val);
        assert(r3_val < b);
    }
    WideInt256([r0, r1, r2, low_limb(r3_val)])
}

/// The exact product of two 128-bit values, `a * b`, as a 256-bit value.
pub fn multiply_full(a: u128, b: u128) -> (r: WideInt256)
    ensures
        r@ == a * b,
{
    multiply_u128_values_to_u256(a, b)
}

/// What a quotient becomes as a 128-bit result: itself where it fits, an
/// overflow where it does not, and a division by zero where there was no
/// quotient to begin with.
pub open spec fn quotient_to_u128(quotient: nat, denom: u128) -> Result<u128, CoreError> {
    if denom == 0 {
        Err(CoreError::DivideByZero)
    } else if quotient > u128::MAX {
        Err(CoreError::Overflow)
    } else {
        Ok(quotient as u128)
    }
}

/// `a * b / denom` rounded down, as a 128-bit result.
pub open spec fn mul_div_floor_spec(a: u128, b: u128, denom: u128) -> Result<u128, CoreError> {
    quotient_to_u128(((a * b) / (denom as int)) as nat, denom)
}

/// `a * b / denom` rounded up, as a 128-bit result.
pub open spec fn mul_div_ceil_spec(a: u128, b: u128, denom: u128) -> Result<u128, CoreError> {
    quotient_to_u128(ceil_quotient((a * b) as nat, denom as nat), denom)
}

/// Brings a full-width quotient down to the 128 bits the caller works in.
fn quotient_result(q: &WideInt256, denom: u128) -> (r: Result<u128, CoreError>)
    requires
        denom != 0,
    ensures
        r == quotient_to_u128(q@, denom),
{
    match narrow_checked_u128(q) {
        Ok(v) => Ok(v),
        Err(e) => Err(CoreError::from(e)),
    }
}

/// `a * b / denom`, rounded down. The product is formed at 256 bits, so no
/// intermediate precision is lost; the quotient is returned when it fits in
/// 128 bits.
///
/// Fails with `DivideByZero` exactly when `denom` is zero, and with
/// `Overflow` exactly when `denom` is not zero and the quotient needs more
/// than 128 bits.
pub fn mul_div_floor(a: u128, b: u128, denom: u128) -> (r: Result<u128, CoreError>)
    ensures
        r == mul_div_floor_spec(a, b, denom),
{
    let product = multiply_full(a, b);
    match div_floor(&product, denom) {
        Ok(q) => quotient_result(&q, denom),
        Err(e) => Err(CoreError::from(e)),
    }
}

/// `a * b / denom`, rounded up: the floor, plus one when the division leaves
/// a remainder. Fails as [`mul_div_floor`] does, with the rounded-up
/// quotient in place of the floor.
pub fn mul_div_ceil(a: u128, b: u128, denom: u128) -> (r: Result<u128, CoreError>)
    ensures
        r == mul_div_ceil_spec(a, b, denom),
{
    let product = multiply_full(a, b);
    match div_ceil(&product, denom) {
        Ok(q) => quotient_result(&q, denom),
        Err(e) => Err(CoreError::from(e)),
    }
}

/// `fee_growth * liquidity / denom`, rounded down, on values held in limbs.
///
/// For the fixed-point denominator `2^64` the quotient is read off the
/// product: the lowest limb is dropped, the next two limbs are the result,
/// and a non-zero top limb means the quotient does not fit. Every other
/// denominator goes through [`mul_div_floor`]. Either way the outcome is
/// that of [`mul_div_floor`] on the values the limbs stand for.
pub fn simplified_mul_div_floor(
    fee_growth: &WideInt128,
    liquidity: &WideInt128,
    denom: &WideInt128,
) -> (r: Result<WideInt128, CoreError>)
    ensures
        match mul_div_floor_spec(fee_growth@ as u128, liquidity@ as u128, denom@ as u128) {
            Ok(q) => r matches Ok(w) && w@ == q,
            Err(e) => r == Err::<WideInt128, CoreError>(e),
        },
{
    let fee_growth_u128 = u128_struct_to_u128(fee_growth);
    let liquidity_u128 = u128_struct_to_u128(liquidity);

    if denom.0[0] == 0 && denom.0[1] == 1 {
        let product_u256 = multiply_u128_values_to_u256(fee_growth_u128, liquidity_u128);
        proof {
            let b = limb_base() as int;
            let p = product_u256;
            let upper = p.0[1] + p.0[2] * b + p.0[3] * b * b;
            lemma_fundamental_div_mod_converse(p@ as int, b, upper, p.0[0] as int);
        }
        if product_u256.0[3] != 0 {
            Err(CoreError::Overflow)
        } else {
            Ok(WideInt128([product_u256.0[1], product_u256.0[2]]))
        }
    } else {
        match mul_div_floor(fee_growth_u128, liquidity_u128, u128_struct_to_u128(denom)) {
            Ok(q) => Ok(u128_to_u128_struct(q)),
            Err(e) => Err(e),
        }
    }
}

} // verus!
