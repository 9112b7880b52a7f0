//! Fees a position has earned, and the balance they are added to.
//!
//! A pool keeps, per token, a fee-growth accumulator: the fee earned so far
//! by one unit of liquidity, as a Q64.64 number stored modulo `2^128`. A
//! position remembers the accumulator's value at its last settlement. What
//! it has earned since is the distance the accumulator has travelled, taken
//! modulo `2^128`, times the position's liquidity, scaled down by `2^64`.

use vstd::prelude::*;

use crate::error::{CoreError, Overflow};
use crate::fixed_point::Q64;
use crate::mul_div::mul_div_floor;
use crate::narrowing::narrow_checked_u64;

verus! {

/// How far the accumulator has moved from `last` to `current`:
/// `current - last` modulo `2^128`.
pub open spec fn growth_since(current: u128, last: u128) -> nat {
    ((current - last) % 0x1_0000_0000_0000_0000_0000_0000_0000_0000int) as nat
}

/// The fee that `liquidity` has earned while the accumulator moved from
/// `last` to `current`, rounded down to a whole token amount.
pub open spec fn fee_earned(current: u128, last: u128, liquidity: u128) -> nat {
    (growth_since(current, last) * liquidity / 0x1_0000_0000_0000_0000) as nat
}

/// The fee delta as a 64-bit amount: the earned fee where it fits, an
/// overflow where it does not.
pub open spec fn compute_fee_delta_spec(current: u128, last: u128, liquidity: u128) -> Result<
    u64,
    CoreError,
> {
    if fee_earned(current, last, liquidity) <= u64::MAX {
        Ok(fee_earned(current, last, liquidity) as u64)
    } else {
        Err(CoreError::Overflow)
    }
}

/// The sum of a balance and a delta where it fits in 64 bits, an overflow
/// where it does not.
pub open spec fn accrue_spec(owed: u64, delta: u64) -> Result<u64, Overflow> {
    if owed + delta <= u64::MAX {
        Ok((owed + delta) as u64)
    } else {
        Err(Overflow)
    }
}

/// The balance after settlement: what was owed plus what was earned since
/// the snapshot, where that fits in 64 bits.
pub open spec fn settled_owed(owed: u64, current: u128, last: u128, liquidity: u128) -> Result<
    u64,
    CoreError,
> {
    if owed + fee_earned(current, last, liquidity) <= u64::MAX {
        Ok((owed + fee_earned(current, last, liquidity)) as u64)
    } else {
        Err(CoreError::Overflow)
    }
}

/// The outcome of a settlement: the new balance together with the new
/// snapshot, or no pair at all.
pub open spec fn settle_spec(owed: u64, current: u128, last: u128, liquidity: u128) -> Result<
    (u64, u128),
    CoreError,
> {
    match settled_owed(owed, current, last, liquidity) {
        Ok(new_owed) => Ok((new_owed, current)),
        Err(e) => Err(e),
    }
}

/// A quotient that does not fit in 128 bits cannot be a 64-bit fee either.
proof fn lemma_scaled_overflow_is_fee_overflow(raw: u128, liquidity: u128)
    requires
        (raw * liquidity) / (Q64 as int) > u128::MAX,
    ensures
        raw * liquidity / 0x1_0000_0000_0000_0000 > u64::MAX,
{
}

/// The fee a position has earned since its snapshot, as a 64-bit amount.
///
/// The accumulator difference is taken modulo `2^128`, so a reading that
/// has wrapped past its snapshot still measures the distance travelled.
/// Fails with `Overflow` exactly when the earned fee is `2^64` or more.
pub fn compute_fee_delta(current_growth: u128, last_growth: u128, liquidity: u128) -> (r: Result<
    u64,
    CoreError,
>)
    ensures
        r == compute_fee_delta_spec(current_growth, last_growth, liquidity),
{
    let raw = current_growth.wrapping_sub(last_growth);
    assert(raw == growth_since(current_growth, last_growth));
    match mul_div_floor(raw, liquidity, Q64) {
        Ok(scaled) => match narrow_checked_u64(scaled) {
            Ok(delta) => Ok(delta),
            Err(e) => Err(CoreError::from(e)),
        },
        Err(e) => {
            proof {
                lemma_scaled_overflow_is_fee_overflow(raw, liquidity);
            }
            Err(e)
        },
    }
}

/// Adds a fee delta to an owed balance. Fails with `Overflow` exactly when
/// the sum is `2^64` or more.
pub fn accrue(owed: u64, delta: u64) -> (r: Result<u64, Overflow>)
    ensures
        r == accrue_spec(owed, delta),
{
    match owed.checked_add(delta) {
        Some(sum) => Ok(sum),
        None => Err(Overflow),
    }
}

/// The balance owed to a position once the fees earned since its snapshot
/// are added to `last_total_fees`.
pub fn calculate_latest_token_fees(
    last_total_fees: u64,
    fee_growth_inside_last_x64: u128,
    fee_growth_inside_latest_x64: u128,
    liquidity: u128,
) -> (r: Result<u64, CoreError>)
    ensures
        r == settled_owed(
            last_total_fees,
            fee_growth_inside_latest_x64,
            fee_growth_inside_last_x64,
            liquidity,
        ),
{
    let fee_growth_delta = match compute_fee_delta(
        fee_growth_inside_latest_x64,
        fee_growth_inside_last_x64,
        liquidity,
    ) {
        Ok(delta) => delta,
        Err(e) => {
            return Err(e);
        },
    };
    match accrue(last_total_fees, fee_growth_delta) {
        Ok(total) => Ok(total),
        Err(e) => Err(CoreError::from(e)),
    }
}

/// Settles one token's fees: the new owed balance and the new snapshot, as
/// one value. Either both are produced or neither is.
pub fn settle(owed: u64, current_growth: u128, last_growth: u128, liquidity: u128) -> (r: Result<
    (u64, u128),
    CoreError,
>)
    ensures
        r == settle_spec(owed, current_growth, last_growth, liquidity),
{
    match calculate_latest_token_fees(owed, last_growth, current_growth, liquidity) {
        Ok(new_owed) => Ok((new_owed, current_growth)),
        Err(e) => Err(e),
    }
}

/// An accumulator read against itself has not moved, so nothing was earned,
/// whatever the liquidity.
pub proof fn lemma_no_growth_no_fee(growth: u128, liquidity: u128)
    ensures
        growth_since(growth, growth) == 0,
        fee_earned(growth, growth, liquidity) == 0,
        compute_fee_delta_spec(growth, growth, liquidity) == Ok::<u64, CoreError>(0),
{
    assert(0 * liquidity == 0) by (nonlinear_arith);
}

/// Accruing two deltas one after the other is accruing their sum: both
/// ways give the same balance, or both fail.
pub proof fn lemma_accrue_in_steps(owed: u64, first: u64, second: u64)
    requires
        first + second <= u64::MAX,
    ensures
        (match accrue_spec(owed, first) {
            Ok(partial) => accrue_spec(partial, second),
            Err(e) => Err(e),
        }) == accrue_spec(owed, (first + second) as u64),
{
}

/// A settlement is an accrual of the fee delta followed by taking the
/// snapshot, and it fails exactly when computing the delta or the accrual
/// fails.
pub proof fn lemma_settle_is_delta_then_accrue(owed: u64, current: u128, last: u128, liquidity: u128)
    ensures
        settle_spec(owed, current, last, liquidity) == (match compute_fee_delta_spec(
            current,
            last,
            liquidity,
        ) {
            Ok(delta) => match accrue_spec(owed, delta) {
                Ok(new_owed) => Ok((new_owed, current)),
                Err(_) => Err(CoreError::Overflow),
            },
            Err(e) => Err(e),
        }),
{
}

} // verus!
