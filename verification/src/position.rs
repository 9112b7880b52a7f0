//! What a position stores for fee accounting, and how a settlement changes
//! it: the owed balance and the snapshot move together or not at all.

use vstd::prelude::*;

use crate::error::CoreError;
use crate::fee::{fee_earned, settle, settled_owed};

verus! {

/// One token's fee state of a position.
#[derive(Debug, Clone, Copy, PartialEq, Eq)]
pub struct PositionFeeState {
    /// The liquidity the position holds.
    pub liquidity: u128,
    /// The fee-growth accumulator as it stood at the last settlement.
    pub fee_growth_inside_last: u128,
    /// The settled balance that can be collected.
    pub fee_owed: u64,
}

impl PositionFeeState {
    /// The state this one becomes when it is settled against
    /// `current_growth`: the earned fee is added to the balance and the
    /// snapshot is replaced, the liquidity stays.
    pub open spec fn settled(self, current_growth: u128) -> Result<PositionFeeState, CoreError> {
        match settled_owed(
            self.fee_owed,
            current_growth,
            self.fee_growth_inside_last,
            self.liquidity,
        ) {
            Ok(new_owed) => Ok(
                PositionFeeState {
                    liquidity: self.liquidity,
                    fee_growth_inside_last: current_growth,
                    fee_owed: new_owed,
                },
            ),
            Err(e) => Err(e),
        }
    }

    /// The state of a position that has just been opened: no liquidity,
    /// nothing owed, and the accumulator's current value as its snapshot.
    pub fn open(current_growth: u128) -> (r: PositionFeeState)
        ensures
            r.liquidity == 0,
            r.fee_growth_inside_last == current_growth,
            r.fee_owed == 0,
    {
        PositionFeeState { liquidity: 0, fee_growth_inside_last: current_growth, fee_owed: 0 }
    }

    /// Settles the fees earned up to `current_growth`. On success the owed
    /// balance and the snapshot are both replaced; on failure the state is
    /// what it was before the call.
    pub fn settle(&mut self, current_growth: u128) -> (r: Result<(), CoreError>)
        ensures
            match old(self).settled(current_growth) {
                Ok(next) => r is Ok && *final(self) == next,
                Err(e) => r == Err::<(), CoreError>(e) && *final(self) == *old(self),
            },
    {
        match settle(self.fee_owed, current_growth, self.fee_growth_inside_last, self.liquidity) {
            Ok((new_owed, snapshot)) => {
                self.fee_owed = new_owed;
                self.fee_growth_inside_last = snapshot;
                Ok(())
            },
            Err(e) => Err(e),
        }
    }
}

/// The fee state of a position in a pool of two tokens. Both tokens earn on
/// the same liquidity.
#[derive(Debug, Clone, Copy, PartialEq, Eq)]
pub struct PersonalPositionState {
    /// The liquidity the position holds.
    pub liquidity: u128,
    /// The first token's accumulator as it stood at the last settlement.
    pub fee_growth_inside_0_last_x64: u128,
    /// The second token's accumulator as it stood at the last settlement.
    pub fee_growth_inside_1_last_x64: u128,
    /// The first token's settled balance.
    pub token_fees_owed_0: u64,
    /// The second token's settled balance.
    pub token_fees_owed_1: u64,
}

/// The state a position has after its liquidity grew by `liquidity` while
/// the accumulators stood at the two given values: both tokens are settled
/// on the liquidity held so far, both snapshots are replaced, and then the
/// liquidity is raised. It fails when a balance or the liquidity would not
/// fit its width.
pub open spec fn increase_liquidity_spec(
    position: PersonalPositionState,
    fee_growth_inside_0_x64: u128,
    fee_growth_inside_1_x64: u128,
    liquidity: u128,
) -> Result<PersonalPositionState, CoreError> {
    let owed_0 = position.token_fees_owed_0 + fee_earned(
        fee_growth_inside_0_x64,
        position.fee_growth_inside_0_last_x64,
        position.liquidity,
    );
    let owed_1 = position.token_fees_owed_1 + fee_earned(
        fee_growth_inside_1_x64,
        position.fee_growth_inside_1_last_x64,
        position.liquidity,
    );
    if owed_0 <= u64::MAX && owed_1 <= u64::MAX && position.liquidity + liquidity <= u128::MAX {
        Ok(
            PersonalPositionState {
                liquidity: (position.liquidity + liquidity) as u128,
                fee_growth_inside_0_last_x64: fee_growth_inside_0_x64,
                fee_growth_inside_1_last_x64: fee_growth_inside_1_x64,
                token_fees_owed_0: owed_0 as u64,
                token_fees_owed_1: owed_1 as u64,
            },
        )
    } else {
        Err(CoreError::Overflow)
    }
}

/// Records a liquidity increase on a position: settles the fees both tokens
/// have earned on the liquidity held so far, takes the new snapshots, and
/// adds `liquidity`. Every new value is computed before any is stored, so a
/// failure leaves the position as it was.
pub fn increase_liquidity(
    personal_position: &mut PersonalPositionState,
    fee_growth_inside_0_x64: u128,
    fee_growth_inside_1_x64: u128,
    liquidity: u128,
) -> (r: Result<(), CoreError>)
    ensures
        match increase_liquidity_spec(
            *old(personal_position),
            fee_growth_inside_0_x64,
            fee_growth_inside_1_x64,
            liquidity,
        ) {
            Ok(next) => r is Ok && *final(personal_position) == next,
            Err(e) => r == Err::<(), CoreError>(e) && *final(personal_position) == *old(
                personal_position,
            ),
        },
{
    let (owed_0, snapshot_0) = match settle(
        personal_position.token_fees_owed_0,
        fee_growth_inside_0_x64,
        personal_position.fee_growth_inside_0_last_x64,
        personal_position.liquidity,
    ) {
        Ok(pair) => pair,
        Err(e) => {
            return Err(e);
        },
    };
    let (owed_1, snapshot_1) = match settle(
        personal_position.token_fees_owed_1,
        fee_growth_inside_1_x64,
        personal_position.fee_growth_inside_1_last_x64,
        personal_position.liquidity,
    ) {
        Ok(pair) => pair,
        Err(e) => {
            return Err(e);
        },
    };
    let new_liquidity = match personal_position.liquidity.checked_add(liquidity) {
        Some(sum) => sum,
        None => {
            return Err(CoreError::Overflow);
        },
    };
    personal_position.token_fees_owed_0 = owed_0;
    personal_position.token_fees_owed_1 = owed_1;
    personal_position.fee_growth_inside_0_last_x64 = snapshot_0;
    personal_position.fee_growth_inside_1_last_x64 = snapshot_1;
    personal_position.liquidity = new_liquidity;
    Ok(())
}

} // verus!
