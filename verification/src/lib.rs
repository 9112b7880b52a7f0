//! Fee accounting for concentrated-liquidity positions: exact wide-integer
//! fixed-point arithmetic and the per-position accrual built on it.
//!
//! The layers, from the bottom up: [`wide_int`] fixes how 128-bit and
//! 256-bit values are held in limbs; [`mul_div`] and [`divide`] multiply two
//! 128-bit values exactly and divide the 256-bit product; [`fixed_point`]
//! names the scale `2^64`; [`narrowing`] brings a wide value down to a
//! narrower type or refuses; [`fee`] and [`position`] compute what a
//! position has earned and keep its balance.

pub mod divide;
pub mod error;
pub mod fee;
pub mod fixed_point;
pub mod limbs;
pub mod mul_div;
pub mod narrowing;
pub mod position;
pub mod wide_int;

pub use crate::error::{CoreError, DivideByZero, Overflow};
pub use crate::fee::{accrue, calculate_latest_token_fees, compute_fee_delta, settle};
pub use crate::fixed_point::Q64;
pub use crate::mul_div::{mul_div_ceil, mul_div_floor, multiply_full};
pub use crate::narrowing::narrow_checked_u64;
pub use crate::position::{increase_liquidity, PersonalPositionState, PositionFeeState};
pub use crate::wide_int::{WideInt128, WideInt256};
