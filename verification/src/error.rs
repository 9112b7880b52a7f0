//! The two ways a computation can fail. Both depend on the inputs alone:
//! the same call fails the same way every time.

use vstd::prelude::*;
use vstd::std_specs::convert::FromSpecImpl;

verus! {

/// The divisor was zero.
#[derive(Debug, Clone, Copy, PartialEq, Eq)]
pub struct DivideByZero;

/// A value does not fit the width it was asked to fit.
#[derive(Debug, Clone, Copy, PartialEq, Eq)]
pub struct Overflow;

/// Any failure of the fee computation.
#[derive(Debug, Clone, Copy, PartialEq, Eq)]
pub enum CoreError {
    /// The divisor was zero.
    DivideByZero,
    /// A value does not fit the width it was asked to fit.
    Overflow,
}

impl From<DivideByZero> for CoreError {
    fn from(_e: DivideByZero) -> (r: CoreError) {
        CoreError::DivideByZero
    }
}

impl FromSpecImpl<DivideByZero> for CoreError {
    open spec fn obeys_from_spec() -> bool {
        true
    }

    open spec fn from_spec(_e: DivideByZero) -> CoreError {
        CoreError::DivideByZero
    }
}

impl From<Overflow> for CoreError {
    fn from(_e: Overflow) -> (r: CoreError) {
        CoreError::Overflow
    }
}

impl FromSpecImpl<Overflow> for CoreError {
    open spec fn obeys_from_spec() -> bool {
        true
    }

    open spec fn from_spec(_e: Overflow) -> CoreError {
        CoreError::Overflow
    }
}

} // verus!
