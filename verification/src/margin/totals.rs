//! The four sums of a margin calculation.
use vstd::prelude::*;

use crate::arith::{fits_i128, fits_u128};

verus! {

/// The four sums, or what a position adds to them, as numbers without bounds.
pub struct MarginTotals {
    pub collateral: int,
    pub collateral_buffer: int,
    pub requirement: int,
    pub requirement_plus_buffer: int,
}

impl MarginTotals {
    pub open spec fn zero() -> Self {
        MarginTotals {
            collateral: 0,
            collateral_buffer: 0,
            requirement: 0,
            requirement_plus_buffer: 0,
        }
    }

    pub open spec fn plus(self, other: Self) -> Self {
        MarginTotals {
            collateral: self.collateral + other.collateral,
            collateral_buffer: self.collateral_buffer + other.collateral_buffer,
            requirement: self.requirement + other.requirement,
            requirement_plus_buffer: self.requirement_plus_buffer + other.requirement_plus_buffer,
        }
    }

    pub open spec fn minus(self, other: Self) -> Self {
        MarginTotals {
            collateral: self.collateral - other.collateral,
            collateral_buffer: self.collateral_buffer - other.collateral_buffer,
            requirement: self.requirement - other.requirement,
            requirement_plus_buffer: self.requirement_plus_buffer - other.requirement_plus_buffer,
        }
    }

    /// Whether each sum is a number of the type that holds it.
    pub open spec fn fits(self) -> bool {
        &&& fits_i128(self.collateral)
        &&& fits_i128(self.collateral_buffer)
        &&& fits_u128(self.requirement)
        &&& fits_u128(self.requirement_plus_buffer)
    }
}

/// The four sums, or what a position adds to them.
#[derive(Copy, Clone, Debug, PartialEq, Eq, Structural)]
pub struct Amounts {
    pub collateral: i128,
    pub collateral_buffer: i128,
    pub requirement: u128,
    pub requirement_plus_buffer: u128,
}

impl View for Amounts {
    type V = MarginTotals;

    open spec fn view(&self) -> MarginTotals {
        MarginTotals {
            collateral: self.collateral as int,
            collateral_buffer: self.collateral_buffer as int,
            requirement: self.requirement as int,
            requirement_plus_buffer: self.requirement_plus_buffer as int,
        }
    }
}

impl Amounts {
    pub fn zero() -> (r: Self)
        ensures
            r@ == MarginTotals::zero(),
    {
        Amounts {
            collateral: 0,
            collateral_buffer: 0,
            requirement: 0,
            requirement_plus_buffer: 0,
        }
    }

    /// The sums with `other` added, `None` where one of them does not fit.
    pub fn checked_plus(self, other: Self) -> (r: Option<Self>)
        ensures
            match r {
                Some(sums) => sums@ == self@.plus(other@),
                None => !self@.plus(other@).fits(),
            },
    {
        match (
            self.collateral.checked_add(other.collateral),
            self.collateral_buffer.checked_add(other.collateral_buffer),
            self.requirement.checked_add(other.requirement),
            self.requirement_plus_buffer.checked_add(other.requirement_plus_buffer),
        ) {
            (
                Some(collateral),
                Some(collateral_buffer),
                Some(requirement),
                Some(requirement_plus_buffer),
            ) => Some(
                Amounts {
                    collateral,
                    collateral_buffer,
                    requirement,
                    requirement_plus_buffer,
                },
            ),
            _ => None,
        }
    }

    /// The sums with `other` taken off, `None` where one of them does not fit.
    pub fn checked_minus(self, other: Self) -> (r: Option<Self>)
        ensures
            match r {
                Some(sums) => sums@ == self@.minus(other@),
                None => !self@.minus(other@).fits(),
            },
    {
        match (
            self.collateral.checked_sub(other.collateral),
            self.collateral_buffer.checked_sub(other.collateral_buffer),
            self.requirement.checked_sub(other.requirement),
            self.requirement_plus_buffer.checked_sub(other.requirement_plus_buffer),
        ) {
            (
                Some(collateral),
                Some(collateral_buffer),
                Some(requirement),
                Some(requirement_plus_buffer),
            ) => Some(
                Amounts {
                    collateral,
                    collateral_buffer,
                    requirement,
                    requirement_plus_buffer,
                },
            ),
            _ => None,
        }
    }
}

} // verus!
