//! The margin of a Drift user.
//!
//! Two calculations come to a user's collateral and margin requirement from the user's
//! positions and the market data: one that goes over all positions once
//! ([`margin::simplified`]), and one that keeps what each position adds, so that a single
//! position can be calculated anew ([`margin::incremental`]).
//!
//! What only the on-chain program can compute, such as the worst case of a position's
//! open orders, is not computed here. The library says what it needs to know about each
//! position and at which prices ([`valuation`]), takes the program's figures as plain
//! values and does the rest. [`laws`] states what holds of the calculations as a whole.
pub mod arith;
pub mod exports;
mod fx;
pub mod laws;
pub mod margin;
pub mod protocol;
pub mod shims;
pub mod table;
pub mod types;
pub mod valuation;
