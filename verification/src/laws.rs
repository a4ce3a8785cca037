//! What holds of the calculations as a whole.
pub mod agreement;
pub mod buffers;
pub mod checks;
pub mod contributions;
pub mod entries;
pub mod interface;
pub mod outcomes;
pub mod positions;
pub mod prices;
pub mod questions;
pub mod recalculation;
pub mod requests;
pub mod sums;
pub mod upkeep;
