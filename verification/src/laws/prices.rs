//! Which price a one-off calculation uses, and what the market data gives back.
use vstd::prelude::*;

use crate::protocol::OraclePriceData;
use crate::types::{lookup, selected_price};

verus! {

/// Only a price that was given is ever used.
pub proof fn law_price_is_one_of_two(
    oracle: OraclePriceData,
    pyth: Option<OraclePriceData>,
    threshold: u64,
)
    ensures
        selected_price(oracle, pyth, threshold) matches Some(price) ==> price == oracle || pyth
            == Some(price),
{
}

/// The oracle's price is used where no Pyth price is set, or one of zero.
pub proof fn law_oracle_price_without_pyth(
    oracle: OraclePriceData,
    pyth: Option<OraclePriceData>,
    threshold: u64,
)
    requires
        pyth matches Some(data) ==> data.price == 0,
    ensures
        selected_price(oracle, pyth, threshold) == Some(oracle),
{
}

/// A Pyth price is used wherever the oracle reports zero.
pub proof fn law_pyth_price_without_oracle(
    oracle: OraclePriceData,
    pyth: OraclePriceData,
    threshold: u64,
)
    requires
        pyth.price != 0,
        oracle.price == 0,
    ensures
        selected_price(oracle, Some(pyth), threshold) == Some(pyth),
{
}

/// With a threshold of zero a Pyth price is always used when set.
pub proof fn law_pyth_price_with_zero_threshold(oracle: OraclePriceData, pyth: OraclePriceData)
    requires
        pyth.price != 0,
    ensures
        selected_price(oracle, Some(pyth), 0) == Some(pyth),
{
}

/// A Pyth price that is used under one threshold is used under every smaller one.
pub proof fn law_smaller_threshold_prefers_pyth(
    oracle: OraclePriceData,
    pyth: OraclePriceData,
    smaller: u64,
    threshold: u64,
)
    requires
        smaller <= threshold,
        selected_price(oracle, Some(pyth), threshold) == Some(pyth),
    ensures
        selected_price(oracle, Some(pyth), smaller) == Some(pyth),
{
}

/// What is set under a market index is found there, and nothing else changes.
pub proof fn law_lookup_gives_back_what_was_set<V>(
    table: Map<u16, V>,
    market_index: u16,
    value: V,
)
    ensures
        lookup(table.insert(market_index, value), market_index) == Some(value),
        forall|other: u16|
            other != market_index ==> #[trigger] lookup(table.insert(market_index, value), other)
                == lookup(table, other),
{
}

} // verus!
