//! What the program is asked for, in the fields of the position, the markets and the prices.
use vstd::prelude::*;

use crate::arith::abs;
use crate::protocol::{
    ErrorCode, MarginRequirementType, OraclePriceData, PerpPosition, SpotBalanceType, SpotMarket,
    SpotPosition, User,
};
use crate::types::{selected_price, MarketState};
use crate::valuation::{
    requested_cached_perp, requested_cached_spot, requested_perp, requested_spot, simulated,
    PerpRequest, SpotRequest,
};

verus! {

/// Whether a Pyth price takes the place of an oracle price: it is set, and either nothing has
/// to be compared or it is at least a basis point further away than `threshold`.
pub open spec fn pyth_is_far(oracle: int, pyth: int, threshold: int) -> bool {
    let distance = if pyth < oracle {
        oracle - pyth
    } else {
        pyth - oracle
    };
    let size = if oracle < 0 {
        -oracle
    } else {
        oracle
    };
    pyth != 0 && (threshold == 0 || oracle == 0 || distance * 10_000 >= (threshold + 1) * size)
}

/// Whether the distance of a Pyth price is needed and, in basis points of one, no `u64`.
pub open spec fn pyth_is_too_far(oracle: int, pyth: int, threshold: int) -> bool {
    &&& pyth != 0
    &&& oracle != 0
    &&& threshold != 0
    &&& (pyth - oracle) * 10_000 > u64::MAX || (oracle - pyth) * 10_000 > u64::MAX
}

proof fn lemma_quotient_above(numerator: int, divisor: int, threshold: int)
    requires
        0 < divisor,
    ensures
        numerator / divisor > threshold <==> numerator >= (threshold + 1) * divisor,
{
    vstd::arithmetic::div_mod::lemma_fundamental_div_mod(numerator, divisor);
    let quotient = numerator / divisor;
    let remainder = numerator % divisor;
    if quotient > threshold {
        assert(divisor * quotient >= (threshold + 1) * divisor) by (nonlinear_arith)
            requires
                quotient >= threshold + 1,
                0 < divisor,
        ;
    } else {
        assert(divisor * quotient + divisor <= (threshold + 1) * divisor) by (nonlinear_arith)
            requires
                quotient <= threshold,
                0 < divisor,
        ;
    }
}

/// Between an oracle price and a Pyth price the Pyth price is used where it is far, the
/// oracle's where it is not, and neither where the distance does not fit. Without a Pyth price
/// the oracle's is used.
pub proof fn law_price_by_distance(
    oracle: OraclePriceData,
    pyth: OraclePriceData,
    threshold: u64,
)
    ensures
        ({
            let o = oracle.price as int;
            let p = pyth.price as int;
            let t = threshold as int;
            selected_price(oracle, Some(pyth), threshold) == if pyth_is_too_far(o, p, t) {
                None::<OraclePriceData>
            } else if pyth_is_far(o, p, t) {
                Some(pyth)
            } else {
                Some(oracle)
            }
        }),
        selected_price(oracle, None, threshold) == Some(oracle),
{
    if oracle.price != 0 {
        lemma_quotient_above(
            abs(pyth.price - oracle.price) * 10_000,
            abs(oracle.price as int),
            threshold as int,
        );
    }
}

/// What a one-off calculation asks for a spot position: nothing in an unknown market, an
/// error without an oracle price, and otherwise the position at the Pyth price where one is
/// set and far from the oracle's, and at the oracle's price where not. In the quote market a
/// position without open orders is asked for by its token value alone, unless it is a borrow
/// under a margin ratio of the user's own; every other position by a simulation under that
/// ratio.
pub proof fn law_spot_request(
    position: SpotPosition,
    state: MarketState,
    margin_type: MarginRequirementType,
    ratio: u32,
)
    ensures
        ({
            let request = requested_spot(position, state, margin_type, ratio);
            let index = position.market_index;
            let oracle = state.spot_oracle_prices@[index].price as int;
            let pyth = state.spot_pyth_prices@[index] as int;
            let has_pyth = state.spot_pyth_prices@.contains_key(index);
            let threshold = state.pyth_oracle_diff_threshold_bps as int;
            let market = state.spot_markets@[index];
            if !state.spot_markets@.contains_key(index) {
                request is None
            } else if !state.spot_oracle_prices@.contains_key(index) {
                request == Some(Err::<SpotRequest, ErrorCode>(ErrorCode::OracleNotFound))
            } else if has_pyth && pyth_is_too_far(oracle, pyth, threshold) {
                request is None
            } else {
                let price = if has_pyth && pyth_is_far(oracle, pyth, threshold) {
                    pyth
                } else {
                    oracle
                };
                match request {
                    Some(Ok(SpotRequest::TokenValue { price: asked, decimals })) => {
                        &&& asked == price
                        &&& decimals == market.decimals
                        &&& market.market_index == 0
                        &&& !position.has_open_order
                        &&& position.open_orders == 0
                        &&& ratio == 0 || position.balance_type == SpotBalanceType::Deposit
                    },
                    Some(
                        Ok(
                            SpotRequest::FillSimulation {
                                price: asked,
                                margin_type: asked_type,
                                custom_margin_ratio,
                            },
                        ),
                    ) => {
                        &&& asked == price
                        &&& asked_type == margin_type
                        &&& custom_margin_ratio == ratio
                        &&& market.market_index != 0 || position.has_open_order
                            || position.open_orders != 0 || (ratio != 0 && position.balance_type
                            == SpotBalanceType::Borrow)
                    },
                    _ => false,
                }
            }
        }),
{
    let index = position.market_index;
    if state.spot_oracle_prices@.contains_key(index) && state.spot_pyth_prices@.contains_key(
        index,
    ) {
        law_price_by_distance(
            state.spot_oracle_prices@[index],
            state.spot_pyth(index)->0,
            state.pyth_oracle_diff_threshold_bps,
        );
    }
}

/// What a one-off calculation asks for a perp position: nothing in an unknown market, an error
/// without the oracle price of its market or of the quote market, and otherwise the position
/// at the Pyth price, as exact and current data, where one is set and far from the oracle's,
/// and at the oracle's data where not. The quote price is always the oracle's. The larger of
/// the user's margin ratio and, for initial margin, the position's own is applied. The deposit
/// of an isolated position, and of no other, is valued in the quote market.
pub proof fn law_perp_request(
    position: PerpPosition,
    state: MarketState,
    margin_type: MarginRequirementType,
    ratio: u32,
    high_leverage_mode: bool,
)
    ensures
        ({
            let request = requested_perp(position, state, margin_type, ratio, high_leverage_mode);
            let index = position.market_index;
            let data = state.perp_oracle_prices@[index];
            let pyth = state.perp_pyth_prices@[index] as int;
            let has_pyth = state.perp_pyth_prices@.contains_key(index);
            let threshold = state.pyth_oracle_diff_threshold_bps as int;
            let market = state.perp_markets@[index];
            let quote = market.quote_spot_market_index;
            if !state.perp_markets@.contains_key(index) {
                request is None
            } else if !state.perp_oracle_prices@.contains_key(index) {
                request == Some(Err::<PerpRequest, ErrorCode>(ErrorCode::OracleNotFound))
            } else if has_pyth && pyth_is_too_far(data.price as int, pyth, threshold) {
                request is None
            } else if !state.spot_oracle_prices@.contains_key(quote) {
                request == Some(Err::<PerpRequest, ErrorCode>(ErrorCode::OracleNotFound))
            } else {
                request matches Some(Ok(asked)) && {
                    &&& has_pyth && pyth_is_far(data.price as int, pyth, threshold) ==> {
                        &&& asked.oracle_price.price == pyth
                        &&& asked.oracle_price.confidence == 0
                        &&& asked.oracle_price.delay == 0
                        &&& asked.oracle_price.has_sufficient_number_of_data_points
                        &&& asked.oracle_price.sequence_id is None
                    }
                    &&& !(has_pyth && pyth_is_far(data.price as int, pyth, threshold)) ==> {
                        &&& asked.oracle_price.price == data.price
                        &&& asked.oracle_price.confidence == data.confidence
                        &&& asked.oracle_price.delay == data.delay
                        &&& asked.oracle_price.has_sufficient_number_of_data_points
                            == data.has_sufficient_number_of_data_points
                        &&& asked.oracle_price.sequence_id == data.sequence_id
                    }
                    &&& asked.quote_price == state.spot_oracle_prices@[quote].price
                    &&& asked.margin_type == margin_type
                    &&& asked.high_leverage_mode == high_leverage_mode
                    &&& asked.custom_margin_ratio >= ratio
                    &&& margin_type == MarginRequirementType::Initial ==> {
                        &&& asked.custom_margin_ratio >= position.max_margin_ratio
                        &&& asked.custom_margin_ratio == ratio || asked.custom_margin_ratio
                            == position.max_margin_ratio
                    }
                    &&& margin_type != MarginRequirementType::Initial ==> asked.custom_margin_ratio
                        == ratio
                    &&& position.isolated ==> asked.deposit_market_index == Some(quote)
                    &&& !position.isolated ==> asked.deposit_market_index is None
                }
            }
        }),
{
    let index = position.market_index;
    if state.perp_oracle_prices@.contains_key(index) && state.perp_pyth_prices@.contains_key(
        index,
    ) {
        law_price_by_distance(
            state.perp_oracle_prices@[index],
            state.perp_pyth(index)->0,
            state.pyth_oracle_diff_threshold_bps,
        );
    }
}

/// An incremental calculation asks the same for a spot position as a one-off calculation
/// without Pyth prices does: always at the oracle's price, and nothing without one.
pub proof fn law_cached_spot_request(
    position: SpotPosition,
    state: MarketState,
    margin_type: MarginRequirementType,
    ratio: u32,
)
    ensures
        ({
            let request = requested_cached_spot(position, state, margin_type, ratio);
            let index = position.market_index;
            let market = state.spot_markets@[index];
            let oracle = state.spot_oracle_prices@[index];
            let plain = market.market_index == 0 && !position.has_open_order
                && position.open_orders == 0 && (ratio == 0 || position.balance_type
                == SpotBalanceType::Deposit);
            if !state.spot_markets@.contains_key(index) {
                request is None
            } else if !state.spot_oracle_prices@.contains_key(index) {
                request == Some(None::<SpotRequest>)
            } else if plain {
                request == Some(
                    Some(
                        SpotRequest::TokenValue { price: oracle.price, decimals: market.decimals },
                    ),
                )
            } else {
                request == Some(
                    Some(
                        SpotRequest::FillSimulation {
                            price: oracle.price,
                            margin_type,
                            custom_margin_ratio: ratio,
                        },
                    ),
                )
            }
        }),
{
}

/// An incremental calculation asks for a perp position at the oracle's data and the oracle's
/// quote price, with no margin ratio and no deposit, and for nothing where one of the two
/// prices is missing.
pub proof fn law_cached_perp_request(
    position: PerpPosition,
    state: MarketState,
    margin_type: MarginRequirementType,
    high_leverage_mode: bool,
)
    ensures
        ({
            let request = requested_cached_perp(position, state, margin_type, high_leverage_mode);
            let index = position.market_index;
            let quote = state.perp_markets@[index].quote_spot_market_index;
            if !state.perp_markets@.contains_key(index) {
                request is None
            } else if !state.perp_oracle_prices@.contains_key(index)
                || !state.spot_oracle_prices@.contains_key(quote) {
                request == Some(None::<PerpRequest>)
            } else {
                request == Some(
                    Some(
                        PerpRequest {
                            oracle_price: state.perp_oracle_prices@[index],
                            quote_price: state.spot_oracle_prices@[quote].price,
                            margin_type,
                            custom_margin_ratio: 0,
                            high_leverage_mode,
                            deposit_market_index: None,
                        },
                    ),
                )
            }
        }),
{
}

/// A spot position is simulated unless it is in the quote market, has no open orders and is a
/// deposit or under no margin ratio.
pub proof fn law_simulated_positions(position: SpotPosition, market: SpotMarket, ratio: u32)
    ensures
        !simulated(position, market, ratio) <==> market.market_index == 0
            && !position.has_open_order && position.open_orders == 0 && (ratio == 0
            || position.balance_type == SpotBalanceType::Deposit),
{
}

/// The ratio under which a user's positions are asked for is the user's own for initial
/// margin, and none for any other.
pub proof fn law_ratio_of_user(user: User, margin_type: MarginRequirementType)
    ensures
        margin_type == MarginRequirementType::Initial ==> user.custom_margin_ratio(margin_type)
            == user.max_margin_ratio,
        margin_type != MarginRequirementType::Initial ==> user.custom_margin_ratio(margin_type)
            == 0,
{
}

/// A Pyth price is handed out as exact, current and complete data, for each kind of market
/// under its own index.
pub proof fn law_pyth_prices_as_data(state: MarketState, market_index: u16)
    ensures
        match state.spot_pyth(market_index) {
            Some(data) => {
                &&& state.spot_pyth_prices@.contains_key(market_index)
                &&& data.price == state.spot_pyth_prices@[market_index]
                &&& data.confidence == 0
                &&& data.delay == 0
                &&& data.has_sufficient_number_of_data_points
                &&& data.sequence_id is None
            },
            None => !state.spot_pyth_prices@.contains_key(market_index),
        },
        match state.perp_pyth(market_index) {
            Some(data) => {
                &&& state.perp_pyth_prices@.contains_key(market_index)
                &&& data.price == state.perp_pyth_prices@[market_index]
                &&& data.confidence == 0
                &&& data.delay == 0
                &&& data.has_sufficient_number_of_data_points
                &&& data.sequence_id is None
            },
            None => !state.perp_pyth_prices@.contains_key(market_index),
        },
{
}

} // verus!
