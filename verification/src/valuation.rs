//! What the on-chain program is asked about a position, and what it answers.
//!
//! Only the program can value a position. A calculation first says what has to be
//! valued and at which prices (a request); the figures that the program gives back
//! are then handed to the calculation.
use vstd::prelude::*;

use crate::protocol::{
    ErrorCode, MarginRequirementType, OraclePriceData, PerpPosition, SpotBalanceType, SpotMarket,
    SpotPosition, QUOTE_SPOT_MARKET_INDEX,
};
use crate::types::{lookup, select_price, selected_price, MarketState};

verus! {

/// What has to be valued for a spot position.
#[derive(Copy, Clone, Debug, PartialEq, Eq, Structural)]
pub enum SpotRequest {
    /// The value of the position's signed token amount, for a position in the quote
    /// market that is not simulated.
    TokenValue { price: i64, decimals: u32 },
    /// The worst case of the position's open orders, with the user's own margin
    /// ratio applied.
    FillSimulation { price: i64, margin_type: MarginRequirementType, custom_margin_ratio: u32 },
}

/// What has to be valued for a perp position.
#[derive(Copy, Clone, Debug, PartialEq, Eq, Structural)]
pub struct PerpRequest {
    pub oracle_price: OraclePriceData,
    pub quote_price: i64,
    pub margin_type: MarginRequirementType,
    pub custom_margin_ratio: u32,
    pub high_leverage_mode: bool,
    /// The spot market in which an isolated position's own deposit is valued, at
    /// the quote price.
    pub deposit_market_index: Option<u16>,
}

/// The program's figures for a spot position, in quote precision.
#[derive(Copy, Clone, Debug, PartialEq, Eq, Structural)]
pub struct SpotFigures {
    pub token_value: i128,
    /// Read where the position is simulated.
    pub weighted_token_value: i128,
    /// Read where the position is simulated.
    pub orders_value: i128,
}

/// The program's figures for a perp position, in quote precision.
#[derive(Copy, Clone, Debug, PartialEq, Eq, Structural)]
pub struct PerpFigures {
    pub margin_requirement: u128,
    pub weighted_pnl: i128,
    pub worst_case_liability_value: u128,
    /// The value of an isolated position's own deposit; read for isolated
    /// positions.
    pub deposit_value: i128,
}

/// The program's answers for a user's positions, each at the position's place: the
/// figures, or the number of the error with which the program refused. Nothing is
/// read at the place of an available position.
#[derive(Debug)]
pub struct ProgramFigures {
    pub spot: [Result<SpotFigures, u32>; 8],
    pub perp: [Result<PerpFigures, u32>; 8],
}

pub open spec fn larger(a: u32, b: u32) -> u32 {
    if a >= b {
        a
    } else {
        b
    }
}

/// Whether the program simulates the worst case of a spot position: always outside the
/// quote market, and in it where the position has open orders or is a borrow for which a
/// margin ratio of the user's own counts.
pub open spec fn simulated(
    position: SpotPosition,
    market: SpotMarket,
    custom_margin_ratio: u32,
) -> bool {
    market.market_index != QUOTE_SPOT_MARKET_INDEX || position.has_open_order
        || position.open_orders != 0 || (custom_margin_ratio != 0 && position.balance_type
        == SpotBalanceType::Borrow)
}

/// [`simulated`], computed.
pub fn is_simulated(
    position: &SpotPosition,
    market: &SpotMarket,
    custom_margin_ratio: u32,
) -> (r: bool)
    ensures
        r == simulated(*position, *market, custom_margin_ratio),
{
    market.market_index != QUOTE_SPOT_MARKET_INDEX || position.has_open_order
        || position.open_orders != 0 || (custom_margin_ratio != 0 && position.balance_type
        == SpotBalanceType::Borrow)
}

/// What a one-off calculation asks for a spot position. `None` where the market is
/// unknown or no price can be selected.
pub open spec fn requested_spot(
    position: SpotPosition,
    market_state: MarketState,
    margin_type: MarginRequirementType,
    custom_margin_ratio: u32,
) -> Option<Result<SpotRequest, ErrorCode>> {
    match lookup(market_state.spot_markets@, position.market_index) {
        None => None,
        Some(market) => match lookup(market_state.spot_oracle_prices@, position.market_index) {
            None => Some(Err(ErrorCode::OracleNotFound)),
            Some(oracle) => match selected_price(
                oracle,
                market_state.spot_pyth(position.market_index),
                market_state.pyth_oracle_diff_threshold_bps,
            ) {
                None => None,
                Some(data) => if !simulated(position, market, custom_margin_ratio) {
                    Some(
                        Ok(
                            SpotRequest::TokenValue {
                                price: data.price,
                                decimals: market.decimals,
                            },
                        ),
                    )
                } else {
                    Some(
                        Ok(
                            SpotRequest::FillSimulation {
                                price: data.price,
                                margin_type,
                                custom_margin_ratio,
                            },
                        ),
                    )
                },
            },
        },
    }
}

/// What a one-off calculation asks for a perp position. `None` where the market is
/// unknown or no price can be selected. The larger of the user's and the position's
/// own margin ratio is applied, the position's for initial margin only.
pub open spec fn requested_perp(
    position: PerpPosition,
    market_state: MarketState,
    margin_type: MarginRequirementType,
    custom_margin_ratio: u32,
    high_leverage_mode: bool,
) -> Option<Result<PerpRequest, ErrorCode>> {
    match lookup(market_state.perp_markets@, position.market_index) {
        None => None,
        Some(market) => match lookup(market_state.perp_oracle_prices@, position.market_index) {
            None => Some(Err(ErrorCode::OracleNotFound)),
            Some(oracle) => match selected_price(
                oracle,
                market_state.perp_pyth(position.market_index),
                market_state.pyth_oracle_diff_threshold_bps,
            ) {
                None => None,
                Some(data) => match lookup(
                    market_state.spot_oracle_prices@,
                    market.quote_spot_market_index,
                ) {
                    None => Some(Err(ErrorCode::OracleNotFound)),
                    Some(quote) => Some(
                        Ok(
                            PerpRequest {
                                oracle_price: data,
                                quote_price: quote.price,
                                margin_type,
                                custom_margin_ratio: larger(
                                    custom_margin_ratio,
                                    if margin_type == MarginRequirementType::Initial {
                                        position.max_margin_ratio as u32
                                    } else {
                                        0
                                    },
                                ),
                                high_leverage_mode,
                                deposit_market_index: if position.isolated {
                                    Some(market.quote_spot_market_index)
                                } else {
                                    None
                                },
                            },
                        ),
                    ),
                },
            },
        },
    }
}

/// What an incremental calculation asks for a spot position, always at the oracle's
/// own price. `None` where the market is unknown, `Some(None)` where it has no
/// oracle price.
pub open spec fn requested_cached_spot(
    position: SpotPosition,
    market_state: MarketState,
    margin_type: MarginRequirementType,
    custom_margin_ratio: u32,
) -> Option<Option<SpotRequest>> {
    match lookup(market_state.spot_markets@, position.market_index) {
        None => None,
        Some(market) => match lookup(market_state.spot_oracle_prices@, position.market_index) {
            None => Some(None),
            Some(oracle) => if !simulated(position, market, custom_margin_ratio) {
                Some(
                    Some(
                        SpotRequest::TokenValue { price: oracle.price, decimals: market.decimals },
                    ),
                )
            } else {
                Some(
                    Some(
                        SpotRequest::FillSimulation {
                            price: oracle.price,
                            margin_type,
                            custom_margin_ratio,
                        },
                    ),
                )
            },
        },
    }
}

/// What an incremental calculation asks for a perp position, always at the oracle's
/// own price and without a margin ratio of the user's. `None` where the market is
/// unknown, `Some(None)` where it or its quote market has no oracle price.
pub open spec fn requested_cached_perp(
    position: PerpPosition,
    market_state: MarketState,
    margin_type: MarginRequirementType,
    high_leverage_mode: bool,
) -> Option<Option<PerpRequest>> {
    match lookup(market_state.perp_markets@, position.market_index) {
        None => None,
        Some(market) => match (
            lookup(market_state.perp_oracle_prices@, position.market_index),
            lookup(market_state.spot_oracle_prices@, market.quote_spot_market_index),
        ) {
            (Some(oracle), Some(quote)) => Some(
                Some(
                    PerpRequest {
                        oracle_price: oracle,
                        quote_price: quote.price,
                        margin_type,
                        custom_margin_ratio: 0,
                        high_leverage_mode,
                        deposit_market_index: None,
                    },
                ),
            ),
            _ => Some(None),
        },
    }
}

/// [`requested_spot`], computed.
pub fn spot_request(
    position: &SpotPosition,
    market_state: &MarketState,
    margin_type: MarginRequirementType,
    custom_margin_ratio: u32,
) -> (r: Option<Result<SpotRequest, ErrorCode>>)
    ensures
        r == requested_spot(*position, *market_state, margin_type, custom_margin_ratio),
{
    let market = match market_state.find_spot_market(position.market_index) {
        Some(market) => market,
        None => {
            return None;
        },
    };
    let oracle = match market_state.get_spot_oracle_price(position.market_index) {
        Some(oracle) => oracle,
        None => {
            return Some(Err(ErrorCode::OracleNotFound));
        },
    };
    let data = match select_price(
        *oracle,
        market_state.get_spot_pyth_price(position.market_index),
        market_state.pyth_oracle_diff_threshold_bps,
    ) {
        Some(data) => data,
        None => {
            return None;
        },
    };
    if !is_simulated(position, market, custom_margin_ratio) {
        Some(Ok(SpotRequest::TokenValue { price: data.price, decimals: market.decimals }))
    } else {
        Some(
            Ok(
                SpotRequest::FillSimulation {
                    price: data.price,
                    margin_type,
                    custom_margin_ratio,
                },
            ),
        )
    }
}

/// [`requested_perp`], computed.
pub fn perp_request(
    position: &PerpPosition,
    market_state: &MarketState,
    margin_type: MarginRequirementType,
    custom_margin_ratio: u32,
    high_leverage_mode: bool,
) -> (r: Option<Result<PerpRequest, ErrorCode>>)
    ensures
        r == requested_perp(
            *position,
            *market_state,
            margin_type,
            custom_margin_ratio,
            high_leverage_mode,
        ),
{
    let market = match market_state.find_perp_market(position.market_index) {
        Some(market) => market,
        None => {
            return None;
        },
    };
    let oracle = match market_state.get_perp_oracle_price(position.market_index) {
        Some(oracle) => oracle,
        None => {
            return Some(Err(ErrorCode::OracleNotFound));
        },
    };
    let data = match select_price(
        *oracle,
        market_state.get_perp_pyth_price(position.market_index),
        market_state.pyth_oracle_diff_threshold_bps,
    ) {
        Some(data) => data,
        None => {
            return None;
        },
    };
    let quote = match market_state.get_spot_oracle_price(market.quote_spot_market_index) {
        Some(quote) => quote,
        None => {
            return Some(Err(ErrorCode::OracleNotFound));
        },
    };
    let position_ratio: u32 = if margin_type == MarginRequirementType::Initial {
        position.max_margin_ratio as u32
    } else {
        0
    };
    Some(
        Ok(
            PerpRequest {
                oracle_price: data,
                quote_price: quote.price,
                margin_type,
                custom_margin_ratio: if custom_margin_ratio >= position_ratio {
                    custom_margin_ratio
                } else {
                    position_ratio
                },
                high_leverage_mode,
                deposit_market_index: if position.isolated {
                    Some(market.quote_spot_market_index)
                } else {
                    None
                },
            },
        ),
    )
}

/// [`requested_cached_spot`], computed.
pub fn cached_spot_request(
    position: &SpotPosition,
    market_state: &MarketState,
    margin_type: MarginRequirementType,
    custom_margin_ratio: u32,
) -> (r: Option<Option<SpotRequest>>)
    ensures
        r == requested_cached_spot(*position, *market_state, margin_type, custom_margin_ratio),
{
    let market = match market_state.find_spot_market(position.market_index) {
        Some(market) => market,
        None => {
            return None;
        },
    };
    let oracle = match market_state.get_spot_oracle_price(position.market_index) {
        Some(oracle) => oracle,
        None => {
            return Some(None);
        },
    };
    if !is_simulated(position, market, custom_margin_ratio) {
        Some(Some(SpotRequest::TokenValue { price: oracle.price, decimals: market.decimals }))
    } else {
        Some(
            Some(
                SpotRequest::FillSimulation {
                    price: oracle.price,
                    margin_type,
                    custom_margin_ratio,
                },
            ),
        )
    }
}

/// [`requested_cached_perp`], computed.
pub fn cached_perp_request(
    position: &PerpPosition,
    market_state: &MarketState,
    margin_type: MarginRequirementType,
    high_leverage_mode: bool,
) -> (r: Option<Option<PerpRequest>>)
    ensures
        r == requested_cached_perp(*position, *market_state, margin_type, high_leverage_mode),
{
    let market = match market_state.find_perp_market(position.market_index) {
        Some(market) => market,
        None => {
            return None;
        },
    };
    let oracle = match market_state.get_perp_oracle_price(position.market_index) {
        Some(oracle) => oracle,
        None => {
            return Some(None);
        },
    };
    let quote = match market_state.get_spot_oracle_price(market.quote_spot_market_index) {
        Some(quote) => quote,
        None => {
            return Some(None);
        },
    };
    Some(
        Some(
            PerpRequest {
                oracle_price: *oracle,
                quote_price: quote.price,
                margin_type,
                custom_margin_ratio: 0,
                high_leverage_mode,
                deposit_market_index: None,
            },
        ),
    )
}

} // verus!
