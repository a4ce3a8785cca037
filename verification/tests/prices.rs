use drift_margin::protocol::{
    AssetTier, ContractTier, ErrorCode, MarginRequirementType, OraclePriceData, PerpMarket,
    PerpPosition, SpotBalanceType, SpotMarket, SpotPosition, User,
};
use drift_margin::types::{select_price, MarketState};
use drift_margin::valuation::{
    cached_perp_request, cached_spot_request, perp_request, spot_request, PerpRequest, SpotRequest,
};

fn oracle(price: i64) -> OraclePriceData {
    OraclePriceData {
        price,
        confidence: 1000,
        delay: 3,
        has_sufficient_number_of_data_points: false,
        sequence_id: Some(1),
    }
}

fn pyth(price: i64) -> OraclePriceData {
    OraclePriceData {
        price,
        confidence: 0,
        delay: 0,
        has_sufficient_number_of_data_points: true,
        sequence_id: None,
    }
}

fn markets() -> MarketState {
    let mut state = MarketState::default();
    state.set_spot_market(SpotMarket {
        market_index: 0,
        decimals: 6,
        asset_tier: AssetTier::Collateral,
    });
    state.set_spot_market(SpotMarket {
        market_index: 1,
        decimals: 9,
        asset_tier: AssetTier::Cross,
    });
    state.set_perp_market(PerpMarket {
        market_index: 2,
        quote_spot_market_index: 0,
        contract_tier: ContractTier::B,
    });
    state.set_spot_oracle_price(0, oracle(1_000_000));
    state.set_spot_oracle_price(1, oracle(200_000_000));
    state.set_perp_oracle_price(2, oracle(300_000_000));
    state
}

fn spot(market_index: u16) -> SpotPosition {
    SpotPosition {
        market_index,
        balance_type: SpotBalanceType::Deposit,
        available: false,
        ..SpotPosition::default()
    }
}

fn perp(market_index: u16) -> PerpPosition {
    PerpPosition { market_index, available: false, ..PerpPosition::default() }
}

#[test]
fn market_data_is_read_back() {
    let mut state = markets();
    assert_eq!(state.get_spot_market(1).decimals, 9);
    assert_eq!(state.get_perp_market(2).contract_tier, ContractTier::B);
    assert_eq!(state.get_spot_oracle_price(1), Some(&oracle(200_000_000)));
    assert_eq!(state.get_perp_oracle_price(2), Some(&oracle(300_000_000)));
    assert_eq!(state.get_perp_oracle_price(1), None);
    assert_eq!(state.get_spot_oracle_price(7), None);
    assert_eq!(state.get_spot_pyth_price(1), None);
    assert!(state.find_spot_market(7).is_none());
    assert!(state.find_perp_market(1).is_none());

    state.set_spot_oracle_price(1, oracle(5));
    assert_eq!(state.get_spot_oracle_price(1), Some(&oracle(5)));
    assert_eq!(state.get_spot_oracle_price(0), Some(&oracle(1_000_000)));

    state.set_spot_pyth_price(1, 6);
    state.set_perp_pyth_price(2, 7);
    assert_eq!(state.get_spot_pyth_price(1), Some(pyth(6)));
    assert_eq!(state.get_perp_pyth_price(2), Some(pyth(7)));
    assert_eq!(state.get_perp_pyth_price(1), None);
    assert_eq!(state.get_spot_pyth_price(2), None);

    state.set_spot_market(SpotMarket {
        market_index: 1,
        decimals: 8,
        asset_tier: AssetTier::Cross,
    });
    assert_eq!(state.find_spot_market(1).unwrap().decimals, 8);
    assert_eq!(state.find_perp_market(2).unwrap().quote_spot_market_index, 0);
}

#[test]
fn market_data_starts_empty() {
    let state = MarketState::default();
    assert!(state.spot_markets.is_empty());
    assert!(state.perp_markets.is_empty());
    assert!(state.spot_oracle_prices.is_empty());
    assert!(state.perp_oracle_prices.is_empty());
    assert!(state.spot_pyth_prices.is_empty());
    assert!(state.perp_pyth_prices.is_empty());
    assert_eq!(state.pyth_oracle_diff_threshold_bps, 0);
}

#[test]
fn oracle_price_without_a_pyth_price() {
    assert_eq!(select_price(oracle(100), None, 0), Some(oracle(100)));
    assert_eq!(select_price(oracle(100), Some(pyth(0)), 0), Some(oracle(100)));
    assert_eq!(select_price(oracle(0), Some(pyth(0)), 0), Some(oracle(0)));
}

#[test]
fn pyth_price_without_an_oracle_price() {
    assert_eq!(select_price(oracle(0), Some(pyth(100)), 50), Some(pyth(100)));
    assert_eq!(select_price(oracle(0), Some(pyth(-1)), u64::MAX), Some(pyth(-1)));
}

#[test]
fn pyth_price_beyond_the_threshold() {
    // 50 basis points away, above and below.
    assert_eq!(select_price(oracle(10_000), Some(pyth(10_050)), 49), Some(pyth(10_050)));
    assert_eq!(select_price(oracle(10_000), Some(pyth(9_950)), 49), Some(pyth(9_950)));
    assert_eq!(select_price(oracle(10_000), Some(pyth(10_050)), 50), Some(oracle(10_000)));
    assert_eq!(select_price(oracle(10_000), Some(pyth(9_950)), 51), Some(oracle(10_000)));
}

#[test]
fn pyth_price_is_always_used_with_a_threshold_of_zero() {
    for price in [1_000_001i64, 1_000_050, 1_000_000, 1, -1, i64::MAX] {
        assert_eq!(select_price(oracle(1_000_000), Some(pyth(price)), 0), Some(pyth(price)));
    }
}

#[test]
fn distance_is_rounded_down_to_basis_points() {
    assert_eq!(
        select_price(oracle(1_000_000), Some(pyth(1_000_199)), 1),
        Some(oracle(1_000_000))
    );
    assert_eq!(
        select_price(oracle(1_000_000), Some(pyth(1_000_200)), 1),
        Some(pyth(1_000_200))
    );
}

#[test]
fn smaller_threshold_prefers_the_pyth_price() {
    for threshold in 0..100u64 {
        assert_eq!(
            select_price(oracle(10_000), Some(pyth(10_100)), threshold),
            Some(pyth(10_100))
        );
    }
}

#[test]
fn negative_prices_are_compared_by_size() {
    assert_eq!(select_price(oracle(-10_000), Some(pyth(-10_100)), 99), Some(pyth(-10_100)));
    assert_eq!(select_price(oracle(-10_000), Some(pyth(-10_100)), 100), Some(oracle(-10_000)));
    assert_eq!(select_price(oracle(i64::MIN), Some(pyth(i64::MIN)), 1), Some(oracle(i64::MIN)));
}

#[test]
fn distance_that_does_not_fit_has_no_price() {
    assert_eq!(select_price(oracle(1), Some(pyth(i64::MAX)), 1), None);
    let largest: i64 = (u64::MAX / 10_000) as i64;
    assert_eq!(select_price(oracle(1), Some(pyth(largest + 1)), 1), Some(pyth(largest + 1)));
    assert_eq!(select_price(oracle(1), Some(pyth(largest + 2)), 1), None);
}

#[test]
fn spot_requests() {
    let mut state = markets();
    let initial = MarginRequirementType::Initial;
    let token_value = SpotRequest::TokenValue { price: 1_000_000, decimals: 6 };
    assert_eq!(spot_request(&spot(0), &state, initial, 0), Some(Ok(token_value)));
    // A margin ratio of the user's own changes nothing of a deposit without orders.
    assert_eq!(spot_request(&spot(0), &state, initial, 7), Some(Ok(token_value)));
    assert_eq!(cached_spot_request(&spot(0), &state, initial, 7), Some(Some(token_value)));
    // A borrow under such a ratio, and open orders, are simulated.
    let borrow = SpotPosition { balance_type: SpotBalanceType::Borrow, ..spot(0) };
    assert_eq!(spot_request(&borrow, &state, initial, 0), Some(Ok(token_value)));
    let simulation = SpotRequest::FillSimulation {
        price: 1_000_000,
        margin_type: initial,
        custom_margin_ratio: 7,
    };
    assert_eq!(spot_request(&borrow, &state, initial, 7), Some(Ok(simulation)));
    assert_eq!(cached_spot_request(&borrow, &state, initial, 7), Some(Some(simulation)));
    let simulation = SpotRequest::FillSimulation {
        price: 1_000_000,
        margin_type: initial,
        custom_margin_ratio: 0,
    };
    let with_orders = SpotPosition { has_open_order: true, ..spot(0) };
    assert_eq!(spot_request(&with_orders, &state, initial, 0), Some(Ok(simulation)));
    assert_eq!(cached_spot_request(&with_orders, &state, initial, 0), Some(Some(simulation)));
    let with_orders = SpotPosition { open_orders: 1, ..spot(0) };
    assert_eq!(spot_request(&with_orders, &state, initial, 0), Some(Ok(simulation)));
    let oracle_request = SpotRequest::FillSimulation {
        price: 200_000_000,
        margin_type: initial,
        custom_margin_ratio: 7,
    };
    assert_eq!(spot_request(&spot(1), &state, initial, 7), Some(Ok(oracle_request)));
    assert_eq!(spot_request(&spot(2), &state, initial, 7), None);

    state.set_spot_pyth_price(1, 300_000_000);
    assert_eq!(
        spot_request(&spot(1), &state, initial, 7),
        Some(Ok(SpotRequest::FillSimulation {
            price: 300_000_000,
            margin_type: initial,
            custom_margin_ratio: 7,
        }))
    );
    // The incremental calculation stays with the oracle.
    assert_eq!(cached_spot_request(&spot(1), &state, initial, 7), Some(Some(oracle_request)));
    assert_eq!(cached_spot_request(&spot(0), &state, initial, 0), Some(Some(token_value)));
    assert_eq!(cached_spot_request(&spot(2), &state, initial, 7), None);

    state.pyth_oracle_diff_threshold_bps = 5_000;
    assert_eq!(spot_request(&spot(1), &state, initial, 7), Some(Ok(oracle_request)));

    state.set_spot_market(SpotMarket {
        market_index: 3,
        decimals: 6,
        asset_tier: AssetTier::Cross,
    });
    assert_eq!(
        spot_request(&spot(3), &state, initial, 7),
        Some(Err(ErrorCode::OracleNotFound))
    );
    assert_eq!(cached_spot_request(&spot(3), &state, initial, 7), Some(None));
}

#[test]
fn perp_requests() {
    let mut state = markets();
    let initial = MarginRequirementType::Initial;
    let position = PerpPosition { max_margin_ratio: 500, isolated: true, ..perp(2) };
    let wanted = PerpRequest {
        oracle_price: oracle(300_000_000),
        quote_price: 1_000_000,
        margin_type: initial,
        custom_margin_ratio: 500,
        high_leverage_mode: true,
        deposit_market_index: Some(0),
    };
    assert_eq!(perp_request(&position, &state, initial, 7, true), Some(Ok(wanted)));
    assert_eq!(
        perp_request(&perp(2), &state, initial, 7, false),
        Some(Ok(PerpRequest {
            custom_margin_ratio: 7,
            high_leverage_mode: false,
            deposit_market_index: None,
            ..wanted
        }))
    );
    // The position's own ratio counts for initial margin only.
    let fill = MarginRequirementType::Fill;
    assert_eq!(
        perp_request(&position, &state, fill, 0, true),
        Some(Ok(PerpRequest { margin_type: fill, custom_margin_ratio: 0, ..wanted }))
    );
    assert_eq!(perp_request(&perp(9), &state, initial, 7, true), None);

    state.set_perp_pyth_price(2, 400_000_000);
    assert_eq!(
        perp_request(&position, &state, initial, 7, true),
        Some(Ok(PerpRequest { oracle_price: pyth(400_000_000), ..wanted }))
    );
    assert_eq!(
        cached_perp_request(&position, &state, initial, true),
        Some(Some(PerpRequest {
            custom_margin_ratio: 0,
            deposit_market_index: None,
            ..wanted
        }))
    );
    assert_eq!(cached_perp_request(&perp(9), &state, initial, true), None);

    state.set_perp_market(PerpMarket {
        market_index: 4,
        quote_spot_market_index: 8,
        contract_tier: ContractTier::A,
    });
    assert_eq!(
        perp_request(&perp(4), &state, initial, 7, true),
        Some(Err(ErrorCode::OracleNotFound))
    );
    assert_eq!(cached_perp_request(&perp(4), &state, initial, true), Some(None));
    state.set_perp_oracle_price(4, oracle(1));
    assert_eq!(
        perp_request(&perp(4), &state, initial, 7, true),
        Some(Err(ErrorCode::OracleNotFound))
    );
    assert_eq!(cached_perp_request(&perp(4), &state, initial, true), Some(None));
}

#[test]
fn custom_margin_ratio_is_for_initial_margin() {
    let user = User {
        spot_positions: [SpotPosition::default(); 8],
        perp_positions: [PerpPosition::default(); 8],
        max_margin_ratio: 2000,
        pool_id: 0,
        high_leverage_mode: false,
    };
    assert_eq!(user.get_custom_margin_ratio(MarginRequirementType::Initial), 2000);
    assert_eq!(user.get_custom_margin_ratio(MarginRequirementType::Fill), 0);
    assert_eq!(user.get_custom_margin_ratio(MarginRequirementType::Maintenance), 0);
}
