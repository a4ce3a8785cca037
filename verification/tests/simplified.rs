use drift_margin::margin::simplified::checked_calculate_simplified_margin_requirement;
use drift_margin::margin::{
    calculate_simplified_margin_requirement, can_be_liquidated, IncrementalMarginCalculation,
    IsolatedMarginCalculation, SimplifiedMarginCalculation,
};
use drift_margin::protocol::{
    AssetTier, ContractTier, ErrorCode, MarginRequirementType, OraclePriceData, PerpMarket,
    PerpPosition, SpotBalanceType, SpotMarket, SpotPosition, User,
};
use drift_margin::types::MarketState;
use drift_margin::valuation::{
    spot_request, PerpFigures, ProgramFigures, SpotFigures, SpotRequest,
};

const PRICE_PRECISION: i64 = 1_000_000;

fn price_of(price: i64) -> OraclePriceData {
    OraclePriceData {
        price,
        confidence: 1000,
        delay: 0,
        has_sufficient_number_of_data_points: true,
        sequence_id: Some(1),
    }
}

fn spot_position(market_index: u16, balance_type: SpotBalanceType) -> SpotPosition {
    SpotPosition {
        market_index,
        balance_type,
        open_orders: 0,
        available: false,
        has_open_order: false,
    }
}

fn spot_figures(value: i128) -> Result<SpotFigures, u32> {
    Ok(SpotFigures { token_value: value, weighted_token_value: value, orders_value: 0 })
}

fn no_figures() -> ProgramFigures {
    ProgramFigures { spot: [Err(0); 8], perp: [Err(0); 8] }
}

/// A user with ten dollars of the quote token, and markets for the quote token, for
/// SOL at 200 dollars and for a SOL perp.
fn simplified_setup() -> (User, MarketState, ProgramFigures) {
    let mut market_state = MarketState::default();
    market_state.set_spot_market(SpotMarket {
        market_index: 0,
        decimals: 6,
        asset_tier: AssetTier::Collateral,
    });
    market_state.set_spot_market(SpotMarket {
        market_index: 1,
        decimals: 6,
        asset_tier: AssetTier::Collateral,
    });
    market_state.set_perp_market(PerpMarket {
        market_index: 0,
        quote_spot_market_index: 0,
        contract_tier: ContractTier::A,
    });
    market_state.set_spot_oracle_price(0, price_of(PRICE_PRECISION));
    market_state.set_spot_oracle_price(1, price_of(200 * PRICE_PRECISION));
    market_state.set_perp_oracle_price(0, price_of(200 * PRICE_PRECISION));

    let mut spot_positions = [SpotPosition::default(); 8];
    spot_positions[0] = spot_position(0, SpotBalanceType::Deposit);
    let user = User {
        spot_positions,
        perp_positions: [PerpPosition::default(); 8],
        max_margin_ratio: 0,
        pool_id: 0,
        high_leverage_mode: false,
    };
    let mut figures = no_figures();
    figures.spot[0] = spot_figures(10_000_000);
    (user, market_state, figures)
}

/// The same user in high leverage mode, with a perp at one dollar and no SOL market.
fn high_leverage_setup() -> (User, MarketState, ProgramFigures) {
    let mut market_state = MarketState::default();
    market_state.set_spot_market(SpotMarket {
        market_index: 0,
        decimals: 6,
        asset_tier: AssetTier::Collateral,
    });
    market_state.set_perp_market(PerpMarket {
        market_index: 0,
        quote_spot_market_index: 0,
        contract_tier: ContractTier::A,
    });
    market_state.set_spot_oracle_price(0, price_of(PRICE_PRECISION));
    market_state.set_perp_oracle_price(0, price_of(PRICE_PRECISION));
    let (mut user, _, figures) = simplified_setup();
    user.high_leverage_mode = true;
    (user, market_state, figures)
}

fn perp_position(base_asset_amount: i64, quote_asset_amount: i64) -> PerpPosition {
    PerpPosition {
        market_index: 0,
        base_asset_amount,
        quote_asset_amount,
        available: false,
        ..PerpPosition::default()
    }
}

fn perp_figures(margin_requirement: u128, weighted_pnl: i128) -> Result<PerpFigures, u32> {
    Ok(PerpFigures {
        margin_requirement,
        weighted_pnl,
        worst_case_liability_value: 200_000_000,
        deposit_value: 0,
    })
}

#[test]
fn test_simplified_margin_calculation_basic() {
    let (user, market_state, figures) = simplified_setup();
    let calculation = calculate_simplified_margin_requirement(
        &user,
        &market_state,
        MarginRequirementType::Initial,
        100,
        &figures,
    )
    .unwrap();
    assert!(calculation.total_collateral > 0);
    assert_eq!(calculation.margin_requirement, 0);
    assert!(calculation.free_collateral() > 0);
}

#[test]
fn test_simplified_margin_calculation_with_perp_positive_pnl() {
    let (mut user, market_state, mut figures) = simplified_setup();
    user.perp_positions[0] = perp_position(1_000_000_000, -90_000_000);
    figures.perp[0] = perp_figures(40_000_000, 110_000_000);
    let calculation = calculate_simplified_margin_requirement(
        &user,
        &market_state,
        MarginRequirementType::Initial,
        0,
        &figures,
    )
    .unwrap();
    assert!(calculation.total_collateral > 0);
    assert!(calculation.free_collateral() > 0);
    assert!(calculation.margin_requirement > 0);
    assert_eq!(calculation.total_collateral, 120_000_000);
    assert_eq!(calculation.margin_requirement, 40_000_000);
}

#[test]
fn test_simplified_margin_calculation_with_perp_negative_pnl() {
    let (mut user, market_state, mut figures) = simplified_setup();
    user.perp_positions[0] = perp_position(1_000_000_000, -110_000_000);
    figures.perp[0] = perp_figures(40_000_000, 90_000_000);
    let calculation = calculate_simplified_margin_requirement(
        &user,
        &market_state,
        MarginRequirementType::Initial,
        0,
        &figures,
    )
    .unwrap();
    assert!(calculation.margin_requirement > 0);
}

#[test]
fn test_simplified_margin_calculation_maintenance_margin() {
    let (user, market_state, figures) = simplified_setup();
    let calculation = calculate_simplified_margin_requirement(
        &user,
        &market_state,
        MarginRequirementType::Maintenance,
        0,
        &figures,
    )
    .unwrap();
    assert!(calculation.total_collateral > 0);
    assert_eq!(calculation.margin_requirement, 0);
    assert!(calculation.free_collateral() > 0);
}

#[test]
fn test_high_leverage_mode_spot_positions_unaffected() {
    let (mut user, market_state, mut figures) = high_leverage_setup();
    user.spot_positions[1] = spot_position(0, SpotBalanceType::Borrow);
    figures.spot[1] = spot_figures(-5_000_000);
    let calculation = calculate_simplified_margin_requirement(
        &user,
        &market_state,
        MarginRequirementType::Initial,
        100,
        &figures,
    )
    .unwrap();
    assert!(calculation.total_collateral > 0);
    assert!(calculation.margin_requirement > 0);
    assert!(calculation.free_collateral() > 0);
    // One per cent of five dollars.
    assert_eq!(calculation.margin_requirement_plus_buffer, 5_050_000);
}

#[test]
fn test_spot_position_without_open_orders() {
    let (user, market_state, figures) = simplified_setup();
    let calculation = calculate_simplified_margin_requirement(
        &user,
        &market_state,
        MarginRequirementType::Initial,
        0,
        &figures,
    )
    .unwrap();
    assert!(calculation.total_collateral > 0);
    assert_eq!(calculation.margin_requirement, 0);
    assert!(calculation.free_collateral() > 0);
}

/// A user of pool 1 with a deposit of 1000, and the market of the quote token.
fn pool_one_setup() -> (User, MarketState, ProgramFigures) {
    let mut market_state = MarketState::default();
    market_state.set_spot_market(SpotMarket {
        market_index: 0,
        decimals: 6,
        asset_tier: AssetTier::Collateral,
    });
    market_state.set_spot_oracle_price(0, price_of(1_000_000));
    let (mut user, _, mut figures) = simplified_setup();
    user.pool_id = 1;
    figures.spot[0] = spot_figures(1000);
    (user, market_state, figures)
}

#[test]
fn test_simplified_margin_calculation_with_trait() {
    let (user, market_state, figures) = pool_one_setup();
    let result = calculate_simplified_margin_requirement(
        &user,
        &market_state,
        MarginRequirementType::Initial,
        0,
        &figures,
    )
    .unwrap();
    assert!(result.free_collateral() > 0);
    assert!(!can_be_liquidated(&result));
}

#[test]
fn test_margin_calculation_with_borrow_position() {
    let (mut user, mut market_state, mut figures) = pool_one_setup();
    user.spot_positions[1] = spot_position(1, SpotBalanceType::Borrow);
    market_state.set_spot_market(SpotMarket {
        market_index: 1,
        decimals: 9,
        asset_tier: AssetTier::Collateral,
    });
    // SOL stands at one hundred dollars here. At one hundred thousand the borrow is larger
    // than the deposit; see the test below.
    market_state.set_spot_oracle_price(1, price_of(100 * PRICE_PRECISION));
    // 500 of 10^9, with a liability weight of 110 per cent.
    figures.spot[1] = Ok(SpotFigures {
        token_value: -50,
        weighted_token_value: -55,
        orders_value: 0,
    });
    let result = calculate_simplified_margin_requirement(
        &user,
        &market_state,
        MarginRequirementType::Initial,
        0,
        &figures,
    )
    .unwrap();
    assert!(result.margin_requirement > 0);
    assert!(result.free_collateral() > 0);
}

#[test]
fn a_deposit_counts_beside_a_larger_borrow() {
    let (mut user, mut market_state, mut figures) = pool_one_setup();
    user.spot_positions[1] = spot_position(1, SpotBalanceType::Borrow);
    market_state.set_spot_market(SpotMarket {
        market_index: 1,
        decimals: 9,
        asset_tier: AssetTier::Collateral,
    });
    market_state.set_spot_oracle_price(1, price_of(100_000_000_000));
    figures.spot[1] = Ok(SpotFigures {
        token_value: -50_000,
        weighted_token_value: -55_000,
        orders_value: 0,
    });
    let result = initial(&user, &market_state, 0, &figures);
    assert_eq!(result.total_collateral, 1_000);
    assert_eq!(result.margin_requirement, 55_000);
    assert_eq!(result.free_collateral(), -54_000);
    assert!(can_be_liquidated(&result));
}

#[test]
fn test_spot_position_with_open_orders() {
    let (mut user, market_state, mut figures) = simplified_setup();
    // Bids for 100 and asks for 50.
    user.spot_positions[1] = SpotPosition {
        open_orders: 0,
        has_open_order: true,
        ..spot_position(0, SpotBalanceType::Deposit)
    };
    figures.spot[1] = Ok(SpotFigures {
        token_value: 1_000_000_100,
        weighted_token_value: 1_000_000_100,
        orders_value: -100,
    });
    let calculation = calculate_simplified_margin_requirement(
        &user,
        &market_state,
        MarginRequirementType::Initial,
        0,
        &figures,
    )
    .unwrap();
    assert!(calculation.total_collateral > 0);
    assert!(calculation.margin_requirement > 0);
    assert!(calculation.free_collateral() > 0);
}

#[test]
fn test_spot_position_user_custom_margin_ratio() {
    let (mut user, market_state, mut figures) = simplified_setup();
    user.max_margin_ratio = 2000;
    user.spot_positions[1] = spot_position(0, SpotBalanceType::Borrow);
    // For initial margin the ratio counts for the borrow.
    figures.spot[1] = Ok(SpotFigures {
        token_value: -1_000_000_000,
        weighted_token_value: -1_200_000_000,
        orders_value: 0,
    });
    let calculation_initial = calculate_simplified_margin_requirement(
        &user,
        &market_state,
        MarginRequirementType::Initial,
        0,
        &figures,
    )
    .unwrap();
    figures.spot[1] = spot_figures(-1_000_000_000);
    let calculation_maintenance = calculate_simplified_margin_requirement(
        &user,
        &market_state,
        MarginRequirementType::Maintenance,
        0,
        &figures,
    )
    .unwrap();
    assert!(calculation_initial.margin_requirement > calculation_maintenance.margin_requirement);
}

#[test]
fn test_spot_position_equivalence_simple_vs_simulation() {
    let (user, market_state, figures) = simplified_setup();
    let calculation_simple = calculate_simplified_margin_requirement(
        &user,
        &market_state,
        MarginRequirementType::Initial,
        0,
        &figures,
    )
    .unwrap();
    let (mut user_with_orders, _, _) = simplified_setup();
    user_with_orders.pool_id = 1;
    let calculation_with_orders = calculate_simplified_margin_requirement(
        &user_with_orders,
        &market_state,
        MarginRequirementType::Initial,
        0,
        &figures,
    )
    .unwrap();
    assert_eq!(
        calculation_simple.total_collateral,
        calculation_with_orders.total_collateral
    );
    assert_eq!(
        calculation_simple.margin_requirement,
        calculation_with_orders.margin_requirement
    );
    assert_eq!(
        calculation_simple.free_collateral(),
        calculation_with_orders.free_collateral()
    );
}

/// The high leverage setup with the position of 1 against -110. The perp stands at two
/// hundred dollars here, not at the one dollar of the setup, at which the position has a loss
/// of 109 dollars; see the test of that loss below.
fn high_leverage_perp_setup(
    margin_requirement: u128,
) -> (User, MarketState, ProgramFigures) {
    let (mut user, mut market_state, mut figures) = high_leverage_setup();
    market_state.set_perp_oracle_price(0, price_of(200 * PRICE_PRECISION));
    user.perp_positions[0] = perp_position(1_000_000_000, -110_000_000);
    figures.perp[0] = perp_figures(margin_requirement, 90_000_000);
    (user, market_state, figures)
}

#[test]
fn a_loss_beyond_the_deposit_in_high_leverage_mode() {
    let (mut user, market_state, mut figures) = high_leverage_setup();
    user.perp_positions[0] = perp_position(1_000_000_000, -110_000_000);
    // Ten and five per cent of one dollar.
    for (margin_type, margin_requirement) in [
        (MarginRequirementType::Initial, 100_000u128),
        (MarginRequirementType::Maintenance, 50_000),
    ] {
        figures.perp[0] = Ok(PerpFigures {
            margin_requirement,
            weighted_pnl: -109_000_000,
            worst_case_liability_value: 1_000_000,
            deposit_value: 0,
        });
        let calculation = calculate_simplified_margin_requirement(
            &user,
            &market_state,
            margin_type,
            0,
            &figures,
        )
        .unwrap();
        assert_eq!(calculation.total_collateral, -99_000_000);
        assert_eq!(calculation.margin_requirement, margin_requirement);
        assert!(calculation.free_collateral() < 0);
    }
}

#[test]
fn test_high_leverage_mode_perp_position_initial_margin() {
    let (user, market_state, figures) = high_leverage_perp_setup(20_000_000);
    let calculation = calculate_simplified_margin_requirement(
        &user,
        &market_state,
        MarginRequirementType::Initial,
        0,
        &figures,
    )
    .unwrap();
    assert!(calculation.total_collateral > 0);
    assert!(calculation.margin_requirement > 0);
    assert!(calculation.free_collateral() > 0);
}

#[test]
fn test_high_leverage_mode_perp_position_maintenance_margin() {
    let (user, market_state, figures) = high_leverage_perp_setup(10_000_000);
    let calculation = calculate_simplified_margin_requirement(
        &user,
        &market_state,
        MarginRequirementType::Maintenance,
        0,
        &figures,
    )
    .unwrap();
    assert!(calculation.total_collateral > 0);
    assert!(calculation.margin_requirement > 0);
    assert!(calculation.free_collateral() > 0);
}

#[test]
fn test_high_leverage_mode_vs_regular_mode_comparison() {
    let (user_hl, market_state_hl, figures_hl) = high_leverage_perp_setup(20_000_000);
    let (mut user_reg, market_state_reg, mut figures_reg) = simplified_setup();
    user_reg.perp_positions[0] = perp_position(1_000_000_000, -110_000_000);
    figures_reg.perp[0] = perp_figures(40_000_000, 90_000_000);

    let calculation_hl = calculate_simplified_margin_requirement(
        &user_hl,
        &market_state_hl,
        MarginRequirementType::Initial,
        0,
        &figures_hl,
    )
    .unwrap();
    let calculation_reg = calculate_simplified_margin_requirement(
        &user_reg,
        &market_state_reg,
        MarginRequirementType::Initial,
        0,
        &figures_reg,
    )
    .unwrap();
    assert!(calculation_hl.margin_requirement < calculation_reg.margin_requirement);
    assert!(calculation_hl.total_collateral > 0);
    assert!(calculation_reg.total_collateral > 0);
    assert!(calculation_hl.free_collateral() > 0);
    assert!(calculation_reg.free_collateral() > 0);
}

#[test]
fn test_spot_position_with_open_orders_borrow() {
    let (mut user, market_state, mut figures) = simplified_setup();
    user.spot_positions[1] = SpotPosition {
        open_orders: 5,
        has_open_order: true,
        ..spot_position(0, SpotBalanceType::Borrow)
    };
    figures.spot[1] = spot_figures(-500_000_000);
    let calculation = calculate_simplified_margin_requirement(
        &user,
        &market_state,
        MarginRequirementType::Initial,
        0,
        &figures,
    )
    .unwrap();
    assert!(calculation.total_collateral > 0);
    assert!(calculation.margin_requirement > 0);
}

/// Both calculations of a user for maintenance margin, without a buffer.
fn assert_calculations_agree(user: &User, market_state: &MarketState, figures: &ProgramFigures) {
    let simplified = calculate_simplified_margin_requirement(
        user,
        market_state,
        MarginRequirementType::Maintenance,
        0,
        figures,
    )
    .unwrap();
    let cached = IncrementalMarginCalculation::from_user(
        user,
        market_state,
        MarginRequirementType::Maintenance,
        1000,
        0,
        figures,
    );
    assert_eq!(simplified.total_collateral, cached.total_collateral);
    assert_eq!(simplified.margin_requirement, cached.margin_requirement);
    assert_eq!(simplified.free_collateral(), cached.free_collateral());
}

#[test]
fn test_simplified_vs_cached_margin_calculation_equivalence() {
    let (user, market_state, figures) = simplified_setup();
    assert_calculations_agree(&user, &market_state, &figures);
}

#[test]
fn test_simplified_vs_cached_with_spot_borrow() {
    let (mut user, market_state, mut figures) = simplified_setup();
    user.spot_positions[1] = spot_position(1, SpotBalanceType::Borrow);
    figures.spot[1] = spot_figures(-200_000_000);
    assert_calculations_agree(&user, &market_state, &figures);
}

#[test]
fn test_simplified_vs_cached_with_perp_position() {
    let (mut user, market_state, mut figures) = simplified_setup();
    user.perp_positions[0] = perp_position(1_000_000_000, -100_000_000);
    figures.perp[0] = perp_figures(20_000_000, 100_000_000);
    assert_calculations_agree(&user, &market_state, &figures);
}

#[test]
fn test_simplified_vs_cached_with_open_orders() {
    let (user, market_state, figures) = simplified_setup();
    assert_calculations_agree(&user, &market_state, &figures);
}

#[test]
fn test_simplified_vs_cached_maintenance_margin() {
    let (user, market_state, figures) = simplified_setup();
    assert_calculations_agree(&user, &market_state, &figures);
}

#[test]
fn test_simplified_vs_cached_high_leverage_mode() {
    let (user, market_state, figures) = high_leverage_setup();
    assert_calculations_agree(&user, &market_state, &figures);
}

#[test]
fn test_simplified_vs_cached_custom_margin_ratio() {
    let (mut user, market_state, mut figures) = simplified_setup();
    user.max_margin_ratio = 2000;
    user.spot_positions[1] = spot_position(1, SpotBalanceType::Borrow);
    figures.spot[1] = spot_figures(-200_000_000);
    assert_calculations_agree(&user, &market_state, &figures);
}

#[test]
fn test_margin_buffer_functionality() {
    let (mut user, market_state, mut figures) = simplified_setup();
    user.spot_positions[1] = spot_position(1, SpotBalanceType::Borrow);
    figures.spot[1] = spot_figures(-200_000_000);

    let no_buffer = calculate_simplified_margin_requirement(
        &user,
        &market_state,
        MarginRequirementType::Maintenance,
        0,
        &figures,
    )
    .unwrap();
    let with_buffer = calculate_simplified_margin_requirement(
        &user,
        &market_state,
        MarginRequirementType::Maintenance,
        10_000,
        &figures,
    )
    .unwrap();

    assert!(with_buffer.margin_requirement_plus_buffer > no_buffer.margin_requirement);
    assert!(with_buffer.free_collateral_with_buffer() < no_buffer.free_collateral());
    assert!(
        with_buffer.total_collateral_buffer != 0
            || with_buffer.margin_requirement_plus_buffer > with_buffer.margin_requirement
    );
    assert_eq!(no_buffer.total_collateral_buffer, 0);
    assert_eq!(
        no_buffer.margin_requirement_plus_buffer,
        no_buffer.margin_requirement
    );
}

#[test]
fn test_isolated_perp_position() {
    let (mut user, market_state, mut figures) = simplified_setup();
    user.perp_positions[0] = PerpPosition {
        isolated: true,
        ..perp_position(1_000_000_000, -100_000_000)
    };
    figures.perp[0] = Ok(PerpFigures {
        margin_requirement: 40_000_000,
        weighted_pnl: 100_000_000,
        worst_case_liability_value: 200_000_000,
        deposit_value: 50_000_000,
    });
    let calculation = calculate_simplified_margin_requirement(
        &user,
        &market_state,
        MarginRequirementType::Initial,
        0,
        &figures,
    )
    .unwrap();
    assert!(calculation.has_isolated_margin_calculation(0));
    assert!(calculation.with_perp_isolated_liability);

    let iso_calc = calculation.get_isolated_margin_calculation(0).unwrap();
    assert!(iso_calc.margin_requirement > 0);
    assert!(iso_calc.total_collateral > 0);
}

fn initial(
    user: &User,
    market_state: &MarketState,
    margin_buffer: u32,
    figures: &ProgramFigures,
) -> SimplifiedMarginCalculation {
    calculate_simplified_margin_requirement(
        user,
        market_state,
        MarginRequirementType::Initial,
        margin_buffer,
        figures,
    )
    .unwrap()
}

#[test]
fn positions_add_up() {
    let (mut user, market_state, mut figures) = simplified_setup();
    user.spot_positions[3] = SpotPosition {
        open_orders: 2,
        ..spot_position(1, SpotBalanceType::Borrow)
    };
    figures.spot[3] = Ok(SpotFigures {
        token_value: -200_000_000,
        weighted_token_value: -220_000_000,
        orders_value: -3_000_000,
    });
    user.perp_positions[5] = perp_position(-1, 0);
    figures.perp[5] = perp_figures(40_000_000, -15_000_000);
    let calculation = initial(&user, &market_state, 100, &figures);
    assert_eq!(calculation.total_collateral, -5_000_000);
    // One per cent of the loss.
    assert_eq!(calculation.total_collateral_buffer, -150_000);
    // The weighted borrow, the orders, the margin of two orders and the perp.
    assert_eq!(calculation.margin_requirement, 220_000_000 + 3_000_000 + 20_000 + 40_000_000);
    // The buffers are on the borrow without weights, the orders and the worst case.
    assert_eq!(
        calculation.margin_requirement_plus_buffer,
        222_000_000 + 3_030_000 + 42_000_000
    );
    assert_eq!(calculation.get_total_collateral_plus_buffer(), -5_150_000);
    assert_eq!(calculation.free_collateral(), -268_020_000);
    assert_eq!(calculation.free_collateral_with_buffer(), -5_150_000 - 267_030_000);
    assert!(can_be_liquidated(&calculation));
    assert!(!calculation.meets_cross_margin_requirement());
    assert!(!calculation.meets_margin_requirement());
}

#[test]
fn deposits_and_orders_of_other_tokens_are_weighted() {
    let (mut user, market_state, mut figures) = simplified_setup();
    user.spot_positions[1] = spot_position(1, SpotBalanceType::Deposit);
    figures.spot[1] = Ok(SpotFigures {
        token_value: 200_000_000,
        weighted_token_value: 160_000_000,
        orders_value: 7_000_000,
    });
    let calculation = initial(&user, &market_state, 100, &figures);
    assert_eq!(calculation.total_collateral, 177_000_000);
    assert_eq!(calculation.margin_requirement, 0);
    assert!(!can_be_liquidated(&calculation));
    assert!(calculation.meets_margin_requirement_with_buffer());
}

#[test]
fn quote_positions_without_orders_read_the_token_value_alone() {
    let (user, market_state, mut figures) = simplified_setup();
    figures.spot[0] = Ok(SpotFigures {
        token_value: 10_000_000,
        weighted_token_value: 1,
        orders_value: 2,
    });
    let calculation = initial(&user, &market_state, 0, &figures);
    assert_eq!(calculation.total_collateral, 10_000_000);
    assert_eq!(calculation.margin_requirement, 0);
}

#[test]
fn quote_positions_with_orders_are_simulated() {
    let (mut user, market_state, mut figures) = simplified_setup();
    user.spot_positions[0].open_orders = 9;
    user.spot_positions[0].has_open_order = true;
    figures.spot[0] = Ok(SpotFigures {
        token_value: 10_000_000,
        weighted_token_value: 8_000_000,
        orders_value: -1_000_000,
    });
    let calculation = initial(&user, &market_state, 100, &figures);
    assert_eq!(calculation.total_collateral, 8_000_000);
    assert_eq!(calculation.margin_requirement, 1_090_000);
    assert_eq!(calculation.margin_requirement_plus_buffer, 1_010_000);
}

#[test]
fn a_margin_ratio_leaves_a_quote_deposit_as_it_is() {
    let (mut user, market_state, mut figures) = simplified_setup();
    user.max_margin_ratio = 2000;
    figures.spot[0] = Ok(SpotFigures {
        token_value: 10_000_000,
        weighted_token_value: 8_000_000,
        orders_value: 0,
    });
    assert_eq!(initial(&user, &market_state, 0, &figures).total_collateral, 10_000_000);
}

#[test]
fn the_quote_token_is_never_an_isolated_liability() {
    let (mut user, mut market_state, mut figures) = simplified_setup();
    market_state.set_spot_market(SpotMarket {
        market_index: 0,
        decimals: 6,
        asset_tier: AssetTier::Isolated,
    });
    user.max_margin_ratio = 2000;
    user.spot_positions[0] = SpotPosition {
        has_open_order: true,
        ..spot_position(0, SpotBalanceType::Borrow)
    };
    figures.spot[0] = spot_figures(-5_000_000);
    let calculation = initial(&user, &market_state, 0, &figures);
    assert_eq!(calculation.margin_requirement, 5_000_000);
    assert!(!calculation.with_spot_isolated_liability);
}

#[test]
fn the_pool_changes_nothing() {
    let (mut user, market_state, mut figures) = simplified_setup();
    for pool_id in [0u8, 1, 2] {
        user.pool_id = pool_id;
        let deposit = initial(&user, &market_state, 0, &figures);
        assert_eq!(deposit.total_collateral, 10_000_000);
        assert_eq!(deposit.margin_requirement, 0);
    }
    user.spot_positions[0] = spot_position(0, SpotBalanceType::Borrow);
    figures.spot[0] = spot_figures(-4_000_000);
    for pool_id in [0u8, 1, 2] {
        user.pool_id = pool_id;
        let borrow = initial(&user, &market_state, 10_000, &figures);
        assert_eq!(borrow.total_collateral, 0);
        assert_eq!(borrow.margin_requirement, 4_000_000);
        assert_eq!(borrow.margin_requirement_plus_buffer, 8_000_000);
    }
}

#[test]
fn a_pyth_price_is_asked_for_with_the_default_threshold() {
    let (user, mut market_state, mut figures) = simplified_setup();
    market_state.set_spot_pyth_price(0, 1_000_050);
    let request = spot_request(
        &user.spot_positions[0],
        &market_state,
        MarginRequirementType::Maintenance,
        0,
    );
    assert_eq!(
        request,
        Some(Ok(SpotRequest::TokenValue { price: 1_000_050, decimals: 6 }))
    );
    figures.spot[0] = spot_figures(10_000_500);
    let calculation = calculate_simplified_margin_requirement(
        &user,
        &market_state,
        MarginRequirementType::Maintenance,
        0,
        &figures,
    )
    .unwrap();
    assert_eq!(calculation.total_collateral, 10_000_500);
}

#[test]
fn larger_buffer_raises_the_buffered_requirement_only() {
    let (mut user, market_state, mut figures) = simplified_setup();
    user.perp_positions[0] = perp_position(1_000_000_000, -300_000_000);
    figures.perp[0] = perp_figures(40_000_000, -100_000_000);
    let low = initial(&user, &market_state, 100, &figures);
    let high = initial(&user, &market_state, 200, &figures);
    assert_eq!(low.total_collateral, high.total_collateral);
    assert_eq!(low.margin_requirement, high.margin_requirement);
    assert_eq!(low.margin_requirement_plus_buffer, 42_000_000);
    assert_eq!(high.margin_requirement_plus_buffer, 44_000_000);
    assert_eq!(low.total_collateral_buffer, -1_000_000);
    assert_eq!(high.total_collateral_buffer, -2_000_000);
    assert!(high.free_collateral_with_buffer() < low.free_collateral_with_buffer());
}

#[test]
fn buffer_shares_are_rounded_towards_zero() {
    let (mut user, market_state, mut figures) = simplified_setup();
    user.perp_positions[0] = perp_position(1, 0);
    figures.perp[0] = Ok(PerpFigures {
        margin_requirement: 1,
        weighted_pnl: -19_999,
        worst_case_liability_value: 19_999,
        deposit_value: 0,
    });
    let calculation = initial(&user, &market_state, 1, &figures);
    assert_eq!(calculation.total_collateral_buffer, -1);
    assert_eq!(calculation.margin_requirement_plus_buffer, 2);
}

#[test]
fn available_slots_do_not_count() {
    let (user, market_state, figures) = simplified_setup();
    let (mut other, _, mut other_figures) = simplified_setup();
    other.spot_positions[4] = SpotPosition {
        market_index: 77,
        open_orders: 3,
        ..SpotPosition::default()
    };
    other.perp_positions[4].market_index = 78;
    other_figures.spot[4] = spot_figures(123);
    other_figures.perp[4] = perp_figures(456, 789);
    let a = initial(&user, &market_state, 100, &figures);
    let b = initial(&other, &market_state, 100, &other_figures);
    assert_eq!(a.total_collateral, b.total_collateral);
    assert_eq!(a.margin_requirement, b.margin_requirement);
    assert_eq!(a.isolated_margin_calculations, b.isolated_margin_calculations);
}

#[test]
fn user_without_positions_has_no_margin() {
    let (mut user, market_state, _) = simplified_setup();
    user.spot_positions[0] = SpotPosition::default();
    let calculation = initial(&user, &market_state, 100, &no_figures());
    assert_eq!(calculation.total_collateral, 0);
    assert_eq!(calculation.margin_requirement, 0);
    assert!(calculation.meets_margin_requirement());
    assert!(!calculation.has_isolated_margin_calculation(0));
}

#[test]
fn isolated_positions_are_kept_apart() {
    let (mut user, mut market_state, mut figures) = simplified_setup();
    for market_index in [0u16, 1, 2] {
        market_state.set_perp_market(PerpMarket {
            market_index,
            quote_spot_market_index: 0,
            contract_tier: ContractTier::A,
        });
        market_state.set_perp_oracle_price(market_index, price_of(200 * PRICE_PRECISION));
        let place = market_index as usize;
        user.perp_positions[place] = PerpPosition {
            market_index,
            isolated: true,
            ..perp_position(1, 0)
        };
        figures.perp[place] = Ok(PerpFigures {
            margin_requirement: 10 * (market_index as u128 + 1),
            weighted_pnl: -100_000,
            worst_case_liability_value: 50_000,
            deposit_value: 100_015,
        });
    }
    let calculation = initial(&user, &market_state, 100, &figures);
    // The cross margin is that of the spot position alone.
    assert_eq!(calculation.total_collateral, 10_000_000);
    assert_eq!(calculation.total_collateral_buffer, 0);
    assert_eq!(calculation.margin_requirement, 0);
    assert!(calculation.with_perp_isolated_liability);
    assert_eq!(
        calculation.isolated_margin_calculations[1],
        IsolatedMarginCalculation {
            margin_requirement: 20,
            total_collateral: 15,
            total_collateral_buffer: -1_000,
            margin_requirement_plus_buffer: 520,
            market_index: 1,
        }
    );
    assert_eq!(
        calculation.get_isolated_margin_calculation(2).unwrap().margin_requirement,
        30
    );
    assert!(calculation.get_isolated_margin_calculation(3).is_none());
    assert_eq!(calculation.get_isolated_free_collateral(0), Some(5));
    assert_eq!(calculation.get_isolated_free_collateral(1), Some(-5));
    assert_eq!(calculation.get_isolated_free_collateral(9), None);
    assert_eq!(calculation.meets_isolated_margin_requirement(0), Some(true));
    assert_eq!(calculation.meets_isolated_margin_requirement(1), Some(false));
    assert_eq!(calculation.meets_isolated_margin_requirement(9), None);
    // An isolated position that is not covered leaves the cross margin covered.
    assert!(calculation.meets_cross_margin_requirement());
    assert!(!calculation.meets_margin_requirement());
    assert!(!can_be_liquidated(&calculation));
    assert!(calculation.meets_cross_margin_requirement_with_buffer());
    assert!(!calculation.meets_margin_requirement_with_buffer());
}

#[test]
fn isolated_position_without_buffer_has_no_buffered_requirement() {
    let (mut user, market_state, mut figures) = simplified_setup();
    user.perp_positions[0] = PerpPosition { isolated: true, ..perp_position(1, 0) };
    figures.perp[0] = perp_figures(40_000_000, -1_000_000);
    let calculation = initial(&user, &market_state, 0, &figures);
    assert_eq!(
        calculation.isolated_margin_calculations[0],
        IsolatedMarginCalculation {
            margin_requirement: 40_000_000,
            total_collateral: -1_000_000,
            total_collateral_buffer: 0,
            margin_requirement_plus_buffer: 0,
            market_index: 0,
        }
    );
}

#[test]
fn isolated_liabilities_are_flagged() {
    let (mut user, mut market_state, mut figures) = simplified_setup();
    market_state.set_spot_market(SpotMarket {
        market_index: 1,
        decimals: 6,
        asset_tier: AssetTier::Isolated,
    });
    market_state.set_perp_market(PerpMarket {
        market_index: 0,
        quote_spot_market_index: 0,
        contract_tier: ContractTier::Isolated,
    });
    user.spot_positions[1] = spot_position(1, SpotBalanceType::Deposit);
    figures.spot[1] = spot_figures(1);
    user.perp_positions[0] = perp_position(0, 5);
    figures.perp[0] = perp_figures(0, 0);
    let none = initial(&user, &market_state, 0, &figures);
    assert!(!none.with_spot_isolated_liability);
    assert!(!none.with_perp_isolated_liability);

    figures.spot[1] = spot_figures(-1);
    assert!(initial(&user, &market_state, 0, &figures).with_spot_isolated_liability);
    figures.spot[1] = spot_figures(0);
    assert!(!initial(&user, &market_state, 0, &figures).with_spot_isolated_liability);
    user.spot_positions[1].has_open_order = true;
    assert!(initial(&user, &market_state, 0, &figures).with_spot_isolated_liability);

    user.perp_positions[0].quote_asset_amount = -5;
    assert!(initial(&user, &market_state, 0, &figures).with_perp_isolated_liability);
    user.perp_positions[0] = perp_position(1, 5);
    assert!(initial(&user, &market_state, 0, &figures).with_perp_isolated_liability);
    user.perp_positions[0] = PerpPosition { has_open_order: true, ..perp_position(0, 0) };
    assert!(initial(&user, &market_state, 0, &figures).with_perp_isolated_liability);
}

fn checked(
    user: &User,
    market_state: &MarketState,
    margin_buffer: u32,
    figures: &ProgramFigures,
) -> Option<Result<SimplifiedMarginCalculation, ErrorCode>> {
    checked_calculate_simplified_margin_requirement(
        user,
        market_state,
        MarginRequirementType::Initial,
        margin_buffer,
        figures,
    )
}

#[test]
fn missing_oracles_are_an_error() {
    let (mut user, mut market_state, figures) = simplified_setup();
    market_state.set_spot_market(SpotMarket {
        market_index: 5,
        decimals: 6,
        asset_tier: AssetTier::Collateral,
    });
    user.spot_positions[0].market_index = 5;
    assert_eq!(
        checked(&user, &market_state, 0, &figures).unwrap().unwrap_err(),
        ErrorCode::OracleNotFound
    );

    let (mut user, mut market_state, figures) = simplified_setup();
    market_state.set_perp_market(PerpMarket {
        market_index: 5,
        quote_spot_market_index: 9,
        contract_tier: ContractTier::A,
    });
    user.perp_positions[0] = PerpPosition { market_index: 5, ..perp_position(1, 0) };
    assert_eq!(
        checked(&user, &market_state, 0, &figures).unwrap().unwrap_err(),
        ErrorCode::OracleNotFound
    );
    // The market has a price now, its quote market has none.
    market_state.set_perp_oracle_price(5, price_of(1));
    assert_eq!(
        checked(&user, &market_state, 0, &figures).unwrap().unwrap_err(),
        ErrorCode::OracleNotFound
    );
}

#[test]
fn the_first_refusal_is_the_error() {
    let (mut user, market_state, mut figures) = simplified_setup();
    user.spot_positions[1] = spot_position(1, SpotBalanceType::Borrow);
    figures.spot[0] = Err(6001);
    figures.spot[1] = Err(6002);
    assert_eq!(
        checked(&user, &market_state, 0, &figures).unwrap().unwrap_err(),
        ErrorCode::Program(6001)
    );
    figures.spot[0] = spot_figures(10_000_000);
    figures.spot[1] = spot_figures(-1);
    user.perp_positions[0] = perp_position(1, 0);
    figures.perp[0] = Err(6003);
    assert_eq!(
        checked(&user, &market_state, 0, &figures).unwrap().unwrap_err(),
        ErrorCode::Program(6003)
    );
}

#[test]
fn unknown_markets_have_no_outcome() {
    let (mut user, market_state, figures) = simplified_setup();
    user.spot_positions[0].market_index = 5;
    assert!(checked(&user, &market_state, 0, &figures).is_none());

    let (mut user, mut market_state, mut figures) = simplified_setup();
    user.perp_positions[0] = PerpPosition { market_index: 5, ..perp_position(1, 0) };
    assert!(checked(&user, &market_state, 0, &figures).is_none());

    // The quote market of an isolated position has a price and is unknown.
    market_state.set_perp_market(PerpMarket {
        market_index: 5,
        quote_spot_market_index: 9,
        contract_tier: ContractTier::A,
    });
    market_state.set_perp_oracle_price(5, price_of(1));
    market_state.set_spot_oracle_price(9, price_of(1));
    figures.perp[0] = perp_figures(1, 1);
    assert!(checked(&user, &market_state, 0, &figures).is_some());
    user.perp_positions[0].isolated = true;
    assert!(checked(&user, &market_state, 0, &figures).is_none());
}

#[test]
fn numbers_that_do_not_fit_have_no_outcome() {
    let (mut user, market_state, mut figures) = simplified_setup();
    figures.spot[0] = spot_figures(i128::MAX);
    assert_eq!(
        checked(&user, &market_state, 0, &figures).unwrap().unwrap().total_collateral,
        i128::MAX
    );
    user.perp_positions[0] = perp_position(1, 0);
    figures.perp[0] = perp_figures(0, 1);
    assert!(checked(&user, &market_state, 0, &figures).is_none());

    figures.perp[0] = perp_figures(0, 0);
    assert!(checked(&user, &market_state, 0, &figures).is_some());
    user.spot_positions[0] = spot_position(0, SpotBalanceType::Borrow);
    assert!(checked(&user, &market_state, 0, &figures).is_some());
    assert!(checked(&user, &market_state, 3, &figures).is_none());
}

#[test]
fn requirement_is_read_as_a_signed_number() {
    let calculation = IsolatedMarginCalculation {
        margin_requirement: u128::MAX,
        total_collateral: -1,
        total_collateral_buffer: i128::MIN,
        margin_requirement_plus_buffer: i128::MAX as u128,
        market_index: 3,
    };
    assert!(!calculation.is_empty());
    assert!(calculation.meets_margin_requirement());
    assert_eq!(calculation.get_total_collateral_plus_buffer(), i128::MIN);
    assert!(!calculation.meets_margin_requirement_with_buffer());
    assert_eq!(calculation.margin_shortage(), i128::MAX as u128);
}

#[test]
fn shortage_is_what_the_buffers_are_short_of() {
    let calculation = IsolatedMarginCalculation {
        margin_requirement: 10,
        total_collateral: 100,
        total_collateral_buffer: -1,
        margin_requirement_plus_buffer: 120,
        market_index: 0,
    };
    assert_eq!(calculation.margin_shortage(), 21);
    assert!(!calculation.meets_margin_requirement_with_buffer());
    let covered = IsolatedMarginCalculation {
        margin_requirement_plus_buffer: 99,
        ..calculation
    };
    assert_eq!(covered.margin_shortage(), 0);
    assert!(covered.meets_margin_requirement_with_buffer());
    assert!(IsolatedMarginCalculation::default().is_empty());
}
