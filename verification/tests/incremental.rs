use drift_margin::margin::{
    calculate_simplified_margin_requirement, IncrementalMarginCalculation, PositionCollateral,
};
use drift_margin::protocol::{
    AssetTier, ContractTier, MarginRequirementType, OraclePriceData, PerpMarket, PerpPosition,
    SpotBalanceType, SpotMarket, SpotPosition, User,
};
use drift_margin::types::MarketState;
use drift_margin::valuation::{PerpFigures, ProgramFigures, SpotFigures};

const PRICE_PRECISION: i64 = 1_000_000;

fn price_of(price: i64) -> OraclePriceData {
    OraclePriceData {
        price,
        confidence: 1000,
        delay: 0,
        has_sufficient_number_of_data_points: true,
        sequence_id: Some(1),
    }
}

fn spot_position(market_index: u16, balance_type: SpotBalanceType) -> SpotPosition {
    SpotPosition {
        market_index,
        balance_type,
        open_orders: 0,
        available: false,
        has_open_order: false,
    }
}

fn spot_figures(value: i128) -> Result<SpotFigures, u32> {
    Ok(SpotFigures { token_value: value, weighted_token_value: value, orders_value: 0 })
}

fn no_figures() -> ProgramFigures {
    ProgramFigures { spot: [Err(0); 8], perp: [Err(0); 8] }
}

/// A user with ten dollars of the quote token, and markets for the quote token, for
/// SOL at 200 dollars and for a SOL perp.
fn simplified_setup() -> (User, MarketState, ProgramFigures) {
    let mut market_state = MarketState::default();
    market_state.set_spot_market(SpotMarket {
        market_index: 0,
        decimals: 6,
        asset_tier: AssetTier::Collateral,
    });
    market_state.set_spot_market(SpotMarket {
        market_index: 1,
        decimals: 6,
        asset_tier: AssetTier::Collateral,
    });
    market_state.set_perp_market(PerpMarket {
        market_index: 0,
        quote_spot_market_index: 0,
        contract_tier: ContractTier::A,
    });
    market_state.set_spot_oracle_price(0, price_of(PRICE_PRECISION));
    market_state.set_spot_oracle_price(1, price_of(200 * PRICE_PRECISION));
    market_state.set_perp_oracle_price(0, price_of(200 * PRICE_PRECISION));

    let mut spot_positions = [SpotPosition::default(); 8];
    spot_positions[0] = spot_position(0, SpotBalanceType::Deposit);
    let user = User {
        spot_positions,
        perp_positions: [PerpPosition::default(); 8],
        max_margin_ratio: 0,
        pool_id: 0,
        high_leverage_mode: false,
    };
    let mut figures = no_figures();
    figures.spot[0] = spot_figures(10_000_000);
    (user, market_state, figures)
}

/// The same user in high leverage mode, with a perp at one dollar and no SOL market.
fn high_leverage_setup() -> (User, MarketState, ProgramFigures) {
    let mut market_state = MarketState::default();
    market_state.set_spot_market(SpotMarket {
        market_index: 0,
        decimals: 6,
        asset_tier: AssetTier::Collateral,
    });
    market_state.set_perp_market(PerpMarket {
        market_index: 0,
        quote_spot_market_index: 0,
        contract_tier: ContractTier::A,
    });
    market_state.set_spot_oracle_price(0, price_of(PRICE_PRECISION));
    market_state.set_perp_oracle_price(0, price_of(PRICE_PRECISION));
    let (mut user, _, figures) = simplified_setup();
    user.high_leverage_mode = true;
    (user, market_state, figures)
}

fn perp_position(base_asset_amount: i64, quote_asset_amount: i64) -> PerpPosition {
    PerpPosition {
        market_index: 0,
        base_asset_amount,
        quote_asset_amount,
        available: false,
        ..PerpPosition::default()
    }
}

fn perp_figures(margin_requirement: u128, weighted_pnl: i128) -> Result<PerpFigures, u32> {
    Ok(PerpFigures {
        margin_requirement,
        weighted_pnl,
        worst_case_liability_value: 200_000_000,
        deposit_value: 0,
    })
}

fn from_user(
    user: &User,
    market_state: &MarketState,
    margin_buffer: u32,
    figures: &ProgramFigures,
) -> IncrementalMarginCalculation {
    IncrementalMarginCalculation::from_user(
        user,
        market_state,
        MarginRequirementType::Initial,
        1000,
        margin_buffer,
        figures,
    )
}

/// What the kept entries add up to.
fn kept_sums(c: &IncrementalMarginCalculation) -> (i128, i128, u128, u128) {
    let mut sums = (0i128, 0i128, 0u128, 0u128);
    for entry in c.spot_collateral.iter().chain(c.perp_collateral.iter()) {
        sums.0 += entry.collateral_value;
        sums.1 += entry.collateral_buffer;
        sums.2 += entry.liability_value;
        sums.3 += entry.liability_buffer;
    }
    sums
}

fn assert_consistent(c: &IncrementalMarginCalculation) {
    assert_eq!(
        kept_sums(c),
        (
            c.total_collateral,
            c.total_collateral_buffer,
            c.margin_requirement,
            c.margin_requirement_plus_buffer
        )
    );
}

#[test]
fn a_new_calculation_is_empty() {
    let c = IncrementalMarginCalculation::new(MarginRequirementType::Fill, true, 7, 8, 9);
    assert_eq!(c.total_collateral, 0);
    assert_eq!(c.margin_requirement, 0);
    assert_eq!(c.last_updated, 0);
    assert_eq!(c.user_custom_margin_ratio, 7);
    assert_eq!(c.margin_buffer, 8);
    assert_eq!(c.user_pool_id, 9);
    assert!(c.user_high_leverage_mode);
    assert_eq!(c.margin_type, MarginRequirementType::Fill);
    assert_eq!(c.spot_collateral, [PositionCollateral::default(); 8]);
    assert!(c.meets_margin_requirement());
    assert!(c.meets_margin_requirement_with_buffer());
    assert_consistent(&c);
    let d = IncrementalMarginCalculation::default();
    assert_eq!(d.margin_type, MarginRequirementType::Initial);
    assert_eq!(d.margin_buffer, 0);
}

#[test]
fn both_calculations_agree_with_a_buffer() {
    let (mut user, market_state, mut figures) = simplified_setup();
    user.spot_positions[1] = SpotPosition {
        open_orders: 4,
        ..spot_position(1, SpotBalanceType::Borrow)
    };
    figures.spot[1] = Ok(SpotFigures {
        token_value: -200_000_000,
        weighted_token_value: -220_000_000,
        orders_value: 5_000_000,
    });
    user.perp_positions[2] = perp_position(1, 0);
    figures.perp[2] = perp_figures(40_000_000, -90_000_000);
    let cached = from_user(&user, &market_state, 500, &figures);
    let simplified = calculate_simplified_margin_requirement(
        &user,
        &market_state,
        MarginRequirementType::Initial,
        500,
        &figures,
    )
    .unwrap();
    assert_eq!(cached.total_collateral, 10_000_000 + 5_000_000 - 90_000_000);
    assert_eq!(cached.total_collateral_buffer, -4_500_000);
    assert_eq!(cached.margin_requirement, 220_000_000 + 40_000 + 40_000_000);
    assert_eq!(cached.total_collateral, simplified.total_collateral);
    assert_eq!(cached.total_collateral_buffer, simplified.total_collateral_buffer);
    assert_eq!(cached.margin_requirement, simplified.margin_requirement);
    assert_eq!(cached.free_collateral(), simplified.free_collateral());
    assert_consistent(&cached);

    // The buffered requirements agree where the borrow has no weight.
    figures.spot[1] = spot_figures(-200_000_000);
    let cached = from_user(&user, &market_state, 500, &figures);
    let simplified = calculate_simplified_margin_requirement(
        &user,
        &market_state,
        MarginRequirementType::Initial,
        500,
        &figures,
    )
    .unwrap();
    assert_eq!(cached.margin_requirement_plus_buffer, 210_000_000 + 50_000_000);
    assert_eq!(
        cached.margin_requirement_plus_buffer,
        simplified.margin_requirement_plus_buffer
    );
    assert_eq!(
        cached.free_collateral_with_buffer(),
        simplified.free_collateral_with_buffer()
    );
}

#[test]
fn settings_come_from_the_user() {
    let (mut user, market_state, figures) = high_leverage_setup();
    user.max_margin_ratio = 2000;
    user.pool_id = 3;
    let initial = from_user(&user, &market_state, 5, &figures);
    assert_eq!(initial.user_custom_margin_ratio, 2000);
    assert_eq!(initial.user_pool_id, 3);
    assert!(initial.user_high_leverage_mode);
    assert_eq!(initial.last_updated, 1000);
    let maintenance = IncrementalMarginCalculation::from_user(
        &user,
        &market_state,
        MarginRequirementType::Maintenance,
        1000,
        5,
        &figures,
    );
    assert_eq!(maintenance.user_custom_margin_ratio, 0);
}

#[test]
fn test_incremental_margin_calculation() {
    let mut market_state = MarketState::default();
    market_state.set_spot_market(SpotMarket {
        market_index: 0,
        decimals: 6,
        asset_tier: AssetTier::Collateral,
    });
    market_state.set_spot_oracle_price(0, price_of(1_000_000));
    let (mut user, _, mut figures) = simplified_setup();
    user.pool_id = 1;
    figures.spot[0] = spot_figures(1000);
    let mut cached = from_user(&user, &market_state, 0, &figures);

    let initial_free_collateral = cached.free_collateral();
    assert!(initial_free_collateral > 0);

    cached.update_spot_position(
        &user.spot_positions[0],
        &market_state,
        2000,
        spot_figures(2000),
    );
    assert!(cached.free_collateral() > initial_free_collateral);
    assert_eq!(cached.last_updated, 2000);

    user.spot_positions[1] = spot_position(1, SpotBalanceType::Borrow);
    market_state.set_spot_market(SpotMarket {
        market_index: 1,
        decimals: 9,
        asset_tier: AssetTier::Collateral,
    });
    market_state.set_spot_oracle_price(1, price_of(100_000_000_000));
    cached.update_spot_position(
        &user.spot_positions[1],
        &market_state,
        3000,
        Ok(SpotFigures {
            token_value: -50_000,
            weighted_token_value: -55_000,
            orders_value: 0,
        }),
    );
    assert!(cached.free_collateral() < cached.total_collateral);

    let simplified = cached.to_simplified();
    assert_eq!(simplified.free_collateral(), cached.free_collateral());
    assert_eq!(simplified.total_collateral, cached.total_collateral);
    assert!(!simplified.with_perp_isolated_liability);
    assert_consistent(&cached);
}

#[test]
fn the_pool_changes_no_entry() {
    let (mut user, market_state, mut figures) = simplified_setup();
    user.pool_id = 1;
    let deposit = from_user(&user, &market_state, 0, &figures);
    assert_eq!(deposit.total_collateral, 10_000_000);
    assert_eq!(deposit.margin_requirement, 0);
    user.spot_positions[0] = spot_position(0, SpotBalanceType::Borrow);
    figures.spot[0] = spot_figures(-4_000_000);
    let borrow = from_user(&user, &market_state, 0, &figures);
    assert_eq!(borrow.margin_requirement, 4_000_000);
}

#[test]
fn quote_positions_with_orders_are_simulated_here_too() {
    let (mut user, market_state, mut figures) = simplified_setup();
    user.spot_positions[0].open_orders = 2;
    user.spot_positions[0].has_open_order = true;
    figures.spot[0] = Ok(SpotFigures {
        token_value: 10_000_000,
        weighted_token_value: 8_000_000,
        orders_value: -100,
    });
    let cached = from_user(&user, &market_state, 0, &figures);
    assert_eq!(cached.total_collateral, 8_000_000);
    assert_eq!(cached.margin_requirement, 20_100);
    assert_eq!(cached.margin_requirement_plus_buffer, 100);
}

#[test]
fn a_new_borrow_is_counted_once_in_the_buffered_requirement() {
    let (_, market_state, _) = simplified_setup();
    let mut c = IncrementalMarginCalculation::new(
        MarginRequirementType::Maintenance,
        false,
        0,
        100,
        0,
    );
    c.update_spot_position(
        &spot_position(0, SpotBalanceType::Borrow),
        &market_state,
        7,
        spot_figures(-5_000_000),
    );
    assert_eq!(c.margin_requirement, 5_000_000);
    assert_eq!(c.margin_requirement_plus_buffer, 5_050_000);
}

#[test]
fn spot_entries_hold_what_a_position_adds() {
    let (mut user, market_state, mut figures) = simplified_setup();
    user.spot_positions[1] = SpotPosition {
        open_orders: 3,
        ..spot_position(1, SpotBalanceType::Borrow)
    };
    figures.spot[1] = Ok(SpotFigures {
        token_value: -200_000_000,
        weighted_token_value: -220_000_000,
        orders_value: -1_000_000,
    });
    let cached = from_user(&user, &market_state, 100, &figures);
    assert_eq!(
        cached.spot_collateral[1],
        PositionCollateral {
            collateral_value: 0,
            collateral_buffer: 0,
            liability_value: 220_000_000 + 1_000_000 + 30_000,
            // The buffer of a borrow is on its weighted value here.
            liability_buffer: 222_200_000 + 1_010_000,
            last_updated: 1000,
            market_index: 1,
        }
    );
    assert_eq!(cached.margin_requirement_plus_buffer, 223_210_000);
}

#[test]
fn removing_a_perp_position_undoes_adding_it() {
    let (mut user, market_state, mut figures) = simplified_setup();
    user.perp_positions[3] = perp_position(1, 0);
    figures.perp[3] = perp_figures(40_000_000, -90_000_000);
    let mut cached = from_user(&user, &market_state, 100, &figures);
    let (start, _, plain) = simplified_setup();
    let before = from_user(&start, &market_state, 100, &plain);
    assert!(cached.margin_requirement > before.margin_requirement);

    let gone = PerpPosition { available: true, ..user.perp_positions[3] };
    cached.update_perp_position(&gone, &market_state, 4000, perp_figures(0, 0));
    assert_eq!(cached.total_collateral, before.total_collateral);
    assert_eq!(cached.total_collateral_buffer, before.total_collateral_buffer);
    assert_eq!(cached.margin_requirement, before.margin_requirement);
    assert_eq!(
        cached.margin_requirement_plus_buffer,
        before.margin_requirement_plus_buffer
    );
    assert_eq!(cached.perp_collateral, before.perp_collateral);
    assert_consistent(&cached);
}

#[test]
fn removing_a_spot_position_undoes_adding_it() {
    let (mut user, market_state, mut figures) = simplified_setup();
    let mut cached = from_user(&user, &market_state, 100, &figures);
    let before = cached;
    user.spot_positions[1] = spot_position(1, SpotBalanceType::Borrow);
    figures.spot[1] = spot_figures(-200_000_000);
    cached.update_spot_position(&user.spot_positions[1], &market_state, 2000, figures.spot[1]);
    assert_eq!(cached.margin_requirement_plus_buffer, 202_000_000);
    let gone = SpotPosition { available: true, ..user.spot_positions[1] };
    cached.update_spot_position(&gone, &market_state, 3000, spot_figures(0));
    assert_eq!(cached.total_collateral, before.total_collateral);
    assert_eq!(cached.margin_requirement, before.margin_requirement);
    assert_eq!(cached.margin_requirement_plus_buffer, 0);
    assert_eq!(cached.spot_collateral, before.spot_collateral);
    assert_consistent(&cached);
}

#[test]
fn updating_a_position_replaces_it() {
    let (mut user, market_state, figures) = simplified_setup();
    user.perp_positions[0] = perp_position(1, 0);
    let mut twice = from_user(&user, &market_state, 100, &{
        let mut first = no_figures();
        first.spot[0] = figures.spot[0];
        first.perp[0] = perp_figures(40_000_000, -90_000_000);
        first
    });
    twice.update_perp_position(
        &user.perp_positions[0],
        &market_state,
        2000,
        perp_figures(20_000_000, 30_000_000),
    );
    let once = from_user(&user, &market_state, 100, &{
        let mut second = no_figures();
        second.spot[0] = figures.spot[0];
        second.perp[0] = perp_figures(20_000_000, 30_000_000);
        second
    });
    assert_eq!(twice.total_collateral, once.total_collateral);
    assert_eq!(twice.total_collateral_buffer, once.total_collateral_buffer);
    assert_eq!(twice.margin_requirement, once.margin_requirement);
    assert_eq!(
        twice.margin_requirement_plus_buffer,
        once.margin_requirement_plus_buffer
    );
    assert_eq!(twice.perp_collateral[0].last_updated, 2000);
    assert_consistent(&twice);
}

#[test]
fn updating_one_position_gives_the_full_calculation() {
    let (mut user, market_state, mut figures) = simplified_setup();
    user.spot_positions[1] = spot_position(1, SpotBalanceType::Borrow);
    figures.spot[1] = spot_figures(-200_000_000);
    user.perp_positions[2] = perp_position(1, 0);
    figures.perp[2] = perp_figures(40_000_000, -90_000_000);
    let mut cached = from_user(&user, &market_state, 100, &figures);
    // The first of the positions changes, then the second.
    figures.spot[0] = spot_figures(30_000_000);
    cached.update_spot_position(&user.spot_positions[0], &market_state, 2000, figures.spot[0]);
    figures.spot[1] = spot_figures(-100_000_000);
    cached.update_spot_position(&user.spot_positions[1], &market_state, 2000, figures.spot[1]);
    figures.perp[2] = perp_figures(30_000_000, -10_000_000);
    cached.update_perp_position(&user.perp_positions[2], &market_state, 2000, figures.perp[2]);
    let full = from_user(&user, &market_state, 100, &figures);
    assert_eq!(cached.total_collateral, 20_000_000);
    assert_eq!(cached.total_collateral, full.total_collateral);
    assert_eq!(cached.total_collateral_buffer, full.total_collateral_buffer);
    assert_eq!(cached.margin_requirement, full.margin_requirement);
    assert_eq!(cached.margin_requirement_plus_buffer, 101_000_000 + 32_000_000);
    assert_eq!(
        cached.margin_requirement_plus_buffer,
        full.margin_requirement_plus_buffer
    );
    assert_consistent(&cached);
}

#[test]
fn updating_a_spot_position_beside_two_perp_positions_in_one_market() {
    let (mut user, market_state, mut figures) = simplified_setup();
    user.perp_positions[2] = perp_position(1, 0);
    figures.perp[2] = perp_figures(40_000_000, -90_000_000);
    user.perp_positions[3] = perp_position(2, 0);
    figures.perp[3] = perp_figures(50_000_000, -80_000_000);
    let mut cached = from_user(&user, &market_state, 100, &figures);
    figures.spot[0] = spot_figures(30_000_000);
    cached.update_spot_position(&user.spot_positions[0], &market_state, 2000, figures.spot[0]);
    let full = from_user(&user, &market_state, 100, &figures);
    // The second perp position takes the place of the first.
    assert_eq!(cached.total_collateral, 30_000_000 - 80_000_000);
    assert_eq!(cached.total_collateral, full.total_collateral);
    assert_eq!(cached.margin_requirement, full.margin_requirement);
    assert_eq!(
        cached.margin_requirement_plus_buffer,
        full.margin_requirement_plus_buffer
    );
}

#[test]
fn repeating_an_update_changes_nothing() {
    let (mut user, market_state, mut figures) = simplified_setup();
    user.perp_positions[0] = perp_position(1, 0);
    figures.perp[0] = perp_figures(40_000_000, -90_000_000);
    let mut once = from_user(&user, &market_state, 100, &figures);
    let borrow = spot_position(1, SpotBalanceType::Borrow);
    once.update_spot_position(&borrow, &market_state, 2000, spot_figures(-1_000_000));
    once.update_perp_position(
        &user.perp_positions[0],
        &market_state,
        2000,
        perp_figures(1_000_000, 2_000_000),
    );
    let mut twice = once;
    twice.update_spot_position(&borrow, &market_state, 2000, spot_figures(-1_000_000));
    twice.update_perp_position(
        &user.perp_positions[0],
        &market_state,
        2000,
        perp_figures(1_000_000, 2_000_000),
    );
    assert_eq!(once.total_collateral, twice.total_collateral);
    assert_eq!(once.total_collateral_buffer, twice.total_collateral_buffer);
    assert_eq!(once.margin_requirement, twice.margin_requirement);
    assert_eq!(
        once.margin_requirement_plus_buffer,
        twice.margin_requirement_plus_buffer
    );
    assert_eq!(once.spot_collateral, twice.spot_collateral);
    assert_eq!(once.perp_collateral, twice.perp_collateral);
    assert_eq!(once.last_updated, twice.last_updated);
}

#[test]
fn a_buffer_raises_the_buffered_requirement_of_an_entry_only() {
    let (mut user, market_state, mut figures) = simplified_setup();
    user.spot_positions[1] = SpotPosition {
        open_orders: 3,
        has_open_order: true,
        ..spot_position(1, SpotBalanceType::Borrow)
    };
    figures.spot[1] = Ok(SpotFigures {
        token_value: -200_000_000,
        weighted_token_value: -220_000_000,
        orders_value: -1_000_000,
    });
    let low = from_user(&user, &market_state, 0, &figures).spot_collateral[1];
    let high = from_user(&user, &market_state, 100, &figures).spot_collateral[1];
    assert_eq!(low.liability_value, low.liability_buffer + 30_000);
    assert_eq!(high.liability_buffer, 223_210_000);
    assert_eq!(
        PositionCollateral { liability_buffer: low.liability_buffer, ..high },
        low
    );
}

#[test]
fn a_full_calculation_starts_anew() {
    let (user, market_state, figures) = simplified_setup();
    let fresh = from_user(&user, &market_state, 100, &figures);
    let mut used = fresh;
    used.update_spot_position(
        &spot_position(1, SpotBalanceType::Borrow),
        &market_state,
        5000,
        spot_figures(-200_000_000),
    );
    assert!(used.margin_requirement > 0);
    used.calculate(&user, &market_state, 1000, &figures);
    assert_eq!(used.total_collateral, fresh.total_collateral);
    assert_eq!(used.margin_requirement, fresh.margin_requirement);
    assert_eq!(
        used.margin_requirement_plus_buffer,
        fresh.margin_requirement_plus_buffer
    );
    assert_eq!(used.spot_collateral, fresh.spot_collateral);
    assert_eq!(used.last_updated, fresh.last_updated);
}

#[test]
fn a_position_without_oracle_changes_the_time_only() {
    let (user, mut market_state, figures) = simplified_setup();
    market_state.set_spot_market(SpotMarket {
        market_index: 5,
        decimals: 6,
        asset_tier: AssetTier::Collateral,
    });
    let mut cached = from_user(&user, &market_state, 100, &figures);
    let before = cached;
    cached.update_spot_position(
        &spot_position(5, SpotBalanceType::Borrow),
        &market_state,
        9000,
        spot_figures(-1),
    );
    assert_eq!(cached.margin_requirement, before.margin_requirement);
    assert_eq!(cached.spot_collateral, before.spot_collateral);
    assert_eq!(cached.last_updated, 9000);
}

#[test]
fn two_positions_in_one_market_share_an_entry() {
    let (mut user, market_state, mut figures) = simplified_setup();
    user.spot_positions[1] = spot_position(0, SpotBalanceType::Borrow);
    figures.spot[1] = spot_figures(-5_000_000);
    let cached = from_user(&user, &market_state, 0, &figures);
    assert_eq!(cached.total_collateral, 0);
    assert_eq!(cached.margin_requirement, 5_000_000);
}

#[test]
fn a_ninth_position_is_counted_and_not_kept() {
    let (user, mut market_state, figures) = simplified_setup();
    let mut cached = from_user(&user, &market_state, 0, &figures);
    for market_index in 1..9u16 {
        market_state.set_spot_market(SpotMarket {
            market_index,
            decimals: 6,
            asset_tier: AssetTier::Collateral,
        });
        market_state.set_spot_oracle_price(market_index, price_of(1));
        cached.update_spot_position(
            &spot_position(market_index, SpotBalanceType::Deposit),
            &market_state,
            1000,
            spot_figures(1),
        );
    }
    assert_eq!(cached.total_collateral, 10_000_008);
    assert_eq!(kept_sums(&cached).0, 10_000_007);
    assert!(cached.spot_collateral.iter().all(|entry| entry.market_index != 8));
}

#[test]
fn what_cannot_be_calculated_changes_nothing() {
    let (user, market_state, figures) = simplified_setup();
    let mut cached = from_user(&user, &market_state, 0, &figures);
    let unknown = spot_position(50, SpotBalanceType::Deposit);
    assert!(!cached.checked_update_spot_position(&unknown, &market_state, 2000, spot_figures(1)));
    let known = user.spot_positions[0];
    assert!(!cached.checked_update_spot_position(&known, &market_state, 2000, Err(6000)));
    let unknown = PerpPosition { market_index: 50, ..perp_position(1, 0) };
    assert!(!cached.checked_update_perp_position(
        &unknown,
        &market_state,
        2000,
        perp_figures(1, 1)
    ));
    let overflowing = perp_figures(1, i128::MAX);
    assert!(!cached.checked_update_perp_position(
        &perp_position(1, 0),
        &market_state,
        2000,
        overflowing
    ));
    assert_eq!(cached.last_updated, 1000);
    assert_eq!(cached.total_collateral, 10_000_000);
    assert!(!cached.checked_calculate(&user, &market_state, 2000, &no_figures()));
    assert_eq!(cached.total_collateral, 10_000_000);
    assert!(IncrementalMarginCalculation::checked_from_user(
        &user,
        &market_state,
        MarginRequirementType::Initial,
        1000,
        0,
        &no_figures()
    )
    .is_none());
}

#[test]
fn buffers_and_requirements_are_read_as_signed_numbers() {
    let mut c = IncrementalMarginCalculation::default();
    c.total_collateral = i128::MIN;
    c.total_collateral_buffer = -1;
    assert_eq!(c.get_total_collateral_plus_buffer(), i128::MIN);
    c.total_collateral = 5;
    c.margin_requirement = 7;
    c.margin_requirement_plus_buffer = u128::MAX;
    assert_eq!(c.free_collateral(), -2);
    assert!(!c.meets_margin_requirement());
    assert_eq!(c.free_collateral_with_buffer(), 5);
    assert!(c.meets_margin_requirement_with_buffer());
}
