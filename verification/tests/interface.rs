use abi_stable::std_types::RResult;
use anchor_lang::solana_program::pubkey::Pubkey;

use drift_margin::arith::{
    magnitude, saturating_difference, saturating_sum, to_signed, to_signed_64,
};
use drift_margin::exports::{
    checked_margin_calculate_simplified_margin_requirement, checked_margin_calculation,
    incremental_margin_calculation_from_user, incremental_margin_calculation_update_perp_position,
    incremental_margin_calculation_update_spot_position,
    margin_calculate_simplified_margin_requirement,
    math_calculate_margin_requirement_and_total_collateral_and_liability_info, order_clock,
    to_ffi_result, ProgramMargin,
};
use drift_margin::margin;
use drift_margin::protocol::{
    AssetTier, ContractTier, ErrorCode, MarginRequirementType, OraclePriceData, PerpMarket,
    PerpPosition, SpotBalanceType, SpotMarket, SpotPosition, User,
};
use drift_margin::shims::Account;
use drift_margin::types;
use drift_margin::types::{AccountWithKey, MarginContextMode, MarketState};
use drift_margin::valuation::{PerpFigures, ProgramFigures, SpotFigures};

fn account() -> Account {
    Account {
        lamports: 5,
        data: vec![1, 2, 3],
        owner: Pubkey::new_from_array([7; 32]),
        executable: true,
        rent_epoch: 9,
    }
}

#[test]
fn account_parts_are_changed_in_place() {
    let mut account = account();
    {
        let (lamports, data, owner, executable) = account.get();
        assert_eq!(*owner, Pubkey::new_from_array([7; 32]));
        assert!(executable);
        *lamports += 1;
        data[1] = 20;
    }
    assert_eq!(account.lamports, 6);
    assert_eq!(account.data, vec![1, 20, 3]);
    assert_eq!(account.rent_epoch, 9);
}

#[test]
fn accounts_are_cloned_and_compared() {
    let account = account();
    let mut other = account.clone();
    assert_eq!(other, account);
    other.data.push(4);
    assert_ne!(other, account);
    let unused = Account::default();
    assert_eq!(unused.lamports, 0);
    assert_eq!(unused.owner, Pubkey::default());
    assert_eq!(unused.rent_epoch, 0);
}

#[test]
fn account_and_key_round_trip() {
    let key = Pubkey::new_from_array([1; 32]);
    let together = AccountWithKey::from((key, account()));
    assert_eq!(together.key, key);
    assert_eq!(together.account.lamports, 5);
    let (key_again, account_again): (Pubkey, Account) = together.into();
    assert_eq!(key_again, key);
    assert_eq!(account_again.data, vec![1, 2, 3]);
    assert_eq!(account_again.owner, Pubkey::new_from_array([7; 32]));
}

#[test]
fn margin_context_modes() {
    assert_eq!(
        MarginRequirementType::from(MarginContextMode::StandardMaintenance),
        MarginRequirementType::Maintenance
    );
    assert_eq!(
        MarginRequirementType::from(MarginContextMode::StandardInitial),
        MarginRequirementType::Initial
    );
    assert_eq!(
        MarginRequirementType::from(MarginContextMode::StandardCustom(MarginRequirementType::Fill)),
        MarginRequirementType::Fill
    );
}

#[test]
fn results_of_the_interface() {
    assert_eq!(to_ffi_result::<u8>(Ok(4)), RResult::ROk(4));
    assert_eq!(to_ffi_result::<u8>(Err(6010)), RResult::RErr(6010));
}

#[test]
fn error_numbers() {
    assert_eq!(ErrorCode::OracleNotFound.get_number(6036), 6036);
    assert_eq!(ErrorCode::Program(6001).get_number(6036), 6001);
}

#[test]
fn wide_integers_of_the_interface() {
    assert_eq!(types::compat::i128::from(-3).0, -3);
    assert_eq!(types::compat::u128::from(3).0, 3);
    assert_eq!(types::compat::i128::default().0, 0);
    assert_eq!(types::compat::u128::default().0, 0);
}

fn full_calculation(isolated: usize) -> ProgramMargin {
    let mut calculations = vec![];
    for i in 0..isolated {
        calculations.push(margin::IsolatedMarginCalculation {
            margin_requirement: 10 + i as u128,
            total_collateral: -20 - i as i128,
            total_collateral_buffer: -30,
            margin_requirement_plus_buffer: 40,
            market_index: 50 + i as u16,
        });
    }
    ProgramMargin {
        total_collateral: -1,
        margin_requirement: 2,
        with_perp_isolated_liability: true,
        with_spot_isolated_liability: false,
        total_spot_asset_value: 3,
        total_spot_liability_value: 4,
        total_perp_liability_value: 5,
        total_perp_pnl: -6,
        isolated: calculations,
    }
}

#[test]
fn full_calculation_is_handed_out() {
    let ffi = math_calculate_margin_requirement_and_total_collateral_and_liability_info(Ok(
        full_calculation(2),
    ))
    .unwrap();
    assert_eq!(ffi.total_collateral.0, -1);
    assert_eq!(ffi.margin_requirement.0, 2);
    assert!(ffi.with_perp_isolated_liability);
    assert!(!ffi.with_spot_isolated_liability);
    assert_eq!(ffi.total_spot_asset_value.0, 3);
    assert_eq!(ffi.total_spot_liability_value.0, 4);
    assert_eq!(ffi.total_perp_liability_value.0, 5);
    assert_eq!(ffi.total_perp_pnl.0, -6);
    assert_eq!(ffi.isolated_margin_calculations[1].margin_requirement.0, 11);
    assert_eq!(ffi.isolated_margin_calculations[1].total_collateral.0, -21);
    assert_eq!(ffi.isolated_margin_calculations[1].total_collateral_buffer.0, -30);
    assert_eq!(ffi.isolated_margin_calculations[1].margin_requirement_plus_buffer.0, 40);
    assert_eq!(ffi.isolated_margin_calculations[1].market_index, 51);
    assert_eq!(
        ffi.isolated_margin_calculations[2],
        types::IsolatedMarginCalculation::default()
    );
    assert_eq!(
        math_calculate_margin_requirement_and_total_collateral_and_liability_info(Err(6001))
            .unwrap_err(),
        6001
    );
    assert!(checked_margin_calculation(Ok(full_calculation(8))).is_some());
    assert!(checked_margin_calculation(Ok(full_calculation(9))).is_none());
}

#[test]
fn free_collateral_is_never_negative() {
    let mut ffi = math_calculate_margin_requirement_and_total_collateral_and_liability_info(Ok(
        full_calculation(0),
    ))
    .unwrap();
    assert_eq!(ffi.get_free_collateral(), 0);
    ffi.total_collateral = types::compat::i128(10);
    assert_eq!(ffi.get_free_collateral(), 8);
    // A requirement beyond the signed range is read as a negative number.
    ffi.margin_requirement = types::compat::u128(u128::MAX);
    assert_eq!(ffi.get_free_collateral(), 11);
}

#[test]
fn order_clock_has_slot_and_time() {
    let clock = order_clock(123, 1_700_000_000);
    assert_eq!(clock.slot, 123);
    assert_eq!(clock.unix_timestamp, 1_700_000_000);
    assert_eq!(clock.epoch_start_timestamp, 0);
    assert_eq!(clock.epoch, 0);
    assert_eq!(clock.leader_schedule_epoch, 0);
    assert_eq!(order_clock(0, u64::MAX).unix_timestamp, -1);
}

#[test]
fn integer_helpers() {
    assert_eq!(to_signed(5), 5);
    assert_eq!(to_signed(i128::MAX as u128), i128::MAX);
    assert_eq!(to_signed(i128::MAX as u128 + 1), i128::MIN);
    assert_eq!(to_signed(u128::MAX), -1);
    assert_eq!(to_signed_64(i64::MAX as u64 + 1), i64::MIN);
    assert_eq!(magnitude(i128::MIN), i128::MAX as u128 + 1);
    assert_eq!(magnitude(-7), 7);
    assert_eq!(saturating_sum(i128::MAX, 1), i128::MAX);
    assert_eq!(saturating_sum(i128::MIN, -1), i128::MIN);
    assert_eq!(saturating_sum(2, -5), -3);
    assert_eq!(saturating_difference(i128::MAX, -1), i128::MAX);
    assert_eq!(saturating_difference(i128::MIN, 1), i128::MIN);
    assert_eq!(saturating_difference(2, 5), -3);
}

fn price(price: i64) -> OraclePriceData {
    OraclePriceData {
        price,
        confidence: 0,
        delay: 0,
        has_sufficient_number_of_data_points: true,
        sequence_id: None,
    }
}

fn setup() -> (User, MarketState, ProgramFigures) {
    let mut state = MarketState::default();
    state.set_spot_market(SpotMarket {
        market_index: 0,
        decimals: 6,
        asset_tier: AssetTier::Collateral,
    });
    state.set_perp_market(PerpMarket {
        market_index: 0,
        quote_spot_market_index: 0,
        contract_tier: ContractTier::A,
    });
    state.set_spot_oracle_price(0, price(1_000_000));
    state.set_perp_oracle_price(0, price(1_000_000));
    let mut spot_positions = [SpotPosition::default(); 8];
    spot_positions[0] = SpotPosition {
        market_index: 0,
        balance_type: SpotBalanceType::Deposit,
        available: false,
        ..SpotPosition::default()
    };
    let mut perp_positions = [PerpPosition::default(); 8];
    perp_positions[0] = PerpPosition {
        available: false,
        isolated: true,
        ..PerpPosition::default()
    };
    let mut figures = ProgramFigures { spot: [Err(0); 8], perp: [Err(0); 8] };
    figures.spot[0] = Ok(SpotFigures {
        token_value: 1_000,
        weighted_token_value: 0,
        orders_value: 0,
    });
    figures.perp[0] = Ok(PerpFigures {
        margin_requirement: 30,
        weighted_pnl: -400,
        worst_case_liability_value: 100,
        deposit_value: 900,
    });
    let user = User {
        spot_positions,
        perp_positions,
        max_margin_ratio: 0,
        pool_id: 0,
        high_leverage_mode: false,
    };
    (user, state, figures)
}

#[test]
fn simplified_calculation_is_handed_out() {
    let (user, mut state, mut figures) = setup();
    let initial = MarginRequirementType::Initial;
    let ffi = margin_calculate_simplified_margin_requirement(
        &user, &state, initial, 1_000, &figures, 6036,
    )
    .unwrap();
    assert_eq!(ffi.total_collateral.0, 1_000);
    assert_eq!(ffi.margin_requirement.0, 0);
    assert!(ffi.with_perp_isolated_liability);
    assert!(!ffi.with_spot_isolated_liability);
    assert_eq!(
        ffi.isolated_margin_calculations[0],
        types::IsolatedMarginCalculation {
            margin_requirement: 30.into(),
            total_collateral: 500.into(),
            total_collateral_buffer: (-40).into(),
            margin_requirement_plus_buffer: 40.into(),
            market_index: 0,
        }
    );
    assert_eq!(
        ffi.isolated_margin_calculations[7],
        types::IsolatedMarginCalculation::default()
    );

    figures.perp[0] = Err(6002);
    assert_eq!(
        margin_calculate_simplified_margin_requirement(
            &user, &state, initial, 0, &figures, 6036
        )
        .unwrap_err(),
        6002
    );
    state.perp_oracle_prices.clear();
    assert_eq!(
        margin_calculate_simplified_margin_requirement(
            &user, &state, initial, 0, &figures, 6036
        )
        .unwrap_err(),
        6036
    );
    state.perp_markets.clear();
    assert!(checked_margin_calculate_simplified_margin_requirement(
        &user, &state, initial, 0, &figures, 6036
    )
    .is_none());
}

#[test]
fn incremental_calculation_is_handed_out() {
    let (user, state, figures) = setup();
    let mut calculation = incremental_margin_calculation_from_user(
        &user,
        &state,
        MarginRequirementType::Initial,
        1000,
        0,
        &figures,
    );
    assert_eq!(calculation.total_collateral, 600);
    assert_eq!(calculation.margin_requirement, 30);
    incremental_margin_calculation_update_spot_position(
        &mut calculation,
        &user.spot_positions[0],
        &state,
        2000,
        Ok(SpotFigures { token_value: 2_000, weighted_token_value: 0, orders_value: 0 }),
    );
    assert_eq!(calculation.total_collateral, 1_600);
    incremental_margin_calculation_update_perp_position(
        &mut calculation,
        &PerpPosition { available: true, ..user.perp_positions[0] },
        &state,
        3000,
        figures.perp[0],
    );
    assert_eq!(calculation.total_collateral, 2_000);
    assert_eq!(calculation.margin_requirement, 0);
    assert_eq!(calculation.last_updated, 3000);
}
