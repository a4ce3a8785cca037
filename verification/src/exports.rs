//! What the C interface answers.
//!
//! The interface itself is a thin layer around these functions: it asks the program
//! for what only the program can tell, and hands it in.
use abi_stable::std_types::RResult::{RErr, ROk};
use anchor_lang::solana_program::clock::Clock;
use vstd::prelude::*;

use crate::arith::{signed_bits_64, to_signed_64};
use crate::margin;
use crate::margin::incremental::{input_of, IncrementalMarginCalculation};
use crate::margin::simplified::{checked_calculate_simplified_margin_requirement, MarginInput};
use crate::margin::{ffi_isolated, SimplifiedView};
use crate::protocol::{ErrorCode, MarginRequirementType, PerpPosition, SpotPosition, User};
use crate::shims::Slot;
use crate::types;
use crate::types::{FfiResult, MarketState};
use crate::valuation::{PerpFigures, ProgramFigures, SpotFigures};

verus! {

/// `solana_program::clock::Clock`, the time that the program goes by, with its public
/// fields.
#[verifier::external_type_specification]
pub struct ExClock(Clock);

/// The result of the C interface for a result of the program.
pub fn to_ffi_result<T>(result: Result<T, u32>) -> (r: FfiResult<T>)
    ensures
        r == (match result {
            Ok(value) => ROk::<T, u32>(value),
            Err(code) => RErr::<T, u32>(code),
        }),
{
    match result {
        Ok(value) => ROk(value),
        Err(code) => RErr(code),
    }
}

/// What the program's full margin calculation comes to.
#[derive(Debug)]
pub struct ProgramMargin {
    pub total_collateral: i128,
    pub margin_requirement: u128,
    pub with_perp_isolated_liability: bool,
    pub with_spot_isolated_liability: bool,
    pub total_spot_asset_value: i128,
    pub total_spot_liability_value: u128,
    pub total_perp_liability_value: u128,
    pub total_perp_pnl: i128,
    /// The isolated calculations, in the program's order.
    pub isolated: Vec<margin::IsolatedMarginCalculation>,
}

/// Whether `ffi` is `calculation` as the C interface has it: the same values, each
/// isolated calculation at its place, and nothing at the other places.
pub open spec fn is_ffi_margin(ffi: types::MarginCalculation, calculation: ProgramMargin) -> bool {
    &&& ffi.total_collateral.0 == calculation.total_collateral
    &&& ffi.margin_requirement.0 == calculation.margin_requirement
    &&& ffi.with_perp_isolated_liability == calculation.with_perp_isolated_liability
    &&& ffi.with_spot_isolated_liability == calculation.with_spot_isolated_liability
    &&& ffi.total_spot_asset_value.0 == calculation.total_spot_asset_value
    &&& ffi.total_spot_liability_value.0 == calculation.total_spot_liability_value
    &&& ffi.total_perp_liability_value.0 == calculation.total_perp_liability_value
    &&& ffi.total_perp_pnl.0 == calculation.total_perp_pnl
    &&& forall|i: int|
        0 <= i < 8 ==> (#[trigger] ffi.isolated_margin_calculations[i])
            == if i < calculation.isolated.len() {
            ffi_isolated(calculation.isolated[i])
        } else {
            types::IsolatedMarginCalculation::unused()
        }
}

/// The answer to a full margin calculation, `None` where it has more than eight isolated
/// calculations.
pub fn checked_margin_calculation(result: Result<ProgramMargin, u32>) -> (r: Option<
    FfiResult<types::MarginCalculation>,
>)
    ensures
        match result {
            Ok(calculation) => match r {
                Some(ROk(ffi)) => calculation.isolated.len() <= 8 && is_ffi_margin(
                    ffi,
                    calculation,
                ),
                Some(RErr(_)) => false,
                None => calculation.isolated.len() > 8,
            },
            Err(code) => r == Some(RErr::<types::MarginCalculation, u32>(code)),
        },
{
    let calculation = match result {
        Ok(calculation) => calculation,
        Err(code) => {
            return Some(to_ffi_result(Err(code)));
        },
    };
    let isolated = &calculation.isolated;
    if isolated.len() > 8 {
        return None;
    }
    let mut isolated_margin_calculations = [types::IsolatedMarginCalculation::default();8];
    for i in 0..isolated.len()
        invariant
            isolated.len() <= 8,
            forall|j: int|
                0 <= j < 8 ==> (#[trigger] isolated_margin_calculations@[j]) == if j < i {
                    ffi_isolated(isolated[j])
                } else {
                    types::IsolatedMarginCalculation::unused()
                },
    {
        let calc = isolated[i];
        isolated_margin_calculations[i] =
        types::IsolatedMarginCalculation {
            market_index: calc.market_index,
            margin_requirement: calc.margin_requirement.into(),
            total_collateral: calc.total_collateral.into(),
            total_collateral_buffer: calc.total_collateral_buffer.into(),
            margin_requirement_plus_buffer: calc.margin_requirement_plus_buffer.into(),
        };
    }
    Some(
        to_ffi_result(
            Ok(
                types::MarginCalculation {
                    total_collateral: calculation.total_collateral.into(),
                    margin_requirement: calculation.margin_requirement.into(),
                    with_perp_isolated_liability: calculation.with_perp_isolated_liability,
                    with_spot_isolated_liability: calculation.with_spot_isolated_liability,
                    total_spot_asset_value: calculation.total_spot_asset_value.into(),
                    total_spot_liability_value: calculation.total_spot_liability_value.into(),
                    total_perp_liability_value: calculation.total_perp_liability_value.into(),
                    total_perp_pnl: calculation.total_perp_pnl.into(),
                    isolated_margin_calculations,
                },
            ),
        ),
    )
}

/// [`checked_margin_calculation`] where there is an answer.
pub fn math_calculate_margin_requirement_and_total_collateral_and_liability_info(
    result: Result<ProgramMargin, u32>,
) -> (r: FfiResult<types::MarginCalculation>)
    requires
        result matches Ok(calculation) ==> calculation.isolated.len() <= 8,
    ensures
        match result {
            Ok(calculation) => r matches ROk(ffi) && is_ffi_margin(ffi, calculation),
            Err(code) => r == RErr::<types::MarginCalculation, u32>(code),
        },
{
    checked_margin_calculation(result).unwrap()
}

/// The clock for placing an order, which needs no epochs.
pub fn order_clock(latest_slot: Slot, unix_seconds: u64) -> (r: Clock)
    ensures
        r.slot == latest_slot,
        r.epoch_start_timestamp == 0,
        r.epoch == 0,
        r.leader_schedule_epoch == 0,
        r.unix_timestamp == signed_bits_64(unix_seconds as int),
{
    Clock {
        slot: latest_slot,
        epoch_start_timestamp: 0,
        epoch: 0,
        leader_schedule_epoch: 0,
        unix_timestamp: to_signed_64(unix_seconds),
    }
}

/// Whether `ffi` is the calculation `view` as the C interface has it.
pub open spec fn is_ffi_simplified(
    ffi: types::SimplifiedMarginCalculation,
    view: SimplifiedView,
) -> bool {
    &&& ffi.total_collateral.0 == view.totals.collateral
    &&& ffi.total_collateral_buffer.0 == view.totals.collateral_buffer
    &&& ffi.margin_requirement.0 == view.totals.requirement
    &&& ffi.margin_requirement_plus_buffer.0 == view.totals.requirement_plus_buffer
    &&& view.isolated.len() == 8
    &&& forall|i: int|
        0 <= i < 8 ==> (#[trigger] ffi.isolated_margin_calculations[i]) == ffi_isolated(
            view.isolated[i],
        )
    &&& ffi.with_perp_isolated_liability == view.with_perp_isolated_liability
    &&& ffi.with_spot_isolated_liability == view.with_spot_isolated_liability
}

/// Whether `ffi` is the answer for an outcome of the simplified margin calculation.
pub open spec fn is_ffi_outcome(
    ffi: FfiResult<types::SimplifiedMarginCalculation>,
    outcome: Result<SimplifiedView, ErrorCode>,
    oracle_not_found: u32,
) -> bool {
    match outcome {
        Ok(view) => ffi matches ROk(calculation) && is_ffi_simplified(calculation, view),
        Err(error) => ffi == RErr::<types::SimplifiedMarginCalculation, u32>(
            error.number(oracle_not_found),
        ),
    }
}

/// The answer to a simplified margin calculation; `oracle_not_found` is the program's
/// number for a missing oracle. `None` where a market that the calculation needs is
/// unknown or a number does not fit its type.
pub fn checked_margin_calculate_simplified_margin_requirement(
    user: &User,
    market_state: &MarketState,
    margin_type: MarginRequirementType,
    margin_buffer: u32,
    figures: &ProgramFigures,
    oracle_not_found: u32,
) -> (r: Option<FfiResult<types::SimplifiedMarginCalculation>>)
    ensures
        match (MarginInput {
            user: *user,
            market_state: *market_state,
            margin_type,
            margin_buffer,
            figures: *figures,
        }).outcome() {
            Some(outcome) => r matches Some(ffi) && is_ffi_outcome(ffi, outcome, oracle_not_found),
            None => r is None,
        },
{
    match checked_calculate_simplified_margin_requirement(
        user,
        market_state,
        margin_type,
        margin_buffer,
        figures,
    ) {
        Some(Ok(calculation)) => {
            let ffi = types::SimplifiedMarginCalculation::from(calculation);
            Some(to_ffi_result(Ok(ffi)))
        },
        Some(Err(error)) => Some(to_ffi_result(Err(error.get_number(oracle_not_found)))),
        None => None,
    }
}

/// [`checked_margin_calculate_simplified_margin_requirement`] where there is an answer.
pub fn margin_calculate_simplified_margin_requirement(
    user: &User,
    market_state: &MarketState,
    margin_type: MarginRequirementType,
    margin_buffer: u32,
    figures: &ProgramFigures,
    oracle_not_found: u32,
) -> (r: FfiResult<types::SimplifiedMarginCalculation>)
    requires
        (MarginInput {
            user: *user,
            market_state: *market_state,
            margin_type,
            margin_buffer,
            figures: *figures,
        }).outcome() is Some,
    ensures
        is_ffi_outcome(
            r,
            (MarginInput {
                user: *user,
                market_state: *market_state,
                margin_type,
                margin_buffer,
                figures: *figures,
            }).outcome()->0,
            oracle_not_found,
        ),
{
    checked_margin_calculate_simplified_margin_requirement(
        user,
        market_state,
        margin_type,
        margin_buffer,
        figures,
        oracle_not_found,
    ).unwrap()
}

/// [`IncrementalMarginCalculation::from_user`].
pub fn incremental_margin_calculation_from_user(
    user: &User,
    market_state: &MarketState,
    margin_type: MarginRequirementType,
    timestamp: u64,
    margin_buffer: u32,
    figures: &ProgramFigures,
) -> (r: IncrementalMarginCalculation)
    requires
        input_of(
            *user,
            *market_state,
            margin_type,
            timestamp,
            margin_buffer,
            *figures,
        ).outcome() is Some,
    ensures
        input_of(
            *user,
            *market_state,
            margin_type,
            timestamp,
            margin_buffer,
            *figures,
        ).outcome() == Some(r@),
{
    IncrementalMarginCalculation::from_user(
        user,
        market_state,
        margin_type,
        timestamp,
        margin_buffer,
        figures,
    )
}

/// [`IncrementalMarginCalculation::update_spot_position`].
pub fn incremental_margin_calculation_update_spot_position(
    this: &mut IncrementalMarginCalculation,
    spot_position: &SpotPosition,
    market_state: &MarketState,
    timestamp: u64,
    figures: Result<SpotFigures, u32>,
)
    requires
        old(this)@.spot_updated(*spot_position, *market_state, timestamp, figures) is Some,
    ensures
        old(this)@.spot_updated(*spot_position, *market_state, timestamp, figures) == Some(
            final(this)@,
        ),
{
    this.update_spot_position(spot_position, market_state, timestamp, figures);
}

/// [`IncrementalMarginCalculation::update_perp_position`].
pub fn incremental_margin_calculation_update_perp_position(
    this: &mut IncrementalMarginCalculation,
    perp_position: &PerpPosition,
    market_state: &MarketState,
    timestamp: u64,
    figures: Result<PerpFigures, u32>,
)
    requires
        old(this)@.perp_updated(*perp_position, *market_state, timestamp, figures) is Some,
    ensures
        old(this)@.perp_updated(*perp_position, *market_state, timestamp, figures) == Some(
            final(this)@,
        ),
{
    this.update_perp_position(perp_position, market_state, timestamp, figures);
}

} // verus!
