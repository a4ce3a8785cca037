//! What the C interface hands out, field by field, and how single numbers are counted.
use abi_stable::std_types::RResult::{RErr, ROk};
use anchor_lang::solana_program::pubkey::Pubkey;
use vstd::prelude::*;
use vstd::std_specs::convert::FromSpec;

use crate::arith::{buffer_share, loss_share, signed_bits_64};
use crate::exports::{is_ffi_margin, is_ffi_outcome, is_ffi_simplified, ProgramMargin};
use crate::laws::entries::{lemma_share_is_positive, sums_fit};
use crate::margin;
use crate::margin::simplified::viewed;
use crate::margin::totals::MarginTotals;
use crate::margin::SimplifiedView;
use crate::protocol::{ErrorCode, MarginRequirementType};
use crate::shims::Account;
use crate::types;
use crate::types::{lookup, AccountWithKey, FfiResult, MarginContextMode};

verus! {

/// Whether `ffi` holds the five values of `calc`, each in its own field.
pub open spec fn same_isolated(
    ffi: types::IsolatedMarginCalculation,
    calc: margin::IsolatedMarginCalculation,
) -> bool {
    &&& ffi.margin_requirement.0 == calc.margin_requirement
    &&& ffi.total_collateral.0 == calc.total_collateral
    &&& ffi.total_collateral_buffer.0 == calc.total_collateral_buffer
    &&& ffi.margin_requirement_plus_buffer.0 == calc.margin_requirement_plus_buffer
    &&& ffi.market_index == calc.market_index
}

/// Whether an isolated calculation of the interface holds nothing.
pub open spec fn holds_nothing(ffi: types::IsolatedMarginCalculation) -> bool {
    &&& ffi.margin_requirement.0 == 0
    &&& ffi.total_collateral.0 == 0
    &&& ffi.total_collateral_buffer.0 == 0
    &&& ffi.margin_requirement_plus_buffer.0 == 0
    &&& ffi.market_index == 0
}

/// A full margin calculation is handed out with its own values, its isolated calculations in
/// their order, and nothing behind them.
pub proof fn law_full_margin_is_handed_out(
    ffi: types::MarginCalculation,
    calculation: ProgramMargin,
)
    requires
        is_ffi_margin(ffi, calculation),
    ensures
        ffi.total_collateral.0 == calculation.total_collateral,
        ffi.margin_requirement.0 == calculation.margin_requirement,
        ffi.with_perp_isolated_liability == calculation.with_perp_isolated_liability,
        ffi.with_spot_isolated_liability == calculation.with_spot_isolated_liability,
        ffi.total_spot_asset_value.0 == calculation.total_spot_asset_value,
        ffi.total_spot_liability_value.0 == calculation.total_spot_liability_value,
        ffi.total_perp_liability_value.0 == calculation.total_perp_liability_value,
        ffi.total_perp_pnl.0 == calculation.total_perp_pnl,
        forall|i: int|
            0 <= i < 8 && i < calculation.isolated.len() ==> same_isolated(
                #[trigger] ffi.isolated_margin_calculations[i],
                calculation.isolated[i],
            ),
        forall|i: int|
            calculation.isolated.len() <= i < 8 ==> holds_nothing(
                #[trigger] ffi.isolated_margin_calculations[i],
            ),
{
}

/// A simplified margin calculation is handed out with its own values, each isolated
/// calculation at its place.
pub proof fn law_simplified_margin_is_handed_out(
    ffi: types::SimplifiedMarginCalculation,
    view: SimplifiedView,
)
    requires
        is_ffi_simplified(ffi, view),
    ensures
        ffi.total_collateral.0 == view.totals.collateral,
        ffi.total_collateral_buffer.0 == view.totals.collateral_buffer,
        ffi.margin_requirement.0 == view.totals.requirement,
        ffi.margin_requirement_plus_buffer.0 == view.totals.requirement_plus_buffer,
        ffi.with_perp_isolated_liability == view.with_perp_isolated_liability,
        ffi.with_spot_isolated_liability == view.with_spot_isolated_liability,
        view.isolated.len() == 8,
        forall|i: int|
            0 <= i < 8 ==> same_isolated(
                #[trigger] ffi.isolated_margin_calculations[i],
                view.isolated[i],
            ),
{
}

/// The interface answers with a calculation exactly where there is one. A missing oracle is
/// answered with the program's number for it, and an error of the program with its own number.
pub proof fn law_outcome_is_handed_out(
    ffi: FfiResult<types::SimplifiedMarginCalculation>,
    outcome: Result<SimplifiedView, ErrorCode>,
    oracle_not_found: u32,
)
    requires
        is_ffi_outcome(ffi, outcome, oracle_not_found),
    ensures
        match (ffi, outcome) {
            (ROk(calculation), Ok(view)) => is_ffi_simplified(calculation, view),
            (RErr(number), Err(ErrorCode::OracleNotFound)) => number == oracle_not_found,
            (RErr(number), Err(ErrorCode::Program(code))) => number == code,
            _ => false,
        },
{
}

/// Converting a simplified calculation keeps each of its values in its own field.
pub proof fn law_simplified_margin_is_converted(value: margin::SimplifiedMarginCalculation)
    ensures
        ({
            let ffi = types::SimplifiedMarginCalculation::from_spec(value);
            &&& ffi.total_collateral.0 == value.total_collateral
            &&& ffi.total_collateral_buffer.0 == value.total_collateral_buffer
            &&& ffi.margin_requirement.0 == value.margin_requirement
            &&& ffi.margin_requirement_plus_buffer.0 == value.margin_requirement_plus_buffer
            &&& ffi.with_perp_isolated_liability == value.with_perp_isolated_liability
            &&& ffi.with_spot_isolated_liability == value.with_spot_isolated_liability
            &&& forall|i: int|
                0 <= i < 8 ==> same_isolated(
                    #[trigger] ffi.isolated_margin_calculations[i],
                    value.isolated_margin_calculations[i],
                )
        }),
{
}

/// An account and its address are put together and taken apart again unchanged, and a number
/// is handed out as it is.
pub proof fn law_values_are_converted(
    key: Pubkey,
    account: Account,
    signed: i128,
    unsigned: u128,
)
    ensures
        ({
            let together = AccountWithKey::from_spec((key, account));
            &&& together.key == key
            &&& together.account == account
            &&& <(Pubkey, Account)>::from_spec(together) == (key, account)
        }),
        <AccountWithKey as FromSpec<(Pubkey, Account)>>::obeys_from_spec(),
        <(Pubkey, Account) as FromSpec<AccountWithKey>>::obeys_from_spec(),
        types::compat::i128::from_spec(signed).0 == signed,
        types::compat::u128::from_spec(unsigned).0 == unsigned,
{
}

/// The two standard contexts ask for the margin in their name, a custom one for its own.
pub proof fn law_contexts_name_their_margin(margin_type: MarginRequirementType)
    ensures
        MarginRequirementType::from_spec(MarginContextMode::StandardMaintenance)
            == MarginRequirementType::Maintenance,
        MarginRequirementType::from_spec(MarginContextMode::StandardInitial)
            == MarginRequirementType::Initial,
        MarginRequirementType::from_spec(MarginContextMode::StandardCustom(margin_type))
            == margin_type,
        <MarginRequirementType as FromSpec<MarginContextMode>>::obeys_from_spec(),
{
}

/// An outcome is viewed as what it is: nothing, the same error, or its own calculation.
pub proof fn law_outcomes_are_viewed(
    outcome: Option<Result<margin::SimplifiedMarginCalculation, ErrorCode>>,
)
    ensures
        match (outcome, viewed(outcome)) {
            (None, None) => true,
            (Some(Err(error)), Some(Err(seen))) => seen == error,
            (Some(Ok(calculation)), Some(Ok(seen))) => seen == calculation@,
            _ => false,
        },
{
}

/// A table answers with what it holds under a key, and with nothing under any other.
pub proof fn law_tables_answer<V>(table: Map<u16, V>, key: u16)
    ensures
        lookup(table, key) is Some <==> table.contains_key(key),
        table.contains_key(key) ==> lookup(table, key)->0 == table[key],
{
}

/// Seconds up to the largest `i64` are taken as they are; later ones are `2^64` less.
pub proof fn law_seconds_are_read(seconds: u64)
    ensures
        seconds <= i64::MAX ==> signed_bits_64(seconds as int) == seconds,
        seconds > i64::MAX ==> signed_bits_64(seconds as int) == seconds - u64::MAX - 1,
{
}

/// A buffer is `margin_buffer` ten-thousandths: of an amount rounded down, and of a loss
/// rounded towards zero. There is none where the product does not fit.
pub proof fn law_buffers_are_shares(amount: u128, loss: i128, margin_buffer: u32)
    requires
        loss <= 0,
    ensures
        match buffer_share(amount as int, margin_buffer) {
            Some(share) => {
                &&& amount * margin_buffer <= u128::MAX
                &&& share * 10_000 <= amount * margin_buffer < (share + 1) * 10_000
            },
            None => amount * margin_buffer > u128::MAX,
        },
        match loss_share(loss as int, margin_buffer) {
            Some(share) => {
                &&& loss * margin_buffer >= i128::MIN
                &&& (share - 1) * 10_000 < loss * margin_buffer <= share * 10_000
            },
            None => loss * margin_buffer < i128::MIN,
        },
{
    lemma_share_is_positive(amount as int, margin_buffer);
    lemma_share_is_positive(-loss, margin_buffer);
}

/// Sums are added and taken off one by one; taking off what was added leaves what was there;
/// and they fit where each is a number of its type.
pub proof fn law_sums_are_separate(a: MarginTotals, b: MarginTotals)
    ensures
        a.plus(b).collateral == a.collateral + b.collateral,
        a.plus(b).collateral_buffer == a.collateral_buffer + b.collateral_buffer,
        a.plus(b).requirement == a.requirement + b.requirement,
        a.plus(b).requirement_plus_buffer == a.requirement_plus_buffer + b.requirement_plus_buffer,
        a.plus(b).minus(b) == a,
        a.plus(MarginTotals::zero()) == a,
        a.fits() <==> sums_fit(
            a.collateral,
            a.collateral_buffer,
            a.requirement,
            a.requirement_plus_buffer,
        ),
{
}

} // verus!
