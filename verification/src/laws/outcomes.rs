//! When a one-off calculation comes to an outcome, and what is in it beside the sums.
use vstd::prelude::*;

use crate::arith::{abs, buffer_share, loss_share};
use crate::laws::positions::{isolated_of, lemma_isolated_free_after_spot};
use crate::laws::sums::{
    is_perp_isolated_liability, is_spot_isolated_liability, law_sums_add_up, lemma_perp_prefix,
    lemma_spot_prefix,
};
use crate::margin::simplified::{no_positions, perp_part, spot_parts, MarginInput};
use crate::margin::totals::MarginTotals;
use crate::margin::{IsolatedMarginCalculation, SimplifiedView};
use crate::protocol::{AssetTier, ContractTier, ErrorCode};
use crate::table::{first_place, lemma_first_place};
use crate::valuation::{PerpFigures, SpotFigures};

verus! {

proof fn lemma_nothing_adds_up(input: MarginInput, count: nat)
    requires
        count <= 8,
        forall|i: int| 0 <= i < 8 ==> (#[trigger] input.user.spot_positions[i]).available,
        forall|i: int| 0 <= i < 8 ==> (#[trigger] input.user.perp_positions[i]).available,
    ensures
        input.after_spot(count) == input.after_spot(0),
        input.after_perp(count) == input.after_spot(8),
    decreases count,
{
    if count > 0 {
        lemma_nothing_adds_up(input, (count - 1) as nat);
        assert(input.user.spot_positions[count - 1].available);
        assert(input.user.perp_positions[count - 1].available);
    }
}

/// The calculation without positions holds nothing in any field.
pub proof fn law_nothing_is_held_without_positions()
    ensures
        ({
            let c = no_positions();
            &&& c.totals.collateral == 0
            &&& c.totals.collateral_buffer == 0
            &&& c.totals.requirement == 0
            &&& c.totals.requirement_plus_buffer == 0
            &&& !c.with_perp_isolated_liability
            &&& !c.with_spot_isolated_liability
            &&& c.isolated.len() == 8
            &&& forall|k: int|
                0 <= k < 8 ==> {
                    &&& (#[trigger] c.isolated[k]).margin_requirement == 0
                    &&& c.isolated[k].total_collateral == 0
                    &&& c.isolated[k].total_collateral_buffer == 0
                    &&& c.isolated[k].margin_requirement_plus_buffer == 0
                    &&& c.isolated[k].market_index == 0
                }
        }),
{
}

/// A user without positions has no collateral, no requirement, no buffers, no isolated
/// calculations and no isolated liabilities.
pub proof fn law_user_without_positions(input: MarginInput)
    requires
        forall|i: int| 0 <= i < 8 ==> (#[trigger] input.user.spot_positions[i]).available,
        forall|i: int| 0 <= i < 8 ==> (#[trigger] input.user.perp_positions[i]).available,
    ensures
        input.outcome() matches Some(Ok(c)) && {
            &&& c.totals.collateral == 0
            &&& c.totals.collateral_buffer == 0
            &&& c.totals.requirement == 0
            &&& c.totals.requirement_plus_buffer == 0
            &&& !c.with_perp_isolated_liability
            &&& !c.with_spot_isolated_liability
            &&& c.isolated.len() == 8
            &&& forall|k: int|
                0 <= k < 8 ==> {
                    &&& (#[trigger] c.isolated[k]).margin_requirement == 0
                    &&& c.isolated[k].total_collateral == 0
                    &&& c.isolated[k].total_collateral_buffer == 0
                    &&& c.isolated[k].margin_requirement_plus_buffer == 0
                    &&& c.isolated[k].market_index == 0
                }
        },
{
    lemma_nothing_adds_up(input, 8);
}

/// The flag for spot assets holds exactly where some position outside the quote market is in
/// an isolated asset and either worth less than nothing, or worth nothing and with an open
/// order. The flag for perp contracts holds exactly where some position has collateral of its
/// own, or is in an isolated contract with a base amount, long or short, a negative quote
/// amount or an open order.
pub proof fn law_isolated_liabilities(input: MarginInput)
    requires
        input.outcome() matches Some(Ok(_)),
    ensures
        input.outcome()->0->Ok_0.with_spot_isolated_liability <==> exists|i: int|
            #![trigger input.user.spot_positions[i]]
            0 <= i < 8 && {
                let position = input.user.spot_positions[i];
                let market = input.market_state.spot_markets@[position.market_index];
                let token = input.figures.spot[i]->Ok_0.token_value;
                &&& !position.available
                &&& market.market_index != 0
                &&& market.asset_tier == AssetTier::Isolated
                &&& token < 0 || (token == 0 && position.has_open_order)
            },
        input.outcome()->0->Ok_0.with_perp_isolated_liability <==> exists|i: int|
            #![trigger input.user.perp_positions[i]]
            0 <= i < 8 && {
                let position = input.user.perp_positions[i];
                let market = input.market_state.perp_markets@[position.market_index];
                &&& !position.available
                &&& position.isolated || (market.contract_tier == ContractTier::Isolated && (
                position.base_asset_amount != 0 || position.quote_asset_amount < 0
                    || position.has_open_order))
            },
{
    law_sums_add_up(input);
    if input.outcome()->0->Ok_0.with_spot_isolated_liability {
        let i = choose|i: int| 0 <= i < 8 && #[trigger] is_spot_isolated_liability(input, i);
        let position = input.user.spot_positions[i];
    }
    assert forall|i: int| 0 <= i < 8 && ({
        let position = #[trigger] input.user.spot_positions[i];
        let market = input.market_state.spot_markets@[position.market_index];
        let token = input.figures.spot[i]->Ok_0.token_value;
        &&& !position.available
        &&& market.market_index != 0
        &&& market.asset_tier == AssetTier::Isolated
        &&& token < 0 || (token == 0 && position.has_open_order)
    }) implies input.outcome()->0->Ok_0.with_spot_isolated_liability by {
        assert(is_spot_isolated_liability(input, i));
    }
    if input.outcome()->0->Ok_0.with_perp_isolated_liability {
        let i = choose|i: int| 0 <= i < 8 && #[trigger] is_perp_isolated_liability(input, i);
        let position = input.user.perp_positions[i];
    }
    assert forall|i: int| 0 <= i < 8 && ({
        let position = #[trigger] input.user.perp_positions[i];
        let market = input.market_state.perp_markets@[position.market_index];
        &&& !position.available
        &&& position.isolated || (market.contract_tier == ContractTier::Isolated && (
        position.base_asset_amount != 0 || position.quote_asset_amount < 0
            || position.has_open_order))
    }) implies input.outcome()->0->Ok_0.with_perp_isolated_liability by {
        assert(is_perp_isolated_liability(input, i));
    }
}

/// Whether there is an isolated perp position at `place` that asks for margin or has
/// collateral.
pub open spec fn has_isolated_margin(input: MarginInput, place: int) -> bool {
    let position = input.user.perp_positions[place];
    let figures = input.figures.perp[place]->Ok_0;
    !position.available && position.isolated && (figures.margin_requirement != 0
        || figures.deposit_value + figures.weighted_pnl != 0)
}

/// How many of the first `count` slots hold such a position.
pub open spec fn isolated_margins(input: MarginInput, count: nat) -> nat
    decreases count,
{
    if count == 0 {
        0
    } else if has_isolated_margin(input, count - 1) {
        isolated_margins(input, (count - 1) as nat) + 1
    } else {
        isolated_margins(input, (count - 1) as nat)
    }
}

proof fn lemma_isolated_margins_grow(input: MarginInput, less: nat, more: nat)
    requires
        less <= more,
    ensures
        isolated_margins(input, less) <= isolated_margins(input, more) <= isolated_margins(
            input,
            less,
        ) + (more - less),
    decreases more - less,
{
    if less < more {
        lemma_isolated_margins_grow(input, less, (more - 1) as nat);
    }
}

proof fn lemma_isolated_ranks(input: MarginInput, count: nat)
    requires
        count <= 8,
        input.after_perp(count) matches Some(Ok(_)),
    ensures
        ({
            let isolated = input.after_perp(count)->0->Ok_0.isolated;
            &&& isolated.len() == 8
            &&& isolated_margins(input, count) <= count
            &&& forall|k: int|
                isolated_margins(input, count) <= k < 8 ==> (#[trigger] isolated[k]).empty()
            &&& forall|k: int|
                0 <= k < isolated_margins(input, count) ==> !(#[trigger] isolated[k]).empty()
            &&& forall|i: int|
                0 <= i < count && #[trigger] has_isolated_margin(input, i) ==> isolated[
                    isolated_margins(input, i as nat) as int] == isolated_of(input, i)
        }),
    decreases count,
{
    if count == 0 {
        lemma_perp_prefix(input, 0, count);
        lemma_isolated_free_after_spot(input, 8);
    } else {
        let less = (count - 1) as nat;
        lemma_perp_prefix(input, less, count);
        lemma_isolated_ranks(input, less);
        let b = input.after_perp(less)->0->Ok_0.isolated;
        let c = input.after_perp(count)->0->Ok_0.isolated;
        let position = input.user.perp_positions[count - 1];
        let rank = isolated_margins(input, less) as int;
        assert forall|i: int| 0 <= i < less && #[trigger] has_isolated_margin(input, i) implies
            isolated_margins(input, i as nat) < rank by {
            lemma_isolated_margins_grow(input, (i + 1) as nat, less);
        }
        if !position.available && position.isolated {
            let free = |e: IsolatedMarginCalculation| e.empty();
            lemma_first_place(b, free, 0);
            assert(free(b[rank]));
            let place = first_place(b, free, 0)->0;
            assert(place == rank) by {
                assert(free(b[place]));
            }
            let entry = isolated_of(input, count - 1);
            assert(c == b.update(rank, entry));
            assert(entry.empty() <==> !has_isolated_margin(input, count - 1));
        } else {
            assert(c == b);
        }
    }
}

/// Each isolated perp position has its own calculation, in the order of the positions: its
/// collateral is its own deposit with its profit or loss, its requirement is that of the
/// position, a loss has a buffer and a profit has none. Its buffered requirement is the
/// requirement with a buffer on the worst-case liability, and zero without a margin buffer.
/// All other places have neither a requirement nor collateral.
pub proof fn law_isolated_calculations(input: MarginInput)
    requires
        input.outcome() matches Some(Ok(_)),
    ensures
        input.outcome()->0->Ok_0.isolated.len() == 8,
        forall|i: int|
            0 <= i < 8 && #[trigger] has_isolated_margin(input, i) ==> {
                let calc = input.outcome()->0->Ok_0.isolated[
                    isolated_margins(input, i as nat) as int];
                let position = input.user.perp_positions[i];
                let figures = input.figures.perp[i]->Ok_0;
                let pnl = figures.weighted_pnl;
                let buffer = input.margin_buffer;
                &&& 0 <= isolated_margins(input, i as nat) < 8
                &&& calc.market_index == position.market_index
                &&& calc.total_collateral == figures.deposit_value + pnl
                &&& calc.margin_requirement == figures.margin_requirement
                &&& calc.total_collateral_buffer == if pnl < 0 {
                    -(-(pnl * buffer) / 10_000)
                } else {
                    0
                }
                &&& calc.margin_requirement_plus_buffer == if buffer > 0 {
                    figures.margin_requirement + figures.worst_case_liability_value * buffer
                        / 10_000
                } else {
                    0
                }
            },
        forall|k: int|
            isolated_margins(input, 8) <= k < 8 ==> (
            #[trigger] input.outcome()->0->Ok_0.isolated[k]).margin_requirement == 0
                && input.outcome()->0->Ok_0.isolated[k].total_collateral == 0,
{
    lemma_isolated_ranks(input, 8);
    assert forall|i: int| 0 <= i < 8 && #[trigger] has_isolated_margin(input, i) implies {
        let calc = input.outcome()->0->Ok_0.isolated[isolated_margins(input, i as nat) as int];
        let position = input.user.perp_positions[i];
        let figures = input.figures.perp[i]->Ok_0;
        let pnl = figures.weighted_pnl;
        let buffer = input.margin_buffer;
        &&& 0 <= isolated_margins(input, i as nat) < 8
        &&& calc.market_index == position.market_index
        &&& calc.total_collateral == figures.deposit_value + pnl
        &&& calc.margin_requirement == figures.margin_requirement
        &&& calc.total_collateral_buffer == if pnl < 0 {
            -(-(pnl * buffer) / 10_000)
        } else {
            0
        }
        &&& calc.margin_requirement_plus_buffer == if buffer > 0 {
            figures.margin_requirement + figures.worst_case_liability_value * buffer / 10_000
        } else {
            0
        }
    } by {
        lemma_isolated_margins_grow(input, (i + 1) as nat, 8);
        lemma_isolated_margins_grow(input, 0, 8);
        lemma_perp_prefix(input, (i + 1) as nat, 8);
        lemma_perp_prefix(input, i as nat, 8);
        let pnl = input.figures.perp[i]->Ok_0.weighted_pnl;
        if pnl < 0 {
            lemma_loss_is_small(pnl as int, input.margin_buffer);
        }
    }
}

proof fn lemma_loss_is_small(loss: int, margin_buffer: u32)
    requires
        loss <= 0,
        loss_share(loss, margin_buffer) is Some,
    ensures
        i128::MIN <= loss_share(loss, margin_buffer)->0 <= 0,
{
    assert(loss * margin_buffer <= 0) by (nonlinear_arith)
        requires
            loss <= 0,
            0 <= margin_buffer,
    ;
}

/// Whether the spot position at `place` does not stand in the way of a calculation: the slot
/// is empty, or its market, its oracle price and its figures are there.
pub open spec fn spot_is_there(input: MarginInput, place: int) -> bool {
    let position = input.user.spot_positions[place];
    position.available || {
        &&& input.market_state.spot_markets@.contains_key(position.market_index)
        &&& input.market_state.spot_oracle_prices@.contains_key(position.market_index)
        &&& input.figures.spot[place] is Ok
    }
}

/// Whether the perp position at `place` does not stand in the way of a calculation: the slot
/// is empty, or its market, the oracle prices of its market and of the quote market, its
/// figures and, for an isolated position, the quote market are there.
pub open spec fn perp_is_there(input: MarginInput, place: int) -> bool {
    let position = input.user.perp_positions[place];
    let market = input.market_state.perp_markets@[position.market_index];
    position.available || {
        &&& input.market_state.perp_markets@.contains_key(position.market_index)
        &&& input.market_state.perp_oracle_prices@.contains_key(position.market_index)
        &&& input.market_state.spot_oracle_prices@.contains_key(market.quote_spot_market_index)
        &&& input.figures.perp[place] is Ok
        &&& position.isolated ==> input.market_state.spot_markets@.contains_key(
            market.quote_spot_market_index,
        )
    }
}

/// A calculation comes to sums only where nothing is missing for any position.
pub proof fn law_sums_need_everything(input: MarginInput)
    requires
        input.outcome() matches Some(Ok(_)),
    ensures
        forall|i: int| 0 <= i < 8 ==> #[trigger] spot_is_there(input, i),
        forall|i: int| 0 <= i < 8 ==> #[trigger] perp_is_there(input, i),
{
    assert forall|i: int| 0 <= i < 8 implies #[trigger] spot_is_there(input, i) by {
        lemma_perp_prefix(input, 0, 8);
        lemma_spot_prefix(input, (i + 1) as nat, 8);
        lemma_spot_prefix(input, i as nat, 8);
    }
    assert forall|i: int| 0 <= i < 8 implies #[trigger] perp_is_there(input, i) by {
        lemma_perp_prefix(input, (i + 1) as nat, 8);
        lemma_perp_prefix(input, i as nat, 8);
    }
}

/// Whether a calculation ends with `error` at the spot position at `place`: its market is
/// there, and either the oracle price is not or the program refused.
pub open spec fn spot_ends_with(input: MarginInput, place: int, error: ErrorCode) -> bool {
    let position = input.user.spot_positions[place];
    &&& !position.available
    &&& input.market_state.spot_markets@.contains_key(position.market_index)
    &&& if input.market_state.spot_oracle_prices@.contains_key(position.market_index) {
        input.figures.spot[place] matches Err(code) && error == ErrorCode::Program(code)
    } else {
        error == ErrorCode::OracleNotFound
    }
}

/// Whether a calculation ends with `error` at the perp position at `place`: its market is
/// there, and either an oracle price is not or the program refused.
pub open spec fn perp_ends_with(input: MarginInput, place: int, error: ErrorCode) -> bool {
    let position = input.user.perp_positions[place];
    let market = input.market_state.perp_markets@[position.market_index];
    &&& !position.available
    &&& input.market_state.perp_markets@.contains_key(position.market_index)
    &&& if input.market_state.perp_oracle_prices@.contains_key(position.market_index)
        && input.market_state.spot_oracle_prices@.contains_key(market.quote_spot_market_index) {
        input.figures.perp[place] matches Err(code) && error == ErrorCode::Program(code)
    } else {
        error == ErrorCode::OracleNotFound
    }
}

spec fn spot_ended(input: MarginInput, count: nat, error: ErrorCode) -> bool {
    exists|i: int|
        0 <= i < count && #[trigger] spot_ends_with(input, i, error) && forall|j: int|
            0 <= j < i ==> #[trigger] spot_is_there(input, j)
}

spec fn perp_ended(input: MarginInput, count: nat, error: ErrorCode) -> bool {
    exists|i: int|
        0 <= i < count && #[trigger] perp_ends_with(input, i, error) && forall|j: int|
            0 <= j < i ==> #[trigger] perp_is_there(input, j)
}

proof fn lemma_spot_ended(input: MarginInput, count: nat)
    requires
        count <= 8,
    ensures
        input.after_spot(count) matches Some(Err(error)) ==> spot_ended(input, count, error),
        input.after_spot(count) matches Some(Ok(_)) ==> forall|j: int|
            0 <= j < count ==> #[trigger] spot_is_there(input, j),
    decreases count,
{
    if count > 0 {
        let less = (count - 1) as nat;
        lemma_spot_ended(input, less);
        if let Some(Err(error)) = input.after_spot(count) {
            if input.after_spot(less) == input.after_spot(count) {
                let i = choose|i: int|
                    0 <= i < less && #[trigger] spot_ends_with(input, i, error) && forall|j: int|
                        0 <= j < i ==> #[trigger] spot_is_there(input, j);
                assert(spot_ends_with(input, i, error));
            } else {
                assert(spot_ends_with(input, count - 1, error));
            }
        } else if let Some(Ok(_)) = input.after_spot(count) {
            assert(spot_is_there(input, count - 1));
        }
    }
}

proof fn lemma_perp_ended(input: MarginInput, count: nat)
    requires
        count <= 8,
    ensures
        input.after_perp(count) matches Some(Err(error)) ==> spot_ended(input, 8, error) || (
        perp_ended(input, count, error) && forall|j: int|
            0 <= j < 8 ==> #[trigger] spot_is_there(input, j)),
        input.after_perp(count) matches Some(Ok(_)) ==> forall|j: int|
            0 <= j < count ==> #[trigger] perp_is_there(input, j),
    decreases count,
{
    if count == 0 {
        lemma_spot_ended(input, 8);
    } else {
        let less = (count - 1) as nat;
        lemma_perp_ended(input, less);
        if let Some(Err(error)) = input.after_perp(count) {
            if input.after_perp(less) == input.after_perp(count) {
                if perp_ended(input, less, error) {
                    let i = choose|i: int|
                        0 <= i < less && #[trigger] perp_ends_with(input, i, error) && forall|
                            j: int,
                        |
                            0 <= j < i ==> #[trigger] perp_is_there(input, j);
                    assert(perp_ends_with(input, i, error));
                }
            } else {
                assert(input.after_perp(less) matches Some(Ok(_)));
                lemma_perp_prefix(input, 0, less);
                lemma_spot_ended(input, 8);
                assert(perp_ends_with(input, count - 1, error));
            }
        } else if let Some(Ok(_)) = input.after_perp(count) {
            assert(perp_is_there(input, count - 1));
        }
    }
}

/// An error is that of the first position, spot positions first, that lacks an oracle price
/// or that the program refused to value.
pub proof fn law_error_is_of_first_position(input: MarginInput, error: ErrorCode)
    requires
        input.outcome() == Some(Err::<SimplifiedView, ErrorCode>(error)),
    ensures
        (exists|i: int|
            0 <= i < 8 && #[trigger] spot_ends_with(input, i, error) && forall|j: int|
                0 <= j < i ==> #[trigger] spot_is_there(input, j)) || ((forall|j: int|
            0 <= j < 8 ==> #[trigger] spot_is_there(input, j)) && exists|i: int|
            0 <= i < 8 && #[trigger] perp_ends_with(input, i, error) && forall|j: int|
                0 <= j < i ==> #[trigger] perp_is_there(input, j)),
{
    lemma_perp_ended(input, 8);
}

/// Whether a Pyth price and an oracle price can be told apart: nothing has to be compared, or
/// the distance in basis points is no more than a `u64` before it is divided.
pub open spec fn price_can_be_chosen(oracle: i64, pyth: i64, threshold: u64) -> bool {
    ||| pyth == 0
    ||| oracle == 0
    ||| threshold == 0
    ||| (-(u64::MAX as int) <= (pyth - oracle) * 10_000 <= u64::MAX)
}

/// Whether all markets that a calculation needs are known and all prices can be chosen.
pub open spec fn markets_are_known(input: MarginInput) -> bool {
    let state = input.market_state;
    &&& forall|i: int|
        0 <= i < 8 && !(#[trigger] input.user.spot_positions[i]).available ==> {
            let index = input.user.spot_positions[i].market_index;
            &&& state.spot_markets@.contains_key(index)
            &&& state.spot_oracle_prices@.contains_key(index)
                && state.spot_pyth_prices@.contains_key(index) ==> price_can_be_chosen(
                state.spot_oracle_prices@[index].price,
                state.spot_pyth_prices@[index],
                state.pyth_oracle_diff_threshold_bps,
            )
        }
    &&& forall|i: int|
        0 <= i < 8 && !(#[trigger] input.user.perp_positions[i]).available ==> {
            let position = input.user.perp_positions[i];
            let index = position.market_index;
            &&& state.perp_markets@.contains_key(index)
            &&& position.isolated ==> state.spot_markets@.contains_key(
                state.perp_markets@[index].quote_spot_market_index,
            )
            &&& state.perp_oracle_prices@.contains_key(index)
                && state.perp_pyth_prices@.contains_key(index) ==> price_can_be_chosen(
                state.perp_oracle_prices@[index].price,
                state.perp_pyth_prices@[index],
                state.pyth_oracle_diff_threshold_bps,
            )
        }
}

/// A number that no sum of a user's positions can make too large: up to `2^90`.
pub open spec fn moderate(value: int) -> bool {
    -0x4000_0000_0000_0000_0000_000int <= value <= 0x4000_0000_0000_0000_0000_000int
}

/// Whether the figures of all positions that were valued are moderate.
pub open spec fn figures_are_moderate(input: MarginInput) -> bool {
    &&& forall|i: int|
        0 <= i < 8 && (#[trigger] input.figures.spot[i]) is Ok ==> {
            let figures = input.figures.spot[i]->Ok_0;
            &&& moderate(figures.token_value as int)
            &&& moderate(figures.weighted_token_value as int)
            &&& moderate(figures.orders_value as int)
        }
    &&& forall|i: int|
        0 <= i < 8 && (#[trigger] input.figures.perp[i]) is Ok ==> {
            let figures = input.figures.perp[i]->Ok_0;
            &&& moderate(figures.margin_requirement as int)
            &&& moderate(figures.weighted_pnl as int)
            &&& moderate(figures.worst_case_liability_value as int)
            &&& moderate(figures.deposit_value as int)
        }
}

pub(crate) proof fn lemma_moderate_share(amount: int, margin_buffer: u32)
    requires
        moderate(amount),
    ensures
        amount >= 0 ==> (buffer_share(amount, margin_buffer) matches Some(share) && 0 <= share
            <= 0x1_0000_0000_0000_0000_0000_0000_0000int),
        amount <= 0 ==> (loss_share(amount, margin_buffer) matches Some(share) && 0 >= share
            >= -0x1_0000_0000_0000_0000_0000_0000_0000int),
{
    let most = 0x4000_0000_0000_0000_0000_000int;
    assert(-(most * 0x1_0000_0000) <= amount * margin_buffer <= most * 0x1_0000_0000)
        by (nonlinear_arith)
        requires
            -most <= amount <= most,
            0 <= margin_buffer <= 0xffff_ffff,
            most == 0x4000_0000_0000_0000_0000_000int,
    ;
    assert(amount >= 0 ==> amount * margin_buffer >= 0) by (nonlinear_arith)
        requires
            0 <= margin_buffer,
    ;
    assert(amount <= 0 ==> amount * margin_buffer <= 0) by (nonlinear_arith)
        requires
            0 <= margin_buffer,
    ;
}

spec fn within(totals: MarginTotals, count: int) -> bool {
    let most = 0x8_0000_0000_0000_0000_0000_0000_0000int;
    &&& -(count * most) <= totals.collateral <= count * most
    &&& -(count * most) <= totals.collateral_buffer <= count * most
    &&& 0 <= totals.requirement <= count * most
    &&& 0 <= totals.requirement_plus_buffer <= count * most
}

proof fn lemma_moderate_spot(
    input: MarginInput,
    place: int,
    figures: SpotFigures,
)
    requires
        0 <= place < 8,
        moderate(figures.token_value as int),
        moderate(figures.weighted_token_value as int),
        moderate(figures.orders_value as int),
    ensures
        ({
            let position = input.user.spot_positions[place];
            let parts = spot_parts(
                position,
                input.market_state.spot_markets@[position.market_index],
                figures,
                input.user.custom_margin_ratio(input.margin_type),
                input.margin_buffer,
            );
            &&& parts is Some
            &&& within((parts->0).0, 1)
            &&& within((parts->0).0.plus((parts->0).1), 1)
        }),
{
    lemma_moderate_share(abs(figures.token_value as int), input.margin_buffer);
    lemma_moderate_share(abs(figures.orders_value as int), input.margin_buffer);
}

proof fn lemma_moderate_perp(figures: PerpFigures, margin_buffer: u32)
    requires
        moderate(figures.margin_requirement as int),
        moderate(figures.weighted_pnl as int),
        moderate(figures.worst_case_liability_value as int),
    ensures
        perp_part(figures, margin_buffer) is Some,
        within(perp_part(figures, margin_buffer)->0, 1),
{
    lemma_moderate_share(figures.worst_case_liability_value as int, margin_buffer);
    lemma_moderate_share(figures.weighted_pnl as int, margin_buffer);
}

proof fn lemma_moderate_spot_outcome(input: MarginInput, count: nat)
    requires
        count <= 8,
        markets_are_known(input),
        figures_are_moderate(input),
    ensures
        input.after_spot(count) is Some,
        input.after_spot(count) matches Some(Ok(c)) ==> within(c.totals, count as int),
    decreases count,
{
    if count > 0 {
        lemma_moderate_spot_outcome(input, (count - 1) as nat);
        let position = input.user.spot_positions[count - 1];
        if let Ok(figures) = input.figures.spot[count - 1] {
            lemma_moderate_spot(input, count - 1, figures);
        }
    }
}

proof fn lemma_moderate_perp_outcome(input: MarginInput, count: nat)
    requires
        count <= 8,
        markets_are_known(input),
        figures_are_moderate(input),
    ensures
        input.after_perp(count) is Some,
        input.after_perp(count) matches Some(Ok(c)) ==> within(c.totals, 8 + count as int),
    decreases count,
{
    if count == 0 {
        lemma_moderate_spot_outcome(input, 8);
    } else {
        lemma_moderate_perp_outcome(input, (count - 1) as nat);
        let position = input.user.perp_positions[count - 1];
        if let Ok(figures) = input.figures.perp[count - 1] {
            lemma_moderate_perp(figures, input.margin_buffer);
        }
    }
}

/// Where all markets are known, all prices can be chosen and the figures are moderate, a
/// calculation comes to sums or to an error; to sums where nothing is missing.
pub proof fn law_ordinary_calculations_succeed(input: MarginInput)
    requires
        markets_are_known(input),
        figures_are_moderate(input),
    ensures
        input.outcome() is Some,
        (forall|i: int| 0 <= i < 8 ==> #[trigger] spot_is_there(input, i)) && (forall|i: int|
            0 <= i < 8 ==> #[trigger] perp_is_there(input, i)) ==> input.outcome()->0 is Ok,
{
    lemma_moderate_perp_outcome(input, 8);
    if let Some(Err(error)) = input.outcome() {
        law_error_is_of_first_position(input, error);
        if forall|i: int| 0 <= i < 8 ==> #[trigger] spot_is_there(input, i) {
            if forall|i: int| 0 <= i < 8 ==> #[trigger] perp_is_there(input, i) {
                if exists|i: int| 0 <= i < 8 && #[trigger] spot_ends_with(input, i, error) {
                    let i = choose|i: int| 0 <= i < 8 && #[trigger] spot_ends_with(input, i, error);
                    assert(spot_is_there(input, i));
                } else {
                    let i = choose|i: int| 0 <= i < 8 && #[trigger] perp_ends_with(input, i, error);
                    assert(perp_is_there(input, i));
                }
            }
        }
    }
}

} // verus!
