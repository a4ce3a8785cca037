//! What an incremental calculation keeps of a position, and what an update does, in the
//! numbers themselves.
use vstd::prelude::*;

use crate::arith::abs;
use crate::laws::agreement::one_position_per_market;
use crate::laws::recalculation::{
    lemma_perp_entries, lemma_perp_part_stays, lemma_perp_sum_changes, lemma_spot_entries,
    lemma_spot_part_stays, lemma_spot_sum_changes, perp_differs_at, perp_entry_at, spot_differs_at,
    spot_entry_at,
};
use crate::laws::upkeep::lemma_places;
use crate::margin::incremental::{
    free_place, input_of, kept_place, lemma_perp_ends, lemma_spot_ends, perp_entry, spot_entry,
    IncrementalInput, IncrementalSettings, IncrementalView, PositionCollateral,
};
use crate::protocol::{MarginRequirementType, PerpPosition, SpotBalanceType, SpotPosition, User};
use crate::table::lemma_first_place;
use crate::types::MarketState;
use crate::valuation::{PerpFigures, ProgramFigures, SpotFigures};

verus! {

/// What is kept of a spot position. There is nothing to keep in an unknown market or where
/// the program refused, and no entry without an oracle price.
///
/// In the quote market, without open orders and, for a borrow, without a margin ratio, the
/// token value counts as it is; everywhere else the weighted value of a token value other than
/// zero, and the value of the open orders. What is positive is collateral. What is negative is
/// a liability, with a buffer on itself. Each open order is a liability of one cent without a
/// buffer. There is no collateral buffer.
pub proof fn law_spot_entry(
    position: SpotPosition,
    state: MarketState,
    margin_type: MarginRequirementType,
    ratio: u32,
    buffer: u32,
    time: u64,
    figures: Result<SpotFigures, u32>,
)
    ensures
        ({
            let kept = spot_entry(position, state, margin_type, ratio, buffer, time, figures);
            let index = position.market_index;
            let plain = state.spot_markets@[index].market_index == 0 && !position.has_open_order
                && position.open_orders == 0 && (ratio == 0 || position.balance_type
                == SpotBalanceType::Deposit);
            let token = figures->Ok_0.token_value as int;
            let value = if plain {
                token
            } else {
                figures->Ok_0.weighted_token_value as int
            };
            let size = if value < 0 {
                -value
            } else {
                value
            };
            let orders = if plain {
                0
            } else {
                figures->Ok_0.orders_value as int
            };
            if !state.spot_markets@.contains_key(index) {
                kept is None
            } else if !state.spot_oracle_prices@.contains_key(index) {
                kept == Some(None::<PositionCollateral>)
            } else {
                let collateral = (if token > 0 {
                    value
                } else {
                    0
                }) + (if orders > 0 {
                    orders
                } else {
                    0
                });
                let requirement = position.open_orders * 10_000 + (if token < 0 {
                    size
                } else {
                    0
                }) + (if orders < 0 {
                    -orders
                } else {
                    0
                });
                let buffered = (if token < 0 {
                    size + size * buffer / 10_000
                } else {
                    0
                }) + (if orders < 0 {
                    -orders + -orders * buffer / 10_000
                } else {
                    0
                });
                &&& kept is Some <==> {
                    &&& figures is Ok
                    &&& token < 0 ==> size * buffer <= u128::MAX
                    &&& orders < 0 ==> -orders * buffer <= u128::MAX
                    &&& sums_fit(collateral, 0, requirement, buffered)
                }
                &&& kept is Some ==> (kept->0 matches Some(entry) && {
                    &&& entry.collateral_value == collateral
                    &&& entry.collateral_buffer == 0
                    &&& entry.liability_value == requirement
                    &&& entry.liability_buffer == buffered
                    &&& entry.market_index == index
                    &&& entry.last_updated == time
                })
            }
        }),
{
    if let Ok(given) = figures {
        lemma_share_is_positive(abs(given.token_value as int), buffer);
        lemma_share_is_positive(abs(given.weighted_token_value as int), buffer);
        lemma_share_is_positive(abs(given.orders_value as int), buffer);
    }
}

pub(crate) proof fn lemma_share_is_positive(amount: int, margin_buffer: u32)
    requires
        amount >= 0,
    ensures
        amount * margin_buffer >= 0,
        -amount * margin_buffer == -(amount * margin_buffer),
{
    assert(amount * margin_buffer >= 0 && -amount * margin_buffer == -(amount * margin_buffer))
        by (nonlinear_arith)
        requires
            amount >= 0,
            margin_buffer >= 0,
    ;
}

/// What is kept of a perp position. There is nothing to keep in an unknown market or where the
/// program refused, and no entry without the oracle price of its market or of the quote
/// market. Its profit or loss is collateral, a loss has a buffer, rounded towards zero, and a
/// profit has none; its margin is a liability, with a buffer on the worst-case liability.
pub proof fn law_perp_entry(
    position: PerpPosition,
    state: MarketState,
    margin_type: MarginRequirementType,
    high_leverage_mode: bool,
    buffer: u32,
    time: u64,
    figures: Result<PerpFigures, u32>,
)
    ensures
        ({
            let kept = perp_entry(
                position,
                state,
                margin_type,
                high_leverage_mode,
                buffer,
                time,
                figures,
            );
            let index = position.market_index;
            let quote = state.perp_markets@[index].quote_spot_market_index;
            let given = figures->Ok_0;
            if !state.perp_markets@.contains_key(index) {
                kept is None
            } else if !state.perp_oracle_prices@.contains_key(index)
                || !state.spot_oracle_prices@.contains_key(quote) {
                kept == Some(None::<PositionCollateral>)
            } else {
                &&& kept is Some <==> {
                    &&& figures is Ok
                    &&& given.worst_case_liability_value * buffer <= u128::MAX
                    &&& given.margin_requirement + given.worst_case_liability_value * buffer
                        / 10_000 <= u128::MAX
                    &&& given.weighted_pnl < 0 ==> given.weighted_pnl * buffer >= i128::MIN
                }
                &&& kept is Some ==> (kept->0 matches Some(entry) && {
                    &&& entry.collateral_value == given.weighted_pnl
                    &&& given.weighted_pnl >= 0 ==> entry.collateral_buffer == 0
                    &&& given.weighted_pnl < 0 ==> entry.collateral_buffer == -(-(
                    given.weighted_pnl * buffer) / 10_000)
                    &&& entry.liability_value == given.margin_requirement
                    &&& entry.liability_buffer == given.margin_requirement
                        + given.worst_case_liability_value * buffer / 10_000
                    &&& entry.market_index == index
                    &&& entry.last_updated == time
                })
            }
        }),
{
    if let Ok(given) = figures {
        lemma_share_is_positive(abs(given.weighted_pnl as int), buffer);
        lemma_share_is_positive(given.worst_case_liability_value as int, buffer);
    }
}

/// An entry is one of a position where it has a liability, collateral or a time, and of a
/// position in its own market only.
pub proof fn law_present_entries(entry: PositionCollateral, market_index: u16)
    ensures
        entry.present() <==> entry.liability_value != 0 || entry.collateral_value != 0
            || entry.last_updated != 0,
        entry.is_for(market_index) <==> entry.market_index == market_index && entry.present(),
{
}

/// Whether the entry at `place` is one of a position in `market_index`: it has a liability,
/// collateral or a time.
pub open spec fn keeps(table: Seq<PositionCollateral>, market_index: u16, place: int) -> bool {
    let entry = table[place];
    entry.market_index == market_index && (entry.liability_value != 0 || entry.collateral_value
        != 0 || entry.last_updated != 0)
}

/// Whether `place` is the first with an entry of a position in `market_index`.
pub open spec fn is_kept_at(table: Seq<PositionCollateral>, market_index: u16, place: int) -> bool {
    keeps(table, market_index, place) && forall|k: int|
        0 <= k < place ==> !#[trigger] keeps(table, market_index, k)
}

/// Whether nothing stands at `place`: no liability, no collateral and no time.
pub open spec fn is_free(table: Seq<PositionCollateral>, place: int) -> bool {
    let entry = table[place];
    entry.liability_value == 0 && entry.collateral_value == 0 && entry.last_updated == 0
}

/// Whether `place` is the first at which nothing stands.
pub open spec fn is_first_free(table: Seq<PositionCollateral>, place: int) -> bool {
    is_free(table, place) && forall|k: int| 0 <= k < place ==> !#[trigger] is_free(table, k)
}

/// Whether an entry holds nothing at all.
pub open spec fn is_unused(entry: PositionCollateral) -> bool {
    &&& entry.collateral_value == 0
    &&& entry.collateral_buffer == 0
    &&& entry.liability_value == 0
    &&& entry.liability_buffer == 0
    &&& entry.last_updated == 0
    &&& entry.market_index == 0
}

/// Whether four sums are numbers of the types that hold them.
pub open spec fn sums_fit(
    collateral: int,
    collateral_buffer: int,
    requirement: int,
    buffered: int,
) -> bool {
    &&& i128::MIN <= collateral <= i128::MAX
    &&& i128::MIN <= collateral_buffer <= i128::MAX
    &&& 0 <= requirement <= u128::MAX
    &&& 0 <= buffered <= u128::MAX
}

proof fn lemma_kept_at(table: Seq<PositionCollateral>, market_index: u16, place: int)
    requires
        table.len() == 8,
        0 <= place < 8,
        is_kept_at(table, market_index, place),
    ensures
        kept_place(table, market_index) == Some(place),
{
    let wanted = |e: PositionCollateral| e.is_for(market_index);
    lemma_first_place(table, wanted, 0);
    assert(wanted(table[place]));
    let found = kept_place(table, market_index)->0;
    assert(wanted(table[found]));
    assert(keeps(table, market_index, found));
}

proof fn lemma_first_free(table: Seq<PositionCollateral>)
    requires
        table.len() == 8,
    ensures
        forall|k: int|
            0 <= k < 8 ==> (#[trigger] is_first_free(table, k) <==> free_place(table) == Some(k)),
{
    let free = |e: PositionCollateral| !e.present();
    lemma_first_place(table, free, 0);
    assert forall|k: int| 0 <= k < 8 implies (#[trigger] is_first_free(table, k) <==> free_place(
        table,
    ) == Some(k)) by {
        assert(forall|j: int| 0 <= j < 8 ==> #[trigger] is_free(table, j) == free(table[j]));
        if is_first_free(table, k) {
            assert(free(table[k]));
            let found = free_place(table)->0;
            assert(is_free(table, found));
        }
    }
}

/// Updating a spot position that is kept takes off what is kept of it, adds its new entry and
/// puts that in its place; a position that is gone is taken off and leaves its place unused.
/// Nothing else changes but the time. It can be done exactly where the sums fit in between
/// and afterwards.
pub proof fn law_update_of_kept_spot_position(
    before: IncrementalView,
    position: SpotPosition,
    state: MarketState,
    time: u64,
    figures: Result<SpotFigures, u32>,
    place: int,
    entry: PositionCollateral,
)
    requires
        before.spot.len() == 8,
        0 <= place < 8,
        is_kept_at(before.spot, position.market_index, place),
        spot_entry(
            position,
            state,
            before.settings.margin_type,
            before.settings.user_custom_margin_ratio,
            before.settings.margin_buffer,
            time,
            figures,
        ) == Some(Some(entry)),
    ensures
        ({
            let old_entry = before.spot[place];
            let collateral = before.totals.collateral - old_entry.collateral_value;
            let collateral_buffer = before.totals.collateral_buffer - old_entry.collateral_buffer;
            let requirement = before.totals.requirement - old_entry.liability_value;
            let buffered = before.totals.requirement_plus_buffer - old_entry.liability_buffer;
            let stays = !position.available;
            match before.spot_updated(position, state, time, figures) {
                Some(after) => {
                    &&& sums_fit(collateral, collateral_buffer, requirement, buffered)
                    &&& sums_fit(
                        after.totals.collateral,
                        after.totals.collateral_buffer,
                        after.totals.requirement,
                        after.totals.requirement_plus_buffer,
                    )
                    &&& after.totals.collateral == collateral + if stays {
                        entry.collateral_value as int
                    } else {
                        0
                    }
                    &&& after.totals.collateral_buffer == collateral_buffer + if stays {
                        entry.collateral_buffer as int
                    } else {
                        0
                    }
                    &&& after.totals.requirement == requirement + if stays {
                        entry.liability_value as int
                    } else {
                        0
                    }
                    &&& after.totals.requirement_plus_buffer == buffered + if stays {
                        entry.liability_buffer as int
                    } else {
                        0
                    }
                    &&& after.spot.len() == 8
                    &&& stays ==> after.spot[place] == entry
                    &&& !stays ==> is_unused(after.spot[place])
                    &&& forall|k: int|
                        0 <= k < 8 && k != place ==> #[trigger] after.spot[k] == before.spot[k]
                    &&& after.perp == before.perp
                    &&& after.settings == before.settings
                    &&& after.last_updated == time
                },
                None => !(sums_fit(collateral, collateral_buffer, requirement, buffered) && (stays
                    ==> sums_fit(
                    collateral + entry.collateral_value,
                    collateral_buffer + entry.collateral_buffer,
                    requirement + entry.liability_value,
                    buffered + entry.liability_buffer,
                ))),
            }
        }),
{
    lemma_kept_at(before.spot, position.market_index, place);
}

/// Updating a spot position that is not kept adds its entry, once to each sum, and keeps it at
/// the first free place, where there is one. Nothing else changes but the time. It can be done
/// exactly where the sums fit. A position that is gone changes nothing but the time.
pub proof fn law_update_of_other_spot_position(
    before: IncrementalView,
    position: SpotPosition,
    state: MarketState,
    time: u64,
    figures: Result<SpotFigures, u32>,
    entry: PositionCollateral,
)
    requires
        before.spot.len() == 8,
        forall|k: int| 0 <= k < 8 ==> !#[trigger] keeps(before.spot, position.market_index, k),
        position.available || spot_entry(
            position,
            state,
            before.settings.margin_type,
            before.settings.user_custom_margin_ratio,
            before.settings.margin_buffer,
            time,
            figures,
        ) == Some(Some(entry)),
    ensures
        ({
            let collateral = before.totals.collateral + entry.collateral_value;
            let collateral_buffer = before.totals.collateral_buffer + entry.collateral_buffer;
            let requirement = before.totals.requirement + entry.liability_value;
            let buffered = before.totals.requirement_plus_buffer + entry.liability_buffer;
            match before.spot_updated(position, state, time, figures) {
                Some(after) => {
                    &&& after.perp == before.perp
                    &&& after.settings == before.settings
                    &&& after.last_updated == time
                    &&& position.available ==> after.totals == before.totals && after.spot
                        == before.spot
                    &&& !position.available ==> {
                        &&& sums_fit(collateral, collateral_buffer, requirement, buffered)
                        &&& after.totals.collateral == collateral
                        &&& after.totals.collateral_buffer == collateral_buffer
                        &&& after.totals.requirement == requirement
                        &&& after.totals.requirement_plus_buffer == buffered
                        &&& after.spot.len() == 8
                        &&& forall|k: int|
                            0 <= k < 8 && is_first_free(before.spot, k) ==> (
                            #[trigger] after.spot[k]) == entry
                        &&& forall|k: int|
                            0 <= k < 8 && !is_first_free(before.spot, k) ==> (
                            #[trigger] after.spot[k]) == before.spot[k]
                    }
                },
                None => !position.available && !sums_fit(
                    collateral,
                    collateral_buffer,
                    requirement,
                    buffered,
                ),
            }
        }),
{
    lemma_places(before.spot, position.market_index);
    if let Some(place) = kept_place(before.spot, position.market_index) {
        assert(keeps(before.spot, position.market_index, place));
    }
    lemma_first_free(before.spot);
}

/// Without an oracle price an update changes nothing but the time. Without the market, or
/// where the program refused, it cannot be done.
pub proof fn law_update_of_spot_position_without_entry(
    before: IncrementalView,
    position: SpotPosition,
    state: MarketState,
    time: u64,
    figures: Result<SpotFigures, u32>,
    place: int,
)
    requires
        before.spot.len() == 8,
        !position.available || (0 <= place < 8 && is_kept_at(
            before.spot,
            position.market_index,
            place,
        )),
    ensures
        spot_entry(
            position,
            state,
            before.settings.margin_type,
            before.settings.user_custom_margin_ratio,
            before.settings.margin_buffer,
            time,
            figures,
        ) == Some(None::<PositionCollateral>) ==> before.spot_updated(
            position,
            state,
            time,
            figures,
        ) == Some(IncrementalView { last_updated: time, ..before }),
        spot_entry(
            position,
            state,
            before.settings.margin_type,
            before.settings.user_custom_margin_ratio,
            before.settings.margin_buffer,
            time,
            figures,
        ) is None ==> before.spot_updated(position, state, time, figures) is None,
{
    if position.available {
        lemma_kept_at(before.spot, position.market_index, place);
    }
}

/// Updating a perp position that is kept takes off what is kept of it, adds its new entry and
/// puts that in its place; a position that is gone is taken off and leaves its place unused.
/// Nothing else changes but the time. It can be done exactly where the sums fit in between
/// and afterwards.
pub proof fn law_update_of_kept_perp_position(
    before: IncrementalView,
    position: PerpPosition,
    state: MarketState,
    time: u64,
    figures: Result<PerpFigures, u32>,
    place: int,
    entry: PositionCollateral,
)
    requires
        before.perp.len() == 8,
        0 <= place < 8,
        is_kept_at(before.perp, position.market_index, place),
        perp_entry(
            position,
            state,
            before.settings.margin_type,
            before.settings.user_high_leverage_mode,
            before.settings.margin_buffer,
            time,
            figures,
        ) == Some(Some(entry)),
    ensures
        ({
            let old_entry = before.perp[place];
            let collateral = before.totals.collateral - old_entry.collateral_value;
            let collateral_buffer = before.totals.collateral_buffer - old_entry.collateral_buffer;
            let requirement = before.totals.requirement - old_entry.liability_value;
            let buffered = before.totals.requirement_plus_buffer - old_entry.liability_buffer;
            let stays = !position.available;
            match before.perp_updated(position, state, time, figures) {
                Some(after) => {
                    &&& sums_fit(collateral, collateral_buffer, requirement, buffered)
                    &&& sums_fit(
                        after.totals.collateral,
                        after.totals.collateral_buffer,
                        after.totals.requirement,
                        after.totals.requirement_plus_buffer,
                    )
                    &&& after.totals.collateral == collateral + if stays {
                        entry.collateral_value as int
                    } else {
                        0
                    }
                    &&& after.totals.collateral_buffer == collateral_buffer + if stays {
                        entry.collateral_buffer as int
                    } else {
                        0
                    }
                    &&& after.totals.requirement == requirement + if stays {
                        entry.liability_value as int
                    } else {
                        0
                    }
                    &&& after.totals.requirement_plus_buffer == buffered + if stays {
                        entry.liability_buffer as int
                    } else {
                        0
                    }
                    &&& after.perp.len() == 8
                    &&& stays ==> after.perp[place] == entry
                    &&& !stays ==> is_unused(after.perp[place])
                    &&& forall|k: int|
                        0 <= k < 8 && k != place ==> #[trigger] after.perp[k] == before.perp[k]
                    &&& after.spot == before.spot
                    &&& after.settings == before.settings
                    &&& after.last_updated == time
                },
                None => !(sums_fit(collateral, collateral_buffer, requirement, buffered) && (stays
                    ==> sums_fit(
                    collateral + entry.collateral_value,
                    collateral_buffer + entry.collateral_buffer,
                    requirement + entry.liability_value,
                    buffered + entry.liability_buffer,
                ))),
            }
        }),
{
    lemma_kept_at(before.perp, position.market_index, place);
}

/// Updating a perp position that is not kept adds its entry, once to each sum, and keeps it at
/// the first free place, where there is one. Nothing else changes but the time. It can be done
/// exactly where the sums fit. A position that is gone changes nothing but the time.
pub proof fn law_update_of_other_perp_position(
    before: IncrementalView,
    position: PerpPosition,
    state: MarketState,
    time: u64,
    figures: Result<PerpFigures, u32>,
    entry: PositionCollateral,
)
    requires
        before.perp.len() == 8,
        forall|k: int| 0 <= k < 8 ==> !#[trigger] keeps(before.perp, position.market_index, k),
        position.available || perp_entry(
            position,
            state,
            before.settings.margin_type,
            before.settings.user_high_leverage_mode,
            before.settings.margin_buffer,
            time,
            figures,
        ) == Some(Some(entry)),
    ensures
        ({
            let collateral = before.totals.collateral + entry.collateral_value;
            let collateral_buffer = before.totals.collateral_buffer + entry.collateral_buffer;
            let requirement = before.totals.requirement + entry.liability_value;
            let buffered = before.totals.requirement_plus_buffer + entry.liability_buffer;
            match before.perp_updated(position, state, time, figures) {
                Some(after) => {
                    &&& after.spot == before.spot
                    &&& after.settings == before.settings
                    &&& after.last_updated == time
                    &&& position.available ==> after.totals == before.totals && after.perp
                        == before.perp
                    &&& !position.available ==> {
                        &&& sums_fit(collateral, collateral_buffer, requirement, buffered)
                        &&& after.totals.collateral == collateral
                        &&& after.totals.collateral_buffer == collateral_buffer
                        &&& after.totals.requirement == requirement
                        &&& after.totals.requirement_plus_buffer == buffered
                        &&& after.perp.len() == 8
                        &&& forall|k: int|
                            0 <= k < 8 && is_first_free(before.perp, k) ==> (
                            #[trigger] after.perp[k]) == entry
                        &&& forall|k: int|
                            0 <= k < 8 && !is_first_free(before.perp, k) ==> (
                            #[trigger] after.perp[k]) == before.perp[k]
                    }
                },
                None => !position.available && !sums_fit(
                    collateral,
                    collateral_buffer,
                    requirement,
                    buffered,
                ),
            }
        }),
{
    lemma_places(before.perp, position.market_index);
    if let Some(place) = kept_place(before.perp, position.market_index) {
        assert(keeps(before.perp, position.market_index, place));
    }
    lemma_first_free(before.perp);
}

/// Without an oracle price an update changes nothing but the time. Without the market, or
/// where the program refused, it cannot be done.
pub proof fn law_update_of_perp_position_without_entry(
    before: IncrementalView,
    position: PerpPosition,
    state: MarketState,
    time: u64,
    figures: Result<PerpFigures, u32>,
    place: int,
)
    requires
        before.perp.len() == 8,
        !position.available || (0 <= place < 8 && is_kept_at(
            before.perp,
            position.market_index,
            place,
        )),
    ensures
        perp_entry(
            position,
            state,
            before.settings.margin_type,
            before.settings.user_high_leverage_mode,
            before.settings.margin_buffer,
            time,
            figures,
        ) == Some(None::<PositionCollateral>) ==> before.perp_updated(
            position,
            state,
            time,
            figures,
        ) == Some(IncrementalView { last_updated: time, ..before }),
        perp_entry(
            position,
            state,
            before.settings.margin_type,
            before.settings.user_high_leverage_mode,
            before.settings.margin_buffer,
            time,
            figures,
        ) is None ==> before.perp_updated(position, state, time, figures) is None,
{
    if position.available {
        lemma_kept_at(before.perp, position.market_index, place);
    }
}

/// A calculation without positions holds nothing, under its settings.
pub proof fn law_start_is_empty(settings: IncrementalSettings, last_updated: u64)
    ensures
        ({
            let c = IncrementalView::start(settings, last_updated);
            &&& c.totals.collateral == 0
            &&& c.totals.collateral_buffer == 0
            &&& c.totals.requirement == 0
            &&& c.totals.requirement_plus_buffer == 0
            &&& c.spot.len() == 8
            &&& c.perp.len() == 8
            &&& forall|k: int| 0 <= k < 8 ==> is_unused(#[trigger] c.spot[k])
            &&& forall|k: int| 0 <= k < 8 ==> is_unused(#[trigger] c.perp[k])
            &&& c.settings == settings
            &&& c.last_updated == last_updated
        }),
{
}

/// A calculation from a user has the user's own margin ratio for initial margin and none for
/// any other, and the user's pool and leverage mode.
pub proof fn law_settings_come_from_user(
    user: User,
    state: MarketState,
    margin_type: MarginRequirementType,
    time: u64,
    margin_buffer: u32,
    figures: ProgramFigures,
)
    ensures
        ({
            let input = input_of(user, state, margin_type, time, margin_buffer, figures);
            &&& input.settings.margin_type == margin_type
            &&& input.settings.margin_buffer == margin_buffer
            &&& input.settings.user_pool_id == user.pool_id
            &&& input.settings.user_high_leverage_mode == user.high_leverage_mode
            &&& margin_type == MarginRequirementType::Initial
                ==> input.settings.user_custom_margin_ratio == user.max_margin_ratio
            &&& margin_type != MarginRequirementType::Initial
                ==> input.settings.user_custom_margin_ratio == 0
            &&& input.user == user
            &&& input.market_state == state
            &&& input.timestamp == time
            &&& input.figures == figures
            &&& input.before == 0
        }),
{
}

/// In a full calculation a spot position adds its entry, once to each sum, to what the other
/// positions come to. One without an oracle price adds nothing. The entry is kept where it
/// holds collateral, a liability or a time.
pub proof fn law_spot_entry_adds(a: IncrementalInput, b: IncrementalInput, place: int)
    requires
        0 <= place < 8,
        spot_differs_at(a, b, place),
        a.timestamp == b.timestamp,
        one_position_per_market(a.user),
        one_position_per_market(b.user),
        !a.user.spot_positions[place].available,
        b.user.spot_positions[place].available,
        a.outcome() is Some,
        b.outcome() is Some,
    ensures
        ({
            let with = a.outcome()->0;
            let without = b.outcome()->0;
            let position = a.user.spot_positions[place];
            let kept = spot_entry(
                position,
                a.market_state,
                a.settings.margin_type,
                a.settings.user_custom_margin_ratio,
                a.settings.margin_buffer,
                a.timestamp,
                a.figures.spot[place],
            );
            &&& with.last_updated == a.timestamp
            &&& with.settings == a.settings
            &&& match kept {
                Some(Some(entry)) => {
                    &&& with.totals.collateral == without.totals.collateral
                        + entry.collateral_value
                    &&& with.totals.collateral_buffer == without.totals.collateral_buffer
                        + entry.collateral_buffer
                    &&& with.totals.requirement == without.totals.requirement
                        + entry.liability_value
                    &&& with.totals.requirement_plus_buffer
                        == without.totals.requirement_plus_buffer + entry.liability_buffer
                    &&& (entry.collateral_value != 0 || entry.liability_value != 0 || a.timestamp
                        != 0) ==> with.spot.contains(entry)
                },
                Some(None) => with.totals == without.totals,
                None => false,
            }
        }),
{
    lemma_spot_was_entered(a, place);
    lemma_perp_part_stays(a, b);
    lemma_spot_entries(a, 8);
    lemma_spot_entries(b, 8);
    lemma_spot_sum_changes(a, b, place, 8);
    reveal(spot_entry_at);
}

proof fn lemma_spot_was_entered(input: IncrementalInput, place: int)
    requires
        0 <= place < 8,
        !input.user.spot_positions[place].available,
        input.outcome() is Some,
        one_position_per_market(input.user),
    ensures
        ({
            let kept = IncrementalView::start(input.settings, input.before).spot_entry(
                input.user.spot_positions[place],
                input.market_state,
                input.timestamp,
                input.figures.spot[place],
            );
            &&& kept is Some
            &&& kept->0 matches Some(entry) ==> (entry.collateral_value != 0
                || entry.liability_value != 0 || input.timestamp != 0
                ==> input.outcome()->0.spot.contains(entry))
        }),
{
    lemma_after_spot_is_there(input, (place + 1) as nat, 8);
    lemma_after_spot_is_there(input, place as nat, 8);
    lemma_perp_entries(input, 8);
    lemma_spot_entries(input, 8);
    lemma_spot_entries(input, place as nat);
    reveal(spot_entry_at);
    let entry = spot_entry_at(input, place);
}

proof fn lemma_after_spot_is_there(input: IncrementalInput, less: nat, more: nat)
    requires
        less <= more <= 8,
        input.outcome() is Some,
    ensures
        input.after_spot(less) is Some,
{
    lemma_perp_ends(input, 0, 8);
    lemma_spot_ends(input, less, 8);
}

/// In a full calculation a perp position adds its entry, once to each sum, to what the other
/// positions come to: its profit or loss to the collateral, and a buffer on a loss, but none
/// on a profit, to the collateral buffer. One without an oracle price adds nothing. The entry
/// is kept where it holds collateral, a liability or a time.
pub proof fn law_perp_entry_adds(a: IncrementalInput, b: IncrementalInput, place: int)
    requires
        0 <= place < 8,
        perp_differs_at(a, b, place),
        a.timestamp == b.timestamp,
        one_position_per_market(a.user),
        one_position_per_market(b.user),
        !a.user.perp_positions[place].available,
        b.user.perp_positions[place].available,
        a.outcome() is Some,
        b.outcome() is Some,
    ensures
        ({
            let with = a.outcome()->0;
            let without = b.outcome()->0;
            let position = a.user.perp_positions[place];
            let pnl = a.figures.perp[place]->Ok_0.weighted_pnl;
            let kept = perp_entry(
                position,
                a.market_state,
                a.settings.margin_type,
                a.settings.user_high_leverage_mode,
                a.settings.margin_buffer,
                a.timestamp,
                a.figures.perp[place],
            );
            &&& with.last_updated == a.timestamp
            &&& with.settings == a.settings
            &&& match kept {
                Some(Some(entry)) => {
                    &&& with.totals.collateral == without.totals.collateral
                        + entry.collateral_value
                    &&& with.totals.collateral_buffer == without.totals.collateral_buffer
                        + entry.collateral_buffer
                    &&& with.totals.requirement == without.totals.requirement
                        + entry.liability_value
                    &&& with.totals.requirement_plus_buffer
                        == without.totals.requirement_plus_buffer + entry.liability_buffer
                    &&& with.totals.collateral == without.totals.collateral + pnl
                    &&& pnl >= 0 ==> with.totals.collateral_buffer
                        == without.totals.collateral_buffer
                    &&& pnl < 0 ==> with.totals.collateral_buffer
                        == without.totals.collateral_buffer - ((-(pnl * a.settings.margin_buffer))
                        / 10_000)
                    &&& (entry.collateral_value != 0 || entry.liability_value != 0 || a.timestamp
                        != 0) ==> with.perp.contains(entry)
                },
                Some(None) => with.totals == without.totals,
                None => false,
            }
        }),
{
    lemma_perp_was_entered(a, place);
    lemma_perp_entries(a, 8);
    lemma_perp_entries(b, 8);
    lemma_spot_part_stays(a, b);
    lemma_perp_sum_changes(a, b, place, 8);
    reveal(perp_entry_at);
    law_perp_entry(
        a.user.perp_positions[place],
        a.market_state,
        a.settings.margin_type,
        a.settings.user_high_leverage_mode,
        a.settings.margin_buffer,
        a.timestamp,
        a.figures.perp[place],
    );
}

proof fn lemma_perp_was_entered(input: IncrementalInput, place: int)
    requires
        0 <= place < 8,
        !input.user.perp_positions[place].available,
        input.outcome() is Some,
        one_position_per_market(input.user),
    ensures
        ({
            let kept = IncrementalView::start(input.settings, input.before).perp_entry(
                input.user.perp_positions[place],
                input.market_state,
                input.timestamp,
                input.figures.perp[place],
            );
            &&& kept is Some
            &&& kept->0 matches Some(entry) ==> (entry.collateral_value != 0
                || entry.liability_value != 0 || input.timestamp != 0
                ==> input.outcome()->0.perp.contains(entry))
        }),
{
    lemma_after_perp_is_there(input, (place + 1) as nat, 8);
    lemma_after_perp_is_there(input, place as nat, 8);
    lemma_perp_entries(input, 8);
    lemma_perp_entries(input, 8);
    lemma_perp_entries(input, place as nat);
    reveal(perp_entry_at);
    let entry = perp_entry_at(input, place);
}

proof fn lemma_after_perp_is_there(input: IncrementalInput, less: nat, more: nat)
    requires
        less <= more <= 8,
        input.outcome() is Some,
    ensures
        input.after_perp(less) is Some,
{
    lemma_perp_ends(input, less, 8);
}

/// Whether two calculations differ in nothing but the time of the last change.
spec fn same_but_time(a: IncrementalView, b: IncrementalView) -> bool {
    a == IncrementalView { last_updated: a.last_updated, ..b }
}

proof fn lemma_spot_with_last(a: IncrementalInput, b: IncrementalInput, place: int, count: nat)
    requires
        count <= 8,
        0 <= place < 8,
        spot_differs_at(a, b, place),
        a.timestamp == b.timestamp,
        !a.user.spot_positions[place].available,
        b.user.spot_positions[place].available,
        forall|j: int| place < j < 8 ==> (#[trigger] a.user.spot_positions[j]).available,
    ensures
        count <= place ==> (a.after_spot(count) is Some <==> b.after_spot(count) is Some),
        count <= place && b.after_spot(count) is Some ==> same_but_time(
            a.after_spot(count)->0,
            b.after_spot(count)->0,
        ),
        count > place ==> a.after_spot(count) == match b.after_spot(count) {
            Some(without) => without.spot_updated(
                a.user.spot_positions[place],
                a.market_state,
                a.timestamp,
                a.figures.spot[place],
            ),
            None => None,
        },
    decreases count,
{
    if count > 0 {
        lemma_spot_with_last(a, b, place, (count - 1) as nat);
        let position = a.user.spot_positions[count - 1];
        if count - 1 != place {
            assert(position == b.user.spot_positions[count - 1]);
            assert(a.figures.spot[count - 1] == b.figures.spot[count - 1]);
        }
    }
}

proof fn lemma_same_spot_calculation(a: IncrementalInput, b: IncrementalInput, count: nat)
    requires
        count <= 8,
        a.settings == b.settings,
        a.market_state == b.market_state,
        a.timestamp == b.timestamp,
        forall|j: int|
            0 <= j < 8 ==> #[trigger] a.user.spot_positions[j] == b.user.spot_positions[j]
                && a.figures.spot[j] == b.figures.spot[j],
    ensures
        a.after_spot(count) is Some <==> b.after_spot(count) is Some,
        b.after_spot(count) is Some ==> same_but_time(
            a.after_spot(count)->0,
            b.after_spot(count)->0,
        ),
    decreases count,
{
    if count > 0 {
        lemma_same_spot_calculation(a, b, (count - 1) as nat);
        assert(a.user.spot_positions[count - 1] == b.user.spot_positions[count - 1]);
    }
}

proof fn lemma_perp_with_last(a: IncrementalInput, b: IncrementalInput, place: int, count: nat)
    requires
        count <= 8,
        0 <= place < 8,
        perp_differs_at(a, b, place),
        a.timestamp == b.timestamp,
        !a.user.perp_positions[place].available,
        b.user.perp_positions[place].available,
        forall|j: int| place < j < 8 ==> (#[trigger] a.user.perp_positions[j]).available,
    ensures
        count <= place ==> (a.after_perp(count) is Some <==> b.after_perp(count) is Some),
        count <= place && b.after_perp(count) is Some ==> same_but_time(
            a.after_perp(count)->0,
            b.after_perp(count)->0,
        ),
        count > place ==> a.after_perp(count) == match b.after_perp(count) {
            Some(without) => without.perp_updated(
                a.user.perp_positions[place],
                a.market_state,
                a.timestamp,
                a.figures.perp[place],
            ),
            None => None,
        },
    decreases count,
{
    if count == 0 {
        lemma_same_spot_calculation(a, b, 8);
    } else {
        lemma_perp_with_last(a, b, place, (count - 1) as nat);
        let position = a.user.perp_positions[count - 1];
        if count - 1 != place {
            assert(position == b.user.perp_positions[count - 1]);
            assert(a.figures.perp[count - 1] == b.figures.perp[count - 1]);
        }
    }
}

proof fn lemma_no_perp_positions(input: IncrementalInput, count: nat)
    requires
        count <= 8,
        forall|j: int| 0 <= j < 8 ==> (#[trigger] input.user.perp_positions[j]).available,
    ensures
        input.after_perp(count) == input.after_spot(8),
    decreases count,
{
    if count > 0 {
        lemma_no_perp_positions(input, (count - 1) as nat);
        assert(input.user.perp_positions[count - 1].available);
    }
}

proof fn lemma_no_spot_positions(input: IncrementalInput, count: nat)
    requires
        count <= 8,
        forall|j: int| 0 <= j < 8 ==> (#[trigger] input.user.spot_positions[j]).available,
    ensures
        input.after_spot(count) == Some(IncrementalView::start(input.settings, input.before)),
    decreases count,
{
    if count > 0 {
        lemma_no_spot_positions(input, (count - 1) as nat);
        assert(input.user.spot_positions[count - 1].available);
    }
}

/// A full calculation of a user without positions has no sums and keeps nothing, under its own
/// settings and at its time.
pub proof fn law_full_calculation_without_positions(input: IncrementalInput)
    requires
        forall|j: int| 0 <= j < 8 ==> (#[trigger] input.user.spot_positions[j]).available,
        forall|j: int| 0 <= j < 8 ==> (#[trigger] input.user.perp_positions[j]).available,
    ensures
        input.outcome() matches Some(c) && {
            &&& c.totals.collateral == 0
            &&& c.totals.collateral_buffer == 0
            &&& c.totals.requirement == 0
            &&& c.totals.requirement_plus_buffer == 0
            &&& c.spot.len() == 8
            &&& c.perp.len() == 8
            &&& forall|k: int| 0 <= k < 8 ==> is_unused(#[trigger] c.spot[k])
            &&& forall|k: int| 0 <= k < 8 ==> is_unused(#[trigger] c.perp[k])
            &&& c.settings == input.settings
            &&& c.last_updated == input.timestamp
        },
{
    lemma_no_spot_positions(input, 8);
    lemma_no_perp_positions(input, 8);
    law_start_is_empty(input.settings, input.before);
}

/// With no perp positions, a full calculation is that without its last spot position, and
/// then an update of that position.
pub proof fn law_last_spot_position_is_an_update(
    a: IncrementalInput,
    b: IncrementalInput,
    place: int,
)
    requires
        0 <= place < 8,
        spot_differs_at(a, b, place),
        a.timestamp == b.timestamp,
        !a.user.spot_positions[place].available,
        b.user.spot_positions[place].available,
        forall|j: int| place < j < 8 ==> (#[trigger] a.user.spot_positions[j]).available,
        forall|j: int| 0 <= j < 8 ==> (#[trigger] a.user.perp_positions[j]).available,
    ensures
        a.outcome() == match b.outcome() {
            Some(without) => without.spot_updated(
                a.user.spot_positions[place],
                a.market_state,
                a.timestamp,
                a.figures.spot[place],
            ),
            None => None,
        },
{
    lemma_spot_with_last(a, b, place, 8);
    lemma_no_perp_positions(a, 8);
    assert forall|j: int| 0 <= j < 8 implies (#[trigger] b.user.perp_positions[j]).available by {
        assert(a.user.perp_positions[j] == b.user.perp_positions[j]);
    }
    lemma_no_perp_positions(b, 8);
}

/// A full calculation is that without its last perp position, and then an update of
/// that position.
pub proof fn law_last_perp_position_is_an_update(
    a: IncrementalInput,
    b: IncrementalInput,
    place: int,
)
    requires
        0 <= place < 8,
        perp_differs_at(a, b, place),
        a.timestamp == b.timestamp,
        !a.user.perp_positions[place].available,
        b.user.perp_positions[place].available,
        forall|j: int| place < j < 8 ==> (#[trigger] a.user.perp_positions[j]).available,
    ensures
        a.outcome() == match b.outcome() {
            Some(without) => without.perp_updated(
                a.user.perp_positions[place],
                a.market_state,
                a.timestamp,
                a.figures.perp[place],
            ),
            None => None,
        },
{
    lemma_perp_with_last(a, b, place, 8);
}

} // verus!
