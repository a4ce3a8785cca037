//! What a margin buffer does to a one-off calculation.
use vstd::prelude::*;

use crate::arith::{
    abs, buffer_share, fits_i128, lemma_buffer_share_monotone, lemma_loss_share_monotone,
};
use crate::laws::sums::{lemma_perp_prefix, lemma_spot_prefix};
use crate::margin::incremental::{read_figures, spot_entry, PositionCollateral};
use crate::margin::simplified::{
    isolated_entry, open_order_margin, perp_part, spot_parts, MarginInput,
};
use crate::margin::{IsolatedMarginCalculation, SimplifiedView};
use crate::protocol::{MarginRequirementType, SpotPosition};
use crate::table::{first_place, lemma_first_place};
use crate::types::MarketState;
use crate::valuation::{PerpFigures, SpotFigures};

verus! {

/// The same calculation with another margin buffer.
pub open spec fn with_buffer(input: MarginInput, margin_buffer: u32) -> MarginInput {
    MarginInput { margin_buffer, ..input }
}

/// Whether `high` is the calculation `low` with a buffer that is no smaller: the
/// same but for the buffers, which are no smaller either.
pub open spec fn buffers_raised(low: SimplifiedView, high: SimplifiedView) -> bool {
    &&& low.totals.collateral == high.totals.collateral
    &&& low.totals.requirement == high.totals.requirement
    &&& low.totals.requirement_plus_buffer <= high.totals.requirement_plus_buffer
    &&& high.totals.collateral_buffer <= low.totals.collateral_buffer <= 0
    &&& low.with_perp_isolated_liability == high.with_perp_isolated_liability
    &&& low.with_spot_isolated_liability == high.with_spot_isolated_liability
    &&& low.isolated.len() == high.isolated.len()
    &&& forall|i: int|
        #![trigger low.isolated[i]]
        #![trigger high.isolated[i]]
        0 <= i < low.isolated.len() ==> entry_buffers_raised(low.isolated[i], high.isolated[i])
}

pub open spec fn entry_buffers_raised(
    low: IsolatedMarginCalculation,
    high: IsolatedMarginCalculation,
) -> bool {
    &&& low.market_index == high.market_index
    &&& low.margin_requirement == high.margin_requirement
    &&& low.total_collateral == high.total_collateral
    &&& low.margin_requirement_plus_buffer <= high.margin_requirement_plus_buffer
    &&& high.total_collateral_buffer <= low.total_collateral_buffer <= 0
}

proof fn lemma_spot_parts_raised(input: MarginInput, place: int, low: u32, high: u32)
    requires
        low <= high,
    ensures
        ({
            let position = input.user.spot_positions[place];
            let market = input.market_state.spot_markets@[position.market_index];
            let figures = input.figures.spot[place]->Ok_0;
            let ratio = input.user.custom_margin_ratio(input.margin_type);
            let l = spot_parts(position, market, figures, ratio, low);
            let h = spot_parts(position, market, figures, ratio, high);
            h is Some ==> {
                let a = (l->0).0.plus((l->0).1);
                let b = (h->0).0.plus((h->0).1);
                &&& l is Some
                &&& a.collateral == b.collateral
                &&& a.requirement == b.requirement
                &&& a.collateral_buffer == b.collateral_buffer == 0
                &&& a.requirement_plus_buffer <= b.requirement_plus_buffer
            }
        }),
{
    let position = input.user.spot_positions[place];
    let figures = input.figures.spot[place]->Ok_0;
    if buffer_share(abs(figures.token_value as int), high) is Some {
        lemma_buffer_share_monotone(abs(figures.token_value as int), low, high);
    }
    if buffer_share(abs(figures.orders_value as int), high) is Some {
        lemma_buffer_share_monotone(abs(figures.orders_value as int), low, high);
    }
}

proof fn lemma_perp_part_raised(figures: PerpFigures, low: u32, high: u32)
    requires
        low <= high,
        perp_part(figures, high) is Some,
    ensures
        ({
            let l = perp_part(figures, low)->0;
            let h = perp_part(figures, high)->0;
            &&& perp_part(figures, low) is Some
            &&& l.collateral == h.collateral
            &&& l.requirement == h.requirement
            &&& h.collateral_buffer <= l.collateral_buffer <= 0
            &&& l.requirement <= l.requirement_plus_buffer <= h.requirement_plus_buffer
        }),
{
    lemma_buffer_share_monotone(figures.worst_case_liability_value as int, low, high);
    if figures.weighted_pnl < 0 {
        lemma_loss_share_monotone(figures.weighted_pnl as int, low, high);
    }
}

proof fn lemma_spot_raised(input: MarginInput, count: nat, low: u32, high: u32)
    requires
        count <= 8,
        low <= high,
        with_buffer(input, low).after_spot(count) matches Some(Ok(_)),
        with_buffer(input, high).after_spot(count) matches Some(Ok(_)),
    ensures
        buffers_raised(
            with_buffer(input, low).after_spot(count)->0->Ok_0,
            with_buffer(input, high).after_spot(count)->0->Ok_0,
        ),
    decreases count,
{
    if count > 0 {
        let less = (count - 1) as nat;
        lemma_spot_prefix(with_buffer(input, low), less, count);
        lemma_spot_prefix(with_buffer(input, high), less, count);
        lemma_spot_raised(input, less, low, high);
        lemma_spot_parts_raised(input, count - 1, low, high);
    }
}

proof fn lemma_same_free_place(
    low: Seq<IsolatedMarginCalculation>,
    high: Seq<IsolatedMarginCalculation>,
    from: int,
)
    requires
        0 <= from,
        low.len() == high.len(),
        forall|i: int|
            #![trigger low[i]]
            #![trigger high[i]]
            0 <= i < low.len() ==> entry_buffers_raised(low[i], high[i]),
    ensures
        first_place(low, |c: IsolatedMarginCalculation| c.empty(), from) == first_place(
            high,
            |c: IsolatedMarginCalculation| c.empty(),
            from,
        ),
    decreases low.len() - from,
{
    if from < low.len() {
        assert(entry_buffers_raised(low[from], high[from]));
        lemma_same_free_place(low, high, from + 1);
    }
}

proof fn lemma_perp_raised(input: MarginInput, count: nat, low: u32, high: u32)
    requires
        count <= 8,
        low <= high,
        with_buffer(input, low).after_perp(count) matches Some(Ok(_)),
        with_buffer(input, high).after_perp(count) matches Some(Ok(_)),
    ensures
        buffers_raised(
            with_buffer(input, low).after_perp(count)->0->Ok_0,
            with_buffer(input, high).after_perp(count)->0->Ok_0,
        ),
    decreases count,
{
    if count == 0 {
        lemma_spot_raised(input, 8, low, high);
    } else {
        let less = (count - 1) as nat;
        lemma_perp_prefix(with_buffer(input, low), less, count);
        lemma_perp_prefix(with_buffer(input, high), less, count);
        lemma_perp_raised(input, less, low, high);
        let position = input.user.perp_positions[count - 1];
        if !position.available {
            let figures = input.figures.perp[count - 1]->Ok_0;
            lemma_perp_part_raised(figures, low, high);
            if position.isolated {
                let l = with_buffer(input, low).after_perp(less)->0->Ok_0.isolated;
                let h = with_buffer(input, high).after_perp(less)->0->Ok_0.isolated;
                let l_entry = isolated_entry(position, figures, low)->0;
                let h_entry = isolated_entry(position, figures, high)->0;
                lemma_same_free_place(l, h, 0);
                lemma_first_place(l, |c: IsolatedMarginCalculation| c.empty(), 0);
                assert(entry_buffers_raised(l_entry, h_entry));
            }
        }
    }
}

/// A larger margin buffer never lowers the buffered requirement and never raises the
/// collateral buffer, of the cross margin and of every isolated position. It changes
/// nothing else. While the buffered requirement is an `i128`, the free collateral with
/// the buffers is never raised either.
pub proof fn law_buffer_raises_margin(input: MarginInput, low: u32, high: u32)
    requires
        low <= high,
        with_buffer(input, low).outcome() matches Some(Ok(_)),
        with_buffer(input, high).outcome() matches Some(Ok(_)),
    ensures
        buffers_raised(
            with_buffer(input, low).outcome()->0->Ok_0,
            with_buffer(input, high).outcome()->0->Ok_0,
        ),
        fits_i128(
            with_buffer(input, high).outcome()->0->Ok_0.totals.requirement_plus_buffer,
        ) ==> with_buffer(input, high).outcome()->0->Ok_0.free_collateral_with_buffer()
            <= with_buffer(input, low).outcome()->0->Ok_0.free_collateral_with_buffer(),
{
    lemma_perp_raised(input, 8, low, high);
}

/// What the open orders of the spot position at `place` add to the requirement.
pub open spec fn spot_order_margin(input: MarginInput, place: int) -> int {
    let position = input.user.spot_positions[place];
    if position.available {
        0
    } else {
        open_order_margin(position)
    }
}

/// What the open orders of the first `count` spot positions add to the requirement.
pub open spec fn order_margin_sum(input: MarginInput, count: nat) -> int
    decreases count,
{
    if count == 0 {
        0
    } else {
        order_margin_sum(input, (count - 1) as nat) + spot_order_margin(input, count - 1)
    }
}

proof fn lemma_spot_buffered(input: MarginInput, count: nat)
    requires
        count <= 8,
        input.after_spot(count) matches Some(Ok(_)),
    ensures
        ({
            let c = input.after_spot(count)->0->Ok_0;
            &&& c.totals.requirement <= c.totals.requirement_plus_buffer + order_margin_sum(
                input,
                count,
            )
            &&& c.totals.collateral_buffer == 0
            &&& input.margin_buffer == 0 ==> c.totals.requirement
                == c.totals.requirement_plus_buffer + order_margin_sum(input, count)
        }),
    decreases count,
{
    if count > 0 {
        lemma_spot_prefix(input, (count - 1) as nat, count);
        lemma_spot_buffered(input, (count - 1) as nat);
        let position = input.user.spot_positions[count - 1];
        if !position.available {
            let figures = input.figures.spot[count - 1]->Ok_0;
            if buffer_share(abs(figures.token_value as int), input.margin_buffer) is Some {
                lemma_buffer_share_monotone(
                    abs(figures.token_value as int),
                    0,
                    input.margin_buffer,
                );
            }
            if buffer_share(abs(figures.orders_value as int), input.margin_buffer) is Some {
                lemma_buffer_share_monotone(
                    abs(figures.orders_value as int),
                    0,
                    input.margin_buffer,
                );
            }
        }
    }
}

proof fn lemma_perp_buffered(input: MarginInput, count: nat)
    requires
        count <= 8,
        input.after_perp(count) matches Some(Ok(_)),
    ensures
        ({
            let c = input.after_perp(count)->0->Ok_0;
            &&& c.totals.requirement <= c.totals.requirement_plus_buffer + order_margin_sum(
                input,
                8,
            )
            &&& c.totals.collateral_buffer <= 0
            &&& input.margin_buffer == 0 ==> {
                &&& c.totals.collateral_buffer == 0
                &&& c.totals.requirement == c.totals.requirement_plus_buffer + order_margin_sum(
                    input,
                    8,
                )
            }
        }),
    decreases count,
{
    if count == 0 {
        lemma_spot_buffered(input, 8);
    } else {
        lemma_perp_prefix(input, (count - 1) as nat, count);
        lemma_perp_buffered(input, (count - 1) as nat);
        let position = input.user.perp_positions[count - 1];
        if !position.available && !position.isolated {
            let figures = input.figures.perp[count - 1]->Ok_0;
            lemma_perp_part_raised(figures, 0, input.margin_buffer);
        }
    }
}

/// The buffered requirement is at least the requirement without the margin of open
/// orders, which has no buffer, and the collateral buffer is never positive. Without a
/// margin buffer the first two are equal and the third is zero.
pub proof fn law_buffered_requirement(input: MarginInput)
    requires
        input.outcome() matches Some(Ok(_)),
    ensures
        ({
            let c = input.outcome()->0->Ok_0;
            &&& c.totals.requirement <= c.totals.requirement_plus_buffer + order_margin_sum(
                input,
                8,
            )
            &&& c.totals.collateral_buffer <= 0
            &&& input.margin_buffer == 0 ==> {
                &&& c.totals.collateral_buffer == 0
                &&& c.totals.requirement == c.totals.requirement_plus_buffer + order_margin_sum(
                    input,
                    8,
                )
            }
        }),
{
    lemma_perp_buffered(input, 8);
}

/// In the entry of a spot position the buffered requirement without a margin buffer is the
/// requirement without the margin of open orders. A larger margin buffer never lowers the
/// buffered requirement and changes nothing else.
pub proof fn law_spot_entry_buffers(
    position: SpotPosition,
    market_state: MarketState,
    margin_type: MarginRequirementType,
    custom_margin_ratio: u32,
    low: u32,
    high: u32,
    timestamp: u64,
    figures: Result<SpotFigures, u32>,
)
    requires
        low <= high,
        spot_entry(
            position,
            market_state,
            margin_type,
            custom_margin_ratio,
            high,
            timestamp,
            figures,
        ) matches Some(Some(_)),
    ensures
        ({
            let entry = |margin_buffer: u32|
                spot_entry(
                    position,
                    market_state,
                    margin_type,
                    custom_margin_ratio,
                    margin_buffer,
                    timestamp,
                    figures,
                );
            &&& entry(low) matches Some(Some(_))
            &&& entry(low)->0->0.liability_buffer <= entry(high)->0->0.liability_buffer
            &&& entry(low)->0->0 == (PositionCollateral {
                liability_buffer: entry(low)->0->0.liability_buffer,
                ..entry(high)->0->0
            })
            &&& low == 0 ==> entry(low)->0->0.liability_value == entry(low)->0->0.liability_buffer
                + open_order_margin(position)
        }),
{
    let market = market_state.spot_markets@[position.market_index];
    let read = read_figures(position, market, figures->Ok_0, custom_margin_ratio);
    if read.token_value < 0 {
        lemma_buffer_share_monotone(abs(read.weighted_token_value as int), low, high);
        assert(abs(read.weighted_token_value as int) * 0 == 0) by (nonlinear_arith);
    }
    if read.orders_value < 0 {
        lemma_buffer_share_monotone(abs(read.orders_value as int), low, high);
        assert(abs(read.orders_value as int) * 0 == 0) by (nonlinear_arith);
    }
}

} // verus!
