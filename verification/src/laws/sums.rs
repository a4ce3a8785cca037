//! What the positions of a one-off calculation add up to.
use vstd::prelude::*;

use crate::margin::simplified::{
    no_positions, perp_isolated_liability, perp_part, spot_isolated_liability, spot_parts,
    MarginInput,
};
use crate::margin::totals::MarginTotals;

verus! {

/// What the spot position at `place` adds to the sums.
pub open spec fn spot_amounts(input: MarginInput, place: int) -> MarginTotals {
    let position = input.user.spot_positions[place];
    if position.available {
        MarginTotals::zero()
    } else {
        let parts = spot_parts(
            position,
            input.market_state.spot_markets@[position.market_index],
            input.figures.spot[place]->Ok_0,
            input.user.custom_margin_ratio(input.margin_type),
            input.margin_buffer,
        )->0;
        parts.0.plus(parts.1)
    }
}

/// What the perp position at `place` adds to the sums: nothing where it is isolated.
pub open spec fn perp_amounts(input: MarginInput, place: int) -> MarginTotals {
    let position = input.user.perp_positions[place];
    if position.available || position.isolated {
        MarginTotals::zero()
    } else {
        perp_part(input.figures.perp[place]->Ok_0, input.margin_buffer)->0
    }
}

/// What the first `count` spot positions add up to.
pub open spec fn spot_sum(input: MarginInput, count: nat) -> MarginTotals
    decreases count,
{
    if count == 0 {
        MarginTotals::zero()
    } else {
        spot_sum(input, (count - 1) as nat).plus(spot_amounts(input, count - 1))
    }
}

/// What the first `count` perp positions add up to.
pub open spec fn perp_sum(input: MarginInput, count: nat) -> MarginTotals
    decreases count,
{
    if count == 0 {
        MarginTotals::zero()
    } else {
        perp_sum(input, (count - 1) as nat).plus(perp_amounts(input, count - 1))
    }
}

/// Whether the spot position at `place` is a liability in an isolated asset other than
/// the quote token.
pub open spec fn is_spot_isolated_liability(input: MarginInput, place: int) -> bool {
    let position = input.user.spot_positions[place];
    !position.available && spot_isolated_liability(
        position,
        input.market_state.spot_markets@[position.market_index],
        input.figures.spot[place]->Ok_0,
    )
}

/// Whether the perp position at `place` is isolated, or a liability in an isolated
/// contract.
pub open spec fn is_perp_isolated_liability(input: MarginInput, place: int) -> bool {
    let position = input.user.perp_positions[place];
    !position.available && (position.isolated || perp_isolated_liability(
        position,
        input.market_state.perp_markets@[position.market_index],
    ))
}

pub(crate) proof fn lemma_spot_prefix(input: MarginInput, count: nat, more: nat)
    requires
        count <= more,
        input.after_spot(more) matches Some(Ok(_)),
    ensures
        input.after_spot(count) matches Some(Ok(_)),
    decreases more - count,
{
    if count < more {
        lemma_spot_prefix(input, count, (more - 1) as nat);
    }
}

pub(crate) proof fn lemma_perp_prefix(input: MarginInput, count: nat, more: nat)
    requires
        count <= more,
        input.after_perp(more) matches Some(Ok(_)),
    ensures
        input.after_perp(count) matches Some(Ok(_)),
    decreases more - count,
{
    if count < more {
        lemma_perp_prefix(input, count, (more - 1) as nat);
    }
}

proof fn lemma_spot_adds_up(input: MarginInput, count: nat)
    requires
        count <= 8,
        input.after_spot(count) matches Some(Ok(_)),
    ensures
        ({
            let c = input.after_spot(count)->0->Ok_0;
            &&& c.totals == spot_sum(input, count)
            &&& c.isolated == no_positions().isolated
            &&& !c.with_perp_isolated_liability
            &&& c.with_spot_isolated_liability == (exists|i: int|
                0 <= i < count && #[trigger] is_spot_isolated_liability(input, i))
        }),
    decreases count,
{
    if count > 0 {
        lemma_spot_prefix(input, (count - 1) as nat, count);
        lemma_spot_adds_up(input, (count - 1) as nat);
        let c = input.after_spot(count)->0->Ok_0;
        let b = input.after_spot((count - 1) as nat)->0->Ok_0;
        assert(c.with_spot_isolated_liability == (b.with_spot_isolated_liability
            || is_spot_isolated_liability(input, count - 1)));
    }
}

proof fn lemma_perp_adds_up(input: MarginInput, count: nat)
    requires
        count <= 8,
        input.after_perp(count) matches Some(Ok(_)),
    ensures
        ({
            let c = input.after_perp(count)->0->Ok_0;
            &&& c.totals == spot_sum(input, 8).plus(perp_sum(input, count))
            &&& c.with_spot_isolated_liability == (exists|i: int|
                0 <= i < 8 && #[trigger] is_spot_isolated_liability(input, i))
            &&& c.with_perp_isolated_liability == (exists|i: int|
                0 <= i < count && #[trigger] is_perp_isolated_liability(input, i))
        }),
    decreases count,
{
    if count == 0 {
        lemma_spot_adds_up(input, 8);
    } else {
        lemma_perp_prefix(input, (count - 1) as nat, count);
        lemma_perp_adds_up(input, (count - 1) as nat);
        let c = input.after_perp(count)->0->Ok_0;
        let b = input.after_perp((count - 1) as nat)->0->Ok_0;
        assert(c.with_perp_isolated_liability == (b.with_perp_isolated_liability
            || is_perp_isolated_liability(input, count - 1)));
    }
}

/// The sums of a one-off calculation are what the positions add up to. An available
/// slot adds nothing, and neither does an isolated perp position. The two flags say
/// whether some position is an isolated liability.
pub proof fn law_sums_add_up(input: MarginInput)
    requires
        input.outcome() matches Some(Ok(_)),
    ensures
        ({
            let c = input.outcome()->0->Ok_0;
            &&& c.totals == spot_sum(input, 8).plus(perp_sum(input, 8))
            &&& c.with_spot_isolated_liability == (exists|i: int|
                0 <= i < 8 && #[trigger] is_spot_isolated_liability(input, i))
            &&& c.with_perp_isolated_liability == (exists|i: int|
                0 <= i < 8 && #[trigger] is_perp_isolated_liability(input, i))
        }),
{
    lemma_perp_adds_up(input, 8);
}

} // verus!
