//! The one-off and the incremental calculation agree.
use vstd::prelude::*;

use crate::arith::{abs, buffer_share};
use crate::laws::sums::{lemma_perp_prefix, lemma_spot_prefix};
use crate::margin::incremental::{
    input_of, kept, kept_place, spot_entry_amounts, IncrementalInput, IncrementalView,
    PositionCollateral,
};
use crate::margin::simplified::{spot_parts, MarginInput};
use crate::margin::SimplifiedView;
use crate::protocol::{SpotBalanceType, User};
use crate::table::lemma_first_place;
use crate::valuation::{requested_cached_perp, requested_cached_spot, simulated};

verus! {

/// Whether the user has at most one spot position in each market.
pub open spec fn one_spot_position_per_market(user: User) -> bool {
    forall|i: int, j: int|
        0 <= i < j < 8 && !user.spot_positions[i].available && !user.spot_positions[j].available
            ==> (#[trigger] user.spot_positions[i]).market_index != (
        #[trigger] user.spot_positions[j]).market_index
}

/// Whether the user has at most one perp position in each market.
pub open spec fn one_perp_position_per_market(user: User) -> bool {
    forall|i: int, j: int|
        0 <= i < j < 8 && !user.perp_positions[i].available && !user.perp_positions[j].available
            ==> (#[trigger] user.perp_positions[i]).market_index != (
        #[trigger] user.perp_positions[j]).market_index
}

/// Whether the user has at most one spot and one perp position in each market.
pub open spec fn one_position_per_market(user: User) -> bool {
    one_spot_position_per_market(user) && one_perp_position_per_market(user)
}

/// Whether both calculations ask the same for the spot position at `place`: they do
/// unless a Pyth price takes the place of the oracle's.
pub open spec fn same_spot_request(input: MarginInput, place: int) -> bool {
    input.spot_request(place) matches Some(Ok(request)) ==> requested_cached_spot(
        input.user.spot_positions[place],
        input.market_state,
        input.margin_type,
        input.user.custom_margin_ratio(input.margin_type),
    ) == Some(Some(request))
}

/// Whether both calculations ask the same for the perp position at `place`: they do
/// unless a Pyth price takes the place of the oracle's, a margin ratio of the user's
/// own counts or the position is isolated.
pub open spec fn same_perp_request(input: MarginInput, place: int) -> bool {
    input.perp_request(place) matches Some(Ok(request)) ==> requested_cached_perp(
        input.user.perp_positions[place],
        input.market_state,
        input.margin_type,
        input.user.high_leverage_mode,
    ) == Some(Some(request))
}

/// Whether a position that is not simulated has a value whose sign is that of its kind of
/// balance.
pub open spec fn plain_quote_position(input: MarginInput, place: int) -> bool {
    let position = input.user.spot_positions[place];
    let market = input.market_state.spot_markets@[position.market_index];
    let value = input.figures.spot[place]->Ok_0.token_value;
    !simulated(position, market, input.user.custom_margin_ratio(input.margin_type))
        ==> match position.balance_type {
        SpotBalanceType::Deposit => value >= 0,
        SpotBalanceType::Borrow => value <= 0,
    }
}

/// Whether a borrow of the spot position at `place` has its own value as its weighted one.
pub open spec fn unweighted_borrow(input: MarginInput, place: int) -> bool {
    let position = input.user.spot_positions[place];
    let market = input.market_state.spot_markets@[position.market_index];
    let figures = input.figures.spot[place]->Ok_0;
    !position.available && simulated(
        position,
        market,
        input.user.custom_margin_ratio(input.margin_type),
    ) && figures.token_value < 0 ==> figures.weighted_token_value == figures.token_value
}

/// Whether both calculations put the same buffer on every borrow: the one-off calculation
/// has it on the value of the borrow, the incremental one on the weighted value.
pub open spec fn same_buffers(input: MarginInput) -> bool {
    input.margin_buffer == 0 || forall|i: int|
        0 <= i < 8 ==> #[trigger] unweighted_borrow(input, i)
}

/// Whether the spot positions are such that both calculations treat them alike.
pub open spec fn spot_comparable(input: MarginInput) -> bool {
    forall|i: int|
        #![trigger input.user.spot_positions[i]]
        0 <= i < 8 && !input.user.spot_positions[i].available ==> {
            &&& same_spot_request(input, i)
            &&& plain_quote_position(input, i)
        }
}

/// Whether the perp positions are such that both calculations treat them alike.
pub open spec fn perp_comparable(input: MarginInput) -> bool {
    forall|i: int|
        #![trigger input.user.perp_positions[i]]
        0 <= i < 8 && !input.user.perp_positions[i].available ==> same_perp_request(input, i)
}

/// The incremental calculation from the same user, markets and figures.
pub open spec fn incremental_of(input: MarginInput, timestamp: u64) -> IncrementalInput {
    input_of(
        input.user,
        input.market_state,
        input.margin_type,
        timestamp,
        input.margin_buffer,
        input.figures,
    )
}

spec fn spot_comes_before(input: MarginInput, count: nat, market_index: u16) -> bool {
    exists|j: int|
        0 <= j < count && !input.user.spot_positions[j].available && (
        #[trigger] input.user.spot_positions[j]).market_index == market_index
}

spec fn perp_comes_before(input: MarginInput, count: nat, market_index: u16) -> bool {
    exists|j: int|
        0 <= j < count && !input.user.perp_positions[j].available && (
        #[trigger] input.user.perp_positions[j]).market_index == market_index
}

spec fn same_sums(
    one_off: SimplifiedView,
    incremental: IncrementalView,
    buffered: bool,
) -> bool {
    &&& one_off.totals.collateral == incremental.totals.collateral
    &&& one_off.totals.requirement == incremental.totals.requirement
    &&& one_off.totals.collateral_buffer == incremental.totals.collateral_buffer
    &&& buffered ==> one_off.totals.requirement_plus_buffer
        == incremental.totals.requirement_plus_buffer
}

proof fn lemma_spot_prefix_incremental(input: IncrementalInput, count: nat, more: nat)
    requires
        count <= more,
        input.after_spot(more) is Some,
    ensures
        input.after_spot(count) is Some,
    decreases more - count,
{
    if count < more {
        lemma_spot_prefix_incremental(input, count, (more - 1) as nat);
    }
}

proof fn lemma_perp_prefix_incremental(input: IncrementalInput, count: nat, more: nat)
    requires
        count <= more,
        input.after_perp(more) is Some,
    ensures
        input.after_perp(count) is Some,
    decreases more - count,
{
    if count < more {
        lemma_perp_prefix_incremental(input, count, (more - 1) as nat);
    }
}

proof fn lemma_no_share(amount: int)
    ensures
        buffer_share(amount, 0) == Some(0int),
{
    assert(amount * 0 == 0) by (nonlinear_arith);
}

proof fn lemma_same_amounts(input: MarginInput, place: int)
    requires
        0 <= place < 8,
        plain_quote_position(input, place),
        !input.user.spot_positions[place].available,
        input.figures.spot[place] is Ok,
    ensures
        ({
            let position = input.user.spot_positions[place];
            let market = input.market_state.spot_markets@[position.market_index];
            let figures = input.figures.spot[place]->Ok_0;
            let ratio = input.user.custom_margin_ratio(input.margin_type);
            let parts = spot_parts(position, market, figures, ratio, input.margin_buffer);
            let amounts = spot_entry_amounts(
                position,
                market,
                figures,
                ratio,
                input.margin_buffer,
            );
            let sum = (parts->0).0.plus((parts->0).1);
            parts is Some && amounts is Some ==> {
                &&& sum.collateral == amounts->0.collateral
                &&& sum.collateral_buffer == amounts->0.collateral_buffer
                &&& sum.requirement == amounts->0.requirement
                &&& (input.margin_buffer == 0 || unweighted_borrow(input, place))
                    ==> sum.requirement_plus_buffer == amounts->0.requirement_plus_buffer
            }
        }),
{
    let figures = input.figures.spot[place]->Ok_0;
    lemma_no_share(abs(figures.token_value as int));
    lemma_no_share(abs(figures.weighted_token_value as int));
    let value = abs(figures.token_value as int);
    let buffer = input.margin_buffer as int;
    assert(value == 0 ==> value * buffer == 0) by (nonlinear_arith);
}

proof fn lemma_spot_agrees(input: MarginInput, timestamp: u64, count: nat)
    requires
        count <= 8,
        one_position_per_market(input.user),
        spot_comparable(input),
        input.after_spot(count) matches Some(Ok(_)),
        incremental_of(input, timestamp).after_spot(count) is Some,
    ensures
        ({
            let c = incremental_of(input, timestamp).after_spot(count)->0;
            &&& same_sums(input.after_spot(count)->0->Ok_0, c, same_buffers(input))
            &&& c.settings == incremental_of(input, timestamp).settings
            &&& c.spot.len() == 8
            &&& forall|k: int|
                0 <= k < 8 && (#[trigger] c.spot[k]).present() ==> spot_comes_before(
                    input,
                    count,
                    c.spot[k].market_index,
                )
            &&& c.perp == IncrementalView::start(c.settings, 0).perp
        }),
    decreases count,
{
    let inc = incremental_of(input, timestamp);
    if count > 0 {
        let less = (count - 1) as nat;
        lemma_spot_prefix(input, less, count);
        lemma_spot_prefix_incremental(inc, less, count);
        lemma_spot_agrees(input, timestamp, less);
        let position = input.user.spot_positions[count - 1];
        let b = inc.after_spot(less)->0;
        let c = inc.after_spot(count)->0;
        if !position.available {
            assert(same_spot_request(input, count - 1));
            assert(same_buffers(input) && input.margin_buffer != 0 ==> unweighted_borrow(
                input,
                count - 1,
            ));
            lemma_same_amounts(input, count - 1);
            let wanted = |e: PositionCollateral| e.is_for(position.market_index);
            lemma_first_place(b.spot, wanted, 0);
            assert(kept_place(b.spot, position.market_index) is None) by {
                if kept_place(b.spot, position.market_index) is Some {
                    let place = kept_place(b.spot, position.market_index)->0;
                    assert(wanted(b.spot[place]));
                    assert(spot_comes_before(input, less, position.market_index));
                }
            }
            let free = |e: PositionCollateral| !e.present();
            lemma_first_place(b.spot, free, 0);
            let entry = b.spot_entry(
                position,
                inc.market_state,
                timestamp,
                inc.figures.spot[count - 1],
            )->0->0;
            assert(c.spot == kept(b.spot, entry));
            assert forall|k: int| 0 <= k < 8 && (#[trigger] c.spot[k]).present() implies
                spot_comes_before(input, count, c.spot[k].market_index) by {
                if c.spot[k] != b.spot[k] {
                    assert(input.user.spot_positions[count - 1].market_index
                        == c.spot[k].market_index);
                }
            }
        } else {
            assert(b == c);
        }
    }
}

proof fn lemma_perp_agrees(input: MarginInput, timestamp: u64, count: nat)
    requires
        count <= 8,
        one_position_per_market(input.user),
        spot_comparable(input),
        perp_comparable(input),
        input.after_perp(count) matches Some(Ok(_)),
        incremental_of(input, timestamp).after_perp(count) is Some,
    ensures
        ({
            let c = incremental_of(input, timestamp).after_perp(count)->0;
            &&& same_sums(input.after_perp(count)->0->Ok_0, c, same_buffers(input))
            &&& c.settings == incremental_of(input, timestamp).settings
            &&& c.perp.len() == 8
            &&& forall|k: int|
                0 <= k < 8 && (#[trigger] c.perp[k]).present() ==> perp_comes_before(
                    input,
                    count,
                    c.perp[k].market_index,
                )
        }),
    decreases count,
{
    let inc = incremental_of(input, timestamp);
    if count == 0 {
        lemma_spot_agrees(input, timestamp, 8);
    } else {
        let less = (count - 1) as nat;
        lemma_perp_prefix(input, less, count);
        lemma_perp_prefix_incremental(inc, less, count);
        lemma_perp_agrees(input, timestamp, less);
        let position = input.user.perp_positions[count - 1];
        let b = inc.after_perp(less)->0;
        let c = inc.after_perp(count)->0;
        if !position.available {
            assert(same_perp_request(input, count - 1));
            let wanted = |e: PositionCollateral| e.is_for(position.market_index);
            lemma_first_place(b.perp, wanted, 0);
            assert(kept_place(b.perp, position.market_index) is None) by {
                if kept_place(b.perp, position.market_index) is Some {
                    let place = kept_place(b.perp, position.market_index)->0;
                    assert(wanted(b.perp[place]));
                    assert(perp_comes_before(input, less, position.market_index));
                }
            }
            let free = |e: PositionCollateral| !e.present();
            lemma_first_place(b.perp, free, 0);
            let entry = b.perp_entry(
                position,
                inc.market_state,
                timestamp,
                inc.figures.perp[count - 1],
            )->0->0;
            assert(c.perp == kept(b.perp, entry));
            assert forall|k: int| 0 <= k < 8 && (#[trigger] c.perp[k]).present() implies
                perp_comes_before(input, count, c.perp[k].market_index) by {
                if c.perp[k] != b.perp[k] {
                    assert(input.user.perp_positions[count - 1].market_index
                        == c.perp[k].market_index);
                }
            }
        } else {
            assert(b == c);
        }
    }
}

/// The one-off calculation and the incremental one of the same user come to the same
/// collateral, collateral buffer, requirement and free collateral, whatever the margin
/// type, the buffer and the time. The buffered requirement and the free collateral with the
/// buffers are the same too where both put the same buffer on every borrow.
///
/// They part where the program is asked for different figures, and on two more inputs: two
/// positions in one market, and a quote position whose value has not the sign of its
/// balance.
pub proof fn law_calculations_agree(input: MarginInput, timestamp: u64)
    requires
        one_position_per_market(input.user),
        spot_comparable(input),
        perp_comparable(input),
        input.outcome() matches Some(Ok(_)),
        incremental_of(input, timestamp).outcome() is Some,
    ensures
        ({
            let one_off = input.outcome()->0->Ok_0;
            let incremental = incremental_of(input, timestamp).outcome()->0;
            &&& one_off.totals.collateral == incremental.totals.collateral
            &&& one_off.totals.collateral_buffer == incremental.totals.collateral_buffer
            &&& one_off.totals.requirement == incremental.totals.requirement
            &&& one_off.free_collateral() == incremental.free_collateral()
            &&& one_off.cross_covered() == (incremental.free_collateral() >= 0)
            &&& same_buffers(input) ==> {
                &&& one_off.totals == incremental.totals
                &&& one_off.free_collateral_with_buffer()
                    == incremental.free_collateral_with_buffer()
            }
        }),
{
    lemma_perp_agrees(input, timestamp, 8);
}

} // verus!
