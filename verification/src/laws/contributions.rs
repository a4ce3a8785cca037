//! What each position does to a one-off calculation, in the numbers themselves.
use vstd::prelude::*;

use crate::arith::abs;
use crate::laws::entries::{lemma_share_is_positive, sums_fit};
use crate::laws::sums::{
    law_sums_add_up, lemma_perp_prefix, lemma_spot_prefix, perp_amounts, perp_sum, spot_amounts,
    spot_sum,
};
use crate::margin::simplified::{perp_part, spot_parts, MarginInput};
use crate::margin::SimplifiedView;
use crate::protocol::{ErrorCode, MarginRequirementType, SpotBalanceType};
use crate::valuation::{requested_perp, requested_spot};

verus! {

/// Whether `b` is the calculation `a` with the slot of the spot position at `place` empty.
pub open spec fn spot_removed(a: MarginInput, b: MarginInput, place: int) -> bool {
    &&& 0 <= place < 8
    &&& !a.user.spot_positions[place].available
    &&& b.user.spot_positions[place].available
    &&& a.market_state == b.market_state
    &&& a.margin_type == b.margin_type
    &&& a.margin_buffer == b.margin_buffer
    &&& a.user.max_margin_ratio == b.user.max_margin_ratio
    &&& a.user.high_leverage_mode == b.user.high_leverage_mode
    &&& forall|j: int|
        #![trigger a.user.spot_positions[j]]
        #![trigger b.user.spot_positions[j]]
        0 <= j < 8 && j != place ==> a.user.spot_positions[j] == b.user.spot_positions[j]
            && a.figures.spot[j] == b.figures.spot[j]
    &&& forall|j: int|
        #![trigger a.user.perp_positions[j]]
        #![trigger b.user.perp_positions[j]]
        0 <= j < 8 ==> a.user.perp_positions[j] == b.user.perp_positions[j] && a.figures.perp[j]
            == b.figures.perp[j]
}

/// Whether `b` is the calculation `a` with the slot of the perp position at `place` empty.
pub open spec fn perp_removed(a: MarginInput, b: MarginInput, place: int) -> bool {
    &&& 0 <= place < 8
    &&& !a.user.perp_positions[place].available
    &&& b.user.perp_positions[place].available
    &&& a.market_state == b.market_state
    &&& a.margin_type == b.margin_type
    &&& a.margin_buffer == b.margin_buffer
    &&& a.user.max_margin_ratio == b.user.max_margin_ratio
    &&& a.user.high_leverage_mode == b.user.high_leverage_mode
    &&& forall|j: int|
        #![trigger a.user.spot_positions[j]]
        #![trigger b.user.spot_positions[j]]
        0 <= j < 8 ==> a.user.spot_positions[j] == b.user.spot_positions[j] && a.figures.spot[j]
            == b.figures.spot[j]
    &&& forall|j: int|
        #![trigger a.user.perp_positions[j]]
        #![trigger b.user.perp_positions[j]]
        0 <= j < 8 && j != place ==> a.user.perp_positions[j] == b.user.perp_positions[j]
            && a.figures.perp[j] == b.figures.perp[j]
}

proof fn lemma_spot_sum_without(a: MarginInput, b: MarginInput, place: int, count: nat)
    requires
        count <= 8,
        spot_removed(a, b, place),
    ensures
        spot_sum(a, count) == if place < count {
            spot_sum(b, count).plus(spot_amounts(a, place))
        } else {
            spot_sum(b, count)
        },
        perp_sum(a, count) == perp_sum(b, count),
    decreases count,
{
    if count > 0 {
        lemma_spot_sum_without(a, b, place, (count - 1) as nat);
        assert(a.user.perp_positions[count - 1] == b.user.perp_positions[count - 1]);
        if count - 1 != place {
            assert(a.user.spot_positions[count - 1] == b.user.spot_positions[count - 1]);
            assert(spot_amounts(a, count - 1) == spot_amounts(b, count - 1));
        }
    }
}

proof fn lemma_perp_sum_without(a: MarginInput, b: MarginInput, place: int, count: nat)
    requires
        count <= 8,
        perp_removed(a, b, place),
    ensures
        perp_sum(a, count) == if place < count {
            perp_sum(b, count).plus(perp_amounts(a, place))
        } else {
            perp_sum(b, count)
        },
        spot_sum(a, count) == spot_sum(b, count),
    decreases count,
{
    if count > 0 {
        lemma_perp_sum_without(a, b, place, (count - 1) as nat);
        assert(a.user.spot_positions[count - 1] == b.user.spot_positions[count - 1]);
        assert(spot_amounts(a, count - 1) == spot_amounts(b, count - 1));
        if count - 1 != place {
            assert(a.user.perp_positions[count - 1] == b.user.perp_positions[count - 1]);
        }
    }
}

/// A calculated spot position has its market, and amounts to add.
proof fn lemma_spot_counted(input: MarginInput, place: int)
    requires
        0 <= place < 8,
        !input.user.spot_positions[place].available,
        input.outcome() matches Some(Ok(_)),
    ensures
        input.spot_request(place) matches Some(Ok(_)),
        input.figures.spot[place] is Ok,
        ({
            let position = input.user.spot_positions[place];
            spot_parts(
                position,
                input.market_state.spot_markets@[position.market_index],
                input.figures.spot[place]->Ok_0,
                input.user.custom_margin_ratio(input.margin_type),
                input.margin_buffer,
            ) is Some
        }),
{
    lemma_perp_prefix(input, 0, 8);
    lemma_spot_prefix(input, (place + 1) as nat, 8);
    lemma_spot_prefix(input, place as nat, 8);
}

/// A calculated perp position has its market, and amounts to add.
proof fn lemma_perp_counted(input: MarginInput, place: int)
    requires
        0 <= place < 8,
        !input.user.perp_positions[place].available,
        input.outcome() matches Some(Ok(_)),
    ensures
        input.perp_request(place) matches Some(Ok(_)),
        input.figures.perp[place] is Ok,
        perp_part(input.figures.perp[place]->Ok_0, input.margin_buffer) is Some,
{
    lemma_perp_prefix(input, (place + 1) as nat, 8);
    lemma_perp_prefix(input, place as nat, 8);
}

/// What one spot position adds to the sums.
///
/// In the quote market, without open orders and, for a borrow, without a margin ratio of the
/// user's own for initial margin, a deposit is collateral and a borrow is a requirement, at
/// the token value. Everywhere else the weighted value of a positive token value is
/// collateral and that of a negative one is a requirement, with a buffer on the token value;
/// the value of the open orders is collateral where it is positive and a buffered
/// requirement where it is negative; and each open order asks for one cent without a buffer.
pub proof fn law_spot_position_adds(a: MarginInput, b: MarginInput, place: int)
    requires
        spot_removed(a, b, place),
        a.outcome() matches Some(Ok(_)),
        b.outcome() matches Some(Ok(_)),
    ensures
        ({
            let with = a.outcome()->0->Ok_0;
            let without = b.outcome()->0->Ok_0;
            let position = a.user.spot_positions[place];
            let market = a.market_state.spot_markets@[position.market_index];
            let buffer = a.margin_buffer;
            let token = a.figures.spot[place]->Ok_0.token_value;
            let weighted = a.figures.spot[place]->Ok_0.weighted_token_value;
            let orders = a.figures.spot[place]->Ok_0.orders_value;
            let token_size: int = if token < 0 {
                -token
            } else {
                token as int
            };
            let weighted_size: int = if weighted < 0 {
                -weighted
            } else {
                weighted as int
            };
            let orders_size: int = if orders < 0 {
                -orders
            } else {
                orders as int
            };
            let plain = market.market_index == 0 && !position.has_open_order
                && position.open_orders == 0 && !(position.balance_type == SpotBalanceType::Borrow
                && a.margin_type == MarginRequirementType::Initial && a.user.max_margin_ratio != 0);
            &&& with.totals.collateral_buffer == without.totals.collateral_buffer
            &&& plain && position.balance_type == SpotBalanceType::Deposit ==> {
                &&& with.totals.collateral == without.totals.collateral + token
                &&& with.totals.requirement == without.totals.requirement
                &&& with.totals.requirement_plus_buffer == without.totals.requirement_plus_buffer
            }
            &&& plain && position.balance_type == SpotBalanceType::Borrow ==> {
                &&& with.totals.collateral == without.totals.collateral
                &&& with.totals.requirement == without.totals.requirement + token_size
                &&& with.totals.requirement_plus_buffer == without.totals.requirement_plus_buffer
                    + token_size + token_size * buffer / 10_000
            }
            &&& !plain ==> {
                &&& with.totals.collateral == without.totals.collateral + (if token > 0 {
                    weighted as int
                } else {
                    0
                }) + (if orders > 0 {
                    orders as int
                } else {
                    0
                })
                &&& with.totals.requirement == without.totals.requirement + position.open_orders
                    * 10_000 + (if token < 0 {
                    weighted_size
                } else {
                    0
                }) + (if orders < 0 {
                    orders_size
                } else {
                    0
                })
                &&& with.totals.requirement_plus_buffer == without.totals.requirement_plus_buffer
                    + (if token < 0 {
                    weighted_size + token_size * buffer / 10_000
                } else {
                    0
                }) + (if orders < 0 {
                    orders_size + orders_size * buffer / 10_000
                } else {
                    0
                })
            }
        }),
{
    law_sums_add_up(a);
    law_sums_add_up(b);
    lemma_spot_sum_without(a, b, place, 8);
    lemma_spot_counted(a, place);
}

/// What one perp position with no collateral of its own adds to the sums: its profit or loss
/// is collateral, and its margin a requirement, with a buffer on the worst-case liability.
/// A loss has a buffer, rounded towards zero; a profit has none, whatever the margin buffer.
pub proof fn law_cross_perp_position_adds(a: MarginInput, b: MarginInput, place: int)
    requires
        perp_removed(a, b, place),
        !a.user.perp_positions[place].isolated,
        a.outcome() matches Some(Ok(_)),
        b.outcome() matches Some(Ok(_)),
    ensures
        ({
            let with = a.outcome()->0->Ok_0;
            let without = b.outcome()->0->Ok_0;
            let figures = a.figures.perp[place]->Ok_0;
            let buffer = a.margin_buffer;
            let pnl = figures.weighted_pnl;
            &&& with.totals.collateral == without.totals.collateral + pnl
            &&& pnl >= 0 ==> with.totals.collateral_buffer == without.totals.collateral_buffer
            &&& pnl < 0 ==> with.totals.collateral_buffer == without.totals.collateral_buffer - (
            (-(pnl * buffer)) / 10_000)
            &&& with.totals.requirement == without.totals.requirement + figures.margin_requirement
            &&& with.totals.requirement_plus_buffer == without.totals.requirement_plus_buffer
                + figures.margin_requirement + figures.worst_case_liability_value * buffer / 10_000
        }),
{
    law_sums_add_up(a);
    law_sums_add_up(b);
    lemma_perp_sum_without(a, b, place, 8);
    lemma_perp_counted(a, place);
}

/// An isolated perp position adds nothing to the sums of the cross margin.
pub proof fn law_isolated_perp_position_adds_nothing(a: MarginInput, b: MarginInput, place: int)
    requires
        perp_removed(a, b, place),
        a.user.perp_positions[place].isolated,
        a.outcome() matches Some(Ok(_)),
        b.outcome() matches Some(Ok(_)),
    ensures
        ({
            let with = a.outcome()->0->Ok_0.totals;
            let without = b.outcome()->0->Ok_0.totals;
            &&& with.collateral == without.collateral
            &&& with.collateral_buffer == without.collateral_buffer
            &&& with.requirement == without.requirement
            &&& with.requirement_plus_buffer == without.requirement_plus_buffer
        }),
{
    law_sums_add_up(a);
    law_sums_add_up(b);
    lemma_perp_sum_without(a, b, place, 8);
}

proof fn lemma_spot_steps_without(a: MarginInput, b: MarginInput, place: int, count: nat)
    requires
        count <= 8,
        spot_removed(a, b, place),
        forall|j: int| place < j < 8 ==> (#[trigger] a.user.spot_positions[j]).available,
    ensures
        count <= place ==> a.after_spot(count) == b.after_spot(count),
        count > place ==> a.after_spot(count) == match b.after_spot(count) {
            Some(Ok(without)) => a.spot_step(without, place),
            ended => ended,
        },
    decreases count,
{
    if count > 0 {
        lemma_spot_steps_without(a, b, place, (count - 1) as nat);
        if count - 1 != place {
            assert(a.user.spot_positions[count - 1] == b.user.spot_positions[count - 1]);
            assert(a.figures.spot[count - 1] == b.figures.spot[count - 1]);
        }
    }
}

proof fn lemma_same_spot_steps(a: MarginInput, b: MarginInput, place: int, count: nat)
    requires
        count <= 8,
        perp_removed(a, b, place),
    ensures
        a.after_spot(count) == b.after_spot(count),
    decreases count,
{
    if count > 0 {
        lemma_same_spot_steps(a, b, place, (count - 1) as nat);
        assert(a.user.spot_positions[count - 1] == b.user.spot_positions[count - 1]);
        assert(a.figures.spot[count - 1] == b.figures.spot[count - 1]);
    }
}

proof fn lemma_perp_steps_without(a: MarginInput, b: MarginInput, place: int, count: nat)
    requires
        count <= 8,
        perp_removed(a, b, place),
        forall|j: int| place < j < 8 ==> (#[trigger] a.user.perp_positions[j]).available,
    ensures
        count <= place ==> a.after_perp(count) == b.after_perp(count),
        count > place ==> a.after_perp(count) == match b.after_perp(count) {
            Some(Ok(without)) => a.perp_step(without, place),
            ended => ended,
        },
    decreases count,
{
    if count == 0 {
        lemma_same_spot_steps(a, b, place, 8);
    } else {
        lemma_perp_steps_without(a, b, place, (count - 1) as nat);
        if count - 1 != place {
            assert(a.user.perp_positions[count - 1] == b.user.perp_positions[count - 1]);
            assert(a.figures.perp[count - 1] == b.figures.perp[count - 1]);
        }
    }
}

proof fn lemma_only_spot_steps(input: MarginInput, count: nat)
    requires
        count <= 8,
        forall|j: int| 0 <= j < 8 ==> (#[trigger] input.user.perp_positions[j]).available,
    ensures
        input.after_perp(count) == input.after_spot(8),
    decreases count,
{
    if count > 0 {
        lemma_only_spot_steps(input, (count - 1) as nat);
        assert(input.user.perp_positions[count - 1].available);
    }
}

/// When the last perp position of a user can be added. What ended the calculation of the
/// other positions ends this one too. Otherwise an error in what is asked, or of the program,
/// is the outcome; there is none where nothing can be asked, the quote market of an isolated
/// position is unknown, or a number does not fit. The isolated calculations change by an
/// isolated position only.
pub proof fn law_last_perp_position(a: MarginInput, b: MarginInput, place: int)
    requires
        perp_removed(a, b, place),
        forall|j: int| place < j < 8 ==> (#[trigger] a.user.perp_positions[j]).available,
    ensures
        match b.outcome() {
            Some(Ok(without)) => {
                let position = a.user.perp_positions[place];
                let market = a.market_state.perp_markets@[position.market_index];
                let buffer = a.margin_buffer;
                match (a.perp_request(place), a.figures.perp[place]) {
                    (None, _) => a.outcome() is None,
                    (Some(Err(error)), _) => a.outcome() == Some(
                        Err::<SimplifiedView, ErrorCode>(error),
                    ),
                    (Some(Ok(_)), Err(code)) => a.outcome() == Some(
                        Err::<SimplifiedView, ErrorCode>(ErrorCode::Program(code)),
                    ),
                    (Some(Ok(_)), Ok(given)) => {
                        let pnl = given.weighted_pnl;
                        let buffered = given.margin_requirement + given.worst_case_liability_value
                            * buffer / 10_000;
                        let loss = if pnl < 0 {
                            -(-(pnl * buffer) / 10_000)
                        } else {
                            0
                        };
                        let shares_fit = given.worst_case_liability_value * buffer <= u128::MAX && (
                        pnl < 0 ==> pnl * buffer >= i128::MIN);
                        &&& a.outcome() is Some <==> shares_fit && if position.isolated {
                            &&& a.market_state.spot_markets@.contains_key(
                                market.quote_spot_market_index,
                            )
                            &&& i128::MIN <= given.deposit_value + pnl <= i128::MAX
                            &&& buffer == 0 || buffered <= u128::MAX
                        } else {
                            sums_fit(
                                without.totals.collateral + pnl,
                                without.totals.collateral_buffer + loss,
                                without.totals.requirement + given.margin_requirement,
                                without.totals.requirement_plus_buffer + buffered,
                            )
                        }
                        &&& a.outcome() is Some ==> (a.outcome()->0 matches Ok(with) && {
                            &&& with.with_spot_isolated_liability
                                == without.with_spot_isolated_liability
                            &&& position.isolated ==> with.totals == without.totals
                            &&& !position.isolated ==> with.isolated == without.isolated
                        })
                    },
                }
            },
            ended => a.outcome() == ended,
        },
{
    lemma_perp_steps_without(a, b, place, 8);
    if let Ok(given) = a.figures.perp[place] {
        lemma_share_is_positive(abs(given.weighted_pnl as int), a.margin_buffer);
        lemma_share_is_positive(given.worst_case_liability_value as int, a.margin_buffer);
    }
}

/// When the last spot position of a user without perp positions can be added. What ended the
/// calculation of the other positions ends this one too. Otherwise an error in what is asked,
/// or of the program, is the outcome; there is none where nothing can be asked, or a number
/// does not fit, be it with the tokens alone or with the open orders.
pub proof fn law_last_spot_position(a: MarginInput, b: MarginInput, place: int)
    requires
        spot_removed(a, b, place),
        forall|j: int| place < j < 8 ==> (#[trigger] a.user.spot_positions[j]).available,
        forall|j: int| 0 <= j < 8 ==> (#[trigger] a.user.perp_positions[j]).available,
    ensures
        match b.outcome() {
            Some(Ok(without)) => {
                let position = a.user.spot_positions[place];
                let market = a.market_state.spot_markets@[position.market_index];
                let buffer = a.margin_buffer;
                match (a.spot_request(place), a.figures.spot[place]) {
                    (None, _) => a.outcome() is None,
                    (Some(Err(error)), _) => a.outcome() == Some(
                        Err::<SimplifiedView, ErrorCode>(error),
                    ),
                    (Some(Ok(_)), Err(code)) => a.outcome() == Some(
                        Err::<SimplifiedView, ErrorCode>(ErrorCode::Program(code)),
                    ),
                    (Some(Ok(_)), Ok(given)) => {
                        let plain = market.market_index == 0 && !position.has_open_order
                            && position.open_orders == 0 && !(position.balance_type
                            == SpotBalanceType::Borrow && a.margin_type
                            == MarginRequirementType::Initial && a.user.max_margin_ratio != 0);
                        let is_asset = if plain {
                            position.balance_type == SpotBalanceType::Deposit
                        } else {
                            given.token_value > 0
                        };
                        let is_liability = if plain {
                            position.balance_type == SpotBalanceType::Borrow
                        } else {
                            given.token_value < 0
                        };
                        let value = if plain {
                            given.token_value as int
                        } else {
                            given.weighted_token_value as int
                        };
                        let size = if value < 0 {
                            -value
                        } else {
                            value
                        };
                        let token_size = if given.token_value < 0 {
                            -given.token_value
                        } else {
                            given.token_value as int
                        };
                        let orders = if plain {
                            0
                        } else {
                            given.orders_value as int
                        };
                        let collateral = without.totals.collateral + if is_asset {
                            value
                        } else {
                            0
                        };
                        let requirement = without.totals.requirement + position.open_orders * 10_000
                            + if is_liability {
                            size
                        } else {
                            0
                        };
                        let buffered = without.totals.requirement_plus_buffer + if is_liability {
                            size + token_size * buffer / 10_000
                        } else {
                            0
                        };
                        let unchanged = without.totals.collateral_buffer;
                        &&& a.outcome() is Some <==> {
                            &&& is_liability ==> token_size * buffer <= u128::MAX
                            &&& orders < 0 ==> -orders * buffer <= u128::MAX
                            &&& sums_fit(collateral, unchanged, requirement, buffered)
                            &&& orders > 0 ==> sums_fit(
                                collateral + orders,
                                unchanged,
                                requirement,
                                buffered,
                            )
                            &&& orders < 0 ==> sums_fit(
                                collateral,
                                unchanged,
                                requirement - orders,
                                buffered - orders + -orders * buffer / 10_000,
                            )
                        }
                        &&& a.outcome() is Some ==> (a.outcome()->0 matches Ok(with) && {
                            &&& with.with_perp_isolated_liability
                                == without.with_perp_isolated_liability
                            &&& with.isolated == without.isolated
                        })
                    },
                }
            },
            ended => a.outcome() == ended,
        },
{
    lemma_spot_steps_without(a, b, place, 8);
    lemma_only_spot_steps(a, 8);
    assert forall|j: int| 0 <= j < 8 implies (#[trigger] b.user.perp_positions[j]).available by {
        assert(a.user.perp_positions[j] == b.user.perp_positions[j]);
    }
    lemma_only_spot_steps(b, 8);
    if let Ok(given) = a.figures.spot[place] {
        lemma_share_is_positive(abs(given.token_value as int), a.margin_buffer);
        lemma_share_is_positive(abs(given.orders_value as int), a.margin_buffer);
    }
}

/// What is asked for the positions of a user is asked under the user's own margin ratio for
/// initial margin, and under none for any other, and in the user's leverage mode.
pub proof fn law_requests_are_of_user(input: MarginInput, place: int)
    requires
        0 <= place < 8,
    ensures
        ({
            let ratio = if input.margin_type == MarginRequirementType::Initial {
                input.user.max_margin_ratio
            } else {
                0
            };
            &&& input.spot_request(place) == requested_spot(
                input.user.spot_positions[place],
                input.market_state,
                input.margin_type,
                ratio,
            )
            &&& input.perp_request(place) == requested_perp(
                input.user.perp_positions[place],
                input.market_state,
                input.margin_type,
                ratio,
                input.user.high_leverage_mode,
            )
        }),
{
}

} // verus!
