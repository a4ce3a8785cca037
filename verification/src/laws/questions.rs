//! What the questions about a calculation answer, in its numbers.
//!
//! A requirement up to the largest `i128` is taken as it is. A larger one is read as a signed
//! number, which is `2^128` less.
use vstd::prelude::*;

use crate::arith::{clamp_i128, signed_bits};
use crate::margin::incremental::{IncrementalMarginCalculation, IncrementalView};
use crate::margin::totals::Amounts;
use crate::margin::{IsolatedMarginCalculation, SimplifiedMarginCalculation, SimplifiedView};
use crate::table::lemma_first_place;

verus! {

/// `number` is `sum` where that is an `i128`, and the nearest `i128` where it is not.
pub open spec fn is_saturated(number: int, sum: int) -> bool {
    &&& i128::MIN <= sum <= i128::MAX ==> number == sum
    &&& sum > i128::MAX ==> number == i128::MAX
    &&& sum < i128::MIN ==> number == i128::MIN
}

/// `number` is the amount `requirement` read as a signed number.
pub open spec fn is_read_signed(number: int, requirement: int) -> bool {
    if requirement <= i128::MAX {
        number == requirement
    } else {
        number == requirement - u128::MAX - 1
    }
}

/// How the numbers of a calculation are read: a requirement beyond the largest `i128` as a
/// negative number, a sum beyond the bounds as the bound.
pub proof fn law_numbers_are_read(requirement: u128, sum: int)
    ensures
        is_read_signed(signed_bits(requirement as int), requirement as int),
        is_saturated(clamp_i128(sum), sum),
{
}

/// An isolated position is empty with neither a requirement nor collateral. It is covered
/// where its collateral is at least its requirement; with the buffers, where the collateral
/// with its buffer is at least the buffered requirement. Its shortage is what is missing to
/// the latter.
pub proof fn law_isolated_questions(calc: IsolatedMarginCalculation)
    ensures
        calc.empty() <==> calc.margin_requirement == 0 && calc.total_collateral == 0,
        is_saturated(
            calc.collateral_plus_buffer(),
            calc.total_collateral + calc.total_collateral_buffer,
        ),
        calc.margin_requirement <= i128::MAX ==> (calc.covered() <==> calc.total_collateral
            >= calc.margin_requirement),
        calc.margin_requirement > i128::MAX ==> (calc.covered() <==> calc.total_collateral
            >= calc.margin_requirement - u128::MAX - 1),
        calc.margin_requirement_plus_buffer <= i128::MAX ==> (calc.covered_with_buffer()
            <==> calc.total_collateral + calc.total_collateral_buffer
            >= calc.margin_requirement_plus_buffer),
        calc.margin_requirement_plus_buffer > i128::MAX ==> (calc.covered_with_buffer()
            <==> calc.collateral_plus_buffer() >= calc.margin_requirement_plus_buffer - u128::MAX
            - 1),
        calc.margin_requirement_plus_buffer <= i128::MAX && calc.total_collateral
            + calc.total_collateral_buffer >= calc.margin_requirement_plus_buffer
            ==> calc.shortage() == 0,
        calc.margin_requirement_plus_buffer <= i128::MAX && calc.total_collateral
            + calc.total_collateral_buffer < calc.margin_requirement_plus_buffer ==> is_saturated(
            calc.shortage(),
            calc.margin_requirement_plus_buffer - calc.collateral_plus_buffer(),
        ),
        calc.margin_requirement_plus_buffer > i128::MAX && calc.collateral_plus_buffer()
            >= calc.margin_requirement_plus_buffer - u128::MAX - 1 ==> calc.shortage() == 0,
        calc.margin_requirement_plus_buffer > i128::MAX && calc.collateral_plus_buffer()
            < calc.margin_requirement_plus_buffer - u128::MAX - 1 ==> is_saturated(
            calc.shortage(),
            calc.margin_requirement_plus_buffer - u128::MAX - 1 - calc.collateral_plus_buffer(),
        ),
{
}

/// The free collateral is the collateral less the requirement; with the buffers, the
/// collateral with its buffer less the buffered requirement. The cross margin is covered where
/// nothing is missing.
pub proof fn law_cross_questions(c: SimplifiedView)
    ensures
        c.totals.requirement <= i128::MAX ==> {
            &&& c.free_collateral() == c.totals.collateral - c.totals.requirement
            &&& c.cross_covered() <==> c.totals.collateral >= c.totals.requirement
        },
        c.totals.requirement > i128::MAX ==> {
            &&& c.free_collateral() == c.totals.collateral - c.totals.requirement + u128::MAX + 1
            &&& c.cross_covered() <==> c.totals.collateral >= c.totals.requirement - u128::MAX - 1
        },
        is_saturated(
            c.collateral_plus_buffer(),
            c.totals.collateral + c.totals.collateral_buffer,
        ),
        c.totals.requirement_plus_buffer <= i128::MAX ==> {
            &&& c.free_collateral_with_buffer() == c.collateral_plus_buffer()
                - c.totals.requirement_plus_buffer
            &&& c.cross_covered_with_buffer() <==> c.collateral_plus_buffer()
                >= c.totals.requirement_plus_buffer
        },
        c.totals.requirement_plus_buffer > i128::MAX ==> {
            &&& c.free_collateral_with_buffer() == c.collateral_plus_buffer()
                - c.totals.requirement_plus_buffer + u128::MAX + 1
            &&& c.cross_covered_with_buffer() <==> c.collateral_plus_buffer()
                >= c.totals.requirement_plus_buffer - u128::MAX - 1
        },
{
}

/// A calculation is covered, with or without the buffers, exactly where its cross margin is and
/// so is every isolated calculation with a requirement or collateral.
pub proof fn law_every_margin_counts(c: SimplifiedView)
    ensures
        c.covered() <==> c.cross_covered() && forall|i: int|
            0 <= i < c.isolated.len() && ((#[trigger] c.isolated[i]).margin_requirement != 0
                || c.isolated[i].total_collateral != 0) ==> c.isolated[i].covered(),
        c.covered_with_buffer() <==> c.cross_covered_with_buffer() && forall|i: int|
            0 <= i < c.isolated.len() && ((#[trigger] c.isolated[i]).margin_requirement != 0
                || c.isolated[i].total_collateral != 0) ==> c.isolated[i].covered_with_buffer(),
{
}

/// A calculation is covered exactly where the cross margin and every isolated calculation
/// with a requirement or collateral is: the collateral of each is at least its requirement.
pub proof fn law_covered_is_all_covered(c: SimplifiedView)
    requires
        0 <= c.totals.requirement <= i128::MAX,
        forall|i: int|
            0 <= i < c.isolated.len() ==> (#[trigger] c.isolated[i]).margin_requirement
                <= i128::MAX,
    ensures
        c.covered() <==> c.totals.collateral >= c.totals.requirement && forall|i: int|
            0 <= i < c.isolated.len() && ((#[trigger] c.isolated[i]).margin_requirement != 0
                || c.isolated[i].total_collateral != 0) ==> c.isolated[i].total_collateral
                >= c.isolated[i].margin_requirement,
{
    if c.covered() {
        assert forall|i: int|
            0 <= i < c.isolated.len() && ((#[trigger] c.isolated[i]).margin_requirement != 0
                || c.isolated[i].total_collateral != 0) implies c.isolated[i].total_collateral
            >= c.isolated[i].margin_requirement by {
            law_isolated_questions(c.isolated[i]);
        }
    } else {
        law_cross_questions(c);
        if c.cross_covered() {
            let i = choose|i: int|
                0 <= i < c.isolated.len() && !((#[trigger] c.isolated[i]).empty()
                    || c.isolated[i].covered());
            law_isolated_questions(c.isolated[i]);
        }
    }
}

/// A calculation is covered with the buffers exactly where the cross margin and every isolated
/// calculation with a requirement or collateral is: the collateral of each with its buffer is
/// at least its requirement with the buffer, so that no isolated position has a shortage.
pub proof fn law_covered_with_buffer_is_all_covered(c: SimplifiedView)
    requires
        0 <= c.totals.requirement_plus_buffer <= i128::MAX,
        forall|i: int|
            0 <= i < c.isolated.len() ==> (
            #[trigger] c.isolated[i]).margin_requirement_plus_buffer <= i128::MAX,
    ensures
        c.covered_with_buffer() <==> c.totals.collateral + c.totals.collateral_buffer
            >= c.totals.requirement_plus_buffer && forall|i: int|
            0 <= i < c.isolated.len() && ((#[trigger] c.isolated[i]).margin_requirement != 0
                || c.isolated[i].total_collateral != 0) ==> c.isolated[i].total_collateral
                + c.isolated[i].total_collateral_buffer
                >= c.isolated[i].margin_requirement_plus_buffer,
        c.covered_with_buffer() ==> forall|i: int|
            0 <= i < c.isolated.len() && ((#[trigger] c.isolated[i]).margin_requirement != 0
                || c.isolated[i].total_collateral != 0) ==> c.isolated[i].shortage() == 0,
{
    if c.covered_with_buffer() {
        law_cross_questions(c);
        assert forall|i: int|
            0 <= i < c.isolated.len() && ((#[trigger] c.isolated[i]).margin_requirement != 0
                || c.isolated[i].total_collateral != 0) implies c.isolated[i].total_collateral
            + c.isolated[i].total_collateral_buffer >= c.isolated[i].margin_requirement_plus_buffer
            && c.isolated[i].shortage() == 0 by {
            law_isolated_questions(c.isolated[i]);
        }
    } else {
        law_cross_questions(c);
        if c.cross_covered_with_buffer() {
            let i = choose|i: int|
                0 <= i < c.isolated.len() && !((#[trigger] c.isolated[i]).empty()
                    || c.isolated[i].covered_with_buffer());
            law_isolated_questions(c.isolated[i]);
        }
    }
}

/// The calculation of a market is the first with its index and a requirement or collateral,
/// and there is none exactly where no calculation is so.
pub proof fn law_isolated_calculation_of_market(c: SimplifiedView, market_index: u16)
    ensures
        match c.isolated_place(market_index) {
            Some(place) => {
                &&& 0 <= place < c.isolated.len()
                &&& c.isolated[place].market_index == market_index
                &&& c.isolated[place].margin_requirement != 0
                    || c.isolated[place].total_collateral != 0
                &&& forall|i: int|
                    0 <= i < place && (#[trigger] c.isolated[i]).market_index == market_index
                        ==> c.isolated[i].margin_requirement == 0
                        && c.isolated[i].total_collateral == 0
            },
            None => forall|i: int|
                0 <= i < c.isolated.len() && (#[trigger] c.isolated[i]).market_index
                    == market_index ==> c.isolated[i].margin_requirement == 0
                    && c.isolated[i].total_collateral == 0,
        },
{
    let wanted = |calc: IsolatedMarginCalculation| calc.is_for(market_index);
    lemma_first_place(c.isolated, wanted, 0);
    assert forall|i: int| 0 <= i < c.isolated.len() implies wanted(#[trigger] c.isolated[i]) == (
    c.isolated[i].market_index == market_index && (c.isolated[i].margin_requirement != 0
        || c.isolated[i].total_collateral != 0)) by {}
}

/// The questions about an incremental calculation are answered from its sums like those about
/// a one-off calculation.
pub proof fn law_incremental_questions(c: IncrementalView)
    ensures
        c.totals.requirement <= i128::MAX ==> c.free_collateral() == c.totals.collateral
            - c.totals.requirement,
        c.totals.requirement > i128::MAX ==> c.free_collateral() == c.totals.collateral
            - c.totals.requirement + u128::MAX + 1,
        is_saturated(
            c.collateral_plus_buffer(),
            c.totals.collateral + c.totals.collateral_buffer,
        ),
        c.totals.requirement_plus_buffer <= i128::MAX ==> c.free_collateral_with_buffer()
            == c.collateral_plus_buffer() - c.totals.requirement_plus_buffer,
        c.totals.requirement_plus_buffer > i128::MAX ==> c.free_collateral_with_buffer()
            == c.collateral_plus_buffer() - c.totals.requirement_plus_buffer + u128::MAX + 1,
{
}

/// What is said of a calculation is said of its own fields, each of its own.
pub proof fn law_views_are_of_fields(
    one_off: SimplifiedMarginCalculation,
    incremental: IncrementalMarginCalculation,
    amounts: Amounts,
)
    ensures
        one_off@.totals.collateral == one_off.total_collateral,
        one_off@.totals.collateral_buffer == one_off.total_collateral_buffer,
        one_off@.totals.requirement == one_off.margin_requirement,
        one_off@.totals.requirement_plus_buffer == one_off.margin_requirement_plus_buffer,
        one_off@.isolated == one_off.isolated_margin_calculations@,
        one_off@.with_perp_isolated_liability == one_off.with_perp_isolated_liability,
        one_off@.with_spot_isolated_liability == one_off.with_spot_isolated_liability,
        incremental@.totals.collateral == incremental.total_collateral,
        incremental@.totals.collateral_buffer == incremental.total_collateral_buffer,
        incremental@.totals.requirement == incremental.margin_requirement,
        incremental@.totals.requirement_plus_buffer == incremental.margin_requirement_plus_buffer,
        incremental@.spot == incremental.spot_collateral@,
        incremental@.perp == incremental.perp_collateral@,
        incremental@.last_updated == incremental.last_updated,
        incremental@.settings.user_custom_margin_ratio == incremental.user_custom_margin_ratio,
        incremental@.settings.margin_buffer == incremental.margin_buffer,
        incremental@.settings.margin_type == incremental.margin_type,
        incremental@.settings.user_high_leverage_mode == incremental.user_high_leverage_mode,
        incremental@.settings.user_pool_id == incremental.user_pool_id,
        amounts@.collateral == amounts.collateral,
        amounts@.collateral_buffer == amounts.collateral_buffer,
        amounts@.requirement == amounts.requirement,
        amounts@.requirement_plus_buffer == amounts.requirement_plus_buffer,
{
}

} // verus!
