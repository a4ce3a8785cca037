//! What a one-off calculation reads of the user, and what it keeps of each position.
use vstd::prelude::*;

use crate::laws::agreement::incremental_of;
use crate::laws::sums::{lemma_perp_prefix, lemma_spot_prefix};
use crate::margin::incremental::{IncrementalInput, IncrementalSettings, IncrementalView};
use crate::margin::simplified::{isolated_entry, no_positions, MarginInput};
use crate::margin::IsolatedMarginCalculation;
use crate::protocol::{MarginRequirementType, User};
use crate::table::{first_place, lemma_first_place};

verus! {

/// Whether two calculations differ in nothing but the slots without a position.
pub open spec fn same_positions(a: MarginInput, b: MarginInput) -> bool {
    &&& a.market_state == b.market_state
    &&& a.margin_type == b.margin_type
    &&& a.margin_buffer == b.margin_buffer
    &&& a.user.max_margin_ratio == b.user.max_margin_ratio
    &&& a.user.pool_id == b.user.pool_id
    &&& a.user.high_leverage_mode == b.user.high_leverage_mode
    &&& forall|i: int|
        #![trigger a.user.spot_positions[i]]
        #![trigger b.user.spot_positions[i]]
        0 <= i < 8 ==> {
            ||| a.user.spot_positions[i].available && b.user.spot_positions[i].available
            ||| {
                &&& a.user.spot_positions[i] == b.user.spot_positions[i]
                &&& a.figures.spot[i] == b.figures.spot[i]
            }
        }
    &&& forall|i: int|
        #![trigger a.user.perp_positions[i]]
        #![trigger b.user.perp_positions[i]]
        0 <= i < 8 ==> {
            ||| a.user.perp_positions[i].available && b.user.perp_positions[i].available
            ||| {
                &&& a.user.perp_positions[i] == b.user.perp_positions[i]
                &&& a.figures.perp[i] == b.figures.perp[i]
            }
        }
}

proof fn lemma_same_spot(a: MarginInput, b: MarginInput, count: nat)
    requires
        count <= 8,
        same_positions(a, b),
    ensures
        a.after_spot(count) == b.after_spot(count),
    decreases count,
{
    if count > 0 {
        lemma_same_spot(a, b, (count - 1) as nat);
    }
}

proof fn lemma_same_perp(a: MarginInput, b: MarginInput, count: nat)
    requires
        count <= 8,
        same_positions(a, b),
    ensures
        a.after_perp(count) == b.after_perp(count),
    decreases count,
{
    if count == 0 {
        lemma_same_spot(a, b, 8);
    } else {
        lemma_same_perp(a, b, (count - 1) as nat);
    }
}

/// What stands in a slot without a position, and the figures given for it, change
/// nothing.
pub proof fn law_available_slots_do_not_count(a: MarginInput, b: MarginInput)
    requires
        same_positions(a, b),
    ensures
        a.outcome() == b.outcome(),
{
    lemma_same_perp(a, b, 8);
}

/// The same calculation in or out of high leverage mode.
pub open spec fn with_high_leverage_mode(
    input: MarginInput,
    high_leverage_mode: bool,
) -> MarginInput {
    MarginInput { user: User { high_leverage_mode, ..input.user }, ..input }
}

proof fn lemma_spot_without_mode(input: MarginInput, mode: bool, count: nat)
    requires
        count <= 8,
    ensures
        with_high_leverage_mode(input, mode).after_spot(count) == input.after_spot(count),
    decreases count,
{
    if count > 0 {
        lemma_spot_without_mode(input, mode, (count - 1) as nat);
    }
}

/// High leverage mode changes neither what is asked for the spot positions nor what
/// they add up to.
pub proof fn law_high_leverage_mode_leaves_spot(input: MarginInput, mode: bool)
    ensures
        with_high_leverage_mode(input, mode).after_spot(8) == input.after_spot(8),
        forall|i: int|
            0 <= i < 8 ==> #[trigger] with_high_leverage_mode(input, mode).spot_request(i)
                == input.spot_request(i),
{
    lemma_spot_without_mode(input, mode, 8);
}

/// The same calculation with another margin ratio of the user's.
pub open spec fn with_margin_ratio(input: MarginInput, max_margin_ratio: u32) -> MarginInput {
    MarginInput { user: User { max_margin_ratio, ..input.user }, ..input }
}

proof fn lemma_spot_without_ratio(input: MarginInput, ratio: u32, count: nat)
    requires
        count <= 8,
        input.margin_type != MarginRequirementType::Initial,
    ensures
        with_margin_ratio(input, ratio).after_spot(count) == input.after_spot(count),
    decreases count,
{
    if count > 0 {
        lemma_spot_without_ratio(input, ratio, (count - 1) as nat);
    }
}

proof fn lemma_perp_without_ratio(input: MarginInput, ratio: u32, count: nat)
    requires
        count <= 8,
        input.margin_type != MarginRequirementType::Initial,
    ensures
        with_margin_ratio(input, ratio).after_perp(count) == input.after_perp(count),
    decreases count,
{
    if count == 0 {
        lemma_spot_without_ratio(input, ratio, 8);
    } else {
        lemma_perp_without_ratio(input, ratio, (count - 1) as nat);
    }
}

/// A margin ratio of the user's own counts for initial margin only: for any other kind
/// it changes neither what is asked for the positions nor the outcome, and an
/// incremental calculation has the same settings.
pub proof fn law_margin_ratio_is_for_initial_margin(
    input: MarginInput,
    ratio: u32,
    timestamp: u64,
)
    requires
        input.margin_type != MarginRequirementType::Initial,
    ensures
        with_margin_ratio(input, ratio).outcome() == input.outcome(),
        forall|i: int|
            0 <= i < 8 ==> #[trigger] with_margin_ratio(input, ratio).spot_request(i)
                == input.spot_request(i),
        forall|i: int|
            0 <= i < 8 ==> #[trigger] with_margin_ratio(input, ratio).perp_request(i)
                == input.perp_request(i),
        incremental_of(with_margin_ratio(input, ratio), timestamp).settings == incremental_of(
            input,
            timestamp,
        ).settings,
{
    lemma_perp_without_ratio(input, ratio, 8);
}

/// The same calculation of a user in another pool.
pub open spec fn with_pool(input: MarginInput, pool_id: u8) -> MarginInput {
    MarginInput { user: User { pool_id, ..input.user }, ..input }
}

/// The same full incremental calculation of a user in another pool.
pub open spec fn incremental_with_pool(input: IncrementalInput, pool_id: u8) -> IncrementalInput {
    IncrementalInput {
        settings: IncrementalSettings { user_pool_id: pool_id, ..input.settings },
        user: User { pool_id, ..input.user },
        ..input
    }
}

/// An incremental calculation under the settings of another pool.
pub open spec fn view_with_pool(c: IncrementalView, pool_id: u8) -> IncrementalView {
    IncrementalView {
        settings: IncrementalSettings { user_pool_id: pool_id, ..c.settings },
        ..c
    }
}

proof fn lemma_spot_without_pool(input: MarginInput, pool_id: u8, count: nat)
    requires
        count <= 8,
    ensures
        with_pool(input, pool_id).after_spot(count) == input.after_spot(count),
    decreases count,
{
    if count > 0 {
        lemma_spot_without_pool(input, pool_id, (count - 1) as nat);
    }
}

proof fn lemma_perp_without_pool(input: MarginInput, pool_id: u8, count: nat)
    requires
        count <= 8,
    ensures
        with_pool(input, pool_id).after_perp(count) == input.after_perp(count),
    decreases count,
{
    if count == 0 {
        lemma_spot_without_pool(input, pool_id, 8);
    } else {
        lemma_perp_without_pool(input, pool_id, (count - 1) as nat);
    }
}

spec fn same_but_pool(
    a: Option<IncrementalView>,
    b: Option<IncrementalView>,
    pool_id: u8,
) -> bool {
    match (a, b) {
        (Some(a), Some(b)) => b == view_with_pool(a, pool_id),
        (None, None) => true,
        _ => false,
    }
}

proof fn lemma_incremental_spot_without_pool(input: IncrementalInput, pool_id: u8, count: nat)
    requires
        count <= 8,
    ensures
        same_but_pool(
            input.after_spot(count),
            incremental_with_pool(input, pool_id).after_spot(count),
            pool_id,
        ),
    decreases count,
{
    if count > 0 {
        lemma_incremental_spot_without_pool(input, pool_id, (count - 1) as nat);
    }
}

proof fn lemma_incremental_perp_without_pool(input: IncrementalInput, pool_id: u8, count: nat)
    requires
        count <= 8,
    ensures
        same_but_pool(
            input.after_perp(count),
            incremental_with_pool(input, pool_id).after_perp(count),
            pool_id,
        ),
    decreases count,
{
    if count == 0 {
        lemma_incremental_spot_without_pool(input, pool_id, 8);
    } else {
        lemma_incremental_perp_without_pool(input, pool_id, (count - 1) as nat);
    }
}

/// The pool of a user changes nothing: a position counts the same in every pool, in the
/// one-off and in the incremental calculation.
pub proof fn law_pool_changes_nothing(
    input: MarginInput,
    incremental: IncrementalInput,
    pool_id: u8,
)
    ensures
        with_pool(input, pool_id).outcome() == input.outcome(),
        incremental_with_pool(incremental, pool_id).outcome() == match incremental.outcome() {
            Some(c) => Some(view_with_pool(c, pool_id)),
            None => None,
        },
{
    lemma_perp_without_pool(input, pool_id, 8);
    lemma_incremental_perp_without_pool(incremental, pool_id, 8);
}

/// The calculation of the isolated perp position at `place`.
pub open spec fn isolated_of(input: MarginInput, place: int) -> IsolatedMarginCalculation {
    isolated_entry(
        input.user.perp_positions[place],
        input.figures.perp[place]->Ok_0,
        input.margin_buffer,
    )->0
}

/// Whether there is an isolated perp position at `place`, with a requirement or with
/// collateral.
pub open spec fn is_isolated_at(input: MarginInput, place: int) -> bool {
    let position = input.user.perp_positions[place];
    !position.available && position.isolated && !isolated_of(input, place).empty()
}

pub(crate) proof fn lemma_isolated_free_after_spot(input: MarginInput, count: nat)
    requires
        count <= 8,
        input.after_spot(count) matches Some(Ok(_)),
    ensures
        input.after_spot(count)->0->Ok_0.isolated == no_positions().isolated,
    decreases count,
{
    if count > 0 {
        lemma_spot_prefix(input, (count - 1) as nat, count);
        lemma_isolated_free_after_spot(input, (count - 1) as nat);
    }
}

proof fn lemma_isolated_kept(input: MarginInput, count: nat)
    requires
        count <= 8,
        input.after_perp(count) matches Some(Ok(_)),
    ensures
        ({
            let isolated = input.after_perp(count)->0->Ok_0.isolated;
            &&& isolated.len() == 8
            &&& forall|k: int| count <= k < 8 ==> (#[trigger] isolated[k]).empty()
            &&& forall|i: int|
                0 <= i < count && #[trigger] is_isolated_at(input, i) ==> isolated.contains(
                    isolated_of(input, i),
                )
            &&& forall|k: int|
                0 <= k < 8 && !(#[trigger] isolated[k]).empty() ==> exists|i: int|
                    0 <= i < count && #[trigger] is_isolated_at(input, i) && isolated[k]
                        == isolated_of(input, i)
        }),
    decreases count,
{
    if count == 0 {
        lemma_isolated_free_after_spot(input, 8);
    } else {
        let less = (count - 1) as nat;
        lemma_perp_prefix(input, less, count);
        lemma_isolated_kept(input, less);
        let b = input.after_perp(less)->0->Ok_0.isolated;
        let c = input.after_perp(count)->0->Ok_0.isolated;
        let position = input.user.perp_positions[count - 1];
        if !position.available && position.isolated {
            let free = |e: IsolatedMarginCalculation| e.empty();
            lemma_first_place(b, free, 0);
            assert(b[less as int].empty());
            let place = first_place(b, free, 0)->0;
            assert(free(b[less as int]));
            assert(place <= less);
            let entry = isolated_of(input, count - 1);
            assert(c == b.update(place, entry));
            assert(c[place] == entry);
            assert forall|i: int| 0 <= i < count && #[trigger] is_isolated_at(input, i) implies
                c.contains(isolated_of(input, i)) by {
                if i < less {
                    let k = choose|k: int| 0 <= k < b.len() && b[k] == isolated_of(input, i);
                    assert(free(b[place]));
                    assert(k != place);
                    assert(c[k] == b[k]);
                }
            }
            assert forall|k: int| 0 <= k < 8 && !(#[trigger] c[k]).empty() implies exists|i: int|
                0 <= i < count && #[trigger] is_isolated_at(input, i) && c[k] == isolated_of(
                    input,
                    i,
                ) by {
                if k == place {
                    assert(is_isolated_at(input, count - 1));
                } else {
                    assert(c[k] == b[k]);
                    let i = choose|i: int|
                        0 <= i < less && #[trigger] is_isolated_at(input, i) && b[k]
                            == isolated_of(input, i);
                    assert(is_isolated_at(input, i));
                }
            }
        } else {
            assert(b == c);
            assert(!is_isolated_at(input, count - 1));
        }
    }
}

/// The table of isolated calculations has room for every isolated position: each with
/// a requirement or collateral is in it, and nothing else is.
pub proof fn law_isolated_positions_are_kept(input: MarginInput)
    requires
        input.outcome() matches Some(Ok(_)),
    ensures
        ({
            let isolated = input.outcome()->0->Ok_0.isolated;
            &&& forall|i: int|
                0 <= i < 8 && #[trigger] is_isolated_at(input, i) ==> isolated.contains(
                    isolated_of(input, i),
                )
            &&& forall|k: int|
                0 <= k < 8 && !(#[trigger] isolated[k]).empty() ==> exists|i: int|
                    0 <= i < 8 && #[trigger] is_isolated_at(input, i) && isolated[k]
                        == isolated_of(input, i)
        }),
{
    lemma_isolated_kept(input, 8);
}

} // verus!
