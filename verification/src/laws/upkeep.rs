//! What updates keep of an incremental calculation, and what they undo.
use vstd::prelude::*;

use crate::arith::buffer_share;
use crate::margin::incremental::{
    empty_table, free_place, kept_place, IncrementalInput, IncrementalSettings,
    IncrementalView, PositionCollateral,
};
use crate::margin::totals::MarginTotals;
use crate::protocol::{PerpPosition, SpotPosition};
use crate::table::lemma_first_place;
use crate::types::MarketState;
use crate::valuation::{PerpFigures, SpotFigures};

verus! {

/// What the first `count` entries of a table add up to.
pub open spec fn table_sum(table: Seq<PositionCollateral>, count: nat) -> MarginTotals
    decreases count,
{
    if count == 0 {
        MarginTotals::zero()
    } else {
        table_sum(table, (count - 1) as nat).plus(table[count - 1].amounts())
    }
}

/// Whether an entry that is kept stays until it is replaced or removed: it counts as
/// present, or has nothing in the buffers either. An entry of a time after zero always
/// counts as present.
pub open spec fn lasting(entry: PositionCollateral) -> bool {
    entry.present() || (entry.collateral_buffer == 0 && entry.liability_buffer == 0)
}

/// Whether a table is one of an incremental calculation: it has its eight places, and
/// nothing is in the buffers of a free one.
pub open spec fn well_formed_table(table: Seq<PositionCollateral>) -> bool {
    &&& table.len() == 8
    &&& forall|i: int| 0 <= i < 8 ==> lasting(#[trigger] table[i])
}

/// Whether the four sums are what the kept entries add up to.
pub open spec fn consistent(c: IncrementalView) -> bool {
    &&& well_formed_table(c.spot)
    &&& well_formed_table(c.perp)
    &&& c.totals == table_sum(c.spot, 8).plus(table_sum(c.perp, 8))
}

/// The entry of a spot position is always lasting.
pub(crate) proof fn lemma_spot_entry_lasts(
    c: IncrementalView,
    position: SpotPosition,
    market_state: MarketState,
    timestamp: u64,
    figures: Result<SpotFigures, u32>,
)
    ensures
        c.spot_entry(position, market_state, timestamp, figures) matches Some(Some(entry))
            ==> lasting(entry),
{
    let buffer = c.settings.margin_buffer;
    assert(0 * buffer == 0) by (nonlinear_arith);
    assert(buffer_share(0, buffer) == Some(0int));
}

proof fn lemma_sum_of_update(
    table: Seq<PositionCollateral>,
    place: int,
    entry: PositionCollateral,
    count: nat,
)
    requires
        0 <= place < table.len(),
        count <= table.len(),
    ensures
        table_sum(table.update(place, entry), count) == if place < count {
            table_sum(table, count).minus(table[place].amounts()).plus(entry.amounts())
        } else {
            table_sum(table, count)
        },
    decreases count,
{
    if count > 0 {
        lemma_sum_of_update(table, place, entry, (count - 1) as nat);
    }
}

proof fn lemma_sum_of_empty_table(count: nat)
    requires
        count <= 8,
    ensures
        table_sum(empty_table(), count) == MarginTotals::zero(),
    decreases count,
{
    if count > 0 {
        lemma_sum_of_empty_table((count - 1) as nat);
    }
}

pub(crate) proof fn lemma_places(table: Seq<PositionCollateral>, market_index: u16)
    requires
        table.len() == 8,
    ensures
        kept_place(table, market_index) matches Some(place) ==> 0 <= place < 8
            && table[place].is_for(market_index),
        kept_place(table, market_index) is None ==> forall|i: int|
            0 <= i < 8 ==> !(#[trigger] table[i]).is_for(market_index),
        free_place(table) matches Some(place) ==> 0 <= place < 8 && !table[place].present(),
        free_place(table) is None ==> forall|i: int|
            0 <= i < 8 ==> (#[trigger] table[i]).present(),
        forall|i: int|
            0 <= i < 8 && !(#[trigger] table[i]).present() ==> free_place(table) is Some
                && free_place(table)->0 <= i,
{
    let wanted = |e: PositionCollateral| e.is_for(market_index);
    let free = |e: PositionCollateral| !e.present();
    lemma_first_place(table, wanted, 0);
    lemma_first_place(table, free, 0);
    assert forall|i: int|
        0 <= i < 8 && kept_place(table, market_index) is None implies !(
    #[trigger] table[i]).is_for(market_index) by {
        assert(wanted(table[i]) == table[i].is_for(market_index));
    }
    assert forall|i: int| 0 <= i < 8 && free_place(table) is None implies (
    #[trigger] table[i]).present() by {
        assert(free(table[i]) == !table[i].present());
    }
    assert forall|i: int| 0 <= i < 8 && !(#[trigger] table[i]).present() implies free_place(
        table,
    ) is Some && free_place(table)->0 <= i by {
        assert(free(table[i]));
    }
}

/// A calculation without positions is consistent.
pub proof fn law_start_is_consistent(settings: IncrementalSettings, last_updated: u64)
    ensures
        consistent(IncrementalView::start(settings, last_updated)),
{
    lemma_sum_of_empty_table(8);
}

/// Updating a spot position keeps a calculation consistent while its table has room for
/// the position.
///
/// Where a ninth position is added, its amounts are in the sums and in no entry.
pub proof fn law_spot_update_keeps_consistency(
    before: IncrementalView,
    position: SpotPosition,
    market_state: MarketState,
    timestamp: u64,
    figures: Result<SpotFigures, u32>,
)
    requires
        consistent(before),
        kept_place(before.spot, position.market_index) is Some || free_place(before.spot) is Some
            || position.available,
        before.spot_updated(position, market_state, timestamp, figures) is Some,
    ensures
        consistent(before.spot_updated(position, market_state, timestamp, figures)->0),
{
    let after = before.spot_updated(position, market_state, timestamp, figures)->0;
    lemma_places(before.spot, position.market_index);
    lemma_spot_entry_lasts(before, position, market_state, timestamp, figures);
    if let Some(place) = kept_place(before.spot, position.market_index) {
        lemma_sum_of_update(before.spot, place, after.spot[place], 8);
        assert(after.spot == before.spot.update(place, after.spot[place]));
    } else if let Some(place) = free_place(before.spot) {
        lemma_sum_of_update(before.spot, place, after.spot[place], 8);
        assert(after.spot == before.spot.update(place, after.spot[place]));
    }
}

/// Updating a perp position keeps a calculation consistent while its table has room for
/// the position.
///
/// Where a ninth position is added, its amounts are in the sums and in no entry. At time
/// zero the entry has to be lasting: one that is not is placed over by the next.
pub proof fn law_perp_update_keeps_consistency(
    before: IncrementalView,
    position: PerpPosition,
    market_state: MarketState,
    timestamp: u64,
    figures: Result<PerpFigures, u32>,
)
    requires
        consistent(before),
        kept_place(before.perp, position.market_index) is Some || free_place(before.perp) is Some
            || position.available,
        before.perp_entry(position, market_state, timestamp, figures) matches Some(Some(entry))
            ==> lasting(entry),
        before.perp_updated(position, market_state, timestamp, figures) is Some,
    ensures
        consistent(before.perp_updated(position, market_state, timestamp, figures)->0),
{
    let after = before.perp_updated(position, market_state, timestamp, figures)->0;
    lemma_places(before.perp, position.market_index);
    if let Some(place) = kept_place(before.perp, position.market_index) {
        lemma_sum_of_update(before.perp, place, after.perp[place], 8);
        assert(after.perp == before.perp.update(place, after.perp[place]));
    } else if let Some(place) = free_place(before.perp) {
        lemma_sum_of_update(before.perp, place, after.perp[place], 8);
        assert(after.perp == before.perp.update(place, after.perp[place]));
    }
}

proof fn lemma_full_spot_is_consistent(input: IncrementalInput, count: nat)
    requires
        count <= 8,
        input.after_spot(count) is Some,
    ensures
        consistent(input.after_spot(count)->0),
        forall|k: int|
            count <= k < 8 ==> !(#[trigger] input.after_spot(count)->0.spot[k]).present(),
        input.after_spot(count)->0.perp == empty_table(),
        input.after_spot(count)->0.settings == input.settings,
    decreases count,
{
    if count == 0 {
        law_start_is_consistent(input.settings, input.before);
    } else {
        let less = (count - 1) as nat;
        lemma_full_spot_is_consistent(input, less);
        let before = input.after_spot(less)->0;
        let position = input.user.spot_positions[count - 1];
        if !position.available {
            lemma_places(before.spot, position.market_index);
            assert(!before.spot[less as int].present());
            law_spot_update_keeps_consistency(
                before,
                position,
                input.market_state,
                input.timestamp,
                input.figures.spot[count - 1],
            );
        }
    }
}

/// Whether the entries of all perp positions are lasting.
pub open spec fn lasting_perp_entries(input: IncrementalInput) -> bool {
    forall|i: int|
        #![trigger input.user.perp_positions[i]]
        0 <= i < 8 && !input.user.perp_positions[i].available ==> (IncrementalView::start(
            input.settings,
            input.before,
        ).perp_entry(
            input.user.perp_positions[i],
            input.market_state,
            input.timestamp,
            input.figures.perp[i],
        ) matches Some(Some(entry)) ==> lasting(entry))
}

proof fn lemma_full_perp_is_consistent(input: IncrementalInput, count: nat)
    requires
        count <= 8,
        lasting_perp_entries(input),
        input.after_perp(count) is Some,
    ensures
        consistent(input.after_perp(count)->0),
        forall|k: int|
            count <= k < 8 ==> !(#[trigger] input.after_perp(count)->0.perp[k]).present(),
        input.after_perp(count)->0.settings == input.settings,
    decreases count,
{
    if count == 0 {
        lemma_full_spot_is_consistent(input, 8);
    } else {
        let less = (count - 1) as nat;
        lemma_full_perp_is_consistent(input, less);
        let before = input.after_perp(less)->0;
        let position = input.user.perp_positions[count - 1];
        if !position.available {
            lemma_places(before.perp, position.market_index);
            assert(!before.perp[less as int].present());
            law_perp_update_keeps_consistency(
                before,
                position,
                input.market_state,
                input.timestamp,
                input.figures.perp[count - 1],
            );
        }
    }
}

/// A full calculation is consistent: its tables have room for all positions of a user.
pub proof fn law_full_calculation_is_consistent(input: IncrementalInput)
    requires
        lasting_perp_entries(input),
        input.outcome() is Some,
    ensures
        consistent(input.outcome()->0),
{
    lemma_full_perp_is_consistent(input, 8);
}

/// The same full calculation, begun after another time.
pub open spec fn begun_after(input: IncrementalInput, before: u64) -> IncrementalInput {
    IncrementalInput { before, ..input }
}

spec fn same_but_time(a: Option<IncrementalView>, b: Option<IncrementalView>) -> bool {
    match (a, b) {
        (Some(a), Some(b)) => a == (IncrementalView { last_updated: a.last_updated, ..b }),
        (None, None) => true,
        _ => false,
    }
}

proof fn lemma_spot_forgets(input: IncrementalInput, before: u64, count: nat)
    requires
        count <= 8,
    ensures
        same_but_time(input.after_spot(count), begun_after(input, before).after_spot(count)),
    decreases count,
{
    if count > 0 {
        lemma_spot_forgets(input, before, (count - 1) as nat);
    }
}

proof fn lemma_perp_forgets(input: IncrementalInput, before: u64, count: nat)
    requires
        count <= 8,
    ensures
        same_but_time(input.after_perp(count), begun_after(input, before).after_perp(count)),
    decreases count,
{
    if count == 0 {
        lemma_spot_forgets(input, before, 8);
    } else {
        lemma_perp_forgets(input, before, (count - 1) as nat);
    }
}

/// A full calculation starts from nothing: its outcome does not depend on what was
/// calculated before it under the same settings.
pub proof fn law_full_calculation_starts_anew(input: IncrementalInput, before: u64)
    ensures
        begun_after(input, before).outcome() == input.outcome(),
{
    lemma_perp_forgets(input, before, 8);
}

/// Adding a perp position and then removing it leaves all sums, and every entry, as they
/// were.
///
/// The entry has to be one that counts as present, and the figures have to be there for
/// the removal too.
pub proof fn law_perp_removal_undoes_addition(
    before: IncrementalView,
    position: PerpPosition,
    gone: PerpPosition,
    market_state: MarketState,
    timestamp: u64,
    figures: Result<PerpFigures, u32>,
    later: u64,
    later_figures: Result<PerpFigures, u32>,
)
    requires
        before.perp.len() == 8,
        before.totals.fits(),
        kept_place(before.perp, position.market_index) is None,
        free_place(before.perp) is Some,
        !position.available,
        before.perp_entry(position, market_state, timestamp, figures) matches Some(Some(entry))
            && entry.present(),
        before.perp_updated(position, market_state, timestamp, figures) is Some,
        gone.available,
        gone.market_index == position.market_index,
        before.perp_entry(gone, market_state, later, later_figures) matches Some(Some(_)),
    ensures
        ({
            let added = before.perp_updated(position, market_state, timestamp, figures)->0;
            let removed = added.perp_updated(gone, market_state, later, later_figures);
            let place = free_place(before.perp)->0;
            removed == Some(
                IncrementalView {
                    perp: before.perp.update(place, PositionCollateral::unused()),
                    last_updated: later,
                    ..before
                },
            )
        }),
{
    let added = before.perp_updated(position, market_state, timestamp, figures)->0;
    let removed = added.perp_updated(gone, market_state, later, later_figures);
    let place = free_place(before.perp)->0;
    lemma_places(before.perp, position.market_index);
    lemma_places(added.perp, position.market_index);
    let entry = before.perp_entry(position, market_state, timestamp, figures)->0->0;
    assert(added.perp == before.perp.update(place, entry));
    assert(added.perp[place].is_for(position.market_index));
    let found = kept_place(added.perp, position.market_index)->0;
    assert(found == place) by {
        if found != place {
            assert(added.perp[found] == before.perp[found]);
        }
    }
    assert(added.perp.update(place, PositionCollateral::unused()) =~= before.perp.update(
        place,
        PositionCollateral::unused(),
    ));
    assert(added.totals.minus(entry.amounts()) == before.totals);
}

/// Adding a spot position and then removing it leaves all sums, and every entry, as they
/// were.
///
/// The entry has to be one that counts as present, and the figures have to be there for
/// the removal too.
pub proof fn law_spot_removal_undoes_addition(
    before: IncrementalView,
    position: SpotPosition,
    gone: SpotPosition,
    market_state: MarketState,
    timestamp: u64,
    figures: Result<SpotFigures, u32>,
    later: u64,
    later_figures: Result<SpotFigures, u32>,
)
    requires
        before.spot.len() == 8,
        before.totals.fits(),
        kept_place(before.spot, position.market_index) is None,
        free_place(before.spot) is Some,
        !position.available,
        before.spot_entry(position, market_state, timestamp, figures) matches Some(Some(entry))
            && entry.present(),
        before.spot_updated(position, market_state, timestamp, figures) is Some,
        gone.available,
        gone.market_index == position.market_index,
        before.spot_entry(gone, market_state, later, later_figures) matches Some(Some(_)),
    ensures
        ({
            let added = before.spot_updated(position, market_state, timestamp, figures)->0;
            let removed = added.spot_updated(gone, market_state, later, later_figures);
            let place = free_place(before.spot)->0;
            removed == Some(
                IncrementalView {
                    spot: before.spot.update(place, PositionCollateral::unused()),
                    last_updated: later,
                    ..before
                },
            )
        }),
{
    let added = before.spot_updated(position, market_state, timestamp, figures)->0;
    let removed = added.spot_updated(gone, market_state, later, later_figures);
    let place = free_place(before.spot)->0;
    lemma_places(before.spot, position.market_index);
    lemma_places(added.spot, position.market_index);
    let entry = before.spot_entry(position, market_state, timestamp, figures)->0->0;
    assert(added.spot == before.spot.update(place, entry));
    assert(added.spot[place].is_for(position.market_index));
    let found = kept_place(added.spot, position.market_index)->0;
    assert(found == place) by {
        if found != place {
            assert(added.spot[found] == before.spot[found]);
        }
    }
    assert(added.spot.update(place, PositionCollateral::unused()) =~= before.spot.update(
        place,
        PositionCollateral::unused(),
    ));
    assert(added.totals.minus(entry.amounts()) == before.totals);
}

/// A perp position that is added and then calculated anew is kept and counted as if it
/// had been added with the later figures only.
pub proof fn law_perp_update_replaces(
    before: IncrementalView,
    position: PerpPosition,
    market_state: MarketState,
    timestamp: u64,
    figures: Result<PerpFigures, u32>,
    changed: PerpPosition,
    later_state: MarketState,
    later: u64,
    later_figures: Result<PerpFigures, u32>,
)
    requires
        before.perp.len() == 8,
        before.totals.fits(),
        kept_place(before.perp, position.market_index) is None,
        free_place(before.perp) is Some,
        !position.available,
        before.perp_entry(position, market_state, timestamp, figures) matches Some(Some(entry))
            && entry.present(),
        before.perp_updated(position, market_state, timestamp, figures) is Some,
        !changed.available,
        changed.market_index == position.market_index,
        before.perp_entry(changed, later_state, later, later_figures) matches Some(Some(_)),
    ensures
        before.perp_updated(position, market_state, timestamp, figures)->0.perp_updated(
            changed,
            later_state,
            later,
            later_figures,
        ) == before.perp_updated(changed, later_state, later, later_figures),
{
    let added = before.perp_updated(position, market_state, timestamp, figures)->0;
    let place = free_place(before.perp)->0;
    lemma_places(before.perp, position.market_index);
    lemma_places(added.perp, position.market_index);
    let entry = before.perp_entry(position, market_state, timestamp, figures)->0->0;
    let new_entry = before.perp_entry(changed, later_state, later, later_figures)->0->0;
    assert(added.perp == before.perp.update(place, entry));
    assert(added.perp[place].is_for(position.market_index));
    let found = kept_place(added.perp, position.market_index)->0;
    assert(found == place) by {
        if found != place {
            assert(added.perp[found] == before.perp[found]);
        }
    }
    assert(added.perp.update(place, new_entry) =~= before.perp.update(place, new_entry));
    assert(added.totals.minus(entry.amounts()) == before.totals);
}

/// A spot position that is added and then calculated anew is kept and counted as if it
/// had been added with the later figures only.
pub proof fn law_spot_update_replaces(
    before: IncrementalView,
    position: SpotPosition,
    market_state: MarketState,
    timestamp: u64,
    figures: Result<SpotFigures, u32>,
    changed: SpotPosition,
    later_state: MarketState,
    later: u64,
    later_figures: Result<SpotFigures, u32>,
)
    requires
        before.spot.len() == 8,
        before.totals.fits(),
        kept_place(before.spot, position.market_index) is None,
        free_place(before.spot) is Some,
        !position.available,
        before.spot_entry(position, market_state, timestamp, figures) matches Some(Some(entry))
            && entry.present(),
        before.spot_updated(position, market_state, timestamp, figures) is Some,
        !changed.available,
        changed.market_index == position.market_index,
        before.spot_entry(changed, later_state, later, later_figures) matches Some(Some(_)),
    ensures
        before.spot_updated(position, market_state, timestamp, figures)->0.spot_updated(
            changed,
            later_state,
            later,
            later_figures,
        ) == before.spot_updated(changed, later_state, later, later_figures),
{
    let added = before.spot_updated(position, market_state, timestamp, figures)->0;
    let place = free_place(before.spot)->0;
    lemma_places(before.spot, position.market_index);
    lemma_places(added.spot, position.market_index);
    let entry = before.spot_entry(position, market_state, timestamp, figures)->0->0;
    let new_entry = before.spot_entry(changed, later_state, later, later_figures)->0->0;
    assert(added.spot == before.spot.update(place, entry));
    assert(added.spot[place].is_for(position.market_index));
    let found = kept_place(added.spot, position.market_index)->0;
    assert(found == place) by {
        if found != place {
            assert(added.spot[found] == before.spot[found]);
        }
    }
    assert(added.spot.update(place, new_entry) =~= before.spot.update(place, new_entry));
    assert(added.totals.minus(entry.amounts()) == before.totals);
}

/// Whether the entry that is kept for `market_index` stands behind a free place.
pub open spec fn frees_later_place(table: Seq<PositionCollateral>, market_index: u16) -> bool {
    match (kept_place(table, market_index), free_place(table)) {
        (Some(place), Some(free)) => free < place,
        _ => false,
    }
}

/// Repeating an update of a spot position changes nothing, and no update changes the other
/// table or the settings.
///
/// Two entries for one market and a position for which there is no room are left out, and
/// so is an entry of time zero that counts as absent and either has something in its
/// buffers or takes the place of a kept one behind a free place: each of them is acted
/// upon twice.
pub proof fn law_spot_update_is_idempotent(
    before: IncrementalView,
    position: SpotPosition,
    market_state: MarketState,
    timestamp: u64,
    figures: Result<SpotFigures, u32>,
)
    requires
        before.spot.len() == 8,
        before.totals.fits(),
        forall|i: int, j: int|
            0 <= i < j < 8 && (#[trigger] before.spot[i]).is_for(position.market_index) ==> !(
            #[trigger] before.spot[j]).is_for(position.market_index),
        kept_place(before.spot, position.market_index) is Some || free_place(before.spot) is Some
            || position.available,
        position.available || (before.spot_entry(
            position,
            market_state,
            timestamp,
            figures,
        ) matches Some(Some(entry)) ==> entry.present() || (lasting(entry) && !frees_later_place(
            before.spot,
            position.market_index,
        ))),
        before.spot_updated(position, market_state, timestamp, figures) is Some,
    ensures
        ({
            let once = before.spot_updated(position, market_state, timestamp, figures)->0;
            &&& once.spot_updated(position, market_state, timestamp, figures) == Some(once)
            &&& once.perp == before.perp
            &&& once.settings == before.settings
        }),
{
    let once = before.spot_updated(position, market_state, timestamp, figures)->0;
    lemma_places(before.spot, position.market_index);
    lemma_places(once.spot, position.market_index);
    if let Some(Some(entry)) = before.spot_entry(position, market_state, timestamp, figures) {
        let place = match kept_place(before.spot, position.market_index) {
            Some(place) => place,
            None => free_place(before.spot)->0,
        };
        if position.available {
            if kept_place(before.spot, position.market_index) is Some {
                assert(once.spot == before.spot.update(place, PositionCollateral::unused()));
                assert(kept_place(once.spot, position.market_index) is None) by {
                    if let Some(other) = kept_place(once.spot, position.market_index) {
                        assert(other != place);
                        assert(once.spot[other] == before.spot[other]);
                    }
                }
            }
        } else {
            assert(once.spot == before.spot.update(place, entry));
            if entry.present() {
                assert(once.spot[place].is_for(position.market_index));
                let found = kept_place(once.spot, position.market_index)->0;
                assert(found == place) by {
                    if found != place {
                        assert(once.spot[found] == before.spot[found]);
                    }
                }
            } else {
                assert(kept_place(once.spot, position.market_index) is None) by {
                    if let Some(other) = kept_place(once.spot, position.market_index) {
                        assert(once.spot[other] == before.spot[other]);
                    }
                }
                assert(!once.spot[place].present());
                let free = free_place(once.spot)->0;
                assert(free == place) by {
                    if free != place {
                        assert(once.spot[free] == before.spot[free]);
                    }
                }
                assert(entry.amounts() == MarginTotals::zero());
            }
            assert(once.spot.update(place, entry) =~= once.spot);
        }
    }
}

/// Repeating an update of a perp position changes nothing, and no update changes the other
/// table or the settings.
///
/// Two entries for one market and a position for which there is no room are left out, and
/// so is an entry of time zero that counts as absent and either has something in its
/// buffers or takes the place of a kept one behind a free place: each of them is acted
/// upon twice.
pub proof fn law_perp_update_is_idempotent(
    before: IncrementalView,
    position: PerpPosition,
    market_state: MarketState,
    timestamp: u64,
    figures: Result<PerpFigures, u32>,
)
    requires
        before.perp.len() == 8,
        before.totals.fits(),
        forall|i: int, j: int|
            0 <= i < j < 8 && (#[trigger] before.perp[i]).is_for(position.market_index) ==> !(
            #[trigger] before.perp[j]).is_for(position.market_index),
        kept_place(before.perp, position.market_index) is Some || free_place(before.perp) is Some
            || position.available,
        position.available || (before.perp_entry(
            position,
            market_state,
            timestamp,
            figures,
        ) matches Some(Some(entry)) ==> entry.present() || (lasting(entry) && !frees_later_place(
            before.perp,
            position.market_index,
        ))),
        before.perp_updated(position, market_state, timestamp, figures) is Some,
    ensures
        ({
            let once = before.perp_updated(position, market_state, timestamp, figures)->0;
            &&& once.perp_updated(position, market_state, timestamp, figures) == Some(once)
            &&& once.spot == before.spot
            &&& once.settings == before.settings
        }),
{
    let once = before.perp_updated(position, market_state, timestamp, figures)->0;
    lemma_places(before.perp, position.market_index);
    lemma_places(once.perp, position.market_index);
    if let Some(Some(entry)) = before.perp_entry(position, market_state, timestamp, figures) {
        let place = match kept_place(before.perp, position.market_index) {
            Some(place) => place,
            None => free_place(before.perp)->0,
        };
        if position.available {
            if kept_place(before.perp, position.market_index) is Some {
                assert(once.perp == before.perp.update(place, PositionCollateral::unused()));
                assert(kept_place(once.perp, position.market_index) is None) by {
                    if let Some(other) = kept_place(once.perp, position.market_index) {
                        assert(other != place);
                        assert(once.perp[other] == before.perp[other]);
                    }
                }
            }
        } else {
            assert(once.perp == before.perp.update(place, entry));
            if entry.present() {
                assert(once.perp[place].is_for(position.market_index));
                let found = kept_place(once.perp, position.market_index)->0;
                assert(found == place) by {
                    if found != place {
                        assert(once.perp[found] == before.perp[found]);
                    }
                }
            } else {
                assert(kept_place(once.perp, position.market_index) is None) by {
                    if let Some(other) = kept_place(once.perp, position.market_index) {
                        assert(once.perp[other] == before.perp[other]);
                    }
                }
                assert(!once.perp[place].present());
                let free = free_place(once.perp)->0;
                assert(free == place) by {
                    if free != place {
                        assert(once.perp[free] == before.perp[free]);
                    }
                }
                assert(entry.amounts() == MarginTotals::zero());
            }
            assert(once.perp.update(place, entry) =~= once.perp);
        }
    }
}

} // verus!
