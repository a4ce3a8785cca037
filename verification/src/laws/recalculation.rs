//! Updating one position comes to what calculating the changed user anew comes to.
use vstd::prelude::*;

use crate::laws::agreement::{one_perp_position_per_market, one_spot_position_per_market};
use crate::laws::upkeep::{lasting, lasting_perp_entries, lemma_places, lemma_spot_entry_lasts};
use crate::margin::incremental::{
    empty_table, free_place, kept, kept_place, IncrementalInput, IncrementalView,
    PositionCollateral,
};
use crate::margin::totals::MarginTotals;
use crate::protocol::{PerpPosition, SpotPosition};
use crate::types::MarketState;
use crate::valuation::{PerpFigures, SpotFigures};

verus! {

/// What an entry adds, where there is one.
pub open spec fn amounts_of(entry: Option<PositionCollateral>) -> MarginTotals {
    match entry {
        Some(entry) => entry.amounts(),
        None => MarginTotals::zero(),
    }
}

/// The entry of the spot position at `place`: none for an available slot, nor where there is
/// no oracle price.
#[verifier::opaque]
pub open spec fn spot_entry_at(input: IncrementalInput, place: int) -> Option<PositionCollateral> {
    let position = input.user.spot_positions[place];
    if position.available {
        None
    } else {
        match IncrementalView::start(input.settings, input.before).spot_entry(
            position,
            input.market_state,
            input.timestamp,
            input.figures.spot[place],
        ) {
            Some(entry) => entry,
            None => None,
        }
    }
}

/// What the entries of the first `count` spot positions add up to.
pub open spec fn spot_entries_sum(input: IncrementalInput, count: nat) -> MarginTotals
    decreases count,
{
    if count == 0 {
        MarginTotals::zero()
    } else {
        spot_entries_sum(input, (count - 1) as nat).plus(
            amounts_of(spot_entry_at(input, count - 1)),
        )
    }
}

pub(crate) open spec fn spot_entry_comes_before(
    input: IncrementalInput,
    count: nat,
    entry: PositionCollateral,
) -> bool {
    exists|j: int| 0 <= j < count && #[trigger] spot_entry_at(input, j) == Some(entry)
}

/// Whether `table` holds the entries of the first `count` spot positions that count as
/// present, and no other entry that does.
pub(crate) open spec fn holds_spot_entries(
    table: Seq<PositionCollateral>,
    input: IncrementalInput,
    count: nat,
) -> bool {
    &&& table.len() == 8
    &&& forall|k: int| count <= k < 8 ==> !(#[trigger] table[k]).present()
    &&& forall|k: int|
        0 <= k < 8 && (#[trigger] table[k]).present() ==> spot_entry_comes_before(
            input,
            count,
            table[k],
        )
    &&& forall|j: int|
        0 <= j < count && (#[trigger] spot_entry_at(input, j) matches Some(entry)
            && entry.present()) ==> table.contains(spot_entry_at(input, j)->0)
}

/// The entry of the perp position at `place`: none for an available slot, nor where there is
/// no oracle price.
#[verifier::opaque]
pub open spec fn perp_entry_at(input: IncrementalInput, place: int) -> Option<PositionCollateral> {
    let position = input.user.perp_positions[place];
    if position.available {
        None
    } else {
        match IncrementalView::start(input.settings, input.before).perp_entry(
            position,
            input.market_state,
            input.timestamp,
            input.figures.perp[place],
        ) {
            Some(entry) => entry,
            None => None,
        }
    }
}

/// What the entries of the first `count` perp positions add up to.
pub open spec fn perp_entries_sum(input: IncrementalInput, count: nat) -> MarginTotals
    decreases count,
{
    if count == 0 {
        MarginTotals::zero()
    } else {
        perp_entries_sum(input, (count - 1) as nat).plus(
            amounts_of(perp_entry_at(input, count - 1)),
        )
    }
}

pub(crate) open spec fn perp_entry_comes_before(
    input: IncrementalInput,
    count: nat,
    entry: PositionCollateral,
) -> bool {
    exists|j: int| 0 <= j < count && #[trigger] perp_entry_at(input, j) == Some(entry)
}

/// Whether `table` holds the entries of the first `count` perp positions that count as
/// present, and no other entry that does.
pub(crate) open spec fn holds_perp_entries(
    table: Seq<PositionCollateral>,
    input: IncrementalInput,
    count: nat,
) -> bool {
    &&& table.len() == 8
    &&& forall|k: int| count <= k < 8 ==> !(#[trigger] table[k]).present()
    &&& forall|k: int|
        0 <= k < 8 && (#[trigger] table[k]).present() ==> perp_entry_comes_before(
            input,
            count,
            table[k],
        )
    &&& forall|j: int|
        0 <= j < count && (#[trigger] perp_entry_at(input, j) matches Some(entry)
            && entry.present()) ==> table.contains(perp_entry_at(input, j)->0)
}

pub(crate) proof fn lemma_spot_entries(input: IncrementalInput, count: nat)
    requires
        count <= 8,
        one_spot_position_per_market(input.user),
        input.after_spot(count) is Some,
    ensures
        ({
            let c = input.after_spot(count)->0;
            &&& c.totals == spot_entries_sum(input, count)
            &&& c.settings == input.settings
            &&& holds_spot_entries(c.spot, input, count)
            &&& c.perp == empty_table()
        }),
    decreases count,
{
    reveal(spot_entry_at);
    if count == 0 {
        assert(forall|k: int| 0 <= k < 8 ==> !(#[trigger] empty_table()[k]).present());
    } else {
        let less = (count - 1) as nat;
        lemma_spot_entries(input, less);
        let b = input.after_spot(less)->0;
        let c = input.after_spot(count)->0;
        let position = input.user.spot_positions[count - 1];
        lemma_places(b.spot, position.market_index);
        if position.available {
            assert(c == b);
            assert(spot_entry_at(input, count - 1) is None);
            lemma_spot_table_grows(b.spot, c.spot, input, count);
        } else {
            assert(kept_place(b.spot, position.market_index) is None) by {
                if let Some(place) = kept_place(b.spot, position.market_index) {
                    assert(b.spot[place].present());
                    let j = choose|j: int|
                        0 <= j < less && #[trigger] spot_entry_at(input, j) == Some(b.spot[place]);
                    assert(input.user.spot_positions[j].market_index == position.market_index);
                }
            }
            assert(!b.spot[less as int].present());
            lemma_spot_table_grows(b.spot, c.spot, input, count);
        }
    }
}

proof fn lemma_spot_table_grows(
    before: Seq<PositionCollateral>,
    after: Seq<PositionCollateral>,
    input: IncrementalInput,
    count: nat,
)
    requires
        0 < count <= 8,
        holds_spot_entries(before, input, (count - 1) as nat),
        match spot_entry_at(input, count - 1) {
            Some(entry) => after == kept(before, entry),
            None => after == before,
        },
    ensures
        holds_spot_entries(after, input, count),
{
    let less = (count - 1) as nat;
    lemma_places(before, 0);
    assert(!before[less as int].present());
    let place = free_place(before)->0;
    assert forall|k: int| 0 <= k < 8 && (#[trigger] after[k]).present() implies
        spot_entry_comes_before(input, count, after[k]) by {
        if after[k] == before[k] {
            assert(before[k].present());
            let j = choose|j: int|
                0 <= j < less && #[trigger] spot_entry_at(input, j) == Some(before[k]);
            assert(spot_entry_at(input, j) == Some(after[k]));
        } else {
            assert(spot_entry_at(input, count - 1) == Some(after[k]));
        }
    }
    assert forall|j: int|
        0 <= j < count && (#[trigger] spot_entry_at(input, j) matches Some(entry)
            && entry.present()) implies after.contains(spot_entry_at(input, j)->0) by {
        let entry = spot_entry_at(input, j)->0;
        if j < less {
            let k = choose|k: int| 0 <= k < before.len() && before[k] == entry;
            assert(before[k].present());
            assert(after[k] == entry);
        } else {
            assert(after[place] == entry);
        }
    }
}

pub(crate) proof fn lemma_perp_entries(input: IncrementalInput, count: nat)
    requires
        count <= 8,
        one_perp_position_per_market(input.user),
        input.after_perp(count) is Some,
    ensures
        ({
            let c = input.after_perp(count)->0;
            &&& c.totals == input.after_spot(8)->0.totals.plus(perp_entries_sum(input, count))
            &&& c.settings == input.settings
            &&& holds_perp_entries(c.perp, input, count)
            &&& input.after_spot(8) is Some
            &&& c.spot == input.after_spot(8)->0.spot
        }),
    decreases count,
{
    reveal(perp_entry_at);
    if count == 0 {
        lemma_spot_phase(input, 8);
        assert(forall|k: int| 0 <= k < 8 ==> !(#[trigger] empty_table()[k]).present());
    } else {
        let less = (count - 1) as nat;
        lemma_perp_entries(input, less);
        let b = input.after_perp(less)->0;
        let c = input.after_perp(count)->0;
        let position = input.user.perp_positions[count - 1];
        lemma_places(b.perp, position.market_index);
        if position.available {
            assert(c == b);
            assert(perp_entry_at(input, count - 1) is None);
            lemma_perp_table_grows(b.perp, c.perp, input, count);
        } else {
            assert(kept_place(b.perp, position.market_index) is None) by {
                if let Some(place) = kept_place(b.perp, position.market_index) {
                    assert(b.perp[place].present());
                    let j = choose|j: int|
                        0 <= j < less && #[trigger] perp_entry_at(input, j) == Some(b.perp[place]);
                    assert(input.user.perp_positions[j].market_index == position.market_index);
                }
            }
            assert(!b.perp[less as int].present());
            lemma_perp_table_grows(b.perp, c.perp, input, count);
        }
    }
}

proof fn lemma_perp_table_grows(
    before: Seq<PositionCollateral>,
    after: Seq<PositionCollateral>,
    input: IncrementalInput,
    count: nat,
)
    requires
        0 < count <= 8,
        holds_perp_entries(before, input, (count - 1) as nat),
        match perp_entry_at(input, count - 1) {
            Some(entry) => after == kept(before, entry),
            None => after == before,
        },
    ensures
        holds_perp_entries(after, input, count),
{
    let less = (count - 1) as nat;
    lemma_places(before, 0);
    assert(!before[less as int].present());
    let place = free_place(before)->0;
    assert forall|k: int| 0 <= k < 8 && (#[trigger] after[k]).present() implies
        perp_entry_comes_before(input, count, after[k]) by {
        if after[k] == before[k] {
            assert(before[k].present());
            let j = choose|j: int|
                0 <= j < less && #[trigger] perp_entry_at(input, j) == Some(before[k]);
            assert(perp_entry_at(input, j) == Some(after[k]));
        } else {
            assert(perp_entry_at(input, count - 1) == Some(after[k]));
        }
    }
    assert forall|j: int|
        0 <= j < count && (#[trigger] perp_entry_at(input, j) matches Some(entry)
            && entry.present()) implies after.contains(perp_entry_at(input, j)->0) by {
        let entry = perp_entry_at(input, j)->0;
        if j < less {
            let k = choose|k: int| 0 <= k < before.len() && before[k] == entry;
            assert(before[k].present());
            assert(after[k] == entry);
        } else {
            assert(after[place] == entry);
        }
    }
}

/// What the last of the first `count` entries for `market_index` adds.
spec fn last_amounts(
    entries: spec_fn(int) -> Option<PositionCollateral>,
    count: nat,
    market_index: u16,
) -> MarginTotals
    decreases count,
{
    if count == 0 {
        MarginTotals::zero()
    } else {
        match entries(count - 1) {
            Some(entry) if entry.market_index == market_index => entry.amounts(),
            _ => last_amounts(entries, (count - 1) as nat, market_index),
        }
    }
}

/// What the first `count` entries add up to, where each takes the place of the last one for
/// its market.
spec fn replaced_sum(
    entries: spec_fn(int) -> Option<PositionCollateral>,
    count: nat,
) -> MarginTotals
    decreases count,
{
    if count == 0 {
        MarginTotals::zero()
    } else {
        let so_far = replaced_sum(entries, (count - 1) as nat);
        match entries(count - 1) {
            Some(entry) => so_far.minus(
                last_amounts(entries, (count - 1) as nat, entry.market_index),
            ).plus(entry.amounts()),
            None => so_far,
        }
    }
}

/// Whether two lists of entries add the same, each entry for the same market.
spec fn add_the_same(
    a: spec_fn(int) -> Option<PositionCollateral>,
    b: spec_fn(int) -> Option<PositionCollateral>,
) -> bool {
    forall|j: int|
        #![trigger a(j)]
        #![trigger b(j)]
        0 <= j < 8 ==> (a(j) is Some <==> b(j) is Some) && (a(j) is Some ==> a(
            j,
        )->0.market_index == b(j)->0.market_index && a(j)->0.amounts() == b(j)->0.amounts())
}

proof fn lemma_same_last_amounts(
    a: spec_fn(int) -> Option<PositionCollateral>,
    b: spec_fn(int) -> Option<PositionCollateral>,
    count: nat,
    market_index: u16,
)
    requires
        count <= 8,
        add_the_same(a, b),
    ensures
        last_amounts(a, count, market_index) == last_amounts(b, count, market_index),
    decreases count,
{
    if count > 0 {
        assert(a(count - 1) is Some <==> b(count - 1) is Some);
        lemma_same_last_amounts(a, b, (count - 1) as nat, market_index);
    }
}

proof fn lemma_same_replaced_sum(
    a: spec_fn(int) -> Option<PositionCollateral>,
    b: spec_fn(int) -> Option<PositionCollateral>,
    count: nat,
)
    requires
        count <= 8,
        add_the_same(a, b),
    ensures
        replaced_sum(a, count) == replaced_sum(b, count),
    decreases count,
{
    if count > 0 {
        let less = (count - 1) as nat;
        assert(a(count - 1) is Some <==> b(count - 1) is Some);
        lemma_same_replaced_sum(a, b, less);
        if let Some(entry) = a(count - 1) {
            lemma_same_last_amounts(a, b, less, entry.market_index);
        }
    }
}

/// The sums that are looked at: all of them, or all but the buffered requirement.
pub(crate) open spec fn looked_at(totals: MarginTotals, buffered: bool) -> MarginTotals {
    if buffered {
        totals
    } else {
        MarginTotals { requirement_plus_buffer: 0, ..totals }
    }
}

/// What is kept for `market_index`.
spec fn kept_amounts(table: Seq<PositionCollateral>, market_index: u16) -> MarginTotals {
    match kept_place(table, market_index) {
        Some(place) => table[place].amounts(),
        None => MarginTotals::zero(),
    }
}

/// Whether an entry that counts as absent adds nothing to the sums that are looked at.
spec fn absent_adds_nothing(entry: PositionCollateral, buffered: bool) -> bool {
    !entry.present() ==> looked_at(entry.amounts(), buffered) == MarginTotals::zero()
}

/// Whether a table keeps, for each market, what the last of the first `count` entries for it
/// adds.
spec fn tracks(
    table: Seq<PositionCollateral>,
    entries: spec_fn(int) -> Option<PositionCollateral>,
    count: nat,
    buffered: bool,
) -> bool {
    &&& table.len() == 8
    &&& forall|k: int| count <= k < 8 ==> !(#[trigger] table[k]).present()
    &&& forall|i: int, j: int|
        0 <= i < j < 8 && (#[trigger] table[i]).present() && (#[trigger] table[j]).present()
            ==> table[i].market_index != table[j].market_index
    &&& forall|market_index: u16|
        looked_at(#[trigger] kept_amounts(table, market_index), buffered) == looked_at(
            last_amounts(entries, count, market_index),
            buffered,
        )
}

proof fn lemma_empty_table_tracks(
    entries: spec_fn(int) -> Option<PositionCollateral>,
    buffered: bool,
)
    ensures
        tracks(empty_table(), entries, 0, buffered),
{
    assert(forall|k: int| 0 <= k < 8 ==> !(#[trigger] empty_table()[k]).present());
    assert forall|market_index: u16| #[trigger]
        kept_amounts(empty_table(), market_index) == MarginTotals::zero() by {
        lemma_places(empty_table(), market_index);
    }
}

/// A place that holds the one present entry for a market is where it is kept.
proof fn lemma_only_place(table: Seq<PositionCollateral>, place: int, market_index: u16)
    requires
        table.len() == 8,
        0 <= place < 8,
        table[place].is_for(market_index),
        forall|i: int| 0 <= i < 8 && i != place ==> !(#[trigger] table[i]).is_for(market_index),
    ensures
        kept_place(table, market_index) == Some(place),
{
    lemma_places(table, market_index);
}

proof fn lemma_update_tracks(
    before: Seq<PositionCollateral>,
    after: Seq<PositionCollateral>,
    entries: spec_fn(int) -> Option<PositionCollateral>,
    count: nat,
    buffered: bool,
)
    requires
        0 < count <= 8,
        tracks(before, entries, (count - 1) as nat, buffered),
        match entries(count - 1) {
            Some(entry) => absent_adds_nothing(entry, buffered) && after == match kept_place(
                before,
                entry.market_index,
            ) {
                Some(place) => before.update(place, entry),
                None => kept(before, entry),
            },
            None => after == before,
        },
    ensures
        tracks(after, entries, count, buffered),
{
    let less = (count - 1) as nat;
    if let Some(entry) = entries(count - 1) {
        lemma_places(before, entry.market_index);
        assert(!before[less as int].present());
        let place = match kept_place(before, entry.market_index) {
            Some(place) => place,
            None => free_place(before)->0,
        };
        assert(after == before.update(place, entry));
        assert(forall|i: int| 0 <= i < 8 && i != place ==> after[i] == before[i]);
        assert forall|i: int| 0 <= i < 8 && i != place implies !(
        #[trigger] before[i]).is_for(entry.market_index) by {
            if kept_place(before, entry.market_index) is Some && before[i].is_for(
                entry.market_index,
            ) {
                assert(before[place].is_for(entry.market_index));
                if i < place {
                    assert(before[i].market_index != before[place].market_index);
                } else {
                    assert(before[place].market_index != before[i].market_index);
                }
            }
        }
        assert forall|i: int, j: int|
            0 <= i < j < 8 && (#[trigger] after[i]).present() && (
            #[trigger] after[j]).present() implies after[i].market_index
            != after[j].market_index by {
            if i == place {
                assert(!before[j].is_for(entry.market_index));
            } else if j == place {
                assert(!before[i].is_for(entry.market_index));
            } else {
                assert(before[i].market_index != before[j].market_index);
            }
        }
        assert forall|market_index: u16|
            looked_at(#[trigger] kept_amounts(after, market_index), buffered) == looked_at(
                last_amounts(entries, count, market_index),
                buffered,
            ) by {
            lemma_places(before, market_index);
            lemma_places(after, market_index);
            assert(looked_at(kept_amounts(before, market_index), buffered) == looked_at(
                last_amounts(entries, less, market_index),
                buffered,
            ));
            if market_index == entry.market_index {
                if entry.present() {
                    assert(after[place].is_for(market_index));
                    lemma_only_place(after, place, market_index);
                } else if let Some(found) = kept_place(after, market_index) {
                    assert(after[found].is_for(market_index));
                    assert(before[found].is_for(market_index));
                }
            } else {
                if let Some(found) = kept_place(before, market_index) {
                    assert(before[found].is_for(market_index));
                    assert(found != place);
                    assert forall|i: int| 0 <= i < 8 && i != found implies !(
                    #[trigger] after[i]).is_for(market_index) by {
                        if i != place && before[i].is_for(market_index) {
                            if i < found {
                                assert(before[i].market_index != before[found].market_index);
                            } else {
                                assert(before[found].market_index != before[i].market_index);
                            }
                        }
                    }
                    lemma_only_place(after, found, market_index);
                } else if let Some(found) = kept_place(after, market_index) {
                    assert(after[found].is_for(market_index));
                    assert(before[found].is_for(market_index));
                }
            }
        }
    } else {
        assert forall|market_index: u16|
            looked_at(#[trigger] kept_amounts(after, market_index), buffered) == looked_at(
                last_amounts(entries, count, market_index),
                buffered,
            ) by {
            assert(looked_at(kept_amounts(before, market_index), buffered) == looked_at(
                last_amounts(entries, less, market_index),
                buffered,
            ));
        }
    }
}

spec fn spot_entries(input: IncrementalInput) -> spec_fn(int) -> Option<PositionCollateral> {
    |j: int| spot_entry_at(input, j)
}

spec fn perp_entries(input: IncrementalInput) -> spec_fn(int) -> Option<PositionCollateral> {
    |j: int| perp_entry_at(input, j)
}

/// What the spot positions come to, however many of them are in one market.
proof fn lemma_spot_phase(input: IncrementalInput, count: nat)
    requires
        count <= 8,
        input.after_spot(count) is Some,
    ensures
        ({
            let c = input.after_spot(count)->0;
            &&& c.totals == replaced_sum(spot_entries(input), count)
            &&& c.settings == input.settings
            &&& tracks(c.spot, spot_entries(input), count, true)
            &&& c.perp == empty_table()
        }),
    decreases count,
{
    let entries = spot_entries(input);
    if count == 0 {
        lemma_empty_table_tracks(entries, true);
    } else {
        let less = (count - 1) as nat;
        lemma_spot_phase(input, less);
        let b = input.after_spot(less)->0;
        let c = input.after_spot(count)->0;
        lemma_spot_step(input, b, c, count - 1);
        lemma_spot_entry_at_lasts(input, count - 1);
        if let Some(entry) = entries(count - 1) {
            assert(looked_at(kept_amounts(b.spot, entry.market_index), true) == looked_at(
                last_amounts(entries, less, entry.market_index),
                true,
            ));
        }
        lemma_update_tracks(b.spot, c.spot, entries, count, true);
    }
}

/// What one spot position of a full calculation changes.
proof fn lemma_spot_step(
    input: IncrementalInput,
    before: IncrementalView,
    after: IncrementalView,
    place: int,
)
    requires
        0 <= place < 8,
        before.settings == input.settings,
        if input.user.spot_positions[place].available {
            after == before
        } else {
            before.spot_updated(
                input.user.spot_positions[place],
                input.market_state,
                input.timestamp,
                input.figures.spot[place],
            ) == Some(after)
        },
    ensures
        after.settings == before.settings,
        after.perp == before.perp,
        match spot_entry_at(input, place) {
            Some(entry) => {
                &&& after.totals == before.totals.minus(
                    kept_amounts(before.spot, entry.market_index),
                ).plus(entry.amounts())
                &&& after.spot == match kept_place(before.spot, entry.market_index) {
                    Some(found) => before.spot.update(found, entry),
                    None => kept(before.spot, entry),
                }
            },
            None => after.totals == before.totals && after.spot == before.spot,
        },
{
    reveal(spot_entry_at);
}

/// What one perp position of a full calculation changes.
proof fn lemma_perp_step(
    input: IncrementalInput,
    before: IncrementalView,
    after: IncrementalView,
    place: int,
)
    requires
        0 <= place < 8,
        before.settings == input.settings,
        if input.user.perp_positions[place].available {
            after == before
        } else {
            before.perp_updated(
                input.user.perp_positions[place],
                input.market_state,
                input.timestamp,
                input.figures.perp[place],
            ) == Some(after)
        },
    ensures
        after.settings == before.settings,
        after.spot == before.spot,
        match perp_entry_at(input, place) {
            Some(entry) => {
                &&& after.totals == before.totals.minus(
                    kept_amounts(before.perp, entry.market_index),
                ).plus(entry.amounts())
                &&& after.perp == match kept_place(before.perp, entry.market_index) {
                    Some(found) => before.perp.update(found, entry),
                    None => kept(before.perp, entry),
                }
            },
            None => after.totals == before.totals && after.perp == before.perp,
        },
{
    reveal(perp_entry_at);
}

/// What the perp positions come to, however many of them are in one market. The buffered
/// requirement is looked at where all entries are lasting.
proof fn lemma_perp_phase(input: IncrementalInput, count: nat, buffered: bool)
    requires
        count <= 8,
        buffered ==> lasting_perp_entries(input),
        input.after_perp(count) is Some,
    ensures
        ({
            let c = input.after_perp(count)->0;
            &&& input.after_spot(8) is Some
            &&& looked_at(c.totals, buffered) == looked_at(
                input.after_spot(8)->0.totals.plus(replaced_sum(perp_entries(input), count)),
                buffered,
            )
            &&& c.settings == input.settings
            &&& c.spot == input.after_spot(8)->0.spot
            &&& tracks(c.perp, perp_entries(input), count, buffered)
        }),
    decreases count,
{
    let entries = perp_entries(input);
    if count == 0 {
        lemma_spot_phase(input, 8);
        lemma_empty_table_tracks(entries, buffered);
    } else {
        let less = (count - 1) as nat;
        lemma_perp_phase(input, less, buffered);
        let b = input.after_perp(less)->0;
        let c = input.after_perp(count)->0;
        lemma_perp_step(input, b, c, count - 1);
        lemma_perp_entry_at_adds(input, count - 1, buffered);
        if let Some(entry) = entries(count - 1) {
            assert(looked_at(kept_amounts(b.perp, entry.market_index), buffered) == looked_at(
                last_amounts(entries, less, entry.market_index),
                buffered,
            ));
        }
        lemma_update_tracks(b.perp, c.perp, entries, count, buffered);
    }
}

proof fn lemma_perp_entry_at_adds(input: IncrementalInput, place: int, buffered: bool)
    requires
        0 <= place < 8,
        buffered ==> lasting_perp_entries(input),
    ensures
        perp_entry_at(input, place) matches Some(entry) ==> absent_adds_nothing(entry, buffered),
{
    reveal(perp_entry_at);
}

/// The time changes nothing of what the same perp positions add.
proof fn lemma_same_perp_sum(a: IncrementalInput, b: IncrementalInput)
    requires
        a.settings == b.settings,
        a.market_state == b.market_state,
        forall|j: int|
            0 <= j < 8 ==> #[trigger] a.user.perp_positions[j] == b.user.perp_positions[j]
                && a.figures.perp[j] == b.figures.perp[j],
    ensures
        replaced_sum(perp_entries(a), 8) == replaced_sum(perp_entries(b), 8),
{
    assert forall|j: int|
        #![trigger perp_entries(a)(j)]
        #![trigger perp_entries(b)(j)]
        0 <= j < 8 implies (perp_entries(a)(j) is Some <==> perp_entries(b)(j) is Some) && (
    perp_entries(a)(j) is Some ==> perp_entries(a)(j)->0.market_index == perp_entries(b)(
        j,
    )->0.market_index && perp_entries(a)(j)->0.amounts() == perp_entries(b)(j)->0.amounts()) by {
        assert(a.user.perp_positions[j] == b.user.perp_positions[j]);
        reveal(perp_entry_at);
    }
    lemma_same_replaced_sum(perp_entries(a), perp_entries(b), 8);
}

/// The time changes nothing of what the same spot positions add.
proof fn lemma_same_spot_sum(a: IncrementalInput, b: IncrementalInput)
    requires
        a.settings == b.settings,
        a.market_state == b.market_state,
        forall|j: int|
            0 <= j < 8 ==> #[trigger] a.user.spot_positions[j] == b.user.spot_positions[j]
                && a.figures.spot[j] == b.figures.spot[j],
    ensures
        replaced_sum(spot_entries(a), 8) == replaced_sum(spot_entries(b), 8),
{
    assert forall|j: int|
        #![trigger spot_entries(a)(j)]
        #![trigger spot_entries(b)(j)]
        0 <= j < 8 implies (spot_entries(a)(j) is Some <==> spot_entries(b)(j) is Some) && (
    spot_entries(a)(j) is Some ==> spot_entries(a)(j)->0.market_index == spot_entries(b)(
        j,
    )->0.market_index && spot_entries(a)(j)->0.amounts() == spot_entries(b)(j)->0.amounts()) by {
        assert(a.user.spot_positions[j] == b.user.spot_positions[j]);
        reveal(spot_entry_at);
    }
    lemma_same_replaced_sum(spot_entries(a), spot_entries(b), 8);
}

/// Whether two full calculations differ in nothing that counts but the time and the spot
/// position at `place` with its figures.
pub open spec fn spot_differs_at(a: IncrementalInput, b: IncrementalInput, place: int) -> bool {
    &&& a.settings == b.settings
    &&& a.market_state == b.market_state
    &&& forall|j: int|
        #![trigger a.user.spot_positions[j]]
        #![trigger b.user.spot_positions[j]]
        0 <= j < 8 && j != place ==> a.user.spot_positions[j] == b.user.spot_positions[j]
            && a.figures.spot[j] == b.figures.spot[j]
    &&& forall|j: int|
        #![trigger a.user.perp_positions[j]]
        #![trigger b.user.perp_positions[j]]
        0 <= j < 8 ==> a.user.perp_positions[j] == b.user.perp_positions[j] && a.figures.perp[j]
            == b.figures.perp[j]
}

/// Whether two full calculations differ in nothing that counts but the time and the perp
/// position at `place` with its figures.
pub open spec fn perp_differs_at(a: IncrementalInput, b: IncrementalInput, place: int) -> bool {
    &&& a.settings == b.settings
    &&& a.market_state == b.market_state
    &&& forall|j: int|
        #![trigger a.user.spot_positions[j]]
        #![trigger b.user.spot_positions[j]]
        0 <= j < 8 ==> a.user.spot_positions[j] == b.user.spot_positions[j] && a.figures.spot[j]
            == b.figures.spot[j]
    &&& forall|j: int|
        #![trigger a.user.perp_positions[j]]
        #![trigger b.user.perp_positions[j]]
        0 <= j < 8 && j != place ==> a.user.perp_positions[j] == b.user.perp_positions[j]
            && a.figures.perp[j] == b.figures.perp[j]
}

/// What a spot position adds does not depend on the time.
proof fn lemma_spot_amounts_stay(a: IncrementalInput, b: IncrementalInput, place: int)
    requires
        0 <= place < 8,
        a.settings == b.settings,
        a.market_state == b.market_state,
        a.user.spot_positions[place] == b.user.spot_positions[place],
        a.figures.spot[place] == b.figures.spot[place],
    ensures
        amounts_of(spot_entry_at(a, place)) == amounts_of(spot_entry_at(b, place)),
{
    reveal(spot_entry_at);
}

/// The sums after an update, where what is kept of the position adds `before` and its new
/// entry adds `after`.
proof fn lemma_spot_updated_totals(
    c: IncrementalView,
    position: SpotPosition,
    market_state: MarketState,
    timestamp: u64,
    figures: Result<SpotFigures, u32>,
    before: MarginTotals,
    after: MarginTotals,
)
    requires
        c.spot_updated(position, market_state, timestamp, figures) is Some,
        match kept_place(c.spot, position.market_index) {
            Some(place) => before == c.spot[place].amounts(),
            None => before == MarginTotals::zero(),
        },
        c.spot_entry(position, market_state, timestamp, figures) matches Some(None) ==> before
            == MarginTotals::zero(),
        after == if position.available {
            MarginTotals::zero()
        } else {
            match c.spot_entry(position, market_state, timestamp, figures) {
                Some(entry) => amounts_of(entry),
                None => MarginTotals::zero(),
            }
        },
    ensures
        ({
            let updated = c.spot_updated(position, market_state, timestamp, figures)->0;
            &&& updated.totals == c.totals.minus(before).plus(after)
            &&& updated.settings == c.settings
            &&& updated.last_updated == timestamp
        }),
{
}

pub(crate) proof fn lemma_spot_sum_changes(
    a: IncrementalInput,
    b: IncrementalInput,
    place: int,
    count: nat,
)
    requires
        count <= 8,
        0 <= place < 8,
        spot_differs_at(a, b, place),
    ensures
        spot_entries_sum(b, count) == if place < count {
            spot_entries_sum(a, count).minus(amounts_of(spot_entry_at(a, place))).plus(
                amounts_of(spot_entry_at(b, place)),
            )
        } else {
            spot_entries_sum(a, count)
        },
    decreases count,
{
    if count > 0 {
        lemma_spot_sum_changes(a, b, place, (count - 1) as nat);
        if count - 1 != place {
            assert(a.user.spot_positions[count - 1] == b.user.spot_positions[count - 1]);
            assert(a.figures.spot[count - 1] == b.figures.spot[count - 1]);
            lemma_spot_amounts_stay(a, b, count - 1);
        }
    }
}

/// What a perp position adds does not depend on the time.
proof fn lemma_perp_amounts_stay(a: IncrementalInput, b: IncrementalInput, place: int)
    requires
        0 <= place < 8,
        a.settings == b.settings,
        a.market_state == b.market_state,
        a.user.perp_positions[place] == b.user.perp_positions[place],
        a.figures.perp[place] == b.figures.perp[place],
    ensures
        amounts_of(perp_entry_at(a, place)) == amounts_of(perp_entry_at(b, place)),
{
    reveal(perp_entry_at);
}

/// The sums after an update, where what is kept of the position adds `before` and its new
/// entry adds `after`.
proof fn lemma_perp_updated_totals(
    c: IncrementalView,
    position: PerpPosition,
    market_state: MarketState,
    timestamp: u64,
    figures: Result<PerpFigures, u32>,
    before: MarginTotals,
    after: MarginTotals,
)
    requires
        c.perp_updated(position, market_state, timestamp, figures) is Some,
        match kept_place(c.perp, position.market_index) {
            Some(place) => before == c.perp[place].amounts(),
            None => before == MarginTotals::zero(),
        },
        c.perp_entry(position, market_state, timestamp, figures) matches Some(None) ==> before
            == MarginTotals::zero(),
        after == if position.available {
            MarginTotals::zero()
        } else {
            match c.perp_entry(position, market_state, timestamp, figures) {
                Some(entry) => amounts_of(entry),
                None => MarginTotals::zero(),
            }
        },
    ensures
        ({
            let updated = c.perp_updated(position, market_state, timestamp, figures)->0;
            &&& updated.totals == c.totals.minus(before).plus(after)
            &&& updated.settings == c.settings
            &&& updated.last_updated == timestamp
        }),
{
}

pub(crate) proof fn lemma_perp_sum_changes(
    a: IncrementalInput,
    b: IncrementalInput,
    place: int,
    count: nat,
)
    requires
        count <= 8,
        0 <= place < 8,
        perp_differs_at(a, b, place),
    ensures
        perp_entries_sum(b, count) == if place < count {
            perp_entries_sum(a, count).minus(amounts_of(perp_entry_at(a, place))).plus(
                amounts_of(perp_entry_at(b, place)),
            )
        } else {
            perp_entries_sum(a, count)
        },
    decreases count,
{
    if count > 0 {
        lemma_perp_sum_changes(a, b, place, (count - 1) as nat);
        if count - 1 != place {
            assert(a.user.perp_positions[count - 1] == b.user.perp_positions[count - 1]);
            assert(a.figures.perp[count - 1] == b.figures.perp[count - 1]);
            lemma_perp_amounts_stay(a, b, count - 1);
        }
    }
}

proof fn lemma_spot_entry_at_lasts(input: IncrementalInput, place: int)
    requires
        0 <= place < 8,
    ensures
        spot_entry_at(input, place) matches Some(entry) ==> lasting(entry),
{
    reveal(spot_entry_at);
    lemma_spot_entry_lasts(
        IncrementalView::start(input.settings, input.before),
        input.user.spot_positions[place],
        input.market_state,
        input.timestamp,
        input.figures.spot[place],
    );
}

proof fn lemma_spot_entry_is_of_position(input: IncrementalInput, place: int)
    requires
        0 <= place < 8,
    ensures
        spot_entry_at(input, place) matches Some(entry) ==> {
            &&& !input.user.spot_positions[place].available
            &&& entry.market_index == input.user.spot_positions[place].market_index
        },
{
    reveal(spot_entry_at);
}

/// What a table keeps of the spot position at `place`.
proof fn lemma_spot_kept_amounts(
    a: IncrementalInput,
    b: IncrementalInput,
    place: int,
    table: Seq<PositionCollateral>,
)
    requires
        0 <= place < 8,
        spot_differs_at(a, b, place),
        one_spot_position_per_market(a.user),
        one_spot_position_per_market(b.user),
        if a.user.spot_positions[place].available {
            !b.user.spot_positions[place].available
        } else {
            a.user.spot_positions[place].market_index == b.user.spot_positions[place].market_index
        },
        holds_spot_entries(table, a, 8),
    ensures
        match kept_place(table, b.user.spot_positions[place].market_index) {
            Some(found) => spot_entry_at(a, place) == Some(table[found]),
            None => amounts_of(spot_entry_at(a, place)) == MarginTotals::zero(),
        },
{
    let position = b.user.spot_positions[place];
    let old_entry = spot_entry_at(a, place);
    lemma_places(table, position.market_index);
    lemma_spot_entry_is_of_position(a, place);
    if let Some(found) = kept_place(table, position.market_index) {
        assert(table[found].present());
        let j = choose|j: int|
            0 <= j < 8 && #[trigger] spot_entry_at(a, j) == Some(table[found]);
        lemma_spot_entry_is_of_position(a, j);
        if j != place {
            assert(b.user.spot_positions[j] == a.user.spot_positions[j]);
        }
    } else if old_entry is Some {
        let entry = old_entry->0;
        if entry.present() {
            assert(table.contains(entry));
            let k = choose|k: int| 0 <= k < table.len() && table[k] == entry;
            assert(table[k].is_for(position.market_index));
        }
        lemma_spot_entry_at_lasts(a, place);
    }
}

/// A market for which there was an entry has its oracle prices still.
proof fn lemma_spot_entry_needs_oracle(
    a: IncrementalInput,
    b: IncrementalInput,
    place: int,
    c: IncrementalView,
)
    requires
        0 <= place < 8,
        a.settings == b.settings,
        c.settings == a.settings,
        a.market_state == b.market_state,
        a.user.spot_positions[place].available || a.user.spot_positions[place].market_index
            == b.user.spot_positions[place].market_index,
    ensures
        ({
            let entry = c.spot_entry(
                b.user.spot_positions[place],
                b.market_state,
                b.timestamp,
                b.figures.spot[place],
            );
            &&& entry matches Some(None) ==> spot_entry_at(a, place) is None
            &&& spot_entry_at(b, place) == if b.user.spot_positions[place].available {
                None
            } else {
                match entry {
                    Some(entry) => entry,
                    None => None,
                }
            }
        }),
{
    reveal(spot_entry_at);
}

/// Whether the sums of two full calculations differ by as much as their spot parts do.
pub(crate) open spec fn same_perp_part(
    a: IncrementalInput,
    b: IncrementalInput,
    buffered: bool,
) -> bool {
    looked_at(a.outcome()->0.totals.minus(a.after_spot(8)->0.totals), buffered) == looked_at(
        b.outcome()->0.totals.minus(b.after_spot(8)->0.totals),
        buffered,
    )
}

/// The same perp positions add the same to whatever the spot positions come to.
pub(crate) proof fn lemma_perp_part_stays(a: IncrementalInput, b: IncrementalInput)
    requires
        a.settings == b.settings,
        a.market_state == b.market_state,
        forall|j: int|
            0 <= j < 8 ==> #[trigger] a.user.perp_positions[j] == b.user.perp_positions[j]
                && a.figures.perp[j] == b.figures.perp[j],
        a.outcome() is Some,
        b.outcome() is Some,
    ensures
        a.after_spot(8) is Some,
        b.after_spot(8) is Some,
        a.outcome()->0.spot == a.after_spot(8)->0.spot,
        a.outcome()->0.settings == a.settings,
        b.outcome()->0.settings == b.settings,
        same_perp_part(a, b, false),
        one_perp_position_per_market(a.user) || (lasting_perp_entries(a) && lasting_perp_entries(
            b,
        )) ==> same_perp_part(a, b, true),
{
    lemma_same_perp_sum(a, b);
    lemma_perp_phase(a, 8, false);
    lemma_perp_phase(b, 8, false);
    if lasting_perp_entries(a) && lasting_perp_entries(b) {
        lemma_perp_phase(a, 8, true);
        lemma_perp_phase(b, 8, true);
    }
    if one_perp_position_per_market(a.user) {
        assert(one_perp_position_per_market(b.user)) by {
            assert forall|i: int, j: int|
                0 <= i < j < 8 && !b.user.perp_positions[i].available
                    && !b.user.perp_positions[j].available implies (
            #[trigger] b.user.perp_positions[i]).market_index != (
            #[trigger] b.user.perp_positions[j]).market_index by {
                assert(a.user.perp_positions[i] == b.user.perp_positions[i]);
                assert(a.user.perp_positions[j] == b.user.perp_positions[j]);
            }
        }
        lemma_perp_entries(a, 8);
        lemma_perp_entries(b, 8);
        lemma_same_perp_entries_sum(a, b, 8);
    }
}

/// Updating one spot position of a full calculation, be it changed, added or removed, gives
/// the sums of the full calculation of the changed user.
///
/// The user has at most one spot position in each market, and a changed position stays in
/// its market. All sums but the buffered requirement are given whatever the perp positions
/// are; that one too where there is at most one of them in each market, or their entries are
/// lasting.
#[verifier::rlimit(40)]
pub proof fn law_spot_update_is_full_calculation(
    a: IncrementalInput,
    b: IncrementalInput,
    place: int,
)
    requires
        0 <= place < 8,
        spot_differs_at(a, b, place),
        one_spot_position_per_market(a.user),
        one_spot_position_per_market(b.user),
        if a.user.spot_positions[place].available {
            !b.user.spot_positions[place].available
        } else {
            a.user.spot_positions[place].market_index == b.user.spot_positions[place].market_index
        },
        a.outcome() is Some,
        b.outcome() is Some,
        a.outcome()->0.spot_updated(
            b.user.spot_positions[place],
            b.market_state,
            b.timestamp,
            b.figures.spot[place],
        ) is Some,
    ensures
        ({
            let updated = a.outcome()->0.spot_updated(
                b.user.spot_positions[place],
                b.market_state,
                b.timestamp,
                b.figures.spot[place],
            )->0;
            let full = b.outcome()->0;
            &&& updated.totals.collateral == full.totals.collateral
            &&& updated.totals.collateral_buffer == full.totals.collateral_buffer
            &&& updated.totals.requirement == full.totals.requirement
            &&& (one_perp_position_per_market(a.user) || (lasting_perp_entries(a)
                && lasting_perp_entries(b))) ==> updated.totals == full.totals
            &&& updated.settings == b.outcome()->0.settings
            &&& updated.last_updated == b.outcome()->0.last_updated
        }),
{
    let c = a.outcome()->0;
    let position = b.user.spot_positions[place];
    lemma_perp_part_stays(a, b);
    lemma_spot_entries(a, 8);
    lemma_spot_entries(b, 8);
    lemma_spot_sum_changes(a, b, place, 8);
    lemma_spot_kept_amounts(a, b, place, c.spot);
    lemma_spot_entry_needs_oracle(a, b, place, c);
    lemma_spot_updated_totals(
        c,
        position,
        b.market_state,
        b.timestamp,
        b.figures.spot[place],
        amounts_of(spot_entry_at(a, place)),
        amounts_of(spot_entry_at(b, place)),
    );
}

proof fn lemma_same_perp_entries_sum(a: IncrementalInput, b: IncrementalInput, count: nat)
    requires
        count <= 8,
        a.settings == b.settings,
        a.market_state == b.market_state,
        forall|j: int|
            0 <= j < 8 ==> #[trigger] a.user.perp_positions[j] == b.user.perp_positions[j]
                && a.figures.perp[j] == b.figures.perp[j],
    ensures
        perp_entries_sum(a, count) == perp_entries_sum(b, count),
    decreases count,
{
    if count > 0 {
        lemma_same_perp_entries_sum(a, b, (count - 1) as nat);
        assert(a.user.perp_positions[count - 1] == b.user.perp_positions[count - 1]);
        lemma_perp_amounts_stay(a, b, count - 1);
    }
}

proof fn lemma_perp_entry_is_of_position(input: IncrementalInput, place: int)
    requires
        0 <= place < 8,
    ensures
        perp_entry_at(input, place) matches Some(entry) ==> {
            &&& !input.user.perp_positions[place].available
            &&& entry.market_index == input.user.perp_positions[place].market_index
        },
{
    reveal(perp_entry_at);
}

/// What a table keeps of the perp position at `place`.
proof fn lemma_perp_kept_amounts(
    a: IncrementalInput,
    b: IncrementalInput,
    place: int,
    table: Seq<PositionCollateral>,
)
    requires
        0 <= place < 8,
        perp_differs_at(a, b, place),
        one_perp_position_per_market(a.user),
        one_perp_position_per_market(b.user),
        if a.user.perp_positions[place].available {
            !b.user.perp_positions[place].available
        } else {
            a.user.perp_positions[place].market_index == b.user.perp_positions[place].market_index
        },
        perp_entry_at(a, place) matches Some(entry) ==> lasting(entry),
        holds_perp_entries(table, a, 8),
    ensures
        match kept_place(table, b.user.perp_positions[place].market_index) {
            Some(found) => perp_entry_at(a, place) == Some(table[found]),
            None => amounts_of(perp_entry_at(a, place)) == MarginTotals::zero(),
        },
{
    let position = b.user.perp_positions[place];
    let old_entry = perp_entry_at(a, place);
    lemma_places(table, position.market_index);
    lemma_perp_entry_is_of_position(a, place);
    if let Some(found) = kept_place(table, position.market_index) {
        assert(table[found].present());
        let j = choose|j: int|
            0 <= j < 8 && #[trigger] perp_entry_at(a, j) == Some(table[found]);
        lemma_perp_entry_is_of_position(a, j);
        if j != place {
            assert(b.user.perp_positions[j] == a.user.perp_positions[j]);
        }
    } else if old_entry is Some {
        let entry = old_entry->0;
        if entry.present() {
            assert(table.contains(entry));
            let k = choose|k: int| 0 <= k < table.len() && table[k] == entry;
            assert(table[k].is_for(position.market_index));
        }
    }
}

/// A market for which there was an entry has its oracle prices still.
proof fn lemma_perp_entry_needs_oracle(
    a: IncrementalInput,
    b: IncrementalInput,
    place: int,
    c: IncrementalView,
)
    requires
        0 <= place < 8,
        a.settings == b.settings,
        c.settings == a.settings,
        a.market_state == b.market_state,
        a.user.perp_positions[place].available || a.user.perp_positions[place].market_index
            == b.user.perp_positions[place].market_index,
    ensures
        ({
            let entry = c.perp_entry(
                b.user.perp_positions[place],
                b.market_state,
                b.timestamp,
                b.figures.perp[place],
            );
            &&& entry matches Some(None) ==> perp_entry_at(a, place) is None
            &&& perp_entry_at(b, place) == if b.user.perp_positions[place].available {
                None
            } else {
                match entry {
                    Some(entry) => entry,
                    None => None,
                }
            }
        }),
{
    reveal(perp_entry_at);
}

/// The same spot positions come to the same at every time.
pub(crate) proof fn lemma_spot_part_stays(a: IncrementalInput, b: IncrementalInput)
    requires
        a.settings == b.settings,
        a.market_state == b.market_state,
        forall|j: int|
            0 <= j < 8 ==> #[trigger] a.user.spot_positions[j] == b.user.spot_positions[j]
                && a.figures.spot[j] == b.figures.spot[j],
        a.after_spot(8) is Some,
        b.after_spot(8) is Some,
    ensures
        a.after_spot(8)->0.totals == b.after_spot(8)->0.totals,
{
    lemma_spot_phase(a, 8);
    lemma_spot_phase(b, 8);
    lemma_same_spot_sum(a, b);
}

/// Updating one perp position of a full calculation, be it changed, added or removed, gives
/// the sums of the full calculation of the changed user.
///
/// The user has at most one perp position in each market, and a changed position stays in
/// its market.
/// At time zero the position's entry has to be lasting: one that is not is counted and then
/// not found.
#[verifier::rlimit(40)]
pub proof fn law_perp_update_is_full_calculation(
    a: IncrementalInput,
    b: IncrementalInput,
    place: int,
)
    requires
        0 <= place < 8,
        perp_differs_at(a, b, place),
        one_perp_position_per_market(a.user),
        one_perp_position_per_market(b.user),
        if a.user.perp_positions[place].available {
            !b.user.perp_positions[place].available
        } else {
            a.user.perp_positions[place].market_index == b.user.perp_positions[place].market_index
        },
        perp_entry_at(a, place) matches Some(entry) ==> lasting(entry),
        a.outcome() is Some,
        b.outcome() is Some,
        a.outcome()->0.perp_updated(
            b.user.perp_positions[place],
            b.market_state,
            b.timestamp,
            b.figures.perp[place],
        ) is Some,
    ensures
        ({
            let updated = a.outcome()->0.perp_updated(
                b.user.perp_positions[place],
                b.market_state,
                b.timestamp,
                b.figures.perp[place],
            )->0;
            &&& updated.totals == b.outcome()->0.totals
            &&& updated.settings == b.outcome()->0.settings
            &&& updated.last_updated == b.outcome()->0.last_updated
        }),
{
    let c = a.outcome()->0;
    let position = b.user.perp_positions[place];
    lemma_perp_entries(a, 8);
    lemma_perp_entries(b, 8);
    lemma_perp_sum_changes(a, b, place, 8);
    lemma_spot_part_stays(a, b);
    lemma_perp_kept_amounts(a, b, place, c.perp);
    lemma_perp_entry_needs_oracle(a, b, place, c);
    lemma_perp_updated_totals(
        c,
        position,
        b.market_state,
        b.timestamp,
        b.figures.perp[place],
        amounts_of(perp_entry_at(a, place)),
        amounts_of(perp_entry_at(b, place)),
    );
}

} // verus!
