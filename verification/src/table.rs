//! The first place of a table at which something holds.
use vstd::prelude::*;

verus! {

/// The first place of `table`, from `from` on, whose entry satisfies `wanted`.
pub open spec fn first_place<T>(
    table: Seq<T>,
    wanted: spec_fn(T) -> bool,
    from: int,
) -> Option<int>
    decreases table.len() - from,
{
    if from >= table.len() {
        None
    } else if wanted(table[from]) {
        Some(from)
    } else {
        first_place(table, wanted, from + 1)
    }
}

/// What [`first_place`] finds is wanted and comes before everything else that is;
/// it finds nothing exactly where nothing is wanted.
pub proof fn lemma_first_place<T>(table: Seq<T>, wanted: spec_fn(T) -> bool, from: int)
    requires
        0 <= from,
    ensures
        match first_place(table, wanted, from) {
            Some(place) => {
                &&& from <= place < table.len()
                &&& wanted(table[place])
                &&& forall|i: int| from <= i < place ==> !wanted(#[trigger] table[i])
            },
            None => forall|i: int| from <= i < table.len() ==> !wanted(#[trigger] table[i]),
        },
    decreases table.len() - from,
{
    if from < table.len() && !wanted(table[from]) {
        lemma_first_place(table, wanted, from + 1);
    }
}

} // verus!
