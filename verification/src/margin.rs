//! Margin calculations.
use vstd::prelude::*;
use vstd::std_specs::convert::FromSpecImpl;

use crate::arith::{
    clamp_i128, fits_i128, saturating_difference, saturating_sum, signed_bits, to_signed,
};
use crate::table::{first_place, lemma_first_place};
use crate::types;

pub mod incremental;
pub mod simplified;
pub mod totals;

use crate::margin::totals::MarginTotals;

pub use crate::margin::incremental::{IncrementalMarginCalculation, PositionCollateral};
pub use crate::margin::simplified::calculate_simplified_margin_requirement;

verus! {

/// The margin of one isolated perp position.
#[derive(Clone, Copy, Debug, PartialEq, Eq, Structural)]
pub struct IsolatedMarginCalculation {
    pub margin_requirement: u128,
    pub total_collateral: i128,
    pub total_collateral_buffer: i128,
    pub margin_requirement_plus_buffer: u128,
    pub market_index: u16,
}

impl Default for IsolatedMarginCalculation {
    fn default() -> (r: Self)
        ensures
            r == Self::unused(),
    {
        IsolatedMarginCalculation {
            margin_requirement: 0,
            total_collateral: 0,
            total_collateral_buffer: 0,
            margin_requirement_plus_buffer: 0,
            market_index: 0,
        }
    }
}

impl IsolatedMarginCalculation {
    /// The entry of an unused place.
    pub open spec fn unused() -> Self {
        IsolatedMarginCalculation {
            margin_requirement: 0,
            total_collateral: 0,
            total_collateral_buffer: 0,
            margin_requirement_plus_buffer: 0,
            market_index: 0,
        }
    }

    /// Whether there is neither a requirement nor collateral.
    pub open spec fn empty(self) -> bool {
        self.margin_requirement == 0 && self.total_collateral == 0
    }

    /// The collateral with its buffer, cut off at the bounds of an `i128`.
    pub open spec fn collateral_plus_buffer(self) -> int {
        clamp_i128(self.total_collateral + self.total_collateral_buffer)
    }

    /// Whether the collateral covers the requirement, read as a signed number.
    pub open spec fn covered(self) -> bool {
        self.total_collateral >= signed_bits(self.margin_requirement as int)
    }

    /// [`Self::covered`], with the buffers.
    pub open spec fn covered_with_buffer(self) -> bool {
        self.collateral_plus_buffer() >= signed_bits(self.margin_requirement_plus_buffer as int)
    }

    /// By how much the buffered requirement, read as a signed number, exceeds the
    /// buffered collateral, cut off at the largest `i128`; zero where it does not.
    pub open spec fn shortage(self) -> int {
        let shortage = clamp_i128(
            signed_bits(self.margin_requirement_plus_buffer as int) - self.collateral_plus_buffer(),
        );
        if shortage > 0 {
            shortage
        } else {
            0
        }
    }

    /// Whether this is the calculation of `market_index`.
    pub open spec fn is_for(self, market_index: u16) -> bool {
        self.market_index == market_index && !self.empty()
    }

    pub fn is_empty(&self) -> (r: bool)
        ensures
            r == self.empty(),
    {
        self.margin_requirement == 0 && self.total_collateral == 0
    }

    pub fn get_total_collateral_plus_buffer(&self) -> (r: i128)
        ensures
            r == self.collateral_plus_buffer(),
    {
        saturating_sum(self.total_collateral, self.total_collateral_buffer)
    }

    pub fn meets_margin_requirement(&self) -> (r: bool)
        ensures
            r == self.covered(),
    {
        self.total_collateral >= to_signed(self.margin_requirement)
    }

    pub fn meets_margin_requirement_with_buffer(&self) -> (r: bool)
        ensures
            r == self.covered_with_buffer(),
    {
        self.get_total_collateral_plus_buffer() >= to_signed(self.margin_requirement_plus_buffer)
    }

    pub fn margin_shortage(&self) -> (r: u128)
        ensures
            r == self.shortage(),
    {
        let shortage: i128 = saturating_difference(
            to_signed(self.margin_requirement_plus_buffer),
            self.get_total_collateral_plus_buffer(),
        );
        if shortage > 0 {
            shortage as u128
        } else {
            0
        }
    }
}

/// The outcome of a margin calculation.
#[derive(Debug, Clone, Copy)]
pub struct SimplifiedMarginCalculation {
    pub total_collateral: i128,
    pub total_collateral_buffer: i128,
    pub margin_requirement: u128,
    pub margin_requirement_plus_buffer: u128,
    pub isolated_margin_calculations: [IsolatedMarginCalculation; 8],
    pub with_perp_isolated_liability: bool,
    pub with_spot_isolated_liability: bool,
}

/// The outcome of a margin calculation, with numbers without bounds.
pub struct SimplifiedView {
    pub totals: MarginTotals,
    pub isolated: Seq<IsolatedMarginCalculation>,
    pub with_perp_isolated_liability: bool,
    pub with_spot_isolated_liability: bool,
}

impl SimplifiedView {
    /// The collateral that the requirement, read as a signed number, leaves.
    pub open spec fn free_collateral(self) -> int {
        self.totals.collateral - signed_bits(self.totals.requirement)
    }

    /// The collateral with its buffer, cut off at the bounds of an `i128`.
    pub open spec fn collateral_plus_buffer(self) -> int {
        clamp_i128(self.totals.collateral + self.totals.collateral_buffer)
    }

    /// [`Self::free_collateral`], with the buffers.
    pub open spec fn free_collateral_with_buffer(self) -> int {
        self.collateral_plus_buffer() - signed_bits(self.totals.requirement_plus_buffer)
    }

    pub open spec fn cross_covered(self) -> bool {
        self.free_collateral() >= 0
    }

    pub open spec fn cross_covered_with_buffer(self) -> bool {
        self.free_collateral_with_buffer() >= 0
    }

    /// Whether the cross margin and every isolated position are covered.
    pub open spec fn covered(self) -> bool {
        &&& self.cross_covered()
        &&& forall|i: int|
            0 <= i < self.isolated.len() ==> (#[trigger] self.isolated[i]).empty()
                || self.isolated[i].covered()
    }

    /// [`Self::covered`], with the buffers.
    pub open spec fn covered_with_buffer(self) -> bool {
        &&& self.cross_covered_with_buffer()
        &&& forall|i: int|
            0 <= i < self.isolated.len() ==> (#[trigger] self.isolated[i]).empty()
                || self.isolated[i].covered_with_buffer()
    }

    /// The place of the first calculation of `market_index`.
    pub open spec fn isolated_place(self, market_index: u16) -> Option<int> {
        first_place(self.isolated, |c: IsolatedMarginCalculation| c.is_for(market_index), 0)
    }
}

impl View for SimplifiedMarginCalculation {
    type V = SimplifiedView;

    open spec fn view(&self) -> SimplifiedView {
        SimplifiedView {
            totals: MarginTotals {
                collateral: self.total_collateral as int,
                collateral_buffer: self.total_collateral_buffer as int,
                requirement: self.margin_requirement as int,
                requirement_plus_buffer: self.margin_requirement_plus_buffer as int,
            },
            isolated: self.isolated_margin_calculations@,
            with_perp_isolated_liability: self.with_perp_isolated_liability,
            with_spot_isolated_liability: self.with_spot_isolated_liability,
        }
    }
}

impl SimplifiedMarginCalculation {
    pub fn free_collateral(&self) -> (r: i128)
        requires
            fits_i128(self@.free_collateral()),
        ensures
            r == self@.free_collateral(),
    {
        self.total_collateral - to_signed(self.margin_requirement)
    }

    pub fn get_total_collateral_plus_buffer(&self) -> (r: i128)
        ensures
            r == self@.collateral_plus_buffer(),
    {
        saturating_sum(self.total_collateral, self.total_collateral_buffer)
    }

    pub fn free_collateral_with_buffer(&self) -> (r: i128)
        requires
            fits_i128(self@.free_collateral_with_buffer()),
        ensures
            r == self@.free_collateral_with_buffer(),
    {
        self.get_total_collateral_plus_buffer() - to_signed(self.margin_requirement_plus_buffer)
    }

    pub fn meets_cross_margin_requirement(&self) -> (r: bool)
        ensures
            r == self@.cross_covered(),
    {
        self.total_collateral >= to_signed(self.margin_requirement)
    }

    pub fn meets_cross_margin_requirement_with_buffer(&self) -> (r: bool)
        ensures
            r == self@.cross_covered_with_buffer(),
    {
        self.get_total_collateral_plus_buffer() >= to_signed(self.margin_requirement_plus_buffer)
    }

    pub fn meets_margin_requirement(&self) -> (r: bool)
        ensures
            r == self@.covered(),
    {
        if !self.meets_cross_margin_requirement() {
            return false;
        }
        for i in 0..8usize
            invariant
                self@.cross_covered(),
                forall|j: int|
                    0 <= j < i ==> (#[trigger] self@.isolated[j]).empty()
                        || self@.isolated[j].covered(),
        {
            let calc = self.isolated_margin_calculations[i];
            assert(calc == self@.isolated[i as int]);
            if !calc.is_empty() && !calc.meets_margin_requirement() {
                return false;
            }
        }
        true
    }

    pub fn meets_margin_requirement_with_buffer(&self) -> (r: bool)
        ensures
            r == self@.covered_with_buffer(),
    {
        if !self.meets_cross_margin_requirement_with_buffer() {
            return false;
        }
        for i in 0..8usize
            invariant
                self@.cross_covered_with_buffer(),
                forall|j: int|
                    0 <= j < i ==> (#[trigger] self@.isolated[j]).empty()
                        || self@.isolated[j].covered_with_buffer(),
        {
            let calc = self.isolated_margin_calculations[i];
            assert(calc == self@.isolated[i as int]);
            if !calc.is_empty() && !calc.meets_margin_requirement_with_buffer() {
                return false;
            }
        }
        true
    }

    pub fn has_isolated_margin_calculation(&self, market_index: u16) -> (r: bool)
        ensures
            r == (exists|i: int|
                0 <= i < self@.isolated.len() && (#[trigger] self@.isolated[i]).is_for(
                    market_index,
                )),
    {
        match self.get_isolated_margin_calculation(market_index) {
            Some(_) => true,
            None => false,
        }
    }

    /// The first calculation of `market_index`.
    pub fn get_isolated_margin_calculation(&self, market_index: u16) -> (r: Option<
        &IsolatedMarginCalculation,
    >)
        ensures
            match r {
                Some(calc) => {
                    &&& self@.isolated_place(market_index) is Some
                    &&& 0 <= self@.isolated_place(market_index)->0 < self@.isolated.len()
                    &&& *calc == self@.isolated[self@.isolated_place(market_index)->0]
                    &&& calc.is_for(market_index)
                },
                None => {
                    &&& self@.isolated_place(market_index) is None
                    &&& forall|i: int|
                        0 <= i < self@.isolated.len() ==> !(#[trigger] self@.isolated[i]).is_for(
                            market_index,
                        )
                },
            },
    {
        let ghost wanted = |c: IsolatedMarginCalculation| c.is_for(market_index);
        proof {
            lemma_first_place(self@.isolated, wanted, 0);
        }
        for i in 0..8usize
            invariant
                wanted == (|c: IsolatedMarginCalculation| c.is_for(market_index)),
                forall|j: int| 0 <= j < i ==> !(#[trigger] self@.isolated[j]).is_for(market_index),
                first_place(self@.isolated, wanted, 0) == first_place(
                    self@.isolated,
                    wanted,
                    i as int,
                ),
        {
            let calc = &self.isolated_margin_calculations[i];
            assert(*calc == self@.isolated[i as int]);
            if calc.market_index == market_index && !calc.is_empty() {
                return Some(calc);
            }
        }
        None
    }

    pub fn get_isolated_free_collateral(&self, market_index: u16) -> (r: Option<i128>)
        requires
            self@.isolated_place(market_index) matches Some(place) ==> fits_i128(
                self@.isolated[place].total_collateral - signed_bits(
                    self@.isolated[place].margin_requirement as int,
                ),
            ),
        ensures
            match self@.isolated_place(market_index) {
                Some(place) => {
                    &&& r is Some
                    &&& r->0 == self@.isolated[place].total_collateral - signed_bits(
                        self@.isolated[place].margin_requirement as int,
                    )
                },
                None => r is None,
            },
    {
        match self.get_isolated_margin_calculation(market_index) {
            Some(calc) => Some(calc.total_collateral - to_signed(calc.margin_requirement)),
            None => None,
        }
    }

    pub fn meets_isolated_margin_requirement(&self, market_index: u16) -> (r: Option<bool>)
        ensures
            r == (match self@.isolated_place(market_index) {
                Some(place) => Some(self@.isolated[place].covered()),
                None => None,
            }),
    {
        match self.get_isolated_margin_calculation(market_index) {
            Some(calc) => Some(calc.meets_margin_requirement()),
            None => None,
        }
    }
}

/// Whether the cross margin does not cover its requirement.
pub fn can_be_liquidated(calculation: &SimplifiedMarginCalculation) -> (r: bool)
    requires
        fits_i128(calculation@.free_collateral()),
    ensures
        r == (calculation@.free_collateral() < 0),
{
    calculation.free_collateral() < 0
}

/// An isolated calculation as the C interface has it.
pub open spec fn ffi_isolated(
    calc: IsolatedMarginCalculation,
) -> types::IsolatedMarginCalculation {
    types::IsolatedMarginCalculation {
        margin_requirement: types::compat::u128(calc.margin_requirement),
        total_collateral: types::compat::i128(calc.total_collateral),
        total_collateral_buffer: types::compat::i128(calc.total_collateral_buffer),
        margin_requirement_plus_buffer: types::compat::u128(calc.margin_requirement_plus_buffer),
        market_index: calc.market_index,
    }
}

impl From<SimplifiedMarginCalculation> for types::SimplifiedMarginCalculation {
    fn from(value: SimplifiedMarginCalculation) -> (r: Self) {
        let mut isolated_margin_calculations = [types::IsolatedMarginCalculation::default();8];
        for i in 0..8usize
            invariant
                forall|j: int|
                    0 <= j < i ==> (#[trigger] isolated_margin_calculations@[j]) == ffi_isolated(
                        value.isolated_margin_calculations[j],
                    ),
        {
            let calc = value.isolated_margin_calculations[i];
            isolated_margin_calculations[i] =
            types::IsolatedMarginCalculation {
                margin_requirement: calc.margin_requirement.into(),
                total_collateral: calc.total_collateral.into(),
                total_collateral_buffer: calc.total_collateral_buffer.into(),
                margin_requirement_plus_buffer: calc.margin_requirement_plus_buffer.into(),
                market_index: calc.market_index,
            };
        }
        assert(isolated_margin_calculations =~= ffi_isolated_calculations(value));
        types::SimplifiedMarginCalculation {
            total_collateral: value.total_collateral.into(),
            total_collateral_buffer: value.total_collateral_buffer.into(),
            margin_requirement: value.margin_requirement.into(),
            margin_requirement_plus_buffer: value.margin_requirement_plus_buffer.into(),
            isolated_margin_calculations,
            with_perp_isolated_liability: value.with_perp_isolated_liability,
            with_spot_isolated_liability: value.with_spot_isolated_liability,
        }
    }
}

/// The isolated calculations as the C interface has them, each at its place.
pub open spec fn ffi_isolated_calculations(
    value: SimplifiedMarginCalculation,
) -> [types::IsolatedMarginCalculation; 8] {
    let calcs = value.isolated_margin_calculations;
    [
        ffi_isolated(calcs[0]),
        ffi_isolated(calcs[1]),
        ffi_isolated(calcs[2]),
        ffi_isolated(calcs[3]),
        ffi_isolated(calcs[4]),
        ffi_isolated(calcs[5]),
        ffi_isolated(calcs[6]),
        ffi_isolated(calcs[7]),
    ]
}

impl FromSpecImpl<SimplifiedMarginCalculation> for types::SimplifiedMarginCalculation {
    open spec fn obeys_from_spec() -> bool {
        true
    }

    open spec fn from_spec(value: SimplifiedMarginCalculation) -> Self {
        types::SimplifiedMarginCalculation {
            total_collateral: types::compat::i128(value.total_collateral),
            total_collateral_buffer: types::compat::i128(value.total_collateral_buffer),
            margin_requirement: types::compat::u128(value.margin_requirement),
            margin_requirement_plus_buffer: types::compat::u128(
                value.margin_requirement_plus_buffer,
            ),
            isolated_margin_calculations: ffi_isolated_calculations(value),
            with_perp_isolated_liability: value.with_perp_isolated_liability,
            with_spot_isolated_liability: value.with_spot_isolated_liability,
        }
    }
}

} // verus!
