//! The incremental margin calculation: what each position adds is kept, so that one
//! position can be calculated anew without the others.
use vstd::prelude::*;

use crate::arith::{
    abs, checked_buffer_share, checked_loss_share, clamp_i128, fits_i128, magnitude,
    saturating_sum, signed_bits, to_signed,
};
use crate::margin::simplified::{
    asset, asset_amounts, calculate_spot_open_order_margin, checked_liability, liability,
    no_positions, open_order_margin, orders_part, perp_part,
};
use crate::margin::totals::{Amounts, MarginTotals};
use crate::margin::{SimplifiedMarginCalculation, SimplifiedView};
use crate::protocol::{
    MarginRequirementType, PerpPosition, SpotMarket, SpotPosition, User,
};
use crate::table::first_place;
use crate::types::MarketState;
use crate::valuation::{
    cached_perp_request, cached_spot_request, is_simulated, requested_cached_perp,
    requested_cached_spot, simulated, PerpFigures, ProgramFigures, SpotFigures,
};

verus! {

/// What one position adds.
#[derive(Copy, Clone, Debug, PartialEq, Eq, Structural)]
pub struct PositionCollateral {
    pub collateral_value: i128,
    pub collateral_buffer: i128,
    pub liability_value: u128,
    pub liability_buffer: u128,
    pub last_updated: u64,
    pub market_index: u16,
}

impl Default for PositionCollateral {
    fn default() -> (r: Self)
        ensures
            r == Self::unused(),
    {
        PositionCollateral {
            collateral_value: 0,
            collateral_buffer: 0,
            liability_value: 0,
            liability_buffer: 0,
            last_updated: 0,
            market_index: 0,
        }
    }
}

impl PositionCollateral {
    /// The entry of an unused place.
    pub open spec fn unused() -> Self {
        PositionCollateral {
            collateral_value: 0,
            collateral_buffer: 0,
            liability_value: 0,
            liability_buffer: 0,
            last_updated: 0,
            market_index: 0,
        }
    }

    /// Whether the entry is of a position.
    pub open spec fn present(self) -> bool {
        self.liability_value != 0 || self.collateral_value != 0 || self.last_updated > 0
    }

    /// Whether the entry is of a position in `market_index`.
    pub open spec fn is_for(self, market_index: u16) -> bool {
        self.market_index == market_index && self.present()
    }

    /// What the entry adds to the sums.
    pub open spec fn amounts(self) -> MarginTotals {
        MarginTotals {
            collateral: self.collateral_value as int,
            collateral_buffer: self.collateral_buffer as int,
            requirement: self.liability_value as int,
            requirement_plus_buffer: self.liability_buffer as int,
        }
    }

    pub fn is_present(&self) -> (r: bool)
        ensures
            r == self.present(),
    {
        self.liability_value != 0 || self.collateral_value != 0 || self.last_updated > 0
    }

    fn get_amounts(&self) -> (r: Amounts)
        ensures
            r@ == self.amounts(),
    {
        Amounts {
            collateral: self.collateral_value,
            collateral_buffer: self.collateral_buffer,
            requirement: self.liability_value,
            requirement_plus_buffer: self.liability_buffer,
        }
    }
}

/// The figures that an incremental calculation reads: the token value alone where the
/// position is not simulated.
pub open spec fn read_figures(
    position: SpotPosition,
    market: SpotMarket,
    figures: SpotFigures,
    custom_margin_ratio: u32,
) -> SpotFigures {
    if simulated(position, market, custom_margin_ratio) {
        figures
    } else {
        SpotFigures {
            token_value: figures.token_value,
            weighted_token_value: figures.token_value,
            orders_value: 0,
        }
    }
}

/// What the tokens of a spot position add; the buffer of a borrow is on its weighted
/// value.
pub open spec fn cached_token_part(figures: SpotFigures, margin_buffer: u32) -> Option<
    MarginTotals,
> {
    if figures.token_value > 0 {
        Some(asset(figures.weighted_token_value as int))
    } else if figures.token_value < 0 {
        liability(
            abs(figures.weighted_token_value as int),
            abs(figures.weighted_token_value as int),
            margin_buffer,
        )
    } else {
        Some(MarginTotals::zero())
    }
}

/// The entry that holds `amounts`.
pub open spec fn entry_of(
    amounts: MarginTotals,
    market_index: u16,
    timestamp: u64,
) -> PositionCollateral {
    PositionCollateral {
        collateral_value: amounts.collateral as i128,
        collateral_buffer: amounts.collateral_buffer as i128,
        liability_value: amounts.requirement as u128,
        liability_buffer: amounts.requirement_plus_buffer as u128,
        last_updated: timestamp,
        market_index,
    }
}

/// What a spot position adds. The margin of its open orders has no buffer.
pub open spec fn spot_entry_amounts(
    position: SpotPosition,
    market: SpotMarket,
    figures: SpotFigures,
    custom_margin_ratio: u32,
    margin_buffer: u32,
) -> Option<MarginTotals> {
    let read = read_figures(position, market, figures, custom_margin_ratio);
    match (cached_token_part(read, margin_buffer), orders_part(read, margin_buffer)) {
        (Some(token), Some(orders)) => Some(
            token.plus(orders).plus(
                MarginTotals {
                    requirement: open_order_margin(position),
                    ..MarginTotals::zero()
                },
            ),
        ),
        _ => None,
    }
}

/// The entry of a spot position: `None` where its market is unknown, the program
/// refused to value it or a number does not fit, `Some(None)` where there is no oracle
/// price.
pub open spec fn spot_entry(
    position: SpotPosition,
    market_state: MarketState,
    margin_type: MarginRequirementType,
    custom_margin_ratio: u32,
    margin_buffer: u32,
    timestamp: u64,
    figures: Result<SpotFigures, u32>,
) -> Option<Option<PositionCollateral>> {
    match requested_cached_spot(position, market_state, margin_type, custom_margin_ratio) {
        None => None,
        Some(None) => Some(None),
        Some(Some(_)) => match figures {
            Err(_) => None,
            Ok(figures) => match spot_entry_amounts(
                position,
                market_state.spot_markets@[position.market_index],
                figures,
                custom_margin_ratio,
                margin_buffer,
            ) {
                Some(amounts) => if amounts.fits() {
                    Some(Some(entry_of(amounts, position.market_index, timestamp)))
                } else {
                    None
                },
                None => None,
            },
        },
    }
}

/// The entry of a perp position: `None` where its market is unknown, the program
/// refused to value it or a number does not fit, `Some(None)` where there is no oracle
/// price for its market or the quote market.
pub open spec fn perp_entry(
    position: PerpPosition,
    market_state: MarketState,
    margin_type: MarginRequirementType,
    high_leverage_mode: bool,
    margin_buffer: u32,
    timestamp: u64,
    figures: Result<PerpFigures, u32>,
) -> Option<Option<PositionCollateral>> {
    match requested_cached_perp(position, market_state, margin_type, high_leverage_mode) {
        None => None,
        Some(None) => Some(None),
        Some(Some(_)) => match figures {
            Err(_) => None,
            Ok(figures) => match perp_part(figures, margin_buffer) {
                Some(amounts) => if amounts.fits() {
                    Some(Some(entry_of(amounts, position.market_index, timestamp)))
                } else {
                    None
                },
                None => None,
            },
        },
    }
}

/// [`spot_entry`], computed.
#[allow(clippy::too_many_arguments)]
fn calculate_spot_position_collateral(
    spot_position: &SpotPosition,
    market_state: &MarketState,
    margin_type: MarginRequirementType,
    user_custom_margin_ratio: u32,
    margin_buffer: u32,
    timestamp: u64,
    figures: Result<SpotFigures, u32>,
) -> (r: Option<Option<PositionCollateral>>)
    ensures
        r == spot_entry(
            *spot_position,
            *market_state,
            margin_type,
            user_custom_margin_ratio,
            margin_buffer,
            timestamp,
            figures,
        ),
{
    match cached_spot_request(spot_position, market_state, margin_type, user_custom_margin_ratio) {
        None => {
            return None;
        },
        Some(None) => {
            return Some(None);
        },
        Some(Some(_)) => {},
    }
    let figures = match figures {
        Ok(figures) => figures,
        Err(_) => {
            return None;
        },
    };
    let spot_market = market_state.get_spot_market(spot_position.market_index);
    let read = if is_simulated(spot_position, spot_market, user_custom_margin_ratio) {
        figures
    } else {
        SpotFigures {
            token_value: figures.token_value,
            weighted_token_value: figures.token_value,
            orders_value: 0,
        }
    };
    let token = if read.token_value > 0 {
        asset_amounts(read.weighted_token_value)
    } else if read.token_value < 0 {
        let value: u128 = magnitude(read.weighted_token_value);
        match checked_liability(value, value, margin_buffer) {
            Some(amounts) => amounts,
            None => {
                return None;
            },
        }
    } else {
        Amounts::zero()
    };
    let orders = if read.orders_value > 0 {
        asset_amounts(read.orders_value)
    } else if read.orders_value < 0 {
        let value: u128 = magnitude(read.orders_value);
        match checked_liability(value, value, margin_buffer) {
            Some(amounts) => amounts,
            None => {
                return None;
            },
        }
    } else {
        Amounts::zero()
    };
    let amounts = match token.checked_plus(orders) {
        Some(amounts) => amounts,
        None => {
            return None;
        },
    };
    let liability_value: u128 = match amounts.requirement.checked_add(
        calculate_spot_open_order_margin(spot_position),
    ) {
        Some(liability_value) => liability_value,
        None => {
            return None;
        },
    };
    Some(
        Some(
            PositionCollateral {
                market_index: spot_position.market_index,
                collateral_value: amounts.collateral,
                collateral_buffer: 0,
                liability_value,
                liability_buffer: amounts.requirement_plus_buffer,
                last_updated: timestamp,
            },
        ),
    )
}

/// [`perp_entry`], computed.
fn calculate_perp_position_collateral(
    perp_position: &PerpPosition,
    market_state: &MarketState,
    margin_type: MarginRequirementType,
    user_high_leverage_mode: bool,
    margin_buffer: u32,
    timestamp: u64,
    figures: Result<PerpFigures, u32>,
) -> (r: Option<Option<PositionCollateral>>)
    ensures
        r == perp_entry(
            *perp_position,
            *market_state,
            margin_type,
            user_high_leverage_mode,
            margin_buffer,
            timestamp,
            figures,
        ),
{
    match cached_perp_request(perp_position, market_state, margin_type, user_high_leverage_mode) {
        None => {
            return None;
        },
        Some(None) => {
            return Some(None);
        },
        Some(Some(_)) => {},
    }
    let figures = match figures {
        Ok(figures) => figures,
        Err(_) => {
            return None;
        },
    };
    let share: u128 = match checked_buffer_share(
        figures.worst_case_liability_value,
        margin_buffer,
    ) {
        Some(share) => share,
        None => {
            return None;
        },
    };
    let liability_buffer: u128 = match figures.margin_requirement.checked_add(share) {
        Some(sum) => sum,
        None => {
            return None;
        },
    };
    let collateral_buffer: i128 = if figures.weighted_pnl < 0 {
        match checked_loss_share(figures.weighted_pnl, margin_buffer) {
            Some(loss) => loss,
            None => {
                return None;
            },
        }
    } else {
        0
    };
    Some(
        Some(
            PositionCollateral {
                market_index: perp_position.market_index,
                collateral_value: figures.weighted_pnl,
                collateral_buffer,
                liability_value: figures.margin_requirement,
                liability_buffer,
                last_updated: timestamp,
            },
        ),
    )
}

/// A margin calculation that keeps what each position adds.
#[derive(Debug, Clone, Copy)]
pub struct IncrementalMarginCalculation {
    pub total_collateral: i128,
    pub total_collateral_buffer: i128,
    pub margin_requirement: u128,
    pub margin_requirement_plus_buffer: u128,
    pub spot_collateral: [PositionCollateral; 8],
    pub perp_collateral: [PositionCollateral; 8],
    pub last_updated: u64,
    pub user_custom_margin_ratio: u32,
    pub margin_buffer: u32,
    pub margin_type: MarginRequirementType,
    pub user_high_leverage_mode: bool,
    pub user_pool_id: u8,
}

/// What stays the same over the updates of an incremental calculation.
pub struct IncrementalSettings {
    pub user_custom_margin_ratio: u32,
    pub margin_buffer: u32,
    pub margin_type: MarginRequirementType,
    pub user_high_leverage_mode: bool,
    pub user_pool_id: u8,
}

/// An incremental calculation, with numbers without bounds.
pub struct IncrementalView {
    pub totals: MarginTotals,
    pub spot: Seq<PositionCollateral>,
    pub perp: Seq<PositionCollateral>,
    pub last_updated: u64,
    pub settings: IncrementalSettings,
}

impl View for IncrementalMarginCalculation {
    type V = IncrementalView;

    open spec fn view(&self) -> IncrementalView {
        IncrementalView {
            totals: MarginTotals {
                collateral: self.total_collateral as int,
                collateral_buffer: self.total_collateral_buffer as int,
                requirement: self.margin_requirement as int,
                requirement_plus_buffer: self.margin_requirement_plus_buffer as int,
            },
            spot: self.spot_collateral@,
            perp: self.perp_collateral@,
            last_updated: self.last_updated,
            settings: IncrementalSettings {
                user_custom_margin_ratio: self.user_custom_margin_ratio,
                margin_buffer: self.margin_buffer,
                margin_type: self.margin_type,
                user_high_leverage_mode: self.user_high_leverage_mode,
                user_pool_id: self.user_pool_id,
            },
        }
    }
}

/// A table without entries.
pub open spec fn empty_table() -> Seq<PositionCollateral> {
    Seq::new(8, |i: int| PositionCollateral::unused())
}

/// The place of the first entry for `market_index`.
pub open spec fn kept_place(table: Seq<PositionCollateral>, market_index: u16) -> Option<int> {
    first_place(table, |c: PositionCollateral| c.is_for(market_index), 0)
}

/// The first place without an entry.
pub open spec fn free_place(table: Seq<PositionCollateral>) -> Option<int> {
    first_place(table, |c: PositionCollateral| !c.present(), 0)
}

/// `table` with `entry` at its first free place, where there is one.
pub open spec fn kept(
    table: Seq<PositionCollateral>,
    entry: PositionCollateral,
) -> Seq<PositionCollateral> {
    match free_place(table) {
        Some(place) => table.update(place, entry),
        None => table,
    }
}

impl IncrementalView {
    /// The calculation of a user without positions.
    pub open spec fn start(settings: IncrementalSettings, last_updated: u64) -> Self {
        IncrementalView {
            totals: MarginTotals::zero(),
            spot: empty_table(),
            perp: empty_table(),
            last_updated,
            settings,
        }
    }

    pub open spec fn free_collateral(self) -> int {
        self.totals.collateral - signed_bits(self.totals.requirement)
    }

    pub open spec fn collateral_plus_buffer(self) -> int {
        clamp_i128(self.totals.collateral + self.totals.collateral_buffer)
    }

    pub open spec fn free_collateral_with_buffer(self) -> int {
        self.collateral_plus_buffer() - signed_bits(self.totals.requirement_plus_buffer)
    }

    /// The entry of a spot position under the settings.
    pub open spec fn spot_entry(
        self,
        position: SpotPosition,
        market_state: MarketState,
        timestamp: u64,
        figures: Result<SpotFigures, u32>,
    ) -> Option<Option<PositionCollateral>> {
        spot_entry(
            position,
            market_state,
            self.settings.margin_type,
            self.settings.user_custom_margin_ratio,
            self.settings.margin_buffer,
            timestamp,
            figures,
        )
    }

    /// The entry of a perp position under the settings.
    pub open spec fn perp_entry(
        self,
        position: PerpPosition,
        market_state: MarketState,
        timestamp: u64,
        figures: Result<PerpFigures, u32>,
    ) -> Option<Option<PositionCollateral>> {
        perp_entry(
            position,
            market_state,
            self.settings.margin_type,
            self.settings.user_high_leverage_mode,
            self.settings.margin_buffer,
            timestamp,
            figures,
        )
    }

    /// The sums with `old` taken off and then, unless the position is gone, `new`
    /// added. `None` where a sum does not fit.
    pub open spec fn replaced(
        self,
        old_entry: PositionCollateral,
        new_entry: PositionCollateral,
        gone: bool,
    ) -> Option<MarginTotals> {
        let without = self.totals.minus(old_entry.amounts());
        let with = without.plus(new_entry.amounts());
        if !without.fits() {
            None
        } else if gone {
            Some(without)
        } else if with.fits() {
            Some(with)
        } else {
            None
        }
    }

    /// The calculation after a spot position changed. A position that is kept is
    /// calculated anew in its place, or loses it where it is gone. Another one is
    /// added, and kept while there is room. Without an oracle price nothing but
    /// the time changes. `None` where the entry is needed and cannot be
    /// calculated, or a sum does not fit.
    pub open spec fn spot_updated(
        self,
        position: SpotPosition,
        market_state: MarketState,
        timestamp: u64,
        figures: Result<SpotFigures, u32>,
    ) -> Option<Self> {
        let unchanged = IncrementalView { last_updated: timestamp, ..self };
        match kept_place(self.spot, position.market_index) {
            Some(place) => match self.spot_entry(position, market_state, timestamp, figures) {
                None => None,
                Some(None) => Some(unchanged),
                Some(Some(entry)) => match self.replaced(
                    self.spot[place],
                    entry,
                    position.available,
                ) {
                    Some(totals) => Some(
                        IncrementalView {
                            totals,
                            spot: self.spot.update(
                                place,
                                if position.available {
                                    PositionCollateral::unused()
                                } else {
                                    entry
                                },
                            ),
                            ..unchanged
                        },
                    ),
                    None => None,
                },
            },
            None => if position.available {
                Some(unchanged)
            } else {
                match self.spot_entry(position, market_state, timestamp, figures) {
                    None => None,
                    Some(None) => Some(unchanged),
                    Some(Some(entry)) => if self.totals.plus(entry.amounts()).fits() {
                        Some(
                            IncrementalView {
                                totals: self.totals.plus(entry.amounts()),
                                spot: kept(self.spot, entry),
                                ..unchanged
                            },
                        )
                    } else {
                        None
                    },
                }
            },
        }
    }

    /// The calculation after a perp position changed; see [`Self::spot_updated`].
    pub open spec fn perp_updated(
        self,
        position: PerpPosition,
        market_state: MarketState,
        timestamp: u64,
        figures: Result<PerpFigures, u32>,
    ) -> Option<Self> {
        let unchanged = IncrementalView { last_updated: timestamp, ..self };
        match kept_place(self.perp, position.market_index) {
            Some(place) => match self.perp_entry(position, market_state, timestamp, figures) {
                None => None,
                Some(None) => Some(unchanged),
                Some(Some(entry)) => match self.replaced(
                    self.perp[place],
                    entry,
                    position.available,
                ) {
                    Some(totals) => Some(
                        IncrementalView {
                            totals,
                            perp: self.perp.update(
                                place,
                                if position.available {
                                    PositionCollateral::unused()
                                } else {
                                    entry
                                },
                            ),
                            ..unchanged
                        },
                    ),
                    None => None,
                },
            },
            None => if position.available {
                Some(unchanged)
            } else {
                match self.perp_entry(position, market_state, timestamp, figures) {
                    None => None,
                    Some(None) => Some(unchanged),
                    Some(Some(entry)) => if self.totals.plus(entry.amounts()).fits() {
                        Some(
                            IncrementalView {
                                totals: self.totals.plus(entry.amounts()),
                                perp: kept(self.perp, entry),
                                ..unchanged
                            },
                        )
                    } else {
                        None
                    },
                }
            },
        }
    }
}

/// What a full incremental calculation is made from.
pub struct IncrementalInput {
    pub settings: IncrementalSettings,
    /// The time of the last change before it.
    pub before: u64,
    pub user: User,
    pub market_state: MarketState,
    pub timestamp: u64,
    pub figures: ProgramFigures,
}

impl IncrementalInput {
    /// The calculation after the first `count` spot positions.
    pub open spec fn after_spot(self, count: nat) -> Option<IncrementalView>
        decreases count,
    {
        if count == 0 {
            Some(IncrementalView::start(self.settings, self.before))
        } else {
            let position = self.user.spot_positions[count - 1];
            match self.after_spot((count - 1) as nat) {
                Some(so_far) => if position.available {
                    Some(so_far)
                } else {
                    so_far.spot_updated(
                        position,
                        self.market_state,
                        self.timestamp,
                        self.figures.spot[count - 1],
                    )
                },
                None => None,
            }
        }
    }

    /// The calculation after the spot positions and the first `count` perp
    /// positions.
    pub open spec fn after_perp(self, count: nat) -> Option<IncrementalView>
        decreases count,
    {
        if count == 0 {
            self.after_spot(8)
        } else {
            let position = self.user.perp_positions[count - 1];
            match self.after_perp((count - 1) as nat) {
                Some(so_far) => if position.available {
                    Some(so_far)
                } else {
                    so_far.perp_updated(
                        position,
                        self.market_state,
                        self.timestamp,
                        self.figures.perp[count - 1],
                    )
                },
                None => None,
            }
        }
    }

    /// The calculation over all positions. `None` where the entry of a position
    /// cannot be calculated, or a sum does not fit.
    pub open spec fn outcome(self) -> Option<IncrementalView> {
        match self.after_perp(8) {
            Some(calculation) => Some(
                IncrementalView { last_updated: self.timestamp, ..calculation },
            ),
            None => None,
        }
    }
}

/// The settings under which a user's margin is calculated.
pub open spec fn settings_of(
    user: User,
    margin_type: MarginRequirementType,
    margin_buffer: u32,
) -> IncrementalSettings {
    IncrementalSettings {
        user_custom_margin_ratio: user.custom_margin_ratio(margin_type),
        margin_buffer,
        margin_type,
        user_high_leverage_mode: user.high_leverage_mode,
        user_pool_id: user.pool_id,
    }
}

/// What calculating a user's margin from nothing is made from.
pub open spec fn input_of(
    user: User,
    market_state: MarketState,
    margin_type: MarginRequirementType,
    timestamp: u64,
    margin_buffer: u32,
    figures: ProgramFigures,
) -> IncrementalInput {
    IncrementalInput {
        settings: settings_of(user, margin_type, margin_buffer),
        before: 0,
        user,
        market_state,
        timestamp,
        figures,
    }
}

fn find_kept(table: &[PositionCollateral; 8], market_index: u16) -> (r: Option<usize>)
    ensures
        match r {
            Some(place) => kept_place(table@, market_index) == Some(place as int) && place < 8,
            None => kept_place(table@, market_index) is None,
        },
{
    let ghost wanted = |c: PositionCollateral| c.is_for(market_index);
    for i in 0..8usize
        invariant
            wanted == (|c: PositionCollateral| c.is_for(market_index)),
            first_place(table@, wanted, 0) == first_place(table@, wanted, i as int),
    {
        if table[i].market_index == market_index && table[i].is_present() {
            return Some(i);
        }
    }
    None
}

fn find_free(table: &[PositionCollateral; 8]) -> (r: Option<usize>)
    ensures
        match r {
            Some(place) => free_place(table@) == Some(place as int) && place < 8,
            None => free_place(table@) is None,
        },
{
    let ghost wanted = |c: PositionCollateral| !c.present();
    for i in 0..8usize
        invariant
            wanted == (|c: PositionCollateral| !c.present()),
            first_place(table@, wanted, 0) == first_place(table@, wanted, i as int),
    {
        if !table[i].is_present() {
            return Some(i);
        }
    }
    None
}

impl Default for IncrementalMarginCalculation {
    fn default() -> (r: Self)
        ensures
            r@ == IncrementalView::start(
                IncrementalSettings {
                    user_custom_margin_ratio: 0,
                    margin_buffer: 0,
                    margin_type: MarginRequirementType::Initial,
                    user_high_leverage_mode: false,
                    user_pool_id: 0,
                },
                0,
            ),
    {
        let r = IncrementalMarginCalculation {
            total_collateral: 0,
            total_collateral_buffer: 0,
            margin_requirement: 0,
            margin_requirement_plus_buffer: 0,
            spot_collateral: [PositionCollateral::default();8],
            perp_collateral: [PositionCollateral::default();8],
            last_updated: 0,
            user_custom_margin_ratio: 0,
            margin_buffer: 0,
            margin_type: MarginRequirementType::Initial,
            user_high_leverage_mode: false,
            user_pool_id: 0,
        };
        assert(r@.spot =~= empty_table());
        assert(r@.perp =~= empty_table());
        r
    }
}

impl IncrementalMarginCalculation {
    pub fn new(
        margin_type: MarginRequirementType,
        user_high_leverage_mode: bool,
        user_custom_margin_ratio: u32,
        margin_buffer: u32,
        user_pool_id: u8,
    ) -> (r: Self)
        ensures
            r@ == IncrementalView::start(
                IncrementalSettings {
                    user_custom_margin_ratio,
                    margin_buffer,
                    margin_type,
                    user_high_leverage_mode,
                    user_pool_id,
                },
                0,
            ),
    {
        IncrementalMarginCalculation {
            margin_type,
            user_high_leverage_mode,
            user_custom_margin_ratio,
            margin_buffer,
            user_pool_id,
            ..IncrementalMarginCalculation::default()
        }
    }

    pub fn free_collateral(&self) -> (r: i128)
        requires
            fits_i128(self@.free_collateral()),
        ensures
            r == self@.free_collateral(),
    {
        self.total_collateral - to_signed(self.margin_requirement)
    }

    pub fn get_total_collateral_plus_buffer(&self) -> (r: i128)
        ensures
            r == self@.collateral_plus_buffer(),
    {
        saturating_sum(self.total_collateral, self.total_collateral_buffer)
    }

    pub fn free_collateral_with_buffer(&self) -> (r: i128)
        requires
            fits_i128(self@.free_collateral_with_buffer()),
        ensures
            r == self@.free_collateral_with_buffer(),
    {
        self.get_total_collateral_plus_buffer() - to_signed(self.margin_requirement_plus_buffer)
    }

    pub fn meets_margin_requirement(&self) -> (r: bool)
        ensures
            r == (self@.free_collateral() >= 0),
    {
        self.total_collateral >= to_signed(self.margin_requirement)
    }

    pub fn meets_margin_requirement_with_buffer(&self) -> (r: bool)
        ensures
            r == (self@.free_collateral_with_buffer() >= 0),
    {
        self.get_total_collateral_plus_buffer() >= to_signed(self.margin_requirement_plus_buffer)
    }

    fn sums(&self) -> (r: Amounts)
        ensures
            r@ == self@.totals,
    {
        Amounts {
            collateral: self.total_collateral,
            collateral_buffer: self.total_collateral_buffer,
            requirement: self.margin_requirement,
            requirement_plus_buffer: self.margin_requirement_plus_buffer,
        }
    }

    fn set_sums(&mut self, sums: Amounts)
        ensures
            final(self)@ == (IncrementalView { totals: sums@, ..old(self)@ }),
    {
        self.total_collateral = sums.collateral;
        self.total_collateral_buffer = sums.collateral_buffer;
        self.margin_requirement = sums.requirement;
        self.margin_requirement_plus_buffer = sums.requirement_plus_buffer;
    }

    /// [`IncrementalView::replaced`], computed.
    fn checked_replaced(
        &self,
        old_entry: PositionCollateral,
        new_entry: PositionCollateral,
        gone: bool,
    ) -> (r: Option<Amounts>)
        ensures
            match r {
                Some(sums) => self@.replaced(old_entry, new_entry, gone) == Some(sums@),
                None => self@.replaced(old_entry, new_entry, gone) is None,
            },
    {
        match self.sums().checked_minus(old_entry.get_amounts()) {
            Some(without) => if gone {
                Some(without)
            } else {
                without.checked_plus(new_entry.get_amounts())
            },
            None => None,
        }
    }

    /// Calculates a spot position anew. Where that cannot be done, the answer is
    /// `false` and nothing changes.
    pub fn checked_update_spot_position(
        &mut self,
        spot_position: &SpotPosition,
        market_state: &MarketState,
        timestamp: u64,
        figures: Result<SpotFigures, u32>,
    ) -> (r: bool)
        ensures
            match old(self)@.spot_updated(*spot_position, *market_state, timestamp, figures) {
                Some(updated) => r && final(self)@ == updated,
                None => !r && *final(self) == *old(self),
            },
    {
        let place = find_kept(&self.spot_collateral, spot_position.market_index);
        if place.is_some() || !spot_position.available {
            let entry = match calculate_spot_position_collateral(
                spot_position,
                market_state,
                self.margin_type,
                self.user_custom_margin_ratio,
                self.margin_buffer,
                timestamp,
                figures,
            ) {
                Some(entry) => entry,
                None => {
                    return false;
                },
            };
            if let Some(entry) = entry {
                match place {
                    Some(place) => {
                        match self.checked_replaced(
                            self.spot_collateral[place],
                            entry,
                            spot_position.available,
                        ) {
                            Some(sums) => {
                                self.set_sums(sums);
                                self.spot_collateral[place] =
                                if spot_position.available {
                                    PositionCollateral::default()
                                } else {
                                    entry
                                };
                            },
                            None => {
                                return false;
                            },
                        }
                    },
                    None => {
                        match self.sums().checked_plus(entry.get_amounts()) {
                            Some(sums) => {
                                self.set_sums(sums);
                            },
                            None => {
                                return false;
                            },
                        }
                        if let Some(free) = find_free(&self.spot_collateral) {
                            self.spot_collateral[free] = entry;
                        }
                    },
                }
            }
        }
        self.last_updated = timestamp;
        true
    }

    /// Calculates a perp position anew. Where that cannot be done, the answer is
    /// `false` and nothing changes.
    pub fn checked_update_perp_position(
        &mut self,
        perp_position: &PerpPosition,
        market_state: &MarketState,
        timestamp: u64,
        figures: Result<PerpFigures, u32>,
    ) -> (r: bool)
        ensures
            match old(self)@.perp_updated(*perp_position, *market_state, timestamp, figures) {
                Some(updated) => r && final(self)@ == updated,
                None => !r && *final(self) == *old(self),
            },
    {
        let place = find_kept(&self.perp_collateral, perp_position.market_index);
        if place.is_some() || !perp_position.available {
            let entry = match calculate_perp_position_collateral(
                perp_position,
                market_state,
                self.margin_type,
                self.user_high_leverage_mode,
                self.margin_buffer,
                timestamp,
                figures,
            ) {
                Some(entry) => entry,
                None => {
                    return false;
                },
            };
            if let Some(entry) = entry {
                match place {
                    Some(place) => {
                        match self.checked_replaced(
                            self.perp_collateral[place],
                            entry,
                            perp_position.available,
                        ) {
                            Some(sums) => {
                                self.set_sums(sums);
                                self.perp_collateral[place] =
                                if perp_position.available {
                                    PositionCollateral::default()
                                } else {
                                    entry
                                };
                            },
                            None => {
                                return false;
                            },
                        }
                    },
                    None => {
                        match self.sums().checked_plus(entry.get_amounts()) {
                            Some(sums) => {
                                self.set_sums(sums);
                            },
                            None => {
                                return false;
                            },
                        }
                        if let Some(free) = find_free(&self.perp_collateral) {
                            self.perp_collateral[free] = entry;
                        }
                    },
                }
            }
        }
        self.last_updated = timestamp;
        true
    }

    /// [`Self::checked_update_spot_position`] where that can be done.
    pub fn update_spot_position(
        &mut self,
        spot_position: &SpotPosition,
        market_state: &MarketState,
        timestamp: u64,
        figures: Result<SpotFigures, u32>,
    )
        requires
            old(self)@.spot_updated(*spot_position, *market_state, timestamp, figures) is Some,
        ensures
            old(self)@.spot_updated(*spot_position, *market_state, timestamp, figures) == Some(
                final(self)@,
            ),
    {
        self.checked_update_spot_position(spot_position, market_state, timestamp, figures);
    }

    /// [`Self::checked_update_perp_position`] where that can be done.
    pub fn update_perp_position(
        &mut self,
        perp_position: &PerpPosition,
        market_state: &MarketState,
        timestamp: u64,
        figures: Result<PerpFigures, u32>,
    )
        requires
            old(self)@.perp_updated(*perp_position, *market_state, timestamp, figures) is Some,
        ensures
            old(self)@.perp_updated(*perp_position, *market_state, timestamp, figures) == Some(
                final(self)@,
            ),
    {
        self.checked_update_perp_position(perp_position, market_state, timestamp, figures);
    }

    /// Calculates all positions of a user anew. Where that cannot be done, the
    /// answer is `false` and nothing changes.
    pub fn checked_calculate(
        &mut self,
        user: &User,
        market_state: &MarketState,
        timestamp: u64,
        figures: &ProgramFigures,
    ) -> (r: bool)
        ensures
            match (IncrementalInput {
                settings: old(self)@.settings,
                before: old(self)@.last_updated,
                user: *user,
                market_state: *market_state,
                timestamp,
                figures: *figures,
            }).outcome() {
                Some(calculation) => r && final(self)@ == calculation,
                None => !r && *final(self) == *old(self),
            },
    {
        let ghost input = IncrementalInput {
            settings: self@.settings,
            before: self@.last_updated,
            user: *user,
            market_state: *market_state,
            timestamp,
            figures: *figures,
        };
        let mut calculation = IncrementalMarginCalculation {
            total_collateral: 0,
            total_collateral_buffer: 0,
            margin_requirement: 0,
            margin_requirement_plus_buffer: 0,
            spot_collateral: [PositionCollateral::default();8],
            perp_collateral: [PositionCollateral::default();8],
            ..*self
        };
        assert(calculation@.spot =~= empty_table());
        assert(calculation@.perp =~= empty_table());
        for i in 0..8usize
            invariant
                *self == *old(self),
                input == (IncrementalInput {
                    settings: old(self)@.settings,
                    before: old(self)@.last_updated,
                    user: *user,
                    market_state: *market_state,
                    timestamp,
                    figures: *figures,
                }),
                input.after_spot(i as nat) == Some(calculation@),
        {
            proof {
                lemma_spot_ends(input, (i + 1) as nat, 8);
                lemma_perp_ends(input, 0, 8);
            }
            if !user.spot_positions[i].available {
                if !calculation.checked_update_spot_position(
                    &user.spot_positions[i],
                    market_state,
                    timestamp,
                    figures.spot[i],
                ) {
                    return false;
                }
            }
        }
        for i in 0..8usize
            invariant
                *self == *old(self),
                input == (IncrementalInput {
                    settings: old(self)@.settings,
                    before: old(self)@.last_updated,
                    user: *user,
                    market_state: *market_state,
                    timestamp,
                    figures: *figures,
                }),
                input.after_perp(i as nat) == Some(calculation@),
        {
            proof {
                lemma_perp_ends(input, (i + 1) as nat, 8);
            }
            if !user.perp_positions[i].available {
                if !calculation.checked_update_perp_position(
                    &user.perp_positions[i],
                    market_state,
                    timestamp,
                    figures.perp[i],
                ) {
                    return false;
                }
            }
        }
        calculation.last_updated = timestamp;
        *self = calculation;
        true
    }

    /// [`Self::checked_calculate`] where that can be done.
    pub fn calculate(
        &mut self,
        user: &User,
        market_state: &MarketState,
        timestamp: u64,
        figures: &ProgramFigures,
    )
        requires
            (IncrementalInput {
                settings: old(self)@.settings,
                before: old(self)@.last_updated,
                user: *user,
                market_state: *market_state,
                timestamp,
                figures: *figures,
            }).outcome() is Some,
        ensures
            (IncrementalInput {
                settings: old(self)@.settings,
                before: old(self)@.last_updated,
                user: *user,
                market_state: *market_state,
                timestamp,
                figures: *figures,
            }).outcome() == Some(final(self)@),
    {
        self.checked_calculate(user, market_state, timestamp, figures);
    }

    /// The calculation of a user. `None` where it cannot be done.
    pub fn checked_from_user(
        user: &User,
        market_state: &MarketState,
        margin_type: MarginRequirementType,
        timestamp: u64,
        margin_buffer: u32,
        figures: &ProgramFigures,
    ) -> (r: Option<Self>)
        ensures
            match r {
                Some(calculation) => input_of(
                    *user,
                    *market_state,
                    margin_type,
                    timestamp,
                    margin_buffer,
                    *figures,
                ).outcome() == Some(calculation@),
                None => input_of(
                    *user,
                    *market_state,
                    margin_type,
                    timestamp,
                    margin_buffer,
                    *figures,
                ).outcome() is None,
            },
    {
        let mut this = IncrementalMarginCalculation::new(
            margin_type,
            user.high_leverage_mode,
            user.get_custom_margin_ratio(margin_type),
            margin_buffer,
            user.pool_id,
        );
        if this.checked_calculate(user, market_state, timestamp, figures) {
            Some(this)
        } else {
            None
        }
    }

    /// [`Self::checked_from_user`] where that can be done.
    pub fn from_user(
        user: &User,
        market_state: &MarketState,
        margin_type: MarginRequirementType,
        timestamp: u64,
        margin_buffer: u32,
        figures: &ProgramFigures,
    ) -> (r: Self)
        requires
            input_of(
                *user,
                *market_state,
                margin_type,
                timestamp,
                margin_buffer,
                *figures,
            ).outcome() is Some,
        ensures
            input_of(
                *user,
                *market_state,
                margin_type,
                timestamp,
                margin_buffer,
                *figures,
            ).outcome() == Some(r@),
    {
        IncrementalMarginCalculation::checked_from_user(
            user,
            market_state,
            margin_type,
            timestamp,
            margin_buffer,
            figures,
        ).unwrap()
    }

    /// The sums alone, without isolated positions.
    pub fn to_simplified(&self) -> (r: SimplifiedMarginCalculation)
        ensures
            r@ == (SimplifiedView { totals: self@.totals, ..no_positions() }),
            r@.free_collateral() == self@.free_collateral(),
            r@.free_collateral_with_buffer() == self@.free_collateral_with_buffer(),
    {
        SimplifiedMarginCalculation {
            total_collateral: self.total_collateral,
            total_collateral_buffer: self.total_collateral_buffer,
            margin_requirement: self.margin_requirement,
            margin_requirement_plus_buffer: self.margin_requirement_plus_buffer,
            ..SimplifiedMarginCalculation::without_positions()
        }
    }
}

/// A calculation that could not be done stays so after more spot positions.
pub(crate) proof fn lemma_spot_ends(input: IncrementalInput, from: nat, to: nat)
    requires
        from <= to,
    ensures
        input.after_spot(from) is None ==> input.after_spot(to) is None,
    decreases to - from,
{
    if from < to {
        lemma_spot_ends(input, from, (to - 1) as nat);
    }
}

/// A calculation that could not be done stays so after more perp positions.
pub(crate) proof fn lemma_perp_ends(input: IncrementalInput, from: nat, to: nat)
    requires
        from <= to,
    ensures
        input.after_perp(from) is None ==> input.after_perp(to) is None,
    decreases to - from,
{
    if from < to {
        lemma_perp_ends(input, from, (to - 1) as nat);
    }
}

} // verus!
