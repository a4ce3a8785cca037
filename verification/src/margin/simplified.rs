//! The one-off margin calculation.
use vstd::prelude::*;

use crate::arith::{
    abs, buffer_share, checked_buffer_share, checked_loss_share, fits_i128, fits_u128, loss_share,
    magnitude,
};
use crate::margin::totals::{Amounts, MarginTotals};
use crate::margin::{IsolatedMarginCalculation, SimplifiedMarginCalculation, SimplifiedView};
use crate::protocol::{
    AssetTier, ContractTier, ErrorCode, MarginRequirementType, PerpMarket, PerpPosition,
    SpotBalanceType, SpotMarket, SpotPosition, User, OPEN_ORDER_MARGIN_REQUIREMENT,
    QUOTE_SPOT_MARKET_INDEX,
};
use crate::table::first_place;
use crate::types::{lookup, MarketState};
use crate::valuation::{
    is_simulated, perp_request, requested_perp, requested_spot, simulated, spot_request,
    PerpFigures, PerpRequest, ProgramFigures, SpotFigures, SpotRequest,
};

verus! {

/// The margin that the open orders of a spot position ask for.
pub open spec fn open_order_margin(position: SpotPosition) -> int {
    position.open_orders * OPEN_ORDER_MARGIN_REQUIREMENT
}

/// Collateral of `value`.
pub open spec fn asset(value: int) -> MarginTotals {
    MarginTotals { collateral: value, ..MarginTotals::zero() }
}

/// A requirement of `value`, with a buffer on `buffered`.
pub open spec fn liability(value: int, buffered: int, margin_buffer: u32) -> Option<MarginTotals> {
    match buffer_share(buffered, margin_buffer) {
        Some(share) => Some(
            MarginTotals {
                requirement: value,
                requirement_plus_buffer: value + share,
                ..MarginTotals::zero()
            },
        ),
        None => None,
    }
}

/// What a position that is not simulated adds: a deposit is collateral, a borrow is a
/// requirement.
pub open spec fn quote_part(
    position: SpotPosition,
    figures: SpotFigures,
    margin_buffer: u32,
) -> Option<MarginTotals> {
    match position.balance_type {
        SpotBalanceType::Deposit => Some(asset(figures.token_value as int)),
        SpotBalanceType::Borrow => liability(
            abs(figures.token_value as int),
            abs(figures.token_value as int),
            margin_buffer,
        ),
    }
}

/// What the tokens of a simulated position add. The margin of the open
/// orders has no buffer; the buffer of a borrow is on its value without weights.
pub open spec fn token_part(
    position: SpotPosition,
    figures: SpotFigures,
    margin_buffer: u32,
) -> Option<MarginTotals> {
    let orders = MarginTotals {
        requirement: open_order_margin(position),
        ..MarginTotals::zero()
    };
    if figures.token_value > 0 {
        Some(asset(figures.weighted_token_value as int).plus(orders))
    } else if figures.token_value < 0 {
        match liability(
            abs(figures.weighted_token_value as int),
            abs(figures.token_value as int),
            margin_buffer,
        ) {
            Some(part) => Some(part.plus(orders)),
            None => None,
        }
    } else {
        Some(orders)
    }
}

/// What the open orders of a simulated position add.
pub open spec fn orders_part(figures: SpotFigures, margin_buffer: u32) -> Option<MarginTotals> {
    if figures.orders_value > 0 {
        Some(asset(figures.orders_value as int))
    } else if figures.orders_value < 0 {
        liability(
            abs(figures.orders_value as int),
            abs(figures.orders_value as int),
            margin_buffer,
        )
    } else {
        Some(MarginTotals::zero())
    }
}

/// What a spot position adds, in the two steps in which it is added.
pub open spec fn spot_parts(
    position: SpotPosition,
    market: SpotMarket,
    figures: SpotFigures,
    custom_margin_ratio: u32,
    margin_buffer: u32,
) -> Option<(MarginTotals, MarginTotals)> {
    if !simulated(position, market, custom_margin_ratio) {
        match quote_part(position, figures, margin_buffer) {
            Some(part) => Some((part, MarginTotals::zero())),
            None => None,
        }
    } else {
        match (
            token_part(position, figures, margin_buffer),
            orders_part(figures, margin_buffer),
        ) {
            (Some(token), Some(orders)) => Some((token, orders)),
            _ => None,
        }
    }
}

/// Whether a spot position is a liability in an isolated asset other than the quote token.
pub open spec fn spot_isolated_liability(
    position: SpotPosition,
    market: SpotMarket,
    figures: SpotFigures,
) -> bool {
    &&& market.market_index != QUOTE_SPOT_MARKET_INDEX
    &&& market.asset_tier == AssetTier::Isolated
    &&& figures.token_value < 0 || (figures.token_value == 0 && position.has_open_order)
}

/// The calculation with a spot position added. `None` where a sum does not fit.
pub open spec fn spot_added(
    so_far: SimplifiedView,
    position: SpotPosition,
    market: SpotMarket,
    figures: SpotFigures,
    custom_margin_ratio: u32,
    margin_buffer: u32,
) -> Option<SimplifiedView> {
    match spot_parts(position, market, figures, custom_margin_ratio, margin_buffer) {
        Some((first, second)) => if so_far.totals.plus(first).fits() && so_far.totals.plus(
            first,
        ).plus(second).fits() {
            Some(
                SimplifiedView {
                    totals: so_far.totals.plus(first).plus(second),
                    with_spot_isolated_liability: so_far.with_spot_isolated_liability
                        || spot_isolated_liability(position, market, figures),
                    ..so_far
                },
            )
        } else {
            None
        },
        None => None,
    }
}

/// What a perp position without collateral of its own adds. A buffer is on the
/// worst-case liability, and on the profit and loss where it is a loss.
pub open spec fn perp_part(figures: PerpFigures, margin_buffer: u32) -> Option<MarginTotals> {
    match (
        buffer_share(figures.worst_case_liability_value as int, margin_buffer),
        if figures.weighted_pnl < 0 {
            loss_share(figures.weighted_pnl as int, margin_buffer)
        } else {
            Some(0)
        },
    ) {
        (Some(share), Some(loss)) => Some(
            MarginTotals {
                collateral: figures.weighted_pnl as int,
                collateral_buffer: loss,
                requirement: figures.margin_requirement as int,
                requirement_plus_buffer: figures.margin_requirement + share,
            },
        ),
        _ => None,
    }
}

/// The calculation of an isolated perp position. Without a buffer the buffered
/// requirement is zero.
pub open spec fn isolated_entry(
    position: PerpPosition,
    figures: PerpFigures,
    margin_buffer: u32,
) -> Option<IsolatedMarginCalculation> {
    match perp_part(figures, margin_buffer) {
        Some(part) => if fits_i128(figures.deposit_value + figures.weighted_pnl) && (margin_buffer
            == 0 || fits_u128(part.requirement_plus_buffer)) {
            Some(
                IsolatedMarginCalculation {
                    market_index: position.market_index,
                    margin_requirement: figures.margin_requirement,
                    total_collateral: (figures.deposit_value + figures.weighted_pnl) as i128,
                    total_collateral_buffer: part.collateral_buffer as i128,
                    margin_requirement_plus_buffer: if margin_buffer > 0 {
                        part.requirement_plus_buffer as u128
                    } else {
                        0
                    },
                },
            )
        } else {
            None
        },
        None => None,
    }
}

/// `calcs` with `entry` at the first empty place, where there is one.
pub open spec fn placed(
    calcs: Seq<IsolatedMarginCalculation>,
    entry: IsolatedMarginCalculation,
) -> Seq<IsolatedMarginCalculation> {
    match first_place(calcs, |c: IsolatedMarginCalculation| c.empty(), 0) {
        Some(place) => calcs.update(place, entry),
        None => calcs,
    }
}

/// Whether a perp position is a liability in an isolated contract.
pub open spec fn perp_isolated_liability(position: PerpPosition, market: PerpMarket) -> bool {
    &&& market.contract_tier == ContractTier::Isolated
    &&& position.base_asset_amount != 0 || position.quote_asset_amount < 0
        || position.has_open_order
}

/// The calculation with a perp position added. `None` where a sum does not fit.
pub open spec fn perp_added(
    so_far: SimplifiedView,
    position: PerpPosition,
    market: PerpMarket,
    figures: PerpFigures,
    margin_buffer: u32,
) -> Option<SimplifiedView> {
    if position.isolated {
        match isolated_entry(position, figures, margin_buffer) {
            Some(entry) => Some(
                SimplifiedView {
                    isolated: placed(so_far.isolated, entry),
                    with_perp_isolated_liability: true,
                    ..so_far
                },
            ),
            None => None,
        }
    } else {
        match perp_part(figures, margin_buffer) {
            Some(part) => if so_far.totals.plus(part).fits() {
                Some(
                    SimplifiedView {
                        totals: so_far.totals.plus(part),
                        with_perp_isolated_liability: so_far.with_perp_isolated_liability
                            || perp_isolated_liability(position, market),
                        ..so_far
                    },
                )
            } else {
                None
            },
            None => None,
        }
    }
}

/// The calculation of a user without positions.
pub open spec fn no_positions() -> SimplifiedView {
    SimplifiedView {
        totals: MarginTotals::zero(),
        isolated: Seq::new(8, |i: int| IsolatedMarginCalculation::unused()),
        with_perp_isolated_liability: false,
        with_spot_isolated_liability: false,
    }
}

/// What a calculation is made from.
pub struct MarginInput {
    pub user: User,
    pub market_state: MarketState,
    pub margin_type: MarginRequirementType,
    pub margin_buffer: u32,
    pub figures: ProgramFigures,
}

impl MarginInput {
    /// What is asked for the spot position at `place`.
    pub open spec fn spot_request(self, place: int) -> Option<Result<SpotRequest, ErrorCode>> {
        requested_spot(
            self.user.spot_positions[place],
            self.market_state,
            self.margin_type,
            self.user.custom_margin_ratio(self.margin_type),
        )
    }

    /// What is asked for the perp position at `place`.
    pub open spec fn perp_request(self, place: int) -> Option<Result<PerpRequest, ErrorCode>> {
        requested_perp(
            self.user.perp_positions[place],
            self.market_state,
            self.margin_type,
            self.user.custom_margin_ratio(self.margin_type),
            self.user.high_leverage_mode,
        )
    }

    /// The calculation after the spot position at `place`. `None` where its market
    /// is unknown, or a price or a sum does not fit.
    pub open spec fn spot_step(self, so_far: SimplifiedView, place: int) -> Option<
        Result<SimplifiedView, ErrorCode>,
    > {
        let position = self.user.spot_positions[place];
        if position.available {
            Some(Ok(so_far))
        } else {
            match self.spot_request(place) {
                None => None,
                Some(Err(error)) => Some(Err(error)),
                Some(Ok(_)) => match self.figures.spot[place] {
                    Err(code) => Some(Err(ErrorCode::Program(code))),
                    Ok(figures) => match spot_added(
                        so_far,
                        position,
                        self.market_state.spot_markets@[position.market_index],
                        figures,
                        self.user.custom_margin_ratio(self.margin_type),
                        self.margin_buffer,
                    ) {
                        Some(calculation) => Some(Ok(calculation)),
                        None => None,
                    },
                },
            }
        }
    }

    /// The calculation after the perp position at `place`. `None` where its market,
    /// or the quote market of an isolated position, is unknown, or a price or a sum
    /// does not fit.
    pub open spec fn perp_step(self, so_far: SimplifiedView, place: int) -> Option<
        Result<SimplifiedView, ErrorCode>,
    > {
        let position = self.user.perp_positions[place];
        if position.available {
            Some(Ok(so_far))
        } else {
            match self.perp_request(place) {
                None => None,
                Some(Err(error)) => Some(Err(error)),
                Some(Ok(_)) => match self.figures.perp[place] {
                    Err(code) => Some(Err(ErrorCode::Program(code))),
                    Ok(figures) => {
                        let market = self.market_state.perp_markets@[position.market_index];
                        if position.isolated && lookup(
                            self.market_state.spot_markets@,
                            market.quote_spot_market_index,
                        ) is None {
                            None
                        } else {
                            match perp_added(
                                so_far,
                                position,
                                market,
                                figures,
                                self.margin_buffer,
                            ) {
                                Some(calculation) => Some(Ok(calculation)),
                                None => None,
                            }
                        }
                    },
                },
            }
        }
    }

    /// The calculation after the first `count` spot positions. The first error
    /// ends it.
    pub open spec fn after_spot(self, count: nat) -> Option<Result<SimplifiedView, ErrorCode>>
        decreases count,
    {
        if count == 0 {
            Some(Ok(no_positions()))
        } else {
            match self.after_spot((count - 1) as nat) {
                Some(Ok(so_far)) => self.spot_step(so_far, count - 1),
                ended => ended,
            }
        }
    }

    /// The calculation after the spot positions and the first `count` perp
    /// positions. The first error ends it.
    pub open spec fn after_perp(self, count: nat) -> Option<Result<SimplifiedView, ErrorCode>>
        decreases count,
    {
        if count == 0 {
            self.after_spot(8)
        } else {
            match self.after_perp((count - 1) as nat) {
                Some(Ok(so_far)) => self.perp_step(so_far, count - 1),
                ended => ended,
            }
        }
    }

    /// The outcome of the calculation: nothing where a market that it needs is
    /// unknown or a number does not fit, the first error where there is one, and
    /// what all positions add up to otherwise.
    pub open spec fn outcome(self) -> Option<Result<SimplifiedView, ErrorCode>> {
        self.after_perp(8)
    }
}

/// An outcome with its calculation viewed.
pub open spec fn viewed(
    outcome: Option<Result<SimplifiedMarginCalculation, ErrorCode>>,
) -> Option<Result<SimplifiedView, ErrorCode>> {
    match outcome {
        None => None,
        Some(Err(error)) => Some(Err(error)),
        Some(Ok(calculation)) => Some(Ok(calculation@)),
    }
}

pub(crate) fn calculate_spot_open_order_margin(position: &SpotPosition) -> (r: u128)
    ensures
        r == open_order_margin(*position),
{
    position.open_orders as u128 * OPEN_ORDER_MARGIN_REQUIREMENT
}

pub(crate) fn asset_amounts(value: i128) -> (r: Amounts)
    ensures
        r@ == asset(value as int),
{
    Amounts { collateral: value, collateral_buffer: 0, requirement: 0, requirement_plus_buffer: 0 }
}

/// `None` where the product with the buffer, or the requirement with its buffer,
/// does not fit.
pub(crate) fn checked_liability(value: u128, buffered: u128, margin_buffer: u32) -> (r: Option<
    Amounts,
>)
    ensures
        match r {
            Some(amounts) => liability(value as int, buffered as int, margin_buffer) == Some(
                amounts@,
            ),
            None => match liability(value as int, buffered as int, margin_buffer) {
                Some(part) => part.requirement_plus_buffer > u128::MAX,
                None => true,
            },
        },
{
    match checked_buffer_share(buffered, margin_buffer) {
        Some(share) => match value.checked_add(share) {
            Some(sum) => Some(
                Amounts {
                    collateral: 0,
                    collateral_buffer: 0,
                    requirement: value,
                    requirement_plus_buffer: sum,
                },
            ),
            None => None,
        },
        None => None,
    }
}

impl SimplifiedMarginCalculation {
    /// The calculation of a user without positions.
    pub fn without_positions() -> (r: Self)
        ensures
            r@ == no_positions(),
    {
        let r = SimplifiedMarginCalculation {
            total_collateral: 0,
            total_collateral_buffer: 0,
            margin_requirement: 0,
            margin_requirement_plus_buffer: 0,
            isolated_margin_calculations: [IsolatedMarginCalculation::default();8],
            with_perp_isolated_liability: false,
            with_spot_isolated_liability: false,
        };
        assert(r@.isolated =~= no_positions().isolated);
        r
    }

    fn checked_plus(self, amounts: Amounts) -> (r: Option<Self>)
        ensures
            match r {
                Some(calculation) => calculation@ == (SimplifiedView {
                    totals: self@.totals.plus(amounts@),
                    ..self@
                }),
                None => !self@.totals.plus(amounts@).fits(),
            },
    {
        let so_far = Amounts {
            collateral: self.total_collateral,
            collateral_buffer: self.total_collateral_buffer,
            requirement: self.margin_requirement,
            requirement_plus_buffer: self.margin_requirement_plus_buffer,
        };
        match so_far.checked_plus(amounts) {
            Some(sums) => Some(
                SimplifiedMarginCalculation {
                    total_collateral: sums.collateral,
                    total_collateral_buffer: sums.collateral_buffer,
                    margin_requirement: sums.requirement,
                    margin_requirement_plus_buffer: sums.requirement_plus_buffer,
                    ..self
                },
            ),
            None => None,
        }
    }

    /// [`spot_added`], computed.
    fn checked_spot_added(
        self,
        position: &SpotPosition,
        market: &SpotMarket,
        figures: &SpotFigures,
        custom_margin_ratio: u32,
        margin_buffer: u32,
    ) -> (r: Option<Self>)
        ensures
            match r {
                Some(calculation) => spot_added(
                    self@,
                    *position,
                    *market,
                    *figures,
                    custom_margin_ratio,
                    margin_buffer,
                ) == Some(calculation@),
                None => spot_added(
                    self@,
                    *position,
                    *market,
                    *figures,
                    custom_margin_ratio,
                    margin_buffer,
                ) is None,
            },
    {
        if !is_simulated(position, market, custom_margin_ratio) {
            let amounts = match position.balance_type {
                SpotBalanceType::Deposit => asset_amounts(figures.token_value),
                SpotBalanceType::Borrow => {
                    let value: u128 = magnitude(figures.token_value);
                    match checked_liability(value, value, margin_buffer) {
                        Some(amounts) => amounts,
                        None => {
                            return None;
                        },
                    }
                },
            };
            return self.checked_plus(amounts);
        }
        let mut calculation = self;
        let orders_margin = Amounts {
            collateral: 0,
            collateral_buffer: 0,
            requirement: calculate_spot_open_order_margin(position),
            requirement_plus_buffer: 0,
        };
        let token = if figures.token_value > 0 {
            asset_amounts(figures.weighted_token_value)
        } else if figures.token_value < 0 {
            match checked_liability(
                magnitude(figures.weighted_token_value),
                magnitude(figures.token_value),
                margin_buffer,
            ) {
                Some(amounts) => amounts,
                None => {
                    return None;
                },
            }
        } else {
            Amounts::zero()
        };
        let orders = if figures.orders_value > 0 {
            asset_amounts(figures.orders_value)
        } else if figures.orders_value < 0 {
            let value: u128 = magnitude(figures.orders_value);
            match checked_liability(value, value, margin_buffer) {
                Some(amounts) => amounts,
                None => {
                    return None;
                },
            }
        } else {
            Amounts::zero()
        };
        calculation = match calculation.checked_plus(orders_margin) {
            Some(next) => next,
            None => {
                return None;
            },
        };
        calculation = match calculation.checked_plus(token) {
            Some(next) => next,
            None => {
                return None;
            },
        };
        calculation = match calculation.checked_plus(orders) {
            Some(next) => next,
            None => {
                return None;
            },
        };
        if market.market_index != QUOTE_SPOT_MARKET_INDEX && market.asset_tier
            == AssetTier::Isolated && (figures.token_value < 0 || (figures.token_value == 0
            && position.has_open_order)) {
            calculation.with_spot_isolated_liability = true;
        }
        Some(calculation)
    }

    /// Puts `entry` at the first empty place.
    fn place_isolated(&mut self, entry: IsolatedMarginCalculation)
        ensures
            final(self)@ == (SimplifiedView {
                isolated: placed(old(self)@.isolated, entry),
                ..old(self)@
            }),
    {
        let ghost wanted = |c: IsolatedMarginCalculation| c.empty();
        let ghost before = self@.isolated;
        for i in 0..8usize
            invariant
                self@.isolated == before,
                before.len() == 8,
                self@ == old(self)@,
                wanted == (|c: IsolatedMarginCalculation| c.empty()),
                first_place(before, wanted, 0) == first_place(before, wanted, i as int),
        {
            if self.isolated_margin_calculations[i].is_empty() {
                self.isolated_margin_calculations[i] = entry;
                assert(self@.isolated =~= placed(before, entry));
                return;
            }
        }
    }

    /// [`perp_added`], computed.
    fn checked_perp_added(
        self,
        position: &PerpPosition,
        market: &PerpMarket,
        figures: &PerpFigures,
        margin_buffer: u32,
    ) -> (r: Option<Self>)
        ensures
            match r {
                Some(calculation) => perp_added(
                    self@,
                    *position,
                    *market,
                    *figures,
                    margin_buffer,
                ) == Some(calculation@),
                None => perp_added(self@, *position, *market, *figures, margin_buffer) is None,
            },
    {
        let mut calculation = self;
        let share: u128 = match checked_buffer_share(
            figures.worst_case_liability_value,
            margin_buffer,
        ) {
            Some(share) => share,
            None => {
                return None;
            },
        };
        let loss: i128 = if figures.weighted_pnl < 0 {
            match checked_loss_share(figures.weighted_pnl, margin_buffer) {
                Some(loss) => loss,
                None => {
                    return None;
                },
            }
        } else {
            0
        };
        if position.isolated {
            let total_collateral: i128 = match figures.deposit_value.checked_add(
                figures.weighted_pnl,
            ) {
                Some(sum) => sum,
                None => {
                    return None;
                },
            };
            let margin_requirement_plus_buffer: u128 = if margin_buffer > 0 {
                match figures.margin_requirement.checked_add(share) {
                    Some(sum) => sum,
                    None => {
                        return None;
                    },
                }
            } else {
                0
            };
            calculation.place_isolated(
                IsolatedMarginCalculation {
                    market_index: position.market_index,
                    margin_requirement: figures.margin_requirement,
                    total_collateral,
                    total_collateral_buffer: loss,
                    margin_requirement_plus_buffer,
                },
            );
            calculation.with_perp_isolated_liability = true;
        } else {
            let requirement_plus_buffer: u128 = match figures.margin_requirement.checked_add(
                share,
            ) {
                Some(sum) => sum,
                None => {
                    return None;
                },
            };
            calculation =
            match calculation.checked_plus(
                Amounts {
                    collateral: figures.weighted_pnl,
                    collateral_buffer: loss,
                    requirement: figures.margin_requirement,
                    requirement_plus_buffer,
                },
            ) {
                Some(next) => next,
                None => {
                    return None;
                },
            };
            if market.contract_tier == ContractTier::Isolated && (position.base_asset_amount != 0
                || position.quote_asset_amount < 0 || position.has_open_order) {
                calculation.with_perp_isolated_liability = true;
            }
        }
        Some(calculation)
    }
}

/// [`MarginInput::spot_step`], computed.
fn checked_spot_step(
    so_far: SimplifiedMarginCalculation,
    user: &User,
    market_state: &MarketState,
    margin_type: MarginRequirementType,
    margin_buffer: u32,
    figures: &ProgramFigures,
    place: usize,
) -> (r: Option<Result<SimplifiedMarginCalculation, ErrorCode>>)
    requires
        place < 8,
    ensures
        viewed(r) == (MarginInput {
            user: *user,
            market_state: *market_state,
            margin_type,
            margin_buffer,
            figures: *figures,
        }).spot_step(so_far@, place as int),
{
    let position = user.spot_positions[place];
    if position.available {
        return Some(Ok(so_far));
    }
    match spot_request(
        &position,
        market_state,
        margin_type,
        user.get_custom_margin_ratio(margin_type),
    ) {
        None => {
            return None;
        },
        Some(Err(error)) => {
            return Some(Err(error));
        },
        Some(Ok(_)) => {},
    }
    let position_figures = match figures.spot[place] {
        Ok(position_figures) => position_figures,
        Err(code) => {
            return Some(Err(ErrorCode::Program(code)));
        },
    };
    let market = market_state.get_spot_market(position.market_index);
    match so_far.checked_spot_added(
        &position,
        market,
        &position_figures,
        user.get_custom_margin_ratio(margin_type),
        margin_buffer,
    ) {
        Some(next) => Some(Ok(next)),
        None => None,
    }
}

/// [`MarginInput::perp_step`], computed.
fn checked_perp_step(
    so_far: SimplifiedMarginCalculation,
    user: &User,
    market_state: &MarketState,
    margin_type: MarginRequirementType,
    margin_buffer: u32,
    figures: &ProgramFigures,
    place: usize,
) -> (r: Option<Result<SimplifiedMarginCalculation, ErrorCode>>)
    requires
        place < 8,
    ensures
        viewed(r) == (MarginInput {
            user: *user,
            market_state: *market_state,
            margin_type,
            margin_buffer,
            figures: *figures,
        }).perp_step(so_far@, place as int),
{
    let position = user.perp_positions[place];
    if position.available {
        return Some(Ok(so_far));
    }
    match perp_request(
        &position,
        market_state,
        margin_type,
        user.get_custom_margin_ratio(margin_type),
        user.high_leverage_mode,
    ) {
        None => {
            return None;
        },
        Some(Err(error)) => {
            return Some(Err(error));
        },
        Some(Ok(_)) => {},
    }
    let position_figures = match figures.perp[place] {
        Ok(position_figures) => position_figures,
        Err(code) => {
            return Some(Err(ErrorCode::Program(code)));
        },
    };
    let market = market_state.get_perp_market(position.market_index);
    if position.isolated {
        match market_state.find_spot_market(market.quote_spot_market_index) {
            Some(_) => {},
            None => {
                return None;
            },
        }
    }
    match so_far.checked_perp_added(&position, market, &position_figures, margin_buffer) {
        Some(next) => Some(Ok(next)),
        None => None,
    }
}

/// The margin of a user over all positions, from the program's figures for them.
/// `None` where a market that the calculation needs is unknown or a number does not
/// fit its type.
pub fn checked_calculate_simplified_margin_requirement(
    user: &User,
    market_state: &MarketState,
    margin_type: MarginRequirementType,
    margin_buffer: u32,
    figures: &ProgramFigures,
) -> (r: Option<Result<SimplifiedMarginCalculation, ErrorCode>>)
    ensures
        viewed(r) == (MarginInput {
            user: *user,
            market_state: *market_state,
            margin_type,
            margin_buffer,
            figures: *figures,
        }).outcome(),
{
    let ghost input = MarginInput {
        user: *user,
        market_state: *market_state,
        margin_type,
        margin_buffer,
        figures: *figures,
    };
    let mut calculation = SimplifiedMarginCalculation::without_positions();
    for i in 0..8usize
        invariant
            input == (MarginInput {
                user: *user,
                market_state: *market_state,
                margin_type,
                margin_buffer,
                figures: *figures,
            }),
            input.after_spot(i as nat) == Some(Ok::<SimplifiedView, ErrorCode>(calculation@)),
    {
        proof {
            lemma_spot_ends(input, (i + 1) as nat, 8);
            lemma_perp_ends(input, 0, 8);
        }
        match checked_spot_step(
            calculation,
            user,
            market_state,
            margin_type,
            margin_buffer,
            figures,
            i,
        ) {
            Some(Ok(next)) => {
                calculation = next;
            },
            ended => {
                return ended;
            },
        }
    }
    for i in 0..8usize
        invariant
            input == (MarginInput {
                user: *user,
                market_state: *market_state,
                margin_type,
                margin_buffer,
                figures: *figures,
            }),
            input.after_perp(i as nat) == Some(Ok::<SimplifiedView, ErrorCode>(calculation@)),
    {
        proof {
            lemma_perp_ends(input, (i + 1) as nat, 8);
        }
        match checked_perp_step(
            calculation,
            user,
            market_state,
            margin_type,
            margin_buffer,
            figures,
            i,
        ) {
            Some(Ok(next)) => {
                calculation = next;
            },
            ended => {
                return ended;
            },
        }
    }
    Some(Ok(calculation))
}

/// [`checked_calculate_simplified_margin_requirement`] where it has an outcome.
pub fn calculate_simplified_margin_requirement(
    user: &User,
    market_state: &MarketState,
    margin_type: MarginRequirementType,
    margin_buffer: u32,
    figures: &ProgramFigures,
) -> (r: Result<SimplifiedMarginCalculation, ErrorCode>)
    requires
        (MarginInput {
            user: *user,
            market_state: *market_state,
            margin_type,
            margin_buffer,
            figures: *figures,
        }).outcome() is Some,
    ensures
        viewed(Some(r)) == (MarginInput {
            user: *user,
            market_state: *market_state,
            margin_type,
            margin_buffer,
            figures: *figures,
        }).outcome(),
{
    checked_calculate_simplified_margin_requirement(
        user,
        market_state,
        margin_type,
        margin_buffer,
        figures,
    ).unwrap()
}

/// What ended the calculation at a spot position is its outcome after more.
proof fn lemma_spot_ends(input: MarginInput, from: nat, to: nat)
    requires
        from <= to,
    ensures
        !(input.after_spot(from) matches Some(Ok(_))) ==> input.after_spot(to) == input.after_spot(
            from,
        ),
    decreases to - from,
{
    if from < to {
        lemma_spot_ends(input, from, (to - 1) as nat);
    }
}

/// What ended the calculation at a perp position is its outcome after more.
proof fn lemma_perp_ends(input: MarginInput, from: nat, to: nat)
    requires
        from <= to,
    ensures
        !(input.after_perp(from) matches Some(Ok(_))) ==> input.after_perp(to) == input.after_perp(
            from,
        ),
    decreases to - from,
{
    if from < to {
        lemma_perp_ends(input, from, (to - 1) as nat);
    }
}

} // verus!
