//! Types of the C interface, and the market data that the calculations read.
use std::collections::HashMap;

use abi_stable::std_types::RResult;
use anchor_lang::solana_program::pubkey::Pubkey;
use fxhash::FxBuildHasher;
use vstd::prelude::*;
use vstd::std_specs::convert::FromSpecImpl;

use crate::arith::{abs, fits_i128, signed_bits, to_signed};
use crate::fx::{fx_get, fx_insert, fx_table};
use crate::protocol::{MarginRequirementType, OraclePriceData, PerpMarket, SpotMarket};
use crate::shims::Account;

pub mod compat;

verus! {

/// `abi_stable::std_types::RResult`, the result type of the C interface, with its
/// variants `ROk` and `RErr`.
#[verifier::external_type_specification]
#[verifier::reject_recursive_types(T)]
#[verifier::reject_recursive_types(E)]
pub struct ExRResult<T, E>(RResult<T, E>);

/// C-ABI compatible result type.
pub type FfiResult<T> = RResult<T, u32>;

/// An account and its address.
#[derive(Debug)]
pub struct AccountWithKey {
    pub key: Pubkey,
    pub account: Account,
}

impl From<(Pubkey, Account)> for AccountWithKey {
    fn from(value: (Pubkey, Account)) -> (r: Self) {
        AccountWithKey { key: value.0, account: value.1 }
    }
}

impl FromSpecImpl<(Pubkey, Account)> for AccountWithKey {
    open spec fn obeys_from_spec() -> bool {
        true
    }

    open spec fn from_spec(value: (Pubkey, Account)) -> Self {
        AccountWithKey { key: value.0, account: value.1 }
    }
}

impl From<AccountWithKey> for (Pubkey, Account) {
    fn from(value: AccountWithKey) -> (r: Self) {
        (value.key, value.account)
    }
}

impl FromSpecImpl<AccountWithKey> for (Pubkey, Account) {
    open spec fn obeys_from_spec() -> bool {
        true
    }

    open spec fn from_spec(value: AccountWithKey) -> Self {
        (value.key, value.account)
    }
}

/// Which margin a full calculation asks for.
#[derive(Copy, Clone, Debug, PartialEq, Structural)]
pub enum MarginContextMode {
    StandardMaintenance,
    StandardInitial,
    StandardCustom(MarginRequirementType),
}

impl From<MarginContextMode> for MarginRequirementType {
    /// The kind of margin in whose standard context the calculation runs.
    fn from(value: MarginContextMode) -> (r: Self) {
        match value {
            MarginContextMode::StandardMaintenance => MarginRequirementType::Maintenance,
            MarginContextMode::StandardInitial => MarginRequirementType::Initial,
            MarginContextMode::StandardCustom(margin_type) => margin_type,
        }
    }
}

impl FromSpecImpl<MarginContextMode> for MarginRequirementType {
    open spec fn obeys_from_spec() -> bool {
        true
    }

    open spec fn from_spec(value: MarginContextMode) -> Self {
        match value {
            MarginContextMode::StandardMaintenance => MarginRequirementType::Maintenance,
            MarginContextMode::StandardInitial => MarginRequirementType::Initial,
            MarginContextMode::StandardCustom(margin_type) => margin_type,
        }
    }
}

/// The outcome of a full margin calculation.
#[derive(Clone, Copy, Debug)]
pub struct MarginCalculation {
    pub total_collateral: compat::i128,
    pub margin_requirement: compat::u128,
    pub with_perp_isolated_liability: bool,
    pub with_spot_isolated_liability: bool,
    pub total_spot_asset_value: compat::i128,
    pub total_spot_liability_value: compat::u128,
    pub total_perp_liability_value: compat::u128,
    pub total_perp_pnl: compat::i128,
    pub isolated_margin_calculations: [IsolatedMarginCalculation; 8],
}

/// The outcome of a simplified margin calculation.
#[derive(Clone, Copy, Debug)]
pub struct SimplifiedMarginCalculation {
    pub total_collateral: compat::i128,
    pub total_collateral_buffer: compat::i128,
    pub margin_requirement: compat::u128,
    pub margin_requirement_plus_buffer: compat::u128,
    pub isolated_margin_calculations: [IsolatedMarginCalculation; 8],
    pub with_perp_isolated_liability: bool,
    pub with_spot_isolated_liability: bool,
}

/// The margin of one isolated perp position.
#[derive(Copy, Clone, Debug, PartialEq, Structural)]
pub struct IsolatedMarginCalculation {
    pub margin_requirement: compat::u128,
    pub total_collateral: compat::i128,
    pub total_collateral_buffer: compat::i128,
    pub margin_requirement_plus_buffer: compat::u128,
    pub market_index: u16,
}

impl IsolatedMarginCalculation {
    /// The entry of an unused place.
    pub open spec fn unused() -> Self {
        IsolatedMarginCalculation {
            margin_requirement: compat::u128(0),
            total_collateral: compat::i128(0),
            total_collateral_buffer: compat::i128(0),
            margin_requirement_plus_buffer: compat::u128(0),
            market_index: 0,
        }
    }
}

impl Default for IsolatedMarginCalculation {
    fn default() -> (r: Self)
        ensures
            r == Self::unused(),
    {
        IsolatedMarginCalculation {
            margin_requirement: compat::u128(0),
            total_collateral: compat::i128(0),
            total_collateral_buffer: compat::i128(0),
            margin_requirement_plus_buffer: compat::u128(0),
            market_index: 0,
        }
    }
}

impl MarginCalculation {
    /// What is left of the collateral when the margin requirement, read as a
    /// signed number, is taken off; nothing where the requirement is larger.
    pub fn get_free_collateral(&self) -> (r: u128)
        requires
            fits_i128(self.total_collateral.0 - signed_bits(self.margin_requirement.0 as int)),
        ensures
            ({
                let free = self.total_collateral.0 - signed_bits(self.margin_requirement.0 as int);
                r == if free > 0 {
                    free
                } else {
                    0
                }
            }),
    {
        let free: i128 = self.total_collateral.0 - to_signed(self.margin_requirement.0);
        if free > 0 {
            free as u128
        } else {
            0
        }
    }
}

/// Markets and prices by market index.
pub struct MarketState {
    pub spot_markets: HashMap<u16, SpotMarket, FxBuildHasher>,
    pub perp_markets: HashMap<u16, PerpMarket, FxBuildHasher>,
    pub spot_oracle_prices: HashMap<u16, OraclePriceData, FxBuildHasher>,
    pub perp_oracle_prices: HashMap<u16, OraclePriceData, FxBuildHasher>,
    /// Prices that take the place of a spot oracle's.
    pub spot_pyth_prices: HashMap<u16, i64, FxBuildHasher>,
    /// Prices that take the place of a perp oracle's.
    pub perp_pyth_prices: HashMap<u16, i64, FxBuildHasher>,
    /// How far, in basis points, a Pyth price has to be from the oracle's before it
    /// is used. Zero, the default, means that a Pyth price is always used when set.
    pub pyth_oracle_diff_threshold_bps: u64,
}

impl Default for MarketState {
    fn default() -> (r: Self)
        ensures
            r.spot_markets@.is_empty(),
            r.perp_markets@.is_empty(),
            r.spot_oracle_prices@.is_empty(),
            r.perp_oracle_prices@.is_empty(),
            r.spot_pyth_prices@.is_empty(),
            r.perp_pyth_prices@.is_empty(),
            r.pyth_oracle_diff_threshold_bps == 0,
    {
        MarketState {
            spot_markets: fx_table(),
            perp_markets: fx_table(),
            spot_oracle_prices: fx_table(),
            perp_oracle_prices: fx_table(),
            spot_pyth_prices: fx_table(),
            perp_pyth_prices: fx_table(),
            pyth_oracle_diff_threshold_bps: 0,
        }
    }
}

/// What `table` holds under `key`.
pub open spec fn lookup<V>(table: Map<u16, V>, key: u16) -> Option<V> {
    if table.contains_key(key) {
        Some(table[key])
    } else {
        None
    }
}

/// A Pyth price as oracle data: exact, current and complete.
pub open spec fn pyth_price_data(price: i64) -> OraclePriceData {
    OraclePriceData {
        price,
        confidence: 0,
        delay: 0,
        has_sufficient_number_of_data_points: true,
        sequence_id: None,
    }
}

/// The price that a calculation uses where the oracle reports `oracle` and a Pyth
/// price may be set.
///
/// A Pyth price of zero counts as none. With a threshold of zero, or next to an
/// oracle price of zero, any other is used. Otherwise it is used where it is more
/// than `threshold` basis points, rounded down, from the oracle's. There is no
/// answer where that distance is needed and, before it is divided by the oracle
/// price, is no `u64`.
pub open spec fn selected_price(
    oracle: OraclePriceData,
    pyth: Option<OraclePriceData>,
    threshold: u64,
) -> Option<OraclePriceData> {
    if pyth is None || pyth->0.price == 0 {
        Some(oracle)
    } else if threshold == 0 || oracle.price == 0 {
        pyth
    } else if abs(pyth->0.price - oracle.price) * 10_000 > u64::MAX {
        None
    } else if abs(pyth->0.price - oracle.price) * 10_000 / abs(oracle.price as int) > threshold {
        pyth
    } else {
        Some(oracle)
    }
}

fn as_pyth_price_data(price: i64) -> (r: OraclePriceData)
    ensures
        r == pyth_price_data(price),
{
    OraclePriceData {
        price,
        confidence: 0,
        delay: 0,
        has_sufficient_number_of_data_points: true,
        sequence_id: None,
    }
}

/// [`selected_price`], computed.
pub fn select_price(
    oracle: OraclePriceData,
    pyth: Option<OraclePriceData>,
    threshold: u64,
) -> (r: Option<OraclePriceData>)
    ensures
        r == selected_price(oracle, pyth, threshold),
{
    match pyth {
        None => Some(oracle),
        Some(p) => {
            if p.price == 0 {
                return Some(oracle);
            }
            if threshold == 0 || oracle.price == 0 {
                return Some(p);
            }
            let distance: i128 = p.price as i128 - oracle.price as i128;
            let distance: i128 = if distance < 0 {
                -distance
            } else {
                distance
            };
            let scaled: i128 = distance * 10_000;
            if scaled > u64::MAX as i128 {
                return None;
            }
            let oracle_size: i128 = if oracle.price < 0 {
                -(oracle.price as i128)
            } else {
                oracle.price as i128
            };
            if scaled as u64 / oracle_size as u64 > threshold {
                Some(p)
            } else {
                Some(oracle)
            }
        },
    }
}

impl MarketState {
    /// The Pyth price of a spot market as oracle data.
    pub open spec fn spot_pyth(&self, market_index: u16) -> Option<OraclePriceData> {
        if self.spot_pyth_prices@.contains_key(market_index) {
            Some(pyth_price_data(self.spot_pyth_prices@[market_index]))
        } else {
            None
        }
    }

    /// The Pyth price of a perp market as oracle data.
    pub open spec fn perp_pyth(&self, market_index: u16) -> Option<OraclePriceData> {
        if self.perp_pyth_prices@.contains_key(market_index) {
            Some(pyth_price_data(self.perp_pyth_prices@[market_index]))
        } else {
            None
        }
    }

    pub fn get_spot_market(&self, market_index: u16) -> (r: &SpotMarket)
        requires
            self.spot_markets@.contains_key(market_index),
        ensures
            *r == self.spot_markets@[market_index],
    {
        fx_get(&self.spot_markets, market_index).unwrap()
    }

    pub fn get_perp_market(&self, market_index: u16) -> (r: &PerpMarket)
        requires
            self.perp_markets@.contains_key(market_index),
        ensures
            *r == self.perp_markets@[market_index],
    {
        fx_get(&self.perp_markets, market_index).unwrap()
    }

    /// The spot market with this index, where there is one.
    pub fn find_spot_market(&self, market_index: u16) -> (r: Option<&SpotMarket>)
        ensures
            match r {
                Some(market) => lookup(self.spot_markets@, market_index) == Some(*market),
                None => lookup(self.spot_markets@, market_index) is None,
            },
    {
        fx_get(&self.spot_markets, market_index)
    }

    /// The perp market with this index, where there is one.
    pub fn find_perp_market(&self, market_index: u16) -> (r: Option<&PerpMarket>)
        ensures
            match r {
                Some(market) => lookup(self.perp_markets@, market_index) == Some(*market),
                None => lookup(self.perp_markets@, market_index) is None,
            },
    {
        fx_get(&self.perp_markets, market_index)
    }

    pub fn get_spot_oracle_price(&self, market_index: u16) -> (r: Option<&OraclePriceData>)
        ensures
            match r {
                Some(price) => lookup(self.spot_oracle_prices@, market_index) == Some(*price),
                None => lookup(self.spot_oracle_prices@, market_index) is None,
            },
    {
        fx_get(&self.spot_oracle_prices, market_index)
    }

    pub fn get_perp_oracle_price(&self, market_index: u16) -> (r: Option<&OraclePriceData>)
        ensures
            match r {
                Some(price) => lookup(self.perp_oracle_prices@, market_index) == Some(*price),
                None => lookup(self.perp_oracle_prices@, market_index) is None,
            },
    {
        fx_get(&self.perp_oracle_prices, market_index)
    }

    pub fn get_spot_pyth_price(&self, market_index: u16) -> (r: Option<OraclePriceData>)
        ensures
            r == self.spot_pyth(market_index),
    {
        match fx_get(&self.spot_pyth_prices, market_index) {
            Some(price) => Some(as_pyth_price_data(*price)),
            None => None,
        }
    }

    pub fn get_perp_pyth_price(&self, market_index: u16) -> (r: Option<OraclePriceData>)
        ensures
            r == self.perp_pyth(market_index),
    {
        match fx_get(&self.perp_pyth_prices, market_index) {
            Some(price) => Some(as_pyth_price_data(*price)),
            None => None,
        }
    }

    pub fn set_spot_market(&mut self, market: SpotMarket)
        ensures
            final(self).spot_markets@ == old(self).spot_markets@.insert(
                market.market_index,
                market,
            ),
            *final(self) == (MarketState {
                spot_markets: final(self).spot_markets,
                ..*old(self)
            }),
    {
        fx_insert(&mut self.spot_markets, market.market_index, market);
    }

    pub fn set_perp_market(&mut self, market: PerpMarket)
        ensures
            final(self).perp_markets@ == old(self).perp_markets@.insert(
                market.market_index,
                market,
            ),
            *final(self) == (MarketState {
                perp_markets: final(self).perp_markets,
                ..*old(self)
            }),
    {
        fx_insert(&mut self.perp_markets, market.market_index, market);
    }

    pub fn set_spot_oracle_price(&mut self, market_index: u16, price_data: OraclePriceData)
        ensures
            final(self).spot_oracle_prices@ == old(self).spot_oracle_prices@.insert(
                market_index,
                price_data,
            ),
            *final(self) == (MarketState {
                spot_oracle_prices: final(self).spot_oracle_prices,
                ..*old(self)
            }),
    {
        fx_insert(&mut self.spot_oracle_prices, market_index, price_data);
    }

    pub fn set_perp_oracle_price(&mut self, market_index: u16, price_data: OraclePriceData)
        ensures
            final(self).perp_oracle_prices@ == old(self).perp_oracle_prices@.insert(
                market_index,
                price_data,
            ),
            *final(self) == (MarketState {
                perp_oracle_prices: final(self).perp_oracle_prices,
                ..*old(self)
            }),
    {
        fx_insert(&mut self.perp_oracle_prices, market_index, price_data);
    }

    pub fn set_spot_pyth_price(&mut self, market_index: u16, price_data: i64)
        ensures
            final(self).spot_pyth_prices@ == old(self).spot_pyth_prices@.insert(
                market_index,
                price_data,
            ),
            *final(self) == (MarketState {
                spot_pyth_prices: final(self).spot_pyth_prices,
                ..*old(self)
            }),
    {
        fx_insert(&mut self.spot_pyth_prices, market_index, price_data);
    }

    pub fn set_perp_pyth_price(&mut self, market_index: u16, price_data: i64)
        ensures
            final(self).perp_pyth_prices@ == old(self).perp_pyth_prices@.insert(
                market_index,
                price_data,
            ),
            *final(self) == (MarketState {
                perp_pyth_prices: final(self).perp_pyth_prices,
                ..*old(self)
            }),
    {
        fx_insert(&mut self.perp_pyth_prices, market_index, price_data);
    }
}

} // verus!
