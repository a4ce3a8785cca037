//! The protocol's accounts, as far as the margin calculations read them.
//!
//! The structs hold plain values. The yes-or-no fields of the positions and of
//! the user are the answers of the on-chain program's own predicates.
use vstd::prelude::*;

verus! {

/// Margin ratios and buffers are parts of this number.
pub const MARGIN_PRECISION_U128: u128 = 10_000;

/// [`MARGIN_PRECISION_U128`] as a signed number.
pub const MARGIN_PRECISION_I128: i128 = 10_000;

/// The margin that one open spot order asks for, in quote precision.
pub const OPEN_ORDER_MARGIN_REQUIREMENT: u128 = 10_000;

/// The index of the spot market of the quote token.
pub const QUOTE_SPOT_MARKET_INDEX: u16 = 0;

#[derive(Copy, Clone, Debug, PartialEq, Eq, Structural)]
pub enum MarginRequirementType {
    Initial,
    Fill,
    Maintenance,
}

#[derive(Copy, Clone, Debug, PartialEq, Eq, Structural)]
pub enum SpotBalanceType {
    Deposit,
    Borrow,
}

#[derive(Copy, Clone, Debug, PartialEq, Eq, Structural)]
pub enum AssetTier {
    Collateral,
    Protected,
    Cross,
    Isolated,
    Unlisted,
}

#[derive(Copy, Clone, Debug, PartialEq, Eq, Structural)]
pub enum ContractTier {
    A,
    B,
    C,
    Speculative,
    HighlySpeculative,
    Isolated,
}

/// Why a margin calculation was given up.
#[derive(Copy, Clone, Debug, PartialEq, Eq, Structural)]
pub enum ErrorCode {
    /// A position's market, or the quote market of a perp market, has no oracle
    /// price.
    OracleNotFound,
    /// The program refused to value a position, with this error number.
    Program(u32),
}

impl ErrorCode {
    /// The number of the error, where the program's number for a missing oracle is
    /// `oracle_not_found`.
    pub open spec fn number(self, oracle_not_found: u32) -> u32 {
        match self {
            ErrorCode::OracleNotFound => oracle_not_found,
            ErrorCode::Program(code) => code,
        }
    }

    pub fn get_number(self, oracle_not_found: u32) -> (r: u32)
        ensures
            r == self.number(oracle_not_found),
    {
        match self {
            ErrorCode::OracleNotFound => oracle_not_found,
            ErrorCode::Program(code) => code,
        }
    }
}

#[derive(Copy, Clone, Debug, PartialEq, Eq, Structural)]
pub struct OraclePriceData {
    pub price: i64,
    pub confidence: u64,
    pub delay: i64,
    pub has_sufficient_number_of_data_points: bool,
    pub sequence_id: Option<u64>,
}

#[derive(Copy, Clone, Debug, PartialEq, Eq, Structural)]
pub struct SpotMarket {
    pub market_index: u16,
    pub decimals: u32,
    pub asset_tier: AssetTier,
}

#[derive(Copy, Clone, Debug, PartialEq, Eq, Structural)]
pub struct PerpMarket {
    pub market_index: u16,
    pub quote_spot_market_index: u16,
    pub contract_tier: ContractTier,
}

#[derive(Copy, Clone, Debug, PartialEq, Eq, Structural)]
pub struct SpotPosition {
    pub market_index: u16,
    pub balance_type: SpotBalanceType,
    pub open_orders: u8,
    /// Whether the slot holds no position.
    pub available: bool,
    /// Whether the position has open orders, bids or asks.
    pub has_open_order: bool,
}

#[derive(Copy, Clone, Debug, PartialEq, Eq, Structural)]
pub struct PerpPosition {
    pub market_index: u16,
    pub base_asset_amount: i64,
    pub quote_asset_amount: i64,
    pub max_margin_ratio: u16,
    /// Whether the slot holds no position.
    pub available: bool,
    /// Whether the position has collateral of its own.
    pub isolated: bool,
    pub has_open_order: bool,
}

#[derive(Debug)]
pub struct User {
    pub spot_positions: [SpotPosition; 8],
    pub perp_positions: [PerpPosition; 8],
    pub max_margin_ratio: u32,
    pub pool_id: u8,
    /// Whether the user is in high leverage mode for the kind of margin asked for.
    pub high_leverage_mode: bool,
}

impl User {
    /// The user's own margin ratio, which counts for initial margin only.
    pub open spec fn custom_margin_ratio(&self, margin_type: MarginRequirementType) -> u32 {
        if margin_type == MarginRequirementType::Initial {
            self.max_margin_ratio
        } else {
            0
        }
    }

    pub fn get_custom_margin_ratio(&self, margin_type: MarginRequirementType) -> (r: u32)
        ensures
            r == self.custom_margin_ratio(margin_type),
    {
        if margin_type == MarginRequirementType::Initial {
            self.max_margin_ratio
        } else {
            0
        }
    }
}

impl Default for SpotPosition {
    /// A slot without a position.
    fn default() -> (r: Self)
        ensures
            r == (SpotPosition {
                market_index: 0,
                balance_type: SpotBalanceType::Deposit,
                open_orders: 0,
                available: true,
                has_open_order: false,
            }),
    {
        SpotPosition {
            market_index: 0,
            balance_type: SpotBalanceType::Deposit,
            open_orders: 0,
            available: true,
            has_open_order: false,
        }
    }
}

impl Default for PerpPosition {
    /// A slot without a position.
    fn default() -> (r: Self)
        ensures
            r == (PerpPosition {
                market_index: 0,
                base_asset_amount: 0,
                quote_asset_amount: 0,
                max_margin_ratio: 0,
                available: true,
                isolated: false,
                has_open_order: false,
            }),
    {
        PerpPosition {
            market_index: 0,
            base_asset_amount: 0,
            quote_asset_amount: 0,
            max_margin_ratio: 0,
            available: true,
            isolated: false,
            has_open_order: false,
        }
    }
}

} // verus!
