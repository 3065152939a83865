use vstd::prelude::*;

use crate::math::{Decimal256, U256};

verus! {

/// Whether a reserve's asset is a native coin or a cw20 token.
#[derive(Debug, Clone, Copy, PartialEq, Eq, Structural)]
pub enum AssetType {
    Cw20,
    Native,
}

impl Default for AssetType {
    fn default() -> (t: AssetType)
        ensures
            t == AssetType::Native,
    {
        AssetType::Native
    }
}

/// Lending pool global configuration. Addresses are canonical address bytes.
#[derive(Debug, Clone, PartialEq, Eq)]
pub struct Config {
    /// Contract owner
    pub owner: Vec<u8>,
    /// Protocol treasury contract address
    pub treasury_contract_address: Vec<u8>,
    /// Protocol insurance fund contract address
    pub insurance_fund_contract_address: Vec<u8>,
    /// maToken code id used to instantiate new tokens
    pub ma_token_code_id: u64,
    /// Reserve count
    pub reserve_count: u32,
    /// Maximum percentage of outstanding debt that can be covered by a liquidator
    pub close_factor: Decimal256,
    /// Percentage of fees that are sent to the insurance fund
    pub insurance_fund_fee_share: Decimal256,
    /// Percentage of fees that are sent to the treasury
    pub treasury_fee_share: Decimal256,
}

/// An asset reserve of the money market.
#[derive(Debug, Clone, PartialEq, Eq)]
pub struct Reserve {
    /// Reserve index (bit position in the users' bitmaps)
    pub index: u32,
    /// maToken contract address (canonical bytes)
    pub ma_token_address: Vec<u8>,
    /// Borrow index (used to compute borrow interest)
    pub borrow_index: Decimal256,
    /// Liquidity index (used to compute deposit interest)
    pub liquidity_index: Decimal256,
    /// Rate charged to borrowers
    pub borrow_rate: Decimal256,
    /// Rate paid to depositors
    pub liquidity_rate: Decimal256,
    /// Variable debt interest slope
    pub borrow_slope: Decimal256,
    /// Max percentage of collateral that can be borrowed
    pub loan_to_value: Decimal256,
    /// Portion of the borrow rate that is sent to the treasury, insurance fund, and rewards
    pub reserve_factor: Decimal256,
    /// Timestamp (seconds) when indices and rates were last updated
    pub interests_last_updated: u64,
    /// Total scaled debt of the reserve
    pub debt_total_scaled: U256,
    /// Whether the asset is native or a cw20 token
    pub asset_type: AssetType,
    /// Percentage at which a loan is defined as under-collateralized
    pub liquidation_threshold: Decimal256,
    /// Bonus on the price of the collateral when liquidators purchase it
    pub liquidation_bonus: Decimal256,
}

/// Per-user bitmaps of borrowed and deposited assets: bit `i` stands for the reserve of
/// index `i`.
#[derive(Debug, Clone, Copy, PartialEq, Eq, Structural)]
pub struct User {
    pub borrowed_assets: u128,
    pub deposited_assets: u128,
}

impl User {
    pub fn new() -> (u: User)
        ensures
            u.borrowed_assets == 0,
            u.deposited_assets == 0,
    {
        User { borrowed_assets: 0, deposited_assets: 0 }
    }
}

/// Scaled debt of one user in one asset.
#[derive(Debug, Clone, Copy, PartialEq, Eq, Structural)]
pub struct Debt {
    pub amount_scaled: U256,
}

/// Reference (denom bytes or canonical cw20 address) of the reserve stored at an index.
#[derive(Debug, Clone, PartialEq, Eq)]
pub struct ReserveReferences {
    pub reference: Vec<u8>,
}

/// Arguments of a money market migration (none).
#[derive(Debug, Clone, Copy, PartialEq, Eq, Structural)]
pub struct MigrateMsg {}

} // verus!
