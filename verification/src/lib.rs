//! Verified core of the Mars lending protocol contracts: fixed-point math, the
//! red bank money market, incentives, vesting, oracle price sources, governance,
//! the maToken ledger, the protocol rewards collector, the LP staking proxy, the
//! address provider and the insurance fund.

pub mod error;
pub mod math;
pub mod util;
pub mod red_bank;
pub mod vesting;
pub mod incentives;
pub mod oracle;
pub mod governance;
pub mod ma_token;
pub mod rewards_collector;
pub mod staking_proxy;
pub mod address_provider;
pub mod insurance_fund;
