//! Address provider: the registry of the protocol's contract addresses.

use vstd::prelude::*;

use crate::error::ContractError;

verus! {

/// The protocol contracts whose addresses the provider keeps.
#[derive(Debug, Clone, Copy, PartialEq, Eq, Structural)]
pub enum MarsContract {
    Council,
    Incentives,
    InsuranceFund,
    MarsToken,
    RedBank,
    Staking,
    Treasury,
    XMarsToken,
}

/// The registry. An address not set yet is the empty string.
#[derive(Debug)]
pub struct Config {
    pub owner: String,
    pub council_address: String,
    pub incentives_address: String,
    pub insurance_fund_address: String,
    pub mars_token_address: String,
    pub red_bank_address: String,
    pub staking_address: String,
    pub treasury_address: String,
    pub xmars_token_address: String,
}

/// New addresses; `None` keeps the current one.
#[derive(Debug)]
pub struct ConfigUpdate {
    pub owner: Option<String>,
    pub council_address: Option<String>,
    pub incentives_address: Option<String>,
    pub insurance_fund_address: Option<String>,
    pub mars_token_address: Option<String>,
    pub red_bank_address: Option<String>,
    pub staking_address: Option<String>,
    pub treasury_address: Option<String>,
    pub xmars_token_address: Option<String>,
}

/// A registry owned by `owner` with no contract address set.
pub fn init(owner: String) -> (c: Config)
    ensures
        c.owner == owner,
        c.council_address@.len() == 0 && c.incentives_address@.len() == 0
            && c.insurance_fund_address@.len() == 0 && c.mars_token_address@.len() == 0
            && c.red_bank_address@.len() == 0 && c.staking_address@.len() == 0
            && c.treasury_address@.len() == 0 && c.xmars_token_address@.len() == 0,
{
    Config {
        owner,
        council_address: String::new(),
        incentives_address: String::new(),
        insurance_fund_address: String::new(),
        mars_token_address: String::new(),
        red_bank_address: String::new(),
        staking_address: String::new(),
        treasury_address: String::new(),
        xmars_token_address: String::new(),
    }
}

/// The registry after an update: each given address replaces the current one.
pub open spec fn updated_config(old: Config, u: ConfigUpdate) -> Config {
    Config {
        owner: u.owner.unwrap_or(old.owner),
        council_address: u.council_address.unwrap_or(old.council_address),
        incentives_address: u.incentives_address.unwrap_or(old.incentives_address),
        insurance_fund_address: u.insurance_fund_address.unwrap_or(old.insurance_fund_address),
        mars_token_address: u.mars_token_address.unwrap_or(old.mars_token_address),
        red_bank_address: u.red_bank_address.unwrap_or(old.red_bank_address),
        staking_address: u.staking_address.unwrap_or(old.staking_address),
        treasury_address: u.treasury_address.unwrap_or(old.treasury_address),
        xmars_token_address: u.xmars_token_address.unwrap_or(old.xmars_token_address),
    }
}

/// The given address, or the current one.
fn keep_or_replace(new: Option<String>, current: &String) -> (r: String)
    ensures
        r == new.unwrap_or(*current),
{
    match new {
        Some(a) => a,
        None => current.clone(),
    }
}

/// Updates the registry; only the owner may.
pub fn handle_update_config(config: &mut Config, sender: &String, update: ConfigUpdate) -> (r:
    Result<(), ContractError>)
    ensures
        sender@ != old(config).owner@ ==> r == Err::<(), ContractError>(ContractError::Unauthorized)
            && *final(config) == *old(config),
        sender@ == old(config).owner@ ==> r == Ok::<(), ContractError>(()) && *final(config)
            == updated_config(*old(config), update),
{
    if *sender != config.owner {
        return Err(ContractError::Unauthorized);
    }
    let ConfigUpdate {
        owner,
        council_address,
        incentives_address,
        insurance_fund_address,
        mars_token_address,
        red_bank_address,
        staking_address,
        treasury_address,
        xmars_token_address,
    } = update;
    let new_config = Config {
        owner: keep_or_replace(owner, &config.owner),
        council_address: keep_or_replace(council_address, &config.council_address),
        incentives_address: keep_or_replace(incentives_address, &config.incentives_address),
        insurance_fund_address: keep_or_replace(insurance_fund_address, &config.insurance_fund_address),
        mars_token_address: keep_or_replace(mars_token_address, &config.mars_token_address),
        red_bank_address: keep_or_replace(red_bank_address, &config.red_bank_address),
        staking_address: keep_or_replace(staking_address, &config.staking_address),
        treasury_address: keep_or_replace(treasury_address, &config.treasury_address),
        xmars_token_address: keep_or_replace(xmars_token_address, &config.xmars_token_address),
    };
    *config = new_config;
    Ok(())
}

/// The registered address of a contract.
pub open spec fn address_of(config: Config, contract: MarsContract) -> String {
    match contract {
        MarsContract::Council => config.council_address,
        MarsContract::Incentives => config.incentives_address,
        MarsContract::InsuranceFund => config.insurance_fund_address,
        MarsContract::MarsToken => config.mars_token_address,
        MarsContract::RedBank => config.red_bank_address,
        MarsContract::Staking => config.staking_address,
        MarsContract::Treasury => config.treasury_address,
        MarsContract::XMarsToken => config.xmars_token_address,
    }
}

/// Law: after an update, looking up a contract gives the address the update gave it, or
/// the one it had when the update gave none.
pub proof fn lemma_read_after_update(old: Config, u: ConfigUpdate, contract: MarsContract)
    ensures
        address_of(updated_config(old, u), contract) == (match contract {
            MarsContract::Council => u.council_address.unwrap_or(old.council_address),
            MarsContract::Incentives => u.incentives_address.unwrap_or(old.incentives_address),
            MarsContract::InsuranceFund => u.insurance_fund_address.unwrap_or(old.insurance_fund_address),
            MarsContract::MarsToken => u.mars_token_address.unwrap_or(old.mars_token_address),
            MarsContract::RedBank => u.red_bank_address.unwrap_or(old.red_bank_address),
            MarsContract::Staking => u.staking_address.unwrap_or(old.staking_address),
            MarsContract::Treasury => u.treasury_address.unwrap_or(old.treasury_address),
            MarsContract::XMarsToken => u.xmars_token_address.unwrap_or(old.xmars_token_address),
        }),
{
}

/// Looks up the address of a contract.
pub fn get_address(config: &Config, contract: MarsContract) -> (a: String)
    ensures
        a == address_of(*config, contract),
{
    match contract {
        MarsContract::Council => config.council_address.clone(),
        MarsContract::Incentives => config.incentives_address.clone(),
        MarsContract::InsuranceFund => config.insurance_fund_address.clone(),
        MarsContract::MarsToken => config.mars_token_address.clone(),
        MarsContract::RedBank => config.red_bank_address.clone(),
        MarsContract::Staking => config.staking_address.clone(),
        MarsContract::Treasury => config.treasury_address.clone(),
        MarsContract::XMarsToken => config.xmars_token_address.clone(),
    }
}

/// Looks up the address of each contract, in order.
pub fn query_addresses(config: &Config, contracts: &Vec<MarsContract>) -> (r: Vec<String>)
    ensures
        r@.len() == contracts@.len(),
        forall|i: int| 0 <= i < contracts@.len() ==> #[trigger] r@[i] == address_of(*config, contracts@[i]),
{
    let mut ret: Vec<String> = Vec::new();
    let mut i: usize = 0;
    while i < contracts.len()
        invariant
            i <= contracts@.len(),
            ret@.len() == i,
            forall|j: int| 0 <= j < i ==> #[trigger] ret@[j] == address_of(*config, contracts@[j]),
        decreases contracts@.len() - i,
    {
        ret.push(get_address(config, contracts[i]));
        i = i + 1;
    }
    ret
}

} // verus!
