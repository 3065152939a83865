//! Insurance fund: an owner-run treasury that can swap its assets to uusd on Terraswap.

use vstd::prelude::*;

use crate::error::ContractError;
use crate::math::Decimal;

verus! {

/// Insurance fund configuration; addresses are canonical address bytes.
#[derive(Debug, Clone, PartialEq, Eq)]
pub struct Config {
    pub owner: Vec<u8>,
    pub terraswap_factory_address: Vec<u8>,
    /// Largest spread accepted when swapping.
    pub terraswap_max_spread: Decimal,
}

/// The fund of `sender`, swapping through `terraswap_factory_address`.
pub fn init(sender: Vec<u8>, terraswap_factory_address: Vec<u8>, terraswap_max_spread: Decimal) -> (c:
    Config)
    ensures
        c == (Config { owner: sender, terraswap_factory_address, terraswap_max_spread }),
{
    Config { owner: sender, terraswap_factory_address, terraswap_max_spread }
}

/// Updates the owner, the factory and the maximum spread; only the owner may.
pub fn handle_update_config(
    config: &mut Config,
    sender: &Vec<u8>,
    owner: Option<Vec<u8>>,
    terraswap_factory_address: Option<Vec<u8>>,
    terraswap_max_spread: Option<Decimal>,
) -> (r: Result<(), ContractError>)
    ensures
        sender@ != old(config).owner@ ==> r == Err::<(), ContractError>(ContractError::Unauthorized)
            && *final(config) == *old(config),
        sender@ == old(config).owner@ ==> r == Ok::<(), ContractError>(()),
        r is Ok ==> final(config).owner@ == (match owner {
            Some(a) => a@,
            None => old(config).owner@,
        }),
        r is Ok ==> final(config).terraswap_factory_address@ == (match terraswap_factory_address {
            Some(a) => a@,
            None => old(config).terraswap_factory_address@,
        }),
        r is Ok ==> final(config).terraswap_max_spread == terraswap_max_spread.unwrap_or(
            old(config).terraswap_max_spread,
        ),
{
    if crate::util::assert_owner(sender, &config.owner).is_err() {
        return Err(ContractError::Unauthorized);
    }
    let new_owner = match owner {
        Some(o) => o,
        None => config.owner.clone(),
    };
    let new_factory = match terraswap_factory_address {
        Some(f) => f,
        None => config.terraswap_factory_address.clone(),
    };
    let new_spread = match terraswap_max_spread {
        Some(s) => s,
        None => config.terraswap_max_spread,
    };
    *config = Config {
        owner: new_owner,
        terraswap_factory_address: new_factory,
        terraswap_max_spread: new_spread,
    };
    Ok(())
}

/// Only the owner may have the fund run an arbitrary message.
pub fn handle_execute_cosmos_msg(config: &Config, sender: &Vec<u8>) -> (r: Result<(), ContractError>)
    ensures
        sender@ == config.owner@ ==> r == Ok::<(), ContractError>(()),
        sender@ != config.owner@ ==> r == Err::<(), ContractError>(ContractError::Unauthorized),
{
    crate::util::assert_owner(sender, &config.owner)
}

/// Migration message; migrations take no arguments.
#[derive(Debug, Clone, Copy, PartialEq, Eq, Structural)]
pub struct MigrateMsg {}

} // verus!
