//! Protocol rewards collector: splits the protocol's income in an asset between the safety
//! fund, the treasury and the stakers, by the configured fee shares.

use vstd::prelude::*;

use crate::error::{is_generic_err, ContractError};
use crate::math::{mul_div, Decimal, DECIMAL_FRACTIONAL};
use crate::util::{all_conditions_valid, all_hold, conditions_message};
use vstd::string::StringExecFns;

verus! {

/// Collector configuration.
#[derive(Debug)]
pub struct Config {
    pub owner: String,
    /// Address provider that returns the addresses of all protocol contracts.
    pub address_provider_address: String,
    /// Share of the income sent to the safety fund.
    pub safety_fund_fee_share: Decimal,
    /// Share of the income sent to the treasury.
    pub treasury_fee_share: Decimal,
    pub terraswap_factory_address: String,
    pub terraswap_max_spread: Decimal,
}

/// Parameters given at instantiation or in an update; `None` keeps the current value.
#[derive(Debug)]
pub struct CreateOrUpdateConfig {
    pub owner: Option<String>,
    pub address_provider_address: Option<String>,
    pub safety_fund_fee_share: Option<Decimal>,
    pub treasury_fee_share: Option<Decimal>,
    pub terraswap_factory_address: Option<String>,
    pub terraswap_max_spread: Option<Decimal>,
}

/// Whether an asset's income may be distributed.
#[derive(Debug, Clone, Copy, PartialEq, Eq, Structural)]
pub struct AssetConfig {
    pub enabled_for_distribution: bool,
}

impl Default for AssetConfig {
    /// Assets are not enabled until the owner enables them.
    fn default() -> (c: AssetConfig)
        ensures
            !c.enabled_for_distribution,
    {
        AssetConfig { enabled_for_distribution: false }
    }
}

/// Each fee share is at most one, and so is their sum.
pub open spec fn valid_fee_shares(safety: Decimal, treasury: Decimal) -> bool {
    &&& safety.atomics <= DECIMAL_FRACTIONAL
    &&& treasury.atomics <= DECIMAL_FRACTIONAL
    &&& safety.atomics + treasury.atomics <= DECIMAL_FRACTIONAL
}

/// The message naming fee shares above one.
pub open spec fn fee_share_error_message(safety: Decimal, treasury: Decimal) -> Seq<char> {
    let s_name = "safety_fund_fee_share"@;
    let t_name = "treasury_fee_share"@;
    let all = s_name + ", "@ + t_name;
    let failed = if safety.atomics > DECIMAL_FRACTIONAL && treasury.atomics > DECIMAL_FRACTIONAL {
        all
    } else if safety.atomics > DECIMAL_FRACTIONAL {
        s_name
    } else {
        t_name
    };
    "["@ + all + "] should be less or equal 1. Invalid params: ["@ + failed + "]"@
}

/// The message refusing fee shares whose sum is above one.
pub open spec fn fee_share_sum_message() -> Seq<char> {
    "Invalid fee share amounts. Sum of safety fund and treasury fee shares exceeds one"@
}

/// The result of validating these fee shares.
pub open spec fn fee_shares_checked(r: Result<(), ContractError>, safety: Decimal, treasury: Decimal) -> bool {
    &&& (safety.atomics > DECIMAL_FRACTIONAL || treasury.atomics > DECIMAL_FRACTIONAL)
        ==> is_generic_err(r, fee_share_error_message(safety, treasury))
    &&& (safety.atomics <= DECIMAL_FRACTIONAL && treasury.atomics <= DECIMAL_FRACTIONAL
        && safety.atomics + treasury.atomics > DECIMAL_FRACTIONAL) ==> is_generic_err(
        r,
        fee_share_sum_message(),
    )
    &&& valid_fee_shares(safety, treasury) ==> r == Ok::<(), ContractError>(())
}

impl Config {
    /// The fee shares are valid.
    pub open spec fn valid(&self) -> bool {
        valid_fee_shares(self.safety_fund_fee_share, self.treasury_fee_share)
    }

    /// Checks that each fee share is at most one, then that their sum is.
    pub fn validate(&self) -> (r: Result<(), ContractError>)
        ensures
            fee_shares_checked(r, self.safety_fund_fee_share, self.treasury_fee_share),
    {
        let s_name = "safety_fund_fee_share".to_owned();
        let t_name = "treasury_fee_share".to_owned();
        let conditions = vec![
            (Config::less_or_equal_one(&self.safety_fund_fee_share), s_name),
            (Config::less_or_equal_one(&self.treasury_fee_share), t_name),
        ];
        let r = all_conditions_valid(&conditions);
        proof {
            let c = conditions@;
            let safety = self.safety_fund_fee_share;
            let treasury = self.treasury_fee_share;
            assert(all_hold(c) == (safety.atomics <= DECIMAL_FRACTIONAL && treasury.atomics
                <= DECIMAL_FRACTIONAL)) by {
                if !c[0].0 {
                    assert(!all_hold(c));
                }
                if !c[1].0 {
                    assert(!all_hold(c));
                }
            }
            if !all_hold(c) {
                reveal_with_fuel(crate::util::join, 3);
                reveal_with_fuel(crate::util::failed_names, 3);
                assert(c.drop_last().drop_last() =~= Seq::<(bool, String)>::empty());
                let names = crate::util::condition_names(c);
                assert(names.drop_last() =~= seq![c[0].1@]);
                let failed = crate::util::failed_names(c);
                let f1 = crate::util::failed_names(c.drop_last());
                if !c[0].0 && !c[1].0 {
                    assert(f1 =~= seq![c[0].1@]);
                    assert(failed.drop_last() =~= seq![c[0].1@]);
                } else if !c[0].0 {
                    assert(failed =~= seq![c[0].1@]);
                } else {
                    assert(f1 =~= Seq::<Seq<char>>::empty());
                    assert(failed =~= seq![c[1].1@]);
                }
                assert(conditions_message(c) =~= fee_share_error_message(safety, treasury));
            }
        }
        match r {
            Ok(()) => {},
            Err(e) => {
                return Err(e);
            },
        }
        let combined = self.safety_fund_fee_share.add(self.treasury_fee_share);
        if combined.atomics > Decimal::one().atomics {
            return Err(
                ContractError::generic_err(
                    "Invalid fee share amounts. Sum of safety fund and treasury fee shares exceeds one",
                ),
            );
        }
        Ok(())
    }

    /// The decimal is at most one.
    pub fn less_or_equal_one(value: &Decimal) -> (b: bool)
        ensures
            b == (value.atomics <= DECIMAL_FRACTIONAL),
    {
        value.atomics <= Decimal::one().atomics
    }
}

/// Every parameter is given.
pub open spec fn all_params_given(c: CreateOrUpdateConfig) -> bool {
    &&& c.owner is Some
    &&& c.address_provider_address is Some
    &&& c.safety_fund_fee_share is Some
    &&& c.treasury_fee_share is Some
    &&& c.terraswap_factory_address is Some
    &&& c.terraswap_max_spread is Some
}

/// The configuration that the given parameters make when all are given.
pub open spec fn config_of(c: CreateOrUpdateConfig) -> Config {
    Config {
        owner: c.owner.unwrap(),
        address_provider_address: c.address_provider_address.unwrap(),
        safety_fund_fee_share: c.safety_fund_fee_share.unwrap(),
        treasury_fee_share: c.treasury_fee_share.unwrap(),
        terraswap_factory_address: c.terraswap_factory_address.unwrap(),
        terraswap_max_spread: c.terraswap_max_spread.unwrap(),
    }
}

/// The configuration after an update: each given value replaces the current one.
pub open spec fn updated_config(old: Config, u: CreateOrUpdateConfig) -> Config {
    Config {
        owner: u.owner.unwrap_or(old.owner),
        address_provider_address: u.address_provider_address.unwrap_or(old.address_provider_address),
        safety_fund_fee_share: u.safety_fund_fee_share.unwrap_or(old.safety_fund_fee_share),
        treasury_fee_share: u.treasury_fee_share.unwrap_or(old.treasury_fee_share),
        terraswap_factory_address: u.terraswap_factory_address.unwrap_or(
            old.terraswap_factory_address,
        ),
        terraswap_max_spread: u.terraswap_max_spread.unwrap_or(old.terraswap_max_spread),
    }
}

/// Instantiates the collector: every parameter must be given and the fee shares valid.
pub fn instantiate(msg_config: CreateOrUpdateConfig) -> (r: Result<Config, ContractError>)
    ensures
        !all_params_given(msg_config) ==> is_generic_err(
            r,
            "All params should be available during initialization"@,
        ),
        all_params_given(msg_config) ==> ({
            let c = config_of(msg_config);
            &&& fee_shares_checked(
                match r {
                    Ok(_) => Ok::<(), ContractError>(()),
                    Err(e) => Err::<(), ContractError>(e),
                },
                c.safety_fund_fee_share,
                c.treasury_fee_share,
            )
            &&& r matches Ok(cfg) ==> cfg == c
        }),
{
    let CreateOrUpdateConfig {
        owner,
        address_provider_address,
        safety_fund_fee_share,
        treasury_fee_share,
        terraswap_factory_address,
        terraswap_max_spread,
    } = msg_config;
    let available = owner.is_some() && address_provider_address.is_some()
        && safety_fund_fee_share.is_some() && treasury_fee_share.is_some()
        && terraswap_factory_address.is_some() && terraswap_max_spread.is_some();
    if !available {
        return Err(ContractError::generic_err("All params should be available during initialization"));
    }
    let config = Config {
        owner: owner.unwrap(),
        address_provider_address: address_provider_address.unwrap(),
        safety_fund_fee_share: safety_fund_fee_share.unwrap(),
        treasury_fee_share: treasury_fee_share.unwrap(),
        terraswap_factory_address: terraswap_factory_address.unwrap(),
        terraswap_max_spread: terraswap_max_spread.unwrap(),
    };
    match config.validate() {
        Ok(()) => Ok(config),
        Err(e) => Err(e),
    }
}

/// Updates the configuration; only the owner may, and an update with invalid fee shares
/// is refused and changes nothing.
pub fn execute_update_config(
    config: &mut Config,
    sender: &String,
    new_config: CreateOrUpdateConfig,
) -> (r: Result<(), ContractError>)
    ensures
        sender@ != old(config).owner@ ==> r == Err::<(), ContractError>(ContractError::Unauthorized),
        sender@ == old(config).owner@ ==> fee_shares_checked(
            r,
            updated_config(*old(config), new_config).safety_fund_fee_share,
            updated_config(*old(config), new_config).treasury_fee_share,
        ),
        r is Ok ==> *final(config) == updated_config(*old(config), new_config),
        r is Err ==> *final(config) == *old(config),
{
    if *sender != config.owner {
        return Err(ContractError::Unauthorized);
    }
    let CreateOrUpdateConfig {
        owner,
        address_provider_address,
        safety_fund_fee_share,
        treasury_fee_share,
        terraswap_factory_address,
        terraswap_max_spread,
    } = new_config;
    let candidate = Config {
        owner: owner.unwrap_or(config.owner.clone()),
        address_provider_address: address_provider_address.unwrap_or(
            config.address_provider_address.clone(),
        ),
        safety_fund_fee_share: safety_fund_fee_share.unwrap_or(config.safety_fund_fee_share),
        treasury_fee_share: treasury_fee_share.unwrap_or(config.treasury_fee_share),
        terraswap_factory_address: terraswap_factory_address.unwrap_or(
            config.terraswap_factory_address.clone(),
        ),
        terraswap_max_spread: terraswap_max_spread.unwrap_or(config.terraswap_max_spread),
    };
    match candidate.validate() {
        Ok(()) => {
            *config = candidate;
            Ok(())
        },
        Err(e) => Err(e),
    }
}

/// Enables or disables an asset for distribution; only the owner may.
pub fn execute_update_asset_config(config: &Config, sender: &String, enabled: bool) -> (r: Result<
    AssetConfig,
    ContractError,
>)
    ensures
        sender@ != config.owner@ ==> r == Err::<AssetConfig, ContractError>(
            ContractError::Unauthorized,
        ),
        sender@ == config.owner@ ==> r == Ok::<AssetConfig, ContractError>(
            (AssetConfig { enabled_for_distribution: enabled }),
        ),
{
    if *sender != config.owner {
        return Err(ContractError::Unauthorized);
    }
    Ok(AssetConfig { enabled_for_distribution: enabled })
}

/// Only the owner may have the collector run an arbitrary message.
pub fn execute_execute_cosmos_msg(config: &Config, sender: &String) -> (r: Result<(), ContractError>)
    ensures
        sender@ == config.owner@ ==> r == Ok::<(), ContractError>(()),
        sender@ != config.owner@ ==> r == Err::<(), ContractError>(ContractError::Unauthorized),
{
    if *sender != config.owner {
        return Err(ContractError::Unauthorized);
    }
    Ok(())
}

/// How an amount of income is split. A recipient whose part is zero is sent nothing.
#[derive(Debug, Clone, Copy, PartialEq, Eq, Structural)]
pub struct Distribution {
    pub amount: u128,
    pub safety_fund_amount: u128,
    pub treasury_amount: u128,
    pub staking_amount: u128,
}

/// `amount * share`, rounded down.
pub open spec fn share_of(amount: u128, share: Decimal) -> int {
    mul_div(amount as int, share.atomics as int, DECIMAL_FRACTIONAL as int)
}

proof fn lemma_floor_sum(x: int, y: int, d: int)
    requires
        0 <= x,
        0 <= y,
        0 < d,
    ensures
        x / d + y / d <= (x + y) / d,
{
    vstd::arithmetic::div_mod::lemma_fundamental_div_mod(x, d);
    vstd::arithmetic::div_mod::lemma_fundamental_div_mod(y, d);
    vstd::arithmetic::div_mod::lemma_fundamental_div_mod(x + y, d);
    vstd::arithmetic::div_mod::lemma_mod_bound(x, d);
    vstd::arithmetic::div_mod::lemma_mod_bound(y, d);
    vstd::arithmetic::div_mod::lemma_mod_bound(x + y, d);
    let qx = x / d;
    let qy = y / d;
    let q = (x + y) / d;
    assert((qx + qy) * d <= x + y) by (nonlinear_arith)
        requires
            d * qx <= x,
            d * qy <= y,
    {
        assert((qx + qy) * d == qx * d + qy * d) by (nonlinear_arith);
    }
    assert(qx + qy <= q) by (nonlinear_arith)
        requires
            (qx + qy) * d <= x + y,
            x + y < d * q + d,
            0 < d,
    {
        if qx + qy > q {
            assert((qx + qy) * d >= (q + 1) * d) by (nonlinear_arith)
                requires
                    qx + qy >= q + 1,
                    0 < d,
            ;
            assert((q + 1) * d == q * d + d) by (nonlinear_arith);
        }
    }
}

/// The two fee parts together never exceed the amount when the shares are valid.
pub proof fn lemma_fee_parts_fit(amount: u128, safety: Decimal, treasury: Decimal)
    requires
        valid_fee_shares(safety, treasury),
    ensures
        0 <= share_of(amount, safety),
        0 <= share_of(amount, treasury),
        share_of(amount, safety) + share_of(amount, treasury) <= amount,
{
    let f = DECIMAL_FRACTIONAL as int;
    let a = amount as int;
    assert(a * safety.atomics + a * treasury.atomics == a * (safety.atomics + treasury.atomics))
        by (nonlinear_arith);
    assert(0 <= a * safety.atomics && 0 <= a * treasury.atomics) by (nonlinear_arith)
        requires
            0 <= a,
            0 <= safety.atomics,
            0 <= treasury.atomics,
    ;
    lemma_floor_sum(a * safety.atomics, a * treasury.atomics, f);
    crate::math::lemma_mul_div_le_left(a, safety.atomics + treasury.atomics, f);
    crate::math::lemma_mul_div_nonneg(a, safety.atomics as int, f);
    crate::math::lemma_mul_div_nonneg(a, treasury.atomics as int, f);
}

/// Splits the collector's income in an asset. The asset must be enabled; the amount, all of
/// `balance` when none is given, may not exceed `balance`. The safety fund and treasury get
/// their shares rounded down and the stakers the rest.
pub fn execute_distribute_protocol_rewards(
    config: &Config,
    asset_label: &String,
    asset_config: Option<AssetConfig>,
    balance: u128,
    amount: Option<u128>,
) -> (r: Result<Distribution, ContractError>)
    requires
        config.valid(),
    ensures
        !(asset_config matches Some(c) && c.enabled_for_distribution) ==> (r matches Err(
            ContractError::AssetNotEnabled { label },
        ) && label == *asset_label),
        (asset_config matches Some(c) && c.enabled_for_distribution) && (amount matches Some(a) && a
            > balance) ==> r == Err::<Distribution, ContractError>(
            (ContractError::AmountTooLarge { amount: amount.unwrap(), balance }),
        ),
        (asset_config matches Some(c) && c.enabled_for_distribution) && !(amount matches Some(a) && a
            > balance) ==> (r matches Ok(d) && d.amount == amount.unwrap_or(balance)
            && d.safety_fund_amount == share_of(d.amount, config.safety_fund_fee_share)
            && d.treasury_amount == share_of(d.amount, config.treasury_fee_share) && d.staking_amount
            == d.amount - d.safety_fund_amount - d.treasury_amount),
{
    let enabled = match asset_config {
        Some(c) => c.enabled_for_distribution,
        None => false,
    };
    if !enabled {
        return Err(ContractError::AssetNotEnabled { label: asset_label.clone() });
    }
    let amount_to_distribute = match amount {
        Some(a) => {
            if a > balance {
                return Err(ContractError::AmountTooLarge { amount: a, balance });
            }
            a
        },
        None => balance,
    };
    proof {
        lemma_fee_parts_fit(
            amount_to_distribute,
            config.safety_fund_fee_share,
            config.treasury_fee_share,
        );
    }
    let safety_fund_amount = config.safety_fund_fee_share.mul_uint(amount_to_distribute);
    let treasury_amount = config.treasury_fee_share.mul_uint(amount_to_distribute);
    let before_staking = safety_fund_amount + treasury_amount;
    let staking_amount = amount_to_distribute - before_staking;
    Ok(
        Distribution {
            amount: amount_to_distribute,
            safety_fund_amount,
            treasury_amount,
            staking_amount,
        },
    )
}

/// Law: the three parts of a distribution add up to the amount distributed.
pub proof fn lemma_distribution_conserves(d: Distribution, config: Config)
    requires
        config.valid(),
        d.safety_fund_amount == share_of(d.amount, config.safety_fund_fee_share),
        d.treasury_amount == share_of(d.amount, config.treasury_fee_share),
        d.staking_amount == d.amount - d.safety_fund_amount - d.treasury_amount,
    ensures
        d.safety_fund_amount + d.treasury_amount + d.staking_amount == d.amount,
        d.safety_fund_amount + d.treasury_amount <= d.amount,
{
    lemma_fee_parts_fit(d.amount, config.safety_fund_fee_share, config.treasury_fee_share);
}

/// The stored configuration of an asset, or an error naming it when there is none.
pub fn query_asset_config(asset_config: Option<AssetConfig>, asset_label: &String) -> (r: Result<
    AssetConfig,
    ContractError,
>)
    ensures
        asset_config matches Some(c) ==> r == Ok::<AssetConfig, ContractError>(c),
        asset_config is None ==> (r matches Err(ContractError::NotFound { kind }) && kind@
            == "failed to load asset config for: "@ + asset_label@),
{
    match asset_config {
        Some(c) => Ok(c),
        None => {
            let mut kind = String::from_str("failed to load asset config for: ");
            kind.append(asset_label.as_str());
            Err(ContractError::NotFound { kind })
        },
    }
}

} // verus!
