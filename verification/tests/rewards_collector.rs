use mars_protocol::error::ContractError;
use mars_protocol::math::Decimal;
use mars_protocol::rewards_collector::{
    execute_distribute_protocol_rewards, execute_execute_cosmos_msg, execute_update_asset_config,
    execute_update_config, instantiate, query_asset_config, AssetConfig, Config,
    CreateOrUpdateConfig, Distribution,
};

const ONE: u128 = 1_000_000_000_000_000_000;

fn s(x: &str) -> String {
    x.to_string()
}

fn dec(n: u128, d: u128) -> Decimal {
    Decimal { atomics: n * ONE / d }
}

fn base_config() -> CreateOrUpdateConfig {
    CreateOrUpdateConfig {
        owner: Some(s("owner")),
        address_provider_address: Some(s("address_provider")),
        safety_fund_fee_share: None,
        treasury_fee_share: None,
        terraswap_factory_address: Some(s("terraswap")),
        terraswap_max_spread: Some(dec(1, 100)),
    }
}

fn th_setup() -> Config {
    let mut params = base_config();
    params.safety_fund_fee_share = Some(dec(10, 100));
    params.treasury_fee_share = Some(dec(20, 100));
    instantiate(params).unwrap()
}

#[test]
fn contract_test_proper_initialization() {
    let empty = CreateOrUpdateConfig {
        owner: None,
        address_provider_address: None,
        safety_fund_fee_share: None,
        treasury_fee_share: None,
        terraswap_factory_address: None,
        terraswap_max_spread: None,
    };
    assert_eq!(
        instantiate(empty).unwrap_err(),
        ContractError::Generic { msg: s("All params should be available during initialization") }
    );

    let mut params = base_config();
    params.safety_fund_fee_share = Some(dec(11, 10));
    params.treasury_fee_share = Some(dec(12, 10));
    assert_eq!(
        instantiate(params).unwrap_err(),
        ContractError::Generic {
            msg: s("[safety_fund_fee_share, treasury_fee_share] should be less or equal 1. Invalid params: [safety_fund_fee_share, treasury_fee_share]")
        }
    );

    let mut params = base_config();
    params.safety_fund_fee_share = Some(dec(7, 10));
    params.treasury_fee_share = Some(dec(4, 10));
    assert_eq!(
        instantiate(params).unwrap_err(),
        ContractError::Generic {
            msg: s("Invalid fee share amounts. Sum of safety fund and treasury fee shares exceeds one")
        }
    );

    let mut params = base_config();
    params.safety_fund_fee_share = Some(dec(5, 10));
    params.treasury_fee_share = Some(dec(3, 10));
    let config = instantiate(params).unwrap();
    assert_eq!(config.safety_fund_fee_share, dec(5, 10));
    assert_eq!(config.treasury_fee_share, dec(3, 10));
    assert_eq!(config.owner, "owner");
}

#[test]
fn contract_test_update_config() {
    let mut config = th_setup();

    // non owner is not authorized
    let mut update = base_config();
    update.safety_fund_fee_share = Some(dec(10, 100));
    update.treasury_fee_share = Some(dec(20, 100));
    let err = execute_update_config(&mut config, &s("somebody"), update).unwrap_err();
    assert_eq!(err, ContractError::Unauthorized);

    // fee shares greater than one
    let mut update = base_config();
    update.owner = None;
    update.safety_fund_fee_share = Some(dec(11, 10));
    update.treasury_fee_share = Some(dec(12, 10));
    let err = execute_update_config(&mut config, &s("owner"), update).unwrap_err();
    assert_eq!(
        err,
        ContractError::Generic {
            msg: s("[safety_fund_fee_share, treasury_fee_share] should be less or equal 1. Invalid params: [safety_fund_fee_share, treasury_fee_share]")
        }
    );

    // fee shares summing above one
    let mut update = base_config();
    update.owner = None;
    update.safety_fund_fee_share = Some(dec(10, 10));
    let err = execute_update_config(&mut config, &s("owner"), update).unwrap_err();
    assert_eq!(
        err,
        ContractError::Generic {
            msg: s("Invalid fee share amounts. Sum of safety fund and treasury fee shares exceeds one")
        }
    );
    assert_eq!(config.safety_fund_fee_share, dec(10, 100));

    // all new params
    let update = CreateOrUpdateConfig {
        owner: Some(s("new_owner")),
        address_provider_address: Some(s("new_address_provider")),
        safety_fund_fee_share: Some(dec(5, 100)),
        treasury_fee_share: Some(dec(3, 100)),
        terraswap_factory_address: Some(s("new_terraswap")),
        terraswap_max_spread: Some(dec(2, 100)),
    };
    execute_update_config(&mut config, &s("owner"), update).unwrap();
    assert_eq!(config.owner, "new_owner");
    assert_eq!(config.address_provider_address, "new_address_provider");
    assert_eq!(config.safety_fund_fee_share, dec(5, 100));
    assert_eq!(config.treasury_fee_share, dec(3, 100));
    assert_eq!(config.terraswap_factory_address, "new_terraswap");
    assert_eq!(config.terraswap_max_spread, dec(2, 100));
}

#[test]
fn test_update_asset_config() {
    let config = th_setup();
    assert_eq!(
        execute_update_asset_config(&config, &s("somebody"), true),
        Err(ContractError::Unauthorized)
    );
    let asset_config = execute_update_asset_config(&config, &s("owner"), true).unwrap();
    assert_eq!(query_asset_config(Some(asset_config), &s("uusd")).unwrap().enabled_for_distribution, true);
    let asset_config = execute_update_asset_config(&config, &s("owner"), false).unwrap();
    assert_eq!(asset_config.enabled_for_distribution, false);
    assert_eq!(
        query_asset_config(None, &s("uusd")),
        Err(ContractError::NotFound { kind: s("failed to load asset config for: uusd") })
    );
    assert_eq!(AssetConfig::default().enabled_for_distribution, false);
}

fn check_distribution(asset_label: &str) {
    let config = th_setup();
    let balance = 2_000_000_000u128;
    let label = s(asset_label);

    // an asset that is not enabled
    let err = execute_distribute_protocol_rewards(&config, &label, None, balance, Some(1_500_000_000))
        .unwrap_err();
    assert_eq!(err, ContractError::AssetNotEnabled { label: label.clone() });
    let enabled = Some(AssetConfig { enabled_for_distribution: true });

    // an amount above the balance
    let err = execute_distribute_protocol_rewards(&config, &label, enabled, balance, Some(2_000_000_001))
        .unwrap_err();
    assert_eq!(err, ContractError::AmountTooLarge { amount: 2_000_000_001, balance });

    // an amount below the balance
    let d = execute_distribute_protocol_rewards(&config, &label, enabled, balance, Some(1_500_000_000))
        .unwrap();
    assert_eq!(
        d,
        Distribution {
            amount: 1_500_000_000,
            safety_fund_amount: 150_000_000,
            treasury_amount: 300_000_000,
            staking_amount: 1_050_000_000,
        }
    );

    // no amount: the whole balance
    let d = execute_distribute_protocol_rewards(&config, &label, enabled, balance, None).unwrap();
    assert_eq!(
        d,
        Distribution {
            amount: 2_000_000_000,
            safety_fund_amount: 200_000_000,
            treasury_amount: 400_000_000,
            staking_amount: 1_400_000_000,
        }
    );
    assert_eq!(d.safety_fund_amount + d.treasury_amount + d.staking_amount, d.amount);
}

#[test]
fn test_distribute_protocol_rewards_native() {
    check_distribution("somecoin");
}

#[test]
fn test_distribute_protocol_rewards_cw20() {
    check_distribution("cw20_address");
}

#[test]
fn contract_test_execute_cosmos_msg() {
    let config = th_setup();
    assert_eq!(execute_execute_cosmos_msg(&config, &s("somebody")), Err(ContractError::Unauthorized));
    assert_eq!(execute_execute_cosmos_msg(&config, &s("owner")), Ok(()));
}

#[test]
fn distribution_rounds_fees_down() {
    let config = th_setup();
    let enabled = Some(AssetConfig { enabled_for_distribution: true });
    let d = execute_distribute_protocol_rewards(&config, &s("x"), enabled, 7, None).unwrap();
    assert_eq!(d, Distribution { amount: 7, safety_fund_amount: 0, treasury_amount: 1, staking_amount: 6 });
}
