use mars_protocol::error::ContractError;
use mars_protocol::incentives::{
    asset_incentive_compute_index, handle_balance_change, handle_claim_rewards,
    handle_execute_cosmos_msg, handle_set_asset_incentive, handle_update_config, Config, user_compute_accrued_rewards, AssetIncentive, ClaimEntry,
};
use mars_protocol::math::Decimal;

const ONE: u128 = 1_000_000_000_000_000_000;

fn dec(n: u128, d: u128) -> Decimal {
    Decimal { atomics: n * ONE / d }
}

fn owner() -> Vec<u8> {
    b"owner".to_vec()
}

#[test]
fn test_asset_incentive_compute_index() {
    assert_eq!(
        asset_incentive_compute_index(Decimal { atomics: 0 }, 100, 200_000, 1000, 10),
        Err(ContractError::Overflow)
    );
    assert_eq!(
        asset_incentive_compute_index(Decimal { atomics: 0 }, 100, 200_000, 0, 1000).unwrap(),
        dec(1, 2)
    );
    assert_eq!(
        asset_incentive_compute_index(dec(1, 2), 2000, 5_000_000, 20_000, 30_000).unwrap(),
        dec(9, 2)
    );
}

#[test]
fn test_user_compute_accrued_rewards() {
    assert_eq!(user_compute_accrued_rewards(0, dec(1, 1), dec(2, 1)).unwrap(), 0);
    assert_eq!(user_compute_accrued_rewards(100, Decimal { atomics: 0 }, dec(2, 1)).unwrap(), 200);
    assert_eq!(user_compute_accrued_rewards(100, dec(1, 1), dec(2, 1)).unwrap(), 100);
}

#[test]
fn test_only_owner_can_set_asset_incentive() {
    let res = handle_set_asset_incentive(&b"sender".to_vec(), &owner(), None, 0, 100, 0);
    assert_eq!(res, Err(ContractError::Unauthorized));
}

#[test]
fn test_set_new_asset_incentive() {
    let ai = handle_set_asset_incentive(&owner(), &owner(), None, 0, 100, 1_000_000).unwrap();
    assert_eq!(ai.emission_per_second, 100);
    assert_eq!(ai.index, Decimal { atomics: 0 });
    assert_eq!(ai.last_updated, 1_000_000);
}

#[test]
fn test_set_existing_asset_incentive() {
    let existing = AssetIncentive { emission_per_second: 100, index: dec(1, 2), last_updated: 500_000 };
    let ai = handle_set_asset_incentive(&owner(), &owner(), Some(existing), 2_000_000, 200, 1_000_000)
        .unwrap();
    let expected_index =
        asset_incentive_compute_index(dec(1, 2), 100, 2_000_000, 500_000, 1_000_000).unwrap();
    assert_eq!(expected_index, dec(51, 2));
    assert_eq!(ai.emission_per_second, 200);
    assert_eq!(ai.index, expected_index);
    assert_eq!(ai.last_updated, 1_000_000);
}

#[test]
fn test_handle_balance_change_noops() {
    let res = handle_balance_change(None, None, None, 100000, 100000, 0).unwrap();
    assert!(res.is_none());
}

#[test]
fn test_balance_change_zero_emission() {
    let index = dec(1, 2);
    let ai = AssetIncentive { emission_per_second: 0, index, last_updated: 500_000 };
    let res = handle_balance_change(Some(ai), None, None, 100_000, 100_000, 600_000)
        .unwrap()
        .unwrap();
    let expected_accrued = user_compute_accrued_rewards(100_000, Decimal { atomics: 0 }, index).unwrap();
    assert_eq!(expected_accrued, 50_000);
    assert_eq!(res.asset_incentive.index, index);
    assert_eq!(res.asset_incentive.last_updated, 600_000);
    assert_eq!(res.user_index, Some(index));
    assert_eq!(res.unclaimed_rewards, Some(expected_accrued));
}

#[test]
fn test_balance_change_user_with_zero_balance() {
    let start_index = dec(1, 2);
    let ai = AssetIncentive { emission_per_second: 100, index: start_index, last_updated: 500_000 };
    let res = handle_balance_change(Some(ai), None, None, 0, 100_000, 600_000).unwrap().unwrap();
    let expected_index =
        asset_incentive_compute_index(start_index, 100, 100_000, 500_000, 600_000).unwrap();
    assert_eq!(expected_index, dec(201, 2));
    assert_eq!(res.asset_incentive.index, expected_index);
    assert_eq!(res.asset_incentive.last_updated, 600_000);
    assert_eq!(res.user_index, Some(expected_index));
    // no new rewards
    assert_eq!(res.unclaimed_rewards, None);
}

#[test]
fn test_balance_change_user_non_zero_balance() {
    let ai = AssetIncentive { emission_per_second: 100, index: dec(1, 2), last_updated: 500_000 };
    // first call, no previous rewards
    let res = handle_balance_change(Some(ai), None, None, 10_000, 100_000, 600_000).unwrap().unwrap();
    let expected_index = dec(201, 2);
    let expected_accrued =
        user_compute_accrued_rewards(10_000, Decimal { atomics: 0 }, expected_index).unwrap();
    assert_eq!(expected_accrued, 1_005_000);
    assert_eq!(res.asset_incentive.index, expected_index);
    assert_eq!(res.unclaimed_rewards, Some(expected_accrued));
    assert_eq!(res.user_index, Some(expected_index));

    // second call: the previous rewards stay and new ones are added
    let res2 = handle_balance_change(
        Some(res.asset_incentive),
        Some(expected_index),
        Some(expected_accrued),
        10_000,
        100_000,
        700_000,
    )
    .unwrap()
    .unwrap();
    let index2 = asset_incentive_compute_index(expected_index, 100, 100_000, 600_000, 700_000).unwrap();
    let accrued2 = user_compute_accrued_rewards(10_000, expected_index, index2).unwrap();
    assert_eq!(accrued2, 1_000_000);
    assert_eq!(res2.unclaimed_rewards, Some(expected_accrued + accrued2));
}

#[test]
fn test_handle_claim_rewards() {
    let previous_unclaimed_rewards: u128 = 50_000;
    let time_start: u64 = 500_000;
    let time_contract_call: u64 = 600_000;
    let one = dec(1, 1);
    // ma_asset with ongoing rewards, ma_zero with no emission but a user index
    // (ma_no_user, where the user holds no index, is not an entry of the claim)
    let entries = vec![
        ClaimEntry {
            user_index: one,
            balance: 10_000,
            total_supply: 100_000,
            asset_incentive: AssetIncentive {
                emission_per_second: 100,
                index: one,
                last_updated: time_start,
            },
        },
        ClaimEntry {
            user_index: dec(1, 2),
            balance: 10_000,
            total_supply: 200_000,
            asset_incentive: AssetIncentive {
                emission_per_second: 0,
                index: one,
                last_updated: time_start,
            },
        },
    ];
    let res = handle_claim_rewards(previous_unclaimed_rewards, &entries, time_contract_call).unwrap();

    let expected_ma_asset_incentive_index =
        asset_incentive_compute_index(one, 100, 100_000, time_start, time_contract_call).unwrap();
    let expected_ma_asset_accrued_rewards =
        user_compute_accrued_rewards(10_000, one, expected_ma_asset_incentive_index).unwrap();
    let expected_ma_zero_accrued_rewards =
        user_compute_accrued_rewards(10_000, dec(1, 2), one).unwrap();
    let expected_accrued_rewards = previous_unclaimed_rewards
        + expected_ma_asset_accrued_rewards
        + expected_ma_zero_accrued_rewards;
    assert_eq!(res.accrued_rewards, expected_accrued_rewards);
    assert_eq!(res.accrued_rewards, 50_000 + 1_000_000 + 5_000);

    // ma_asset and ma_zero incentives get updated
    assert_eq!(res.asset_incentives[0].index, expected_ma_asset_incentive_index);
    assert_eq!(res.asset_incentives[0].last_updated, time_contract_call);
    assert_eq!(res.asset_incentives[1].index, one);
    assert_eq!(res.asset_incentives[1].last_updated, time_contract_call);

    // user's ma_asset and ma_zero indices are updated
    assert_eq!(res.user_indices[0], Some(expected_ma_asset_incentive_index));
    assert_eq!(res.user_indices[1], Some(one));
}

#[test]
fn test_claim_zero_rewards() {
    let res = handle_claim_rewards(0, &vec![], 600_000).unwrap();
    assert_eq!(res.accrued_rewards, 0);
    assert!(res.asset_incentives.is_empty());
    assert!(res.user_indices.is_empty());
}

fn incentives_config() -> Config {
    Config {
        owner: b"owner".to_vec(),
        mars_token_address: b"mars_token".to_vec(),
        staking_address: b"staking".to_vec(),
    }
}

#[test]
fn incentives_update_config() {
    let mut config = incentives_config();
    // non owner is not authorized
    let err = handle_update_config(&mut config, &b"somebody".to_vec(), None, None, None).unwrap_err();
    assert_eq!(err, ContractError::Unauthorized);
    assert_eq!(config, incentives_config());

    // update config with new params
    handle_update_config(
        &mut config,
        &owner(),
        Some(b"new_owner".to_vec()),
        None,
        Some(b"new_staking".to_vec()),
    )
    .unwrap();
    assert_eq!(config.owner, b"new_owner".to_vec());
    assert_eq!(config.mars_token_address, b"mars_token".to_vec());
    assert_eq!(config.staking_address, b"new_staking".to_vec());
}

#[test]
fn incentives_execute_cosmos_msg() {
    let config = incentives_config();
    assert_eq!(handle_execute_cosmos_msg(&config, &b"somebody".to_vec()), Err(ContractError::Unauthorized));
    assert_eq!(handle_execute_cosmos_msg(&config, &owner()), Ok(()));
}
