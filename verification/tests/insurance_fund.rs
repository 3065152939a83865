use mars_protocol::error::ContractError;
use mars_protocol::insurance_fund::{handle_execute_cosmos_msg, handle_update_config, init};
use mars_protocol::math::Decimal;

const ONE: u128 = 1_000_000_000_000_000_000;

fn dec(n: u128, d: u128) -> Decimal {
    Decimal { atomics: n * ONE / d }
}

fn b(x: &str) -> Vec<u8> {
    x.as_bytes().to_vec()
}

#[test]
fn insurance_fund_proper_initialization() {
    let config = init(b("owner"), b("terraswap_factory"), dec(1, 100));
    assert_eq!(config.owner, b("owner"));
    assert_eq!(config.terraswap_factory_address, b("terraswap_factory"));
    assert_eq!(config.terraswap_max_spread, dec(1, 100));
}

#[test]
fn insurance_fund_update_config() {
    let mut config = init(b("owner"), b("terraswap_factory"), dec(1, 100));

    // non owner is not authorized
    let err = handle_update_config(&mut config, &b("somebody"), None, None, None).unwrap_err();
    assert_eq!(err, ContractError::Unauthorized);
    assert_eq!(config.owner, b("owner"));

    // update config with all new params
    handle_update_config(
        &mut config,
        &b("owner"),
        Some(b("new_owner")),
        Some(b("new_factory")),
        Some(dec(10, 100)),
    )
    .unwrap();
    assert_eq!(config.owner, b("new_owner"));
    assert_eq!(config.terraswap_factory_address, b("new_factory"));
    assert_eq!(config.terraswap_max_spread, dec(10, 100));

    // nothing given keeps the configuration
    handle_update_config(&mut config, &b("new_owner"), None, None, None).unwrap();
    assert_eq!(config.owner, b("new_owner"));
    assert_eq!(config.terraswap_factory_address, b("new_factory"));
    assert_eq!(config.terraswap_max_spread, dec(10, 100));
}

#[test]
fn insurance_fund_execute_cosmos_msg() {
    let config = init(b("owner"), b("terraswap_factory"), dec(1, 100));
    assert_eq!(handle_execute_cosmos_msg(&config, &b("somebody")), Err(ContractError::Unauthorized));
    assert_eq!(handle_execute_cosmos_msg(&config, &b("owner")), Ok(()));
}
