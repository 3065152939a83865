use cosmwasm_bignumber::{Decimal256 as BigDecimal, Uint256 as BigUint};
use mars_protocol::red_bank::receive::{receive_cw20, ReceiveAction, ReceiveMsg};
use mars_protocol::error::{Action, ContractError};
use mars_protocol::math::{Decimal256, U256};
use mars_protocol::red_bank::bits::{get_bit, set_bit, unset_bit};
use mars_protocol::red_bank::borrow::handle_borrow;
use mars_protocol::red_bank::handlers::{
    handle_deposit, handle_init_asset, handle_redeem, handle_update_uncollateralized_loan_limit, init,
    init_asset_token_callback, InitAssetParams,
};
use mars_protocol::red_bank::liquidate::{handle_liquidate, LiquidationRequest};
use mars_protocol::red_bank::position::{
    get_denom_amount_from_coins, user_asset_position, CollateralMeasure, Coin,
};
use mars_protocol::red_bank::repay::handle_repay;
use mars_protocol::red_bank::state::{AssetType, Debt, Reserve, User};
use mars_protocol::red_bank::transfer::handle_finalize_liquidity_token_transfer;

const ONE: u128 = 1_000_000_000_000_000_000;
const SECONDS_PER_YEAR: u64 = 31536000;

fn u(n: u128) -> U256 {
    U256 { hi: 0, lo: n }
}

fn d(n: u128, den: u128) -> Decimal256 {
    Decimal256 { atomics: u(n * ONE / den) }
}

fn big(x: Decimal256) -> BigDecimal {
    BigDecimal(BigUint::from(x.atomics.lo).into())
}

fn small(x: BigDecimal) -> Decimal256 {
    Decimal256 { atomics: u(u128::from(BigUint::from(x.0))) }
}

fn applied_rate(index: Decimal256, rate: Decimal256, elapsed: u64) -> Decimal256 {
    let factor = big(rate) * BigDecimal::from_uint256(elapsed) / BigDecimal::from_uint256(SECONDS_PER_YEAR);
    small(big(index) * (BigDecimal::one() + factor))
}

struct Expected {
    borrow_index: Decimal256,
    liquidity_index: Decimal256,
    borrow_rate: Decimal256,
    liquidity_rate: Decimal256,
}

/// Indices and rates expected after an operation, computed with 256-bit decimals.
fn expected_indices_and_rates(
    reserve: &Reserve,
    block_time: u64,
    initial_liquidity: u128,
    less_liquidity: u128,
    more_debt: u128,
    less_debt: u128,
) -> Expected {
    let elapsed = block_time - reserve.interests_last_updated;
    let liquidity_index = applied_rate(reserve.liquidity_index, reserve.liquidity_rate, elapsed);
    let borrow_index = applied_rate(reserve.borrow_index, reserve.borrow_rate, elapsed);
    let more_scaled = BigUint::from(more_debt) / big(borrow_index);
    let less_scaled = BigUint::from(less_debt) / big(borrow_index);
    let total = BigUint::from(reserve.debt_total_scaled.lo) + more_scaled;
    let new_total = if total > less_scaled { total - less_scaled } else { BigUint::zero() };
    let debt_total = BigDecimal::from_uint256(new_total) * big(borrow_index);
    let liquidity_total = BigDecimal::from_uint256(initial_liquidity - less_liquidity);
    let utilization = debt_total / (liquidity_total + debt_total);
    let borrow_rate = utilization * big(reserve.borrow_slope);
    let liquidity_rate = borrow_rate * utilization;
    Expected {
        borrow_index,
        liquidity_index,
        borrow_rate: small(borrow_rate),
        liquidity_rate: small(liquidity_rate),
    }
}

fn mock_reserve(index: u32, ma_token: &str) -> Reserve {
    Reserve {
        index,
        ma_token_address: ma_token.as_bytes().to_vec(),
        borrow_index: Decimal256 { atomics: u(0) },
        liquidity_index: Decimal256 { atomics: u(0) },
        borrow_rate: Decimal256 { atomics: u(0) },
        liquidity_rate: Decimal256 { atomics: u(0) },
        borrow_slope: Decimal256 { atomics: u(0) },
        loan_to_value: Decimal256 { atomics: u(0) },
        reserve_factor: Decimal256 { atomics: u(0) },
        interests_last_updated: 0,
        debt_total_scaled: u(0),
        asset_type: AssetType::Native,
        liquidation_threshold: d(1, 1),
        liquidation_bonus: Decimal256 { atomics: u(0) },
    }
}

#[test]
fn test_init_asset() {
    let config = init(
        b"owner".to_vec(),
        b"reserve_contract".to_vec(),
        b"insurance_fund".to_vec(),
        5,
        d(1, 2),
        d(5, 10),
        d(3, 10),
    )
    .unwrap();
    let params = InitAssetParams {
        borrow_slope: d(4, 100),
        loan_to_value: d(8, 10),
        reserve_factor: d(1, 100),
        liquidation_threshold: d(1, 1),
        liquidation_bonus: Decimal256 { atomics: u(0) },
    };
    let err = handle_init_asset(config.clone(), &b"somebody".to_vec(), None, AssetType::Native, params, 0)
        .unwrap_err();
    assert_eq!(err, ContractError::Unauthorized);

    let res = handle_init_asset(config.clone(), &b"owner".to_vec(), None, AssetType::Native, params, 0)
        .unwrap();
    assert_eq!(res.reserve.ma_token_address, Vec::<u8>::new());
    assert_eq!(res.reserve.index, 0);
    assert_eq!(res.reserve.asset_type, AssetType::Native);
    assert_eq!(res.reference_index, 0);
    assert_eq!(res.config.reserve_count, 1);

    // the same asset cannot be initialized twice
    let err = handle_init_asset(
        res.config.clone(),
        &b"owner".to_vec(),
        Some(res.reserve.clone()),
        AssetType::Native,
        params,
        0,
    )
    .unwrap_err();
    assert_eq!(err, ContractError::AssetAlreadyInitialized);

    // fee shares above one are refused
    let err = init(b"owner".to_vec(), vec![], vec![], 5, d(1, 2), d(7, 10), d(4, 10)).unwrap_err();
    assert_eq!(err, ContractError::InvalidFeeShareAmounts);
}

#[test]
fn test_init_asset_callback_cannot_be_called_on_its_own() {
    let mut reserve = mock_reserve(0, "");
    reserve.ma_token_address = b"matoken".to_vec();
    let err = init_asset_token_callback(reserve, b"mocktoken".to_vec()).unwrap_err();
    assert_eq!(err, ContractError::Unauthorized);
    let fresh = mock_reserve(0, "");
    let reserve = init_asset_token_callback(fresh, b"mocktoken".to_vec()).unwrap();
    assert_eq!(reserve.ma_token_address, b"mocktoken".to_vec());
}

#[test]
fn test_deposit_native_asset() {
    let initial_liquidity = 10000000u128;
    let mut reserve = mock_reserve(0, "matoken");
    reserve.liquidity_index = d(11, 10);
    reserve.loan_to_value = d(1, 1);
    reserve.borrow_index = d(1, 1);
    reserve.borrow_slope = d(1, 10);
    reserve.liquidity_rate = d(10, 100);
    reserve.debt_total_scaled = u(10000000);
    reserve.interests_last_updated = 10000000;

    let deposit_amount = 110000u128;
    let res = handle_deposit(
        reserve.clone(),
        User::new(),
        &"somecoin".to_string(),
        10000100,
        initial_liquidity,
        deposit_amount,
    )
    .unwrap();

    let expected_liquidity_index = applied_rate(d(11, 10), d(10, 100), 100);
    let expected_mint_amount: u128 =
        (BigUint::from(deposit_amount) / big(expected_liquidity_index)).into();
    let expected = expected_indices_and_rates(&reserve, 10000100, initial_liquidity, 0, 0, 0);
    assert_eq!(res.mint_amount, expected_mint_amount);
    assert_eq!(res.reserve.borrow_rate, d(5, 100));
    assert_eq!(res.reserve.liquidity_rate, d(25, 1000));
    assert_eq!(res.reserve.borrow_rate, expected.borrow_rate);
    assert_eq!(res.reserve.liquidity_rate, expected.liquidity_rate);
    assert_eq!(res.reserve.liquidity_index, expected_liquidity_index);
    assert_eq!(res.reserve.borrow_index, d(1, 1));
    assert_eq!(get_bit(res.user.deposited_assets, 0), Ok(true));

    // an empty deposit fails
    let err = handle_deposit(reserve, User::new(), &"somecoin".to_string(), 10000100, initial_liquidity, 0)
        .unwrap_err();
    assert_eq!(
        err,
        ContractError::InvalidZeroAmount { action: Action::Deposit, asset: "somecoin".to_string() }
    );
}

#[test]
fn test_redeem_native() {
    let initial_available_liquidity = 12000000u128;
    let mut reserve = mock_reserve(0, "matoken");
    reserve.liquidity_index = d(15, 10);
    reserve.borrow_index = d(2, 1);
    reserve.borrow_slope = d(1, 10);
    reserve.borrow_rate = d(20, 100);
    reserve.liquidity_rate = d(10, 100);
    reserve.debt_total_scaled = u(10000000);
    reserve.interests_last_updated = 10000000;
    let burn_amount = 20000u128;
    let block_time = 10000000 + 2000;

    let res = handle_redeem(
        reserve.clone(),
        &b"matoken".to_vec(),
        block_time,
        initial_available_liquidity,
        burn_amount,
    )
    .unwrap();
    let expected =
        expected_indices_and_rates(&reserve, block_time, initial_available_liquidity, burn_amount, 0, 0);
    let expected_asset_amount: u128 = (BigUint::from(burn_amount) * big(expected.liquidity_index)).into();
    assert_eq!(res.redeem_amount, expected_asset_amount);
    assert_eq!(res.reserve.borrow_rate, expected.borrow_rate);
    assert_eq!(res.reserve.liquidity_rate, expected.liquidity_rate);
    assert_eq!(res.reserve.liquidity_index, expected.liquidity_index);
    assert_eq!(res.reserve.borrow_index, expected.borrow_index);

    // only the maToken may redeem
    let err = handle_redeem(reserve, &b"other".to_vec(), block_time, initial_available_liquidity, burn_amount)
        .unwrap_err();
    assert_eq!(err, ContractError::Unauthorized);
}

#[test]
fn redeem_cannot_exceed_balance() {
    let mut reserve = mock_reserve(0, "matoken");
    reserve.liquidity_index = d(15, 10);
    let res = handle_redeem(reserve, &b"matoken".to_vec(), 0, 0, 2000);
    assert!(res.is_err());
}

#[test]
fn test_borrow_and_repay() {
    let available_liquidity_cw20 = 1000000000u128;

    let mut reserve_1 = mock_reserve(0, "matoken1");
    reserve_1.borrow_index = d(12, 10);
    reserve_1.liquidity_index = d(8, 10);
    reserve_1.borrow_slope = d(1, 10);
    reserve_1.borrow_rate = d(20, 100);
    reserve_1.liquidity_rate = d(10, 100);
    reserve_1.interests_last_updated = 10000000;
    reserve_1.asset_type = AssetType::Cw20;

    let mut reserve_collateral = mock_reserve(2, "matoken3");
    reserve_collateral.borrow_index = d(1, 1);
    reserve_collateral.liquidity_index = d(11, 10);
    reserve_collateral.loan_to_value = d(7, 10);
    reserve_collateral.borrow_slope = d(4, 10);
    reserve_collateral.borrow_rate = d(30, 100);
    reserve_collateral.liquidity_rate = d(20, 100);
    reserve_collateral.interests_last_updated = 10000000;

    let mut user = User::new();
    set_bit(&mut user.deposited_assets, 2).unwrap();

    // the borrower holds 10000 maTokens of the collateral: 10000 * 1.1 * 0.7 of borrow limit
    let positions = vec![user_asset_position(
        &reserve_collateral,
        "depositedcoin".to_string(),
        Some(10000),
        None,
        CollateralMeasure::LoanToValue,
    )];
    assert_eq!(positions[0].target_collateral, U256 { hi: 0, lo: 7700 * ONE });
    let prices = vec![("borrowedcoinnative".to_string(), d(1, 1)), ("depositedcoin".to_string(), d(1, 1))];

    let block_time = 10000000 + 10000u64;
    let borrow_amount = 2400u128;
    let res = handle_borrow(
        reserve_1.clone(),
        Some(user),
        0,
        Debt { amount_scaled: u(0) },
        &positions,
        &prices,
        &"borrowedcoincw20".to_string(),
        block_time,
        available_liquidity_cw20,
        borrow_amount,
    )
    .unwrap();
    let expected = expected_indices_and_rates(
        &reserve_1,
        block_time,
        available_liquidity_cw20,
        borrow_amount,
        borrow_amount,
        0,
    );
    assert_eq!(get_bit(res.user.borrowed_assets, 0), Ok(true));
    assert_eq!(get_bit(res.user.borrowed_assets, 1), Ok(false));
    let expected_debt_scaled: u128 = (BigUint::from(borrow_amount) / big(expected.borrow_index)).into();
    assert_eq!(res.debt.amount_scaled, u(expected_debt_scaled));
    assert_eq!(res.reserve.debt_total_scaled, u(expected_debt_scaled));
    assert_eq!(res.reserve.borrow_rate, expected.borrow_rate);
    assert_eq!(res.reserve.liquidity_rate, expected.liquidity_rate);

    // borrowing more than the collateral allows fails
    let debt_positions = vec![
        positions[0].clone(),
        user_asset_position(
            &res.reserve,
            "borrowedcoincw20".to_string(),
            None,
            Some(res.debt.amount_scaled),
            CollateralMeasure::LoanToValue,
        ),
    ];
    let err = handle_borrow(
        res.reserve.clone(),
        Some(res.user),
        0,
        res.debt,
        &debt_positions,
        &prices,
        &"borrowedcoincw20".to_string(),
        block_time,
        available_liquidity_cw20,
        10000,
    )
    .unwrap_err();
    assert_eq!(err, ContractError::BorrowExceedsCollateral);

    // a zero borrow fails
    let err = handle_borrow(
        res.reserve.clone(),
        Some(res.user),
        0,
        res.debt,
        &debt_positions,
        &prices,
        &"borrowedcoincw20".to_string(),
        block_time,
        available_liquidity_cw20,
        0,
    )
    .unwrap_err();
    assert_eq!(
        err,
        ContractError::InvalidZeroAmount { action: Action::Borrow, asset: "borrowedcoincw20".to_string() }
    );

    // repaying more than the debt refunds the excess and clears the borrowed flag
    let repay_time = block_time + 1000;
    let repay = handle_repay(
        res.reserve.clone(),
        res.debt,
        Some(res.user),
        &"borrowedcoincw20".to_string(),
        repay_time,
        available_liquidity_cw20,
        5000,
    )
    .unwrap();
    assert_eq!(repay.debt.amount_scaled, u(0));
    assert_eq!(repay.repaid_amount + repay.refund_amount, 5000);
    assert!(repay.refund_amount > 0);
    assert_eq!(get_bit(repay.user.unwrap().borrowed_assets, 0), Ok(false));

    // repaying zero fails
    let err = handle_repay(
        res.reserve,
        res.debt,
        Some(res.user),
        &"borrowedcoincw20".to_string(),
        repay_time,
        available_liquidity_cw20,
        0,
    )
    .unwrap_err();
    assert_eq!(
        err,
        ContractError::InvalidZeroAmount { action: Action::Repay, asset: "borrowedcoincw20".to_string() }
    );
}

#[test]
fn test_uncollateralized_loan_limits() {
    let mut reserve = mock_reserve(0, "matoken");
    reserve.borrow_index = d(1, 1);
    reserve.liquidity_index = d(1, 1);
    reserve.borrow_slope = d(1, 10);
    let limit = 2400u128;
    // a user without collateral borrows within the limit
    let res = handle_borrow(
        reserve.clone(),
        None,
        limit,
        Debt { amount_scaled: u(0) },
        &vec![],
        &vec![],
        &"somecoin".to_string(),
        0,
        1_000_000,
        limit,
    )
    .unwrap();
    assert_eq!(res.debt.amount_scaled, u(limit));
    // and not beyond it
    let err = handle_borrow(
        res.reserve,
        Some(res.user),
        limit,
        res.debt,
        &vec![],
        &vec![],
        &"somecoin".to_string(),
        0,
        1_000_000,
        1,
    )
    .unwrap_err();
    assert_eq!(err, ContractError::BorrowExceedsUncollateralizedLimit);
    // without a limit and without a record there is no collateral
    let err = handle_borrow(
        reserve,
        None,
        0,
        Debt { amount_scaled: u(0) },
        &vec![],
        &vec![],
        &"somecoin".to_string(),
        0,
        1_000_000,
        1,
    )
    .unwrap_err();
    assert_eq!(err, ContractError::NoCollateralDeposited);
}

#[test]
fn test_finalize_liquidity_token_transfer() {
    let mut from_user = User::new();
    set_bit(&mut from_user.deposited_assets, 0).unwrap();
    let reserve = {
        let mut r = mock_reserve(0, "masomecoin");
        r.liquidity_index = d(1, 1);
        r.loan_to_value = d(5, 10);
        r.liquidation_threshold = d(6, 10);
        r
    };
    let positions = vec![user_asset_position(
        &reserve,
        "somecoin".to_string(),
        Some(1000),
        None,
        CollateralMeasure::LiquidationThreshold,
    )];
    let prices = vec![("somecoin".to_string(), d(1, 1))];

    // a partial transfer leaves the sender's flag and sets the recipient's
    let res = handle_finalize_liquidity_token_transfer(0, from_user, None, &positions, &prices, false, 1000, 0, 400)
        .unwrap();
    assert!(res.from_user.is_none());
    assert_eq!(get_bit(res.to_user.unwrap().deposited_assets, 0), Ok(true));

    // transferring everything clears the sender's flag
    let res = handle_finalize_liquidity_token_transfer(0, from_user, Some(User::new()), &positions, &prices, false, 1000, 5, 1000)
        .unwrap();
    assert_eq!(get_bit(res.from_user.unwrap().deposited_assets, 0), Ok(false));
    assert!(res.to_user.is_none());

    // a sender left with an unhealthy position cannot transfer
    let mut borrowing = from_user;
    set_bit(&mut borrowing.borrowed_assets, 1).unwrap();
    let debt_reserve = {
        let mut r = mock_reserve(1, "madebt");
        r.borrow_index = d(1, 1);
        r
    };
    let unhealthy = vec![
        positions[0].clone(),
        user_asset_position(&debt_reserve, "debtcoin".to_string(), None, Some(u(700)), CollateralMeasure::LiquidationThreshold),
    ];
    let prices = vec![("somecoin".to_string(), d(1, 1)), ("debtcoin".to_string(), d(1, 1))];
    let err = handle_finalize_liquidity_token_transfer(0, borrowing, None, &unhealthy, &prices, false, 1000, 0, 400)
        .unwrap_err();
    assert_eq!(err, ContractError::TransferHealthFactorTooLow);
}

#[test]
fn bits_and_coins() {
    let mut bitmap = 0u128;
    set_bit(&mut bitmap, 5).unwrap();
    assert_eq!(bitmap, 32);
    assert_eq!(get_bit(bitmap, 5), Ok(true));
    assert_eq!(get_bit(bitmap, 4), Ok(false));
    unset_bit(&mut bitmap, 5).unwrap();
    assert_eq!(bitmap, 0);
    assert_eq!(get_bit(bitmap, 128), Err(ContractError::IndexOutOfRange));
    assert_eq!(set_bit(&mut bitmap, 200), Err(ContractError::IndexOutOfRange));

    let coins = vec![
        Coin { denom: "uluna".to_string(), amount: 10 },
        Coin { denom: "uusd".to_string(), amount: 20 },
    ];
    assert_eq!(get_denom_amount_from_coins(&coins, &"uusd".to_string()), 20);
    assert_eq!(get_denom_amount_from_coins(&coins, &"ukrw".to_string()), 0);
}

#[test]
fn test_deposit_cw20() {
    let initial_liquidity = 10_000_000u128;
    let mut reserve = mock_reserve(0, "matoken");
    reserve.liquidity_index = d(11, 10);
    reserve.loan_to_value = d(1, 1);
    reserve.borrow_index = d(1, 1);
    reserve.borrow_slope = d(1, 10);
    reserve.liquidity_rate = d(10, 100);
    reserve.debt_total_scaled = u(10_000_000);
    reserve.interests_last_updated = 10_000_000;
    reserve.asset_type = AssetType::Cw20;

    let deposit_amount = 110000u128;
    let res = handle_deposit(
        reserve.clone(),
        User::new(),
        &"somecoin".to_string(),
        10000100,
        initial_liquidity,
        deposit_amount,
    )
    .unwrap();

    let expected_liquidity_index = applied_rate(d(11, 10), d(10, 100), 100);
    let expected_mint_amount: u128 =
        (BigUint::from(deposit_amount) / big(expected_liquidity_index)).into();
    let expected = expected_indices_and_rates(&reserve, 10000100, initial_liquidity, 0, 0, 0);
    assert_eq!(res.mint_amount, expected_mint_amount);
    assert_eq!(res.reserve.borrow_index, expected.borrow_index);
    assert_eq!(res.reserve.liquidity_index, expected.liquidity_index);
    assert_eq!(res.reserve.borrow_rate, expected.borrow_rate);
    assert_eq!(res.reserve.liquidity_rate, expected.liquidity_rate);
    assert_eq!(get_bit(res.user.deposited_assets, 0), Ok(true));
}

#[test]
fn test_redeem_cw20() {
    let initial_available_liquidity = 12000000u128;
    let mut reserve = mock_reserve(0, "matoken");
    reserve.liquidity_index = d(15, 10);
    reserve.borrow_index = d(2, 1);
    reserve.borrow_slope = d(1, 10);
    reserve.borrow_rate = d(20, 100);
    reserve.liquidity_rate = d(10, 100);
    reserve.debt_total_scaled = u(10000000);
    reserve.interests_last_updated = 10000000;
    reserve.asset_type = AssetType::Cw20;
    let burn_amount = 20000u128;
    let block_time = 10000000 + 2000;

    let res = handle_redeem(
        reserve.clone(),
        &b"matoken".to_vec(),
        block_time,
        initial_available_liquidity,
        burn_amount,
    )
    .unwrap();
    let expected =
        expected_indices_and_rates(&reserve, block_time, initial_available_liquidity, burn_amount, 0, 0);
    let expected_asset_amount: u128 = (BigUint::from(burn_amount) * big(expected.liquidity_index)).into();
    assert_eq!(res.redeem_amount, expected_asset_amount);
    assert_eq!(res.reserve.borrow_index, expected.borrow_index);
    assert_eq!(res.reserve.liquidity_index, expected.liquidity_index);
    assert_eq!(res.reserve.borrow_rate, expected.borrow_rate);
    assert_eq!(res.reserve.liquidity_rate, expected.liquidity_rate);
}

#[test]
fn test_borrow_uusd() {
    let initial_liquidity = 10000000u128;
    let block_time = 1u64;
    let ltv = d(7, 10);
    let mut reserve = mock_reserve(0, "matoken");
    reserve.liquidity_index = d(1, 1);
    reserve.loan_to_value = ltv;
    reserve.borrow_index = d(1, 1);
    reserve.borrow_slope = d(1, 1);
    reserve.borrow_rate = d(1, 1);
    reserve.liquidity_rate = d(1, 1);
    reserve.interests_last_updated = block_time;

    // the user has the reserve as collateral, with a maToken balance of 110000
    let mut user = User::new();
    set_bit(&mut user.deposited_assets, reserve.index).unwrap();
    let deposit_amount = 110000u128;
    let positions = vec![user_asset_position(
        &reserve,
        "uusd".to_string(),
        Some(deposit_amount),
        None,
        CollateralMeasure::LoanToValue,
    )];

    // borrow with insufficient collateral, should fail
    let err = handle_borrow(
        reserve.clone(),
        Some(user),
        0,
        Debt { amount_scaled: u(0) },
        &positions,
        &vec![],
        &"uusd".to_string(),
        block_time,
        initial_liquidity,
        deposit_amount * 7 / 10 + 1000,
    )
    .unwrap_err();
    assert_eq!(err, ContractError::BorrowExceedsCollateral);

    let valid_amount = deposit_amount * 7 / 10 - 1000;
    let res = handle_borrow(
        reserve,
        Some(user),
        0,
        Debt { amount_scaled: u(0) },
        &positions,
        &vec![],
        &"uusd".to_string(),
        block_time,
        initial_liquidity,
        valid_amount,
    )
    .unwrap();
    assert_eq!(get_bit(res.user.borrowed_assets, 0), Ok(true));
    assert_eq!(res.debt.amount_scaled, u(valid_amount));
}

#[test]
fn test_collateral_check() {
    let available_liquidity_2 = 2000000000u128;
    let exchange_rate_2 = d(15, 4);

    let mut reserve_1 = mock_reserve(0, "matoken1");
    reserve_1.loan_to_value = d(8, 10);
    reserve_1.liquidity_index = d(1, 1);
    reserve_1.borrow_index = d(1, 1);
    reserve_1.asset_type = AssetType::Cw20;
    let mut reserve_2 = mock_reserve(1, "matoken2");
    reserve_2.loan_to_value = d(6, 10);
    reserve_2.liquidity_index = d(1, 1);
    reserve_2.borrow_index = d(1, 1);
    let mut reserve_3 = mock_reserve(2, "matoken3");
    reserve_3.loan_to_value = d(4, 10);
    reserve_3.liquidity_index = d(1, 1);
    reserve_3.borrow_index = d(1, 1);

    // the user has all the reserves as collateral
    let mut user = User::new();
    set_bit(&mut user.deposited_assets, 0).unwrap();
    set_bit(&mut user.deposited_assets, 1).unwrap();
    set_bit(&mut user.deposited_assets, 2).unwrap();

    let positions = vec![
        user_asset_position(&reserve_1, "depositedcoin1".to_string(), Some(4_000_000), None, CollateralMeasure::LoanToValue),
        user_asset_position(&reserve_2, "depositedcoin2".to_string(), Some(7_000_000), None, CollateralMeasure::LoanToValue),
        user_asset_position(&reserve_3, "uusd".to_string(), Some(3_000_000), None, CollateralMeasure::LoanToValue),
    ];
    let prices = vec![("depositedcoin2".to_string(), exchange_rate_2)];

    // 0.8 * 4M * 1 + 0.6 * 7M * 3.75 + 0.4 * 3M * 1
    let max_borrow_allowed_in_uusd = 20_150_000u128;
    let exceeding_borrow_amount = max_borrow_allowed_in_uusd * 4 / 15 + 100;
    let permissible_borrow_amount = max_borrow_allowed_in_uusd * 4 / 15 - 100;

    // borrow above the allowed amount given current collateral, should fail
    let err = handle_borrow(
        reserve_2.clone(),
        Some(user),
        0,
        Debt { amount_scaled: u(0) },
        &positions,
        &prices,
        &"depositedcoin2".to_string(),
        0,
        available_liquidity_2,
        exceeding_borrow_amount,
    )
    .unwrap_err();
    assert_eq!(err, ContractError::BorrowExceedsCollateral);

    // borrow permissible amount given current collateral, should succeed
    let res = handle_borrow(
        reserve_2,
        Some(user),
        0,
        Debt { amount_scaled: u(0) },
        &positions,
        &prices,
        &"depositedcoin2".to_string(),
        0,
        available_liquidity_2,
        permissible_borrow_amount,
    )
    .unwrap();
    assert_eq!(res.debt.amount_scaled, u(permissible_borrow_amount));
}

fn liquidation_reserves() -> (Reserve, Reserve) {
    let mut collateral = mock_reserve(0, "collateral");
    collateral.loan_to_value = d(5, 10);
    collateral.liquidation_threshold = d(7, 10);
    collateral.liquidation_bonus = d(1, 10);
    collateral.liquidity_index = d(1, 1);
    collateral.borrow_index = d(1, 1);
    let mut debt = mock_reserve(1, "debt");
    debt.loan_to_value = d(6, 10);
    debt.debt_total_scaled = u(20_000_000);
    debt.liquidity_index = d(1, 1);
    debt.borrow_index = d(1, 1);
    debt.asset_type = AssetType::Cw20;
    (collateral, debt)
}

fn liquidation_request(
    collateral: &Reserve,
    debt: &Reserve,
    collateral_balance: u128,
    debt_scaled: u128,
    sent: u128,
) -> LiquidationRequest {
    let mut user = User::new();
    set_bit(&mut user.deposited_assets, collateral.index).unwrap();
    set_bit(&mut user.borrowed_assets, debt.index).unwrap();
    let positions = vec![
        user_asset_position(
            collateral,
            "collateral".to_string(),
            Some(collateral_balance),
            None,
            CollateralMeasure::LiquidationThreshold,
        ),
        user_asset_position(debt, "debt".to_string(), None, Some(u(debt_scaled)), CollateralMeasure::LiquidationThreshold),
    ];
    LiquidationRequest {
        uncollateralized_loan_limit: 0,
        sent_debt_amount: sent,
        collateral_asset_label: "collateral".to_string(),
        debt_asset_label: "debt".to_string(),
        collateral_reserve: collateral.clone(),
        debt_reserve: debt.clone(),
        user_collateral_ma_balance: collateral_balance,
        user_debt: Debt { amount_scaled: u(debt_scaled) },
        user,
        liquidator: User::new(),
        positions,
        asset_prices: vec![("collateral".to_string(), d(1, 1))],
        close_factor: d(1, 2),
        receive_ma_token: true,
        contract_collateral_balance: 1000000000,
        contract_debt_balance: 2000000000,
        current_timestamp: 5000,
    }
}

#[test]
fn test_liquidate() {
    let (collateral, debt) = liquidation_reserves();
    let debt_to_cover = 6_000_000u128;

    // the user has no collateral balance
    let err = handle_liquidate(liquidation_request(&collateral, &debt, 0, 10_000_000, debt_to_cover))
        .unwrap_err();
    assert_eq!(err, ContractError::LiquidationNoCollateralBalance);

    // the user has no outstanding debt in the debt asset
    let err = handle_liquidate(liquidation_request(&collateral, &debt, 5_000_000, 0, debt_to_cover))
        .unwrap_err();
    assert_eq!(err, ContractError::LiquidationNoDebtInAsset);

    // no funds are sent to cover the debt
    let err = handle_liquidate(liquidation_request(&collateral, &debt, 5_000_000, 10_000_000, 0))
        .unwrap_err();
    assert_eq!(
        err,
        ContractError::InvalidZeroAmount { action: Action::Liquidate, asset: "debt".to_string() }
    );

    // successful liquidation
    let res = handle_liquidate(liquidation_request(&collateral, &debt, 5_000_000, 10_000_000, debt_to_cover))
        .unwrap();
    // at most half the debt (5M) may be repaid, which would buy 5.5M of collateral: more than
    // the user's 5M, so all the collateral goes for 5M / 1.1 of debt
    let expected_debt_paid = 5_000_000u128 * 10 / 11;
    assert_eq!(res.collateral_amount_liquidated, u(5_000_000));
    assert_eq!(res.debt_amount_paid, expected_debt_paid);
    assert_eq!(res.refund_amount, debt_to_cover - expected_debt_paid);
    assert_eq!(res.debt.amount_scaled, u(10_000_000 - expected_debt_paid));
    assert_eq!(res.debt_reserve.debt_total_scaled, u(20_000_000 - expected_debt_paid));
    // the user no longer has the collateral deposited and still borrows the debt asset
    let user = res.user.unwrap();
    assert_eq!(get_bit(user.deposited_assets, 0), Ok(false));
    assert_eq!(get_bit(user.borrowed_assets, 1), Ok(true));
    // the liquidator receives maTokens of the collateral
    assert_eq!(get_bit(res.liquidator.unwrap().deposited_assets, 0), Ok(true));
}

#[test]
fn test_liquidation_health_factor_check() {
    let (collateral, debt) = liquidation_reserves();
    // debt equal to the collateral times its liquidation threshold: health factor one
    let collateral_balance = 10_000_000u128;
    let debt_scaled = collateral_balance * 7 / 10;
    let err = handle_liquidate(liquidation_request(&collateral, &debt, collateral_balance, debt_scaled, 1_000_000))
        .unwrap_err();
    assert_eq!(err, ContractError::LiquidationHealthy);
}

#[test]
fn uncollateralized_loan_limit_is_set_by_the_owner_only() {
    let config = init(b"owner".to_vec(), vec![], vec![], 5, d(1, 2), d(5, 10), d(3, 10)).unwrap();
    assert_eq!(
        handle_update_uncollateralized_loan_limit(&config, &b"somebody".to_vec(), 2400),
        Err(ContractError::Unauthorized)
    );
    assert_eq!(handle_update_uncollateralized_loan_limit(&config, &b"owner".to_vec(), 2400), Ok(2400));
}

#[test]
fn deposit_then_redeem_pays_back_at_most_the_deposit() {
    let mut reserve = mock_reserve(0, "matoken");
    reserve.liquidity_index = d(11, 10);
    reserve.borrow_index = d(1, 1);
    reserve.borrow_slope = d(1, 10);
    reserve.liquidity_rate = d(10, 100);
    reserve.debt_total_scaled = u(10_000_000);
    reserve.interests_last_updated = 10_000_000;
    let now = 10_000_100;
    let deposit_amount = 110_000u128;
    let deposit =
        handle_deposit(reserve, User::new(), &"somecoin".to_string(), now, 10_000_000, deposit_amount).unwrap();
    let redeem = handle_redeem(deposit.reserve, &b"matoken".to_vec(), now, 10_110_000, deposit.mint_amount).unwrap();
    assert!(redeem.redeem_amount <= deposit_amount);
    // 110000 / 1.1000003488 rounds down to 99999 maTokens, worth 109998 when redeemed
    assert_eq!(deposit.mint_amount, 99_999);
    assert_eq!(redeem.redeem_amount, 109_998);
}

#[test]
fn borrow_then_repay_restores_the_debt() {
    let mut reserve = mock_reserve(0, "matoken");
    reserve.borrow_index = d(12, 10);
    reserve.liquidity_index = d(1, 1);
    reserve.borrow_slope = d(1, 10);
    reserve.interests_last_updated = 100;
    let limit = 10_000u128;
    let borrow = handle_borrow(
        reserve,
        None,
        limit,
        Debt { amount_scaled: u(0) },
        &vec![],
        &vec![],
        &"somecoin".to_string(),
        100,
        1_000_000,
        2400,
    )
    .unwrap();
    assert_eq!(borrow.debt.amount_scaled, u(2000));
    let repay = handle_repay(
        borrow.reserve,
        borrow.debt,
        Some(borrow.user),
        &"somecoin".to_string(),
        100,
        1_000_000,
        2400,
    )
    .unwrap();
    assert_eq!(repay.debt.amount_scaled, u(0));
    assert_eq!(repay.refund_amount, 0);
    assert_eq!(get_bit(repay.user.unwrap().borrowed_assets, 0), Ok(false));
}

#[test]
fn red_bank_proper_initialization() {
    // insurance and treasury fee shares that add up to more than one are refused
    let err = init(
        b"owner".to_vec(),
        b"reserve_contract".to_vec(),
        b"insurance_fund".to_vec(),
        10,
        d(1, 2),
        d(7, 10),
        d(4, 10),
    )
    .unwrap_err();
    assert_eq!(err, ContractError::InvalidFeeShareAmounts);

    let config = init(
        b"owner".to_vec(),
        b"reserve_contract".to_vec(),
        b"insurance_fund".to_vec(),
        10,
        d(1, 2),
        d(5, 10),
        d(3, 10),
    )
    .unwrap();
    assert_eq!(config.ma_token_code_id, 10);
    assert_eq!(config.reserve_count, 0);
    assert_eq!(config.insurance_fund_fee_share, d(5, 10));
    assert_eq!(config.treasury_fee_share, d(3, 10));
}

#[test]
fn ma_token_name_and_symbol() {
    let (name, symbol, decimals) = mars_protocol::red_bank::handlers::ma_token_metadata("uluna");
    assert_eq!(name, "mars uluna debt token");
    assert_eq!(symbol, "mauluna");
    assert_eq!(decimals, 6);
}

#[test]
fn rates_update_beyond_128_bit_atomics() {
    // an 18-decimal token reserve holding 10^9 tokens: 10^27 units, 10^45 decimal atomics
    let mut reserve = mock_reserve(0, "matoken");
    reserve.borrow_index = d(1, 1);
    reserve.liquidity_index = d(1, 1);
    reserve.borrow_slope = d(1, 10);
    reserve.debt_total_scaled = u(1_000_000_000_000_000_000_000_000);
    let balance = 3_000_000_000_000_000_000_000_000u128;
    mars_protocol::red_bank::interest::reserve_update_interest_rates(&mut reserve, balance, 0).unwrap();
    // utilization 1/4: borrow rate 0.025, liquidity rate 0.00625
    assert_eq!(reserve.borrow_rate, d(25, 1000));
    assert_eq!(reserve.liquidity_rate, d(625, 100000));
}

#[test]
fn index_update_beyond_128_bit_intermediates() {
    // rate * elapsed = 10^39 exceeds 128 bits; the index it yields does not
    let mut reserve = mock_reserve(0, "matoken");
    reserve.borrow_index = d(1, 2);
    reserve.borrow_rate = Decimal256 { atomics: u(1_000_000_000_000_000_000_000_000_000_000) };
    reserve.liquidity_index = d(1, 1);
    reserve.interests_last_updated = 0;
    mars_protocol::red_bank::interest::reserve_update_market_indices(1_000_000_000, &mut reserve);
    assert_eq!(reserve.borrow_index.atomics, u(15854895991882793252156265854895));
    assert_eq!(reserve.liquidity_index, d(1, 1));
    assert_eq!(reserve.interests_last_updated, 1_000_000_000);
}

#[test]
fn repay_scaled_amount_beyond_128_bits() {
    // at a borrow index of 0.5 the scaled repayment is twice the amount, above 128 bits
    let mut reserve = mock_reserve(3, "matoken");
    reserve.borrow_index = d(1, 2);
    reserve.debt_total_scaled = u(1000);
    reserve.interests_last_updated = 500;
    let mut user = User::new();
    set_bit(&mut user.borrowed_assets, 3).unwrap();
    let repay_amount = u128::MAX - 1;
    let res = handle_repay(
        reserve,
        Debt { amount_scaled: u(100) },
        Some(user),
        &"somecoin".to_string(),
        500,
        0,
        repay_amount,
    )
    .unwrap();
    assert_eq!(res.refund_amount, u128::MAX - 51);
    assert_eq!(res.repaid_amount, 50);
    assert_eq!(res.debt.amount_scaled, u(0));
    assert_eq!(res.reserve.debt_total_scaled, u(900));
    assert!(!get_bit(res.user.unwrap().borrowed_assets, 3).unwrap());
}

#[test]
fn redeem_value_beyond_128_bits_exceeds_balance() {
    // 3 * (2^127 - 1) units of the underlying are owed, more than any 128-bit balance
    let mut reserve = mock_reserve(0, "matoken");
    reserve.liquidity_index = d(3, 1);
    let err = handle_redeem(reserve, &b"matoken".to_vec(), 0, u128::MAX, u128::MAX / 2).unwrap_err();
    assert_eq!(err, ContractError::RedeemExceedsContractBalance);
}

#[test]
fn liquidate_collateral_value_beyond_128_bits() {
    // the user's collateral is worth four times a maToken balance of 2^127 - 1: above 128 bits
    let (mut collateral, mut debt) = liquidation_reserves();
    collateral.liquidity_index = d(4, 1);
    debt.asset_type = AssetType::Native;
    let debt_scaled = u128::MAX / 2;
    debt.debt_total_scaled = u(debt_scaled);
    let mut req = liquidation_request(&collateral, &debt, u128::MAX / 2, debt_scaled, 1_000_000);
    req.asset_prices.push(("debt".to_string(), d(10, 1)));
    let res = handle_liquidate(req).unwrap();
    // 10^6 of debt at price 10 with a 10% bonus buys 1.1 * 10^7 of collateral at price 1
    assert_eq!(res.collateral_amount_liquidated, u(11_000_000));
    assert_eq!(res.debt_amount_paid, 1_000_000);
    assert_eq!(res.refund_amount, 0);
    assert_eq!(res.debt.amount_scaled, u(debt_scaled - 1_000_000));
    assert_eq!(res.debt_reserve.debt_total_scaled, u(debt_scaled - 1_000_000));
    assert!(res.user.is_none());
    assert_eq!(get_bit(res.liquidator.unwrap().deposited_assets, 0), Ok(true));
}

#[test]
fn scaled_debt_beyond_128_bits() {
    // a borrower whose scaled debt, and a reserve whose total, are above 2^128
    let mut collateral = mock_reserve(1, "collateral");
    collateral.liquidity_index = d(1, 1);
    collateral.loan_to_value = d(1, 2);
    let mut reserve = mock_reserve(0, "matoken");
    reserve.borrow_index = d(1, 1);
    reserve.liquidity_index = d(1, 1);
    reserve.debt_total_scaled = U256 { hi: 3, lo: 0 };
    reserve.interests_last_updated = 100;
    let positions = vec![user_asset_position(
        &collateral,
        "collateral".to_string(),
        Some(1_000_000),
        None,
        CollateralMeasure::LoanToValue,
    )];
    let prices = vec![("collateral".to_string(), d(1, 1)), ("somecoin".to_string(), d(1, 1))];
    let borrow = handle_borrow(
        reserve,
        Some(User::new()),
        0,
        Debt { amount_scaled: U256 { hi: 1, lo: 5 } },
        &positions,
        &prices,
        &"somecoin".to_string(),
        100,
        1_000_000,
        1000,
    )
    .unwrap();
    assert_eq!(borrow.debt.amount_scaled, U256 { hi: 1, lo: 1005 });
    assert_eq!(borrow.reserve.debt_total_scaled, U256 { hi: 3, lo: 1000 });
    let repay = handle_repay(
        borrow.reserve,
        borrow.debt,
        Some(borrow.user),
        &"somecoin".to_string(),
        100,
        1_000_000,
        1000,
    )
    .unwrap();
    assert_eq!(repay.debt.amount_scaled, U256 { hi: 1, lo: 5 });
    assert_eq!(repay.reserve.debt_total_scaled, U256 { hi: 3, lo: 0 });
    assert_eq!(repay.refund_amount, 0);
}

#[test]
fn index_above_128_bit_atomics() {
    // an index of 2^128 atomics (about 3.4 * 10^20) grows by a year at 10%
    let mut reserve = mock_reserve(0, "matoken");
    reserve.borrow_index = Decimal256 { atomics: U256 { hi: 1, lo: 0 } };
    reserve.borrow_rate = d(1, 10);
    reserve.liquidity_index = d(1, 1);
    reserve.interests_last_updated = 0;
    mars_protocol::red_bank::interest::reserve_update_market_indices(SECONDS_PER_YEAR, &mut reserve);
    assert_eq!(
        reserve.borrow_index.atomics,
        U256 { hi: 1, lo: 34028236692093846346337460743176821145 }
    );
}

#[test]
fn redeem_at_a_liquidity_index_above_128_bit_atomics() {
    let mut reserve = mock_reserve(0, "matoken");
    reserve.liquidity_index = Decimal256 { atomics: U256 { hi: 1, lo: 0 } };
    let res = handle_redeem(reserve, &b"matoken".to_vec(), 0, 1_000_000_000_000_000_000_000_000_000_000, 1)
        .unwrap();
    // one maToken is worth 2^128 / 10^18 units
    assert_eq!(res.redeem_amount, 340282366920938463463);
}

#[test]
fn borrow_at_a_borrow_index_above_128_bit_atomics() {
    let mut reserve = mock_reserve(0, "matoken");
    reserve.borrow_index = Decimal256 { atomics: U256 { hi: 1, lo: 0 } };
    reserve.liquidity_index = d(1, 1);
    reserve.interests_last_updated = 100;
    let amount = 1_000_000_000_000_000_000_000_000_000_000u128;
    let res = handle_borrow(
        reserve,
        None,
        u128::MAX,
        Debt { amount_scaled: u(0) },
        &vec![],
        &vec![],
        &"somecoin".to_string(),
        100,
        amount,
        amount,
    )
    .unwrap();
    assert_eq!(res.debt.amount_scaled, u(2938735877));
}

#[test]
fn cw20_receive_decisions() {
    let token = "token".to_string();
    // no message
    let err = receive_cw20(&token, "alice".to_string(), 5, None, None).unwrap_err();
    assert_eq!(err, ContractError::Generic { msg: "Invalid Cw20ReceiveMsg".to_string() });
    // a redemption from a token that is no reserve's maToken
    let err = receive_cw20(&token, "alice".to_string(), 5, Some(ReceiveMsg::Redeem), None).unwrap_err();
    assert_eq!(err, ContractError::Unauthorized);
    match receive_cw20(&token, "alice".to_string(), 5, Some(ReceiveMsg::Redeem), Some(b"ref".to_vec())) {
        Ok(ReceiveAction::Redeem { reference, redeemer, amount }) => {
            assert_eq!((reference, redeemer, amount), (b"ref".to_vec(), "alice".to_string(), 5));
        },
        other => panic!("unexpected {:?}", other),
    }
    match receive_cw20(&token, "bob".to_string(), 7, Some(ReceiveMsg::DepositCw20), None) {
        Ok(ReceiveAction::Deposit { depositor, asset, amount }) => {
            assert_eq!((depositor, asset, amount), ("bob".to_string(), "token".to_string(), 7));
        },
        other => panic!("unexpected {:?}", other),
    }
    match receive_cw20(&token, "bob".to_string(), 7, Some(ReceiveMsg::RepayCw20), None) {
        Ok(ReceiveAction::Repay { repayer, asset, amount }) => {
            assert_eq!((repayer, asset, amount), ("bob".to_string(), "token".to_string(), 7));
        },
        other => panic!("unexpected {:?}", other),
    }
    // a liquidation must be paid in its debt token
    let liquidate = |debt: &str| ReceiveMsg::LiquidateCw20 {
        collateral_asset: "uluna".to_string(),
        debt_asset_address: debt.to_string(),
        user_address: "user".to_string(),
        receive_ma_token: true,
    };
    let err = receive_cw20(&token, "carol".to_string(), 9, Some(liquidate("other")), None).unwrap_err();
    assert_eq!(
        err,
        ContractError::Generic { msg: "Incorrect asset, must send other in order to liquidate".to_string() }
    );
    match receive_cw20(&token, "carol".to_string(), 9, Some(liquidate("token")), None) {
        Ok(ReceiveAction::Liquidate { liquidator, collateral_asset, debt_asset, user, amount, receive_ma_token }) => {
            assert_eq!(liquidator, "carol");
            assert_eq!(collateral_asset, "uluna");
            assert_eq!(debt_asset, "token");
            assert_eq!(user, "user");
            assert_eq!(amount, 9);
            assert!(receive_ma_token);
        },
        other => panic!("unexpected {:?}", other),
    }
}
