use vstd::prelude::*;
use vstd::string::StringExecFns;

use crate::error::{Action, ContractError};
use crate::math::{
    lemma_u256_value_range, mul_div, u256_bound, u256_from, u256_low, u256_lt, u256_mul_div,
    u256_sub, Decimal256,
    DECIMAL_FRACTIONAL,
};
use crate::red_bank::interest::{
    interest_rates_update_fits, market_indices_update_fits, reserve_update_interest_rates,
    reserve_update_market_indices, reserve_with_updated_indices, reserve_with_updated_rates,
};
use crate::red_bank::bits::{get_bit, set_bit};
use crate::red_bank::state::{AssetType, Config, Reserve, User};
use crate::util::{assert_owner, bytes_eq};

verus! {

/// Builds the money market configuration; the insurance and treasury fee shares may not
/// add up to more than one.
pub fn init(
    owner: Vec<u8>,
    treasury_contract_address: Vec<u8>,
    insurance_fund_contract_address: Vec<u8>,
    ma_token_code_id: u64,
    close_factor: Decimal256,
    insurance_fund_fee_share: Decimal256,
    treasury_fee_share: Decimal256,
) -> (r: Result<Config, ContractError>)
    ensures
        insurance_fund_fee_share.value() + treasury_fee_share.value() > DECIMAL_FRACTIONAL ==> r
            == Err::<Config, ContractError>(ContractError::InvalidFeeShareAmounts),
        insurance_fund_fee_share.value() + treasury_fee_share.value() <= DECIMAL_FRACTIONAL ==> r
            == Ok::<Config, ContractError>(
            Config {
                owner,
                treasury_contract_address,
                insurance_fund_contract_address,
                ma_token_code_id,
                reserve_count: 0,
                close_factor,
                insurance_fund_fee_share,
                treasury_fee_share,
            },
        ),
{
    let one = u256_from(DECIMAL_FRACTIONAL);
    if u256_lt(one, insurance_fund_fee_share.atomics) || u256_lt(
        u256_sub(one, insurance_fund_fee_share.atomics),
        treasury_fee_share.atomics,
    ) {
        return Err(ContractError::InvalidFeeShareAmounts);
    }
    Ok(
        Config {
            owner,
            treasury_contract_address,
            insurance_fund_contract_address,
            ma_token_code_id,
            reserve_count: 0,
            close_factor,
            insurance_fund_fee_share,
            treasury_fee_share,
        },
    )
}

/// Name, symbol and decimals of the maToken instantiated for a new reserve whose asset has
/// `symbol` (a native coin's denom or a cw20 token's symbol): `mars {symbol} debt token`,
/// `ma{symbol}` and 6 decimals.
pub fn ma_token_metadata(symbol: &str) -> (r: (String, String, u8))
    ensures
        r.0@ == "mars "@ + symbol@ + " debt token"@,
        r.1@ == "ma"@ + symbol@,
        r.2 == 6,
{
    let mut name = String::from_str("mars ");
    name.append(symbol);
    name.append(" debt token");
    let mut ma_symbol = String::from_str("ma");
    ma_symbol.append(symbol);
    (name, ma_symbol, 6)
}

/// Parameters of a newly initialized asset reserve.
#[derive(Debug, Clone, Copy, PartialEq, Eq, Structural)]
pub struct InitAssetParams {
    pub borrow_slope: Decimal256,
    pub loan_to_value: Decimal256,
    pub reserve_factor: Decimal256,
    pub liquidation_threshold: Decimal256,
    pub liquidation_bonus: Decimal256,
}

/// Outcome of initializing an asset: the new reserve, the configuration with one more
/// reserve, and the index under which the asset reference is recorded.
#[derive(Debug)]
pub struct InitAssetResult {
    pub reserve: Reserve,
    pub config: Config,
    pub reference_index: u32,
}

/// Initializes a reserve for an asset. Only the owner may do this, and only once per asset
/// (`existing` is the reserve already stored for the asset reference, if any).
pub fn handle_init_asset(
    config: Config,
    sender: &Vec<u8>,
    existing: Option<Reserve>,
    asset_type: AssetType,
    asset_params: InitAssetParams,
    current_timestamp: u64,
) -> (r: Result<InitAssetResult, ContractError>)
    requires
        config.reserve_count < u32::MAX,
    ensures
        sender@ != config.owner@ ==> r is Err && r->Err_0 == ContractError::Unauthorized,
        sender@ == config.owner@ && existing is Some ==> r is Err && r->Err_0
            == ContractError::AssetAlreadyInitialized,
        sender@ == config.owner@ && existing is None ==> r is Ok && ({
            let res = r->Ok_0;
            &&& res.reference_index == config.reserve_count
            &&& res.config == Config { reserve_count: (config.reserve_count + 1) as u32, ..config }
            &&& res.reserve.index == config.reserve_count
            &&& res.reserve.ma_token_address@ == Seq::<u8>::empty()
            &&& res.reserve.borrow_index.value() == DECIMAL_FRACTIONAL
            &&& res.reserve.liquidity_index.value() == DECIMAL_FRACTIONAL
            &&& res.reserve.borrow_rate.value() == 0
            &&& res.reserve.liquidity_rate.value() == 0
            &&& res.reserve.borrow_slope == asset_params.borrow_slope
            &&& res.reserve.loan_to_value == asset_params.loan_to_value
            &&& res.reserve.reserve_factor == asset_params.reserve_factor
            &&& res.reserve.interests_last_updated == current_timestamp
            &&& res.reserve.debt_total_scaled.value() == 0
            &&& res.reserve.asset_type == asset_type
            &&& res.reserve.liquidation_threshold == asset_params.liquidation_threshold
            &&& res.reserve.liquidation_bonus == asset_params.liquidation_bonus
        }),
{
    assert_owner(sender, &config.owner)?;
    if existing.is_some() {
        return Err(ContractError::AssetAlreadyInitialized);
    }
    let index = config.reserve_count;
    let reserve = Reserve {
        index,
        ma_token_address: Vec::new(),
        borrow_index: Decimal256::one(),
        liquidity_index: Decimal256::one(),
        borrow_rate: Decimal256::zero(),
        liquidity_rate: Decimal256::zero(),
        borrow_slope: asset_params.borrow_slope,
        loan_to_value: asset_params.loan_to_value,
        reserve_factor: asset_params.reserve_factor,
        interests_last_updated: current_timestamp,
        debt_total_scaled: u256_from(0),
        asset_type,
        liquidation_threshold: asset_params.liquidation_threshold,
        liquidation_bonus: asset_params.liquidation_bonus,
    };
    let mut config = config;
    config.reserve_count = config.reserve_count + 1;
    Ok(InitAssetResult { reserve, config, reference_index: index })
}

/// Records the maToken created for a reserve; this can happen only once, while the reserve
/// has no maToken address yet.
pub fn init_asset_token_callback(reserve: Reserve, sender: Vec<u8>) -> (r: Result<
    Reserve,
    ContractError,
>)
    ensures
        reserve.ma_token_address@.len() == 0 ==> r == Ok::<Reserve, ContractError>(
            Reserve { ma_token_address: sender, ..reserve },
        ),
        reserve.ma_token_address@.len() != 0 ==> r == Err::<Reserve, ContractError>(
            ContractError::Unauthorized,
        ),
{
    if reserve.ma_token_address.len() == 0 {
        let mut reserve = reserve;
        reserve.ma_token_address = sender;
        Ok(reserve)
    } else {
        Err(ContractError::Unauthorized)
    }
}

/// The reserve after its indices and then its rates are brought up to date.
pub open spec fn refreshed_reserve(
    reserve: Reserve,
    now: u64,
    contract_balance: u128,
    liquidity_taken: u128,
) -> Reserve {
    reserve_with_updated_rates(
        reserve_with_updated_indices(reserve, now),
        contract_balance,
        liquidity_taken,
    )
}

/// Refreshing a reserve keeps its updated indices within their stored bounds and its rates
/// update below 2^256.
pub open spec fn refresh_fits(
    reserve: Reserve,
    now: u64,
    contract_balance: u128,
    liquidity_taken: u128,
) -> bool {
    &&& market_indices_update_fits(reserve, now)
    &&& interest_rates_update_fits(
        reserve_with_updated_indices(reserve, now),
        contract_balance,
        liquidity_taken,
    )
}

/// The error for a zero amount sent to `action` in `asset`.
pub open spec fn zero_amount_error(action: Action, asset: String) -> ContractError {
    ContractError::InvalidZeroAmount { action, asset }
}

/// The user with reserve `index` marked as deposited.
pub open spec fn user_with_deposited(user: User, index: u32) -> User {
    User { deposited_assets: user.deposited_assets | (1u128 << index), ..user }
}

/// The user with reserve `index` marked as borrowed.
pub open spec fn user_with_borrowed(user: User, index: u32) -> User {
    User { borrowed_assets: user.borrowed_assets | (1u128 << index), ..user }
}

/// Outcome of a deposit: the refreshed reserve, the user with the asset marked as
/// deposited, and the amount of maTokens to mint.
#[derive(Debug)]
pub struct DepositResult {
    pub reserve: Reserve,
    pub user: User,
    pub mint_amount: u128,
}

/// Decides a deposit of `deposit_amount` of the reserve's asset by a user whose record is
/// `user` (a new record when none is stored); `contract_current_balance` is the contract's
/// balance of the asset.
pub fn handle_deposit(
    reserve: Reserve,
    user: User,
    asset_label: &String,
    current_timestamp: u64,
    contract_current_balance: u128,
    deposit_amount: u128,
) -> (r: Result<DepositResult, ContractError>)
    requires
        deposit_amount != 0 && reserve.index < 128 ==> refresh_fits(
            reserve,
            current_timestamp,
            contract_current_balance,
            0,
        ),
        deposit_amount != 0 && reserve.index < 128 ==> ({
            let li = refreshed_reserve(
                reserve,
                current_timestamp,
                contract_current_balance,
                0,
            ).liquidity_index.value();
            li != 0 ==> mul_div(deposit_amount as int, DECIMAL_FRACTIONAL as int, li)
                <= u128::MAX
        }),
    ensures
        deposit_amount == 0 ==> r is Err && r->Err_0 == zero_amount_error(
            Action::Deposit,
            *asset_label,
        ),
        deposit_amount != 0 && reserve.index >= 128 ==> r is Err && r->Err_0
            == ContractError::IndexOutOfRange,
        deposit_amount != 0 && reserve.index < 128 ==> ({
            let refreshed = refreshed_reserve(
                reserve,
                current_timestamp,
                contract_current_balance,
                0,
            );
            &&& refreshed.liquidity_index.value() == 0 ==> r is Err && r->Err_0
                == ContractError::ZeroLiquidityIndex
            &&& refreshed.liquidity_index.value() != 0 ==> r is Ok && r->Ok_0.reserve == refreshed
                && r->Ok_0.user == user_with_deposited(user, reserve.index)
                && r->Ok_0.mint_amount == mul_div(
                deposit_amount as int,
                DECIMAL_FRACTIONAL as int,
                refreshed.liquidity_index.value(),
            )
        }),
{
    if deposit_amount == 0 {
        return Err(
            ContractError::InvalidZeroAmount { action: Action::Deposit, asset: asset_label.clone() },
        );
    }
    let mut user = user;
    let has_deposited_asset = get_bit(user.deposited_assets, reserve.index)?;
    if !has_deposited_asset {
        set_bit(&mut user.deposited_assets, reserve.index)?;
    } else {
        proof {
            crate::red_bank::bits::lemma_set_then_unset(user.deposited_assets, reserve.index);
        }
    }
    let mut reserve = reserve;
    reserve_update_market_indices(current_timestamp, &mut reserve);
    reserve_update_interest_rates(&mut reserve, contract_current_balance, 0)?;
    if reserve.liquidity_index.is_zero() {
        return Err(ContractError::ZeroLiquidityIndex);
    }
    let mint_amount = reserve.liquidity_index.div_uint256(deposit_amount);
    Ok(DepositResult { reserve, user, mint_amount })
}

/// Outcome of a redemption: the refreshed reserve and the amount of the underlying asset
/// paid out.
#[derive(Debug)]
pub struct RedeemResult {
    pub reserve: Reserve,
    pub redeem_amount: u128,
}

/// Decides the redemption of `burn_amount` maTokens sent by `sender`, which must be the
/// reserve's maToken contract; `contract_current_balance` is the contract's balance of the
/// underlying asset.
pub fn handle_redeem(
    reserve: Reserve,
    sender: &Vec<u8>,
    current_timestamp: u64,
    contract_current_balance: u128,
    burn_amount: u128,
) -> (r: Result<RedeemResult, ContractError>)
    requires
        sender@ == reserve.ma_token_address@ ==> refresh_fits(
            reserve,
            current_timestamp,
            contract_current_balance,
            burn_amount,
        ),
        sender@ == reserve.ma_token_address@ && contract_current_balance >= burn_amount ==> mul_div(
            burn_amount as int,
            refreshed_reserve(
                reserve,
                current_timestamp,
                contract_current_balance,
                burn_amount,
            ).liquidity_index.value(),
            DECIMAL_FRACTIONAL as int,
        ) < u256_bound(),
    ensures
        sender@ != reserve.ma_token_address@ ==> r is Err && r->Err_0
            == ContractError::Unauthorized,
        sender@ == reserve.ma_token_address@ && contract_current_balance < burn_amount ==> r is Err
            && r->Err_0 == ContractError::LiquidityTakenExceedsAvailable,
        sender@ == reserve.ma_token_address@ && contract_current_balance >= burn_amount ==> ({
            let refreshed = refreshed_reserve(
                reserve,
                current_timestamp,
                contract_current_balance,
                burn_amount,
            );
            let redeem_amount = mul_div(
                burn_amount as int,
                refreshed.liquidity_index.value(),
                DECIMAL_FRACTIONAL as int,
            );
            &&& redeem_amount > contract_current_balance ==> r is Err && r->Err_0
                == ContractError::RedeemExceedsContractBalance
            &&& redeem_amount <= contract_current_balance ==> r is Ok && r->Ok_0.reserve
                == refreshed && r->Ok_0.redeem_amount == redeem_amount
        }),
{
    if !bytes_eq(sender, &reserve.ma_token_address) {
        return Err(ContractError::Unauthorized);
    }
    let mut reserve = reserve;
    reserve_update_market_indices(current_timestamp, &mut reserve);
    reserve_update_interest_rates(&mut reserve, contract_current_balance, burn_amount)?;
    let redeem_amount = u256_mul_div(
        u256_from(burn_amount),
        reserve.liquidity_index.atomics,
        u256_from(DECIMAL_FRACTIONAL),
    );
    if u256_lt(u256_from(contract_current_balance), redeem_amount) {
        return Err(ContractError::RedeemExceedsContractBalance);
    }
    Ok(RedeemResult { reserve, redeem_amount: u256_low(redeem_amount) })
}


/// Sets a user's uncollateralized loan limit in an asset; only the owner may. Returns the
/// limit to store.
pub fn handle_update_uncollateralized_loan_limit(
    config: &Config,
    sender: &Vec<u8>,
    new_limit: u128,
) -> (r: Result<u128, ContractError>)
    ensures
        sender@ != config.owner@ ==> r == Err::<u128, ContractError>(ContractError::Unauthorized),
        sender@ == config.owner@ ==> r == Ok::<u128, ContractError>(new_limit),
{
    assert_owner(sender, &config.owner)?;
    Ok(new_limit)
}

/// Law: redeeming, at the time of a deposit, the maTokens that the deposit minted never pays
/// out more than was deposited (whatever the contract's balances at either step).
pub proof fn lemma_deposit_then_redeem_no_gain(
    reserve: Reserve,
    now: u64,
    deposit_balance: u128,
    redeem_balance: u128,
    deposit_amount: u128,
)
    requires
        refreshed_reserve(reserve, now, deposit_balance, 0).liquidity_index.value() != 0,
    ensures
        ({
            let after_deposit = refreshed_reserve(reserve, now, deposit_balance, 0);
            let minted = mul_div(
                deposit_amount as int,
                DECIMAL_FRACTIONAL as int,
                after_deposit.liquidity_index.value(),
            );
            let at_redeem = refreshed_reserve(after_deposit, now, redeem_balance, minted as u128);
            mul_div(minted, at_redeem.liquidity_index.value(), DECIMAL_FRACTIONAL as int)
                <= deposit_amount
        }),
{
    let after_deposit = refreshed_reserve(reserve, now, deposit_balance, 0);
    let li = after_deposit.liquidity_index.value();
    let indexed = reserve_with_updated_indices(reserve, now);
    assert(after_deposit.interests_last_updated == indexed.interests_last_updated);
    assert(now <= after_deposit.interests_last_updated);
    crate::red_bank::interest::lemma_indices_never_decrease(after_deposit, now);
    crate::red_bank::repay::lemma_unscale_scaled_le(deposit_amount as int, li);
}

} // verus!
