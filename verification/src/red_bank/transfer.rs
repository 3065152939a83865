use vstd::prelude::*;

use crate::error::ContractError;
use crate::math::{u256_from, u256_lt, U256, DECIMAL_FRACTIONAL};
use crate::red_bank::bits::{get_bit, set_bit, unset_bit};
use crate::red_bank::borrow::{first_unknown, lemma_first_unknown_unique};
use crate::red_bank::handlers::user_with_deposited;
use crate::red_bank::position::{
    all_prices_known, first_unknown_price, health_factor, health_fits, total_collateral_in_uusd,
    total_debt_in_uusd, user_get_health_status, UserAssetPosition, UserHealthStatus,
};
use crate::red_bank::state::{Debt, User};
use crate::math::Decimal256;

verus! {

/// The user with reserve `index` no longer marked as deposited.
pub open spec fn user_without_deposited(user: User, index: u32) -> User {
    User { deposited_assets: user.deposited_assets & !(1u128 << index), ..user }
}

/// Outcome of finalizing a maToken transfer: the records of sender and recipient that
/// change (the sender no longer holds the asset, the recipient now holds it).
#[derive(Debug)]
pub struct TransferResult {
    pub from_user: Option<User>,
    pub to_user: Option<User>,
}

/// Outcome of finalizing a maToken transfer, as `handle_finalize_liquidity_token_transfer`
/// decides it.
pub open spec fn finalize_transfer_outcome(
    reserve_index: u32,
    from_user: User,
    to_user: Option<User>,
    ps: Seq<UserAssetPosition>,
    prices: Seq<(String, Decimal256)>,
    same_address: bool,
    from_previous_balance: u128,
    to_previous_balance: u128,
    amount: u128,
) -> Result<TransferResult, ContractError> {
    let td = total_debt_in_uusd(ps, prices);
    let tc = total_collateral_in_uusd(ps, prices);
    let from_emptied = !same_address && from_previous_balance >= amount && from_previous_balance
        - amount == 0;
    let to_filled = !same_address && to_previous_balance == 0 && amount != 0;
    if !all_prices_known(ps, prices) {
        Err(ContractError::PriceNotFound { asset: ps[first_unknown(ps, prices)].asset_label })
    } else if td != 0 && health_factor(tc, td) < DECIMAL_FRACTIONAL {
        Err(ContractError::TransferHealthFactorTooLow)
    } else if !same_address && from_previous_balance < amount {
        Err(ContractError::Overflow)
    } else if (from_emptied || to_filled) && reserve_index >= 128 {
        Err(ContractError::IndexOutOfRange)
    } else {
        Ok(
            TransferResult {
                from_user: if from_emptied {
                    Some(user_without_deposited(from_user, reserve_index))
                } else {
                    None
                },
                to_user: if to_filled {
                    Some(
                        user_with_deposited(
                            match to_user {
                                Some(u) => u,
                                None => User { borrowed_assets: 0, deposited_assets: 0 },
                            },
                            reserve_index,
                        ),
                    )
                } else {
                    None
                },
            },
        )
    }
}

/// Decides the bookkeeping after a maToken transfer of `amount` from one user to another:
/// the sender's health factor (from their positions after the transfer) may not fall below
/// one; a sender left without balance stops using the asset as collateral and a recipient
/// starting from zero starts using it.
pub fn handle_finalize_liquidity_token_transfer(
    reserve_index: u32,
    from_user: User,
    to_user: Option<User>,
    from_positions: &Vec<UserAssetPosition>,
    asset_prices: &Vec<(String, Decimal256)>,
    same_address: bool,
    from_previous_balance: u128,
    to_previous_balance: u128,
    amount: u128,
) -> (r: Result<TransferResult, ContractError>)
    requires
        health_fits(from_positions@, asset_prices@),
    ensures
        r == finalize_transfer_outcome(
            reserve_index,
            from_user,
            to_user,
            from_positions@,
            asset_prices@,
            same_address,
            from_previous_balance,
            to_previous_balance,
            amount,
        ),
{
    let status = user_get_health_status(from_positions, asset_prices);
    match status {
        Err(e) => {
            proof {
                let i = choose|i: int|
                    first_unknown_price(from_positions@, asset_prices@, i) && status == Err::<
                        UserHealthStatus,
                        ContractError,
                    >(ContractError::PriceNotFound { asset: from_positions@[i].asset_label });
                lemma_first_unknown_unique(from_positions@, asset_prices@, i);
            }
            return Err(e);
        },
        Ok(UserHealthStatus::Borrowing(hf)) => {
            proof {
                crate::red_bank::position::lemma_totals_nonneg(from_positions@, asset_prices@);
                let td = total_debt_in_uusd(from_positions@, asset_prices@);
                let tc = total_collateral_in_uusd(from_positions@, asset_prices@);
                assert(td * DECIMAL_FRACTIONAL > 0) by (nonlinear_arith)
                    requires
                        td > 0,
                ;
                crate::math::lemma_mul_div_nonneg(tc, DECIMAL_FRACTIONAL as int, td * DECIMAL_FRACTIONAL);
            }
            if u256_lt(hf, u256_from(DECIMAL_FRACTIONAL)) {
                return Err(ContractError::TransferHealthFactorTooLow);
            }
        },
        Ok(UserHealthStatus::NotBorrowing) => {},
    }
    let mut from_record = None;
    let mut to_record = None;
    if !same_address {
        if from_previous_balance < amount {
            return Err(ContractError::Overflow);
        }
        if from_previous_balance - amount == 0 {
            let mut from_user = from_user;
            unset_bit(&mut from_user.deposited_assets, reserve_index)?;
            from_record = Some(from_user);
        }
        if to_previous_balance == 0 && amount != 0 {
            let mut to_user = match to_user {
                Some(u) => u,
                None => User::new(),
            };
            set_bit(&mut to_user.deposited_assets, reserve_index)?;
            to_record = Some(to_user);
        }
    }
    Ok(TransferResult { from_user: from_record, to_user: to_record })
}

/// Amount reported for a user's debt in a reserve by the debt query: the scaled debt when
/// the user borrows the asset, zero otherwise.
pub fn debt_info_amount(user: &User, reserve_index: u32, debt: Option<Debt>) -> (r: Result<
    U256,
    ContractError,
>)
    ensures
        reserve_index >= 128 ==> r == Err::<U256, ContractError>(ContractError::IndexOutOfRange),
        reserve_index < 128 && !crate::red_bank::bits::bit_is_set(
            user.borrowed_assets,
            reserve_index,
        ) ==> (r matches Ok(v) && v.value() == 0),
        reserve_index < 128 && crate::red_bank::bits::bit_is_set(
            user.borrowed_assets,
            reserve_index,
        ) ==> match debt {
            Some(d) => r == Ok::<U256, ContractError>(d.amount_scaled),
            None => r == Err::<U256, ContractError>(ContractError::DebtNotFound),
        },
{
    let is_borrowing_asset = get_bit(user.borrowed_assets, reserve_index)?;
    if is_borrowing_asset {
        match debt {
            Some(d) => Ok(d.amount_scaled),
            None => Err(ContractError::DebtNotFound),
        }
    } else {
        Ok(u256_from(0))
    }
}

} // verus!
