use vstd::prelude::*;

use crate::error::{Action, ContractError};
use crate::math::{
    lemma_mul_div_nonneg, lemma_mul_div_words, lemma_u256_canonical, lemma_u256_value_range,
    mul_div, u256_add, u256_bound, u256_from, u256_lt, u256_mul_div,
    u256_of, Decimal256, U256, DECIMAL_FRACTIONAL,
};
use crate::red_bank::bits::{get_bit, set_bit};
use crate::red_bank::handlers::{user_with_borrowed, zero_amount_error};
use crate::red_bank::interest::{
    interest_rates_update_fits, market_indices_update_fits, reserve_update_interest_rates,
    reserve_update_market_indices, reserve_with_updated_indices, reserve_with_updated_rates,
};
use crate::red_bank::position::{
    all_prices_known, asset_get_price, first_unknown_price, known_price, sum_positions_in_uusd,
    total_collateral_in_uusd, total_debt_in_uusd, totals_fit, UserAssetPosition,
};
use crate::red_bank::state::{Debt, Reserve, User};

verus! {

/// The position at which the first unknown price sits (meaningful when one is unknown).
pub open spec fn first_unknown(ps: Seq<UserAssetPosition>, prices: Seq<(String, Decimal256)>) -> int {
    choose|i: int| first_unknown_price(ps, prices, i)
}

/// There is at most one first position with an unknown price.
pub proof fn lemma_first_unknown_unique(
    ps: Seq<UserAssetPosition>,
    prices: Seq<(String, Decimal256)>,
    i: int,
)
    requires
        first_unknown_price(ps, prices, i),
    ensures
        first_unknown(ps, prices) == i,
{
    let j = first_unknown(ps, prices);
    assert(first_unknown_price(ps, prices, j));
    if j < i {
        assert(known_price(ps[j].asset_label@, ps[j].asset_type, prices) is Some);
    } else if i < j {
        assert(known_price(ps[i].asset_label@, ps[i].asset_type, prices) is Some);
    }
}

/// Borrow value in uusd of `amount` of an asset priced `price`.
pub open spec fn value_in_uusd(amount: int, price: Decimal256) -> int {
    mul_div(amount, price.value(), DECIMAL_FRACTIONAL as int)
}

/// Outcome of the collateral check of a collateralized borrow: `None` when it passes.
pub open spec fn collateral_check(
    ps: Seq<UserAssetPosition>,
    prices: Seq<(String, Decimal256)>,
    asset_label: String,
    reserve: Reserve,
    borrow_amount: u128,
) -> Option<ContractError> {
    if !all_prices_known(ps, prices) {
        Some(ContractError::PriceNotFound { asset: ps[first_unknown(ps, prices)].asset_label })
    } else {
        match known_price(asset_label@, reserve.asset_type, prices) {
            None => Some(ContractError::PriceNotFound { asset: asset_label }),
            Some(price) => if (total_debt_in_uusd(ps, prices) + value_in_uusd(
                borrow_amount as int,
                price,
            )) * DECIMAL_FRACTIONAL > total_collateral_in_uusd(ps, prices) {
                Some(ContractError::BorrowExceedsCollateral)
            } else {
                None
            },
        }
    }
}

/// The collateral check stays below 2^256: the position totals, and the debt after the
/// borrow taken as a decimal.
pub open spec fn collateral_check_fits(
    ps: Seq<UserAssetPosition>,
    prices: Seq<(String, Decimal256)>,
    asset_label: String,
    reserve: Reserve,
    borrow_amount: u128,
) -> bool {
    &&& totals_fit(ps, prices)
    &&& (all_prices_known(ps, prices) ==> match known_price(
        asset_label@,
        reserve.asset_type,
        prices,
    ) {
        Some(price) => (total_debt_in_uusd(ps, prices) + value_in_uusd(borrow_amount as int, price))
            * DECIMAL_FRACTIONAL < u256_bound(),
        None => true,
    })
}

/// Debt of `debt` in the reserve's asset, unscaled with its borrow index.
pub open spec fn unscaled_debt(debt: Debt, reserve: Reserve) -> int {
    mul_div(debt.amount_scaled.value(), reserve.borrow_index.value(), DECIMAL_FRACTIONAL as int)
}

/// Scaled amount of `amount` at the reserve's borrow index.
pub open spec fn scaled_amount(amount: int, reserve: Reserve) -> int {
    mul_div(amount, DECIMAL_FRACTIONAL as int, reserve.borrow_index.value())
}

/// Outcome of a borrow: the updated reserve, the borrower's record and their new debt.
#[derive(Debug)]
pub struct BorrowResult {
    pub reserve: Reserve,
    pub user: User,
    pub debt: Debt,
}

/// The reserve of a successful borrow: indices brought up to date, the new scaled debt
/// added to the total, then rates recomputed with the borrowed amount taken out.
pub open spec fn borrowed_reserve(
    reserve: Reserve,
    now: u64,
    contract_balance: u128,
    borrow_amount: u128,
) -> Reserve {
    let indexed = reserve_with_updated_indices(reserve, now);
    let scaled = scaled_amount(borrow_amount as int, indexed);
    reserve_with_updated_rates(
        Reserve { debt_total_scaled: u256_of(indexed.debt_total_scaled.value() + scaled), ..indexed },
        contract_balance,
        borrow_amount,
    )
}

/// Outcome of a borrow request, as `handle_borrow` decides it.
pub open spec fn borrow_outcome(
    reserve: Reserve,
    user: Option<User>,
    limit: u128,
    existing_debt: Debt,
    ps: Seq<UserAssetPosition>,
    prices: Seq<(String, Decimal256)>,
    asset_label: String,
    now: u64,
    contract_balance: u128,
    borrow_amount: u128,
) -> Result<BorrowResult, ContractError> {
    let indexed = reserve_with_updated_indices(reserve, now);
    let scaled = scaled_amount(borrow_amount as int, indexed);
    if borrow_amount == 0 {
        Err(zero_amount_error(Action::Borrow, asset_label))
    } else if user is None && limit == 0 {
        Err(ContractError::NoCollateralDeposited)
    } else if limit == 0 && collateral_check(ps, prices, asset_label, reserve, borrow_amount) is Some {
        Err(collateral_check(ps, prices, asset_label, reserve, borrow_amount)->Some_0)
    } else if limit != 0 && borrow_amount + unscaled_debt(existing_debt, reserve) > limit {
        Err(ContractError::BorrowExceedsUncollateralizedLimit)
    } else if reserve.index >= 128 {
        Err(ContractError::IndexOutOfRange)
    } else if contract_balance < borrow_amount {
        Err(ContractError::LiquidityTakenExceedsAvailable)
    } else {
        let u = match user {
            Some(u) => u,
            None => User { borrowed_assets: 0, deposited_assets: 0 },
        };
        Ok(
            BorrowResult {
                reserve: borrowed_reserve(reserve, now, contract_balance, borrow_amount),
                user: user_with_borrowed(u, reserve.index),
                debt: Debt { amount_scaled: u256_of(existing_debt.amount_scaled.value() + scaled) },
            },
        )
    }
}

/// The computations that a borrow reaches stay below 2^256 and within their bounds, and the
/// borrow index is not zero: nothing is computed for a zero amount or a borrower without record nor
/// limit, and nothing past a failed collateral or limit check or an out-of-range index.
pub open spec fn borrow_fits(
    reserve: Reserve,
    user: Option<User>,
    limit: u128,
    existing_debt: Debt,
    ps: Seq<UserAssetPosition>,
    prices: Seq<(String, Decimal256)>,
    asset_label: String,
    now: u64,
    contract_balance: u128,
    borrow_amount: u128,
) -> bool {
    let indexed = reserve_with_updated_indices(reserve, now);
    let scaled = scaled_amount(borrow_amount as int, indexed);
    borrow_amount == 0 || (user is None && limit == 0) || {
        &&& limit != 0 ==> unscaled_debt(existing_debt, reserve) < u256_bound()
        &&& limit == 0 ==> collateral_check_fits(ps, prices, asset_label, reserve, borrow_amount)
        &&& (limit == 0 ==> collateral_check(ps, prices, asset_label, reserve, borrow_amount) is None)
            && (limit != 0 ==> borrow_amount + unscaled_debt(existing_debt, reserve) <= limit) ==> {
            &&& market_indices_update_fits(reserve, now)
            &&& reserve.index < 128 ==> {
                &&& indexed.borrow_index.value() != 0
                &&& existing_debt.amount_scaled.value() + scaled < u256_bound()
                &&& indexed.debt_total_scaled.value() + scaled < u256_bound()
                &&& interest_rates_update_fits(
                    Reserve { debt_total_scaled: u256_of(indexed.debt_total_scaled.value() + scaled), ..indexed },
                    contract_balance,
                    borrow_amount,
                )
            }
        }
    }
}

/// Decides a borrow of `borrow_amount` of the reserve's asset. Without an uncollateralized
/// loan limit the borrower needs a stored record and enough collateral: `positions` (each
/// asset weighted by its loan-to-value) and `asset_prices` give the debt and borrow limit
/// in uusd. With a limit, the borrow plus the existing debt may not exceed it.
/// `contract_current_balance` is the contract's balance of the asset.
pub fn handle_borrow(
    borrow_reserve: Reserve,
    user: Option<User>,
    uncollateralized_loan_limit: u128,
    existing_debt: Debt,
    positions: &Vec<UserAssetPosition>,
    asset_prices: &Vec<(String, Decimal256)>,
    asset_label: &String,
    current_timestamp: u64,
    contract_current_balance: u128,
    borrow_amount: u128,
) -> (r: Result<BorrowResult, ContractError>)
    requires
        borrow_fits(
            borrow_reserve,
            user,
            uncollateralized_loan_limit,
            existing_debt,
            positions@,
            asset_prices@,
            *asset_label,
            current_timestamp,
            contract_current_balance,
            borrow_amount,
        ),
    ensures
        r == borrow_outcome(
            borrow_reserve,
            user,
            uncollateralized_loan_limit,
            existing_debt,
            positions@,
            asset_prices@,
            *asset_label,
            current_timestamp,
            contract_current_balance,
            borrow_amount,
        ),
{
    if borrow_amount == 0 {
        return Err(
            ContractError::InvalidZeroAmount { action: Action::Borrow, asset: asset_label.clone() },
        );
    }
    let mut user = match user {
        Some(u) => u,
        None => {
            if uncollateralized_loan_limit == 0 {
                return Err(ContractError::NoCollateralDeposited);
            }
            User::new()
        },
    };
    if uncollateralized_loan_limit == 0 {
        let sums = sum_positions_in_uusd(positions, asset_prices);
        let (total_debt, max_borrow) = match sums {
            Ok(t) => t,
            Err(e) => {
                proof {
                    let i = choose|i: int|
                        first_unknown_price(positions@, asset_prices@, i) && sums == Err::<
                            (U256, U256),
                            ContractError,
                        >(ContractError::PriceNotFound { asset: positions@[i].asset_label });
                    lemma_first_unknown_unique(positions@, asset_prices@, i);
                }
                return Err(e);
            },
        };
        assert(all_prices_known(positions@, asset_prices@));
        proof {
            crate::red_bank::position::lemma_totals_nonneg(positions@, asset_prices@);
        }
        let borrow_price = asset_get_price(asset_label, asset_prices, borrow_reserve.asset_type)?;
        let ghost td = total_debt_in_uusd(positions@, asset_prices@);
        let ghost v = value_in_uusd(borrow_amount as int, borrow_price);
        proof {
            lemma_u256_value_range(borrow_price.atomics);
            lemma_mul_div_nonneg(borrow_amount as int, borrow_price.value(), DECIMAL_FRACTIONAL as int);
            assert((td + v) * DECIMAL_FRACTIONAL >= td + v) by (nonlinear_arith)
                requires
                    td + v >= 0,
            ;
        }
        let borrow_amount_in_uusd = u256_mul_div(
            u256_from(borrow_amount),
            borrow_price.atomics,
            u256_from(DECIMAL_FRACTIONAL),
        );
        let debt_after = u256_add(total_debt, borrow_amount_in_uusd);
        proof {
            assert(debt_after.value() * DECIMAL_FRACTIONAL * 1 == debt_after.value() * DECIMAL_FRACTIONAL);
            vstd::arithmetic::div_mod::lemma_div_by_multiple(debt_after.value() * DECIMAL_FRACTIONAL, 1);
        }
        let debt_after_decimal = u256_mul_div(
            debt_after,
            u256_from(DECIMAL_FRACTIONAL),
            u256_from(1),
        );
        if u256_lt(max_borrow, debt_after_decimal) {
            return Err(ContractError::BorrowExceedsCollateral);
        }
    } else {
        let debt_amount = u256_mul_div(
            existing_debt.amount_scaled,
            borrow_reserve.borrow_index.atomics,
            u256_from(DECIMAL_FRACTIONAL),
        );
        if borrow_amount > uncollateralized_loan_limit || u256_lt(
            u256_from(uncollateralized_loan_limit - borrow_amount),
            debt_amount,
        ) {
            return Err(ContractError::BorrowExceedsUncollateralizedLimit);
        }
    }
    let mut reserve = borrow_reserve;
    reserve_update_market_indices(current_timestamp, &mut reserve);
    let is_borrowing_asset = get_bit(user.borrowed_assets, reserve.index)?;
    if !is_borrowing_asset {
        set_bit(&mut user.borrowed_assets, reserve.index)?;
    } else {
        proof {
            crate::red_bank::bits::lemma_set_then_unset(user.borrowed_assets, reserve.index);
        }
    }
    proof {
        lemma_u256_value_range(reserve.borrow_index.atomics);
        lemma_mul_div_words(
            borrow_amount as int,
            DECIMAL_FRACTIONAL as int,
            reserve.borrow_index.value(),
        );
    }
    let borrow_amount_scaled = u256_mul_div(
        u256_from(borrow_amount),
        u256_from(DECIMAL_FRACTIONAL),
        reserve.borrow_index.atomics,
    );
    let debt = Debt { amount_scaled: u256_add(existing_debt.amount_scaled, borrow_amount_scaled) };
    reserve.debt_total_scaled = u256_add(reserve.debt_total_scaled, borrow_amount_scaled);
    proof {
        lemma_u256_canonical(debt.amount_scaled);
        lemma_u256_canonical(reserve.debt_total_scaled);
    }
    reserve_update_interest_rates(&mut reserve, contract_current_balance, borrow_amount)?;
    Ok(BorrowResult { reserve, user, debt })
}

} // verus!
