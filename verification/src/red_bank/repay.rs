use vstd::prelude::*;

use crate::error::{Action, ContractError};
use crate::math::{
    lemma_mul_div_mono, lemma_mul_div_nonneg, lemma_u256_canonical, lemma_u256_of_value,
    lemma_u256_value_range, mul_div, u256_bound, u256_from, u256_is_zero, u256_lt, u256_mul_div,
    u256_multiply_ratio, u256_of, u256_sub, word_base, U256, DECIMAL_FRACTIONAL,
};
use crate::red_bank::bits::{bit_is_set, lemma_unset_bit_reads, unset_bit};
use crate::red_bank::borrow::{borrowed_reserve, scaled_amount};
use crate::red_bank::handlers::zero_amount_error;
use crate::red_bank::interest::{
    interest_rates_update_fits, market_indices_update_fits, reserve_update_interest_rates,
    reserve_update_market_indices, reserve_with_updated_indices, reserve_with_updated_rates,
};
use crate::red_bank::state::{Debt, Reserve, User};

verus! {

/// Outcome of a repayment: the updated reserve, the remaining debt, the borrower's record
/// when it changed (the asset is no longer borrowed), the refund of any excess and the
/// amount actually repaid.
#[derive(Debug)]
pub struct RepayResult {
    pub reserve: Reserve,
    pub debt: Debt,
    pub user: Option<User>,
    pub refund_amount: u128,
    pub repaid_amount: u128,
}

/// The user with reserve `index` no longer marked as borrowed.
pub open spec fn user_without_borrowed(user: User, index: u32) -> User {
    User { borrowed_assets: user.borrowed_assets & !(1u128 << index), ..user }
}

/// Scaled amount actually repaid (at most the debt).
pub open spec fn repaid_scaled(reserve: Reserve, debt: Debt, now: u64, repay_amount: u128) -> int {
    let scaled = scaled_amount(repay_amount as int, reserve_with_updated_indices(reserve, now));
    if scaled > debt.amount_scaled.value() {
        debt.amount_scaled.value()
    } else {
        scaled
    }
}

/// Excess of a repayment over the debt, paid back to the repayer.
pub open spec fn repay_refund(reserve: Reserve, debt: Debt, now: u64, repay_amount: u128) -> int {
    let indexed = reserve_with_updated_indices(reserve, now);
    let scaled = scaled_amount(repay_amount as int, indexed);
    if scaled > debt.amount_scaled.value() {
        mul_div(
            scaled - debt.amount_scaled.value(),
            indexed.borrow_index.value(),
            DECIMAL_FRACTIONAL as int,
        )
    } else {
        0
    }
}

/// Outcome of a repayment, as `handle_repay` decides it.
pub open spec fn repay_outcome(
    reserve: Reserve,
    debt: Debt,
    user: Option<User>,
    asset_label: String,
    now: u64,
    contract_balance: u128,
    repay_amount: u128,
) -> Result<RepayResult, ContractError> {
    let indexed = reserve_with_updated_indices(reserve, now);
    let repaid = repaid_scaled(reserve, debt, now, repay_amount);
    let new_debt = debt.amount_scaled.value() - repaid;
    let refund = repay_refund(reserve, debt, now, repay_amount);
    if repay_amount == 0 {
        Err(zero_amount_error(Action::Repay, asset_label))
    } else if debt.amount_scaled.value() == 0 {
        Err(ContractError::CannotRepayZeroDebt)
    } else if repaid > indexed.debt_total_scaled.value() {
        Err(ContractError::RepayExceedsTotalDebt)
    } else if new_debt == 0 && user is None {
        Err(ContractError::UserNotFound)
    } else if new_debt == 0 && reserve.index >= 128 {
        Err(ContractError::IndexOutOfRange)
    } else {
        Ok(
            RepayResult {
                reserve: reserve_with_updated_rates(
                    Reserve { debt_total_scaled: u256_of(indexed.debt_total_scaled.value() - repaid), ..indexed },
                    contract_balance,
                    0,
                ),
                debt: Debt { amount_scaled: u256_of(new_debt) },
                user: if new_debt == 0 {
                    Some(user_without_borrowed(user->Some_0, reserve.index))
                } else {
                    None
                },
                refund_amount: refund as u128,
                repaid_amount: (repay_amount - refund) as u128,
            },
        )
    }
}

/// The borrow index that a repayment divides by is not zero and the updated indices and
/// rates stay within their bounds: nothing is computed for a zero amount or a zero debt.
pub open spec fn repay_fits(
    reserve: Reserve,
    debt: Debt,
    now: u64,
    contract_balance: u128,
    repay_amount: u128,
) -> bool {
    let indexed = reserve_with_updated_indices(reserve, now);
    let repaid = repaid_scaled(reserve, debt, now, repay_amount);
    repay_amount == 0 || debt.amount_scaled.value() == 0 || {
        &&& market_indices_update_fits(reserve, now)
        &&& indexed.borrow_index.value() != 0
        &&& (repaid <= indexed.debt_total_scaled.value() ==> interest_rates_update_fits(
            Reserve { debt_total_scaled: u256_of(indexed.debt_total_scaled.value() - repaid), ..indexed },
            contract_balance,
            0,
        ))
    }
}

/// `(a / b) * b <= a` in decimal steps: unscaling a scaled amount never exceeds it.
pub proof fn lemma_unscale_scaled_le(a: int, b: int)
    requires
        0 <= a,
        0 < b,
    ensures
        mul_div(mul_div(a, DECIMAL_FRACTIONAL as int, b), b, DECIMAL_FRACTIONAL as int) <= a,
{
    let f = DECIMAL_FRACTIONAL as int;
    let q = mul_div(a, f, b);
    vstd::arithmetic::div_mod::lemma_fundamental_div_mod(a * f, b);
    vstd::arithmetic::div_mod::lemma_mod_bound(a * f, b);
    assert(q * b <= a * f) by (nonlinear_arith)
        requires
            q == (a * f) / b,
            a * f == b * ((a * f) / b) + (a * f) % b,
            0 <= (a * f) % b,
    ;
    vstd::arithmetic::div_mod::lemma_div_is_ordered(q * b, a * f, f);
    vstd::arithmetic::div_mod::lemma_div_by_multiple(a, f);
}

/// Decides the repayment of `repay_amount` of the reserve's asset against `debt`; `user`
/// is the repayer's stored record (needed once the debt is fully repaid) and
/// `contract_current_balance` the contract's balance of the asset.
pub fn handle_repay(
    reserve: Reserve,
    debt: Debt,
    user: Option<User>,
    asset_label: &String,
    current_timestamp: u64,
    contract_current_balance: u128,
    repay_amount: u128,
) -> (r: Result<RepayResult, ContractError>)
    requires
        repay_fits(reserve, debt, current_timestamp, contract_current_balance, repay_amount),
    ensures
        r == repay_outcome(
            reserve,
            debt,
            user,
            *asset_label,
            current_timestamp,
            contract_current_balance,
            repay_amount,
        ),
{
    if repay_amount == 0 {
        return Err(
            ContractError::InvalidZeroAmount { action: Action::Repay, asset: asset_label.clone() },
        );
    }
    if u256_is_zero(debt.amount_scaled) {
        return Err(ContractError::CannotRepayZeroDebt);
    }
    let mut reserve = reserve;
    reserve_update_market_indices(current_timestamp, &mut reserve);
    let index = reserve.borrow_index.atomics;
    proof {
        lemma_u256_value_range(index);
        let f = DECIMAL_FRACTIONAL as int;
        let b = word_base();
        assert(repay_amount * f < u256_bound()) by (nonlinear_arith)
            requires
                0 <= repay_amount < b,
                f < b,
                u256_bound() == b * b,
        ;
        assert(repay_amount * f >= 0) by (nonlinear_arith)
            requires
                0 <= repay_amount,
                f > 0,
        ;
        vstd::arithmetic::div_mod::lemma_div_is_ordered_by_denominator(
            repay_amount * f,
            1,
            index.value(),
        );
    }
    let scaled = u256_mul_div(u256_from(repay_amount), u256_from(DECIMAL_FRACTIONAL), index);
    let mut refund_amount: u128 = 0;
    let repay_amount_scaled: U256 = if u256_lt(debt.amount_scaled, scaled) {
        let excess = u256_sub(scaled, debt.amount_scaled);
        proof {
            lemma_unscale_scaled_le(repay_amount as int, index.value());
            lemma_mul_div_mono(
                excess.value(),
                scaled.value(),
                index.value(),
                DECIMAL_FRACTIONAL as int,
            );
        }
        refund_amount = u256_multiply_ratio(excess, index, u256_from(DECIMAL_FRACTIONAL));
        debt.amount_scaled
    } else {
        scaled
    };
    let new_debt = Debt { amount_scaled: u256_sub(debt.amount_scaled, repay_amount_scaled) };
    proof {
        lemma_u256_canonical(new_debt.amount_scaled);
    }
    if u256_lt(reserve.debt_total_scaled, repay_amount_scaled) {
        return Err(ContractError::RepayExceedsTotalDebt);
    }
    reserve.debt_total_scaled = u256_sub(reserve.debt_total_scaled, repay_amount_scaled);
    proof {
        lemma_u256_canonical(reserve.debt_total_scaled);
    }
    reserve_update_interest_rates(&mut reserve, contract_current_balance, 0)?;
    let user = if u256_is_zero(new_debt.amount_scaled) {
        let mut u = match user {
            Some(u) => u,
            None => {
                return Err(ContractError::UserNotFound);
            },
        };
        unset_bit(&mut u.borrowed_assets, reserve.index)?;
        Some(u)
    } else {
        None
    };
    Ok(
        RepayResult {
            reserve,
            debt: new_debt,
            user,
            refund_amount,
            repaid_amount: repay_amount - refund_amount,
        },
    )
}

/// Law: a repayment hands back the repayer's record exactly when it repays the whole debt,
/// and then only with the asset no longer marked as borrowed: every other borrowed or
/// deposited flag is kept. A partial repayment leaves the record, and so the borrowed flag,
/// as it was.
pub proof fn lemma_repay_clears_flag_only_when_repaid(
    reserve: Reserve,
    debt: Debt,
    user: Option<User>,
    asset_label: String,
    now: u64,
    contract_balance: u128,
    repay_amount: u128,
)
    requires
        repay_fits(reserve, debt, now, contract_balance, repay_amount),
        repay_outcome(reserve, debt, user, asset_label, now, contract_balance, repay_amount) is Ok,
    ensures
        ({
            let res = repay_outcome(
                reserve,
                debt,
                user,
                asset_label,
                now,
                contract_balance,
                repay_amount,
            )->Ok_0;
            let f = DECIMAL_FRACTIONAL as int;
            let indexed = reserve_with_updated_indices(reserve, now);
            let index = indexed.borrow_index.value();
            let owed = debt.amount_scaled.value();
            let scaled = repay_amount * f / index;
            &&& (res.debt.amount_scaled.value() == 0) == (res.user is Some)
            &&& res.debt.amount_scaled.value() == (if scaled > owed {
                0
            } else {
                owed - scaled
            })
            &&& res.refund_amount == (if scaled > owed {
                (scaled - owed) * index / f
            } else {
                0
            })
            &&& res.repaid_amount + res.refund_amount == repay_amount
            &&& res.reserve.debt_total_scaled.value() == indexed.debt_total_scaled.value() - (owed
                - res.debt.amount_scaled.value())
            &&& res.debt.amount_scaled.value() <= debt.amount_scaled.value()
            &&& res.user matches Some(u) ==> {
                &&& user matches Some(before) && u.deposited_assets == before.deposited_assets
                    && forall|i: u32|
                    i < 128 && i != reserve.index ==> #[trigger] bit_is_set(u.borrowed_assets, i)
                        == bit_is_set(before.borrowed_assets, i)
                &&& reserve.index < 128 && !bit_is_set(u.borrowed_assets, reserve.index)
            }
        }),
{
    let indexed = reserve_with_updated_indices(reserve, now);
    let repaid = repaid_scaled(reserve, debt, now, repay_amount);
    let new_debt = debt.amount_scaled.value() - repaid;
    lemma_u256_value_range(debt.amount_scaled);
    lemma_u256_value_range(indexed.borrow_index.atomics);
    if indexed.borrow_index.value() != 0 {
        lemma_mul_div_nonneg(repay_amount as int, DECIMAL_FRACTIONAL as int, indexed.borrow_index.value());
    }
    assert(0 <= new_debt <= debt.amount_scaled.value());
    lemma_u256_of_value(new_debt);
    lemma_u256_value_range(indexed.debt_total_scaled);
    lemma_u256_of_value(indexed.debt_total_scaled.value() - repaid);
    lemma_u256_value_range(
        reserve_with_updated_rates(
            Reserve { debt_total_scaled: u256_of(indexed.debt_total_scaled.value() - repaid), ..indexed },
            contract_balance,
            0,
        ).debt_total_scaled,
    );
    let scaled = scaled_amount(repay_amount as int, indexed);
    if scaled > debt.amount_scaled.value() {
        lemma_unscale_scaled_le(repay_amount as int, indexed.borrow_index.value());
        lemma_mul_div_mono(
            scaled - debt.amount_scaled.value(),
            scaled,
            indexed.borrow_index.value(),
            DECIMAL_FRACTIONAL as int,
        );
        lemma_mul_div_nonneg(
            scaled - debt.amount_scaled.value(),
            indexed.borrow_index.value(),
            DECIMAL_FRACTIONAL as int,
        );
    }
    if new_debt == 0 {
        let before = user->Some_0;
        assert forall|i: u32| i < 128 && i != reserve.index implies #[trigger] bit_is_set(
            user_without_borrowed(before, reserve.index).borrowed_assets,
            i,
        ) == bit_is_set(before.borrowed_assets, i) by {
            lemma_unset_bit_reads(before.borrowed_assets, reserve.index, i);
        }
        lemma_unset_bit_reads(before.borrowed_assets, reserve.index, reserve.index);
    }
}

/// Law: repaying, at the time of a borrow, the amount borrowed removes exactly the scaled
/// debt that the borrow added.
pub proof fn lemma_borrow_then_repay_restores_debt(
    reserve: Reserve,
    now: u64,
    contract_balance: u128,
    existing_debt: Debt,
    amount: u128,
)
    requires
        reserve_with_updated_indices(reserve, now).borrow_index.value() != 0,
        existing_debt.amount_scaled.value() + scaled_amount(
            amount as int,
            reserve_with_updated_indices(reserve, now),
        ) < u256_bound(),
    ensures
        ({
            let indexed = reserve_with_updated_indices(reserve, now);
            let scaled = scaled_amount(amount as int, indexed);
            let after = borrowed_reserve(reserve, now, contract_balance, amount);
            let debt_after = Debt { amount_scaled: u256_of(existing_debt.amount_scaled.value() + scaled) };
            debt_after.amount_scaled.value() - repaid_scaled(after, debt_after, now, amount)
                == existing_debt.amount_scaled.value()
        }),
{
    let indexed = reserve_with_updated_indices(reserve, now);
    let after = borrowed_reserve(reserve, now, contract_balance, amount);
    assert(now <= after.interests_last_updated);
    crate::red_bank::interest::lemma_indices_never_decrease(after, now);
    assert(after.borrow_index == indexed.borrow_index);
    lemma_mul_div_nonneg(amount as int, DECIMAL_FRACTIONAL as int, indexed.borrow_index.value());
    lemma_u256_value_range(existing_debt.amount_scaled);
    lemma_u256_of_value(
        existing_debt.amount_scaled.value() + scaled_amount(amount as int, indexed),
    );
}

} // verus!
