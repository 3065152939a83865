use vstd::prelude::*;

use crate::error::ContractError;
use crate::math::{
    decimal256_of, full_mul, lemma_mul_div_le_left, lemma_mul_div_mono, lemma_mul_div_nonneg,
    lemma_u256_canonical, lemma_u256_of_value, mul_div,
    lemma_u256_value_range, u256_add, u256_bound, u256_from, u256_is_zero, u256_mul_div,
    u256_multiply_ratio, word_base,
    Decimal256, DECIMAL_FRACTIONAL,
};
use crate::red_bank::state::Reserve;

verus! {

pub const SECONDS_PER_YEAR: u64 = 31536000u64;

/// Interest factor `1 + rate * elapsed / year` in decimal atomics, as the money market
/// computes it with its rounded decimal operations.
pub open spec fn accumulated_interest(rate: int, elapsed: int) -> int {
    DECIMAL_FRACTIONAL + rate * elapsed / (SECONDS_PER_YEAR as int)
}

/// The index after applying `rate` for `elapsed` seconds (a zero rate leaves it unchanged).
pub open spec fn applied_index(index: int, rate: int, elapsed: int) -> int {
    if rate > 0 {
        mul_div(index, accumulated_interest(rate, elapsed), DECIMAL_FRACTIONAL as int)
    } else {
        index
    }
}

/// Applying `rate` to `index` for `elapsed` seconds stays below 2^256: the rate times the
/// elapsed time as a decimal, and the index times the interest factor.
pub open spec fn index_update_fits(index: int, rate: int, elapsed: int) -> bool {
    rate > 0 ==> {
        &&& rate * elapsed * DECIMAL_FRACTIONAL < u256_bound()
        &&& index * accumulated_interest(rate, elapsed) < u256_bound()
    }
}

/// Updating the indices of `reserve` at time `now` stays below 2^256.
pub open spec fn market_indices_update_fits(reserve: Reserve, now: u64) -> bool {
    reserve.interests_last_updated < now ==> {
        &&& index_update_fits(
            reserve.borrow_index.value(),
            reserve.borrow_rate.value(),
            now - reserve.interests_last_updated,
        )
        &&& index_update_fits(
            reserve.liquidity_index.value(),
            reserve.liquidity_rate.value(),
            now - reserve.interests_last_updated,
        )
    }
}

/// The reserve after its indices are brought up to `now`.
pub open spec fn reserve_with_updated_indices(reserve: Reserve, now: u64) -> Reserve {
    if reserve.interests_last_updated < now {
        let elapsed = now - reserve.interests_last_updated;
        Reserve {
            borrow_index: decimal256_of(
                applied_index(reserve.borrow_index.value(), reserve.borrow_rate.value(), elapsed),
            ),
            liquidity_index: decimal256_of(
                applied_index(
                    reserve.liquidity_index.value(),
                    reserve.liquidity_rate.value(),
                    elapsed,
                ),
            ),
            interests_last_updated: now,
            ..reserve
        }
    } else {
        reserve
    }
}

/// One index: `index * (1 + rate * elapsed / year)` with the money market's decimal steps,
/// taken in 256 bits.
fn apply_rate(index: Decimal256, rate: Decimal256, elapsed: u64) -> (r: Decimal256)
    requires
        rate.value() > 0,
        elapsed > 0,
        index_update_fits(index.value(), rate.value(), elapsed as int),
    ensures
        r == decimal256_of(applied_index(index.value(), rate.value(), elapsed as int)),
{
    let f = DECIMAL_FRACTIONAL;
    let ghost x = rate.value() * elapsed;
    proof {
        lemma_u256_value_range(rate.atomics);
        lemma_u256_value_range(index.atomics);
        assert(x >= 1 && x * f >= 2 * x && x * f >= x) by (nonlinear_arith)
            requires
                x == rate.value() * elapsed,
                rate.value() >= 1,
                elapsed >= 1,
                f >= 2,
        ;
        assert(x * 1 == x);
        vstd::arithmetic::div_mod::lemma_div_by_multiple(x, 1);
        vstd::arithmetic::div_mod::lemma_div_is_ordered_by_denominator(x, 1, SECONDS_PER_YEAR as int);
        vstd::arithmetic::div_mod::lemma_div_pos_is_pos(x, SECONDS_PER_YEAR as int);
        assert(2 * f < u256_bound());
    }
    let scaled = u256_mul_div(rate.atomics, u256_from(elapsed as u128), u256_from(1));
    let per_year = u256_mul_div(scaled, u256_from(1), u256_from(SECONDS_PER_YEAR as u128));
    let factor = u256_add(u256_from(f), per_year);
    proof {
        let a = accumulated_interest(rate.value(), elapsed as int);
        assert(factor.value() == a);
        assert(a * index.value() == index.value() * a) by (nonlinear_arith);
        assert(a * index.value() >= 0) by (nonlinear_arith)
            requires
                a >= 0,
                index.value() >= 0,
        ;
        vstd::arithmetic::div_mod::lemma_div_is_ordered_by_denominator(a * index.value(), 1, f as int);
        vstd::arithmetic::div_mod::lemma_div_by_multiple(a * index.value(), 1);
    }
    Decimal256 { atomics: u256_mul_div(factor, index.atomics, u256_from(f)) }
}

/// Updates reserve indices by applying the current interest rates over the time between
/// the last update and `current_timestamp`. The reserve is not saved.
pub fn reserve_update_market_indices(current_timestamp: u64, reserve: &mut Reserve)
    requires
        market_indices_update_fits(*old(reserve), current_timestamp),
    ensures
        *final(reserve) == reserve_with_updated_indices(*old(reserve), current_timestamp),
{
    if reserve.interests_last_updated < current_timestamp {
        let elapsed = current_timestamp - reserve.interests_last_updated;
        proof {
            lemma_u256_canonical(reserve.borrow_index.atomics);
            lemma_u256_canonical(reserve.liquidity_index.atomics);
            lemma_u256_value_range(reserve.borrow_rate.atomics);
            lemma_u256_value_range(reserve.liquidity_rate.atomics);
        }
        if !reserve.borrow_rate.is_zero() {
            reserve.borrow_index = apply_rate(reserve.borrow_index, reserve.borrow_rate, elapsed);
        }
        if !reserve.liquidity_rate.is_zero() {
            reserve.liquidity_index = apply_rate(
                reserve.liquidity_index,
                reserve.liquidity_rate,
                elapsed,
            );
        }
        reserve.interests_last_updated = current_timestamp;
    }
}

/// Utilization `total_debt / (available + total_debt)` in decimal atomics (zero without debt).
pub open spec fn utilization_rate(available: int, total_debt: int) -> int {
    if total_debt > 0 {
        mul_div(total_debt, DECIMAL_FRACTIONAL as int, available + total_debt)
    } else {
        0
    }
}

/// Available liquidity in decimal atomics after taking `liquidity_taken` from `balance`.
pub open spec fn available_liquidity(balance: int, liquidity_taken: int) -> int {
    (balance - liquidity_taken) * DECIMAL_FRACTIONAL
}

/// Total debt of the reserve in decimal atomics.
pub open spec fn total_debt(reserve: Reserve) -> int {
    reserve.debt_total_scaled.value() * reserve.borrow_index.value()
}

/// The rates update of `reserve` stays within the 256 bits in which the total debt is
/// computed: the scaled debt times the borrow index, as decimal atomics, times one more
/// factor of 10^18 in the utilization's division.
pub open spec fn interest_rates_update_fits(
    reserve: Reserve,
    contract_balance: u128,
    liquidity_taken: u128,
) -> bool {
    liquidity_taken <= contract_balance ==> total_debt(reserve) * DECIMAL_FRACTIONAL < u256_bound()
}

/// The reserve after its rates are recomputed from the given liquidity.
pub open spec fn reserve_with_updated_rates(
    reserve: Reserve,
    contract_balance: u128,
    liquidity_taken: u128,
) -> Reserve {
    let u = utilization_rate(
        available_liquidity(contract_balance as int, liquidity_taken as int),
        total_debt(reserve),
    );
    let borrow_rate = mul_div(reserve.borrow_slope.value(), u, DECIMAL_FRACTIONAL as int);
    Reserve {
        borrow_rate: decimal256_of(borrow_rate),
        liquidity_rate: decimal256_of(mul_div(borrow_rate, u, DECIMAL_FRACTIONAL as int)),
        ..reserve
    }
}

/// Recomputes the borrow and liquidity rates of `reserve` from its debt and the liquidity
/// left once `liquidity_taken` leaves the contract, whose current balance of the asset is
/// `contract_current_balance`. The reserve is not saved.
pub fn reserve_update_interest_rates(
    reserve: &mut Reserve,
    contract_current_balance: u128,
    liquidity_taken: u128,
) -> (r: Result<(), ContractError>)
    requires
        interest_rates_update_fits(*old(reserve), contract_current_balance, liquidity_taken),
    ensures
        contract_current_balance < liquidity_taken ==> r == Err::<(), ContractError>(
            ContractError::LiquidityTakenExceedsAvailable,
        ) && *final(reserve) == *old(reserve),
        contract_current_balance >= liquidity_taken ==> r == Ok::<(), ContractError>(())
            && *final(reserve) == reserve_with_updated_rates(
            *old(reserve),
            contract_current_balance,
            liquidity_taken,
        ),
{
    if contract_current_balance < liquidity_taken {
        return Err(ContractError::LiquidityTakenExceedsAvailable);
    }
    let available = contract_current_balance - liquidity_taken;
    proof {
        let v = reserve.debt_total_scaled.value();
        let i = reserve.borrow_index.value();
        lemma_u256_value_range(reserve.debt_total_scaled);
        lemma_u256_value_range(reserve.borrow_index.atomics);
        assert(v * i >= 0) by (nonlinear_arith)
            requires
                v >= 0,
                i >= 0,
        ;
        assert(v * i <= v * i * DECIMAL_FRACTIONAL) by (nonlinear_arith)
            requires
                v * i >= 0,
        ;
        vstd::arithmetic::div_mod::lemma_div_by_multiple(v * i, 1);
        assert(v * i * 1 == v * i);
    }
    let debt = u256_mul_div(reserve.debt_total_scaled, reserve.borrow_index.atomics, u256_from(1));
    let utilization: u128 = if u256_is_zero(debt) {
        0
    } else {
        let available_atomics = full_mul(available, DECIMAL_FRACTIONAL);
        proof {
            let b = word_base();
            let f = DECIMAL_FRACTIONAL as int;
            let a = available_atomics.value();
            let d = debt.value();
            assert(2 * f < b);
            assert(a + d < u256_bound()) by (nonlinear_arith)
                requires
                    a == available * f,
                    available <= b - 1,
                    d * f < b * b,
                    u256_bound() == b * b,
                    2 * f < b,
                    f >= 2,
                    d >= 0,
            ;
            assert(d >= 0) by (nonlinear_arith)
                requires
                    d == reserve.debt_total_scaled.value() * reserve.borrow_index.value(),
                    reserve.debt_total_scaled.value() >= 0,
                    reserve.borrow_index.value() >= 0,
            ;
            assert(a >= 0) by (nonlinear_arith)
                requires
                    a == available * f,
                    f > 0,
            ;
            lemma_utilization_at_most_one(a, d);
        }
        let denominator = u256_add(available_atomics, debt);
        u256_multiply_ratio(debt, u256_from(DECIMAL_FRACTIONAL), denominator)
    };
    proof {
        let f = DECIMAL_FRACTIONAL as int;
        assert(available * f >= 0) by (nonlinear_arith)
            requires
                f > 0,
        ;
        lemma_u256_value_range(reserve.debt_total_scaled);
        lemma_u256_value_range(reserve.borrow_index.atomics);
        assert(reserve.debt_total_scaled.value() * reserve.borrow_index.value() >= 0)
            by (nonlinear_arith)
            requires
                reserve.debt_total_scaled.value() >= 0,
                reserve.borrow_index.value() >= 0,
        ;
        lemma_utilization_at_most_one(available * f, total_debt(*reserve));
        assert(utilization == utilization_rate(available_liquidity(contract_current_balance as int, liquidity_taken as int), total_debt(*reserve)));
    }
    let utilization_rate = Decimal256 { atomics: u256_from(utilization) };
    proof {
        lemma_u256_value_range(reserve.borrow_slope.atomics);
        lemma_mul_div_le_left(
            reserve.borrow_slope.value(),
            utilization_rate.value(),
            DECIMAL_FRACTIONAL as int,
        );
    }
    proof {
        lemma_mul_div_le_left(
            reserve.borrow_slope.value(),
            utilization_rate.value(),
            DECIMAL_FRACTIONAL as int,
        );
    }
    reserve.borrow_rate = reserve.borrow_slope.mul(utilization_rate);
    proof {
        lemma_mul_div_le_left(
            reserve.borrow_rate.value(),
            utilization_rate.value(),
            DECIMAL_FRACTIONAL as int,
        );
    }
    reserve.liquidity_rate = reserve.borrow_rate.mul(utilization_rate);
    Ok(())
}

/// Utilization never exceeds one.
pub proof fn lemma_utilization_at_most_one(available: int, debt: int)
    requires
        0 <= available,
        0 <= debt,
    ensures
        0 <= utilization_rate(available, debt) <= DECIMAL_FRACTIONAL,
{
    if debt > 0 {
        let f = DECIMAL_FRACTIONAL as int;
        let d = available + debt;
        assert(debt * f <= d * f) by (nonlinear_arith)
            requires
                debt <= d,
                f > 0,
        ;
        vstd::arithmetic::div_mod::lemma_div_is_ordered(debt * f, d * f, d);
        vstd::arithmetic::div_mod::lemma_div_by_multiple(f, d);
        assert(d * f == f * d) by (nonlinear_arith);
        lemma_mul_div_nonneg(debt, f, d);
    }
}

/// Law: after a rates update the borrow rate never exceeds the borrow slope and the
/// liquidity rate never exceeds the borrow rate.
pub proof fn lemma_rates_bounded(reserve: Reserve, contract_balance: u128, liquidity_taken: u128)
    requires
        liquidity_taken <= contract_balance,
    ensures
        ({
            let r = reserve_with_updated_rates(reserve, contract_balance, liquidity_taken);
            &&& r.borrow_rate.value() <= reserve.borrow_slope.value()
            &&& r.liquidity_rate.value() <= r.borrow_rate.value()
        }),
{
    let f = DECIMAL_FRACTIONAL as int;
    let av = available_liquidity(contract_balance as int, liquidity_taken as int);
    assert(av >= 0) by (nonlinear_arith)
        requires
            av == (contract_balance - liquidity_taken) * f,
            contract_balance >= liquidity_taken,
            f > 0,
    ;
    lemma_u256_value_range(reserve.debt_total_scaled);
    lemma_u256_value_range(reserve.borrow_index.atomics);
    lemma_u256_value_range(reserve.borrow_slope.atomics);
    assert(total_debt(reserve) >= 0) by (nonlinear_arith)
        requires
            total_debt(reserve) == reserve.debt_total_scaled.value() * reserve.borrow_index.value(),
            reserve.debt_total_scaled.value() >= 0,
            reserve.borrow_index.value() >= 0,
    ;
    let u = utilization_rate(av, total_debt(reserve));
    lemma_utilization_at_most_one(av, total_debt(reserve));
    lemma_mul_div_le_left(reserve.borrow_slope.value(), u, f);
    let br = mul_div(reserve.borrow_slope.value(), u, f);
    lemma_mul_div_le_left(br, u, f);
    lemma_u256_of_value(br);
    lemma_u256_of_value(mul_div(br, u, f));
}

/// Law: bringing indices up to date never decreases them, and an update at a time that is
/// not later than the last update changes nothing.
pub proof fn lemma_indices_never_decrease(reserve: Reserve, now: u64)
    ensures
        ({
            let r = reserve_with_updated_indices(reserve, now);
            &&& r.borrow_index.value() >= reserve.borrow_index.value()
                || !market_indices_update_fits(reserve, now)
            &&& r.liquidity_index.value() >= reserve.liquidity_index.value()
                || !market_indices_update_fits(reserve, now)
            &&& now <= reserve.interests_last_updated ==> r == reserve
        }),
{
    if reserve.interests_last_updated < now && market_indices_update_fits(reserve, now) {
        let elapsed = (now - reserve.interests_last_updated) as int;
        lemma_u256_value_range(reserve.borrow_index.atomics);
        lemma_u256_value_range(reserve.borrow_rate.atomics);
        lemma_u256_value_range(reserve.liquidity_index.atomics);
        lemma_u256_value_range(reserve.liquidity_rate.atomics);
        lemma_applied_index_ge(
            reserve.borrow_index.value(),
            reserve.borrow_rate.value(),
            elapsed,
        );
        lemma_applied_index_ge(
            reserve.liquidity_index.value(),
            reserve.liquidity_rate.value(),
            elapsed,
        );
        lemma_applied_index_range(reserve.borrow_index.value(), reserve.borrow_rate.value(), elapsed);
        lemma_applied_index_range(
            reserve.liquidity_index.value(),
            reserve.liquidity_rate.value(),
            elapsed,
        );
        lemma_u256_of_value(
            applied_index(reserve.borrow_index.value(), reserve.borrow_rate.value(), elapsed),
        );
        lemma_u256_of_value(
            applied_index(reserve.liquidity_index.value(), reserve.liquidity_rate.value(), elapsed),
        );
    }
}

/// An index update within bounds yields an index in `[0, 2^256)`.
pub proof fn lemma_applied_index_range(index: int, rate: int, elapsed: int)
    requires
        0 <= index < u256_bound(),
        0 <= rate,
        0 <= elapsed,
        index_update_fits(index, rate, elapsed),
    ensures
        0 <= applied_index(index, rate, elapsed) < u256_bound(),
{
    if rate > 0 {
        let a = accumulated_interest(rate, elapsed);
        assert(rate * elapsed >= 0) by (nonlinear_arith)
            requires
                0 <= rate,
                0 <= elapsed,
        ;
        vstd::arithmetic::div_mod::lemma_div_pos_is_pos(rate * elapsed, SECONDS_PER_YEAR as int);
        assert(index * a >= 0) by (nonlinear_arith)
            requires
                index >= 0,
                a >= 0,
        ;
        vstd::arithmetic::div_mod::lemma_div_is_ordered_by_denominator(index * a, 1, DECIMAL_FRACTIONAL as int);
        vstd::arithmetic::div_mod::lemma_div_by_multiple(index * a, 1);
        assert(index * a * 1 == index * a);
        vstd::arithmetic::div_mod::lemma_div_pos_is_pos(index * a, DECIMAL_FRACTIONAL as int);
    }
}

proof fn lemma_applied_index_ge(index: int, rate: int, elapsed: int)
    requires
        0 <= index,
        0 <= rate,
        0 <= elapsed,
        index_update_fits(index, rate, elapsed),
    ensures
        applied_index(index, rate, elapsed) >= index,
{
    if rate > 0 {
        let f = DECIMAL_FRACTIONAL as int;
        let acc = accumulated_interest(rate, elapsed);
        assert(rate * elapsed >= 0) by (nonlinear_arith)
            requires
                0 <= rate,
                0 <= elapsed,
        ;
        vstd::arithmetic::div_mod::lemma_div_pos_is_pos(rate * elapsed, SECONDS_PER_YEAR as int);
        assert(acc >= f);
        lemma_mul_div_mono(f, acc, index, f);
        assert(f * index == index * f) by (nonlinear_arith);
        assert(acc * index == index * acc) by (nonlinear_arith);
        vstd::arithmetic::div_mod::lemma_div_by_multiple(index, f);
    }
}

} // verus!
