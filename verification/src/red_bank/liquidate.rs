use vstd::prelude::*;

use crate::error::{Action, ContractError};
use crate::math::{
    lemma_mul_div_nonneg, lemma_mul_div_split, lemma_mul_div_words, lemma_u256_canonical, mul_div,
    u256_add, u256_bound, u256_from, u256_is_zero, u256_low, u256_lt, u256_mul_div,
    u256_multiply_ratio, u256_of, u256_sub, lemma_u256_value_range, Decimal256, U256,
    DECIMAL_FRACTIONAL,
};
use crate::red_bank::bits::{bit_is_set, get_bit, lemma_unset_bit_reads, set_bit, unset_bit};
use crate::red_bank::borrow::{first_unknown, lemma_first_unknown_unique};
use crate::red_bank::handlers::{user_with_deposited, zero_amount_error};
use crate::red_bank::interest::{
    interest_rates_update_fits, market_indices_update_fits, reserve_update_interest_rates,
    reserve_update_market_indices, reserve_with_updated_indices, reserve_with_updated_rates,
};
use crate::red_bank::position::{
    all_prices_known, asset_get_price, first_unknown_price, health_factor, health_fits,
    known_price, total_collateral_in_uusd, total_debt_in_uusd, user_get_health_status,
    UserAssetPosition, UserHealthStatus,
};
use crate::red_bank::state::{Debt, Reserve, User};

verus! {

/// Everything a liquidation decision reads: the request, the two reserves, the liquidated
/// user's balances and position, the prices, and the contract's balances of both assets.
#[derive(Debug)]
pub struct LiquidationRequest {
    /// Uncollateralized loan limit of the user in the debt asset
    pub uncollateralized_loan_limit: u128,
    /// Amount of the debt asset sent by the liquidator
    pub sent_debt_amount: u128,
    pub collateral_asset_label: String,
    pub debt_asset_label: String,
    pub collateral_reserve: Reserve,
    pub debt_reserve: Reserve,
    /// The user's maToken balance of the collateral asset (scaled)
    pub user_collateral_ma_balance: u128,
    /// The user's debt in the debt asset
    pub user_debt: Debt,
    /// The liquidated user's record
    pub user: User,
    /// The liquidator's record (a new record when none is stored)
    pub liquidator: User,
    /// The user's positions, collateral weighted by liquidation threshold
    pub positions: Vec<UserAssetPosition>,
    /// uusd prices of the native assets in the positions
    pub asset_prices: Vec<(String, Decimal256)>,
    pub close_factor: Decimal256,
    /// Whether the liquidator takes maTokens rather than the underlying collateral
    pub receive_ma_token: bool,
    /// The contract's balance of the collateral asset
    pub contract_collateral_balance: u128,
    /// The contract's balance of the debt asset
    pub contract_debt_balance: u128,
    pub current_timestamp: u64,
}

/// Outcome of a liquidation.
#[derive(Debug)]
pub struct LiquidationResult {
    pub collateral_reserve: Reserve,
    pub debt_reserve: Reserve,
    /// The user's remaining debt in the debt asset
    pub debt: Debt,
    /// The user's record when the collateral asset is no longer deposited
    pub user: Option<User>,
    /// The liquidator's record when they receive maTokens
    pub liquidator: Option<User>,
    pub collateral_amount_liquidated: U256,
    pub debt_amount_paid: u128,
    pub refund_amount: u128,
}

/// The collateral reserve with its indices up to date.
pub open spec fn liq_collateral_reserve(req: LiquidationRequest) -> Reserve {
    reserve_with_updated_indices(req.collateral_reserve, req.current_timestamp)
}

/// The user's collateral balance in the collateral asset.
pub open spec fn liq_user_collateral(req: LiquidationRequest) -> int {
    mul_div(
        req.user_collateral_ma_balance as int,
        liq_collateral_reserve(req).liquidity_index.value(),
        DECIMAL_FRACTIONAL as int,
    )
}

/// The largest debt a liquidator may repay: the close factor of the user's debt (at the
/// debt reserve's stored borrow index).
pub open spec fn liq_max_debt(req: LiquidationRequest) -> int {
    mul_div(
        mul_div(
            req.user_debt.amount_scaled.value(),
            req.close_factor.value(),
            DECIMAL_FRACTIONAL as int,
        ),
        req.debt_reserve.borrow_index.value(),
        DECIMAL_FRACTIONAL as int,
    )
}

/// The debt the liquidator offers to repay: what was sent, capped at the maximum.
pub open spec fn liq_offered_debt(req: LiquidationRequest) -> int {
    if req.sent_debt_amount > liq_max_debt(req) {
        liq_max_debt(req)
    } else {
        req.sent_debt_amount as int
    }
}

/// Liquidation bonus factor `1 + bonus` in decimal atomics.
pub open spec fn liq_bonus_factor(req: LiquidationRequest) -> int {
    DECIMAL_FRACTIONAL + req.collateral_reserve.liquidation_bonus.value()
}

/// Collateral bought by `debt` of the debt asset: `debt * debt_price * (1 + bonus) /
/// collateral_price`, in the contract's rounded steps.
pub open spec fn liq_collateral_for_debt(req: LiquidationRequest, debt: int, cp: int, dp: int) -> int {
    mul_div(
        mul_div(mul_div(debt, dp, DECIMAL_FRACTIONAL as int), liq_bonus_factor(req), DECIMAL_FRACTIONAL as int),
        DECIMAL_FRACTIONAL as int,
        cp,
    )
}

/// Debt repaid by `collateral` of the collateral asset: `collateral * collateral_price /
/// debt_price / (1 + bonus)`, in the contract's rounded steps.
pub open spec fn liq_debt_for_collateral(req: LiquidationRequest, collateral: int, cp: int, dp: int) -> int {
    mul_div(
        mul_div(mul_div(collateral, cp, DECIMAL_FRACTIONAL as int), DECIMAL_FRACTIONAL as int, dp),
        DECIMAL_FRACTIONAL as int,
        liq_bonus_factor(req),
    )
}

/// Collateral liquidated and debt repaid: when the offered debt buys more collateral than
/// the user holds, all of the user's collateral is taken for a correspondingly smaller debt.
pub open spec fn liq_amounts(req: LiquidationRequest, cp: int, dp: int) -> (int, int) {
    let c0 = liq_collateral_for_debt(req, liq_offered_debt(req), cp, dp);
    if c0 > liq_user_collateral(req) {
        (liq_user_collateral(req), liq_debt_for_collateral(req, liq_user_collateral(req), cp, dp))
    } else {
        (c0, liq_offered_debt(req))
    }
}

/// Whether the user may be liquidated (`None`), or the error that prevents it.
pub open spec fn liq_eligibility(req: LiquidationRequest) -> Option<ContractError> {
    let ps = req.positions@;
    let prices = req.asset_prices@;
    if req.uncollateralized_loan_limit > 0 {
        Some(ContractError::LiquidationUncollateralizedUser)
    } else if req.sent_debt_amount == 0 {
        Some(zero_amount_error(Action::Liquidate, req.debt_asset_label))
    } else if liq_user_collateral(req) == 0 {
        Some(ContractError::LiquidationNoCollateralBalance)
    } else if req.user_debt.amount_scaled.value() == 0 {
        Some(ContractError::LiquidationNoDebtInAsset)
    } else if !all_prices_known(ps, prices) {
        Some(ContractError::PriceNotFound { asset: ps[first_unknown(ps, prices)].asset_label })
    } else if total_debt_in_uusd(ps, prices) == 0 {
        Some(ContractError::LiquidationNotBorrowing)
    } else if health_factor(total_collateral_in_uusd(ps, prices), total_debt_in_uusd(ps, prices))
        >= DECIMAL_FRACTIONAL {
        Some(ContractError::LiquidationHealthy)
    } else if known_price(req.collateral_asset_label@, req.collateral_reserve.asset_type, prices) is None {
        Some(ContractError::PriceNotFound { asset: req.collateral_asset_label })
    } else if known_price(req.debt_asset_label@, req.debt_reserve.asset_type, prices) is None {
        Some(ContractError::PriceNotFound { asset: req.debt_asset_label })
    } else {
        None
    }
}

/// Collateral price of an eligible liquidation.
pub open spec fn liq_cp(req: LiquidationRequest) -> int {
    known_price(req.collateral_asset_label@, req.collateral_reserve.asset_type, req.asset_prices@)->Some_0.value()
}

/// Debt price of an eligible liquidation.
pub open spec fn liq_dp(req: LiquidationRequest) -> int {
    known_price(req.debt_asset_label@, req.debt_reserve.asset_type, req.asset_prices@)->Some_0.value()
}

/// The debt reserve with its indices up to date.
pub open spec fn liq_debt_indexed(req: LiquidationRequest) -> Reserve {
    reserve_with_updated_indices(req.debt_reserve, req.current_timestamp)
}

/// Scaled debt burnt for the repaid amount.
pub open spec fn liq_burn(req: LiquidationRequest) -> int {
    mul_div(
        liq_amounts(req, liq_cp(req), liq_dp(req)).1,
        DECIMAL_FRACTIONAL as int,
        liq_debt_indexed(req).borrow_index.value(),
    )
}

/// The debt reserve before its rates are recomputed.
pub open spec fn liq_debt_reserve_before_rates(req: LiquidationRequest) -> Reserve {
    Reserve {
        debt_total_scaled: u256_of(liq_debt_indexed(req).debt_total_scaled.value() - liq_burn(req)),
        ..liq_debt_indexed(req)
    }
}

/// Outcome of a liquidation, as `handle_liquidate` decides it.
pub open spec fn liquidation_outcome(req: LiquidationRequest) -> Result<
    LiquidationResult,
    ContractError,
> {
    let coll = liq_collateral_reserve(req);
    let (c, d) = liq_amounts(req, liq_cp(req), liq_dp(req));
    let refund = req.sent_debt_amount - d;
    if liq_eligibility(req) is Some {
        Err(liq_eligibility(req)->Some_0)
    } else if !req.receive_ma_token && mul_div(
        req.contract_collateral_balance as int,
        coll.liquidity_index.value(),
        DECIMAL_FRACTIONAL as int,
    ) < c {
        Err(ContractError::LiquidationNotEnoughLiquidity)
    } else if req.contract_debt_balance < refund {
        Err(ContractError::LiquidityTakenExceedsAvailable)
    } else if req.receive_ma_token && coll.index >= 128 {
        Err(ContractError::IndexOutOfRange)
    } else if !req.receive_ma_token && req.contract_collateral_balance < c {
        Err(ContractError::LiquidityTakenExceedsAvailable)
    } else if c == liq_user_collateral(req) && coll.index >= 128 {
        Err(ContractError::IndexOutOfRange)
    } else {
        Ok(
            LiquidationResult {
                collateral_reserve: if req.receive_ma_token {
                    coll
                } else {
                    reserve_with_updated_rates(coll, req.contract_collateral_balance, c as u128)
                },
                debt_reserve: reserve_with_updated_rates(
                    liq_debt_reserve_before_rates(req),
                    req.contract_debt_balance,
                    refund as u128,
                ),
                debt: Debt { amount_scaled: u256_of(req.user_debt.amount_scaled.value() - liq_burn(req)) },
                user: if c == liq_user_collateral(req) {
                    Some(
                        User {
                            deposited_assets: req.user.deposited_assets & !(1u128 << coll.index),
                            ..req.user
                        },
                    )
                } else {
                    None
                },
                liquidator: if req.receive_ma_token {
                    Some(user_with_deposited(req.liquidator, coll.index))
                } else {
                    None
                },
                collateral_amount_liquidated: u256_of(c),
                debt_amount_paid: d as u128,
                refund_amount: refund as u128,
            },
        )
    }
}

/// The computations of an eligible liquidation stay below 2^256, every divisor is non-zero,
/// every subtraction stays non-negative, and the collateral sent back to the liquidator is
/// a 128-bit amount.
pub open spec fn liquidation_amounts_fit(req: LiquidationRequest) -> bool {
    let cp = liq_cp(req);
    let dp = liq_dp(req);
    let coll = liq_collateral_reserve(req);
    let uc = liq_user_collateral(req);
    let (c, d) = liq_amounts(req, cp, dp);
    let c0 = liq_collateral_for_debt(req, liq_offered_debt(req), cp, dp);
    &&& liq_bonus_factor(req) < u256_bound()
    &&& mul_div(liq_offered_debt(req), dp, DECIMAL_FRACTIONAL as int) < u256_bound()
    &&& mul_div(mul_div(liq_offered_debt(req), dp, DECIMAL_FRACTIONAL as int), liq_bonus_factor(req), DECIMAL_FRACTIONAL as int) < u256_bound()
    &&& cp != 0
    &&& c0 < u256_bound()
    &&& !req.receive_ma_token ==> c <= u128::MAX
    &&& !req.receive_ma_token ==> mul_div(
        req.contract_collateral_balance as int,
        coll.liquidity_index.value(),
        DECIMAL_FRACTIONAL as int,
    ) < u256_bound()
    &&& (c0 > uc ==> {
        &&& mul_div(uc, cp, DECIMAL_FRACTIONAL as int) < u256_bound()
        &&& dp != 0
        &&& mul_div(mul_div(uc, cp, DECIMAL_FRACTIONAL as int), DECIMAL_FRACTIONAL as int, dp) < u256_bound()
    })
    &&& market_indices_update_fits(req.debt_reserve, req.current_timestamp)
    &&& liq_debt_indexed(req).borrow_index.value() != 0
    &&& liq_burn(req) <= req.user_debt.amount_scaled.value()
    &&& liq_burn(req) <= liq_debt_indexed(req).debt_total_scaled.value()
    &&& d <= req.sent_debt_amount
    &&& interest_rates_update_fits(liq_debt_reserve_before_rates(req), req.contract_debt_balance, (req.sent_debt_amount - d) as u128)
    &&& (!req.receive_ma_token ==> interest_rates_update_fits(coll, req.contract_collateral_balance, c as u128))
}

/// The computations that a liquidation reaches stay below 2^256 and within their bounds:
/// nothing is computed for a user with an uncollateralized limit or when nothing was sent,
/// and the health factor only for a user with collateral and debt.
pub open spec fn liquidation_fits(req: LiquidationRequest) -> bool {
    req.uncollateralized_loan_limit > 0 || req.sent_debt_amount == 0 || {
        &&& market_indices_update_fits(req.collateral_reserve, req.current_timestamp)
        &&& liq_user_collateral(req) < u256_bound()
        &&& liq_user_collateral(req) != 0 && req.user_debt.amount_scaled.value() != 0 ==> health_fits(
            req.positions@,
            req.asset_prices@,
        )
        &&& liq_health_checked(req) ==> {
            &&& mul_div(req.user_debt.amount_scaled.value(), req.close_factor.value(), DECIMAL_FRACTIONAL as int) < u256_bound()
            &&& liq_max_debt(req) < u256_bound()
        }
        &&& liq_eligibility(req) is None ==> liquidation_amounts_fit(req)
    }
}

/// `(n / m) * m <= n < (n / m + 1) * m` for a non-negative `n` and a positive `m`.
proof fn lemma_floor_bounds(n: int, m: int)
    requires
        n >= 0,
        m > 0,
    ensures
        (n / m) * m <= n,
        n < (n / m + 1) * m,
        n / m >= 0,
{
    vstd::arithmetic::div_mod::lemma_fundamental_div_mod(n, m);
    vstd::arithmetic::div_mod::lemma_mod_bound(n, m);
    vstd::arithmetic::div_mod::lemma_div_pos_is_pos(n, m);
    assert((n / m) * m == m * (n / m)) by (nonlinear_arith);
    assert((n / m + 1) * m == m * (n / m) + m) by (nonlinear_arith);
}

/// When the offered debt would buy more collateral than the user holds, the debt repaid for
/// all of the user's collateral is below the offered debt.
proof fn lemma_capped_debt_below_offer(o: int, dp: int, cp: int, bf: int, c: int)
    requires
        o >= 0,
        dp > 0,
        cp > 0,
        bf > 0,
        c >= 0,
        mul_div(mul_div(mul_div(o, dp, DECIMAL_FRACTIONAL as int), bf, DECIMAL_FRACTIONAL as int),
            DECIMAL_FRACTIONAL as int, cp) > c,
    ensures
        mul_div(mul_div(mul_div(c, cp, DECIMAL_FRACTIONAL as int), DECIMAL_FRACTIONAL as int, dp),
            DECIMAL_FRACTIONAL as int, bf) <= o,
{
    let f = DECIMAL_FRACTIONAL as int;
    assert(o * dp >= 0) by (nonlinear_arith) requires o >= 0, dp > 0;
    lemma_floor_bounds(o * dp, f);
    let y = (o * dp) / f;
    assert(y * bf >= 0) by (nonlinear_arith) requires y >= 0, bf > 0;
    lemma_floor_bounds(y * bf, f);
    let x = (y * bf) / f;
    assert(x * f >= 0) by (nonlinear_arith) requires x >= 0, f > 0;
    lemma_floor_bounds(x * f, cp);
    let c0 = (x * f) / cp;
    assert(c * cp >= 0) by (nonlinear_arith) requires c >= 0, cp > 0;
    lemma_floor_bounds(c * cp, f);
    let a = (c * cp) / f;
    assert(a * f >= 0) by (nonlinear_arith) requires a >= 0, f > 0;
    lemma_floor_bounds(a * f, dp);
    let b = (a * f) / dp;
    assert(b * f >= 0) by (nonlinear_arith) requires b >= 0, f > 0;
    lemma_floor_bounds(b * f, bf);
    let d = (b * f) / bf;
    assert((c + 1) * cp <= c0 * cp) by (nonlinear_arith) requires c0 >= c + 1, cp > 0;
    assert(a * f < y * bf) by (nonlinear_arith)
        requires
            a * f <= c * cp,
            (c + 1) * cp <= c0 * cp,
            c0 * cp <= x * f,
            x * f <= y * bf,
            cp > 0,
    ;
    assert(d * bf * dp < o * dp * bf) by (nonlinear_arith)
        requires
            d * bf <= b * f,
            b * dp <= a * f,
            a * f < y * bf,
            y * f <= o * dp,
            dp > 0,
            bf > 0,
            f > 0,
            d >= 0,
            b >= 0,
    ;
    assert(d < o) by (nonlinear_arith)
        requires
            d * bf * dp < o * dp * bf,
            dp > 0,
            bf > 0,
    ;
}

/// Law: a liquidation never takes more collateral than the user holds, never repays more
/// than the close factor of the user's debt, and the debt it repays plus the refund is
/// exactly what the liquidator sent.
pub proof fn lemma_liquidation_bounds(req: LiquidationRequest)
    requires
        liquidation_fits(req),
        liquidation_outcome(req) is Ok,
    ensures
        liquidation_outcome(req)->Ok_0.collateral_amount_liquidated.value() <= liq_user_collateral(req),
        liquidation_outcome(req)->Ok_0.debt_amount_paid <= liq_max_debt(req),
        liquidation_outcome(req)->Ok_0.debt_amount_paid + liquidation_outcome(req)->Ok_0.refund_amount
            == req.sent_debt_amount,
{
    let (c, d) = liq_amounts(req, liq_cp(req), liq_dp(req));
    assert(c <= liq_user_collateral(req));
    assert(d <= req.sent_debt_amount);
    crate::math::lemma_mul_div_nonneg(
        req.user_collateral_ma_balance as int,
        liq_collateral_reserve(req).liquidity_index.value(),
        DECIMAL_FRACTIONAL as int,
    );
    let cp = liq_cp(req);
    let dp = liq_dp(req);
    let o = liq_offered_debt(req);
    let uc = liq_user_collateral(req);
    let c0 = liq_collateral_for_debt(req, o, cp, dp);
    assert(o >= 0);
    assert(o <= liq_max_debt(req));
    if c0 > uc {
        lemma_capped_debt_below_offer(o, dp, cp, liq_bonus_factor(req), uc);
    }
}

/// Law: a liquidation takes collateral at the listed prices. The debt offered is what the
/// liquidator sent, capped at the close factor of the user's debt; valued at the debt
/// asset's price and raised by the liquidation bonus, it buys collateral at the collateral
/// asset's price (one for uusd and cw20 tokens, else the price listed for it). When that is
/// more than the user holds, all of the user's collateral is taken for the debt it is worth.
pub proof fn lemma_liquidation_prices_collateral(req: LiquidationRequest)
    requires
        liquidation_fits(req),
        liquidation_outcome(req) is Ok,
    ensures
        ({
            let res = liquidation_outcome(req)->Ok_0;
            let f = DECIMAL_FRACTIONAL as int;
            let cp = known_price(
                req.collateral_asset_label@,
                req.collateral_reserve.asset_type,
                req.asset_prices@,
            )->Some_0.value();
            let dp = known_price(
                req.debt_asset_label@,
                req.debt_reserve.asset_type,
                req.asset_prices@,
            )->Some_0.value();
            let bonus = f + req.collateral_reserve.liquidation_bonus.value();
            let max_debt = mul_div(
                mul_div(req.user_debt.amount_scaled.value(), req.close_factor.value(), f),
                req.debt_reserve.borrow_index.value(),
                f,
            );
            let offered = if req.sent_debt_amount > max_debt {
                max_debt
            } else {
                req.sent_debt_amount as int
            };
            let bought = mul_div(mul_div(mul_div(offered, dp, f), bonus, f), f, cp);
            let held = mul_div(
                req.user_collateral_ma_balance as int,
                reserve_with_updated_indices(
                    req.collateral_reserve,
                    req.current_timestamp,
                ).liquidity_index.value(),
                f,
            );
            let debt_index = reserve_with_updated_indices(
                req.debt_reserve,
                req.current_timestamp,
            ).borrow_index.value();
            let index = req.collateral_reserve.index;
            &&& if bought > held {
                &&& res.collateral_amount_liquidated.value() == held
                &&& res.debt_amount_paid == mul_div(mul_div(mul_div(held, cp, f), f, dp), f, bonus)
            } else {
                &&& res.collateral_amount_liquidated.value() == bought
                &&& res.debt_amount_paid == offered
            }
            &&& res.debt_amount_paid + res.refund_amount == req.sent_debt_amount
            &&& res.debt.amount_scaled.value() == req.user_debt.amount_scaled.value()
                - res.debt_amount_paid * f / debt_index
            &&& (res.user is Some) == (res.collateral_amount_liquidated.value() == held)
            &&& res.user matches Some(u) ==> {
                &&& index < 128 && !bit_is_set(u.deposited_assets, index)
                &&& u.borrowed_assets == req.user.borrowed_assets
                &&& forall|i: u32| i < 128 && i != index ==> #[trigger] bit_is_set(
                    u.deposited_assets,
                    i,
                ) == bit_is_set(req.user.deposited_assets, i)
            }
            &&& (res.liquidator is Some) == req.receive_ma_token
        }),
{
    lemma_liquidation_bounds(req);
    let (c, d) = liq_amounts(req, liq_cp(req), liq_dp(req));
    let f = DECIMAL_FRACTIONAL as int;
    let cp = liq_cp(req);
    let dp = liq_dp(req);
    let o = liq_offered_debt(req);
    lemma_u256_value_range(
        known_price(req.collateral_asset_label@, req.collateral_reserve.asset_type, req.asset_prices@)->Some_0.atomics,
    );
    lemma_u256_value_range(
        known_price(req.debt_asset_label@, req.debt_reserve.asset_type, req.asset_prices@)->Some_0.atomics,
    );
    lemma_u256_value_range(req.collateral_reserve.liquidation_bonus.atomics);
    lemma_u256_value_range(req.user_debt.amount_scaled);
    lemma_u256_value_range(req.close_factor.atomics);
    lemma_u256_value_range(req.debt_reserve.borrow_index.atomics);
    lemma_u256_value_range(liq_collateral_reserve(req).liquidity_index.atomics);
    lemma_mul_div_nonneg(req.user_collateral_ma_balance as int, liq_collateral_reserve(req).liquidity_index.value(), f);
    lemma_mul_div_nonneg(req.user_debt.amount_scaled.value(), req.close_factor.value(), f);
    lemma_mul_div_nonneg(
        mul_div(req.user_debt.amount_scaled.value(), req.close_factor.value(), f),
        req.debt_reserve.borrow_index.value(),
        f,
    );
    lemma_mul_div_nonneg(o, dp, f);
    lemma_mul_div_nonneg(mul_div(o, dp, f), liq_bonus_factor(req), f);
    lemma_mul_div_nonneg(mul_div(mul_div(o, dp, f), liq_bonus_factor(req), f), f, cp);
    crate::math::lemma_u256_of_value(c);
    let bi = liq_debt_indexed(req).borrow_index.value();
    lemma_u256_value_range(liq_debt_indexed(req).borrow_index.atomics);
    lemma_mul_div_nonneg(d, f, bi);
    crate::math::lemma_u256_of_value(req.user_debt.amount_scaled.value() - liq_burn(req));
    let index = liq_collateral_reserve(req).index;
    if c == liq_user_collateral(req) {
        lemma_unset_bit_reads(req.user.deposited_assets, index, index);
        assert forall|i: u32| i < 128 && i != index implies #[trigger] bit_is_set(
            req.user.deposited_assets & !(1u128 << index),
            i,
        ) == bit_is_set(req.user.deposited_assets, i) by {
            lemma_unset_bit_reads(req.user.deposited_assets, index, i);
        }
    }
}

/// The checks before the price lookups pass: the user may be liquidated.
pub open spec fn liq_health_checked(req: LiquidationRequest) -> bool {
    let ps = req.positions@;
    let prices = req.asset_prices@;
    &&& req.uncollateralized_loan_limit == 0
    &&& req.sent_debt_amount != 0
    &&& liq_user_collateral(req) != 0
    &&& req.user_debt.amount_scaled.value() != 0
    &&& all_prices_known(ps, prices)
    &&& total_debt_in_uusd(ps, prices) != 0
    &&& health_factor(total_collateral_in_uusd(ps, prices), total_debt_in_uusd(ps, prices))
        < DECIMAL_FRACTIONAL
}

} // verus!

verus! {

/// Decides a liquidation: checks that the user may be liquidated (no uncollateralized
/// limit, a positive amount sent, collateral and debt in the two assets, a health factor
/// below one), caps the repaid debt by the close factor and by the user's collateral,
/// burns the repaid scaled debt, refunds the excess, and updates both reserves and the
/// records of the user and the liquidator.
pub fn handle_liquidate(req: LiquidationRequest) -> (r: Result<LiquidationResult, ContractError>)
    requires
        liquidation_fits(req),
    ensures
        r == liquidation_outcome(req),
{
    let ghost g = req;
    let LiquidationRequest {
        uncollateralized_loan_limit,
        sent_debt_amount,
        collateral_asset_label,
        debt_asset_label,
        collateral_reserve,
        debt_reserve,
        user_collateral_ma_balance,
        user_debt,
        user,
        liquidator,
        positions,
        asset_prices,
        close_factor,
        receive_ma_token,
        contract_collateral_balance,
        contract_debt_balance,
        current_timestamp,
    } = req;
    if uncollateralized_loan_limit > 0 {
        return Err(ContractError::LiquidationUncollateralizedUser);
    }
    if sent_debt_amount == 0 {
        return Err(
            ContractError::InvalidZeroAmount { action: Action::Liquidate, asset: debt_asset_label },
        );
    }
    let mut collateral_reserve = collateral_reserve;
    reserve_update_market_indices(current_timestamp, &mut collateral_reserve);
    let user_collateral_balance = u256_mul_div(
        u256_from(user_collateral_ma_balance),
        collateral_reserve.liquidity_index.atomics,
        u256_from(DECIMAL_FRACTIONAL),
    );
    if u256_is_zero(user_collateral_balance) {
        return Err(ContractError::LiquidationNoCollateralBalance);
    }
    if u256_is_zero(user_debt.amount_scaled) {
        return Err(ContractError::LiquidationNoDebtInAsset);
    }
    let status = user_get_health_status(&positions, &asset_prices);
    let user_health_factor = match status {
        Err(e) => {
            proof {
                let i = choose|i: int|
                    first_unknown_price(positions@, asset_prices@, i) && status == Err::<
                        UserHealthStatus,
                        ContractError,
                    >(ContractError::PriceNotFound { asset: positions@[i].asset_label });
                lemma_first_unknown_unique(positions@, asset_prices@, i);
            }
            return Err(e);
        },
        Ok(UserHealthStatus::NotBorrowing) => {
            return Err(ContractError::LiquidationNotBorrowing);
        },
        Ok(UserHealthStatus::Borrowing(hf)) => hf,
    };
    proof {
        crate::red_bank::position::lemma_totals_nonneg(positions@, asset_prices@);
        assert(all_prices_known(positions@, asset_prices@));
        let td = total_debt_in_uusd(positions@, asset_prices@);
        let tc = total_collateral_in_uusd(positions@, asset_prices@);
        assert(td > 0);
        assert(td * DECIMAL_FRACTIONAL > 0) by (nonlinear_arith)
            requires
                td > 0,
        ;
        crate::math::lemma_mul_div_nonneg(tc, DECIMAL_FRACTIONAL as int, td * DECIMAL_FRACTIONAL);
        assert(user_health_factor.value() == health_factor(tc, td));
    }
    if !u256_lt(user_health_factor, u256_from(DECIMAL_FRACTIONAL)) {
        return Err(ContractError::LiquidationHealthy);
    }
    let max_liquidatable_debt = u256_mul_div(
        u256_mul_div(user_debt.amount_scaled, close_factor.atomics, u256_from(DECIMAL_FRACTIONAL)),
        debt_reserve.borrow_index.atomics,
        u256_from(DECIMAL_FRACTIONAL),
    );
    let offered_debt = if u256_lt(max_liquidatable_debt, u256_from(sent_debt_amount)) {
        u256_low(max_liquidatable_debt)
    } else {
        sent_debt_amount
    };
    let collateral_price = asset_get_price(
        &collateral_asset_label,
        &asset_prices,
        collateral_reserve.asset_type,
    )?;
    let debt_price = asset_get_price(&debt_asset_label, &asset_prices, debt_reserve.asset_type)?;
    let bonus = collateral_reserve.liquidation_bonus.atomics;
    proof {
        lemma_u256_value_range(bonus);
        lemma_u256_value_range(debt_price.atomics);
        lemma_u256_value_range(collateral_price.atomics);
    }
    let bonus_factor = u256_add(u256_from(DECIMAL_FRACTIONAL), bonus);
    let offered_debt_value = u256_mul_div(
        u256_from(offered_debt),
        debt_price.atomics,
        u256_from(DECIMAL_FRACTIONAL),
    );
    proof {
        let v = offered_debt_value.value();
        lemma_mul_div_split(v, 1, bonus.value(), DECIMAL_FRACTIONAL as int);
        lemma_mul_div_nonneg(v, bonus.value(), DECIMAL_FRACTIONAL as int);
        assert(1 * DECIMAL_FRACTIONAL + bonus.value() == bonus_factor.value());
        assert(v * 1 == v);
    }
    let offered_value = u256_add(
        offered_debt_value,
        u256_mul_div(offered_debt_value, bonus, u256_from(DECIMAL_FRACTIONAL)),
    );
    let collateral_for_offer = u256_mul_div(
        offered_value,
        u256_from(DECIMAL_FRACTIONAL),
        collateral_price.atomics,
    );
    let mut actual_collateral_amount_to_liquidate: U256 = u256_from(0);
    let mut actual_debt_amount_to_liquidate: u128 = offered_debt;
    if u256_lt(user_collateral_balance, collateral_for_offer) {
        proof {
            lemma_capped_debt_below_offer(
                offered_debt as int,
                debt_price.value(),
                collateral_price.value(),
                bonus_factor.value(),
                user_collateral_balance.value(),
            );
        }
        actual_collateral_amount_to_liquidate = user_collateral_balance;
        let collateral_value = u256_mul_div(
            user_collateral_balance,
            collateral_price.atomics,
            u256_from(DECIMAL_FRACTIONAL),
        );
        actual_debt_amount_to_liquidate = u256_multiply_ratio(
            u256_mul_div(collateral_value, u256_from(DECIMAL_FRACTIONAL), debt_price.atomics),
            u256_from(DECIMAL_FRACTIONAL),
            bonus_factor,
        );
    } else {
        actual_collateral_amount_to_liquidate = collateral_for_offer;
    }
    assert((actual_collateral_amount_to_liquidate.value(), actual_debt_amount_to_liquidate as int)
        == liq_amounts(g, liq_cp(g), liq_dp(g)));
    if !receive_ma_token {
        let contract_collateral_value = u256_mul_div(
            u256_from(contract_collateral_balance),
            collateral_reserve.liquidity_index.atomics,
            u256_from(DECIMAL_FRACTIONAL),
        );
        if u256_lt(contract_collateral_value, actual_collateral_amount_to_liquidate) {
            return Err(ContractError::LiquidationNotEnoughLiquidity);
        }
    }
    let mut debt_reserve = debt_reserve;
    reserve_update_market_indices(current_timestamp, &mut debt_reserve);
    proof {
        lemma_u256_value_range(debt_reserve.borrow_index.atomics);
        lemma_mul_div_words(
            actual_debt_amount_to_liquidate as int,
            DECIMAL_FRACTIONAL as int,
            debt_reserve.borrow_index.value(),
        );
    }
    let debt_burn_amount = u256_mul_div(
        u256_from(actual_debt_amount_to_liquidate),
        u256_from(DECIMAL_FRACTIONAL),
        debt_reserve.borrow_index.atomics,
    );
    let debt = Debt { amount_scaled: u256_sub(user_debt.amount_scaled, debt_burn_amount) };
    debt_reserve.debt_total_scaled = u256_sub(debt_reserve.debt_total_scaled, debt_burn_amount);
    proof {
        lemma_u256_canonical(debt.amount_scaled);
        lemma_u256_canonical(debt_reserve.debt_total_scaled);
    }
    let refund_amount = sent_debt_amount - actual_debt_amount_to_liquidate;
    reserve_update_interest_rates(&mut debt_reserve, contract_debt_balance, refund_amount)?;
    let liquidator_record = if receive_ma_token {
        let mut liquidator = liquidator;
        let is_using_as_collateral = get_bit(liquidator.deposited_assets, collateral_reserve.index)?;
        if !is_using_as_collateral {
            set_bit(&mut liquidator.deposited_assets, collateral_reserve.index)?;
        } else {
            proof {
                crate::red_bank::bits::lemma_set_then_unset(
                    liquidator.deposited_assets,
                    collateral_reserve.index,
                );
            }
        }
        Some(liquidator)
    } else {
        reserve_update_market_indices(current_timestamp, &mut collateral_reserve);
        reserve_update_interest_rates(
            &mut collateral_reserve,
            contract_collateral_balance,
            u256_low(actual_collateral_amount_to_liquidate),
        )?;
        None
    };
    let user_record = if !u256_lt(actual_collateral_amount_to_liquidate, user_collateral_balance) {
        let mut user = user;
        unset_bit(&mut user.deposited_assets, collateral_reserve.index)?;
        Some(user)
    } else {
        None
    };
    proof {
        lemma_u256_canonical(actual_collateral_amount_to_liquidate);
    }
    Ok(
        LiquidationResult {
            collateral_reserve,
            debt_reserve,
            debt,
            user: user_record,
            liquidator: liquidator_record,
            collateral_amount_liquidated: actual_collateral_amount_to_liquidate,
            debt_amount_paid: actual_debt_amount_to_liquidate,
            refund_amount,
        },
    )
}

} // verus!
