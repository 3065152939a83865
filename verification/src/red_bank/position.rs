use vstd::prelude::*;

use crate::error::ContractError;
use crate::math::{
    decimal256_of, lemma_mul_div_nonneg, lemma_u256_value_range, mul_div, u256_add, u256_bound,
    u256_from, u256_is_zero, u256_mul_div, Decimal256, U256,
    DECIMAL_FRACTIONAL,
};
use crate::red_bank::bits::{bit_is_set, get_bit};
use crate::red_bank::state::{AssetType, Reserve, User};

verus! {

/// A native coin amount, as `cosmwasm_std::Coin`.
#[derive(Debug, Clone, PartialEq, Eq)]
pub struct Coin {
    pub denom: String,
    pub amount: u128,
}

/// Amount of the first coin of denomination `denom` (zero when there is none).
pub open spec fn denom_amount(coins: Seq<Coin>, denom: Seq<char>) -> u128
    decreases coins.len(),
{
    if coins.len() == 0 {
        0
    } else if coins[0].denom@ == denom {
        coins[0].amount
    } else {
        denom_amount(coins.drop_first(), denom)
    }
}

/// Amount of `denom` among the coins sent with a message (zero when none was sent).
pub fn get_denom_amount_from_coins(coins: &Vec<Coin>, denom: &String) -> (r: u128)
    ensures
        r == denom_amount(coins@, denom@),
{
    let mut i: usize = 0;
    assert(coins@.skip(0) =~= coins@);
    while i < coins.len()
        invariant
            i <= coins.len(),
            denom_amount(coins@, denom@) == denom_amount(coins@.skip(i as int), denom@),
        decreases coins.len() - i,
    {
        assert(coins@.skip(i as int).drop_first() =~= coins@.skip(i + 1));
        assert(coins@.skip(i as int)[0] == coins@[i as int]);
        if coins[i].denom == *denom {
            return coins[i].amount;
        }
        i = i + 1;
    }
    0
}

/// Whether an asset label is the stable coin in which prices are quoted.
pub open spec fn is_uusd(label: Seq<char>) -> bool {
    label == "uusd"@
}

/// Decides whether `label` is `"uusd"`.
pub fn label_is_uusd(label: &String) -> (b: bool)
    ensures
        b == is_uusd(label@),
{
    let uusd = "uusd".to_owned();
    *label == uusd
}

/// The first price listed for `label`, if any.
pub open spec fn price_of(prices: Seq<(String, Decimal256)>, label: Seq<char>) -> Option<
    Decimal256,
>
    decreases prices.len(),
{
    if prices.len() == 0 {
        None
    } else if prices[0].0@ == label {
        Some(prices[0].1)
    } else {
        price_of(prices.drop_first(), label)
    }
}

/// Price of an asset in uusd: one for uusd and for cw20 tokens, else the listed price.
pub open spec fn known_price(
    label: Seq<char>,
    asset_type: AssetType,
    prices: Seq<(String, Decimal256)>,
) -> Option<Decimal256> {
    if is_uusd(label) || asset_type == AssetType::Cw20 {
        Some(decimal256_of(DECIMAL_FRACTIONAL as int))
    } else {
        price_of(prices, label)
    }
}

/// Looks up the price of an asset in uusd; a native asset other than uusd without a listed
/// price is an error.
pub fn asset_get_price(
    asset_label: &String,
    asset_prices: &Vec<(String, Decimal256)>,
    asset_type: AssetType,
) -> (r: Result<Decimal256, ContractError>)
    ensures
        match known_price(asset_label@, asset_type, asset_prices@) {
            Some(p) => r == Ok::<Decimal256, ContractError>(p),
            None => r == Err::<Decimal256, ContractError>(
                ContractError::PriceNotFound { asset: *asset_label },
            ),
        },
{
    if label_is_uusd(asset_label) || asset_type == AssetType::Cw20 {
        return Ok(Decimal256::one());
    }
    let mut i: usize = 0;
    assert(asset_prices@.skip(0) =~= asset_prices@);
    while i < asset_prices.len()
        invariant
            i <= asset_prices.len(),
            !is_uusd(asset_label@),
            asset_type != AssetType::Cw20,
            price_of(asset_prices@, asset_label@) == price_of(
                asset_prices@.skip(i as int),
                asset_label@,
            ),
        decreases asset_prices.len() - i,
    {
        assert(asset_prices@.skip(i as int).drop_first() =~= asset_prices@.skip(i + 1));
        if asset_prices[i].0 == *asset_label {
            assert(asset_prices@.skip(i as int)[0] == asset_prices@[i as int]);
            assert(asset_prices@[i as int].0@ == asset_label@);
            assert(price_of(asset_prices@.skip(i as int), asset_label@) == Some(
                asset_prices@[i as int].1,
            ));
            return Ok(asset_prices[i].1);
        }
        i = i + 1;
    }
    Err(ContractError::PriceNotFound { asset: asset_label.clone() })
}

/// Whether the uusd price of a reserve's asset must be queried for a health computation:
/// native assets other than uusd.
pub fn needs_price_query(asset_type: AssetType, asset_label: &String) -> (b: bool)
    ensures
        b == (asset_type == AssetType::Native && !is_uusd(asset_label@)),
{
    asset_type == AssetType::Native && !label_is_uusd(asset_label)
}

/// What a user position counts as collateral: the loan-to-value share (borrow limit) or
/// the liquidation-threshold share (health factor).
#[derive(Debug, Clone, Copy, PartialEq, Eq, Structural)]
pub enum CollateralMeasure {
    LoanToValue,
    LiquidationThreshold,
}

/// One asset of a user's position: debt (in the asset), collateral weighted by the chosen
/// measure (in the asset, as a decimal), and the data needed to price it.
#[derive(Debug, Clone, PartialEq, Eq)]
pub struct UserAssetPosition {
    pub asset_label: String,
    /// Debt in the asset
    pub debt: U256,
    /// Weighted collateral in the asset, in decimal atomics
    pub target_collateral: U256,
    pub asset_type: AssetType,
}

/// Which of reserve `index` a user deposits as collateral and borrows.
pub fn user_reserve_flags(user: &User, index: u32) -> (r: Result<(bool, bool), ContractError>)
    ensures
        index >= 128 ==> r == Err::<(bool, bool), ContractError>(ContractError::IndexOutOfRange),
        index < 128 ==> r == Ok::<(bool, bool), ContractError>(
            (
                bit_is_set(user.deposited_assets, index),
                bit_is_set(user.borrowed_assets, index),
            ),
        ),
{
    let deposited = get_bit(user.deposited_assets, index)?;
    let borrowed = get_bit(user.borrowed_assets, index)?;
    Ok((deposited, borrowed))
}

/// The weight of a collateral measure in `reserve`.
pub open spec fn measure_weight(reserve: Reserve, measure: CollateralMeasure) -> int {
    match measure {
        CollateralMeasure::LoanToValue => reserve.loan_to_value.value(),
        CollateralMeasure::LiquidationThreshold => reserve.liquidation_threshold.value(),
    }
}

/// Weighted collateral in decimal atomics of a maToken balance of `reserve`.
pub open spec fn weighted_collateral(
    reserve: Reserve,
    ma_token_balance: int,
    measure: CollateralMeasure,
) -> int {
    mul_div(
        ma_token_balance * reserve.liquidity_index.value(),
        measure_weight(reserve, measure) as int,
        DECIMAL_FRACTIONAL as int,
    )
}

/// The products of one user position stay below 2^256: the balance as a decimal times the
/// liquidity index, that collateral times its weight, and the unscaled debt.
pub open spec fn position_fits(
    reserve: Reserve,
    ma_token_balance: Option<u128>,
    debt_scaled: Option<U256>,
    measure: CollateralMeasure,
) -> bool {
    &&& ma_token_balance matches Some(b) ==> {
        &&& b * DECIMAL_FRACTIONAL * reserve.liquidity_index.value() < u256_bound()
        &&& b * reserve.liquidity_index.value() * measure_weight(reserve, measure) < u256_bound()
    }
    &&& debt_scaled matches Some(d) ==> mul_div(
        d.value(),
        reserve.borrow_index.value(),
        DECIMAL_FRACTIONAL as int,
    ) < u256_bound()
}

/// Builds one entry of a user's position in `reserve`: the maToken balance is given when
/// the user deposits the asset as collateral, the scaled debt when the user borrows it.
pub fn user_asset_position(
    reserve: &Reserve,
    asset_label: String,
    ma_token_balance: Option<u128>,
    debt_scaled: Option<U256>,
    measure: CollateralMeasure,
) -> (p: UserAssetPosition)
    requires
        position_fits(*reserve, ma_token_balance, debt_scaled, measure),
    ensures
        p.asset_label == asset_label,
        p.asset_type == reserve.asset_type,
        p.target_collateral.value() == match ma_token_balance {
            Some(b) => weighted_collateral(*reserve, b as int, measure),
            None => 0,
        },
        p.debt.value() == match debt_scaled {
            Some(d) => mul_div(d.value(), reserve.borrow_index.value(), DECIMAL_FRACTIONAL as int),
            None => 0,
        },
{
    let f = DECIMAL_FRACTIONAL;
    let target_collateral = match ma_token_balance {
        Some(balance) => {
            let weight = match measure {
                CollateralMeasure::LoanToValue => reserve.loan_to_value,
                CollateralMeasure::LiquidationThreshold => reserve.liquidation_threshold,
            };
            proof {
                let li = reserve.liquidity_index.value();
                let w = weight.value();
                lemma_u256_value_range(reserve.liquidity_index.atomics);
                lemma_u256_value_range(weight.atomics);
                let x = balance * li;
                assert(x >= 0 && x * 1 == x && x <= balance * f * li) by (nonlinear_arith)
                    requires
                        x == balance * li,
                        li >= 0,
                        f >= 1,
                ;
                vstd::arithmetic::div_mod::lemma_div_by_multiple(x, 1);
                assert(x * w >= 0) by (nonlinear_arith)
                    requires
                        x >= 0,
                        w >= 0,
                ;
                vstd::arithmetic::div_mod::lemma_div_is_ordered(x * w, u256_bound() - 1, f as int);
                vstd::arithmetic::div_mod::lemma_div_is_ordered_by_denominator(
                    u256_bound() - 1,
                    1,
                    f as int,
                );
            }
            let collateral = u256_mul_div(
                u256_from(balance),
                reserve.liquidity_index.atomics,
                u256_from(1),
            );
            u256_mul_div(collateral, weight.atomics, u256_from(f))
        },
        None => u256_from(0),
    };
    let debt = match debt_scaled {
        Some(d) => u256_mul_div(d, reserve.borrow_index.atomics, u256_from(f)),
        None => u256_from(0),
    };
    UserAssetPosition { asset_label, debt, target_collateral, asset_type: reserve.asset_type }
}

/// Debt of one position in uusd (zero when its price is unknown).
pub open spec fn debt_in_uusd(p: UserAssetPosition, prices: Seq<(String, Decimal256)>) -> int {
    match known_price(p.asset_label@, p.asset_type, prices) {
        Some(price) => mul_div(p.debt.value(), price.value(), DECIMAL_FRACTIONAL as int),
        None => 0,
    }
}

/// Weighted collateral of one position in uusd, in decimal atomics (zero when its price is
/// unknown).
pub open spec fn collateral_in_uusd(p: UserAssetPosition, prices: Seq<(String, Decimal256)>) -> int {
    match known_price(p.asset_label@, p.asset_type, prices) {
        Some(price) => mul_div(
            p.target_collateral.value(),
            price.value(),
            DECIMAL_FRACTIONAL as int,
        ),
        None => 0,
    }
}

/// Total debt in uusd of a list of positions.
pub open spec fn total_debt_in_uusd(ps: Seq<UserAssetPosition>, prices: Seq<(String, Decimal256)>) -> int
    decreases ps.len(),
{
    if ps.len() == 0 {
        0
    } else {
        total_debt_in_uusd(ps.drop_last(), prices) + debt_in_uusd(ps.last(), prices)
    }
}

/// Total weighted collateral in uusd (decimal atomics) of a list of positions.
pub open spec fn total_collateral_in_uusd(
    ps: Seq<UserAssetPosition>,
    prices: Seq<(String, Decimal256)>,
) -> int
    decreases ps.len(),
{
    if ps.len() == 0 {
        0
    } else {
        total_collateral_in_uusd(ps.drop_last(), prices) + collateral_in_uusd(ps.last(), prices)
    }
}

/// Every position has a known price.
pub open spec fn all_prices_known(ps: Seq<UserAssetPosition>, prices: Seq<(String, Decimal256)>) -> bool {
    forall|i: int|
        0 <= i < ps.len() ==> known_price(ps[i].asset_label@, ps[i].asset_type, prices) is Some
}

/// `i` is the first position whose price is unknown.
pub open spec fn first_unknown_price(
    ps: Seq<UserAssetPosition>,
    prices: Seq<(String, Decimal256)>,
    i: int,
) -> bool {
    &&& 0 <= i < ps.len()
    &&& known_price(ps[i].asset_label@, ps[i].asset_type, prices) is None
    &&& forall|j: int|
        0 <= j < i ==> known_price(ps[j].asset_label@, ps[j].asset_type, prices) is Some
}

/// The uusd totals of a list of positions stay below 2^256, and so does each product of a
/// position's debt or collateral with its price.
pub open spec fn totals_fit(ps: Seq<UserAssetPosition>, prices: Seq<(String, Decimal256)>) -> bool {
    &&& forall|i: int|
        0 <= i < ps.len() ==> (#[trigger] known_price(ps[i].asset_label@, ps[i].asset_type, prices)
            matches Some(price) ==> ps[i].debt.value() * price.value() < u256_bound()
            && ps[i].target_collateral.value() * price.value() < u256_bound())
    &&& total_debt_in_uusd(ps, prices) < u256_bound()
    &&& total_collateral_in_uusd(ps, prices) < u256_bound()
}

proof fn lemma_totals_prefix(
    ps: Seq<UserAssetPosition>,
    prices: Seq<(String, Decimal256)>,
    i: int,
)
    requires
        0 <= i <= ps.len(),
    ensures
        0 <= total_debt_in_uusd(ps.take(i), prices) <= total_debt_in_uusd(ps, prices),
        0 <= total_collateral_in_uusd(ps.take(i), prices) <= total_collateral_in_uusd(ps, prices),
    decreases ps.len(),
{
    if ps.len() == 0 {
        assert(ps.take(i) =~= ps);
    } else if i == ps.len() {
        assert(ps.take(i) =~= ps);
        lemma_totals_prefix(ps.drop_last(), prices, i - 1);
        lemma_position_terms_nonneg(ps.last(), prices);
    } else {
        lemma_totals_prefix(ps.drop_last(), prices, i);
        assert(ps.drop_last().take(i) =~= ps.take(i));
        lemma_position_terms_nonneg(ps.last(), prices);
    }
}

/// Both uusd totals of a list of positions are non-negative.
pub proof fn lemma_totals_nonneg(ps: Seq<UserAssetPosition>, prices: Seq<(String, Decimal256)>)
    ensures
        total_debt_in_uusd(ps, prices) >= 0,
        total_collateral_in_uusd(ps, prices) >= 0,
{
    lemma_totals_prefix(ps, prices, ps.len() as int);
    assert(ps.take(ps.len() as int) =~= ps);
}

proof fn lemma_position_terms_nonneg(p: UserAssetPosition, prices: Seq<(String, Decimal256)>)
    ensures
        debt_in_uusd(p, prices) >= 0,
        collateral_in_uusd(p, prices) >= 0,
{
    if let Some(price) = known_price(p.asset_label@, p.asset_type, prices) {
        lemma_u256_value_range(p.debt);
        lemma_u256_value_range(p.target_collateral);
        lemma_mul_div_nonneg(p.debt.value(), price.value(), DECIMAL_FRACTIONAL as int);
        lemma_mul_div_nonneg(
            p.target_collateral.value(),
            price.value(),
            DECIMAL_FRACTIONAL as int,
        );
    }
}

/// Sums the debt (in uusd) and the weighted collateral (in uusd, as decimal atomics) of a
/// user's positions, pricing each asset; fails on the first asset without a price.
pub fn sum_positions_in_uusd(
    positions: &Vec<UserAssetPosition>,
    asset_prices: &Vec<(String, Decimal256)>,
) -> (r: Result<(U256, U256), ContractError>)
    requires
        totals_fit(positions@, asset_prices@),
    ensures
        all_prices_known(positions@, asset_prices@) ==> (r matches Ok((d, c)) && d.value()
            == total_debt_in_uusd(positions@, asset_prices@) && c.value() == total_collateral_in_uusd(
            positions@,
            asset_prices@,
        )),
        !all_prices_known(positions@, asset_prices@) ==> exists|i: int|
            first_unknown_price(positions@, asset_prices@, i) && r == Err::<
                (U256, U256),
                ContractError,
            >(ContractError::PriceNotFound { asset: positions@[i].asset_label }),
{
    let f = DECIMAL_FRACTIONAL;
    let mut total_debt = u256_from(0);
    let mut total_collateral = u256_from(0);
    let mut i: usize = 0;
    while i < positions.len()
        invariant
            i <= positions.len(),
            f == DECIMAL_FRACTIONAL,
            totals_fit(positions@, asset_prices@),
            total_debt.value() == total_debt_in_uusd(positions@.take(i as int), asset_prices@),
            total_collateral.value() == total_collateral_in_uusd(
                positions@.take(i as int),
                asset_prices@,
            ),
            forall|j: int|
                0 <= j < i ==> known_price(
                    positions@[j].asset_label@,
                    positions@[j].asset_type,
                    asset_prices@,
                ) is Some,
        decreases positions.len() - i,
    {
        let p = &positions[i];
        let price = match asset_get_price(&p.asset_label, asset_prices, p.asset_type) {
            Ok(price) => price,
            Err(e) => {
                assert(first_unknown_price(positions@, asset_prices@, i as int));
                return Err(e);
            },
        };
        proof {
            assert(positions@.take(i + 1).drop_last() =~= positions@.take(i as int));
            assert(positions@.take(i + 1).last() == positions@[i as int]);
            lemma_totals_prefix(positions@, asset_prices@, i + 1);
            lemma_position_terms_nonneg(positions@[i as int], asset_prices@);
            assert(known_price(positions@[i as int].asset_label@, positions@[i as int].asset_type, asset_prices@) == Some(price));
            lemma_u256_value_range(p.debt);
            lemma_u256_value_range(p.target_collateral);
            lemma_ratio_below_bound(p.debt.value(), price.value());
            lemma_ratio_below_bound(p.target_collateral.value(), price.value());
        }
        let debt_value = u256_mul_div(p.debt, price.atomics, u256_from(f));
        let collateral_value = u256_mul_div(p.target_collateral, price.atomics, u256_from(f));
        total_debt = u256_add(total_debt, debt_value);
        total_collateral = u256_add(total_collateral, collateral_value);
        i = i + 1;
    }
    assert(positions@.take(positions.len() as int) =~= positions@);
    Ok((total_debt, total_collateral))
}

/// A product below 2^256 divided by 10^18 stays below 2^256.
proof fn lemma_ratio_below_bound(a: int, b: int)
    requires
        a >= 0,
        b >= 0,
        a * b < u256_bound(),
    ensures
        0 <= mul_div(a, b, DECIMAL_FRACTIONAL as int) < u256_bound(),
{
    assert(a * b >= 0) by (nonlinear_arith)
        requires
            a >= 0,
            b >= 0,
    ;
    vstd::arithmetic::div_mod::lemma_div_is_ordered(a * b, u256_bound() - 1, DECIMAL_FRACTIONAL as int);
    vstd::arithmetic::div_mod::lemma_div_is_ordered_by_denominator(
        u256_bound() - 1,
        1,
        DECIMAL_FRACTIONAL as int,
    );
    lemma_mul_div_nonneg(a, b, DECIMAL_FRACTIONAL as int);
}

/// Whether a user borrows, and if so their health factor (in decimal atomics).
#[derive(Debug, Clone, Copy, PartialEq, Eq, Structural)]
pub enum UserHealthStatus {
    NotBorrowing,
    Borrowing(U256),
}

/// Health factor (decimal atomics) of positions with total debt `debt` and weighted
/// collateral `collateral` (decimal atomics), both in uusd.
pub open spec fn health_factor(collateral: int, debt: int) -> int {
    mul_div(collateral, DECIMAL_FRACTIONAL as int, debt * DECIMAL_FRACTIONAL)
}

/// The health computation of a list of positions stays below 2^256: the totals, the debt
/// as a decimal, and the collateral times 10^18 in the division.
pub open spec fn health_fits(ps: Seq<UserAssetPosition>, prices: Seq<(String, Decimal256)>) -> bool {
    &&& totals_fit(ps, prices)
    &&& total_debt_in_uusd(ps, prices) * DECIMAL_FRACTIONAL < u256_bound()
    &&& total_debt_in_uusd(ps, prices) > 0 ==> total_collateral_in_uusd(ps, prices)
        * DECIMAL_FRACTIONAL < u256_bound()
}

/// Computes a user's health status from their positions (weighted by liquidation
/// threshold) and the asset prices: not borrowing when the total debt is zero, else the
/// health factor `weighted collateral / debt`.
pub fn user_get_health_status(
    positions: &Vec<UserAssetPosition>,
    asset_prices: &Vec<(String, Decimal256)>,
) -> (r: Result<UserHealthStatus, ContractError>)
    requires
        health_fits(positions@, asset_prices@),
    ensures
        all_prices_known(positions@, asset_prices@) && total_debt_in_uusd(positions@, asset_prices@)
            == 0 ==> r == Ok::<UserHealthStatus, ContractError>(UserHealthStatus::NotBorrowing),
        all_prices_known(positions@, asset_prices@) && total_debt_in_uusd(positions@, asset_prices@)
            != 0 ==> (r matches Ok(UserHealthStatus::Borrowing(hf)) && hf.value() == health_factor(
            total_collateral_in_uusd(positions@, asset_prices@),
            total_debt_in_uusd(positions@, asset_prices@),
        )),
        !all_prices_known(positions@, asset_prices@) ==> exists|i: int|
            first_unknown_price(positions@, asset_prices@, i) && r == Err::<
                UserHealthStatus,
                ContractError,
            >(ContractError::PriceNotFound { asset: positions@[i].asset_label }),
{
    let sums = sum_positions_in_uusd(positions, asset_prices);
    let (total_debt, total_collateral) = match sums {
        Ok(t) => t,
        Err(e) => return Err(e),
    };
    assert(all_prices_known(positions@, asset_prices@));
    proof {
        lemma_totals_nonneg(positions@, asset_prices@);
        assert(total_debt.value() * DECIMAL_FRACTIONAL * 1 == total_debt.value() * DECIMAL_FRACTIONAL);
        vstd::arithmetic::div_mod::lemma_div_by_multiple(total_debt.value() * DECIMAL_FRACTIONAL, 1);
    }
    let total_debt_in_uusd = u256_mul_div(total_debt, u256_from(DECIMAL_FRACTIONAL), u256_from(1));
    if u256_is_zero(total_debt_in_uusd) {
        assert(total_debt.value() == 0) by (nonlinear_arith)
            requires
                total_debt.value() * DECIMAL_FRACTIONAL == 0,
                DECIMAL_FRACTIONAL > 0,
        ;
        return Ok(UserHealthStatus::NotBorrowing);
    }
    proof {
        let c = total_collateral.value();
        let d = total_debt.value();
        assert(d > 0);
        assert(d * DECIMAL_FRACTIONAL >= 1) by (nonlinear_arith)
            requires
                d > 0,
        ;
        assert(c * DECIMAL_FRACTIONAL >= 0) by (nonlinear_arith)
            requires
                c >= 0,
        ;
        vstd::arithmetic::div_mod::lemma_div_is_ordered_by_denominator(
            c * DECIMAL_FRACTIONAL,
            1,
            d * DECIMAL_FRACTIONAL,
        );
        vstd::arithmetic::div_mod::lemma_div_by_multiple(c * DECIMAL_FRACTIONAL, 1);
    }
    Ok(
        UserHealthStatus::Borrowing(
            u256_mul_div(total_collateral, u256_from(DECIMAL_FRACTIONAL), total_debt_in_uusd),
        ),
    )
}

} // verus!
