//! Oracle price sources: fixed prices, native exchange rates, Astroport spot prices,
//! time-weighted average prices from cumulative price snapshots, and liquidity tokens.

use vstd::prelude::*;

use crate::error::{is_generic_err, ContractError};
use crate::math::{mul_div, Decimal, DECIMAL_FRACTIONAL};

verus! {

/// An asset of the protocol: a native coin or a cw20 token.
#[derive(Debug, Clone, PartialEq, Eq)]
pub enum Asset {
    Cw20 { contract_addr: String },
    Native { denom: String },
}

/// An asset as an Astroport pair describes it.
#[derive(Debug, Clone, PartialEq, Eq)]
pub enum AssetInfo {
    Token { contract_addr: String },
    NativeToken { denom: String },
}

/// The uusd stable coin as an Astroport asset.
pub fn ust() -> (a: AssetInfo)
    ensures
        a matches AssetInfo::NativeToken { denom } && denom@ == "uusd"@,
{
    AssetInfo::NativeToken { denom: "uusd".to_owned() }
}

/// A copy of an Astroport asset.
pub fn copy_info(info: &AssetInfo) -> (r: AssetInfo)
    ensures
        r == *info,
{
    match info {
        AssetInfo::Token { contract_addr } => AssetInfo::Token { contract_addr: contract_addr.clone() },
        AssetInfo::NativeToken { denom } => AssetInfo::NativeToken { denom: denom.clone() },
    }
}

/// The protocol asset that an Astroport asset stands for.
pub open spec fn asset_of(info: AssetInfo) -> Asset {
    match info {
        AssetInfo::Token { contract_addr } => Asset::Cw20 { contract_addr },
        AssetInfo::NativeToken { denom } => Asset::Native { denom },
    }
}

/// Converts an Astroport asset into a protocol asset.
pub fn asset_from_info(info: &AssetInfo) -> (a: Asset)
    ensures
        a == asset_of(*info),
{
    match info {
        AssetInfo::Token { contract_addr } => Asset::Cw20 { contract_addr: contract_addr.clone() },
        AssetInfo::NativeToken { denom } => Asset::Native { denom: denom.clone() },
    }
}

/// Two assets are the same asset.
pub open spec fn same_asset(a: Asset, b: Asset) -> bool {
    match (a, b) {
        (Asset::Cw20 { contract_addr: x }, Asset::Cw20 { contract_addr: y }) => x@ == y@,
        (Asset::Native { denom: x }, Asset::Native { denom: y }) => x@ == y@,
        _ => false,
    }
}

/// Decides whether two assets are the same asset.
pub fn asset_eq(a: &Asset, b: &Asset) -> (r: bool)
    ensures
        r == same_asset(*a, *b),
{
    match (a, b) {
        (Asset::Cw20 { contract_addr: x }, Asset::Cw20 { contract_addr: y }) => *x == *y,
        (Asset::Native { denom: x }, Asset::Native { denom: y }) => *x == *y,
        _ => false,
    }
}

/// Whether an Astroport asset is uusd.
pub open spec fn is_ust(info: AssetInfo) -> bool {
    info matches AssetInfo::NativeToken { denom } && denom@ == "uusd"@
}

/// Decides whether an Astroport asset is uusd.
pub fn info_is_ust(info: &AssetInfo) -> (r: bool)
    ensures
        r == is_ust(*info),
{
    match info {
        AssetInfo::NativeToken { denom } => {
            let u = "uusd".to_owned();
            *denom == u
        },
        AssetInfo::Token { .. } => false,
    }
}

/// Checks that the pair of assets `asset0`, `asset1` consists of uusd and `asset`.
pub fn assert_astroport_pool_assets(
    asset0: &AssetInfo,
    asset1: &AssetInfo,
    asset: &Asset,
) -> (r: Result<(), ContractError>)
    ensures
        r is Ok <==> (is_ust(*asset0) && same_asset(asset_of(*asset1), *asset)) || (is_ust(*asset1)
            && same_asset(asset_of(*asset0), *asset)),
        r is Err ==> r->Err_0 == ContractError::InvalidPair,
{
    let a0 = asset_from_info(asset0);
    let a1 = asset_from_info(asset1);
    let u = asset_from_info(&ust());
    proof {
        reveal_strlit("uusd");
    }
    if (asset_eq(&a0, &u) && asset_eq(&a1, asset)) || (asset_eq(&a1, &u) && asset_eq(&a0, asset)) {
        Ok(())
    } else {
        Err(ContractError::InvalidPair)
    }
}

/// The asset offered when probing a pair for its spot price: the one that is not uusd.
pub fn spot_offer_asset(asset0: &AssetInfo, asset1: &AssetInfo) -> (r: AssetInfo)
    ensures
        is_ust(*asset0) ==> r == *asset1,
        !is_ust(*asset0) ==> r == *asset0,
{
    if info_is_ust(asset0) {
        copy_info(asset1)
    } else {
        copy_info(asset0)
    }
}

/// Offer amount used to probe a pair's spot price.
pub const PROBE_AMOUNT: u128 = 1_000_000u128;

/// Spot price from a swap simulation of `PROBE_AMOUNT`: `(return + commission) / PROBE_AMOUNT`.
pub fn spot_price(return_amount: u128, commission_amount: u128) -> (r: Decimal)
    requires
        return_amount + commission_amount <= u128::MAX,
        mul_div(
            (return_amount + commission_amount) as int,
            DECIMAL_FRACTIONAL as int,
            PROBE_AMOUNT as int,
        ) <= u128::MAX,
    ensures
        r.atomics == mul_div(
            (return_amount + commission_amount) as int,
            DECIMAL_FRACTIONAL as int,
            PROBE_AMOUNT as int,
        ),
{
    Decimal::from_ratio(return_amount + commission_amount, PROBE_AMOUNT)
}

/// The cumulative price of the pair's asset that is not uusd.
pub fn select_price_cumulative(
    asset0: &AssetInfo,
    price0_cumulative_last: u128,
    price1_cumulative_last: u128,
) -> (r: u128)
    ensures
        is_ust(*asset0) ==> r == price1_cumulative_last,
        !is_ust(*asset0) ==> r == price0_cumulative_last,
{
    if info_is_ust(asset0) {
        price1_cumulative_last
    } else {
        price0_cumulative_last
    }
}

/// `|a - b|`.
pub open spec fn spec_diff(a: u64, b: u64) -> u64 {
    if a > b {
        (a - b) as u64
    } else {
        (b - a) as u64
    }
}

/// Absolute difference of two timestamps.
pub fn diff(a: u64, b: u64) -> (r: u64)
    ensures
        r == spec_diff(a, b),
{
    if a > b {
        a - b
    } else {
        b - a
    }
}

/// A cumulative price observed at a time.
#[derive(Debug, Clone, Copy, PartialEq, Eq, Structural)]
pub struct AstroportTwapSnapshot {
    pub timestamp: u64,
    pub price_cumulative: u128,
}

/// How far the period between two snapshots is from the desired window size.
pub open spec fn spec_period_diff(
    s1: AstroportTwapSnapshot,
    s2: AstroportTwapSnapshot,
    window_size: u64,
) -> u64 {
    spec_diff(spec_diff(s1.timestamp, s2.timestamp), window_size)
}

/// Computes how far the period between two snapshots deviates from the window size.
pub fn period_diff(
    snapshot1: &AstroportTwapSnapshot,
    snapshot2: &AstroportTwapSnapshot,
    window_size: u64,
) -> (r: u64)
    ensures
        r == spec_period_diff(*snapshot1, *snapshot2, window_size),
{
    diff(diff(snapshot1.timestamp, snapshot2.timestamp), window_size)
}

/// Law: the difference is symmetric and zero exactly for equal arguments.
pub proof fn lemma_diff_symmetric(a: u64, b: u64)
    ensures
        spec_diff(a, b) == spec_diff(b, a),
        (spec_diff(a, b) == 0) == (a == b),
{
}

/// Snapshots kept when a new one is recorded at `timestamp`: those at most
/// `window_size + tolerance` seconds old.
pub open spec fn kept_snapshots(
    snapshots: Seq<AstroportTwapSnapshot>,
    timestamp: u64,
    horizon: int,
) -> Seq<AstroportTwapSnapshot> {
    snapshots.filter(|s: AstroportTwapSnapshot| timestamp - s.timestamp <= horizon)
}

/// All snapshots were taken at or before `timestamp`.
pub open spec fn snapshots_not_after(snapshots: Seq<AstroportTwapSnapshot>, timestamp: u64) -> bool {
    forall|i: int| 0 <= i < snapshots.len() ==> snapshots[i].timestamp <= timestamp
}

/// The snapshots are in the order of their timestamps.
pub open spec fn snapshots_sorted(snapshots: Seq<AstroportTwapSnapshot>) -> bool {
    forall|i: int, j: int| 0 <= i < j < snapshots.len() ==> #[trigger] snapshots[i].timestamp
        <= #[trigger] snapshots[j].timestamp
}

/// Every kept snapshot is at most `horizon` seconds old, comes from the given ones, and is
/// taken no earlier than the kept ones before it.
proof fn lemma_kept_snapshots(snapshots: Seq<AstroportTwapSnapshot>, timestamp: u64, horizon: int)
    requires
        snapshots_sorted(snapshots),
    ensures
        snapshots_sorted(kept_snapshots(snapshots, timestamp, horizon)),
        forall|k: int| 0 <= k < kept_snapshots(snapshots, timestamp, horizon).len() ==> timestamp
            - #[trigger] kept_snapshots(snapshots, timestamp, horizon)[k].timestamp <= horizon,
        forall|k: int| 0 <= k < kept_snapshots(snapshots, timestamp, horizon).len() ==> exists|i: int|
            0 <= i < snapshots.len() && #[trigger] kept_snapshots(snapshots, timestamp, horizon)[k]
                == snapshots[i],
    decreases snapshots.len(),
{
    reveal(Seq::filter);
    if snapshots.len() > 0 {
        let t = snapshots.drop_last();
        assert forall|i: int, j: int| 0 <= i < j < t.len() implies #[trigger] t[i].timestamp
            <= #[trigger] t[j].timestamp by {
            assert(t[i] == snapshots[i] && t[j] == snapshots[j]);
        }
        lemma_kept_snapshots(t, timestamp, horizon);
        let kt = kept_snapshots(t, timestamp, horizon);
        let l = snapshots.last();
        assert(l == snapshots[snapshots.len() - 1]);
        assert forall|k: int| 0 <= k < kt.len() implies exists|i: int|
            0 <= i < snapshots.len() && #[trigger] kt[k] == snapshots[i] by {
            let i = choose|i: int| 0 <= i < t.len() && kt[k] == t[i];
            assert(t[i] == snapshots[i]);
        }
        if timestamp - l.timestamp <= horizon {
            let n = kt.push(l);
            assert(kept_snapshots(snapshots, timestamp, horizon) == n);
            assert forall|i: int, j: int| 0 <= i < j < n.len() implies #[trigger] n[i].timestamp
                <= #[trigger] n[j].timestamp by {
                assert(n[i] == kt[i]);
                if j < kt.len() {
                    assert(n[j] == kt[j]);
                } else {
                    let w = choose|w: int| 0 <= w < t.len() && kt[i] == t[w];
                    assert(t[w] == snapshots[w]);
                }
            }
            assert forall|k: int| 0 <= k < n.len() implies exists|i: int|
                0 <= i < snapshots.len() && #[trigger] n[k] == snapshots[i] by {
                if k < kt.len() {
                    assert(n[k] == kt[k]);
                } else {
                    assert(n[k] == snapshots[snapshots.len() - 1]);
                }
            }
            assert forall|k: int| 0 <= k < n.len() implies timestamp - #[trigger] n[k].timestamp
                <= horizon by {
                if k < kt.len() {
                    assert(n[k] == kt[k]);
                }
            }
        } else {
            assert(kept_snapshots(snapshots, timestamp, horizon) == kt);
        }
    }
}

/// Law: recording a snapshot keeps the stored snapshots in the order of their timestamps
/// and none older than `window_size + tolerance`: when the snapshots before were in order
/// and none was taken after `timestamp`, the list after the new snapshot is in order, ends
/// with the new snapshot, and holds only snapshots at most `window_size + tolerance` seconds
/// old.
pub proof fn lemma_snapshots_sorted_and_recent(
    snapshots: Seq<AstroportTwapSnapshot>,
    timestamp: u64,
    price_cumulative: u128,
    window_size: u64,
    tolerance: u64,
)
    requires
        snapshots_sorted(snapshots),
        snapshots_not_after(snapshots, timestamp),
    ensures
        ({
            let r = kept_snapshots(snapshots, timestamp, window_size + tolerance).push(
                AstroportTwapSnapshot { timestamp, price_cumulative },
            );
            &&& snapshots_sorted(r)
            &&& r.last().timestamp == timestamp
            &&& forall|k: int| 0 <= k < r.len() ==> #[trigger] r[k].timestamp <= timestamp
                && timestamp - r[k].timestamp <= window_size + tolerance
        }),
{
    let h = window_size + tolerance;
    lemma_kept_snapshots(snapshots, timestamp, h);
    let kt = kept_snapshots(snapshots, timestamp, h);
    let n = kt.push(AstroportTwapSnapshot { timestamp, price_cumulative });
    assert forall|k: int| 0 <= k < kt.len() implies #[trigger] kt[k].timestamp <= timestamp by {
        let i = choose|i: int| 0 <= i < snapshots.len() && kt[k] == snapshots[i];
    }
    assert forall|i: int, j: int| 0 <= i < j < n.len() implies #[trigger] n[i].timestamp
        <= #[trigger] n[j].timestamp by {
        assert(n[i] == kt[i]);
        if j < kt.len() {
            assert(n[j] == kt[j]);
        }
    }
    assert forall|k: int| 0 <= k < n.len() implies #[trigger] n[k].timestamp <= timestamp
        && timestamp - n[k].timestamp <= h by {
        if k < kt.len() {
            assert(n[k] == kt[k]);
        }
    }
}

/// Records a new TWAP snapshot at `timestamp`: refused when the latest snapshot is less
/// than `tolerance` seconds old; snapshots older than `window_size + tolerance` are purged.
pub fn record_twap_snapshot(
    snapshots: Vec<AstroportTwapSnapshot>,
    timestamp: u64,
    price_cumulative: u128,
    window_size: u64,
    tolerance: u64,
) -> (r: Result<Vec<AstroportTwapSnapshot>, ContractError>)
    requires
        snapshots@.len() > 0 ==> snapshots@.last().timestamp <= timestamp,
        snapshots@.len() > 0 && timestamp - snapshots@.last().timestamp >= tolerance
            ==> snapshots_not_after(snapshots@, timestamp) && window_size + tolerance <= u64::MAX,
    ensures
        snapshots@.len() > 0 && timestamp - snapshots@.last().timestamp < tolerance ==> r
            == Err::<Vec<AstroportTwapSnapshot>, ContractError>(
            ContractError::SnapshotTakenTooFrequently,
        ),
        !(snapshots@.len() > 0 && timestamp - snapshots@.last().timestamp < tolerance) ==> r is Ok
            && r->Ok_0@ == kept_snapshots(snapshots@, timestamp, window_size + tolerance).push(
            AstroportTwapSnapshot { timestamp, price_cumulative },
        ),
{
    if snapshots.len() == 0 {
        let mut kept: Vec<AstroportTwapSnapshot> = Vec::new();
        kept.push(AstroportTwapSnapshot { timestamp, price_cumulative });
        assert(kept_snapshots(snapshots@, timestamp, window_size + tolerance) =~= Seq::empty()) by {
            reveal(Seq::filter);
        }
        return Ok(kept);
    }
    let latest = snapshots[snapshots.len() - 1];
    if timestamp - latest.timestamp < tolerance {
        return Err(ContractError::SnapshotTakenTooFrequently);
    }
    let horizon = window_size + tolerance;
    let mut kept: Vec<AstroportTwapSnapshot> = Vec::new();
    let mut i: usize = 0;
    let ghost keep = |s: AstroportTwapSnapshot| timestamp - s.timestamp <= horizon;
    while i < snapshots.len()
        invariant
            i <= snapshots@.len(),
            snapshots_not_after(snapshots@, timestamp),
            horizon == window_size + tolerance,
            keep == (|s: AstroportTwapSnapshot| timestamp - s.timestamp <= horizon),
            kept@ == snapshots@.take(i as int).filter(keep),
        decreases snapshots@.len() - i,
    {
        let s = snapshots[i];
        proof {
            assert(snapshots@.take(i + 1).drop_last() =~= snapshots@.take(i as int));
            reveal(Seq::filter);
        }
        if timestamp - s.timestamp <= horizon {
            kept.push(s);
        }
        i = i + 1;
    }
    assert(snapshots@.take(snapshots@.len() as int) =~= snapshots@);
    kept.push(AstroportTwapSnapshot { timestamp, price_cumulative });
    Ok(kept)
}

} // verus!

verus! {

/// Index of the first snapshot from `i` on whose period to the current snapshot is within
/// `tolerance` of `window_size`.
pub open spec fn find_within_tolerance(
    snapshots: Seq<AstroportTwapSnapshot>,
    current: AstroportTwapSnapshot,
    window_size: u64,
    tolerance: u64,
    i: int,
) -> Option<int>
    decreases snapshots.len() - i,
{
    if i < 0 || i >= snapshots.len() {
        None
    } else if spec_period_diff(current, snapshots[i], window_size) <= tolerance {
        Some(i)
    } else {
        find_within_tolerance(snapshots, current, window_size, tolerance, i + 1)
    }
}

/// Growth of the cumulative price since `previous`, assuming it wrapped around at most once.
pub open spec fn price_delta(current: u128, previous: u128) -> int {
    if current >= previous {
        current - previous
    } else {
        current + (u128::MAX - previous)
    }
}

/// The TWAP query stays within 128 bits where the contract does not check it, and the
/// chosen snapshot lies strictly before the current time.
pub open spec fn twap_fits(
    snapshots: Seq<AstroportTwapSnapshot>,
    current: AstroportTwapSnapshot,
    window_size: u64,
    tolerance: u64,
) -> bool {
    &&& find_within_tolerance(snapshots, current, window_size, tolerance, 0) matches Some(i) ==> {
        let prev = snapshots[i];
        &&& prev.timestamp < current.timestamp
        &&& price_delta(current.price_cumulative, prev.price_cumulative) <= u128::MAX ==> mul_div(
            price_delta(current.price_cumulative, prev.price_cumulative),
            DECIMAL_FRACTIONAL as int,
            current.timestamp - prev.timestamp,
        ) <= u128::MAX
    }
}

/// Position of the first snapshot whose period to the current snapshot is within
/// `tolerance` of `window_size`, if any.
pub fn find_twap_snapshot(
    snapshots: &Vec<AstroportTwapSnapshot>,
    current: &AstroportTwapSnapshot,
    window_size: u64,
    tolerance: u64,
) -> (r: Option<usize>)
    ensures
        r matches Some(i) ==> i < snapshots@.len() && find_within_tolerance(
            snapshots@,
            *current,
            window_size,
            tolerance,
            0,
        ) == Some(i as int),
        r is None ==> find_within_tolerance(snapshots@, *current, window_size, tolerance, 0) is None,
{
    let ghost found = find_within_tolerance(snapshots@, *current, window_size, tolerance, 0);
    let mut i: usize = 0;
    while i < snapshots.len()
        invariant
            i <= snapshots@.len(),
            found == find_within_tolerance(snapshots@, *current, window_size, tolerance, i as int),
        ensures
            i <= snapshots@.len(),
            i < snapshots@.len() ==> found == Some(i as int),
            i == snapshots@.len() ==> found is None,
        decreases snapshots@.len() - i,
    {
        if period_diff(current, &snapshots[i], window_size) <= tolerance {
            break;
        }
        i = i + 1;
    }
    if i == snapshots.len() {
        None
    } else {
        Some(i)
    }
}

/// Time-weighted average price between the current cumulative price and the first
/// recorded snapshot whose distance from now is within `tolerance` of `window_size`.
pub fn query_twap_price(
    snapshots: &Vec<AstroportTwapSnapshot>,
    current_timestamp: u64,
    current_price_cumulative: u128,
    window_size: u64,
    tolerance: u64,
) -> (r: Result<Decimal, ContractError>)
    requires
        twap_fits(
            snapshots@,
            AstroportTwapSnapshot {
                timestamp: current_timestamp,
                price_cumulative: current_price_cumulative,
            },
            window_size,
            tolerance,
        ),
    ensures
        ({
            let current = AstroportTwapSnapshot {
                timestamp: current_timestamp,
                price_cumulative: current_price_cumulative,
            };
            match find_within_tolerance(snapshots@, current, window_size, tolerance, 0) {
                None => r == Err::<Decimal, ContractError>(
                    ContractError::NoTwapSnapshotWithinTolerance,
                ),
                Some(i) => {
                    let prev = snapshots@[i];
                    let delta = price_delta(current_price_cumulative, prev.price_cumulative);
                    &&& delta > u128::MAX ==> r == Err::<Decimal, ContractError>(
                        ContractError::Overflow,
                    )
                    &&& delta <= u128::MAX ==> r == Ok::<Decimal, ContractError>(
                        Decimal {
                            atomics: mul_div(
                                delta,
                                DECIMAL_FRACTIONAL as int,
                                current_timestamp - prev.timestamp,
                            ) as u128,
                        },
                    )
                },
            }
        }),
{
    let current = AstroportTwapSnapshot {
        timestamp: current_timestamp,
        price_cumulative: current_price_cumulative,
    };
    let i = match find_twap_snapshot(snapshots, &current, window_size, tolerance) {
        Some(i) => i,
        None => {
            return Err(ContractError::NoTwapSnapshotWithinTolerance);
        },
    };
    let previous = snapshots[i];
    assert(previous == snapshots@[i as int]);
    let price_delta = if current_price_cumulative >= previous.price_cumulative {
        current_price_cumulative - previous.price_cumulative
    } else {
        match current_price_cumulative.checked_add(u128::MAX - previous.price_cumulative) {
            Some(d) => d,
            None => {
                return Err(ContractError::Overflow);
            },
        }
    };
    let period = current_timestamp - previous.timestamp;
    Ok(Decimal::from_ratio(price_delta, period as u128))
}

/// Price of a liquidity token: the value of the pool's two assets per share.
pub open spec fn liquidity_token_value(
    price0: Decimal,
    amount0: u128,
    price1: Decimal,
    amount1: u128,
) -> int {
    mul_div(amount0 as int, price0.atomics as int, DECIMAL_FRACTIONAL as int) + mul_div(
        amount1 as int,
        price1.atomics as int,
        DECIMAL_FRACTIONAL as int,
    )
}

/// Computes the price of a pool's liquidity token from the prices and amounts of the
/// pool's assets and the total number of shares.
pub fn liquidity_token_price(
    asset0_price: Decimal,
    asset0_amount: u128,
    asset1_price: Decimal,
    asset1_amount: u128,
    total_share: u128,
) -> (r: Decimal)
    requires
        total_share != 0,
        liquidity_token_value(asset0_price, asset0_amount, asset1_price, asset1_amount) <= u128::MAX,
        mul_div(
            liquidity_token_value(asset0_price, asset0_amount, asset1_price, asset1_amount),
            DECIMAL_FRACTIONAL as int,
            total_share as int,
        ) <= u128::MAX,
    ensures
        r.atomics == mul_div(
            liquidity_token_value(asset0_price, asset0_amount, asset1_price, asset1_amount),
            DECIMAL_FRACTIONAL as int,
            total_share as int,
        ),
{
    proof {
        crate::math::lemma_mul_div_nonneg(
            asset0_amount as int,
            asset0_price.atomics as int,
            DECIMAL_FRACTIONAL as int,
        );
        crate::math::lemma_mul_div_nonneg(
            asset1_amount as int,
            asset1_price.atomics as int,
            DECIMAL_FRACTIONAL as int,
        );
    }
    let asset0_value = asset0_price.mul_uint(asset0_amount);
    let asset1_value = asset1_price.mul_uint(asset1_amount);
    Decimal::from_ratio(asset0_value + asset1_value, total_share)
}

/// Price from a native exchange-rate query: the last rate returned, if any.
pub fn native_price_from_rates(exchange_rates: Vec<Decimal>) -> (r: Result<Decimal, ContractError>)
    ensures
        exchange_rates@.len() == 0 ==> r == Err::<Decimal, ContractError>(
            ContractError::NoNativePriceFound,
        ),
        exchange_rates@.len() > 0 ==> r == Ok::<Decimal, ContractError>(exchange_rates@.last()),
{
    let mut exchange_rates = exchange_rates;
    match exchange_rates.pop() {
        Some(rate) => Ok(rate),
        None => Err(ContractError::NoNativePriceFound),
    }
}

/// Where the oracle takes an asset's price from.
#[derive(Debug)]
pub enum PriceSourceChecked {
    /// A price set by the owner.
    Fixed { price: Decimal },
    /// The chain's exchange rate of a native coin against uusd.
    Native { denom: String },
    /// The spot price of an Astroport pair of the asset and uusd.
    AstroportSpot { pair_address: String },
    /// The time-weighted average price of an Astroport pair of the asset and uusd.
    AstroportTwap { pair_address: String, window_size: u64, tolerance: u64 },
    /// The value of an Astroport pair's liquidity token.
    AstroportLiquidityToken { pair_address: String },
}

/// A price source must be checked against its pair's assets when it is set: the spot and
/// TWAP sources must quote the asset against uusd.
pub fn needs_pool_check(source: &PriceSourceChecked) -> (b: bool)
    ensures
        b == (source is AstroportSpot || source is AstroportTwap),
{
    match source {
        PriceSourceChecked::AstroportSpot { .. } => true,
        PriceSourceChecked::AstroportTwap { .. } => true,
        _ => false,
    }
}

/// The window size and tolerance of a TWAP source; snapshots can only be recorded for one.
pub fn twap_params(source: &PriceSourceChecked) -> (r: Result<(u64, u64), ContractError>)
    ensures
        *source matches PriceSourceChecked::AstroportTwap { window_size, tolerance, .. } ==> r
            == Ok::<(u64, u64), ContractError>((window_size, tolerance)),
        !(source is AstroportTwap) ==> r == Err::<(u64, u64), ContractError>(
            ContractError::PriceSourceNotTwap,
        ),
{
    match source {
        PriceSourceChecked::AstroportTwap { window_size, tolerance, .. } => Ok((*window_size, *tolerance)),
        _ => Err(ContractError::PriceSourceNotTwap),
    }
}

/// Price sources of the first oracle version.
#[derive(Debug)]
pub enum PriceSource {
    /// The chain's exchange rate of a native coin against uusd.
    Native { denom: String },
    /// A Terraswap pair against uusd (priced at one).
    TerraswapUusdPair { pair_address: String },
    /// A price set by the owner.
    Fixed { price: Decimal },
}

/// Price from a first-version source: a fixed price as set, one for a Terraswap pair, and
/// for a native coin the last exchange rate the chain returned.
pub fn query_asset_price(source: &PriceSource, exchange_rates: Vec<Decimal>) -> (r: Result<
    Decimal,
    ContractError,
>)
    ensures
        *source matches PriceSource::Fixed { price } ==> r == Ok::<Decimal, ContractError>(price),
        source is TerraswapUusdPair ==> r == Ok::<Decimal, ContractError>(
            (Decimal { atomics: DECIMAL_FRACTIONAL }),
        ),
        source is Native && exchange_rates@.len() == 0 ==> r == Err::<Decimal, ContractError>(
            ContractError::NoNativePriceFound,
        ),
        source is Native && exchange_rates@.len() > 0 ==> r == Ok::<Decimal, ContractError>(
            exchange_rates@.last(),
        ),
{
    match source {
        PriceSource::Fixed { price } => Ok(*price),
        PriceSource::TerraswapUusdPair { .. } => Ok(Decimal::one()),
        PriceSource::Native { .. } => native_price_from_rates(exchange_rates),
    }
}


/// Oracle configuration.
#[derive(Debug, Clone, PartialEq, Eq)]
pub struct Config {
    pub owner: String,
}

/// The oracle of `owner`.
pub fn instantiate(owner: String) -> (c: Config)
    ensures
        c.owner == owner,
{
    Config { owner }
}

/// The owner after an update: the new one if given, else the current one.
pub open spec fn updated_owner(current: String, owner: Option<String>) -> Seq<char> {
    match owner {
        Some(o) => o@,
        None => current@,
    }
}

/// Replaces the owner; only the owner may.
pub fn execute_update_config(config: &mut Config, sender: &String, owner: Option<String>) -> (r:
    Result<(), ContractError>)
    ensures
        sender@ != old(config).owner@ ==> is_generic_err(r, "Only owner can update config"@)
            && *final(config) == *old(config),
        sender@ == old(config).owner@ ==> r is Ok && final(config).owner@ == updated_owner(
            old(config).owner,
            owner,
        ),
{
    if *sender != config.owner {
        return Err(ContractError::generic_err("Only owner can update config"));
    }
    if let Some(o) = owner {
        config.owner = o;
    }
    Ok(())
}

/// Accepts the price source of an asset, to be stored as its price configuration; only the
/// owner may set one. Spot and TWAP sources must then pass the pool check
/// (`needs_pool_check`).
pub fn execute_set_asset(config: &Config, sender: &String, price_source: PriceSourceChecked) -> (r:
    Result<PriceSourceChecked, ContractError>)
    ensures
        sender@ != config.owner@ ==> is_generic_err(r, "Only owner can set asset"@),
        sender@ == config.owner@ ==> r == Ok::<PriceSourceChecked, ContractError>(price_source),
{
    if *sender != config.owner {
        return Err(ContractError::generic_err("Only owner can set asset"));
    }
    Ok(price_source)
}

/// First oracle version: replaces the owner; only the owner may.
pub fn execute_update_config_legacy(
    config: &mut Config,
    sender: &String,
    owner: Option<String>,
) -> (r: Result<(), ContractError>)
    ensures
        sender@ != old(config).owner@ ==> r == Err::<(), ContractError>(ContractError::Unauthorized)
            && *final(config) == *old(config),
        sender@ == old(config).owner@ ==> r is Ok && final(config).owner@ == updated_owner(
            old(config).owner,
            owner,
        ),
{
    if *sender != config.owner {
        return Err(ContractError::Unauthorized);
    }
    if let Some(o) = owner {
        config.owner = o;
    }
    Ok(())
}

/// First oracle version: accepts the price source of an asset, to be stored as its price
/// configuration; only the owner may set one.
pub fn execute_set_asset_legacy(config: &Config, sender: &String, price_source: PriceSource) -> (r:
    Result<PriceSource, ContractError>)
    ensures
        sender@ != config.owner@ ==> r == Err::<PriceSource, ContractError>(ContractError::Unauthorized),
        sender@ == config.owner@ ==> r == Ok::<PriceSource, ContractError>(price_source),
{
    if *sender != config.owner {
        return Err(ContractError::Unauthorized);
    }
    Ok(price_source)
}

} // verus!
