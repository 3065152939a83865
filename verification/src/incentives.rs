//! Mars incentives for maToken holders: a per-asset reward index that grows with the
//! emission rate, and per-user indices from which accrued rewards are computed.

use vstd::prelude::*;

use crate::error::ContractError;
use crate::math::{mul_div, Decimal, DECIMAL_FRACTIONAL};

verus! {

/// Incentive data of one maToken.
#[derive(Debug, Clone, Copy, PartialEq, Eq, Structural)]
pub struct AssetIncentive {
    /// Mars emitted per second to all holders together
    pub emission_per_second: u128,
    /// Rewards accrued per maToken since the incentive started
    pub index: Decimal,
    /// Time (seconds) of the last index update
    pub last_updated: u64,
}

/// Index increase for `seconds` of emission over `total_supply` tokens, in decimal atomics.
pub open spec fn index_increase(emission: u128, seconds: int, total_supply: u128) -> int {
    mul_div(emission * seconds, DECIMAL_FRACTIONAL as int, total_supply as int)
}

/// Computing an index stays within 128 bits.
pub open spec fn compute_index_fits(
    previous_index: Decimal,
    emission: u128,
    total_supply: u128,
    time_start: u64,
    time_end: u64,
) -> bool {
    time_start <= time_end ==> {
        &&& emission * (time_end - time_start) <= u128::MAX
        &&& previous_index.atomics + index_increase(emission, time_end - time_start, total_supply)
            <= u128::MAX
    }
}

/// New index after emitting `emission_per_second` from `time_start` to `time_end` over
/// `total_supply` tokens; an end before the start is an underflow error.
pub fn asset_incentive_compute_index(
    previous_index: Decimal,
    emission_per_second: u128,
    total_supply: u128,
    time_start: u64,
    time_end: u64,
) -> (r: Result<Decimal, ContractError>)
    requires
        total_supply != 0,
        compute_index_fits(previous_index, emission_per_second, total_supply, time_start, time_end),
    ensures
        time_start > time_end ==> r == Err::<Decimal, ContractError>(ContractError::Overflow),
        time_start <= time_end ==> r == Ok::<Decimal, ContractError>(
            Decimal {
                atomics: (previous_index.atomics + index_increase(
                    emission_per_second,
                    time_end - time_start,
                    total_supply,
                )) as u128,
            },
        ),
{
    if time_start > time_end {
        return Err(ContractError::Overflow);
    }
    let seconds_elapsed = time_end - time_start;
    proof {
        assert(emission_per_second * seconds_elapsed >= 0) by (nonlinear_arith);
        crate::math::lemma_mul_div_nonneg(
            emission_per_second * seconds_elapsed,
            DECIMAL_FRACTIONAL as int,
            total_supply as int,
        );
    }
    let increase = Decimal::from_ratio(emission_per_second * (seconds_elapsed as u128), total_supply);
    Ok(previous_index.add(increase))
}

/// The incentive after its index is brought up to `now` with `total_supply` tokens held.
pub open spec fn updated_incentive(ai: AssetIncentive, total_supply: u128, now: u64) -> AssetIncentive {
    if now != ai.last_updated && total_supply != 0 && ai.emission_per_second != 0 {
        AssetIncentive {
            index: Decimal {
                atomics: (ai.index.atomics + index_increase(
                    ai.emission_per_second,
                    now - ai.last_updated,
                    total_supply,
                )) as u128,
            },
            last_updated: now,
            ..ai
        }
    } else {
        AssetIncentive { last_updated: now, ..ai }
    }
}

/// Updating an incentive errs when its last update lies after `now`.
pub open spec fn update_fails(ai: AssetIncentive, total_supply: u128, now: u64) -> bool {
    now != ai.last_updated && total_supply != 0 && ai.emission_per_second != 0 && ai.last_updated
        > now
}

/// Updating an incentive stays within 128 bits.
pub open spec fn update_fits(ai: AssetIncentive, total_supply: u128, now: u64) -> bool {
    total_supply != 0 ==> compute_index_fits(
        ai.index,
        ai.emission_per_second,
        total_supply,
        ai.last_updated,
        now,
    )
}

/// Brings the incentive's index up to `current_block_time` given the maToken total supply
/// over the elapsed period, and records the time. Not saved.
pub fn asset_incentive_update_index(
    asset_incentive: &mut AssetIncentive,
    total_supply: u128,
    current_block_time: u64,
) -> (r: Result<(), ContractError>)
    requires
        update_fits(*old(asset_incentive), total_supply, current_block_time),
    ensures
        update_fails(*old(asset_incentive), total_supply, current_block_time) ==> r == Err::<
            (),
            ContractError,
        >(ContractError::Overflow),
        !update_fails(*old(asset_incentive), total_supply, current_block_time) ==> r == Ok::<
            (),
            ContractError,
        >(()) && *final(asset_incentive) == updated_incentive(
            *old(asset_incentive),
            total_supply,
            current_block_time,
        ),
{
    if current_block_time != asset_incentive.last_updated && total_supply != 0
        && asset_incentive.emission_per_second != 0 {
        asset_incentive.index = asset_incentive_compute_index(
            asset_incentive.index,
            asset_incentive.emission_per_second,
            total_supply,
            asset_incentive.last_updated,
            current_block_time,
        )?;
    }
    asset_incentive.last_updated = current_block_time;
    Ok(())
}

/// Rewards accrued by `balance` tokens between two index values.
pub open spec fn accrued_rewards(balance: u128, user_index: Decimal, asset_index: Decimal) -> int {
    mul_div(balance as int, asset_index.atomics as int, DECIMAL_FRACTIONAL as int) - mul_div(
        balance as int,
        user_index.atomics as int,
        DECIMAL_FRACTIONAL as int,
    )
}

/// Rewards of a balance fit in 128 bits at both indices.
pub open spec fn accrued_fits(balance: u128, user_index: Decimal, asset_index: Decimal) -> bool {
    &&& mul_div(balance as int, asset_index.atomics as int, DECIMAL_FRACTIONAL as int) <= u128::MAX
    &&& mul_div(balance as int, user_index.atomics as int, DECIMAL_FRACTIONAL as int) <= u128::MAX
}

/// Computes the rewards accrued by `user_balance` since the user's index; an asset index
/// below the user's is an underflow error.
pub fn user_compute_accrued_rewards(
    user_balance: u128,
    user_asset_index: Decimal,
    asset_incentive_index: Decimal,
) -> (r: Result<u128, ContractError>)
    requires
        accrued_fits(user_balance, user_asset_index, asset_incentive_index),
    ensures
        accrued_rewards(user_balance, user_asset_index, asset_incentive_index) >= 0 ==> r == Ok::<
            u128,
            ContractError,
        >(accrued_rewards(user_balance, user_asset_index, asset_incentive_index) as u128),
        accrued_rewards(user_balance, user_asset_index, asset_incentive_index) < 0 ==> r == Err::<
            u128,
            ContractError,
        >(ContractError::Overflow),
{
    let current = asset_incentive_index.mul_uint(user_balance);
    let previous = user_asset_index.mul_uint(user_balance);
    if current < previous {
        return Err(ContractError::Overflow);
    }
    Ok(current - previous)
}

/// Law: an index update never decreases the index, and an update at the time of the last
/// update changes nothing but the time.
pub proof fn lemma_update_index_monotonic(ai: AssetIncentive, total_supply: u128, now: u64)
    requires
        !update_fails(ai, total_supply, now),
        update_fits(ai, total_supply, now),
    ensures
        updated_incentive(ai, total_supply, now).index.atomics >= ai.index.atomics,
        now == ai.last_updated ==> updated_incentive(ai, total_supply, now) == ai,
        updated_incentive(ai, total_supply, now).last_updated == now,
{
    if now != ai.last_updated && total_supply != 0 && ai.emission_per_second != 0 {
        assert(ai.emission_per_second * (now - ai.last_updated) >= 0) by (nonlinear_arith)
            requires
                now >= ai.last_updated,
        ;
        crate::math::lemma_mul_div_nonneg(
            ai.emission_per_second * (now - ai.last_updated),
            DECIMAL_FRACTIONAL as int,
            total_supply as int,
        );
    }
}

/// Law: rewards accrued between an index and itself are zero, and a zero balance accrues
/// nothing; a larger asset index never yields fewer rewards.
pub proof fn lemma_accrued_rewards_basics(balance: u128, user_index: Decimal, asset_index: Decimal)
    ensures
        accrued_rewards(balance, user_index, user_index) == 0,
        accrued_rewards(0, user_index, asset_index) == 0,
        user_index.atomics <= asset_index.atomics ==> accrued_rewards(
            balance,
            user_index,
            asset_index,
        ) >= 0,
{
    if user_index.atomics <= asset_index.atomics {
        crate::math::lemma_mul_div_mono(
            user_index.atomics as int,
            asset_index.atomics as int,
            balance as int,
            DECIMAL_FRACTIONAL as int,
        );
        assert(user_index.atomics * balance == balance * user_index.atomics) by (nonlinear_arith);
        assert(asset_index.atomics * balance == balance * asset_index.atomics) by (nonlinear_arith);
    }
}

} // verus!

verus! {

/// Sets the emission of an maToken's incentive (owner only). An existing incentive first
/// has its index brought up to `current_time` with the token's `total_supply`; a new one
/// starts with a zero index.
pub fn handle_set_asset_incentive(
    sender: &Vec<u8>,
    owner: &Vec<u8>,
    existing: Option<AssetIncentive>,
    total_supply: u128,
    emission_per_second: u128,
    current_time: u64,
) -> (r: Result<AssetIncentive, ContractError>)
    requires
        sender@ == owner@ ==> (existing matches Some(ai) ==> update_fits(ai, total_supply, current_time)),
    ensures
        sender@ != owner@ ==> r == Err::<AssetIncentive, ContractError>(ContractError::Unauthorized),
        sender@ == owner@ && existing is None ==> r == Ok::<AssetIncentive, ContractError>(
            AssetIncentive {
                emission_per_second,
                index: Decimal { atomics: 0 },
                last_updated: current_time,
            },
        ),
        sender@ == owner@ && existing is Some && update_fails(existing->Some_0, total_supply, current_time)
            ==> r == Err::<AssetIncentive, ContractError>(ContractError::Overflow),
        sender@ == owner@ && existing is Some && !update_fails(existing->Some_0, total_supply, current_time)
            ==> r == Ok::<AssetIncentive, ContractError>(
            AssetIncentive {
                emission_per_second,
                ..updated_incentive(existing->Some_0, total_supply, current_time)
            },
        ),
{
    crate::util::assert_owner(sender, owner)?;
    match existing {
        Some(asset_incentive) => {
            let mut asset_incentive = asset_incentive;
            asset_incentive_update_index(&mut asset_incentive, total_supply, current_time)?;
            asset_incentive.emission_per_second = emission_per_second;
            Ok(asset_incentive)
        },
        None => Ok(
            AssetIncentive {
                emission_per_second,
                index: Decimal::zero(),
                last_updated: current_time,
            },
        ),
    }
}

/// Outcome of a balance change: the updated incentive, the rewards accrued by the user,
/// and the unclaimed rewards and user index to store (when they change).
#[derive(Debug)]
pub struct BalanceChangeResult {
    pub asset_incentive: AssetIncentive,
    pub accrued_rewards: u128,
    pub unclaimed_rewards: Option<u128>,
    pub user_index: Option<Decimal>,
}

/// Decides the bookkeeping of a user balance change reported by an maToken: without an
/// incentive nothing happens (`None`); otherwise the asset index is updated with the
/// supply before the change and the user's rewards since their index are accrued.
pub fn handle_balance_change(
    asset_incentive: Option<AssetIncentive>,
    user_asset_index: Option<Decimal>,
    current_unclaimed_rewards: Option<u128>,
    user_balance_before: u128,
    total_supply_before: u128,
    current_time: u64,
) -> (r: Result<Option<BalanceChangeResult>, ContractError>)
    requires
        asset_incentive matches Some(ai) ==> {
            let updated = updated_incentive(ai, total_supply_before, current_time);
            let ui = match user_asset_index {
                Some(i) => i,
                None => Decimal { atomics: 0 },
            };
            let unclaimed = match current_unclaimed_rewards {
                Some(u) => u,
                None => 0,
            };
            &&& update_fits(ai, total_supply_before, current_time)
            &&& accrued_fits(user_balance_before, ui, updated.index)
            &&& unclaimed + accrued_rewards(user_balance_before, ui, updated.index) <= u128::MAX
        },
    ensures
        asset_incentive is None ==> r == Ok::<Option<BalanceChangeResult>, ContractError>(None),
        asset_incentive matches Some(ai) ==> ({
            let updated = updated_incentive(ai, total_supply_before, current_time);
            let ui = match user_asset_index {
                Some(i) => i,
                None => Decimal { atomics: 0 },
            };
            let unclaimed = match current_unclaimed_rewards {
                Some(u) => u,
                None => 0,
            };
            let accrued = if ui != updated.index {
                accrued_rewards(user_balance_before, ui, updated.index)
            } else {
                0
            };
            &&& update_fails(ai, total_supply_before, current_time) ==> r is Err
            &&& !update_fails(ai, total_supply_before, current_time) && accrued < 0 ==> r is Err
            &&& r is Err ==> r->Err_0 == ContractError::Overflow
            &&& !update_fails(ai, total_supply_before, current_time) && accrued >= 0 ==> r is Ok
                && r->Ok_0 is Some && ({
                let res = r->Ok_0->Some_0;
                &&& res.asset_incentive == updated
                &&& res.accrued_rewards == accrued
                &&& res.unclaimed_rewards == if accrued != 0 {
                    Some((unclaimed + accrued) as u128)
                } else {
                    None
                }
                &&& res.user_index == if ui != updated.index {
                    Some(updated.index)
                } else {
                    None
                }
            })
        }),
{
    let mut asset_incentive = match asset_incentive {
        None => return Ok(None),
        Some(ai) => ai,
    };
    asset_incentive_update_index(&mut asset_incentive, total_supply_before, current_time)?;
    let user_index = match user_asset_index {
        Some(i) => i,
        None => Decimal::zero(),
    };
    let mut accrued_rewards: u128 = 0;
    let mut unclaimed_rewards = None;
    let mut new_user_index = None;
    if user_index.atomics != asset_incentive.index.atomics {
        accrued_rewards = user_compute_accrued_rewards(
            user_balance_before,
            user_index,
            asset_incentive.index,
        )?;
        if accrued_rewards != 0 {
            let current = match current_unclaimed_rewards {
                Some(u) => u,
                None => 0,
            };
            unclaimed_rewards = Some(current + accrued_rewards);
        }
        new_user_index = Some(asset_incentive.index);
    }
    Ok(
        Some(
            BalanceChangeResult {
                asset_incentive,
                accrued_rewards,
                unclaimed_rewards,
                user_index: new_user_index,
            },
        ),
    )
}

/// What a reward claim reads for one maToken the user holds an index for.
#[derive(Debug, Clone, Copy, PartialEq, Eq, Structural)]
pub struct ClaimEntry {
    pub user_index: Decimal,
    pub balance: u128,
    pub total_supply: u128,
    pub asset_incentive: AssetIncentive,
}

/// The entry's incentive brought up to `now`.
pub open spec fn entry_incentive(e: ClaimEntry, now: u64) -> AssetIncentive {
    updated_incentive(e.asset_incentive, e.total_supply, now)
}

/// Rewards accrued by one entry (zero when the user's index is current).
pub open spec fn entry_accrued(e: ClaimEntry, now: u64) -> int {
    if e.user_index != entry_incentive(e, now).index {
        accrued_rewards(e.balance, e.user_index, entry_incentive(e, now).index)
    } else {
        0
    }
}

/// The entry can be claimed: its update succeeds and its rewards are not negative.
pub open spec fn entry_ok(e: ClaimEntry, now: u64) -> bool {
    &&& !update_fails(e.asset_incentive, e.total_supply, now)
    &&& entry_accrued(e, now) >= 0
}

/// Sum of the rewards accrued by a list of entries.
pub open spec fn total_accrued(es: Seq<ClaimEntry>, now: u64) -> int
    decreases es.len(),
{
    if es.len() == 0 {
        0
    } else {
        total_accrued(es.drop_last(), now) + entry_accrued(es.last(), now)
    }
}

/// The entries can all be claimed within 128 bits.
pub open spec fn claim_fits(unclaimed: u128, es: Seq<ClaimEntry>, now: u64) -> bool {
    &&& forall|i: int| 0 <= i < es.len() ==> update_fits(es[i].asset_incentive, es[i].total_supply, now)
        && accrued_fits(es[i].balance, es[i].user_index, entry_incentive(es[i], now).index)
    &&& forall|i: int| 0 <= i <= es.len() ==> unclaimed + total_accrued(#[trigger] es.take(i), now) <= u128::MAX
}

/// Outcome of a claim: the updated incentives and user indices (per entry, in order) and
/// the total of rewards to stake for the user.
#[derive(Debug)]
pub struct ClaimResult {
    pub asset_incentives: Vec<AssetIncentive>,
    pub user_indices: Vec<Option<Decimal>>,
    pub accrued_rewards: u128,
}

/// Decides a reward claim: every maToken's index is brought up to `current_time`, the
/// user's rewards since their index are added to the unclaimed rewards, and the user's
/// indices are moved to the current ones.
pub fn handle_claim_rewards(
    unclaimed_rewards: u128,
    entries: &Vec<ClaimEntry>,
    current_time: u64,
) -> (r: Result<ClaimResult, ContractError>)
    requires
        claim_fits(unclaimed_rewards, entries@, current_time),
    ensures
        (forall|i: int| 0 <= i < entries@.len() ==> entry_ok(#[trigger] entries@[i], current_time))
            ==> r is Ok && ({
            let res = r->Ok_0;
            &&& res.accrued_rewards == unclaimed_rewards + total_accrued(entries@, current_time)
            &&& res.asset_incentives@.len() == entries@.len()
            &&& res.user_indices@.len() == entries@.len()
            &&& forall|i: int|
                0 <= i < entries@.len() ==> res.asset_incentives@[i] == entry_incentive(
                    #[trigger] entries@[i],
                    current_time,
                ) && res.user_indices@[i] == if entries@[i].user_index != entry_incentive(
                    entries@[i],
                    current_time,
                ).index {
                    Some(entry_incentive(entries@[i], current_time).index)
                } else {
                    None
                }
        }),
        !(forall|i: int| 0 <= i < entries@.len() ==> entry_ok(#[trigger] entries@[i], current_time))
            ==> r == Err::<ClaimResult, ContractError>(ContractError::Overflow),
{
    let mut accrued_rewards = unclaimed_rewards;
    let mut asset_incentives: Vec<AssetIncentive> = Vec::new();
    let mut user_indices: Vec<Option<Decimal>> = Vec::new();
    let mut i: usize = 0;
    while i < entries.len()
        invariant
            i <= entries@.len(),
            claim_fits(unclaimed_rewards, entries@, current_time),
            accrued_rewards == unclaimed_rewards + total_accrued(entries@.take(i as int), current_time),
            asset_incentives@.len() == i,
            user_indices@.len() == i,
            forall|j: int| 0 <= j < i ==> entry_ok(#[trigger] entries@[j], current_time),
            forall|j: int|
                0 <= j < i ==> asset_incentives@[j] == entry_incentive(
                    #[trigger] entries@[j],
                    current_time,
                ) && user_indices@[j] == if entries@[j].user_index != entry_incentive(
                    entries@[j],
                    current_time,
                ).index {
                    Some(entry_incentive(entries@[j], current_time).index)
                } else {
                    None
                },
        decreases entries@.len() - i,
    {
        let entry = entries[i];
        assert(entries@.take(i + 1).drop_last() =~= entries@.take(i as int));
        assert(entries@.take(i + 1).last() == entries@[i as int]);
        assert(update_fits(entries@[i as int].asset_incentive, entries@[i as int].total_supply, current_time));
        let mut asset_incentive = entry.asset_incentive;
        let updated = asset_incentive_update_index(&mut asset_incentive, entry.total_supply, current_time);
        if updated.is_err() {
            return Err(ContractError::Overflow);
        }
        let mut user_index = None;
        if entry.user_index.atomics != asset_incentive.index.atomics {
            let asset_accrued = user_compute_accrued_rewards(
                entry.balance,
                entry.user_index,
                asset_incentive.index,
            );
            let asset_accrued = match asset_accrued {
                Ok(a) => a,
                Err(_) => {
                    return Err(ContractError::Overflow);
                },
            };
            assert(unclaimed_rewards + total_accrued(entries@.take(i + 1), current_time) <= u128::MAX);
            accrued_rewards = accrued_rewards + asset_accrued;
            user_index = Some(asset_incentive.index);
        }
        asset_incentives.push(asset_incentive);
        user_indices.push(user_index);
        i = i + 1;
    }
    assert(entries@.take(entries@.len() as int) =~= entries@);
    Ok(ClaimResult { asset_incentives, user_indices, accrued_rewards })
}

/// Incentives configuration; addresses are canonical address bytes.
#[derive(Debug, Clone, PartialEq, Eq)]
pub struct Config {
    pub owner: Vec<u8>,
    pub mars_token_address: Vec<u8>,
    pub staking_address: Vec<u8>,
}

/// The given address, or the current one.
fn replace_or_keep(new: Option<Vec<u8>>, current: &Vec<u8>) -> (r: Vec<u8>)
    ensures
        r@ == (match new {
            Some(a) => a@,
            None => current@,
        }),
{
    match new {
        Some(a) => a,
        None => current.clone(),
    }
}

/// Updates the owner and contract addresses; only the owner may.
pub fn handle_update_config(
    config: &mut Config,
    sender: &Vec<u8>,
    owner: Option<Vec<u8>>,
    mars_token_address: Option<Vec<u8>>,
    staking_address: Option<Vec<u8>>,
) -> (r: Result<(), ContractError>)
    ensures
        sender@ != old(config).owner@ ==> r == Err::<(), ContractError>(ContractError::Unauthorized)
            && *final(config) == *old(config),
        sender@ == old(config).owner@ ==> r == Ok::<(), ContractError>(()),
        r is Ok ==> final(config).owner@ == (match owner {
            Some(a) => a@,
            None => old(config).owner@,
        }),
        r is Ok ==> final(config).mars_token_address@ == (match mars_token_address {
            Some(a) => a@,
            None => old(config).mars_token_address@,
        }),
        r is Ok ==> final(config).staking_address@ == (match staking_address {
            Some(a) => a@,
            None => old(config).staking_address@,
        }),
{
    if crate::util::assert_owner(sender, &config.owner).is_err() {
        return Err(ContractError::Unauthorized);
    }
    let new_owner = replace_or_keep(owner, &config.owner);
    let new_mars = replace_or_keep(mars_token_address, &config.mars_token_address);
    let new_staking = replace_or_keep(staking_address, &config.staking_address);
    config.owner = new_owner;
    config.mars_token_address = new_mars;
    config.staking_address = new_staking;
    Ok(())
}

/// Only the owner may have the contract run an arbitrary message.
pub fn handle_execute_cosmos_msg(config: &Config, sender: &Vec<u8>) -> (r: Result<(), ContractError>)
    ensures
        sender@ == config.owner@ ==> r == Ok::<(), ContractError>(()),
        sender@ != config.owner@ ==> r == Err::<(), ContractError>(ContractError::Unauthorized),
{
    crate::util::assert_owner(sender, &config.owner)
}

} // verus!
