//! Vesting of allocated Mars tokens: linear vesting and unlocking after a cliff, and the
//! balance snapshots from which past voting power is read.

use vstd::prelude::*;

use crate::error::ContractError;
use crate::math::mul_div;

verus! {

/// A linear schedule: nothing before `start_time + cliff`, a linear share of the amount
/// until `start_time + duration`, everything afterwards.
#[derive(Debug, Clone, Copy, PartialEq, Eq, Structural)]
pub struct Schedule {
    pub start_time: u64,
    pub cliff: u64,
    pub duration: u64,
}

/// A user's allocation.
#[derive(Debug, Clone, Copy, PartialEq, Eq, Structural)]
pub struct Allocation {
    pub allocated_amount: u128,
    pub withdrawn_amount: u128,
    pub vest_schedule: Schedule,
}

/// Amount of `allocated` released by `schedule` at time `now`.
pub open spec fn released_amount(allocated: u128, schedule: Schedule, now: u64) -> int {
    if now < schedule.start_time + schedule.cliff {
        0
    } else if now < schedule.start_time + schedule.duration {
        mul_div(allocated as int, now - schedule.start_time, schedule.duration as int)
    } else {
        allocated as int
    }
}

/// Law: a schedule never releases more than the allocation, nor a negative amount.
pub proof fn lemma_released_bounds(allocated: u128, schedule: Schedule, now: u64)
    ensures
        0 <= released_amount(allocated, schedule, now) <= allocated,
{
    if now >= schedule.start_time + schedule.cliff && now < schedule.start_time + schedule.duration {
        crate::math::lemma_mul_div_le_left(
            allocated as int,
            (now - schedule.start_time) as int,
            schedule.duration as int,
        );
    }
}

/// A schedule releases no less at a later time.
pub proof fn lemma_released_monotonic(allocated: u128, schedule: Schedule, t1: u64, t2: u64)
    requires
        t1 <= t2,
    ensures
        released_amount(allocated, schedule, t1) <= released_amount(allocated, schedule, t2),
{
    lemma_released_bounds(allocated, schedule, t1);
    lemma_released_bounds(allocated, schedule, t2);
    let s = schedule.start_time as int;
    let d = schedule.duration as int;
    if t1 >= s + schedule.cliff && t1 < s + d {
        let x1 = t1 - s;
        let x2 = t2 - s;
        if t2 < s + d {
            crate::math::lemma_mul_div_mono(x1, x2, allocated as int, d);
            assert(allocated * x1 == x1 * allocated) by (nonlinear_arith);
            assert(allocated * x2 == x2 * allocated) by (nonlinear_arith);
        }
    }
}

/// Law: what can be withdrawn never falls as time passes, and what can be withdrawn plus
/// what was withdrawn never exceeds the allocation.
pub proof fn lemma_withdrawable_bounds(
    allocated: u128,
    withdrawn: u128,
    vest: Schedule,
    unlock: Schedule,
    t1: u64,
    t2: u64,
)
    requires
        t1 <= t2,
    ensures
        withdrawable_amount(allocated, withdrawn, vest, unlock, t1) <= withdrawable_amount(
            allocated,
            withdrawn,
            vest,
            unlock,
            t2,
        ),
        withdrawable_amount(allocated, withdrawn, vest, unlock, t1) + withdrawn <= allocated,
{
    lemma_released_monotonic(allocated, vest, t1, t2);
    lemma_released_monotonic(allocated, unlock, t1, t2);
    lemma_released_bounds(allocated, vest, t1);
    lemma_released_bounds(allocated, unlock, t1);
}

/// The schedule's end points that a computation at `now` reaches fit in 64 bits: the end
/// of the cliff, and the end of the schedule once the cliff is over.
pub open spec fn schedule_fits(schedule: Schedule, now: u64) -> bool {
    &&& schedule.start_time + schedule.cliff <= u64::MAX
    &&& now >= schedule.start_time + schedule.cliff ==> schedule.start_time + schedule.duration
        <= u64::MAX
}

/// Computes the amount of `allocated` released by `schedule` at `current_time`.
pub fn released(allocated_amount: u128, schedule: Schedule, current_time: u64) -> (r: u128)
    requires
        schedule_fits(schedule, current_time),
    ensures
        r == released_amount(allocated_amount, schedule, current_time),
        r <= allocated_amount,
{
    if current_time < schedule.start_time + schedule.cliff {
        0
    } else if current_time < schedule.start_time + schedule.duration {
        proof {
            crate::math::lemma_mul_div_le_left(
                allocated_amount as int,
                (current_time - schedule.start_time) as int,
                schedule.duration as int,
            );
        }
        crate::math::multiply_ratio(
            allocated_amount,
            (current_time - schedule.start_time) as u128,
            schedule.duration as u128,
        )
    } else {
        allocated_amount
    }
}

/// Amount withdrawable now: the smaller of the vested and the unlocked amounts, minus what
/// was already withdrawn (an error when more was withdrawn than that).
pub open spec fn withdrawable_amount(
    allocated: u128,
    withdrawn: u128,
    vest: Schedule,
    unlock: Schedule,
    now: u64,
) -> int {
    let vested = released_amount(allocated, vest, now);
    let unlocked = released_amount(allocated, unlock, now);
    (if vested < unlocked { vested } else { unlocked }) - withdrawn
}

/// Computes the withdrawable amount from the vesting and the unlock schedules.
pub fn compute_withdrawable_amount(
    allocated_amount: u128,
    withdrawn_amount: u128,
    vest_schedule: Schedule,
    unlock_schedule: Schedule,
    current_time: u64,
) -> (r: Result<u128, ContractError>)
    requires
        schedule_fits(vest_schedule, current_time),
        schedule_fits(unlock_schedule, current_time),
    ensures
        withdrawable_amount(allocated_amount, withdrawn_amount, vest_schedule, unlock_schedule, current_time) >= 0
            ==> r == Ok::<u128, ContractError>(
            withdrawable_amount(
                allocated_amount,
                withdrawn_amount,
                vest_schedule,
                unlock_schedule,
                current_time,
            ) as u128,
        ),
        withdrawable_amount(allocated_amount, withdrawn_amount, vest_schedule, unlock_schedule, current_time) < 0
            ==> r == Err::<u128, ContractError>(ContractError::Overflow),
{
    let vested_amount = released(allocated_amount, vest_schedule, current_time);
    let unlocked_amount = released(allocated_amount, unlock_schedule, current_time);
    let releasable = if vested_amount < unlocked_amount {
        vested_amount
    } else {
        unlocked_amount
    };
    if releasable < withdrawn_amount {
        return Err(ContractError::Overflow);
    }
    Ok(releasable - withdrawn_amount)
}

/// Outcome of a withdrawal: the updated allocation, the snapshots with the new available
/// balance appended, and the amount to transfer.
#[derive(Debug)]
pub struct WithdrawResult {
    pub allocation: Allocation,
    pub snapshots: Vec<(u64, u128)>,
    pub withdrawable_amount: u128,
}

/// Decides a withdrawal at `current_time` and block `height`.
pub fn execute_withdraw(
    allocation: Allocation,
    unlock_schedule: Schedule,
    snapshots: Vec<(u64, u128)>,
    current_time: u64,
    height: u64,
) -> (r: Result<WithdrawResult, ContractError>)
    requires
        schedule_fits(allocation.vest_schedule, current_time),
        schedule_fits(unlock_schedule, current_time),
    ensures
        ({
            let w = withdrawable_amount(
                allocation.allocated_amount,
                allocation.withdrawn_amount,
                allocation.vest_schedule,
                unlock_schedule,
                current_time,
            );
            &&& w < 0 ==> r == Err::<WithdrawResult, ContractError>(ContractError::Overflow)
            &&& w >= 0 ==> r is Ok && r->Ok_0.withdrawable_amount == w && r->Ok_0.allocation
                == Allocation {
                withdrawn_amount: (allocation.withdrawn_amount + w) as u128,
                ..allocation
            } && r->Ok_0.snapshots@ == snapshots@.push(
                (height, (allocation.allocated_amount - allocation.withdrawn_amount - w) as u128),
            )
        }),
{
    proof {
        lemma_released_bounds(allocation.allocated_amount, allocation.vest_schedule, current_time);
        lemma_released_bounds(allocation.allocated_amount, unlock_schedule, current_time);
    }
    let withdrawable = compute_withdrawable_amount(
        allocation.allocated_amount,
        allocation.withdrawn_amount,
        allocation.vest_schedule,
        unlock_schedule,
        current_time,
    )?;
    let mut allocation = allocation;
    allocation.withdrawn_amount = allocation.withdrawn_amount + withdrawable;
    let available_amount = allocation.allocated_amount - allocation.withdrawn_amount;
    let mut snapshots = snapshots;
    snapshots.push((height, available_amount));
    Ok(WithdrawResult { allocation, snapshots, withdrawable_amount: withdrawable })
}

/// Decides the creation of an allocation of `allocated_amount` deposited in `token` by
/// `creator` for `user_address`: only Mars tokens sent by the protocol admin are accepted,
/// and a user has at most one allocation. Returns the allocation and its first snapshot.
pub fn execute_create_allocation(
    token: &String,
    creator: &String,
    user_address: &String,
    mars_token_address: &String,
    protocol_admin_address: &String,
    allocation_exists: bool,
    snapshots_exist: bool,
    allocated_amount: u128,
    vest_schedule: Schedule,
    height: u64,
) -> (r: Result<(Allocation, Vec<(u64, u128)>), ContractError>)
    ensures
        token@ != mars_token_address@ ==> r is Err && r->Err_0 == ContractError::InvalidTokenDeposit,
        token@ == mars_token_address@ && creator@ != protocol_admin_address@ ==> r is Err
            && r->Err_0 == ContractError::Unauthorized,
        token@ == mars_token_address@ && creator@ == protocol_admin_address@ && (allocation_exists
            || snapshots_exist) ==> r is Err && r->Err_0 == (ContractError::DataAlreadyExists {
            user_address: *user_address,
        }),
        token@ == mars_token_address@ && creator@ == protocol_admin_address@ && !allocation_exists
            && !snapshots_exist ==> r is Ok && r->Ok_0.0 == (Allocation {
            allocated_amount,
            withdrawn_amount: 0,
            vest_schedule,
        }) && r->Ok_0.1@ == seq![(height, allocated_amount)],
{
    if *token != *mars_token_address {
        return Err(ContractError::InvalidTokenDeposit);
    }
    if *creator != *protocol_admin_address {
        return Err(ContractError::Unauthorized);
    }
    if allocation_exists || snapshots_exist {
        return Err(ContractError::DataAlreadyExists { user_address: user_address.clone() });
    }
    let allocation = Allocation { allocated_amount, withdrawn_amount: 0, vest_schedule };
    let mut snapshots = Vec::new();
    snapshots.push((height, allocated_amount));
    Ok((allocation, snapshots))
}

/// Snapshot heights never decrease.
pub open spec fn sorted_by_height(s: Seq<(u64, u128)>) -> bool {
    forall|i: int, j: int| 0 <= i <= j < s.len() ==> s[i].0 <= s[j].0
}

/// Snapshot `i` is a latest one taken at or before `block`.
pub open spec fn is_latest_at(s: Seq<(u64, u128)>, block: u64, i: int) -> bool {
    &&& 0 <= i < s.len()
    &&& s[i].0 <= block
    &&& forall|j: int| 0 <= j < s.len() && s[j].0 <= block ==> s[j].0 <= s[i].0
}

/// Balance recorded at `block`: zero before the first snapshot, else, when the heights are
/// sorted, the balance of the latest snapshot taken at or before `block`. On unsorted
/// heights the search still ends and returns the balance of some snapshot (or zero).
pub fn binary_search(snapshots: &Vec<(u64, u128)>, block: u64) -> (r: u128)
    requires
        snapshots@.len() > 0,
    ensures
        block < snapshots@[0].0 ==> r == 0,
        snapshots@[0].0 <= block && sorted_by_height(snapshots@) ==> exists|i: int|
            is_latest_at(snapshots@, block, i) && r == snapshots@[i].1,
{
    let mut lower: usize = 0;
    let mut upper: usize = snapshots.len() - 1;
    if block < snapshots[lower].0 {
        return 0;
    }
    if snapshots[upper].0 < block {
        assert(sorted_by_height(snapshots@) ==> is_latest_at(snapshots@, block, upper as int));
        return snapshots[upper].1;
    }
    while lower < upper
        invariant
            lower <= upper < snapshots@.len(),
            snapshots@[0].0 <= block,
            snapshots@[lower as int].0 <= block,
            sorted_by_height(snapshots@) ==> forall|j: int| upper < j < snapshots@.len() ==> snapshots@[j].0 > block,
        decreases upper - lower,
    {
        let center = upper - (upper - lower) / 2;
        let snapshot = snapshots[center];
        if snapshot.0 == block {
            assert(sorted_by_height(snapshots@) ==> is_latest_at(snapshots@, block, center as int));
            return snapshot.1;
        } else if snapshot.0 < block {
            lower = center;
        } else {
            upper = center - 1;
        }
    }
    assert(sorted_by_height(snapshots@) ==> is_latest_at(snapshots@, block, lower as int));
    snapshots[lower].1
}

/// Law: with strictly increasing heights the latest snapshot at a block is unique, so the
/// balance read back at a block is the one recorded by the last snapshot at or before it.
pub proof fn lemma_latest_snapshot_unique(s: Seq<(u64, u128)>, block: u64, i: int, k: int)
    requires
        forall|a: int, b: int| 0 <= a < b < s.len() ==> s[a].0 < s[b].0,
        is_latest_at(s, block, i),
        is_latest_at(s, block, k),
    ensures
        i == k,
{
    if i < k {
        assert(s[i].0 < s[k].0);
    } else if k < i {
        assert(s[k].0 < s[i].0);
    }
}

/// Balance of a user at `block`: zero without an allocation.
pub fn query_balance_at(snapshots: &Option<Vec<(u64, u128)>>, block: u64) -> (r: u128)
    requires
        snapshots matches Some(s) ==> s@.len() > 0,
    ensures
        snapshots is None ==> r == 0,
        snapshots matches Some(s) ==> (block < s@[0].0 ==> r == 0) && (s@[0].0 <= block
            && sorted_by_height(s@) ==> exists|i: int| is_latest_at(s@, block, i) && r == s@[i].1),
{
    match snapshots {
        Some(s) => binary_search(s, block),
        None => 0,
    }
}

/// Law: snapshots appended by withdrawals in non-decreasing blocks stay sorted.
pub proof fn lemma_push_keeps_sorted(s: Seq<(u64, u128)>, height: u64, amount: u128)
    requires
        sorted_by_height(s),
        s.len() > 0 ==> s.last().0 <= height,
    ensures
        sorted_by_height(s.push((height, amount))),
{
    let t = s.push((height, amount));
    assert forall|i: int, j: int| 0 <= i <= j < t.len() implies t[i].0 <= t[j].0 by {
        if j == s.len() && i < j {
            assert(s[i].0 <= s[s.len() - 1].0);
        }
    }
}

} // verus!
