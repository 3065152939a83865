use vstd::prelude::*;

use crate::error::ContractError;

verus! {

/// Whether bit `index` of `bitmap` is set.
pub open spec fn bit_is_set(bitmap: u128, index: u32) -> bool {
    (bitmap >> index) & 1u128 == 1u128
}

/// Reads bit `index` of a user's asset bitmap; indices of 128 or more are rejected.
pub fn get_bit(bitmap: u128, index: u32) -> (r: Result<bool, ContractError>)
    ensures
        index >= 128 ==> r == Err::<bool, ContractError>(ContractError::IndexOutOfRange),
        index < 128 ==> r == Ok::<bool, ContractError>(bit_is_set(bitmap, index)),
{
    if index >= 128 {
        return Err(ContractError::IndexOutOfRange);
    }
    Ok(((bitmap >> index) & 1u128) == 1u128)
}

/// Sets bit `index` of a user's asset bitmap to one.
pub fn set_bit(bitmap: &mut u128, index: u32) -> (r: Result<(), ContractError>)
    ensures
        index >= 128 ==> r == Err::<(), ContractError>(ContractError::IndexOutOfRange)
            && *final(bitmap) == *old(bitmap),
        index < 128 ==> r == Ok::<(), ContractError>(()) && *final(bitmap) == *old(bitmap) | (
        1u128 << index),
{
    if index >= 128 {
        return Err(ContractError::IndexOutOfRange);
    }
    *bitmap = *bitmap | (1u128 << index);
    Ok(())
}

/// Sets bit `index` of a user's asset bitmap to zero.
pub fn unset_bit(bitmap: &mut u128, index: u32) -> (r: Result<(), ContractError>)
    ensures
        index >= 128 ==> r == Err::<(), ContractError>(ContractError::IndexOutOfRange)
            && *final(bitmap) == *old(bitmap),
        index < 128 ==> r == Ok::<(), ContractError>(()) && *final(bitmap) == *old(bitmap) & !(
        1u128 << index),
{
    if index >= 128 {
        return Err(ContractError::IndexOutOfRange);
    }
    *bitmap = *bitmap & !(1u128 << index);
    Ok(())
}

/// After setting a bit, that bit reads as set and every other bit reads as before.
pub proof fn lemma_set_bit_reads(bitmap: u128, index: u32, other: u32)
    requires
        index < 128,
        other < 128,
    ensures
        bit_is_set(bitmap | (1u128 << index), index),
        other != index ==> bit_is_set(bitmap | (1u128 << index), other) == bit_is_set(
            bitmap,
            other,
        ),
{
    assert(((bitmap | (1u128 << index)) >> index) & 1u128 == 1u128) by (bit_vector)
        requires
            index < 128,
    ;
    assert(other != index ==> (((bitmap | (1u128 << index)) >> other) & 1u128 == 1u128) == (((
    bitmap >> other) & 1u128) == 1u128)) by (bit_vector)
        requires
            index < 128,
            other < 128,
    ;
}

/// After clearing a bit, that bit reads as unset and every other bit reads as before.
pub proof fn lemma_unset_bit_reads(bitmap: u128, index: u32, other: u32)
    requires
        index < 128,
        other < 128,
    ensures
        !bit_is_set(bitmap & !(1u128 << index), index),
        other != index ==> bit_is_set(bitmap & !(1u128 << index), other) == bit_is_set(
            bitmap,
            other,
        ),
{
    assert(((bitmap & !(1u128 << index)) >> index) & 1u128 == 0u128) by (bit_vector)
        requires
            index < 128,
    ;
    assert(other != index ==> (((bitmap & !(1u128 << index)) >> other) & 1u128 == 1u128) == (((
    bitmap >> other) & 1u128) == 1u128)) by (bit_vector)
        requires
            index < 128,
            other < 128,
    ;
}

/// Setting a bit and then clearing it leaves every other bit as it was; setting an already
/// set bit changes nothing.
pub proof fn lemma_set_then_unset(bitmap: u128, index: u32)
    requires
        index < 128,
    ensures
        bit_is_set(bitmap, index) ==> bitmap | (1u128 << index) == bitmap,
        !bit_is_set(bitmap, index) ==> (bitmap | (1u128 << index)) & !(1u128 << index) == bitmap,
{
    assert(((bitmap >> index) & 1u128 == 1u128) ==> bitmap | (1u128 << index) == bitmap)
        by (bit_vector)
        requires
            index < 128,
    ;
    assert(!((bitmap >> index) & 1u128 == 1u128) ==> (bitmap | (1u128 << index)) & !(1u128
        << index) == bitmap) by (bit_vector)
        requires
            index < 128,
    ;
}

} // verus!
