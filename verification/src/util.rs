use vstd::prelude::*;

use vstd::string::StringExecFns;

use crate::error::ContractError;

verus! {

/// Compares two byte strings (canonical addresses, asset references).
pub fn bytes_eq(a: &Vec<u8>, b: &Vec<u8>) -> (r: bool)
    ensures
        r == (a@ == b@),
{
    if a.len() != b.len() {
        return false;
    }
    let mut i: usize = 0;
    while i < a.len()
        invariant
            a.len() == b.len(),
            i <= a.len(),
            forall|j: int| 0 <= j < i ==> a@[j] == b@[j],
        decreases a.len() - i,
    {
        if a[i] != b[i] {
            return false;
        }
        i = i + 1;
    }
    assert(a@ =~= b@);
    true
}

/// Only the owner may perform the action.
pub fn assert_owner(sender: &Vec<u8>, owner: &Vec<u8>) -> (r: Result<(), ContractError>)
    ensures
        sender@ == owner@ ==> r == Ok::<(), ContractError>(()),
        sender@ != owner@ ==> r == Err::<(), ContractError>(ContractError::Unauthorized),
{
    if bytes_eq(sender, owner) {
        Ok(())
    } else {
        Err(ContractError::Unauthorized)
    }
}

/// Length of a string in UTF-8 bytes.
pub open spec fn byte_len(s: Seq<char>) -> nat {
    vstd::utf8::encode_utf8(s).len()
}

/// The strings of `parts` separated by `sep`.
pub open spec fn join(parts: Seq<Seq<char>>, sep: Seq<char>) -> Seq<char>
    decreases parts.len(),
{
    if parts.len() == 0 {
        Seq::empty()
    } else if parts.len() == 1 {
        parts[0]
    } else {
        join(parts.drop_last(), sep) + sep + parts.last()
    }
}

/// The names of all conditions.
pub open spec fn condition_names(conditions: Seq<(bool, String)>) -> Seq<Seq<char>> {
    Seq::new(conditions.len(), |i: int| conditions[i].1@)
}

/// The names of the conditions that do not hold, in order.
pub open spec fn failed_names(conditions: Seq<(bool, String)>) -> Seq<Seq<char>>
    decreases conditions.len(),
{
    if conditions.len() == 0 {
        Seq::empty()
    } else {
        let rest = failed_names(conditions.drop_last());
        if conditions.last().0 {
            rest
        } else {
            rest.push(conditions.last().1@)
        }
    }
}

/// The message listing every parameter and those that are out of range.
pub open spec fn conditions_message(conditions: Seq<(bool, String)>) -> Seq<char> {
    "["@ + join(condition_names(conditions), ", "@) + "] should be less or equal 1. Invalid params: ["@
        + join(failed_names(conditions), ", "@) + "]"@
}

/// All conditions hold.
pub open spec fn all_hold(conditions: Seq<(bool, String)>) -> bool {
    forall|i: int| 0 <= i < conditions.len() ==> #[trigger] conditions[i].0
}

proof fn lemma_failed_names_empty(conditions: Seq<(bool, String)>)
    ensures
        (failed_names(conditions).len() == 0) == all_hold(conditions),
    decreases conditions.len(),
{
    if conditions.len() > 0 {
        let init = conditions.drop_last();
        lemma_failed_names_empty(init);
        if all_hold(init) && conditions.last().0 {
            assert forall|i: int| 0 <= i < conditions.len() implies #[trigger] conditions[i].0 by {
                if i < conditions.len() - 1 {
                    assert(init[i] == conditions[i]);
                }
            }
        }
        if !all_hold(init) {
            let i = choose|i: int| 0 <= i < init.len() && !#[trigger] init[i].0;
            assert(conditions[i] == init[i]);
        }
    }
}

/// Checks a list of named conditions: `Ok` when all hold, otherwise an error naming every
/// parameter and, among them, those whose condition fails.
pub fn all_conditions_valid(conditions_and_names: &Vec<(bool, String)>) -> (r: Result<
    (),
    ContractError,
>)
    ensures
        all_hold(conditions_and_names@) ==> r == Ok::<(), ContractError>(()),
        !all_hold(conditions_and_names@) ==> (r matches Err(ContractError::Generic { msg })
            && msg@ == conditions_message(conditions_and_names@)),
{
    let ghost c = conditions_and_names@;
    let mut all = String::new();
    let mut failed = String::new();
    let mut n_failed: usize = 0;
    let mut i: usize = 0;
    while i < conditions_and_names.len()
        invariant
            c == conditions_and_names@,
            i <= c.len(),
            all@ == join(condition_names(c.take(i as int)), ", "@),
            failed@ == join(failed_names(c.take(i as int)), ", "@),
            n_failed == failed_names(c.take(i as int)).len(),
            n_failed <= i,
        decreases c.len() - i,
    {
        let ghost prefix = c.take(i as int);
        let ghost next = c.take(i + 1);
        assert(next.drop_last() =~= prefix);
        assert(condition_names(next) =~= condition_names(prefix).push(c[i as int].1@));
        assert(condition_names(next).drop_last() =~= condition_names(prefix));
        let (holds, name) = &conditions_and_names[i];
        if i > 0 {
            all.append(", ");
        }
        all.append(name.as_str());
        if !*holds {
            assert(failed_names(next) == failed_names(prefix).push(c[i as int].1@));
            assert(failed_names(next).drop_last() =~= failed_names(prefix));
            if n_failed > 0 {
                failed.append(", ");
            }
            failed.append(name.as_str());
            n_failed = n_failed + 1;
        } else {
            assert(failed_names(next) == failed_names(prefix));
        }
        i = i + 1;
    }
    proof {
        assert(c.take(c.len() as int) =~= c);
        lemma_failed_names_empty(c);
    }
    if n_failed == 0 {
        Ok(())
    } else {
        let mut msg = String::from_str("[");
        msg.append(all.as_str());
        msg.append("] should be less or equal 1. Invalid params: [");
        msg.append(failed.as_str());
        msg.append("]");
        Err(ContractError::Generic { msg })
    }
}

} // verus!
