//! The maToken ledger: a cw20 token whose transfers are finalized by the red bank, minted
//! and burnt by it, and whose balance changes are reported to the incentives contract.

use vstd::prelude::*;
use vstd::pervasive::VecAdditionalExecFns;
use vstd::string::StringExecFns;

use crate::error::{is_generic_err, ContractError};
use crate::util::byte_len;

verus! {

/// The contracts that the token reports to.
#[derive(Debug)]
pub struct Config {
    pub red_bank_address: String,
    pub incentives_address: String,
}

/// An account and its balance.
#[derive(Debug)]
pub struct Account {
    pub address: String,
    pub balance: u128,
}

/// Who may mint, and the cap on the supply after minting.
#[derive(Debug)]
pub struct MinterData {
    pub minter: String,
    pub cap: Option<u128>,
}

/// Token metadata and supply.
#[derive(Debug)]
pub struct TokenInfo {
    pub name: String,
    pub symbol: String,
    pub decimals: u8,
    pub total_supply: u128,
    pub mint: Option<MinterData>,
}

/// The token's state: its metadata and supply, and one account per address.
#[derive(Debug)]
pub struct Ledger {
    pub token_info: TokenInfo,
    pub accounts: Vec<Account>,
}

/// Balance of `address`: that of its account, zero without one.
pub open spec fn balance_of(accounts: Seq<Account>, address: Seq<char>) -> u128
    decreases accounts.len(),
{
    if accounts.len() == 0 {
        0
    } else if accounts.last().address@ == address {
        accounts.last().balance
    } else {
        balance_of(accounts.drop_last(), address)
    }
}

/// Sum of all balances.
pub open spec fn sum_balances(accounts: Seq<Account>) -> int
    decreases accounts.len(),
{
    if accounts.len() == 0 {
        0
    } else {
        sum_balances(accounts.drop_last()) + accounts.last().balance
    }
}

/// No two accounts share an address.
pub open spec fn unique_addresses(accounts: Seq<Account>) -> bool {
    forall|i: int, j: int|
        0 <= i < j < accounts.len() ==> #[trigger] accounts[i].address@ != #[trigger] accounts[j].address@
}

impl Ledger {
    /// Each address has at most one account.
    pub open spec fn wf(&self) -> bool {
        unique_addresses(self.accounts@)
    }

    /// Balance of `address` in this ledger.
    pub open spec fn balance_spec(&self, address: Seq<char>) -> u128 {
        balance_of(self.accounts@, address)
    }
}

proof fn lemma_balance_of_at(s: Seq<Account>, i: int)
    requires
        unique_addresses(s),
        0 <= i < s.len(),
    ensures
        balance_of(s, s[i].address@) == s[i].balance,
    decreases s.len(),
{
    if i < s.len() - 1 {
        assert(s.last() == s[s.len() - 1]);
        assert(s.last().address@ != s[i].address@);
        let t = s.drop_last();
        assert(t[i] == s[i]);
        lemma_balance_of_at(t, i);
    }
}

proof fn lemma_balance_of_absent(s: Seq<Account>, a: Seq<char>)
    requires
        forall|i: int| 0 <= i < s.len() ==> #[trigger] s[i].address@ != a,
    ensures
        balance_of(s, a) == 0,
    decreases s.len(),
{
    if s.len() > 0 {
        let t = s.drop_last();
        assert(s.last() == s[s.len() - 1]);
        assert forall|i: int| 0 <= i < t.len() implies #[trigger] t[i].address@ != a by {
            assert(t[i] == s[i]);
        }
        lemma_balance_of_absent(t, a);
    }
}

proof fn lemma_update_balance(s: Seq<Account>, i: int, x: Account)
    requires
        unique_addresses(s),
        0 <= i < s.len(),
        x.address@ == s[i].address@,
    ensures
        unique_addresses(s.update(i, x)),
        forall|a: Seq<char>| #[trigger] balance_of(s.update(i, x), a) == (if a == x.address@ {
            x.balance
        } else {
            balance_of(s, a)
        }),
        sum_balances(s.update(i, x)) == sum_balances(s) - s[i].balance + x.balance,
    decreases s.len(),
{
    let u = s.update(i, x);
    assert forall|j: int, k: int| 0 <= j < k < u.len() implies #[trigger] u[j].address@
        != #[trigger] u[k].address@ by {
        assert(u[j].address@ == s[j].address@ && u[k].address@ == s[k].address@);
    }
    if i == s.len() - 1 {
        assert(u.drop_last() =~= s.drop_last());
        assert(u.last() == x);
        assert(s.last() == s[i]);
        assert forall|a: Seq<char>| #[trigger] balance_of(u, a) == (if a == x.address@ {
            x.balance
        } else {
            balance_of(s, a)
        }) by {
            if a != x.address@ {
                assert(balance_of(u, a) == balance_of(u.drop_last(), a));
                assert(balance_of(s, a) == balance_of(s.drop_last(), a));
            }
        }
    } else {
        let t = s.drop_last();
        assert(t[i] == s[i]);
        assert forall|j: int, k: int| 0 <= j < k < t.len() implies #[trigger] t[j].address@
            != #[trigger] t[k].address@ by {
            assert(t[j] == s[j] && t[k] == s[k]);
        }
        lemma_update_balance(t, i, x);
        assert(u.drop_last() =~= t.update(i, x));
        assert(u.last() == s.last());
        assert(s.last() == s[s.len() - 1]);
        assert(s.last().address@ != x.address@);
        assert forall|a: Seq<char>| #[trigger] balance_of(u, a) == (if a == x.address@ {
            x.balance
        } else {
            balance_of(s, a)
        }) by {
            if s.last().address@ != a {
                assert(balance_of(u, a) == balance_of(t.update(i, x), a));
            }
        }
    }
}

proof fn lemma_push_balance(s: Seq<Account>, x: Account)
    requires
        unique_addresses(s),
        forall|i: int| 0 <= i < s.len() ==> #[trigger] s[i].address@ != x.address@,
    ensures
        unique_addresses(s.push(x)),
        forall|a: Seq<char>| #[trigger] balance_of(s.push(x), a) == (if a == x.address@ {
            x.balance
        } else {
            balance_of(s, a)
        }),
        sum_balances(s.push(x)) == sum_balances(s) + x.balance,
{
    let u = s.push(x);
    assert(u.drop_last() =~= s);
    assert forall|j: int, k: int| 0 <= j < k < u.len() implies #[trigger] u[j].address@
        != #[trigger] u[k].address@ by {
        if k == s.len() {
            assert(u[j] == s[j]);
        } else {
            assert(u[j] == s[j] && u[k] == s[k]);
        }
    }
    lemma_balance_of_absent(s, x.address@);
}

/// Position of the account of `address`, if it has one.
fn find_account(accounts: &Vec<Account>, address: &String) -> (r: Option<usize>)
    ensures
        r matches Some(i) ==> i < accounts@.len() && accounts@[i as int].address@ == address@,
        r is None ==> forall|i: int| 0 <= i < accounts@.len() ==> #[trigger] accounts@[i].address@
            != address@,
{
    let mut i: usize = 0;
    while i < accounts.len()
        invariant
            i <= accounts@.len(),
            forall|j: int| 0 <= j < i ==> #[trigger] accounts@[j].address@ != address@,
        decreases accounts@.len() - i,
    {
        if accounts[i].address == *address {
            return Some(i);
        }
        i = i + 1;
    }
    None
}

impl Ledger {
    /// Balance of `address`, zero if it has no account.
    pub fn balance(&self, address: &String) -> (r: u128)
        requires
            self.wf(),
        ensures
            r == self.balance_spec(address@),
    {
        match find_account(&self.accounts, address) {
            Some(i) => {
                proof {
                    lemma_balance_of_at(self.accounts@, i as int);
                }
                self.accounts[i].balance
            },
            None => {
                proof {
                    lemma_balance_of_absent(self.accounts@, address@);
                }
                0
            },
        }
    }

    /// Sets the balance of `address`, creating its account if needed.
    fn set_balance(&mut self, address: &String, amount: u128)
        requires
            old(self).wf(),
        ensures
            final(self).wf(),
            final(self).token_info == old(self).token_info,
            forall|a: Seq<char>| #[trigger] final(self).balance_spec(a) == (if a == address@ {
                amount
            } else {
                old(self).balance_spec(a)
            }),
            sum_balances(final(self).accounts@) == sum_balances(old(self).accounts@)
                - old(self).balance_spec(address@) + amount,
    {
        match find_account(&self.accounts, address) {
            Some(i) => {
                let x = Account { address: address.clone(), balance: amount };
                proof {
                    lemma_balance_of_at(self.accounts@, i as int);
                    lemma_update_balance(self.accounts@, i as int, x);
                }
                self.accounts.set(i, x);
            },
            None => {
                let x = Account { address: address.clone(), balance: amount };
                proof {
                    lemma_balance_of_absent(self.accounts@, address@);
                    lemma_push_balance(self.accounts@, x);
                }
                self.accounts.push(x);
            },
        }
    }
}

/// Balances that a transfer reports to the red bank and the incentives contract.
#[derive(Debug, Clone, Copy, PartialEq, Eq, Structural)]
pub struct TransferInfo {
    pub sender_previous_balance: u128,
    pub recipient_previous_balance: u128,
    pub total_supply: u128,
}

/// Balances reported by a transfer of `amount` from `sender` to `recipient` in `l`: the
/// sender's balance before, the recipient's balance between the debit and the credit, and
/// the supply.
pub open spec fn transfer_info(l: Ledger, sender: Seq<char>, recipient: Seq<char>, amount: u128) -> TransferInfo {
    TransferInfo {
        sender_previous_balance: l.balance_spec(sender),
        recipient_previous_balance: if sender == recipient {
            (l.balance_spec(sender) - amount) as u128
        } else {
            l.balance_spec(recipient)
        },
        total_supply: l.token_info.total_supply,
    }
}

/// `new` differs from `old` only in the balance of `address`, which is `value`.
pub open spec fn balance_set(new: Ledger, old: Ledger, address: Seq<char>, value: u128) -> bool {
    forall|a: Seq<char>| #[trigger] new.balance_spec(a) == (if a == address {
        value
    } else {
        old.balance_spec(a)
    })
}

/// `new` is `old` after moving `amount` from `sender` to `recipient` (nothing changes when
/// they are the same account).
pub open spec fn transferred(
    new: Ledger,
    old: Ledger,
    sender: Seq<char>,
    recipient: Seq<char>,
    amount: u128,
) -> bool {
    forall|a: Seq<char>| #[trigger] new.balance_spec(a) == (if sender == recipient {
        old.balance_spec(a) as int
    } else if a == sender {
        old.balance_spec(sender) - amount
    } else if a == recipient {
        old.balance_spec(recipient) + amount
    } else {
        old.balance_spec(a) as int
    })
}

/// Law: transferring an amount and then transferring it back restores every balance.
pub proof fn lemma_transfer_round_trip(
    l0: Ledger,
    l1: Ledger,
    l2: Ledger,
    a: Seq<char>,
    b: Seq<char>,
    amount: u128,
)
    requires
        transferred(l1, l0, a, b, amount),
        transferred(l2, l1, b, a, amount),
    ensures
        forall|x: Seq<char>| #[trigger] l2.balance_spec(x) == l0.balance_spec(x),
{
    assert forall|x: Seq<char>| #[trigger] l2.balance_spec(x) == l0.balance_spec(x) by {
        assert(l1.balance_spec(x) == l1.balance_spec(x));
        assert(l1.balance_spec(a) == l1.balance_spec(a));
        assert(l1.balance_spec(b) == l1.balance_spec(b));
    }
}

impl Ledger {
    /// Lowers the balance of `address` by `amount`, returning the balance before; an
    /// amount above the balance is an overflow and changes nothing.
    pub fn decrease_balance(&mut self, address: &String, amount: u128) -> (r: Result<
        u128,
        ContractError,
    >)
        requires
            old(self).wf(),
        ensures
            final(self).wf(),
            old(self).balance_spec(address@) < amount ==> r == Err::<u128, ContractError>(
                ContractError::Overflow,
            ) && *final(self) == *old(self),
            old(self).balance_spec(address@) >= amount ==> r == Ok::<u128, ContractError>(
                old(self).balance_spec(address@),
            ) && balance_set(
                *final(self),
                *old(self),
                address@,
                (old(self).balance_spec(address@) - amount) as u128,
            ) && final(self).token_info == old(self).token_info && sum_balances(final(self).accounts@)
                == sum_balances(old(self).accounts@) - amount,
    {
        let previous = self.balance(address);
        if previous < amount {
            return Err(ContractError::Overflow);
        }
        self.set_balance(address, previous - amount);
        Ok(previous)
    }

    /// Raises the balance of `address` by `amount`, returning the balance before.
    pub fn increase_balance(&mut self, address: &String, amount: u128) -> (r: u128)
        requires
            old(self).wf(),
            old(self).balance_spec(address@) + amount <= u128::MAX,
        ensures
            final(self).wf(),
            r == old(self).balance_spec(address@),
            balance_set(
                *final(self),
                *old(self),
                address@,
                (old(self).balance_spec(address@) + amount) as u128,
            ),
            final(self).token_info == old(self).token_info,
            sum_balances(final(self).accounts@) == sum_balances(old(self).accounts@) + amount,
    {
        let previous = self.balance(address);
        self.set_balance(address, previous + amount);
        previous
    }

    /// Moves `amount` from `sender` to `recipient`. An amount above the sender's balance is
    /// refused and changes nothing; a zero amount moves nothing and succeeds; the supply
    /// never changes.
    pub fn transfer(&mut self, sender: &String, recipient: &String, amount: u128) -> (r: Result<
        TransferInfo,
        ContractError,
    >)
        requires
            old(self).wf(),
            old(self).balance_spec(sender@) >= amount && sender@ != recipient@
                ==> old(self).balance_spec(recipient@) + amount <= u128::MAX,
        ensures
            final(self).wf(),
            old(self).balance_spec(sender@) < amount ==> r == Err::<
                TransferInfo,
                ContractError,
            >(ContractError::Overflow),
            r is Err ==> *final(self) == *old(self),
            old(self).balance_spec(sender@) >= amount ==> r == Ok::<
                TransferInfo,
                ContractError,
>(
                transfer_info(*old(self), sender@, recipient@, amount),
            ) && transferred(*final(self), *old(self), sender@, recipient@, amount)
                && final(self).token_info == old(self).token_info && sum_balances(
                final(self).accounts@,
            ) == sum_balances(old(self).accounts@),
    {
        let sender_previous_balance = match self.decrease_balance(sender, amount) {
            Ok(b) => b,
            Err(e) => {
                return Err(e);
            },
        };
        let ghost mid = *self;
        let recipient_previous_balance = self.increase_balance(recipient, amount);
        proof {
            let o = *old(self);
            let n = *self;
            assert forall|a: Seq<char>| #[trigger] n.balance_spec(a) == (if sender@ == recipient@ {
                o.balance_spec(a) as int
            } else if a == sender@ {
                o.balance_spec(sender@) - amount
            } else if a == recipient@ {
                o.balance_spec(recipient@) + amount
            } else {
                o.balance_spec(a) as int
            }) by {
                assert(mid.balance_spec(a) == (if a == sender@ {
                    (o.balance_spec(sender@) - amount) as u128
                } else {
                    o.balance_spec(a)
                }));
                assert(mid.balance_spec(recipient@) == (if recipient@ == sender@ {
                    (o.balance_spec(sender@) - amount) as u128
                } else {
                    o.balance_spec(recipient@)
                }));
            }
        }
        Ok(
            TransferInfo {
                sender_previous_balance,
                recipient_previous_balance,
                total_supply: self.token_info.total_supply,
            },
        )
    }

    /// Balance of `address` and the total supply.
    pub fn query_balance_and_total_supply(&self, address: &String) -> (r: (u128, u128))
        requires
            self.wf(),
        ensures
            r == (self.balance_spec(address@), self.token_info.total_supply),
    {
        (self.balance(address), self.token_info.total_supply)
    }
}

/// The supply equals the sum of all balances. Every token operation keeps this (each
/// states it in its `ensures`).
pub open spec fn supply_consistent(l: Ledger) -> bool {
    l.token_info.total_supply == sum_balances(l.accounts@)
}

/// Transfers `amount` from the sender to `recipient`; the red bank then finalizes it.
pub fn execute_transfer(ledger: &mut Ledger, sender: &String, recipient: &String, amount: u128) -> (r:
    Result<TransferInfo, ContractError>)
    requires
        old(ledger).wf(),
        amount > 0 && old(ledger).balance_spec(sender@) >= amount && sender@ != recipient@
            ==> old(ledger).balance_spec(recipient@) + amount <= u128::MAX,
    ensures
        supply_consistent(*old(ledger)) ==> supply_consistent(*final(ledger)),
        final(ledger).wf(),
        amount == 0 ==> r == Err::<TransferInfo, ContractError>(ContractError::ZeroAmount),
        amount > 0 && old(ledger).balance_spec(sender@) < amount ==> r == Err::<
            TransferInfo,
            ContractError,
        >(ContractError::Overflow),
        r is Err ==> *final(ledger) == *old(ledger),
        amount > 0 && old(ledger).balance_spec(sender@) >= amount ==> r is Ok && transferred(
            *final(ledger),
            *old(ledger),
            sender@,
            recipient@,
            amount,
        ) && final(ledger).token_info == old(ledger).token_info,
        r matches Ok(info) ==> info == transfer_info(*old(ledger), sender@, recipient@, amount),
{
    if amount == 0 {
        return Err(ContractError::ZeroAmount);
    }
    ledger.transfer(sender, recipient, amount)
}

/// Sends `amount` to a contract, which is then notified; the balances move as in a transfer.
pub fn execute_send(ledger: &mut Ledger, sender: &String, contract: &String, amount: u128) -> (r:
    Result<TransferInfo, ContractError>)
    requires
        old(ledger).wf(),
        amount > 0 && old(ledger).balance_spec(sender@) >= amount && sender@ != contract@
            ==> old(ledger).balance_spec(contract@) + amount <= u128::MAX,
    ensures
        supply_consistent(*old(ledger)) ==> supply_consistent(*final(ledger)),
        final(ledger).wf(),
        amount == 0 ==> r == Err::<TransferInfo, ContractError>(ContractError::ZeroAmount),
        amount > 0 && old(ledger).balance_spec(sender@) < amount ==> r == Err::<
            TransferInfo,
            ContractError,
        >(ContractError::Overflow),
        r is Err ==> *final(ledger) == *old(ledger),
        amount > 0 && old(ledger).balance_spec(sender@) >= amount ==> r is Ok && transferred(
            *final(ledger),
            *old(ledger),
            sender@,
            contract@,
            amount,
        ) && final(ledger).token_info == old(ledger).token_info,
        r matches Ok(info) ==> info == transfer_info(*old(ledger), sender@, contract@, amount),
{
    if amount == 0 {
        return Err(ContractError::ZeroAmount);
    }
    ledger.transfer(sender, contract, amount)
}

/// Moves a liquidated user's tokens to the liquidator; only the red bank may call it, and
/// the transfer is not finalized back on the red bank.
pub fn execute_transfer_on_liquidation(
    ledger: &mut Ledger,
    config: &Config,
    caller: &String,
    sender: &String,
    recipient: &String,
    amount: u128,
) -> (r: Result<TransferInfo, ContractError>)
    requires
        old(ledger).wf(),
        amount > 0 && old(ledger).balance_spec(sender@) >= amount && sender@ != recipient@
            ==> old(ledger).balance_spec(recipient@) + amount <= u128::MAX,
    ensures
        supply_consistent(*old(ledger)) ==> supply_consistent(*final(ledger)),
        final(ledger).wf(),
        caller@ != config.red_bank_address@ ==> r == Err::<TransferInfo, ContractError>(
            ContractError::Unauthorized,
        ),
        caller@ == config.red_bank_address@ && amount == 0 ==> r == Err::<
            TransferInfo,
            ContractError,
        >(ContractError::ZeroAmount),
        caller@ == config.red_bank_address@ && amount > 0 && old(ledger).balance_spec(sender@)
            < amount ==> r == Err::<TransferInfo, ContractError>(ContractError::Overflow),
        r is Err ==> *final(ledger) == *old(ledger),
        caller@ == config.red_bank_address@ && amount > 0 && old(ledger).balance_spec(sender@)
            >= amount ==> r is Ok && transferred(
            *final(ledger),
            *old(ledger),
            sender@,
            recipient@,
            amount,
        ) && final(ledger).token_info == old(ledger).token_info,
        r matches Ok(info) ==> info == transfer_info(*old(ledger), sender@, recipient@, amount),
{
    if *caller != config.red_bank_address {
        return Err(ContractError::Unauthorized);
    }
    if amount == 0 {
        return Err(ContractError::ZeroAmount);
    }
    ledger.transfer(sender, recipient, amount)
}

/// Burns `amount` of `user`'s tokens; only the red bank may. Returns the user's balance
/// and the supply before the burn.
pub fn execute_burn(
    ledger: &mut Ledger,
    config: &Config,
    caller: &String,
    user: &String,
    amount: u128,
) -> (r: Result<(u128, u128), ContractError>)
    requires
        old(ledger).wf(),
    ensures
        supply_consistent(*old(ledger)) ==> supply_consistent(*final(ledger)),
        final(ledger).wf(),
        caller@ != config.red_bank_address@ ==> r == Err::<(u128, u128), ContractError>(
            ContractError::Unauthorized,
        ),
        caller@ == config.red_bank_address@ && amount == 0 ==> r == Err::<
            (u128, u128),
            ContractError,
        >(ContractError::ZeroAmount),
        caller@ == config.red_bank_address@ && amount > 0 && (old(ledger).balance_spec(user@)
            < amount || old(ledger).token_info.total_supply < amount) ==> r == Err::<
            (u128, u128),
            ContractError,
        >(ContractError::Overflow),
        r is Err ==> *final(ledger) == *old(ledger),
        caller@ == config.red_bank_address@ && amount > 0 && old(ledger).balance_spec(user@)
            >= amount && old(ledger).token_info.total_supply >= amount ==> r == Ok::<
            (u128, u128),
            ContractError,
        >((old(ledger).balance_spec(user@), old(ledger).token_info.total_supply)) && balance_set(
            *final(ledger),
            *old(ledger),
            user@,
            (old(ledger).balance_spec(user@) - amount) as u128,
        ) && final(ledger).token_info.total_supply == old(ledger).token_info.total_supply - amount
            && sum_balances(final(ledger).accounts@) == sum_balances(old(ledger).accounts@)
            - amount,
{
    if *caller != config.red_bank_address {
        return Err(ContractError::Unauthorized);
    }
    if amount == 0 {
        return Err(ContractError::ZeroAmount);
    }
    let total_supply_before = ledger.token_info.total_supply;
    if ledger.balance(user) < amount || total_supply_before < amount {
        return Err(ContractError::Overflow);
    }
    let user_balance_before = match ledger.decrease_balance(user, amount) {
        Ok(b) => b,
        Err(e) => {
            return Err(e);
        },
    };
    let ghost mid = *ledger;
    ledger.token_info.total_supply = total_supply_before - amount;
    assert forall|a: Seq<char>| #[trigger] ledger.balance_spec(a) == mid.balance_spec(a) by {}
    Ok((user_balance_before, total_supply_before))
}

/// The caller is the token's minter.
pub open spec fn is_minter(info: TokenInfo, caller: Seq<char>) -> bool {
    info.mint matches Some(m) && m.minter@ == caller
}

/// Mints `amount` to `recipient`; only the minter may, and never above the cap. Returns the
/// recipient's balance and the supply before minting.
pub fn execute_mint(ledger: &mut Ledger, caller: &String, recipient: &String, amount: u128) -> (r:
    Result<(u128, u128), ContractError>)
    requires
        old(ledger).wf(),
        amount > 0 && is_minter(old(ledger).token_info, caller@) ==> old(
            ledger,
        ).token_info.total_supply + amount <= u128::MAX && old(ledger).balance_spec(recipient@)
            + amount <= u128::MAX,
    ensures
        supply_consistent(*old(ledger)) ==> supply_consistent(*final(ledger)),
        final(ledger).wf(),
        amount == 0 ==> r == Err::<(u128, u128), ContractError>(ContractError::ZeroAmount),
        amount > 0 && !is_minter(old(ledger).token_info, caller@) ==> r == Err::<
            (u128, u128),
            ContractError,
        >(ContractError::Unauthorized),
        amount > 0 && is_minter(old(ledger).token_info, caller@) && (old(
            ledger,
        ).token_info.mint.unwrap().cap matches Some(cap) && old(ledger).token_info.total_supply
            + amount > cap) ==> r == Err::<(u128, u128), ContractError>(
            ContractError::CannotExceedCap,
        ),
        r is Err ==> *final(ledger) == *old(ledger),
        amount > 0 && is_minter(old(ledger).token_info, caller@) && !(old(
            ledger,
        ).token_info.mint.unwrap().cap matches Some(cap) && old(ledger).token_info.total_supply
            + amount > cap) ==> r == Ok::<(u128, u128), ContractError>(
            (old(ledger).balance_spec(recipient@), old(ledger).token_info.total_supply),
        ) && balance_set(
            *final(ledger),
            *old(ledger),
            recipient@,
            (old(ledger).balance_spec(recipient@) + amount) as u128,
        ) && final(ledger).token_info.total_supply == old(ledger).token_info.total_supply + amount
            && sum_balances(final(ledger).accounts@) == sum_balances(old(ledger).accounts@)
            + amount,
{
    if amount == 0 {
        return Err(ContractError::ZeroAmount);
    }
    let cap = match &ledger.token_info.mint {
        Some(m) => {
            if m.minter != *caller {
                return Err(ContractError::Unauthorized);
            }
            m.cap
        },
        None => {
            return Err(ContractError::Unauthorized);
        },
    };
    let total_supply_before = ledger.token_info.total_supply;
    let total_supply = total_supply_before + amount;
    match cap {
        Some(limit) => {
            if total_supply > limit {
                return Err(ContractError::CannotExceedCap);
            }
        },
        None => {},
    }
    ledger.token_info.total_supply = total_supply;
    let rcpt_balance_before = ledger.increase_balance(recipient, amount);
    Ok((rcpt_balance_before, total_supply_before))
}

/// A token name of 3 to 50 UTF-8 bytes.
pub open spec fn valid_token_name(name: Seq<char>) -> bool {
    3 <= byte_len(name) <= 50
}

/// A byte allowed in a ticker symbol: `-`, `A`-`Z` or `a`-`z`.
pub open spec fn symbol_byte(b: u8) -> bool {
    b == 45 || (65 <= b <= 90) || (97 <= b <= 122)
}

/// A ticker symbol of 3 to 12 bytes, each allowed in a symbol.
pub open spec fn valid_token_symbol(symbol: Seq<char>) -> bool {
    let bytes = vstd::utf8::encode_utf8(symbol);
    &&& 3 <= bytes.len() <= 12
    &&& forall|i: int| 0 <= i < bytes.len() ==> #[trigger] symbol_byte(bytes[i])
}

/// Name, symbol and decimals pass the cw20 checks.
pub open spec fn valid_token_metadata(name: Seq<char>, symbol: Seq<char>, decimals: u8) -> bool {
    valid_token_name(name) && valid_token_symbol(symbol) && decimals <= 18
}

/// The message refusing a malformed ticker symbol.
pub open spec fn symbol_format_message() -> Seq<char> {
    "Ticker symbol is not in expected format [a-zA-Z\\-]{3,12}"@
}

/// `r` failed with message `m`.
pub open spec fn fails_with(r: Result<(), String>, m: Seq<char>) -> bool {
    r matches Err(e) && e@ == m
}

/// Calls `cw20_base::msg::InstantiateMsg::validate` on a message with this name, symbol
/// and decimals (the other fields of the message play no part in it). As its source shows,
/// it refuses a name outside 3 to 50 bytes, then a symbol outside 3 to 12 bytes or with a
/// byte other than `-`, `A`-`Z`, `a`-`z`, then more than 18 decimals, each with a generic
/// error whose message the contract gives, and accepts everything else.
#[verifier::external_body]
fn cw20_validate_metadata(name: &String, symbol: &String, decimals: u8) -> (r: Result<(), String>)
    ensures
        !valid_token_name(name@) ==> fails_with(
            r,
            "Name is not in the expected format (3-50 UTF-8 bytes)"@,
        ),
        valid_token_name(name@) && !valid_token_symbol(symbol@) ==> fails_with(
            r,
            symbol_format_message(),
        ),
        valid_token_name(name@) && valid_token_symbol(symbol@) && decimals > 18 ==> fails_with(
            r,
            "Decimals must not exceed 18"@,
        ),
        valid_token_metadata(name@, symbol@, decimals) ==> r is Ok,
{
    let msg = cw20_base::msg::InstantiateMsg {
        name: name.clone(),
        symbol: symbol.clone(),
        decimals,
        initial_balances: Vec::new(),
        mint: None,
        marketing: None,
    };
    match msg.validate() {
        Ok(()) => Ok(()),
        Err(cosmwasm_std::StdError::GenericErr { msg, .. }) => Err(msg),
        Err(e) => Err(e.to_string()),
    }
}

/// Sum of the amounts of the initial balances.
pub open spec fn sum_amounts(rows: Seq<(String, u128)>) -> int
    decreases rows.len(),
{
    if rows.len() == 0 {
        0
    } else {
        sum_amounts(rows.drop_last()) + rows.last().1
    }
}

/// Balance of `address` once the initial balances are written in order: the last row
/// for an address wins.
pub open spec fn initial_balance(rows: Seq<(String, u128)>, address: Seq<char>) -> u128
    decreases rows.len(),
{
    if rows.len() == 0 {
        0
    } else if rows.last().0@ == address {
        rows.last().1
    } else {
        initial_balance(rows.drop_last(), address)
    }
}

/// No address appears in two rows.
pub open spec fn distinct_addresses(rows: Seq<(String, u128)>) -> bool {
    forall|i: int, j: int| 0 <= i < j < rows.len() ==> #[trigger] rows[i].0@ != #[trigger] rows[j].0@
}

proof fn lemma_initial_balance_absent(rows: Seq<(String, u128)>, address: Seq<char>)
    requires
        forall|k: int| 0 <= k < rows.len() ==> #[trigger] rows[k].0@ != address,
    ensures
        initial_balance(rows, address) == 0,
    decreases rows.len(),
{
    if rows.len() > 0 {
        assert(rows.last() == rows[rows.len() - 1]);
        let t = rows.drop_last();
        assert forall|k: int| 0 <= k < t.len() implies #[trigger] t[k].0@ != address by {
            assert(t[k] == rows[k]);
        }
        lemma_initial_balance_absent(t, address);
    }
}

proof fn lemma_sum_amounts_prefix(rows: Seq<(String, u128)>, i: int)
    requires
        0 <= i <= rows.len(),
    ensures
        0 <= sum_amounts(rows.take(i)) <= sum_amounts(rows),
    decreases rows.len(),
{
    if rows.len() > 0 {
        if i == rows.len() {
            assert(rows.take(i) =~= rows);
            lemma_sum_amounts_prefix(rows.drop_last(), i - 1);
            assert(rows.drop_last().take(i - 1) =~= rows.drop_last());
        } else {
            lemma_sum_amounts_prefix(rows.drop_last(), i);
            assert(rows.drop_last().take(i) =~= rows.take(i));
        }
    }
}

/// Creates the token: checks its metadata, writes the initial balances (a later row for an
/// address replaces an earlier one, while the supply counts every row), and checks the
/// supply against the minting cap.
pub fn instantiate(
    name: String,
    symbol: String,
    decimals: u8,
    initial_balances: Vec<(String, u128)>,
    mint: Option<MinterData>,
) -> (r: Result<Ledger, ContractError>)
    requires
        valid_token_metadata(name@, symbol@, decimals) ==> sum_amounts(initial_balances@)
            <= u128::MAX,
    ensures
        !valid_token_name(name@) ==> is_generic_err(
            r,
            "Name is not in the expected format (3-50 UTF-8 bytes)"@,
        ),
        valid_token_name(name@) && !valid_token_symbol(symbol@) ==> is_generic_err(
            r,
            symbol_format_message(),
        ),
        valid_token_name(name@) && valid_token_symbol(symbol@) && decimals > 18 ==> is_generic_err(
            r,
            "Decimals must not exceed 18"@,
        ),
        valid_token_metadata(name@, symbol@, decimals) && (mint matches Some(m) && m.cap matches Some(
            cap,
        ) && sum_amounts(initial_balances@) > cap) ==> is_generic_err(
            r,
            "Initial supply greater than cap"@,
        ),
        valid_token_metadata(name@, symbol@, decimals) && !(mint matches Some(m)
            && m.cap matches Some(cap) && sum_amounts(initial_balances@) > cap) ==> (r matches Ok(
            ledger,
        ) && ledger.wf() && ledger.token_info.name == name && ledger.token_info.symbol == symbol
            && ledger.token_info.decimals == decimals && ledger.token_info.total_supply
            == sum_amounts(initial_balances@) && ledger.token_info.mint == mint && forall|
            a: Seq<char>,
        | #[trigger] ledger.balance_spec(a) == initial_balance(initial_balances@, a)),
        distinct_addresses(initial_balances@) && r is Ok ==> supply_consistent(r->Ok_0),
{
    match cw20_validate_metadata(&name, &symbol, decimals) {
        Ok(()) => {},
        Err(msg) => {
            return Err(ContractError::Generic { msg });
        },
    }
    let ghost rows = initial_balances@;
    let mut ledger = Ledger {
        token_info: TokenInfo { name, symbol, decimals, total_supply: 0, mint },
        accounts: Vec::new(),
    };
    let mut i: usize = 0;
    while i < initial_balances.len()
        invariant
            rows == initial_balances@,
            i <= rows.len(),
            sum_amounts(rows) <= u128::MAX,
            ledger.wf(),
            ledger.token_info.total_supply == sum_amounts(rows.take(i as int)),
            forall|a: Seq<char>| #[trigger] ledger.balance_spec(a) == initial_balance(
                rows.take(i as int),
                a,
            ),
            ledger.token_info.name == name && ledger.token_info.symbol == symbol
                && ledger.token_info.decimals == decimals && ledger.token_info.mint == mint,
            distinct_addresses(rows) ==> supply_consistent(ledger),
        decreases rows.len() - i,
    {
        let ghost prefix = rows.take(i as int);
        let ghost next = rows.take(i + 1);
        proof {
            assert(next.drop_last() =~= prefix);
            assert(next.last() == rows[i as int]);
            lemma_sum_amounts_prefix(rows, i + 1);
        }
        let (address, amount) = &initial_balances[i];
        let ghost before = ledger;
        proof {
            if distinct_addresses(rows) {
                assert forall|k: int| 0 <= k < prefix.len() implies #[trigger] prefix[k].0@ != address@ by {
                    assert(prefix[k] == rows[k]);
                    assert(rows[k].0@ != rows[i as int].0@);
                }
                lemma_initial_balance_absent(prefix, address@);
            }
        }
        ledger.set_balance(address, *amount);
        let ghost mid = ledger;
        ledger.token_info.total_supply = ledger.token_info.total_supply + *amount;
        proof {
            assert forall|a: Seq<char>| #[trigger] ledger.balance_spec(a) == initial_balance(next, a) by {
                assert(ledger.balance_spec(a) == mid.balance_spec(a));
                assert(before.balance_spec(a) == initial_balance(prefix, a));
                if a != address@ {
                    assert(initial_balance(next, a) == initial_balance(prefix, a));
                }
            }
        }
        i = i + 1;
    }
    proof {
        assert(rows.take(rows.len() as int) =~= rows);
    }
    let over_cap = match &ledger.token_info.mint {
        Some(m) => match m.cap {
            Some(cap) => ledger.token_info.total_supply > cap,
            None => false,
        },
        None => false,
    };
    if over_cap {
        return Err(ContractError::generic_err("Initial supply greater than cap"));
    }
    Ok(ledger)
}

/// The bytes of `prefix` begin `bytes`.
pub open spec fn has_prefix(bytes: Seq<u8>, prefix: Seq<u8>) -> bool {
    prefix.len() <= bytes.len() && bytes.take(prefix.len() as int) =~= prefix
}

/// The version prefix from which a migration is supported, as bytes: `v0.1.`.
pub open spec fn supported_version_prefix() -> Seq<u8> {
    seq![118u8, 48u8, 46u8, 49u8, 46u8]
}

/// The message refusing a migration from another contract.
pub open spec fn other_contract_message(name: Seq<char>, old_contract: Seq<char>) -> Seq<char> {
    "This is "@ + name + ", cannot migrate from "@ + old_contract
}

/// Decides a migration of the token contract `name` from the stored contract name and
/// version: only the same contract, and only from a `v0.1.` version, may migrate.
pub fn check_migration(name: &str, old_contract: &String, old_version: &String) -> (r: Result<
    (),
    ContractError,
>)
    ensures
        old_contract@ != name@ ==> (r matches Err(ContractError::Generic { msg }) && msg@
            == other_contract_message(name@, old_contract@)),
        old_contract@ == name@ && has_prefix(
            vstd::utf8::encode_utf8(old_version@),
            supported_version_prefix(),
        ) ==> r == Ok::<(), ContractError>(()),
        old_contract@ == name@ && !has_prefix(
            vstd::utf8::encode_utf8(old_version@),
            supported_version_prefix(),
        ) ==> (r matches Err(ContractError::Generic { msg }) && msg@ == "Unknown version "@
            + old_version@),
{
    let name_owned = name.to_owned();
    if *old_contract != name_owned {
        let mut msg = String::from_str("This is ");
        msg.append(name);
        msg.append(", cannot migrate from ");
        msg.append(old_contract.as_str());
        return Err(ContractError::Generic { msg });
    }
    let bytes = old_version.as_str().as_bytes();
    let prefix: [u8; 5] = [118u8, 48u8, 46u8, 49u8, 46u8];
    let mut matches = bytes.len() >= 5;
    let mut i: usize = 0;
    while matches && i < 5
        invariant
            bytes@ == vstd::utf8::encode_utf8(old_version@),
            prefix@ == supported_version_prefix(),
            i <= 5,
            matches ==> bytes@.len() >= 5,
            matches ==> forall|j: int| 0 <= j < i ==> bytes@[j] == prefix@[j],
            !matches ==> !has_prefix(bytes@, prefix@),
        decreases 5 - i,
    {
        if bytes[i] != prefix[i] {
            matches = false;
            assert(bytes@.take(5)[i as int] != prefix@[i as int]);
        }
        i = i + 1;
    }
    if matches {
        assert(bytes@.take(5) =~= prefix@);
        Ok(())
    } else {
        let mut msg = String::from_str("Unknown version ");
        msg.append(old_version.as_str());
        Err(ContractError::Generic { msg })
    }
}

impl Ledger {
    /// Deletes every account whose balance is zero, a page of ten accounts at a time: each
    /// page starts after the last account of the previous page that kept a balance, or at
    /// the first account when the previous page kept none, until a page comes back empty.
    /// Returns the deleted addresses in the order they were deleted.
    pub fn purge_zero_balances(&mut self) -> (purged: Vec<String>)
        ensures
            final(self).token_info == old(self).token_info,
            final(self).accounts@ == nonzero_accounts(old(self).accounts@),
            purged@ == zero_balance_addresses(old(self).accounts@),
            old(self).wf() ==> final(self).wf(),
            old(self).wf() ==> forall|a: Seq<char>| #[trigger] final(self).balance_spec(a)
                == old(self).balance_spec(a),
    {
        let ghost orig = self.accounts@;
        let ghost info = self.token_info;
        let ghost mut p: int = 0;
        let mut purged: Vec<String> = Vec::new();
        let mut start: usize = 0;
        assert(orig.take(0) =~= Seq::<Account>::empty());
        assert(nonzero_accounts(orig.take(0)) + orig.skip(0) =~= orig);
        while start < self.accounts.len()
            invariant
                0 <= p <= orig.len(),
                self.accounts@ == nonzero_accounts(orig.take(p)) + orig.skip(p),
                start <= nonzero_accounts(orig.take(p)).len(),
                purged@ == zero_balance_addresses(orig.take(p)),
                self.token_info == info,
            decreases orig.len() - p, self.accounts.len() - start,
        {
            let mut idx = start;
            let mut count: usize = 0;
            let mut kept_any = false;
            let ghost p0 = p;
            let ghost len0 = self.accounts.len();
            while count < 10 && idx < self.accounts.len()
                invariant
                    0 <= p0 <= p <= orig.len(),
                    self.accounts@ == nonzero_accounts(orig.take(p)) + orig.skip(p),
                    start <= idx <= nonzero_accounts(orig.take(p)).len(),
                    purged@ == zero_balance_addresses(orig.take(p)),
                    self.token_info == info,
                    count <= 10,
                    start < len0,
                    p == p0 ==> self.accounts.len() == len0,
                    !kept_any ==> idx == start,
                    kept_any ==> idx > start,
                    count > 0 && !kept_any ==> p > p0,
                decreases 10 - count,
            {
                let ghost x = nonzero_accounts(orig.take(p));
                proof {
                    lemma_nonzero_accounts_nonzero(orig.take(p));
                    assert(orig.skip(p).len() == orig.len() - p);
                    assert(self.accounts@.len() == x.len() + orig.len() - p);
                    if idx == x.len() {
                        assert(orig.skip(p)[0] == orig[p]);
                        assert((x + orig.skip(p))[idx as int] == orig.skip(p)[0]);
                    }
                    if idx < x.len() {
                        assert(self.accounts@[idx as int] == x[idx as int]);
                    } else {
                        assert(self.accounts@[idx as int] == orig[p]);
                    }
                }
                if self.accounts[idx].balance == 0 {
                    let account = self.accounts.remove(idx);
                    purged.push(account.address);
                    proof {
                        lemma_purge_step(orig, p);
                        assert((x + orig.skip(p)).remove(idx as int) =~= x + orig.skip(p + 1));
                        p = p + 1;
                    }
                } else {
                    proof {
                        if idx == x.len() {
                            lemma_purge_step(orig, p);
                            assert(x + orig.skip(p) =~= x.push(orig[p]) + orig.skip(p + 1));
                            p = p + 1;
                        }
                    }
                    idx = idx + 1;
                    kept_any = true;
                }
                count = count + 1;
            }
            if kept_any {
                start = idx;
            } else {
                start = 0;
            }
        }
        assert(orig.take(p) =~= orig);
        assert(nonzero_accounts(orig.take(p)) + orig.skip(p) =~= nonzero_accounts(orig));
        proof {
            if unique_addresses(orig) {
                lemma_purge_changes_no_balance(orig);
            }
        }
        purged
    }
}

/// The accounts with a non-zero balance, in order.
pub open spec fn nonzero_accounts(s: Seq<Account>) -> Seq<Account>
    decreases s.len(),
{
    if s.len() == 0 {
        s
    } else if s.last().balance != 0 {
        nonzero_accounts(s.drop_last()).push(s.last())
    } else {
        nonzero_accounts(s.drop_last())
    }
}

/// The addresses of the accounts with a zero balance, in order.
pub open spec fn zero_balance_addresses(s: Seq<Account>) -> Seq<String>
    decreases s.len(),
{
    if s.len() == 0 {
        Seq::empty()
    } else if s.last().balance == 0 {
        zero_balance_addresses(s.drop_last()).push(s.last().address)
    } else {
        zero_balance_addresses(s.drop_last())
    }
}

proof fn lemma_purge_step(s: Seq<Account>, p: int)
    requires
        0 <= p < s.len(),
    ensures
        s.take(p + 1).drop_last() == s.take(p),
        s.take(p + 1).last() == s[p],
        s[p].balance != 0 ==> nonzero_accounts(s.take(p + 1)) == nonzero_accounts(s.take(p)).push(s[p]),
        s[p].balance == 0 ==> nonzero_accounts(s.take(p + 1)) == nonzero_accounts(s.take(p)),
        s[p].balance == 0 ==> zero_balance_addresses(s.take(p + 1)) == zero_balance_addresses(
            s.take(p),
        ).push(s[p].address),
        s[p].balance != 0 ==> zero_balance_addresses(s.take(p + 1)) == zero_balance_addresses(
            s.take(p),
        ),
{
    assert(s.take(p + 1).drop_last() =~= s.take(p));
}

proof fn lemma_nonzero_accounts_nonzero(s: Seq<Account>)
    ensures
        forall|i: int| 0 <= i < nonzero_accounts(s).len() ==> #[trigger] nonzero_accounts(s)[i].balance != 0,
    decreases s.len(),
{
    if s.len() > 0 {
        lemma_nonzero_accounts_nonzero(s.drop_last());
        let r = nonzero_accounts(s.drop_last());
        if s.last().balance != 0 {
            assert forall|i: int| 0 <= i < r.push(s.last()).len() implies #[trigger] r.push(
                s.last(),
            )[i].balance != 0 by {
                if i < r.len() {
                    assert(r.push(s.last())[i] == r[i]);
                }
            }
        }
    }
}

proof fn lemma_nonzero_accounts_from(s: Seq<Account>)
    ensures
        forall|i: int| 0 <= i < nonzero_accounts(s).len() ==> exists|j: int|
            0 <= j < s.len() && #[trigger] nonzero_accounts(s)[i] == s[j],
    decreases s.len(),
{
    if s.len() > 0 {
        let t = s.drop_last();
        lemma_nonzero_accounts_from(t);
        let r = nonzero_accounts(t);
        assert forall|i: int| 0 <= i < nonzero_accounts(s).len() implies exists|j: int|
            0 <= j < s.len() && #[trigger] nonzero_accounts(s)[i] == s[j] by {
            if i < r.len() {
                let j = choose|j: int| 0 <= j < t.len() && r[i] == t[j];
                assert(t[j] == s[j]);
                if s.last().balance != 0 {
                    assert(r.push(s.last())[i] == r[i]);
                }
                assert(nonzero_accounts(s)[i] == s[j]);
            } else {
                assert(nonzero_accounts(s)[i] == s[s.len() - 1]);
            }
        }
    }
}

/// Law: deleting the accounts with a zero balance changes no balance and no total, and
/// leaves at most one account per address.
pub proof fn lemma_purge_changes_no_balance(s: Seq<Account>)
    requires
        unique_addresses(s),
    ensures
        unique_addresses(nonzero_accounts(s)),
        forall|a: Seq<char>| #[trigger] balance_of(nonzero_accounts(s), a) == balance_of(s, a),
        sum_balances(nonzero_accounts(s)) == sum_balances(s),
    decreases s.len(),
{
    if s.len() > 0 {
        let t = s.drop_last();
        let l = s.last();
        assert(l == s[s.len() - 1]);
        assert forall|i: int, j: int| 0 <= i < j < t.len() implies #[trigger] t[i].address@
            != #[trigger] t[j].address@ by {
            assert(t[i] == s[i] && t[j] == s[j]);
        }
        lemma_purge_changes_no_balance(t);
        lemma_nonzero_accounts_from(t);
        let r = nonzero_accounts(t);
        assert forall|i: int| 0 <= i < r.len() implies #[trigger] r[i].address@ != l.address@ by {
            let j = choose|j: int| 0 <= j < t.len() && r[i] == t[j];
            assert(t[j] == s[j]);
        }
        if l.balance != 0 {
            let n = r.push(l);
            assert(n.drop_last() =~= r);
            assert forall|i: int, j: int| 0 <= i < j < n.len() implies #[trigger] n[i].address@
                != #[trigger] n[j].address@ by {
                if j == n.len() - 1 {
                    assert(n[i] == r[i]);
                } else {
                    assert(n[i] == r[i] && n[j] == r[j]);
                }
            }
            assert forall|a: Seq<char>| #[trigger] balance_of(n, a) == balance_of(s, a) by {
                assert(n.last() == l);
                if a != l.address@ {
                    assert(balance_of(n, a) == balance_of(r, a));
                    assert(balance_of(r, a) == balance_of(t, a));
                }
            }
        } else {
            assert forall|a: Seq<char>| #[trigger] balance_of(r, a) == balance_of(s, a) by {
                if a == l.address@ {
                    assert forall|i: int| 0 <= i < t.len() implies #[trigger] t[i].address@ != a by {
                        assert(t[i] == s[i]);
                    }
                    lemma_balance_of_absent(t, a);
                }
            }
        }
    }
}

} // verus!


