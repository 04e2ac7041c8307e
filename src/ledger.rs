//! Account state, and the replay of transactions over it.
use crate::amount::{amount_of_units, in_i128, Amount};
use crate::transaction::{Tx, TxType};
use std::collections::HashMap;
use vstd::prelude::*;

verus! {

broadcast use vstd::std_specs::hash::group_hash_axioms;

/// The funds of one client.
#[derive(Clone, Copy, Debug, PartialEq, Eq, Structural)]
pub struct Account {
    pub available: Amount,
    pub held: Amount,
    pub total: Amount,
    pub locked: bool,
}

/// An account with no funds, unlocked.
pub open spec fn empty_account() -> Account {
    Account {
        available: amount_of_units(0),
        held: amount_of_units(0),
        total: amount_of_units(0),
        locked: false,
    }
}

impl Default for Account {
    fn default() -> (r: Account)
        ensures
            r == empty_account(),
    {
        Account {
            available: Amount::zero(),
            held: Amount::zero(),
            total: Amount::zero(),
            locked: false,
        }
    }
}

/// The account with `available`, `held` and `total` replaced by the given values.
pub open spec fn with_funds(acc: Account, available: int, held: int, total: int) -> Account {
    Account {
        available: amount_of_units(available),
        held: amount_of_units(held),
        total: amount_of_units(total),
        locked: acc.locked,
    }
}

/// Whether each of the three balances fits an `Amount`.
pub open spec fn funds_fit(available: int, held: int, total: int) -> bool {
    in_i128(available) && in_i128(held) && in_i128(total)
}

/// The account and the recorded amounts after `tx` runs on `acc`. `amounts` maps each
/// applied deposit to its amount and each applied withdrawal to the negated amount.
/// A withdrawal beyond the available funds, a reference to an unrecorded transaction,
/// and a transaction whose balances would leave the range of an `Amount`, change nothing.
pub open spec fn run_spec(acc: Account, amounts: Map<u32, Amount>, tx: Tx) -> (Account, Map<
    u32,
    Amount,
>) {
    let (av, hd, tt) = (acc.available@, acc.held@, acc.total@);
    let id = tx.tx_id;
    match tx.tx_type {
        TxType::Deposit(a) => if funds_fit(av + a@, hd, tt + a@) {
            (with_funds(acc, av + a@, hd, tt + a@), amounts.insert(id, a))
        } else {
            (acc, amounts)
        },
        TxType::Withdrawal(a) => if av >= a@ && funds_fit(av - a@, hd, tt - a@) && in_i128(-a@) {
            (with_funds(acc, av - a@, hd, tt - a@), amounts.insert(id, amount_of_units(-a@)))
        } else {
            (acc, amounts)
        },
        TxType::Dispute => if amounts.contains_key(id) && funds_fit(
            av - amounts[id]@,
            hd + amounts[id]@,
            tt,
        ) {
            (with_funds(acc, av - amounts[id]@, hd + amounts[id]@, tt), amounts)
        } else {
            (acc, amounts)
        },
        TxType::Resolve => if amounts.contains_key(id) && funds_fit(
            av + amounts[id]@,
            hd - amounts[id]@,
            tt,
        ) {
            (with_funds(acc, av + amounts[id]@, hd - amounts[id]@, tt), amounts)
        } else {
            (acc, amounts)
        },
        TxType::Chargeback => if amounts.contains_key(id) && funds_fit(
            av,
            hd - amounts[id]@,
            tt - amounts[id]@,
        ) {
            (
                Account { locked: true, ..with_funds(acc, av, hd - amounts[id]@, tt - amounts[id]@) },
                amounts,
            )
        } else {
            (acc, amounts)
        },
    }
}

/// The accounts and recorded amounts after `tx`: the client's account, created empty
/// where it is new, is run on `tx` and stored back.
pub open spec fn step_spec(accounts: Map<u16, Account>, amounts: Map<u32, Amount>, tx: Tx) -> (Map<
    u16,
    Account,
>, Map<u32, Amount>) {
    let acc = if accounts.contains_key(tx.client_id) {
        accounts[tx.client_id]
    } else {
        empty_account()
    };
    let (next, next_amounts) = run_spec(acc, amounts, tx);
    (accounts.insert(tx.client_id, next), next_amounts)
}

/// The accounts and recorded amounts after running `txs` in order, from no accounts.
pub open spec fn replay_spec(txs: Seq<Tx>) -> (Map<u16, Account>, Map<u32, Amount>)
    decreases txs.len(),
{
    if txs.len() == 0 {
        (Map::empty(), Map::empty())
    } else {
        let (accounts, amounts) = replay_spec(txs.drop_last());
        step_spec(accounts, amounts, txs.last())
    }
}

impl Account {
    /// Runs `tx` on this account, recording the amount of an applied deposit or withdrawal.
    pub fn run(&mut self, amounts: &mut HashMap<u32, Amount>, tx: Tx)
        ensures
            (*final(self), final(amounts)@) == run_spec(*old(self), old(amounts)@, tx),
    {
        let tx_id = tx.tx_id;
        match tx.tx_type {
            TxType::Deposit(amount) => {
                match (self.available.checked_add(amount), self.total.checked_add(amount)) {
                    (Some(available), Some(total)) => {
                        self.available = available;
                        self.total = total;
                        amounts.insert(tx_id, amount);
                    },
                    _ => {},
                }
            },
            TxType::Withdrawal(amount) => {
                if self.available.units >= amount.units {
                    match (
                        self.available.checked_sub(amount),
                        self.total.checked_sub(amount),
                        amount.checked_neg(),
                    ) {
                        (Some(available), Some(total), Some(negated)) => {
                            self.available = available;
                            self.total = total;
                            amounts.insert(tx_id, negated);
                        },
                        _ => {},
                    }
                }
            },
            TxType::Dispute => match amounts.get(&tx_id) {
                Some(amount) => {
                    match (self.available.checked_sub(*amount), self.held.checked_add(*amount)) {
                        (Some(available), Some(held)) => {
                            self.available = available;
                            self.held = held;
                        },
                        _ => {},
                    }
                },
                None => {},
            },
            TxType::Resolve => match amounts.get(&tx_id) {
                Some(amount) => {
                    match (self.available.checked_add(*amount), self.held.checked_sub(*amount)) {
                        (Some(available), Some(held)) => {
                            self.available = available;
                            self.held = held;
                        },
                        _ => {},
                    }
                },
                None => {},
            },
            TxType::Chargeback => match amounts.get(&tx_id) {
                Some(amount) => {
                    match (self.held.checked_sub(*amount), self.total.checked_sub(*amount)) {
                        (Some(held), Some(total)) => {
                            self.held = held;
                            self.total = total;
                            self.locked = true;
                        },
                        _ => {},
                    }
                },
                None => {},
            },
        }
    }
}

/// The state threaded through a replay: the accounts by client id, and the signed amount
/// of each applied deposit and withdrawal by transaction id.
#[derive(Debug)]
pub struct State {
    pub accounts: HashMap<u16, Account>,
    pub amounts: HashMap<u32, Amount>,
}

impl Default for State {
    fn default() -> (r: State)
        ensures
            r.accounts@ == Map::<u16, Account>::empty(),
            r.amounts@ == Map::<u32, Amount>::empty(),
    {
        State { accounts: HashMap::new(), amounts: HashMap::new() }
    }
}

/// Runs `tx` on the account of its client, creating that account where it is new.
pub fn run_tx(state: State, tx: Tx) -> (r: State)
    ensures
        (r.accounts@, r.amounts@) == step_spec(state.accounts@, state.amounts@, tx),
{
    let mut state = state;
    let client_id = tx.client_id;
    let mut account = match state.accounts.get(&client_id) {
        Some(existing) => *existing,
        None => Account::default(),
    };
    account.run(&mut state.amounts, tx);
    state.accounts.insert(client_id, account);
    state
}

/// Runs every transaction of `txs`, in order, from no accounts.
pub fn replay(txs: &[Tx]) -> (r: State)
    ensures
        (r.accounts@, r.amounts@) == replay_spec(txs@),
{
    let mut state = State::default();
    let mut i: usize = 0;
    while i < txs.len()
        invariant
            i <= txs@.len(),
            (state.accounts@, state.amounts@) == replay_spec(txs@.subrange(0, i as int)),
        decreases txs@.len() - i,
    {
        assert(txs@.subrange(0, i as int + 1).drop_last() =~= txs@.subrange(0, i as int));
        state = run_tx(state, txs[i]);
        i = i + 1;
    }
    assert(txs@.subrange(0, txs@.len() as int) =~= txs@);
    state
}

} // verus!
