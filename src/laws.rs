//! Properties of the replay engine, stated over its specifications and proved.
use crate::amount::{in_i128, Amount};
use crate::ledger::{replay_spec, run_spec, step_spec, Account, State};
use crate::transaction::{Tx, TxType};
use vstd::prelude::*;

verus! {

/// Whether an account's total is the sum of its available and held funds.
pub open spec fn balanced(acc: Account) -> bool {
    acc.total@ == acc.available@ + acc.held@
}

/// Whether every account of the map is balanced.
pub open spec fn all_balanced(accounts: Map<u16, Account>) -> bool {
    forall|c: u16| #[trigger] accounts.contains_key(c) ==> balanced(accounts[c])
}

/// Replaying one sequence of transactions twice, from no accounts, gives the same
/// accounts and recorded amounts both times.
pub proof fn replay_is_deterministic(txs: Seq<Tx>, first: State, second: State)
    requires
        (first.accounts@, first.amounts@) == replay_spec(txs),
        (second.accounts@, second.amounts@) == replay_spec(txs),
    ensures
        first.accounts@ == second.accounts@,
        first.amounts@ == second.amounts@,
{
}

/// Running any transaction on a balanced account leaves it balanced.
pub proof fn run_keeps_balance(acc: Account, amounts: Map<u32, Amount>, tx: Tx)
    requires
        balanced(acc),
    ensures
        balanced(run_spec(acc, amounts, tx).0),
{
}

/// One step of the replay keeps every account balanced.
pub proof fn step_keeps_balance(accounts: Map<u16, Account>, amounts: Map<u32, Amount>, tx: Tx)
    requires
        all_balanced(accounts),
    ensures
        all_balanced(step_spec(accounts, amounts, tx).0),
{
    let acc = if accounts.contains_key(tx.client_id) {
        accounts[tx.client_id]
    } else {
        crate::ledger::empty_account()
    };
    run_keeps_balance(acc, amounts, tx);
}

/// After every transaction of a replay from no accounts, each account's total is its
/// available plus its held funds.
pub proof fn replay_keeps_balance(txs: Seq<Tx>)
    ensures
        all_balanced(replay_spec(txs).0),
    decreases txs.len(),
{
    if txs.len() > 0 {
        replay_keeps_balance(txs.drop_last());
        let (accounts, amounts) = replay_spec(txs.drop_last());
        step_keeps_balance(accounts, amounts, txs.last());
    }
}

/// A dispute, resolve or chargeback of a transaction with no recorded amount changes
/// neither the account nor the recorded amounts.
pub proof fn unknown_reference_changes_nothing(acc: Account, amounts: Map<u32, Amount>, tx: Tx)
    requires
        tx.tx_type is Dispute || tx.tx_type is Resolve || tx.tx_type is Chargeback,
        !amounts.contains_key(tx.tx_id),
    ensures
        run_spec(acc, amounts, tx) == (acc, amounts),
{
}

/// A deposit of `a`, then a dispute and a resolve of it, bring the available and held
/// funds back to their values before the dispute; the total does not move after the
/// deposit. The balances must stay in range, so that no step is dropped.
pub proof fn dispute_then_resolve(
    acc: Account,
    amounts: Map<u32, Amount>,
    client_id: u16,
    tx_id: u32,
    a: Amount,
)
    requires
        in_i128(acc.available@ + a@),
        in_i128(acc.total@ + a@),
        in_i128(acc.held@ + a@),
    ensures
        ({
            let (deposited, m1) = run_spec(
                acc,
                amounts,
                Tx { tx_type: TxType::Deposit(a), client_id, tx_id },
            );
            let (disputed, m2) = run_spec(
                deposited,
                m1,
                Tx { tx_type: TxType::Dispute, client_id, tx_id },
            );
            let (resolved, m3) = run_spec(
                disputed,
                m2,
                Tx { tx_type: TxType::Resolve, client_id, tx_id },
            );
            &&& disputed.available@ == deposited.available@ - a@
            &&& disputed.held@ == deposited.held@ + a@
            &&& disputed.total == deposited.total
            &&& resolved == deposited
            &&& m3 == m1
        }),
{
}

/// A deposit of `a`, then a dispute and a chargeback of it, leave the available funds as
/// the dispute left them, bring the held funds back to their value before the dispute,
/// take `a` from the total and lock the account. The balances must stay in range, so
/// that no step is dropped.
pub proof fn dispute_then_chargeback(
    acc: Account,
    amounts: Map<u32, Amount>,
    client_id: u16,
    tx_id: u32,
    a: Amount,
)
    requires
        in_i128(acc.available@ + a@),
        in_i128(acc.total@ + a@),
        in_i128(acc.held@ + a@),
    ensures
        ({
            let (deposited, m1) = run_spec(
                acc,
                amounts,
                Tx { tx_type: TxType::Deposit(a), client_id, tx_id },
            );
            let (disputed, m2) = run_spec(
                deposited,
                m1,
                Tx { tx_type: TxType::Dispute, client_id, tx_id },
            );
            let (charged, m3) = run_spec(
                disputed,
                m2,
                Tx { tx_type: TxType::Chargeback, client_id, tx_id },
            );
            &&& charged.available == disputed.available
            &&& charged.held == deposited.held
            &&& charged.total@ == deposited.total@ - a@
            &&& charged.locked
            &&& m3 == m1
        }),
{
}

} // verus!
