//! Transactions, and how they are built from raw input records.
use crate::amount::{amount_of_text, Amount};
use vstd::prelude::*;

verus! {

/// The kind of a raw input record.
#[derive(Clone, Copy, Debug, PartialEq, Eq, Structural)]
pub enum TxRowType {
    Deposit,
    Withdrawal,
    Dispute,
    Resolve,
    Chargeback,
}

/// A raw input record: a kind, a client, a transaction id and perhaps an amount in text.
#[derive(Debug)]
pub struct TxRow {
    pub tx_row_type: TxRowType,
    pub client_id: u16,
    pub tx_id: u32,
    pub amount: Option<String>,
}

/// What a transaction does. Only deposits and withdrawals move an amount.
#[derive(Clone, Copy, Debug, PartialEq, Eq, Structural)]
pub enum TxType {
    Deposit(Amount),
    Withdrawal(Amount),
    Dispute,
    Resolve,
    Chargeback,
}

/// A transaction on the account of `client_id`.
#[derive(Clone, Copy, Debug, PartialEq, Eq, Structural)]
pub struct Tx {
    pub tx_type: TxType,
    pub client_id: u16,
    pub tx_id: u32,
}

/// Why a record does not make a transaction.
#[derive(Clone, Copy, Debug, PartialEq, Eq, Structural)]
pub enum MalformedTransaction {
    /// A deposit or withdrawal without an amount.
    MissingAmount,
    /// A deposit or withdrawal whose amount is no decimal number that an `Amount` holds.
    InvalidAmount,
}

/// The amount that a deposit or withdrawal record carries.
pub open spec fn row_amount(amount: Option<String>) -> Result<Amount, MalformedTransaction> {
    match amount {
        Some(text) => match amount_of_text(text@) {
            Some(a) => Ok(a),
            None => Err(MalformedTransaction::InvalidAmount),
        },
        None => Err(MalformedTransaction::MissingAmount),
    }
}

/// The transaction that a record makes. Disputes, resolves and chargebacks ignore any amount.
pub open spec fn tx_of_row(row: TxRow) -> Result<Tx, MalformedTransaction> {
    let kind = match row.tx_row_type {
        TxRowType::Deposit => match row_amount(row.amount) {
            Ok(a) => Ok(TxType::Deposit(a)),
            Err(e) => Err(e),
        },
        TxRowType::Withdrawal => match row_amount(row.amount) {
            Ok(a) => Ok(TxType::Withdrawal(a)),
            Err(e) => Err(e),
        },
        TxRowType::Dispute => Ok(TxType::Dispute),
        TxRowType::Resolve => Ok(TxType::Resolve),
        TxRowType::Chargeback => Ok(TxType::Chargeback),
    };
    match kind {
        Ok(tx_type) => Ok(Tx { tx_type, client_id: row.client_id, tx_id: row.tx_id }),
        Err(e) => Err(e),
    }
}

/// Reads the amount of a deposit or withdrawal record.
fn read_amount(amount: &Option<String>) -> (r: Result<Amount, MalformedTransaction>)
    ensures
        r == row_amount(*amount),
{
    match amount {
        Some(text) => match Amount::parse(text.as_str()) {
            Some(a) => Ok(a),
            None => Err(MalformedTransaction::InvalidAmount),
        },
        None => Err(MalformedTransaction::MissingAmount),
    }
}

impl Tx {
    /// Builds the transaction that `tx_row` describes.
    pub fn try_from(tx_row: TxRow) -> (r: Result<Tx, MalformedTransaction>)
        ensures
            r == tx_of_row(tx_row),
    {
        let client_id = tx_row.client_id;
        let tx_id = tx_row.tx_id;
        let tx_type = match tx_row.tx_row_type {
            TxRowType::Deposit => match read_amount(&tx_row.amount) {
                Ok(a) => TxType::Deposit(a),
                Err(e) => {
                    return Err(e);
                },
            },
            TxRowType::Withdrawal => match read_amount(&tx_row.amount) {
                Ok(a) => TxType::Withdrawal(a),
                Err(e) => {
                    return Err(e);
                },
            },
            TxRowType::Dispute => TxType::Dispute,
            TxRowType::Resolve => TxType::Resolve,
            TxRowType::Chargeback => TxType::Chargeback,
        };
        Ok(Tx { tx_type, client_id, tx_id })
    }
}

/// The transaction of a record that was read, or `None` where reading it failed or it is
/// malformed.
pub fn into_tx<E>(tx_row: Result<TxRow, E>) -> (r: Option<Tx>)
    ensures
        r == match tx_row {
            Ok(row) => match tx_of_row(row) {
                Ok(tx) => Some(tx),
                Err(_) => None,
            },
            Err(_) => None,
        },
{
    match tx_row {
        Ok(row) => match Tx::try_from(row) {
            Ok(tx) => Some(tx),
            Err(_) => None,
        },
        Err(_) => None,
    }
}

} // verus!
