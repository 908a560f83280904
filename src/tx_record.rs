use vstd::prelude::*;

use crate::error::Error;
use crate::model::{Amount, Chargeback, ClientId, Deposit, Dispute, Resolve, Transaction, TxId, Withdrawal};

verus! {

/// Types of transactions.
#[derive(Clone, Copy, Debug, PartialEq, Eq, Structural)]
pub enum TxType {
    /// Credit to the client's asset account.
    Deposit,
    /// Debit to the client's asset account.
    Withdrawal,
    /// Client's claim that a transaction was erroneous and should be reversed.
    Dispute,
    /// Resolution to a dispute, releasing the associated held funds.
    Resolve,
    /// Final state of a dispute: the client reverses a transaction.
    Chargeback,
}

/// One row of a transactions file: `type, client, tx, amount`, where the
/// amount may be missing.
#[derive(Clone, Copy, Debug, PartialEq, Eq)]
pub struct TxRecord {
    pub kind: TxType,
    pub client: ClientId,
    pub tx: TxId,
    pub amount: Option<Amount>,
}

/// `t` is the transaction that `record` describes, when the record is valid.
pub open spec fn describes(record: TxRecord, t: Transaction) -> bool {
    &&& t.client() == record.client
    &&& t.tx() == record.tx
    &&& match (record.kind, t) {
        (TxType::Deposit, Transaction::Deposit(d)) => record.amount == Some(d.amount()),
        (TxType::Withdrawal, Transaction::Withdrawal(w)) => record.amount == Some(w.amount()),
        (TxType::Dispute, Transaction::Dispute(_)) => true,
        (TxType::Resolve, Transaction::Resolve(_)) => true,
        (TxType::Chargeback, Transaction::Chargeback(_)) => true,
        _ => false,
    }
}

impl TxRecord {
    /// The record that describes `transaction`; amounts are written for
    /// deposits and withdrawals only.
    pub fn from_transaction(transaction: Transaction) -> (r: TxRecord)
        ensures
            describes(r, transaction),
            r.amount is Some <==> (transaction is Deposit || transaction is Withdrawal),
    {
        match transaction {
            Transaction::Deposit(d) => TxRecord {
                kind: TxType::Deposit,
                client: d.client(),
                tx: d.tx(),
                amount: Some(d.amount()),
            },
            Transaction::Withdrawal(w) => TxRecord {
                kind: TxType::Withdrawal,
                client: w.client(),
                tx: w.tx(),
                amount: Some(w.amount()),
            },
            Transaction::Dispute(d) => TxRecord {
                kind: TxType::Dispute,
                client: d.client(),
                tx: d.tx(),
                amount: None,
            },
            Transaction::Resolve(s) => TxRecord {
                kind: TxType::Resolve,
                client: s.client(),
                tx: s.tx(),
                amount: None,
            },
            Transaction::Chargeback(c) => TxRecord {
                kind: TxType::Chargeback,
                client: c.client(),
                tx: c.tx(),
                amount: None,
            },
        }
    }
}

impl Transaction {
    /// The transaction that `record` describes. A deposit or withdrawal needs
    /// an amount; the other kinds ignore it.
    pub fn try_from_record(record: TxRecord) -> (r: Result<Transaction, Error>)
        ensures
            (record.kind == TxType::Deposit && record.amount is None) <==> r == Err::<
                Transaction,
                Error,
            >(Error::DepositAmountNotProvided { client: record.client, tx: record.tx }),
            (record.kind == TxType::Withdrawal && record.amount is None) <==> r == Err::<
                Transaction,
                Error,
            >(Error::WithdrawalAmountNotProvided { client: record.client, tx: record.tx }),
            r matches Ok(t) ==> describes(record, t),
            r is Ok || (record.kind == TxType::Deposit || record.kind == TxType::Withdrawal)
                && record.amount is None,
    {
        let TxRecord { kind, client, tx, amount } = record;
        match kind {
            TxType::Deposit => match amount {
                Some(amount) => Ok(Transaction::Deposit(Deposit::new(client, tx, amount))),
                None => Err(Error::DepositAmountNotProvided { client, tx }),
            },
            TxType::Withdrawal => match amount {
                Some(amount) => Ok(Transaction::Withdrawal(Withdrawal::new(client, tx, amount))),
                None => Err(Error::WithdrawalAmountNotProvided { client, tx }),
            },
            TxType::Dispute => Ok(Transaction::Dispute(Dispute::new(client, tx))),
            TxType::Resolve => Ok(Transaction::Resolve(Resolve::new(client, tx))),
            TxType::Chargeback => Ok(Transaction::Chargeback(Chargeback::new(client, tx))),
        }
    }
}

} // verus!
