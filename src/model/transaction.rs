use vstd::prelude::*;

use crate::model::{Amount, ClientId, TxId};

verus! {

/// A transaction of the input stream.
#[derive(Clone, Copy, Debug, PartialEq, Eq)]
pub enum Transaction {
    /// Credit to the client's asset account.
    Deposit(Deposit),
    /// Debit to the client's asset account.
    Withdrawal(Withdrawal),
    /// Client's claim that a transaction was erroneous and should be reversed.
    Dispute(Dispute),
    /// Resolution to a dispute, releasing the associated held funds.
    Resolve(Resolve),
    /// Final state of a dispute: the client reverses a transaction.
    Chargeback(Chargeback),
}

impl Transaction {
    pub open spec fn spec_client(&self) -> ClientId {
        match self {
            Transaction::Deposit(t) => t.client(),
            Transaction::Withdrawal(t) => t.client(),
            Transaction::Dispute(t) => t.client(),
            Transaction::Resolve(t) => t.client(),
            Transaction::Chargeback(t) => t.client(),
        }
    }

    pub open spec fn spec_tx(&self) -> TxId {
        match self {
            Transaction::Deposit(t) => t.tx(),
            Transaction::Withdrawal(t) => t.tx(),
            Transaction::Dispute(t) => t.tx(),
            Transaction::Resolve(t) => t.tx(),
            Transaction::Chargeback(t) => t.tx(),
        }
    }

    /// Returns this transaction's client ID.
    #[verifier::when_used_as_spec(spec_client)]
    pub fn client(&self) -> (r: ClientId)
        ensures
            r == self.spec_client(),
    {
        match self {
            Transaction::Deposit(t) => t.client(),
            Transaction::Withdrawal(t) => t.client(),
            Transaction::Dispute(t) => t.client(),
            Transaction::Resolve(t) => t.client(),
            Transaction::Chargeback(t) => t.client(),
        }
    }

    /// Returns this transaction's transaction ID.
    #[verifier::when_used_as_spec(spec_tx)]
    pub fn tx(&self) -> (r: TxId)
        ensures
            r == self.spec_tx(),
    {
        match self {
            Transaction::Deposit(t) => t.tx(),
            Transaction::Withdrawal(t) => t.tx(),
            Transaction::Dispute(t) => t.tx(),
            Transaction::Resolve(t) => t.tx(),
            Transaction::Chargeback(t) => t.tx(),
        }
    }
}

/// Credit to the client's asset account.
#[derive(Clone, Copy, Debug, PartialEq, Eq)]
pub struct Deposit {
    client: ClientId,
    tx: TxId,
    amount: Amount,
}

impl Deposit {
    pub closed spec fn spec_client(&self) -> ClientId {
        self.client
    }

    pub closed spec fn spec_tx(&self) -> TxId {
        self.tx
    }

    pub closed spec fn spec_amount(&self) -> Amount {
        self.amount
    }

    /// Returns a new `Deposit` transaction.
    pub fn new(client: ClientId, tx: TxId, amount: Amount) -> (r: Self)
        ensures
            r.client() == client,
            r.tx() == tx,
            r.amount() == amount,
    {
        Self { client, tx, amount }
    }

    /// Get the transaction's client.
    #[verifier::when_used_as_spec(spec_client)]
    pub fn client(&self) -> (r: ClientId)
        ensures
            r == self.spec_client(),
    {
        self.client
    }

    /// Get the transaction's tx.
    #[verifier::when_used_as_spec(spec_tx)]
    pub fn tx(&self) -> (r: TxId)
        ensures
            r == self.spec_tx(),
    {
        self.tx
    }

    /// Get the transaction's amount.
    #[verifier::when_used_as_spec(spec_amount)]
    pub fn amount(&self) -> (r: Amount)
        ensures
            r == self.spec_amount(),
    {
        self.amount
    }
}

/// Debit to the client's asset account.
#[derive(Clone, Copy, Debug, PartialEq, Eq)]
pub struct Withdrawal {
    client: ClientId,
    tx: TxId,
    amount: Amount,
}

impl Withdrawal {
    pub closed spec fn spec_client(&self) -> ClientId {
        self.client
    }

    pub closed spec fn spec_tx(&self) -> TxId {
        self.tx
    }

    pub closed spec fn spec_amount(&self) -> Amount {
        self.amount
    }

    /// Returns a new `Withdrawal` transaction.
    pub fn new(client: ClientId, tx: TxId, amount: Amount) -> (r: Self)
        ensures
            r.client() == client,
            r.tx() == tx,
            r.amount() == amount,
    {
        Self { client, tx, amount }
    }

    /// Get the transaction's client.
    #[verifier::when_used_as_spec(spec_client)]
    pub fn client(&self) -> (r: ClientId)
        ensures
            r == self.spec_client(),
    {
        self.client
    }

    /// Get the transaction's tx.
    #[verifier::when_used_as_spec(spec_tx)]
    pub fn tx(&self) -> (r: TxId)
        ensures
            r == self.spec_tx(),
    {
        self.tx
    }

    /// Get the transaction's amount.
    #[verifier::when_used_as_spec(spec_amount)]
    pub fn amount(&self) -> (r: Amount)
        ensures
            r == self.spec_amount(),
    {
        self.amount
    }
}

/// Client's claim that a transaction was erroneous and should be reversed.
#[derive(Clone, Copy, Debug, PartialEq, Eq)]
pub struct Dispute {
    client: ClientId,
    tx: TxId,
}

impl Dispute {
    pub closed spec fn spec_client(&self) -> ClientId {
        self.client
    }

    pub closed spec fn spec_tx(&self) -> TxId {
        self.tx
    }

    /// Returns a new `Dispute` transaction.
    pub fn new(client: ClientId, tx: TxId) -> (r: Self)
        ensures
            r.client() == client,
            r.tx() == tx,
    {
        Self { client, tx }
    }

    /// Get the transaction's client.
    #[verifier::when_used_as_spec(spec_client)]
    pub fn client(&self) -> (r: ClientId)
        ensures
            r == self.spec_client(),
    {
        self.client
    }

    /// Get the transaction's tx.
    #[verifier::when_used_as_spec(spec_tx)]
    pub fn tx(&self) -> (r: TxId)
        ensures
            r == self.spec_tx(),
    {
        self.tx
    }
}

/// Resolution to a dispute, releasing the associated held funds.
#[derive(Clone, Copy, Debug, PartialEq, Eq)]
pub struct Resolve {
    client: ClientId,
    tx: TxId,
}

impl Resolve {
    pub closed spec fn spec_client(&self) -> ClientId {
        self.client
    }

    pub closed spec fn spec_tx(&self) -> TxId {
        self.tx
    }

    /// Returns a new `Resolve` transaction.
    pub fn new(client: ClientId, tx: TxId) -> (r: Self)
        ensures
            r.client() == client,
            r.tx() == tx,
    {
        Self { client, tx }
    }

    /// Get the transaction's client.
    #[verifier::when_used_as_spec(spec_client)]
    pub fn client(&self) -> (r: ClientId)
        ensures
            r == self.spec_client(),
    {
        self.client
    }

    /// Get the transaction's tx.
    #[verifier::when_used_as_spec(spec_tx)]
    pub fn tx(&self) -> (r: TxId)
        ensures
            r == self.spec_tx(),
    {
        self.tx
    }
}

/// Final state of a dispute: the client reverses a transaction.
#[derive(Clone, Copy, Debug, PartialEq, Eq)]
pub struct Chargeback {
    client: ClientId,
    tx: TxId,
}

impl Chargeback {
    pub closed spec fn spec_client(&self) -> ClientId {
        self.client
    }

    pub closed spec fn spec_tx(&self) -> TxId {
        self.tx
    }

    /// Returns a new `Chargeback` transaction.
    pub fn new(client: ClientId, tx: TxId) -> (r: Self)
        ensures
            r.client() == client,
            r.tx() == tx,
    {
        Self { client, tx }
    }

    /// Get the transaction's client.
    #[verifier::when_used_as_spec(spec_client)]
    pub fn client(&self) -> (r: ClientId)
        ensures
            r == self.spec_client(),
    {
        self.client
    }

    /// Get the transaction's tx.
    #[verifier::when_used_as_spec(spec_tx)]
    pub fn tx(&self) -> (r: TxId)
        ensures
            r == self.spec_tx(),
    {
        self.tx
    }
}

} // verus!
