use vstd::prelude::*;

use crate::model::{Amount, ClientId, TxId};

verus! {

/// Errors relating to invalid transactions.
#[derive(Clone, Copy, Debug, PartialEq, Eq)]
pub enum TxError {
    /// The account is locked: no transaction applies to it any more.
    AccountLocked {
        /// Client ID.
        client: ClientId,
        /// Transaction ID that is not processed.
        tx: TxId,
    },
    /// Dispute transaction client ID does not match client ID of the disputed
    /// transaction.
    DisputeClientMismatch {
        /// Transaction ID that is disputed.
        tx: TxId,
        /// Client ID of the `dispute` transaction.
        dispute_tx_client: ClientId,
        /// Client ID of the transaction that is disputed.
        disputed_tx_client: ClientId,
    },
    /// Dispute transaction not found in transaction block files.
    DisputeTxNotFound {
        /// Transaction ID that is disputed.
        tx: TxId,
    },
    /// The disputed transaction is already under an open dispute.
    DisputeTxAlreadyDisputed {
        /// Client ID.
        client: ClientId,
        /// Transaction ID that is disputed.
        tx: TxId,
    },
    /// Account does not have sufficient funds to hold in a dispute.
    DisputeInsufficientAvailable {
        /// Client ID.
        client: ClientId,
        /// Transaction ID that is disputed.
        tx: TxId,
        /// Amount client has available.
        available: Amount,
        /// Amount that is disputed.
        amount: Amount,
    },
    /// Account held amount would overflow for dispute.
    DisputeHeldOverflow {
        /// Client ID.
        client: ClientId,
        /// Transaction ID that is disputed.
        tx: TxId,
        /// Amount client has held.
        held: Amount,
        /// Amount that is disputed.
        amount: Amount,
    },
    /// Resolve transaction client ID does not match client ID of the disputed
    /// transaction.
    ResolveClientMismatch {
        /// Transaction ID that is disputed.
        tx: TxId,
        /// Client ID of the `dispute` transaction.
        resolve_tx_client: ClientId,
        /// Client ID of the transaction that is disputed.
        disputed_tx_client: ClientId,
    },
    /// Account does not have sufficient funds to unhold in a dispute
    /// resolution.
    ResolveInsufficientHeld {
        /// Client ID.
        client: ClientId,
        /// Transaction ID that is disputed.
        tx: TxId,
        /// Amount client has held.
        held: Amount,
        /// Amount that is disputed.
        amount: Amount,
    },
    /// Account available amount would overflow for dispute resolution.
    ResolveAvailableOverflow {
        /// Client ID.
        client: ClientId,
        /// Transaction ID that is disputed.
        tx: TxId,
        /// Amount client has available.
        available: Amount,
        /// Amount that is disputed.
        amount: Amount,
    },
    /// Resolve transaction ID is not in dispute.
    ResolveTxNotInDispute {
        /// Client ID.
        client: ClientId,
        /// Transaction ID that is disputed.
        tx: TxId,
    },
    /// Chargeback transaction client ID does not match client ID of the
    /// disputed transaction.
    ChargebackClientMismatch {
        /// Transaction ID that is disputed.
        tx: TxId,
        /// Client ID of the `dispute` transaction.
        chargeback_tx_client: ClientId,
        /// Client ID of the transaction that is disputed.
        disputed_tx_client: ClientId,
    },
    /// Account does not have sufficient funds to unhold in a dispute
    /// chargeback.
    ChargebackInsufficientHeld {
        /// Client ID.
        client: ClientId,
        /// Transaction ID that is disputed.
        tx: TxId,
        /// Amount client has held.
        held: Amount,
        /// Amount that is disputed.
        amount: Amount,
    },
    /// Chargeback transaction ID is not in dispute.
    ChargebackTxNotInDispute {
        /// Client ID.
        client: ClientId,
        /// Transaction ID that is disputed.
        tx: TxId,
    },
    /// Deposit transaction amount is negative.
    DepositAmountNegative {
        /// Client ID.
        client: ClientId,
        /// Transaction ID.
        tx: TxId,
        /// Amount in the transaction.
        amount: Amount,
    },
    /// Deposit transaction would cause an account's available funds to
    /// overflow.
    DepositAvailableOverflow {
        /// Client ID.
        client: ClientId,
        /// Transaction ID.
        tx: TxId,
    },
    /// Deposit transaction would cause an account's total funds to overflow.
    DepositTotalOverflow {
        /// Client ID.
        client: ClientId,
        /// Transaction ID.
        tx: TxId,
    },
    /// Withdrawal transaction amount is negative.
    WithdrawalAmountNegative {
        /// Client ID.
        client: ClientId,
        /// Transaction ID.
        tx: TxId,
        /// Amount in the transaction.
        amount: Amount,
    },
    /// Account does not have sufficient funds to withdraw.
    WithdrawalInsufficientAvailable {
        /// Client ID.
        client: ClientId,
        /// Withdrawal transaction ID.
        tx: TxId,
        /// Amount client has available.
        available: Amount,
        /// Amount to withdraw.
        amount: Amount,
    },
}

} // verus!
