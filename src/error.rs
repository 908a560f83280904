use vstd::prelude::*;

use crate::model::{ClientId, TxId};

verus! {

/// Errors that stop processing.
#[derive(Debug, PartialEq, Eq)]
pub enum Error {
    /// Block file name not in the format `min_max.csv`.
    BlockFileNameInvalid {
        /// Name of the file in the transaction block store.
        file_name: String,
    },
    /// Deposit amount not provided in transaction record.
    DepositAmountNotProvided {
        /// Client ID.
        client: ClientId,
        /// Transaction ID.
        tx: TxId,
    },
    /// Withdrawal amount not provided in transaction record.
    WithdrawalAmountNotProvided {
        /// Client ID.
        client: ClientId,
        /// Transaction ID.
        tx: TxId,
    },
}

} // verus!
