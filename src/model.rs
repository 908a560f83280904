//! The data model: amounts, identifiers, transactions and accounts.

pub mod account;
pub mod accounts;
pub mod amount;
pub mod client_id;
pub mod transaction;
pub mod tx_id;

pub use self::{
    account::{Account, AccountView, TotalOverflow},
    accounts::Accounts,
    amount::Amount,
    client_id::ClientId,
    transaction::{Chargeback, Deposit, Dispute, Resolve, Transaction, Withdrawal},
    tx_id::TxId,
};
